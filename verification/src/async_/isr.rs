//! Interrupt decoding for the UART ISR handler.
//!
//! The handler reads the ISR, disables the interrupt it reports and wakes
//! the matching task; which of these it does is decided here.

use vstd::prelude::*;

use crate::registers::{ISR, InterruptType, LSR, LSR_TRANSMITTER_EMPTY, isr_interrupt};

verus! {

/// What the ISR handler does for one interrupt.
#[derive(Debug, Clone, Copy, PartialEq, Eq, Structural)]
pub enum IsrAction {
    /// Received data is ready (or timed out): disable the RX interrupt and
    /// wake the RX copier.
    Receive,
    /// The transmit holding register is empty: disable the TX interrupt,
    /// wake the TX copier, and wake drain waiters if the transmitter is
    /// fully empty.
    Transmit,
    /// Nothing to do here.
    Ignore,
}

/// The action for an interrupt of the given type.
pub open spec fn action_for(t: Option<InterruptType>) -> IsrAction {
    match t {
        Some(InterruptType::ReceivedDataReady) => IsrAction::Receive,
        Some(InterruptType::ReceptionTimeout) => IsrAction::Receive,
        Some(InterruptType::TransmitterHoldingRegisterEmpty) => IsrAction::Transmit,
        _ => IsrAction::Ignore,
    }
}

/// Decide what the ISR handler does for the interrupt that `isr` reports.
pub fn isr_action(isr: ISR) -> (a: IsrAction)
    ensures
        a == action_for(isr_interrupt(isr@)),
{
    match isr.interrupt_type() {
        Some(InterruptType::ReceivedDataReady) | Some(InterruptType::ReceptionTimeout) => {
            IsrAction::Receive
        },
        Some(InterruptType::TransmitterHoldingRegisterEmpty) => IsrAction::Transmit,
        _ => IsrAction::Ignore,
    }
}

/// Whether drain waiters are woken after a THR-empty interrupt: the line
/// status reports the transmitter fully empty.
pub fn wakes_drain(lsr: LSR) -> (b: bool)
    ensures
        b == (lsr@ & LSR_TRANSMITTER_EMPTY == LSR_TRANSMITTER_EMPTY),
{
    lsr.transmitter_empty()
}

/// Only a pending received-data or reception-timeout interrupt wakes the
/// RX copier, and only a pending THR-empty interrupt wakes the TX copier;
/// an ISR value with bit 0 set (no interrupt pending) is ignored.
pub proof fn lemma_isr_dispatch(bits: u8)
    ensures
        bits % 2 == 1 ==> action_for(isr_interrupt(bits)) == IsrAction::Ignore,
        action_for(isr_interrupt(bits)) == IsrAction::Receive <==> (bits % 2 == 0 && ((bits / 2) % 8 == 2
            || (bits / 2) % 8 == 6)),
        action_for(isr_interrupt(bits)) == IsrAction::Transmit <==> (bits % 2 == 0 && (bits / 2) % 8
            == 1),
{
}

} // verus!
