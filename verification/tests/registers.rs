use uart_16550::async_::isr::{isr_action, wakes_drain, IsrAction};
use uart_16550::registers::{InterruptType, IER, ISR, LSR, LSR_THR_EMPTY, LSR_TRANSMITTER_EMPTY};

#[test]
fn interrupt_type_decodes_the_identification_code() {
    let cases = [
        (0b0000_0110u8, Some(InterruptType::ReceiverLineStatus)),
        (0b0000_0100, Some(InterruptType::ReceivedDataReady)),
        (0b0000_1100, Some(InterruptType::ReceptionTimeout)),
        (0b0000_0010, Some(InterruptType::TransmitterHoldingRegisterEmpty)),
        (0b0000_0000, Some(InterruptType::ModemStatus)),
        (0b0000_1110, Some(InterruptType::DmaReceptionEndOfTransfer)),
        (0b0000_1010, Some(InterruptType::DmaTransmissionEndOfTransfer)),
        (0b0000_1000, None),
        (0b0000_0001, None),
        (0b1100_0001, None),
        (0b1100_0100, Some(InterruptType::ReceivedDataReady)),
    ];
    for (bits, expected) in cases {
        assert_eq!(ISR::from_bits_retain(bits).interrupt_type(), expected, "isr {:#010b}", bits);
    }
}

#[test]
fn isr_action_follows_the_interrupt_type() {
    assert_eq!(isr_action(ISR::from_bits_retain(0b0100)), IsrAction::Receive);
    assert_eq!(isr_action(ISR::from_bits_retain(0b1100)), IsrAction::Receive);
    assert_eq!(isr_action(ISR::from_bits_retain(0b0010)), IsrAction::Transmit);
    assert_eq!(isr_action(ISR::from_bits_retain(0b0110)), IsrAction::Ignore);
    assert_eq!(isr_action(ISR::from_bits_retain(0b0000)), IsrAction::Ignore);
    assert_eq!(isr_action(ISR::from_bits_retain(0b0001)), IsrAction::Ignore);
    assert_eq!(isr_action(ISR::from_bits_retain(0b0101)), IsrAction::Ignore);
}

#[test]
fn drain_wake_needs_the_transmitter_empty_bit() {
    assert!(wakes_drain(LSR::from_bits_retain(LSR_TRANSMITTER_EMPTY | LSR_THR_EMPTY)));
    assert!(wakes_drain(LSR::from_bits_retain(LSR_TRANSMITTER_EMPTY)));
    assert!(!wakes_drain(LSR::from_bits_retain(LSR_THR_EMPTY)));
    assert!(!wakes_drain(LSR::from_bits_retain(0)));
}

#[test]
fn lsr_contains_checks_every_bit_of_the_mask() {
    let lsr = LSR::from_bits_retain(0b0110_0001);
    assert!(lsr.contains(0b0100_0001));
    assert!(!lsr.contains(0b0100_0010));
    assert_eq!(lsr.bits(), 0b0110_0001);
}

#[test]
fn ier_values_carry_their_bits() {
    assert_eq!(IER::empty().bits(), 0);
    assert_eq!(IER::data_ready().bits(), 1);
    assert_eq!(IER::thr_empty().bits(), 2);
    assert_eq!(IER::from_bits_retain(0x0f).bits(), 0x0f);
}
