//! UART 16550 register values used by the async stack: the interrupt
//! enable register (IER), the interrupt status register (ISR) with its
//! interrupt identification code, and the line status register (LSR).

use vstd::prelude::*;

verus! {

/// IER bit 0: received data available.
pub const IER_DATA_READY: u8 = 0x01;

/// IER bit 1: transmitter holding register empty.
pub const IER_THR_EMPTY: u8 = 0x02;

/// IER bit 2: receiver line status.
pub const IER_RECEIVER_LINE_STATUS: u8 = 0x04;

/// IER bit 3: modem status.
pub const IER_MODEM_STATUS: u8 = 0x08;

/// LSR bit 0: data ready.
pub const LSR_DATA_READY: u8 = 0x01;

/// LSR bit 5: transmitter holding register empty.
pub const LSR_THR_EMPTY: u8 = 0x20;

/// LSR bit 6: transmitter empty (FIFO and shift register drained).
pub const LSR_TRANSMITTER_EMPTY: u8 = 0x40;

/// Interrupt enable register value.
#[derive(Debug, Clone, Copy, PartialEq, Eq, Structural)]
pub struct IER {
    bits: u8,
}

impl View for IER {
    type V = u8;

    closed spec fn view(&self) -> u8 {
        self.bits
    }
}

impl IER {
    /// The value with the given raw bits, unknown bits kept.
    pub fn from_bits_retain(bits: u8) -> (r: IER)
        ensures
            r@ == bits,
    {
        IER { bits }
    }

    /// The raw bits.
    pub fn bits(&self) -> (b: u8)
        ensures
            b == self@,
    {
        self.bits
    }

    /// No interrupt enabled.
    pub fn empty() -> (r: IER)
        ensures
            r@ == 0,
    {
        IER { bits: 0 }
    }

    /// Received-data-available interrupt.
    pub fn data_ready() -> (r: IER)
        ensures
            r@ == IER_DATA_READY,
    {
        IER { bits: IER_DATA_READY }
    }

    /// Transmitter-holding-register-empty interrupt.
    pub fn thr_empty() -> (r: IER)
        ensures
            r@ == IER_THR_EMPTY,
    {
        IER { bits: IER_THR_EMPTY }
    }
}

/// Interrupt type, decoded from the interrupt identification code in
/// ISR bits 3..1.
#[derive(Debug, Clone, Copy, PartialEq, Eq, Structural)]
pub enum InterruptType {
    /// Code 0b011: receiver line status (overrun, parity, framing, break).
    ReceiverLineStatus,
    /// Code 0b010: received data available.
    ReceivedDataReady,
    /// Code 0b110: character reception timeout.
    ReceptionTimeout,
    /// Code 0b001: transmitter holding register empty.
    TransmitterHoldingRegisterEmpty,
    /// Code 0b000: modem status change.
    ModemStatus,
    /// Code 0b111: DMA reception end of transfer (non-standard).
    DmaReceptionEndOfTransfer,
    /// Code 0b101: DMA transmission end of transfer (non-standard).
    DmaTransmissionEndOfTransfer,
}

/// The interrupt that an ISR value reports: none when bit 0 (no interrupt
/// pending) is set, else the type named by the code in bits 3..1.
pub open spec fn isr_interrupt(bits: u8) -> Option<InterruptType> {
    if bits % 2 == 1 {
        None
    } else {
        let code = (bits / 2) % 8;
        if code == 3 {
            Some(InterruptType::ReceiverLineStatus)
        } else if code == 2 {
            Some(InterruptType::ReceivedDataReady)
        } else if code == 6 {
            Some(InterruptType::ReceptionTimeout)
        } else if code == 1 {
            Some(InterruptType::TransmitterHoldingRegisterEmpty)
        } else if code == 0 {
            Some(InterruptType::ModemStatus)
        } else if code == 7 {
            Some(InterruptType::DmaReceptionEndOfTransfer)
        } else if code == 5 {
            Some(InterruptType::DmaTransmissionEndOfTransfer)
        } else {
            None
        }
    }
}

/// The interrupt reported by an ISR value whose bits 3..0 are `nibble`:
/// bit 0 set means none is pending, otherwise bits 3..1 are the code.
pub open spec fn isr_low_nibble_table(nibble: u8) -> Option<InterruptType> {
    if nibble == 0x6 {
        Some(InterruptType::ReceiverLineStatus)
    } else if nibble == 0x4 {
        Some(InterruptType::ReceivedDataReady)
    } else if nibble == 0xC {
        Some(InterruptType::ReceptionTimeout)
    } else if nibble == 0x2 {
        Some(InterruptType::TransmitterHoldingRegisterEmpty)
    } else if nibble == 0x0 {
        Some(InterruptType::ModemStatus)
    } else if nibble == 0xE {
        Some(InterruptType::DmaReceptionEndOfTransfer)
    } else if nibble == 0xA {
        Some(InterruptType::DmaTransmissionEndOfTransfer)
    } else {
        None
    }
}

/// ISR decoding: the reported interrupt depends only on bits 3..0 (bits
/// 7..4, such as the FIFO-enabled bits, never change it); with bit 0 set
/// nothing is pending; and each interrupt identification code in bits 3..1
/// names its type (0b011 receiver line status, 0b010 received data, 0b110
/// reception timeout, 0b001 THR empty, 0b000 modem status, 0b111 and 0b101
/// the DMA end-of-transfer types, 0b100 none).
pub proof fn lemma_isr_decoding(bits: u8)
    ensures
        isr_interrupt(bits) == isr_low_nibble_table(bits % 16),
        bits % 2 == 1 ==> isr_interrupt(bits) is None,
        bits & 0x0F == 0x06 ==> isr_interrupt(bits) == Some(InterruptType::ReceiverLineStatus),
        bits & 0x0F == 0x04 ==> isr_interrupt(bits) == Some(InterruptType::ReceivedDataReady),
        bits & 0x0F == 0x0C ==> isr_interrupt(bits) == Some(InterruptType::ReceptionTimeout),
        bits & 0x0F == 0x02 ==> isr_interrupt(bits) == Some(InterruptType::TransmitterHoldingRegisterEmpty),
        bits & 0x0F == 0x00 ==> isr_interrupt(bits) == Some(InterruptType::ModemStatus),
        bits & 0x0F == 0x0E ==> isr_interrupt(bits) == Some(InterruptType::DmaReceptionEndOfTransfer),
        bits & 0x0F == 0x0A ==> isr_interrupt(bits) == Some(InterruptType::DmaTransmissionEndOfTransfer),
        bits & 0x0F == 0x08 ==> isr_interrupt(bits) is None,
{
    assert(bits & 0x0F == bits % 16) by (bit_vector);
    assert((bits % 16) % 2 == bits % 2);
    assert(((bits / 2) % 8) == (bits % 16) / 2);
}

/// Two ISR values that agree in bits 3..0 report the same interrupt.
pub proof fn lemma_isr_high_bits_ignored(a: u8, b: u8)
    requires
        a & 0x0F == b & 0x0F,
    ensures
        isr_interrupt(a) == isr_interrupt(b),
{
    lemma_isr_decoding(a);
    lemma_isr_decoding(b);
    assert(a & 0x0F == a % 16) by (bit_vector);
    assert(b & 0x0F == b % 16) by (bit_vector);
}

/// Interrupt status register value.
#[derive(Debug, Clone, Copy, PartialEq, Eq, Structural)]
pub struct ISR {
    bits: u8,
}

impl View for ISR {
    type V = u8;

    closed spec fn view(&self) -> u8 {
        self.bits
    }
}

impl ISR {
    /// The value with the given raw bits, unknown bits kept.
    pub fn from_bits_retain(bits: u8) -> (r: ISR)
        ensures
            r@ == bits,
    {
        ISR { bits }
    }

    /// The raw bits.
    pub fn bits(&self) -> (b: u8)
        ensures
            b == self@,
    {
        self.bits
    }

    /// The pending interrupt, if any.
    pub fn interrupt_type(&self) -> (t: Option<InterruptType>)
        ensures
            t == isr_interrupt(self@),
            t == isr_low_nibble_table(self@ % 16),
    {
        proof {
            lemma_isr_decoding(self@);
        }
        if self.bits % 2 == 1 {
            return None;
        }
        let code = (self.bits / 2) % 8;
        if code == 3 {
            Some(InterruptType::ReceiverLineStatus)
        } else if code == 2 {
            Some(InterruptType::ReceivedDataReady)
        } else if code == 6 {
            Some(InterruptType::ReceptionTimeout)
        } else if code == 1 {
            Some(InterruptType::TransmitterHoldingRegisterEmpty)
        } else if code == 0 {
            Some(InterruptType::ModemStatus)
        } else if code == 7 {
            Some(InterruptType::DmaReceptionEndOfTransfer)
        } else if code == 5 {
            Some(InterruptType::DmaTransmissionEndOfTransfer)
        } else {
            None
        }
    }
}

/// Line status register value.
#[derive(Debug, Clone, Copy, PartialEq, Eq, Structural)]
pub struct LSR {
    bits: u8,
}

impl View for LSR {
    type V = u8;

    closed spec fn view(&self) -> u8 {
        self.bits
    }
}

impl LSR {
    /// The value with the given raw bits, unknown bits kept.
    pub fn from_bits_retain(bits: u8) -> (r: LSR)
        ensures
            r@ == bits,
    {
        LSR { bits }
    }

    /// The raw bits.
    pub fn bits(&self) -> (b: u8)
        ensures
            b == self@,
    {
        self.bits
    }

    /// Whether every bit of `mask` is set.
    pub fn contains(&self, mask: u8) -> (b: bool)
        ensures
            b == (self@ & mask == mask),
    {
        self.bits & mask == mask
    }

    /// Whether the transmitter is fully empty (FIFO and shift register).
    pub fn transmitter_empty(&self) -> (b: bool)
        ensures
            b == (self@ & LSR_TRANSMITTER_EMPTY == LSR_TRANSMITTER_EMPTY),
    {
        self.contains(LSR_TRANSMITTER_EMPTY)
    }
}

} // verus!
