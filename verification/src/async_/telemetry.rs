//! Diagnostic telemetry counters for the async UART driver.
//!
//! Counters track copier behaviour:
//! - `tx_poll`: poll invocations of the TX copier
//! - `tx_no_progress`: poll cycles where `send_bytes()` returned 0
//! - `tx_hw_bytes`: bytes successfully written to the UART FIFO
//! - `rx_poll`: poll invocations of the RX copier
//! - `rx_no_progress`: RX polls that read no byte
//! - `rx_hw_bytes`: bytes read from the UART

use vstd::prelude::*;

verus! {

/// Telemetry counters for async UART driver diagnostics.
///
/// The counters are informational only; each one wraps around at `u64::MAX`.
#[derive(Debug, Clone, Copy)]
pub struct Telemetry {
    /// Number of poll_fn invocations in the TX copier loop.
    pub tx_poll: u64,
    /// Number of poll cycles where `send_bytes()` returned 0
    /// (UART THR was full).
    pub tx_no_progress: u64,
    /// Total bytes successfully written to the UART FIFO by the TX copier.
    pub tx_hw_bytes: u64,
    /// Number of poll invocations of the RX copier.
    pub rx_poll: u64,
    /// Number of RX polls that read no byte from the UART.
    pub rx_no_progress: u64,
    /// Total bytes read from the UART by the RX copier.
    pub rx_hw_bytes: u64,
}

impl Telemetry {
    /// Whether every counter is zero.
    pub open spec fn is_zero(self) -> bool {
        &&& self.tx_poll == 0
        &&& self.tx_no_progress == 0
        &&& self.tx_hw_bytes == 0
        &&& self.rx_poll == 0
        &&& self.rx_no_progress == 0
        &&& self.rx_hw_bytes == 0
    }

    /// Create a new set of telemetry counters, all initialized to zero.
    pub fn new() -> (t: Self)
        ensures
            t.is_zero(),
    {
        Telemetry { tx_poll: 0, tx_no_progress: 0, tx_hw_bytes: 0, rx_poll: 0, rx_no_progress: 0, rx_hw_bytes: 0 }
    }

    /// Reset all counters to zero.
    pub fn reset(&mut self)
        ensures
            final(self).is_zero(),
    {
        self.tx_poll = 0;
        self.tx_no_progress = 0;
        self.tx_hw_bytes = 0;
        self.rx_poll = 0;
        self.rx_no_progress = 0;
        self.rx_hw_bytes = 0;
    }
}

impl Default for Telemetry {
    fn default() -> (t: Self)
        ensures
            t.is_zero(),
    {
        Telemetry::new()
    }
}

} // verus!
