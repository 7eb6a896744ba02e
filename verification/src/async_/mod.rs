//! Async support for UART 16550: ring buffers, copier steps, telemetry.

pub mod driver;
pub mod isr;
pub mod ring_buffer;
pub mod telemetry;
