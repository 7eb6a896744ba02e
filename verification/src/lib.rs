//! Interrupt-driven asynchronous support for 16550 UART devices.
//!
//! The crate holds the decision logic of the asynchronous UART stack:
//! the receive/transmit ring buffers, the copier steps with NAPI-style
//! interrupt coalescing, the TX drain check and the interrupt decoding.
//! Everything that awaits, spawns or touches device memory is driven from
//! outside through the functions here.

pub mod async_;
pub mod os;
pub mod registers;
