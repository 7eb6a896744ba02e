# uart_16550 (async stack)

Interrupt-driven asynchronous support for 16550 UART devices, verified
with Verus.

- `src/` is the verified library:
  - `async_/ring_buffer.rs`: RX/TX wrappers around the lock-free SPSC ring
    buffer of `embassy_hal_internal`, modelled as a byte sequence with a
    capacity and a read offset, with accepted/dropped/popped/high-water
    counters.
  - `async_/driver.rs`: the driver state (both copier states included), the
    RX copier step with NAPI interrupt coalescing, the TX copier step with
    its retry budget, reads, writes and flush polls. Each call into the
    UART port or a waker goes through a small helper that records it, with
    its real arguments and result, in a ghost trace; the contracts speak of
    that trace. The laws stated over it: the bytes the UART accepted are a
    prefix of what was written, in order; the staged count and the TX
    hardware counter follow the send results; the NAPI streak is the run of
    successful reads at the end of the trace. What the port and the waker
    sets do with those calls is the implementor's side of the `UartPort`
    and `OsWakerSet` traits and is not proved here.
  - `async_/isr.rs` and `registers.rs`: interrupt decoding.
  - `async_/telemetry.rs`: TX and RX copier counters.
  - `os.rs`: the OS abstraction traits.
- `app/` is the OS-facing side: the ISR entry point and waker statics, the
  unsafe creation of ring handles, the shared driver behind a critical
  section, the spawned copier loops and the `embedded_io_async` reader and
  writer.
