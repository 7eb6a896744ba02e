//! Async UART driver with RX/TX copier steps.
//!
//! [`AsyncUartDriver`] holds the RX and TX ring buffers, the state of the
//! RX and TX copier tasks, the TX drain state, the telemetry counters and
//! the UART port. The background copiers are driven by calling
//! [`AsyncUartDriver::rx_poll`] and [`AsyncUartDriver::tx_poll`] from a
//! poll function: each call is one poll of the copier task. Readers,
//! writers and flushes poll [`AsyncUartDriver::read_poll`],
//! [`AsyncUartDriver::write_poll`] and [`AsyncUartDriver::flush_poll`].
//!
//! The RX copier uses NAPI-style interrupt coalescing: after
//! [`NAPI_THRESHOLD`] consecutive successful reads it switches to polling
//! mode with [`NAPI_BATCH_SIZE`] batch reads per poll.
//!
//! Every call into the port and every waker registration goes through a
//! small helper that makes the call and records it, with its arguments and
//! its result, in a ghost trace of [`PortEvent`]s; the contracts state over
//! that trace which bytes each send was handed, what each read brought, the
//! interrupt requests and where each waker was registered, in order. The driver's
//! well-formedness ([`AsyncUartDriver::wf`]) is established by `new` and
//! kept by every method; its fields are private, so no caller can break it.

use core::marker::PhantomData;
use core::task::Waker;
use embassy_sync::waitqueue::AtomicWaker;
use vstd::prelude::*;

use super::ring_buffer::{RingBufRx, RingBufTx};
use super::telemetry::Telemetry;
use crate::os::{OsRuntime, OsWakerSet};
use crate::registers::{IER, IER_DATA_READY, IER_THR_EMPTY};

verus! {

/// NAPI: consecutive successful reads before entering polling mode.
pub const NAPI_THRESHOLD: u32 = 16;

/// NAPI: batch size in polling mode.
pub const NAPI_BATCH_SIZE: usize = 64;

/// Copier buffer size for bulk operations.
pub const COPIER_BUF_SIZE: usize = 1024;

/// Maximum number of fast retries within a single poll when the UART FIFO is full.
pub const TX_FAST_RETRY_LIMIT: usize = 32;

/// Maximum spin iterations waiting for UART TEMT after the last byte was sent.
pub const TX_TEMT_POLL_LIMIT: u32 = 256;

/// An `embassy_sync` atomic waker slot, carried through without being inspected.
#[verifier::external_type_specification]
#[verifier::external_body]
pub struct ExAtomicWaker(AtomicWaker);

/// Register `waker` in an interrupt waker slot (`AtomicWaker::register`).
///
/// Trusted: the call stores (a clone of) the waker in the slot, replacing
/// any earlier one; nothing is claimed of that effect.
#[verifier::external_body]
fn register_in_slot(slot: &AtomicWaker, waker: &Waker) {
    slot.register(waker)
}

/// `core::hint::spin_loop`: a processor hint with no observable effect.
pub assume_specification[core::hint::spin_loop]();

/// UART hardware access for the copier steps.
///
/// The OS layer implements this by wrapping the UART in a suitable lock.
///
/// # Implementor contract
///
/// - `receive_bytes` reads from the UART receive buffer register and
///   reports how many bytes it stored at the front of `buf`.
/// - `send_bytes` writes a prefix of `buf` to the UART transmit holding
///   register and reports its length.
/// - Interior mutability must ensure no data races between RX and TX copier.
///
/// The length bounds in the `ensures` clauses below are this contract; the
/// copier steps are proved against them, and implementations made outside
/// this crate are trusted to meet them.
pub trait UartPort: Send + Sync + 'static {
    /// Read available bytes from the UART receive buffer.
    ///
    /// Returns the number of bytes actually read (may be 0 if no data
    /// is available).
    fn receive_bytes(&self, buf: &mut [u8]) -> (n: usize)
        ensures
            n <= old(buf)@.len(),
            final(buf)@.len() == old(buf)@.len(),
    ;

    /// Write bytes to the UART transmit buffer.
    ///
    /// Returns the number of bytes actually written (may be 0 if the
    /// transmit buffer is full).
    fn send_bytes(&self, buf: &[u8]) -> (n: usize)
        ensures
            n <= buf@.len(),
    ;

    /// Whether the UART transmitter is fully empty (LSR TRANSMITTER_EMPTY).
    fn transmitter_empty(&self) -> bool;

    /// Atomically update the IER register: set the bits in `set`, clear the
    /// bits in `clear`.
    fn update_ier(&self, set: IER, clear: IER);
}

/// Snapshot of TX drain progress for flush polling.
///
/// All four conditions must hold for a complete drain:
/// `ring_empty && !copier_active && staged_bytes == 0 && transmitter_empty`
#[derive(Debug, Clone, Copy)]
pub struct TxCompletion {
    /// Whether the TX ring buffer is empty.
    pub ring_empty: bool,
    /// Whether the TX copier is currently inside a poll cycle.
    pub copier_active: bool,
    /// Bytes popped from the TX ring but not yet confirmed sent to the UART FIFO.
    pub staged_bytes: usize,
    /// Whether the UART shift register is empty (LSR TRANSMITTER_EMPTY).
    pub transmitter_empty: bool,
}

impl TxCompletion {
    /// All four drain conditions hold.
    pub open spec fn drained(self) -> bool {
        &&& self.ring_empty
        &&& !self.copier_active
        &&& self.staged_bytes == 0
        &&& self.transmitter_empty
    }

    /// Returns `true` when all four drain conditions are satisfied.
    pub fn is_drained(&self) -> (b: bool)
        ensures
            b == self.drained(),
            b == (self.ring_empty && !self.copier_active && self.staged_bytes == 0 && self.transmitter_empty),
    {
        self.ring_empty && !self.copier_active && self.staged_bytes == 0 && self.transmitter_empty
    }
}

/// One interaction of the driver with the UART port or with a waker, as
/// recorded in the driver's event trace.
pub enum PortEvent {
    /// `receive_bytes` was handed a buffer of `offered` bytes, read `got`
    /// and left `data` at the front of the buffer.
    Receive { offered: usize, got: usize, data: Seq<u8> },
    /// `send_bytes` was handed `data` and accepted `sent` of its bytes.
    Send { data: Seq<u8>, sent: usize },
    /// `transmitter_empty` answered `empty`.
    TransmitterCheck { empty: bool },
    /// `update_ier` was asked to set `set` and clear `clear`.
    UpdateIer { set: u8, clear: u8 },
    /// A task's waker was registered in the interrupt waker slot `slot`.
    RegisterSlot { slot: AtomicWaker },
    /// A task's waker was registered with the waker set of the TX ring
    /// (`tx`) or of the RX ring.
    RegisterRing { tx: bool },
}

/// The bytes the UART accepted over a trace: the accepted prefix of the
/// data handed to each send, in order.
pub open spec fn accepted_bytes(events: Seq<PortEvent>) -> Seq<u8>
    decreases events.len(),
{
    if events.len() == 0 {
        Seq::empty()
    } else {
        let e = events.last();
        accepted_bytes(events.drop_last()) + if e is Send {
            e->Send_data.subrange(0, e->Send_sent as int)
        } else {
            Seq::empty()
        }
    }
}

/// The sum of the results of the sends in a trace.
pub open spec fn sent_total(events: Seq<PortEvent>) -> nat
    decreases events.len(),
{
    if events.len() == 0 {
        0
    } else {
        sent_total(events.drop_last()) + if events.last() is Send { events.last()->Send_sent as nat } else { 0nat }
    }
}

/// The number of successful reads at the end of a trace since its last
/// read that got nothing (events other than reads do not break the run).
pub open spec fn receive_streak(events: Seq<PortEvent>) -> nat
    decreases events.len(),
{
    if events.len() == 0 {
        0
    } else if events.last() is Receive {
        if events.last()->Receive_got > 0 {
            receive_streak(events.drop_last()) + 1
        } else {
            0
        }
    } else {
        receive_streak(events.drop_last())
    }
}

/// `after` is `before` with `e` appended.
pub open spec fn event_pushed(before: Seq<PortEvent>, after: Seq<PortEvent>, e: PortEvent) -> bool {
    &&& after == before.push(e)
    &&& accepted_bytes(after) == accepted_bytes(before) + if e is Send {
        e->Send_data.subrange(0, e->Send_sent as int)
    } else {
        Seq::empty()
    }
    &&& sent_total(after) == sent_total(before) + if e is Send { e->Send_sent as nat } else { 0nat }
    &&& receive_streak(after) == if e is Receive {
        if e->Receive_got > 0 { receive_streak(before) + 1 } else { 0 }
    } else {
        receive_streak(before)
    }
    &&& count_sends(after) == count_sends(before) + if e is Send { 1nat } else { 0nat }
    &&& count_checks(after) == count_checks(before) + if e is TransmitterCheck { 1nat } else { 0nat }
}

proof fn lemma_event_push(before: Seq<PortEvent>, e: PortEvent)
    ensures
        event_pushed(before, before.push(e), e),
{
    assert(before.push(e).drop_last() =~= before);
}

/// Hand `buf` to the port's `receive_bytes` and record the read.
fn port_receive<U: UartPort>(uart: &U, events: &mut Ghost<Seq<PortEvent>>, buf: &mut [u8]) -> (n: usize)
    ensures
        n <= old(buf)@.len(),
        final(buf)@.len() == old(buf)@.len(),
        event_pushed(old(events)@, final(events)@, PortEvent::Receive {
            offered: old(buf)@.len() as usize,
            got: n,
            data: final(buf)@.subrange(0, n as int),
        }),
{
    let ghost offered = buf@.len() as usize;
    let n = uart.receive_bytes(buf);
    proof {
        let e = PortEvent::Receive { offered, got: n, data: buf@.subrange(0, n as int) };
        lemma_event_push(events@, e);
        events@ = events@.push(e);
    }
    n
}

/// Hand `data` to the port's `send_bytes` and record the attempt.
fn port_send<U: UartPort>(uart: &U, events: &mut Ghost<Seq<PortEvent>>, data: &[u8]) -> (n: usize)
    ensures
        n <= data@.len(),
        event_pushed(old(events)@, final(events)@, PortEvent::Send { data: data@, sent: n }),
{
    let n = uart.send_bytes(data);
    proof {
        let e = PortEvent::Send { data: data@, sent: n };
        lemma_event_push(events@, e);
        events@ = events@.push(e);
    }
    n
}

/// Ask the port whether the transmitter is empty and record the answer.
fn port_check<U: UartPort>(uart: &U, events: &mut Ghost<Seq<PortEvent>>) -> (empty: bool)
    ensures
        event_pushed(old(events)@, final(events)@, PortEvent::TransmitterCheck { empty }),
{
    let empty = uart.transmitter_empty();
    proof {
        let e = PortEvent::TransmitterCheck { empty };
        lemma_event_push(events@, e);
        events@ = events@.push(e);
    }
    empty
}

/// Ask the port to update the IER and record the request.
fn port_update_ier<U: UartPort>(uart: &U, events: &mut Ghost<Seq<PortEvent>>, set: IER, clear: IER)
    ensures
        event_pushed(old(events)@, final(events)@, PortEvent::UpdateIer { set: set@, clear: clear@ }),
{
    uart.update_ier(set, clear);
    proof {
        let e = PortEvent::UpdateIer { set: set@, clear: clear@ };
        lemma_event_push(events@, e);
        events@ = events@.push(e);
    }
}

/// Register `waker` in the interrupt waker slot `slot` and record it.
fn register_slot(events: &mut Ghost<Seq<PortEvent>>, slot: &AtomicWaker, waker: &Waker)
    ensures
        event_pushed(old(events)@, final(events)@, PortEvent::RegisterSlot { slot: *slot }),
{
    register_in_slot(slot, waker);
    proof {
        let e = PortEvent::RegisterSlot { slot: *slot };
        lemma_event_push(events@, e);
        events@ = events@.push(e);
    }
}

/// `after` is the RX ring `before` with `k` more waker registrations and
/// nothing else changed.
pub open spec fn rx_ring_registered<W: OsWakerSet>(before: RingBufRx<W>, after: RingBufRx<W>, k: nat) -> bool {
    &&& after.registrations() == before.registrations() + k
    &&& after.ring() == before.ring()
    &&& after.wakes() == before.wakes()
    &&& after.spec_accepted() == before.spec_accepted()
    &&& after.spec_dropped() == before.spec_dropped()
    &&& after.spec_popped() == before.spec_popped()
    &&& after.spec_high_water() == before.spec_high_water()
}

/// `after` is the TX ring `before` with `k` more waker registrations and
/// nothing else changed.
pub open spec fn tx_ring_registered<W: OsWakerSet>(before: RingBufTx<W>, after: RingBufTx<W>, k: nat) -> bool {
    &&& after.registrations() == before.registrations() + k
    &&& after.ring() == before.ring()
    &&& after.wakes() == before.wakes()
    &&& after.spec_accepted() == before.spec_accepted()
    &&& after.spec_dropped() == before.spec_dropped()
    &&& after.spec_popped() == before.spec_popped()
    &&& after.spec_high_water() == before.spec_high_water()
}

/// Register `waker` with the waker set of the RX ring and record it.
fn register_rx_ring<W: OsWakerSet>(ring: &mut RingBufRx<W>, events: &mut Ghost<Seq<PortEvent>>, waker: &Waker)
    ensures
        event_pushed(old(events)@, final(events)@, PortEvent::RegisterRing { tx: false }),
        rx_ring_registered(*old(ring), *final(ring), 1),
{
    ring.register_waker(waker);
    proof {
        let e = PortEvent::RegisterRing { tx: false };
        lemma_event_push(events@, e);
        events@ = events@.push(e);
    }
}

/// Register `waker` with the waker set of the TX ring and record it.
fn register_tx_ring<W: OsWakerSet>(ring: &mut RingBufTx<W>, events: &mut Ghost<Seq<PortEvent>>, waker: &Waker)
    ensures
        event_pushed(old(events)@, final(events)@, PortEvent::RegisterRing { tx: true }),
        tx_ring_registered(*old(ring), *final(ring), 1),
{
    ring.register_waker(waker);
    proof {
        let e = PortEvent::RegisterRing { tx: true };
        lemma_event_push(events@, e);
        events@ = events@.push(e);
    }
}

/// The batch size that the RX copier reads with after `streak` consecutive
/// successful reads.
pub open spec fn napi_batch(streak: u32) -> usize {
    if streak >= NAPI_THRESHOLD {
        NAPI_BATCH_SIZE
    } else {
        COPIER_BUF_SIZE
    }
}

/// The streak after a read of `total` bytes: one longer (saturating) after
/// a successful read, zero after an empty one.
pub open spec fn napi_next(streak: u32, total: usize) -> u32 {
    if total > 0 {
        if streak == u32::MAX {
            streak
        } else {
            (streak + 1) as u32
        }
    } else {
        0
    }
}

/// `n`, saturated at `u32::MAX`.
pub open spec fn saturate_u32(n: nat) -> u32 {
    if n >= u32::MAX {
        u32::MAX
    } else {
        n as u32
    }
}

/// The request that re-enables the data-ready interrupt.
pub open spec fn rearm_rx() -> PortEvent {
    PortEvent::UpdateIer { set: IER_DATA_READY, clear: 0 }
}

/// The IER updates that one RX read of `total` bytes requests: leaving
/// polling mode re-enables the data-ready interrupt, and so does every read
/// after which the streak is below the threshold.
pub open spec fn napi_requests(streak: u32, total: usize) -> Seq<PortEvent> {
    let leave = if streak >= NAPI_THRESHOLD && total == 0 {
        seq![rearm_rx()]
    } else {
        Seq::empty()
    };
    let rearm = if napi_next(streak, total) < NAPI_THRESHOLD {
        seq![rearm_rx()]
    } else {
        Seq::empty()
    };
    leave + rearm
}

/// The events of one RX poll whose first read was `first` and, when that
/// got nothing, whose recheck read was `recheck`: the read, the
/// registration in the RX slot `slot`, the NAPI interrupt requests, and the
/// recheck.
pub open spec fn rx_poll_events(streak: u32, slot: AtomicWaker, first: PortEvent, recheck: PortEvent) -> Seq<
    PortEvent,
> {
    let head = seq![first, PortEvent::RegisterSlot { slot }] + napi_requests(streak, first->Receive_got);
    if first->Receive_got > 0 {
        head
    } else {
        head.push(recheck)
    }
}

/// The batch size that the RX copier reads with after `streak` consecutive
/// successful reads.
pub fn napi_batch_len(streak: u32) -> (n: usize)
    ensures
        n == napi_batch(streak),
        streak < NAPI_THRESHOLD ==> n == COPIER_BUF_SIZE,
        streak >= NAPI_THRESHOLD ==> n == NAPI_BATCH_SIZE,
{
    if streak >= NAPI_THRESHOLD {
        NAPI_BATCH_SIZE
    } else {
        COPIER_BUF_SIZE
    }
}

/// The streak after a read of `total` bytes.
pub fn napi_next_streak(streak: u32, total: usize) -> (next: u32)
    ensures
        next == napi_next(streak, total),
        total == 0 ==> next == 0,
        total > 0 && streak < u32::MAX ==> next == streak + 1,
        total > 0 && streak == u32::MAX ==> next == u32::MAX,
{
    if total > 0 {
        if streak == u32::MAX {
            streak
        } else {
            streak + 1
        }
    } else {
        0
    }
}

/// NAPI coalescing: the data-ready interrupt is left disabled after an RX
/// read exactly when the copier is then in polling mode (its streak has
/// reached the threshold); an empty read always ends polling mode and
/// re-arms the interrupt; every request only sets the data-ready bit and
/// clears nothing; and the copier reads whole copier buffers below the
/// threshold and polling-mode batches from it on.
pub proof fn lemma_napi_coalescing(streak: u32, total: usize)
    ensures
        streak < NAPI_THRESHOLD ==> napi_batch(streak) == COPIER_BUF_SIZE,
        streak >= NAPI_THRESHOLD ==> napi_batch(streak) == NAPI_BATCH_SIZE,
        napi_requests(streak, total).len() == 0 <==> (total > 0 && streak >= NAPI_THRESHOLD - 1),
        forall|i: int|
            0 <= i < napi_requests(streak, total).len() ==> #[trigger] napi_requests(streak, total)[i]
                == (PortEvent::UpdateIer { set: 0x01, clear: 0 }),
        napi_requests(streak, total).len() == 0 <==> napi_next(streak, total) >= NAPI_THRESHOLD,
        total == 0 ==> napi_next(streak, total) == 0 && napi_requests(streak, total).len() >= 1,
        forall|i: int|
            0 <= i < napi_requests(streak, total).len() ==> #[trigger] napi_requests(streak, total)[i]
                == rearm_rx(),
        napi_batch(streak) == NAPI_BATCH_SIZE <==> streak >= NAPI_THRESHOLD,
{
}

/// The number of send attempts in a trace.
pub open spec fn count_sends(events: Seq<PortEvent>) -> nat
    decreases events.len(),
{
    if events.len() == 0 {
        0
    } else {
        count_sends(events.drop_last()) + if events.last() is Send { 1nat } else { 0nat }
    }
}

/// The number of transmitter checks in a trace.
pub open spec fn count_checks(events: Seq<PortEvent>) -> nat
    decreases events.len(),
{
    if events.len() == 0 {
        0
    } else {
        count_checks(events.drop_last()) + if events.last() is TransmitterCheck { 1nat } else { 0nat }
    }
}

proof fn lemma_count_push(events: Seq<PortEvent>, e: PortEvent)
    ensures
        count_sends(events.push(e)) == count_sends(events) + if e is Send { 1nat } else { 0nat },
        count_checks(events.push(e)) == count_checks(events) + if e is TransmitterCheck { 1nat } else { 0nat },
{
    assert(events.push(e).drop_last() =~= events);
}

/// The events that a TX poll may record: send attempts, transmitter
/// checks, THR-empty requests and TX waker registrations.
pub open spec fn tx_event(slot: AtomicWaker, e: PortEvent) -> bool {
    ||| e is Send
    ||| e is TransmitterCheck
    ||| e == (PortEvent::UpdateIer { set: IER_THR_EMPTY, clear: 0 })
    ||| e == (PortEvent::RegisterSlot { slot })
    ||| e == (PortEvent::RegisterRing { tx: true })
}

/// A trace ends with the retry budget spent: the last
/// `TX_FAST_RETRY_LIMIT + 1` send attempts moved nothing, then the TX slot
/// was registered, the THR-empty interrupt requested and one more send
/// attempted.
pub open spec fn ends_with_spent_budget(slot: AtomicWaker, events: Seq<PortEvent>) -> bool {
    let n = events.len();
    &&& n >= TX_FAST_RETRY_LIMIT + 4
    &&& forall|i: int|
        n - (TX_FAST_RETRY_LIMIT + 4) <= i < n - 3 ==> #[trigger] events[i] is Send && events[i]->sent == 0
    &&& events[n - 3] == (PortEvent::RegisterSlot { slot })
    &&& events[n - 2] == (PortEvent::UpdateIer { set: IER_THR_EMPTY, clear: 0 })
    &&& events[n - 1] is Send
}

/// `x` reduced modulo 2^64, as a wrapping `u64` counter holds it.
pub open spec fn wrap64(x: int) -> u64 {
    (x % 0x1_0000_0000_0000_0000) as u64
}

proof fn lemma_wrap64_step(a: int, b: int)
    requires
        0 <= a,
        0 <= b < 0x1_0000_0000_0000_0000,
    ensures
        wrap64(wrap64(a) + b) == wrap64(a + b),
{
    let m: int = 0x1_0000_0000_0000_0000;
    vstd::arithmetic::div_mod::lemma_add_mod_noop(a, b, m);
    vstd::arithmetic::div_mod::lemma_small_mod(b as nat, m as nat);
    vstd::arithmetic::div_mod::lemma_mod_bound(a, m);
    vstd::arithmetic::div_mod::lemma_mod_twice(a, m);
}

proof fn lemma_wrap64_small(a: u64)
    ensures
        wrap64(a as int) == a,
{
    vstd::arithmetic::div_mod::lemma_small_mod(a as nat, 0x1_0000_0000_0000_0000nat);
}

/// Add to a wrapping counter.
fn counter_add(c: u64, x: u64) -> (r: u64)
    ensures
        r == wrap64(c + x),
{
    let r = c.wrapping_add(x);
    proof {
        let m: int = 0x1_0000_0000_0000_0000;
        if c + x >= m {
            vstd::arithmetic::div_mod::lemma_mod_sub_multiples_vanish(c + x - m, m);
            vstd::arithmetic::div_mod::lemma_small_mod((c + x - m) as nat, m as nat);
        } else {
            vstd::arithmetic::div_mod::lemma_small_mod((c + x) as nat, m as nat);
        }
    }
    r
}

/// State of the RX copier task: its read buffer and its NAPI streak.
pub struct RxCopier {
    read_buf: Vec<u8>,
    consecutive: u32,
}

impl RxCopier {
    /// The read buffer has the copier buffer size.
    pub closed spec fn wf(&self) -> bool {
        self.read_buf@.len() == COPIER_BUF_SIZE
    }

    /// The number of consecutive successful reads so far (saturating).
    pub closed spec fn streak(&self) -> u32 {
        self.consecutive
    }

    /// The first `n` bytes of the read buffer.
    pub closed spec fn received(&self, n: int) -> Seq<u8> {
        self.read_buf@.subrange(0, n)
    }

    /// A fresh RX copier state: zeroed buffer, no streak.
    pub fn new() -> (c: Self)
        ensures
            c.wf(),
            c.streak() == 0,
    {
        RxCopier { read_buf: vec![0u8; COPIER_BUF_SIZE], consecutive: 0 }
    }

    /// The number of consecutive successful reads so far.
    pub fn consecutive(&self) -> (n: u32)
        ensures
            n == self.streak(),
    {
        self.consecutive
    }
}

/// State of the TX copier task: the bytes taken from the TX ring that are
/// not yet all handed to the UART (`write_buf[cursor..pending]`), and a
/// record of every byte taken and every byte handed over.
pub struct TxCopier {
    write_buf: Vec<u8>,
    pending: usize,
    cursor: usize,
    popped: Ghost<Seq<u8>>,
    sent: Ghost<Seq<u8>>,
}

impl TxCopier {
    /// Bytes taken from the TX ring that the UART has not accepted yet.
    pub closed spec fn in_flight(&self) -> Seq<u8> {
        self.write_buf@.subrange(self.cursor as int, self.pending as int)
    }

    /// Every byte taken from the TX ring, in order.
    pub closed spec fn popped(&self) -> Seq<u8> {
        self.popped@
    }

    /// Every byte the UART has accepted, in order.
    pub closed spec fn sent(&self) -> Seq<u8> {
        self.sent@
    }

    /// Copier state consistent with a driver whose staged count is `staged`:
    /// the staged count is the number of bytes in flight, and what was
    /// taken is what was sent followed by what is in flight.
    pub closed spec fn inv(&self, staged: usize) -> bool {
        &&& self.write_buf@.len() == COPIER_BUF_SIZE
        &&& self.cursor <= self.pending <= COPIER_BUF_SIZE
        &&& staged == self.pending - self.cursor
        &&& self.popped@ == self.sent@ + self.in_flight()
    }

    /// A fresh TX copier state: nothing taken, nothing sent.
    pub fn new() -> (c: Self)
        ensures
            c.inv(0),
            c.popped() == Seq::<u8>::empty(),
            c.sent() == Seq::<u8>::empty(),
    {
        let c = TxCopier {
            write_buf: vec![0u8; COPIER_BUF_SIZE],
            pending: 0,
            cursor: 0,
            popped: Ghost(Seq::empty()),
            sent: Ghost(Seq::empty()),
        };
        assert(c.in_flight() =~= Seq::<u8>::empty());
        c
    }
}

/// No byte taken from the TX ring is lost, duplicated or reordered: what
/// the TX copier took is exactly what the UART accepted followed by what is
/// still in flight, and the driver's staged count is the number of bytes in
/// flight.
pub proof fn lemma_tx_no_loss(c: &TxCopier, staged: usize)
    requires
        c.inv(staged),
    ensures
        c.popped() == c.sent() + c.in_flight(),
        c.in_flight().len() == staged,
{
}

proof fn lemma_take_step(p0: Seq<u8>, p1: Seq<u8>, c0: Seq<u8>, c1: Seq<u8>)
    requires
        p0.is_prefix_of(p1),
        c0 == p1.subrange(p0.len() as int, p1.len() as int) + c1,
    ensures
        p0 + c0 == p1 + c1,
{
    assert(p1 =~= p0 + p1.subrange(p0.len() as int, p1.len() as int));
    assert(p0 + c0 =~= p1 + c1);
}

/// Each send at index `from` or later in `events` was handed the bytes of
/// `flight` that the sends before it from `from` on had not accepted, and
/// some bytes were still left to hand.
pub open spec fn sends_hand(events: Seq<PortEvent>, from: int, flight: Seq<u8>) -> bool {
    forall|i: int|
        from <= i < events.len() && #[trigger] events[i] is Send ==> {
            &&& sent_total(events.take(i)) - sent_total(events.take(from)) < flight.len()
            &&& events[i]->Send_data == flight.subrange(
                sent_total(events.take(i)) - sent_total(events.take(from)),
                flight.len() as int,
            )
        }
}

proof fn lemma_sends_hand_extend(a: Seq<PortEvent>, b: Seq<PortEvent>, from: int, flight: Seq<u8>)
    requires
        sends_hand(a, from, flight),
        0 <= from <= a.len(),
        forall|j: int| 0 <= j < b.len() ==> !(#[trigger] b[j] is Send),
    ensures
        sends_hand(a + b, from, flight),
{
    let p = a + b;
    assert(p.take(from) =~= a.take(from));
    assert forall|i: int| from <= i < p.len() && #[trigger] p[i] is Send implies {
        &&& sent_total(p.take(i)) - sent_total(p.take(from)) < flight.len()
        &&& p[i]->Send_data == flight.subrange(
            sent_total(p.take(i)) - sent_total(p.take(from)),
            flight.len() as int,
        )
    } by {
        if i >= a.len() {
            assert(p[i] == b[i - a.len()]);
        } else {
            assert(p.take(i) =~= a.take(i));
            assert(p[i] == a[i]);
        }
    }
}

proof fn lemma_sends_hand_send(a: Seq<PortEvent>, from: int, flight: Seq<u8>, e: PortEvent)
    requires
        sends_hand(a, from, flight),
        0 <= from <= a.len(),
        e is Send,
        sent_total(a) - sent_total(a.take(from)) < flight.len(),
        e->Send_data == flight.subrange(sent_total(a) - sent_total(a.take(from)), flight.len() as int),
    ensures
        sends_hand(a.push(e), from, flight),
{
    let p = a.push(e);
    assert(p.take(from) =~= a.take(from));
    assert(p.take(a.len() as int) =~= a);
    assert forall|i: int| from <= i < p.len() && #[trigger] p[i] is Send implies {
        &&& sent_total(p.take(i)) - sent_total(p.take(from)) < flight.len()
        &&& p[i]->Send_data == flight.subrange(
            sent_total(p.take(i)) - sent_total(p.take(from)),
            flight.len() as int,
        )
    } by {
        if i < a.len() {
            assert(p.take(i) =~= a.take(i));
            assert(p[i] == a[i]);
        }
    }
}

/// A trace holds a send attempt that moved nothing.
pub open spec fn has_stall(events: Seq<PortEvent>) -> bool {
    exists|i: int| 0 <= i < events.len() && #[trigger] events[i] is Send && events[i]->sent == 0
}

proof fn lemma_stall_push(events: Seq<PortEvent>, e: PortEvent)
    ensures
        has_stall(events.push(e)) == (has_stall(events) || (e is Send && e->sent == 0)),
{
    let p = events.push(e);
    if has_stall(events) {
        let i = choose|i: int| 0 <= i < events.len() && #[trigger] events[i] is Send && events[i]->sent == 0;
        assert(p[i] == events[i]);
    }
    if e is Send && e->sent == 0 {
        assert(p[events.len() as int] == e);
    }
    if has_stall(p) {
        let i = choose|i: int| 0 <= i < p.len() && #[trigger] p[i] is Send && p[i]->sent == 0;
        if i < events.len() {
            assert(events[i] == p[i]);
        }
    }
}

/// The last `k` events of a trace are send attempts that moved nothing.
pub open spec fn stalled_tail(events: Seq<PortEvent>, k: int) -> bool {
    &&& 0 <= k <= events.len()
    &&& forall|i: int| events.len() - k <= i < events.len() ==> #[trigger] events[i] is Send && events[i]->sent == 0
}

/// The trace of one flush poll: a transmitter check, and unless the software
/// side was idle and the transmitter empty, a waker registration (the drain
/// slot when the software side was idle, the TX ring otherwise) and a second
/// check; done exactly when a check found everything drained.
pub open spec fn flush_trace_ok(slot: AtomicWaker, idle: bool, new: Seq<PortEvent>, done: bool) -> bool {
    &&& new.len() >= 1
    &&& new[0] is TransmitterCheck
    &&& if idle && new[0]->empty {
        new.len() == 1 && done
    } else {
        &&& new.len() == 3
        &&& new[1] == if idle {
            PortEvent::RegisterSlot { slot }
        } else {
            PortEvent::RegisterRing { tx: true }
        }
        &&& new[2] is TransmitterCheck
        &&& done == (idle && new[2]->empty)
    }
}

proof fn lemma_count_concat(a: Seq<PortEvent>, b: Seq<PortEvent>)
    ensures
        count_sends(a + b) == count_sends(a) + count_sends(b),
        count_checks(a + b) == count_checks(a) + count_checks(b),
    decreases b.len(),
{
    if b.len() == 0 {
        assert(a + b =~= a);
    } else {
        lemma_count_concat(a, b.drop_last());
        assert((a + b).drop_last() =~= a + b.drop_last());
    }
}

/// Async UART driver: the ring buffers, the state of both copier tasks, the
/// TX drain state, the telemetry counters and the UART port.
///
/// The driver also keeps a trace of every interaction with the port and
/// with wakers; the contracts of its steps are stated over that trace.
pub struct AsyncUartDriver<R: OsRuntime, W: OsWakerSet, U: UartPort> {
    rx: RingBufRx<W>,
    tx: RingBufTx<W>,
    tx_copier_active: bool,
    tx_staged_bytes: usize,
    uart: &'static U,
    telemetry: Telemetry,
    rx_copier: RxCopier,
    tx_copier: TxCopier,
    events: Ghost<Seq<PortEvent>>,
    _runtime: PhantomData<R>,
}

/// The TX path holds the bytes `written`: the TX copier has taken a prefix
/// of them, and the rest is still queued in the TX ring.
pub open spec fn tx_path_holds<R: OsRuntime, W: OsWakerSet, U: UartPort>(
    d: AsyncUartDriver<R, W, U>,
    written: Seq<u8>,
) -> bool {
    &&& d.wf()
    &&& written == d.tx_state().popped() + d.tx_ring().contents()
}

/// Bytes written to the TX path reach the UART in order, without loss or
/// duplication: the bytes the UART accepted over the driver's trace (the
/// accepted prefix of what each send was handed, in order) are a prefix of
/// what was written, followed by the bytes in flight and the bytes still
/// queued; and once the software side is idle, the UART has accepted every
/// byte written.
pub proof fn lemma_tx_order<R: OsRuntime, W: OsWakerSet, U: UartPort>(
    d: AsyncUartDriver<R, W, U>,
    written: Seq<u8>,
)
    requires
        tx_path_holds(d, written),
    ensures
        d.tx_state().sent() == accepted_bytes(d.events()),
        accepted_bytes(d.events()).is_prefix_of(written),
        written == accepted_bytes(d.events()) + d.tx_state().in_flight() + d.tx_ring().contents(),
        d.staged() == d.tx_state().in_flight().len(),
        d.tx_software_idle() ==> accepted_bytes(d.events()) == written,
{
    let c = d.tx_state();
    assert(written =~= c.sent() + c.in_flight() + d.tx_ring().contents());
    assert(c.sent() =~= written.subrange(0, c.sent().len() as int));
    if d.tx_software_idle() {
        assert(c.in_flight().len() == 0);
        assert(written =~= c.sent());
    }
}

/// NAPI streak: the RX copier's streak is the run of successful reads at
/// the end of the driver's trace (saturating at `u32::MAX`), so the copier
/// reads in polling-mode batches exactly when that run has reached
/// [`NAPI_THRESHOLD`].
pub proof fn lemma_napi_streak<R: OsRuntime, W: OsWakerSet, U: UartPort>(d: AsyncUartDriver<R, W, U>)
    requires
        d.wf(),
    ensures
        d.rx_state().streak() == saturate_u32(receive_streak(d.events())),
        napi_batch(d.rx_state().streak()) == NAPI_BATCH_SIZE <==> receive_streak(d.events()) >= NAPI_THRESHOLD,
{
}

/// The RX path has handed out the bytes `delivered` of the bytes `stored`
/// into the RX ring; the rest is still queued.
pub open spec fn rx_path_holds<R: OsRuntime, W: OsWakerSet, U: UartPort>(
    d: AsyncUartDriver<R, W, U>,
    delivered: Seq<u8>,
    stored: Seq<u8>,
) -> bool {
    stored == delivered + d.rx_ring().contents()
}

/// Reads hand out the bytes stored into the RX ring in order, without loss
/// or duplication: what was delivered is a prefix of what was stored.
pub proof fn lemma_rx_order<R: OsRuntime, W: OsWakerSet, U: UartPort>(
    d: AsyncUartDriver<R, W, U>,
    delivered: Seq<u8>,
    stored: Seq<u8>,
)
    requires
        rx_path_holds(d, delivered, stored),
    ensures
        delivered.is_prefix_of(stored),
        d.rx_ring().contents().len() == 0 ==> delivered == stored,
{
    assert(delivered =~= stored.subrange(0, delivered.len() as int));
    if d.rx_ring().contents().len() == 0 {
        assert(stored =~= delivered);
    }
}

impl<R: OsRuntime, W: OsWakerSet, U: UartPort> AsyncUartDriver<R, W, U> {
    /// The RX ring buffer.
    pub closed spec fn rx_ring(&self) -> RingBufRx<W> {
        self.rx
    }

    /// The TX ring buffer.
    pub closed spec fn tx_ring(&self) -> RingBufTx<W> {
        self.tx
    }

    /// Whether the TX copier is inside a poll cycle.
    pub closed spec fn copier_active(&self) -> bool {
        self.tx_copier_active
    }

    /// Bytes taken from the TX ring but not yet accepted by the UART.
    pub closed spec fn staged(&self) -> usize {
        self.tx_staged_bytes
    }

    /// The UART port.
    pub closed spec fn port(&self) -> &'static U {
        self.uart
    }

    /// The telemetry counters.
    pub closed spec fn counters(&self) -> Telemetry {
        self.telemetry
    }

    /// The state of the RX copier task.
    pub closed spec fn rx_state(&self) -> RxCopier {
        self.rx_copier
    }

    /// The state of the TX copier task.
    pub closed spec fn tx_state(&self) -> TxCopier {
        self.tx_copier
    }

    /// Every interaction with the port and with wakers so far, in order.
    pub closed spec fn events(&self) -> Seq<PortEvent> {
        self.events@
    }

    /// The events recorded since `before`.
    pub open spec fn events_since(&self, before: Self) -> Seq<PortEvent> {
        self.events().subrange(before.events().len() as int, self.events().len() as int)
    }

    /// The copier states are consistent with the driver and its trace: the
    /// staged count is the number of bytes in flight, the bytes recorded as
    /// sent are those the UART accepted over the trace, and the RX streak is
    /// the run of successful reads at the end of the trace.
    pub closed spec fn wf(&self) -> bool {
        &&& self.tx_copier.inv(self.tx_staged_bytes)
        &&& self.rx_copier.wf()
        &&& self.tx_copier.sent@ == accepted_bytes(self.events@)
        &&& self.rx_copier.consecutive == saturate_u32(receive_streak(self.events@))
    }

    /// The software side of the TX path is drained: the ring is empty, the
    /// copier is idle and no byte is staged.
    pub open spec fn tx_software_idle(&self) -> bool {
        &&& self.tx_ring().contents().len() == 0
        &&& !self.copier_active()
        &&& self.staged() == 0
    }

    /// Everything but the trace and the TX ring is as in `other`.
    pub open spec fn same_but_tx(&self, other: Self) -> bool {
        &&& self.rx_ring() == other.rx_ring()
        &&& self.copier_active() == other.copier_active()
        &&& self.staged() == other.staged()
        &&& self.port() == other.port()
        &&& self.counters() == other.counters()
        &&& self.rx_state() == other.rx_state()
        &&& self.tx_state() == other.tx_state()
    }

    /// Everything but the trace is as in `other`.
    pub open spec fn same_but_events(&self, other: Self) -> bool {
        &&& self.same_but_tx(other)
        &&& self.tx_ring() == other.tx_ring()
    }

    /// Create a new driver instance.
    pub fn new(rx: RingBufRx<W>, tx: RingBufTx<W>, uart: &'static U) -> (d: Self)
        ensures
            d.wf(),
            d.rx_ring() == rx,
            d.tx_ring() == tx,
            d.port() == uart,
            !d.copier_active(),
            d.staged() == 0,
            d.counters().is_zero(),
            d.events() == Seq::<PortEvent>::empty(),
            d.rx_state().streak() == 0,
            d.tx_state().popped() == Seq::<u8>::empty(),
            d.tx_state().sent() == Seq::<u8>::empty(),
    {
        AsyncUartDriver {
            rx,
            tx,
            tx_copier_active: false,
            tx_staged_bytes: 0,
            uart,
            telemetry: Telemetry::new(),
            rx_copier: RxCopier::new(),
            tx_copier: TxCopier::new(),
            events: Ghost(Seq::empty()),
            _runtime: PhantomData,
        }
    }

    /// The telemetry counters.
    pub fn telemetry(&self) -> (t: &Telemetry)
        ensures
            *t == self.counters(),
    {
        &self.telemetry
    }

    /// Whether the TX copier is inside a poll cycle.
    pub fn tx_copier_active(&self) -> (b: bool)
        ensures
            b == self.copier_active(),
    {
        self.tx_copier_active
    }

    /// Bytes taken from the TX ring but not yet accepted by the UART.
    pub fn tx_staged_bytes(&self) -> (n: usize)
        ensures
            n == self.staged(),
    {
        self.tx_staged_bytes
    }

    /// The RX copier's number of consecutive successful reads.
    pub fn rx_streak(&self) -> (n: u32)
        ensures
            n == self.rx_state().streak(),
    {
        self.rx_copier.consecutive
    }

    /// A snapshot of the TX drain state; the transmitter check is recorded.
    pub fn tx_completion(&mut self) -> (c: TxCompletion)
        requires
            old(self).wf(),
        ensures
            final(self).wf(),
            c.ring_empty == (old(self).tx_ring().contents().len() == 0),
            c.copier_active == old(self).copier_active(),
            c.staged_bytes == old(self).staged(),
            final(self).events() == old(self).events().push(PortEvent::TransmitterCheck { empty: c.transmitter_empty }),
            final(self).same_but_events(*old(self)),
    {
        let ring_empty = self.tx.is_empty();
        let transmitter_empty = port_check(self.uart, &mut self.events);
        TxCompletion {
            ring_empty,
            copier_active: self.tx_copier_active,
            staged_bytes: self.tx_staged_bytes,
            transmitter_empty,
        }
    }

    /// Read received bytes into `buf` without waiting.
    ///
    /// Returns the number of bytes read: as many as fit into `buf` of the
    /// stored area the RX ring hands out (0 when it is empty).
    pub fn read(&mut self, buf: &mut [u8]) -> (n: usize)
        requires
            old(self).wf(),
        ensures
            final(self).wf(),
            old(self).rx_ring().pop_step(final(self).rx_ring(), old(buf)@.len() as int, n as int),
            final(buf)@ == old(self).rx_ring().contents().subrange(0, n as int) + old(buf)@.subrange(
                n as int,
                old(buf)@.len() as int,
            ),
            forall|delivered: Seq<u8>, stored: Seq<u8>|
                rx_path_holds(*old(self), delivered, stored) ==> rx_path_holds(
                    *final(self),
                    delivered + final(buf)@.subrange(0, n as int),
                    stored,
                ),
            final(self).events() == old(self).events(),
            final(self).tx_ring() == old(self).tx_ring(),
            final(self).copier_active() == old(self).copier_active(),
            final(self).staged() == old(self).staged(),
            final(self).port() == old(self).port(),
            final(self).counters() == old(self).counters(),
            final(self).rx_state() == old(self).rx_state(),
            final(self).tx_state() == old(self).tx_state(),
    {
        let ghost before = self.rx.contents();
        let ghost ring0 = self.rx.ring();
        let n = self.rx.pop(buf);
        proof {
            super::ring_buffer::lemma_ring_runs(ring0);
        }
        assert forall|delivered: Seq<u8>, stored: Seq<u8>|
            rx_path_holds(*old(self), delivered, stored) implies rx_path_holds(
                *self,
                delivered + buf@.subrange(0, n as int),
                stored,
            ) by {
            assert(buf@.subrange(0, n as int) =~= before.subrange(0, n as int));
            assert(before =~= before.subrange(0, n as int) + self.rx.contents());
            assert(stored =~= delivered + buf@.subrange(0, n as int) + self.rx.contents());
        }
        n
    }

    /// Queue bytes for transmission without waiting.
    ///
    /// An empty `buf` queues nothing and returns 0 without touching the
    /// ring; otherwise as many bytes as fit into the free area the TX ring
    /// hands out are queued (0 when it is full), and the TX copier is woken
    /// if that is not 0.
    pub fn write(&mut self, buf: &[u8]) -> (n: usize)
        requires
            old(self).wf(),
        ensures
            final(self).wf(),
            buf@.len() == 0 ==> n == 0 && *final(self) == *old(self),
            buf@.len() > 0 ==> old(self).tx_ring().push_step(final(self).tx_ring(), buf@, n as int),
            forall|w: Seq<u8>| tx_path_holds(*old(self), w) ==> tx_path_holds(*final(self), w + buf@.subrange(0, n as int)),
            final(self).events() == old(self).events(),
            final(self).same_but_tx(*old(self)),
    {
        if buf.len() == 0 {
            assert forall|w: Seq<u8>| tx_path_holds(*old(self), w) implies
                tx_path_holds(*final(self), w + buf@.subrange(0, 0)) by {
                assert(w + buf@.subrange(0, 0) =~= w);
            }
            return 0;
        }
        let n = self.tx.push(buf);
        assert forall|w: Seq<u8>| tx_path_holds(*old(self), w) implies
            tx_path_holds(*final(self), w + buf@.subrange(0, n as int)) by {
            assert(w + buf@.subrange(0, n as int) =~= self.tx_copier.popped@ + self.tx.contents());
        }
        n
    }

    /// One poll of a read that waits for data.
    ///
    /// An empty `buf` is ready at once with 0. Otherwise the bytes available
    /// are read as by [`Self::read`]; when there are none, `waker` is
    /// registered with the RX ring's waker set, the ring is checked again,
    /// and `None` (pending) is returned if it is still empty.
    pub fn read_poll(&mut self, buf: &mut [u8], waker: &Waker) -> (r: Option<usize>)
        requires
            old(self).wf(),
        ensures
            final(self).wf(),
            old(buf)@.len() == 0 ==> r == Some(0usize) && *final(self) == *old(self) && final(buf)@ == old(buf)@,
            old(buf)@.len() > 0 && old(self).rx_ring().contents().len() > 0 ==> {
                &&& r matches Some(n)
                &&& n > 0
                &&& old(self).rx_ring().pop_step(final(self).rx_ring(), old(buf)@.len() as int, n as int)
                &&& final(buf)@ == old(self).rx_ring().contents().subrange(0, n as int) + old(buf)@.subrange(
                    n as int,
                    old(buf)@.len() as int,
                )
                &&& final(self).events() == old(self).events()
            },
            old(buf)@.len() > 0 && old(self).rx_ring().contents().len() == 0 ==> {
                &&& r is None
                &&& final(self).rx_ring().contents() == old(self).rx_ring().contents()
                &&& final(buf)@ == old(buf)@
                &&& final(self).events() == old(self).events().push(PortEvent::RegisterRing { tx: false })
                &&& final(self).rx_ring().registrations() == old(self).rx_ring().registrations() + 1
            },
            final(self).tx_ring() == old(self).tx_ring(),
            final(self).copier_active() == old(self).copier_active(),
            final(self).staged() == old(self).staged(),
            final(self).port() == old(self).port(),
            final(self).counters() == old(self).counters(),
            final(self).rx_state() == old(self).rx_state(),
            final(self).tx_state() == old(self).tx_state(),
    {
        if buf.len() == 0 {
            return Some(0);
        }
        let n = self.read(buf);
        if n > 0 {
            return Some(n);
        }
        register_rx_ring(&mut self.rx, &mut self.events, waker);
        let n2 = self.read(buf);
        if n2 > 0 {
            Some(n2)
        } else {
            None
        }
    }

    /// One poll of a write that waits for space.
    ///
    /// An empty `buf` is ready at once with 0. Otherwise the bytes that fit
    /// are queued as by [`Self::write`]; when none fit, `waker` is
    /// registered with the TX ring's waker set, the ring is checked again,
    /// and `None` (pending) is returned if it is still full.
    pub fn write_poll(&mut self, buf: &[u8], waker: &Waker) -> (r: Option<usize>)
        requires
            old(self).wf(),
        ensures
            final(self).wf(),
            buf@.len() == 0 ==> r == Some(0usize) && *final(self) == *old(self),
            buf@.len() > 0 && old(self).tx_ring().contents().len() < old(self).tx_ring().capacity() ==> {
                &&& r matches Some(n)
                &&& n > 0
                &&& old(self).tx_ring().push_step(final(self).tx_ring(), buf@, n as int)
                &&& final(self).events() == old(self).events()
            },
            buf@.len() > 0 && old(self).tx_ring().contents().len() >= old(self).tx_ring().capacity() ==> {
                &&& r is None
                &&& final(self).tx_ring().contents() == old(self).tx_ring().contents()
                &&& final(self).events() == old(self).events().push(PortEvent::RegisterRing { tx: true })
                &&& final(self).tx_ring().registrations() == old(self).tx_ring().registrations() + 1
            },
            forall|w: Seq<u8>|
                tx_path_holds(*old(self), w) ==> tx_path_holds(
                    *final(self),
                    w + buf@.subrange(0, match r { Some(n) => n as int, None => 0 }),
                ),
            final(self).same_but_tx(*old(self)),
    {
        if buf.len() == 0 {
            assert(buf@.subrange(0, 0) =~= Seq::<u8>::empty());
            return Some(0);
        }
        let n = self.write(buf);
        if n > 0 {
            return Some(n);
        }
        register_tx_ring(&mut self.tx, &mut self.events, waker);
        let n2 = self.write(buf);
        if n2 > 0 {
            Some(n2)
        } else {
            None
        }
    }

    /// One poll of a flush: whether everything written has left the UART.
    ///
    /// Takes a TX drain snapshot and is done if it is drained. Otherwise it
    /// registers `waker` with the TX ring's waker set while software work
    /// remains, or with `drain_waker` once only the transmitter is pending,
    /// takes a second snapshot and is done if that one is drained.
    pub fn flush_poll(&mut self, drain_waker: &AtomicWaker, waker: &Waker) -> (done: bool)
        requires
            old(self).wf(),
        ensures
            final(self).wf(),
            final(self).same_but_tx(*old(self)),
            tx_ring_registered(
                old(self).tx_ring(),
                final(self).tx_ring(),
                if old(self).tx_software_idle() { 0nat } else { 1nat },
            ),
            old(self).events().is_prefix_of(final(self).events()),
            flush_trace_ok(*drain_waker, old(self).tx_software_idle(), final(self).events_since(*old(self)), done),
    {
        let ghost start = self.events@;
        let c = self.tx_completion();
        if c.is_drained() {
            assert(self.events@.subrange(start.len() as int, self.events@.len() as int) =~= seq![
                PortEvent::TransmitterCheck { empty: c.transmitter_empty },
            ]);
            return true;
        }
        if !c.ring_empty || c.copier_active || c.staged_bytes > 0 {
            register_tx_ring(&mut self.tx, &mut self.events, waker);
        }
        if c.staged_bytes == 0 && !c.copier_active && c.ring_empty {
            register_slot(&mut self.events, drain_waker, waker);
        }
        let c2 = self.tx_completion();
        let done = c2.is_drained();
        proof {
            let target = if old(self).tx_software_idle() {
                PortEvent::RegisterSlot { slot: *drain_waker }
            } else {
                PortEvent::RegisterRing { tx: true }
            };
            assert(self.events@.subrange(start.len() as int, self.events@.len() as int) =~= seq![
                PortEvent::TransmitterCheck { empty: c.transmitter_empty },
                target,
                PortEvent::TransmitterCheck { empty: c2.transmitter_empty },
            ]);
        }
        done
    }

    /// Read from the UART into the first `batch` bytes of the RX copier's
    /// buffer, record the read, advance the NAPI streak, and push what was
    /// read into the RX ring.
    fn rx_receive(&mut self, batch: usize) -> (total: usize)
        requires
            old(self).wf(),
            0 < batch <= COPIER_BUF_SIZE,
        ensures
            final(self).wf(),
            total <= batch,
            final(self).events() == old(self).events().push(PortEvent::Receive {
                offered: batch,
                got: total,
                data: final(self).rx_state().received(total as int),
            }),
            final(self).rx_state().streak() == napi_next(old(self).rx_state().streak(), total),
            total == 0 ==> final(self).rx_ring() == old(self).rx_ring(),
            total > 0 ==> old(self).rx_ring().push_step(
                final(self).rx_ring(),
                final(self).rx_state().received(total as int),
                super::ring_buffer::min_len(total as int, old(self).rx_ring().free_run()),
            ),
            final(self).counters().rx_hw_bytes == wrap64(old(self).counters().rx_hw_bytes + total),
            final(self).counters().rx_poll == old(self).counters().rx_poll,
            final(self).counters().rx_no_progress == old(self).counters().rx_no_progress,
            final(self).counters().tx_poll == old(self).counters().tx_poll,
            final(self).counters().tx_no_progress == old(self).counters().tx_no_progress,
            final(self).counters().tx_hw_bytes == old(self).counters().tx_hw_bytes,
            final(self).tx_ring() == old(self).tx_ring(),
            final(self).copier_active() == old(self).copier_active(),
            final(self).staged() == old(self).staged(),
            final(self).port() == old(self).port(),
            final(self).tx_state() == old(self).tx_state(),
    {
        let total: usize;
        let ghost h: Seq<u8>;
        {
            let buf = self.rx_copier.read_buf.as_mut_slice();
            let (head, _tail) = buf.split_at_mut(batch);
            total = port_receive(self.uart, &mut self.events, head);
            proof {
                h = head@;
            }
        }
        assert(self.rx_copier.read_buf@.len() == COPIER_BUF_SIZE);
        assert(self.rx_copier.read_buf@.subrange(0, total as int) =~= h.subrange(0, total as int));
        self.rx_copier.consecutive = napi_next_streak(self.rx_copier.consecutive, total);
        self.telemetry.rx_hw_bytes = counter_add(self.telemetry.rx_hw_bytes, total as u64);
        if total > 0 {
            let all = self.rx_copier.read_buf.as_slice();
            let _pushed = self.rx.push_batch(&all[0..total]);
        }
        total
    }

    /// One poll of the RX copier task.
    ///
    /// Reads up to [`napi_batch`] bytes from the UART and pushes them into
    /// the RX ring (what does not fit is dropped), advances the NAPI streak,
    /// registers `waker` in `rx_waker`, and then re-enables the data-ready
    /// interrupt as [`napi_requests`] says. When the read got nothing it
    /// reads once more after re-arming, so that data that arrived in the
    /// meantime is not left waiting for an interrupt. Returns the number of
    /// bytes read, or `None` (pending) when both reads got nothing.
    pub fn rx_poll(&mut self, rx_waker: &AtomicWaker, waker: &Waker) -> (r: Option<usize>)
        requires
            old(self).wf(),
        ensures
            final(self).wf(),
            old(self).events().is_prefix_of(final(self).events()),
            ({
                let s = old(self).rx_state().streak();
                let new = final(self).events_since(*old(self));
                let first = new[0];
                let recheck = new.last();
                let second: usize = if first->Receive_got > 0 { 0 } else { recheck->Receive_got };
                let total: usize = if first->Receive_got > 0 { first->Receive_got } else { second };
                let got = super::ring_buffer::min_len(total as int, old(self).rx_ring().free_run());
                &&& first is Receive
                &&& first->Receive_offered == napi_batch(s)
                &&& first->Receive_got <= napi_batch(s)
                &&& (first->Receive_got == 0 ==> recheck is Receive && recheck->Receive_offered == COPIER_BUF_SIZE
                    && second <= COPIER_BUF_SIZE)
                &&& new == rx_poll_events(s, *rx_waker, first, recheck)
                &&& new[1] == (PortEvent::RegisterSlot { slot: *rx_waker })
                &&& forall|i: int|
                    0 <= i < new.len() && (#[trigger] new[i]) is UpdateIer ==> {
                        &&& 2 <= i
                        &&& (first->Receive_got == 0 ==> i < new.len() - 1)
                        &&& new[i] == (PortEvent::UpdateIer { set: 0x01, clear: 0 })
                    }
                &&& (first->Receive_got == 0 || s < NAPI_THRESHOLD - 1) ==> new.len() > 2 && new[2] == (
                PortEvent::UpdateIer { set: 0x01, clear: 0 })
                &&& !(first->Receive_got == 0 || s < NAPI_THRESHOLD - 1) ==> new.len() == 2
                &&& r == if total > 0 { Some(total) } else { None::<usize> }
                &&& final(self).rx_state().streak() == if first->Receive_got > 0 {
                    napi_next(s, total)
                } else {
                    napi_next(0, second)
                }
                &&& (total == 0 ==> final(self).rx_ring() == old(self).rx_ring())
                &&& (total > 0 ==> final(self).rx_state().received(total as int) == if first->Receive_got > 0 {
                    first->Receive_data
                } else {
                    recheck->Receive_data
                })
                &&& (total > 0 ==> old(self).rx_ring().push_step(
                    final(self).rx_ring(),
                    final(self).rx_state().received(total as int),
                    got,
                ))
                &&& final(self).counters().rx_poll == wrap64(old(self).counters().rx_poll + 1)
                &&& final(self).counters().rx_hw_bytes == wrap64(old(self).counters().rx_hw_bytes + total)
                &&& final(self).counters().rx_no_progress == wrap64(
                    old(self).counters().rx_no_progress + if total == 0 { 1int } else { 0int },
                )
                &&& forall|delivered: Seq<u8>, stored: Seq<u8>|
                    rx_path_holds(*old(self), delivered, stored) ==> rx_path_holds(
                        *final(self),
                        delivered,
                        stored + final(self).rx_state().received(total as int).subrange(0, got),
                    )
            }),
            final(self).counters().tx_poll == old(self).counters().tx_poll,
            final(self).counters().tx_no_progress == old(self).counters().tx_no_progress,
            final(self).counters().tx_hw_bytes == old(self).counters().tx_hw_bytes,
            final(self).tx_ring() == old(self).tx_ring(),
            final(self).copier_active() == old(self).copier_active(),
            final(self).staged() == old(self).staged(),
            final(self).port() == old(self).port(),
            final(self).tx_state() == old(self).tx_state(),
    {
        let ghost s = self.rx_copier.consecutive;
        let ghost start = self.events@;
        let ghost ring0 = self.rx;
        let batch = napi_batch_len(self.rx_copier.consecutive);
        let leave_polling = self.rx_copier.consecutive >= NAPI_THRESHOLD;
        let first = self.rx_receive(batch);
        let ghost e_first = self.events@.last();
        self.telemetry.rx_poll = counter_add(self.telemetry.rx_poll, 1);
        register_slot(&mut self.events, rx_waker, waker);
        if leave_polling && first == 0 {
            port_update_ier(self.uart, &mut self.events, IER::data_ready(), IER::empty());
        }
        if self.rx_copier.consecutive < NAPI_THRESHOLD {
            port_update_ier(self.uart, &mut self.events, IER::data_ready(), IER::empty());
        }
        let ghost head = self.events@.subrange(start.len() as int, self.events@.len() as int);
        assert(head =~= seq![e_first, PortEvent::RegisterSlot { slot: *rx_waker }] + napi_requests(s, first));
        proof {
            lemma_napi_coalescing(s, first);
            let req = napi_requests(s, first);
            assert forall|i: int| 2 <= i < head.len() implies head[i] == (PortEvent::UpdateIer { set: 0x01, clear: 0 })
                by {
                assert(head[i] == req[i - 2]);
            }
            assert(head[1] == (PortEvent::RegisterSlot { slot: *rx_waker }));
        }
        if first > 0 {
            proof {
                lemma_wrap64_small(old(self).counters().rx_no_progress);
                let got = super::ring_buffer::min_len(first as int, ring0.free_run());
                assert forall|delivered: Seq<u8>, stored: Seq<u8>|
                    rx_path_holds(*old(self), delivered, stored) implies rx_path_holds(
                        *self,
                        delivered,
                        stored + self.rx_copier.received(first as int).subrange(0, got),
                    ) by {
                    assert(stored + self.rx_copier.received(first as int).subrange(0, got) =~= delivered
                        + self.rx.contents());
                }
                assert(head[0] == e_first);
            }
            return Some(first);
        }
        let batch2 = napi_batch_len(self.rx_copier.consecutive);
        let second = self.rx_receive(batch2);
        let ghost e_second = self.events@.last();
        if second == 0 {
            self.telemetry.rx_no_progress = counter_add(self.telemetry.rx_no_progress, 1);
        }
        proof {
            assert(self.events@.subrange(start.len() as int, self.events@.len() as int) =~= head.push(e_second));
            assert(head[0] == e_first);
            if second > 0 {
                lemma_wrap64_small(old(self).counters().rx_no_progress);
            }
            vstd::arithmetic::div_mod::lemma_small_mod(
                old(self).counters().rx_hw_bytes as nat,
                0x1_0000_0000_0000_0000nat,
            );
            lemma_wrap64_step(old(self).counters().rx_hw_bytes as int, second as int);
            let got = super::ring_buffer::min_len(second as int, ring0.free_run());
            assert forall|delivered: Seq<u8>, stored: Seq<u8>|
                rx_path_holds(*old(self), delivered, stored) implies rx_path_holds(
                    *self,
                    delivered,
                    stored + self.rx_copier.received(second as int).subrange(0, got),
                ) by {
                assert(stored + self.rx_copier.received(second as int).subrange(0, got) =~= delivered
                    + self.rx.contents());
            }
        }
        if second > 0 {
            Some(second)
        } else {
            None
        }
    }

    /// Hand the bytes in flight to the UART once, record the attempt, and
    /// account for what it took.
    fn send_in_flight(&mut self) -> (sent: usize)
        requires
            old(self).wf(),
            old(self).tx_copier.cursor < old(self).tx_copier.pending,
        ensures
            final(self).wf(),
            sent <= old(self).tx_copier.in_flight().len(),
            final(self).tx_copier.cursor == old(self).tx_copier.cursor + sent,
            final(self).tx_copier.pending == old(self).tx_copier.pending,
            final(self).tx_copier.write_buf@ == old(self).tx_copier.write_buf@,
            final(self).tx_copier.popped@ == old(self).tx_copier.popped@,
            final(self).tx_copier.sent@ == old(self).tx_copier.sent@ + old(self).tx_copier.in_flight().subrange(0, sent as int),
            event_pushed(old(self).events(), final(self).events(), PortEvent::Send {
                data: old(self).tx_copier.in_flight(),
                sent,
            }),
            final(self).telemetry.tx_hw_bytes == wrap64(old(self).telemetry.tx_hw_bytes + sent),
            final(self).telemetry.tx_no_progress == old(self).telemetry.tx_no_progress,
            final(self).telemetry.tx_poll == old(self).telemetry.tx_poll,
            final(self).telemetry.rx_poll == old(self).telemetry.rx_poll,
            final(self).telemetry.rx_no_progress == old(self).telemetry.rx_no_progress,
            final(self).telemetry.rx_hw_bytes == old(self).telemetry.rx_hw_bytes,
            final(self).rx == old(self).rx,
            final(self).tx == old(self).tx,
            final(self).tx_copier_active == old(self).tx_copier_active,
            final(self).uart == old(self).uart,
            final(self).rx_copier == old(self).rx_copier,
    {
        let ghost flight = self.tx_copier.in_flight();
        let sent = {
            let all = self.tx_copier.write_buf.as_slice();
            port_send(self.uart, &mut self.events, &all[self.tx_copier.cursor..self.tx_copier.pending])
        };
        proof {
            self.tx_copier.sent@ = self.tx_copier.sent@ + flight.subrange(0, sent as int);
        }
        self.tx_copier.cursor = self.tx_copier.cursor + sent;
        proof {
            assert(self.tx_copier.in_flight() =~= flight.subrange(sent as int, flight.len() as int));
            assert(flight =~= flight.subrange(0, sent as int) + flight.subrange(sent as int, flight.len() as int));
            assert(self.tx_copier.popped@ =~= self.tx_copier.sent@ + self.tx_copier.in_flight());
        }
        if sent > 0 {
            self.tx_staged_bytes = self.tx_staged_bytes - sent;
            self.telemetry.tx_hw_bytes = counter_add(self.telemetry.tx_hw_bytes, sent as u64);
        } else {
            proof {
                lemma_wrap64_small(old(self).telemetry.tx_hw_bytes);
            }
        }
        sent
    }

    /// Wait a bounded time for the transmitter to drain: check it once, and
    /// while it is not empty check again up to [`TX_TEMT_POLL_LIMIT`] times.
    fn wait_transmitter(&mut self)
        requires
            old(self).wf(),
        ensures
            final(self).wf(),
            sent_total(final(self).events()) == sent_total(old(self).events()),
            final(self).same_but_events(*old(self)),
            old(self).events().is_prefix_of(final(self).events()),
            1 <= final(self).events_since(*old(self)).len() <= TX_TEMT_POLL_LIMIT + 1,
            forall|i: int|
                0 <= i < final(self).events_since(*old(self)).len() ==> #[trigger] final(self).events_since(
                    *old(self),
                )[i] is TransmitterCheck,
            count_sends(final(self).events_since(*old(self))) == 0,
            count_checks(final(self).events_since(*old(self))) == final(self).events_since(*old(self)).len(),
    {
        let ghost start = self.events@;
        let empty = port_check(self.uart, &mut self.events);
        proof {
            assert(self.events@.subrange(start.len() as int, self.events@.len() as int) =~= seq![
                PortEvent::TransmitterCheck { empty },
            ]);
            lemma_count_push(Seq::empty(), PortEvent::TransmitterCheck { empty });
            assert(Seq::<PortEvent>::empty().push(PortEvent::TransmitterCheck { empty }) =~= seq![
                PortEvent::TransmitterCheck { empty },
            ]);
        }
        if !empty {
            let mut i: u32 = 0;
            while i < TX_TEMT_POLL_LIMIT
                invariant_except_break
                    self.events@.len() == start.len() + i + 1,
                invariant
                    i <= TX_TEMT_POLL_LIMIT,
                    self.wf(),
                    sent_total(self.events@) == sent_total(old(self).events()),
                    self.same_but_events(*old(self)),
                    start == old(self).events(),
                    start.is_prefix_of(self.events@),
                    self.events@.len() >= start.len() + 1,
                    forall|k: int|
                        start.len() <= k < self.events@.len() ==> #[trigger] self.events@[k] is TransmitterCheck,
                    count_sends(self.events@.subrange(start.len() as int, self.events@.len() as int)) == 0,
                    count_checks(self.events@.subrange(start.len() as int, self.events@.len() as int))
                        == self.events@.len() - start.len(),
                ensures
                    self.events@.len() <= start.len() + TX_TEMT_POLL_LIMIT + 1,
                decreases TX_TEMT_POLL_LIMIT - i,
            {
                let ghost before = self.events@;
                let empty = port_check(self.uart, &mut self.events);
                proof {
                    let a = before.subrange(start.len() as int, before.len() as int);
                    assert(self.events@.subrange(start.len() as int, self.events@.len() as int) =~= a.push(
                        PortEvent::TransmitterCheck { empty },
                    ));
                    lemma_count_push(a, PortEvent::TransmitterCheck { empty });
                }
                if empty {
                    break;
                }
                core::hint::spin_loop();
                i = i + 1;
            }
        }
    }

    /// One poll of the TX copier task.
    ///
    /// Marks the copier active and, when nothing is in flight, takes up to
    /// a buffer's worth of bytes from the TX ring; with nothing to take it
    /// registers `waker` with the TX ring's waker set, checks the ring
    /// again, and if it is still empty marks the copier idle and returns
    /// `false` (pending). Otherwise it hands the bytes in flight to the
    /// UART, retrying up to [`TX_FAST_RETRY_LIMIT`] times in a row without
    /// progress; when that budget is spent it registers `waker` in
    /// `tx_waker`, enables the THR-empty interrupt and tries once more, and
    /// if bytes are still in flight it marks the copier idle and returns
    /// `false`. When everything in flight has been accepted it waits a
    /// bounded time for the transmitter to drain, registers `waker` in
    /// `tx_waker` and returns `true` (ready). A poll in which some send
    /// attempt moved nothing counts once in `tx_no_progress`.
    #[verifier::spinoff_prover]
    #[verifier::rlimit(100)]
    pub fn tx_poll(&mut self, tx_waker: &AtomicWaker, waker: &Waker) -> (ready: bool)
        requires
            old(self).wf(),
        ensures
            final(self).wf(),
            forall|w: Seq<u8>| tx_path_holds(*old(self), w) ==> tx_path_holds(*final(self), w),
            old(self).tx_state().popped().is_prefix_of(final(self).tx_state().popped()),
            old(self).tx_ring().contents() == final(self).tx_state().popped().subrange(
                old(self).tx_state().popped().len() as int,
                final(self).tx_state().popped().len() as int,
            ) + final(self).tx_ring().contents(),
            final(self).tx_ring().capacity() == old(self).tx_ring().capacity(),
            final(self).tx_ring().registrations() == old(self).tx_ring().registrations() + if old(
                self,
            ).tx_state().in_flight().len() == 0 && old(self).tx_ring().contents().len() == 0 {
                1int
            } else {
                0int
            },
            final(self).tx_ring().wakes() == old(self).tx_ring().wakes() + if final(self).tx_state().popped().len()
                > old(self).tx_state().popped().len() {
                1int
            } else {
                0int
            },
            old(self).tx_state().in_flight().len() == 0 && old(self).tx_ring().contents().len() > 0
                ==> final(self).tx_state().popped().len() > old(self).tx_state().popped().len(),
            old(self).tx_state().in_flight().len() == 0 ==> final(self).tx_state().popped().len() - old(
                self,
            ).tx_state().popped().len() == super::ring_buffer::min_len(
                COPIER_BUF_SIZE as int,
                old(self).tx_ring().stored_run(),
            ),
            old(self).tx_state().in_flight().len() == 0 && old(self).tx_ring().contents().len() > 0
                ==> old(self).tx_ring().pop_step(
                final(self).tx_ring(),
                COPIER_BUF_SIZE as int,
                final(self).tx_state().popped().len() - old(self).tx_state().popped().len(),
            ),
            old(self).tx_state().in_flight().len() > 0 ==> final(self).tx_ring() == old(self).tx_ring(),
            old(self).tx_state().sent().is_prefix_of(final(self).tx_state().sent()),
            old(self).events().is_prefix_of(final(self).events()),
            ({
                let new = final(self).events_since(*old(self));
                let s = old(self).tx_state().in_flight().len() + (final(self).tx_state().popped().len()
                    - old(self).tx_state().popped().len());
                let flight = old(self).tx_state().in_flight() + final(self).tx_state().popped().subrange(
                    old(self).tx_state().popped().len() as int,
                    final(self).tx_state().popped().len() as int,
                );
                let sent_now = sent_total(final(self).events()) - sent_total(old(self).events());
                &&& forall|i: int| 0 <= i < new.len() ==> tx_event(*tx_waker, #[trigger] new[i])
                &&& count_sends(new) <= 33 * s + 34
                &&& count_checks(new) <= TX_TEMT_POLL_LIMIT + 1
                &&& (s > 0 ==> count_sends(new) >= 1)
                &&& (s == 0 ==> !ready && new == seq![PortEvent::RegisterRing { tx: true }])
                &&& (ready ==> final(self).copier_active() && final(self).tx_state().in_flight().len() == 0
                    && new.last() == (PortEvent::RegisterSlot { slot: *tx_waker }))
                &&& (!ready ==> !final(self).copier_active())
                &&& (!ready && s > 0 ==> final(self).tx_state().in_flight().len() > 0 && ends_with_spent_budget(*tx_waker, new))
                &&& final(self).counters().tx_no_progress == wrap64(
                    old(self).counters().tx_no_progress + if has_stall(new) { 1int } else { 0int },
                )
                &&& sends_hand(final(self).events(), old(self).events().len() as int, flight)
                &&& flight.len() == s
                &&& final(self).staged() == s - sent_now
                &&& (s > 0 && sent_now == 0 ==> {
                    &&& !ready
                    &&& count_sends(new) == TX_FAST_RETRY_LIMIT + 2
                    &&& (new.len() == TX_FAST_RETRY_LIMIT + 4 || (new.len() == TX_FAST_RETRY_LIMIT + 5
                        && new[0] == (PortEvent::RegisterRing { tx: true })))
                })
                &&& final(self).counters().tx_hw_bytes == wrap64(old(self).counters().tx_hw_bytes + sent_now)
            }),
            final(self).counters().tx_poll == wrap64(old(self).counters().tx_poll + 1),
            final(self).counters().rx_poll == old(self).counters().rx_poll,
            final(self).counters().rx_no_progress == old(self).counters().rx_no_progress,
            final(self).counters().rx_hw_bytes == old(self).counters().rx_hw_bytes,
            final(self).rx_ring() == old(self).rx_ring(),
            final(self).port() == old(self).port(),
            final(self).rx_state() == old(self).rx_state(),
    {
        let ghost start = self.events@;
        let ghost s0 = *self;
        self.telemetry.tx_poll = counter_add(self.telemetry.tx_poll, 1);
        self.tx_copier_active = true;
        if self.tx_copier.cursor >= self.tx_copier.pending {
            let ghost ring_before = self.tx.contents();
            let ghost r0 = self.tx.ring();
            let mut n = self.tx.pop_batch(self.tx_copier.write_buf.as_mut_slice());
            proof {
                super::ring_buffer::lemma_ring_runs(r0);
            }
            if n == 0 {
                register_tx_ring(&mut self.tx, &mut self.events, waker);
                let ghost r1 = self.tx.ring();
                n = self.tx.pop_batch(self.tx_copier.write_buf.as_mut_slice());
                proof {
                    super::ring_buffer::lemma_ring_runs(r1);
                }
                if n == 0 {
                    self.tx_copier_active = false;
                    proof {
                        let new = self.events@.subrange(start.len() as int, self.events@.len() as int);
                        assert(new =~= seq![PortEvent::RegisterRing { tx: true }]);
                        assert(self.tx_copier.popped@.subrange(0, self.tx_copier.popped@.len() as int) =~= self.tx_copier.popped@);
                        assert(self.tx_copier.sent@.subrange(0, self.tx_copier.sent@.len() as int) =~= self.tx_copier.sent@);
                        assert(old(self).tx.contents() =~= self.tx_copier.popped@.subrange(
                            self.tx_copier.popped@.len() as int,
                            self.tx_copier.popped@.len() as int,
                        ) + self.tx.contents());
                        assert(self.tx_copier.in_flight() =~= old(self).tx_copier.in_flight());
                        assert(!has_stall(new));
                        lemma_count_push(Seq::empty(), PortEvent::RegisterRing { tx: true });
                        assert(Seq::<PortEvent>::empty().push(PortEvent::RegisterRing { tx: true }) =~= new);
                        lemma_wrap64_small(old(self).telemetry.tx_hw_bytes);
                        lemma_wrap64_small(old(self).telemetry.tx_no_progress);
                        let flight = old(self).tx_copier.in_flight() + self.tx_copier.popped@.subrange(
                            old(self).tx_copier.popped@.len() as int,
                            self.tx_copier.popped@.len() as int,
                        );
                        lemma_sends_hand_extend(start, new, start.len() as int, flight);
                        assert(start + new =~= self.events@);
                    }
                    return false;
                }
            }
            proof {
                self.tx_copier.popped@ = self.tx_copier.popped@ + ring_before.subrange(0, n as int);
            }
            self.tx_copier.pending = n;
            self.tx_copier.cursor = 0;
            self.tx_staged_bytes = self.tx_staged_bytes + n;
            proof {
                assert(self.tx_copier.in_flight() =~= ring_before.subrange(0, n as int));
                assert(old(self).tx_copier.in_flight() =~= Seq::<u8>::empty());
                assert(ring_before =~= ring_before.subrange(0, n as int) + self.tx.contents());
                assert(self.tx_copier.popped@.subrange(0, old(self).tx_copier.popped@.len() as int)
                    =~= old(self).tx_copier.popped@);
                assert(self.tx_copier.popped@.subrange(
                    old(self).tx_copier.popped@.len() as int,
                    self.tx_copier.popped@.len() as int,
                ) =~= ring_before.subrange(0, n as int));
            }
        } else {
            proof {
                assert(self.tx_copier.popped@.subrange(0, self.tx_copier.popped@.len() as int) =~= self.tx_copier.popped@);
                assert(self.tx_copier.in_flight() =~= old(self).tx_copier.in_flight() + self.tx_copier.popped@.subrange(
                    self.tx_copier.popped@.len() as int,
                    self.tx_copier.popped@.len() as int,
                ));
                assert(old(self).tx.contents() =~= self.tx_copier.popped@.subrange(
                    self.tx_copier.popped@.len() as int,
                    self.tx_copier.popped@.len() as int,
                ) + self.tx.contents());
            }
        }
        let ghost mid = *self;
        let ghost mid_len = self.events@.len();
        let ghost mid_events = self.events@;
        let ghost s = mid.tx_copier.in_flight().len();
        proof {
            assert(self.tx_copier.sent@.subrange(0, self.tx_copier.sent@.len() as int) =~= self.tx_copier.sent@);
            lemma_wrap64_small(old(self).telemetry.tx_hw_bytes);
            let new = self.events@.subrange(start.len() as int, self.events@.len() as int);
            if mid_len > start.len() {
                assert(new =~= seq![PortEvent::RegisterRing { tx: true }]);
                lemma_count_push(Seq::empty(), PortEvent::RegisterRing { tx: true });
                assert(Seq::<PortEvent>::empty().push(PortEvent::RegisterRing { tx: true }) =~= new);
            } else {
                assert(new =~= Seq::<PortEvent>::empty());
            }
            lemma_sends_hand_extend(start, new, start.len() as int, mid.tx_copier.in_flight());
            assert(start + new =~= self.events@);
        }
        let mut retries: usize = 0;
        let mut stalled = false;
        loop
            invariant_except_break
                self.tx_copier.cursor < self.tx_copier.pending,
                retries <= TX_FAST_RETRY_LIMIT,
                stalled_tail(self.events@.subrange(start.len() as int, self.events@.len() as int), retries as int),
                self.events@.len() - retries >= mid_len,
                self.tx_copier.cursor == mid.tx_copier.cursor ==> count_sends(
                    self.events@.subrange(start.len() as int, self.events@.len() as int),
                ) == retries,
                self.tx_copier.cursor == mid.tx_copier.cursor ==> self.events@.len() == mid_len + retries,
            invariant
                sent_total(self.events@) - sent_total(start) == self.tx_copier.sent@.len() - mid.tx_copier.sent@.len(),
                sends_hand(self.events@, start.len() as int, mid.tx_copier.in_flight()),
                mid.tx_copier.in_flight() == old(self).tx_copier.in_flight() + mid.tx_copier.popped@.subrange(
                    old(self).tx_copier.popped@.len() as int,
                    mid.tx_copier.popped@.len() as int,
                ),
                mid.tx_copier.in_flight() == mid.tx_copier.write_buf@.subrange(
                    mid.tx_copier.cursor as int,
                    mid.tx_copier.pending as int,
                ),
                mid.tx_copier.cursor <= self.tx_copier.cursor,
                mid_events.is_prefix_of(self.events@),
                old(self).tx_copier.in_flight().len() == 0 ==> mid.tx_copier.popped@.len()
                    - old(self).tx_copier.popped@.len() == super::ring_buffer::min_len(
                    COPIER_BUF_SIZE as int,
                    old(self).tx.stored_run(),
                ),
                old(self).tx_copier.in_flight().len() == 0 && old(self).tx.contents().len() > 0
                    ==> old(self).tx.pop_step(
                    mid.tx,
                    COPIER_BUF_SIZE as int,
                    mid.tx_copier.popped@.len() - old(self).tx_copier.popped@.len(),
                ),
                old(self).tx_copier.in_flight().len() > 0 ==> mid.tx == old(self).tx,
                mid_events.len() == mid_len,
                mid_len > start.len() ==> mid_events[start.len() as int] == (PortEvent::RegisterRing { tx: true }),
                mid.tx.registrations() == old(self).tx.registrations() + if old(self).tx_copier.in_flight().len() == 0
                    && old(self).tx.contents().len() == 0 {
                    1int
                } else {
                    0int
                },
                self.wf(),
                start == old(self).events(),
                start.is_prefix_of(self.events@),
                mid_len <= self.events@.len(),
                mid_len - start.len() <= 1,
                mid.tx_copier.cursor < mid.tx_copier.pending,
                s == mid.tx_copier.pending - mid.tx_copier.cursor,
                s == old(self).tx_copier.in_flight().len() + (mid.tx_copier.popped@.len()
                    - old(self).tx_copier.popped@.len()),
                old(self).tx_copier.popped@.is_prefix_of(mid.tx_copier.popped@),
                old(self).tx.contents() == mid.tx_copier.popped@.subrange(
                    old(self).tx_copier.popped@.len() as int,
                    mid.tx_copier.popped@.len() as int,
                ) + mid.tx.contents(),
                mid.tx.capacity() == old(self).tx.capacity(),
                mid.tx.wakes() == old(self).tx.wakes() + if mid.tx_copier.popped@.len()
                    > old(self).tx_copier.popped@.len() {
                    1int
                } else {
                    0int
                },
                old(self).tx_copier.in_flight().len() == 0 && old(self).tx.contents().len() > 0
                    ==> mid.tx_copier.popped@.len() > old(self).tx_copier.popped@.len(),
                mid.telemetry.tx_poll == wrap64(old(self).telemetry.tx_poll + 1),
                self.tx_copier.pending == mid.tx_copier.pending,
                self.tx_copier.write_buf@ == mid.tx_copier.write_buf@,
                self.tx_copier.popped@ == mid.tx_copier.popped@,
                mid.tx_copier.sent@.is_prefix_of(self.tx_copier.sent@),
                mid.tx_copier.sent@ == old(self).tx_copier.sent@,
                self.tx_copier.sent@.len() - mid.tx_copier.sent@.len() == self.tx_copier.cursor - mid.tx_copier.cursor,
                self.telemetry.tx_hw_bytes == wrap64(
                    old(self).telemetry.tx_hw_bytes + (self.tx_copier.sent@.len() - old(self).tx_copier.sent@.len()),
                ),
                self.telemetry.tx_no_progress == old(self).telemetry.tx_no_progress,
                self.telemetry.tx_poll == mid.telemetry.tx_poll,
                self.telemetry.rx_poll == old(self).telemetry.rx_poll,
                self.telemetry.rx_no_progress == old(self).telemetry.rx_no_progress,
                self.telemetry.rx_hw_bytes == old(self).telemetry.rx_hw_bytes,
                self.rx == old(self).rx,
                self.tx == mid.tx,
                self.uart == old(self).uart,
                self.rx_copier == old(self).rx_copier,
                self.tx_copier_active,
                stalled == has_stall(self.events@.subrange(start.len() as int, self.events@.len() as int)),
                forall|i: int|
                    start.len() <= i < self.events@.len() ==> tx_event(*tx_waker, #[trigger] self.events@[i]),
                count_sends(self.events@.subrange(start.len() as int, self.events@.len() as int))
                    <= 33 * (self.tx_copier.cursor - mid.tx_copier.cursor) + retries,
                count_checks(self.events@.subrange(start.len() as int, self.events@.len() as int)) == 0,
                retries <= TX_FAST_RETRY_LIMIT + 1,
            ensures
                self.tx_copier.cursor == self.tx_copier.pending,
                count_sends(self.events@.subrange(start.len() as int, self.events@.len() as int)) >= 1,
            decreases self.tx_copier.pending - self.tx_copier.cursor, TX_FAST_RETRY_LIMIT - retries,
        {
            let ghost before = self.events@;
            let ghost c0 = self.tx_copier.cursor;
            let ghost f0 = self.tx_copier.in_flight();
            let sent = self.send_in_flight();
            proof {
                let a = before.subrange(start.len() as int, before.len() as int);
                let e = PortEvent::Send { data: f0, sent };
                assert(self.events@.subrange(start.len() as int, self.events@.len() as int) =~= a.push(e));
                assert(before.take(start.len() as int) =~= start);
                assert(f0 =~= mid.tx_copier.in_flight().subrange(c0 - mid.tx_copier.cursor, s as int));
                lemma_sends_hand_send(before, start.len() as int, mid.tx_copier.in_flight(), e);
                lemma_count_push(a, e);
                lemma_stall_push(a, e);
                lemma_wrap64_step(
                    old(self).telemetry.tx_hw_bytes + (mid.tx_copier.sent@.len() - old(self).tx_copier.sent@.len() + (c0 - mid.tx_copier.cursor)),
                    sent as int,
                );
                assert(self.tx_copier.sent@.subrange(0, mid.tx_copier.sent@.len() as int)
                    =~= mid.tx_copier.sent@);
            }
            if sent == 0 {
                stalled = true;
            }
            if self.tx_copier.cursor >= self.tx_copier.pending {
                break;
            }
            if sent > 0 {
                retries = 0;
                continue;
            }
            retries = retries + 1;
            if retries <= TX_FAST_RETRY_LIMIT {
                continue;
            }
            let ghost spent = self.events@;
            register_slot(&mut self.events, tx_waker, waker);
            port_update_ier(self.uart, &mut self.events, IER::thr_empty(), IER::empty());
            proof {
                let a = spent.subrange(start.len() as int, spent.len() as int);
                let e1 = PortEvent::RegisterSlot { slot: *tx_waker };
                let e2 = PortEvent::UpdateIer { set: IER_THR_EMPTY, clear: 0 };
                assert(self.events@.subrange(start.len() as int, self.events@.len() as int) =~= a.push(e1).push(e2));
                lemma_sends_hand_extend(spent, seq![e1, e2], start.len() as int, mid.tx_copier.in_flight());
                assert(spent + seq![e1, e2] =~= self.events@);
                lemma_count_push(a, e1);
                lemma_count_push(a.push(e1), e2);
                lemma_stall_push(a, e1);
                lemma_stall_push(a.push(e1), e2);
            }
            let ghost before2 = self.events@;
            let ghost c1 = self.tx_copier.cursor;
            let ghost f1 = self.tx_copier.in_flight();
            let sent2 = self.send_in_flight();
            proof {
                let a = before2.subrange(start.len() as int, before2.len() as int);
                let e = PortEvent::Send { data: f1, sent: sent2 };
                assert(self.events@.subrange(start.len() as int, self.events@.len() as int) =~= a.push(e));
                assert(before2.take(start.len() as int) =~= start);
                assert(f1 =~= mid.tx_copier.in_flight().subrange(c1 - mid.tx_copier.cursor, s as int));
                lemma_sends_hand_send(before2, start.len() as int, mid.tx_copier.in_flight(), e);
                lemma_count_push(a, e);
                lemma_stall_push(a, e);
                lemma_wrap64_step(
                    old(self).telemetry.tx_hw_bytes + (mid.tx_copier.sent@.len() - old(self).tx_copier.sent@.len() + (c1 - mid.tx_copier.cursor)),
                    sent2 as int,
                );
                assert(self.tx_copier.sent@.subrange(0, mid.tx_copier.sent@.len() as int)
                    =~= mid.tx_copier.sent@);
            }
            if sent2 == 0 {
                stalled = true;
            }
            if self.tx_copier.cursor >= self.tx_copier.pending {
                break;
            }
            if stalled {
                self.telemetry.tx_no_progress = counter_add(self.telemetry.tx_no_progress, 1);
            } else {
                proof {
                    lemma_wrap64_small(old(self).telemetry.tx_no_progress);
                }
            }
            self.tx_copier_active = false;
            proof {
                let new = self.events@.subrange(start.len() as int, self.events@.len() as int);
                let n = new.len();
                assert forall|i: int|
                    n - (TX_FAST_RETRY_LIMIT + 4) <= i < n - 3 implies #[trigger] new[i] is Send && new[i]->sent == 0 by {
                    assert(spent.subrange(start.len() as int, spent.len() as int)[i] == new[i]);
                }
                lemma_take_step(
                    old(self).tx_copier.popped@,
                    self.tx_copier.popped@,
                    old(self).tx.contents(),
                    self.tx.contents(),
                );
                assert(self.tx_copier.sent@.subrange(0, old(self).tx_copier.sent@.len() as int)
                    =~= old(self).tx_copier.sent@);
            }
            return false;
        }
        let ghost before_wait = *self;
        self.wait_transmitter();
        let ghost after_wait = *self;
        register_slot(&mut self.events, tx_waker, waker);
        if stalled {
            self.telemetry.tx_no_progress = counter_add(self.telemetry.tx_no_progress, 1);
        } else {
            proof {
                lemma_wrap64_small(old(self).telemetry.tx_no_progress);
            }
        }
        proof {
            let a = before_wait.events@.subrange(start.len() as int, before_wait.events@.len() as int);
            let b = after_wait.events_since(before_wait);
            assert(after_wait.events@ =~= before_wait.events@ + b);
            let e = PortEvent::RegisterSlot { slot: *tx_waker };
            let new = self.events@.subrange(start.len() as int, self.events@.len() as int);
            assert(new =~= (a + b).push(e));
            lemma_count_concat(a, b);
            lemma_count_push(a + b, e);
            assert forall|j: int| 0 <= j < b.push(e).len() implies !(#[trigger] b.push(e)[j] is Send) by {
                if j < b.len() {
                    assert(b[j] is TransmitterCheck);
                }
            }
            lemma_sends_hand_extend(before_wait.events@, b.push(e), start.len() as int, mid.tx_copier.in_flight());
            assert(before_wait.events@ + b.push(e) =~= self.events@);
            assert forall|i: int| 0 <= i < b.len() implies !(#[trigger] b[i] is Send) by {
                assert(b[i] is TransmitterCheck);
            }
            assert(has_stall(new) == has_stall(a)) by {
                if has_stall(new) {
                    let i = choose|i: int| 0 <= i < new.len() && #[trigger] new[i] is Send && new[i]->sent == 0;
                    if i >= a.len() && i < a.len() + b.len() {
                        assert(new[i] == b[i - a.len()]);
                        assert(b[i - a.len()] is TransmitterCheck);
                    }
                    assert(i < a.len());
                    assert(a[i] == new[i]);
                }
                if has_stall(a) {
                    let i = choose|i: int| 0 <= i < a.len() && #[trigger] a[i] is Send && a[i]->sent == 0;
                    assert(new[i] == a[i]);
                }
            }
            assert forall|i: int| 0 <= i < new.len() implies tx_event(*tx_waker, #[trigger] new[i]) by {
                if i < a.len() {
                    assert(new[i] == a[i]);
                    assert(a[i] == before_wait.events@[start.len() + i]);
                } else if i < a.len() + b.len() {
                    assert(new[i] == b[i - a.len()]);
                }
            }
            lemma_take_step(
                old(self).tx_copier.popped@,
                self.tx_copier.popped@,
                old(self).tx.contents(),
                self.tx.contents(),
            );
            assert(self.tx_copier.sent@.subrange(0, old(self).tx_copier.sent@.len() as int)
                =~= old(self).tx_copier.sent@);
            assert(self.tx_copier.in_flight() =~= Seq::<u8>::empty());
        }
        true
    }
}

} // verus!
