//! Ring buffer wrappers for async UART I/O.
//!
//! [`RingBufRx`] and [`RingBufTx`] wrap the lock-free SPSC ring buffer of
//! `embassy_hal_internal` together with an OS-generic waker set
//! ([`OsWakerSet`]). The ring storage is owned by the OS layer; the
//! wrappers hold a reference to it and its writer and reader handles.
//!
//! A ring is modelled by the bytes it holds (oldest first), its capacity
//! and the storage offset of its oldest byte. A push appends a prefix of
//! the offered data, a pop removes a prefix of the contents, and each moves
//! as many bytes as fit into the contiguous area that the ring hands out.
//! The model holds while the OS layer does not re-initialise the ring
//! (`RingBuffer::init`/`deinit`) behind the wrapper's back.
//!
//! The wrappers also keep the observability counters of the ring: bytes
//! accepted, bytes dropped (offered but not stored), bytes popped, and the
//! highest occupancy seen after a push. The totals wrap around at
//! `usize::MAX + 1`.

use core::task::Waker;
use embassy_hal_internal::atomic_ring_buffer::{Reader, RingBuffer, Writer};
use vstd::prelude::*;

use crate::os::OsWakerSet;

verus! {

/// An `embassy_hal_internal` atomic ring buffer, seen only through the
/// names below.
#[verifier::external_type_specification]
#[verifier::external_body]
pub struct ExRingBuffer(RingBuffer);

/// The write handle of an `embassy_hal_internal` atomic ring buffer.
#[verifier::external_type_specification]
#[verifier::external_body]
pub struct ExWriter<'a>(Writer<'a>);

/// The read handle of an `embassy_hal_internal` atomic ring buffer.
#[verifier::external_type_specification]
#[verifier::external_body]
pub struct ExReader<'a>(Reader<'a>);

/// The bytes that a ring holds, oldest first.
pub uninterp spec fn ring_contents(ring: SpscRing) -> Seq<u8>;

/// The number of bytes that a ring can hold (the length it was
/// initialised with).
pub uninterp spec fn ring_capacity(ring: SpscRing) -> nat;

/// The storage offset of the oldest byte of a ring (its read position
/// reduced modulo the capacity).
pub uninterp spec fn ring_start(ring: SpscRing) -> nat;

/// The smaller of two lengths.
pub open spec fn min_len(a: int, b: int) -> int {
    if a < b {
        a
    } else {
        b
    }
}

/// The contents fit the capacity and the read offset lies in the storage.
pub open spec fn ring_wf(r: SpscRing) -> bool {
    &&& ring_contents(r).len() <= ring_capacity(r)
    &&& ring_capacity(r) > 0 ==> ring_start(r) < ring_capacity(r)
    &&& ring_capacity(r) == 0 ==> ring_start(r) == 0
}

/// The storage offset at which the next pushed byte goes.
pub open spec fn ring_write_pos(r: SpscRing) -> int {
    if ring_capacity(r) == 0 {
        0
    } else {
        (ring_start(r) + ring_contents(r).len()) as int % (ring_capacity(r) as int)
    }
}

/// The free area that a push is handed: from the write offset up to the
/// read offset or the end of the storage, empty when the ring is full.
pub open spec fn ring_free_run(r: SpscRing) -> int {
    if ring_contents(r).len() >= ring_capacity(r) {
        0
    } else if ring_start(r) > ring_write_pos(r) {
        ring_start(r) - ring_write_pos(r)
    } else {
        ring_capacity(r) - ring_write_pos(r)
    }
}

/// The stored area that a pop is handed: from the read offset up to the
/// write offset or the end of the storage, empty when the ring is empty.
pub open spec fn ring_stored_run(r: SpscRing) -> int {
    if ring_contents(r).len() == 0 {
        0
    } else if ring_write_pos(r) > ring_start(r) {
        ring_write_pos(r) - ring_start(r)
    } else {
        ring_capacity(r) - ring_start(r)
    }
}

/// The areas a ring hands out: the stored area is non-empty exactly when
/// the ring holds bytes and never longer than what it holds; the free area
/// is non-empty exactly when the ring is not full and never longer than the
/// free space.
pub proof fn lemma_ring_runs(r: SpscRing)
    requires
        ring_wf(r),
    ensures
        0 <= ring_stored_run(r) <= ring_contents(r).len(),
        ring_contents(r).len() > 0 ==> ring_stored_run(r) > 0,
        0 <= ring_free_run(r) <= ring_capacity(r) - ring_contents(r).len(),
        ring_contents(r).len() < ring_capacity(r) ==> ring_free_run(r) > 0,
{
    let cap = ring_capacity(r) as int;
    let x: int = ring_start(r) as int + ring_contents(r).len();
    if cap > 0 {
        if x < cap {
            vstd::arithmetic::div_mod::lemma_small_mod(x as nat, cap as nat);
        } else {
            vstd::arithmetic::div_mod::lemma_mod_sub_multiples_vanish(x, cap);
            vstd::arithmetic::div_mod::lemma_small_mod((x - cap) as nat, cap as nat);
        }
    }
}

/// `x` reduced modulo `usize::MAX + 1`, as a wrapping `usize` total holds it.
pub open spec fn wrap_usize(x: int) -> usize {
    (x % (usize::MAX as int + 1)) as usize
}

/// Add to a wrapping total.
fn total_add(c: usize, x: usize) -> (r: usize)
    ensures
        r == wrap_usize(c + x),
{
    let r = c.wrapping_add(x);
    proof {
        let m: int = usize::MAX as int + 1;
        if c + x >= m {
            vstd::arithmetic::div_mod::lemma_mod_sub_multiples_vanish(c + x - m, m);
            vstd::arithmetic::div_mod::lemma_small_mod((c + x - m) as nat, m as nat);
        } else {
            vstd::arithmetic::div_mod::lemma_small_mod((c + x) as nat, m as nat);
        }
    }
    r
}

/// Copy the longest common prefix of `src` into `dst`, returning its length.
pub fn copy_prefix(dst: &mut [u8], src: &[u8]) -> (n: usize)
    ensures
        n == if src@.len() < old(dst)@.len() { src@.len() } else { old(dst)@.len() },
        final(dst)@.len() == old(dst)@.len(),
        final(dst)@ == src@.subrange(0, n as int) + old(dst)@.subrange(n as int, old(dst)@.len() as int),
{
    let n = if src.len() < dst.len() { src.len() } else { dst.len() };
    let mut i: usize = 0;
    while i < n
        invariant
            n <= src@.len(),
            n <= old(dst)@.len(),
            dst@.len() == old(dst)@.len(),
            0 <= i <= n,
            forall|k: int| 0 <= k < i ==> dst@[k] == src@[k],
            forall|k: int| i <= k < dst@.len() ==> dst@[k] == old(dst)@[k],
        decreases n - i,
    {
        dst[i] = src[i];
        i = i + 1;
    }
    assert(dst@ =~= src@.subrange(0, n as int) + old(dst)@.subrange(n as int, old(dst)@.len() as int));
    n
}

/// One single-producer single-consumer ring buffer with its two handles.
pub struct SpscRing {
    ring: &'static RingBuffer,
    writer: Writer<'static>,
    reader: Reader<'static>,
}

impl SpscRing {
    /// The ring buffer held.
    pub closed spec fn ring_buffer(&self) -> RingBuffer {
        *self.ring
    }

    /// The write handle held.
    pub closed spec fn writer_handle(&self) -> Writer<'static> {
        self.writer
    }

    /// The read handle held.
    pub closed spec fn reader_handle(&self) -> Reader<'static> {
        self.reader
    }

    /// Hold a ring together with its writer and its reader.
    ///
    /// The handles must have been made from `ring` (the unsafe contract of
    /// `RingBuffer::writer`/`reader`, met where they are made), and the
    /// ring must be initialised and stay so while it is held.
    pub fn new(ring: &'static RingBuffer, writer: Writer<'static>, reader: Reader<'static>) -> (r: SpscRing)
        ensures
            r.ring_buffer() == *ring,
            r.writer_handle() == writer,
            r.reader_handle() == reader,
    {
        SpscRing { ring, writer, reader }
    }

    /// Push a prefix of `data` into the ring (`Writer::push` with a closure
    /// that copies as much of `data` as fits into the free area it is given).
    ///
    /// Trusted: `Writer::push` hands the closure the free area that starts
    /// at the write offset and ends at the read offset or at the end of the
    /// storage (empty when the ring is full), and then appends as many
    /// bytes as the closure reports; the read offset does not move.
    #[verifier::external_body]
    fn push(&mut self, data: &[u8]) -> (n: usize)
        ensures
            ring_wf(*old(self)),
            ring_wf(*final(self)),
            n == min_len(data@.len() as int, ring_free_run(*old(self))),
            ring_capacity(*final(self)) == ring_capacity(*old(self)),
            ring_start(*final(self)) == ring_start(*old(self)),
            ring_contents(*final(self)) == ring_contents(*old(self)) + data@.subrange(0, n as int),
    {
        self.writer.push(|buf| copy_prefix(buf, data))
    }

    /// Pop a prefix of the contents into `buf` (`Reader::pop` with a closure
    /// that copies as much of the data it is given as fits into `buf`).
    ///
    /// Trusted: `Reader::pop` hands the closure the stored bytes that start
    /// at the read offset and end at the write offset or at the end of the
    /// storage (empty when the ring is empty), and then drops as many bytes
    /// as the closure reports, moving the read offset past them.
    #[verifier::external_body]
    fn pop(&mut self, buf: &mut [u8]) -> (n: usize)
        ensures
            ring_wf(*old(self)),
            ring_wf(*final(self)),
            n == min_len(old(buf)@.len() as int, ring_stored_run(*old(self))),
            ring_capacity(*final(self)) == ring_capacity(*old(self)),
            ring_start(*final(self)) == if ring_capacity(*old(self)) == 0 {
                0
            } else {
                (ring_start(*old(self)) + n) as int % (ring_capacity(*old(self)) as int)
            },
            ring_contents(*final(self)) == ring_contents(*old(self)).subrange(
                n as int,
                ring_contents(*old(self)).len() as int,
            ),
            final(buf)@ == ring_contents(*old(self)).subrange(0, n as int) + old(buf)@.subrange(
                n as int,
                old(buf)@.len() as int,
            ),
    {
        self.reader.pop(|data| copy_prefix(buf, data))
    }

    /// The length of the stored area that the next pop would be handed
    /// (`Reader::pop_buf`; nothing is consumed).
    ///
    /// Trusted: `pop_buf` returns the bytes from the read offset up to the
    /// write offset or the end of the storage (none when the ring is empty)
    /// and changes no position.
    #[verifier::external_body]
    fn readable(&mut self) -> (n: usize)
        ensures
            ring_wf(*old(self)),
            n == ring_stored_run(*old(self)),
            *final(self) == *old(self),
    {
        self.reader.pop_buf().1
    }

    /// Whether the ring holds no byte.
    fn is_empty(&mut self) -> (b: bool)
        ensures
            b == (ring_contents(*old(self)).len() == 0),
            *final(self) == *old(self),
    {
        let n = self.readable();
        proof {
            lemma_ring_runs(*old(self));
        }
        n == 0
    }

    /// The number of bytes held (`RingBuffer::available`).
    ///
    /// Trusted: `available` returns the distance from the read position to
    /// the write position, that is, the number of bytes held.
    #[verifier::external_body]
    fn stored(&self) -> (n: usize)
        ensures
            n == ring_contents(*self).len(),
    {
        self.ring.available()
    }
}

/// RX ring buffer: receives data from the UART.
///
/// The RX copier pushes into it; consumers pop from it.
pub struct RingBufRx<W: OsWakerSet> {
    ring: SpscRing,
    /// Waker set for notifying consumers when data is available.
    pub poll: W,
    wakes: Ghost<nat>,
    registrations: Ghost<nat>,
    accepted: usize,
    dropped: usize,
    popped: usize,
    high_water: usize,
}

impl<W: OsWakerSet> RingBufRx<W> {
    /// The ring held.
    pub closed spec fn ring(&self) -> SpscRing {
        self.ring
    }

    /// The bytes held, oldest first.
    pub open spec fn contents(&self) -> Seq<u8> {
        ring_contents(self.ring())
    }

    /// The number of bytes the ring can hold.
    pub open spec fn capacity(&self) -> nat {
        ring_capacity(self.ring())
    }

    /// The free area that the next push is handed.
    pub open spec fn free_run(&self) -> int {
        ring_free_run(self.ring())
    }

    /// The stored area that the next pop is handed.
    pub open spec fn stored_run(&self) -> int {
        ring_stored_run(self.ring())
    }

    /// How many times the waker set has been woken through this buffer.
    pub closed spec fn wakes(&self) -> nat {
        self.wakes@
    }

    /// How many wakers have been registered with the waker set through
    /// this buffer.
    pub closed spec fn registrations(&self) -> nat {
        self.registrations@
    }

    /// Wake the waker set, counting the wake.
    fn wake(&mut self)
        ensures
            final(self).ring == old(self).ring,
            final(self).wakes() == old(self).wakes() + 1,
            final(self).registrations() == old(self).registrations(),
            final(self).accepted == old(self).accepted,
            final(self).dropped == old(self).dropped,
            final(self).popped == old(self).popped,
            final(self).high_water == old(self).high_water,
    {
        self.poll.wake();
        proof {
            self.wakes@ = self.wakes@ + 1;
        }
    }

    /// Bytes accepted by pushes, in total.
    pub closed spec fn spec_accepted(&self) -> usize {
        self.accepted
    }

    /// Bytes offered to pushes that did not fit, in total.
    pub closed spec fn spec_dropped(&self) -> usize {
        self.dropped
    }

    /// Bytes taken by pops, in total.
    pub closed spec fn spec_popped(&self) -> usize {
        self.popped
    }

    /// The highest occupancy seen after a push.
    pub closed spec fn spec_high_water(&self) -> usize {
        self.high_water
    }

    /// `after` is this buffer after a push of `data` that moved `n` bytes.
    pub open spec fn push_step(self, after: Self, data: Seq<u8>, n: int) -> bool {
        &&& n == min_len(data.len() as int, self.free_run())
        &&& ring_wf(self.ring())
        &&& ring_wf(after.ring())
        &&& after.capacity() == self.capacity()
        &&& ring_start(after.ring()) == ring_start(self.ring())
        &&& after.registrations() == self.registrations()
        &&& after.contents() == self.contents() + data.subrange(0, n)
        &&& after.contents().len() <= after.capacity()
        &&& after.wakes() == self.wakes() + if n > 0 { 1int } else { 0int }
        &&& after.spec_accepted() == wrap_usize(self.spec_accepted() + n)
        &&& after.spec_dropped() == wrap_usize(self.spec_dropped() + (data.len() - n))
        &&& after.spec_popped() == self.spec_popped()
        &&& after.spec_high_water() == if after.contents().len() > self.spec_high_water() {
            after.contents().len() as usize
        } else {
            self.spec_high_water()
        }
    }

    /// `after` is this buffer after a pop into a buffer of `buf_len` bytes that moved `n` bytes.
    pub open spec fn pop_step(self, after: Self, buf_len: int, n: int) -> bool {
        &&& n == min_len(buf_len, self.stored_run())
        &&& ring_wf(self.ring())
        &&& ring_wf(after.ring())
        &&& after.capacity() == self.capacity()
        &&& ring_start(after.ring()) == if self.capacity() == 0 {
            0
        } else {
            (ring_start(self.ring()) + n) % (self.capacity() as int)
        }
        &&& after.registrations() == self.registrations()
        &&& after.contents() == self.contents().subrange(n, self.contents().len() as int)
        &&& after.wakes() == self.wakes()
        &&& after.spec_accepted() == self.spec_accepted()
        &&& after.spec_dropped() == self.spec_dropped()
        &&& after.spec_popped() == wrap_usize(self.spec_popped() + n)
        &&& after.spec_high_water() == self.spec_high_water()
    }

    /// Create a new wrapper from a ring and the two handles made from it.
    ///
    /// The handles must have been made from `ring` (the unsafe contract of
    /// `RingBuffer::writer`/`reader`), and the ring must be initialised.
    pub fn new(ring: &'static RingBuffer, writer: Writer<'static>, reader: Reader<'static>) -> (r: Self)
        ensures
            r.ring().ring_buffer() == *ring,
            r.ring().writer_handle() == writer,
            r.ring().reader_handle() == reader,
            r.wakes() == 0,
            r.registrations() == 0,
            r.spec_accepted() == 0,
            r.spec_dropped() == 0,
            r.spec_popped() == 0,
            r.spec_high_water() == 0,
    {
        RingBufRx {
            ring: SpscRing::new(ring, writer, reader),
            poll: W::new(),
            wakes: Ghost(0),
            registrations: Ghost(0),
            accepted: 0,
            dropped: 0,
            popped: 0,
            high_water: 0,
        }
    }

    /// Push received data into the ring buffer (called by the RX copier).
    ///
    /// Returns the number of bytes pushed: as many as fit into the free
    /// area the ring hands out; the rest is dropped. Wakes the waker set if
    /// at least one byte was pushed.
    pub fn push(&mut self, data: &[u8]) -> (n: usize)
        ensures
            old(self).push_step(*final(self), data@, n as int),
    {
        let n = self.ring.push(data);
        self.accepted = total_add(self.accepted, n);
        self.dropped = total_add(self.dropped, data.len() - n);
        let held = self.ring.stored();
        if held > self.high_water {
            self.high_water = held;
        }
        if n > 0 {
            self.wake();
        }
        n
    }

    /// Push multiple bytes into the ring buffer (called by the RX copier);
    /// the same as [`Self::push`].
    pub fn push_batch(&mut self, data: &[u8]) -> (n: usize)
        ensures
            old(self).push_step(*final(self), data@, n as int),
    {
        self.push(data)
    }

    /// Pop data from the ring buffer into `buf` (called by consumers).
    ///
    /// Returns the number of bytes popped: as many as fit into `buf` of the
    /// stored area the ring hands out; no waker is woken.
    pub fn pop(&mut self, buf: &mut [u8]) -> (n: usize)
        ensures
            old(self).pop_step(*final(self), old(buf)@.len() as int, n as int),
            final(buf)@ == old(self).contents().subrange(0, n as int) + old(buf)@.subrange(
                n as int,
                old(buf)@.len() as int,
            ),
    {
        let n = self.ring.pop(buf);
        self.popped = total_add(self.popped, n);
        n
    }

    /// Bytes accepted by pushes, in total (wrapping).
    pub fn accepted(&self) -> (n: usize)
        ensures
            n == self.spec_accepted(),
    {
        self.accepted
    }

    /// Bytes offered to pushes that did not fit, in total (wrapping).
    pub fn dropped(&self) -> (n: usize)
        ensures
            n == self.spec_dropped(),
    {
        self.dropped
    }

    /// Bytes taken by pops, in total (wrapping).
    pub fn popped(&self) -> (n: usize)
        ensures
            n == self.spec_popped(),
    {
        self.popped
    }

    /// The highest occupancy seen after a push.
    pub fn high_water(&self) -> (n: usize)
        ensures
            n == self.spec_high_water(),
    {
        self.high_water
    }

    /// Register a waker to be notified when data is available.
    pub fn register_waker(&mut self, waker: &Waker)
        ensures
            final(self).registrations() == old(self).registrations() + 1,
            final(self).ring() == old(self).ring(),
            final(self).wakes() == old(self).wakes(),
            final(self).spec_accepted() == old(self).spec_accepted(),
            final(self).spec_dropped() == old(self).spec_dropped(),
            final(self).spec_popped() == old(self).spec_popped(),
            final(self).spec_high_water() == old(self).spec_high_water(),
    {
        self.poll.register(waker);
        proof {
            self.registrations@ = self.registrations@ + 1;
        }
    }
}

/// TX ring buffer: sends data to the UART.
///
/// Producers push into it; the TX copier pops from it.
pub struct RingBufTx<W: OsWakerSet> {
    ring: SpscRing,
    /// Waker set for notifying when space is available or data is consumed.
    pub poll: W,
    wakes: Ghost<nat>,
    registrations: Ghost<nat>,
    accepted: usize,
    dropped: usize,
    popped: usize,
    high_water: usize,
}

impl<W: OsWakerSet> RingBufTx<W> {
    /// The ring held.
    pub closed spec fn ring(&self) -> SpscRing {
        self.ring
    }

    /// The bytes held, oldest first.
    pub open spec fn contents(&self) -> Seq<u8> {
        ring_contents(self.ring())
    }

    /// The number of bytes the ring can hold.
    pub open spec fn capacity(&self) -> nat {
        ring_capacity(self.ring())
    }

    /// The free area that the next push is handed.
    pub open spec fn free_run(&self) -> int {
        ring_free_run(self.ring())
    }

    /// The stored area that the next pop is handed.
    pub open spec fn stored_run(&self) -> int {
        ring_stored_run(self.ring())
    }

    /// How many times the waker set has been woken through this buffer.
    pub closed spec fn wakes(&self) -> nat {
        self.wakes@
    }

    /// How many wakers have been registered with the waker set through
    /// this buffer.
    pub closed spec fn registrations(&self) -> nat {
        self.registrations@
    }

    /// Wake the waker set, counting the wake.
    fn wake(&mut self)
        ensures
            final(self).ring == old(self).ring,
            final(self).wakes() == old(self).wakes() + 1,
            final(self).registrations() == old(self).registrations(),
            final(self).accepted == old(self).accepted,
            final(self).dropped == old(self).dropped,
            final(self).popped == old(self).popped,
            final(self).high_water == old(self).high_water,
    {
        self.poll.wake();
        proof {
            self.wakes@ = self.wakes@ + 1;
        }
    }

    /// Bytes accepted by pushes, in total.
    pub closed spec fn spec_accepted(&self) -> usize {
        self.accepted
    }

    /// Bytes offered to pushes that did not fit, in total.
    pub closed spec fn spec_dropped(&self) -> usize {
        self.dropped
    }

    /// Bytes taken by pops, in total.
    pub closed spec fn spec_popped(&self) -> usize {
        self.popped
    }

    /// The highest occupancy seen after a push.
    pub closed spec fn spec_high_water(&self) -> usize {
        self.high_water
    }

    /// `after` is this buffer after a push of `data` that moved `n` bytes.
    pub open spec fn push_step(self, after: Self, data: Seq<u8>, n: int) -> bool {
        &&& n == min_len(data.len() as int, self.free_run())
        &&& ring_wf(self.ring())
        &&& ring_wf(after.ring())
        &&& after.capacity() == self.capacity()
        &&& ring_start(after.ring()) == ring_start(self.ring())
        &&& after.registrations() == self.registrations()
        &&& after.contents() == self.contents() + data.subrange(0, n)
        &&& after.contents().len() <= after.capacity()
        &&& after.wakes() == self.wakes() + if n > 0 { 1int } else { 0int }
        &&& after.spec_accepted() == wrap_usize(self.spec_accepted() + n)
        &&& after.spec_dropped() == wrap_usize(self.spec_dropped() + (data.len() - n))
        &&& after.spec_popped() == self.spec_popped()
        &&& after.spec_high_water() == if after.contents().len() > self.spec_high_water() {
            after.contents().len() as usize
        } else {
            self.spec_high_water()
        }
    }

    /// `after` is this buffer after a pop into a buffer of `buf_len` bytes that moved `n` bytes.
    pub open spec fn pop_step(self, after: Self, buf_len: int, n: int) -> bool {
        &&& n == min_len(buf_len, self.stored_run())
        &&& ring_wf(self.ring())
        &&& ring_wf(after.ring())
        &&& after.capacity() == self.capacity()
        &&& ring_start(after.ring()) == if self.capacity() == 0 {
            0
        } else {
            (ring_start(self.ring()) + n) % (self.capacity() as int)
        }
        &&& after.registrations() == self.registrations()
        &&& after.contents() == self.contents().subrange(n, self.contents().len() as int)
        &&& after.wakes() == self.wakes() + if n > 0 { 1int } else { 0int }
        &&& after.spec_accepted() == self.spec_accepted()
        &&& after.spec_dropped() == self.spec_dropped()
        &&& after.spec_popped() == wrap_usize(self.spec_popped() + n)
        &&& after.spec_high_water() == self.spec_high_water()
    }

    /// Create a new wrapper from a ring and the two handles made from it.
    ///
    /// The handles must have been made from `ring` (the unsafe contract of
    /// `RingBuffer::writer`/`reader`), and the ring must be initialised.
    pub fn new(ring: &'static RingBuffer, writer: Writer<'static>, reader: Reader<'static>) -> (r: Self)
        ensures
            r.ring().ring_buffer() == *ring,
            r.ring().writer_handle() == writer,
            r.ring().reader_handle() == reader,
            r.wakes() == 0,
            r.registrations() == 0,
            r.spec_accepted() == 0,
            r.spec_dropped() == 0,
            r.spec_popped() == 0,
            r.spec_high_water() == 0,
    {
        RingBufTx {
            ring: SpscRing::new(ring, writer, reader),
            poll: W::new(),
            wakes: Ghost(0),
            registrations: Ghost(0),
            accepted: 0,
            dropped: 0,
            popped: 0,
            high_water: 0,
        }
    }

    /// Push data into the ring buffer (called by producers).
    ///
    /// Returns the number of bytes pushed: as many as fit into the free
    /// area the ring hands out. Wakes the waker set (the TX copier) if at
    /// least one byte was pushed.
    pub fn push(&mut self, data: &[u8]) -> (n: usize)
        ensures
            old(self).push_step(*final(self), data@, n as int),
    {
        let n = self.ring.push(data);
        self.accepted = total_add(self.accepted, n);
        self.dropped = total_add(self.dropped, data.len() - n);
        let held = self.ring.stored();
        if held > self.high_water {
            self.high_water = held;
        }
        if n > 0 {
            self.wake();
        }
        n
    }

    /// Pop data from the ring buffer (called by the TX copier).
    ///
    /// Returns the number of bytes popped: as many as fit into `buf` of the
    /// stored area the ring hands out. Wakes the waker set (space freed for
    /// producers) if at least one byte was popped.
    pub fn pop(&mut self, buf: &mut [u8]) -> (n: usize)
        ensures
            old(self).pop_step(*final(self), old(buf)@.len() as int, n as int),
            final(buf)@ == old(self).contents().subrange(0, n as int) + old(buf)@.subrange(
                n as int,
                old(buf)@.len() as int,
            ),
    {
        let n = self.ring.pop(buf);
        self.popped = total_add(self.popped, n);
        if n > 0 {
            self.wake();
        }
        n
    }

    /// Pop multiple bytes from the ring buffer (called by the TX copier);
    /// the same as [`Self::pop`].
    pub fn pop_batch(&mut self, buf: &mut [u8]) -> (n: usize)
        ensures
            old(self).pop_step(*final(self), old(buf)@.len() as int, n as int),
            final(buf)@ == old(self).contents().subrange(0, n as int) + old(buf)@.subrange(
                n as int,
                old(buf)@.len() as int,
            ),
    {
        self.pop(buf)
    }

    /// Whether the ring buffer is empty (used by flush via `tx_completion`).
    pub fn is_empty(&mut self) -> (b: bool)
        ensures
            b == (old(self).contents().len() == 0),
            *final(self) == *old(self),
    {
        self.ring.is_empty()
    }

    /// Bytes accepted by pushes, in total (wrapping).
    pub fn accepted(&self) -> (n: usize)
        ensures
            n == self.spec_accepted(),
    {
        self.accepted
    }

    /// Bytes offered to pushes that did not fit, in total (wrapping).
    pub fn dropped(&self) -> (n: usize)
        ensures
            n == self.spec_dropped(),
    {
        self.dropped
    }

    /// Bytes taken by pops, in total (wrapping).
    pub fn popped(&self) -> (n: usize)
        ensures
            n == self.spec_popped(),
    {
        self.popped
    }

    /// The highest occupancy seen after a push.
    pub fn high_water(&self) -> (n: usize)
        ensures
            n == self.spec_high_water(),
    {
        self.high_water
    }

    /// Register a waker to be notified when space is available.
    pub fn register_waker(&mut self, waker: &Waker)
        ensures
            final(self).registrations() == old(self).registrations() + 1,
            final(self).ring() == old(self).ring(),
            final(self).wakes() == old(self).wakes(),
            final(self).spec_accepted() == old(self).spec_accepted(),
            final(self).spec_dropped() == old(self).spec_dropped(),
            final(self).spec_popped() == old(self).spec_popped(),
            final(self).spec_high_water() == old(self).spec_high_water(),
    {
        self.poll.register(waker);
        proof {
            self.registrations@ = self.registrations@ + 1;
        }
    }
}

} // verus!
