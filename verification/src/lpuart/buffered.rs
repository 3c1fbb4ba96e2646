//! Interrupt-buffered reception independent of executor polling.

use vstd::prelude::*;

use crate::lpuart;
use crate::lpuart::Character;
use crate::lpuart::Error;
use crate::lpuart::LpuartRx;
use crate::lpuart::Op;

verus! {

/// Most bytes that one read copies: it runs with interrupts masked.
pub const MAX_COPY: usize = 32;

/// Most characters that one interrupt takes, so other interrupts can run between FIFO batches.
pub const MAX_BATCH: u8 = 8;

/// A ring of received bytes.
#[derive(Debug)]
pub struct RxBuffer {
    storage: Vec<u8>,
    head: usize,
    len: usize,
    error: Option<Error>,
}

impl RxBuffer {
    /// Whether the ring is consistent.
    pub closed spec fn wf(&self) -> bool {
        &&& self.storage@.len() > 0
        &&& self.head < self.storage@.len()
        &&& self.len <= self.storage@.len()
    }

    /// The bytes in the ring, in the order in which they came.
    pub closed spec fn queued(&self) -> Seq<u8> {
        Seq::new(
            self.len as nat,
            |i: int| self.storage@[(self.head + i) % self.storage@.len() as int],
        )
    }

    /// The error that is latched.
    pub closed spec fn latched(&self) -> Option<Error> {
        self.error
    }

    /// How many bytes the ring has room for.
    pub closed spec fn capacity(&self) -> int {
        self.storage@.len() as int
    }

    /// An empty ring in `storage`.
    pub fn new(storage: Vec<u8>) -> (r: Self)
        requires
            storage@.len() > 0,
        ensures
            r.wf(),
            r.queued() == Seq::<u8>::empty(),
            r.latched() is None,
            r.capacity() == storage@.len(),
    {
        let ring: RxBuffer = RxBuffer { storage, head: 0, len: 0, error: None };
        assert(ring.queued() =~= Seq::<u8>::empty());
        ring
    }

    /// Discards the bytes and the error.
    pub fn clear(&mut self)
        requires
            old(self).wf(),
        ensures
            final(self).wf(),
            final(self).queued() == Seq::<u8>::empty(),
            final(self).latched() is None,
            final(self).capacity() == old(self).capacity(),
    {
        self.head = 0;
        self.len = 0;
        self.error = None;
        assert(self.queued() =~= Seq::<u8>::empty());
    }

    /// Adds a byte; where there is no room, the bytes are discarded and an overrun is latched.
    pub fn push(&mut self, byte: u8)
        requires
            old(self).wf(),
        ensures
            final(self).wf(),
            final(self).capacity() == old(self).capacity(),
            if old(self).queued().len() == old(self).capacity() {
                final(self).queued() == Seq::<u8>::empty() && final(self).latched() == Some(
                    Error::Overrun,
                )
            } else {
                final(self).queued() == old(self).queued().push(byte) && final(self).latched()
                    == old(self).latched()
            },
    {
        if self.len == self.storage.len() {
            self.fail(Error::Overrun);
        } else {
            let size: usize = self.storage.len();
            let at: usize = self.wrapped(self.len);
            let ghost before = *self;
            self.storage.set(at, byte);
            self.len = self.len + 1;
            proof {
                let n = size as int;
                assert forall|i: int| 0 <= i < before.len implies #[trigger] ((before.head + i) % n)
                    != at by {
                    lemma_positions_differ(before.head as int, i, before.len as int, n);
                }
                assert(self.queued() =~= before.queued().push(byte));
            }
        }
    }

    /// The position `offset` places after the head.
    fn wrapped(&self, offset: usize) -> (r: usize)
        requires
            self.wf(),
            offset < self.storage@.len(),
        ensures
            r == (self.head + offset) % self.storage@.len() as int,
            r < self.storage@.len(),
    {
        let size: usize = self.storage.len();
        let room: usize = size - self.head;
        if offset < room {
            assert((self.head + offset) % size as int == self.head + offset) by (nonlinear_arith)
                requires
                    0 <= self.head + offset < size,
            ;
            self.head + offset
        } else {
            assert((self.head + offset) % size as int == self.head + offset - size)
                by (nonlinear_arith)
                requires
                    0 <= self.head + offset - size < size,
            ;
            offset - room
        }
    }

    /// Discards the bytes and latches an error.
    pub fn fail(&mut self, error: Error)
        requires
            old(self).wf(),
        ensures
            final(self).wf(),
            final(self).queued() == Seq::<u8>::empty(),
            final(self).latched() == Some(error),
            final(self).capacity() == old(self).capacity(),
    {
        self.clear();
        self.error = Some(error);
        assert(self.queued() =~= Seq::<u8>::empty());
    }

    /// Moves bytes into `output`: what fits, what is there, and no more than a bounded number at a
    /// time. A latched error is returned instead, and stays.
    pub fn read(&mut self, output: &mut Vec<u8>) -> (r: Result<usize, Error>)
        requires
            old(self).wf(),
        ensures
            final(self).wf(),
            final(self).capacity() == old(self).capacity(),
            final(self).latched() == old(self).latched(),
            final(output)@.len() == old(output)@.len(),
            match r {
                Err(e) => old(self).latched() == Some(e) && final(self).queued() == old(self).queued() && final(output)@ == old(output)@,
                Ok(n) => {
                    &&& old(self).latched() is None
                    &&& n == read_count(old(output)@.len() as int, old(self).queued().len() as int)
                    &&& final(output)@ == old(self).queued().take(n as int) + old(output)@.skip(
                        n as int,
                    )
                    &&& final(self).queued() == old(self).queued().skip(n as int)
                },
            },
    {
        if let Some(error) = self.error {
            return Err(error);
        }
        let mut n: usize = output.len();
        if self.len < n {
            n = self.len;
        }
        if MAX_COPY < n {
            n = MAX_COPY;
        }
        let size: usize = self.storage.len();
        let ghost before = *self;
        let ghost queue = self.queued();
        let ghost out = output@;
        proof {
            lemma_position(before.head as int, 0, size as int);
        }
        let mut i: usize = 0;
        while i < n
            invariant
                i <= n <= before.len,
                n <= output@.len(),
                before.wf(),
                self.wf(),
                self.error is None,
                self.storage@ == before.storage@,
                size == self.storage@.len(),
                self.len == before.len,
                self.head == (before.head + i) % size as int,
                queue == before.queued(),
                output@ =~= queue.take(i as int) + out.skip(i as int),
                out.len() == output@.len(),
            decreases n - i,
        {
            assert(self.storage@[self.head as int] == queue[i as int]);
            output.set(i, self.storage[self.head]);
            proof {
                lemma_next_position(before.head as int, i as int, size as int);
            }
            self.head = if self.head + 1 == size {
                0
            } else {
                self.head + 1
            };
            i = i + 1;
        }
        self.len = self.len - n;
        proof {
            assert forall|k: int| 0 <= k < self.len implies #[trigger] self.queued()[k] == queue[n
                + k] by {
                lemma_shift(before.head as int, n as int, k, size as int);
            }
            assert(self.queued() =~= queue.skip(n as int));
        }
        Ok(n)
    }

    /// Serves the receive interrupt: `rie` and `orie` are the enables in `CTRL`, `or` is
    /// `STAT[OR]`. Returns how many characters may be taken, or nothing if the interrupt is not for
    /// reception.
    pub fn on_interrupt(&mut self, rie: bool, orie: bool, or: bool) -> (r: Option<u8>)
        requires
            old(self).wf(),
        ensures
            final(self).wf(),
            final(self).capacity() == old(self).capacity(),
            r == if rie || orie {
                Some(MAX_BATCH)
            } else {
                None
            },
            if (rie || orie) && or {
                final(self).queued() == Seq::<u8>::empty() && final(self).latched() == Some(
                    Error::Overrun,
                )
            } else {
                *final(self) == *old(self)
            },
    {
        if !rie && !orie {
            return None;
        }
        if or {
            self.fail(Error::Overrun);
        }
        Some(MAX_BATCH)
    }

    /// Whether the interrupt takes one more character: `left` of the batch may still be taken, and
    /// `rxcount` characters are in the FIFO.
    pub fn wants(&self, left: u8, rxcount: u8) -> (r: bool)
        ensures
            r == (left > 0 && self.latched() is None && rxcount != 0),
    {
        left > 0 && self.error.is_none() && rxcount != 0
    }

    /// Takes a character; one with an error discards the bytes and latches the error. Returns what
    /// is left of the batch.
    pub fn take(&mut self, left: u8, c: Character) -> (r: u8)
        requires
            old(self).wf(),
            old(self).latched() is None,
            left > 0,
        ensures
            r == left - 1,
            final(self).wf(),
            final(self).capacity() == old(self).capacity(),
            match lpuart::character_result(c) {
                Err(e) => final(self).queued() == Seq::<u8>::empty() && final(self).latched()
                    == Some(e),
                Ok(byte) => if old(self).queued().len() == old(self).capacity() {
                    final(self).queued() == Seq::<u8>::empty() && final(self).latched() == Some(
                        Error::Overrun,
                    )
                } else {
                    final(self).queued() == old(self).queued().push(byte) && final(self).latched() is None
                },
            },
    {
        match lpuart::character(c) {
            Err(e) => self.fail(e),
            Ok(byte) => self.push(byte),
        }
        left - 1
    }

    /// Ends the service of the interrupt: whether to stop reception, and whether to wake the
    /// reader.
    pub fn served(&self) -> (r: (bool, bool))
        ensures
            r.0 == (self.latched() is Some),
            r.1 == (self.queued().len() != 0 || self.latched() is Some),
    {
        (self.error.is_some(), self.len != 0 || self.error.is_some())
    }

    /// The storage, for reuse.
    pub fn into_storage(self) -> (r: Vec<u8>)
        ensures
            r@.len() == self.capacity(),
    {
        self.storage
    }
}

/// How many bytes a read moves.
pub open spec fn read_count(room: int, queued: int) -> int {
    let n = if room < queued {
        room
    } else {
        queued
    };
    if n < MAX_COPY {
        n
    } else {
        MAX_COPY as int
    }
}

/// Bytes are read in the order in which they came, none is lost and none comes twice: what was read
/// followed by what waits in the ring is what was received, and a byte that comes in is added to that
/// while a read, whatever room it has, leaves it as it is.
pub proof fn law_ring_keeps_order(read: Seq<u8>, queued: Seq<u8>, byte: u8, room: int)
    requires
        room >= 0,
    ensures
        read + queued.push(byte) == (read + queued).push(byte),
        ({
            let n = read_count(room, queued.len() as int);
            &&& 0 <= n <= queued.len()
            &&& (read + queued.take(n)) + queued.skip(n) == read + queued
        }),
{
    let n = read_count(room, queued.len() as int);
    assert(read + queued.push(byte) =~= (read + queued).push(byte));
    assert((read + queued.take(n)) + queued.skip(n) =~= read + queued);
}

/// A read moves as many bytes as there is room for and as wait in the ring, but no more than 32 at a
/// time; an interrupt takes no more than 8 characters.
pub proof fn law_bounds(room: int, queued: int)
    ensures
        ({
            let n = read_count(room, queued);
            &&& n <= room && n <= queued && n <= 32
            &&& n == room || n == queued || n == 32
        }),
        MAX_BATCH == 8,
{
}

proof fn lemma_positions_differ(head: int, i: int, j: int, n: int)
    requires
        0 <= head < n,
        0 <= i < j < n,
    ensures
        (head + i) % n != (head + j) % n,
{
    lemma_position(head, i, n);
    lemma_position(head, j, n);
}

proof fn lemma_position(head: int, i: int, n: int)
    requires
        0 <= head < n,
        0 <= i < n,
    ensures
        (head + i) % n == if head + i < n {
            head + i
        } else {
            head + i - n
        },
{
    if head + i < n {
        assert((head + i) % n == head + i) by (nonlinear_arith)
            requires
                0 <= head + i < n,
        ;
    } else {
        assert((head + i) % n == head + i - n) by (nonlinear_arith)
            requires
                0 <= head + i - n < n,
        ;
    }
}

proof fn lemma_next_position(head: int, i: int, n: int)
    requires
        0 <= head < n,
        0 <= i < n,
    ensures
        (head + i + 1) % n == if (head + i) % n + 1 == n {
            0
        } else {
            (head + i) % n + 1
        },
{
    lemma_position(head, i, n);
    if i + 1 < n {
        lemma_position(head, i + 1, n);
    } else {
        assert((head + n) % n == head) by (nonlinear_arith)
            requires
                0 <= head < n,
        ;
    }
}

proof fn lemma_shift(head: int, k: int, i: int, n: int)
    requires
        0 <= head < n,
        0 <= k <= n,
        0 <= i,
    ensures
        ((head + k) % n + i) % n == (head + (k + i)) % n,
{
    vstd::arithmetic::div_mod::lemma_add_mod_noop(head + k, i, n);
    vstd::arithmetic::div_mod::lemma_add_mod_noop((head + k) % n, i, n);
    vstd::arithmetic::div_mod::lemma_mod_twice(head + k, n);
}

/// An interrupt-driven receive ring that continues filling while the executor is busy.
///
/// RX keeps the executor in WAIT until suspended or dropped, even when no read is pending.
///
/// Hardware errors or a full ring discard the buffered data and latch an error. Reads return that
/// error until [`recover`](Self::recover) or a suspend/resume cycle discards stale input and
/// restarts reception.
#[derive(Debug)]
pub struct BufferedLpuartRx {
    rx: LpuartRx,
    ring: RxBuffer,
    /// The executor is kept in WAIT.
    guard: bool,
}

impl LpuartRx {
    /// Start interrupt-buffered reception. Unread FIFO data and errors are discarded. A suspended
    /// receiver stays suspended. A DMA channel is kept, but not used meanwhile.
    pub fn into_buffered(self, buffer: Vec<u8>) -> (r: (BufferedLpuartRx, Vec<Op>))
        requires
            buffer@.len() > 0,
        ensures
            r.0.wf(),
            r.0.queued() == Seq::<u8>::empty(),
            r.0.latched() is None,
            r.0.capacity() == buffer@.len(),
            r.0.suspended() == self.suspended(),
            r.0.keeps_awake() == !self.suspended(),
            r.0.has_dma() == self.has_dma(),
            r.1@ == if self.suspended() {
                seq![Op::DisconnectRx]
            } else {
                seq![Op::DisconnectRx, Op::ConnectRx, Op::ArmRx]
            },
    {
        let mut rx: LpuartRx = self;
        let suspended: bool = rx.is_suspended();
        let mut ops: Vec<Op> = vec![rx.suspend()];
        let mut buffered: BufferedLpuartRx = BufferedLpuartRx {
            rx,
            ring: RxBuffer::new(buffer),
            guard: false,
        };
        if !suspended {
            let mut resume: Vec<Op> = buffered.resume();
            ops.append(&mut resume);
        }
        assert(ops@ =~= if suspended {
            seq![Op::DisconnectRx]
        } else {
            seq![Op::DisconnectRx, Op::ConnectRx, Op::ArmRx]
        });
        (buffered, ops)
    }
}

impl BufferedLpuartRx {
    /// Whether the receiver is consistent: it listens, and keeps the executor in WAIT, unless it
    /// is suspended, and then holds nothing.
    pub closed spec fn wf(&self) -> bool {
        &&& self.ring.wf()
        &&& self.guard == !self.rx.suspended()
        &&& self.rx.suspended() ==> self.ring.queued() == Seq::<u8>::empty()
            && self.ring.latched() is None
    }

    /// The bytes that wait to be read.
    pub closed spec fn queued(&self) -> Seq<u8> {
        self.ring.queued()
    }

    /// The error that is latched.
    pub closed spec fn latched(&self) -> Option<Error> {
        self.ring.latched()
    }

    /// How many bytes there is room for.
    pub closed spec fn capacity(&self) -> int {
        self.ring.capacity()
    }

    /// Whether reception is suspended.
    pub closed spec fn suspended(&self) -> bool {
        self.rx.suspended()
    }

    /// Whether the half has a DMA channel, which is not used.
    pub closed spec fn has_dma(&self) -> bool {
        self.rx.has_dma()
    }

    /// Whether the executor is kept in WAIT.
    pub closed spec fn keeps_awake(&self) -> bool {
        self.guard
    }

    /// Read buffered bytes without waiting. Returns zero when empty.
    pub fn try_read(&mut self, output: &mut Vec<u8>) -> (r: Result<usize, Error>)
        requires
            old(self).wf(),
        ensures
            final(self).wf(),
            final(self).capacity() == old(self).capacity(),
            final(self).has_dma() == old(self).has_dma(),
            final(self).suspended() == old(self).suspended(),
            final(self).keeps_awake() == old(self).keeps_awake(),
            final(self).latched() == old(self).latched(),
            final(output)@.len() == old(output)@.len(),
            match r {
                Err(e) => {
                    &&& old(output)@.len() > 0
                    &&& Some(e) == if old(self).suspended() {
                        Some(Error::Suspended)
                    } else {
                        old(self).latched()
                    }
                    &&& final(self).queued() == old(self).queued()
                    &&& final(output)@ == old(output)@
                },
                Ok(n) => {
                    &&& old(output)@.len() > 0 ==> !old(self).suspended() && old(self).latched() is None
                    &&& n == if old(output)@.len() == 0 {
                        0
                    } else {
                        read_count(old(output)@.len() as int, old(self).queued().len() as int)
                    }
                    &&& final(output)@ == old(self).queued().take(n as int) + old(output)@.skip(
                        n as int,
                    )
                    &&& final(self).queued() == old(self).queued().skip(n as int)
                },
            },
    {
        if output.len() == 0 {
            assert(output@ =~= self.queued().take(0) + output@.skip(0));
            assert(self.queued() =~= self.queued().skip(0));
            return Ok(0);
        }
        if self.rx.is_suspended() {
            return Err(Error::Suspended);
        }
        self.ring.read(output)
    }

    /// What an async read makes of what [`try_read`](Self::try_read) returned: whether it is done,
    /// or waits for at least one byte. An empty output is done at once.
    pub fn read_done(room: usize, result: Result<usize, Error>) -> (r: bool)
        ensures
            r == (room == 0 || result != Ok::<usize, Error>(0)),
    {
        if room == 0 {
            return true;
        }
        match result {
            Ok(n) => n != 0,
            Err(_) => true,
        }
    }

    /// Stop reception, disconnect RX and discard buffered input.
    pub fn suspend(&mut self) -> (r: Op)
        requires
            old(self).wf(),
        ensures
            final(self).wf(),
            final(self).suspended(),
            !final(self).keeps_awake(),
            final(self).queued() == Seq::<u8>::empty(),
            final(self).latched() is None,
            final(self).capacity() == old(self).capacity(),
            final(self).has_dma() == old(self).has_dma(),
            r == Op::DisconnectRx,
    {
        let op: Op = self.rx.suspend();
        self.ring.clear();
        self.guard = false;
        op
    }

    /// Discard stale input and resume background reception. Does nothing unless suspended.
    pub fn resume(&mut self) -> (r: Vec<Op>)
        requires
            old(self).wf(),
        ensures
            final(self).wf(),
            !final(self).suspended(),
            final(self).keeps_awake(),
            final(self).capacity() == old(self).capacity(),
            final(self).has_dma() == old(self).has_dma(),
            final(self).queued() == old(self).queued(),
            final(self).latched() == old(self).latched(),
            r@ == if old(self).suspended() {
                seq![Op::ConnectRx, Op::ArmRx]
            } else {
                seq![]
            },
    {
        if self.rx.is_suspended() {
            self.ring.clear();
            self.guard = true;
            let connect: Op = self.rx.resume();
            vec![connect, Op::ArmRx]
        } else {
            Vec::new()
        }
    }

    /// Whether reception is suspended and RX is disconnected.
    pub fn is_suspended(&self) -> (r: bool)
        ensures
            r == self.suspended(),
    {
        self.rx.is_suspended()
    }

    /// Discard all queued data and errors and restart reception, unless suspended.
    pub fn recover(&mut self) -> (r: Vec<Op>)
        requires
            old(self).wf(),
        ensures
            final(self).wf(),
            final(self).suspended() == old(self).suspended(),
            final(self).keeps_awake() == !old(self).suspended(),
            final(self).queued() == Seq::<u8>::empty(),
            final(self).latched() is None,
            final(self).capacity() == old(self).capacity(),
            final(self).has_dma() == old(self).has_dma(),
            r@ == if old(self).suspended() {
                seq![Op::DisconnectRx]
            } else {
                seq![Op::DisconnectRx, Op::ConnectRx, Op::ArmRx]
            },
    {
        let suspended: bool = self.is_suspended();
        let mut ops: Vec<Op> = vec![self.suspend()];
        if !suspended {
            let mut resume: Vec<Op> = self.resume();
            ops.append(&mut resume);
        }
        assert(ops@ =~= if suspended {
            seq![Op::DisconnectRx]
        } else {
            seq![Op::DisconnectRx, Op::ConnectRx, Op::ArmRx]
        });
        ops
    }

    /// Stop buffering and return the suspended UART half and its buffer for reuse, with the access
    /// that disconnects RX.
    pub fn into_inner(self) -> (r: (LpuartRx, Vec<u8>, Op))
        requires
            self.wf(),
        ensures
            r.0.suspended(),
            r.0.has_dma() == self.has_dma(),
            r.1@.len() == self.capacity(),
            r.2 == Op::DisconnectRx,
    {
        let mut buffered: BufferedLpuartRx = self;
        let op: Op = buffered.suspend();
        let BufferedLpuartRx { rx, ring, guard: _ } = buffered;
        (rx, ring.into_storage(), op)
    }

    /// Serves the receive interrupt; see [`RxBuffer::on_interrupt`].
    pub fn on_interrupt(&mut self, rie: bool, orie: bool, or: bool) -> (r: Option<u8>)
        requires
            old(self).wf(),
            !old(self).suspended(),
        ensures
            final(self).wf(),
            !final(self).suspended(),
            final(self).capacity() == old(self).capacity(),
            final(self).has_dma() == old(self).has_dma(),
            final(self).keeps_awake() == old(self).keeps_awake(),
            r == if rie || orie {
                Some(MAX_BATCH)
            } else {
                None
            },
            if (rie || orie) && or {
                final(self).queued() == Seq::<u8>::empty() && final(self).latched() == Some(
                    Error::Overrun,
                )
            } else {
                final(self).queued() == old(self).queued() && final(self).latched() == old(self).latched()
            },
    {
        self.ring.on_interrupt(rie, orie, or)
    }

    /// Whether the interrupt takes one more character; see [`RxBuffer::wants`].
    pub fn wants(&self, left: u8, rxcount: u8) -> (r: bool)
        ensures
            r == (left > 0 && self.latched() is None && rxcount != 0),
    {
        self.ring.wants(left, rxcount)
    }

    /// Takes a character; see [`RxBuffer::take`].
    pub fn take(&mut self, left: u8, c: Character) -> (r: u8)
        requires
            old(self).wf(),
            !old(self).suspended(),
            old(self).latched() is None,
            left > 0,
        ensures
            r == left - 1,
            final(self).wf(),
            !final(self).suspended(),
            final(self).keeps_awake() == old(self).keeps_awake(),
            final(self).capacity() == old(self).capacity(),
            final(self).has_dma() == old(self).has_dma(),
            match lpuart::character_result(c) {
                Err(e) => final(self).queued() == Seq::<u8>::empty() && final(self).latched()
                    == Some(e),
                Ok(byte) => if old(self).queued().len() == old(self).capacity() {
                    final(self).queued() == Seq::<u8>::empty() && final(self).latched() == Some(
                        Error::Overrun,
                    )
                } else {
                    final(self).queued() == old(self).queued().push(byte) && final(self).latched() is None
                },
            },
    {
        self.ring.take(left, c)
    }

    /// Ends the service of the interrupt; see [`RxBuffer::served`].
    pub fn served(&self) -> (r: (bool, bool))
        ensures
            r.0 == (self.latched() is Some),
            r.1 == (self.queued().len() != 0 || self.latched() is Some),
    {
        self.ring.served()
    }
}

} // verus!
