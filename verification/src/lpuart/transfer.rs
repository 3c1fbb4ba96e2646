//! Reading and writing through the FIFOs.

use vstd::prelude::*;

use crate::dma::MAX_TRANSFER;
use crate::lpuart;
use crate::lpuart::Character;
use crate::lpuart::Error;
use crate::lpuart::Flags;
use crate::lpuart::Op;

verus! {

// ---------------------------------------------------------------------------------------------
// Reading
// ---------------------------------------------------------------------------------------------

/// What a read needs next.
#[derive(Clone, Copy, Debug, PartialEq, Eq)]
pub enum ReadWait {
    /// `STAT[OR]` and `WATER[RXCOUNT]`, now.
    Status,
    /// A character from the FIFO (`DATA`, now).
    Character,
    /// `STAT[RDRF]` or `STAT[OR]` to be set.
    Ready,
    /// Nothing any more: the read is over, with this many bytes.
    Finished(Result<usize, Error>),
}

/// What happened.
#[derive(Clone, Copy, Debug, PartialEq, Eq, Structural)]
pub enum ReadEvent {
    Status { or: bool, rxcount: u8 },
    Character(Character),
    Ready,
}

/// The state of a read.
pub ghost struct ReadState {
    /// How many bytes there is room for.
    pub len: int,
    /// Whether all of them are wanted, or whatever is there once there is one.
    pub all: bool,
    /// The bytes read so far.
    pub taken: Seq<u8>,
    pub wait: ReadWait,
}

impl ReadState {
    pub open spec fn wf(self) -> bool {
        &&& self.taken.len() <= self.len
        &&& match self.wait {
            ReadWait::Finished(Ok(n)) => n == self.taken.len() && (self.all ==> n == self.len) && (n
                == 0 ==> self.len == 0),
            ReadWait::Finished(Err(_)) => true,
            _ => self.taken.len() < self.len,
        }
    }
}

/// A read that has not begun.
pub open spec fn read_initial(len: int, all: bool) -> ReadState {
    ReadState {
        len,
        all,
        taken: seq![],
        wait: if len == 0 {
            ReadWait::Finished(Ok(0))
        } else {
            ReadWait::Status
        },
    }
}

/// How a read goes on at an event, and the accesses for that. An event that it does not wait for
/// changes nothing.
pub open spec fn read_advance(now: ReadState, event: ReadEvent) -> (ReadState, Seq<Op>) {
    match (now.wait, event) {
        (ReadWait::Status, ReadEvent::Status { or, rxcount }) => if or {
            (
                ReadState { wait: ReadWait::Finished(Err(Error::Overrun)), ..now },
                seq![Op::ClearStat(lpuart::overrun_flag())],
            )
        } else if rxcount != 0 {
            (ReadState { wait: ReadWait::Character, ..now }, seq![])
        } else if !now.all && now.taken.len() > 0 {
            (
                ReadState { wait: ReadWait::Finished(Ok(now.taken.len() as usize)), ..now },
                seq![],
            )
        } else {
            (ReadState { wait: ReadWait::Ready, ..now }, seq![])
        },
        (ReadWait::Ready, ReadEvent::Ready) => (
            ReadState { wait: ReadWait::Status, ..now },
            seq![],
        ),
        (ReadWait::Character, ReadEvent::Character(c)) => match lpuart::character_result(c) {
            Err(e) => (
                ReadState { wait: ReadWait::Finished(Err(e)), ..now },
                seq![Op::ClearStat(lpuart::character_flags())],
            ),
            Ok(byte) => {
                let taken = now.taken.push(byte);
                (
                    ReadState {
                        taken,
                        wait: if taken.len() == now.len {
                            ReadWait::Finished(Ok(taken.len() as usize))
                        } else {
                            ReadWait::Status
                        },
                        ..now
                    },
                    seq![],
                )
            },
        },
        _ => (now, seq![]),
    }
}

/// A read under way, with its buffer.
pub struct Read {
    buffer: Vec<u8>,
    all: bool,
    filled: usize,
    wait: ReadWait,
    initial: Ghost<Seq<u8>>,
    taken: Ghost<Seq<u8>>,
}

impl Read {
    pub closed spec fn state(&self) -> ReadState {
        ReadState {
            len: self.buffer@.len() as int,
            all: self.all,
            taken: self.taken@,
            wait: self.wait,
        }
    }

    /// The buffer to be filled.
    pub closed spec fn buffer(&self) -> Seq<u8> {
        self.buffer@
    }

    /// What the buffer held at first.
    pub closed spec fn initial_buffer(&self) -> Seq<u8> {
        self.initial@
    }

    /// Whether the buffer holds the bytes read so far, and beyond that what it held at first.
    pub open spec fn buffer_filled(&self) -> bool {
        &&& self.buffer().len() == self.initial_buffer().len()
        &&& forall|i: int|
            0 <= i < self.buffer().len() ==> #[trigger] self.buffer()[i] == if i
                < self.state().taken.len() {
                self.state().taken[i]
            } else {
                self.initial_buffer()[i]
            }
    }

    /// Whether the read is consistent.
    pub closed spec fn wf(&self) -> bool {
        &&& self.state().wf()
        &&& self.buffer_filled()
        &&& self.filled == self.taken@.len()
    }

    /// A read that fills `buffer`, or, unless `all`, waits for one byte and takes whatever else is
    /// already in the FIFO.
    pub fn new(buffer: Vec<u8>, all: bool) -> (r: Self)
        ensures
            r.wf(),
            r.state() == read_initial(buffer@.len() as int, all),
            r.buffer() == buffer@,
            r.initial_buffer() == buffer@,
    {
        let wait: ReadWait = if buffer.len() == 0 {
            ReadWait::Finished(Ok(0))
        } else {
            ReadWait::Status
        };
        let ghost contents = buffer@;
        Read {
            buffer,
            all,
            filled: 0,
            wait,
            initial: Ghost(contents),
            taken: Ghost(Seq::empty()),
        }
    }

    /// What the read needs next.
    pub fn wait(&self) -> (r: ReadWait)
        ensures
            r == self.state().wait,
    {
        self.wait
    }

    /// The buffer, filled as far as the read went.
    pub fn into_buffer(self) -> (r: Vec<u8>)
        requires
            self.wf(),
        ensures
            r@ == self.buffer(),
            self.buffer_filled(),
    {
        self.buffer
    }

    /// Goes on at an event. The accesses returned are to be made at once, in order.
    pub fn advance(&mut self, event: ReadEvent) -> (r: Vec<Op>)
        requires
            old(self).wf(),
        ensures
            final(self).wf(),
            final(self).state() == read_advance(old(self).state(), event).0,
            r@ == read_advance(old(self).state(), event).1,
            final(self).initial_buffer() == old(self).initial_buffer(),
    {
        let mut ops: Vec<Op> = Vec::new();
        match (self.wait, event) {
            (ReadWait::Status, ReadEvent::Status { or, rxcount }) => {
                if or {
                    ops.push(Op::ClearStat(Flags { or: true, fe: false, pf: false, nf: false }));
                    self.wait = ReadWait::Finished(Err(Error::Overrun));
                } else if rxcount != 0 {
                    self.wait = ReadWait::Character;
                } else if !self.all && self.filled > 0 {
                    self.wait = ReadWait::Finished(Ok(self.filled));
                } else {
                    self.wait = ReadWait::Ready;
                }
            },
            (ReadWait::Ready, ReadEvent::Ready) => {
                self.wait = ReadWait::Status;
            },
            (ReadWait::Character, ReadEvent::Character(c)) => {
                match lpuart::character(c) {
                    Err(e) => {
                        ops.push(Op::ClearStat(Flags { or: false, fe: true, pf: true, nf: true }));
                        self.wait = ReadWait::Finished(Err(e));
                    },
                    Ok(byte) => {
                        assert(self.filled < self.buffer.len());
                        self.buffer.set(self.filled, byte);
                        self.filled = self.filled + 1;
                        self.taken = Ghost(self.taken@.push(byte));
                        self.wait = if self.filled == self.buffer.len() {
                            ReadWait::Finished(Ok(self.filled))
                        } else {
                            ReadWait::Status
                        };
                    },
                }
            },
            _ => {},
        }
        ops
    }
}

/// A read keeps the characters in the order in which they came; those with an error are not kept.
pub proof fn law_read_keeps_order(now: ReadState, event: ReadEvent)
    requires
        now.wf(),
        now.len <= usize::MAX,
    ensures
        ({
            let next = read_advance(now, event).0;
            &&& next.wf()
            &&& {
                ||| next.taken == now.taken
                ||| event matches ReadEvent::Character(c) && lpuart::character_result(c) matches Ok(byte)
                    && next.taken == now.taken.push(byte)
            }
        }),
{
}

/// A character is taken out of the FIFO only where one is there.
pub proof fn law_read_takes_what_is_there(now: ReadState, event: ReadEvent)
    ensures
        ({
            let next = read_advance(now, event).0;
            next.wait == ReadWait::Character && now.wait != ReadWait::Character
                ==> (event matches ReadEvent::Status { or, rxcount } && !or && rxcount > 0)
        }),
{
}

// ---------------------------------------------------------------------------------------------
// Writing
// ---------------------------------------------------------------------------------------------

/// What a write needs next.
#[derive(Clone, Copy, Debug, PartialEq, Eq, Structural)]
pub enum WriteWait {
    /// The number of bytes in the transmit FIFO (`WATER[TXCOUNT]`, now).
    TxCount,
    /// `STAT[TDRE]` to be set: the transmit FIFO is empty.
    Tdre,
    /// Nothing any more: every byte is queued.
    Finished,
}

/// What happened.
#[derive(Clone, Copy, Debug, PartialEq, Eq, Structural)]
pub enum WriteEvent {
    TxCount(u8),
    Tdre,
}

/// The state of a write.
pub ghost struct WriteState {
    pub bytes: Seq<u8>,
    /// How many bytes have been queued.
    pub written: int,
    /// Entries of the transmit FIFO.
    pub size: int,
    /// Whether the FIFO is filled in one go whenever it is empty, without counting.
    pub blocking: bool,
    pub wait: WriteWait,
}

impl WriteState {
    pub open spec fn wf(self) -> bool {
        &&& self.size >= 1
        &&& 0 <= self.written <= self.bytes.len()
        &&& self.wait == WriteWait::Finished <==> self.written == self.bytes.len()
        &&& self.blocking ==> self.wait != WriteWait::TxCount
    }
}

/// A write that has not begun.
pub open spec fn write_initial(bytes: Seq<u8>, size: int, blocking: bool) -> WriteState {
    WriteState {
        bytes,
        written: 0,
        size,
        blocking,
        wait: if bytes.len() == 0 {
            WriteWait::Finished
        } else if blocking {
            WriteWait::Tdre
        } else {
            WriteWait::TxCount
        },
    }
}

/// How many bytes a blocking write queues at once: what the FIFO holds, or what is left.
pub open spec fn burst(now: WriteState) -> int {
    if now.bytes.len() - now.written < now.size {
        now.bytes.len() - now.written
    } else {
        now.size
    }
}

/// Accesses that queue bytes.
pub open spec fn queue_program(bytes: Seq<u8>) -> Seq<Op> {
    bytes.map_values(|byte: u8| Op::WriteData(byte))
}

/// How a write goes on at an event, and the accesses for that. An event that it does not wait for
/// changes nothing.
pub open spec fn write_advance(now: WriteState, event: WriteEvent) -> (WriteState, Seq<Op>) {
    match (now.wait, event) {
        (WriteWait::TxCount, WriteEvent::TxCount(count)) => if count < now.size {
            (
                WriteState {
                    written: now.written + 1,
                    wait: if now.written + 1 == now.bytes.len() {
                        WriteWait::Finished
                    } else {
                        WriteWait::TxCount
                    },
                    ..now
                },
                seq![Op::WriteData(now.bytes[now.written])],
            )
        } else {
            (WriteState { wait: WriteWait::Tdre, ..now }, seq![])
        },
        (WriteWait::Tdre, WriteEvent::Tdre) => if now.blocking {
            let end = now.written + burst(now);
            (
                WriteState {
                    written: end,
                    wait: if end == now.bytes.len() {
                        WriteWait::Finished
                    } else {
                        WriteWait::Tdre
                    },
                    ..now
                },
                queue_program(now.bytes.subrange(now.written, end)),
            )
        } else {
            (WriteState { wait: WriteWait::TxCount, ..now }, seq![])
        },
        _ => (now, seq![]),
    }
}

/// A write under way.
#[derive(Debug)]
pub struct Write {
    bytes: Vec<u8>,
    written: usize,
    size: u8,
    blocking: bool,
    wait: WriteWait,
}

impl Write {
    pub closed spec fn state(&self) -> WriteState {
        WriteState {
            bytes: self.bytes@,
            written: self.written as int,
            size: self.size as int,
            blocking: self.blocking,
            wait: self.wait,
        }
    }

    /// Whether the write is consistent.
    pub open spec fn wf(&self) -> bool {
        self.state().wf()
    }

    /// A write of `bytes` to a FIFO of `size` entries.
    pub fn new(bytes: Vec<u8>, size: u8, blocking: bool) -> (r: Self)
        requires
            size >= 1,
        ensures
            r.wf(),
            r.state() == write_initial(bytes@, size as int, blocking),
    {
        let wait: WriteWait = if bytes.len() == 0 {
            WriteWait::Finished
        } else if blocking {
            WriteWait::Tdre
        } else {
            WriteWait::TxCount
        };
        Write { bytes, written: 0, size, blocking, wait }
    }

    /// What the write needs next.
    pub fn wait(&self) -> (r: WriteWait)
        ensures
            r == self.state().wait,
    {
        self.wait
    }

    /// Goes on at an event. The accesses returned are to be made at once, in order.
    pub fn advance(&mut self, event: WriteEvent) -> (r: Vec<Op>)
        requires
            old(self).wf(),
        ensures
            final(self).wf(),
            final(self).state() == write_advance(old(self).state(), event).0,
            r@ == write_advance(old(self).state(), event).1,
    {
        let mut ops: Vec<Op> = Vec::new();
        match (self.wait, event) {
            (WriteWait::TxCount, WriteEvent::TxCount(count)) => {
                if count < self.size {
                    assert(self.written < self.bytes.len());
                    ops.push(Op::WriteData(self.bytes[self.written]));
                    self.written = self.written + 1;
                    if self.written == self.bytes.len() {
                        self.wait = WriteWait::Finished;
                    }
                } else {
                    self.wait = WriteWait::Tdre;
                }
            },
            (WriteWait::Tdre, WriteEvent::Tdre) => {
                if self.blocking {
                    let left: usize = self.bytes.len() - self.written;
                    let chunk: usize = if left < self.size as usize {
                        left
                    } else {
                        self.size as usize
                    };
                    let end: usize = self.written + chunk;
                    let ghost program = queue_program(
                        self.bytes@.subrange(self.written as int, end as int),
                    );
                    let mut i: usize = self.written;
                    while i < end
                        invariant
                            self.written <= i <= end <= self.bytes.len(),
                            program == queue_program(
                                self.bytes@.subrange(self.written as int, end as int),
                            ),
                            ops@ =~= program.take(i - self.written),
                        decreases end - i,
                    {
                        ops.push(Op::WriteData(self.bytes[i]));
                        i = i + 1;
                    }
                    assert(program.take(chunk as int) =~= program);
                    self.written = end;
                    if self.written == self.bytes.len() {
                        self.wait = WriteWait::Finished;
                    }
                } else {
                    self.wait = WriteWait::TxCount;
                }
            },
            _ => {},
        }
        ops
    }
}

/// Bytes are queued in order, each once, and never more of them at a time than the FIFO has room
/// for: one where it is not full, as many as it holds where it is empty.
pub proof fn law_write_never_overfills(now: WriteState, event: WriteEvent)
    requires
        now.wf(),
    ensures
        ({
            let (next, ops) = write_advance(now, event);
            &&& next.wf()
            &&& now.written <= next.written <= now.bytes.len()
            &&& ops == queue_program(now.bytes.subrange(now.written, next.written))
            &&& match event {
                WriteEvent::TxCount(count) => next.written > now.written ==> count + ops.len()
                    <= now.size,
                WriteEvent::Tdre => ops.len() <= now.size,
            }
        }),
{
    let (next, ops) = write_advance(now, event);
    assert(ops =~= queue_program(now.bytes.subrange(now.written, next.written)));
}

/// A write that is told of room in the FIFO makes progress, so it ends.
pub proof fn law_write_makes_progress(now: WriteState)
    requires
        now.wf(),
        now.wait != WriteWait::Finished,
    ensures
        now.wait == WriteWait::TxCount ==> write_advance(now, WriteEvent::TxCount(0)).0.written
            > now.written,
        now.wait == WriteWait::Tdre && now.blocking ==> write_advance(
            now,
            WriteEvent::Tdre,
        ).0.written > now.written,
        now.wait == WriteWait::Tdre && !now.blocking ==> write_advance(
            now,
            WriteEvent::Tdre,
        ).0.wait == WriteWait::TxCount,
{
}

// ---------------------------------------------------------------------------------------------
// DMA
// ---------------------------------------------------------------------------------------------

/// What a transfer by DMA needs next.
#[derive(Clone, Copy, Debug, PartialEq, Eq)]
pub enum DmaWait {
    /// The DMA channel to be done with this part of the buffer.
    Chunk { offset: usize, len: usize },
    /// The receive errors in the status register, now.
    Flags,
    /// Nothing any more: the transfer is over.
    Finished(Result<(), Error>),
}

/// What happened.
#[derive(Clone, Copy, Debug, PartialEq, Eq, Structural)]
pub enum DmaEvent {
    /// The DMA channel is done, well or not.
    Chunk { ok: bool },
    Flags(Flags),
}

/// The state of a transfer by DMA.
pub ghost struct DmaState {
    /// Whether the buffer is filled, or sent.
    pub read: bool,
    /// The length of the buffer.
    pub len: int,
    /// How many of its bytes have been moved.
    pub moved: int,
    pub wait: DmaWait,
}

/// How many bytes are moved at once when this many are left.
pub open spec fn dma_chunk(left: int) -> int {
    if left < MAX_TRANSFER {
        left
    } else {
        MAX_TRANSFER as int
    }
}

impl DmaState {
    pub open spec fn wf(self) -> bool {
        &&& 0 <= self.moved <= self.len <= usize::MAX
        &&& match self.wait {
            DmaWait::Chunk { offset, len } => self.moved < self.len && offset == self.moved && len
                == dma_chunk(self.len - self.moved),
            DmaWait::Flags => self.read && self.moved == self.len,
            DmaWait::Finished(Ok(_)) => self.moved == self.len,
            DmaWait::Finished(Err(_)) => true,
        }
    }

    /// The access that lets the module request transfers, or not.
    pub open spec fn requests(self, enabled: bool) -> Op {
        if self.read {
            Op::SetRdmae(enabled)
        } else {
            Op::SetTdmae(enabled)
        }
    }

    /// The state with the next part of the buffer to be moved, and the access that starts that.
    pub open spec fn next_chunk(self) -> (DmaState, Op) {
        let offset = self.moved as usize;
        let len = dma_chunk(self.len - self.moved) as usize;
        (
            DmaState { wait: DmaWait::Chunk { offset, len }, ..self },
            Op::StartDma { offset, len },
        )
    }
}

/// How a transfer by DMA begins, and the accesses for that: of a read, stale errors are cleared
/// first.
pub open spec fn dma_initial(read: bool, len: int) -> (DmaState, Seq<Op>) {
    let state = DmaState { read, len, moved: 0, wait: DmaWait::Finished(Ok(())) };
    if len == 0 {
        (state, seq![])
    } else {
        let (next, start) = state.next_chunk();
        (
            next,
            (if read {
                seq![Op::ClearStat(lpuart::all_flags())]
            } else {
                seq![]
            }) + seq![state.requests(true), start],
        )
    }
}

/// How a transfer by DMA goes on at an event, and the accesses for that. An event that it does not
/// wait for changes nothing. With DMA the per-character error flags are not available, so receive
/// errors are reported from the status register once the buffer is full.
pub open spec fn dma_advance(now: DmaState, event: DmaEvent) -> (DmaState, Seq<Op>) {
    match (now.wait, event) {
        (DmaWait::Chunk { len, .. }, DmaEvent::Chunk { ok }) => {
            let next = DmaState { moved: now.moved + len, ..now };
            if !ok {
                (
                    DmaState { wait: DmaWait::Finished(Err(Error::Dma)), ..now },
                    seq![now.requests(false)],
                )
            } else if next.moved < next.len {
                (next.next_chunk().0, seq![next.next_chunk().1])
            } else if now.read {
                (DmaState { wait: DmaWait::Flags, ..next }, seq![now.requests(false)])
            } else {
                (DmaState { wait: DmaWait::Finished(Ok(())), ..next }, seq![now.requests(false)])
            }
        },
        (DmaWait::Flags, DmaEvent::Flags(flags)) => match lpuart::status_error(flags) {
            Some(e) => (
                DmaState { wait: DmaWait::Finished(Err(e)), ..now },
                seq![Op::ClearStat(lpuart::all_flags())],
            ),
            None => (DmaState { wait: DmaWait::Finished(Ok(())), ..now }, seq![]),
        },
        _ => (now, seq![]),
    }
}

/// A transfer by DMA under way.
#[derive(Debug)]
pub struct DmaTransfer {
    read: bool,
    len: usize,
    moved: usize,
    wait: DmaWait,
}

impl DmaTransfer {
    pub closed spec fn state(&self) -> DmaState {
        DmaState {
            read: self.read,
            len: self.len as int,
            moved: self.moved as int,
            wait: self.wait,
        }
    }

    /// Whether the transfer is consistent.
    pub open spec fn wf(&self) -> bool {
        self.state().wf()
    }

    /// A transfer that fills a buffer of `len` bytes where `read`, or sends it.
    pub fn new(read: bool, len: usize) -> (r: (Self, Vec<Op>))
        ensures
            r.0.wf(),
            (r.0.state(), r.1@) == dma_initial(read, len as int),
    {
        let mut transfer: DmaTransfer = DmaTransfer {
            read,
            len,
            moved: 0,
            wait: DmaWait::Finished(Ok(())),
        };
        let mut ops: Vec<Op> = Vec::new();
        if len != 0 {
            if read {
                ops.push(Op::ClearStat(Flags { or: true, fe: true, pf: true, nf: true }));
            }
            ops.push(transfer.requests(true));
            ops.push(transfer.start_chunk());
        }
        assert(ops@ =~= dma_initial(read, len as int).1);
        (transfer, ops)
    }

    /// What the transfer needs next.
    pub fn wait(&self) -> (r: DmaWait)
        ensures
            r == self.state().wait,
    {
        self.wait
    }

    fn requests(&self, enabled: bool) -> (r: Op)
        ensures
            r == self.state().requests(enabled),
    {
        if self.read {
            Op::SetRdmae(enabled)
        } else {
            Op::SetTdmae(enabled)
        }
    }

    fn start_chunk(&mut self) -> (r: Op)
        requires
            0 <= old(self).state().moved < old(self).state().len,
        ensures
            final(self).wf(),
            (final(self).state(), r) == old(self).state().next_chunk(),
    {
        let offset: usize = self.moved;
        let left: usize = self.len - self.moved;
        let len: usize = if left < MAX_TRANSFER {
            left
        } else {
            MAX_TRANSFER
        };
        self.wait = DmaWait::Chunk { offset, len };
        Op::StartDma { offset, len }
    }

    /// Goes on at an event. The accesses returned are to be made at once, in order.
    pub fn advance(&mut self, event: DmaEvent) -> (r: Vec<Op>)
        requires
            old(self).wf(),
        ensures
            final(self).wf(),
            (final(self).state(), r@) == dma_advance(old(self).state(), event),
    {
        let mut ops: Vec<Op> = Vec::new();
        match (self.wait, event) {
            (DmaWait::Chunk { len, .. }, DmaEvent::Chunk { ok }) => {
                if !ok {
                    self.wait = DmaWait::Finished(Err(Error::Dma));
                    ops.push(self.requests(false));
                } else {
                    self.moved = self.moved + len;
                    if self.moved < self.len {
                        ops.push(self.start_chunk());
                    } else {
                        self.wait = if self.read {
                            DmaWait::Flags
                        } else {
                            DmaWait::Finished(Ok(()))
                        };
                        ops.push(self.requests(false));
                    }
                }
            },
            (DmaWait::Flags, DmaEvent::Flags(flags)) => {
                match lpuart::first_error(flags) {
                    Some(e) => {
                        self.wait = DmaWait::Finished(Err(e));
                        ops.push(Op::ClearStat(Flags { or: true, fe: true, pf: true, nf: true }));
                    },
                    None => {
                        self.wait = DmaWait::Finished(Ok(()));
                    },
                }
            },
            _ => {},
        }
        assert(ops@ =~= dma_advance(old(self).state(), event).1);
        ops
    }
}

/// Every part of the buffer that is given to the DMA channel follows on the bytes that were moved,
/// is no longer than the channel can move at once, and lies within the buffer; a part counts as
/// moved only where the channel did well.
pub proof fn law_dma_parts_follow_each_other(now: DmaState, event: DmaEvent)
    requires
        now.wf(),
    ensures
        ({
            let (next, ops) = dma_advance(now, event);
            &&& next.wf()
            &&& next.len == now.len
            &&& next.moved != now.moved ==> {
                &&& event == (DmaEvent::Chunk { ok: true })
                &&& now.wait is Chunk
                &&& next.moved == now.moved + now.wait->len
            }
            &&& forall|i: int|
                0 <= i < ops.len() ==> (#[trigger] ops[i] matches Op::StartDma { offset, len } ==> {
                    &&& offset == next.moved
                    &&& 1 <= len <= MAX_TRANSFER
                    &&& offset + len <= next.len
                })
        }),
{
}

/// The bytes that the DMA channel moves from here on where it does well, out of or into a buffer that
/// holds `bytes` in the end.
pub open spec fn dma_stream(now: DmaState, bytes: Seq<u8>) -> Seq<u8>
    decreases now.len - now.moved,
{
    match now.wait {
        DmaWait::Chunk { offset, len } => if 0 < len && now.moved + len <= now.len {
            bytes.subrange(offset as int, offset + len) + dma_stream(
                dma_advance(now, DmaEvent::Chunk { ok: true }).0,
                bytes,
            )
        } else {
            seq![]
        },
        _ => seq![],
    }
}

/// Where a transfer is once the DMA channel has done well with every part.
pub open spec fn dma_moved(now: DmaState) -> DmaState
    decreases now.len - now.moved,
{
    match now.wait {
        DmaWait::Chunk { len, .. } => if 0 < len && now.moved + len <= now.len {
            dma_moved(dma_advance(now, DmaEvent::Chunk { ok: true }).0)
        } else {
            now
        },
        _ => now,
    }
}

proof fn lemma_dma_rest(now: DmaState, bytes: Seq<u8>)
    requires
        now.wf(),
        now.wait is Chunk,
        bytes.len() == now.len,
    ensures
        dma_stream(now, bytes) == bytes.skip(now.moved),
        dma_moved(now).moved == now.len,
        dma_moved(now).read == now.read,
        dma_moved(now).len == now.len,
        dma_moved(now).wait == if now.read {
            DmaWait::Flags
        } else {
            DmaWait::Finished(Ok(()))
        },
    decreases now.len - now.moved,
{
    let next = dma_advance(now, DmaEvent::Chunk { ok: true }).0;
    let part = bytes.subrange(now.moved, next.moved);
    if next.moved < next.len {
        lemma_dma_rest(next, bytes);
        assert(part + bytes.skip(next.moved) =~= bytes.skip(now.moved));
    } else {
        reveal_with_fuel(dma_stream, 2);
        reveal_with_fuel(dma_moved, 2);
        assert(part + Seq::<u8>::empty() =~= bytes.skip(now.moved));
    }
}

/// A transfer by DMA moves every byte of a buffer of any length, once and in order, where the channel
/// does well; a write is then over and has gone well, and a read is left with the errors to be looked
/// at. An empty buffer takes nothing.
pub proof fn law_dma_moves_every_byte(read: bool, bytes: Seq<u8>)
    requires
        bytes.len() <= usize::MAX,
    ensures
        ({
            let (start, ops) = dma_initial(read, bytes.len() as int);
            &&& dma_stream(start, bytes) == bytes
            &&& dma_moved(start).moved == bytes.len()
            &&& dma_moved(start).wait == if read && bytes.len() > 0 {
                DmaWait::Flags
            } else {
                DmaWait::Finished(Ok(()))
            }
            &&& bytes.len() == 0 ==> ops.len() == 0
        }),
{
    let start = dma_initial(read, bytes.len() as int).0;
    if bytes.len() > 0 {
        lemma_dma_rest(start, bytes);
        assert(bytes.skip(0) =~= bytes);
    } else {
        assert(bytes =~= seq![]);
    }
}

} // verus!
