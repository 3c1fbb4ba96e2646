//! Full-duplex transfers: every frame sent brings one frame back.
//!
//! [`Transfer`] runs a transfer through the FIFOs one event at a time; [`DmaTransfer`] cuts one up for
//! the DMA controller.

use vstd::prelude::*;

use crate::dma::MAX_TRANSFER;
use crate::spi::Error;
use crate::spi::Op;
use crate::spi::DUMMY;
use crate::spi::SR_W1C;

verus! {

/// What a transfer needs next.
#[derive(Clone, Copy, Debug, PartialEq, Eq)]
pub enum Wait {
    /// The number of frames in the transmit FIFO (`SR[TXCTR]`, now).
    TxCount,
    /// The receive FIFO to hold at least one frame.
    RxReady,
    /// The number of frames in the receive FIFO (`SR[RXCTR]`, now).
    RxCount,
    /// A frame from the receive FIFO (`POPR`, now).
    Frame,
    /// Whether the receive FIFO overflowed (`SR[RFOF]`, now).
    Overrun,
    /// Nothing any more: the transfer is over.
    Finished(Result<(), Error>),
}

/// What happened.
#[derive(Clone, Copy, Debug, PartialEq, Eq, Structural)]
pub enum Event {
    TxCount(u8),
    RxReady,
    RxCount(u8),
    Frame(u8),
    Overrun(bool),
}

/// The bytes to clock out: those given, and padding.
pub open spec fn padded(write: Seq<u8>, len: nat) -> Seq<u8> {
    Seq::new(
        len,
        |i: int|
            if i < write.len() {
                write[i]
            } else {
                DUMMY
            },
    )
}

/// The state of a transfer.
pub ghost struct State {
    /// The bytes to clock out, as many as the transfer is long.
    pub outgoing: Seq<u8>,
    /// How many of them have been queued.
    pub sent: int,
    /// The bytes that came back so far.
    pub taken: Seq<u8>,
    /// How many frames may be in flight.
    pub depth: int,
    pub wait: Wait,
}

impl State {
    /// Whether the transfer can be in this state: no more frames are in flight than the FIFO
    /// holds, and the transfer ends when every frame has come back.
    pub open spec fn wf(self) -> bool {
        &&& self.depth >= 1
        &&& self.taken.len() <= self.sent <= self.outgoing.len()
        &&& self.sent - self.taken.len() <= self.depth
        &&& match self.wait {
            Wait::TxCount => self.sent < self.outgoing.len() && self.sent - self.taken.len()
                < self.depth,
            Wait::RxReady => self.taken.len() < self.outgoing.len(),
            Wait::RxCount | Wait::Frame => self.taken.len() < self.sent,
            Wait::Overrun | Wait::Finished(_) => self.taken.len() == self.outgoing.len(),
        }
    }

    /// The state with what comes back to be waited for.
    pub open spec fn waiting(self) -> State {
        State { wait: Wait::RxReady, ..self }
    }

    /// The state with the FIFO to be filled up, or what came back to be waited for.
    pub open spec fn filling(self) -> State {
        State {
            wait: if self.sent < self.outgoing.len() && self.sent - self.taken.len() < self.depth {
                Wait::TxCount
            } else {
                Wait::RxReady
            },
            ..self
        }
    }

    /// The state once the receive FIFO is empty, or everything queued has come back.
    pub open spec fn drained(self) -> State {
        if self.taken.len() < self.outgoing.len() {
            self.filling()
        } else {
            State { wait: Wait::Overrun, ..self }
        }
    }
}

/// A transfer that has not begun.
pub open spec fn initial_state(outgoing: Seq<u8>, depth: int) -> State {
    let state = State {
        outgoing,
        sent: 0,
        taken: seq![],
        depth,
        wait: Wait::Finished(Ok(())),
    };
    if outgoing.len() == 0 {
        state
    } else {
        state.filling()
    }
}

/// How a transfer goes on at an event, and the accesses for that. An event that it does not wait
/// for changes nothing.
pub open spec fn advance_to(now: State, event: Event) -> (State, Seq<Op>) {
    match (now.wait, event) {
        (Wait::TxCount, Event::TxCount(count)) => if count < now.depth {
            (
                State { sent: now.sent + 1, ..now }.filling(),
                seq![Op::Push(now.outgoing[now.sent])],
            )
        } else {
            (State { wait: Wait::RxReady, ..now }, seq![])
        },
        (Wait::RxReady, Event::RxReady) => if now.taken.len() < now.sent {
            (State { wait: Wait::RxCount, ..now }, seq![])
        } else {
            (now.drained(), seq![])
        },
        (Wait::RxCount, Event::RxCount(count)) => if count != 0 {
            (State { wait: Wait::Frame, ..now }, seq![])
        } else {
            (now.drained(), seq![])
        },
        (Wait::Frame, Event::Frame(byte)) => {
            let next = State { taken: now.taken.push(byte), ..now };
            if next.taken.len() < next.sent {
                (State { wait: Wait::RxCount, ..next }, seq![Op::ClearRfdf])
            } else {
                (next.drained(), seq![Op::ClearRfdf])
            }
        },
        (Wait::Overrun, Event::Overrun(overrun)) => if overrun {
            (State { wait: Wait::Finished(Err(Error::Overrun)), ..now }, seq![Op::ClearRfof])
        } else {
            (State { wait: Wait::Finished(Ok(())), ..now }, seq![])
        },
        _ => (now, seq![]),
    }
}

/// A transfer under way, with its buffers.
pub struct Transfer {
    write: Vec<u8>,
    /// Filled with what comes in; of a transfer in place also what goes out.
    read: Vec<u8>,
    in_place: bool,
    len: usize,
    depth: usize,
    sent: usize,
    received: usize,
    wait: Wait,
    outgoing: Ghost<Seq<u8>>,
    taken: Ghost<Seq<u8>>,
    initial: Ghost<Seq<u8>>,
}

impl Transfer {
    /// The state of the transfer.
    pub closed spec fn state(&self) -> State {
        State {
            outgoing: self.outgoing@,
            sent: self.sent as int,
            taken: self.taken@,
            depth: self.depth as int,
            wait: self.wait,
        }
    }

    /// The buffer to be filled.
    pub closed spec fn buffer(&self) -> Seq<u8> {
        self.read@
    }

    /// What the buffer held at first.
    pub closed spec fn initial_buffer(&self) -> Seq<u8> {
        self.initial@
    }

    /// Whether the buffer holds what came back so far, and beyond that what it held at first.
    pub open spec fn buffer_filled(&self) -> bool {
        &&& self.buffer().len() == self.initial_buffer().len()
        &&& self.buffer().len() <= self.state().outgoing.len()
        &&& forall|i: int|
            0 <= i < self.buffer().len() ==> #[trigger] self.buffer()[i] == if i
                < self.state().taken.len() {
                self.state().taken[i]
            } else {
                self.initial_buffer()[i]
            }
    }

    /// Whether the transfer is consistent.
    pub closed spec fn wf(&self) -> bool {
        &&& self.state().wf()
        &&& self.faithful()
    }

    /// Whether the fields stand for the state.
    spec fn faithful(&self) -> bool {
        &&& self.buffer_filled()
        &&& self.len == self.outgoing@.len()
        &&& self.received == self.taken@.len()
        &&& if self.in_place {
            self.outgoing@ == self.initial@
        } else {
            self.outgoing@ == padded(self.write@, self.len as nat)
        }
    }

    fn start(
        read: Vec<u8>,
        write: Vec<u8>,
        in_place: bool,
        fifo_depth: u8,
        Ghost(outgoing): Ghost<Seq<u8>>,
    ) -> (r: (Self, Vec<Op>))
        requires
            fifo_depth >= 1,
            outgoing.len() == if read@.len() >= write@.len() {
                read@.len()
            } else {
                write@.len()
            },
            in_place ==> outgoing == read@,
            !in_place ==> outgoing == padded(write@, outgoing.len()),
        ensures
            r.0.wf(),
            r.0.state() == initial_state(outgoing, fifo_depth as int),
            r.0.buffer() == read@,
            r.0.initial_buffer() == read@,
            r.1@ == begin_program(outgoing.len() as int),
    {
        let len: usize = if read.len() >= write.len() {
            read.len()
        } else {
            write.len()
        };
        let ghost contents = read@;
        let transfer: Transfer = Transfer {
            write,
            read,
            in_place,
            len,
            depth: fifo_depth as usize,
            sent: 0,
            received: 0,
            wait: if len == 0 {
                Wait::Finished(Ok(()))
            } else {
                Wait::TxCount
            },
            outgoing: Ghost(outgoing),
            taken: Ghost(Seq::empty()),
            initial: Ghost(contents),
        };
        let mut ops: Vec<Op> = Vec::new();
        if len != 0 {
            ops.push(Op::ClearFifos);
            ops.push(Op::WriteSr(SR_W1C));
        }
        assert(ops@ =~= begin_program(outgoing.len() as int));
        (transfer, ops)
    }

    /// Clock `write` out and `read` in at the same time. The longer one sets the length; the
    /// shorter one is padded with 0xFF on the way out or dropped on the way in.
    pub fn new(read: Vec<u8>, write: Vec<u8>, fifo_depth: u8) -> (r: (Self, Vec<Op>))
        requires
            fifo_depth >= 1,
        ensures
            r.0.wf(),
            r.0.state() == initial_state(
                padded(
                    write@,
                    if read@.len() >= write@.len() {
                        read@.len()
                    } else {
                        write@.len()
                    },
                ),
                fifo_depth as int,
            ),
            r.0.buffer() == read@,
            r.0.initial_buffer() == read@,
            r.1@ == begin_program(r.0.state().outgoing.len() as int),
    {
        let ghost outgoing = padded(
            write@,
            if read@.len() >= write@.len() {
                read@.len()
            } else {
                write@.len()
            },
        );
        Self::start(read, write, false, fifo_depth, Ghost(outgoing))
    }

    /// Clock `data` out, replacing it with what comes in.
    pub fn new_in_place(data: Vec<u8>, fifo_depth: u8) -> (r: (Self, Vec<Op>))
        requires
            fifo_depth >= 1,
        ensures
            r.0.wf(),
            r.0.state() == initial_state(data@, fifo_depth as int),
            r.0.buffer() == data@,
            r.0.initial_buffer() == data@,
            r.1@ == begin_program(data@.len() as int),
    {
        let ghost outgoing = data@;
        Self::start(data, Vec::new(), true, fifo_depth, Ghost(outgoing))
    }

    /// What the transfer needs next.
    pub fn wait(&self) -> (r: Wait)
        ensures
            r == self.state().wait,
    {
        self.wait
    }

    /// The buffer, filled as far as the transfer went.
    pub fn into_buffer(self) -> (r: Vec<u8>)
        requires
            self.wf(),
        ensures
            r@ == self.buffer(),
            self.buffer_filled(),
    {
        self.read
    }

    fn fill(&mut self)
        requires
            old(self).received < old(self).len,
            old(self).state().waiting().wf(),
            old(self).faithful(),
        ensures
            final(self).wf(),
            final(self).state() == old(self).state().filling(),
            final(self).initial_buffer() == old(self).initial_buffer(),
    {
        // Keep at most `depth` frames in flight so the receive FIFO cannot overflow.
        self.wait = if self.sent < self.len && self.sent - self.received < self.depth {
            Wait::TxCount
        } else {
            Wait::RxReady
        };
    }

    /// Goes on at an event. The accesses returned are to be made at once, in order.
    pub fn advance(&mut self, event: Event) -> (r: Vec<Op>)
        requires
            old(self).wf(),
        ensures
            final(self).wf(),
            final(self).state() == advance_to(old(self).state(), event).0,
            r@ == advance_to(old(self).state(), event).1,
            final(self).initial_buffer() == old(self).initial_buffer(),
    {
        let mut ops: Vec<Op> = Vec::new();
        match (self.wait, event) {
            (Wait::TxCount, Event::TxCount(count)) => {
                if (count as usize) < self.depth {
                    let byte: u8 = if self.in_place {
                        self.read[self.sent]
                    } else if self.sent < self.write.len() {
                        self.write[self.sent]
                    } else {
                        DUMMY
                    };
                    ops.push(Op::Push(byte));
                    self.sent = self.sent + 1;
                    self.fill();
                } else {
                    self.wait = Wait::RxReady;
                }
            },
            (Wait::RxReady, Event::RxReady) => {
                if self.received < self.sent {
                    self.wait = Wait::RxCount;
                } else {
                    self.fill();
                }
            },
            (Wait::RxCount, Event::RxCount(count)) => {
                if count != 0 {
                    self.wait = Wait::Frame;
                } else {
                    self.fill();
                }
            },
            (Wait::Frame, Event::Frame(byte)) => {
                ops.push(Op::ClearRfdf);
                if self.received < self.read.len() {
                    self.read.set(self.received, byte);
                }
                self.taken = Ghost(self.taken@.push(byte));
                self.received = self.received + 1;
                if self.received < self.sent {
                    self.wait = Wait::RxCount;
                } else if self.received < self.len {
                    self.fill();
                } else {
                    self.wait = Wait::Overrun;
                }
            },
            (Wait::Overrun, Event::Overrun(overrun)) => {
                if overrun {
                    ops.push(Op::ClearRfof);
                    self.wait = Wait::Finished(Err(Error::Overrun));
                } else {
                    self.wait = Wait::Finished(Ok(()));
                }
            },
            _ => {},
        }
        ops
    }
}

/// Accesses that begin a transfer: empty FIFOs and no stale flags.
pub open spec fn begin_program(len: int) -> Seq<Op> {
    if len == 0 {
        seq![]
    } else {
        seq![Op::ClearFifos, Op::WriteSr(SR_W1C)]
    }
}

/// A transfer never has more frames in flight than the FIFO holds, whatever happens, and when it is
/// over every frame has gone out and come back.
pub proof fn law_frames_in_flight(now: State, event: Event)
    requires
        now.wf(),
    ensures
        ({
            let next = advance_to(now, event).0;
            &&& next.wf()
            &&& next.sent - next.taken.len() <= next.depth
            &&& next.wait is Finished ==> next.sent == next.outgoing.len() && next.taken.len()
                == next.outgoing.len()
            &&& next.outgoing == now.outgoing
        }),
{
}

/// Every byte that is queued is the next one of those to clock out.
pub proof fn law_bytes_go_out_in_order(now: State, event: Event)
    requires
        now.wf(),
    ensures
        ({
            let (next, ops) = advance_to(now, event);
            if next.sent == now.sent {
                forall|i: int| 0 <= i < ops.len() ==> !(#[trigger] ops[i] is Push)
            } else {
                next.sent == now.sent + 1 && ops == seq![Op::Push(now.outgoing[now.sent])]
            }
        }),
{
}

/// Bytes that came back are kept in the order in which they came.
pub proof fn law_bytes_come_in_in_order(now: State, event: Event)
    requires
        now.wf(),
    ensures
        ({
            let next = advance_to(now, event).0;
            ||| next.taken == now.taken
            ||| event matches Event::Frame(byte) && next.taken == now.taken.push(byte)
        }),
{
}

/// A transfer that waits for a frame has one in flight, unless the transmit FIFO is said to be full
/// though nothing was queued: a transfer with room in the FIFO cannot get stuck.
pub proof fn law_waiting_means_in_flight(now: State, event: Event)
    requires
        now.wf(),
        now.wait == Wait::RxReady ==> now.taken.len() < now.sent,
        event matches Event::TxCount(count) ==> count < now.depth || now.taken.len() < now.sent,
    ensures
        ({
            let next = advance_to(now, event).0;
            next.wait == Wait::RxReady ==> next.taken.len() < next.sent
        }),
{
}

/// The event that lets a transfer go on where the bus works and `reply` comes back: the transmit
/// FIFO drains, every frame sent brings one back, and none is lost.
pub open spec fn favourable(now: State, reply: Seq<u8>) -> Event {
    match now.wait {
        Wait::TxCount => Event::TxCount(0),
        Wait::RxReady => Event::RxReady,
        Wait::RxCount => Event::RxCount(1),
        Wait::Frame => Event::Frame(reply[now.taken.len() as int]),
        Wait::Overrun | Wait::Finished(_) => Event::Overrun(false),
    }
}

/// Where a number of favourable events takes a transfer.
pub open spec fn go_on(now: State, reply: Seq<u8>, events: nat) -> State
    decreases events,
{
    if events == 0 {
        now
    } else {
        go_on(advance_to(now, favourable(now, reply)).0, reply, (events - 1) as nat)
    }
}

/// A bound on the number of favourable events that a transfer is from its end.
pub open spec fn distance(now: State) -> int {
    4 * (now.outgoing.len() - now.sent) + 4 * (now.outgoing.len() - now.taken.len())
        + match now.wait {
        Wait::TxCount | Wait::Finished(_) => 0int,
        Wait::Frame | Wait::Overrun => 1,
        Wait::RxCount => 2,
        Wait::RxReady => 3,
    }
}

/// Where the bus works, a transfer ends well, every byte has gone out, and what came back is exactly
/// the reply.
pub proof fn law_undisturbed_transfer_ends(now: State, reply: Seq<u8>)
    requires
        now.wf(),
        reply.len() == now.outgoing.len(),
        now.taken == reply.take(now.taken.len() as int),
        now.wait == Wait::RxReady ==> now.taken.len() < now.sent,
        !(now.wait matches Wait::Finished(Err(_))),
    ensures
        exists|events: nat|
            {
                let end = #[trigger] go_on(now, reply, events);
                &&& end.wait matches Wait::Finished(Ok(_))
                &&& end.sent == now.outgoing.len()
                &&& end.taken == reply
            },
    decreases distance(now),
{
    reveal_with_fuel(go_on, 2);
    if now.wait is Finished {
        assert(reply.take(reply.len() as int) =~= reply);
        assert(go_on(now, reply, 0) == now);
    } else {
        let next = advance_to(now, favourable(now, reply)).0;
        assert(next.taken =~= reply.take(next.taken.len() as int));
        law_undisturbed_transfer_ends(next, reply);
        let events = choose|events: nat|
            {
                let end = #[trigger] go_on(next, reply, events);
                &&& end.wait matches Wait::Finished(Ok(_))
                &&& end.sent == now.outgoing.len()
                &&& end.taken == reply
            };
        assert(go_on(now, reply, events + 1) == go_on(next, reply, events));
    }
}

// ---------------------------------------------------------------------------------------------
// DMA
// ---------------------------------------------------------------------------------------------

/// A part of a transfer that the DMA controller moves at once.
#[derive(Clone, Copy, Debug, PartialEq, Eq, Structural)]
pub struct Chunk {
    pub offset: usize,
    pub len: usize,
    /// Whether what comes in is kept (at `offset` in the read buffer) or discarded.
    pub keep: bool,
    /// Whether what goes out is data (at `offset` in the write buffer) or padding.
    pub data: bool,
}

pub open spec fn min(a: int, b: int) -> int {
    if a <= b {
        a
    } else {
        b
    }
}

pub open spec fn max(a: int, b: int) -> int {
    if a >= b {
        a
    } else {
        b
    }
}

/// The length of the chunk at `offset`: as much as can be moved at once, but not across the end of
/// either buffer.
pub open spec fn chunk_len(read_len: int, write_len: int, offset: int) -> int {
    let all = min(max(read_len, write_len) - offset, MAX_TRANSFER as int);
    let kept = if offset < read_len {
        min(all, read_len - offset)
    } else {
        all
    };
    if offset < write_len {
        min(kept, write_len - offset)
    } else {
        kept
    }
}

/// The chunk at `offset`.
pub open spec fn chunk_at(read_len: int, write_len: int, offset: int) -> Chunk {
    Chunk {
        offset: offset as usize,
        len: chunk_len(read_len, write_len, offset) as usize,
        keep: offset < read_len,
        data: offset < write_len,
    }
}

/// The chunks from `offset` on.
pub open spec fn chunks_from(read_len: int, write_len: int, offset: int) -> Seq<Chunk>
    decreases max(read_len, write_len) - offset,
{
    if offset < max(read_len, write_len) {
        seq![chunk_at(read_len, write_len, offset)] + chunks_from(
            read_len,
            write_len,
            offset + chunk_len(read_len, write_len, offset),
        )
    } else {
        seq![]
    }
}

/// The chunks of a transfer follow each other without gap from its start to its end, none is longer
/// than the DMA controller can move, and each lies within a buffer or beyond it.
pub proof fn law_chunks_cover(read_len: int, write_len: int, offset: int)
    requires
        0 <= offset <= max(read_len, write_len) <= usize::MAX,
        0 <= read_len,
        0 <= write_len,
    ensures
        ({
            let chunks = chunks_from(read_len, write_len, offset);
            let len = max(read_len, write_len);
            &&& offset == len ==> chunks.len() == 0
            &&& offset < len ==> chunks.len() > 0 && chunks[0].offset == offset
                && chunks.last().offset + chunks.last().len == len
            &&& forall|i: int|
                0 <= i < chunks.len() ==> {
                    let c = #[trigger] chunks[i];
                    &&& 1 <= c.len <= MAX_TRANSFER
                    &&& c.keep <==> c.offset < read_len
                    &&& c.data <==> c.offset < write_len
                    &&& c.keep ==> c.offset + c.len <= read_len
                    &&& c.data ==> c.offset + c.len <= write_len
                    &&& c.offset + c.len <= len
                }
            &&& forall|i: int|
                0 < i < chunks.len() ==> (#[trigger] chunks[i]).offset == chunks[i - 1].offset + chunks[i
                    - 1].len
        }),
    decreases max(read_len, write_len) - offset,
{
    let len = max(read_len, write_len);
    if offset < len {
        let chunk = chunk_len(read_len, write_len, offset);
        let rest = chunks_from(read_len, write_len, offset + chunk);
        let chunks = chunks_from(read_len, write_len, offset);
        law_chunks_cover(read_len, write_len, offset + chunk);
        assert forall|i: int| 0 < i < chunks.len() implies (#[trigger] chunks[i]).offset == chunks[i
            - 1].offset + chunks[i - 1].len by {
            assert(chunks[i] == rest[i - 1]);
            if i > 1 {
                assert(chunks[i - 1] == rest[i - 2]);
            }
        }
        assert forall|i: int| 0 <= i < chunks.len() implies {
            let c = #[trigger] chunks[i];
            &&& 1 <= c.len <= MAX_TRANSFER
            &&& c.keep <==> c.offset < read_len
            &&& c.data <==> c.offset < write_len
            &&& c.keep ==> c.offset + c.len <= read_len
            &&& c.data ==> c.offset + c.len <= write_len
            &&& c.offset + c.len <= len
        } by {
            if i > 0 {
                assert(chunks[i] == rest[i - 1]);
            }
        }
        if rest.len() > 0 {
            assert(chunks.last() == rest.last());
        }
    }
}

/// Accesses that start a chunk: the command half of `PUSHR` persists across the byte writes to its
/// data half that the DMA makes, and each channel is started before the requests are let through.
pub open spec fn chunk_program(chunk: Chunk) -> Seq<Op> {
    seq![
        Op::ClearCommand,
        Op::StartRx { keep: chunk.keep },
        Op::StartTx { data: chunk.data },
        Op::EnableRequests,
    ]
}

/// What a transfer by DMA needs next.
#[derive(Clone, Copy, Debug, PartialEq, Eq)]
pub enum DmaWait {
    /// Both DMA channels to be done with this chunk.
    Channels(Chunk),
    /// Whether the receive FIFO overflowed (`SR[RFOF]`, now).
    Overrun,
    /// Nothing any more: the transfer is over.
    Finished(Result<(), Error>),
}

/// What happened.
#[derive(Clone, Copy, Debug, PartialEq, Eq, Structural)]
pub enum DmaEvent {
    /// Both DMA channels are done, each well or not.
    Channels { rx_ok: bool, tx_ok: bool },
    Overrun(bool),
}

/// The state of a transfer by DMA.
pub ghost struct DmaState {
    /// The length of the read buffer.
    pub read_len: int,
    /// The length of the write buffer.
    pub write_len: int,
    /// How many frames have been moved.
    pub moved: int,
    pub wait: DmaWait,
}

impl DmaState {
    /// The length of the transfer.
    pub open spec fn len(self) -> int {
        max(self.read_len, self.write_len)
    }

    /// The chunk that is moved next.
    pub open spec fn chunk(self) -> Chunk {
        chunk_at(self.read_len, self.write_len, self.moved)
    }

    /// Whether the transfer can be in this state.
    pub open spec fn wf(self) -> bool {
        &&& 0 <= self.read_len <= usize::MAX
        &&& 0 <= self.write_len <= usize::MAX
        &&& 0 <= self.moved <= self.len()
        &&& match self.wait {
            DmaWait::Channels(chunk) => self.moved < self.len() && chunk == self.chunk(),
            DmaWait::Finished(Ok(_)) => self.moved == self.len(),
            DmaWait::Overrun | DmaWait::Finished(Err(_)) => true,
        }
    }

    /// How the transfer goes on with the next chunk, or ends.
    pub open spec fn next_chunk(self) -> (DmaState, Seq<Op>) {
        if self.moved < self.len() {
            (
                DmaState { wait: DmaWait::Channels(self.chunk()), ..self },
                chunk_program(self.chunk()),
            )
        } else {
            (DmaState { wait: DmaWait::Finished(Ok(())), ..self }, seq![])
        }
    }
}

/// How a transfer by DMA begins, and the accesses for that.
pub open spec fn dma_initial(read_len: int, write_len: int) -> (DmaState, Seq<Op>) {
    let (state, start) = (DmaState {
        read_len,
        write_len,
        moved: 0,
        wait: DmaWait::Finished(Ok(())),
    }).next_chunk();
    (state, begin_program(max(read_len, write_len)) + start)
}

/// How a transfer by DMA goes on at an event, and the accesses for that: the first chunk that fails
/// ends it. An event that it does not wait for changes nothing.
pub open spec fn dma_advance(now: DmaState, event: DmaEvent) -> (DmaState, Seq<Op>) {
    match (now.wait, event) {
        (DmaWait::Channels(chunk), DmaEvent::Channels { rx_ok, tx_ok }) => if rx_ok && tx_ok {
            (
                DmaState { moved: now.moved + chunk.len, wait: DmaWait::Overrun, ..now },
                seq![Op::DisableRequests],
            )
        } else {
            (
                DmaState { wait: DmaWait::Finished(Err(Error::Dma)), ..now },
                seq![Op::DisableRequests],
            )
        },
        (DmaWait::Overrun, DmaEvent::Overrun(overrun)) => if overrun {
            (
                DmaState { wait: DmaWait::Finished(Err(Error::Overrun)), ..now },
                seq![Op::ClearRfof],
            )
        } else {
            now.next_chunk()
        },
        _ => (now, seq![]),
    }
}

/// A transfer by DMA under way.
#[derive(Debug)]
pub struct DmaTransfer {
    read_len: usize,
    write_len: usize,
    moved: usize,
    wait: DmaWait,
}

impl DmaTransfer {
    /// The state of the transfer.
    pub closed spec fn state(&self) -> DmaState {
        DmaState {
            read_len: self.read_len as int,
            write_len: self.write_len as int,
            moved: self.moved as int,
            wait: self.wait,
        }
    }

    /// Whether the transfer is consistent.
    pub open spec fn wf(&self) -> bool {
        self.state().wf()
    }

    /// A transfer of `read_len` bytes in and `write_len` bytes out. The longer buffer sets the
    /// length; the shorter one is padded with 0xFF on the way out or dropped on the way in.
    pub fn new(read_len: usize, write_len: usize) -> (r: (Self, Vec<Op>))
        ensures
            r.0.wf(),
            (r.0.state(), r.1@) == dma_initial(read_len as int, write_len as int),
    {
        let mut transfer: DmaTransfer = DmaTransfer {
            read_len,
            write_len,
            moved: 0,
            wait: DmaWait::Finished(Ok(())),
        };
        let mut ops: Vec<Op> = Vec::new();
        if read_len != 0 || write_len != 0 {
            ops.push(Op::ClearFifos);
            ops.push(Op::WriteSr(SR_W1C));
        }
        let mut start: Vec<Op> = transfer.start_chunk();
        ops.append(&mut start);
        assert(ops@ =~= dma_initial(read_len as int, write_len as int).1);
        (transfer, ops)
    }

    /// What the transfer needs next.
    pub fn wait(&self) -> (r: DmaWait)
        ensures
            r == self.state().wait,
    {
        self.wait
    }

    fn start_chunk(&mut self) -> (r: Vec<Op>)
        requires
            0 <= old(self).state().moved <= old(self).state().len(),
        ensures
            final(self).wf(),
            (final(self).state(), r@) == old(self).state().next_chunk(),
    {
        let offset: usize = self.moved;
        let len: usize = if self.read_len >= self.write_len {
            self.read_len
        } else {
            self.write_len
        };
        if offset == len {
            self.wait = DmaWait::Finished(Ok(()));
            return Vec::new();
        }
        let mut size: usize = if len - offset <= MAX_TRANSFER {
            len - offset
        } else {
            MAX_TRANSFER
        };
        if offset < self.read_len && self.read_len - offset < size {
            size = self.read_len - offset;
        }
        if offset < self.write_len && self.write_len - offset < size {
            size = self.write_len - offset;
        }
        let chunk: Chunk = Chunk {
            offset,
            len: size,
            keep: offset < self.read_len,
            data: offset < self.write_len,
        };
        self.wait = DmaWait::Channels(chunk);
        let ops: Vec<Op> = vec![
            Op::ClearCommand,
            Op::StartRx { keep: chunk.keep },
            Op::StartTx { data: chunk.data },
            Op::EnableRequests,
        ];
        assert(ops@ =~= chunk_program(chunk));
        ops
    }

    /// Goes on at an event. The accesses returned are to be made at once, in order.
    pub fn advance(&mut self, event: DmaEvent) -> (r: Vec<Op>)
        requires
            old(self).wf(),
        ensures
            final(self).wf(),
            (final(self).state(), r@) == dma_advance(old(self).state(), event),
    {
        match (self.wait, event) {
            (DmaWait::Channels(chunk), DmaEvent::Channels { rx_ok, tx_ok }) => {
                if rx_ok && tx_ok {
                    self.moved = self.moved + chunk.len;
                    self.wait = DmaWait::Overrun;
                } else {
                    self.wait = DmaWait::Finished(Err(Error::Dma));
                }
                vec![Op::DisableRequests]
            },
            (DmaWait::Overrun, DmaEvent::Overrun(overrun)) => {
                if overrun {
                    self.wait = DmaWait::Finished(Err(Error::Overrun));
                    vec![Op::ClearRfof]
                } else {
                    self.start_chunk()
                }
            },
            _ => Vec::new(),
        }
    }
}

/// Where a transfer is once both channels have done well with its chunk and nothing was lost.
pub open spec fn chunk_done(now: DmaState) -> DmaState {
    dma_advance(
        dma_advance(now, DmaEvent::Channels { rx_ok: true, tx_ok: true }).0,
        DmaEvent::Overrun(false),
    ).0
}

/// The chunks that a transfer moves from here on where nothing goes wrong.
pub open spec fn dma_chunks(now: DmaState) -> Seq<Chunk>
    decreases now.len() - now.moved,
{
    match now.wait {
        DmaWait::Channels(chunk) => if 0 < chunk.len && now.moved + chunk.len <= now.len() {
            seq![chunk] + dma_chunks(chunk_done(now))
        } else {
            seq![]
        },
        _ => seq![],
    }
}

/// Where a transfer is once it has moved all its chunks and nothing went wrong.
pub open spec fn dma_end(now: DmaState) -> DmaState
    decreases now.len() - now.moved,
{
    match now.wait {
        DmaWait::Channels(chunk) => if 0 < chunk.len && now.moved + chunk.len <= now.len() {
            dma_end(chunk_done(now))
        } else {
            now
        },
        _ => now,
    }
}

proof fn lemma_dma_chunks(now: DmaState)
    requires
        now.wf(),
        now.wait is Channels || now.wait matches DmaWait::Finished(Ok(_)),
    ensures
        dma_chunks(now) == chunks_from(now.read_len, now.write_len, now.moved),
        dma_end(now).moved == now.len(),
        dma_end(now).wait matches DmaWait::Finished(Ok(_)),
    decreases now.len() - now.moved,
{
    if now.wait is Channels {
        lemma_dma_chunks(chunk_done(now));
    }
}

/// A transfer by DMA that nothing disturbs goes through the chunks of its buffers and ends well.
pub proof fn law_dma_goes_through_the_chunks(read_len: int, write_len: int)
    requires
        0 <= read_len <= usize::MAX,
        0 <= write_len <= usize::MAX,
    ensures
        ({
            let (start, ops) = dma_initial(read_len, write_len);
            &&& dma_chunks(start) == chunks_from(read_len, write_len, 0)
            &&& dma_end(start).moved == max(read_len, write_len)
            &&& dma_end(start).wait matches DmaWait::Finished(Ok(_))
            &&& max(read_len, write_len) == 0 ==> ops.len() == 0
        }),
{
    lemma_dma_chunks(dma_initial(read_len, write_len).0);
}

/// The first chunk that fails ends a transfer by DMA: no other is started, the requests are stopped
/// before its error is reported, and nothing happens after that.
pub proof fn law_dma_stops_at_a_failure(now: DmaState, event: DmaEvent, later: DmaEvent)
    requires
        now.wf(),
        !(now.wait is Finished),
    ensures
        ({
            let (next, ops) = dma_advance(now, event);
            &&& next.wf()
            &&& now.wait is Channels && event is Channels ==> ops == seq![Op::DisableRequests]
            &&& next.wait matches DmaWait::Finished(Err(e)) ==> {
                &&& forall|i: int|
                    0 <= i < ops.len() ==> !(#[trigger] ops[i] is StartRx) && !(ops[i] is StartTx)
                &&& dma_advance(next, later) == (next, Seq::<Op>::empty())
                &&& match e {
                    Error::Dma => event matches DmaEvent::Channels { rx_ok, tx_ok } && !(rx_ok
                        && tx_ok),
                    Error::Overrun => event == DmaEvent::Overrun(true),
                }
            }
        }),
{
}

/// What a chunk sends: its part of the write buffer, or padding.
pub open spec fn chunk_sent(chunk: Chunk, write: Seq<u8>) -> Seq<u8> {
    if chunk.data {
        write.subrange(chunk.offset as int, chunk.offset + chunk.len)
    } else {
        Seq::new(chunk.len as nat, |i: int| DUMMY)
    }
}

/// What a chunk keeps of what comes back.
pub open spec fn chunk_kept(chunk: Chunk, reply: Seq<u8>) -> Seq<u8> {
    if chunk.keep {
        reply.subrange(chunk.offset as int, chunk.offset + chunk.len)
    } else {
        seq![]
    }
}

/// What chunks send, one after the other.
pub open spec fn chunks_sent(chunks: Seq<Chunk>, write: Seq<u8>) -> Seq<u8>
    decreases chunks.len(),
{
    if chunks.len() == 0 {
        seq![]
    } else {
        chunk_sent(chunks[0], write) + chunks_sent(chunks.skip(1), write)
    }
}

/// What chunks keep of what comes back, one after the other.
pub open spec fn chunks_kept(chunks: Seq<Chunk>, reply: Seq<u8>) -> Seq<u8>
    decreases chunks.len(),
{
    if chunks.len() == 0 {
        seq![]
    } else {
        chunk_kept(chunks[0], reply) + chunks_kept(chunks.skip(1), reply)
    }
}

proof fn lemma_chunks_move(read_len: int, write: Seq<u8>, reply: Seq<u8>, offset: int)
    requires
        0 <= read_len,
        0 <= offset <= max(read_len, write.len() as int) <= usize::MAX,
        reply.len() == max(read_len, write.len() as int),
    ensures
        chunks_sent(chunks_from(read_len, write.len() as int, offset), write) == padded(
            write,
            reply.len(),
        ).skip(offset),
        chunks_kept(chunks_from(read_len, write.len() as int, offset), reply) == reply.subrange(
            min(offset, read_len),
            read_len,
        ),
    decreases max(read_len, write.len() as int) - offset,
{
    let write_len = write.len() as int;
    let chunks = chunks_from(read_len, write_len, offset);
    let all = padded(write, reply.len());
    if offset < max(read_len, write_len) {
        let end = offset + chunk_len(read_len, write_len, offset);
        lemma_chunks_move(read_len, write, reply, end);
        assert(chunks.skip(1) =~= chunks_from(read_len, write_len, end));
        assert(chunk_sent(chunks[0], write) =~= all.subrange(offset, end));
        assert(all.subrange(offset, end) + all.skip(end) =~= all.skip(offset));
        assert(chunk_kept(chunks[0], reply) =~= reply.subrange(
            min(offset, read_len),
            min(end, read_len),
        ));
        assert(reply.subrange(min(offset, read_len), min(end, read_len)) + reply.subrange(
            min(end, read_len),
            read_len,
        ) =~= reply.subrange(min(offset, read_len), read_len));
    } else {
        assert(all.skip(offset) =~= seq![]);
        assert(reply.subrange(min(offset, read_len), read_len) =~= seq![]);
    }
}

/// Together the chunks of a transfer send the write buffer, padded with 0xFF to the length of the
/// transfer, and fill the read buffer with the first bytes that come back, dropping the rest: each
/// byte once, and in order.
pub proof fn law_chunks_move_every_byte(read_len: int, write: Seq<u8>, reply: Seq<u8>)
    requires
        0 <= read_len,
        reply.len() == max(read_len, write.len() as int),
        reply.len() <= usize::MAX,
    ensures
        ({
            let chunks = chunks_from(read_len, write.len() as int, 0);
            &&& chunks_sent(chunks, write) == padded(write, reply.len())
            &&& chunks_kept(chunks, reply) == reply.take(read_len)
        }),
{
    lemma_chunks_move(read_len, write, reply, 0);
    assert(padded(write, reply.len()).skip(0) =~= padded(write, reply.len()));
    assert(reply.subrange(0, read_len) =~= reply.take(read_len));
}

} // verus!
