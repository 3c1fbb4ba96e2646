//! eDMA driver for Kinetis.
//!
//! Eight channels, each fed by DMAMUX0 from one of 64 peripheral request sources; any source can
//! go to any channel, so drivers take any channel and supply their request number. Transfers
//! complete on the major loop interrupt. Channel pairs share the four `DMAn_DMAn+4` lines, plus
//! `DMA_ERROR`.

pub mod hardware;

use vstd::prelude::*;

use crate::bits;

verus! {

/// Number of channels.
pub const CHANNEL_COUNT: u8 = 8;

/// Largest major loop count without channel linking (`CITER` is 15 bits).
pub const MAX_TRANSFER: usize = 0x7FFF;

/// DMA error.
#[derive(Clone, Copy, Debug, PartialEq, Eq, Structural)]
#[non_exhaustive]
pub enum Error {
    /// The controller reported a bus or configuration error on the channel.
    Bus,
}

/// Transfer size code (`ATTR[SSIZE]`): a word has `2^SSIZE` bytes.
#[derive(Clone, Copy, Debug, PartialEq, Eq, Structural)]
pub enum Ssize {
    Bits8,
    Bits16,
    Bits32,
}

impl Ssize {
    /// Bytes in a word.
    pub open spec fn bytes(self) -> int {
        match self {
            Ssize::Bits8 => 1,
            Ssize::Bits16 => 2,
            Ssize::Bits32 => 4,
        }
    }

    /// The field value.
    pub fn to_bits(self) -> (r: u8)
        ensures
            r == match self {
                Ssize::Bits8 => 0u8,
                Ssize::Bits16 => 1u8,
                Ssize::Bits32 => 2u8,
            },
    {
        match self {
            Ssize::Bits8 => 0,
            Ssize::Bits16 => 1,
            Ssize::Bits32 => 2,
        }
    }

    /// Bytes in a word.
    pub fn byte_count(self) -> (r: u16)
        ensures
            r == self.bytes(),
    {
        assert(1u16 << 0u8 == 1 && 1u16 << 1u8 == 2 && 1u16 << 2u8 == 4) by (bit_vector);
        1u16 << self.to_bits()
    }
}

/// A DMA transfer word.
pub trait Word {
    /// Transfer size code of the word.
    spec fn size_code() -> Ssize;

    /// Transfer size code for the TCD.
    fn size() -> (r: Ssize)
        ensures
            r == Self::size_code(),
    ;
}

impl Word for u8 {
    open spec fn size_code() -> Ssize {
        Ssize::Bits8
    }

    fn size() -> Ssize {
        Ssize::Bits8
    }
}

impl Word for u16 {
    open spec fn size_code() -> Ssize {
        Ssize::Bits16
    }

    fn size() -> Ssize {
        Ssize::Bits16
    }
}

impl Word for u32 {
    open spec fn size_code() -> Ssize {
        Ssize::Bits32
    }

    fn size() -> Ssize {
        Ssize::Bits32
    }
}

/// A DMA channel.
pub trait Channel: Sized {
    /// Which channel it is.
    spec fn position(&self) -> u8;

    /// Channel number, 0 to 7.
    fn number(&self) -> (r: u8)
        ensures
            r == self.position(),
            r < CHANNEL_COUNT,
    ;
}

/// Type-erased DMA channel.
#[derive(Debug, PartialEq, Eq, Structural)]
pub struct AnyChannel {
    number: u8,
}

impl AnyChannel {
    #[verifier::type_invariant]
    spec fn exists_in_hardware(self) -> bool {
        self.number < CHANNEL_COUNT
    }

    pub closed spec fn spec_number(&self) -> u8 {
        self.number
    }

    /// The channel with this number.
    ///
    /// You must ensure that you're only using one instance of each channel at a time.
    pub fn steal(number: u8) -> (r: Self)
        requires
            number < CHANNEL_COUNT,
        ensures
            r.position() == number,
    {
        AnyChannel { number }
    }
}

impl Channel for AnyChannel {
    open spec fn position(&self) -> u8 {
        self.spec_number()
    }

    fn number(&self) -> u8 {
        proof {
            use_type_invariant(self);
        }
        self.number
    }
}

/// A transfer control descriptor: one word per minor loop, one minor loop per request.
#[derive(Clone, Copy, Debug, PartialEq, Eq, Structural)]
pub struct Tcd {
    pub saddr: u32,
    pub soff: u16,
    /// Size of a word on both sides.
    pub size: Ssize,
    pub nbytes: u32,
    pub slast: u32,
    pub daddr: u32,
    pub doff: u16,
    /// Major loop count, current and beginning.
    pub citer: u16,
    pub biter: u16,
    pub dlastsga: u32,
    /// Interrupt when the major loop finishes.
    pub intmajor: bool,
    /// Disable the request when the major loop finishes.
    pub dreq: bool,
}

/// A register access of the DMA driver.
#[derive(Clone, Copy, Debug, PartialEq, Eq, Structural)]
pub enum Op {
    /// Open the clock gate of the controller; the register is shared, so atomically.
    EnableClock,
    /// Open the clock gate of the request multiplexer.
    EnableMuxClock,
    /// Write zero to `ERQ`: no channel takes requests.
    DisableAll,
    /// Write `INT`, whose flags clear where a one is written.
    ClearInterrupts(u8),
    /// Write `ERR`, whose flags clear where a one is written.
    ClearErrors(u8),
    /// Write `SEEI[SAEE]`: error interrupts for every channel.
    EnableErrorInterrupts,
    /// Enable the five interrupt lines at the NVIC.
    EnableLines,
    /// Write `CERQ`: the channel takes no more requests.
    DisableRequest(u8),
    /// Write `CHCFGn` with zero: no source feeds the channel.
    DisconnectSource(u8),
    /// Wait until `TCDn_CSR[ACTIVE]` is clear.
    WaitInactive(u8),
    /// Write `CDNE`: clear the done flag.
    ClearDone(u8),
    /// Write `CINT`: clear the interrupt flag.
    ClearInterrupt(u8),
    /// Forget the error that is remembered for the channel; see [`Errors::take`].
    ForgetError(u8),
    /// Write `CERR`: clear the error flag.
    ClearError(u8),
    /// Write the descriptor of a channel, its control and status register last.
    WriteTcd { channel: u8, tcd: Tcd },
    /// Write `CHCFGn`: the source that feeds the channel, enabled.
    ConnectSource { channel: u8, source: u8 },
    /// Write `SERQ`: the channel takes requests. No memory access may move across it.
    EnableRequest(u8),
    /// No memory access may move across this.
    Fence,
    /// Wake the task that waits for a channel.
    Wake(u8),
}

/// Accesses that set the controller up.
pub open spec fn init_program() -> Seq<Op> {
    seq![
        Op::EnableClock,
        Op::EnableMuxClock,
        Op::DisableAll,
        Op::ClearInterrupts(0xFF),
        Op::ClearErrors(0xFF),
        Op::DisconnectSource(0),
        Op::DisconnectSource(1),
        Op::DisconnectSource(2),
        Op::DisconnectSource(3),
        Op::DisconnectSource(4),
        Op::DisconnectSource(5),
        Op::DisconnectSource(6),
        Op::DisconnectSource(7),
        Op::EnableErrorInterrupts,
        Op::EnableLines,
    ]
}

/// Sets the controller up.
pub fn init() -> (r: Vec<Op>)
    ensures
        r@ == init_program(),
{
    let ops: Vec<Op> = vec![
        Op::EnableClock,
        Op::EnableMuxClock,
        Op::DisableAll,
        Op::ClearInterrupts(0xFF),
        Op::ClearErrors(0xFF),
        Op::DisconnectSource(0),
        Op::DisconnectSource(1),
        Op::DisconnectSource(2),
        Op::DisconnectSource(3),
        Op::DisconnectSource(4),
        Op::DisconnectSource(5),
        Op::DisconnectSource(6),
        Op::DisconnectSource(7),
        Op::EnableErrorInterrupts,
        Op::EnableLines,
    ];
    assert(ops@ =~= init_program());
    ops
}

/// Channels whose transfer stopped with an error, one bit each.
#[derive(Clone, Copy, Debug, PartialEq, Eq, Structural)]
pub struct Errors {
    bits: u8,
}

impl Errors {
    /// Whether a channel's transfer stopped with an error.
    pub closed spec fn failed(&self, channel: u8) -> bool {
        bits::bit8(self.bits, channel)
    }

    /// No errors.
    pub fn new() -> (r: Self)
        ensures
            forall|c: u8| c < CHANNEL_COUNT ==> !#[trigger] r.failed(c),
    {
        proof {
            assert forall|c: u8| c < CHANNEL_COUNT implies !#[trigger] bits::bit8(0, c) by {
                assert(0u8 & (1u8 << c) == 0) by (bit_vector);
            }
        }
        Errors { bits: 0 }
    }

    /// Remembers the errors in `err`, which is `ERR`: the accesses stop each of those channels, in
    /// ascending order, clear its error and wake its task.
    pub fn record(&mut self, err: u8) -> (r: Vec<Op>)
        ensures
            forall|c: u8|
                c < CHANNEL_COUNT ==> #[trigger] final(self).failed(c) == (old(self).failed(c)
                    || bits::bit8(err, c)),
            r@ == error_program(err, CHANNEL_COUNT as int),
    {
        proof {
            assert forall|c: u8| c < CHANNEL_COUNT implies #[trigger] bits::bit8(self.bits | err, c)
                == (bits::bit8(self.bits, c) || bits::bit8(err, c)) by {
                bits::lemma_or8(self.bits, err, c);
            }
        }
        self.bits = self.bits | err;
        let mut ops: Vec<Op> = Vec::new();
        let mut channel: u8 = 0;
        while channel < CHANNEL_COUNT
            invariant
                channel <= CHANNEL_COUNT,
                ops@ == error_program(err, channel as int),
            decreases CHANNEL_COUNT - channel,
        {
            let ghost before = ops@;
            if err & (1u8 << channel) != 0 {
                ops.push(Op::DisableRequest(channel));
                ops.push(Op::ClearError(channel));
                ops.push(Op::Wake(channel));
                assert(ops@ =~= before + seq![
                    Op::DisableRequest(channel),
                    Op::ClearError(channel),
                    Op::Wake(channel),
                ]);
            }
            channel = channel + 1;
        }
        ops
    }

    /// Forgets the error of a channel, and tells whether there was one.
    pub fn take(&mut self, channel: u8) -> (r: bool)
        requires
            channel < CHANNEL_COUNT,
        ensures
            r == old(self).failed(channel),
            !final(self).failed(channel),
            forall|c: u8|
                c < CHANNEL_COUNT && c != channel ==> #[trigger] final(self).failed(c) == old(
                    self).failed(c),
    {
        let failed: bool = self.bits & (1u8 << channel) != 0;
        proof {
            assert forall|c: u8| c < CHANNEL_COUNT implies #[trigger] bits::bit8(
                self.bits & !(1u8 << channel),
                c,
            ) == (c != channel && bits::bit8(self.bits, c)) by {
                bits::lemma_clear8(self.bits, channel, c);
            }
        }
        self.bits = self.bits & !(1u8 << channel);
        failed
    }
}

/// Accesses for the channels below `end` that have an error.
pub open spec fn error_program(err: u8, end: int) -> Seq<Op>
    decreases end,
{
    if end <= 0 {
        seq![]
    } else {
        let channel = (end - 1) as u8;
        error_program(err, end - 1) + if bits::bit8(err, channel) {
            seq![Op::DisableRequest(channel), Op::ClearError(channel), Op::Wake(channel)]
        } else {
            seq![]
        }
    }
}

/// Channel interrupt: where the channel's flag in `INT` is set it is cleared and the channel's task
/// woken.
pub fn on_channel(channel: u8, interrupt: bool) -> (r: Vec<Op>)
    ensures
        r@ == if interrupt {
            seq![Op::ClearInterrupt(channel), Op::Wake(channel)]
        } else {
            seq![]
        },
{
    if interrupt {
        let ops: Vec<Op> = vec![Op::ClearInterrupt(channel), Op::Wake(channel)];
        assert(ops@ =~= seq![Op::ClearInterrupt(channel), Op::Wake(channel)]);
        ops
    } else {
        Vec::new()
    }
}

/// The descriptor of a transfer of `len` words: the request is disabled by hardware when the major
/// loop finishes.
pub open spec fn descriptor(
    from: u32,
    to: u32,
    len: int,
    size: Ssize,
    incr_src: bool,
    incr_dst: bool,
) -> Tcd {
    Tcd {
        saddr: from,
        soff: if incr_src {
            size.bytes() as u16
        } else {
            0
        },
        size,
        nbytes: size.bytes() as u32,
        slast: 0,
        daddr: to,
        doff: if incr_dst {
            size.bytes() as u16
        } else {
            0
        },
        citer: len as u16,
        biter: len as u16,
        dlastsga: 0,
        intmajor: true,
        dreq: true,
    }
}

/// Accesses that start a transfer: the channel is quiesced, and then its stale error forgotten, before
/// its descriptor is touched.
pub open spec fn start_program(n: u8, request: u8, tcd: Tcd) -> Seq<Op> {
    seq![
        Op::DisableRequest(n),
        Op::DisconnectSource(n),
        Op::WaitInactive(n),
        Op::ClearDone(n),
        Op::ClearInterrupt(n),
        Op::ForgetError(n),
        Op::WriteTcd { channel: n, tcd },
        Op::ConnectSource { channel: n, source: request },
        Op::EnableRequest(n),
    ]
}

/// A running DMA transfer. Dropping it is to stop the channel; see [`Transfer::cancel`].
#[derive(Debug, PartialEq, Eq, Structural)]
pub struct Transfer {
    channel: AnyChannel,
}

/// Starts a transfer of `len` words of `size` from address `from` to address `to`, one per request
/// from DMAMUX source `request`.
pub fn transfer_inner<C: Channel>(
    ch: C,
    request: u8,
    from: u32,
    to: u32,
    len: usize,
    size: Ssize,
    incr_src: bool,
    incr_dst: bool,
) -> (r: (Transfer, Vec<Op>))
    requires
        1 <= len <= MAX_TRANSFER,
    ensures
        r.0.number() == ch.position(),
        r.1@ == start_program(
            ch.position(),
            request,
            descriptor(from, to, len as int, size, incr_src, incr_dst),
        ),
{
    let n: u8 = ch.number();
    let bytes: u16 = size.byte_count();
    let tcd: Tcd = Tcd {
        saddr: from,
        soff: if incr_src {
            bytes
        } else {
            0
        },
        size,
        nbytes: bytes as u32,
        slast: 0,
        daddr: to,
        doff: if incr_dst {
            bytes
        } else {
            0
        },
        citer: len as u16,
        biter: len as u16,
        dlastsga: 0,
        intmajor: true,
        dreq: true,
    };
    assert(tcd == descriptor(from, to, len as int, size, incr_src, incr_dst));
    let ops: Vec<Op> = vec![
        Op::DisableRequest(n),
        Op::DisconnectSource(n),
        Op::WaitInactive(n),
        Op::ClearDone(n),
        Op::ClearInterrupt(n),
        Op::ForgetError(n),
        Op::WriteTcd { channel: n, tcd },
        Op::ConnectSource { channel: n, source: request },
        Op::EnableRequest(n),
    ];
    assert(ops@ =~= start_program(n, request, tcd));
    (Transfer { channel: AnyChannel::steal(n) }, ops)
}

/// Peripheral to memory: `len` words from the register at `from` to `to`, one word per request from
/// DMAMUX source `request`.
pub fn read<C: Channel, W: Word>(
    ch: C,
    request: u8,
    from: u32,
    to: u32,
    len: usize,
) -> (r: (Transfer, Vec<Op>))
    requires
        1 <= len <= MAX_TRANSFER,
    ensures
        r.0.number() == ch.position(),
        r.1@ == start_program(
            ch.position(),
            request,
            descriptor(from, to, len as int, W::size_code(), false, true),
        ),
{
    transfer_inner(ch, request, from, to, len, W::size(), false, true)
}

/// Memory to peripheral: `len` words at `from` to the register at `to`, one word per request from
/// DMAMUX source `request`.
pub fn write<C: Channel, W: Word>(
    ch: C,
    request: u8,
    from: u32,
    to: u32,
    len: usize,
) -> (r: (Transfer, Vec<Op>))
    requires
        1 <= len <= MAX_TRANSFER,
    ensures
        r.0.number() == ch.position(),
        r.1@ == start_program(
            ch.position(),
            request,
            descriptor(from, to, len as int, W::size_code(), true, false),
        ),
{
    transfer_inner(ch, request, from, to, len, W::size(), true, false)
}

/// Peripheral to nowhere: `count` words from the register at `from`, each into the word at `sink`.
/// Useful to drain a receive register while only transmitting.
pub fn read_discard<C: Channel, W: Word>(
    ch: C,
    request: u8,
    from: u32,
    sink: u32,
    count: usize,
) -> (r: (Transfer, Vec<Op>))
    requires
        1 <= count <= MAX_TRANSFER,
    ensures
        r.0.number() == ch.position(),
        r.1@ == start_program(
            ch.position(),
            request,
            descriptor(from, sink, count as int, W::size_code(), false, false),
        ),
{
    transfer_inner(ch, request, from, sink, count, W::size(), false, false)
}

/// One fixed word at `from` to the register at `to`, `count` times. Useful to clock a receive-only
/// transfer.
pub fn write_repeated<C: Channel, W: Word>(
    ch: C,
    request: u8,
    from: u32,
    to: u32,
    count: usize,
) -> (r: (Transfer, Vec<Op>))
    requires
        1 <= count <= MAX_TRANSFER,
    ensures
        r.0.number() == ch.position(),
        r.1@ == start_program(
            ch.position(),
            request,
            descriptor(from, to, count as int, W::size_code(), false, false),
        ),
{
    transfer_inner(ch, request, from, to, count, W::size(), false, false)
}

/// Accesses that stop a channel.
pub open spec fn stop_program(n: u8) -> Seq<Op> {
    seq![Op::DisableRequest(n), Op::DisconnectSource(n), Op::WaitInactive(n), Op::Fence]
}

impl Transfer {
    /// The channel that makes the transfer.
    pub closed spec fn number(&self) -> u8 {
        self.channel.position()
    }

    /// Whether the transfer is done, and how: `done` is the channel's `TCDn_CSR[DONE]`. An error is
    /// reported once. To be asked once the waker is registered; the flags are shared with the
    /// interrupt handler, so atomically.
    pub fn poll(&self, errors: &mut Errors, done: bool) -> (r: Option<Result<(), Error>>)
        ensures
            r == if old(errors).failed(self.number()) {
                Some(Err(Error::Bus))
            } else if done {
                Some(Ok(()))
            } else {
                None
            },
            !final(errors).failed(self.number()),
            forall|c: u8|
                c < CHANNEL_COUNT && c != self.number() ==> #[trigger] final(errors).failed(c)
                    == old(errors).failed(c),
    {
        let n: u8 = self.channel.number();
        if errors.take(n) {
            return Some(Err(Error::Bus));
        }
        if done {
            Some(Ok(()))
        } else {
            None
        }
    }

    /// The channel's number.
    pub fn channel(&self) -> (r: u8)
        ensures
            r == self.number(),
            r < CHANNEL_COUNT,
    {
        self.channel.number()
    }

    /// The accesses that stop the channel when the transfer ends, completed or not.
    pub fn cancel(&self) -> (r: Vec<Op>)
        ensures
            r@ == stop_program(self.number()),
    {
        let n: u8 = self.channel.number();
        let ops: Vec<Op> = vec![
            Op::DisableRequest(n),
            Op::DisconnectSource(n),
            Op::WaitInactive(n),
            Op::Fence,
        ];
        assert(ops@ =~= stop_program(n));
        ops
    }
}

/// The address that word `k` of a transfer is taken from.
pub open spec fn source_address(tcd: Tcd, k: int) -> int {
    tcd.saddr + k * tcd.soff
}

/// The address that word `k` of a transfer goes to.
pub open spec fn destination_address(tcd: Tcd, k: int) -> int {
    tcd.daddr + k * tcd.doff
}

/// A transfer moves its words one after the other: a side that counts up moves by one word each,
/// and never leaves the words it was given; a side that does not stays at its register. As many
/// words are moved as asked for, one per request.
pub proof fn law_transfer_addresses(
    from: u32,
    to: u32,
    len: int,
    size: Ssize,
    incr_src: bool,
    incr_dst: bool,
    k: int,
)
    requires
        1 <= len <= MAX_TRANSFER,
        0 <= k < len,
    ensures
        ({
            let tcd = descriptor(from, to, len, size, incr_src, incr_dst);
            &&& source_address(tcd, k) == from + if incr_src {
                k * size.bytes()
            } else {
                0
            }
            &&& destination_address(tcd, k) == to + if incr_dst {
                k * size.bytes()
            } else {
                0
            }
            &&& destination_address(tcd, k) + size.bytes() <= to + len * size.bytes()
            &&& source_address(tcd, k) + size.bytes() <= from + len * size.bytes()
            &&& tcd.nbytes == size.bytes()
            &&& tcd.citer == len
            &&& tcd.biter == len
        }),
{
    let b = size.bytes();
    assert(k * b + b <= len * b) by (nonlinear_arith)
        requires
            0 <= k < len,
            b >= 1,
    ;
    assert(b <= len * b) by (nonlinear_arith)
        requires
            1 <= len,
            b >= 1,
    ;
    assert(k * 0 == 0);
}

/// A channel is quiescent, and its stale flags cleared and its stale error forgotten, before its
/// descriptor is written, and takes requests only after that.
pub proof fn law_quiesced_before_setup(n: u8, request: u8, tcd: Tcd)
    ensures
        ({
            let program = start_program(n, request, tcd);
            forall|i: int|
                0 <= i < program.len() && (#[trigger] program[i] is WriteTcd) ==> program[i - 4]
                    == Op::WaitInactive(n) && program[i - 1] == Op::ForgetError(n) && program[i + 2]
                    == Op::EnableRequest(n)
        }),
{
}

/// Whether an error is remembered for a channel after some accesses, where it was or not before
/// them.
pub open spec fn remembered_after(program: Seq<Op>, channel: u8, failed: bool) -> bool
    decreases program.len(),
{
    if program.len() == 0 {
        failed
    } else {
        program.last() != Op::ForgetError(channel) && remembered_after(
            program.drop_last(),
            channel,
            failed,
        )
    }
}

proof fn lemma_remembered(program: Seq<Op>, channel: u8)
    ensures
        remembered_after(program, channel, true) == !program.contains(Op::ForgetError(channel)),
    decreases program.len(),
{
    if program.len() > 0 {
        lemma_remembered(program.drop_last(), channel);
        let forget = Op::ForgetError(channel);
        if program.contains(forget) && program.last() != forget {
            let k = program.index_of(forget);
            assert(program.drop_last()[k] == forget);
        }
        if program.drop_last().contains(forget) {
            let k = program.drop_last().index_of(forget);
            assert(program[k] == forget);
        }
        if program.last() == forget {
            assert(program[program.len() - 1] == forget);
        }
    }
}

/// An error of an earlier transfer is forgotten when a transfer starts, even one that is raised while
/// the channel is being quiesced, after `done` of the accesses; one that is raised once the channel
/// is set up for the new transfer is kept, and so are those of the other channels.
pub proof fn law_stale_errors_are_forgotten(
    n: u8,
    request: u8,
    tcd: Tcd,
    done: int,
    channel: u8,
)
    requires
        0 <= done <= start_program(n, request, tcd).len(),
    ensures
        ({
            let program = start_program(n, request, tcd);
            let set_up = program.index_of(Op::WriteTcd { channel: n, tcd });
            remembered_after(program.skip(done), channel, true) == (channel != n || done >= set_up)
        }),
{
    let program = start_program(n, request, tcd);
    let rest = program.skip(done);
    let set_up = Op::WriteTcd { channel: n, tcd };
    assert(program[6] == set_up);
    assert(program.index_of(set_up) == 6);
    lemma_remembered(rest, channel);
    if channel == n && done <= 5 {
        assert(rest[5 - done] == Op::ForgetError(n));
    }
}

} // verus!
