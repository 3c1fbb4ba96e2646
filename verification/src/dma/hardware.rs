//! What the accesses of the DMA driver do to a channel.
//!
//! [`after`] is the state that accesses leave a channel in, as the reference manual has it. The laws
//! hold it, and the words that a descriptor moves, against what was asked for.

use vstd::prelude::*;

use crate::bits;
use crate::dma::Op;
use crate::dma::Ssize;
use crate::dma::Tcd;
use crate::dma::Word;

verus! {

/// A channel of the controller.
pub ghost struct Channel {
    /// It takes requests.
    pub enabled: bool,
    /// The source that feeds it.
    pub source: Option<u8>,
    /// It was waited for since it last took requests.
    pub quiet: bool,
    pub tcd: Tcd,
    pub flags: Flags,
    /// Its task was woken.
    pub woken: bool,
    /// Its descriptor changed only while it was quiet and took no requests, and it takes requests
    /// only with a source and no stale flag.
    pub in_order: bool,
}

/// The flags of a channel.
pub ghost struct Flags {
    pub done: bool,
    pub interrupt: bool,
    pub error: bool,
    /// An error is remembered for its task.
    pub remembered: bool,
}

/// Channel `c` after an access.
#[verifier::opaque]
pub open spec fn step(op: Op, c: u8, s: Channel) -> Channel {
    match op {
        Op::DisableAll => Channel { enabled: false, ..s },
        Op::ClearInterrupts(ones) => Channel {
            flags: Flags { interrupt: s.flags.interrupt && !bits::bit8(ones, c), ..s.flags },
            ..s
        },
        Op::ClearErrors(ones) => Channel {
            flags: Flags { error: s.flags.error && !bits::bit8(ones, c), ..s.flags },
            ..s
        },
        Op::DisableRequest(n) => if n == c {
            Channel { enabled: false, ..s }
        } else {
            s
        },
        Op::DisconnectSource(n) => if n == c {
            Channel { source: None, ..s }
        } else {
            s
        },
        Op::WaitInactive(n) => if n == c {
            Channel { quiet: !s.enabled, ..s }
        } else {
            s
        },
        Op::ClearDone(n) => if n == c {
            Channel { flags: Flags { done: false, ..s.flags }, ..s }
        } else {
            s
        },
        Op::ClearInterrupt(n) => if n == c {
            Channel { flags: Flags { interrupt: false, ..s.flags }, ..s }
        } else {
            s
        },
        Op::ForgetError(n) => if n == c {
            Channel { flags: Flags { remembered: false, ..s.flags }, ..s }
        } else {
            s
        },
        Op::ClearError(n) => if n == c {
            Channel { flags: Flags { error: false, ..s.flags }, ..s }
        } else {
            s
        },
        Op::WriteTcd { channel, tcd } => if channel == c {
            Channel { tcd, in_order: s.in_order && s.quiet && !s.enabled && s.source is None, ..s }
        } else {
            s
        },
        Op::ConnectSource { channel, source } => if channel == c {
            Channel { source: Some(source), ..s }
        } else {
            s
        },
        Op::EnableRequest(n) => if n == c {
            Channel {
                enabled: true,
                quiet: false,
                in_order: s.in_order && s.source is Some && !s.flags.done && !s.flags.interrupt
                    && !s.flags.remembered,
                ..s
            }
        } else {
            s
        },
        Op::Wake(n) => if n == c {
            Channel { woken: true, ..s }
        } else {
            s
        },
        _ => s,
    }
}

/// Channel `c` after the first `n` of some accesses.
pub open spec fn after(ops: Seq<Op>, n: int, c: u8, from: Channel) -> Channel
    decreases n,
{
    if n <= 0 {
        from
    } else {
        step(ops[n - 1], c, after(ops, n - 1, c, from))
    }
}

proof fn lemma_prefix(a: Seq<Op>, b: Seq<Op>, n: int, c: u8, from: Channel)
    requires
        0 <= n <= a.len(),
    ensures
        after(a + b, n, c, from) == after(a, n, c, from),
    decreases n,
{
    if n > 0 {
        lemma_prefix(a, b, n - 1, c, from);
        assert((a + b)[n - 1] == a[n - 1]);
    }
}

proof fn lemma_append(a: Seq<Op>, b: Seq<Op>, n: int, c: u8, from: Channel)
    requires
        0 <= n <= b.len(),
    ensures
        after(a + b, a.len() + n, c, from) == after(b, n, c, after(a, a.len() as int, c, from)),
    decreases n,
{
    if n > 0 {
        lemma_append(a, b, n - 1, c, from);
        assert((a + b)[a.len() + n - 1] == b[n - 1]);
    } else {
        lemma_prefix(a, b, a.len() as int, c, from);
    }
}

proof fn lemma_untouched(ops: Seq<Op>, n: int, c: u8, from: Channel)
    requires
        0 <= n <= ops.len(),
        forall|i: int, s: Channel|
            0 <= i < ops.len() ==> #[trigger] step(ops[i], c, s) == s,
    ensures
        after(ops, n, c, from) == from,
    decreases n,
{
    if n > 0 {
        lemma_untouched(ops, n - 1, c, from);
    }
}

/// The bytes of a word.
pub proof fn law_word_sizes(size: Ssize)
    ensures
        Ssize::Bits8.bytes() == 1,
        Ssize::Bits16.bytes() == 2,
        Ssize::Bits32.bytes() == 4,
        <u8 as Word>::size_code().bytes() == 1,
        <u16 as Word>::size_code().bytes() == 2,
        <u32 as Word>::size_code().bytes() == 4,
{
}

/// A descriptor moves the words asked for: word `k` is one word of the size asked for, from the place
/// it has on a side that counts up or from the register of one that does not, to such a place. After
/// as many words as asked for the channel stops taking requests and interrupts.
pub proof fn law_descriptor_moves_the_words(
    from: u32,
    to: u32,
    len: int,
    size: Ssize,
    incr_src: bool,
    incr_dst: bool,
    k: int,
)
    requires
        1 <= len <= 32767,
        0 <= k < len,
    ensures
        ({
            let tcd = super::descriptor(from, to, len, size, incr_src, incr_dst);
            let word = match size {
                Ssize::Bits8 => 1int,
                Ssize::Bits16 => 2,
                Ssize::Bits32 => 4,
            };
            &&& tcd.saddr + k * tcd.soff == from + if incr_src {
                k * word
            } else {
                0
            }
            &&& tcd.daddr + k * tcd.doff == to + if incr_dst {
                k * word
            } else {
                0
            }
            &&& tcd.size == size
            &&& tcd.nbytes == word
            &&& tcd.citer == len && tcd.biter == len
            &&& tcd.slast == 0 && tcd.dlastsga == 0
            &&& tcd.intmajor && tcd.dreq
        }),
{
    assert(k * 0 == 0);
}

/// The longest transfer is what the 15-bit loop count holds, and there are 8 channels.
pub proof fn law_limits()
    ensures
        super::MAX_TRANSFER == 32767,
        super::CHANNEL_COUNT == 8,
{
}

/// Starting a transfer leaves its channel taking requests from its source, with its descriptor and
/// without stale flags, and every other channel as it was.
pub proof fn law_transfer_is_started(n: u8, request: u8, tcd: Tcd, c: u8, from: Channel)
    requires
        from.in_order,
    ensures
        ({
            let ops = super::start_program(n, request, tcd);
            let to = after(ops, ops.len() as int, c, from);
            if c == n {
                to == (Channel {
                    enabled: true,
                    source: Some(request),
                    quiet: false,
                    tcd,
                    flags: Flags {
                        done: false,
                        interrupt: false,
                        remembered: false,
                        ..from.flags
                    },
                    ..from
                })
            } else {
                to == from
            }
        }),
{
    let ops = super::start_program(n, request, tcd);
    assert(ops.len() == 9);
    if c == n {
        let c3 = Channel { enabled: false, source: None, quiet: true, ..from };
        assert(after(ops, 3, c, from) == c3) by {
            reveal(step);
            reveal_with_fuel(after, 4);
        }
        let c6 = Channel {
            flags: Flags { done: false, interrupt: false, remembered: false, ..c3.flags },
            ..c3
        };
        assert(after(ops, 6, c, from) == c6) by {
            reveal(step);
            reveal_with_fuel(after, 4);
        }
        let c7 = Channel { tcd, ..c6 };
        assert(after(ops, 7, c, from) == c7) by {
            reveal(step);
        }
        assert(after(ops, 9, c, from) == (Channel {
            source: Some(request),
            enabled: true,
            quiet: false,
            ..c7
        })) by {
            reveal(step);
            reveal_with_fuel(after, 3);
        }
    } else {
        reveal(step);
        lemma_untouched(ops, 9, c, from);
    }
}

/// Stopping a transfer leaves its channel without requests and source, and waits until it is quiet;
/// memory is settled then. Every other channel is as it was.
pub proof fn law_transfer_is_stopped(n: u8, c: u8, from: Channel)
    ensures
        ({
            let ops = super::stop_program(n);
            let to = after(ops, ops.len() as int, c, from);
            &&& to == if c == n {
                Channel { enabled: false, source: None, quiet: true, ..from }
            } else {
                from
            }
            &&& ops.last() == Op::Fence
        }),
{
    reveal(step);
    reveal_with_fuel(after, 5);
}

/// An error stops exactly the channels that have it, clears it and wakes their tasks.
pub proof fn law_errors_stop_their_channels(err: u8, c: u8, from: Channel)
    requires
        c < 8,
    ensures
        ({
            let ops = super::error_program(err, 8);
            after(ops, ops.len() as int, c, from) == if bits::bit8(err, c) {
                Channel {
                    enabled: false,
                    flags: Flags { error: false, ..from.flags },
                    woken: true,
                    ..from
                }
            } else {
                from
            }
        }),
{
    lemma_errors(err, 8, c, from);
}

proof fn lemma_errors(err: u8, end: int, c: u8, from: Channel)
    requires
        0 <= end <= 8,
    ensures
        ({
            let ops = super::error_program(err, end);
            after(ops, ops.len() as int, c, from) == if c < end && bits::bit8(err, c) {
                Channel {
                    enabled: false,
                    flags: Flags { error: false, ..from.flags },
                    woken: true,
                    ..from
                }
            } else {
                from
            }
        }),
    decreases end,
{
    let ops = super::error_program(err, end);
    if end > 0 {
        let channel = (end - 1) as u8;
        let a = super::error_program(err, end - 1);
        lemma_errors(err, end - 1, c, from);
        if bits::bit8(err, channel) {
            let b = seq![Op::DisableRequest(channel), Op::ClearError(channel), Op::Wake(channel)];
            lemma_append(a, b, 3, c, from);
            assert(ops =~= a + b);
            reveal(step);
            reveal_with_fuel(after, 4);
        } else {
            assert(ops =~= a);
        }
    }
}

/// Setting the controller up leaves every channel without requests, source and flags.
pub proof fn law_setup_resets_the_channels(c: u8, from: Channel)
    requires
        c < 8,
    ensures
        ({
            let ops = super::init_program();
            let to = after(ops, ops.len() as int, c, from);
            &&& to == (Channel {
                enabled: false,
                source: None,
                flags: Flags { interrupt: false, error: false, ..from.flags },
                ..from
            })
            &&& ops[0] == Op::EnableClock && ops[1] == Op::EnableMuxClock
            &&& ops.contains(Op::EnableErrorInterrupts)
            &&& ops.last() == Op::EnableLines
        }),
{
    let ops = super::init_program();
    assert(ops.len() == 15);
    assert(ops[13] == Op::EnableErrorInterrupts);
    assert(bits::bit8(0xFF, c)) by {
        assert(c < 8 ==> 0xFFu8 & (1u8 << c) != 0) by (bit_vector);
    }
    let c5 = Channel {
        enabled: false,
        flags: Flags { interrupt: false, error: false, ..from.flags },
        ..from
    };
    assert(after(ops, 5, c, from) == c5) by {
        reveal(step);
        reveal_with_fuel(after, 6);
    }
    lemma_disconnected(ops, 13, c, c5, from);
    assert(after(ops, 15, c, from) == (Channel { source: None, ..c5 })) by {
        reveal(step);
        reveal_with_fuel(after, 3);
    }
}

proof fn lemma_disconnected(ops: Seq<Op>, n: int, c: u8, at: Channel, from: Channel)
    requires
        ops.len() == 15,
        5 <= n <= 13,
        forall|i: int| 5 <= i < 13 ==> #[trigger] ops[i] == Op::DisconnectSource((i - 5) as u8),
        after(ops, 5, c, from) == at,
    ensures
        after(ops, n, c, from) == if c < n - 5 {
            Channel { source: None, ..at }
        } else {
            at
        },
    decreases n,
{
    if n > 5 {
        lemma_disconnected(ops, n - 1, c, at, from);
        reveal(step);
        assert(ops[n - 1] == Op::DisconnectSource((n - 6) as u8));
    }
}

} // verus!
