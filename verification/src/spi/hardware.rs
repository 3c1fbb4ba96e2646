//! What the accesses of the SPI master do to the module.
//!
//! [`after`] is the state that the accesses of a setup leave the module in. The laws read the clock
//! and the frame from its registers, as the reference manual has them, and hold them against what was
//! asked for.

use vstd::arithmetic::power2::pow2;
use vstd::prelude::*;

use crate::gpio::Mux;
use crate::spi::transfer;
use crate::spi::transfer::Event;
use crate::spi::transfer::Wait;
use crate::spi::BitOrder;
use crate::spi::Config;
use crate::spi::Ctar;
use crate::spi::Error;
use crate::spi::FrequencyError;
use crate::spi::Line;
use crate::spi::Op;
use crate::spi::Pbr;
use crate::spi::Phase;
use crate::spi::Polarity;

verus! {

/// The registers of the module, and of its pins.
pub ghost struct Module {
    pub clocked: bool,
    /// Master, and the module is enabled.
    pub master: bool,
    pub halted: bool,
    pub ctar: Ctar,
    /// `SR`.
    pub status: u32,
    pub pins: Pins,
    /// No access came while the module was not clocked, and the attributes changed only while it
    /// was halted.
    pub in_order: bool,
}

/// What the pins of the module are connected to.
pub ghost struct Pins {
    pub sck: Option<Mux>,
    pub mosi: Option<Mux>,
    pub miso: Option<Mux>,
}

/// The way of the interrupt to the processor.
pub ghost struct Interrupt {
    /// Inputs of the interrupt multiplexer that are let through.
    pub routed: Set<u8>,
    /// Nothing from before is pending at the NVIC.
    pub unpended: bool,
    pub enabled: bool,
    /// Nothing from before was pending when the interrupt was enabled.
    pub in_order: bool,
}

/// The baud rate prescaler that the module makes of `CTAR[PBR]`.
pub open spec fn prescaler(pbr: Pbr) -> int {
    match pbr {
        Pbr::_00 => 2,
        Pbr::_01 => 3,
        Pbr::_10 => 5,
        Pbr::_11 => 7,
    }
}

/// The baud rate scaler that the module makes of `CTAR[BR]`: 2, 4 and 6, and the powers of two from
/// there.
pub open spec fn scaler(br: int) -> int {
    if br < 3 {
        2 * (br + 1)
    } else {
        pow2(br as nat) as int
    }
}

/// The SCK rate of the fields of `CTAR` from a bus clock of `bus_hz`.
pub open spec fn rate(bus_hz: int, dbr: bool, pbr: Pbr, br: int) -> int {
    bus_hz * (1 + if dbr {
        1int
    } else {
        0
    }) / (prescaler(pbr) * scaler(br))
}

/// The module after an access.
#[verifier::opaque]
pub open spec fn step(op: Op, m: Module) -> Module {
    match op {
        Op::EnableClock => Module { clocked: true, ..m },
        Op::WriteMcrHalted => Module {
            master: true,
            halted: true,
            in_order: m.in_order && m.clocked,
            ..m
        },
        Op::WriteCtar(ctar) => Module {
            ctar,
            in_order: m.in_order && m.clocked && m.halted,
            ..m
        },
        Op::SetMux { line, mux } => Module {
            pins: match line {
                Line::Sck => Pins { sck: Some(mux), ..m.pins },
                Line::Mosi => Pins { mosi: Some(mux), ..m.pins },
                Line::Miso => Pins { miso: Some(mux), ..m.pins },
            },
            ..m
        },
        Op::WriteSr(ones) => Module {
            status: m.status & !ones,
            in_order: m.in_order && m.clocked,
            ..m
        },
        Op::Run => Module { halted: false, in_order: m.in_order && m.clocked, ..m },
        _ => m,
    }
}

/// The module after the first `n` of some accesses.
pub open spec fn after(ops: Seq<Op>, n: int, from: Module) -> Module
    decreases n,
{
    if n <= 0 {
        from
    } else {
        step(ops[n - 1], after(ops, n - 1, from))
    }
}

/// The way of the interrupt after an access.
pub open spec fn route(op: Op, i: Interrupt) -> Interrupt {
    match op {
        Op::EnableSource(input) => Interrupt { routed: i.routed.insert(input), ..i },
        Op::UnpendInterrupt => Interrupt { unpended: true, ..i },
        Op::EnableInterrupt => Interrupt {
            enabled: true,
            in_order: i.in_order && i.unpended,
            ..i
        },
        _ => i,
    }
}

/// The way of the interrupt after the first `n` of some accesses.
pub open spec fn routed_after(ops: Seq<Op>, n: int, from: Interrupt) -> Interrupt
    decreases n,
{
    if n <= 0 {
        from
    } else {
        route(ops[n - 1], routed_after(ops, n - 1, from))
    }
}

/// The rate that the library works with is the one of the module.
proof fn lemma_rate(bus_hz: int, dbr: bool, pbr: Pbr, br: int)
    requires
        0 <= br < 16,
    ensures
        super::sck_rate(bus_hz, dbr, pbr.bits(), br) == rate(bus_hz, dbr, pbr, br),
{
    let s = super::SCALERS@;
    assert(s[0] == 2 && s[1] == 4 && s[2] == 6 && s[3] == 8 && s[4] == 16 && s[5] == 32);
    assert(s[6] == 64 && s[7] == 128 && s[8] == 256 && s[9] == 512 && s[10] == 1024);
    assert(s[11] == 2048 && s[12] == 4096 && s[13] == 8192 && s[14] == 16384 && s[15] == 32768);
    vstd::arithmetic::power2::lemma2_to64();
    assert(s[br] == scaler(br));
    let p = super::PRESCALERS@;
    assert(p[0] == 2 && p[1] == 3 && p[2] == 5 && p[3] == 7);
}

/// Fields of every prescaler.
pub open spec fn pbr_of(bits: int) -> Pbr {
    if bits == 0 {
        Pbr::_00
    } else if bits == 1 {
        Pbr::_01
    } else if bits == 2 {
        Pbr::_10
    } else {
        Pbr::_11
    }
}

/// The module after a setup.
proof fn lemma_setup(ctar: Ctar, sck: Mux, mosi: Option<Mux>, miso: Option<Mux>, from: Module)
    requires
        from.in_order,
    ensures
        ({
            let ops = super::init_program(ctar, sck, mosi, miso);
            let to = after(ops, ops.len() as int, from);
            &&& to.in_order
            &&& to.clocked && to.master && !to.halted
            &&& to.ctar == ctar
            &&& to.pins.sck == Some(sck)
            &&& to.pins.mosi == if mosi is Some {
                mosi
            } else {
                from.pins.mosi
            }
            &&& to.pins.miso == if miso is Some {
                miso
            } else {
                from.pins.miso
            }
            &&& to.status == from.status & !0x9A0A_0000u32
        }),
{
    let ops = super::init_program(ctar, sck, mosi, miso);
    let c1 = Module { clocked: true, ..from };
    assert(after(ops, 1, from) == c1) by {
        reveal(step);
        assert(after(ops, 0, from) == from);
    }
    let c2 = Module { master: true, halted: true, ..c1 };
    assert(after(ops, 2, from) == c2) by {
        reveal(step);
    }
    let c3 = Module { ctar, ..c2 };
    assert(after(ops, 3, from) == c3) by {
        reveal(step);
    }
    let c4 = Module { pins: Pins { sck: Some(sck), ..c3.pins }, ..c3 };
    assert(ops[3] == (Op::SetMux { line: Line::Sck, mux: sck }));
    assert(after(ops, 4, from) == c4) by {
        reveal(step);
    }
    let (n, c5) = match mosi {
        Some(mux) => (5int, Module { pins: Pins { mosi, ..c4.pins }, ..c4 }),
        None => (4int, c4),
    };
    assert(after(ops, n, from) == c5) by {
        if let Some(mux) = mosi {
            assert(ops[4] == (Op::SetMux { line: Line::Mosi, mux }));
            reveal(step);
        }
    }
    let (k, c6) = match miso {
        Some(mux) => (n + 1, Module { pins: Pins { miso, ..c5.pins }, ..c5 }),
        None => (n, c5),
    };
    assert(after(ops, k, from) == c6) by {
        if let Some(mux) = miso {
            assert(ops[n] == (Op::SetMux { line: Line::Miso, mux }));
            reveal(step);
        }
    }
    assert(ops.len() == k + 2 && ops[k] == Op::WriteSr(0x9A0A_0000) && ops[k + 1] == Op::Run);
    let c7 = Module { status: c6.status & !0x9A0A_0000u32, ..c6 };
    assert(after(ops, k + 1, from) == c7) by {
        reveal(step);
    }
    assert(after(ops, k + 2, from) == (Module { halted: false, ..c7 })) by {
        reveal(step);
    }
}

/// A setup gives the clock and the frame asked for. Whatever the registers held before, their fields
/// afterwards make the highest SCK rate that is not above the one asked for, with the smallest
/// prescaler and scaler that make it, doubled only where it takes that, and frames of 8 bits in
/// the order, polarity and phase asked for; the pins given are connected; no old flag is set; and the
/// module runs as master, having been halted while its attributes changed.
pub proof fn law_setup_gives_the_bus_settings(
    ops: Seq<Op>,
    bus_hz: u32,
    sck: Mux,
    mosi: Option<Mux>,
    miso: Option<Mux>,
    config: Config,
    from: Module,
)
    requires
        super::sets_up(ops, bus_hz, sck, mosi, miso, config),
        from.in_order,
    ensures
        ({
            let to = after(ops, ops.len() as int, from);
            let here = rate(bus_hz as int, to.ctar.dbr, to.ctar.pbr, to.ctar.br as int);
            &&& to.in_order
            &&& to.clocked && to.master && !to.halted
            &&& to.ctar.br < 16
            &&& here <= config.frequency
            &&& forall|d: bool, p: Pbr, b: int|
                0 <= b < 16 && #[trigger] rate(bus_hz as int, d, p, b) <= config.frequency ==> {
                    let there = rate(bus_hz as int, d, p, b);
                    there < here || there == here && (prescaler(to.ctar.pbr) < prescaler(p)
                        || to.ctar.pbr == p && (to.ctar.br < b || to.ctar.br == b && (to.ctar.dbr
                        ==> d)))
                }
            &&& to.ctar.fmsz + 1 == 8
            &&& to.ctar.lsbfe == (config.bit_order == BitOrder::LsbFirst)
            &&& to.ctar.cpol == (config.polarity == Polarity::IdleHigh)
            &&& to.ctar.cpha == (config.phase == Phase::CaptureOnSecondTransition)
            &&& to.pins.sck == Some(sck)
            &&& to.pins.mosi == if mosi is Some {
                mosi
            } else {
                from.pins.mosi
            }
            &&& to.pins.miso == if miso is Some {
                miso
            } else {
                from.pins.miso
            }
            // TCF, EOQF, TFUF, TFFF, RFOF and RFDF.
            &&& to.status & 0x9A0A_0000 == 0
        }),
{
    let (dbr, pbr, br) = choose|dbr: bool, pbr: Pbr, br: u8|
        #![trigger super::attributes(config, dbr, pbr, br)]
        super::best_divisors(bus_hz as int, config.frequency as int, dbr, pbr.bits(), br as int)
            && ops == super::init_program(
            super::attributes(config, dbr, pbr, br),
            sck,
            mosi,
            miso,
        );
    lemma_setup(super::attributes(config, dbr, pbr, br), sck, mosi, miso, from);
    lemma_rate(bus_hz as int, dbr, pbr, br as int);
    assert forall|d: bool, p: Pbr, b: int|
        0 <= b < 16 && #[trigger] rate(bus_hz as int, d, p, b) <= config.frequency implies {
        let there = rate(bus_hz as int, d, p, b);
        let here = rate(bus_hz as int, dbr, pbr, br as int);
        there < here || there == here && (prescaler(pbr) < prescaler(p) || pbr == p && (br < b || br == b
            && (dbr ==> d)))
    } by {
        lemma_rate(bus_hz as int, d, p, b);
        assert(super::valid_divisors(p.bits(), b));
    }
    let flags = from.status;
    assert((flags & !0x9A0A_0000u32) & 0x9A0A_0000u32 == 0) by (bit_vector);
}

/// A frequency is refused exactly if it is zero, or if every rate that the module can make is above
/// it.
pub proof fn law_refused_frequency(bus_hz: u32, frequency: u32)
    ensures
        super::no_rate(bus_hz, frequency, FrequencyError::Zero) <==> frequency == 0,
        super::no_rate(bus_hz, frequency, FrequencyError::BelowMinimum) <==> frequency != 0
            && forall|d: bool, p: Pbr, b: int|
            0 <= b < 16 ==> #[trigger] rate(bus_hz as int, d, p, b) > frequency,
{
    let below = super::no_rate(bus_hz, frequency, FrequencyError::BelowMinimum);
    if below {
        assert forall|d: bool, p: Pbr, b: int| 0 <= b < 16 implies #[trigger] rate(
            bus_hz as int,
            d,
            p,
            b,
        ) > frequency by {
            lemma_rate(bus_hz as int, d, p, b);
            assert(super::valid_divisors(p.bits(), b));
        }
    }
    if frequency != 0 && (forall|d: bool, p: Pbr, b: int|
        0 <= b < 16 ==> #[trigger] rate(bus_hz as int, d, p, b) > frequency) {
        assert forall|d: bool, p: int, b: int| super::valid_divisors(p, b) implies #[trigger] super::sck_rate(
            bus_hz as int,
            d,
            p,
            b,
        ) > frequency by {
            lemma_rate(bus_hz as int, d, pbr_of(p), b);
            assert(rate(bus_hz as int, d, pbr_of(p), b) > frequency);
        }
    }
}

/// The interrupt of a module is let through all the way: through the multiplexer where the module
/// sits behind it, and at the NVIC once nothing old is pending there.
pub proof fn law_interrupt_is_let_through(source: Option<u8>, from: Interrupt)
    requires
        from.in_order,
        !from.unpended,
    ensures
        ({
            let ops = super::interrupt_program(source);
            let to = routed_after(ops, ops.len() as int, from);
            &&& to.enabled
            &&& to.in_order
            &&& to.routed == match source {
                Some(input) => from.routed.insert(input),
                None => from.routed,
            }
        }),
{
    reveal_with_fuel(routed_after, 4);
}

// ---------------------------------------------------------------------------------------------
// Transfers
// ---------------------------------------------------------------------------------------------

/// What a transfer sends is what was written, with 0xFF after it up to the length of the transfer.
pub proof fn law_padding(write: Seq<u8>, len: nat, i: int)
    requires
        0 <= i < len,
    ensures
        transfer::padded(write, len).len() == len,
        transfer::padded(write, len)[i] == if i < write.len() {
            write[i]
        } else {
            0xFF
        },
        super::DUMMY == 0xFF,
{
}

/// The bytes that a transfer queues at a number of favourable events.
pub open spec fn queued(now: transfer::State, reply: Seq<u8>, events: nat) -> Seq<u8>
    decreases events,
{
    if events == 0 {
        seq![]
    } else {
        let (next, ops) = transfer::advance_to(now, transfer::favourable(now, reply));
        pushed(ops) + queued(next, reply, (events - 1) as nat)
    }
}

/// The bytes that accesses put into the transmit FIFO.
pub open spec fn pushed(ops: Seq<Op>) -> Seq<u8>
    decreases ops.len(),
{
    if ops.len() == 0 {
        seq![]
    } else {
        pushed(ops.drop_last()) + match ops.last() {
            Op::Push(byte) => seq![byte],
            _ => seq![],
        }
    }
}

proof fn lemma_queued(now: transfer::State, reply: Seq<u8>, events: nat)
    requires
        now.wf(),
        0 <= now.sent,
    ensures
        ({
            let end = transfer::go_on(now, reply, events);
            &&& now.sent <= end.sent <= now.outgoing.len()
            &&& end.outgoing == now.outgoing
            &&& queued(now, reply, events) == now.outgoing.subrange(now.sent, end.sent)
        }),
    decreases events,
{
    if events > 0 {
        let event = transfer::favourable(now, reply);
        let (next, ops) = transfer::advance_to(now, event);
        transfer::law_frames_in_flight(now, event);
        transfer::law_bytes_go_out_in_order(now, event);
        lemma_queued(next, reply, (events - 1) as nat);
        let end = transfer::go_on(now, reply, events);
        if next.sent == now.sent {
            lemma_no_pushes(ops);
            assert(queued(now, reply, events) =~= now.outgoing.subrange(now.sent, end.sent));
        } else {
            let byte = now.outgoing[now.sent];
            assert(ops == seq![Op::Push(byte)]);
            assert(ops.drop_last() =~= Seq::<Op>::empty());
            reveal_with_fuel(pushed, 2);
            assert(pushed(ops) =~= seq![byte]);
            assert(queued(now, reply, events) =~= now.outgoing.subrange(now.sent, end.sent));
        }
    } else {
        assert(queued(now, reply, events) =~= now.outgoing.subrange(now.sent, now.sent));
    }
}

proof fn lemma_no_pushes(ops: Seq<Op>)
    requires
        forall|i: int| 0 <= i < ops.len() ==> !(#[trigger] ops[i] is Push),
    ensures
        pushed(ops) == Seq::<u8>::empty(),
    decreases ops.len(),
{
    if ops.len() > 0 {
        assert(!(ops[ops.len() - 1] is Push));
        assert forall|i: int| 0 <= i < ops.drop_last().len() implies !(#[trigger] ops.drop_last()[i]
            is Push) by {
            assert(ops.drop_last()[i] == ops[i]);
        }
        lemma_no_pushes(ops.drop_last());
    }
}

/// A transfer on a bus that works sends every byte given to it, once and in order, takes down the
/// whole reply, and ends well.
pub proof fn law_transfer_on_the_wire(outgoing: Seq<u8>, depth: int, reply: Seq<u8>)
    requires
        depth >= 1,
        reply.len() == outgoing.len(),
    ensures
        ({
            let now = transfer::initial_state(outgoing, depth);
            exists|events: nat|
                {
                    let end = #[trigger] transfer::go_on(now, reply, events);
                    &&& end.wait matches Wait::Finished(Ok(_))
                    &&& queued(now, reply, events) == outgoing
                    &&& end.taken == reply
                }
        }),
{
    let now = transfer::initial_state(outgoing, depth);
    assert(now.taken =~= reply.take(0));
    transfer::law_undisturbed_transfer_ends(now, reply);
    let events = choose|events: nat|
        {
            let end = #[trigger] transfer::go_on(now, reply, events);
            &&& end.wait matches Wait::Finished(Ok(_))
            &&& end.sent == now.outgoing.len()
            &&& end.taken == reply
        };
    lemma_queued(now, reply, events);
    assert(outgoing.subrange(0, outgoing.len() as int) =~= outgoing);
}

/// What a transfer does at each event: a byte is queued exactly if the FIFO has room, the FIFO is kept
/// full as long as there is anything to send, every frame that came in is acknowledged, an overrun
/// ends the transfer with its error and is acknowledged, and nothing else ends it.
pub proof fn law_transfer_events(now: transfer::State, event: Event)
    requires
        now.wf(),
    ensures
        ({
            let (next, ops) = transfer::advance_to(now, event);
            let in_flight = next.sent - next.taken.len();
            match (now.wait, event) {
                (Wait::TxCount, Event::TxCount(count)) => {
                    &&& next.sent == now.sent + if count < now.depth {
                        1int
                    } else {
                        0
                    }
                    &&& next.taken == now.taken
                    &&& count < now.depth && next.wait == Wait::RxReady ==> next.sent
                        == next.outgoing.len() || in_flight == next.depth
                },
                (Wait::RxCount, Event::RxCount(count)) => {
                    &&& count != 0 ==> next == (transfer::State { wait: Wait::Frame, ..now })
                    &&& count == 0 ==> next.wait == Wait::TxCount || next.wait == Wait::RxReady && (
                    next.sent == next.outgoing.len() || in_flight == next.depth)
                    &&& ops.len() == 0
                },
                (Wait::Frame, Event::Frame(byte)) => {
                    &&& next.taken == now.taken.push(byte)
                    &&& next.sent == now.sent
                    &&& ops == seq![Op::ClearRfdf]
                    &&& next.taken.len() == next.outgoing.len() <==> next.wait == Wait::Overrun
                },
                (Wait::Overrun, Event::Overrun(overrun)) => {
                    &&& overrun ==> next.wait == Wait::Finished(Err(Error::Overrun)) && ops == seq![
                        Op::ClearRfof,
                    ]
                    &&& !overrun ==> (next.wait matches Wait::Finished(Ok(_))) && ops.len() == 0
                },
                (Wait::RxReady, Event::RxReady) => ops.len() == 0 && next.taken == now.taken,
                _ => next == now && ops.len() == 0,
            }
        }),
{
}

/// A transfer of anything begins with empty FIFOs and no stale flag, one of nothing leaves the module
/// alone.
pub proof fn law_transfers_begin_clean(len: int)
    requires
        len >= 0,
    ensures
        transfer::begin_program(len) == if len > 0 {
            seq![Op::ClearFifos, Op::WriteSr(0x9A0A_0000)]
        } else {
            seq![]
        },
{
}

/// A chunk that the DMA controller moves.
pub ghost struct Channels {
    /// What the receive channel does with what comes in, once it is started: keep or drop it.
    pub rx: Option<bool>,
    /// What the transmit channel sends, once it is started: data or padding.
    pub tx: Option<bool>,
    /// The command half of `PUSHR` is zero.
    pub command: bool,
    /// The FIFOs request transfers.
    pub requests: bool,
    /// Requests were let through only with both channels started and the command in place.
    pub in_order: bool,
}

/// The channels after an access.
pub open spec fn channels_step(op: Op, c: Channels) -> Channels {
    match op {
        Op::ClearCommand => Channels { command: true, ..c },
        Op::StartRx { keep } => Channels { rx: Some(keep), ..c },
        Op::StartTx { data } => Channels { tx: Some(data), ..c },
        Op::EnableRequests => Channels {
            requests: true,
            in_order: c.in_order && c.rx is Some && c.tx is Some && c.command,
            ..c
        },
        Op::DisableRequests => Channels { requests: false, rx: None, tx: None, ..c },
        _ => c,
    }
}

/// The channels after the first `n` of some accesses.
pub open spec fn channels_after(ops: Seq<Op>, n: int, from: Channels) -> Channels
    decreases n,
{
    if n <= 0 {
        from
    } else {
        channels_step(ops[n - 1], channels_after(ops, n - 1, from))
    }
}

/// Starting a chunk sets both channels going, each on its part of a buffer or beyond it, before any
/// request is let through; when the chunk is done, well or not, the requests are stopped.
pub proof fn law_chunks_are_started(
    now: transfer::DmaState,
    rx_ok: bool,
    tx_ok: bool,
    from: Channels,
)
    requires
        now.wf(),
        now.moved < now.len(),
        from == (Channels { rx: None, tx: None, command: false, requests: false, in_order: true }),
    ensures
        ({
            let (next, ops) = now.next_chunk();
            let to = channels_after(ops, ops.len() as int, from);
            let (done, stop) = transfer::dma_advance(
                next,
                transfer::DmaEvent::Channels { rx_ok, tx_ok },
            );
            let stopped = channels_after(stop, stop.len() as int, to);
            &&& to.in_order && to.requests
            &&& to.rx == Some(now.moved < now.read_len)
            &&& to.tx == Some(now.moved < now.write_len)
            &&& next.wait matches transfer::DmaWait::Channels(chunk)
            &&& chunk.offset == now.moved
            &&& 1 <= chunk.len <= 32767
            &&& !stopped.requests
            &&& rx_ok && tx_ok ==> done.moved == now.moved + chunk.len && done.wait
                == transfer::DmaWait::Overrun
            &&& !(rx_ok && tx_ok) ==> done.wait == transfer::DmaWait::Finished(Err(Error::Dma))
        }),
{
    reveal_with_fuel(channels_after, 5);
}

} // verus!
