//! What the accesses of the LPUART driver do to the module.
//!
//! [`after`] is the state that accesses leave the module in. The laws read the baud rate and the
//! frame from its registers, as the reference manual has them, and hold them against what was asked
//! for.

use vstd::prelude::*;

use crate::clocks::Clocks;
use crate::clocks::Lpuartsrc;
use crate::gpio::Mux;
use crate::lpuart::transfer;
use crate::lpuart::transfer::DmaEvent;
use crate::lpuart::transfer::DmaWait;
use crate::lpuart::transfer::ReadEvent;
use crate::lpuart::transfer::ReadWait;
use crate::lpuart::transfer::WriteEvent;
use crate::lpuart::transfer::WriteWait;
use crate::lpuart::Baud;
use crate::lpuart::Character;
use crate::lpuart::Config;
use crate::lpuart::Ctrl;
use crate::lpuart::Error;
use crate::lpuart::Flags;
use crate::lpuart::Line;
use crate::lpuart::Op;
use crate::lpuart::Parity;
use crate::lpuart::StopBits;

verus! {

/// The registers of the module, and of its pins.
pub ghost struct Module {
    pub source: Lpuartsrc,
    pub clocked: bool,
    pub ctrl: Ctrl,
    pub baud: Baud,
    pub status: Status,
    pub pins: Pins,
    /// No access came while the module was not clocked, and none to what may only change while both
    /// halves are off came while one was on.
    pub in_order: bool,
}

/// The receiver's settings and flags, and the FIFOs.
pub ghost struct Status {
    /// `STAT[RXINV]`.
    pub rxinv: bool,
    /// The receive error flags of `STAT`.
    pub flags: Flags,
    /// Both FIFOs are on.
    pub fifos: bool,
    /// Both watermarks are zero.
    pub water: bool,
}

/// What the pins of the module are connected to.
pub ghost struct Pins {
    pub tx: Option<Mux>,
    pub rx: Option<Mux>,
}

/// The way of the interrupt to the processor.
pub ghost struct Interrupt {
    /// Inputs of the interrupt multiplexer that are let through.
    pub routed: Set<u8>,
    /// Nothing from before is pending at the NVIC.
    pub unpended: bool,
    pub enabled: bool,
    /// Nothing from before was pending when the interrupt was enabled.
    pub in_order: bool,
}

impl Module {
    /// Whether the module is clocked and both halves are off.
    pub open spec fn idle(self) -> bool {
        self.clocked && !self.ctrl.te && !self.ctrl.re
    }

    /// The baud rate from a module clock of `src` Hz.
    pub open spec fn rate(self, src: int) -> int {
        src / ((self.baud.osr + 1) * self.baud.sbr)
    }

    /// The bits between the start bit and the stop bits, parity included.
    pub open spec fn frame_bits(self) -> int {
        if self.ctrl.m {
            9
        } else {
            8
        }
    }
}

/// The module after an access.
#[verifier::opaque]
pub open spec fn step(op: Op, m: Module) -> Module {
    match op {
        Op::SelectSource(source) => Module { source, ..m },
        Op::EnableClock => Module { clocked: true, ..m },
        Op::ResetCtrl => Module {
            ctrl: Ctrl { m: false, pe: false, pt: false, txinv: false, te: false, re: false },
            in_order: m.in_order && m.clocked,
            ..m
        },
        Op::WriteBaud(baud) => Module { baud, in_order: m.in_order && m.idle(), ..m },
        Op::ResetStat { rxinv } => Module {
            status: Status {
                rxinv,
                flags: Flags { or: false, fe: false, pf: false, nf: false },
                ..m.status
            },
            in_order: m.in_order && m.idle(),
            ..m
        },
        Op::EnableFifos => Module {
            status: Status { fifos: true, ..m.status },
            in_order: m.in_order && m.idle(),
            ..m
        },
        Op::ResetWater => Module {
            status: Status { water: true, ..m.status },
            in_order: m.in_order && m.idle(),
            ..m
        },
        Op::SetMux { line, mux } => Module {
            pins: match line {
                Line::Tx => Pins { tx: Some(mux), ..m.pins },
                Line::Rx => Pins { rx: Some(mux), ..m.pins },
            },
            ..m
        },
        Op::WriteCtrl(ctrl) => Module { ctrl, in_order: m.in_order && m.clocked, ..m },
        Op::ClearStat(clear) => Module {
            status: Status {
                flags: Flags {
                    or: m.status.flags.or && !clear.or,
                    fe: m.status.flags.fe && !clear.fe,
                    pf: m.status.flags.pf && !clear.pf,
                    nf: m.status.flags.nf && !clear.nf,
                },
                ..m.status
            },
            ..m
        },
        _ => m,
    }
}

/// The way of the interrupt after an access.
pub open spec fn route(op: Op, i: Interrupt) -> Interrupt {
    match op {
        Op::EnableSource(input) => Interrupt { routed: i.routed.insert(input), ..i },
        Op::UnpendInterrupt => Interrupt { unpended: true, ..i },
        Op::EnableInterrupt => Interrupt {
            enabled: true,
            in_order: i.in_order && i.unpended,
            ..i
        },
        _ => i,
    }
}

/// The way of the interrupt after the first `n` of some accesses.
pub open spec fn routed_after(ops: Seq<Op>, n: int, from: Interrupt) -> Interrupt
    decreases n,
{
    if n <= 0 {
        from
    } else {
        route(ops[n - 1], routed_after(ops, n - 1, from))
    }
}

/// The module after the first `n` of some accesses.
pub open spec fn after(ops: Seq<Op>, n: int, from: Module) -> Module
    decreases n,
{
    if n <= 0 {
        from
    } else {
        step(ops[n - 1], after(ops, n - 1, from))
    }
}

/// How far two rates are apart.
pub open spec fn distance(a: int, b: int) -> int {
    if a >= b {
        a - b
    } else {
        b - a
    }
}

/// The divisors of a setup, for a clock of `src` Hz.
proof fn lemma_divisors(src: u32, baudrate: u32, osr: u8, sbr: u16)
    requires
        baudrate > 0,
        super::fitting_divisors(src, baudrate, osr, sbr),
    ensures
        4 <= osr <= 32,
        1 <= sbr <= 0x1FFF,
        100 * distance(src as int / (osr * sbr), baudrate as int) <= 3 * baudrate,
        forall|o: int, s: int|
            4 <= o <= 32 && 1 <= s <= 0x1FFF ==> {
                let here = distance(src as int / (osr * sbr), baudrate as int);
                let there = distance(src as int / #[trigger] (o * s), baudrate as int);
                here < there || here == there && o <= osr
            },
        ({
            let ideal = src as int / (baudrate * osr);
            let low = if ideal < 1 {
                1
            } else if ideal > 0x1FFF {
                0x1FFF
            } else {
                ideal
            };
            sbr == low || sbr == low + 1 && distance(src as int / (osr * sbr), baudrate as int)
                < distance(src as int / (osr * low), baudrate as int)
        }),
{
    assert forall|o: int, s: int| 4 <= o <= 32 && 1 <= s <= 0x1FFF implies {
        let here = distance(src as int / (osr * sbr), baudrate as int);
        let there = distance(src as int / #[trigger] (o * s), baudrate as int);
        here < there || here == there && o <= osr
    } by {
        assert(super::legal_divisors(o, s));
    }
}

/// The module after a setup.
proof fn lemma_setup(
    source: Lpuartsrc,
    fields: Baud,
    tx: Option<Mux>,
    rx: Option<Mux>,
    config: Config,
    from: Module,
)
    requires
        from.in_order,
    ensures
        ({
            let ops = super::init_program(source, fields, tx, rx, config);
            let to = after(ops, ops.len() as int, from);
            &&& to.in_order
            &&& to.source == source
            &&& to.baud == fields
            &&& to.status.rxinv == config.invert_rx
            &&& to.status.flags == (Flags { or: false, fe: false, pf: false, nf: false })
            &&& to.status.fifos && to.status.water
            &&& to.ctrl == super::control(config, tx is Some, rx is Some)
            &&& to.pins.tx == if tx is Some {
                tx
            } else {
                from.pins.tx
            }
            &&& to.pins.rx == if rx is Some {
                rx
            } else {
                from.pins.rx
            }
        }),
{
    let ops = super::init_program(source, fields, tx, rx, config);
    let off = Ctrl { m: false, pe: false, pt: false, txinv: false, te: false, re: false };
    let no_flags = Flags { or: false, fe: false, pf: false, nf: false };
    let c1 = Module { source, ..from };
    assert(after(ops, 1, from) == c1) by {
        reveal(step);
        assert(after(ops, 0, from) == from);
    }
    let c2 = Module { clocked: true, ..c1 };
    assert(after(ops, 2, from) == c2) by {
        reveal(step);
    }
    let c3 = Module { ctrl: off, ..c2 };
    assert(after(ops, 3, from) == c3) by {
        reveal(step);
    }
    let c4 = Module { baud: fields, ..c3 };
    assert(after(ops, 4, from) == c4) by {
        reveal(step);
    }
    let c5 = Module {
        status: Status { rxinv: config.invert_rx, flags: no_flags, ..c4.status },
        ..c4
    };
    assert(after(ops, 5, from) == c5) by {
        reveal(step);
    }
    let c6 = Module { status: Status { fifos: true, ..c5.status }, ..c5 };
    assert(after(ops, 6, from) == c6) by {
        reveal(step);
    }
    let c7 = Module { status: Status { water: true, ..c6.status }, ..c6 };
    assert(after(ops, 7, from) == c7) by {
        reveal(step);
    }
    let control = super::control(config, tx is Some, rx is Some);
    let last = Op::WriteCtrl(control);
    match (tx, rx) {
        (None, None) => {
            assert(ops.len() == 8 && ops[7] == last);
            assert(after(ops, 8, from) == (Module { ctrl: control, ..c7 })) by {
                reveal(step);
            }
        },
        (Some(tx_mux), None) => {
            let c8 = Module { pins: Pins { tx: Some(tx_mux), ..c7.pins }, ..c7 };
            assert(ops[7] == (Op::SetMux { line: Line::Tx, mux: tx_mux }));
            assert(after(ops, 8, from) == c8) by {
                reveal(step);
            }
            assert(ops.len() == 9 && ops[8] == last);
            assert(after(ops, 9, from) == (Module { ctrl: control, ..c8 })) by {
                reveal(step);
            }
        },
        (None, Some(rx_mux)) => {
            let c8 = Module { pins: Pins { rx: Some(rx_mux), ..c7.pins }, ..c7 };
            assert(ops[7] == (Op::SetMux { line: Line::Rx, mux: rx_mux }));
            assert(after(ops, 8, from) == c8) by {
                reveal(step);
            }
            assert(ops.len() == 9 && ops[8] == last);
            assert(after(ops, 9, from) == (Module { ctrl: control, ..c8 })) by {
                reveal(step);
            }
        },
        (Some(tx_mux), Some(rx_mux)) => {
            let c8 = Module { pins: Pins { tx: Some(tx_mux), ..c7.pins }, ..c7 };
            assert(ops[7] == (Op::SetMux { line: Line::Tx, mux: tx_mux }));
            assert(after(ops, 8, from) == c8) by {
                reveal(step);
            }
            let c9 = Module { pins: Pins { rx: Some(rx_mux), ..c8.pins }, ..c8 };
            assert(ops[8] == (Op::SetMux { line: Line::Rx, mux: rx_mux }));
            assert(after(ops, 9, from) == c9) by {
                reveal(step);
            }
            assert(ops.len() == 10 && ops[9] == last);
            assert(after(ops, 10, from) == (Module { ctrl: control, ..c9 })) by {
                reveal(step);
            }
        },
    }
}

/// A setup gives the baud rate and the frame asked for. Whatever the registers held before, the
/// divisors that they hold afterwards divide the module clock to within 3% of the baud rate, no pair
/// that the fields can hold comes closer, and none with a higher oversampling ratio comes as close;
/// a frame has 8 data bits and the parity and stop bits asked for; the lines are inverted as asked
/// for; the halves whose pins were given are on, with their pins connected; and nothing was changed
/// while a half was on.
pub proof fn law_setup_gives_the_line_settings(
    clocks: Clocks,
    tx: Option<Mux>,
    rx: Option<Mux>,
    config: Config,
    osr: u8,
    sbr: u16,
    from: Module,
)
    requires
        config.baudrate > 0,
        super::fitting_divisors(clocks.lpuart, config.baudrate, osr, sbr),
        from.in_order,
    ensures
        ({
            let ops = super::init_program(
                super::clock_source(clocks),
                super::baud(config, osr, sbr),
                tx,
                rx,
                config,
            );
            let to = after(ops, ops.len() as int, from);
            let (src, wanted) = (clocks.lpuart as int, config.baudrate as int);
            &&& to.in_order
            &&& to.source == if clocks.pllfll == 0 {
                Lpuartsrc::_11
            } else {
                Lpuartsrc::_01
            }
            &&& 4 <= to.baud.osr + 1 <= 32
            &&& 1 <= to.baud.sbr <= 0x1FFF
            &&& 100 * distance(to.rate(src), wanted) <= 3 * wanted
            &&& forall|o: int, s: int|
                4 <= o <= 32 && 1 <= s <= 0x1FFF ==> {
                    let there = distance(src / #[trigger] (o * s), wanted);
                    distance(to.rate(src), wanted) < there || distance(to.rate(src), wanted) == there
                        && o <= to.baud.osr + 1
                }
            // Below 8 samples a bit both edges of the clock are used.
            &&& to.baud.bothedge == (to.baud.osr + 1 < 8)
            &&& to.baud.sbns == (config.stop_bits == StopBits::Stop2)
            &&& to.ctrl.pe == (config.parity != Parity::ParityNone)
            &&& to.ctrl.pe ==> to.ctrl.pt == (config.parity == Parity::ParityOdd)
            &&& to.frame_bits() == 8 + if to.ctrl.pe {
                1int
            } else {
                0
            }
            &&& to.ctrl.txinv == config.invert_tx
            &&& to.status.rxinv == config.invert_rx
            &&& to.ctrl.te == (tx is Some)
            &&& to.ctrl.re == (rx is Some)
            &&& to.pins.tx == if tx is Some {
                tx
            } else {
                from.pins.tx
            }
            &&& to.pins.rx == if rx is Some {
                rx
            } else {
                from.pins.rx
            }
            &&& to.status.fifos && to.status.water
            &&& to.status.flags == (Flags { or: false, fe: false, pf: false, nf: false })
        }),
{
    let ops = super::init_program(
        super::clock_source(clocks),
        super::baud(config, osr, sbr),
        tx,
        rx,
        config,
    );
    lemma_divisors(clocks.lpuart, config.baudrate, osr, sbr);
    lemma_setup(super::clock_source(clocks), super::baud(config, osr, sbr), tx, rx, config, from);
    let to = after(ops, ops.len() as int, from);
    assert(to.baud == super::baud(config, osr, sbr));
    assert((to.baud.osr + 1) * to.baud.sbr == osr * sbr);
}

/// A baud rate is refused exactly if every pair of divisors that the fields can hold misses it by
/// more than 3%.
pub proof fn law_refused_baud_rate(src: u32, baudrate: u32)
    ensures
        super::unachievable(src, baudrate) <==> forall|o: int, s: int|
            4 <= o <= 32 && 1 <= s <= 0x1FFF ==> 100 * distance(
                src as int / #[trigger] (o * s),
                baudrate as int,
            ) > 3 * baudrate,
{
    if super::unachievable(src, baudrate) {
        assert forall|o: int, s: int| 4 <= o <= 32 && 1 <= s <= 0x1FFF implies 100 * distance(
            src as int / #[trigger] (o * s),
            baudrate as int,
        ) > 3 * baudrate by {
            assert(super::legal_divisors(o, s));
        }
    } else {
        let (o, s) = choose|o: int, s: int| #[trigger]
            super::legal_divisors(o, s) && !super::too_far_off(src as int, baudrate as int, o, s);
        assert(100 * distance(src as int / (o * s), baudrate as int) <= 3 * baudrate);
    }
}

/// The interrupt of a module is let through all the way: through the multiplexer where the module
/// sits behind it, and at the NVIC once nothing old is pending there.
pub proof fn law_interrupt_is_let_through(source: Option<u8>, from: Interrupt)
    requires
        from.in_order,
        !from.unpended,
    ensures
        ({
            let ops = super::interrupt_program(source);
            let to = routed_after(ops, ops.len() as int, from);
            &&& to.enabled
            &&& to.in_order
            &&& to.routed == match source {
                Some(input) => from.routed.insert(input),
                None => from.routed,
            }
        }),
{
    reveal_with_fuel(routed_after, 4);
}

/// The transmit FIFO holds one byte, or a power of two of them that doubles with the field.
pub proof fn law_fifo_size(txfifosize: u8)
    requires
        txfifosize <= 6,
    ensures
        super::fifo_size(0) == 1,
        super::fifo_size(1) == 4,
        2 <= txfifosize ==> super::fifo_size(txfifosize) == 2 * super::fifo_size(
            (txfifosize - 1) as u8,
        ),
{
}

/// A character is its byte exactly if it came without an error; otherwise it is its gravest error:
/// framing before parity before noise.
pub proof fn law_character(c: Character)
    ensures
        match super::character_result(c) {
            Ok(byte) => byte == c.byte && !c.fretsc && !c.paritye && !c.noisy,
            Err(Error::Framing) => c.fretsc,
            Err(Error::Parity) => c.paritye && !c.fretsc,
            Err(Error::Noise) => c.noisy && !c.fretsc && !c.paritye,
            Err(_) => false,
        },
{
}

/// The status register reports its gravest flag: overrun before framing before parity before noise.
pub proof fn law_status_error(flags: Flags)
    ensures
        match super::status_error(flags) {
            None => !flags.or && !flags.fe && !flags.pf && !flags.nf,
            Some(Error::Overrun) => flags.or,
            Some(Error::Framing) => flags.fe && !flags.or,
            Some(Error::Parity) => flags.pf && !flags.or && !flags.fe,
            Some(Error::Noise) => flags.nf && !flags.or && !flags.fe && !flags.pf,
            Some(_) => false,
        },
{
}

/// Reporting an error acknowledges it and no other: after an overrun the errors of characters are
/// still pending, after the error of a character an overrun is, and together the two leave nothing.
pub proof fn law_errors_are_acknowledged(m: Module)
    ensures
        ({
            let overrun = step(Op::ClearStat(super::overrun_flag()), m).status.flags;
            let character = step(Op::ClearStat(super::character_flags()), m).status.flags;
            let all = step(Op::ClearStat(super::all_flags()), m).status.flags;
            &&& overrun == (Flags { or: false, ..m.status.flags })
            &&& character == (Flags { or: m.status.flags.or, fe: false, pf: false, nf: false })
            &&& all == (Flags { or: false, fe: false, pf: false, nf: false })
        }),
{
    reveal(step);
}

/// The flags of `STAT` that are cleared by writing a one are bits 14 to 20, 30 and 31: the register
/// keeps everything else when flags are cleared, and of these exactly what was not selected.
pub proof fn law_clear_stat_bits(stat: u32, mask: u32, n: u32)
    requires
        n < 32,
    ensures
        ({
            let left = super::stat_after(
                stat,
                (stat & !super::STAT_W1C) | (mask & super::STAT_W1C),
            );
            let flag = 14 <= n <= 20 || n >= 30;
            left & (1u32 << n) == if flag && mask & (1u32 << n) != 0 {
                0
            } else {
                stat & (1u32 << n)
            }
        }),
{
    super::law_clear_stat(stat, mask);
    let flag = 14 <= n <= 20 || n >= 30;
    assert((stat & !(mask & 0xC01F_C000u32)) & (1u32 << n) == if (14 <= n && n <= 20 || n >= 30) && mask
        & (1u32 << n) != 0 {
        0u32
    } else {
        stat & (1u32 << n)
    }) by (bit_vector)
        requires
            n < 32,
    ;
}

// ---------------------------------------------------------------------------------------------
// Transfers
// ---------------------------------------------------------------------------------------------

/// What a read does at each event. An overrun ends it with its error and is acknowledged alone; a
/// character is taken where one is there; where none is, a read that wants whatever is there ends once
/// it has a byte, and any other waits. A character with an error ends the read, acknowledged without
/// an overrun; a good one is kept, and fills the buffer or not.
pub proof fn law_read_events(now: transfer::ReadState, event: ReadEvent)
    requires
        now.wf(),
        now.len <= usize::MAX,
    ensures
        ({
            let (next, ops) = transfer::read_advance(now, event);
            match (now.wait, event) {
                (ReadWait::Status, ReadEvent::Status { or, rxcount }) => {
                    &&& next.taken == now.taken
                    &&& next.wait == if or {
                        ReadWait::Finished(Err(Error::Overrun))
                    } else if rxcount > 0 {
                        ReadWait::Character
                    } else if now.all || now.taken.len() == 0 {
                        ReadWait::Ready
                    } else {
                        ReadWait::Finished(Ok(now.taken.len() as usize))
                    }
                    &&& ops == if or {
                        seq![Op::ClearStat(Flags { or: true, fe: false, pf: false, nf: false })]
                    } else {
                        seq![]
                    }
                },
                (ReadWait::Ready, ReadEvent::Ready) => {
                    &&& next == (transfer::ReadState { wait: ReadWait::Status, ..now })
                    &&& ops.len() == 0
                },
                (ReadWait::Character, ReadEvent::Character(c)) => if c.fretsc || c.paritye || c.noisy {
                    &&& next.taken == now.taken
                    &&& next.wait == ReadWait::Finished(
                        Err(
                            if c.fretsc {
                                Error::Framing
                            } else if c.paritye {
                                Error::Parity
                            } else {
                                Error::Noise
                            },
                        ),
                    )
                    &&& ops == seq![
                        Op::ClearStat(Flags { or: false, fe: true, pf: true, nf: true }),
                    ]
                } else {
                    &&& next.taken == now.taken.push(c.byte)
                    &&& next.wait == if now.taken.len() + 1 < now.len {
                        ReadWait::Status
                    } else {
                        ReadWait::Finished(Ok((now.taken.len() + 1) as usize))
                    }
                    &&& ops.len() == 0
                },
                _ => next == now && ops.len() == 0,
            }
        }),
{
}

/// Where a read is once good characters have come, one after the other.
pub open spec fn read_on(now: transfer::ReadState, bytes: Seq<u8>) -> transfer::ReadState
    decreases bytes.len(),
{
    if bytes.len() == 0 {
        now
    } else {
        let before = read_on(now, bytes.drop_last());
        let looked = transfer::read_advance(
            before,
            ReadEvent::Status { or: false, rxcount: 1 },
        ).0;
        transfer::read_advance(
            looked,
            ReadEvent::Character(
                Character { byte: bytes.last(), fretsc: false, paritye: false, noisy: false },
            ),
        ).0
    }
}

/// A read that is filled by good characters holds exactly those, in order, and is over exactly once
/// the buffer is full; one that takes whatever is there is over as soon as there is nothing more.
pub proof fn law_read_gets_the_line(len: usize, all: bool, bytes: Seq<u8>)
    requires
        bytes.len() <= len,
    ensures
        ({
            let to = read_on(transfer::read_initial(len as int, all), bytes);
            let idle = transfer::read_advance(to, ReadEvent::Status { or: false, rxcount: 0 }).0;
            &&& to.taken == bytes
            &&& to.wait == if bytes.len() < len {
                ReadWait::Status
            } else {
                ReadWait::Finished(Ok(len))
            }
            &&& 0 < bytes.len() < len ==> idle.wait == if all {
                ReadWait::Ready
            } else {
                ReadWait::Finished(Ok(bytes.len() as usize))
            }
            &&& bytes.len() == 0 && len > 0 ==> idle.wait == ReadWait::Ready
        }),
    decreases bytes.len(),
{
    let start = transfer::read_initial(len as int, all);
    lemma_read_on(start, len, bytes);
}

proof fn lemma_read_on(start: transfer::ReadState, len: usize, bytes: Seq<u8>)
    requires
        start == transfer::read_initial(len as int, start.all),
        bytes.len() <= len,
    ensures
        ({
            let to = read_on(start, bytes);
            &&& to.taken == bytes
            &&& to.len == len && to.all == start.all
            &&& to.wait == if bytes.len() < len {
                ReadWait::Status
            } else {
                ReadWait::Finished(Ok(len))
            }
        }),
    decreases bytes.len(),
{
    if bytes.len() > 0 {
        lemma_read_on(start, len, bytes.drop_last());
        assert(bytes.drop_last().push(bytes.last()) =~= bytes);
    } else {
        assert(start.taken =~= bytes);
    }
}

/// The bytes that accesses send.
pub open spec fn sent(ops: Seq<Op>) -> Seq<u8> {
    ops.map_values(|op: Op| op->WriteData_0)
}

/// What a write queues while its FIFO drains, over a number of events.
pub open spec fn written(now: transfer::WriteState, events: nat) -> Seq<u8>
    decreases events,
{
    if events == 0 {
        seq![]
    } else {
        let (next, ops) = transfer::write_advance(
            now,
            match now.wait {
                WriteWait::TxCount => WriteEvent::TxCount(0),
                _ => WriteEvent::Tdre,
            },
        );
        sent(ops) + written(next, (events - 1) as nat)
    }
}

proof fn lemma_written(now: transfer::WriteState) -> (events: nat)
    requires
        now.wf(),
    ensures
        written(now, events) == now.bytes.skip(now.written),
    decreases now.bytes.len() - now.written, (if now.wait == WriteWait::Tdre { 1int } else { 0 }),
{
    if now.wait == WriteWait::Finished {
        assert(now.bytes.skip(now.written) =~= Seq::<u8>::empty());
        0
    } else {
        let event = match now.wait {
            WriteWait::TxCount => WriteEvent::TxCount(0),
            _ => WriteEvent::Tdre,
        };
        let (next, ops) = transfer::write_advance(now, event);
        transfer::law_write_never_overfills(now, event);
        transfer::law_write_makes_progress(now);
        let later = lemma_written(next);
        assert(sent(ops) =~= now.bytes.subrange(now.written, next.written));
        assert(now.bytes.subrange(now.written, next.written) + now.bytes.skip(next.written)
            =~= now.bytes.skip(now.written));
        assert(written(now, later + 1) == sent(ops) + written(next, later));
        later + 1
    }
}

/// A write whose FIFO drains queues every byte given to it, once and in order.
pub proof fn law_write_puts_out_every_byte(bytes: Seq<u8>, size: int, blocking: bool)
    requires
        size >= 1,
    ensures
        exists|events: nat| #[trigger]
            written(transfer::write_initial(bytes, size, blocking), events) == bytes,
{
    let start = transfer::write_initial(bytes, size, blocking);
    let events = lemma_written(start);
    assert(bytes.skip(0) =~= bytes);
    assert(written(start, events) == bytes);
}

/// What a write does at each event: a byte is queued exactly if the FIFO has room, a full FIFO is
/// waited for, and an empty one takes as much as it holds or as there is left.
pub proof fn law_write_events(now: transfer::WriteState, event: WriteEvent)
    requires
        now.wf(),
    ensures
        ({
            let (next, ops) = transfer::write_advance(now, event);
            let left = now.bytes.len() - now.written;
            match (now.wait, event) {
                (WriteWait::TxCount, WriteEvent::TxCount(count)) => {
                    &&& next.written == now.written + if count < now.size {
                        1int
                    } else {
                        0
                    }
                    &&& count >= now.size ==> next.wait == WriteWait::Tdre
                    &&& count < now.size && left > 1 ==> next.wait == WriteWait::TxCount
                },
                (WriteWait::Tdre, WriteEvent::Tdre) => if now.blocking {
                    next.written == now.written + if left < now.size {
                        left
                    } else {
                        now.size
                    }
                } else {
                    next == (transfer::WriteState { wait: WriteWait::TxCount, ..now })
                },
                _ => next == now && ops.len() == 0,
            }
        }),
{
}

/// The DMA side of a half.
pub ghost struct Requests {
    /// `BAUD[RDMAE]`.
    pub rdmae: bool,
    /// `BAUD[TDMAE]`.
    pub tdmae: bool,
    /// The part of the buffer that the channel was started on last.
    pub part: Option<(int, int)>,
    /// The receive error flags are clear.
    pub clear: bool,
}

/// The DMA side of a half after an access.
pub open spec fn requests_step(op: Op, r: Requests) -> Requests {
    match op {
        Op::SetRdmae(rdmae) => Requests { rdmae, ..r },
        Op::SetTdmae(tdmae) => Requests { tdmae, ..r },
        Op::StartDma { offset, len } => Requests { part: Some((offset as int, len as int)), ..r },
        Op::ClearStat(flags) => Requests {
            clear: r.clear || flags == (Flags { or: true, fe: true, pf: true, nf: true }),
            ..r
        },
        _ => r,
    }
}

/// The DMA side of a half after the first `n` of some accesses.
pub open spec fn requests_after(ops: Seq<Op>, n: int, from: Requests) -> Requests
    decreases n,
{
    if n <= 0 {
        from
    } else {
        requests_step(ops[n - 1], requests_after(ops, n - 1, from))
    }
}

/// A transfer by DMA lets its half request transfers, and no other, starts the channel at the first
/// byte, and of a read clears stale errors.
pub proof fn law_dma_begins(read: bool, len: usize, from: Requests)
    requires
        len > 0,
        from == (Requests { rdmae: false, tdmae: false, part: None, clear: false }),
    ensures
        ({
            let (start, ops) = transfer::dma_initial(read, len as int);
            let to = requests_after(ops, ops.len() as int, from);
            &&& to.rdmae == read
            &&& to.tdmae == !read
            &&& to.clear == read
            &&& start.wait matches DmaWait::Chunk { offset, len: part }
            &&& offset == 0
            &&& part == if len < 32767 {
                len as int
            } else {
                32767
            }
            &&& to.part == Some((0int, part as int))
        }),
{
    reveal_with_fuel(requests_after, 4);
}

/// How a transfer by DMA goes on: a part that fails ends it with an error; the next part follows on
/// the one that went well; and at the end, well or not, nothing requests transfers any more. Of a read
/// the errors are looked at then, and one that is reported is acknowledged with all others.
pub proof fn law_dma_events(now: transfer::DmaState, event: DmaEvent, from: Requests)
    requires
        now.wf(),
        from.rdmae == now.read,
        from.tdmae == !now.read,
    ensures
        ({
            let (next, ops) = transfer::dma_advance(now, event);
            let to = requests_after(ops, ops.len() as int, from);
            match (now.wait, event) {
                (DmaWait::Chunk { len, .. }, DmaEvent::Chunk { ok }) => if !ok {
                    &&& next.wait == DmaWait::Finished(Err(Error::Dma))
                    &&& next.moved == now.moved
                    &&& !to.rdmae && !to.tdmae
                } else if now.moved + len < now.len {
                    &&& next.moved == now.moved + len
                    &&& next.wait matches DmaWait::Chunk { offset, len: part }
                    &&& offset == next.moved
                    &&& to.part == Some((offset as int, part as int))
                    &&& to.rdmae == now.read && to.tdmae == !now.read
                } else {
                    &&& next.moved == now.len
                    &&& !to.rdmae && !to.tdmae
                    &&& next.wait == if now.read {
                        DmaWait::Flags
                    } else {
                        DmaWait::Finished(Ok(()))
                    }
                },
                (DmaWait::Flags, DmaEvent::Flags(flags)) => {
                    let any = flags.or || flags.fe || flags.pf || flags.nf;
                    &&& any == !(next.wait matches DmaWait::Finished(Ok(_)))
                    &&& flags.or ==> next.wait == DmaWait::Finished(Err(Error::Overrun))
                    &&& !any ==> ops.len() == 0
                    &&& any ==> to.clear
                },
                _ => next == now && ops.len() == 0,
            }
        }),
{
    reveal_with_fuel(requests_after, 2);
}

} // verus!
