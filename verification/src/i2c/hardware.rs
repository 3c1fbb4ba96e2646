//! What the accesses of the I2C setup do to the module.
//!
//! [`after`] is the state that the accesses leave the module in, and [`rate`] the clock that it makes
//! then, as the reference manual has it. The laws hold them against what was asked for.

use vstd::arithmetic::power2::pow2;
use vstd::prelude::*;

use crate::gpio::Mux;
use crate::i2c::Config;
use crate::i2c::Line;
use crate::i2c::Mult;
use crate::i2c::Op;

verus! {

/// The registers of the module, and of its pins.
pub ghost struct Module {
    pub clocked: bool,
    /// `C1` holds `IICEN` alone.
    pub enabled: bool,
    /// `C1` is zero.
    pub off: bool,
    /// `F[MULT]` and `F[ICR]`.
    pub divider: (Mult, u8),
    pub others: Others,
    /// What a pin is connected to, and whether it is pulled up.
    pub scl: (Mux, bool),
    pub sda: (Mux, bool),
    /// No access came while the module was not clocked, and the divider changed only while it was
    /// off.
    pub in_order: bool,
}

/// The registers that are at rest.
pub ghost struct Others {
    pub a1: bool,
    pub c2: bool,
    pub ra: bool,
    /// The start and stop detect flags are clear, and there is no glitch filter.
    pub flt: bool,
    /// `S`, whose flags clear where a one is written.
    pub status: u8,
}

/// The way of the interrupt to the processor.
pub ghost struct Interrupt {
    /// Inputs of the interrupt multiplexer that are let through.
    pub routed: Set<u8>,
    /// Nothing from before is pending at the NVIC.
    pub unpended: bool,
    pub enabled: bool,
    /// Nothing from before was pending when the interrupt was enabled.
    pub in_order: bool,
}

/// The SCL divider that the module makes of `F[ICR]`: a start for each of its upper three bits, and
/// from there the taps of the lower three bits, in steps that double with the upper ones.
pub open spec fn scl_divider(icr: int) -> int {
    let row = icr / 8;
    let column = icr % 8;
    let start = if row == 0 {
        20
    } else if row == 1 {
        28
    } else if row == 2 {
        48
    } else {
        10 * pow2(row as nat) as int
    };
    let tap = if column <= 5 {
        column
    } else if column == 6 {
        7
    } else {
        10
    };
    start + tap * pow2((row + 1) as nat)
}

/// What the module multiplies that by.
pub open spec fn multiplied(mult: Mult) -> int {
    match mult {
        Mult::_00 => 1,
        Mult::_01 => 2,
        Mult::_10 => 4,
    }
}

/// The SCL rate of the fields of `F` from a bus clock of `bus_hz`.
pub open spec fn rate(bus_hz: int, mult: Mult, icr: int) -> int {
    bus_hz / (multiplied(mult) * scl_divider(icr))
}

/// How far two rates are apart.
pub open spec fn distance(a: int, b: int) -> int {
    if a >= b {
        a - b
    } else {
        b - a
    }
}

/// The module after an access.
#[verifier::opaque]
pub open spec fn step(op: Op, m: Module) -> Module {
    match op {
        Op::EnableClock => Module { clocked: true, ..m },
        Op::ResetA1 => Module {
            others: Others { a1: true, ..m.others },
            in_order: m.in_order && m.clocked,
            ..m
        },
        Op::ResetF => Module { divider: (Mult::_00, 0), in_order: m.in_order && m.clocked, ..m },
        Op::ResetC1 => Module {
            off: true,
            enabled: false,
            in_order: m.in_order && m.clocked,
            ..m
        },
        Op::WriteS(ones) => Module {
            others: Others { status: m.others.status & !ones, ..m.others },
            in_order: m.in_order && m.clocked,
            ..m
        },
        Op::ResetC2 => Module {
            others: Others { c2: true, ..m.others },
            in_order: m.in_order && m.clocked,
            ..m
        },
        Op::ResetFlt => Module {
            others: Others { flt: true, ..m.others },
            in_order: m.in_order && m.clocked,
            ..m
        },
        Op::ResetRa => Module {
            others: Others { ra: true, ..m.others },
            in_order: m.in_order && m.clocked,
            ..m
        },
        Op::WriteF { mult, icr } => Module {
            divider: (mult, icr),
            in_order: m.in_order && m.clocked && m.off,
            ..m
        },
        Op::ConfigurePin { line, mux, pe } => match line {
            Line::Scl => Module { scl: (mux, pe), ..m },
            Line::Sda => Module { sda: (mux, pe), ..m },
        },
        Op::EnableModule => Module {
            enabled: true,
            off: false,
            in_order: m.in_order && m.clocked,
            ..m
        },
        _ => m,
    }
}

/// The module after the first `n` of some accesses.
pub open spec fn after(ops: Seq<Op>, n: int, from: Module) -> Module
    decreases n,
{
    if n <= 0 {
        from
    } else {
        step(ops[n - 1], after(ops, n - 1, from))
    }
}

/// The way of the interrupt after an access.
pub open spec fn route(op: Op, i: Interrupt) -> Interrupt {
    match op {
        Op::EnableSource(input) => Interrupt { routed: i.routed.insert(input), ..i },
        Op::UnpendInterrupt => Interrupt { unpended: true, ..i },
        Op::EnableInterrupt => Interrupt {
            enabled: true,
            in_order: i.in_order && i.unpended,
            ..i
        },
        _ => i,
    }
}

/// The way of the interrupt after the first `n` of some accesses.
pub open spec fn routed_after(ops: Seq<Op>, n: int, from: Interrupt) -> Interrupt
    decreases n,
{
    if n <= 0 {
        from
    } else {
        route(ops[n - 1], routed_after(ops, n - 1, from))
    }
}

proof fn lemma_scl_divider(icr: int)
    requires
        0 <= icr < 64,
    ensures
        super::DIVIDERS@[icr] == scl_divider(icr),
{
    let d = super::DIVIDERS@;
    assert(d[0] == 20 && d[1] == 22 && d[2] == 24 && d[3] == 26 && d[4] == 28 && d[5] == 30);
    assert(d[6] == 34 && d[7] == 40 && d[8] == 28 && d[9] == 32 && d[10] == 36 && d[11] == 40);
    assert(d[12] == 44 && d[13] == 48 && d[14] == 56 && d[15] == 68 && d[16] == 48);
    assert(d[17] == 56 && d[18] == 64 && d[19] == 72 && d[20] == 80 && d[21] == 88);
    assert(d[22] == 104 && d[23] == 128 && d[24] == 80 && d[25] == 96 && d[26] == 112);
    assert(d[27] == 128 && d[28] == 144 && d[29] == 160 && d[30] == 192 && d[31] == 240);
    assert(d[32] == 160 && d[33] == 192 && d[34] == 224 && d[35] == 256 && d[36] == 288);
    assert(d[37] == 320 && d[38] == 384 && d[39] == 480 && d[40] == 320 && d[41] == 384);
    assert(d[42] == 448 && d[43] == 512 && d[44] == 576 && d[45] == 640 && d[46] == 768);
    assert(d[47] == 960 && d[48] == 640 && d[49] == 768 && d[50] == 896 && d[51] == 1024);
    assert(d[52] == 1152 && d[53] == 1280 && d[54] == 1536 && d[55] == 1920 && d[56] == 1280);
    assert(d[57] == 1536 && d[58] == 1792 && d[59] == 2048 && d[60] == 2304 && d[61] == 2560);
    assert(d[62] == 3072 && d[63] == 3840);
    let row = icr / 8;
    let column = icr % 8;
    assert(icr == 8 * row + column);
    vstd::arithmetic::power2::lemma2_to64();
    let p = pow2((row + 1) as nat);
    let tap = if column <= 5 {
        column
    } else if column == 6 {
        7
    } else {
        10
    };
    if row == 0 {
        assert(p == 2);
        assert(tap * p == tap * 2);
    } else if row == 1 {
        assert(p == 4);
        assert(tap * p == tap * 4);
    } else if row == 2 {
        assert(p == 8);
        assert(tap * p == tap * 8);
    } else if row == 3 {
        assert(p == 16);
        assert(tap * p == tap * 16);
    } else if row == 4 {
        assert(p == 32);
        assert(tap * p == tap * 32);
    } else if row == 5 {
        assert(p == 64);
        assert(tap * p == tap * 64);
    } else if row == 6 {
        assert(p == 128);
        assert(tap * p == tap * 128);
    } else {
        assert(p == 256);
        assert(tap * p == tap * 256);
    }
}

proof fn lemma_rate(bus_hz: int, mult: Mult, icr: int)
    requires
        0 <= icr < 64,
    ensures
        super::scl_rate(bus_hz, mult.bits(), icr) == rate(bus_hz, mult, icr),
{
    lemma_scl_divider(icr);
}

/// A setup gives the clock asked for. Whatever the registers held before, the divider afterwards makes
/// an SCL rate such that no other setting comes closer to the one asked for, and none that comes as
/// close has a smaller multiplier or an earlier divider with the same; both pins are connected,
/// and pulled up if that was asked for; no old flag is set; and the module is enabled, having been off
/// while its divider changed.
pub proof fn law_setup_gives_the_clock(
    ops: Seq<Op>,
    bus_hz: u32,
    scl: Mux,
    sda: Mux,
    config: Config,
    from: Module,
)
    requires
        super::sets_up(ops, bus_hz, scl, sda, config),
        from.in_order,
    ensures
        ({
            let to = after(ops, ops.len() as int, from);
            let (mult, icr) = to.divider;
            let here = distance(rate(bus_hz as int, mult, icr as int), config.frequency as int);
            &&& to.in_order
            &&& to.clocked && to.enabled
            &&& icr < 64
            &&& forall|m: Mult, i: int|
                0 <= i < 64 ==> {
                    let there = distance(#[trigger] rate(bus_hz as int, m, i), config.frequency as int);
                    here < there || here == there && (multiplied(mult) < multiplied(m) || mult == m && icr
                        <= i)
                }
            &&& to.scl == (scl, config.internal_pullup)
            &&& to.sda == (sda, config.internal_pullup)
            &&& to.others == (Others { a1: true, c2: true, ra: true, flt: true, status: 0 })
        }),
{
    let (mult, icr) = choose|mult: Mult, icr: u8|
        super::closest_scl(bus_hz as int, config.frequency as int, mult.bits(), icr as int) && ops
            == #[trigger] super::init_program(mult, icr, scl, sda, config.internal_pullup);
    lemma_setup(mult, icr, scl, sda, config.internal_pullup, from);
    lemma_rate(bus_hz as int, mult, icr as int);
    let f = config.frequency as int;
    assert(distance(rate(bus_hz as int, mult, icr as int), f) == super::scl_error(
        bus_hz as int,
        f,
        mult.bits(),
        icr as int,
    ));
    let here = distance(rate(bus_hz as int, mult, icr as int), f);
    assert forall|m: Mult, i: int| 0 <= i < 64 implies {
        let there = distance(#[trigger] rate(bus_hz as int, m, i), f);
        here < there || here == there && (multiplied(mult) < multiplied(m) || mult == m && icr <= i)
    } by {
        lemma_rate(bus_hz as int, m, i);
        assert(distance(rate(bus_hz as int, m, i), f) == super::scl_error(
            bus_hz as int,
            f,
            m.bits(),
            i,
        ));
    }
}

proof fn lemma_setup(mult: Mult, icr: u8, scl: Mux, sda: Mux, pullup: bool, from: Module)
    requires
        from.in_order,
    ensures
        ({
            let ops = super::init_program(mult, icr, scl, sda, pullup);
            after(ops, ops.len() as int, from) == (Module {
                clocked: true,
                enabled: true,
                off: false,
                divider: (mult, icr),
                others: Others { a1: true, c2: true, ra: true, flt: true, status: 0 },
                scl: (scl, pullup),
                sda: (sda, pullup),
                in_order: true,
            })
        }),
{
    let ops = super::init_program(mult, icr, scl, sda, pullup);
    assert(ops.len() == 12);
    let c1 = Module { clocked: true, ..from };
    assert(after(ops, 1, from) == c1) by {
        reveal(step);
        assert(after(ops, 0, from) == from);
    }
    let c2 = Module { others: Others { a1: true, ..c1.others }, ..c1 };
    assert(after(ops, 2, from) == c2) by {
        reveal(step);
    }
    let c3 = Module { divider: (Mult::_00, 0), ..c2 };
    assert(after(ops, 3, from) == c3) by {
        reveal(step);
    }
    let c4 = Module { off: true, enabled: false, ..c3 };
    assert(after(ops, 4, from) == c4) by {
        reveal(step);
    }
    let c5 = Module { others: Others { status: 0, ..c4.others }, ..c4 };
    assert(after(ops, 5, from) == c5) by {
        reveal(step);
        let flags = c4.others.status;
        assert(flags & !0xFFu8 == 0) by (bit_vector);
    }
    let c6 = Module { others: Others { c2: true, ..c5.others }, ..c5 };
    assert(after(ops, 6, from) == c6) by {
        reveal(step);
    }
    let c7 = Module { others: Others { flt: true, ..c6.others }, ..c6 };
    assert(after(ops, 7, from) == c7) by {
        reveal(step);
    }
    let c8 = Module { others: Others { ra: true, ..c7.others }, ..c7 };
    assert(after(ops, 8, from) == c8) by {
        reveal(step);
    }
    let c9 = Module { divider: (mult, icr), ..c8 };
    assert(after(ops, 9, from) == c9) by {
        reveal(step);
    }
    let c10 = Module { scl: (scl, pullup), ..c9 };
    assert(after(ops, 10, from) == c10) by {
        reveal(step);
    }
    let c11 = Module { sda: (sda, pullup), ..c10 };
    assert(after(ops, 11, from) == c11) by {
        reveal(step);
    }
    assert(after(ops, 12, from) == (Module { enabled: true, off: false, ..c11 })) by {
        reveal(step);
    }
}

/// The interrupt of a module is let through all the way: through the multiplexer where the module
/// sits behind it, and at the NVIC once nothing old is pending there.
pub proof fn law_interrupt_is_let_through(source: Option<u8>, from: Interrupt)
    requires
        from.in_order,
        !from.unpended,
    ensures
        ({
            let ops = super::interrupt_program(source);
            let to = routed_after(ops, ops.len() as int, from);
            &&& to.enabled
            &&& to.in_order
            &&& to.routed == match source {
                Some(input) => from.routed.insert(input),
                None => from.routed,
            }
        }),
{
    reveal_with_fuel(routed_after, 4);
}

} // verus!
