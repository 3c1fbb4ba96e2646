//! What the accesses of the ADC driver do to the module.
//!
//! [`after`] is the state that accesses leave the module in, as the reference manual has it. The laws
//! hold its clock, its resolution, its averaging and its gains against what was asked for.

use vstd::prelude::*;

use crate::adc::Adiv;
use crate::adc::Averaging;
use crate::adc::Avgs;
use crate::adc::Calibration;
use crate::adc::Config;
use crate::adc::ConversionMode;
use crate::adc::Op;
use crate::adc::Resolution;

verus! {

/// The registers of the module.
pub ghost struct Module {
    pub clocked: bool,
    /// The channel of the conversion that was started last, and whether its end interrupts; nothing
    /// once no input is selected.
    pub converting: Option<(u8, bool)>,
    /// `SC1B` selects an input.
    pub second: bool,
    pub settings: Settings,
    pub calibration: Calibrating,
    /// A result is kept for the driver.
    pub result: bool,
    pub interrupt: Interrupt,
    /// No register was accessed while the module was not clocked, and none while it calibrated.
    pub in_order: bool,
}

/// How the module converts.
pub ghost struct Settings {
    /// Bits of a result.
    pub bits: int,
    /// What the bus clock is divided by.
    pub divisor: int,
    /// Samples averaged for a result.
    pub samples: int,
    /// The second of two inputs that share a channel.
    pub mux_b: bool,
    /// The options of `CFG2` are off.
    pub plain: bool,
    /// Triggered by software, with the default reference.
    pub software: bool,
}

/// The calibration of the module.
pub ghost struct Calibrating {
    pub running: bool,
    /// A calibration has come to its end with 32 samples averaged, triggered by software.
    pub done: bool,
    /// `SC3[CALF]` was cleared since the last calibration ended.
    pub cleared: bool,
    pub plus: u16,
    pub minus: u16,
}

/// The interrupt at the NVIC.
pub ghost struct Interrupt {
    pub enabled: bool,
    /// Nothing from before is pending.
    pub unpended: bool,
}

/// The bits of a conversion mode.
pub open spec fn mode_bits(mode: ConversionMode) -> int {
    match mode {
        ConversionMode::_00 => 8,
        ConversionMode::_01 => 12,
        ConversionMode::_10 => 10,
        ConversionMode::_11 => 16,
    }
}

/// The bits of a resolution.
pub open spec fn resolution_bits(resolution: Resolution) -> int {
    match resolution {
        Resolution::Bits8 => 8,
        Resolution::Bits10 => 10,
        Resolution::Bits12 => 12,
        Resolution::Bits16 => 16,
    }
}

/// The samples that the module averages.
pub open spec fn averaged(avgs: Option<Avgs>) -> int {
    match avgs {
        None => 1,
        Some(Avgs::_00) => 4,
        Some(Avgs::_01) => 8,
        Some(Avgs::_10) => 16,
        Some(Avgs::_11) => 32,
    }
}

/// The samples of a setting.
pub open spec fn averaging_samples(averaging: Averaging) -> int {
    match averaging {
        Averaging::Disabled => 1,
        Averaging::Samples4 => 4,
        Averaging::Samples8 => 8,
        Averaging::Samples16 => 16,
        Averaging::Samples32 => 32,
    }
}

/// What the module divides the bus clock by.
pub open spec fn divided(adiv: Adiv) -> int {
    match adiv {
        Adiv::_00 => 1,
        Adiv::_01 => 2,
        Adiv::_10 => 4,
        Adiv::_11 => 8,
    }
}

/// The module after an access to one of its registers, which it lets through.
pub open spec fn register_step(op: Op, m: Module) -> Module {
    match op {
        Op::Deselect { n } => if n == 0 {
            Module { converting: None, ..m }
        } else {
            // There is no third such register.
            Module { second: false, in_order: m.in_order && n == 1, ..m }
        },
        Op::WriteCfg1 { mode, adiv } => Module {
            settings: Settings { bits: mode_bits(mode), divisor: divided(adiv), ..m.settings },
            ..m
        },
        Op::SetMode(mode) => Module { settings: Settings { bits: mode_bits(mode), ..m.settings }, ..m },
        Op::ResetCfg2 => Module { settings: Settings { plain: true, mux_b: false, ..m.settings }, ..m },
        Op::SetMuxsel(mux_b) => Module { settings: Settings { mux_b, ..m.settings }, ..m },
        Op::ResetSc2 => Module { settings: Settings { software: true, ..m.settings }, ..m },
        Op::ClearCalf => Module {
            settings: Settings { samples: 1, ..m.settings },
            calibration: Calibrating { cleared: true, ..m.calibration },
            ..m
        },
        Op::WriteAveraging(avgs) => Module {
            settings: Settings { samples: averaged(avgs), ..m.settings },
            ..m
        },
        Op::StartCalibration => Module {
            settings: Settings { samples: 32, ..m.settings },
            calibration: Calibrating { running: true, done: false, ..m.calibration },
            ..m
        },
        Op::WritePlusGain(plus) => Module {
            calibration: Calibrating { plus, ..m.calibration },
            ..m
        },
        Op::WriteMinusGain(minus) => Module {
            calibration: Calibrating { minus, ..m.calibration },
            ..m
        },
        Op::StartConversion { channel, aien } => Module { converting: Some((channel, aien)), ..m },
        _ => m,
    }
}

/// The module after an access.
#[verifier::opaque]
pub open spec fn step(op: Op, m: Module) -> Module {
    match op {
        Op::EnableClock => Module { clocked: true, ..m },
        Op::DisableClock => Module { clocked: false, ..m },
        Op::WaitCalibrated => Module {
            calibration: Calibrating {
                running: false,
                done: m.calibration.running && m.settings.samples == 32 && m.settings.software
                    && m.calibration.cleared && m.converting is None,
                cleared: false,
                ..m.calibration
            },
            ..m
        },
        Op::ForgetResult => Module { result: false, ..m },
        Op::UnpendInterrupt => Module {
            interrupt: Interrupt { unpended: true, ..m.interrupt },
            ..m
        },
        Op::EnableInterrupt => Module { interrupt: Interrupt { enabled: true, ..m.interrupt }, ..m },
        Op::DisableInterrupt => Module {
            interrupt: Interrupt { enabled: false, ..m.interrupt },
            ..m
        },
        _ => Module {
            in_order: m.in_order && m.clocked && !m.calibration.running,
            ..register_step(op, m)
        },
    }
}

/// The module after the first `n` of some accesses.
pub open spec fn after(ops: Seq<Op>, n: int, from: Module) -> Module
    decreases n,
{
    if n <= 0 {
        from
    } else {
        step(ops[n - 1], after(ops, n - 1, from))
    }
}

proof fn lemma_prefix(a: Seq<Op>, b: Seq<Op>, n: int, from: Module)
    requires
        0 <= n <= a.len(),
    ensures
        after(a + b, n, from) == after(a, n, from),
    decreases n,
{
    if n > 0 {
        lemma_prefix(a, b, n - 1, from);
        assert((a + b)[n - 1] == a[n - 1]);
    }
}

proof fn lemma_append(a: Seq<Op>, b: Seq<Op>, n: int, from: Module)
    requires
        0 <= n <= b.len(),
    ensures
        after(a + b, a.len() + n, from) == after(b, n, after(a, a.len() as int, from)),
    decreases n,
{
    if n > 0 {
        lemma_append(a, b, n - 1, from);
        assert((a + b)[a.len() + n - 1] == b[n - 1]);
    } else {
        lemma_prefix(a, b, a.len() as int, from);
    }
}

proof fn lemma_calibration(from: Module)
    requires
        from.in_order,
        from.clocked,
        !from.calibration.running,
        from.settings.software,
        from.converting is None,
    ensures
        ({
            let ops = super::calibration_program();
            after(ops, ops.len() as int, from) == (Module {
                settings: Settings { samples: 32, ..from.settings },
                calibration: Calibrating {
                    running: false,
                    done: true,
                    cleared: false,
                    ..from.calibration
                },
                ..from
            })
        }),
{
    let ops = super::calibration_program();
    assert(ops.len() == 3);
    let c1 = Module {
        settings: Settings { samples: 1, ..from.settings },
        calibration: Calibrating { cleared: true, ..from.calibration },
        ..from
    };
    assert(after(ops, 1, from) == c1) by {
        reveal(step);
        assert(after(ops, 0, from) == from);
    }
    let c2 = Module {
        settings: Settings { samples: 32, ..c1.settings },
        calibration: Calibrating { running: true, done: false, ..c1.calibration },
        ..c1
    };
    assert(after(ops, 2, from) == c2) by {
        reveal(step);
    }
    assert(after(ops, 3, from) == (Module {
        calibration: Calibrating { running: false, done: true, cleared: false, ..c2.calibration },
        ..c2
    })) by {
        reveal(step);
    }
}

/// A setup gives the resolution asked for, selects no input, triggers by software, and calibrates with
/// 32 samples averaged, at the fastest clock of at most 4 MHz that the bus clock can be divided to,
/// leaving the module alone meanwhile.
pub proof fn law_setup_calibrates(ops: Seq<Op>, bus_hz: u32, config: Config, from: Module)
    requires
        super::sets_up(ops, bus_hz, config),
        from.in_order,
        !from.calibration.running,
    ensures
        ({
            let to = after(ops, ops.len() as int, from);
            &&& to.in_order
            &&& to.clocked
            &&& to.converting is None && !to.second
            &&& to.settings.bits == resolution_bits(config.resolution)
            &&& to.settings.software && to.settings.plain && !to.settings.mux_b
            &&& to.calibration.done
            &&& bus_hz <= 4_000_000 * to.settings.divisor
            &&& to.settings.divisor == 1 || to.settings.divisor == 2 || to.settings.divisor == 4
                || to.settings.divisor == 8
            &&& to.settings.divisor > 1 ==> bus_hz > 4_000_000 * (to.settings.divisor / 2)
        }),
{
    let adiv = choose|adiv: Adiv|
        {
            &&& super::slow_enough(bus_hz as int, adiv)
            &&& forall|d: Adiv| #[trigger]
                super::slow_enough(bus_hz as int, d) ==> adiv.divisor() <= d.divisor()
            &&& ops == #[trigger] super::init_program(adiv, config.resolution)
                + super::calibration_program()
        };
    let init = super::init_program(adiv, config.resolution);
    let cal = super::calibration_program();
    assert(init.len() == 6);
    let c1 = Module { clocked: true, ..from };
    assert(after(init, 1, from) == c1) by {
        reveal(step);
        assert(after(init, 0, from) == from);
    }
    let c2 = Module { converting: None, ..c1 };
    assert(after(init, 2, from) == c2) by {
        reveal(step);
    }
    let c3 = Module { second: false, ..c2 };
    assert(after(init, 3, from) == c3) by {
        reveal(step);
    }
    let c4 = Module {
        settings: Settings {
            bits: resolution_bits(config.resolution),
            divisor: divided(adiv),
            ..c3.settings
        },
        ..c3
    };
    assert(after(init, 4, from) == c4) by {
        reveal(step);
    }
    let c5 = Module { settings: Settings { plain: true, mux_b: false, ..c4.settings }, ..c4 };
    assert(after(init, 5, from) == c5) by {
        reveal(step);
    }
    let c6 = Module { settings: Settings { software: true, ..c5.settings }, ..c5 };
    assert(after(init, 6, from) == c6) by {
        reveal(step);
    }
    lemma_calibration(c6);
    lemma_append(init, cal, cal.len() as int, from);
    assert(super::slow_enough(bus_hz as int, Adiv::_00) ==> adiv.divisor() <= 1);
    assert(super::slow_enough(bus_hz as int, Adiv::_01) ==> adiv.divisor() <= 2);
    assert(super::slow_enough(bus_hz as int, Adiv::_10) ==> adiv.divisor() <= 4);
    assert(divided(adiv) == adiv.divisor());
}

/// Half the sum of the results of a side, as far as 15 bits hold it, with the most significant bit
/// set.
pub open spec fn is_gain(gain: u16, c: Calibration) -> bool {
    &&& gain >= 0x8000
    &&& gain as int % 0x8000 == (c.cl0 + c.cl1 + c.cl2 + c.cl3 + c.cl4 + c.cls) / 2 % 0x8000
}

proof fn lemma_gain(c: Calibration)
    ensures
        is_gain(c.gain(), c),
{
    let half = (c.sum() / 2) as u32;
    assert(half == c.sum() / 2);
    let low = half as u16;
    assert(low == (c.sum() / 2) as u16);
    assert((half as u16 | 0x8000u16) >= 0x8000 && (half as u16 | 0x8000u16) % 0x8000 == half % 0x8000)
        by (bit_vector);
}

/// A calibration that succeeded sets the gain of each side from the results of that side, one that
/// failed leaves them; either way the averaging is as it was set before.
pub proof fn law_calibration_sets_the_gains(
    failed: bool,
    plus: Calibration,
    minus: Calibration,
    averaging: Averaging,
    from: Module,
)
    requires
        from.in_order,
        from.clocked,
        !from.calibration.running,
    ensures
        ({
            let ops = super::calibrated_program(failed, plus, minus, averaging);
            let to = after(ops, ops.len() as int, from);
            &&& to.in_order
            &&& to.settings == (Settings {
                samples: averaging_samples(averaging),
                ..from.settings
            })
            &&& failed ==> to.calibration.cleared && to.calibration.plus == from.calibration.plus
                && to.calibration.minus == from.calibration.minus
            &&& !failed ==> is_gain(to.calibration.plus, plus) && is_gain(
                to.calibration.minus,
                minus,
            )
            &&& ops.contains(Op::ReadResult)
            &&& to.clocked
        }),
{
    let ops = super::calibrated_program(failed, plus, minus, averaging);
    lemma_gain(plus);
    lemma_gain(minus);
    assert(ops[0] == Op::ReadResult);
    if failed {
        assert(ops.len() == 3);
    } else {
        assert(ops.len() == 4);
    }
    reveal(step);
    reveal_with_fuel(after, 5);
}

/// A conversion is of the channel and input asked for, and interrupts at its end if asked for;
/// stopping it selects no input and forgets its result and its interrupt.
pub proof fn law_conversions(channel: u8, mux_b: bool, interrupt: bool, from: Module)
    requires
        from.in_order,
        from.clocked,
        !from.calibration.running,
    ensures
        ({
            let ops = super::conversion_program(channel, mux_b, interrupt);
            let to = after(ops, ops.len() as int, from);
            let stop = super::stop_program();
            let stopped = after(stop, stop.len() as int, from);
            &&& to == (Module {
                converting: Some((channel, interrupt)),
                settings: Settings { mux_b, ..from.settings },
                ..from
            })
            // The input is selected before the conversion starts.
            &&& after(ops, 1, from).converting == from.converting
            &&& stopped == (Module {
                converting: None,
                result: false,
                interrupt: Interrupt { unpended: true, ..from.interrupt },
                ..from
            })
        }),
{
    reveal(step);
    reveal_with_fuel(after, 4);
}

/// Changing the resolution or the averaging changes that alone, to what was asked for.
pub proof fn law_settings(resolution: Resolution, averaging: Averaging, from: Module)
    requires
        from.in_order,
        from.clocked,
        !from.calibration.running,
    ensures
        step(Op::SetMode(super::mode_of(resolution)), from) == (Module {
            settings: Settings { bits: resolution_bits(resolution), ..from.settings },
            ..from
        }),
        step(Op::WriteAveraging(super::average_of(averaging)), from) == (Module {
            settings: Settings { samples: averaging_samples(averaging), ..from.settings },
            ..from
        }),
{
    reveal(step);
}

/// A driver that ends leaves nothing running: no input is selected, no result is kept, and the clock
/// of the module is off once nothing needs it any more.
pub proof fn law_shutdown(from: Module)
    requires
        from.in_order,
        from.clocked,
        !from.calibration.running,
    ensures
        ({
            let ops = super::deinit_program();
            let to = after(ops, ops.len() as int, from);
            &&& to.in_order
            &&& !to.clocked
            &&& to.converting is None && !to.second && !to.result
            &&& to.settings.software && to.settings.samples == 1
            &&& to.calibration.cleared
        }),
{
    let ops = super::deinit_program();
    assert(ops.len() == 6);
    let c3 = Module {
        converting: None,
        second: false,
        settings: Settings { software: true, ..from.settings },
        ..from
    };
    assert(after(ops, 3, from) == c3) by {
        reveal(step);
        reveal_with_fuel(after, 4);
    }
    let c4 = Module {
        settings: Settings { samples: 1, ..c3.settings },
        calibration: Calibrating { cleared: true, ..c3.calibration },
        ..c3
    };
    assert(after(ops, 4, from) == c4) by {
        reveal(step);
    }
    assert(after(ops, 6, from) == (Module { result: false, clocked: false, ..c4 })) by {
        reveal(step);
        reveal_with_fuel(after, 3);
    }
}

} // verus!
