//! What the accesses of the clock setup do to the chip.
//!
//! [`after`] is the state that accesses leave the clock generator in, and [`Chip::mcgout`] the clock
//! that it makes then, as the reference manual has it. The laws hold what the setup reports against
//! that.

use vstd::prelude::*;

use crate::clocks::Clkdiv1;
use crate::clocks::Clks;
use crate::clocks::Clkst;
use crate::clocks::ClockConfig;
use crate::clocks::ExternalClock;
use crate::clocks::ExternalSource;
use crate::clocks::McgMode;
use crate::clocks::McgOp;
use crate::clocks::Op;
use crate::clocks::Pllfllsel;
use crate::clocks::RunMode;
use crate::clocks::Runm;

verus! {

/// The oscillator and the clock generator.
pub ghost struct Mcg {
    /// `C1[CLKS]`.
    pub clks: Clks,
    /// `C1[IREFS]`: the FLL is fed by the internal reference.
    pub irefs: bool,
    /// `C1[IRCLKEN]`: the internal reference is there for peripherals.
    pub irclken: bool,
    /// `C2[IRCS]`: the internal reference is the fast one.
    pub fast: bool,
    /// `C2[LP]`: the FLL and PLL are off when bypassed.
    pub low_power: bool,
    /// `C2[RANGE]`.
    pub range: u8,
    /// `C2[HGO]`.
    pub high_gain: bool,
    /// `C2[EREFS]`: the oscillator rather than a clock on the pin.
    pub crystal: bool,
    /// `C4[DRST_DRS]`.
    pub drst_drs: u8,
    /// What `C4[DRST_DRS]` was before it was last set.
    pub drst_drs_before: u8,
    /// `C5[PRDIV]`.
    pub prdiv: u8,
    /// `C5[PLLCLKEN]`.
    pub pll_running: bool,
    /// `C6[PLLS]`: the PLL rather than the FLL.
    pub plls: bool,
    /// `C6[VDIV]`.
    pub vdiv: u8,
    /// `SC[FCRDIV]`.
    pub fcrdiv: u8,
    /// The load capacitance of the oscillator in pF.
    pub load_pf: int,
    /// `OSC_CR[ERCLKEN]`.
    pub external_enabled: bool,
    /// The oscillator has been waited for since it was set up.
    pub oscillating: bool,
    /// The lock of the PLL has been waited for since it was set up.
    pub locked: bool,
    /// The clock status that has been waited for since the selection last changed.
    pub clkst: Option<Clkst>,
    /// The PLL status that has been waited for since the selection last changed.
    pub pllst: Option<bool>,
    /// No access came too early.
    pub in_time: bool,
}

impl Mcg {
    /// `MCGOUTCLK` in Hz, with an external reference of `external` Hz. The FLL multiplies the
    /// 32.768 kHz reference by 640 in its lowest range; what it makes of others does not matter
    /// here.
    pub open spec fn mcgout(self, external: int) -> int {
        match self.clks {
            Clks::_00 => if self.plls {
                external / (self.prdiv + 1) * (self.vdiv + 16) / 2
            } else {
                32_768 * 640int
            },
            Clks::_01 => if self.fast {
                4_000_000int / vstd::arithmetic::power2::pow2(self.fcrdiv as nat) as int
            } else {
                32_768
            },
            Clks::_10 => external,
        }
    }

    /// Whether the clock generator is as a reset leaves it, on the FLL in its lowest range.
    pub open spec fn reset(self) -> bool {
        &&& self.clks == Clks::_00
        &&& self.irefs
        &&& !self.plls
        &&& !self.fast
        &&& !self.low_power
        &&& self.drst_drs == 0
        &&& self.in_time
    }
}

/// The clock generator, the dividers, the run mode and the peripheral clock.
pub ghost struct Chip {
    pub mcg: Mcg,
    /// `SIM_CLKDIV1`.
    pub dividers: Clkdiv1,
    /// `PMCTRL[RUNM]`.
    pub runm: Runm,
    /// `SOPT2[PLLFLLSEL]`.
    pub pllfllsel: Pllfllsel,
    /// The power mode status that has been waited for since the run mode last changed.
    pub pmstat: Option<u8>,
    /// The power mode was waited for as it should be.
    pub mode_in_time: bool,
}

impl Chip {
    /// Whether the chip is as a reset leaves it.
    pub open spec fn reset(self) -> bool {
        &&& self.mcg.reset()
        &&& self.runm == Runm::_00
        &&& self.mode_in_time
    }
}

/// The clock generator after an access to the oscillator or the MCG.
#[verifier::opaque]
pub open spec fn mcg_step(op: McgOp, mcg: Mcg) -> Mcg {
    match op {
        McgOp::OscillatorLoad { sc2p, sc4p, sc8p, sc16p } => Mcg {
            load_pf: (if sc2p {
                2int
            } else {
                0
            }) + (if sc4p {
                4int
            } else {
                0
            }) + (if sc8p {
                8int
            } else {
                0
            }) + (if sc16p {
                16int
            } else {
                0
            }),
            external_enabled: true,
            oscillating: false,
            ..mcg
        },
        McgOp::ExternalReference => Mcg { external_enabled: true, oscillating: false, ..mcg },
        McgOp::OscillatorMode { range, hgo, erefs } => Mcg {
            range,
            high_gain: hgo,
            crystal: erefs,
            oscillating: false,
            ..mcg
        },
        McgOp::WaitOscillator => Mcg {
            oscillating: true,
            // Without the oscillator this would never end.
            in_time: mcg.in_time && mcg.crystal && mcg.external_enabled,
            ..mcg
        },
        McgOp::SetDrstDrs(drst_drs) => Mcg {
            drst_drs,
            drst_drs_before: mcg.drst_drs,
            ..mcg
        },
        McgOp::RestoreC4 => Mcg {
            drst_drs: mcg.drst_drs_before,
            // The reference of the FLL has changed by then.
            in_time: mcg.in_time && mcg.clkst == Some(Clkst::_10),
            ..mcg
        },
        McgOp::SelectExternal(clks) => Mcg {
            clks,
            irefs: false,
            clkst: None,
            // The reference runs, and the FLL range is flipped while its reference changes.
            in_time: mcg.in_time && mcg.external_enabled && (mcg.crystal ==> mcg.oscillating)
                && mcg.drst_drs == mcg.drst_drs_before ^ 1,
            ..mcg
        },
        McgOp::WaitExternal(clkst) => Mcg {
            clkst: Some(clkst),
            in_time: mcg.in_time && !mcg.irefs && mcg.clks == Clks::_10 && clkst == Clkst::_10,
            ..mcg
        },
        McgOp::SetPlls(plls) => Mcg {
            plls,
            pllst: None,
            // A PLL that is handed the multiplexer has locked, and the chip runs from the external
            // reference meanwhile.
            in_time: mcg.in_time && mcg.clkst == Some(Clkst::_10) && (plls ==> mcg.locked),
            ..mcg
        },
        McgOp::WaitPllst(pllst) => Mcg {
            pllst: Some(pllst),
            in_time: mcg.in_time && mcg.plls == pllst,
            ..mcg
        },
        McgOp::WritePrdiv(prdiv) => Mcg {
            prdiv,
            pll_running: false,
            locked: false,
            in_time: mcg.in_time && mcg.pllst == Some(false) && prdiv < 8,
            ..mcg
        },
        McgOp::SetVdiv(vdiv) => Mcg {
            vdiv,
            locked: false,
            in_time: mcg.in_time && mcg.pllst == Some(false) && !mcg.pll_running && vdiv < 32,
            ..mcg
        },
        McgOp::EnablePll => Mcg { pll_running: true, locked: false, ..mcg },
        McgOp::WaitLock => Mcg { locked: true, in_time: mcg.in_time && mcg.pll_running, ..mcg },
        McgOp::SetClks(clks) => Mcg {
            clks,
            clkst: None,
            in_time: mcg.in_time && mcg.pllst == Some(true),
            ..mcg
        },
        McgOp::WaitClkst(clkst) => Mcg {
            clkst: Some(clkst),
            in_time: mcg.in_time && mcg.clks == Clks::_00 && mcg.plls && clkst == Clkst::_11,
            ..mcg
        },
        McgOp::SetFcrdiv(fcrdiv) => Mcg {
            fcrdiv,
            // It may only change while the fast reference is not in use.
            in_time: mcg.in_time && !mcg.fast,
            ..mcg
        },
        McgOp::SelectFastIrc => Mcg { fast: true, ..mcg },
        McgOp::SelectInternal(clks) => Mcg {
            clks,
            irefs: true,
            irclken: true,
            clkst: None,
            ..mcg
        },
        McgOp::WaitInternal(clkst) => Mcg {
            clkst: Some(clkst),
            in_time: mcg.in_time && mcg.fast && mcg.clks == Clks::_01 && clkst == Clkst::_01,
            ..mcg
        },
        McgOp::SetLowPower => Mcg {
            low_power: true,
            in_time: mcg.in_time && mcg.clkst == Some(Clkst::_01),
            ..mcg
        },
    }
}

/// The clock generator after the first `n` of some accesses.
pub open spec fn mcg_after(ops: Seq<McgOp>, n: int, from: Mcg) -> Mcg
    decreases n,
{
    if n <= 0 {
        from
    } else {
        mcg_step(ops[n - 1], mcg_after(ops, n - 1, from))
    }
}

/// The chip after an access.
pub open spec fn step(op: Op, chip: Chip) -> Chip {
    match op {
        Op::SetRunm(runm) => Chip { runm, pmstat: None, ..chip },
        Op::WaitPmstat(pmstat) => Chip {
            pmstat: Some(pmstat),
            // High speed run reads as bit 7.
            mode_in_time: chip.mode_in_time && chip.runm == Runm::_11 && pmstat == 0x80,
            ..chip
        },
        Op::WriteDividers(dividers) => Chip { dividers, ..chip },
        Op::Mcg(op) => Chip { mcg: mcg_step(op, chip.mcg), ..chip },
        Op::SetPllfllsel(pllfllsel) => Chip { pllfllsel, ..chip },
    }
}

/// The chip after the first `n` of some accesses.
pub open spec fn after(ops: Seq<Op>, n: int, from: Chip) -> Chip
    decreases n,
{
    if n <= 0 {
        from
    } else {
        step(ops[n - 1], after(ops, n - 1, from))
    }
}

proof fn lemma_pow2_zero()
    ensures
        vstd::arithmetic::power2::pow2(0) == 1,
{
    vstd::arithmetic::power2::lemma2_to64();
}

/// The chip after clock accesses that were put behind others.
proof fn lemma_after_append(a: Seq<Op>, b: Seq<Op>, n: int, from: Chip)
    requires
        0 <= n <= b.len(),
    ensures
        after(a + b, a.len() + n, from) == after(b, n, after(a, a.len() as int, from)),
    decreases n,
{
    if n > 0 {
        lemma_after_append(a, b, n - 1, from);
        assert((a + b)[a.len() + n - 1] == b[n - 1]);
    } else {
        lemma_after_prefix(a, b, a.len() as int, from);
    }
}

proof fn lemma_after_prefix(a: Seq<Op>, b: Seq<Op>, n: int, from: Chip)
    requires
        0 <= n <= a.len(),
    ensures
        after(a + b, n, from) == after(a, n, from),
    decreases n,
{
    if n > 0 {
        lemma_after_prefix(a, b, n - 1, from);
        assert((a + b)[n - 1] == a[n - 1]);
    }
}

/// An oscillator or clock is running after it has been started.
proof fn lemma_oscillator(external: ExternalClock, from: Mcg)
    requires
        from.in_time,
        external.source matches ExternalSource::Crystal { load_capacitance_pf, .. }
            ==> load_capacitance_pf <= 30 && load_capacitance_pf % 2 == 0,
    ensures
        ({
            let ops = super::oscillator_program(external);
            let to = mcg_after(ops, ops.len() as int, from);
            &&& to == (Mcg {
                range: to.range,
                high_gain: to.high_gain,
                crystal: to.crystal,
                load_pf: to.load_pf,
                external_enabled: true,
                oscillating: to.oscillating,
                ..from
            })
            &&& to.range == if external.frequency <= 39_063 {
                0u8
            } else if external.frequency <= 8_000_000 {
                1u8
            } else {
                2u8
            }
            &&& match external.source {
                ExternalSource::Crystal { high_gain, load_capacitance_pf } => {
                    &&& to.crystal
                    &&& to.oscillating
                    &&& to.high_gain == high_gain
                    &&& to.load_pf == load_capacitance_pf
                },
                ExternalSource::Clock => !to.crystal,
            }
        }),
{
    let ops = super::oscillator_program(external);
    reveal(mcg_step);
    reveal_with_fuel(mcg_after, 4);
    match external.source {
        ExternalSource::Crystal { high_gain, load_capacitance_pf } => {
            super::law_load_capacitance(external.frequency, high_gain, load_capacitance_pf);
            assert(ops.len() == 3);
        },
        ExternalSource::Clock => {
            assert(ops.len() == 2);
        },
    }
}

/// A running reference is taken to the PLL.
proof fn lemma_pll(prdiv: u8, vdiv: u8, drst_drs: u8, from: Mcg)
    requires
        1 <= prdiv <= 8,
        16 <= vdiv <= 47,
        from.in_time,
        from.drst_drs == drst_drs,
        from.external_enabled,
        from.crystal ==> from.oscillating,
    ensures
        ({
            let ops = super::pll_program(prdiv, vdiv, drst_drs);
            mcg_after(ops, ops.len() as int, from) == (Mcg {
                clks: Clks::_00,
                irefs: false,
                drst_drs_before: drst_drs,
                prdiv: (prdiv - 1) as u8,
                vdiv: (vdiv - 16) as u8,
                pll_running: true,
                plls: true,
                locked: true,
                clkst: Some(Clkst::_11),
                pllst: Some(true),
                ..from
            })
        }),
{
    let ops = super::pll_program(prdiv, vdiv, drst_drs);
    assert(ops.len() == 14);
    let d = drst_drs;
    let c1 = Mcg { drst_drs: d ^ 1, drst_drs_before: d, ..from };
    assert(mcg_step(ops[0], from) == c1) by {
        reveal(mcg_step);
    }
    let c2 = Mcg { clks: Clks::_10, irefs: false, clkst: None, ..c1 };
    assert(mcg_step(ops[1], c1) == c2) by {
        reveal(mcg_step);
    }
    let c3 = Mcg { clkst: Some(Clkst::_10), ..c2 };
    assert(mcg_step(ops[2], c2) == c3) by {
        reveal(mcg_step);
    }
    let c4 = Mcg { drst_drs: d, ..c3 };
    assert(mcg_step(ops[3], c3) == c4) by {
        reveal(mcg_step);
    }
    let c5 = Mcg { plls: false, pllst: None, ..c4 };
    assert(mcg_step(ops[4], c4) == c5) by {
        reveal(mcg_step);
    }
    let c6 = Mcg { pllst: Some(false), ..c5 };
    assert(mcg_step(ops[5], c5) == c6) by {
        reveal(mcg_step);
    }
    let c7 = Mcg { prdiv: (prdiv - 1) as u8, pll_running: false, locked: false, ..c6 };
    assert(mcg_step(ops[6], c6) == c7) by {
        reveal(mcg_step);
    }
    let c8 = Mcg { vdiv: (vdiv - 16) as u8, ..c7 };
    assert(mcg_step(ops[7], c7) == c8) by {
        reveal(mcg_step);
    }
    let c9 = Mcg { pll_running: true, ..c8 };
    assert(mcg_step(ops[8], c8) == c9) by {
        reveal(mcg_step);
    }
    let c10 = Mcg { locked: true, ..c9 };
    assert(mcg_step(ops[9], c9) == c10) by {
        reveal(mcg_step);
    }
    let c11 = Mcg { plls: true, pllst: None, ..c10 };
    assert(mcg_step(ops[10], c10) == c11) by {
        reveal(mcg_step);
    }
    let c12 = Mcg { pllst: Some(true), ..c11 };
    assert(mcg_step(ops[11], c11) == c12) by {
        reveal(mcg_step);
    }
    let c13 = Mcg { clks: Clks::_00, clkst: None, ..c12 };
    assert(mcg_step(ops[12], c12) == c13) by {
        reveal(mcg_step);
    }
    let c14 = Mcg { clkst: Some(Clkst::_11), ..c13 };
    assert(mcg_step(ops[13], c13) == c14) by {
        reveal(mcg_step);
    }
    reveal_with_fuel(mcg_after, 15);
}

proof fn lemma_mcg_append(a: Seq<McgOp>, b: Seq<McgOp>, n: int, from: Mcg)
    requires
        0 <= n <= b.len(),
    ensures
        mcg_after(a + b, a.len() + n, from) == mcg_after(b, n, mcg_after(a, a.len() as int, from)),
    decreases n,
{
    if n > 0 {
        lemma_mcg_append(a, b, n - 1, from);
        assert((a + b)[a.len() + n - 1] == b[n - 1]);
    } else {
        lemma_mcg_prefix(a, b, a.len() as int, from);
    }
}

proof fn lemma_mcg_prefix(a: Seq<McgOp>, b: Seq<McgOp>, n: int, from: Mcg)
    requires
        0 <= n <= a.len(),
    ensures
        mcg_after(a + b, n, from) == mcg_after(a, n, from),
    decreases n,
{
    if n > 0 {
        lemma_mcg_prefix(a, b, n - 1, from);
        assert((a + b)[n - 1] == a[n - 1]);
    }
}

/// Accesses to the clock generator change nothing else.
proof fn lemma_mcg_alone(ops: Seq<McgOp>, n: int, from: Chip)
    requires
        0 <= n <= ops.len(),
    ensures
        after(ops.map_values(|op: McgOp| Op::Mcg(op)), n, from) == (Chip {
            mcg: mcg_after(ops, n, from.mcg),
            ..from
        }),
    decreases n,
{
    if n > 0 {
        lemma_mcg_alone(ops, n - 1, from);
    }
}

/// The part of a setup that switches the MCG: it ends in the mode asked for, whose output is the one
/// asked for, and no access comes too early.
proof fn lemma_mcg(config: ClockConfig, drst_drs: u8, from: Mcg)
    requires
        config.legal(),
        from.reset(),
        from.drst_drs == drst_drs,
    ensures
        ({
            let ops = super::mcg_program(config.mcg, drst_drs);
            let to = mcg_after(ops, ops.len() as int, from);
            &&& to.in_time
            &&& mode_is_entered(config, to)
        }),
{
    assert(!config.violates(super::ConfigError::Prdiv));
    assert(!config.violates(super::ConfigError::Vdiv));
    assert(!config.violates(super::ConfigError::DivideByZero));
    assert(!config.violates(super::ConfigError::LoadCapacitance));
    let ops = super::mcg_program(config.mcg, drst_drs);
    match config.mcg {
        McgMode::Fei => {},
        McgMode::Pee { external, prdiv, vdiv } => {
            let a = super::oscillator_program(external);
            let b = super::pll_program(prdiv, vdiv, drst_drs);
            let mid = mcg_after(a, a.len() as int, from);
            lemma_oscillator(external, from);
            lemma_pll(prdiv, vdiv, drst_drs, mid);
            lemma_mcg_append(a, b, b.len() as int, from);
        },
        McgMode::Blpi => {
            assert(ops.len() == 5);
            reveal(mcg_step);
            reveal_with_fuel(mcg_after, 6);
        },
    }
}

/// Whether the clock generator is in the mode of a configuration, settled, with its reference set up
/// as asked for.
pub open spec fn mode_is_entered(config: ClockConfig, mcg: Mcg) -> bool {
    match config.mcg {
        McgMode::Fei => {
            &&& mcg.clks == Clks::_00
            &&& mcg.irefs
            &&& !mcg.plls
            &&& mcg.drst_drs == 0
        },
        McgMode::Pee { external, prdiv, vdiv } => {
            &&& mcg.clks == Clks::_00
            &&& mcg.plls
            &&& mcg.locked
            &&& mcg.clkst == Some(Clkst::_11)
            &&& !mcg.irefs
            &&& !mcg.low_power
            &&& mcg.mcgout(external.frequency as int) == external.frequency as int / prdiv as int
                * vdiv / 2
            &&& mcg.external_enabled
            &&& mcg.range == if external.frequency <= 39_063 {
                0u8
            } else if external.frequency <= 8_000_000 {
                1u8
            } else {
                2u8
            }
            &&& match external.source {
                ExternalSource::Crystal { high_gain, load_capacitance_pf } => {
                    &&& mcg.crystal
                    &&& mcg.oscillating
                    &&& mcg.high_gain == high_gain
                    &&& mcg.load_pf == load_capacitance_pf
                },
                ExternalSource::Clock => !mcg.crystal,
            }
        },
        McgMode::Blpi => {
            &&& mcg.clks == Clks::_01
            &&& mcg.clkst == Some(Clkst::_01)
            &&& mcg.fast
            &&& mcg.fcrdiv == 0
            &&& mcg.irclken
            &&& mcg.low_power
        },
    }
}

/// The frequency of the external reference of a configuration, where it has one.
pub open spec fn external_hz(config: ClockConfig) -> int {
    match config.mcg {
        McgMode::Pee { external, .. } => external.frequency as int,
        _ => 0,
    }
}

/// What comes before the MCG is switched.
proof fn lemma_before(ops: Seq<Op>, fast: bool, rises: bool, fields: Clkdiv1, from: Chip)
    requires
        ops == (if fast {
            seq![Op::SetRunm(Runm::_11), Op::WaitPmstat(0x80)]
        } else {
            seq![]
        }) + (if rises {
            seq![Op::WriteDividers(fields)]
        } else {
            seq![]
        }),
    ensures
        ({
            after(ops, ops.len() as int, from) == (Chip {
                runm: if fast {
                    Runm::_11
                } else {
                    from.runm
                },
                pmstat: if fast {
                    Some(0x80u8)
                } else {
                    from.pmstat
                },
                dividers: if rises {
                    fields
                } else {
                    from.dividers
                },
                ..from
            })
        }),
{
    reveal_with_fuel(after, 4);
}

/// What comes after the MCG is switched.
proof fn lemma_rest(ops: Seq<Op>, falls: bool, fields: Clkdiv1, sel: Pllfllsel, from: Chip)
    requires
        ops == (if falls {
            seq![Op::WriteDividers(fields)]
        } else {
            seq![]
        }) + seq![Op::SetPllfllsel(sel)],
    ensures
        ({
            after(ops, ops.len() as int, from) == (Chip {
                dividers: if falls {
                    fields
                } else {
                    from.dividers
                },
                pllfllsel: sel,
                ..from
            })
        }),
{
    reveal_with_fuel(after, 3);
}

/// The chip after a setup.
proof fn lemma_setup(config: ClockConfig, clkst: Clkst, drst_drs: u8, from: Chip)
    requires
        config.legal(),
        from.reset(),
        from.mcg.drst_drs == drst_drs,
    ensures
        ({
            let ops = super::init_program(config, clkst, drst_drs);
            let to = after(ops, ops.len() as int, from);
            &&& to.mcg.in_time
            &&& to.mode_in_time
            &&& mode_is_entered(config, to.mcg)
            &&& to.dividers == super::divider_fields(config)
            &&& to.pllfllsel == if config.run_mode == RunMode::Run {
                Pllfllsel::_11
            } else {
                Pllfllsel::_00
            }
            &&& to.runm == if config.core_hz() > 72_000_000 {
                Runm::_11
            } else {
                Runm::_00
            }
            &&& config.core_hz() > 72_000_000 ==> to.pmstat == Some(0x80u8)
        }),
{
    let current = super::current_mcgout(clkst);
    let before = super::before_mcg(config, current);
    let mcg = super::mcg_program(config.mcg, drst_drs).map_values(|op: McgOp| Op::Mcg(op));
    let rest = super::after_mcg(config, current);
    let a = after(before, before.len() as int, from);
    let b = after(mcg, mcg.len() as int, a);
    let fields = super::divider_fields(config);
    let sel = if config.run_mode == RunMode::Run {
        Pllfllsel::_11
    } else {
        Pllfllsel::_00
    };
    lemma_before(
        before,
        config.core_hz() > 72_000_000,
        config.mcgout() >= current,
        fields,
        from,
    );
    lemma_mcg(config, drst_drs, a.mcg);
    let program = super::mcg_program(config.mcg, drst_drs);
    lemma_mcg_alone(program, program.len() as int, a);
    lemma_rest(rest, config.mcgout() < current, fields, sel, b);
    lemma_after_append(before, mcg, mcg.len() as int, from);
    lemma_after_append(before + mcg, rest, rest.len() as int, from);
}

/// The accesses of a setup make the frequencies that it reports: run on a chip out of reset they end
/// in the mode asked for, with `MCGOUTCLK` at the frequency reported, and the divider fields divide
/// that to the core, bus, flash and QuadSPI clocks reported; the peripheral clocks are those
/// selected; high speed run is on exactly for a core clock above 72 MHz; and no access comes before
/// what it needs has been waited for.
pub proof fn law_setup_makes_the_reported_clocks(
    config: ClockConfig,
    clkst: Clkst,
    drst_drs: u8,
    from: Chip,
)
    requires
        config.legal(),
        from.reset(),
        from.mcg.drst_drs == drst_drs,
    ensures
        ({
            let ops = super::init_program(config, clkst, drst_drs);
            let to = after(ops, ops.len() as int, from);
            let clocks = config.frequencies();
            &&& to.mcg.in_time
            &&& to.mode_in_time
            &&& mode_is_entered(config, to.mcg)
            &&& clocks.mcgout == to.mcg.mcgout(external_hz(config))
            &&& clocks.core == clocks.mcgout as int / (to.dividers.outdiv1 + 1)
            &&& clocks.bus == clocks.mcgout as int / (to.dividers.outdiv2 + 1)
            &&& clocks.flash == clocks.mcgout as int / (to.dividers.outdiv4 + 1)
            &&& clocks.qspi == clocks.mcgout as int / (to.dividers.outdiv5 + 1)
            &&& to.dividers.outdiv1 < 16 && to.dividers.outdiv2 < 16 && to.dividers.outdiv4 < 16
                && to.dividers.outdiv5 < 16
            &&& to.dividers.outdiv1 + 1 == config.core_div && to.dividers.outdiv2 + 1
                == config.bus_div && to.dividers.outdiv4 + 1 == config.flash_div
                && to.dividers.outdiv5 + 1 == config.qspi_div
            &&& clocks.pll == (to.mcg.clks == Clks::_00 && to.mcg.plls)
            &&& clocks.pllfll == if to.pllfllsel == Pllfllsel::_11 {
                48_000_000int
            } else {
                0
            }
            &&& clocks.lpuart == if to.pllfllsel == Pllfllsel::_11 {
                48_000_000int
            } else {
                4_000_000
            }
            &&& (to.pllfllsel == Pllfllsel::_11) == (config.run_mode == RunMode::Run)
            &&& to.runm == if clocks.core > 72_000_000 {
                Runm::_11
            } else {
                Runm::_00
            }
            &&& clocks.core > 72_000_000 ==> to.pmstat == Some(0x80u8)
        }),
{
    config.lemma_legal_computable();
    config.lemma_mcgout_range();
    config.lemma_divided_range(config.core_div);
    config.lemma_divided_range(config.bus_div);
    config.lemma_divided_range(config.flash_div);
    config.lemma_divided_range(config.qspi_div);
    assert(!config.violates(super::ConfigError::Dividers));
    assert(!config.violates(super::ConfigError::VlprMode));
    lemma_setup(config, clkst, drst_drs, from);
    lemma_pow2_zero();
}

/// The rules for a configuration, as the chip's data sheet has them: it is legal exactly if it keeps
/// all of them.
pub proof fn law_legal_configurations(config: ClockConfig)
    ensures
        config.legal() <==> {
            let mcgout = match config.mcg {
                McgMode::Fei => 32_768 * 640int,
                McgMode::Pee { external, prdiv, vdiv } => external.frequency as int / prdiv as int
                    * vdiv / 2,
                McgMode::Blpi => 4_000_000,
            };
            let (core, bus, flash) = (
                mcgout / config.core_div as int,
                mcgout / config.bus_div as int,
                mcgout / config.flash_div as int,
            );
            &&& 1 <= config.core_div <= 16 && 1 <= config.bus_div <= 16 && 1 <= config.flash_div <= 16
                && 1 <= config.qspi_div <= 16
            &&& mcgout <= 144_000_000
            &&& core <= 96_000_000
            &&& bus <= 24_000_000
            &&& flash <= bus
            &&& config.bus_div as int % config.core_div as int == 0
            &&& config.flash_div as int % config.core_div as int == 0
            &&& config.bus_div as int / config.core_div as int <= 8
            &&& config.flash_div as int / config.core_div as int <= 8
            &&& config.qspi_div == config.core_div || config.qspi_div == 2 * config.core_div
            &&& config.run_mode == RunMode::VeryLowPower ==> {
                &&& config.mcg is Blpi
                &&& core <= 4_000_000
                &&& bus <= 800_000
                &&& flash <= 800_000
            }
            &&& config.mcg matches McgMode::Pee { external, prdiv, vdiv } ==> {
                &&& 1 <= prdiv <= 8
                &&& 16 <= vdiv <= 47
                &&& 8_000_000 <= external.frequency as int / prdiv as int <= 16_000_000
                &&& external.source matches ExternalSource::Crystal { load_capacitance_pf, .. }
                    ==> load_capacitance_pf <= 30 && load_capacitance_pf % 2 == 0
            }
        },
{
    if config.legal() {
        assert(!config.violates(super::ConfigError::DivideByZero));
        assert(!config.violates(super::ConfigError::Dividers));
        assert(!config.violates(super::ConfigError::McgOutput));
        assert(!config.violates(super::ConfigError::CoreClock));
        assert(!config.violates(super::ConfigError::BusClock));
        assert(!config.violates(super::ConfigError::FlashClock));
        assert(!config.violates(super::ConfigError::NotMultiple));
        assert(!config.violates(super::ConfigError::Ratio));
        assert(!config.violates(super::ConfigError::QspiDivider));
        assert(!config.violates(super::ConfigError::VlprMode));
        assert(!config.violates(super::ConfigError::VlprClocks));
        assert(!config.violates(super::ConfigError::Prdiv));
        assert(!config.violates(super::ConfigError::Vdiv));
        assert(!config.violates(super::ConfigError::PllReference));
        assert(!config.violates(super::ConfigError::LoadCapacitance));
    }
    if let McgMode::Pee { external, prdiv, vdiv } = config.mcg {
        if prdiv >= 1 {
        let reference = external.frequency as int / prdiv as int;
        assert(reference * vdiv >= 0) by (nonlinear_arith)
            requires
                reference == external.frequency as int / prdiv as int,
                prdiv >= 1,
                vdiv >= 0,
        ;
    }
    }
    let m = config.mcgout();
    if config.core_div >= 1 && m >= 0 {
        let c = config.core_div as int;
        assert(m / (c * 2) <= m / c) by (nonlinear_arith)
            requires
                m >= 0,
                c >= 1,
        ;
    }
}

/// What the setup takes the running clock to be is what a chip out of reset makes, and the fast
/// internal reference of 4 MHz where it runs from anything else.
pub proof fn law_current_clock(mcg: Mcg, clkst: Clkst)
    requires
        mcg.reset(),
    ensures
        super::current_mcgout(clkst) == if clkst == Clkst::_00 {
            mcg.mcgout(0)
        } else {
            4_000_000
        },
{
}

/// The limits and reference clocks of the chip's data sheet.
pub proof fn law_data_sheet()
    ensures
        super::RUN_MAX_CORE_HZ == 72_000_000,
        super::HSRUN_MAX_CORE_HZ == 96_000_000,
        super::MAX_MCGOUT_HZ == 144_000_000,
        super::MAX_BUS_HZ == 24_000_000,
        super::TPM_CLOCK_HZ == super::FAST_IRC_HZ == 4_000_000,
        super::FLEXIO_CLOCK_HZ == super::FAST_IRC_HZ,
        super::SLOW_IRC_HZ == 32_768,
        super::IRC48M_HZ == 48_000_000,
{
}

/// The LPUARTs are clocked by what is reported: the source that is selected for them runs at the
/// frequency in [`Clocks::lpuart`](super::Clocks::lpuart).
pub proof fn law_lpuart_source(config: ClockConfig)
    ensures
        ({
            let clocks = config.frequencies();
            clocks.lpuart == match crate::lpuart::clock_source(clocks) {
                super::Lpuartsrc::_01 => clocks.pllfll as int,
                super::Lpuartsrc::_11 => 4_000_000,
            }
        }),
{
}

/// Which rules a configuration breaks: each is about the clock or the setting that it is named after.
pub proof fn law_rules(config: ClockConfig)
    ensures
        ({
            let mcgout = match config.mcg {
                McgMode::Fei => 20_971_520int,
                McgMode::Pee { external, prdiv, vdiv } => external.frequency as int / prdiv as int
                    * vdiv / 2,
                McgMode::Blpi => 4_000_000,
            };
            let (core_div, bus_div, flash_div, qspi_div) = (
                config.core_div as int,
                config.bus_div as int,
                config.flash_div as int,
                config.qspi_div as int,
            );
            let (core, bus, flash, qspi) = (
                mcgout / core_div,
                mcgout / bus_div,
                mcgout / flash_div,
                mcgout / qspi_div,
            );
            let slow = config.run_mode == RunMode::VeryLowPower;
            &&& config.violates(super::ConfigError::McgOutput) <==> mcgout > 144_000_000
            &&& config.violates(super::ConfigError::CoreClock) <==> core > 96_000_000
            &&& config.violates(super::ConfigError::BusClock) <==> bus > 24_000_000
            &&& config.violates(super::ConfigError::FlashClock) <==> flash > 24_000_000 || flash > bus
            &&& config.violates(super::ConfigError::QspiClock) <==> if core > 72_000_000 {
                qspi > 96_000_000
            } else {
                qspi > 72_000_000
            }
            &&& config.violates(super::ConfigError::Dividers) <==> {
                ||| core_div < 1 || core_div > 16
                ||| bus_div < 1 || bus_div > 16
                ||| flash_div < 1 || flash_div > 16
                ||| qspi_div < 1 || qspi_div > 16
            }
            &&& config.violates(super::ConfigError::NotMultiple) <==> bus_div % core_div != 0 || flash_div
                % core_div != 0
            &&& config.violates(super::ConfigError::Ratio) <==> bus_div / core_div > 8 || flash_div
                / core_div > 8
            &&& config.violates(super::ConfigError::QspiDivider) <==> qspi_div != core_div && qspi_div
                != core_div + core_div
            &&& config.violates(super::ConfigError::VlprMode) <==> slow && config.mcg !is Blpi
            &&& config.violates(super::ConfigError::VlprClocks) <==> slow && (core > 4_000_000 || bus
                > 800_000 || flash > 800_000)
            &&& config.violates(super::ConfigError::DivideByZero) <==> core_div == 0 || bus_div == 0
                || flash_div == 0 || qspi_div == 0 || (config.mcg is Pee && config.mcg->prdiv == 0)
            &&& config.violates(super::ConfigError::Prdiv) <==> config.mcg is Pee && (config.mcg->prdiv
                < 1 || config.mcg->prdiv > 8)
            &&& config.violates(super::ConfigError::Vdiv) <==> config.mcg is Pee && (config.mcg->vdiv
                < 16 || config.mcg->vdiv > 47)
        }),
{
}

/// The rules are checked in the order in which one rests on another: the dividers before what they
/// divide to, the system clocks before VLPR, and VLPR before the PLL.
pub proof fn law_order_of_rules()
    ensures
        super::ConfigError::DivideByZero.rank() < super::ConfigError::Dividers.rank()
            < super::ConfigError::McgOutput.rank() < super::ConfigError::CoreClock.rank()
            < super::ConfigError::BusClock.rank() < super::ConfigError::FlashClock.rank()
            < super::ConfigError::NotMultiple.rank() < super::ConfigError::Ratio.rank()
            < super::ConfigError::QspiDivider.rank() < super::ConfigError::QspiClock.rank()
            < super::ConfigError::VlprMode.rank() < super::ConfigError::VlprClocks.rank()
            < super::ConfigError::Prdiv.rank() < super::ConfigError::Vdiv.rank()
            < super::ConfigError::PllReference.rank() < super::ConfigError::LoadCapacitance.rank(),
{
}

} // verus!
