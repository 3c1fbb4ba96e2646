//! What the accesses of the power modes do to the chip.
//!
//! [`after`] is the state that accesses leave the chip in, and [`entered`] what its core enters then,
//! as the reference manual has it. The laws hold them against what was asked for.

use vstd::prelude::*;

use crate::clocks::RunMode;
use crate::clocks::Runm;
use crate::gpio::Bank;
use crate::power::LeakageMode;
use crate::power::Llsm;
use crate::power::ModeError;
use crate::power::Op;
use crate::power::Pstopo;
use crate::power::Sleep;
use crate::power::SleepMode;
use crate::power::Stopm;
use crate::power::Wake;
use crate::power::WakeEdge;
use crate::power::WakeupPin;
use crate::power::Wupe;

verus! {

/// The registers of the power modes.
pub ghost struct Chip {
    pub stop: Stop,
    /// The internal reference and the PLL are kept running in stop.
    pub kept: (bool, bool),
    pub runm: Runm,
    /// The power mode status that has been waited for since the run mode last changed.
    pub pmstat: Option<u8>,
    pub wakeup: Wakeup,
    pub interrupts: Interrupts,
    /// The core has slept, and everything was in place when it did.
    pub slept: Option<bool>,
}

/// What the core enters.
pub ghost struct Stop {
    pub stopm: Stopm,
    pub pstopo: Pstopo,
    pub llsm: Llsm,
    pub sleepdeep: bool,
    /// The stop mode was read back since it was last written.
    pub landed: bool,
}

/// The wakeup unit and its timer.
pub ghost struct Wakeup {
    /// The edges that the inputs wake on.
    pub inputs: Map<int, Wupe>,
    /// The timer wakes.
    pub timer_armed: bool,
    pub timer: Timer,
    /// The flag registers that are clear.
    pub clear: Set<u8>,
}

/// LPTMR0.
pub ghost struct Timer {
    pub clocked: bool,
    pub running: bool,
    pub interrupts: bool,
    /// It counts the 1 kHz LPO.
    pub milliseconds: bool,
    pub ticks: u16,
    /// It was set up only while it stood.
    pub in_order: bool,
}

/// The interrupts of the core, and that of the wakeup unit.
pub ghost struct Interrupts {
    pub masked: bool,
    pub unpended: bool,
    pub enabled: bool,
}

/// The chip after an access.
#[verifier::opaque]
pub open spec fn step(op: Op, c: Chip) -> Chip {
    match op {
        Op::SetRunm(runm) => Chip { runm, pmstat: None, ..c },
        Op::WaitPmstat(pmstat) => Chip { pmstat: Some(pmstat), ..c },
        Op::SetIrefsten(on) => Chip { kept: (on, c.kept.1), ..c },
        Op::SetPllsten(on) => Chip { kept: (c.kept.0, on), ..c },
        Op::SetPstopo(pstopo) => Chip { stop: Stop { pstopo, ..c.stop }, ..c },
        Op::SetLlsm(llsm) => Chip { stop: Stop { llsm, pstopo: Pstopo::_00, ..c.stop }, ..c },
        Op::SetStopm(stopm) => Chip { stop: Stop { stopm, landed: false, ..c.stop }, ..c },
        Op::ReadPmctrl => Chip { stop: Stop { landed: true, ..c.stop }, ..c },
        Op::SetSleepdeep(sleepdeep) => Chip { stop: Stop { sleepdeep, ..c.stop }, ..c },
        Op::SetWupe { register, field, wupe } => Chip {
            wakeup: Wakeup { inputs: c.wakeup.inputs.insert(4 * register + field, wupe), ..c.wakeup },
            ..c
        },
        Op::EnableTimerClock => Chip {
            wakeup: Wakeup { timer: Timer { clocked: true, ..c.wakeup.timer }, ..c.wakeup },
            ..c
        },
        Op::WriteTimerControl { tie, ten } => Chip {
            wakeup: Wakeup {
                timer: Timer {
                    running: ten,
                    interrupts: tie,
                    in_order: c.wakeup.timer.in_order && c.wakeup.timer.clocked,
                    ..c.wakeup.timer
                },
                ..c.wakeup
            },
            ..c
        },
        Op::SelectTimerClock => Chip {
            wakeup: Wakeup {
                timer: Timer {
                    milliseconds: true,
                    in_order: c.wakeup.timer.in_order && !c.wakeup.timer.running,
                    ..c.wakeup.timer
                },
                ..c.wakeup
            },
            ..c
        },
        Op::WriteTimerCompare(ticks) => Chip {
            wakeup: Wakeup {
                timer: Timer {
                    ticks,
                    in_order: c.wakeup.timer.in_order && !c.wakeup.timer.running,
                    ..c.wakeup.timer
                },
                ..c.wakeup
            },
            ..c
        },
        Op::ArmTimerWakeup => Chip { wakeup: Wakeup { timer_armed: true, ..c.wakeup }, ..c },
        Op::ClearPinFlags(register) => Chip {
            wakeup: Wakeup { clear: c.wakeup.clear.insert(register), ..c.wakeup },
            ..c
        },
        Op::DisarmPins(register) => Chip {
            wakeup: Wakeup {
                inputs: Map::new(
                    |i: int| c.wakeup.inputs.dom().contains(i) && i / 4 != register,
                    |i: int| c.wakeup.inputs[i],
                ),
                ..c.wakeup
            },
            ..c
        },
        Op::DisarmModules => Chip { wakeup: Wakeup { timer_armed: false, ..c.wakeup }, ..c },
        Op::MaskInterrupts => Chip { interrupts: Interrupts { masked: true, ..c.interrupts }, ..c },
        Op::RestoreInterrupts => Chip {
            interrupts: Interrupts { masked: false, ..c.interrupts },
            ..c
        },
        Op::UnpendWakeup => Chip { interrupts: Interrupts { unpended: true, ..c.interrupts }, ..c },
        Op::EnableWakeup => Chip { interrupts: Interrupts { enabled: true, ..c.interrupts }, ..c },
        Op::DisableWakeup => Chip { interrupts: Interrupts { enabled: false, ..c.interrupts }, ..c },
        Op::WaitForInterrupt => Chip {
            slept: Some(
                c.slept != Some(false) && c.stop.landed && c.stop.sleepdeep && c.interrupts.masked
                    && c.interrupts.unpended && c.interrupts.enabled && c.wakeup.clear.contains(0)
                    && c.wakeup.clear.contains(1) && c.wakeup.clear.contains(2)
                    && c.wakeup.clear.contains(3),
            ),
            ..c
        },
        _ => c,
    }
}

/// The chip after the first `n` of some accesses.
pub open spec fn after(ops: Seq<Op>, n: int, from: Chip) -> Chip
    decreases n,
{
    if n <= 0 {
        from
    } else {
        step(ops[n - 1], after(ops, n - 1, from))
    }
}

/// What the idle of the executor enters.
pub open spec fn entered(s: Stop) -> Option<SleepMode> {
    if !s.sleepdeep {
        Some(SleepMode::Wait)
    } else {
        match (s.stopm, s.pstopo) {
            (Stopm::_000, Pstopo::_00) => Some(SleepMode::Stop),
            (Stopm::_000, Pstopo::_01) => Some(SleepMode::PartialStop1),
            (Stopm::_000, Pstopo::_10) => Some(SleepMode::PartialStop2),
            (Stopm::_010, Pstopo::_00) => Some(SleepMode::VeryLowPowerStop),
            _ => None,
        }
    }
}

/// The low leakage mode that the core enters.
pub open spec fn leakage_entered(s: Stop) -> Option<LeakageMode> {
    match (s.stopm, s.llsm) {
        (Stopm::_011, Llsm::_011) => Some(LeakageMode::LowLeakageStop),
        (Stopm::_100, Llsm::_011) => Some(LeakageMode::Vlls3),
        (Stopm::_100, Llsm::_010) => Some(LeakageMode::Vlls2),
        (Stopm::_100, Llsm::_001) => Some(LeakageMode::Vlls1),
        (Stopm::_100, Llsm::_000) => Some(LeakageMode::Vlls0),
        _ => None,
    }
}

/// Whether an input wakes on a rising, or on a falling, edge.
pub open spec fn wakes_on(wupe: Wupe, rising: bool) -> bool {
    match wupe {
        Wupe::_01 => rising,
        Wupe::_10 => !rising,
        Wupe::_11 => true,
    }
}

proof fn lemma_prefix(a: Seq<Op>, b: Seq<Op>, n: int, from: Chip)
    requires
        0 <= n <= a.len(),
    ensures
        after(a + b, n, from) == after(a, n, from),
    decreases n,
{
    if n > 0 {
        lemma_prefix(a, b, n - 1, from);
        assert((a + b)[n - 1] == a[n - 1]);
    }
}

proof fn lemma_append(a: Seq<Op>, b: Seq<Op>, n: int, from: Chip)
    requires
        0 <= n <= b.len(),
    ensures
        after(a + b, a.len() + n, from) == after(b, n, after(a, a.len() as int, from)),
    decreases n,
{
    if n > 0 {
        lemma_append(a, b, n - 1, from);
        assert((a + b)[a.len() + n - 1] == b[n - 1]);
    } else {
        lemma_prefix(a, b, a.len() as int, from);
    }
}

/// Setting an idle sleep mode makes the idle of the executor enter exactly that mode, with its setting
/// in place before the core may sleep on it; the internal reference is kept in stop exactly if the
/// mode is one, and so is the PLL where it is used.
pub proof fn law_idle_enters_the_mode(mode: SleepMode, pll: bool, from: Chip)
    ensures
        ({
            let ops = super::sleep_program(mode, pll);
            let to = after(ops, ops.len() as int, from);
            &&& entered(to.stop) == Some(mode)
            &&& to.stop.landed
            &&& after(ops, ops.len() - 1, from).stop.landed
            &&& to.kept.0 == (mode != SleepMode::Wait)
            &&& to.kept.1 == if pll {
                mode != SleepMode::Wait
            } else {
                from.kept.1
            }
            &&& to.wakeup == from.wakeup && to.interrupts == from.interrupts && to.runm == from.runm
        }),
{
    let ops = super::sleep_program(mode, pll);
    let s = mode.setting();
    let (n, c) = if pll {
        (2int, Chip { kept: (s.sleepdeep, s.sleepdeep), ..from })
    } else {
        (1int, Chip { kept: (s.sleepdeep, from.kept.1), ..from })
    };
    assert(ops.len() == n + 4);
    assert(after(ops, n, from) == c) by {
        reveal(step);
        reveal_with_fuel(after, 3);
    }
    assert(ops[n] == Op::SetPstopo(s.pstopo) && ops[n + 1] == Op::SetStopm(s.stopm) && ops[n + 2]
        == Op::ReadPmctrl && ops[n + 3] == Op::SetSleepdeep(s.sleepdeep));
    let d = Chip {
        stop: Stop { pstopo: s.pstopo, stopm: s.stopm, landed: true, ..c.stop },
        ..c
    };
    assert(after(ops, n + 3, from) == d) by {
        reveal(step);
        reveal_with_fuel(after, 4);
    }
    assert(after(ops, n + 4, from) == (Chip {
        stop: Stop { sleepdeep: s.sleepdeep, ..d.stop },
        ..d
    })) by {
        reveal(step);
    }
}

/// Very low power run is entered, and waited for, exactly if it was asked for.
pub proof fn law_run_mode(run_mode: RunMode, from: Chip)
    ensures
        ({
            let ops = super::run_mode_program(run_mode);
            let to = after(ops, ops.len() as int, from);
            to == if run_mode == RunMode::VeryLowPower {
                Chip { runm: Runm::_10, pmstat: Some(4u8), ..from }
            } else {
                from
            }
        }),
{
    reveal(step);
    reveal_with_fuel(after, 3);
}

/// The wakeup input of a pin is that of its first entry in the table, and there is none exactly if it
/// has no entry.
pub proof fn law_wakeup_input(table: Seq<WakeupPin>, bank: Bank, pin: u8)
    ensures
        match super::input_of(table, bank, pin) {
            Some(input) => exists|i: int|
                0 <= i < table.len() && #[trigger] table[i] == (WakeupPin { bank, pin, input })
                    && forall|j: int|
                    0 <= j < i ==> (#[trigger] table[j]).bank != bank || table[j].pin != pin,
            None => forall|j: int|
                0 <= j < table.len() ==> (#[trigger] table[j]).bank != bank || table[j].pin != pin,
        },
    decreases table.len(),
{
    if table.len() > 0 {
        let rest = table.skip(1);
        if table[0].bank == bank && table[0].pin == pin {
            assert(table[0] == (WakeupPin { bank, pin, input: table[0].input }));
        } else {
            law_wakeup_input(rest, bank, pin);
            match super::input_of(table, bank, pin) {
                Some(input) => {
                    let k = choose|i: int|
                        0 <= i < rest.len() && #[trigger] rest[i] == (WakeupPin {
                            bank,
                            pin,
                            input,
                        }) && forall|j: int|
                            0 <= j < i ==> (#[trigger] rest[j]).bank != bank || rest[j].pin != pin;
                    assert(table[k + 1] == (WakeupPin { bank, pin, input }));
                    assert forall|j: int| 0 <= j < k + 1 implies (#[trigger] table[j]).bank != bank
                        || table[j].pin != pin by {
                        if j > 0 {
                            assert(rest[j - 1] == table[j]);
                        }
                    }
                },
                None => {
                    assert forall|j: int| 0 <= j < table.len() implies (#[trigger] table[j]).bank
                        != bank || table[j].pin != pin by {
                        if j > 0 {
                            assert(rest[j - 1] == table[j]);
                        }
                    }
                },
            }
        }
    }
}

/// A pin as a wake source arms its input, and no other, for exactly the edges asked for.
pub proof fn law_pin_wakes(
    table: Seq<WakeupPin>,
    bank: Bank,
    pin: u8,
    edge: WakeEdge,
    from: Chip,
)
    requires
        super::input_of(table, bank, pin) is Some,
    ensures
        ({
            let input = super::input_of(table, bank, pin)->0 as int;
            let ops = super::wake_program(table, Wake::Pin { bank, pin, edge });
            let to = after(ops, ops.len() as int, from);
            let wupe = to.wakeup.inputs[input];
            &&& to == (Chip {
                wakeup: Wakeup { inputs: from.wakeup.inputs.insert(input, wupe), ..from.wakeup },
                ..from
            })
            &&& wakes_on(wupe, true) == (edge != WakeEdge::Falling)
            &&& wakes_on(wupe, false) == (edge != WakeEdge::Rising)
        }),
{
    reveal(step);
    reveal_with_fuel(after, 2);
}

/// A timeout as a wake source sets the timer up while it stands, to as many milliseconds as asked for
/// or as near as it can count, lets it run, and arms it.
pub proof fn law_timeout_wakes(table: Seq<WakeupPin>, millis: u128, from: Chip)
    requires
        from.wakeup.timer.in_order,
    ensures
        ({
            let ops = super::wake_program(table, Wake::Timeout { millis });
            let to = after(ops, ops.len() as int, from);
            &&& to == (Chip {
                wakeup: Wakeup {
                    timer_armed: true,
                    timer: Timer {
                        clocked: true,
                        running: true,
                        interrupts: true,
                        milliseconds: true,
                        ticks: to.wakeup.timer.ticks,
                        in_order: true,
                    },
                    ..from.wakeup
                },
                ..from
            })
            &&& to.wakeup.timer.ticks == if millis == 0 {
                1
            } else if millis <= 65535 {
                millis as int
            } else {
                65535
            }
        }),
{
    let ops = super::wake_program(table, Wake::Timeout { millis });
    assert(ops.len() == 6);
    let w = from.wakeup;
    let t2 = Timer { clocked: true, running: false, interrupts: false, ..w.timer };
    let c2 = Chip { wakeup: Wakeup { timer: t2, ..w }, ..from };
    assert(after(ops, 2, from) == c2) by {
        reveal(step);
        reveal_with_fuel(after, 3);
    }
    let t4 = Timer { milliseconds: true, ticks: super::timeout_ticks(millis), ..t2 };
    let c4 = Chip { wakeup: Wakeup { timer: t4, ..w }, ..from };
    assert(after(ops, 4, from) == c4) by {
        reveal(step);
        reveal_with_fuel(after, 3);
    }
    let t6 = Timer { running: true, interrupts: true, ..t4 };
    let c6 = Chip { wakeup: Wakeup { timer: t6, timer_armed: true, ..w }, ..from };
    assert(after(ops, 6, from) == c6) by {
        reveal(step);
        reveal_with_fuel(after, 3);
    }
}

/// A wake source is refused exactly if its pin is no wakeup input, or if it is a timeout in the mode
/// in which the timer has no clock.
pub proof fn law_refused_wake_sources(table: Seq<WakeupPin>, mode: LeakageMode, source: Wake)
    ensures
        super::wake_error(table, mode, source) == match source {
            Wake::Pin { bank, pin, .. } => if exists|i: int|
                0 <= i < table.len() && (#[trigger] table[i]).bank == bank && table[i].pin == pin {
                None
            } else {
                Some(ModeError::NoWakeupInput)
            },
            Wake::Timeout { .. } => if mode == LeakageMode::Vlls0 {
                Some(ModeError::NoTimer)
            } else {
                None
            },
        },
{
    if let Wake::Pin { bank, pin, .. } = source {
        law_wakeup_input(table, bank, pin);
    }
}

/// Whether a wake source is armed.
pub open spec fn is_armed(table: Seq<WakeupPin>, source: Wake, w: Wakeup) -> bool {
    match source {
        Wake::Pin { bank, pin, .. } => super::input_of(table, bank, pin) matches Some(input)
            && w.inputs.dom().contains(input as int),
        Wake::Timeout { .. } => w.timer_armed && w.timer.running && w.timer.milliseconds,
    }
}

proof fn lemma_armed(table: Seq<WakeupPin>, mode: LeakageMode, wake: Seq<Wake>, from: Chip)
    requires
        from.wakeup.timer.in_order,
        forall|i: int|
            0 <= i < wake.len() ==> super::wake_error(table, mode, #[trigger] wake[i]) is None,
    ensures
        ({
            let ops = super::wakes_program(table, wake);
            let to = after(ops, ops.len() as int, from);
            &&& to == (Chip { wakeup: to.wakeup, ..from })
            &&& to.wakeup.timer.in_order
            &&& to.wakeup.clear == from.wakeup.clear
            &&& forall|i: int|
                0 <= i < wake.len() ==> is_armed(table, #[trigger] wake[i], to.wakeup)
        }),
    decreases wake.len(),
{
    if wake.len() > 0 {
        let before = wake.drop_last();
        let last = wake.last();
        assert(super::wake_error(table, mode, wake[wake.len() - 1]) is None);
        assert forall|i: int| 0 <= i < before.len() implies super::wake_error(
            table,
            mode,
            #[trigger] before[i],
        ) is None by {
            assert(before[i] == wake[i]);
        }
        lemma_armed(table, mode, before, from);
        let a = super::wakes_program(table, before);
        let b = super::wake_program(table, last);
        let mid = after(a, a.len() as int, from);
        lemma_append(a, b, b.len() as int, from);
        let to = after(b, b.len() as int, mid);
        match last {
            Wake::Pin { bank, pin, edge } => {
                law_pin_wakes(table, bank, pin, edge, mid);
            },
            Wake::Timeout { millis } => {
                law_timeout_wakes(table, millis, mid);
            },
        }
        assert forall|i: int| 0 <= i < wake.len() implies is_armed(
            table,
            #[trigger] wake[i],
            to.wakeup,
        ) by {
            if i < before.len() {
                assert(before[i] == wake[i]);
                assert(is_armed(table, before[i], mid.wakeup));
            }
        }
    }
}

/// The chip once it sleeps.
proof fn lemma_entering(mode: LeakageMode, a: Chip)
    requires
        a.slept is None,
    ensures
        ({
            let ops = super::enter_program(mode);
            let to = after(ops, ops.len() as int, a);
            &&& to == (Chip {
                stop: to.stop,
                wakeup: Wakeup { clear: to.wakeup.clear, ..a.wakeup },
                interrupts: to.interrupts,
                slept: Some(true),
                ..a
            })
            &&& leakage_entered(to.stop) == Some(mode)
            &&& to.stop.sleepdeep && to.stop.pstopo == Pstopo::_00
        }),
{
    let ops = super::enter_program(mode);
    assert(ops.len() == 12);
    let (stopm, llsm) = super::leakage_setting(mode);
    lemma_flags(ops, a);
    let c4 = after(ops, 4, a);
    lemma_set(ops, stopm, llsm, c4, a);
    let c11 = after(ops, 11, a);
    assert(c11.wakeup.clear.contains(0) && c11.wakeup.clear.contains(1) && c11.wakeup.clear.contains(
        2,
    ) && c11.wakeup.clear.contains(3));
    assert(after(ops, 12, a) == (Chip { slept: Some(true), ..c11 })) by {
        reveal(step);
    }
}

proof fn lemma_flags(ops: Seq<Op>, a: Chip)
    requires
        ops.len() >= 4,
        ops[0] == Op::ClearPinFlags(0),
        ops[1] == Op::ClearPinFlags(1),
        ops[2] == Op::ClearPinFlags(2),
        ops[3] == Op::ClearPinFlags(3),
    ensures
        after(ops, 4, a) == (Chip {
            wakeup: Wakeup {
                clear: a.wakeup.clear.insert(0).insert(1).insert(2).insert(3),
                ..a.wakeup
            },
            ..a
        }),
{
    let c1 = Chip { wakeup: Wakeup { clear: a.wakeup.clear.insert(0), ..a.wakeup }, ..a };
    assert(after(ops, 1, a) == c1) by {
        reveal(step);
        assert(after(ops, 0, a) == a);
    }
    let c2 = Chip { wakeup: Wakeup { clear: c1.wakeup.clear.insert(1), ..c1.wakeup }, ..c1 };
    assert(after(ops, 2, a) == c2) by {
        reveal(step);
    }
    let c3 = Chip { wakeup: Wakeup { clear: c2.wakeup.clear.insert(2), ..c2.wakeup }, ..c2 };
    assert(after(ops, 3, a) == c3) by {
        reveal(step);
    }
    let c4 = Chip { wakeup: Wakeup { clear: c3.wakeup.clear.insert(3), ..c3.wakeup }, ..c3 };
    assert(after(ops, 4, a) == c4) by {
        reveal(step);
    }
}

proof fn lemma_set(ops: Seq<Op>, stopm: Stopm, llsm: Llsm, c4: Chip, a: Chip)
    requires
        ops.len() == 12,
        ops[4] == Op::SetLlsm(llsm),
        ops[5] == Op::SetStopm(stopm),
        ops[6] == Op::ReadPmctrl,
        ops[7] == Op::SetSleepdeep(true),
        ops[8] == Op::MaskInterrupts,
        ops[9] == Op::UnpendWakeup,
        ops[10] == Op::EnableWakeup,
        after(ops, 4, a) == c4,
    ensures
        after(ops, 11, a) == (Chip {
            stop: Stop { llsm, stopm, pstopo: Pstopo::_00, sleepdeep: true, landed: true },
            interrupts: Interrupts { masked: true, unpended: true, enabled: true },
            ..c4
        }),
{
    let c5 = Chip { stop: Stop { llsm, pstopo: Pstopo::_00, ..c4.stop }, ..c4 };
    assert(after(ops, 5, a) == c5) by {
        reveal(step);
    }
    let c6 = Chip { stop: Stop { stopm, landed: false, ..c5.stop }, ..c5 };
    assert(after(ops, 6, a) == c6) by {
        reveal(step);
    }
    let c7 = Chip { stop: Stop { landed: true, ..c6.stop }, ..c6 };
    assert(after(ops, 7, a) == c7) by {
        reveal(step);
    }
    let c8 = Chip { stop: Stop { sleepdeep: true, ..c7.stop }, ..c7 };
    assert(after(ops, 8, a) == c8) by {
        reveal(step);
    }
    let c9 = Chip { interrupts: Interrupts { masked: true, ..c8.interrupts }, ..c8 };
    assert(after(ops, 9, a) == c9) by {
        reveal(step);
    }
    let c10 = Chip { interrupts: Interrupts { unpended: true, ..c9.interrupts }, ..c9 };
    assert(after(ops, 10, a) == c10) by {
        reveal(step);
    }
    let c11 = Chip { interrupts: Interrupts { enabled: true, ..c10.interrupts }, ..c10 };
    assert(after(ops, 11, a) == c11) by {
        reveal(step);
    }
}

/// A low leakage stop sleeps in the mode asked for, with every wake source armed, no stale pin flag,
/// interrupts masked and that of the wakeup unit let through, and the stop mode read back.
pub proof fn law_stop_sleeps(
    table: Seq<WakeupPin>,
    wake: Seq<Wake>,
    mode: LeakageMode,
    from: Chip,
)
    requires
        from.wakeup.timer.in_order,
        from.slept is None,
        forall|i: int|
            0 <= i < wake.len() ==> super::wake_error(table, mode, #[trigger] wake[i]) is None,
    ensures
        ({
            let ops = super::wakes_program(table, wake) + super::enter_program(mode);
            let to = after(ops, ops.len() as int, from);
            &&& to.slept == Some(true)
            &&& leakage_entered(to.stop) == Some(mode)
            &&& to.stop.sleepdeep && to.stop.pstopo == Pstopo::_00
            &&& to.wakeup.timer.in_order
            &&& forall|i: int|
                0 <= i < wake.len() ==> is_armed(table, #[trigger] wake[i], to.wakeup)
        }),
{
    let arming = super::wakes_program(table, wake);
    let entering = super::enter_program(mode);
    lemma_armed(table, mode, wake, from);
    lemma_append(arming, entering, entering.len() as int, from);
    let a = after(arming, arming.len() as int, from);
    lemma_entering(mode, a);
    let to = after(entering, entering.len() as int, a);
    assert forall|i: int| 0 <= i < wake.len() implies is_armed(table, #[trigger] wake[i], to.wakeup) by {
        assert(is_armed(table, wake[i], a.wakeup));
    }
}

/// The chip once the flags are clear and the interrupts are as they were.
proof fn lemma_cleared(ops: Seq<Op>, from: Chip)
    requires
        ops.len() >= 7,
        ops[0] == Op::ClearPinFlags(0),
        ops[1] == Op::ClearPinFlags(1),
        ops[2] == Op::ClearPinFlags(2),
        ops[3] == Op::ClearPinFlags(3),
        ops[4] == Op::DisableWakeup,
        ops[5] == Op::UnpendWakeup,
        ops[6] == Op::RestoreInterrupts,
    ensures
        after(ops, 7, from) == (Chip {
            wakeup: Wakeup {
                clear: from.wakeup.clear.insert(0).insert(1).insert(2).insert(3),
                ..from.wakeup
            },
            interrupts: Interrupts { masked: false, unpended: true, enabled: false },
            ..from
        }),
{
    lemma_flags(ops, from);
    let c4 = after(ops, 4, from);
    let c5 = Chip { interrupts: Interrupts { enabled: false, ..c4.interrupts }, ..c4 };
    assert(after(ops, 5, from) == c5) by {
        reveal(step);
    }
    let c6 = Chip { interrupts: Interrupts { unpended: true, ..c5.interrupts }, ..c5 };
    assert(after(ops, 6, from) == c6) by {
        reveal(step);
    }
    let c7 = Chip { interrupts: Interrupts { masked: false, ..c6.interrupts }, ..c6 };
    assert(after(ops, 7, from) == c7) by {
        reveal(step);
    }
}

/// The chip once an idle sleep setting is in place.
proof fn lemma_settled(ops: Seq<Op>, n: int, sleep: Sleep, c: Chip, from: Chip)
    requires
        n >= 0,
        ops[n] == Op::SetPstopo(sleep.pstopo),
        ops[n + 1] == Op::SetStopm(sleep.stopm),
        ops[n + 2] == Op::ReadPmctrl,
        ops[n + 3] == Op::SetSleepdeep(sleep.sleepdeep),
        after(ops, n, from) == c,
    ensures
        after(ops, n + 4, from) == (Chip {
            stop: Stop {
                pstopo: sleep.pstopo,
                stopm: sleep.stopm,
                landed: true,
                sleepdeep: sleep.sleepdeep,
                ..c.stop
            },
            ..c
        }),
{
    let d1 = Chip { stop: Stop { pstopo: sleep.pstopo, ..c.stop }, ..c };
    assert(after(ops, n + 1, from) == d1) by {
        reveal(step);
    }
    let d2 = Chip { stop: Stop { stopm: sleep.stopm, landed: false, ..d1.stop }, ..d1 };
    assert(after(ops, n + 2, from) == d2) by {
        reveal(step);
    }
    let d3 = Chip { stop: Stop { landed: true, ..d2.stop }, ..d2 };
    assert(after(ops, n + 3, from) == d3) by {
        reveal(step);
    }
    assert(after(ops, n + 4, from) == (Chip {
        stop: Stop { sleepdeep: sleep.sleepdeep, ..d3.stop },
        ..d3
    })) by {
        reveal(step);
    }
}

/// After a low leakage stop everything is put back: no input and no module wakes, the pin flags are
/// clear, the interrupt of the wakeup unit is off, those of the core are as they were, a timer that
/// was used stands, and the idle of the executor enters what it did before.
pub proof fn law_stop_is_undone(timeout: bool, sleep: Sleep, from: Chip)
    requires
        from.wakeup.timer.in_order,
        timeout ==> from.wakeup.timer.clocked,
        forall|i: int| #[trigger] from.wakeup.inputs.dom().contains(i) ==> 0 <= i < 32,
    ensures
        ({
            let ops = super::restore_program(timeout, sleep);
            let to = after(ops, ops.len() as int, from);
            &&& to.stop == (Stop {
                stopm: sleep.stopm,
                pstopo: sleep.pstopo,
                sleepdeep: sleep.sleepdeep,
                landed: true,
                ..from.stop
            })
            &&& forall|i: int| !(#[trigger] to.wakeup.inputs.dom().contains(i))
            &&& !to.wakeup.timer_armed
            &&& to.wakeup.timer.running == (from.wakeup.timer.running && !timeout)
            &&& to.wakeup.clear.contains(0) && to.wakeup.clear.contains(1)
                && to.wakeup.clear.contains(2) && to.wakeup.clear.contains(3)
            &&& to.interrupts == (Interrupts { masked: false, unpended: true, enabled: false })
        }),
{
    let ops = super::restore_program(timeout, sleep);
    lemma_cleared(ops, from);
    let c7 = after(ops, 7, from);
    lemma_disarmed(ops, 8, c7, from);
    let c15 = after(ops, 15, from);
    let c16 = Chip { wakeup: Wakeup { timer_armed: false, ..c15.wakeup }, ..c15 };
    assert(after(ops, 16, from) == c16) by {
        reveal(step);
    }
    let (n, c) = if timeout {
        (
            17int,
            Chip {
                wakeup: Wakeup {
                    timer: Timer { running: false, interrupts: false, ..c16.wakeup.timer },
                    ..c16.wakeup
                },
                ..c16
            },
        )
    } else {
        (16int, c16)
    };
    assert(after(ops, n, from) == c) by {
        reveal(step);
        if timeout {
            assert(ops[16] == (Op::WriteTimerControl { tie: false, ten: false }));
        }
    }
    assert(ops.len() == n + 4 && ops[n] == Op::SetPstopo(sleep.pstopo) && ops[n + 1]
        == Op::SetStopm(sleep.stopm) && ops[n + 2] == Op::ReadPmctrl && ops[n + 3]
        == Op::SetSleepdeep(sleep.sleepdeep));
    lemma_settled(ops, n, sleep, c, from);
}

proof fn lemma_disarmed(ops: Seq<Op>, n: int, at: Chip, from: Chip)
    requires
        ops.len() >= 16,
        0 <= n <= 8,
        forall|i: int| 7 <= i < 15 ==> #[trigger] ops[i] == Op::DisarmPins((i - 7) as u8),
        after(ops, 7, from) == at,
        forall|i: int| #[trigger] at.wakeup.inputs.dom().contains(i) ==> 0 <= i < 32,
    ensures
        ({
            let to = after(ops, 7 + n, from);
            &&& to == (Chip {
                wakeup: Wakeup { inputs: to.wakeup.inputs, ..at.wakeup },
                ..at
            })
            &&& forall|i: int| #[trigger] to.wakeup.inputs.dom().contains(i) ==> 4 * n <= i < 32
        }),
    decreases n,
{
    if n > 0 {
        lemma_disarmed(ops, n - 1, at, from);
        reveal(step);
        assert(ops[6 + n] == Op::DisarmPins((n - 1) as u8));
    }
}

/// The flag of an LLWU input is one bit of one register, eight to a register from bit 0 on.
pub proof fn law_input_flags(flags: [u8; 4], register: int, bit: u8)
    requires
        0 <= register < 4,
        bit < 8,
    ensures
        super::input_flag(flags, 8 * register + bit) <==> (flags@[register] >> bit) % 2 == 1,
{
    let x = flags@[register];
    assert(x & (1u8 << bit) != 0 <==> (x >> bit) % 2 == 1) by (bit_vector)
        requires
            bit < 8,
    ;
}

/// A timeout is among the wake sources exactly if one of them is a timeout.
pub proof fn law_timeouts(wake: Seq<Wake>, source: Wake)
    ensures
        !super::has_timeout(seq![]),
        super::has_timeout(wake.push(source)) <==> super::has_timeout(wake) || source is Timeout,
{
    let more = wake.push(source);
    if super::has_timeout(wake) {
        let i = choose|i: int| 0 <= i < wake.len() && #[trigger] wake[i] is Timeout;
        assert(more[i] is Timeout);
    }
    if source is Timeout {
        assert(more[wake.len() as int] is Timeout);
    }
    if super::has_timeout(more) {
        let i = choose|i: int| 0 <= i < more.len() && #[trigger] more[i] is Timeout;
        if i < wake.len() {
            assert(wake[i] is Timeout);
        }
    }
}

/// A table of wakeup pins is taken as long as its inputs are there, of which the unit has 32.
pub proof fn law_tables(table: Seq<WakeupPin>, pin: WakeupPin)
    ensures
        super::valid_table(seq![]),
        super::valid_table(table.push(pin)) <==> super::valid_table(table) && pin.input <= 31,
{
    let more = table.push(pin);
    if super::valid_table(more) {
        assert(more[table.len() as int] == pin);
        assert forall|i: int| 0 <= i < table.len() implies (#[trigger] table[i]).input < 32 by {
            assert(more[i] == table[i]);
        }
    }
}

} // verus!
