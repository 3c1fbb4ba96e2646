//! What the accesses of the watchdog driver do to the watchdog.
//!
//! [`after`] is the state that accesses leave the watchdog in, as the reference manual has it: its
//! registers take a write only once they are unlocked. The laws hold it against what was asked for.

use vstd::prelude::*;

use crate::wdog::Config;
use crate::wdog::Op;
use crate::wdog::Stctrlh;

verus! {

/// The watchdog.
pub ghost struct Dog {
    pub lock: Lock,
    /// Ticks until it bites.
    pub timeout: int,
    /// The window and the prescaler are zero.
    pub plain: (bool, bool),
    pub control: Stctrlh,
    pub settling: Settling,
    /// Every register was written while it was unlocked.
    pub in_order: bool,
}

/// The lock of the registers.
pub ghost struct Lock {
    /// How much of the unlock sequence was written: 2 is all of it.
    pub keys: int,
    /// A bus access was made since.
    pub accessed: bool,
}

/// What was waited since the registers were last written.
pub ghost struct Settling {
    pub bus_cycles: int,
    pub core_cycles: int,
}

impl Dog {
    /// Whether the registers take a write.
    pub open spec fn open(self) -> bool {
        self.lock.keys == 2 && self.lock.accessed
    }
}

/// The watchdog after an access.
#[verifier::opaque]
pub open spec fn step(op: Op, d: Dog) -> Dog {
    match op {
        Op::Unlock(key) => Dog {
            lock: Lock {
                keys: if key == 0xc520 {
                    1
                } else if key == 0xd928 && d.lock.keys == 1 {
                    2
                } else {
                    0
                },
                accessed: false,
            },
            ..d
        },
        Op::BusAccess => Dog { lock: Lock { accessed: true, ..d.lock }, ..d },
        Op::WriteTimeout { high, low } => Dog {
            timeout: high * 65536 + low,
            settling: Settling { bus_cycles: 0, core_cycles: 0 },
            in_order: d.in_order && d.open(),
            ..d
        },
        Op::ResetWindow => Dog { plain: (true, d.plain.1), in_order: d.in_order && d.open(), ..d },
        Op::ResetPrescaler => Dog { plain: (d.plain.0, true), in_order: d.in_order && d.open(), ..d },
        Op::WriteControl(control) => Dog {
            control,
            settling: Settling { bus_cycles: 0, core_cycles: 0 },
            in_order: d.in_order && d.open(),
            ..d
        },
        Op::WaitBusCycles(n) => Dog {
            // The registers lock again 256 bus cycles after they were unlocked.
            lock: Lock {
                keys: if n >= 256 {
                    0
                } else {
                    d.lock.keys
                },
                ..d.lock
            },
            settling: Settling { bus_cycles: d.settling.bus_cycles + n, ..d.settling },
            ..d
        },
        Op::Delay(n) => Dog {
            settling: Settling { core_cycles: d.settling.core_cycles + n, ..d.settling },
            ..d
        },
        Op::Refresh(_) => d,
    }
}

/// The watchdog after the first `n` of some accesses.
pub open spec fn after(ops: Seq<Op>, n: int, from: Dog) -> Dog
    decreases n,
{
    if n <= 0 {
        from
    } else {
        step(ops[n - 1], after(ops, n - 1, from))
    }
}

/// An update gives the policy asked for. Whatever the watchdog held before, it then bites after as many
/// ticks of the LPO as asked for, with no window and no prescaler, counts in wait, in stop and under a
/// debugger as asked for, and is enabled and open to later updates as asked for; its registers were
/// unlocked while they were written and are locked again, and eight of the longest LPO periods, and no
/// more than a cycle longer, were waited.
pub proof fn law_update_gives_the_policy(
    config: Config,
    enabled: bool,
    updates: bool,
    core_hz: u32,
    from: Dog,
)
    requires
        from.in_order,
    ensures
        ({
            let ops = super::update_program(config, enabled, updates, core_hz);
            let to = after(ops, ops.len() as int, from);
            &&& to.in_order
            &&& !to.open()
            &&& to.timeout == config.timeout_ticks
            &&& to.plain == (true, true)
            &&& to.control.is_wdogen() == enabled
            &&& to.control.is_allowupdate() == updates
            &&& to.control.is_waiten() == config.run_in_wait
            &&& to.control.is_stopen() == config.run_in_stop
            &&& to.control.is_dbgen() == config.run_in_debug
            &&& to.control.is_distestwdog() && to.control.is_reserved()
            &&& !to.control.is_clksrc() && !to.control.is_irqrsten() && !to.control.is_winen()
                && !to.control.is_testwdog()
            &&& to.settling.bus_cycles >= 256
            &&& 8800 * core_hz <= 1_000_000 * to.settling.core_cycles < 8800 * core_hz + 1_000_000
        }),
{
    let ops = super::update_program(config, enabled, updates, core_hz);
    assert(ops.len() == 9);
    super::law_control_fields(config, enabled, updates);
    super::law_timeout_halves(config.timeout_ticks);
    super::law_update_wait(core_hz as int);
    let c3 = Dog { lock: Lock { keys: 2, accessed: true }, ..from };
    assert(after(ops, 3, from) == c3) by {
        reveal(step);
        reveal_with_fuel(after, 4);
    }
    let c4 = Dog {
        timeout: config.timeout_ticks as int,
        settling: Settling { bus_cycles: 0, core_cycles: 0 },
        ..c3
    };
    assert(after(ops, 4, from) == c4) by {
        reveal(step);
    }
    let c6 = Dog { plain: (true, true), ..c4 };
    assert(after(ops, 6, from) == c6) by {
        reveal(step);
        reveal_with_fuel(after, 3);
    }
    let c7 = Dog { control: Stctrlh::of(config, enabled, updates), ..c6 };
    assert(after(ops, 7, from) == c7) by {
        reveal(step);
    }
    let c9 = Dog {
        lock: Lock { keys: 0, ..c7.lock },
        settling: Settling {
            bus_cycles: 256,
            core_cycles: super::update_cycles(core_hz as int) as u32 as int,
        },
        ..c7
    };
    assert(after(ops, 9, from) == c9) by {
        reveal(step);
        reveal_with_fuel(after, 3);
    }
}

/// The shortest timeout leaves room for an update to synchronize: it is 64 ticks.
pub proof fn law_shortest_timeout()
    ensures
        super::MIN_TIMEOUT_TICKS == 64,
{
}

} // verus!
