//! Time driver using the Kinetis low-power timers.
//!
//! LPTMR1 is a free-running 16-bit counter clocked at 1 kHz from the LPO. LPTMR0 provides the
//! alarm interrupt. Keeping the clock and alarm in separate modules matters because an enabled
//! LPTMR compare register may only be changed after a compare; restarting LPTMR0 to bring an
//! alarm forward therefore does not disturb the monotonic counter.
//!
//! Software extends LPTMR1 at each half-period. Even when no application timer is queued,
//! LPTMR0 raises a checkpoint interrupt every 32.768 seconds. Both modules and the LPO continue
//! operating in Stop and VLPS.

use core::task::Waker;
use embassy_time_queue_utils::Queue;
use vstd::multiset::Multiset;
use vstd::prelude::*;

use crate::time_driver;
use crate::time_driver::calc_now;
use crate::time_driver::HALF_PERIOD;

verus! {

/// A register access of the time driver. Every read of the counter is preceded by a write, which
/// latches the asynchronous counter into the value read.
#[derive(Clone, Copy, Debug, PartialEq, Eq, Structural)]
pub enum Op {
    /// Open the clock gates of LPTMR0 and LPTMR1.
    EnableClocks,
    /// Write zero to the `CSR` of LPTMR0: disabled, its counter reset, its flag cleared.
    DisableAlarm,
    /// Write the whole of the `CSR` of LPTMR1: free-running, disabled.
    StopCounter,
    /// Write the whole of the `PSR` of both: the 1 kHz LPO, prescaler bypassed.
    SelectClock,
    /// Write the compare value of LPTMR1.
    WriteCounterCompare(u16),
    /// Write the whole of the `CSR` of LPTMR1: free-running, enabled.
    StartCounter,
    /// Enable the interrupt of LPTMR0 at the NVIC.
    EnableInterrupt,
    /// Write the compare value of LPTMR0.
    WriteAlarmCompare(u16),
    /// Write the whole of the `CSR` of LPTMR0: enabled.
    EnableAlarm,
    /// `CSR[TIE] = 1` of LPTMR0, the final step of its initialization.
    EnableAlarmInterrupt,
}

/// Accesses that set the timers up. Their registers survive warm resets, so each is disabled before
/// its other registers are touched. The first checkpoint is to be armed then.
pub open spec fn init_program() -> Seq<Op> {
    seq![
        Op::EnableClocks,
        Op::DisableAlarm,
        Op::StopCounter,
        Op::SelectClock,
        Op::WriteCounterCompare(0xFFFF),
        Op::StartCounter,
        Op::EnableInterrupt,
    ]
}

/// The time at which the alarm is to fire: for `timestamp` or the next extension checkpoint,
/// whichever comes first.
pub open spec fn wake_time(now: int, timestamp: int) -> int {
    let checkpoint = (now / 0x8000 + 1) * 0x8000;
    if timestamp < checkpoint {
        timestamp
    } else {
        checkpoint
    }
}

/// The ticks until the alarm is to fire: at least one.
pub open spec fn alarm_ticks(now: int, timestamp: int) -> int {
    let ticks = wake_time(now, timestamp) - now;
    if ticks < 1 {
        1
    } else {
        ticks
    }
}

/// Accesses that program the alarm. Disabling it resets its counter and makes the compare value
/// writable, which is the number of ticks less one.
pub open spec fn arm_program(now: int, timestamp: int) -> Seq<Op> {
    seq![
        Op::DisableAlarm,
        Op::WriteAlarmCompare((alarm_ticks(now, timestamp) - 1) as u16),
        Op::EnableAlarm,
        Op::EnableAlarmInterrupt,
    ]
}

/// What the driver needs next.
#[derive(Clone, Copy, Debug, PartialEq, Eq, Structural)]
pub enum Wait {
    /// Nothing until the next call or interrupt.
    Nothing,
    /// The counter, to arm the first checkpoint.
    First,
    /// The counter, to see whether it has crossed a half-period boundary.
    Extend,
    /// The counter, to take expired timers out of the queue.
    Expire,
    /// The counter, to see whether the earliest timer has expired.
    Check,
    /// The counter, to program the alarm.
    Program,
    /// The counter, to see that the deadline did not elapse meanwhile.
    Confirm,
}

/// The time driver. Every call is made atomically with respect to the interrupt.
pub struct Driver {
    /// Number of 2^15-tick periods elapsed since boot.
    period: u32,
    /// The earliest timer, while the alarm is set for it.
    next: u64,
    queue: Queue,
    wait: Wait,
}

impl Driver {
    /// Half periods counted.
    pub closed spec fn half_periods(&self) -> u32 {
        self.period
    }

    /// The timer that the alarm is set for.
    pub closed spec fn alarm_at(&self) -> u64 {
        self.next
    }

    /// The queue of timers.
    pub closed spec fn timers(&self) -> Queue {
        self.queue
    }

    /// The deadlines of the timers that are queued.
    pub open spec fn deadlines(&self) -> Multiset<u64> {
        time_driver::queue_deadlines(self.timers())
    }

    /// What the driver needs next.
    pub closed spec fn needs(&self) -> Wait {
        self.wait
    }

    /// Whether the alarm is set for the earliest timer whenever the driver rests, and also while it
    /// is being programmed for that.
    pub open spec fn wf(&self) -> bool {
        match self.needs() {
            Wait::Expire | Wait::Extend => true,
            _ => time_driver::earliest(self.deadlines(), self.alarm_at()),
        }
    }

    /// A driver with no timer, and the accesses that set the timers up. The first checkpoint is to
    /// be armed.
    pub fn init() -> (r: (Self, Vec<Op>))
        ensures
            r.0.wf(),
            r.0.half_periods() == 0,
            r.0.alarm_at() == u64::MAX,
            r.0.deadlines() == Multiset::<u64>::empty(),
            r.0.needs() == Wait::First,
            r.1@ == init_program(),
    {
        let ops: Vec<Op> = vec![
            Op::EnableClocks,
            Op::DisableAlarm,
            Op::StopCounter,
            Op::SelectClock,
            Op::WriteCounterCompare(0xFFFF),
            Op::StartCounter,
            Op::EnableInterrupt,
        ];
        assert(ops@ =~= init_program());
        let driver: Driver = Driver {
            period: 0,
            next: u64::MAX,
            queue: time_driver::queue_new(),
            wait: Wait::First,
        };
        (driver, ops)
    }

    /// What the driver needs next.
    pub fn wait(&self) -> (r: Wait)
        ensures
            r == self.needs(),
    {
        self.wait
    }

    /// The time, when the counter reads `counter`.
    pub fn now(&self, counter: u16) -> (r: u64)
        ensures
            r == time_driver::time_at(self.half_periods(), counter),
    {
        calc_now(self.period, counter)
    }

    /// Queues a timer for the task of `waker`. Where the queue changes the alarm is to be set anew.
    pub fn schedule_wake(&mut self, at: u64, waker: &Waker)
        requires
            old(self).wf(),
            old(self).needs() == Wait::Nothing,
        ensures
            final(self).wf(),
            final(self).half_periods() == old(self).half_periods(),
            final(self).alarm_at() == old(self).alarm_at(),
            ({
                let (changes, deadlines) = time_driver::queue_scheduled(
                    old(self).timers(),
                    at,
                    *waker,
                );
                &&& final(self).deadlines() == deadlines
                &&& if changes {
                    &&& final(self).needs() == Wait::Expire
                    &&& deadlines.count(at) > 0
                    &&& time_driver::queued(old(self).deadlines(), deadlines, at)
                } else {
                    // The task has a timer already that is not later.
                    &&& final(self).needs() == Wait::Nothing
                    &&& final(self).timers() == old(self).timers()
                    &&& time_driver::has_timer_by(old(self).deadlines(), at)
                }
            }),
    {
        if time_driver::queue_schedule_wake(&mut self.queue, at, waker) {
            self.wait = Wait::Expire;
        }
    }

    /// Accesses that program the alarm for `timestamp` or the next extension checkpoint, whichever
    /// comes first.
    fn arm_for(&self, now: u64, timestamp: u64) -> (r: Vec<Op>)
        requires
            now <= 0x1_0000_0000_0000,
        ensures
            r@ == arm_program(now as int, timestamp as int),
    {
        let checkpoint: u64 = (now / HALF_PERIOD + 1) * HALF_PERIOD;
        let wake_at: u64 = if timestamp < checkpoint {
            timestamp
        } else {
            checkpoint
        };
        let left: u64 = wake_at.saturating_sub(now);
        let ticks: u64 = if left < 1 {
            1
        } else {
            left
        };
        let ops: Vec<Op> = vec![
            Op::DisableAlarm,
            Op::WriteAlarmCompare((ticks - 1) as u16),
            Op::EnableAlarm,
            Op::EnableAlarmInterrupt,
        ];
        assert(ops@ =~= arm_program(now as int, timestamp as int));
        ops
    }

    /// Goes on when the counter reads `counter`.
    pub fn on_counter(&mut self, counter: u16) -> (r: Vec<Op>)
        requires
            old(self).wf(),
            old(self).needs() != Wait::Nothing,
        ensures
            final(self).wf(),
            ({
                let now = time_driver::time_at(old(self).half_periods(), counter);
                let at = old(self).alarm_at();
                match old(self).needs() {
                    Wait::First => {
                        &&& final(self).needs() == Wait::Nothing
                        &&& final(self).half_periods() == old(self).half_periods()
                        &&& final(self).timers() == old(self).timers()
                        &&& final(self).alarm_at() == at
                        &&& r@ == arm_program(now, HALF_PERIOD as int)
                    },
                    Wait::Extend => {
                        &&& final(self).needs() == Wait::Expire
                        &&& final(self).half_periods() == extended(
                            old(self).half_periods(),
                            counter,
                        )
                        &&& final(self).timers() == old(self).timers()
                        &&& final(self).alarm_at() == at
                        &&& r@ == Seq::<Op>::empty()
                    },
                    Wait::Expire => {
                        &&& final(self).needs() == Wait::Check
                        &&& final(self).half_periods() == old(self).half_periods()
                        &&& final(self).deadlines() == old(self).deadlines().filter(
                            |x: u64| x > now,
                        )
                        &&& time_driver::earliest(final(self).deadlines(), final(self).alarm_at())
                        &&& r@ == Seq::<Op>::empty()
                    },
                    Wait::Check => {
                        &&& final(self).needs() == if at <= now {
                            Wait::Expire
                        } else {
                            Wait::Program
                        }
                        &&& final(self).half_periods() == old(self).half_periods()
                        &&& final(self).timers() == old(self).timers()
                        &&& final(self).alarm_at() == at
                        &&& r@ == Seq::<Op>::empty()
                    },
                    Wait::Program => {
                        &&& final(self).needs() == Wait::Confirm
                        &&& final(self).half_periods() == old(self).half_periods()
                        &&& final(self).timers() == old(self).timers()
                        &&& final(self).alarm_at() == at
                        &&& r@ == arm_program(now, at as int)
                    },
                    _ => {
                        &&& final(self).half_periods() == old(self).half_periods()
                        &&& final(self).timers() == old(self).timers()
                        &&& final(self).alarm_at() == at
                        // An alarm is not left armed for a deadline that elapsed meanwhile.
                        &&& if at <= now {
                            final(self).needs() == Wait::Expire && r@ == seq![Op::DisableAlarm]
                        } else {
                            final(self).needs() == Wait::Nothing && r@ == Seq::<Op>::empty()
                        }
                    },
                }
            }),
    {
        let now: u64 = self.now(counter);
        let mut ops: Vec<Op> = Vec::new();
        match self.wait {
            Wait::First => {
                ops = self.arm_for(now, HALF_PERIOD);
                self.wait = Wait::Nothing;
            },
            Wait::Extend => {
                let upper: bool = counter >= 0x8000;
                if upper != (self.period % 2 == 1) {
                    self.period = self.period.wrapping_add(1);
                }
                self.wait = Wait::Expire;
            },
            Wait::Expire => {
                self.next = time_driver::queue_next_expiration(&mut self.queue, now);
                self.wait = Wait::Check;
                proof {
                    let t = time_driver::time_at(old(self).half_periods(), counter);
                    assert(old(self).deadlines().filter(|x: u64| x > now)
                        =~= old(self).deadlines().filter(|x: u64| x > t));
                }
            },
            Wait::Check => {
                self.wait = if self.next <= now {
                    Wait::Expire
                } else {
                    Wait::Program
                };
            },
            Wait::Program => {
                ops = self.arm_for(now, self.next);
                self.wait = Wait::Confirm;
            },
            Wait::Confirm => {
                if self.next <= now {
                    ops.push(Op::DisableAlarm);
                    self.wait = Wait::Expire;
                } else {
                    self.wait = Wait::Nothing;
                }
            },
            Wait::Nothing => {},
        }
        ops
    }

    /// Serves the interrupt: `tcf` is `CSR[TCF]` of LPTMR0. Disabling it clears that flag.
    pub fn on_interrupt(&mut self, tcf: bool) -> (r: Vec<Op>)
        requires
            old(self).wf(),
            old(self).needs() == Wait::Nothing,
        ensures
            final(self).wf(),
            final(self).half_periods() == old(self).half_periods(),
            final(self).timers() == old(self).timers(),
            final(self).alarm_at() == old(self).alarm_at(),
            final(self).needs() == if tcf {
                Wait::Extend
            } else {
                Wait::Nothing
            },
            r@ == if tcf {
                seq![Op::DisableAlarm]
            } else {
                seq![]
            },
    {
        if !tcf {
            return Vec::new();
        }
        self.wait = Wait::Extend;
        let ops: Vec<Op> = vec![Op::DisableAlarm];
        assert(ops@ =~= seq![Op::DisableAlarm]);
        ops
    }
}

/// The half periods counted after a look at the counter: one more where its upper half and the count
/// disagree.
pub open spec fn extended(period: u32, counter: u16) -> u32 {
    if (counter >= 0x8000) == (period % 2 == 1) {
        period
    } else if period < u32::MAX {
        (period + 1) as u32
    } else {
        0
    }
}

/// A look at the counter within two half periods of the last one brings the count up to date.
pub proof fn law_extension_catches_up(time: int, period: u32, counter: u16)
    requires
        time >= 0,
        counter as int == time % 0x1_0000,
        period == time / 0x8000 || period == time / 0x8000 - 1,
        time / 0x8000 <= u32::MAX,
    ensures
        extended(period, counter) == time / 0x8000,
{
}

/// The alarm is never set for longer than to the next checkpoint, so that no half period goes
/// uncounted; it is not set for longer than to the timer asked for; and its compare value fits.
pub proof fn law_checkpoints_are_kept(now: int, timestamp: int)
    requires
        now >= 0,
        timestamp > now,
    ensures
        1 <= alarm_ticks(now, timestamp) <= 0x8000,
        now + alarm_ticks(now, timestamp) <= timestamp,
        (now + alarm_ticks(now, timestamp)) / 0x8000 <= now / 0x8000 + 1,
        alarm_ticks(now, timestamp) == timestamp - now || (now + alarm_ticks(now, timestamp))
            % 0x8000 == 0,
{
}

/// The two timers.
pub ghost struct Timers {
    pub clocked: bool,
    /// The alarm timer: enabled, interrupting, and its compare value.
    pub alarm: (bool, bool, u16),
    /// The counter: enabled, and its compare value.
    pub counter: (bool, u16),
    /// Both count the 1 kHz LPO.
    pub milliseconds: bool,
    /// The interrupt of the alarm timer is let through.
    pub interrupt: bool,
    /// Each was set up only while it was clocked and disabled.
    pub in_order: bool,
}

/// The timers after an access.
pub open spec fn timers_after(op: Op, t: Timers) -> Timers {
    match op {
        Op::EnableClocks => Timers { clocked: true, ..t },
        Op::DisableAlarm => Timers {
            alarm: (false, false, t.alarm.2),
            in_order: t.in_order && t.clocked,
            ..t
        },
        Op::StopCounter => Timers {
            counter: (false, t.counter.1),
            in_order: t.in_order && t.clocked,
            ..t
        },
        Op::SelectClock => Timers {
            milliseconds: true,
            in_order: t.in_order && t.clocked && !t.alarm.0 && !t.counter.0,
            ..t
        },
        Op::WriteCounterCompare(value) => Timers {
            counter: (t.counter.0, value),
            in_order: t.in_order && t.clocked && !t.counter.0,
            ..t
        },
        Op::StartCounter => Timers {
            counter: (true, t.counter.1),
            in_order: t.in_order && t.clocked,
            ..t
        },
        Op::EnableInterrupt => Timers { interrupt: true, ..t },
        Op::WriteAlarmCompare(value) => Timers {
            alarm: (t.alarm.0, t.alarm.1, value),
            in_order: t.in_order && t.clocked && !t.alarm.0,
            ..t
        },
        Op::EnableAlarm => Timers {
            alarm: (true, false, t.alarm.2),
            in_order: t.in_order && t.clocked,
            ..t
        },
        Op::EnableAlarmInterrupt => Timers {
            alarm: (t.alarm.0, true, t.alarm.2),
            in_order: t.in_order && t.clocked && t.alarm.0,
            ..t
        },
    }
}

/// The timers after the first `n` of some accesses.
pub open spec fn timers_after_all(ops: Seq<Op>, n: int, from: Timers) -> Timers
    decreases n,
{
    if n <= 0 {
        from
    } else {
        timers_after(ops[n - 1], timers_after_all(ops, n - 1, from))
    }
}

/// The counter runs in milliseconds through all of its 16 bits, and the alarm timer is off until it is
/// first armed.
pub proof fn law_timers_are_started(from: Timers)
    requires
        from.in_order,
    ensures
        ({
            let ops = init_program();
            timers_after_all(ops, ops.len() as int, from) == (Timers {
                clocked: true,
                alarm: (false, false, from.alarm.2),
                counter: (true, 65535),
                milliseconds: true,
                interrupt: true,
                in_order: true,
            })
        }),
{
    reveal_with_fuel(timers_after_all, 8);
}

/// The alarm timer fires one tick after its compare value: at the timer asked for or the next half
/// period, whichever comes first, and at the next tick where that has passed. It was disabled while
/// that changed, which does not touch the counter.
pub proof fn law_alarm_fires_on_time(now: int, timestamp: int, from: Timers)
    requires
        now >= 0,
        from.in_order,
        from.clocked,
    ensures
        ({
            let ops = arm_program(now, timestamp);
            let to = timers_after_all(ops, ops.len() as int, from);
            let fires = now + to.alarm.2 + 1;
            let boundary = now - now % 32768 + 32768;
            &&& to == (Timers { alarm: (true, true, to.alarm.2), ..from })
            &&& timestamp <= now ==> fires == now + 1
            &&& now < timestamp <= boundary ==> fires == timestamp
            &&& timestamp > boundary ==> fires == boundary
        }),
{
    reveal_with_fuel(timers_after_all, 5);
}

/// A half period has 32768 ticks.
pub proof fn law_half_period()
    ensures
        HALF_PERIOD == 32768,
{
}

} // verus!
