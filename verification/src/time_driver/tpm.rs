//! Time driver using a Timer/PWM Module (TPM).
//!
//! TPM0 runs as a free-running 16-bit counter at 1 MHz, clocked from the 4 MHz fast internal
//! reference clock (MCGIRCLK) through the /4 prescaler, so the tick rate does not depend on the core
//! or bus clock configuration.
//!
//! A `period` counter is incremented on every overflow and on every half overflow (channel 1
//! compares at 0x8000). Channel 0 is the alarm compare; it is only armed when the alarm falls within
//! the next three quarter periods, otherwise the driver arms it when a later half period begins.

use core::task::Waker;
use embassy_time_queue_utils::Queue;
use vstd::multiset::Multiset;
use vstd::prelude::*;

use crate::time_driver;
use crate::time_driver::calc_now;

verus! {

/// Ticks within which the alarm is armed: three quarters of the counter's period.
pub const ARM_WITHIN: u64 = 0xc000;

/// A register access of the time driver.
#[derive(Clone, Copy, Debug, PartialEq, Eq, Structural)]
pub enum Op {
    /// `MCG_SC[FCRDIV] = 0`: the fast IRC undivided. It may only change while that is not in use.
    UndivideFastIrc,
    /// `MCG_C2[IRCS] = 1`: the fast internal reference.
    SelectFastIrc,
    /// `MCG_C1[IRCLKEN] = 1`.
    EnableIrcClock,
    /// Wait until `MCG_S[IRCST]` is set.
    WaitFastIrc,
    /// Open the clock gate of TPM0, and count MCGIRCLK (`SIM_SOPT2[TPMSRC]`); the registers are
    /// shared, so atomically.
    EnableClock,
    /// Write the whole of `SC`: counter stopped, overflow flag cleared.
    Stop,
    /// Write `MOD`.
    WriteModulo(u16),
    /// Write `CNT`.
    WriteCounter(u16),
    /// Write `CnV`.
    WriteCompare { channel: u8, value: u16 },
    /// Write the whole of `CnSC`: software output compare, its flag cleared, and its interrupt.
    WriteChannel { channel: u8, chie: bool },
    /// `CnSC[CHIE] = 1`.
    EnableChannelInterrupt { channel: u8 },
    /// Write the whole of `CONF`: the counter goes on while the core is halted.
    RunInDebug,
    /// Enable the interrupt at the NVIC.
    EnableInterrupt,
    /// Write the whole of `SC`: prescaler 4, overflow interrupt, counter running.
    Start,
}

/// Alarm compare channel.
pub const ALARM_CH: u8 = 0;

/// Half period compare channel.
pub const HALF_CH: u8 = 1;

/// Accesses that set the timer up: configured with the counter stopped so that writes to `MOD` and
/// `CnV` take effect immediately.
pub open spec fn init_program() -> Seq<Op> {
    seq![
        Op::UndivideFastIrc,
        Op::SelectFastIrc,
        Op::EnableIrcClock,
        Op::WaitFastIrc,
        Op::EnableClock,
        Op::Stop,
        Op::WriteModulo(0xFFFF),
        Op::WriteCounter(0),
        Op::WriteCompare { channel: HALF_CH, value: 0x8000 },
        Op::WriteChannel { channel: HALF_CH, chie: true },
        Op::WriteChannel { channel: ALARM_CH, chie: false },
        Op::RunInDebug,
        Op::EnableInterrupt,
        Op::Start,
    ]
}

/// Sets the timer up.
pub fn init() -> (r: Vec<Op>)
    ensures
        r@ == init_program(),
{
    let ops: Vec<Op> = vec![
        Op::UndivideFastIrc,
        Op::SelectFastIrc,
        Op::EnableIrcClock,
        Op::WaitFastIrc,
        Op::EnableClock,
        Op::Stop,
        Op::WriteModulo(0xFFFF),
        Op::WriteCounter(0),
        Op::WriteCompare { channel: HALF_CH, value: 0x8000 },
        Op::WriteChannel { channel: HALF_CH, chie: true },
        Op::WriteChannel { channel: ALARM_CH, chie: false },
        Op::RunInDebug,
        Op::EnableInterrupt,
        Op::Start,
    ];
    assert(ops@ =~= init_program());
    ops
}

/// What the driver needs next.
#[derive(Clone, Copy, Debug, PartialEq, Eq, Structural)]
pub enum Wait {
    /// Nothing until the next call or interrupt.
    Nothing,
    /// The counter, to take expired timers out of the queue.
    Expire,
    /// The counter, to program the alarm.
    Program,
    /// The counter, to see that the alarm was not missed meanwhile.
    Confirm,
    /// Whether the alarm interrupt is enabled (`C0SC[CHIE]`, now).
    AlarmEnabled,
}

/// The access that arms the alarm or not. A stale flag from an earlier pass over the same counter
/// value is cleared.
pub open spec fn arm_alarm(armed: bool) -> Op {
    Op::WriteChannel { channel: ALARM_CH, chie: armed }
}

/// The time driver. Every call is made atomically with respect to the interrupt.
pub struct Driver {
    /// Number of 2^15 periods elapsed since boot.
    period: u32,
    alarm: u64,
    queue: Queue,
    wait: Wait,
}

impl Driver {
    /// Half periods counted.
    pub closed spec fn half_periods(&self) -> u32 {
        self.period
    }

    /// The alarm that is set; the largest number if none is.
    pub closed spec fn alarm_at(&self) -> u64 {
        self.alarm
    }

    /// The queue of timers.
    pub closed spec fn timers(&self) -> Queue {
        self.queue
    }

    /// The deadlines of the timers that are queued.
    pub open spec fn deadlines(&self) -> Multiset<u64> {
        time_driver::queue_deadlines(self.timers())
    }

    /// What the driver needs next.
    pub closed spec fn needs(&self) -> Wait {
        self.wait
    }

    /// Whether the alarm is set for the earliest timer whenever the driver rests, and also while it
    /// is being programmed for that.
    pub open spec fn wf(&self) -> bool {
        self.needs() != Wait::Expire ==> time_driver::earliest(self.deadlines(), self.alarm_at())
    }

    /// A driver with no timer.
    pub fn new() -> (r: Self)
        ensures
            r.wf(),
            r.half_periods() == 0,
            r.alarm_at() == u64::MAX,
            r.deadlines() == Multiset::<u64>::empty(),
            r.needs() == Wait::Nothing,
    {
        Driver {
            period: 0,
            alarm: u64::MAX,
            queue: time_driver::queue_new(),
            wait: Wait::Nothing,
        }
    }

    /// What the driver needs next.
    pub fn wait(&self) -> (r: Wait)
        ensures
            r == self.needs(),
    {
        self.wait
    }

    /// The time, when the counter reads `counter`.
    pub fn now(&self, counter: u16) -> (r: u64)
        ensures
            r == time_driver::time_at(self.half_periods(), counter),
    {
        calc_now(self.period, counter)
    }

    /// Queues a timer for the task of `waker`. Where the queue changes the alarm is to be set anew.
    pub fn schedule_wake(&mut self, at: u64, waker: &Waker)
        requires
            old(self).wf(),
            old(self).needs() == Wait::Nothing,
        ensures
            final(self).wf(),
            final(self).half_periods() == old(self).half_periods(),
            final(self).alarm_at() == old(self).alarm_at(),
            ({
                let (changes, deadlines) = time_driver::queue_scheduled(
                    old(self).timers(),
                    at,
                    *waker,
                );
                &&& final(self).deadlines() == deadlines
                &&& if changes {
                    &&& final(self).needs() == Wait::Expire
                    &&& deadlines.count(at) > 0
                    &&& time_driver::queued(old(self).deadlines(), deadlines, at)
                } else {
                    // The task has a timer already that is not later.
                    &&& final(self).needs() == Wait::Nothing
                    &&& final(self).timers() == old(self).timers()
                    &&& time_driver::has_timer_by(old(self).deadlines(), at)
                }
            }),
    {
        if time_driver::queue_schedule_wake(&mut self.queue, at, waker) {
            self.wait = Wait::Expire;
        }
    }

    /// Goes on with setting the alarm when the counter reads `counter`: the expired timers leave
    /// the queue and the alarm is set for the earliest of the rest; where that may have been missed
    /// meanwhile it starts over.
    pub fn on_counter(&mut self, counter: u16) -> (r: Vec<Op>)
        requires
            old(self).wf(),
            old(self).needs() is Expire || old(self).needs() is Program
                || old(self).needs() is Confirm,
        ensures
            final(self).wf(),
            final(self).half_periods() == old(self).half_periods(),
            ({
                let now = time_driver::time_at(old(self).half_periods(), counter);
                let at = old(self).alarm_at();
                match old(self).needs() {
                    Wait::Expire => {
                        &&& final(self).needs() == Wait::Program
                        &&& final(self).deadlines() == old(self).deadlines().filter(
                            |x: u64| x > now,
                        )
                        &&& time_driver::earliest(final(self).deadlines(), final(self).alarm_at())
                        &&& r@ == Seq::<Op>::empty()
                    },
                    Wait::Program => {
                        &&& final(self).timers() == old(self).timers()
                        &&& if at <= now {
                            final(self).needs() == Wait::Expire && final(self).alarm_at()
                                == u64::MAX && r@ == seq![arm_alarm(false)]
                        } else {
                            final(self).needs() == Wait::Confirm && final(self).alarm_at() == at
                                && r@ == seq![
                                Op::WriteCompare {
                                    channel: ALARM_CH,
                                    value: (at % 0x1_0000) as u16,
                                },
                                arm_alarm(at - now < ARM_WITHIN),
                            ]
                        }
                    },
                    _ => {
                        &&& final(self).timers() == old(self).timers()
                        // A compare write only takes effect on the next counter increment, and a
                        // match on that same increment is not guaranteed to be seen.
                        &&& if at <= now + 1 {
                            final(self).needs() == Wait::Expire && final(self).alarm_at()
                                == u64::MAX && r@ == seq![arm_alarm(false)]
                        } else {
                            final(self).needs() == Wait::Nothing && final(self).alarm_at() == at
                                && r@ == Seq::<Op>::empty()
                        }
                    },
                }
            }),
    {
        let now: u64 = self.now(counter);
        let mut ops: Vec<Op> = Vec::new();
        match self.wait {
            Wait::Expire => {
                self.alarm = time_driver::queue_next_expiration(&mut self.queue, now);
                self.wait = Wait::Program;
                proof {
                    let t = time_driver::time_at(old(self).half_periods(), counter);
                    assert(old(self).deadlines().filter(|x: u64| x > now)
                        =~= old(self).deadlines().filter(|x: u64| x > t));
                }
            },
            Wait::Program => {
                if self.alarm <= now {
                    ops.push(Op::WriteChannel { channel: ALARM_CH, chie: false });
                    self.alarm = u64::MAX;
                    self.wait = Wait::Expire;
                } else {
                    // Write the compare value regardless of whether it is armed now: a later half
                    // period arms it if the alarm is too far away.
                    let value: u16 = (self.alarm % 0x1_0000) as u16;
                    ops.push(Op::WriteCompare { channel: ALARM_CH, value });
                    ops.push(
                        Op::WriteChannel {
                            channel: ALARM_CH,
                            chie: self.alarm - now < ARM_WITHIN,
                        },
                    );
                    self.wait = Wait::Confirm;
                }
            },
            Wait::Confirm => {
                if self.alarm <= now + 1 {
                    ops.push(Op::WriteChannel { channel: ALARM_CH, chie: false });
                    self.alarm = u64::MAX;
                    self.wait = Wait::Expire;
                } else {
                    self.wait = Wait::Nothing;
                }
            },
            _ => {},
        }
        ops
    }

    /// Counts a half period, and arms the alarm if it comes close. The compare value was already
    /// written when the alarm was set. A stale flag may raise one early interrupt, which is handled
    /// by re-arming.
    fn next_period(&mut self) -> (r: Option<Op>)
        requires
            old(self).half_periods() < u32::MAX,
        ensures
            final(self).half_periods() == old(self).half_periods() + 1,
            final(self).alarm_at() == old(self).alarm_at(),
            final(self).timers() == old(self).timers(),
            final(self).needs() == old(self).needs(),
            r == if old(self).alarm_at() < (old(self).half_periods() + 1) * 0x8000 + ARM_WITHIN {
                Some(Op::EnableChannelInterrupt { channel: ALARM_CH })
            } else {
                None
            },
    {
        self.period = self.period + 1;
        let period: u32 = self.period;
        assert((period as u64) << 15u32 == period * 0x8000) by (bit_vector);
        let t: u64 = (period as u64) << 15u32;
        if self.alarm < t + ARM_WITHIN {
            Some(Op::EnableChannelInterrupt { channel: ALARM_CH })
        } else {
            None
        }
    }

    /// Serves the interrupt: `tof`, `half` and `alarm` are the flags in `STATUS` of the overflow, of
    /// the half period and of the alarm, which were cleared by writing back what was read.
    pub fn on_interrupt(&mut self, tof: bool, half: bool, alarm: bool) -> (r: Vec<Op>)
        requires
            old(self).wf(),
            old(self).needs() == Wait::Nothing,
            old(self).half_periods() + 2 <= u32::MAX,
        ensures
            final(self).wf(),
            final(self).half_periods() == old(self).half_periods() + (if tof {
                1int
            } else {
                0
            }) + (if half {
                1int
            } else {
                0
            }),
            final(self).alarm_at() == old(self).alarm_at(),
            final(self).timers() == old(self).timers(),
            final(self).needs() == if alarm {
                Wait::AlarmEnabled
            } else {
                Wait::Nothing
            },
            r@ == period_program(
                old(self).half_periods() as int,
                old(self).alarm_at(),
                tof,
                half,
            ),
    {
        let mut ops: Vec<Op> = Vec::new();
        if tof {
            if let Some(op) = self.next_period() {
                ops.push(op);
            }
        }
        if half {
            if let Some(op) = self.next_period() {
                ops.push(op);
            }
        }
        if alarm {
            self.wait = Wait::AlarmEnabled;
        }
        assert(ops@ =~= period_program(
            old(self).half_periods() as int,
            old(self).alarm_at(),
            tof,
            half,
        ));
        ops
    }

    /// Goes on with an interrupt of the alarm: `chie` is `C0SC[CHIE]`. An alarm that is enabled is
    /// set anew.
    pub fn on_alarm(&mut self, chie: bool)
        requires
            old(self).wf(),
            old(self).needs() == Wait::AlarmEnabled,
        ensures
            final(self).wf(),
            final(self).half_periods() == old(self).half_periods(),
            final(self).alarm_at() == old(self).alarm_at(),
            final(self).timers() == old(self).timers(),
            final(self).needs() == if chie {
                Wait::Expire
            } else {
                Wait::Nothing
            },
    {
        self.wait = if chie {
            Wait::Expire
        } else {
            Wait::Nothing
        };
    }
}

/// The access for one more half period.
pub open spec fn half_period_program(period: int, alarm: u64) -> Seq<Op> {
    if alarm < period * 0x8000 + ARM_WITHIN {
        seq![Op::EnableChannelInterrupt { channel: ALARM_CH }]
    } else {
        seq![]
    }
}

/// Accesses for the half periods that an interrupt counts.
pub open spec fn period_program(period: int, alarm: u64, tof: bool, half: bool) -> Seq<Op> {
    let after = if tof {
        period + 1
    } else {
        period
    };
    (if tof {
        half_period_program(period + 1, alarm)
    } else {
        seq![]
    }) + (if half {
        half_period_program(after + 1, alarm)
    } else {
        seq![]
    })
}

/// An alarm that is too far away to be armed when it is set is armed in time: a half period begins
/// after that and not after the alarm, at which the alarm is close.
pub proof fn law_far_alarms_are_armed_later(now: int, at: u64)
    requires
        0 <= now,
        at - now >= ARM_WITHIN,
    ensures
        ({
            let period = at as int / 0x8000;
            &&& now < period * 0x8000 <= at
            &&& half_period_program(period, at) == seq![
                Op::EnableChannelInterrupt { channel: ALARM_CH },
            ]
        }),
{
}

/// An alarm that is armed, when it is set or when a half period begins, fires when its time has come
/// and not before: within the ticks for which it is armed, the counter reads the compare value at
/// that time only.
pub proof fn law_armed_alarms_fire_on_time(now: int, at: int, time: int)
    requires
        0 <= now < time <= at,
        at - now <= ARM_WITHIN,
    ensures
        time % 0x1_0000 == at % 0x1_0000 <==> time == at,
{
}

/// The timer.
pub ghost struct Timer {
    /// The fast internal reference: undivided, selected, running, and waited for.
    pub reference: (bool, bool, bool, bool),
    pub clocked: bool,
    pub running: bool,
    pub modulo: u16,
    pub counter: u16,
    /// `CnV` of the channels.
    pub compare: Map<u8, u16>,
    /// `CnSC[CHIE]` of the channels.
    pub interrupts: Map<u8, bool>,
    /// It goes on while the core is halted, and its interrupt is let through.
    pub options: (bool, bool),
    /// It was set up only while it was clocked and stood, and started on a reference that was there.
    pub in_order: bool,
}

/// The timer after an access.
#[verifier::opaque]
pub open spec fn timer_after(op: Op, t: Timer) -> Timer {
    match op {
        Op::UndivideFastIrc => Timer { reference: (true, false, t.reference.2, false), ..t },
        Op::SelectFastIrc => Timer {
            reference: (t.reference.0, true, t.reference.2, false),
            ..t
        },
        Op::EnableIrcClock => Timer {
            reference: (t.reference.0, t.reference.1, true, t.reference.3),
            ..t
        },
        Op::WaitFastIrc => Timer {
            reference: (t.reference.0, t.reference.1, t.reference.2, t.reference.1),
            ..t
        },
        Op::EnableClock => Timer { clocked: true, ..t },
        Op::Stop => Timer { running: false, in_order: t.in_order && t.clocked, ..t },
        Op::WriteModulo(modulo) => Timer {
            modulo,
            in_order: t.in_order && t.clocked && !t.running,
            ..t
        },
        Op::WriteCounter(counter) => Timer {
            counter,
            in_order: t.in_order && t.clocked && !t.running,
            ..t
        },
        Op::WriteCompare { channel, value } => Timer {
            compare: t.compare.insert(channel, value),
            in_order: t.in_order && t.clocked,
            ..t
        },
        Op::WriteChannel { channel, chie } => Timer {
            interrupts: t.interrupts.insert(channel, chie),
            in_order: t.in_order && t.clocked,
            ..t
        },
        Op::EnableChannelInterrupt { channel } => Timer {
            interrupts: t.interrupts.insert(channel, true),
            in_order: t.in_order && t.clocked,
            ..t
        },
        Op::RunInDebug => Timer { options: (true, t.options.1), ..t },
        Op::EnableInterrupt => Timer { options: (t.options.0, true), ..t },
        Op::Start => Timer {
            running: true,
            in_order: t.in_order && t.clocked && t.reference == (true, true, true, true),
            ..t
        },
    }
}

/// The timer after the first `n` of some accesses.
pub open spec fn timer_after_all(ops: Seq<Op>, n: int, from: Timer) -> Timer
    decreases n,
{
    if n <= 0 {
        from
    } else {
        timer_after(ops[n - 1], timer_after_all(ops, n - 1, from))
    }
}

/// The timer runs from zero through all of its 16 bits, from the fast internal reference, with an
/// interrupt in the middle, one at the end, and none of the alarm yet.
pub proof fn law_timer_is_started(from: Timer)
    requires
        from.in_order,
    ensures
        ({
            let ops = init_program();
            let to = timer_after_all(ops, ops.len() as int, from);
            &&& to.in_order
            &&& to.running && to.clocked
            &&& to.modulo == 65535 && to.counter == 0
            &&& to.compare[1] == 32768
            &&& to.interrupts[1] && !to.interrupts[0]
            &&& to.options == (true, true)
        }),
{
    let ops = init_program();
    assert(ops.len() == 14);
    let c4 = Timer { reference: (true, true, true, true), ..from };
    assert(timer_after_all(ops, 4, from) == c4) by {
        reveal(timer_after);
        reveal_with_fuel(timer_after_all, 5);
    }
    let c6 = Timer { clocked: true, running: false, ..c4 };
    assert(timer_after_all(ops, 6, from) == c6) by {
        reveal(timer_after);
        reveal_with_fuel(timer_after_all, 3);
    }
    let c8 = Timer { modulo: 0xFFFF, counter: 0, ..c6 };
    assert(timer_after_all(ops, 8, from) == c8) by {
        reveal(timer_after);
        reveal_with_fuel(timer_after_all, 3);
    }
    let c9 = Timer { compare: c8.compare.insert(1, 0x8000), ..c8 };
    assert(timer_after_all(ops, 9, from) == c9) by {
        reveal(timer_after);
    }
    let c11 = Timer { interrupts: c9.interrupts.insert(1, true).insert(0, false), ..c9 };
    assert(timer_after_all(ops, 11, from) == c11) by {
        reveal(timer_after);
        reveal_with_fuel(timer_after_all, 3);
    }
    let c14 = Timer { options: (true, true), running: true, ..c11 };
    assert(timer_after_all(ops, 14, from) == c14) by {
        reveal(timer_after);
        reveal_with_fuel(timer_after_all, 4);
    }
}

/// Arming the alarm changes the interrupt of channel 0 alone.
pub proof fn law_alarm_channel(armed: bool, from: Timer)
    requires
        from.in_order,
        from.clocked,
    ensures
        timer_after(arm_alarm(armed), from) == (Timer {
            interrupts: from.interrupts.insert(0, armed),
            ..from
        }),
        ALARM_CH == 0,
        HALF_CH == 1,
{
    reveal(timer_after);
}

/// An interrupt arms the alarm exactly if a half period that it counts begins less than three quarters
/// of the period of the counter before the alarm, or after it.
pub proof fn law_half_periods_arm_close_alarms(period: int, alarm: u64, tof: bool, half: bool)
    ensures
        ({
            let ops = period_program(period, alarm, tof, half);
            let counted = (if tof {
                1int
            } else {
                0
            }) + (if half {
                1int
            } else {
                0
            });
            &&& ops.len() > 0 <==> counted > 0 && alarm < (period + counted) * 32768 + 49152
            &&& forall|i: int|
                0 <= i < ops.len() ==> #[trigger] ops[i] == (Op::EnableChannelInterrupt {
                    channel: 0,
                })
        }),
{
}

} // verus!
