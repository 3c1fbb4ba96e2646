//! PWM outputs generated by the FlexIO timers.
//!
//! FlexIO's dual 8-bit timer mode gives every timer an independent frequency; a timer can drive any
//! pin connected to the FlexIO instance. The driver owns the complete instance, including timers
//! and shifters.

use vstd::prelude::*;

use crate::gpio::Mux;
use crate::pwm;
use crate::pwm::ChannelState;
use crate::pwm::OutputPin;
use crate::pwm::Polarity;

verus! {

/// Most timers of an instance.
pub const FLEXIO_TIMERS: usize = 8;

/// FlexIO PWM configuration.
#[derive(Clone, Copy, Debug, PartialEq, Eq, Structural)]
pub struct FlexioConfig {
    /// Requested output frequency in hertz.
    ///
    /// FlexIO's PWM mode has two 8-bit counters. Frequencies from 15,625 Hz to 2 MHz preserve the
    /// full duty-cycle range when clocked from the 4 MHz fast internal reference.
    pub frequency: u32,
}

impl Default for FlexioConfig {
    fn default() -> (r: Self)
        ensures
            r == (FlexioConfig { frequency: 20_000 }),
    {
        FlexioConfig { frequency: 20_000 }
    }
}

/// A register access of the FlexIO PWM driver.
#[derive(Clone, Copy, Debug, PartialEq, Eq, Structural)]
pub enum Op {
    /// Run the fast internal reference and select it for FlexIO.
    EnableFlexioClock,
    /// Open the clock gate of the instance.
    EnableClock,
    /// Close the clock gate of the instance.
    DisableClock,
    /// Write the whole of `CTRL`: software reset.
    Reset,
    /// Write the whole of `CTRL`: enabled, also while the core is halted.
    Enable,
    /// Write zero to `CTRL`.
    Disable,
    /// Drive a pin as GPIO: its level is set before its direction.
    DriveGpio { pin: OutputPin, high: bool },
    /// `PCR[MUX]` of a pin.
    SetMux { pin: OutputPin, mux: Mux },
    /// Write zero to `TIMCTLn`: the timer is disabled.
    DisableTimer(usize),
    /// Write zero to `TIMCFGn`: output one at first, decrement on the FlexIO clock, never reset,
    /// never disabled, always enabled.
    ConfigureTimer(usize),
    /// `TIMCTLn[TIMOD] = 0` and `TIMCTLn[PINCFG] = 0`: disabled, output off.
    StopTimer(usize),
    /// Write the compare register of a timer.
    WriteCompare { timer: usize, value: u16 },
    /// Write the whole of `TIMCTLn`: dual 8-bit PWM on this FlexIO pin, the mode last.
    StartTimer { timer: usize, pin_number: u8, pinpol: bool },
}

/// A timer that is enabled.
#[derive(Clone, Copy, Debug, PartialEq, Eq, Structural)]
pub struct Channel {
    pub pin: OutputPin,
    /// The alternative that connects the pin.
    pub mux: Mux,
    /// The FlexIO pin number.
    pub pin_number: u8,
    pub polarity: Polarity,
    pub period_ticks: u16,
    pub frequency: u32,
    pub duty: u16,
}

impl Channel {
    /// Whether the period fits the two 8-bit counters, and the duty the period.
    pub open spec fn wf(self) -> bool {
        2 <= self.period_ticks <= 256 && self.duty <= self.period_ticks
    }

    /// Whether the output is constant rather than pulsed.
    pub open spec fn constant(self) -> bool {
        self.duty == 0 || self.duty == self.period_ticks
    }
}

/// The level of a constant output.
pub open spec fn constant_level(polarity: Polarity, active: bool) -> bool {
    match polarity {
        Polarity::ActiveHigh => active,
        Polarity::ActiveLow => !active,
    }
}

/// The compare value of a pulsed output: the inactive ticks less one in the upper half, the active
/// ticks less one in the lower.
pub open spec fn compare_value(period: u16, duty: u16) -> int {
    (period - duty - 1) * 256 + (duty - 1)
}

/// Accesses that enable a timer: its output is kept inactive as GPIO until a nonzero duty is
/// requested.
pub open spec fn enable_program(timer: usize, pin: OutputPin, polarity: Polarity) -> Seq<Op> {
    seq![
        Op::DriveGpio { pin, high: polarity == Polarity::ActiveLow },
        Op::SetMux { pin, mux: Mux::Mux1 },
        Op::DisableTimer(timer),
        Op::ConfigureTimer(timer),
    ]
}

/// Accesses that change the duty of a timer. A constant output is driven as GPIO; a pulsed one is
/// connected to the timer where it was constant before.
pub open spec fn duty_program(timer: usize, channel: Channel, duty: u16) -> Seq<Op> {
    if duty == 0 || duty == channel.period_ticks {
        seq![
            Op::DriveGpio {
                pin: channel.pin,
                high: constant_level(channel.polarity, duty == channel.period_ticks),
            },
            Op::SetMux { pin: channel.pin, mux: Mux::Mux1 },
            Op::StopTimer(timer),
        ]
    } else {
        seq![
            Op::WriteCompare {
                timer,
                value: compare_value(channel.period_ticks, duty) as u16,
            },
        ] + if channel.constant() {
            seq![
                Op::StartTimer {
                    timer,
                    pin_number: channel.pin_number,
                    pinpol: channel.polarity == Polarity::ActiveLow,
                },
                Op::SetMux { pin: channel.pin, mux: channel.mux },
            ]
        } else {
            seq![]
        }
    }
}

/// Accesses that disconnect the pins of the timers below `end`.
pub open spec fn disconnect_program(channels: Seq<Option<Channel>>, end: int) -> Seq<Op>
    decreases end,
{
    if end <= 0 {
        seq![]
    } else {
        disconnect_program(channels, end - 1) + match channels[end - 1] {
            Some(channel) => seq![Op::SetMux { pin: channel.pin, mux: Mux::Mux0 }],
            None => seq![],
        }
    }
}

/// PWM outputs generated by the FlexIO timers.
#[derive(Debug)]
pub struct FlexioPwm {
    timers: usize,
    channels: Vec<Option<Channel>>,
}

impl FlexioPwm {
    /// Whether the driver is consistent.
    pub open spec fn wf(&self) -> bool {
        &&& self.timer_count() <= FLEXIO_TIMERS
        &&& self.channels().len() == FLEXIO_TIMERS
        &&& forall|i: int|
            0 <= i < FLEXIO_TIMERS ==> (#[trigger] self.channels()[i] matches Some(c) ==> c.wf())
    }

    /// The number of timers.
    pub closed spec fn timer_count(&self) -> usize {
        self.timers
    }

    /// The timers that are enabled.
    pub closed spec fn channels(&self) -> Seq<Option<Channel>> {
        self.channels@
    }

    /// Whether a timer exists and is enabled.
    pub open spec fn enabled(&self, timer: usize) -> bool {
        timer < self.timer_count() && self.channels()[timer as int] is Some
    }

    /// A timer that is enabled.
    pub open spec fn channel_of(&self, timer: usize) -> Channel {
        self.channels()[timer as int]->0
    }

    /// Create a FlexIO PWM driver with all outputs disabled, for an instance of `timers` timers.
    pub fn new(timers: usize) -> (r: (Self, Vec<Op>))
        requires
            timers <= FLEXIO_TIMERS,
        ensures
            r.0.wf(),
            r.0.timer_count() == timers,
            r.0.channels() == Seq::new(FLEXIO_TIMERS as nat, |i: int| None::<Channel>),
            r.1@ == seq![Op::EnableFlexioClock, Op::EnableClock, Op::Reset, Op::Enable],
    {
        let ops: Vec<Op> = vec![Op::EnableFlexioClock, Op::EnableClock, Op::Reset, Op::Enable];
        assert(ops@ =~= seq![Op::EnableFlexioClock, Op::EnableClock, Op::Reset, Op::Enable]);
        let channels: Vec<Option<Channel>> = vec![
            None,
            None,
            None,
            None,
            None,
            None,
            None,
            None,
        ];
        assert(channels@ =~= Seq::new(FLEXIO_TIMERS as nat, |i: int| None::<Channel>));
        (FlexioPwm { timers, channels }, ops)
    }

    /// Whether timer `C` can be used.
    pub fn check_flexio_channel<const C: usize>(&self) -> (r: ChannelState)
        requires
            self.wf(),
        ensures
            r == if C >= self.timer_count() {
                ChannelState::Missing
            } else if self.enabled(C) {
                ChannelState::Enabled
            } else {
                ChannelState::Disabled
            },
    {
        if C >= self.timers {
            ChannelState::Missing
        } else if self.channels[C].is_some() {
            ChannelState::Enabled
        } else {
            ChannelState::Disabled
        }
    }

    /// Configure a timer channel on `pin`, initially at 0% duty; `mux` is the alternative that
    /// connects the pin, and `pin_number` its FlexIO pin number.
    pub fn enable_channel<const C: usize>(
        &mut self,
        pin: OutputPin,
        mux: Mux,
        pin_number: u8,
        polarity: Polarity,
        config: FlexioConfig,
    ) -> (r: Vec<Op>)
        requires
            old(self).wf(),
            C < old(self).timer_count(),
            !old(self).enabled(C),
            15_625 <= config.frequency <= 2_000_000,
        ensures
            final(self).wf(),
            final(self).timer_count() == old(self).timer_count(),
            final(self).enabled(C),
            ({
                let channel = final(self).channel_of(C);
                &&& final(self).channels() == old(self).channels().update(C as int, Some(channel))
                &&& pwm::best_flexio_period(config.frequency as int, channel.period_ticks as int)
                &&& channel == (Channel {
                    pin,
                    mux,
                    pin_number,
                    polarity,
                    period_ticks: channel.period_ticks,
                    frequency: (crate::clocks::FLEXIO_CLOCK_HZ as int
                        / channel.period_ticks as int) as u32,
                    duty: 0,
                })
            }),
            r@ == enable_program(C, pin, polarity),
    {
        let (period_ticks, frequency): (u16, u32) = pwm::flexio_timing(config.frequency);
        let channel: Channel = Channel {
            pin,
            mux,
            pin_number,
            polarity,
            period_ticks,
            frequency,
            duty: 0,
        };
        self.channels.set(C, Some(channel));
        let ops: Vec<Op> = vec![
            Op::DriveGpio { pin, high: polarity == Polarity::ActiveLow },
            Op::SetMux { pin, mux: Mux::Mux1 },
            Op::DisableTimer(C),
            Op::ConfigureTimer(C),
        ];
        assert(ops@ =~= enable_program(C, pin, polarity));
        ops
    }

    /// Disable a timer channel and disconnect its pin from FlexIO.
    pub fn disable_channel<const C: usize>(&mut self) -> (r: Vec<Op>)
        requires
            old(self).wf(),
            old(self).enabled(C),
        ensures
            final(self).wf(),
            final(self).timer_count() == old(self).timer_count(),
            final(self).channels() == old(self).channels().update(C as int, None),
            r@ == seq![
                Op::DisableTimer(C),
                Op::SetMux { pin: old(self).channel_of(C).pin, mux: Mux::Mux0 },
            ],
    {
        let mut ops: Vec<Op> = vec![Op::DisableTimer(C)];
        if let Some(channel) = self.channels[C] {
            ops.push(Op::SetMux { pin: channel.pin, mux: Mux::Mux0 });
        }
        self.channels.set(C, None);
        assert(ops@ =~= seq![
            Op::DisableTimer(C),
            Op::SetMux { pin: old(self).channel_of(C).pin, mux: Mux::Mux0 },
        ]);
        ops
    }

    fn get<const C: usize>(&self) -> (r: Channel)
        requires
            self.wf(),
            self.enabled(C),
        ensures
            r == self.channel_of(C),
            r.wf(),
    {
        self.channels[C].unwrap()
    }

    /// Return the actual frequency of a configured channel in hertz.
    pub fn frequency<const C: usize>(&self) -> (r: u32)
        requires
            self.wf(),
            self.enabled(C),
        ensures
            r == self.channel_of(C).frequency,
    {
        self.get::<C>().frequency
    }

    /// Return the duty value corresponding to 100% for a configured channel.
    pub fn max_duty_cycle<const C: usize>(&self) -> (r: u16)
        requires
            self.wf(),
            self.enabled(C),
        ensures
            r == self.channel_of(C).period_ticks,
    {
        self.get::<C>().period_ticks
    }

    /// Set the duty cycle for a configured channel.
    pub fn set_duty_cycle<const C: usize>(&mut self, duty: u16) -> (r: Vec<Op>)
        requires
            old(self).wf(),
            old(self).enabled(C),
            duty <= old(self).channel_of(C).period_ticks,
        ensures
            final(self).wf(),
            final(self).timer_count() == old(self).timer_count(),
            final(self).channels() == old(self).channels().update(
                C as int,
                Some(Channel { duty, ..old(self).channel_of(C) }),
            ),
            r@ == duty_program(C, old(self).channel_of(C), duty),
    {
        let channel: Channel = self.get::<C>();
        let period: u16 = channel.period_ticks;
        let mut ops: Vec<Op> = Vec::new();
        if duty == 0 || duty == period {
            let active: bool = duty == period;
            let high: bool = match channel.polarity {
                Polarity::ActiveHigh => active,
                Polarity::ActiveLow => !active,
            };
            ops.push(Op::DriveGpio { pin: channel.pin, high });
            ops.push(Op::SetMux { pin: channel.pin, mux: Mux::Mux1 });
            ops.push(Op::StopTimer(C));
        } else {
            let active: u16 = duty - 1;
            let inactive: u16 = period - duty - 1;
            assert((inactive << 8u32) | active == inactive * 256 + active) by (bit_vector)
                requires
                    inactive <= 255,
                    active <= 255,
            ;
            let value: u16 = (inactive << 8u32) | active;
            ops.push(Op::WriteCompare { timer: C, value });
            if channel.duty == 0 || channel.duty == period {
                // The timer was configured when the channel was enabled.
                ops.push(
                    Op::StartTimer {
                        timer: C,
                        pin_number: channel.pin_number,
                        pinpol: channel.polarity == Polarity::ActiveLow,
                    },
                );
                ops.push(Op::SetMux { pin: channel.pin, mux: channel.mux });
            }
        }
        assert(ops@ =~= duty_program(C, channel, duty));
        let changed: Channel = Channel {
            pin: channel.pin,
            mux: channel.mux,
            pin_number: channel.pin_number,
            polarity: channel.polarity,
            period_ticks: channel.period_ticks,
            frequency: channel.frequency,
            duty,
        };
        self.channels.set(C, Some(changed));
        ops
    }

    /// Return the current duty cycle for a configured channel.
    pub fn duty_cycle<const C: usize>(&self) -> (r: u16)
        requires
            self.wf(),
            self.enabled(C),
        ensures
            r == self.channel_of(C).duty,
    {
        self.get::<C>().duty
    }

    /// The accesses that end the driver: the instance is reset, and the pins are disconnected.
    pub fn close(&self) -> (r: Vec<Op>)
        requires
            self.wf(),
        ensures
            r@ == seq![Op::Reset, Op::Disable] + disconnect_program(
                self.channels(),
                FLEXIO_TIMERS as int,
            ) + seq![Op::DisableClock],
    {
        let mut ops: Vec<Op> = vec![Op::Reset, Op::Disable];
        let ghost head = ops@;
        let mut i: usize = 0;
        while i < FLEXIO_TIMERS
            invariant
                i <= FLEXIO_TIMERS,
                self.channels@.len() == FLEXIO_TIMERS,
                ops@ == head + disconnect_program(self.channels@, i as int),
            decreases FLEXIO_TIMERS - i,
        {
            if let Some(channel) = self.channels[i] {
                ops.push(Op::SetMux { pin: channel.pin, mux: Mux::Mux0 });
            }
            i = i + 1;
            assert(ops@ =~= head + disconnect_program(self.channels@, i as int));
        }
        ops.push(Op::DisableClock);
        assert(ops@ =~= seq![Op::Reset, Op::Disable] + disconnect_program(
            self.channels(),
            FLEXIO_TIMERS as int,
        ) + seq![Op::DisableClock]);
        ops
    }
}

/// A pulsed output is active for as many ticks of the period as its duty says: the two counters
/// hold the active and the inactive ticks, which fit them, and together make up the period.
pub proof fn law_pulse_widths(period: u16, duty: u16)
    requires
        2 <= period <= 256,
        0 < duty < period,
    ensures
        ({
            let value = compare_value(period, duty);
            &&& 0 <= value <= 0xFFFF
            &&& value % 256 + 1 == duty
            &&& value / 256 + 1 == period - duty
            &&& (value % 256 + 1) + (value / 256 + 1) == period
        }),
{
}

/// A channel at zero is at its inactive level, one at its maximum at its active level, and the
/// inactive level is also the one it starts at.
pub proof fn law_constant_levels(timer: usize, channel: Channel)
    requires
        channel.wf(),
    ensures
        duty_program(timer, channel, 0)[0] == (Op::DriveGpio {
            pin: channel.pin,
            high: channel.polarity == Polarity::ActiveLow,
        }),
        duty_program(timer, channel, channel.period_ticks)[0] == (Op::DriveGpio {
            pin: channel.pin,
            high: channel.polarity == Polarity::ActiveHigh,
        }),
        enable_program(timer, channel.pin, channel.polarity)[0] == duty_program(
            timer,
            channel,
            0,
        )[0],
{
}

/// What [`FlexioPwm::duty_cycle`] returns is what [`FlexioPwm::set_duty_cycle`] set last, which leaves
/// the frequency and the range of the timer and every other timer alone.
pub proof fn law_duty_is_kept(before: FlexioPwm, after: FlexioPwm, timer: usize, other: usize, duty: u16)
    requires
        before.wf(),
        before.enabled(timer),
        other < FLEXIO_TIMERS,
        after.timer_count() == before.timer_count(),
        after.channels() == before.channels().update(
            timer as int,
            Some(Channel { duty, ..before.channel_of(timer) }),
        ),
    ensures
        after.enabled(timer),
        after.channel_of(timer).duty == duty,
        after.channel_of(timer).frequency == before.channel_of(timer).frequency,
        after.channel_of(timer).period_ticks == before.channel_of(timer).period_ticks,
        other != timer ==> after.channels()[other as int] == before.channels()[other as int],
{
}

} // verus!
