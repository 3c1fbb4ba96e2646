//! PWM outputs of a TPM instance.
//!
//! All channels of a TPM instance share one counter and therefore one frequency. Each output pin
//! is configured separately with [`Pwm::enable_channel`].

use vstd::prelude::*;

use crate::clocks::TPM_CLOCK_HZ;
use crate::gpio::Mux;
use crate::pwm;
use crate::pwm::ChannelState;
use crate::pwm::OutputPin;
use crate::pwm::Polarity;
use crate::pwm::Ps;

verus! {

/// Most channels of an instance.
pub const MAX_CHANNELS: usize = 6;

/// PWM configuration.
#[derive(Clone, Copy, Debug, PartialEq, Eq, Structural)]
pub struct Config {
    /// Requested output frequency in hertz.
    ///
    /// The closest frequency supported by the 4 MHz TPM clock is used. Frequencies from 1 Hz to
    /// 2 MHz are accepted.
    pub frequency: u32,
}

impl Default for Config {
    fn default() -> (r: Self)
        ensures
            r == (Config { frequency: 1_000 }),
    {
        Config { frequency: 1_000 }
    }
}

/// A register access of the PWM driver.
#[derive(Clone, Copy, Debug, PartialEq, Eq, Structural)]
pub enum Op {
    /// Run the fast internal reference and select it for the TPM instances.
    EnableTpmClock,
    /// Open the clock gate of the instance.
    EnableClock,
    /// Close the clock gate of the instance.
    DisableClock,
    /// Write the whole of `SC`: counter stopped, overflow flag cleared.
    Stop,
    /// `SC[CMOD] = 0`: counter stopped.
    Halt,
    /// Write the whole of `CnSC`: channel disabled, its flag cleared.
    ResetChannel(usize),
    /// Write `CnV`.
    WriteDuty { channel: usize, duty: u16 },
    /// Write zero to `CNT`.
    ResetCounter,
    /// Write `MOD`.
    WriteModulo(u16),
    /// Write the whole of `SC`: this prescaler, counter running.
    Start(Ps),
    /// Write the whole of `CnSC`: edge-aligned PWM (`MSB`), its flag cleared, active high (`ELSB`)
    /// or active low (`ELSA`).
    ConfigureChannel { channel: usize, elsb: bool, elsa: bool },
    /// `PCR[MUX]` of a pin.
    SetMux { pin: OutputPin, mux: Mux },
}

/// Accesses that reset the channels below `end`, and their duty.
pub open spec fn reset_channels(end: int) -> Seq<Op>
    decreases end,
{
    if end <= 0 {
        seq![]
    } else {
        reset_channels(end - 1) + seq![
            Op::ResetChannel((end - 1) as usize),
            Op::WriteDuty { channel: (end - 1) as usize, duty: 0 },
        ]
    }
}

/// Accesses that disable the channels below `end`.
pub open spec fn disable_channels(end: int) -> Seq<Op>
    decreases end,
{
    if end <= 0 {
        seq![]
    } else {
        disable_channels(end - 1).push(Op::ResetChannel((end - 1) as usize))
    }
}

/// Accesses that set the instance up: the counter is stopped while the shared period is set and old
/// channel modes are cleared.
pub open spec fn configure_program(channels: int, prescaler: Ps, period_ticks: u16) -> Seq<Op> {
    seq![Op::EnableTpmClock, Op::EnableClock, Op::Stop] + reset_channels(channels) + seq![
        Op::ResetCounter,
        Op::WriteModulo((period_ticks - 1) as u16),
        Op::Start(prescaler),
    ]
}

/// Whether a prescaler and a period come closest to the frequency of a configuration, and give this
/// one.
pub open spec fn timed(config: Config, prescaler: Ps, period: u16, rate: u32) -> bool {
    &&& pwm::best_timing(config.frequency as int, prescaler.bits(), period as int)
    &&& rate == TPM_CLOCK_HZ as int / (pwm::divider(prescaler.bits()) * period)
}

/// Accesses that enable a channel: its inactive level is configured before the peripheral is
/// connected to the pin.
pub open spec fn enable_program(channel: usize, pin: OutputPin, mux: Mux, polarity: Polarity) -> Seq<
    Op,
> {
    seq![
        Op::WriteDuty { channel, duty: 0 },
        Op::ConfigureChannel {
            channel,
            elsb: polarity == Polarity::ActiveHigh,
            elsa: polarity == Polarity::ActiveLow,
        },
        Op::SetMux { pin, mux },
    ]
}

/// Accesses that disconnect the pins of the channels below `end`.
pub open spec fn disconnect_program(pins: Seq<Option<OutputPin>>, end: int) -> Seq<Op>
    decreases end,
{
    if end <= 0 {
        seq![]
    } else {
        disconnect_program(pins, end - 1) + match pins[end - 1] {
            Some(pin) => seq![Op::SetMux { pin, mux: Mux::Mux0 }],
            None => seq![],
        }
    }
}

/// PWM driver for one TPM instance.
#[derive(Debug)]
pub struct Pwm {
    channels: usize,
    pins: Vec<Option<OutputPin>>,
    period_ticks: u16,
    frequency: u32,
}

impl Pwm {
    /// Whether the driver is consistent.
    pub open spec fn wf(&self) -> bool {
        &&& self.channel_count() <= MAX_CHANNELS
        &&& self.outputs().len() == MAX_CHANNELS
        &&& self.period() >= 2
    }

    /// The number of channels.
    pub closed spec fn channel_count(&self) -> usize {
        self.channels
    }

    /// The pin of each channel that is enabled.
    pub closed spec fn outputs(&self) -> Seq<Option<OutputPin>> {
        self.pins@
    }

    /// The duty value corresponding to a 100% duty cycle.
    pub closed spec fn period(&self) -> u16 {
        self.period_ticks
    }

    /// The actual frequency.
    pub closed spec fn rate(&self) -> u32 {
        self.frequency
    }

    /// Whether a channel exists and is enabled.
    pub open spec fn enabled(&self, channel: usize) -> bool {
        channel < self.channel_count() && self.outputs()[channel as int] is Some
    }

    /// Create a PWM driver for an instance of `channels` channels.
    ///
    /// The TPM uses edge-aligned PWM. Outputs remain disabled until configured with
    /// [`enable_channel`](Self::enable_channel).
    pub fn new(channels: usize, config: Config) -> (r: (Self, Vec<Op>))
        requires
            channels <= MAX_CHANNELS,
            1 <= config.frequency <= 2_000_000,
        ensures
            r.0.wf(),
            r.0.channel_count() == channels,
            r.0.outputs() == Seq::new(MAX_CHANNELS as nat, |i: int| None::<OutputPin>),
            exists|prescaler: Ps| #[trigger]
                timed(config, prescaler, r.0.period(), r.0.rate()) && r.1@ == configure_program(
                    channels as int,
                    prescaler,
                    r.0.period(),
                ),
    {
        let (prescaler, period_ticks, frequency): (Ps, u16, u32) = pwm::timing(config.frequency);
        let mut ops: Vec<Op> = vec![Op::EnableTpmClock, Op::EnableClock, Op::Stop];
        let ghost head = ops@;
        let mut channel: usize = 0;
        while channel < channels
            invariant
                channel <= channels,
                ops@ == head + reset_channels(channel as int),
            decreases channels - channel,
        {
            let ghost before = ops@;
            ops.push(Op::ResetChannel(channel));
            ops.push(Op::WriteDuty { channel, duty: 0 });
            assert(ops@ =~= head + reset_channels(channel + 1));
            channel = channel + 1;
        }
        ops.push(Op::ResetCounter);
        ops.push(Op::WriteModulo(period_ticks - 1));
        ops.push(Op::Start(prescaler));
        let pins: Vec<Option<OutputPin>> = vec![None, None, None, None, None, None];
        assert(pins@ =~= Seq::new(MAX_CHANNELS as nat, |i: int| None::<OutputPin>));
        let driver: Pwm = Pwm { channels, pins, period_ticks, frequency };
        assert(timed(config, prescaler, driver.period(), driver.rate()));
        (driver, ops)
    }

    /// Whether channel `C` can be used.
    pub fn check_channel<const C: usize>(&self) -> (r: ChannelState)
        requires
            self.wf(),
        ensures
            r == if C >= self.channel_count() {
                ChannelState::Missing
            } else if self.enabled(C) {
                ChannelState::Enabled
            } else {
                ChannelState::Disabled
            },
    {
        if C >= self.channels {
            ChannelState::Missing
        } else if self.pins[C].is_some() {
            ChannelState::Enabled
        } else {
            ChannelState::Disabled
        }
    }

    /// Return the actual PWM frequency in hertz.
    pub fn frequency(&self) -> (r: u32)
        ensures
            r == self.rate(),
    {
        self.frequency
    }

    /// Return the duty value corresponding to a 100% duty cycle.
    pub fn max_duty_cycle(&self) -> (r: u16)
        ensures
            r == self.period(),
    {
        self.period_ticks
    }

    /// Configure and enable a TPM channel on `pin`, initially at 0% duty; `mux` is the alternative
    /// that connects the pin.
    pub fn enable_channel<const C: usize>(
        &mut self,
        pin: OutputPin,
        mux: Mux,
        polarity: Polarity,
    ) -> (r: Vec<Op>)
        requires
            old(self).wf(),
            C < old(self).channel_count(),
            !old(self).enabled(C),
        ensures
            final(self).wf(),
            final(self).channel_count() == old(self).channel_count(),
            final(self).period() == old(self).period(),
            final(self).rate() == old(self).rate(),
            final(self).outputs() == old(self).outputs().update(C as int, Some(pin)),
            r@ == enable_program(C, pin, mux, polarity),
    {
        self.pins.set(C, Some(pin));
        let ops: Vec<Op> = vec![
            Op::WriteDuty { channel: C, duty: 0 },
            Op::ConfigureChannel {
                channel: C,
                elsb: polarity == Polarity::ActiveHigh,
                elsa: polarity == Polarity::ActiveLow,
            },
            Op::SetMux { pin, mux },
        ];
        assert(ops@ =~= enable_program(C, pin, mux, polarity));
        ops
    }

    /// Disable a channel and disconnect its pin from the TPM.
    pub fn disable_channel<const C: usize>(&mut self) -> (r: Vec<Op>)
        requires
            old(self).wf(),
            C < old(self).channel_count(),
        ensures
            final(self).wf(),
            final(self).channel_count() == old(self).channel_count(),
            final(self).period() == old(self).period(),
            final(self).rate() == old(self).rate(),
            final(self).outputs() == old(self).outputs().update(C as int, None),
            r@ == seq![Op::ResetChannel(C)] + match old(self).outputs()[C as int] {
                Some(pin) => seq![Op::SetMux { pin, mux: Mux::Mux0 }],
                None => seq![],
            },
    {
        let mut ops: Vec<Op> = vec![Op::ResetChannel(C)];
        if let Some(pin) = self.pins[C] {
            ops.push(Op::SetMux { pin, mux: Mux::Mux0 });
        }
        self.pins.set(C, None);
        assert(ops@ =~= seq![Op::ResetChannel(C)] + match old(self).outputs()[C as int] {
            Some(pin) => seq![Op::SetMux { pin, mux: Mux::Mux0 }],
            None => seq![],
        });
        ops
    }

    /// Set the duty cycle for a configured channel.
    ///
    /// `0` is always inactive and [`max_duty_cycle`](Self::max_duty_cycle) is always active.
    pub fn set_duty_cycle<const C: usize>(&mut self, duty: u16) -> (r: Op)
        requires
            old(self).wf(),
            old(self).enabled(C),
            duty <= old(self).period(),
        ensures
            *final(self) == *old(self),
            r == (Op::WriteDuty { channel: C, duty }),
    {
        Op::WriteDuty { channel: C, duty }
    }

    /// The accesses that end the driver: the counter stops, and the pins are disconnected.
    pub fn close(&self) -> (r: Vec<Op>)
        requires
            self.wf(),
        ensures
            r@ == seq![Op::Halt] + disable_channels(self.channel_count() as int)
                + disconnect_program(self.outputs(), self.channel_count() as int) + seq![
                Op::DisableClock,
            ],
    {
        let mut ops: Vec<Op> = vec![Op::Halt];
        let mut channel: usize = 0;
        while channel < self.channels
            invariant
                channel <= self.channels,
                ops@ == seq![Op::Halt] + disable_channels(channel as int),
            decreases self.channels - channel,
        {
            ops.push(Op::ResetChannel(channel));
            channel = channel + 1;
            assert(ops@ =~= seq![Op::Halt] + disable_channels(channel as int));
        }
        let ghost halted = ops@;
        let mut i: usize = 0;
        while i < self.channels
            invariant
                i <= self.channels <= self.pins@.len(),
                ops@ == halted + disconnect_program(self.pins@, i as int),
            decreases self.channels - i,
        {
            if let Some(pin) = self.pins[i] {
                ops.push(Op::SetMux { pin, mux: Mux::Mux0 });
            }
            i = i + 1;
            assert(ops@ =~= halted + disconnect_program(self.pins@, i as int));
        }
        ops.push(Op::DisableClock);
        assert(ops@ =~= seq![Op::Halt] + disable_channels(self.channel_count() as int)
            + disconnect_program(self.outputs(), self.channel_count() as int) + seq![
            Op::DisableClock,
        ]);
        ops
    }
}

/// Whether an edge-aligned output is active at a count: while the count is below the duty.
pub open spec fn active_at(duty: u16, count: int) -> bool {
    count < duty
}

/// A channel is active for as many of the counts in a period as its duty says: never at zero, always
/// at the maximum. The modulo is the last count.
pub proof fn law_duty_extremes(period: u16, duty: u16, count: int)
    requires
        period >= 2,
        duty <= period,
        0 <= count <= period - 1,
    ensures
        duty == 0 ==> !active_at(duty, count),
        duty == period ==> active_at(duty, count),
        active_at(duty, count) <==> 0 <= count < duty,
{
}

/// An output is connected to its pin only once it is inactive.
pub proof fn law_enabled_inactive(channel: usize, pin: OutputPin, mux: Mux, polarity: Polarity)
    ensures
        ({
            let program = enable_program(channel, pin, mux, polarity);
            program.last() == (Op::SetMux { pin, mux }) && program[0] == (Op::WriteDuty {
                channel,
                duty: 0,
            })
        }),
{
}

} // verus!
