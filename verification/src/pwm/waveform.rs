//! What the PWM drivers put out.
//!
//! [`tpm_after`] is the state that accesses leave a TPM instance in, and [`Tpm::level`] the level of
//! an output then, as the reference manual has it; [`flexio_after`] and [`Flexio::level`] are the same
//! for a FlexIO timer. The laws hold them against what was asked for.

use vstd::arithmetic::power2::pow2;
use vstd::prelude::*;

use crate::gpio::Mux;
use crate::pwm;
use crate::pwm::flexio;
use crate::pwm::flexio::Channel;
use crate::pwm::tpm;
use crate::pwm::tpm::Config;
use crate::pwm::OutputPin;
use crate::pwm::Polarity;
use crate::pwm::Ps;

verus! {

// ---------------------------------------------------------------------------------------------
// TPM
// ---------------------------------------------------------------------------------------------

/// A TPM instance and its pins.
pub ghost struct Tpm {
    /// The fast internal reference runs and feeds the instance.
    pub reference: bool,
    pub clocked: bool,
    pub running: bool,
    pub ps: Ps,
    pub modulo: u16,
    pub channels: TpmChannels,
    pub pins: Map<OutputPin, Mux>,
    /// No access came while the instance was not clocked, and its period changed only while the
    /// counter was stopped.
    pub in_order: bool,
}

/// The channels of a TPM instance.
pub ghost struct TpmChannels {
    /// `ELSB` and `ELSA` of a channel in edge-aligned PWM mode, and nothing of a disabled one.
    pub edges: Map<usize, Option<(bool, bool)>>,
    /// `CnV`.
    pub duty: Map<usize, u16>,
}

impl Tpm {
    /// The level of a channel's output at a count; none where the channel does not drive it.
    pub open spec fn level(self, channel: usize, count: int) -> Option<bool> {
        match self.channels.edges[channel] {
            // High until the count reaches the duty.
            Some((true, false)) => Some(count < self.channels.duty[channel]),
            // Low until the count reaches the duty.
            Some((false, true)) => Some(count >= self.channels.duty[channel]),
            _ => None,
        }
    }
}

/// A TPM instance after an access.
#[verifier::opaque]
pub open spec fn tpm_step(op: tpm::Op, t: Tpm) -> Tpm {
    match op {
        tpm::Op::EnableTpmClock => Tpm { reference: true, ..t },
        tpm::Op::EnableClock => Tpm { clocked: true, ..t },
        tpm::Op::DisableClock => Tpm { clocked: false, ..t },
        tpm::Op::Stop | tpm::Op::Halt => Tpm {
            running: false,
            in_order: t.in_order && t.clocked,
            ..t
        },
        tpm::Op::ResetChannel(channel) => Tpm {
            channels: TpmChannels { edges: t.channels.edges.insert(channel, None), ..t.channels },
            in_order: t.in_order && t.clocked,
            ..t
        },
        tpm::Op::WriteDuty { channel, duty } => Tpm {
            channels: TpmChannels { duty: t.channels.duty.insert(channel, duty), ..t.channels },
            in_order: t.in_order && t.clocked,
            ..t
        },
        tpm::Op::ResetCounter => Tpm { in_order: t.in_order && t.clocked && !t.running, ..t },
        tpm::Op::WriteModulo(modulo) => Tpm {
            modulo,
            in_order: t.in_order && t.clocked && !t.running,
            ..t
        },
        tpm::Op::Start(ps) => Tpm {
            ps,
            running: true,
            in_order: t.in_order && t.clocked && t.reference,
            ..t
        },
        tpm::Op::ConfigureChannel { channel, elsb, elsa } => Tpm {
            channels: TpmChannels {
                edges: t.channels.edges.insert(channel, Some((elsb, elsa))),
                ..t.channels
            },
            in_order: t.in_order && t.clocked,
            ..t
        },
        tpm::Op::SetMux { pin, mux } => Tpm { pins: t.pins.insert(pin, mux), ..t },
    }
}

/// A TPM instance after the first `n` of some accesses.
pub open spec fn tpm_after(ops: Seq<tpm::Op>, n: int, from: Tpm) -> Tpm
    decreases n,
{
    if n <= 0 {
        from
    } else {
        tpm_step(ops[n - 1], tpm_after(ops, n - 1, from))
    }
}

proof fn lemma_tpm_prefix(a: Seq<tpm::Op>, b: Seq<tpm::Op>, n: int, from: Tpm)
    requires
        0 <= n <= a.len(),
    ensures
        tpm_after(a + b, n, from) == tpm_after(a, n, from),
    decreases n,
{
    if n > 0 {
        lemma_tpm_prefix(a, b, n - 1, from);
        assert((a + b)[n - 1] == a[n - 1]);
    }
}

proof fn lemma_tpm_append(a: Seq<tpm::Op>, b: Seq<tpm::Op>, n: int, from: Tpm)
    requires
        0 <= n <= b.len(),
    ensures
        tpm_after(a + b, a.len() + n, from) == tpm_after(b, n, tpm_after(a, a.len() as int, from)),
    decreases n,
{
    if n > 0 {
        lemma_tpm_append(a, b, n - 1, from);
        assert((a + b)[a.len() + n - 1] == b[n - 1]);
    } else {
        lemma_tpm_prefix(a, b, a.len() as int, from);
    }
}

proof fn lemma_reset_channels(end: int, from: Tpm)
    requires
        0 <= end <= 6,
        from.clocked,
    ensures
        ({
            let ops = tpm::reset_channels(end);
            let to = tpm_after(ops, ops.len() as int, from);
            &&& to == (Tpm { channels: to.channels, ..from })
            &&& forall|c: usize|
                c < end ==> #[trigger] to.channels.edges[c] is None && to.channels.duty[c] == 0
        }),
    decreases end,
{
    let ops = tpm::reset_channels(end);
    if end > 0 {
        let a = tpm::reset_channels(end - 1);
        let last = (end - 1) as usize;
        let b = seq![
            tpm::Op::ResetChannel(last),
            tpm::Op::WriteDuty { channel: last, duty: 0 },
        ];
        lemma_reset_channels(end - 1, from);
        lemma_tpm_append(a, b, 2, from);
        assert(ops =~= a + b);
        let mid = tpm_after(a, a.len() as int, from);
        reveal(tpm_step);
        reveal_with_fuel(tpm_after, 3);
    }
}

/// A new driver makes the frequency that it reports, and with the period that it reports. Whatever
/// the registers held before, the counter runs from the 4 MHz reference with a prescaler and a modulo
/// that divide it to the frequency reported, no others that the fields can hold come closer to the
/// one asked for, none that come as close have a longer period, and every channel is off and at zero.
pub proof fn law_tpm_makes_the_reported_frequency(
    channels: int,
    config: Config,
    prescaler: Ps,
    period: u16,
    rate: u32,
    from: Tpm,
)
    requires
        0 <= channels <= 6,
        tpm::timed(config, prescaler, period, rate),
        from.in_order,
    ensures
        ({
            let ops = tpm::configure_program(channels, prescaler, period);
            let to = tpm_after(ops, ops.len() as int, from);
            let divided = pow2(to.ps.bits() as nat) * (to.modulo + 1);
            &&& to.in_order
            &&& to.clocked && to.reference && to.running
            &&& to.modulo + 1 == period
            &&& rate == 4_000_000int / divided
            &&& forall|ps: nat, ticks: int|
                ps <= 7 && 2 <= ticks <= 65535 ==> {
                    let other = #[trigger] (pow2(ps) * ticks);
                    let here = frequency_error(config.frequency as int, divided) * other;
                    let there = frequency_error(config.frequency as int, other) * divided;
                    here < there || here == there && (ticks < period || ticks == period
                        && to.ps.bits() <= ps)
                }
            &&& forall|c: usize|
                c < channels ==> #[trigger] to.channels.edges[c] is None && to.channels.duty[c] == 0
            &&& to.pins == from.pins
        }),
{
    let head = seq![tpm::Op::EnableTpmClock, tpm::Op::EnableClock, tpm::Op::Stop];
    let middle = tpm::reset_channels(channels);
    let tail = seq![
        tpm::Op::ResetCounter,
        tpm::Op::WriteModulo((period - 1) as u16),
        tpm::Op::Start(prescaler),
    ];
    let ops = tpm::configure_program(channels, prescaler, period);
    assert(ops =~= head + middle + tail);
    let a = tpm_after(head, 3, from);
    assert(a == (Tpm { reference: true, clocked: true, running: false, ..from })) by {
        reveal(tpm_step);
        reveal_with_fuel(tpm_after, 4);
    }
    let b = tpm_after(middle, middle.len() as int, a);
    lemma_reset_channels(channels, a);
    let c = tpm_after(tail, 3, b);
    assert(c == (Tpm { modulo: (period - 1) as u16, ps: prescaler, running: true, ..b })) by {
        reveal(tpm_step);
        reveal_with_fuel(tpm_after, 4);
    }
    lemma_tpm_append(head, middle, middle.len() as int, from);
    lemma_tpm_append(head + middle, tail, 3, from);
    let divided = pow2(prescaler.bits() as nat) * period;
    assert forall|ps: nat, ticks: int| ps <= 7 && 2 <= ticks <= 65535 implies {
        let other = #[trigger] (pow2(ps) * ticks);
        let here = frequency_error(config.frequency as int, divided) * other;
        let there = frequency_error(config.frequency as int, other) * divided;
        here < there || here == there && (ticks < period || ticks == period && prescaler.bits() <= ps)
    } by {
        assert(!pwm::preferred(
            config.frequency as int,
            ps as int,
            ticks,
            prescaler.bits(),
            period as int,
        ));
    }
}

/// How far the 4 MHz reference divided by `divisor` is from a frequency, times the divisor.
pub open spec fn frequency_error(frequency: int, divisor: int) -> int {
    if 4_000_000 >= frequency * divisor {
        4_000_000 - frequency * divisor
    } else {
        frequency * divisor - 4_000_000
    }
}

/// A channel puts out what was asked for: once it is enabled its output is connected and constantly
/// inactive, and after a duty is written it is active for exactly as many counts of a period as the
/// duty says, high or low as its polarity has it. Other channels and pins are left alone.
pub proof fn law_tpm_output(
    channel: usize,
    pin: OutputPin,
    mux: Mux,
    polarity: Polarity,
    duty: u16,
    count: int,
    from: Tpm,
)
    requires
        from.in_order,
        from.clocked,
        0 <= count,
    ensures
        ({
            let ops = tpm::enable_program(channel, pin, mux, polarity);
            let to = tpm_after(ops, ops.len() as int, from);
            let pulsed = tpm_step(tpm::Op::WriteDuty { channel, duty }, to);
            &&& to.in_order
            &&& to.pins == from.pins.insert(pin, mux)
            &&& to.level(channel, count) == Some(polarity == Polarity::ActiveLow)
            &&& to.modulo == from.modulo && to.ps == from.ps && to.running == from.running
            &&& forall|c: usize|
                c != channel ==> #[trigger] to.channels.edges[c] == from.channels.edges[c]
                    && to.channels.duty[c] == from.channels.duty[c]
            &&& pulsed.level(channel, count) == if count < duty {
                Some(polarity == Polarity::ActiveHigh)
            } else {
                Some(polarity == Polarity::ActiveLow)
            }
            // The modulo is the last count, so one more is always active.
            &&& count <= pulsed.modulo && duty == pulsed.modulo + 1 ==> pulsed.level(channel, count)
                == Some(polarity == Polarity::ActiveHigh)
        }),
{
    reveal(tpm_step);
    reveal_with_fuel(tpm_after, 4);
}

proof fn lemma_disable_channels(end: int, from: Tpm)
    requires
        0 <= end <= 6,
        from.clocked,
    ensures
        ({
            let ops = tpm::disable_channels(end);
            let to = tpm_after(ops, ops.len() as int, from);
            &&& to == (Tpm { channels: to.channels, ..from })
            &&& forall|c: usize| c < end ==> #[trigger] to.channels.edges[c] is None
        }),
    decreases end,
{
    let ops = tpm::disable_channels(end);
    if end > 0 {
        let a = tpm::disable_channels(end - 1);
        let b = seq![tpm::Op::ResetChannel((end - 1) as usize)];
        lemma_disable_channels(end - 1, from);
        lemma_tpm_append(a, b, 1, from);
        assert(ops =~= a + b);
        reveal(tpm_step);
        reveal_with_fuel(tpm_after, 2);
    }
}

proof fn lemma_disconnect(outputs: Seq<Option<OutputPin>>, end: int, from: Tpm)
    requires
        0 <= end <= outputs.len(),
    ensures
        ({
            let ops = tpm::disconnect_program(outputs, end);
            let to = tpm_after(ops, ops.len() as int, from);
            &&& to == (Tpm { pins: to.pins, ..from })
            &&& forall|i: int|
                0 <= i < end ==> (#[trigger] outputs[i] matches Some(pin) ==> to.pins[pin]
                    == Mux::Mux0)
        }),
    decreases end,
{
    let ops = tpm::disconnect_program(outputs, end);
    if end > 0 {
        let a = tpm::disconnect_program(outputs, end - 1);
        lemma_disconnect(outputs, end - 1, from);
        match outputs[end - 1] {
            Some(pin) => {
                let b = seq![tpm::Op::SetMux { pin, mux: Mux::Mux0 }];
                lemma_tpm_append(a, b, 1, from);
                assert(ops =~= a + b);
                reveal(tpm_step);
                reveal_with_fuel(tpm_after, 2);
            },
            None => {
                assert(ops =~= a);
            },
        }
    }
}

/// A driver that ends leaves nothing behind: the counter stands, every channel is off, every pin that
/// it used is disconnected, and the clock of the instance is off once nothing needs it any more.
pub proof fn law_tpm_ends(channels: int, outputs: Seq<Option<OutputPin>>, from: Tpm)
    requires
        0 <= channels <= 6,
        channels <= outputs.len(),
        from.in_order,
        from.clocked,
    ensures
        ({
            let ops = seq![tpm::Op::Halt] + tpm::disable_channels(channels)
                + tpm::disconnect_program(outputs, channels) + seq![tpm::Op::DisableClock];
            let to = tpm_after(ops, ops.len() as int, from);
            &&& to.in_order
            &&& !to.running && !to.clocked
            &&& forall|c: usize| c < channels ==> #[trigger] to.channels.edges[c] is None
            &&& forall|i: int|
                0 <= i < channels ==> (#[trigger] outputs[i] matches Some(pin) ==> to.pins[pin]
                    == Mux::Mux0)
        }),
{
    let head = seq![tpm::Op::Halt];
    let off = tpm::disable_channels(channels);
    let cut = tpm::disconnect_program(outputs, channels);
    let tail = seq![tpm::Op::DisableClock];
    let a = tpm_after(head, 1, from);
    assert(a == (Tpm { running: false, ..from })) by {
        reveal(tpm_step);
        reveal_with_fuel(tpm_after, 2);
    }
    let b = tpm_after(off, off.len() as int, a);
    lemma_disable_channels(channels, a);
    let c = tpm_after(cut, cut.len() as int, b);
    lemma_disconnect(outputs, channels, b);
    let d = tpm_after(tail, 1, c);
    assert(d == (Tpm { clocked: false, ..c })) by {
        reveal(tpm_step);
        reveal_with_fuel(tpm_after, 2);
    }
    lemma_tpm_append(head, off, off.len() as int, from);
    lemma_tpm_append(head + off, cut, cut.len() as int, from);
    lemma_tpm_append(head + off + cut, tail, 1, from);
}

// ---------------------------------------------------------------------------------------------
// FlexIO
// ---------------------------------------------------------------------------------------------

/// One FlexIO timer and one pin.
pub ghost struct Flexio {
    /// The compare register.
    pub compare: u16,
    /// The FlexIO pin that the timer drives in dual 8-bit PWM mode, and whether that is inverted;
    /// nothing while it is off.
    pub drives: Option<(u8, bool)>,
    /// The timer is configured to run all the time, on the FlexIO clock, from an output of one.
    pub configured: bool,
    /// The level that the pin has as GPIO.
    pub gpio: bool,
    /// What the pin is connected to.
    pub mux: Mux,
    /// The pin was connected to nothing that did not drive it, and the timer started only when it
    /// was configured.
    pub in_order: bool,
}

impl Flexio {
    /// The level of the pin at a tick of a period. In dual 8-bit PWM mode the output is high for as
    /// many ticks as the lower half of the compare register says, and low for as many as the upper
    /// half says, each plus one.
    pub open spec fn level(self, tick: int) -> Option<bool> {
        if self.mux == Mux::Mux1 {
            Some(self.gpio)
        } else {
            match self.drives {
                Some((pin, inverted)) => Some((tick < self.compare as int % 256 + 1) != inverted),
                None => None,
            }
        }
    }

    /// The ticks of a period.
    pub open spec fn period(self) -> int {
        (self.compare as int % 256 + 1) + (self.compare as int / 256 + 1)
    }
}

/// A timer and a pin after an access.
pub open spec fn flexio_step(op: flexio::Op, timer: usize, pin: OutputPin, f: Flexio) -> Flexio {
    match op {
        flexio::Op::DriveGpio { pin: p, high } => if p == pin {
            Flexio { gpio: high, ..f }
        } else {
            f
        },
        flexio::Op::SetMux { pin: p, mux } => if p == pin {
            Flexio {
                mux,
                in_order: f.in_order && (mux == Mux::Mux1 || mux == Mux::Mux0 || f.drives is Some),
                ..f
            }
        } else {
            f
        },
        flexio::Op::DisableTimer(t) | flexio::Op::StopTimer(t) => if t == timer {
            Flexio {
                drives: None,
                // A pin that the timer drives is taken away from it first.
                in_order: f.in_order && (f.mux == Mux::Mux1 || f.drives is None),
                ..f
            }
        } else {
            f
        },
        flexio::Op::ConfigureTimer(t) => if t == timer {
            Flexio { configured: true, in_order: f.in_order && f.drives is None, ..f }
        } else {
            f
        },
        flexio::Op::WriteCompare { timer: t, value } => if t == timer {
            Flexio { compare: value, ..f }
        } else {
            f
        },
        flexio::Op::StartTimer { timer: t, pin_number, pinpol } => if t == timer {
            Flexio {
                drives: Some((pin_number, pinpol)),
                in_order: f.in_order && f.configured,
                ..f
            }
        } else {
            f
        },
        _ => f,
    }
}

/// A timer and a pin after the first `n` of some accesses.
pub open spec fn flexio_after(
    ops: Seq<flexio::Op>,
    n: int,
    timer: usize,
    pin: OutputPin,
    from: Flexio,
) -> Flexio
    decreases n,
{
    if n <= 0 {
        from
    } else {
        flexio_step(ops[n - 1], timer, pin, flexio_after(ops, n - 1, timer, pin, from))
    }
}

/// Whether a timer and its pin put out what a channel says.
pub open spec fn flexio_puts_out(f: Flexio, channel: Channel) -> bool {
    &&& f.configured
    &&& forall|tick: int|
        0 <= tick < channel.period_ticks ==> #[trigger] f.level(tick) == Some(
            (tick < channel.duty) == (channel.polarity == Polarity::ActiveHigh),
        )
    &&& channel.duty == 0 || channel.duty == channel.period_ticks ==> f.mux == Mux::Mux1
        && f.drives is None
    &&& 0 < channel.duty < channel.period_ticks ==> {
        &&& f.mux == channel.mux
        &&& f.drives == Some((channel.pin_number, channel.polarity == Polarity::ActiveLow))
        &&& f.period() == channel.period_ticks
    }
}

/// A timer that is enabled is constantly inactive, with the period closest to the frequency asked
/// for that the two counters can make of the 4 MHz reference, and the longest of those.
pub proof fn law_flexio_enabled(timer: usize, channel: Channel, frequency: u32, from: Flexio)
    requires
        channel.duty == 0,
        pwm::best_flexio_period(frequency as int, channel.period_ticks as int),
        from.in_order,
        from.drives is None,
    ensures
        ({
            let ops = flexio::enable_program(timer, channel.pin, channel.polarity);
            let to = flexio_after(ops, ops.len() as int, timer, channel.pin, from);
            &&& to.in_order
            &&& flexio_puts_out(to, channel)
            &&& 2 <= channel.period_ticks <= 256
            &&& forall|ticks: int|
                2 <= ticks <= 256 ==> {
                    let period = channel.period_ticks as int;
                    let here = frequency_error(frequency as int, period) * ticks;
                    let there = #[trigger] frequency_error(frequency as int, ticks) * period;
                    here < there || here == there && ticks <= period
                }
        }),
{
    reveal_with_fuel(flexio_after, 5);
    assert forall|ticks: int| 2 <= ticks <= 256 implies {
        let period = channel.period_ticks as int;
        let here = frequency_error(frequency as int, period) * ticks;
        let there = #[trigger] frequency_error(frequency as int, ticks) * period;
        here < there || here == there && ticks <= period
    } by {
        assert(!pwm::flexio_preferred(frequency as int, ticks, channel.period_ticks as int));
    }
}

/// A duty that is set is put out: from any duty to any other, the pin is active for exactly as many
/// ticks of the period as the new duty says, at the level of its polarity, and the pin is never left
/// to a timer that does not drive it. Other timers and pins are left alone.
pub proof fn law_flexio_puts_out_the_duty(
    timer: usize,
    channel: Channel,
    duty: u16,
    from: Flexio,
    other_timer: usize,
    other_pin: OutputPin,
    other: Flexio,
)
    requires
        channel.wf(),
        channel.mux != Mux::Mux0 && channel.mux != Mux::Mux1,
        duty <= channel.period_ticks,
        from.in_order,
        flexio_puts_out(from, channel),
        other_timer != timer,
        other_pin != channel.pin,
    ensures
        ({
            let ops = flexio::duty_program(timer, channel, duty);
            let to = flexio_after(ops, ops.len() as int, timer, channel.pin, from);
            &&& to.in_order
            &&& flexio_puts_out(to, Channel { duty, ..channel })
            &&& flexio_after(ops, ops.len() as int, other_timer, other_pin, other) == other
        }),
{
    reveal_with_fuel(flexio_after, 4);
    let ops = flexio::duty_program(timer, channel, duty);
    let to = flexio_after(ops, ops.len() as int, timer, channel.pin, from);
    if 0 < duty < channel.period_ticks {
        flexio::law_pulse_widths(channel.period_ticks, duty);
        assert(to.compare as int == flexio::compare_value(channel.period_ticks, duty));
    }
}

proof fn lemma_flexio_append(
    a: Seq<flexio::Op>,
    b: Seq<flexio::Op>,
    n: int,
    timer: usize,
    pin: OutputPin,
    from: Flexio,
)
    requires
        0 <= n <= b.len(),
    ensures
        flexio_after(a + b, a.len() + n, timer, pin, from) == flexio_after(
            b,
            n,
            timer,
            pin,
            flexio_after(a, a.len() as int, timer, pin, from),
        ),
    decreases n,
{
    if n > 0 {
        lemma_flexio_append(a, b, n - 1, timer, pin, from);
        assert((a + b)[a.len() + n - 1] == b[n - 1]);
    } else {
        lemma_flexio_prefix(a, b, a.len() as int, timer, pin, from);
    }
}

proof fn lemma_flexio_prefix(
    a: Seq<flexio::Op>,
    b: Seq<flexio::Op>,
    n: int,
    timer: usize,
    pin: OutputPin,
    from: Flexio,
)
    requires
        0 <= n <= a.len(),
    ensures
        flexio_after(a + b, n, timer, pin, from) == flexio_after(a, n, timer, pin, from),
    decreases n,
{
    if n > 0 {
        lemma_flexio_prefix(a, b, n - 1, timer, pin, from);
        assert((a + b)[n - 1] == a[n - 1]);
    }
}

/// Whether one of the first `end` timers uses a pin.
pub open spec fn uses_pin(channels: Seq<Option<Channel>>, end: int, pin: OutputPin) -> bool {
    exists|i: int| 0 <= i < end && (#[trigger] channels[i] matches Some(c) && c.pin == pin)
}

/// A driver that ends disconnects every pin that one of its timers uses, and leaves the other pins
/// alone.
pub proof fn law_flexio_ends(
    channels: Seq<Option<Channel>>,
    end: int,
    timer: usize,
    pin: OutputPin,
    from: Flexio,
)
    requires
        0 <= end <= channels.len(),
    ensures
        ({
            let ops = flexio::disconnect_program(channels, end);
            flexio_after(ops, ops.len() as int, timer, pin, from) == if uses_pin(channels, end, pin) {
                Flexio { mux: Mux::Mux0, ..from }
            } else {
                from
            }
        }),
    decreases end,
{
    let ops = flexio::disconnect_program(channels, end);
    if end > 0 {
        let a = flexio::disconnect_program(channels, end - 1);
        law_flexio_ends(channels, end - 1, timer, pin, from);
        assert(uses_pin(channels, end, pin) <==> uses_pin(channels, end - 1, pin) || (
        channels[end - 1] matches Some(c) && c.pin == pin));
        match channels[end - 1] {
            Some(channel) => {
                let b = seq![flexio::Op::SetMux { pin: channel.pin, mux: Mux::Mux0 }];
                lemma_flexio_append(a, b, 1, timer, pin, from);
                assert(ops =~= a + b);
                reveal_with_fuel(flexio_after, 2);
            },
            None => {
                assert(ops =~= a);
            },
        }
    }
}

/// The timers and channels that the instances have.
pub proof fn law_instances()
    ensures
        flexio::FLEXIO_TIMERS == 8,
        tpm::MAX_CHANNELS == 6,
{
}

} // verus!
