use embassy_nxp::gpio::{Bank, Mux};
use embassy_nxp::pwm::flexio::{FlexioConfig, FlexioPwm, Op as FlexioOp};
use embassy_nxp::pwm::tpm::{Config, Op, Pwm};
use embassy_nxp::pwm::{flexio_timing, timing, ChannelState, OutputPin, Polarity, Ps};

#[test]
fn exact_frequency_prefers_highest_resolution() {
    let (prescaler, ticks, actual) = timing(1_000);
    assert_eq!(prescaler, Ps::_000);
    assert_eq!(ticks, 4_000);
    assert_eq!(actual, 1_000);
}

#[test]
fn reaches_frequency_limits() {
    assert_eq!(timing(1).2, 1);
    assert_eq!(timing(2_000_000).2, 2_000_000);
}

#[test]
fn flexio_pwm_uses_full_eight_bit_period() {
    assert_eq!(flexio_timing(15_625), (256, 15_625));
    assert_eq!(flexio_timing(2_000_000), (2, 2_000_000));
}

#[test]
fn inexact_frequencies_come_close() {
    assert_eq!(timing(3_000), (Ps::_000, 1_333, 3_000));
    assert_eq!(flexio_timing(20_000), (200, 20_000));
    assert_eq!(flexio_timing(1_500_000), (3, 1_333_333));
}

const PIN: OutputPin = OutputPin { bank: Bank::GpioC, pin: 3 };

#[test]
fn tpm_outputs() {
    let (mut pwm, ops) = Pwm::new(2, Config::default());
    assert_eq!(
        ops,
        vec![
            Op::EnableTpmClock,
            Op::EnableClock,
            Op::Stop,
            Op::ResetChannel(0),
            Op::WriteDuty { channel: 0, duty: 0 },
            Op::ResetChannel(1),
            Op::WriteDuty { channel: 1, duty: 0 },
            Op::ResetCounter,
            Op::WriteModulo(3_999),
            Op::Start(Ps::_000),
        ]
    );
    assert_eq!((pwm.frequency(), pwm.max_duty_cycle()), (1_000, 4_000));
    assert_eq!(pwm.check_channel::<1>(), ChannelState::Disabled);
    assert_eq!(pwm.check_channel::<2>(), ChannelState::Missing);
    assert_eq!(
        pwm.enable_channel::<1>(PIN, Mux::Mux4, Polarity::ActiveLow),
        vec![
            Op::WriteDuty { channel: 1, duty: 0 },
            Op::ConfigureChannel { channel: 1, elsb: false, elsa: true },
            Op::SetMux { pin: PIN, mux: Mux::Mux4 },
        ]
    );
    assert_eq!(pwm.check_channel::<1>(), ChannelState::Enabled);
    assert_eq!(pwm.set_duty_cycle::<1>(4_000), Op::WriteDuty { channel: 1, duty: 4_000 });
    assert_eq!(
        pwm.close(),
        vec![
            Op::Halt,
            Op::ResetChannel(0),
            Op::ResetChannel(1),
            Op::SetMux { pin: PIN, mux: Mux::Mux0 },
            Op::DisableClock,
        ]
    );
    assert_eq!(
        pwm.disable_channel::<1>(),
        vec![Op::ResetChannel(1), Op::SetMux { pin: PIN, mux: Mux::Mux0 }]
    );
    assert_eq!(pwm.disable_channel::<1>(), vec![Op::ResetChannel(1)]);
}

#[test]
fn flexio_outputs() {
    let (mut pwm, ops) = FlexioPwm::new(8);
    assert_eq!(
        ops,
        vec![FlexioOp::EnableFlexioClock, FlexioOp::EnableClock, FlexioOp::Reset, FlexioOp::Enable]
    );
    let ops = pwm.enable_channel::<7>(PIN, Mux::Mux6, 11, Polarity::ActiveLow, FlexioConfig::default());
    assert_eq!(
        ops,
        vec![
            FlexioOp::DriveGpio { pin: PIN, high: true },
            FlexioOp::SetMux { pin: PIN, mux: Mux::Mux1 },
            FlexioOp::DisableTimer(7),
            FlexioOp::ConfigureTimer(7),
        ]
    );
    assert_eq!(pwm.check_flexio_channel::<7>(), ChannelState::Enabled);
    assert_eq!(pwm.check_flexio_channel::<0>(), ChannelState::Disabled);
    assert_eq!(pwm.check_flexio_channel::<8>(), ChannelState::Missing);
    assert_eq!((pwm.frequency::<7>(), pwm.max_duty_cycle::<7>(), pwm.duty_cycle::<7>()), (20_000, 200, 0));
    assert_eq!(
        pwm.set_duty_cycle::<7>(50),
        vec![
            FlexioOp::WriteCompare { timer: 7, value: (149 << 8) | 49 },
            FlexioOp::StartTimer { timer: 7, pin_number: 11, pinpol: true },
            FlexioOp::SetMux { pin: PIN, mux: Mux::Mux6 },
        ]
    );
    assert_eq!(
        pwm.set_duty_cycle::<7>(199),
        vec![FlexioOp::WriteCompare { timer: 7, value: 198 }]
    );
    assert_eq!(pwm.duty_cycle::<7>(), 199);
    assert_eq!(
        pwm.set_duty_cycle::<7>(200),
        vec![
            FlexioOp::DriveGpio { pin: PIN, high: false },
            FlexioOp::SetMux { pin: PIN, mux: Mux::Mux1 },
            FlexioOp::StopTimer(7),
        ]
    );
    assert_eq!(pwm.set_duty_cycle::<7>(0)[0], FlexioOp::DriveGpio { pin: PIN, high: true });
    assert_eq!(
        pwm.close(),
        vec![
            FlexioOp::Reset,
            FlexioOp::Disable,
            FlexioOp::SetMux { pin: PIN, mux: Mux::Mux0 },
            FlexioOp::DisableClock,
        ]
    );
    assert_eq!(
        pwm.disable_channel::<7>(),
        vec![FlexioOp::DisableTimer(7), FlexioOp::SetMux { pin: PIN, mux: Mux::Mux0 }]
    );
}
