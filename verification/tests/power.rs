use embassy_nxp::clocks::{Clkst, ClockConfig, ExternalClock, ExternalSource, Runm};
use embassy_nxp::gpio::Bank;
use embassy_nxp::power::{
    finish_stop, idles_deep, init, init_protection, llwu_input, release_io_after_vlls, set_sleep_mode, set_sleepdeep, stop,
    wake_reason, woke_from_vlls, Config, LeakageMode, Llsm, ModeError, Op, Pstopo, Sleep, SleepMode, Stopm, Wake,
    WakeEdge, WakeReason, WakeupPin, Wupe,
};

fn table() -> Vec<WakeupPin> {
    vec![
        WakeupPin { bank: Bank::GpioE, pin: 1, input: 0 },
        WakeupPin { bank: Bank::GpioD, pin: 4, input: 14 },
    ]
}

fn pll() -> ClockConfig {
    ClockConfig::pll(
        ExternalClock { frequency: 12_000_000, source: ExternalSource::Clock },
        1,
        24,
    )
}

#[test]
fn sleep_modes_set_the_stop_registers() {
    assert_eq!(
        set_sleep_mode(SleepMode::PartialStop1, &ClockConfig::default()).unwrap(),
        vec![
            Op::SetIrefsten(true),
            Op::SetPstopo(Pstopo::_01),
            Op::SetStopm(Stopm::_000),
            Op::ReadPmctrl,
            Op::SetSleepdeep(true),
        ]
    );
    let wait = set_sleep_mode(SleepMode::Wait, &pll()).unwrap();
    assert_eq!(wait[..2], [Op::SetIrefsten(false), Op::SetPllsten(false)]);
    assert_eq!(*wait.last().unwrap(), Op::SetSleepdeep(false));
    let stop = set_sleep_mode(SleepMode::Stop, &ClockConfig::default()).unwrap();
    assert_eq!(stop[1..3], [Op::SetPstopo(Pstopo::_00), Op::SetStopm(Stopm::_000)]);
    let partial = set_sleep_mode(SleepMode::PartialStop2, &ClockConfig::default()).unwrap();
    assert_eq!(partial[1], Op::SetPstopo(Pstopo::_10));
    let vlps = set_sleep_mode(SleepMode::VeryLowPowerStop, &ClockConfig::vlpr()).unwrap();
    assert_eq!(vlps[2], Op::SetStopm(Stopm::_010));
    assert_eq!(
        set_sleep_mode(SleepMode::VeryLowPowerStop, &pll()),
        Err(ModeError::VlpsWithPll)
    );
    assert_eq!(Config::default().sleep_mode, SleepMode::default());
}

#[test]
fn very_low_power_run_is_entered_last() {
    let ops = init(&Config::default(), &ClockConfig::vlpr()).unwrap();
    assert_eq!(ops[ops.len() - 2..], [Op::SetRunm(Runm::_10), Op::WaitPmstat(0x04)]);
    let run = init(&Config::default(), &ClockConfig::default()).unwrap();
    assert!(!run.iter().any(|op| matches!(op, Op::SetRunm(_))));
    assert_eq!(
        init(&Config { sleep_mode: SleepMode::VeryLowPowerStop }, &pll()),
        Err(ModeError::VlpsWithPll)
    );
    assert_eq!(init_protection(), Op::AllowAllModes);
}

#[test]
fn sleepdeep_is_one_bit() {
    assert_eq!(set_sleepdeep(0x10, true), 0x14);
    assert_eq!(set_sleepdeep(0xFFFF_FFFF, false), 0xFFFF_FFFB);
}

#[test]
fn wake_sources_are_armed_in_order() {
    let wake = vec![
        Wake::Pin { bank: Bank::GpioD, pin: 4, edge: WakeEdge::Falling },
        Wake::Timeout { millis: 70_000 },
    ];
    let ops = stop(LeakageMode::LowLeakageStop, &wake, &table(), Clkst::_01).unwrap();
    assert_eq!(
        ops,
        vec![
            Op::SetWupe { register: 3, field: 2, wupe: Wupe::_10 },
            Op::EnableTimerClock,
            Op::WriteTimerControl { tie: false, ten: false },
            Op::SelectTimerClock,
            Op::WriteTimerCompare(65535),
            Op::WriteTimerControl { tie: true, ten: true },
            Op::ArmTimerWakeup,
            Op::ClearPinFlags(0),
            Op::ClearPinFlags(1),
            Op::ClearPinFlags(2),
            Op::ClearPinFlags(3),
            Op::SetLlsm(Llsm::_011),
            Op::SetStopm(Stopm::_011),
            Op::ReadPmctrl,
            Op::SetSleepdeep(true),
            Op::MaskInterrupts,
            Op::UnpendWakeup,
            Op::EnableWakeup,
            Op::WaitForInterrupt,
        ]
    );
    let short = stop(LeakageMode::Vlls3, &vec![Wake::Timeout { millis: 0 }], &table(), Clkst::_00).unwrap();
    assert!(short.contains(&Op::WriteTimerCompare(1)));
    assert!(short.contains(&Op::SetStopm(Stopm::_100)));
    for (mode, llsm) in [
        (LeakageMode::Vlls3, Llsm::_011),
        (LeakageMode::Vlls2, Llsm::_010),
        (LeakageMode::Vlls1, Llsm::_001),
        (LeakageMode::Vlls0, Llsm::_000),
    ] {
        let ops = stop(mode, &vec![], &table(), Clkst::_00).unwrap();
        assert_eq!(ops[4], Op::SetLlsm(llsm));
    }
}

#[test]
fn unavailable_stops_are_refused() {
    let pin = Wake::Pin { bank: Bank::GpioA, pin: 0, edge: WakeEdge::Any };
    assert_eq!(
        stop(LeakageMode::Vlls0, &vec![pin], &table(), Clkst::_11),
        Err(ModeError::LeakageWithPll)
    );
    assert_eq!(
        stop(LeakageMode::Vlls0, &vec![pin, Wake::Timeout { millis: 5 }], &table(), Clkst::_01),
        Err(ModeError::NoWakeupInput)
    );
    assert_eq!(
        stop(LeakageMode::Vlls0, &vec![Wake::Timeout { millis: 5 }, pin], &table(), Clkst::_01),
        Err(ModeError::NoTimer)
    );
    for error in [
        ModeError::VlpsWithPll,
        ModeError::LeakageWithPll,
        ModeError::NoWakeupInput,
        ModeError::NoTimer,
    ] {
        assert!(!error.message().is_empty());
    }
}

#[test]
fn stop_restores_the_idle_sleep() {
    let sleep = Sleep { stopm: Stopm::_000, pstopo: Pstopo::_00, sleepdeep: true };
    let ops = finish_stop(&vec![Wake::Timeout { millis: 5 }], sleep);
    assert_eq!(ops.len(), 21);
    assert_eq!(
        ops[..7],
        [
            Op::ClearPinFlags(0),
            Op::ClearPinFlags(1),
            Op::ClearPinFlags(2),
            Op::ClearPinFlags(3),
            Op::DisableWakeup,
            Op::UnpendWakeup,
            Op::RestoreInterrupts,
        ]
    );
    assert_eq!(
        ops[16..],
        [
            Op::WriteTimerControl { tie: false, ten: false },
            Op::SetPstopo(Pstopo::_00),
            Op::SetStopm(Stopm::_000),
            Op::ReadPmctrl,
            Op::SetSleepdeep(true),
        ]
    );
    assert_eq!(finish_stop(&vec![], sleep).len(), 20);
}

#[test]
fn wake_reason_prefers_the_timeout() {
    assert_eq!(wake_reason([0; 4], false), WakeReason::Other);
    assert_eq!(wake_reason([0x01, 0, 0x40, 0], false), WakeReason::Pin(22));
    assert_eq!(wake_reason([0, 0, 0, 0x80], false), WakeReason::Pin(31));
    assert_eq!(wake_reason([0, 0, 0, 0x80], true), WakeReason::Timeout);
}

#[test]
fn wakeup_inputs_come_from_the_table() {
    assert_eq!(llwu_input(&table(), Bank::GpioD, 4), Some(14));
    assert_eq!(llwu_input(&table(), Bank::GpioE, 1), Some(0));
    assert_eq!(llwu_input(&table(), Bank::GpioE, 2), None);
}

#[test]
fn frozen_pins_are_released() {
    assert!(woke_from_vlls(true) && !woke_from_vlls(false));
    assert_eq!(release_io_after_vlls(true), Some(Op::ReleaseIo));
    assert_eq!(release_io_after_vlls(false), None);
}

#[test]
fn guards_keep_the_executor_in_wait() {
    assert!(idles_deep(true, 0));
    assert!(!idles_deep(true, 1) && !idles_deep(false, 0));
}
