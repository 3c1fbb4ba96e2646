use embassy_nxp::clocks::{self, ClockConfig, Clkst, ConfigError, ExternalClock, ExternalSource, Runm};
use embassy_nxp::config::Config;
use embassy_nxp::executor::{Idle, WorkPending};
use embassy_nxp::intmux::{accessible, disable_source, enable_source, Routing, CHANNEL};
use embassy_nxp::power::{self, ModeError, SleepMode};
use embassy_nxp::{init, Async, BitIter, Blocking, InitError, Mode, Op};

#[test]
fn startup_order() {
    let (frequencies, ops) = init(Config::default(), Clkst::_00, 0).unwrap();
    assert_eq!(frequencies, ClockConfig::default().clocks());
    let stage = |op: &Op| match op {
        Op::Power(power::Op::AllowAllModes) => 0,
        Op::Clock(_) => 1,
        Op::Gpio(_) => 2,
        Op::StartTime => 3,
        Op::Dma(_) => 4,
        Op::Power(_) => 5,
    };
    let stages: Vec<i32> = ops.iter().map(stage).collect();
    assert!(stages.windows(2).all(|pair| pair[0] <= pair[1]));
    assert_eq!(stages.iter().filter(|s| **s == 3).count(), 1);
    assert_eq!((stages[0], *stages.last().unwrap()), (0, 5));
}

#[test]
fn startup_ends_in_very_low_power_run() {
    let config = Config { clocks: ClockConfig::vlpr(), ..Config::default() };
    let (_, ops) = init(config, Clkst::_00, 0).unwrap();
    assert_eq!(
        ops[ops.len() - 2..],
        [Op::Power(power::Op::SetRunm(Runm::_10)), Op::Power(power::Op::WaitPmstat(4))]
    );
    assert!(ops.contains(&Op::Clock(clocks::Op::Mcg(clocks::McgOp::SetLowPower))));
}

#[test]
fn startup_refuses_bad_configurations() {
    let clocks = ClockConfig { core_div: 0, ..ClockConfig::default() };
    assert_eq!(
        init(Config { clocks, ..Config::default() }, Clkst::_00, 0).map(|_| ()),
        Err(InitError::Clocks(ConfigError::DivideByZero))
    );
    let config = Config {
        clocks: ClockConfig::pll(ExternalClock { frequency: 12_000_000, source: ExternalSource::Clock }, 1, 24),
        power: power::Config { sleep_mode: SleepMode::VeryLowPowerStop },
    };
    assert_eq!(
        init(config, Clkst::_00, 0).map(|_| ()),
        Err(InitError::Power(ModeError::VlpsWithPll))
    );
}

#[test]
fn executor_sleeps_when_nothing_is_pending() {
    let mut work = WorkPending::default();
    assert_eq!(work.idle(), Idle::Sleep);
    work.pend();
    work.pend();
    assert_eq!(work.idle(), Idle::Poll);
    assert_eq!(work.idle(), Idle::Sleep);
}

#[test]
fn multiplexed_sources_are_independent() {
    let mut clocked = false;
    assert_eq!(enable_source(&mut clocked, 0, 9), Routing { open_clock: true, ier: 0x200 });
    assert!(clocked);
    assert_eq!(enable_source(&mut clocked, 0x200, 31), Routing { open_clock: false, ier: 0x8000_0200 });
    assert_eq!(disable_source(0x8000_0200, 9), 0x8000_0000);
    assert!(accessible(None, false) && accessible(Some(9), true) && !accessible(Some(9), false));
    assert_eq!(CHANNEL, 0);
}

#[test]
fn bits_come_in_ascending_order() {
    let mut bits = BitIter(0x8000_0005);
    assert_eq!(bits.next(), Some(0));
    assert_eq!(bits.next(), Some(2));
    assert_eq!(bits.next(), Some(31));
    assert_eq!(bits.next(), None);
    assert_eq!(bits.next(), None);
}

#[test]
fn modes_of_drivers() {
    assert!(Async::is_async() && !Blocking::is_async());
}
