use embassy_nxp::wdog::{control, Config, Error, Op, Watchdog};

#[test]
fn policy_bits() {
    let config = Config::default();
    let ctrl = control(&config, true, true);
    assert!(ctrl.wdogen() && ctrl.waiten() && ctrl.allowupdate());
    assert!(!ctrl.clksrc() && !ctrl.stopen() && !ctrl.dbgen() && !ctrl.winen());
    assert!(ctrl.distestwdog());
    let config = Config {
        run_in_wait: false,
        run_in_stop: true,
        run_in_debug: true,
        ..config
    };
    let ctrl = control(&config, false, false);
    assert!(!ctrl.wdogen() && !ctrl.waiten() && !ctrl.allowupdate());
    assert!(ctrl.stopen() && ctrl.dbgen());
}

#[test]
fn reserved_and_test_fields() {
    let ctrl = control(&Config::default(), true, false);
    assert!(ctrl.reserved() && !ctrl.testwdog() && !ctrl.irqrsten());
}

#[test]
fn update_sequence() {
    let config = Config { timeout_ticks: 0x1_2345, ..Config::default() };
    let (watchdog, ops) = Watchdog::new(config, true, 72_000_000).unwrap();
    assert!(watchdog.is_enabled());
    assert_eq!(
        ops,
        vec![
            Op::Unlock(0xc520),
            Op::Unlock(0xd928),
            Op::BusAccess,
            Op::WriteTimeout { high: 1, low: 0x2345 },
            Op::ResetWindow,
            Op::ResetPrescaler,
            Op::WriteControl(control(&config, true, true)),
            Op::WaitBusCycles(256),
            Op::Delay(633_600),
        ]
    );
    let (_, slow) = Watchdog::new(config, true, 1).unwrap();
    assert_eq!(*slow.last().unwrap(), Op::Delay(1));
}

#[test]
fn invalid_configurations_are_refused() {
    let short = Config { timeout_ticks: 63, ..Config::default() };
    assert_eq!(Watchdog::new(short, true, 1).map(|_| ()), Err(Error::TimeoutTooShort));
    assert_eq!(Watchdog::new(short, false, 1).map(|_| ()), Err(Error::TimeoutTooShort));
    assert_eq!(Watchdog::new(Config::default(), false, 1).map(|_| ()), Err(Error::Locked));
    let shortest = Config { timeout_ticks: 64, ..Config::default() };
    assert!(Watchdog::new(shortest, true, 1).is_ok());
}

#[test]
fn feeding_and_disabling() {
    let (mut watchdog, _) = Watchdog::new(Config::default(), true, 1_000_000).unwrap();
    assert_eq!(watchdog.feed(), vec![Op::Refresh(0xa602), Op::Refresh(0xb480)]);
    assert!(watchdog.disable(true, 1_000_000).is_ok());
    assert!(!watchdog.is_enabled());
    assert!(watchdog.feed().is_empty());
    assert!(watchdog.enable(true, 1_000_000).is_ok());
    assert!(watchdog.is_enabled());
}

#[test]
fn locking_keeps_the_watchdog_fed() {
    let (mut watchdog, _) = Watchdog::new(Config::default(), true, 1_000_000).unwrap();
    let ops = watchdog.lock(true, 1_000_000).unwrap();
    assert!(ops.contains(&Op::WriteControl(control(&Config::default(), true, false))));
    assert_eq!(watchdog.disable(false, 1_000_000), Err(Error::Locked));
    assert_eq!(watchdog.enable(false, 1_000_000), Err(Error::Locked));
    assert_eq!(watchdog.lock(false, 1_000_000), Err(Error::Locked));
    assert_eq!(watchdog.configure(Config::default(), false, 1_000_000), Err(Error::Locked));
    assert!(watchdog.is_enabled());
    assert_eq!(watchdog.feed().len(), 2);
}
