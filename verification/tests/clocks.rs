use embassy_nxp::clocks::{
    current_mcgout_hz, disable, enable, enter_blpi, enter_pee, init, is_enabled, lpuart_source, set_dividers, Clkdiv1,
    Clks, Clkst, ClockConfig, ClockGate, Clocks, ConfigError, ExternalClock, ExternalSource, Lpuartsrc, McgMode, McgOp,
    Op, Pllfllsel, RunMode, Runm, Scgc,
};

const EXTERNAL_12MHZ: ExternalClock = ExternalClock {
    frequency: 12_000_000,
    source: ExternalSource::Clock,
};

fn check(config: ClockConfig) {
    if let Err(e) = config.validate() {
        panic!("{}", e.message());
    }
}

#[test]
fn vlpr_configuration_obeys_blpi_limits() {
    let config = ClockConfig::vlpr();
    check(config);
    assert_eq!(
        config.clocks(),
        Clocks {
            mcgout: 4_000_000,
            core: 4_000_000,
            bus: 800_000,
            flash: 800_000,
            qspi: 4_000_000,
            pllfll: 0,
            lpuart: 4_000_000,
            pll: false,
        }
    );
}

#[test]
fn pll_constructor_uses_legal_dividers() {
    let config = ClockConfig::pll(EXTERNAL_12MHZ, 1, 24);
    check(config);
    assert_eq!(config.clocks().core, 72_000_000);
    assert_eq!(config.clocks().bus, 24_000_000);
    assert_eq!(config.clocks().qspi, 72_000_000);
}

#[test]
#[should_panic(expected = "MCG output clock above 144 MHz")]
fn rejects_excessive_pll_output() {
    check(ClockConfig {
        mcg: McgMode::Pee {
            external: ExternalClock {
                frequency: 16_000_000,
                source: ExternalSource::Clock,
            },
            prdiv: 1,
            vdiv: 47,
        },
        core_div: 4,
        bus_div: 16,
        flash_div: 16,
        qspi_div: 8,
        run_mode: RunMode::Run,
    });
}

#[test]
#[should_panic(expected = "QSPI divider")]
fn rejects_invalid_qspi_ratio() {
    check(ClockConfig {
        qspi_div: 3,
        ..ClockConfig::default()
    });
}

fn pee(frequency: u32, prdiv: u8, vdiv: u8, source: ExternalSource) -> McgMode {
    McgMode::Pee {
        external: ExternalClock { frequency, source },
        prdiv,
        vdiv,
    }
}

#[test]
fn every_rule_is_reported() {
    let base = ClockConfig::pll(EXTERNAL_12MHZ, 1, 24);
    let cases = [
        (ClockConfig { core_div: 0, ..base }, ConfigError::DivideByZero),
        (ClockConfig { mcg: pee(12_000_000, 0, 24, ExternalSource::Clock), ..base }, ConfigError::DivideByZero),
        (ClockConfig { bus_div: 17, ..base }, ConfigError::Dividers),
        (ClockConfig { mcg: pee(16_000_000, 1, 47, ExternalSource::Clock), ..base }, ConfigError::McgOutput),
        (ClockConfig { mcg: pee(u32::MAX, 1, 255, ExternalSource::Clock), ..base }, ConfigError::McgOutput),
        (ClockConfig { core_div: 1, ..base }, ConfigError::CoreClock),
        (ClockConfig { bus_div: 4, ..base }, ConfigError::BusClock),
        (ClockConfig { bus_div: 8, flash_div: 6, ..base }, ConfigError::FlashClock),
        (ClockConfig { bus_div: 7, flash_div: 7, ..base }, ConfigError::NotMultiple),
        (ClockConfig { core_div: 1, bus_div: 9, flash_div: 9, qspi_div: 1, mcg: McgMode::Blpi, ..base }, ConfigError::Ratio),
        (ClockConfig { qspi_div: 6, ..base }, ConfigError::QspiDivider),
        (ClockConfig { mcg: pee(8_000_000, 1, 40, ExternalSource::Clock), core_div: 2, bus_div: 8, flash_div: 8, qspi_div: 2, ..base }, ConfigError::McgOutput),
        (ClockConfig { run_mode: RunMode::VeryLowPower, ..base }, ConfigError::VlprMode),
        (ClockConfig { flash_div: 5, bus_div: 4, ..ClockConfig::vlpr() }, ConfigError::VlprClocks),
        (ClockConfig { mcg: pee(144_000_000, 9, 16, ExternalSource::Clock), ..base }, ConfigError::Prdiv),
        (ClockConfig { mcg: pee(12_000_000, 1, 15, ExternalSource::Clock), ..base }, ConfigError::Vdiv),
        (ClockConfig { mcg: pee(7_000_000, 1, 24, ExternalSource::Clock), ..base }, ConfigError::PllReference),
        (
            ClockConfig {
                mcg: pee(12_000_000, 1, 24, ExternalSource::Crystal { high_gain: false, load_capacitance_pf: 3 }),
                ..base
            },
            ConfigError::LoadCapacitance,
        ),
    ];
    for (config, error) in cases {
        assert_eq!(config.validate(), Err(error));
        assert!(!error.message().is_empty());
    }
}

#[test]
fn qspi_clock_is_limited_by_the_run_mode() {
    let fast = ClockConfig {
        mcg: pee(12_000_000, 1, 24, ExternalSource::Clock),
        core_div: 2,
        bus_div: 6,
        flash_div: 6,
        qspi_div: 2,
        run_mode: RunMode::Run,
    };
    assert_eq!(fast.validate(), Ok(()));
    let high_speed = ClockConfig {
        mcg: pee(12_000_000, 1, 16, ExternalSource::Clock),
        core_div: 1,
        bus_div: 4,
        flash_div: 4,
        qspi_div: 1,
        run_mode: RunMode::Run,
    };
    assert_eq!(high_speed.clocks().qspi, 96_000_000);
    assert_eq!(high_speed.validate(), Ok(()));
}

#[test]
fn frequencies_of_the_reset_configuration() {
    let config = ClockConfig::default();
    assert_eq!(config.mcgout_hz(), 20_971_520);
    let clocks = config.clocks();
    assert_eq!(clocks.core, 20_971_520);
    assert_eq!(clocks.flash, 10_485_760);
    assert_eq!(clocks.pllfll, 48_000_000);
    assert_eq!(lpuart_source(&clocks), Lpuartsrc::_01);
    assert_eq!(lpuart_source(&ClockConfig::vlpr().clocks()), Lpuartsrc::_11);
    assert_eq!(RunMode::default(), RunMode::Run);
}

#[test]
fn dividers_come_before_speeding_up() {
    let config = ClockConfig::pll(EXTERNAL_12MHZ, 1, 24);
    let (clocks, ops) = init(config, Clkst::_00, 0).unwrap();
    assert_eq!(clocks, config.clocks());
    let dividers = Clkdiv1 {
        outdiv1: 1,
        outdiv2: 5,
        outdiv4: 5,
        outdiv5: 1,
    };
    assert_eq!(set_dividers(&config), dividers);
    assert_eq!(ops[0], Op::WriteDividers(dividers));
    assert_eq!(ops[1], Op::Mcg(McgOp::ExternalReference));
    assert_eq!(*ops.last().unwrap(), Op::SetPllfllsel(Pllfllsel::_11));
    assert_eq!(ops.iter().filter(|op| matches!(op, Op::WriteDividers(_))).count(), 1);
}

#[test]
fn dividers_come_after_slowing_down() {
    let (_, ops) = init(ClockConfig::vlpr(), Clkst::_00, 0).unwrap();
    assert_eq!(
        ops,
        vec![
            Op::Mcg(McgOp::SetFcrdiv(0)),
            Op::Mcg(McgOp::SelectFastIrc),
            Op::Mcg(McgOp::SelectInternal(Clks::_01)),
            Op::Mcg(McgOp::WaitInternal(Clkst::_01)),
            Op::Mcg(McgOp::SetLowPower),
            Op::WriteDividers(Clkdiv1 { outdiv1: 0, outdiv2: 4, outdiv4: 4, outdiv5: 0 }),
            Op::SetPllfllsel(Pllfllsel::_00),
        ]
    );
    assert_eq!(enter_blpi().len(), 5);
}

#[test]
fn high_speed_run_is_entered_first() {
    let config = ClockConfig {
        mcg: pee(12_000_000, 1, 16, ExternalSource::Clock),
        core_div: 1,
        bus_div: 4,
        flash_div: 4,
        qspi_div: 1,
        run_mode: RunMode::Run,
    };
    let (_, ops) = init(config, Clkst::_00, 0).unwrap();
    assert_eq!(ops[..2], [Op::SetRunm(Runm::_11), Op::WaitPmstat(0x80)]);
    let (_, reset) = init(ClockConfig::default(), Clkst::_00, 0).unwrap();
    assert!(!reset.iter().any(|op| matches!(op, Op::SetRunm(_))));
    assert_eq!(
        init(ClockConfig { core_div: 0, ..config }, Clkst::_00, 0),
        Err(ConfigError::DivideByZero)
    );
}

#[test]
fn crystal_startup_connects_the_load() {
    let external = ExternalClock {
        frequency: 12_000_000,
        source: ExternalSource::Crystal { high_gain: true, load_capacitance_pf: 22 },
    };
    let ops = enter_pee(external, 2, 24, 2);
    assert_eq!(
        ops[..4],
        [
            McgOp::OscillatorLoad { sc2p: true, sc4p: true, sc8p: false, sc16p: true },
            McgOp::OscillatorMode { range: 2, hgo: true, erefs: true },
            McgOp::WaitOscillator,
            McgOp::SetDrstDrs(3),
        ]
    );
    assert!(ops.contains(&McgOp::WritePrdiv(1)));
    assert!(ops.contains(&McgOp::SetVdiv(8)));
    assert_eq!(*ops.last().unwrap(), McgOp::WaitClkst(Clkst::_11));
    let slow = ExternalClock { frequency: 32_768, source: ExternalSource::Clock };
    assert_eq!(enter_pee(slow, 1, 16, 0)[1], McgOp::OscillatorMode { range: 0, hgo: false, erefs: false });
}

#[test]
fn current_clock_is_that_of_the_status() {
    assert_eq!(current_mcgout_hz(Clkst::_00), 20_971_520);
    assert_eq!(current_mcgout_hz(Clkst::_01), 4_000_000);
}

#[test]
fn gates_do_not_disturb_each_other() {
    let gate = ClockGate { register: Scgc::Scgc5, bit: 9 };
    let other = ClockGate { register: Scgc::Scgc5, bit: 31 };
    let on = enable(gate, 0x8000_0000);
    assert_eq!(on, 0x8000_0200);
    assert!(is_enabled(gate, on) && is_enabled(other, on));
    let off = disable(gate, on);
    assert_eq!(off, 0x8000_0000);
    assert!(!is_enabled(gate, off) && is_enabled(other, off));
}
