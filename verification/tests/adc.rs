use embassy_nxp::adc::{
    apply_averaging, clock_divider, conversion_mode, deinit, finish_calibration, init, on_interrupt, start_conversion,
    stop_conversion, Adc, Adiv, Averaging, Avgs, Calibration, Config, ConversionMode, Error, InternalChannel, Op,
    Resolution, State, MAX_CALIBRATION_CLOCK_HZ,
};

#[test]
fn calibration_clock_does_not_exceed_four_mhz() {
    for bus_hz in [4_000_000, 8_000_000, 16_000_000, 24_000_000, 32_000_000] {
        let divider = 1u32 << clock_divider(bus_hz).to_bits();
        assert!(bus_hz / divider <= MAX_CALIBRATION_CLOCK_HZ);
    }
}

#[test]
fn smallest_divider_is_used() {
    assert_eq!(clock_divider(1), Adiv::_00);
    assert_eq!(clock_divider(4_000_000), Adiv::_00);
    assert_eq!(clock_divider(4_000_001), Adiv::_01);
    assert_eq!(clock_divider(8_000_001), Adiv::_10);
    assert_eq!(clock_divider(16_000_001), Adiv::_11);
}

#[test]
fn modes_and_channels() {
    assert_eq!(conversion_mode(Resolution::Bits8), ConversionMode::_00);
    assert_eq!(conversion_mode(Resolution::Bits10), ConversionMode::_10);
    assert_eq!(conversion_mode(Resolution::Bits12), ConversionMode::_01);
    assert_eq!(conversion_mode(Resolution::Bits16), ConversionMode::_11);
    assert_eq!(InternalChannel::Temperature.channel(), 26);
    assert_eq!(InternalChannel::VrefHigh.channel(), 29);
    assert_eq!(InternalChannel::VrefLow.channel(), 30);
    assert_eq!(apply_averaging(Averaging::Disabled), Op::WriteAveraging(None));
    assert_eq!(apply_averaging(Averaging::Samples4), Op::WriteAveraging(Some(Avgs::_00)));
    assert_eq!(apply_averaging(Averaging::Samples8), Op::WriteAveraging(Some(Avgs::_01)));
    assert_eq!(apply_averaging(Averaging::Samples16), Op::WriteAveraging(Some(Avgs::_10)));
    assert_eq!(apply_averaging(Averaging::Samples32), Op::WriteAveraging(Some(Avgs::_11)));
}

fn results(n: u16) -> Calibration {
    Calibration { cl0: n, cl1: 1, cl2: 2, cl3: 3, cl4: 4, cls: 5 }
}

#[test]
fn calibration_halves_the_sums() {
    let (ops, result) = finish_calibration(false, results(100), results(101), Averaging::Samples8);
    assert_eq!(result, Ok(()));
    assert_eq!(
        ops,
        vec![
            Op::ReadResult,
            Op::WritePlusGain(0x8000 | 57),
            Op::WriteMinusGain(0x8000 | 58),
            Op::WriteAveraging(Some(Avgs::_01)),
        ]
    );
}

#[test]
fn failed_calibration_restores_the_averaging() {
    let (ops, result) = finish_calibration(true, results(0), results(0), Averaging::Disabled);
    assert_eq!(result, Err(Error::CalibrationFailed));
    assert_eq!(ops, vec![Op::ReadResult, Op::ClearCalf, Op::WriteAveraging(None)]);
}

#[test]
fn setup_and_conversions() {
    let config = Config::new(Resolution::Bits12, Averaging::Samples4);
    assert_eq!(
        init(24_000_000, config),
        vec![
            Op::EnableClock,
            Op::Deselect { n: 0 },
            Op::Deselect { n: 1 },
            Op::WriteCfg1 { mode: ConversionMode::_01, adiv: Adiv::_11 },
            Op::ResetCfg2,
            Op::ResetSc2,
            Op::ClearCalf,
            Op::StartCalibration,
            Op::WaitCalibrated,
        ]
    );
    assert_eq!(
        start_conversion(3, true, false),
        vec![Op::SetMuxsel(true), Op::StartConversion { channel: 3, aien: false }]
    );
    assert_eq!(
        stop_conversion(),
        vec![Op::Deselect { n: 0 }, Op::ForgetResult, Op::UnpendInterrupt]
    );
    assert_eq!(*deinit().last().unwrap(), Op::DisableClock);
    assert!(on_interrupt(true, true) && !on_interrupt(false, true) && !on_interrupt(true, false));
}

#[test]
fn driver_remembers_its_settings() {
    let (adc, ops) = Adc::new(Config::default(), false, results(0), results(0));
    let mut adc = adc.unwrap();
    assert_eq!(ops[ops.len() - 2..], [Op::UnpendInterrupt, Op::EnableInterrupt]);
    assert_eq!((adc.resolution(), adc.averaging()), (Resolution::Bits16, Averaging::Disabled));
    assert_eq!(adc.set_resolution(Resolution::Bits10), Op::SetMode(ConversionMode::_10));
    assert_eq!(adc.set_averaging(Averaging::Samples32), Op::WriteAveraging(Some(Avgs::_11)));
    assert_eq!((adc.resolution(), adc.averaging()), (Resolution::Bits10, Averaging::Samples32));
    assert_eq!(adc.calibrate()[0], Op::Deselect { n: 0 });
    assert_eq!(adc.close()[..2], [Op::DisableInterrupt, Op::UnpendInterrupt]);
    let blocking = Adc::new_blocking(Config::default(), false, results(0), results(0)).0.unwrap();
    assert_eq!(blocking.close(), deinit());
    assert_eq!(blocking.start_blocking_read(26, false)[1], Op::StartConversion { channel: 26, aien: false });
}

#[test]
fn result_is_there_once_stored() {
    let adc = Adc::new(Config::default(), false, results(0), results(0)).0.unwrap();
    let mut state = State::default();
    assert_eq!(state.poll(), None);
    state.store(0xFFFF);
    assert_eq!(state.poll(), Some(0xFFFF));
    let ops = adc.start_read(&mut state, 29, false);
    assert_eq!(ops[1], Op::StartConversion { channel: 29, aien: true });
    assert_eq!(state.poll(), None);
}

#[test]
fn failed_calibration_shuts_the_module_down_again() {
    let config = Config::new(Resolution::Bits8, Averaging::Samples4);
    let mut expected = vec![Op::ReadResult, Op::ClearCalf, Op::WriteAveraging(Some(Avgs::_00))];
    expected.append(&mut deinit());
    let (adc, ops) = Adc::new_blocking(config, true, results(0), results(0));
    assert_eq!((adc, ops), (Err(Error::CalibrationFailed), expected.clone()));
    let (adc, ops) = Adc::new(config, true, results(0), results(0));
    assert_eq!((adc, ops), (Err(Error::CalibrationFailed), expected));
    let (adc, ops) = Adc::new_blocking(config, false, results(100), results(101));
    assert_eq!(adc.unwrap().resolution(), Resolution::Bits8);
    assert_eq!(ops, finish_calibration(false, results(100), results(101), Averaging::Samples4).0);
}
