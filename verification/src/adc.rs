//! ADC16 driver for Kinetis MCUs.
//!
//! Conversions are single-ended. The ADC is calibrated when the driver is created, using
//! 32-sample hardware averaging and an ADC clock at or below 4 MHz.

pub mod hardware;

use vstd::prelude::*;

verus! {

/// Fastest ADC clock for calibration.
pub const MAX_CALIBRATION_CLOCK_HZ: u32 = 4_000_000;

/// What the result holds while there is none.
pub const NO_RESULT: u32 = 0xFFFF_FFFF;

/// ADC resolution.
#[derive(Clone, Copy, Debug, PartialEq, Eq, Structural)]
pub enum Resolution {
    /// 8-bit single-ended conversions.
    Bits8,
    /// 10-bit single-ended conversions.
    Bits10,
    /// 12-bit single-ended conversions.
    Bits12,
    /// 16-bit single-ended conversions.
    Bits16,
}

/// Number of samples averaged by the ADC for each result.
#[derive(Clone, Copy, Debug, PartialEq, Eq, Structural)]
pub enum Averaging {
    /// Hardware averaging disabled.
    Disabled,
    /// Average 4 samples.
    Samples4,
    /// Average 8 samples.
    Samples8,
    /// Average 16 samples.
    Samples16,
    /// Average 32 samples.
    Samples32,
}

/// Internal ADC input.
#[derive(Clone, Copy, Debug, PartialEq, Eq, Structural)]
pub enum InternalChannel {
    /// Internal temperature sensor.
    Temperature,
    /// High side of the selected voltage reference.
    VrefHigh,
    /// Low side of the selected voltage reference.
    VrefLow,
}

impl InternalChannel {
    /// The channel value of the input.
    pub fn channel(self) -> (r: u8)
        ensures
            r == match self {
                InternalChannel::Temperature => 26u8,
                InternalChannel::VrefHigh => 29u8,
                InternalChannel::VrefLow => 30u8,
            },
    {
        match self {
            InternalChannel::Temperature => 26,
            InternalChannel::VrefHigh => 29,
            InternalChannel::VrefLow => 30,
        }
    }
}

/// ADC configuration.
#[derive(Clone, Copy, Debug, PartialEq, Eq, Structural)]
pub struct Config {
    /// Conversion resolution.
    pub resolution: Resolution,
    /// Hardware averaging applied to each result.
    pub averaging: Averaging,
}

impl Config {
    /// Create an ADC configuration.
    pub fn new(resolution: Resolution, averaging: Averaging) -> (r: Self)
        ensures
            r == (Config { resolution, averaging }),
    {
        Config { resolution, averaging }
    }
}

impl Default for Config {
    fn default() -> (r: Self)
        ensures
            r == (Config { resolution: Resolution::Bits16, averaging: Averaging::Disabled }),
    {
        Config { resolution: Resolution::Bits16, averaging: Averaging::Disabled }
    }
}

/// ADC error.
#[derive(Clone, Copy, Debug, PartialEq, Eq, Structural)]
#[non_exhaustive]
pub enum Error {
    /// The ADC self-calibration sequence failed.
    CalibrationFailed,
}

/// Clock divider selection (`CFG1[ADIV]`): the clock is divided by `2^ADIV`.
#[derive(Clone, Copy, Debug, PartialEq, Eq, Structural)]
#[allow(non_camel_case_types)]
pub enum Adiv {
    _00,
    _01,
    _10,
    _11,
}

impl Adiv {
    /// What the clock is divided by.
    pub open spec fn divisor(self) -> int {
        match self {
            Adiv::_00 => 1,
            Adiv::_01 => 2,
            Adiv::_10 => 4,
            Adiv::_11 => 8,
        }
    }

    /// The field value.
    pub fn to_bits(self) -> (r: u8)
        ensures
            r == match self {
                Adiv::_00 => 0u8,
                Adiv::_01 => 1u8,
                Adiv::_10 => 2u8,
                Adiv::_11 => 3u8,
            },
    {
        match self {
            Adiv::_00 => 0,
            Adiv::_01 => 1,
            Adiv::_10 => 2,
            Adiv::_11 => 3,
        }
    }
}

/// Conversion mode selection (`CFG1[MODE]`).
#[derive(Clone, Copy, Debug, PartialEq, Eq, Structural)]
#[allow(non_camel_case_types)]
pub enum ConversionMode {
    /// 8-bit.
    _00,
    /// 12-bit.
    _01,
    /// 10-bit.
    _10,
    /// 16-bit.
    _11,
}

/// Hardware average selection (`SC3[AVGS]`): `4 * 2^AVGS` samples.
#[derive(Clone, Copy, Debug, PartialEq, Eq, Structural)]
#[allow(non_camel_case_types)]
pub enum Avgs {
    _00,
    _01,
    _10,
    _11,
}

/// A register access of the ADC driver. Fields that an access does not name keep their value,
/// unless it is described as a write of the whole register.
#[derive(Clone, Copy, Debug, PartialEq, Eq, Structural)]
pub enum Op {
    /// Open the clock gate of the module.
    EnableClock,
    /// Close the clock gate of the module.
    DisableClock,
    /// Write the whole of `SC1n` with the channel value that selects no input, no interrupt.
    Deselect { n: u8 },
    /// Write the whole of `CFG1`: the bus clock divided, and the conversion mode.
    WriteCfg1 { mode: ConversionMode, adiv: Adiv },
    /// `CFG1[MODE]`.
    SetMode(ConversionMode),
    /// Write zero to `CFG2`.
    ResetCfg2,
    /// `CFG2[MUXSEL]`.
    SetMuxsel(bool),
    /// Write zero to `SC2`: software trigger, default voltage reference.
    ResetSc2,
    /// Write the whole of `SC3` with `CALF` alone, which clears it.
    ClearCalf,
    /// Write the whole of `SC3`: averaging of this many samples, or none.
    WriteAveraging(Option<Avgs>),
    /// Write the whole of `SC3`: 32-sample averaging, and start the calibration.
    StartCalibration,
    /// Wait until `SC3[CAL]` is clear. No register of the module may be written meanwhile.
    WaitCalibrated,
    /// Read the result register, which clears the conversion complete flag.
    ReadResult,
    /// Write `PG`.
    WritePlusGain(u16),
    /// Write `MG`.
    WriteMinusGain(u16),
    /// Write the whole of `SC1A`: a single-ended conversion of this channel.
    StartConversion { channel: u8, aien: bool },
    /// Forget the result.
    ForgetResult,
    /// Clear a pending interrupt at the NVIC.
    UnpendInterrupt,
    /// Enable the interrupt at the NVIC.
    EnableInterrupt,
    /// Disable the interrupt at the NVIC.
    DisableInterrupt,
}

/// Whether a divider keeps the ADC clock at or below the calibration limit.
pub open spec fn slow_enough(bus_hz: int, adiv: Adiv) -> bool {
    bus_hz <= MAX_CALIBRATION_CLOCK_HZ * adiv.divisor()
}

/// The smallest divider of the bus clock that keeps the ADC clock at or below the calibration
/// limit.
pub fn clock_divider(bus_hz: u32) -> (r: Adiv)
    requires
        0 < bus_hz <= MAX_CALIBRATION_CLOCK_HZ * 8,
    ensures
        slow_enough(bus_hz as int, r),
        forall|d: Adiv| #[trigger]
            slow_enough(bus_hz as int, d) ==> r.divisor() <= d.divisor(),
{
    match (bus_hz - 1) / MAX_CALIBRATION_CLOCK_HZ + 1 {
        0 | 1 => Adiv::_00,
        2 => Adiv::_01,
        3 | 4 => Adiv::_10,
        _ => Adiv::_11,
    }
}

/// The mode of a resolution.
pub open spec fn mode_of(resolution: Resolution) -> ConversionMode {
    match resolution {
        Resolution::Bits8 => ConversionMode::_00,
        Resolution::Bits10 => ConversionMode::_10,
        Resolution::Bits12 => ConversionMode::_01,
        Resolution::Bits16 => ConversionMode::_11,
    }
}

/// The mode of a resolution.
pub fn conversion_mode(resolution: Resolution) -> (r: ConversionMode)
    ensures
        r == mode_of(resolution),
{
    match resolution {
        Resolution::Bits8 => ConversionMode::_00,
        Resolution::Bits10 => ConversionMode::_10,
        Resolution::Bits12 => ConversionMode::_01,
        Resolution::Bits16 => ConversionMode::_11,
    }
}

/// The average selection of a setting.
pub open spec fn average_of(averaging: Averaging) -> Option<Avgs> {
    match averaging {
        Averaging::Disabled => None,
        Averaging::Samples4 => Some(Avgs::_00),
        Averaging::Samples8 => Some(Avgs::_01),
        Averaging::Samples16 => Some(Avgs::_10),
        Averaging::Samples32 => Some(Avgs::_11),
    }
}

/// The access that sets the averaging.
pub fn apply_averaging(averaging: Averaging) -> (r: Op)
    ensures
        r == Op::WriteAveraging(average_of(averaging)),
{
    match averaging {
        Averaging::Disabled => Op::WriteAveraging(None),
        Averaging::Samples4 => Op::WriteAveraging(Some(Avgs::_00)),
        Averaging::Samples8 => Op::WriteAveraging(Some(Avgs::_01)),
        Averaging::Samples16 => Op::WriteAveraging(Some(Avgs::_10)),
        Averaging::Samples32 => Op::WriteAveraging(Some(Avgs::_11)),
    }
}

/// Accesses that run a calibration. It must use software triggering and must not be interrupted by
/// any ADC register write.
pub open spec fn calibration_program() -> Seq<Op> {
    seq![Op::ClearCalf, Op::StartCalibration, Op::WaitCalibrated]
}

/// Runs a calibration.
fn start_calibration() -> (r: Vec<Op>)
    ensures
        r@ == calibration_program(),
{
    let ops: Vec<Op> = vec![Op::ClearCalf, Op::StartCalibration, Op::WaitCalibrated];
    assert(ops@ =~= calibration_program());
    ops
}

/// The calibration results of one side: `CLx0` to `CLx4` and `CLxS`.
#[derive(Clone, Copy, Debug, PartialEq, Eq, Structural)]
pub struct Calibration {
    pub cl0: u16,
    pub cl1: u16,
    pub cl2: u16,
    pub cl3: u16,
    pub cl4: u16,
    pub cls: u16,
}

impl Calibration {
    /// The sum of the results.
    pub open spec fn sum(self) -> int {
        self.cl0 + self.cl1 + self.cl2 + self.cl3 + self.cl4 + self.cls
    }

    /// The gain of the side: half the sum, with the most significant bit set.
    pub open spec fn gain(self) -> u16 {
        ((self.sum() / 2) as u16) | 0x8000
    }

    fn exec_gain(&self) -> (r: u16)
        ensures
            r == self.gain(),
    {
        let sum: u32 = self.cl0 as u32 + self.cl1 as u32 + self.cl2 as u32 + self.cl3 as u32
            + self.cl4 as u32 + self.cls as u32;
        assert(sum >> 1u8 == sum / 2) by (bit_vector);
        ((sum >> 1u8) as u16) | 0x8000
    }
}

/// Accesses that end a calibration, failed or with these results, and restore the averaging.
pub open spec fn calibrated_program(
    failed: bool,
    plus: Calibration,
    minus: Calibration,
    averaging: Averaging,
) -> Seq<Op> {
    (if failed {
        seq![Op::ReadResult, Op::ClearCalf]
    } else {
        seq![
            Op::ReadResult,
            Op::WritePlusGain(plus.gain()),
            Op::WriteMinusGain(minus.gain()),
        ]
    }) + seq![Op::WriteAveraging(average_of(averaging))]
}

/// Ends a calibration: `failed` is `SC3[CALF]`, `plus` and `minus` are the results.
pub fn finish_calibration(
    failed: bool,
    plus: Calibration,
    minus: Calibration,
    averaging: Averaging,
) -> (r: (Vec<Op>, Result<(), Error>))
    ensures
        r.0@ == calibrated_program(failed, plus, minus, averaging),
        r.1 == if failed {
            Err(Error::CalibrationFailed)
        } else {
            Ok(())
        },
{
    let mut ops: Vec<Op> = vec![Op::ReadResult];
    if failed {
        ops.push(Op::ClearCalf);
        ops.push(apply_averaging(averaging));
        assert(ops@ =~= calibrated_program(failed, plus, minus, averaging));
        return (ops, Err(Error::CalibrationFailed));
    }
    ops.push(Op::WritePlusGain(plus.exec_gain()));
    ops.push(Op::WriteMinusGain(minus.exec_gain()));
    ops.push(apply_averaging(averaging));
    assert(ops@ =~= calibrated_program(failed, plus, minus, averaging));
    (ops, Ok(()))
}

/// Whether a program sets the module up for a configuration and runs its calibration.
pub open spec fn sets_up(ops: Seq<Op>, bus_hz: u32, config: Config) -> bool {
    exists|adiv: Adiv|
        {
            &&& slow_enough(bus_hz as int, adiv)
            &&& forall|d: Adiv| #[trigger]
                slow_enough(bus_hz as int, d) ==> adiv.divisor() <= d.divisor()
            &&& ops == #[trigger] init_program(adiv, config.resolution) + calibration_program()
        }
}

/// Accesses that set the module up, up to its calibration.
pub open spec fn init_program(adiv: Adiv, resolution: Resolution) -> Seq<Op> {
    seq![
        Op::EnableClock,
        Op::Deselect { n: 0 },
        Op::Deselect { n: 1 },
        Op::WriteCfg1 { mode: mode_of(resolution), adiv },
        Op::ResetCfg2,
        Op::ResetSc2,
    ]
}

/// Sets the module up and runs its calibration; what came of it goes to [`Adc::new_blocking`] or
/// [`Adc::new`].
pub fn init(bus_hz: u32, config: Config) -> (r: Vec<Op>)
    requires
        0 < bus_hz <= MAX_CALIBRATION_CLOCK_HZ * 8,
    ensures
        sets_up(r@, bus_hz, config),
{
    let adiv: Adiv = clock_divider(bus_hz);
    let mut ops: Vec<Op> = vec![
        Op::EnableClock,
        Op::Deselect { n: 0 },
        Op::Deselect { n: 1 },
        Op::WriteCfg1 { mode: conversion_mode(config.resolution), adiv },
        Op::ResetCfg2,
        Op::ResetSc2,
    ];
    let mut calibration: Vec<Op> = start_calibration();
    ops.append(&mut calibration);
    assert(ops@ =~= init_program(adiv, config.resolution) + calibration_program());
    ops
}

/// Accesses that stop conversions and the clock of the module.
pub open spec fn deinit_program() -> Seq<Op> {
    seq![
        Op::Deselect { n: 0 },
        Op::Deselect { n: 1 },
        Op::ResetSc2,
        Op::ClearCalf,
        Op::ForgetResult,
        Op::DisableClock,
    ]
}

/// Stops conversions and the clock of the module.
pub fn deinit() -> (r: Vec<Op>)
    ensures
        r@ == deinit_program(),
{
    let ops: Vec<Op> = vec![
        Op::Deselect { n: 0 },
        Op::Deselect { n: 1 },
        Op::ResetSc2,
        Op::ClearCalf,
        Op::ForgetResult,
        Op::DisableClock,
    ];
    assert(ops@ =~= deinit_program());
    ops
}

/// Accesses that end the calibration with which a driver is created: where it failed, the module is
/// shut down again.
pub open spec fn creation_program(
    failed: bool,
    plus: Calibration,
    minus: Calibration,
    averaging: Averaging,
) -> Seq<Op> {
    calibrated_program(failed, plus, minus, averaging) + if failed {
        deinit_program()
    } else {
        seq![]
    }
}

/// Ends the calibration with which a driver is created.
fn finish_creation(
    failed: bool,
    plus: Calibration,
    minus: Calibration,
    averaging: Averaging,
) -> (r: (Vec<Op>, Result<(), Error>))
    ensures
        r.0@ == creation_program(failed, plus, minus, averaging),
        r.1 == if failed {
            Err(Error::CalibrationFailed)
        } else {
            Ok(())
        },
{
    let (mut ops, result): (Vec<Op>, Result<(), Error>) = finish_calibration(
        failed,
        plus,
        minus,
        averaging,
    );
    if failed {
        let mut stop: Vec<Op> = deinit();
        ops.append(&mut stop);
    }
    assert(ops@ =~= creation_program(failed, plus, minus, averaging));
    (ops, result)
}

/// Accesses that start a conversion.
pub open spec fn conversion_program(channel: u8, mux_b: bool, interrupt: bool) -> Seq<Op> {
    seq![Op::SetMuxsel(mux_b), Op::StartConversion { channel, aien: interrupt }]
}

/// Starts a conversion of a channel; `mux_b` selects the second of two inputs that share it.
pub fn start_conversion(channel: u8, mux_b: bool, interrupt: bool) -> (r: Vec<Op>)
    ensures
        r@ == conversion_program(channel, mux_b, interrupt),
{
    let ops: Vec<Op> = vec![
        Op::SetMuxsel(mux_b),
        Op::StartConversion { channel, aien: interrupt },
    ];
    assert(ops@ =~= conversion_program(channel, mux_b, interrupt));
    ops
}

/// Accesses that stop a conversion. To be made atomically.
pub open spec fn stop_program() -> Seq<Op> {
    seq![Op::Deselect { n: 0 }, Op::ForgetResult, Op::UnpendInterrupt]
}

/// Stops a conversion, completed or not.
pub fn stop_conversion() -> (r: Vec<Op>)
    ensures
        r@ == stop_program(),
{
    let ops: Vec<Op> = vec![Op::Deselect { n: 0 }, Op::ForgetResult, Op::UnpendInterrupt];
    assert(ops@ =~= stop_program());
    ops
}

/// Per-instance async state: the result of a conversion.
#[derive(Clone, Copy, Debug, PartialEq, Eq, Structural)]
pub struct State {
    result: u32,
}

impl State {
    /// Whether the state holds a result or nothing.
    pub closed spec fn wf(&self) -> bool {
        self.result == NO_RESULT || self.result <= u16::MAX
    }

    /// The result, if there is one.
    pub closed spec fn result(&self) -> Option<u16> {
        if self.result == NO_RESULT {
            None
        } else {
            Some(self.result as u16)
        }
    }

    /// Create empty ADC state.
    pub fn new() -> (r: Self)
        ensures
            r.wf(),
            r.result() is None,
    {
        State { result: NO_RESULT }
    }

    /// Forget the result.
    pub fn forget(&mut self)
        ensures
            final(self).wf(),
            final(self).result() is None,
    {
        self.result = NO_RESULT;
    }

    /// Store a result.
    pub fn store(&mut self, result: u16)
        ensures
            final(self).wf(),
            final(self).result() == Some(result),
    {
        self.result = result as u32;
    }

    /// The result, if there is one.
    pub fn poll(&self) -> (r: Option<u16>)
        requires
            self.wf(),
        ensures
            r == self.result(),
    {
        if self.result == NO_RESULT {
            None
        } else {
            Some(self.result as u16)
        }
    }
}

impl Default for State {
    fn default() -> (r: Self)
        ensures
            r.wf(),
            r.result() is None,
    {
        State::new()
    }
}

/// Whether the interrupt handler reads and stores the result, and wakes the driver.
pub fn on_interrupt(aien: bool, coco: bool) -> (r: bool)
    ensures
        r == (aien && coco),
{
    aien && coco
}

/// ADC driver.
///
/// Dropping the driver is to stop conversions and disable its clock and interrupt; see
/// [`Adc::close`].
#[derive(Clone, Copy, Debug, PartialEq, Eq, Structural)]
pub struct Adc {
    resolution: Resolution,
    averaging: Averaging,
    interrupt: bool,
}

impl Adc {
    /// The conversion resolution.
    pub closed spec fn bits(&self) -> Resolution {
        self.resolution
    }

    /// The hardware averaging setting.
    pub closed spec fn samples(&self) -> Averaging {
        self.averaging
    }

    /// Whether the driver uses the interrupt.
    pub closed spec fn interrupting(&self) -> bool {
        self.interrupt
    }

    /// A blocking ADC driver, once [`init`] has set the module up and run its calibration: `failed`
    /// is `SC3[CALF]`, `plus` and `minus` are the results. A failed calibration is an error, and the
    /// module is shut down again.
    pub fn new_blocking(
        config: Config,
        failed: bool,
        plus: Calibration,
        minus: Calibration,
    ) -> (r: (Result<Self, Error>, Vec<Op>))
        ensures
            match r.0 {
                Ok(adc) => {
                    &&& !failed
                    &&& adc.bits() == config.resolution
                    &&& adc.samples() == config.averaging
                    &&& !adc.interrupting()
                },
                Err(e) => failed && e == Error::CalibrationFailed,
            },
            r.1@ == creation_program(failed, plus, minus, config.averaging),
    {
        let (ops, result): (Vec<Op>, Result<(), Error>) = finish_creation(
            failed,
            plus,
            minus,
            config.averaging,
        );
        let adc: Adc = Adc {
            resolution: config.resolution,
            averaging: config.averaging,
            interrupt: false,
        };
        match result {
            Ok(()) => (Ok(adc), ops),
            Err(e) => (Err(e), ops),
        }
    }

    /// An interrupt-driven ADC driver, once [`init`] has set the module up and run its calibration;
    /// see [`new_blocking`](Self::new_blocking).
    pub fn new(config: Config, failed: bool, plus: Calibration, minus: Calibration) -> (r: (
        Result<Self, Error>,
        Vec<Op>,
    ))
        ensures
            match r.0 {
                Ok(adc) => {
                    &&& !failed
                    &&& adc.bits() == config.resolution
                    &&& adc.samples() == config.averaging
                    &&& adc.interrupting()
                },
                Err(e) => failed && e == Error::CalibrationFailed,
            },
            r.1@ == creation_program(failed, plus, minus, config.averaging) + if failed {
                seq![]
            } else {
                seq![Op::UnpendInterrupt, Op::EnableInterrupt]
            },
    {
        let (mut ops, result): (Vec<Op>, Result<(), Error>) = finish_creation(
            failed,
            plus,
            minus,
            config.averaging,
        );
        let adc: Adc = Adc {
            resolution: config.resolution,
            averaging: config.averaging,
            interrupt: true,
        };
        match result {
            Ok(()) => {
                ops.push(Op::UnpendInterrupt);
                ops.push(Op::EnableInterrupt);
                assert(ops@ =~= creation_program(failed, plus, minus, config.averaging) + seq![
                    Op::UnpendInterrupt,
                    Op::EnableInterrupt,
                ]);
                (Ok(adc), ops)
            },
            Err(e) => {
                assert(ops@ =~= creation_program(failed, plus, minus, config.averaging)
                    + Seq::<Op>::empty());
                (Err(e), ops)
            },
        }
    }

    /// Starts an interrupt-driven conversion. To be applied atomically.
    pub fn start_read(&self, state: &mut State, channel: u8, mux_b: bool) -> (r: Vec<Op>)
        ensures
            final(state).wf(),
            final(state).result() is None,
            r@ == conversion_program(channel, mux_b, true),
    {
        state.forget();
        start_conversion(channel, mux_b, true)
    }

    /// Starts a conversion whose end is polled (`SC1A[COCO]`).
    pub fn start_blocking_read(&self, channel: u8, mux_b: bool) -> (r: Vec<Op>)
        ensures
            r@ == conversion_program(channel, mux_b, false),
    {
        start_conversion(channel, mux_b, false)
    }

    /// Run ADC self-calibration again; what came of it goes to [`finish_calibration`].
    pub fn calibrate(&self) -> (r: Vec<Op>)
        ensures
            r@ == seq![Op::Deselect { n: 0 }] + calibration_program(),
    {
        let mut ops: Vec<Op> = vec![Op::Deselect { n: 0 }];
        let mut start: Vec<Op> = start_calibration();
        ops.append(&mut start);
        assert(ops@ =~= seq![Op::Deselect { n: 0 }] + calibration_program());
        ops
    }

    /// Return the conversion resolution.
    pub fn resolution(&self) -> (r: Resolution)
        ensures
            r == self.bits(),
    {
        self.resolution
    }

    /// Set the conversion resolution.
    pub fn set_resolution(&mut self, resolution: Resolution) -> (r: Op)
        ensures
            final(self).bits() == resolution,
            final(self).samples() == old(self).samples(),
            final(self).interrupting() == old(self).interrupting(),
            r == Op::SetMode(mode_of(resolution)),
    {
        self.resolution = resolution;
        Op::SetMode(conversion_mode(resolution))
    }

    /// Return the hardware averaging setting.
    pub fn averaging(&self) -> (r: Averaging)
        ensures
            r == self.samples(),
    {
        self.averaging
    }

    /// Set the number of samples averaged for each result.
    pub fn set_averaging(&mut self, averaging: Averaging) -> (r: Op)
        ensures
            final(self).samples() == averaging,
            final(self).bits() == old(self).bits(),
            final(self).interrupting() == old(self).interrupting(),
            r == Op::WriteAveraging(average_of(averaging)),
    {
        self.averaging = averaging;
        apply_averaging(averaging)
    }

    /// The accesses that end the driver. To be made atomically.
    pub fn close(&self) -> (r: Vec<Op>)
        ensures
            r@ == (if self.interrupting() {
                seq![Op::DisableInterrupt, Op::UnpendInterrupt]
            } else {
                seq![]
            }) + deinit_program(),
    {
        let mut ops: Vec<Op> = Vec::new();
        if self.interrupt {
            ops.push(Op::DisableInterrupt);
            ops.push(Op::UnpendInterrupt);
        }
        let mut stop: Vec<Op> = deinit();
        ops.append(&mut stop);
        assert(ops@ =~= (if self.interrupting() {
            seq![Op::DisableInterrupt, Op::UnpendInterrupt]
        } else {
            seq![]
        }) + deinit_program());
        ops
    }
}

/// The calibration clock never exceeds 4 MHz, for any bus clock that can be divided down to that.
pub proof fn law_calibration_clock(bus_hz: int, adiv: Adiv)
    requires
        0 < bus_hz <= MAX_CALIBRATION_CLOCK_HZ * 8,
        slow_enough(bus_hz, adiv),
    ensures
        bus_hz / adiv.divisor() <= MAX_CALIBRATION_CLOCK_HZ,
{
    match adiv {
        Adiv::_00 => {},
        Adiv::_01 => {},
        Adiv::_10 => {},
        Adiv::_11 => {},
    }
}

/// A calibration ends with the averaging that was set before, whether it succeeded or not.
pub proof fn law_calibration_restores_averaging(
    failed: bool,
    plus: Calibration,
    minus: Calibration,
    averaging: Averaging,
)
    ensures
        calibrated_program(failed, plus, minus, averaging).last() == Op::WriteAveraging(
            average_of(averaging),
        ),
{
}

/// A driver whose calibration fails leaves the module shut down, its clock last; one whose calibration
/// succeeds leaves it running.
pub proof fn law_failed_creation_shuts_down(
    failed: bool,
    plus: Calibration,
    minus: Calibration,
    averaging: Averaging,
)
    ensures
        ({
            let program = creation_program(failed, plus, minus, averaging);
            &&& failed <==> program.contains(Op::DisableClock)
            &&& failed ==> program.last() == Op::DisableClock
        }),
{
    let program = creation_program(failed, plus, minus, averaging);
    if failed {
        assert(program[program.len() - 1] == Op::DisableClock);
    }
}

/// A gain has its most significant bit set.
pub proof fn law_gain_is_marked(calibration: Calibration)
    ensures
        calibration.gain() >= 0x8000,
{
    let half = (calibration.sum() / 2) as u16;
    assert(half | 0x8000 >= 0x8000) by (bit_vector);
}

} // verus!
