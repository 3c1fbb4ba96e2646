//! Power modes (Kinetis SMC, LLWU, LPTMR).
//!
//! Three layers:
//!
//! - **Run modes.** RUN, HSRUN (entered by [`clocks`](crate::clocks) when the core clock needs it)
//!   and VLPR, selected through [`ClockConfig::run_mode`](crate::clocks::ClockConfig) because VLPR
//!   restricts the clocks.
//! - **Idle sleep.** [`Config::sleep_mode`] picks what the executor's idle `WFE` enters: WAIT,
//!   a partial stop, STOP or VLPS. The time driver keeps ticking in all of them (its TPM clock,
//!   the fast IRC, is kept running in stop).
//! - **Low leakage.** [`stop`] takes the chip into LLS or VLLS with LLWU pin and LPTMR timeout wake
//!   sources; [`wake_reason`] and [`finish_stop`] follow where the mode returns. VLLS exits through
//!   a reset; see [`woke_from_vlls`] and [`release_io_after_vlls`].

pub mod hardware;

use vstd::prelude::*;

use crate::bits;
use crate::clocks::ClockConfig;
use crate::clocks::Clkst;
use crate::clocks::McgMode;
use crate::clocks::RunMode;
use crate::clocks::Runm;
use crate::gpio::Bank;

verus! {

/// What the core enters when the executor idles.
#[derive(Clone, Copy, Debug, PartialEq, Eq, Structural)]
pub enum SleepMode {
    /// Core clock gated, everything else running. VLPW when in VLPR.
    Wait,
    /// System clock stopped, bus clock running: peripherals and DMA keep working.
    PartialStop2,
    /// System and bus clocks stopped, clock sources running: fast wakeup.
    PartialStop1,
    /// Normal STOP. The fast IRC (time driver) and, in PEE, the PLL are kept running.
    Stop,
    /// Very low power stop. Not available with a PLL clock configuration.
    VeryLowPowerStop,
}

impl Default for SleepMode {
    fn default() -> (r: Self)
        ensures
            r == SleepMode::Wait,
    {
        SleepMode::Wait
    }
}

/// Power configuration.
#[derive(Clone, Copy, Debug, PartialEq, Eq, Structural)]
pub struct Config {
    pub sleep_mode: SleepMode,
}

impl Default for Config {
    fn default() -> (r: Self)
        ensures
            r == (Config { sleep_mode: SleepMode::Wait }),
    {
        Config { sleep_mode: SleepMode::Wait }
    }
}

/// The low leakage modes.
#[derive(Clone, Copy, Debug, PartialEq, Eq, Structural)]
pub enum LeakageMode {
    /// LLS3: full RAM retention, goes on where it stopped on wake.
    LowLeakageStop,
    /// VLLS3: full RAM retention, exits through a wakeup reset.
    Vlls3,
    /// VLLS2: partial RAM retention, exits through a wakeup reset.
    Vlls2,
    /// VLLS1: no RAM retention, exits through a wakeup reset.
    Vlls1,
    /// VLLS0: as VLLS1 with the 1 kHz LPO off, so only pins can wake it.
    Vlls0,
}

/// Edge on an LLWU pin that ends a low leakage stop.
#[derive(Clone, Copy, Debug, PartialEq, Eq, Structural)]
pub enum WakeEdge {
    Rising,
    Falling,
    Any,
}

/// A wake source for a low leakage stop.
#[derive(Clone, Copy, Debug, PartialEq, Eq, Structural)]
pub enum Wake {
    /// An edge on an LLWU capable pin (see the chip's LLWU_Pn assignments).
    Pin { bank: Bank, pin: u8, edge: WakeEdge },
    /// LPTMR0 on the 1 kHz LPO, 1 ms to 65535 ms. Not available in VLLS0.
    Timeout { millis: u128 },
}

/// Why a low leakage stop ended.
#[derive(Clone, Copy, Debug, PartialEq, Eq, Structural)]
pub enum WakeReason {
    /// The LLWU pin with this input number.
    Pin(u8),
    /// The LPTMR timeout.
    Timeout,
    /// Something else, for example another module routed to the LLWU.
    Other,
}

/// Stop mode control (`PMCTRL[STOPM]`).
#[derive(Clone, Copy, Debug, PartialEq, Eq, Structural)]
#[allow(non_camel_case_types)]
pub enum Stopm {
    /// Normal stop.
    _000,
    /// Very low power stop.
    _010,
    /// Low leakage stop.
    _011,
    /// Very low leakage stop.
    _100,
}

/// Partial stop option (`STOPCTRL[PSTOPO]`).
#[derive(Clone, Copy, Debug, PartialEq, Eq, Structural)]
#[allow(non_camel_case_types)]
pub enum Pstopo {
    /// Normal stop.
    _00,
    /// Partial stop 1.
    _01,
    /// Partial stop 2.
    _10,
}

/// Low leakage submode (`STOPCTRL[LLSM]`).
#[derive(Clone, Copy, Debug, PartialEq, Eq, Structural)]
#[allow(non_camel_case_types)]
pub enum Llsm {
    _000,
    _001,
    _010,
    _011,
}

/// Wakeup pin edge (`LLWU_PEn[WUPEm]`).
#[derive(Clone, Copy, Debug, PartialEq, Eq, Structural)]
#[allow(non_camel_case_types)]
pub enum Wupe {
    /// Rising edge.
    _01,
    /// Falling edge.
    _10,
    /// Either edge.
    _11,
}

/// A register access of the power modes. Fields that an access does not name keep their value,
/// unless it is described as a write of the whole register.
#[derive(Clone, Copy, Debug, PartialEq, Eq, Structural)]
pub enum Op {
    /// Write `SMC_PMPROT`: allow VLP, LLS, VLLS and HSRUN.
    AllowAllModes,
    /// `SMC_PMCTRL[RUNM]`.
    SetRunm(Runm),
    /// Wait until `SMC_PMSTAT` reads this.
    WaitPmstat(u8),
    /// `MCG_C1[IREFSTEN]`.
    SetIrefsten(bool),
    /// `MCG_C5[PLLSTEN]`.
    SetPllsten(bool),
    /// `SMC_STOPCTRL[PSTOPO]`.
    SetPstopo(Pstopo),
    /// `SMC_STOPCTRL[LLSM]` and `SMC_STOPCTRL[PSTOPO] = 0`.
    SetLlsm(Llsm),
    /// `SMC_PMCTRL[STOPM]`.
    SetStopm(Stopm),
    /// Read `SMC_PMCTRL`: the SMC wants the write to land before a WFI or WFE.
    ReadPmctrl,
    /// `SCB_SCR[SLEEPDEEP]`; see [`set_sleepdeep`].
    SetSleepdeep(bool),
    /// `LLWU_PEn[WUPEm]`.
    SetWupe { register: u8, field: u8, wupe: Wupe },
    /// Open the clock gate of LPTMR0.
    EnableTimerClock,
    /// Write the whole of `LPTMR0_CSR` with these fields.
    WriteTimerControl { tie: bool, ten: bool },
    /// Write the whole of `LPTMR0_PSR`: the 1 kHz LPO, prescaler bypassed, so ticks of 1 ms.
    SelectTimerClock,
    /// Write the compare value of LPTMR0.
    WriteTimerCompare(u16),
    /// `LLWU_ME[WUME0] = 1`.
    ArmTimerWakeup,
    /// Write ones to `LLWU_PFn`, which clears its flags.
    ClearPinFlags(u8),
    /// Write zero to `LLWU_PEn`.
    DisarmPins(u8),
    /// Write zero to `LLWU_ME`.
    DisarmModules,
    /// `PMC_REGSC[ACKISO] = 1`.
    ReleaseIo,
    /// Mask interrupts.
    MaskInterrupts,
    /// Unmask interrupts, if they were not masked before [`Op::MaskInterrupts`].
    RestoreInterrupts,
    /// Clear a pending LLWU interrupt in the NVIC.
    UnpendWakeup,
    /// Enable the LLWU interrupt in the NVIC.
    EnableWakeup,
    /// Disable the LLWU interrupt in the NVIC.
    DisableWakeup,
    /// WFI, between a data and an instruction barrier.
    WaitForInterrupt,
}

/// `SMC_PMSTAT` in very low power run.
pub const PMSTAT_VLPR: u8 = 0x04;

/// The idle sleep configuration.
#[derive(Clone, Copy, Debug, PartialEq, Eq, Structural)]
pub struct Sleep {
    pub stopm: Stopm,
    pub pstopo: Pstopo,
    pub sleepdeep: bool,
}

impl SleepMode {
    /// The idle sleep configuration of the mode.
    pub open spec fn setting(self) -> Sleep {
        match self {
            SleepMode::Wait => Sleep { stopm: Stopm::_000, pstopo: Pstopo::_00, sleepdeep: false },
            SleepMode::Stop => Sleep { stopm: Stopm::_000, pstopo: Pstopo::_00, sleepdeep: true },
            SleepMode::PartialStop1 => Sleep {
                stopm: Stopm::_000,
                pstopo: Pstopo::_01,
                sleepdeep: true,
            },
            SleepMode::PartialStop2 => Sleep {
                stopm: Stopm::_000,
                pstopo: Pstopo::_10,
                sleepdeep: true,
            },
            SleepMode::VeryLowPowerStop => Sleep {
                stopm: Stopm::_010,
                pstopo: Pstopo::_00,
                sleepdeep: true,
            },
        }
    }
}

/// Allow every power mode. The protection register is write-once after reset, so this happens
/// exactly once, before anything decides on a mode.
pub fn init_protection() -> (r: Op)
    ensures
        r == Op::AllowAllModes,
{
    Op::AllowAllModes
}

/// Why a power mode is not available.
#[derive(Clone, Copy, Debug, PartialEq, Eq, Structural)]
pub enum ModeError {
    /// VLPS is asked for as idle sleep of a PLL clock configuration.
    VlpsWithPll,
    /// A low leakage stop is asked for while the PLL clocks the chip.
    LeakageWithPll,
    /// The wake pin is no LLWU input.
    NoWakeupInput,
    /// A timeout is asked for in VLLS0, where the LPTMR has no clock.
    NoTimer,
}

impl ModeError {
    /// What to tell the user.
    pub fn message(self) -> (r: &'static str)
        ensures
            match self {
                ModeError::VlpsWithPll => r@
                    == "VLPS is not available with a PLL clock configuration: the MCG drops to PBE on exit"@,
                ModeError::LeakageWithPll => r@
                    == "low leakage stop is not available with a PLL clock configuration"@,
                ModeError::NoWakeupInput => r@ == "pin is not an LLWU wakeup input"@,
                ModeError::NoTimer => r@ == "the LPTMR has no clock in VLLS0"@,
            },
    {
        match self {
            ModeError::VlpsWithPll =>
                "VLPS is not available with a PLL clock configuration: the MCG drops to PBE on exit",
            ModeError::LeakageWithPll =>
                "low leakage stop is not available with a PLL clock configuration",
            ModeError::NoWakeupInput => "pin is not an LLWU wakeup input",
            ModeError::NoTimer => "the LPTMR has no clock in VLLS0",
        }
    }
}

/// Accesses that set the idle sleep. The selected IRC (the time driver's clock) and, in PEE, the
/// PLL are kept alive through stop.
pub open spec fn sleep_program(mode: SleepMode, pll: bool) -> Seq<Op> {
    let setting = mode.setting();
    seq![Op::SetIrefsten(setting.sleepdeep)] + (if pll {
        seq![Op::SetPllsten(setting.sleepdeep)]
    } else {
        seq![]
    }) + seq![
        Op::SetPstopo(setting.pstopo),
        Op::SetStopm(setting.stopm),
        Op::ReadPmctrl,
        Op::SetSleepdeep(setting.sleepdeep),
    ]
}

/// Sets what the executor's idle enters.
pub fn set_sleep_mode(mode: SleepMode, clocks: &ClockConfig) -> (r: Result<Vec<Op>, ModeError>)
    ensures
        match r {
            Ok(ops) => !(mode == SleepMode::VeryLowPowerStop && clocks.mcg is Pee) && ops@
                == sleep_program(mode, clocks.mcg is Pee),
            Err(e) => e == ModeError::VlpsWithPll && mode == SleepMode::VeryLowPowerStop
                && clocks.mcg is Pee,
        },
{
    let deep: bool = mode != SleepMode::Wait;
    let pll: bool = matches!(clocks.mcg, McgMode::Pee { .. });
    if mode == SleepMode::VeryLowPowerStop && pll {
        return Err(ModeError::VlpsWithPll);
    }
    let mut ops: Vec<Op> = vec![Op::SetIrefsten(deep)];
    if pll {
        ops.push(Op::SetPllsten(deep));
    }
    let (stopm, pstopo): (Stopm, Pstopo) = match mode {
        SleepMode::Wait | SleepMode::Stop => (Stopm::_000, Pstopo::_00),
        SleepMode::PartialStop1 => (Stopm::_000, Pstopo::_01),
        SleepMode::PartialStop2 => (Stopm::_000, Pstopo::_10),
        SleepMode::VeryLowPowerStop => (Stopm::_010, Pstopo::_00),
    };
    ops.push(Op::SetPstopo(pstopo));
    ops.push(Op::SetStopm(stopm));
    ops.push(Op::ReadPmctrl);
    ops.push(Op::SetSleepdeep(deep));
    assert(ops@ =~= sleep_program(mode, clocks.mcg is Pee));
    Ok(ops)
}

/// Accesses that enter VLPR where the clock configuration asks for it. Everything that touches the
/// MCG or the clock dividers has run by then; from there on the clock tree must stay as it is.
pub open spec fn run_mode_program(run_mode: RunMode) -> Seq<Op> {
    if run_mode == RunMode::VeryLowPower {
        seq![Op::SetRunm(Runm::_10), Op::WaitPmstat(PMSTAT_VLPR)]
    } else {
        seq![]
    }
}

/// Applies the idle sleep mode and, last of all, VLPR.
pub fn init(config: &Config, clocks: &ClockConfig) -> (r: Result<Vec<Op>, ModeError>)
    ensures
        match r {
            Ok(ops) => !(config.sleep_mode == SleepMode::VeryLowPowerStop && clocks.mcg is Pee)
                && ops@ == sleep_program(config.sleep_mode, clocks.mcg is Pee) + run_mode_program(
                clocks.run_mode,
            ),
            Err(e) => e == ModeError::VlpsWithPll && config.sleep_mode
                == SleepMode::VeryLowPowerStop && clocks.mcg is Pee,
        },
{
    match set_sleep_mode(config.sleep_mode, clocks) {
        Err(e) => Err(e),
        Ok(mut ops) => {
            let ghost before = ops@;
            if clocks.run_mode == RunMode::VeryLowPower {
                ops.push(Op::SetRunm(Runm::_10));
                ops.push(Op::WaitPmstat(PMSTAT_VLPR));
            }
            assert(ops@ =~= before + run_mode_program(clocks.run_mode));
            Ok(ops)
        },
    }
}

/// Whether the executor's idle enters the deep sleep that is set, where `deep`, or WAIT: it is kept in
/// WAIT while there are guards.
pub fn idles_deep(deep: bool, guards: usize) -> (r: bool)
    ensures
        r == (deep && guards == 0),
{
    deep && guards == 0
}

/// `SCB_SCR` with SLEEPDEEP, bit 2, set or cleared.
pub fn set_sleepdeep(scr: u32, deep: bool) -> (r: u32)
    ensures
        bits::bit32(r, 2) == deep,
        forall|n: u8| n < 32 && n != 2 ==> #[trigger] bits::bit32(r, n) == bits::bit32(scr, n),
{
    let r: u32 = if deep {
        scr | (1u32 << 2u8)
    } else {
        scr & !(1u32 << 2u8)
    };
    proof {
        bits::lemma_set32(scr, 2, 2);
        bits::lemma_clear32(scr, 2, 2);
        assert forall|n: u8| n < 32 && n != 2 implies #[trigger] bits::bit32(r, n) == bits::bit32(
            scr,
            n,
        ) by {
            bits::lemma_set32(scr, 2, n);
            bits::lemma_clear32(scr, 2, n);
        }
    }
    r
}

/// An LLWU input: the port and pin, and the input number.
#[derive(Clone, Copy, Debug, PartialEq, Eq, Structural)]
pub struct WakeupPin {
    pub bank: Bank,
    pub pin: u8,
    pub input: u8,
}

/// Whether the inputs of a table are among the LLWU's 32.
pub open spec fn valid_table(table: Seq<WakeupPin>) -> bool {
    forall|i: int| 0 <= i < table.len() ==> (#[trigger] table[i]).input < 32
}

/// The LLWU input number of a pin: that of its first entry in the chip's table.
pub open spec fn input_of(table: Seq<WakeupPin>, bank: Bank, pin: u8) -> Option<u8>
    decreases table.len(),
{
    if table.len() == 0 {
        None
    } else if table[0].bank == bank && table[0].pin == pin {
        Some(table[0].input)
    } else {
        input_of(table.skip(1), bank, pin)
    }
}

/// LLWU input number of a pin, from the chip's table.
pub fn llwu_input(table: &Vec<WakeupPin>, bank: Bank, pin: u8) -> (r: Option<u8>)
    requires
        valid_table(table@),
    ensures
        r == input_of(table@, bank, pin),
        r matches Some(input) ==> input < 32,
{
    assert(table@.skip(0) =~= table@);
    let mut i: usize = 0;
    while i < table.len()
        invariant
            i <= table.len(),
            valid_table(table@),
            input_of(table@, bank, pin) == input_of(table@.skip(i as int), bank, pin),
        decreases table.len() - i,
    {
        assert(table@.skip(i as int)[0] == table@[i as int]);
        assert(table@.skip(i as int).skip(1) =~= table@.skip(i + 1));
        if table[i].bank == bank && table[i].pin == pin {
            return Some(table[i].input);
        }
        i = i + 1;
    }
    None
}

/// Stop mode and submode of a low leakage mode.
pub open spec fn leakage_setting(mode: LeakageMode) -> (Stopm, Llsm) {
    match mode {
        LeakageMode::LowLeakageStop => (Stopm::_011, Llsm::_011),
        LeakageMode::Vlls3 => (Stopm::_100, Llsm::_011),
        LeakageMode::Vlls2 => (Stopm::_100, Llsm::_010),
        LeakageMode::Vlls1 => (Stopm::_100, Llsm::_001),
        LeakageMode::Vlls0 => (Stopm::_100, Llsm::_000),
    }
}

/// The edge selection of a wake edge.
pub open spec fn edge_setting(edge: WakeEdge) -> Wupe {
    match edge {
        WakeEdge::Rising => Wupe::_01,
        WakeEdge::Falling => Wupe::_10,
        WakeEdge::Any => Wupe::_11,
    }
}

/// The timeout as the timer has it: at least one millisecond, at most what it can count.
pub open spec fn timeout_ticks(millis: u128) -> u16 {
    if millis < 1 {
        1
    } else if millis > u16::MAX {
        u16::MAX
    } else {
        millis as u16
    }
}

/// What stands against a wake source.
pub open spec fn wake_error(table: Seq<WakeupPin>, mode: LeakageMode, source: Wake) -> Option<
    ModeError,
> {
    match source {
        Wake::Pin { bank, pin, .. } => if input_of(table, bank, pin) is None {
            Some(ModeError::NoWakeupInput)
        } else {
            None
        },
        Wake::Timeout { .. } => if mode == LeakageMode::Vlls0 {
            Some(ModeError::NoTimer)
        } else {
            None
        },
    }
}

/// Accesses that arm a wake source.
pub open spec fn wake_program(table: Seq<WakeupPin>, source: Wake) -> Seq<Op> {
    match source {
        Wake::Pin { bank, pin, edge } => {
            let input = input_of(table, bank, pin)->0;
            seq![
                Op::SetWupe {
                    register: (input / 4) as u8,
                    field: (input % 4) as u8,
                    wupe: edge_setting(edge),
                },
            ]
        },
        Wake::Timeout { millis } => seq![
            Op::EnableTimerClock,
            Op::WriteTimerControl { tie: false, ten: false },
            Op::SelectTimerClock,
            Op::WriteTimerCompare(timeout_ticks(millis)),
            Op::WriteTimerControl { tie: true, ten: true },
            Op::ArmTimerWakeup,
        ],
    }
}

/// Accesses that arm the wake sources, in order.
pub open spec fn wakes_program(table: Seq<WakeupPin>, wake: Seq<Wake>) -> Seq<Op>
    decreases wake.len(),
{
    if wake.len() == 0 {
        seq![]
    } else {
        wakes_program(table, wake.drop_last()) + wake_program(table, wake.last())
    }
}

/// Accesses, once the wake sources are armed, that enter the mode. The core sleeps with interrupts
/// masked: the LLWU interrupt still ends the stop (a WFI wakes on any enabled pending interrupt) but
/// its handler does not run, so the flags can be read.
pub open spec fn enter_program(mode: LeakageMode) -> Seq<Op> {
    let (stopm, llsm) = leakage_setting(mode);
    seq![
        Op::ClearPinFlags(0),
        Op::ClearPinFlags(1),
        Op::ClearPinFlags(2),
        Op::ClearPinFlags(3),
        Op::SetLlsm(llsm),
        Op::SetStopm(stopm),
        Op::ReadPmctrl,
        Op::SetSleepdeep(true),
        Op::MaskInterrupts,
        Op::UnpendWakeup,
        Op::EnableWakeup,
        Op::WaitForInterrupt,
    ]
}

/// Accesses, once the wakeup flags were read, that clear them, disarm everything and restore the
/// idle sleep configuration.
pub open spec fn restore_program(timeout: bool, sleep: Sleep) -> Seq<Op> {
    seq![
        Op::ClearPinFlags(0),
        Op::ClearPinFlags(1),
        Op::ClearPinFlags(2),
        Op::ClearPinFlags(3),
        Op::DisableWakeup,
        Op::UnpendWakeup,
        Op::RestoreInterrupts,
        Op::DisarmPins(0),
        Op::DisarmPins(1),
        Op::DisarmPins(2),
        Op::DisarmPins(3),
        Op::DisarmPins(4),
        Op::DisarmPins(5),
        Op::DisarmPins(6),
        Op::DisarmPins(7),
        Op::DisarmModules,
    ] + (if timeout {
        seq![Op::WriteTimerControl { tie: false, ten: false }]
    } else {
        seq![]
    }) + seq![
        Op::SetPstopo(sleep.pstopo),
        Op::SetStopm(sleep.stopm),
        Op::ReadPmctrl,
        Op::SetSleepdeep(sleep.sleepdeep),
    ]
}

/// Whether one of the wake sources is a timeout.
pub open spec fn has_timeout(wake: Seq<Wake>) -> bool {
    exists|i: int| 0 <= i < wake.len() && #[trigger] wake[i] is Timeout
}

/// Arms one wake source.
fn arm(table: &Vec<WakeupPin>, mode: LeakageMode, source: Wake) -> (r: Result<Vec<Op>, ModeError>)
    requires
        valid_table(table@),
    ensures
        match r {
            Ok(ops) => wake_error(table@, mode, source) is None && ops@ == wake_program(
                table@,
                source,
            ),
            Err(e) => wake_error(table@, mode, source) == Some(e),
        },
{
    match source {
        Wake::Pin { bank, pin, edge } => {
            match llwu_input(table, bank, pin) {
                None => Err(ModeError::NoWakeupInput),
                Some(input) => {
                    let wupe: Wupe = match edge {
                        WakeEdge::Rising => Wupe::_01,
                        WakeEdge::Falling => Wupe::_10,
                        WakeEdge::Any => Wupe::_11,
                    };
                    Ok(vec![Op::SetWupe { register: input / 4, field: input % 4, wupe }])
                },
            }
        },
        Wake::Timeout { millis } => {
            if mode == LeakageMode::Vlls0 {
                return Err(ModeError::NoTimer);
            }
            let ms: u16 = if millis < 1 {
                1
            } else if millis > u16::MAX as u128 {
                u16::MAX
            } else {
                millis as u16
            };
            Ok(
                vec![
                    Op::EnableTimerClock,
                    Op::WriteTimerControl { tie: false, ten: false },
                    Op::SelectTimerClock,
                    Op::WriteTimerCompare(ms),
                    Op::WriteTimerControl { tie: true, ten: true },
                    Op::ArmTimerWakeup,
                ],
            )
        },
    }
}

/// Enter a low leakage stop until one of `wake` fires: the accesses to make, the last of which
/// sleeps. `clkst` is `MCG_S[CLKST]` and `table` the chip's LLWU inputs. Not available with a PLL
/// clock configuration.
///
/// LLS goes on after that: [`wake_reason`] tells why, then [`finish_stop`] puts things back. The
/// VLLS modes exit through a wakeup reset; after that reset [`woke_from_vlls`] is true and the pins
/// stay frozen until [`release_io_after_vlls`].
///
/// The executor is not running meanwhile, and time does not advance.
pub fn stop(
    mode: LeakageMode,
    wake: &Vec<Wake>,
    table: &Vec<WakeupPin>,
    clkst: Clkst,
) -> (r: Result<Vec<Op>, ModeError>)
    requires
        valid_table(table@),
    ensures
        match r {
            Ok(ops) => {
                &&& clkst != Clkst::_11
                &&& forall|i: int|
                    0 <= i < wake@.len() ==> wake_error(table@, mode, #[trigger] wake@[i]) is None
                &&& ops@ == wakes_program(table@, wake@) + enter_program(mode)
            },
            Err(e) => {
                ||| clkst == Clkst::_11 && e == ModeError::LeakageWithPll
                ||| clkst != Clkst::_11 && exists|i: int|
                    {
                        &&& 0 <= i < wake@.len()
                        &&& wake_error(table@, mode, #[trigger] wake@[i]) == Some(e)
                        &&& forall|j: int|
                            0 <= j < i ==> wake_error(table@, mode, #[trigger] wake@[j]) is None
                    }
            },
        },
{
    if clkst == Clkst::_11 {
        return Err(ModeError::LeakageWithPll);
    }
    let mut ops: Vec<Op> = Vec::new();
    let mut i: usize = 0;
    while i < wake.len()
        invariant
            i <= wake.len(),
            clkst != Clkst::_11,
            valid_table(table@),
            forall|j: int| 0 <= j < i ==> wake_error(table@, mode, #[trigger] wake@[j]) is None,
            ops@ == wakes_program(table@, wake@.take(i as int)),
        decreases wake.len() - i,
    {
        match arm(table, mode, wake[i]) {
            Err(e) => {
                assert(wake_error(table@, mode, wake@[i as int]) == Some(e));
                return Err(e);
            },
            Ok(mut armed) => {
                ops.append(&mut armed);
                assert(wake@.take(i + 1).drop_last() =~= wake@.take(i as int));
            },
        }
        i = i + 1;
    }
    assert(wake@.take(i as int) =~= wake@);
    let ghost armed = ops@;
    let (stopm, llsm): (Stopm, Llsm) = match mode {
        LeakageMode::LowLeakageStop => (Stopm::_011, Llsm::_011),
        LeakageMode::Vlls3 => (Stopm::_100, Llsm::_011),
        LeakageMode::Vlls2 => (Stopm::_100, Llsm::_010),
        LeakageMode::Vlls1 => (Stopm::_100, Llsm::_001),
        LeakageMode::Vlls0 => (Stopm::_100, Llsm::_000),
    };
    // Clear stale pin flags.
    ops.push(Op::ClearPinFlags(0));
    ops.push(Op::ClearPinFlags(1));
    ops.push(Op::ClearPinFlags(2));
    ops.push(Op::ClearPinFlags(3));
    ops.push(Op::SetLlsm(llsm));
    ops.push(Op::SetStopm(stopm));
    ops.push(Op::ReadPmctrl);
    ops.push(Op::SetSleepdeep(true));
    ops.push(Op::MaskInterrupts);
    ops.push(Op::UnpendWakeup);
    ops.push(Op::EnableWakeup);
    ops.push(Op::WaitForInterrupt);
    assert(ops@ =~= armed + enter_program(mode));
    Ok(ops)
}

/// Whether the flag of an LLWU input is set, in the four flag registers.
pub open spec fn input_flag(flags: [u8; 4], input: int) -> bool {
    bits::bit8(flags@[input / 8], (input % 8) as u8)
}

/// Why the stop ended, from the pin flag registers (`LLWU_PF1` to `LLWU_PF4`) and the flag of the
/// timer (`LLWU_MF5[MWUF0]`): the timeout, else the last input whose flag is set.
pub fn wake_reason(flags: [u8; 4], mwuf0: bool) -> (r: WakeReason)
    ensures
        match r {
            WakeReason::Timeout => mwuf0,
            WakeReason::Pin(n) => !mwuf0 && n < 32 && input_flag(flags, n as int) && forall|m: int|
                n < m < 32 ==> !#[trigger] input_flag(flags, m),
            WakeReason::Other => !mwuf0 && forall|m: int| 0 <= m < 32 ==> !#[trigger] input_flag(flags, m),
        },
{
    let mut reason: WakeReason = WakeReason::Other;
    let mut n: u8 = 0;
    while n < 32
        invariant
            n <= 32,
            match reason {
                WakeReason::Timeout => false,
                WakeReason::Pin(p) => p < n && input_flag(flags, p as int) && forall|m: int|
                    p < m < n ==> !#[trigger] input_flag(flags, m),
                WakeReason::Other => forall|m: int| 0 <= m < n ==> !#[trigger] input_flag(flags, m),
            },
        decreases 32 - n,
    {
        let register: u8 = flags[(n / 8) as usize];
        if register & (1u8 << (n % 8)) != 0 {
            assert(input_flag(flags, n as int));
            reason = WakeReason::Pin(n);
        }
        n = n + 1;
    }
    if mwuf0 {
        reason = WakeReason::Timeout;
    }
    reason
}

/// After a low leakage stop, once [`wake_reason`] has its flags: clears the flags, disarms everything
/// and restores the idle sleep configuration `sleep`
/// that was in force before [`stop`].
pub fn finish_stop(wake: &Vec<Wake>, sleep: Sleep) -> (r: Vec<Op>)
    ensures
        r@ == restore_program(has_timeout(wake@), sleep),
{
    let mut timeout: bool = false;
    let mut i: usize = 0;
    while i < wake.len()
        invariant
            i <= wake.len(),
            timeout <==> exists|j: int| 0 <= j < i && #[trigger] wake@[j] is Timeout,
        decreases wake.len() - i,
    {
        if matches!(wake[i], Wake::Timeout { .. }) {
            assert(wake@[i as int] is Timeout);
            timeout = true;
        }
        i = i + 1;
    }
    let mut ops: Vec<Op> = vec![
        Op::ClearPinFlags(0),
        Op::ClearPinFlags(1),
        Op::ClearPinFlags(2),
        Op::ClearPinFlags(3),
        Op::DisableWakeup,
        Op::UnpendWakeup,
        Op::RestoreInterrupts,
        Op::DisarmPins(0),
        Op::DisarmPins(1),
        Op::DisarmPins(2),
        Op::DisarmPins(3),
        Op::DisarmPins(4),
        Op::DisarmPins(5),
        Op::DisarmPins(6),
        Op::DisarmPins(7),
        Op::DisarmModules,
    ];
    if timeout {
        ops.push(Op::WriteTimerControl { tie: false, ten: false });
    }
    ops.push(Op::SetPstopo(sleep.pstopo));
    ops.push(Op::SetStopm(sleep.stopm));
    ops.push(Op::ReadPmctrl);
    ops.push(Op::SetSleepdeep(sleep.sleepdeep));
    assert(ops@ =~= restore_program(timeout, sleep));
    ops
}

/// Whether the last reset was the wakeup from a VLLS mode: `wakeup` is `RCM_SRS0[WAKEUP]`.
pub fn woke_from_vlls(wakeup: bool) -> (r: bool)
    ensures
        r == wakeup,
{
    wakeup
}

/// After a VLLS wakeup reset the pins stay frozen in their pre-sleep state until this is called.
/// Configure the pins as needed first, then release them. `ackiso` is `PMC_REGSC[ACKISO]`.
pub fn release_io_after_vlls(ackiso: bool) -> (r: Option<Op>)
    ensures
        r == if ackiso {
            Some(Op::ReleaseIo)
        } else {
            None
        },
{
    if ackiso {
        Some(Op::ReleaseIo)
    } else {
        None
    }
}

/// The idle sleep configuration after an access.
pub open spec fn sleep_after(op: Op, sleep: Sleep) -> Sleep {
    match op {
        Op::SetPstopo(pstopo) => Sleep { pstopo, ..sleep },
        Op::SetLlsm(_) => Sleep { pstopo: Pstopo::_00, ..sleep },
        Op::SetStopm(stopm) => Sleep { stopm, ..sleep },
        Op::SetSleepdeep(sleepdeep) => Sleep { sleepdeep, ..sleep },
        _ => sleep,
    }
}

/// The idle sleep configuration after a program.
pub open spec fn sleep_after_all(ops: Seq<Op>, sleep: Sleep) -> Sleep
    decreases ops.len(),
{
    if ops.len() == 0 {
        sleep
    } else {
        sleep_after(ops.last(), sleep_after_all(ops.drop_last(), sleep))
    }
}

proof fn lemma_ends_in(ops: Seq<Op>, setting: Sleep, from: Sleep)
    requires
        ops.len() >= 4,
        ops.skip(ops.len() - 4) == seq![
            Op::SetPstopo(setting.pstopo),
            Op::SetStopm(setting.stopm),
            Op::ReadPmctrl,
            Op::SetSleepdeep(setting.sleepdeep),
        ],
    ensures
        sleep_after_all(ops, from) == setting,
{
    let n = ops.len();
    let tail = ops.skip(n - 4);
    assert(tail[0] == ops[n - 4] && tail[1] == ops[n - 3] && tail[2] == ops[n - 2] && tail[3]
        == ops[n - 1]);
    let a = ops.drop_last();
    let b = a.drop_last();
    let c = b.drop_last();
    assert(c.last() == ops[n - 4]);
    assert(b.last() == ops[n - 3]);
    assert(a.last() == ops[n - 2]);
    reveal_with_fuel(sleep_after_all, 5);
}

/// Setting an idle sleep mode leaves the chip configured for exactly that mode.
pub proof fn law_sleep_mode_is_set(mode: SleepMode, pll: bool, from: Sleep)
    ensures
        sleep_after_all(sleep_program(mode, pll), from) == mode.setting(),
{
    let ops = sleep_program(mode, pll);
    let setting = mode.setting();
    assert(ops.skip(ops.len() - 4) =~= seq![
        Op::SetPstopo(setting.pstopo),
        Op::SetStopm(setting.stopm),
        Op::ReadPmctrl,
        Op::SetSleepdeep(setting.sleepdeep),
    ]);
    lemma_ends_in(ops, setting, from);
}

/// A low leakage stop sleeps once, last of all, and then the chip is set up for exactly the mode that
/// was asked for, with interrupts masked and the LLWU interrupt enabled.
pub proof fn law_stop_enters_the_mode(
    table: Seq<WakeupPin>,
    wake: Seq<Wake>,
    mode: LeakageMode,
    from: Sleep,
)
    ensures
        ({
            let program = wakes_program(table, wake) + enter_program(mode);
            let n = program.len();
            let (stopm, llsm) = leakage_setting(mode);
            &&& program[n - 1] == Op::WaitForInterrupt
            &&& forall|i: int| 0 <= i < n - 1 ==> !(#[trigger] program[i] is WaitForInterrupt)
            &&& program[n - 2] == Op::EnableWakeup && program[n - 4] == Op::MaskInterrupts
            &&& program[n - 8] == Op::SetLlsm(llsm)
            &&& sleep_after_all(program, from) == (Sleep {
                stopm,
                pstopo: Pstopo::_00,
                sleepdeep: true,
            })
        }),
{
    let arming = wakes_program(table, wake);
    let entering = enter_program(mode);
    let program = arming + entering;
    lemma_arming_never_sleeps(table, wake);
    assert forall|i: int| 0 <= i < program.len() - 1 implies !(#[trigger] program[i] is WaitForInterrupt) by {
        if i < arming.len() {
            assert(program[i] == arming[i]);
        } else {
            assert(program[i] == entering[i - arming.len()]);
        }
    }
    let a = program.drop_last();
    let b = a.drop_last();
    let c = b.drop_last();
    let d = c.drop_last();
    let e = d.drop_last();
    let f = e.drop_last();
    let g = f.drop_last();
    assert(program.last() == entering[11] && a.last() == entering[10] && b.last() == entering[9]
        && c.last() == entering[8] && d.last() == entering[7] && e.last() == entering[6] && f.last()
        == entering[5] && g.last() == entering[4]);
    reveal_with_fuel(sleep_after_all, 9);
}

proof fn lemma_arming_never_sleeps(table: Seq<WakeupPin>, wake: Seq<Wake>)
    ensures
        forall|i: int|
            0 <= i < wakes_program(table, wake).len() ==> !(#[trigger] wakes_program(
                table,
                wake,
            )[i] is WaitForInterrupt),
    decreases wake.len(),
{
    if wake.len() > 0 {
        let before = wakes_program(table, wake.drop_last());
        let last = wake_program(table, wake.last());
        lemma_arming_never_sleeps(table, wake.drop_last());
        assert forall|i: int| 0 <= i < (before + last).len() implies !(#[trigger] (before + last)[i] is WaitForInterrupt) by {
            if i < before.len() {
                assert((before + last)[i] == before[i]);
            } else {
                assert((before + last)[i] == last[i - before.len()]);
            }
        }
    }
}

/// A low leakage stop leaves the idle sleep configuration as it was, whatever the stop itself
/// changed.
pub proof fn law_stop_restores_sleep(timeout: bool, sleep: Sleep, from: Sleep)
    ensures
        sleep_after_all(restore_program(timeout, sleep), from) == sleep,
{
    let ops = restore_program(timeout, sleep);
    assert(ops.skip(ops.len() - 4) =~= seq![
        Op::SetPstopo(sleep.pstopo),
        Op::SetStopm(sleep.stopm),
        Op::ReadPmctrl,
        Op::SetSleepdeep(sleep.sleepdeep),
    ]);
    lemma_ends_in(ops, sleep, from);
}

} // verus!
