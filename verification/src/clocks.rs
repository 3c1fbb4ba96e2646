//! Clocks: system clock configuration and peripheral clock gating.
//!
//! [`ClockConfig`] selects the MCG mode and the SIM dividers; [`init`] turns it into the register
//! accesses that apply it and the frequencies that result.
//!
//! On Kinetis every peripheral has a clock gate bit in one of the `SIM_SCGCx` registers, and its
//! registers are inaccessible (a bus fault) while it is closed.

pub mod hardware;

use vstd::prelude::*;

use crate::bits;

verus! {

/// Slow internal reference clock.
pub const SLOW_IRC_HZ: u32 = 32_768;

/// Fast internal reference clock, before `FCRDIV`.
pub const FAST_IRC_HZ: u32 = 4_000_000;

/// FLL multiplier with `DRST_DRS = 0` and `DMX32 = 0` (the reset configuration).
pub const FLL_FACTOR_LOW: u32 = 640;

/// Core clock limit in Run mode.
pub const RUN_MAX_CORE_HZ: u32 = 72_000_000;

/// Core clock limit in High Speed Run mode.
pub const HSRUN_MAX_CORE_HZ: u32 = 96_000_000;

/// Maximum MCG output and PLL clock.
pub const MAX_MCGOUT_HZ: u32 = 144_000_000;

/// Bus and flash clock limit.
pub const MAX_BUS_HZ: u32 = 24_000_000;

/// QuadSPI bus interface clock limit in Run mode.
pub const RUN_MAX_QSPI_HZ: u32 = 72_000_000;

/// QuadSPI bus interface clock limit in High Speed Run mode.
pub const HSRUN_MAX_QSPI_HZ: u32 = 96_000_000;

/// 48 MHz internal reference, selected as the `PLLFLLSEL` peripheral clock.
pub const IRC48M_HZ: u32 = 48_000_000;

/// Core clock limit in VLPR.
pub const VLPR_MAX_CORE_HZ: u32 = 4_000_000;

/// Bus clock limit in VLPR.
pub const VLPR_MAX_BUS_HZ: u32 = 800_000;

/// Flash clock limit in VLPR.
pub const VLPR_MAX_FLASH_HZ: u32 = 800_000;

/// Clock of the TPM counters: the fast internal reference.
pub const TPM_CLOCK_HZ: u32 = 4_000_000;

/// Clock of the FlexIO timers: the fast internal reference.
pub const FLEXIO_CLOCK_HZ: u32 = 4_000_000;

// ---------------------------------------------------------------------------------------------
// Clock gates
// ---------------------------------------------------------------------------------------------

/// The register that holds a clock gate.
#[derive(Clone, Copy, Debug, PartialEq, Eq, Structural)]
pub enum Scgc {
    Scgc4,
    Scgc5,
    Scgc6,
    Scgc7,
}

/// A peripheral whose clock can be gated: one bit of one `SIM_SCGCx` register.
#[derive(Clone, Copy, Debug, PartialEq, Eq, Structural)]
pub struct ClockGate {
    pub register: Scgc,
    /// Bit number, 0 to 31.
    pub bit: u8,
}

/// Open the clock gate: the new value of its register, which reads `scgc`.
///
/// The registers are shared between peripherals: read, modify and write atomically.
pub fn enable(gate: ClockGate, scgc: u32) -> (r: u32)
    requires
        gate.bit < 32,
    ensures
        forall|n: u8| n < 32 ==> #[trigger] bits::bit32(r, n) == (n == gate.bit || bits::bit32(scgc, n)),
        r == scgc | (1u32 << gate.bit),
{
    proof {
        assert forall|n: u8| n < 32 implies #[trigger] bits::bit32(scgc | (1u32 << gate.bit), n) == (n
            == gate.bit || bits::bit32(scgc, n)) by {
            bits::lemma_set32(scgc, gate.bit, n);
        }
    }
    scgc | (1u32 << gate.bit)
}

/// Close the clock gate: the new value of its register, which reads `scgc`. The
/// peripheral's registers must not be touched afterwards.
pub fn disable(gate: ClockGate, scgc: u32) -> (r: u32)
    requires
        gate.bit < 32,
    ensures
        forall|n: u8| n < 32 ==> #[trigger] bits::bit32(r, n) == (n != gate.bit && bits::bit32(scgc, n)),
        r == scgc & !(1u32 << gate.bit),
{
    proof {
        assert forall|n: u8| n < 32 implies #[trigger] bits::bit32(scgc & !(1u32 << gate.bit), n) == (n
            != gate.bit && bits::bit32(scgc, n)) by {
            bits::lemma_clear32(scgc, gate.bit, n);
        }
    }
    scgc & !(1u32 << gate.bit)
}

/// Whether the clock gate is open, when its register reads `scgc`.
pub fn is_enabled(gate: ClockGate, scgc: u32) -> (r: bool)
    requires
        gate.bit < 32,
    ensures
        r == bits::bit32(scgc, gate.bit),
{
    scgc & (1u32 << gate.bit) != 0
}

/// Opening or closing a gate is seen by that gate alone: every other gate in the register keeps
/// its state.
pub proof fn law_gates_are_independent(gate: ClockGate, other: ClockGate, scgc: u32)
    requires
        gate.bit < 32,
        other.bit < 32,
    ensures
        bits::bit32(scgc | (1u32 << gate.bit), gate.bit),
        !bits::bit32(scgc & !(1u32 << gate.bit), gate.bit),
        other.bit != gate.bit ==> bits::bit32(scgc | (1u32 << gate.bit), other.bit) == bits::bit32(
            scgc,
            other.bit,
        ),
        other.bit != gate.bit ==> bits::bit32(scgc & !(1u32 << gate.bit), other.bit) == bits::bit32(
            scgc,
            other.bit,
        ),
{
    bits::lemma_set32(scgc, gate.bit, gate.bit);
    bits::lemma_set32(scgc, gate.bit, other.bit);
    bits::lemma_clear32(scgc, gate.bit, gate.bit);
    bits::lemma_clear32(scgc, gate.bit, other.bit);
}

// ---------------------------------------------------------------------------------------------
// Clock configuration (MCG, OSC, SIM dividers)
// ---------------------------------------------------------------------------------------------

/// The run mode the chip settles in after `init`. HSRUN is implied by a core clock above 72 MHz.
#[derive(Clone, Copy, Debug, PartialEq, Eq, Structural)]
pub enum RunMode {
    /// Normal run (or high speed run above 72 MHz core).
    Run,
    /// Very low power run: needs [`McgMode::Blpi`], a core clock of at most 4 MHz, and bus and
    /// flash clocks of at most 800 kHz. The 48 MHz IRC is off, so LPUART runs from the 4 MHz IRC.
    /// See [`ClockConfig::vlpr`].
    VeryLowPower,
}

impl Default for RunMode {
    fn default() -> (r: Self)
        ensures
            r == RunMode::Run,
    {
        RunMode::Run
    }
}

/// The source of the external reference clock on `EXTAL0`/`XTAL0`.
#[derive(Clone, Copy, Debug, PartialEq, Eq, Structural)]
pub enum ExternalSource {
    /// A crystal or resonator driven by the internal oscillator.
    Crystal {
        /// Run the oscillator in high gain mode instead of low power mode.
        high_gain: bool,
        /// Internal load capacitance in pF, an even number from 0 to 30.
        load_capacitance_pf: u8,
    },
    /// A square wave clock fed into `EXTAL0`.
    Clock,
}

/// The external reference clock.
#[derive(Clone, Copy, Debug, PartialEq, Eq, Structural)]
pub struct ExternalClock {
    /// Frequency in Hz.
    pub frequency: u32,
    pub source: ExternalSource,
}

/// The Multipurpose Clock Generator mode, which decides what `MCGOUTCLK` is.
#[derive(Clone, Copy, Debug, PartialEq, Eq, Structural)]
pub enum McgMode {
    /// FLL engaged internal: the FLL multiplies the 32.768 kHz slow internal reference by 640,
    /// giving 20.97 MHz. This is the reset configuration and needs no external components.
    Fei,
    /// PLL engaged external: `MCGOUTCLK = external / prdiv * vdiv / 2`.
    Pee {
        external: ExternalClock,
        /// PLL reference divider, 1 to 8. The divided reference must be 8 to 16 MHz.
        prdiv: u8,
        /// VCO multiplier, 16 to 47.
        vdiv: u8,
    },
    /// Bypassed low power internal: the 4 MHz fast internal reference drives `MCGOUTCLK`
    /// directly and the FLL and PLL are off.
    Blpi,
}

/// System clock configuration.
///
/// The bus, flash and QuadSPI clocks are `MCGOUTCLK` divided by their dividers. The core clock
/// must be at most 72 MHz in Run mode (96 MHz in High Speed Run mode, entered automatically), the
/// bus and flash clocks must be at most 24 MHz and at least an eighth of the core clock, and the
/// flash clock must be at most the bus clock. [`ClockConfig::validate`] finds violations.
#[derive(Clone, Copy, Debug, PartialEq, Eq, Structural)]
pub struct ClockConfig {
    pub mcg: McgMode,
    /// Core and system clock divider (`OUTDIV1`), 1 to 16.
    pub core_div: u8,
    /// Bus clock divider (`OUTDIV2`), 1 to 16. Must be a multiple of `core_div`.
    pub bus_div: u8,
    /// Flash clock divider (`OUTDIV4`), 1 to 16. Must be a multiple of `core_div`.
    pub flash_div: u8,
    /// QuadSPI clock divider (`OUTDIV5`), 1 to 16.
    pub qspi_div: u8,
    /// Run mode to settle in.
    pub run_mode: RunMode,
}

/// The clock frequencies in Hz.
#[derive(Clone, Copy, Debug, PartialEq, Eq, Structural)]
pub struct Clocks {
    /// MCG output clock, the input to all the dividers.
    pub mcgout: u32,
    /// Core and system clock.
    pub core: u32,
    /// Bus clock.
    pub bus: u32,
    /// Flash clock.
    pub flash: u32,
    /// QuadSPI clock.
    pub qspi: u32,
    /// The `SIM_SOPT2[PLLFLLSEL]` peripheral clock offered to TPM, FlexIO, EMVSIM and USB: the
    /// 48 MHz IRC48M, or off (0) in VLPR where that IRC is not allowed.
    pub pllfll: u32,
    /// The LPUART module clock: the 48 MHz IRC48M, or the 4 MHz fast IRC in VLPR.
    pub lpuart: u32,
    /// Whether `MCGOUTCLK` comes from the PLL (PEE).
    pub pll: bool,
}

/// A rule that a [`ClockConfig`] breaks, in the order in which they are checked.
#[derive(Clone, Copy, Debug, PartialEq, Eq, Structural)]
pub enum ConfigError {
    /// A divider is zero, so there are no frequencies.
    DivideByZero,
    /// A SIM divider is outside 1 to 16.
    Dividers,
    /// `MCGOUTCLK` is above 144 MHz.
    McgOutput,
    /// The core clock is above 96 MHz.
    CoreClock,
    /// The bus clock is above 24 MHz.
    BusClock,
    /// The flash clock is above 24 MHz or above the bus clock.
    FlashClock,
    /// The bus or flash divider is no multiple of the core divider.
    NotMultiple,
    /// The bus or flash divider is more than eight times the core divider.
    Ratio,
    /// The QuadSPI divider is neither the core divider nor twice that.
    QspiDivider,
    /// The QuadSPI clock is above the limit of the run mode.
    QspiClock,
    /// VLPR without BLPI.
    VlprMode,
    /// A clock is above the VLPR limits.
    VlprClocks,
    /// `prdiv` is outside 1 to 8.
    Prdiv,
    /// `vdiv` is outside 16 to 47.
    Vdiv,
    /// The PLL reference is outside 8 to 16 MHz.
    PllReference,
    /// The load capacitance is odd or above 30 pF.
    LoadCapacitance,
}

impl ConfigError {
    /// The position of the rule in the order of checks.
    pub open spec fn rank(self) -> int {
        match self {
            ConfigError::DivideByZero => 0,
            ConfigError::Dividers => 1,
            ConfigError::McgOutput => 2,
            ConfigError::CoreClock => 3,
            ConfigError::BusClock => 4,
            ConfigError::FlashClock => 5,
            ConfigError::NotMultiple => 6,
            ConfigError::Ratio => 7,
            ConfigError::QspiDivider => 8,
            ConfigError::QspiClock => 9,
            ConfigError::VlprMode => 10,
            ConfigError::VlprClocks => 11,
            ConfigError::Prdiv => 12,
            ConfigError::Vdiv => 13,
            ConfigError::PllReference => 14,
            ConfigError::LoadCapacitance => 15,
        }
    }

    /// What to tell the user.
    pub fn message(self) -> (r: &'static str)
        ensures
            match self {
                ConfigError::DivideByZero => r@ == "attempt to divide by zero"@,
                ConfigError::Dividers => r@ == "clock dividers must be 1 to 16"@,
                ConfigError::McgOutput => r@ == "MCG output clock above 144 MHz"@,
                ConfigError::CoreClock => r@ == "core clock above 96 MHz"@,
                ConfigError::BusClock => r@ == "bus clock above 24 MHz"@,
                ConfigError::FlashClock => r@
                    == "flash clock above 24 MHz or above the bus clock"@,
                ConfigError::NotMultiple => r@
                    == "bus and flash clocks must be integer divisions of the core clock"@,
                ConfigError::Ratio => r@
                    == "core to bus and core to flash ratios are limited to 8"@,
                ConfigError::QspiDivider => r@
                    == "QSPI divider must equal the core divider or twice the core divider"@,
                ConfigError::QspiClock => r@
                    == "QSPI bus interface clock exceeds the run-mode limit"@,
                ConfigError::VlprMode => r@ == "VLPR needs the BLPI clock mode"@,
                ConfigError::VlprClocks => r@
                    == "BLPI VLPR allows at most 4 MHz core and 800 kHz bus and flash"@,
                ConfigError::Prdiv => r@ == "prdiv must be 1 to 8"@,
                ConfigError::Vdiv => r@ == "vdiv must be 16 to 47"@,
                ConfigError::PllReference => r@
                    == "PLL reference (external / prdiv) must be 8 to 16 MHz"@,
                ConfigError::LoadCapacitance => r@
                    == "load capacitance must be an even number of pF up to 30"@,
            },
    {
        match self {
            ConfigError::DivideByZero => "attempt to divide by zero",
            ConfigError::Dividers => "clock dividers must be 1 to 16",
            ConfigError::McgOutput => "MCG output clock above 144 MHz",
            ConfigError::CoreClock => "core clock above 96 MHz",
            ConfigError::BusClock => "bus clock above 24 MHz",
            ConfigError::FlashClock => "flash clock above 24 MHz or above the bus clock",
            ConfigError::NotMultiple =>
                "bus and flash clocks must be integer divisions of the core clock",
            ConfigError::Ratio => "core to bus and core to flash ratios are limited to 8",
            ConfigError::QspiDivider =>
                "QSPI divider must equal the core divider or twice the core divider",
            ConfigError::QspiClock => "QSPI bus interface clock exceeds the run-mode limit",
            ConfigError::VlprMode => "VLPR needs the BLPI clock mode",
            ConfigError::VlprClocks =>
                "BLPI VLPR allows at most 4 MHz core and 800 kHz bus and flash",
            ConfigError::Prdiv => "prdiv must be 1 to 8",
            ConfigError::Vdiv => "vdiv must be 16 to 47",
            ConfigError::PllReference => "PLL reference (external / prdiv) must be 8 to 16 MHz",
            ConfigError::LoadCapacitance =>
                "load capacitance must be an even number of pF up to 30",
        }
    }
}

/// PLL output in Hz.
pub open spec fn pll_hz(frequency: int, prdiv: int, vdiv: int) -> int {
    frequency / prdiv * vdiv / 2
}

/// Whether the PLL accepts these settings.
pub open spec fn legal_pll(external: ExternalClock, prdiv: u8, vdiv: u8) -> bool {
    &&& 1 <= prdiv <= 8
    &&& 16 <= vdiv <= 47
    &&& 8_000_000 <= external.frequency as int / prdiv as int <= 16_000_000
    &&& pll_hz(external.frequency as int, prdiv as int, vdiv as int) <= MAX_MCGOUT_HZ
    &&& external.source matches ExternalSource::Crystal { load_capacitance_pf, .. }
        ==> load_capacitance_pf <= 30 && load_capacitance_pf % 2 == 0
}

impl ClockConfig {
    /// `MCGOUTCLK` in Hz.
    pub open spec fn mcgout(self) -> int {
        match self.mcg {
            McgMode::Fei => SLOW_IRC_HZ * FLL_FACTOR_LOW,
            McgMode::Pee { external, prdiv, vdiv } => pll_hz(
                external.frequency as int,
                prdiv as int,
                vdiv as int,
            ),
            McgMode::Blpi => FAST_IRC_HZ as int,
        }
    }

    /// Whether `MCGOUTCLK` can be worked out in 32 bits.
    pub open spec fn mcgout_computable(self) -> bool {
        self.mcg matches McgMode::Pee { external, prdiv, vdiv } ==> prdiv != 0
            && external.frequency as int / prdiv as int * vdiv <= u32::MAX
    }

    /// Whether no divider is zero.
    pub open spec fn dividers_nonzero(self) -> bool {
        self.core_div != 0 && self.bus_div != 0 && self.flash_div != 0 && self.qspi_div != 0
    }

    pub open spec fn core_hz(self) -> int {
        self.mcgout() / self.core_div as int
    }

    pub open spec fn bus_hz(self) -> int {
        self.mcgout() / self.bus_div as int
    }

    pub open spec fn flash_hz(self) -> int {
        self.mcgout() / self.flash_div as int
    }

    pub open spec fn qspi_hz(self) -> int {
        self.mcgout() / self.qspi_div as int
    }

    /// Whether the configuration breaks this rule.
    pub open spec fn violates(self, rule: ConfigError) -> bool {
        match rule {
            ConfigError::DivideByZero => !self.dividers_nonzero() || (self.mcg matches
                McgMode::Pee { prdiv, .. } && prdiv == 0),
            ConfigError::Dividers => !(1 <= self.core_div <= 16 && 1 <= self.bus_div <= 16 && 1
                <= self.flash_div <= 16 && 1 <= self.qspi_div <= 16),
            ConfigError::McgOutput => self.mcgout() > MAX_MCGOUT_HZ,
            ConfigError::CoreClock => self.core_hz() > HSRUN_MAX_CORE_HZ,
            ConfigError::BusClock => self.bus_hz() > MAX_BUS_HZ,
            ConfigError::FlashClock => self.flash_hz() > MAX_BUS_HZ || self.flash_hz()
                > self.bus_hz(),
            ConfigError::NotMultiple => self.bus_div as int % self.core_div as int != 0
                || self.flash_div as int % self.core_div as int != 0,
            ConfigError::Ratio => self.bus_div as int / self.core_div as int > 8
                || self.flash_div as int / self.core_div as int > 8,
            ConfigError::QspiDivider => self.qspi_div != self.core_div && self.qspi_div
                != self.core_div * 2,
            ConfigError::QspiClock => self.qspi_hz() > if self.core_hz() > RUN_MAX_CORE_HZ {
                HSRUN_MAX_QSPI_HZ
            } else {
                RUN_MAX_QSPI_HZ
            },
            ConfigError::VlprMode => self.run_mode == RunMode::VeryLowPower && self.mcg
                != McgMode::Blpi,
            ConfigError::VlprClocks => self.run_mode == RunMode::VeryLowPower && !(self.core_hz()
                <= VLPR_MAX_CORE_HZ && self.bus_hz() <= VLPR_MAX_BUS_HZ && self.flash_hz()
                <= VLPR_MAX_FLASH_HZ),
            ConfigError::Prdiv => self.mcg matches McgMode::Pee { prdiv, .. } && !(1 <= prdiv <= 8),
            ConfigError::Vdiv => self.mcg matches McgMode::Pee { vdiv, .. } && !(16 <= vdiv <= 47),
            ConfigError::PllReference => self.mcg matches McgMode::Pee { external, prdiv, .. }
                && !(8_000_000 <= external.frequency as int / prdiv as int <= 16_000_000),
            ConfigError::LoadCapacitance => self.mcg matches McgMode::Pee { external, .. }
                && external.source matches ExternalSource::Crystal { load_capacitance_pf, .. }
                && !(load_capacitance_pf <= 30 && load_capacitance_pf % 2 == 0),
        }
    }

    /// Whether the configuration breaks no rule.
    pub open spec fn legal(self) -> bool {
        forall|rule: ConfigError| !#[trigger] self.violates(rule)
    }

    /// The clock frequencies of a configuration whose dividers are not zero.
    pub open spec fn frequencies(self) -> Clocks {
        let vlpr = self.run_mode == RunMode::VeryLowPower;
        Clocks {
            mcgout: self.mcgout() as u32,
            core: self.core_hz() as u32,
            bus: self.bus_hz() as u32,
            flash: self.flash_hz() as u32,
            qspi: self.qspi_hz() as u32,
            pllfll: if vlpr {
                0
            } else {
                IRC48M_HZ
            },
            lpuart: if vlpr {
                FAST_IRC_HZ
            } else {
                IRC48M_HZ
            },
            pll: self.mcg is Pee,
        }
    }

    proof fn lemma_mcgout_range(self)
        requires
            self.mcgout_computable(),
        ensures
            0 <= self.mcgout() <= u32::MAX,
            self.mcg matches McgMode::Pee { external, prdiv, vdiv } ==> 0 <= external.frequency
                as int / prdiv as int && 0 <= external.frequency as int / prdiv as int * vdiv,
    {
        if let McgMode::Pee { external, prdiv, vdiv } = self.mcg {
            let reference = external.frequency as int / prdiv as int;
            assert(reference >= 0) by (nonlinear_arith)
                requires
                    reference == external.frequency as int / prdiv as int,
                    prdiv > 0,
            ;
            assert(reference * vdiv >= 0) by (nonlinear_arith)
                requires
                    reference >= 0,
                    vdiv >= 0,
            ;
        }
    }

    proof fn lemma_divided_range(self, div: u8)
        requires
            self.mcgout_computable(),
            div != 0,
        ensures
            0 <= self.mcgout() / div as int <= self.mcgout() <= u32::MAX,
    {
        self.lemma_mcgout_range();
        let m = self.mcgout();
        assert(0 <= m / div as int <= m) by (nonlinear_arith)
            requires
                m >= 0,
                div >= 1,
        ;
    }

    /// `MCGOUTCLK` in Hz for this configuration.
    pub fn mcgout_hz(&self) -> (r: u32)
        requires
            self.mcgout_computable(),
        ensures
            r == self.mcgout(),
    {
        proof {
            self.lemma_mcgout_range();
        }
        match self.mcg {
            McgMode::Fei => SLOW_IRC_HZ * FLL_FACTOR_LOW,
            McgMode::Pee { external, prdiv, vdiv } => external.frequency / prdiv as u32
                * vdiv as u32 / 2,
            McgMode::Blpi => FAST_IRC_HZ,
        }
    }

    /// The clock frequencies this configuration produces.
    pub fn clocks(&self) -> (r: Clocks)
        requires
            self.mcgout_computable(),
            self.dividers_nonzero(),
        ensures
            r == self.frequencies(),
            r.mcgout == self.mcgout(),
            r.core == self.core_hz(),
            r.bus == self.bus_hz(),
            r.flash == self.flash_hz(),
            r.qspi == self.qspi_hz(),
    {
        proof {
            self.lemma_divided_range(self.core_div);
            self.lemma_divided_range(self.bus_div);
            self.lemma_divided_range(self.flash_div);
            self.lemma_divided_range(self.qspi_div);
        }
        let mcgout: u32 = self.mcgout_hz();
        let vlpr: bool = matches!(self.run_mode, RunMode::VeryLowPower);
        Clocks {
            mcgout,
            core: mcgout / self.core_div as u32,
            bus: mcgout / self.bus_div as u32,
            flash: mcgout / self.flash_div as u32,
            qspi: mcgout / self.qspi_div as u32,
            pllfll: if vlpr {
                0
            } else {
                IRC48M_HZ
            },
            lpuart: if vlpr {
                FAST_IRC_HZ
            } else {
                IRC48M_HZ
            },
            pll: matches!(self.mcg, McgMode::Pee { .. }),
        }
    }

    /// The frequencies of a legal configuration fit in 32 bits.
    pub proof fn lemma_legal_computable(self)
        requires
            self.legal(),
        ensures
            self.mcgout_computable(),
            self.dividers_nonzero(),
    {
        assert(!self.violates(ConfigError::DivideByZero));
        assert(!self.violates(ConfigError::Vdiv));
        assert(!self.violates(ConfigError::PllReference));
        if let McgMode::Pee { external, prdiv, vdiv } = self.mcg {
            let reference = external.frequency as int / prdiv as int;
            assert(reference * vdiv <= 16_000_000 * 47) by (nonlinear_arith)
                requires
                    0 <= reference <= 16_000_000,
                    0 <= vdiv <= 47,
            ;
        }
    }

    /// Checks the configuration: the first rule that it breaks, if it breaks one.
    pub fn validate(&self) -> (r: Result<(), ConfigError>)
        ensures
            match r {
                Ok(()) => self.legal(),
                Err(e) => {
                    &&& self.violates(e)
                    &&& forall|rule: ConfigError|
                        rule.rank() < e.rank() ==> !#[trigger] self.violates(rule)
                },
            },
    {
        if self.core_div == 0 || self.bus_div == 0 || self.flash_div == 0 || self.qspi_div == 0 {
            return Err(ConfigError::DivideByZero);
        }
        if let McgMode::Pee { prdiv, .. } = self.mcg {
            if prdiv == 0 {
                return Err(ConfigError::DivideByZero);
            }
        }
        if self.core_div > 16 || self.bus_div > 16 || self.flash_div > 16 || self.qspi_div > 16 {
            return Err(ConfigError::Dividers);
        }
        if let McgMode::Pee { external, prdiv, vdiv } = self.mcg {
            let reference: u32 = external.frequency / prdiv as u32;
            assert(reference * vdiv <= u32::MAX * 255) by (nonlinear_arith)
                requires
                    reference <= u32::MAX,
                    vdiv <= 255,
            ;
            if reference as u64 * vdiv as u64 > u32::MAX as u64 {
                return Err(ConfigError::McgOutput);
            }
        }
        let c: Clocks = self.clocks();
        if c.mcgout > MAX_MCGOUT_HZ {
            return Err(ConfigError::McgOutput);
        }
        if c.core > HSRUN_MAX_CORE_HZ {
            return Err(ConfigError::CoreClock);
        }
        if c.bus > MAX_BUS_HZ {
            return Err(ConfigError::BusClock);
        }
        if c.flash > MAX_BUS_HZ || c.flash > c.bus {
            return Err(ConfigError::FlashClock);
        }
        if self.bus_div % self.core_div != 0 || self.flash_div % self.core_div != 0 {
            return Err(ConfigError::NotMultiple);
        }
        if self.bus_div / self.core_div > 8 || self.flash_div / self.core_div > 8 {
            return Err(ConfigError::Ratio);
        }
        if self.qspi_div != self.core_div && self.qspi_div != self.core_div * 2 {
            return Err(ConfigError::QspiDivider);
        }
        let max_qspi: u32 = if c.core > RUN_MAX_CORE_HZ {
            HSRUN_MAX_QSPI_HZ
        } else {
            RUN_MAX_QSPI_HZ
        };
        if c.qspi > max_qspi {
            return Err(ConfigError::QspiClock);
        }
        if self.run_mode == RunMode::VeryLowPower {
            if self.mcg != McgMode::Blpi {
                return Err(ConfigError::VlprMode);
            }
            if c.core > VLPR_MAX_CORE_HZ || c.bus > VLPR_MAX_BUS_HZ || c.flash
                > VLPR_MAX_FLASH_HZ {
                return Err(ConfigError::VlprClocks);
            }
        }
        if let McgMode::Pee { external, prdiv, vdiv } = self.mcg {
            if prdiv > 8 {
                return Err(ConfigError::Prdiv);
            }
            if vdiv < 16 || vdiv > 47 {
                return Err(ConfigError::Vdiv);
            }
            let reference: u32 = external.frequency / prdiv as u32;
            if reference < 8_000_000 || reference > 16_000_000 {
                return Err(ConfigError::PllReference);
            }
            if let ExternalSource::Crystal { load_capacitance_pf, .. } = external.source {
                if load_capacitance_pf > 30 || load_capacitance_pf % 2 != 0 {
                    return Err(ConfigError::LoadCapacitance);
                }
            }
        }
        Ok(())
    }

    /// PLL from an external clock or crystal, with `MCGOUTCLK = frequency / prdiv * vdiv / 2`
    /// and the dividers picked for the fastest legal core, bus and flash clocks.
    ///
    /// For a 12 MHz crystal, `prdiv = 1` and `vdiv = 24` give a 144 MHz `MCGOUTCLK`, a 72 MHz
    /// core clock and 24 MHz bus and flash clocks.
    pub fn pll(external: ExternalClock, prdiv: u8, vdiv: u8) -> (r: Self)
        requires
            prdiv != 0,
            external.frequency as int / prdiv as int * vdiv <= u32::MAX,
            pll_hz(external.frequency as int, prdiv as int, vdiv as int) > 0,
        ensures
            r.mcg == (McgMode::Pee { external, prdiv, vdiv }),
            r.run_mode == RunMode::Run,
            r.flash_div == r.bus_div,
            r.qspi_div == r.core_div,
            ({
                let mcgout = pll_hz(external.frequency as int, prdiv as int, vdiv as int);
                // The smallest divider that keeps the core at or below 72 MHz.
                &&& (r.core_div - 1) * RUN_MAX_CORE_HZ < mcgout <= r.core_div * RUN_MAX_CORE_HZ
                // The smallest multiple of it that keeps the bus at or below 24 MHz.
                &&& exists|k: int|
                    1 <= k <= 3 && r.bus_div == #[trigger] (k * r.core_div)
                &&& mcgout / r.bus_div as int <= MAX_BUS_HZ
                &&& forall|k: int|
                    k >= 1 && #[trigger] (k * r.core_div) < r.bus_div ==> mcgout / (k * r.core_div)
                        > MAX_BUS_HZ
            }),
            legal_pll(external, prdiv, vdiv) ==> r.legal(),
    {
        proof {
            (ClockConfig {
                mcg: McgMode::Pee { external, prdiv, vdiv },
                core_div: 1,
                bus_div: 1,
                flash_div: 1,
                qspi_div: 1,
                run_mode: RunMode::Run,
            }).lemma_mcgout_range();
        }
        let mcgout: u32 = external.frequency / prdiv as u32 * vdiv as u32 / 2;
        let core_div: u8 = ((mcgout - 1) / RUN_MAX_CORE_HZ + 1) as u8;
        let mut d: u8 = core_div;
        let ghost mut steps: int = 1;
        proof {
            assert forall|k: int| k >= 1 && #[trigger] (k * core_div) < d implies mcgout as int / (k
                * core_div) > MAX_BUS_HZ by {
                assert(k * core_div >= core_div) by (nonlinear_arith)
                    requires
                        k >= 1,
                        core_div >= 1,
                ;
            }
        }
        while mcgout / d as u32 > MAX_BUS_HZ
            invariant
                0 < mcgout <= core_div * RUN_MAX_CORE_HZ,
                1 <= core_div <= 60,
                1 <= steps <= 3,
                d >= 1,
                d == steps * core_div,
                forall|k: int|
                    k >= 1 && #[trigger] (k * core_div) < d ==> mcgout as int / (k * core_div)
                        > MAX_BUS_HZ,
            decreases 3 - steps,
        {
            proof {
                if steps == 3 {
                    assert(mcgout as int / d as int <= MAX_BUS_HZ) by (nonlinear_arith)
                        requires
                            mcgout <= core_div * 72_000_000,
                            d == 3 * core_div,
                            core_div >= 1,
                            MAX_BUS_HZ == 24_000_000,
                    ;
                }
                assert((steps + 1) * core_div == steps * core_div + core_div) by (nonlinear_arith);
                assert forall|k: int| k >= 1 && #[trigger] (k * core_div) < d + core_div implies mcgout
                    as int / (k * core_div) > MAX_BUS_HZ by {
                    assert(k <= steps) by (nonlinear_arith)
                        requires
                            k * core_div < (steps + 1) * core_div,
                            core_div >= 1,
                    ;
                    if k < steps {
                        assert(k * core_div < steps * core_div) by (nonlinear_arith)
                            requires
                                k < steps,
                                core_div >= 1,
                        ;
                    }
                }
                steps = steps + 1;
            }
            d = d + core_div;
        }
        let config: ClockConfig = ClockConfig {
            mcg: McgMode::Pee { external, prdiv, vdiv },
            core_div,
            bus_div: d,
            flash_div: d,
            qspi_div: core_div,
            run_mode: RunMode::Run,
        };
        proof {
            assert(d == steps * core_div);
            if legal_pll(external, prdiv, vdiv) {
                assert(core_div <= 2);
                assert(d as int % core_div as int == 0 && d as int / core_div as int == steps)
                    by (nonlinear_arith)
                    requires
                        d == steps * core_div,
                        core_div >= 1,
                ;
                assert(mcgout as int / core_div as int <= RUN_MAX_CORE_HZ) by (nonlinear_arith)
                    requires
                        mcgout <= core_div * RUN_MAX_CORE_HZ,
                        core_div >= 1,
                ;
                assert forall|rule: ConfigError| !#[trigger] config.violates(rule) by {
                }
            }
        }
        config
    }

    /// Very low power run on the fast IRC: 4 MHz core and 800 kHz bus and flash clocks.
    pub fn vlpr() -> (r: Self)
        ensures
            r == (ClockConfig {
                mcg: McgMode::Blpi,
                core_div: 1,
                bus_div: 5,
                flash_div: 5,
                qspi_div: 1,
                run_mode: RunMode::VeryLowPower,
            }),
            r.legal(),
    {
        ClockConfig {
            mcg: McgMode::Blpi,
            core_div: 1,
            bus_div: 5,
            flash_div: 5,
            qspi_div: 1,
            run_mode: RunMode::VeryLowPower,
        }
    }
}

impl Default for ClockConfig {
    /// The reset configuration: FEI at 20.97 MHz core and bus, 10.49 MHz flash.
    fn default() -> (r: Self)
        ensures
            r == (ClockConfig {
                mcg: McgMode::Fei,
                core_div: 1,
                bus_div: 1,
                flash_div: 2,
                qspi_div: 1,
                run_mode: RunMode::Run,
            }),
            r.legal(),
    {
        ClockConfig {
            mcg: McgMode::Fei,
            core_div: 1,
            bus_div: 1,
            flash_div: 2,
            qspi_div: 1,
            run_mode: RunMode::Run,
        }
    }
}

// ---------------------------------------------------------------------------------------------
// Applying a configuration
// ---------------------------------------------------------------------------------------------

/// Run mode control (`PMCTRL[RUNM]`).
#[derive(Clone, Copy, Debug, PartialEq, Eq, Structural)]
pub enum Runm {
    /// Normal run.
    _00,
    /// Very low power run.
    _10,
    /// High speed run.
    _11,
}

/// Clock of the PLL/FLL peripheral multiplexer (`SOPT2[PLLFLLSEL]`).
#[derive(Clone, Copy, Debug, PartialEq, Eq, Structural)]
pub enum Pllfllsel {
    /// The FLL output.
    _00,
    /// The IRC48M.
    _11,
}

/// LPUART clock source (`SOPT2[LPUARTSRC]`).
#[derive(Clone, Copy, Debug, PartialEq, Eq, Structural)]
pub enum Lpuartsrc {
    /// The `PLLFLLSEL` clock.
    _01,
    /// The fast internal reference (`MCGIRCLK`).
    _11,
}

/// MCG clock source selection (`C1[CLKS]`).
#[derive(Clone, Copy, Debug, PartialEq, Eq, Structural)]
pub enum Clks {
    /// FLL or PLL output.
    _00,
    /// Internal reference.
    _01,
    /// External reference.
    _10,
}

/// MCG clock mode status (`S[CLKST]`).
#[derive(Clone, Copy, Debug, PartialEq, Eq, Structural)]
pub enum Clkst {
    /// FLL output.
    _00,
    /// Internal reference.
    _01,
    /// External reference.
    _10,
    /// PLL output.
    _11,
}

/// Divider fields of `SIM_CLKDIV1`; every field is the divider less one.
#[derive(Clone, Copy, Debug, PartialEq, Eq, Structural)]
pub struct Clkdiv1 {
    pub outdiv1: u8,
    pub outdiv2: u8,
    pub outdiv4: u8,
    pub outdiv5: u8,
}

/// One access to the oscillator or the MCG. Fields that an access does not name keep their value,
/// unless it is described as a write of the whole register.
#[derive(Clone, Copy, Debug, PartialEq, Eq, Structural)]
pub enum McgOp {
    /// `OSC_CR`: connect load capacitors and enable the external reference.
    OscillatorLoad { sc2p: bool, sc4p: bool, sc8p: bool, sc16p: bool },
    /// `OSC_CR[ERCLKEN] = 1`.
    ExternalReference,
    /// `C2[RANGE, HGO, EREFS]`.
    OscillatorMode { range: u8, hgo: bool, erefs: bool },
    /// Wait for `S[OSCINIT0]`.
    WaitOscillator,
    /// `C4[DRST_DRS]`.
    SetDrstDrs(u8),
    /// Write back the whole of `C4` as it was before [`McgOp::SetDrstDrs`].
    RestoreC4,
    /// `C1[CLKS]`, `C1[FRDIV] = 0` and `C1[IREFS] = 0`.
    SelectExternal(Clks),
    /// Wait until `S[IREFST]` is clear and `S[CLKST]` reads this.
    WaitExternal(Clkst),
    /// `C6[PLLS]`.
    SetPlls(bool),
    /// Wait until `S[PLLST]` reads this.
    WaitPllst(bool),
    /// Write the whole of `C5` with this `PRDIV`.
    WritePrdiv(u8),
    /// `C6[VDIV]`.
    SetVdiv(u8),
    /// `C5[PLLCLKEN] = 1`.
    EnablePll,
    /// Wait for `S[LOCK0]`.
    WaitLock,
    /// `C1[CLKS]`.
    SetClks(Clks),
    /// Wait until `S[CLKST]` reads this.
    WaitClkst(Clkst),
    /// `SC[FCRDIV]`.
    SetFcrdiv(u8),
    /// `C2[IRCS] = 1`: the fast internal reference.
    SelectFastIrc,
    /// `C1[CLKS]`, `C1[IREFS] = 1` and `C1[IRCLKEN] = 1`.
    SelectInternal(Clks),
    /// Wait until `S[IRCST]` is set and `S[CLKST]` reads this.
    WaitInternal(Clkst),
    /// `C2[LP] = 1`.
    SetLowPower,
}

/// One register access of the clock setup.
#[derive(Clone, Copy, Debug, PartialEq, Eq, Structural)]
pub enum Op {
    /// `SMC_PMCTRL[RUNM]`.
    SetRunm(Runm),
    /// Wait until `SMC_PMSTAT` reads this.
    WaitPmstat(u8),
    /// Write the whole of `SIM_CLKDIV1`.
    WriteDividers(Clkdiv1),
    /// An access to the oscillator or the MCG.
    Mcg(McgOp),
    /// `SIM_SOPT2[PLLFLLSEL]`; the register is shared, so atomically.
    SetPllfllsel(Pllfllsel),
}

/// `SMC_PMSTAT` in high speed run.
pub const PMSTAT_HSRUN: u8 = 0x80;

/// The `SIM_SOPT2[LPUARTSRC]` selection matching [`Clocks::lpuart`].
pub fn lpuart_source(clocks: &Clocks) -> (r: Lpuartsrc)
    ensures
        r == if clocks.pllfll == 0 {
            Lpuartsrc::_11
        } else {
            Lpuartsrc::_01
        },
{
    if clocks.pllfll == 0 {
        Lpuartsrc::_11
    } else {
        Lpuartsrc::_01
    }
}

/// `MCGOUTCLK` for an MCG status.
pub open spec fn current_mcgout(clkst: Clkst) -> int {
    if clkst == Clkst::_00 {
        SLOW_IRC_HZ * FLL_FACTOR_LOW
    } else {
        FAST_IRC_HZ as int
    }
}

/// `MCGOUTCLK` as the hardware has it. Only the reset configuration is expected here, so anything
/// but FEI is reported as the fast IRC.
pub fn current_mcgout_hz(clkst: Clkst) -> (r: u32)
    ensures
        r == current_mcgout(clkst),
{
    match clkst {
        Clkst::_00 => SLOW_IRC_HZ * FLL_FACTOR_LOW,
        _ => FAST_IRC_HZ,
    }
}

/// The divider fields for a configuration.
pub open spec fn divider_fields(config: ClockConfig) -> Clkdiv1 {
    Clkdiv1 {
        outdiv1: (config.core_div - 1) as u8,
        outdiv2: (config.bus_div - 1) as u8,
        outdiv4: (config.flash_div - 1) as u8,
        outdiv5: (config.qspi_div - 1) as u8,
    }
}

/// The value of `SIM_CLKDIV1` for a configuration.
pub fn set_dividers(config: &ClockConfig) -> (r: Clkdiv1)
    requires
        config.dividers_nonzero(),
    ensures
        r == divider_fields(*config),
{
    Clkdiv1 {
        outdiv1: config.core_div - 1,
        outdiv2: config.bus_div - 1,
        outdiv4: config.flash_div - 1,
        outdiv5: config.qspi_div - 1,
    }
}

/// Oscillator frequency range: 0 = low (32 kHz), 1 = high (3 to 8 MHz), 2 = very high (8 to
/// 32 MHz).
pub open spec fn oscillator_range(frequency: u32) -> u8 {
    if frequency <= 39_063 {
        0
    } else if frequency <= 8_000_000 {
        1
    } else {
        2
    }
}

/// Accesses that start the external reference.
pub open spec fn oscillator_program(external: ExternalClock) -> Seq<McgOp> {
    let range = oscillator_range(external.frequency);
    match external.source {
        ExternalSource::Crystal { high_gain, load_capacitance_pf } => seq![
            McgOp::OscillatorLoad {
                sc2p: load_capacitance_pf & 2 != 0,
                sc4p: load_capacitance_pf & 4 != 0,
                sc8p: load_capacitance_pf & 8 != 0,
                sc16p: load_capacitance_pf & 16 != 0,
            },
            McgOp::OscillatorMode { range, hgo: high_gain, erefs: true },
            McgOp::WaitOscillator,
        ],
        ExternalSource::Clock => seq![
            McgOp::ExternalReference,
            McgOp::OscillatorMode { range, hgo: false, erefs: false },
        ],
    }
}

/// Accesses that take a running external reference to PEE, through FBE and PBE.
///
/// The least significant bit of `DRST_DRS` is flipped while the FLL reference changes from the
/// internal to the external clock, and restored then (ERR007993).
pub open spec fn pll_program(prdiv: u8, vdiv: u8, drst_drs: u8) -> Seq<McgOp> {
    seq![
        McgOp::SetDrstDrs(drst_drs ^ 1),
        McgOp::SelectExternal(Clks::_10),
        McgOp::WaitExternal(Clkst::_10),
        McgOp::RestoreC4,
        McgOp::SetPlls(false),
        McgOp::WaitPllst(false),
        McgOp::WritePrdiv((prdiv - 1) as u8),
        McgOp::SetVdiv((vdiv - 16) as u8),
        McgOp::EnablePll,
        McgOp::WaitLock,
        McgOp::SetPlls(true),
        McgOp::WaitPllst(true),
        McgOp::SetClks(Clks::_00),
        McgOp::WaitClkst(Clkst::_11),
    ]
}

/// Accesses that take the chip from FEI to BLPI on the 4 MHz fast IRC, through FBI.
pub open spec fn blpi_program() -> Seq<McgOp> {
    seq![
        McgOp::SetFcrdiv(0),
        McgOp::SelectFastIrc,
        McgOp::SelectInternal(Clks::_01),
        McgOp::WaitInternal(Clkst::_01),
        McgOp::SetLowPower,
    ]
}

/// FEI -> FBE -> PBE -> PEE. `drst_drs` is `C4[DRST_DRS]`.
pub fn enter_pee(external: ExternalClock, prdiv: u8, vdiv: u8, drst_drs: u8) -> (r: Vec<McgOp>)
    requires
        prdiv >= 1,
        vdiv >= 16,
    ensures
        r@ == oscillator_program(external) + pll_program(prdiv, vdiv, drst_drs),
{
    let range: u8 = if external.frequency <= 39_063 {
        0
    } else if external.frequency <= 8_000_000 {
        1
    } else {
        2
    };
    let mut ops: Vec<McgOp> = Vec::new();
    let crystal: Option<bool> = match external.source {
        ExternalSource::Crystal { high_gain, load_capacitance_pf } => {
            ops.push(
                McgOp::OscillatorLoad {
                    sc2p: load_capacitance_pf & 2 != 0,
                    sc4p: load_capacitance_pf & 4 != 0,
                    sc8p: load_capacitance_pf & 8 != 0,
                    sc16p: load_capacitance_pf & 16 != 0,
                },
            );
            Some(high_gain)
        },
        ExternalSource::Clock => {
            ops.push(McgOp::ExternalReference);
            None
        },
    };
    let hgo: bool = match crystal {
        Some(high_gain) => high_gain,
        None => false,
    };
    ops.push(McgOp::OscillatorMode { range, hgo, erefs: crystal.is_some() });
    if crystal.is_some() {
        ops.push(McgOp::WaitOscillator);
    }
    assert(ops@ == oscillator_program(external));
    // FBE.
    ops.push(McgOp::SetDrstDrs(drst_drs ^ 1));
    // The FLL is not used in PEE, so its reference divider does not matter.
    ops.push(McgOp::SelectExternal(Clks::_10));
    ops.push(McgOp::WaitExternal(Clkst::_10));
    ops.push(McgOp::RestoreC4);
    // PBE: configure and lock the PLL, then hand the FLL/PLL multiplexer to the PLL.
    ops.push(McgOp::SetPlls(false));
    ops.push(McgOp::WaitPllst(false));
    ops.push(McgOp::WritePrdiv(prdiv - 1));
    ops.push(McgOp::SetVdiv(vdiv - 16));
    ops.push(McgOp::EnablePll);
    ops.push(McgOp::WaitLock);
    ops.push(McgOp::SetPlls(true));
    ops.push(McgOp::WaitPllst(true));
    // PEE.
    ops.push(McgOp::SetClks(Clks::_00));
    ops.push(McgOp::WaitClkst(Clkst::_11));
    assert(ops@ =~= oscillator_program(external) + pll_program(prdiv, vdiv, drst_drs));
    ops
}

/// FEI -> FBI -> BLPI on the 4 MHz fast IRC.
pub fn enter_blpi() -> (r: Vec<McgOp>)
    ensures
        r@ == blpi_program(),
{
    let ops: Vec<McgOp> = vec![
        // FCRDIV may only change while the fast IRC is not in use; at reset it is not.
        McgOp::SetFcrdiv(0),
        McgOp::SelectFastIrc,
        // MCGIRCLK is for the peripherals (TPM, LPUART in VLPR).
        McgOp::SelectInternal(Clks::_01),
        McgOp::WaitInternal(Clkst::_01),
        McgOp::SetLowPower,
    ];
    assert(ops@ =~= blpi_program());
    ops
}

/// Accesses that switch the MCG to the configured mode.
pub open spec fn mcg_program(mcg: McgMode, drst_drs: u8) -> Seq<McgOp> {
    match mcg {
        McgMode::Fei => seq![],
        McgMode::Pee { external, prdiv, vdiv } => oscillator_program(external) + pll_program(
            prdiv,
            vdiv,
            drst_drs,
        ),
        McgMode::Blpi => blpi_program(),
    }
}

/// Accesses before the MCG is touched: high speed run where the core clock needs it, and the
/// dividers if `MCGOUTCLK` does not fall.
pub open spec fn before_mcg(config: ClockConfig, current: int) -> Seq<Op> {
    (if config.core_hz() > RUN_MAX_CORE_HZ {
        seq![Op::SetRunm(Runm::_11), Op::WaitPmstat(PMSTAT_HSRUN)]
    } else {
        seq![]
    }) + (if config.mcgout() >= current {
        seq![Op::WriteDividers(divider_fields(config))]
    } else {
        seq![]
    })
}

/// Accesses after the MCG has switched: the dividers if `MCGOUTCLK` fell, then the peripheral
/// clock. Selecting the IRC48M also enables it; VLPR forbids it, so there the multiplexer stays on
/// the (disabled) FLL output.
pub open spec fn after_mcg(config: ClockConfig, current: int) -> Seq<Op> {
    (if config.mcgout() < current {
        seq![Op::WriteDividers(divider_fields(config))]
    } else {
        seq![]
    }) + seq![
        Op::SetPllfllsel(
            if config.run_mode == RunMode::VeryLowPower {
                Pllfllsel::_00
            } else {
                Pllfllsel::_11
            },
        ),
    ]
}

/// Every access that applies a configuration to a chip whose MCG status is `clkst`.
pub open spec fn init_program(config: ClockConfig, clkst: Clkst, drst_drs: u8) -> Seq<Op> {
    let current = current_mcgout(clkst);
    before_mcg(config, current) + mcg_program(config.mcg, drst_drs).map_values(
        |op: McgOp| Op::Mcg(op),
    ) + after_mcg(config, current)
}

/// Checks a configuration and works out its frequencies and the accesses that apply it.
///
/// `clkst` is `S[CLKST]` and `drst_drs` is `C4[DRST_DRS]`. Dividers go in before speeding up and
/// after slowing down, so no clock ever overshoots.
pub fn init(config: ClockConfig, clkst: Clkst, drst_drs: u8) -> (r: Result<
    (Clocks, Vec<Op>),
    ConfigError,
>)
    ensures
        match r {
            Ok((clocks, ops)) => {
                &&& config.legal()
                &&& clocks == config.frequencies()
                &&& ops@ == init_program(config, clkst, drst_drs)
            },
            Err(e) => {
                &&& config.violates(e)
                &&& forall|rule: ConfigError|
                    rule.rank() < e.rank() ==> !#[trigger] config.violates(rule)
            },
        },
{
    match config.validate() {
        Ok(()) => {},
        Err(e) => return Err(e),
    }
    assert(!config.violates(ConfigError::DivideByZero));
    assert(!config.violates(ConfigError::McgOutput));
    assert(!config.violates(ConfigError::Prdiv));
    assert(!config.violates(ConfigError::Vdiv));
    proof {
        config.lemma_legal_computable();
    }
    let clocks: Clocks = config.clocks();
    let current: u32 = current_mcgout_hz(clkst);
    let mut ops: Vec<Op> = Vec::new();
    if clocks.core > RUN_MAX_CORE_HZ {
        ops.push(Op::SetRunm(Runm::_11));
        ops.push(Op::WaitPmstat(PMSTAT_HSRUN));
    }
    if clocks.mcgout >= current {
        ops.push(Op::WriteDividers(set_dividers(&config)));
    }
    assert(ops@ =~= before_mcg(config, current as int));
    let ghost before = ops@;
    let mcg: Vec<McgOp> = match config.mcg {
        McgMode::Fei => Vec::new(),
        McgMode::Pee { external, prdiv, vdiv } => enter_pee(external, prdiv, vdiv, drst_drs),
        McgMode::Blpi => enter_blpi(),
    };
    assert(mcg@ =~= mcg_program(config.mcg, drst_drs));
    let ghost wrapped = mcg@.map_values(|op: McgOp| Op::Mcg(op));
    let mut i: usize = 0;
    while i < mcg.len()
        invariant
            i <= mcg.len(),
            wrapped == mcg@.map_values(|op: McgOp| Op::Mcg(op)),
            ops@ =~= before + wrapped.take(i as int),
        decreases mcg.len() - i,
    {
        ops.push(Op::Mcg(mcg[i]));
        i = i + 1;
    }
    assert(wrapped.take(mcg@.len() as int) =~= wrapped);
    if clocks.mcgout < current {
        ops.push(Op::WriteDividers(set_dividers(&config)));
    }
    let pllfllsel: Pllfllsel = if clocks.pllfll == 0 {
        Pllfllsel::_00
    } else {
        Pllfllsel::_11
    };
    ops.push(Op::SetPllfllsel(pllfllsel));
    assert(ops@ =~= before + wrapped + after_mcg(config, current as int));
    Ok((clocks, ops))
}

/// A legal configuration keeps every clock within its limit: the core at 96 MHz or below (4 MHz
/// in VLPR), the bus and flash at 24 MHz or below (800 kHz in VLPR) and at an eighth of the core
/// or above, and the flash at the bus clock or below.
pub proof fn law_legal_clocks(config: ClockConfig)
    requires
        config.legal(),
    ensures
        config.mcgout() <= MAX_MCGOUT_HZ,
        config.core_hz() <= HSRUN_MAX_CORE_HZ,
        config.bus_hz() <= MAX_BUS_HZ,
        config.flash_hz() <= config.bus_hz(),
        config.bus_hz() >= config.core_hz() / 8,
        config.flash_hz() >= config.core_hz() / 8,
        config.qspi_hz() == config.core_hz() || config.qspi_hz() == config.core_hz() / 2,
        config.run_mode == RunMode::VeryLowPower ==> config.mcg == McgMode::Blpi
            && config.core_hz() <= VLPR_MAX_CORE_HZ && config.bus_hz() <= VLPR_MAX_BUS_HZ
            && config.flash_hz() <= VLPR_MAX_FLASH_HZ,
{
    config.lemma_legal_computable();
    config.lemma_mcgout_range();
    assert(!config.violates(ConfigError::McgOutput));
    assert(!config.violates(ConfigError::CoreClock));
    assert(!config.violates(ConfigError::BusClock));
    assert(!config.violates(ConfigError::FlashClock));
    assert(!config.violates(ConfigError::NotMultiple));
    assert(!config.violates(ConfigError::Ratio));
    assert(!config.violates(ConfigError::QspiDivider));
    assert(!config.violates(ConfigError::VlprMode));
    assert(!config.violates(ConfigError::VlprClocks));
    let m = config.mcgout();
    lemma_divided_at_least(m, config.core_div as int, config.bus_div as int);
    lemma_divided_at_least(m, config.core_div as int, config.flash_div as int);
    vstd::arithmetic::div_mod::lemma_div_denominator(m, config.core_div as int, 2);
}

proof fn lemma_divided_at_least(m: int, c: int, d: int)
    requires
        m >= 0,
        c > 0,
        d > 0,
        d % c == 0,
        d / c <= 8,
    ensures
        m / d >= m / c / 8,
{
    let k = d / c;
    assert(d == c * k) by (nonlinear_arith)
        requires
            d % c == 0,
            c > 0,
            k == d / c,
    ;
    assert(k >= 1) by (nonlinear_arith)
        requires
            d == c * k,
            d > 0,
            c > 0,
    ;
    vstd::arithmetic::div_mod::lemma_div_denominator(m, c, k);
    let x = m / c;
    assert(x >= 0) by (nonlinear_arith)
        requires
            m >= 0,
            c > 0,
            x == m / c,
    ;
    assert(x / k >= x / 8) by (nonlinear_arith)
        requires
            x >= 0,
            1 <= k <= 8,
    ;
}

/// No clock overshoots while a configuration is applied: the dividers are written once, before
/// every access to the MCG where `MCGOUTCLK` does not fall, and after every such access where it
/// does.
pub proof fn law_dividers_never_overshoot(config: ClockConfig, clkst: Clkst, drst_drs: u8)
    ensures
        ({
            let program = init_program(config, clkst, drst_drs);
            &&& exists|i: int|
                0 <= i < program.len() && #[trigger] program[i] == Op::WriteDividers(
                    divider_fields(config),
                )
            &&& forall|i: int, j: int|
                0 <= i < program.len() && 0 <= j < program.len() && #[trigger] program[i] is WriteDividers
                    && #[trigger] program[j] is WriteDividers ==> i == j
            &&& forall|i: int, j: int|
                0 <= i < program.len() && 0 <= j < program.len() && #[trigger] program[i] is WriteDividers
                    && #[trigger] program[j] is Mcg ==> if config.mcgout() >= current_mcgout(clkst) {
                    i < j
                } else {
                    j < i
                }
        }),
{
    let program = init_program(config, clkst, drst_drs);
    let current = current_mcgout(clkst);
    let before = before_mcg(config, current);
    let mcg = mcg_program(config.mcg, drst_drs).map_values(|op: McgOp| Op::Mcg(op));
    let after = after_mcg(config, current);
    let at = if config.mcgout() >= current {
        before.len() - 1
    } else {
        before.len() + mcg.len() as int
    };
    assert(program[at] == Op::WriteDividers(divider_fields(config)));
    assert forall|i: int|
        0 <= i < program.len() && #[trigger] program[i] is WriteDividers implies i == at by {
        if i < before.len() {
            assert(program[i] == before[i]);
        } else if i < before.len() + mcg.len() {
            assert(program[i] == mcg[i - before.len()]);
        } else {
            assert(program[i] == after[i - before.len() - mcg.len()]);
        }
    }
    assert forall|j: int| 0 <= j < program.len() && #[trigger] program[j] is Mcg implies before.len()
        <= j < before.len() + mcg.len() by {
        if j < before.len() {
            assert(program[j] == before[j]);
        } else if j >= before.len() + mcg.len() {
            assert(program[j] == after[j - before.len() - mcg.len()]);
        }
    }
}

/// High speed run is entered, before anything else, exactly where the core clock needs it.
pub proof fn law_high_speed_run(config: ClockConfig, clkst: Clkst, drst_drs: u8)
    ensures
        ({
            let program = init_program(config, clkst, drst_drs);
            if config.core_hz() > RUN_MAX_CORE_HZ {
                program[0] == Op::SetRunm(Runm::_11) && program[1] == Op::WaitPmstat(PMSTAT_HSRUN)
            } else {
                forall|i: int| 0 <= i < program.len() ==> !(#[trigger] program[i] is SetRunm)
            }
        }),
{
    let program = init_program(config, clkst, drst_drs);
    let current = current_mcgout(clkst);
    let before = before_mcg(config, current);
    let mcg = mcg_program(config.mcg, drst_drs).map_values(|op: McgOp| Op::Mcg(op));
    let after = after_mcg(config, current);
    if config.core_hz() <= RUN_MAX_CORE_HZ {
        assert forall|i: int| 0 <= i < program.len() implies !(#[trigger] program[i] is SetRunm) by {
            if i < before.len() {
                assert(program[i] == before[i]);
            } else if i < before.len() + mcg.len() {
                assert(program[i] == mcg[i - before.len()]);
            } else {
                assert(program[i] == after[i - before.len() - mcg.len()]);
            }
        }
    }
}

/// The capacitance that an access connects, in pF.
pub open spec fn connected_pf(op: McgOp) -> int {
    match op {
        McgOp::OscillatorLoad { sc2p, sc4p, sc8p, sc16p } => (if sc2p {
            2int
        } else {
            0
        }) + (if sc4p {
            4int
        } else {
            0
        }) + (if sc8p {
            8int
        } else {
            0
        }) + (if sc16p {
            16int
        } else {
            0
        }),
        _ => 0,
    }
}

/// The load capacitors that are connected for a crystal add up to the capacitance asked for.
pub proof fn law_load_capacitance(frequency: u32, high_gain: bool, load_capacitance_pf: u8)
    requires
        load_capacitance_pf <= 30,
        load_capacitance_pf % 2 == 0,
    ensures
        connected_pf(
            oscillator_program(
                ExternalClock {
                    frequency,
                    source: ExternalSource::Crystal { high_gain, load_capacitance_pf },
                },
            )[0],
        ) == load_capacitance_pf,
{
    let pf = load_capacitance_pf;
    assert(pf == (if pf & 2 != 0 {
        2int
    } else {
        0
    }) + (if pf & 4 != 0 {
        4int
    } else {
        0
    }) + (if pf & 8 != 0 {
        8int
    } else {
        0
    }) + (if pf & 16 != 0 {
        16int
    } else {
        0
    })) by (bit_vector)
        requires
            pf <= 30,
            pf % 2 == 0,
    ;
}

} // verus!
