//! HAL configuration.

use vstd::prelude::*;

use crate::clocks::ClockConfig;
use crate::power;

verus! {

/// HAL configuration.
#[derive(Clone, Copy, Debug, PartialEq, Eq, Structural)]
pub struct Config {
    /// System clock configuration.
    pub clocks: ClockConfig,
    /// Power configuration.
    pub power: power::Config,
}

impl Default for Config {
    fn default() -> (r: Self)
        ensures
            r.clocks.legal(),
            r.clocks.mcg == crate::clocks::McgMode::Fei,
            r.clocks.core_div == 1,
            r.clocks.bus_div == 1,
            r.clocks.flash_div == 2,
            r.clocks.qspi_div == 1,
            r.clocks.run_mode == crate::clocks::RunMode::Run,
            r.power.sleep_mode == power::SleepMode::Wait,
    {
        Config { clocks: ClockConfig::default(), power: power::Config::default() }
    }
}

} // verus!
