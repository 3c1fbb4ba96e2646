//! Driver logic for the peripherals of Kinetis microcontrollers.
//!
//! The drivers decide and compute; they make no register access themselves. A driver hands out the
//! accesses to make, as values of its module's `Op`, and is told what was read. Drivers whose
//! course depends on what the hardware does are state machines: they say what they need next, and
//! go on when they are given it. What an access does is described at each `Op`, in terms of the
//! registers and fields of the reference manual.

pub mod adc;
pub mod bits;
pub mod clocks;
pub mod config;
pub mod dma;
pub mod executor;
pub mod gpio;
pub mod i2c;
pub mod intmux;
pub mod lpuart;
pub mod power;
pub mod pwm;
pub mod spi;
pub mod spis;
pub mod time_driver;
pub mod wdog;

use vstd::prelude::*;

use crate::clocks::Clkst;
use crate::clocks::Clocks;
use crate::clocks::ConfigError;
use crate::config::Config;
use crate::power::ModeError;

verus! {

/// The mode of a driver.
pub trait Mode {
    /// Whether the driver sleeps on interrupts.
    spec fn sleeps() -> bool;

    /// Whether the driver sleeps on interrupts rather than polls.
    fn is_async() -> (r: bool)
        ensures
            r == Self::sleeps(),
    ;
}

/// Blocking mode.
#[derive(Clone, Copy, Debug, PartialEq, Eq, Structural)]
pub struct Blocking;

/// Asynchronous mode.
#[derive(Clone, Copy, Debug, PartialEq, Eq, Structural)]
pub struct Async;

impl Mode for Blocking {
    open spec fn sleeps() -> bool {
        false
    }

    fn is_async() -> bool {
        false
    }
}

impl Mode for Async {
    open spec fn sleeps() -> bool {
        true
    }

    fn is_async() -> bool {
        true
    }
}

/// An access of the startup, in the module that it belongs to.
#[derive(Clone, Copy, Debug, PartialEq, Eq, Structural)]
pub enum Op {
    Power(power::Op),
    Clock(clocks::Op),
    Gpio(gpio::Op),
    /// Start the time driver.
    StartTime,
    Dma(dma::Op),
}

/// Why the HAL cannot be initialized with a configuration.
#[derive(Clone, Copy, Debug, PartialEq, Eq, Structural)]
pub enum InitError {
    Clocks(ConfigError),
    Power(ModeError),
}

/// The accesses of a module as accesses of the startup.
pub open spec fn clock_ops(ops: Seq<clocks::Op>) -> Seq<Op> {
    ops.map_values(|op: clocks::Op| Op::Clock(op))
}

/// The accesses of a module as accesses of the startup.
pub open spec fn gpio_ops(ops: Seq<gpio::Op>) -> Seq<Op> {
    ops.map_values(|op: gpio::Op| Op::Gpio(op))
}

/// The accesses of a module as accesses of the startup.
pub open spec fn dma_ops(ops: Seq<dma::Op>) -> Seq<Op> {
    ops.map_values(|op: dma::Op| Op::Dma(op))
}

/// The accesses of a module as accesses of the startup.
pub open spec fn power_ops(ops: Seq<power::Op>) -> Seq<Op> {
    ops.map_values(|op: power::Op| Op::Power(op))
}

/// Accesses before the power modes: these are allowed first, then the clocks are set up, then what
/// needs them.
pub open spec fn startup_program(config: Config, clkst: Clkst, drst_drs: u8) -> Seq<Op> {
    seq![Op::Power(power::Op::AllowAllModes)] + clock_ops(
        clocks::init_program(config.clocks, clkst, drst_drs),
    ) + gpio_ops(gpio::init_program()) + seq![Op::StartTime] + dma_ops(dma::init_program())
}

/// Accesses of the power modes, the last ones: VLPR forbids clock changes afterwards, and the idle
/// sleep mode wants the final clock configuration.
pub open spec fn settle_program(config: Config) -> Seq<Op> {
    power_ops(
        power::sleep_program(config.power.sleep_mode, config.clocks.mcg is Pee)
            + power::run_mode_program(config.clocks.run_mode),
    )
}

/// Whether the idle sleep mode fits the clocks.
pub open spec fn sleep_fits(config: Config) -> bool {
    !(config.power.sleep_mode == power::SleepMode::VeryLowPowerStop && config.clocks.mcg is Pee)
}

/// Initializes the HAL with a configuration: the clock frequencies, and the accesses to make, in
/// order. `clkst` is `MCG_S[CLKST]` and `drst_drs` is `MCG_C4[DRST_DRS]`.
pub fn init(config: Config, clkst: Clkst, drst_drs: u8) -> (r: Result<
    (Clocks, Vec<Op>),
    InitError,
>)
    ensures
        match r {
            Ok((clocks, ops)) => {
                &&& config.clocks.legal()
                &&& sleep_fits(config)
                &&& clocks == config.clocks.frequencies()
                &&& ops@ == startup_program(config, clkst, drst_drs) + settle_program(config)
            },
            Err(InitError::Clocks(e)) => {
                &&& config.clocks.violates(e)
                &&& forall|rule: ConfigError|
                    rule.rank() < e.rank() ==> !#[trigger] config.clocks.violates(rule)
            },
            Err(InitError::Power(e)) => config.clocks.legal() && !sleep_fits(config) && e
                == ModeError::VlpsWithPll,
        },
{
    let (frequencies, clock_program): (Clocks, Vec<clocks::Op>) = match clocks::init(
        config.clocks,
        clkst,
        drst_drs,
    ) {
        Ok(set_up) => set_up,
        Err(e) => return Err(InitError::Clocks(e)),
    };
    let power_program: Vec<power::Op> = match power::init(&config.power, &config.clocks) {
        Ok(program) => program,
        Err(e) => return Err(InitError::Power(e)),
    };
    let gpio_program: Vec<gpio::Op> = gpio::init();
    let dma_program: Vec<dma::Op> = dma::init();
    let mut ops: Vec<Op> = vec![Op::Power(power::init_protection())];
    let ghost allowed = ops@;
    let mut i: usize = 0;
    while i < clock_program.len()
        invariant
            i <= clock_program.len(),
            ops@ =~= allowed + clock_ops(clock_program@).take(i as int),
        decreases clock_program.len() - i,
    {
        ops.push(Op::Clock(clock_program[i]));
        i = i + 1;
    }
    assert(clock_ops(clock_program@).take(i as int) =~= clock_ops(clock_program@));
    let ghost clocked = ops@;
    let mut j: usize = 0;
    while j < gpio_program.len()
        invariant
            j <= gpio_program.len(),
            ops@ =~= clocked + gpio_ops(gpio_program@).take(j as int),
        decreases gpio_program.len() - j,
    {
        ops.push(Op::Gpio(gpio_program[j]));
        j = j + 1;
    }
    assert(gpio_ops(gpio_program@).take(j as int) =~= gpio_ops(gpio_program@));
    ops.push(Op::StartTime);
    let ghost timed = ops@;
    let mut k: usize = 0;
    while k < dma_program.len()
        invariant
            k <= dma_program.len(),
            ops@ =~= timed + dma_ops(dma_program@).take(k as int),
        decreases dma_program.len() - k,
    {
        ops.push(Op::Dma(dma_program[k]));
        k = k + 1;
    }
    assert(dma_ops(dma_program@).take(k as int) =~= dma_ops(dma_program@));
    let ghost started = ops@;
    assert(started =~= startup_program(config, clkst, drst_drs));
    let mut n: usize = 0;
    while n < power_program.len()
        invariant
            n <= power_program.len(),
            ops@ =~= started + power_ops(power_program@).take(n as int),
        decreases power_program.len() - n,
    {
        ops.push(Op::Power(power_program[n]));
        n = n + 1;
    }
    assert(power_ops(power_program@).take(n as int) =~= power_ops(power_program@));
    Ok((frequencies, ops))
}

/// The startup enters VLPR last of all, where it is asked for, and so makes no access to the clocks
/// after it.
pub proof fn law_vlpr_comes_last(config: Config, clkst: Clkst, drst_drs: u8)
    requires
        config.clocks.run_mode == clocks::RunMode::VeryLowPower,
    ensures
        ({
            let program = startup_program(config, clkst, drst_drs) + settle_program(config);
            let n = program.len();
            &&& n >= 2
            &&& program[n - 2] == Op::Power(power::Op::SetRunm(clocks::Runm::_10))
            &&& program[n - 1] == Op::Power(power::Op::WaitPmstat(power::PMSTAT_VLPR))
            &&& forall|i: int| 0 <= i < n && (#[trigger] program[i]) is Clock ==> i < n - 2
        }),
{
}

/// When an access comes in the startup: the modes are allowed, then the clocks, the pins, the time
/// driver and the DMA controller are set up, and the power modes come last.
pub open spec fn phase(op: Op) -> int {
    match op {
        Op::Power(power::Op::AllowAllModes) => 0,
        Op::Clock(_) => 1,
        Op::Gpio(_) => 2,
        Op::StartTime => 3,
        Op::Dma(_) => 4,
        Op::Power(_) => 5,
    }
}

/// The startup makes the accesses of its modules, each once and in the order of its module, one module
/// after the other.
pub proof fn law_startup_order(config: Config, clkst: Clkst, drst_drs: u8, k: int)
    ensures
        ({
            let program = startup_program(config, clkst, drst_drs) + settle_program(config);
            let clock = clocks::init_program(config.clocks, clkst, drst_drs);
            let pins = gpio::init_program();
            let channels = dma::init_program();
            let sleep = power::sleep_program(config.power.sleep_mode, config.clocks.mcg is Pee)
                + power::run_mode_program(config.clocks.run_mode);
            let time = 1 + clock.len() + pins.len();
            let modes = time + 1 + channels.len();
            &&& program.len() == modes + sleep.len()
            &&& program[0] == Op::Power(power::Op::AllowAllModes)
            &&& 0 <= k < clock.len() ==> program[1 + k] == Op::Clock(clock[k])
            &&& 0 <= k < pins.len() ==> program[1 + clock.len() + k] == Op::Gpio(pins[k])
            &&& program[time as int] == Op::StartTime
            &&& 0 <= k < channels.len() ==> program[time + 1 + k] == Op::Dma(channels[k])
            &&& 0 <= k < sleep.len() ==> program[modes + k] == Op::Power(sleep[k])
            &&& forall|i: int, j: int|
                0 <= i <= j < program.len() ==> phase(#[trigger] program[i]) <= phase(
                    #[trigger] program[j],
                )
        }),
{
    let program = startup_program(config, clkst, drst_drs) + settle_program(config);
    let clock = clocks::init_program(config.clocks, clkst, drst_drs);
    let pins = gpio::init_program();
    let channels = dma::init_program();
    let sleep = power::sleep_program(config.power.sleep_mode, config.clocks.mcg is Pee)
        + power::run_mode_program(config.clocks.run_mode);
    let time = 1 + clock.len() + pins.len();
    let modes = time + 1 + channels.len();
    assert forall|i: int| 0 <= i < program.len() implies phase(#[trigger] program[i]) == if i == 0 {
        0int
    } else if i < 1 + clock.len() {
        1
    } else if i < time {
        2
    } else if i == time {
        3
    } else if i < modes {
        4
    } else {
        5
    } by {
        if i >= modes {
            assert(program[i] == Op::Power(sleep[i - modes]));
        } else if i > time {
            assert(program[i] == Op::Dma(channels[i - time - 1]));
        } else if i == time {
        } else if i >= 1 + clock.len() {
            assert(program[i] == Op::Gpio(pins[i - 1 - clock.len()]));
        } else if i >= 1 {
            assert(program[i] == Op::Clock(clock[i - 1]));
        }
    }
}

/// The idle sleep mode fits the clocks unless it is VLPS on the PLL.
pub proof fn law_sleep_fits(config: Config)
    ensures
        !sleep_fits(config) <==> config.power.sleep_mode == power::SleepMode::VeryLowPowerStop
            && config.clocks.mcg is Pee,
{
}

/// The bits that are set in a number, one after the other.
#[derive(Clone, Copy, Debug, PartialEq, Eq, Structural)]
pub struct BitIter(pub u32);

impl BitIter {
    /// The lowest bit that is set, which is cleared; nothing once no bit is set.
    pub fn next(&mut self) -> (r: Option<u32>)
        ensures
            match r {
                None => old(self).0 == 0 && *final(self) == *old(self),
                Some(b) => {
                    &&& b < 32
                    &&& bits::bit32(old(self).0, b as u8)
                    &&& forall|n: u8| n < b ==> !#[trigger] bits::bit32(old(self).0, n)
                    &&& forall|n: u8|
                        n < 32 ==> #[trigger] bits::bit32(final(self).0, n) == (n != b
                            && bits::bit32(old(self).0, n))
                },
            },
    {
        let value: u32 = self.0;
        if value == 0 {
            return None;
        }
        let mut b: u8 = 0;
        while value & (1u32 << b) == 0
            invariant
                value != 0,
                b < 32,
                forall|n: u8| n < b ==> !#[trigger] bits::bit32(value, n),
            decreases 32 - b,
        {
            proof {
                if b == 31 {
                    bits::lemma_zero32(value);
                    assert forall|n: u8| n < 32 implies !#[trigger] bits::bit32(value, n) by {}
                }
            }
            b = b + 1;
        }
        proof {
            assert forall|n: u8| n < 32 implies #[trigger] bits::bit32(value & !(1u32 << b), n) == (n
                != b && bits::bit32(value, n)) by {
                bits::lemma_clear32(value, b, n);
            }
        }
        self.0 = value & !(1u32 << b);
        Some(b as u32)
    }
}

} // verus!
