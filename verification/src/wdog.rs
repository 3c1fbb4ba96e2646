//! Kinetis watchdog using the independent 1 kHz low-power oscillator.
//!
//! The runtime disables the watchdog before RAM initialization. This driver enables it with
//! explicit WAIT, STOP/VLPS and debugger policies. LLS pauses the watchdog; VLLS powers it off.
//! An enabled watchdog always counts in RUN.
//! In STOP/VLPS, the backup reset circuit requires two timeouts before resetting the chip.
//! Timeout durations inherit the LPO's frequency tolerance (900-1100 us per tick on MKL82).
//!
//! Configuration and enable/disable operations block while updates synchronize. The supported
//! timeout starts at 64 LPO ticks, leaving margin for this synchronization. No prescaling,
//! windowed refresh, interrupt-before-reset or functional test mode is enabled.

pub mod hardware;

use vstd::prelude::*;

verus! {

/// Shortest supported timeout.
pub const MIN_TIMEOUT_TICKS: u32 = 64;

/// Watchdog operation policy.
#[derive(Clone, Copy, Debug, PartialEq, Eq, Structural)]
pub struct Config {
    /// Timeout in nominal milliseconds (1 kHz LPO ticks), at least 64.
    pub timeout_ticks: u32,
    /// Count while the CPU is in WAIT or VLPW.
    pub run_in_wait: bool,
    /// Count in STOP/VLPS. Reset there takes two timeout periods.
    pub run_in_stop: bool,
    /// Count while the core is halted by a debugger.
    pub run_in_debug: bool,
}

impl Default for Config {
    fn default() -> (r: Self)
        ensures
            r == (Config {
                timeout_ticks: 2500,
                run_in_wait: true,
                run_in_stop: false,
                run_in_debug: false,
            }),
    {
        Config { timeout_ticks: 2500, run_in_wait: true, run_in_stop: false, run_in_debug: false }
    }
}

/// Configuration error. Invalid configuration leaves the hardware unchanged.
#[derive(Clone, Copy, Debug, PartialEq, Eq, Structural)]
pub enum Error {
    /// The timeout is too short for configuration synchronization.
    TimeoutTooShort,
    /// Hardware configuration was locked until reset.
    Locked,
}

/// Status and control fields (`STCTRLH`). The reserved bit 8 keeps its reset value, one.
#[derive(Clone, Copy, Debug, PartialEq, Eq, Structural)]
pub struct Stctrlh {
    wdogen: bool,
    clksrc: bool,
    irqrsten: bool,
    winen: bool,
    allowupdate: bool,
    dbgen: bool,
    stopen: bool,
    waiten: bool,
    reserved: bool,
    testwdog: bool,
    distestwdog: bool,
}

impl Stctrlh {
    /// The fields of a policy.
    pub closed spec fn of(config: Config, enabled: bool, updates: bool) -> Self {
        Stctrlh {
            wdogen: enabled,
            clksrc: false,
            irqrsten: false,
            winen: false,
            allowupdate: updates,
            dbgen: config.run_in_debug,
            stopen: config.run_in_stop,
            waiten: config.run_in_wait,
            reserved: true,
            testwdog: false,
            distestwdog: true,
        }
    }

    /// Whether the watchdog is enabled.
    pub closed spec fn is_wdogen(&self) -> bool {
        self.wdogen
    }

    /// Whether the bus clock rather than the LPO is counted.
    pub closed spec fn is_clksrc(&self) -> bool {
        self.clksrc
    }

    /// Whether an interrupt comes before the reset.
    pub closed spec fn is_irqrsten(&self) -> bool {
        self.irqrsten
    }

    /// Whether refreshing is windowed.
    pub closed spec fn is_winen(&self) -> bool {
        self.winen
    }

    /// Whether the configuration can be changed later.
    pub closed spec fn is_allowupdate(&self) -> bool {
        self.allowupdate
    }

    /// Whether it counts while the core is halted.
    pub closed spec fn is_dbgen(&self) -> bool {
        self.dbgen
    }

    /// Whether it counts in stop.
    pub closed spec fn is_stopen(&self) -> bool {
        self.stopen
    }

    /// Whether it counts in wait.
    pub closed spec fn is_waiten(&self) -> bool {
        self.waiten
    }

    /// The reserved bit.
    pub closed spec fn is_reserved(&self) -> bool {
        self.reserved
    }

    /// Whether it is in functional test mode.
    pub closed spec fn is_testwdog(&self) -> bool {
        self.testwdog
    }

    /// Whether functional test mode is disabled.
    pub closed spec fn is_distestwdog(&self) -> bool {
        self.distestwdog
    }

    /// Whether the watchdog is enabled.
    pub fn wdogen(&self) -> (r: bool)
        ensures
            r == self.is_wdogen(),
    {
        self.wdogen
    }

    /// Whether the bus clock rather than the LPO is counted.
    pub fn clksrc(&self) -> (r: bool)
        ensures
            r == self.is_clksrc(),
    {
        self.clksrc
    }

    /// Whether an interrupt comes before the reset.
    pub fn irqrsten(&self) -> (r: bool)
        ensures
            r == self.is_irqrsten(),
    {
        self.irqrsten
    }

    /// Whether refreshing is windowed.
    pub fn winen(&self) -> (r: bool)
        ensures
            r == self.is_winen(),
    {
        self.winen
    }

    /// Whether the configuration can be changed later.
    pub fn allowupdate(&self) -> (r: bool)
        ensures
            r == self.is_allowupdate(),
    {
        self.allowupdate
    }

    /// Whether it counts while the core is halted.
    pub fn dbgen(&self) -> (r: bool)
        ensures
            r == self.is_dbgen(),
    {
        self.dbgen
    }

    /// Whether it counts in stop.
    pub fn stopen(&self) -> (r: bool)
        ensures
            r == self.is_stopen(),
    {
        self.stopen
    }

    /// Whether it counts in wait.
    pub fn waiten(&self) -> (r: bool)
        ensures
            r == self.is_waiten(),
    {
        self.waiten
    }

    /// The reserved bit.
    pub fn reserved(&self) -> (r: bool)
        ensures
            r == self.is_reserved(),
    {
        self.reserved
    }

    /// Whether it is in functional test mode.
    pub fn testwdog(&self) -> (r: bool)
        ensures
            r == self.is_testwdog(),
    {
        self.testwdog
    }

    /// Whether functional test mode is disabled.
    pub fn distestwdog(&self) -> (r: bool)
        ensures
            r == self.is_distestwdog(),
    {
        self.distestwdog
    }
}

/// The control fields of a policy: nothing is enabled beyond it.
pub fn control(config: &Config, enabled: bool, updates: bool) -> (r: Stctrlh)
    ensures
        r == Stctrlh::of(*config, enabled, updates),
        r.is_wdogen() == enabled,
        r.is_allowupdate() == updates,
        r.is_waiten() == config.run_in_wait,
        r.is_stopen() == config.run_in_stop,
        r.is_dbgen() == config.run_in_debug,
        r.is_distestwdog(),
        r.is_reserved(),
        !r.is_clksrc(),
        !r.is_irqrsten(),
        !r.is_winen(),
        !r.is_testwdog(),
{
    Stctrlh {
        wdogen: enabled,
        clksrc: false,
        irqrsten: false,
        winen: false,
        allowupdate: updates,
        dbgen: config.run_in_debug,
        stopen: config.run_in_stop,
        waiten: config.run_in_wait,
        reserved: true,
        testwdog: false,
        distestwdog: true,
    }
}

/// The control fields of a policy: it is enabled, can be changed later, and counts in wait, in stop
/// and under a debugger as asked for; it counts the LPO, and neither an interrupt before the reset
/// nor windowed refreshing nor the functional test mode is enabled.
pub proof fn law_control_fields(config: Config, enabled: bool, updates: bool)
    ensures
        ({
            let fields = Stctrlh::of(config, enabled, updates);
            &&& fields.is_wdogen() == enabled
            &&& fields.is_allowupdate() == updates
            &&& fields.is_waiten() == config.run_in_wait
            &&& fields.is_stopen() == config.run_in_stop
            &&& fields.is_dbgen() == config.run_in_debug
            &&& fields.is_distestwdog()
            &&& fields.is_reserved()
            &&& !fields.is_clksrc()
            &&& !fields.is_irqrsten()
            &&& !fields.is_winen()
            &&& !fields.is_testwdog()
        }),
{
}

/// A register access of the watchdog. The accesses from the first [`Op::Unlock`] to
/// [`Op::WriteControl`] are made atomically and without delay between them, and so are those of a
/// refresh.
#[derive(Clone, Copy, Debug, PartialEq, Eq, Structural)]
pub enum Op {
    /// Write `REFRESH`.
    Refresh(u16),
    /// Write `UNLOCK`.
    Unlock(u16),
    /// One bus access before updating the configuration.
    BusAccess,
    /// Write `TOVALH` and `TOVALL`.
    WriteTimeout { high: u16, low: u16 },
    /// Write zero to `WINH` and `WINL`.
    ResetWindow,
    /// Write zero to `PRESC`.
    ResetPrescaler,
    /// Write `STCTRLH`.
    WriteControl(Stctrlh),
    /// Read a register this many times, each spanning at least one bus cycle: refresh and unlock
    /// are ignored meanwhile.
    WaitBusCycles(u32),
    /// Wait this many core cycles.
    Delay(u32),
}

/// Core cycles that an update takes to synchronize: eight maximum LPO periods of 1100 us, rounded
/// up.
pub open spec fn update_cycles(core_hz: int) -> int {
    (core_hz * 8800 + 999_999) / 1_000_000
}

/// Accesses that update the configuration.
pub open spec fn update_program(
    config: Config,
    enabled: bool,
    updates: bool,
    core_hz: u32,
) -> Seq<Op> {
    seq![
        Op::Unlock(0xc520),
        Op::Unlock(0xd928),
        Op::BusAccess,
        Op::WriteTimeout {
            high: (config.timeout_ticks / 0x1_0000) as u16,
            low: (config.timeout_ticks % 0x1_0000) as u16,
        },
        Op::ResetWindow,
        Op::ResetPrescaler,
        Op::WriteControl(Stctrlh::of(config, enabled, updates)),
        Op::WaitBusCycles(256),
        Op::Delay(update_cycles(core_hz as int) as u32),
    ]
}

fn update(config: &Config, enabled: bool, updates: bool, allowupdate: bool, core_hz: u32) -> (r:
    Result<Vec<Op>, Error>)
    ensures
        match r {
            Ok(ops) => allowupdate && ops@ == update_program(*config, enabled, updates, core_hz),
            Err(e) => e == Error::Locked && !allowupdate,
        },
{
    if !allowupdate {
        return Err(Error::Locked);
    }
    let ticks: u32 = config.timeout_ticks;
    let high: u16 = (ticks / 0x1_0000) as u16;
    let low: u16 = (ticks % 0x1_0000) as u16;
    // Allow clock switching and reload synchronization; this covers disable and enable too.
    let cycles: u64 = (core_hz as u64 * 8800 + 999_999) / 1_000_000;
    let ops: Vec<Op> = vec![
        Op::Unlock(0xc520),
        Op::Unlock(0xd928),
        Op::BusAccess,
        Op::WriteTimeout { high, low },
        Op::ResetWindow,
        Op::ResetPrescaler,
        Op::WriteControl(control(config, enabled, updates)),
        Op::WaitBusCycles(256),
        Op::Delay(cycles as u32),
    ];
    assert(ops@ =~= update_program(*config, enabled, updates, core_hz));
    Ok(ops)
}

/// An owned watchdog. Dropping it does not stop it or refresh it.
///
/// Keep this value alive and call [`feed`](Self::feed) before the timeout. Use
/// [`disable`](Self::disable) explicitly when stopping supervision is intended.
#[derive(Debug, PartialEq, Eq, Structural)]
#[must_use]
pub struct Watchdog {
    config: Config,
    enabled: bool,
}

impl Watchdog {
    /// The policy in force.
    pub closed spec fn policy(&self) -> Config {
        self.config
    }

    /// Whether this driver has enabled the watchdog.
    pub closed spec fn enabled(&self) -> bool {
        self.enabled
    }

    /// Configure and start the watchdog. `allowupdate` is `STCTRLH[ALLOWUPDATE]`, `core_hz` is the
    /// core clock. Feed any already-running watchdog before calling; updating does not pause its
    /// old timer.
    pub fn new(config: Config, allowupdate: bool, core_hz: u32) -> (r: Result<
        (Self, Vec<Op>),
        Error,
    >)
        ensures
            match r {
                Ok((watchdog, ops)) => {
                    &&& config.timeout_ticks >= MIN_TIMEOUT_TICKS
                    &&& allowupdate
                    &&& watchdog.policy() == config
                    &&& watchdog.enabled()
                    &&& ops@ == update_program(config, true, true, core_hz)
                },
                Err(Error::TimeoutTooShort) => config.timeout_ticks < MIN_TIMEOUT_TICKS,
                Err(Error::Locked) => config.timeout_ticks >= MIN_TIMEOUT_TICKS && !allowupdate,
            },
    {
        let mut watchdog: Watchdog = Watchdog { config, enabled: false };
        match watchdog.configure(config, allowupdate, core_hz) {
            Ok(ops) => Ok((watchdog, ops)),
            Err(e) => Err(e),
        }
    }

    /// Reconfigure and enable the watchdog, restarting its timeout.
    /// Blocks for configuration synchronization; do not call close to an existing timeout.
    pub fn configure(&mut self, config: Config, allowupdate: bool, core_hz: u32) -> (r: Result<
        Vec<Op>,
        Error,
    >)
        ensures
            match r {
                Ok(ops) => {
                    &&& config.timeout_ticks >= MIN_TIMEOUT_TICKS
                    &&& allowupdate
                    &&& final(self).policy() == config
                    &&& final(self).enabled()
                    &&& ops@ == update_program(config, true, true, core_hz)
                },
                Err(Error::TimeoutTooShort) => config.timeout_ticks < MIN_TIMEOUT_TICKS && *final(
                    self) == *old(self),
                Err(Error::Locked) => config.timeout_ticks >= MIN_TIMEOUT_TICKS && !allowupdate
                    && *final(self) == *old(self),
            },
    {
        if config.timeout_ticks < MIN_TIMEOUT_TICKS {
            return Err(Error::TimeoutTooShort);
        }
        match update(&config, true, true, allowupdate, core_hz) {
            Ok(ops) => {
                self.config = config;
                self.enabled = true;
                Ok(ops)
            },
            Err(e) => Err(e),
        }
    }

    /// Restart the timeout. Does nothing when explicitly disabled. The two writes go to the
    /// register within 20 bus cycles of each other.
    pub fn feed(&mut self) -> (r: Vec<Op>)
        ensures
            *final(self) == *old(self),
            r@ == if old(self).enabled() {
                seq![Op::Refresh(0xa602), Op::Refresh(0xb480)]
            } else {
                seq![]
            },
    {
        if self.enabled {
            let ops: Vec<Op> = vec![Op::Refresh(0xa602), Op::Refresh(0xb480)];
            assert(ops@ =~= seq![Op::Refresh(0xa602), Op::Refresh(0xb480)]);
            ops
        } else {
            Vec::new()
        }
    }

    /// Stop the watchdog and wait for the disable to synchronize. Ownership is retained.
    pub fn disable(&mut self, allowupdate: bool, core_hz: u32) -> (r: Result<Vec<Op>, Error>)
        ensures
            final(self).policy() == old(self).policy(),
            match r {
                Ok(ops) => {
                    &&& allowupdate
                    &&& !final(self).enabled()
                    &&& ops@ == update_program(old(self).policy(), false, true, core_hz)
                },
                Err(e) => e == Error::Locked && !allowupdate && *final(self) == *old(self),
            },
    {
        match update(&self.config, false, true, allowupdate, core_hz) {
            Ok(ops) => {
                self.enabled = false;
                Ok(ops)
            },
            Err(e) => Err(e),
        }
    }

    /// Re-enable the saved configuration and restart the timeout.
    pub fn enable(&mut self, allowupdate: bool, core_hz: u32) -> (r: Result<Vec<Op>, Error>)
        ensures
            final(self).policy() == old(self).policy(),
            match r {
                Ok(ops) => {
                    &&& old(self).policy().timeout_ticks >= MIN_TIMEOUT_TICKS
                    &&& allowupdate
                    &&& final(self).enabled()
                    &&& ops@ == update_program(old(self).policy(), true, true, core_hz)
                },
                Err(Error::TimeoutTooShort) => old(self).policy().timeout_ticks
                    < MIN_TIMEOUT_TICKS && *final(self) == *old(self),
                Err(Error::Locked) => old(self).policy().timeout_ticks >= MIN_TIMEOUT_TICKS
                    && !allowupdate && *final(self) == *old(self),
            },
    {
        self.configure(self.config, allowupdate, core_hz)
    }

    /// Prevent further configuration changes until reset. Feeding remains available.
    pub fn lock(&mut self, allowupdate: bool, core_hz: u32) -> (r: Result<Vec<Op>, Error>)
        ensures
            *final(self) == *old(self),
            match r {
                Ok(ops) => allowupdate && ops@ == update_program(
                    old(self).policy(),
                    old(self).enabled(),
                    false,
                    core_hz,
                ),
                Err(e) => e == Error::Locked && !allowupdate,
            },
    {
        update(&self.config, self.enabled, false, allowupdate, core_hz)
    }

    /// Whether this driver has enabled the watchdog.
    pub fn is_enabled(&self) -> (r: bool)
        ensures
            r == self.enabled(),
    {
        self.enabled
    }
}

/// `ALLOWUPDATE` after an access.
pub open spec fn allows_updates_after(op: Op, allowupdate: bool) -> bool {
    match op {
        Op::WriteControl(ctrl) => ctrl.is_allowupdate(),
        _ => allowupdate,
    }
}

/// `ALLOWUPDATE` after a program.
pub open spec fn allows_updates_after_all(ops: Seq<Op>, allowupdate: bool) -> bool
    decreases ops.len(),
{
    if ops.len() == 0 {
        allowupdate
    } else {
        allows_updates_after(
            ops.last(),
            allows_updates_after_all(ops.drop_last(), allowupdate),
        )
    }
}

/// Locking is final: a locked watchdog allows no updates, so that every later change is refused;
/// any other update leaves the watchdog open to changes.
pub proof fn law_lock_is_final(config: Config, enabled: bool, updates: bool, core_hz: u32, before: bool)
    ensures
        allows_updates_after_all(update_program(config, enabled, updates, core_hz), before)
            == updates,
{
    let ops = update_program(config, enabled, updates, core_hz);
    reveal_with_fuel(allows_updates_after_all, 4);
    assert(ops.drop_last().last() == ops[7]);
    assert(ops.drop_last().drop_last().last() == ops[6]);
}

/// The timeout survives its way through the two halves of the register.
pub proof fn law_timeout_halves(ticks: u32)
    ensures
        ((ticks / 0x1_0000) as u16) * 0x1_0000 + ((ticks % 0x1_0000) as u16) == ticks,
{
}

/// The wait after an update covers eight of the longest LPO periods, at any core clock.
pub proof fn law_update_wait(core_hz: int)
    requires
        core_hz >= 0,
    ensures
        update_cycles(core_hz) * 1_000_000 >= core_hz * 8800,
        update_cycles(core_hz) * 1_000_000 < core_hz * 8800 + 1_000_000,
{
}

} // verus!
