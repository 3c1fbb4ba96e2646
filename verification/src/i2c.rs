//! I2C master logic for the Kinetis I2C module.

pub mod hardware;
pub mod transaction;
pub mod wire;

use vstd::prelude::*;

use crate::gpio::Mux;
use crate::i2c::transaction::Operation;
use crate::i2c::transaction::Transaction;

verus! {

/// I2C error.
#[derive(Clone, Copy, Debug, PartialEq, Eq, Structural)]
#[non_exhaustive]
pub enum Error {
    /// The bus was busy when the transfer should have started.
    Bus,
    /// Arbitration was lost to another master.
    Arbitration,
    /// The address byte was not acknowledged.
    AddressNack,
    /// A data byte was not acknowledged.
    DataNack,
    /// A read of zero bytes was requested, which the hardware cannot do.
    InvalidReadBufferLength,
    /// The DMA controller reported an error moving the data.
    Dma,
}

/// The kinds of error that I2C drivers have in common.
#[derive(Clone, Copy, Debug, PartialEq, Eq, Structural)]
pub enum ErrorKind {
    Bus,
    ArbitrationLoss,
    NoAcknowledgeAddress,
    NoAcknowledgeData,
    Other,
}

impl Error {
    /// The kind of error that this is.
    pub fn kind(&self) -> (r: ErrorKind)
        ensures
            r == match *self {
                Error::Bus => ErrorKind::Bus,
                Error::Arbitration => ErrorKind::ArbitrationLoss,
                Error::AddressNack => ErrorKind::NoAcknowledgeAddress,
                Error::DataNack => ErrorKind::NoAcknowledgeData,
                Error::InvalidReadBufferLength => ErrorKind::Other,
                Error::Dma => ErrorKind::Other,
            },
    {
        match self {
            Error::Bus => ErrorKind::Bus,
            Error::Arbitration => ErrorKind::ArbitrationLoss,
            Error::AddressNack => ErrorKind::NoAcknowledgeAddress,
            Error::DataNack => ErrorKind::NoAcknowledgeData,
            Error::InvalidReadBufferLength => ErrorKind::Other,
            Error::Dma => ErrorKind::Other,
        }
    }
}

/// A bus line.
#[derive(Clone, Copy, Debug, PartialEq, Eq, Structural)]
pub enum Line {
    Scl,
    Sda,
}

/// A register access of the I2C driver. Fields that an access does not name keep their value.
/// Accesses to `C1` are made atomically with respect to the interrupt handler.
#[derive(Clone, Copy, Debug, PartialEq, Eq, Structural)]
pub enum Op {
    /// Open the clock gate of the module.
    EnableClock,
    /// Write zero to `A1`.
    ResetA1,
    /// Write zero to `F`.
    ResetF,
    /// Write zero to `C1`.
    ResetC1,
    /// Write `S`, whose flags clear where a one is written.
    WriteS(u8),
    /// Write zero to `C2`.
    ResetC2,
    /// Write `FLT`: clear the start and stop detect flags, no glitch filter.
    ResetFlt,
    /// Write zero to `RA`.
    ResetRa,
    /// Write `F`.
    WriteF { mult: Mult, icr: u8 },
    /// `PCR[MUX]`, `PCR[ODE] = 1`, `PCR[PE]` and `PCR[PS] = 1` of a line's pin.
    ConfigurePin { line: Line, mux: Mux, pe: bool },
    /// Write `C1` with `IICEN` alone.
    EnableModule,
    /// Route the interrupt through the multiplexer.
    EnableSource(u8),
    /// Clear a pending interrupt at the NVIC.
    UnpendInterrupt,
    /// Enable the interrupt at the NVIC.
    EnableInterrupt,
    /// `C1[MST] = 1` and `C1[TX] = 1`: START.
    Master,
    /// Write `F` with `MULT = 0`, keeping `ICR` and remembering the register.
    ClearMult,
    /// `C1[RSTA] = 1` and `C1[TX] = 1`: repeated START.
    RepeatedStart,
    /// Write `F` as [`Op::ClearMult`] found it.
    RestoreF,
    /// Wait this many cycles.
    Delay(u32),
    /// Wait until `S2[EMPTY]` is set.
    WaitEmpty,
    /// Write `D`.
    WriteData(u8),
    /// Read `D` and discard it.
    DummyRead,
    /// Read `D` into a slot of an operation.
    ReadData { operation: usize, slot: usize },
    /// `C1[TX]`.
    SetTx(bool),
    /// `C1[TXAK]`.
    SetTxak(bool),
    /// `C1[TX] = 0` and `C1[TXAK]`.
    SetReceive { txak: bool },
    /// `C1[DMAEN]`.
    SetDmaen(bool),
    /// `C1[MST] = 0`, `C1[TX] = 0` and `C1[TXAK] = 0`: STOP.
    Release,
    /// Wait until `S[BUSY]` is clear.
    WaitIdle,
    /// Write `S` with `IICIF` alone, which clears it.
    ClearIicif,
    /// Write `S` with `ARBL` alone, which clears it.
    ClearArbl,
}

/// SCL divider for each `F[ICR]` value.
pub const DIVIDERS: [u16; 64] = [
    20, 22, 24, 26, 28, 30, 34, 40, 28, 32, 36, 40, 44, 48, 56, 68, 48, 56, 64, 72, 80, 88, 104,
    128, 80, 96, 112, 128, 144, 160, 192, 240, 160, 192, 224, 256, 288, 320, 384, 480, 320, 384,
    448, 512, 576, 640, 768, 960, 640, 768, 896, 1024, 1152, 1280, 1536, 1920, 1280, 1536, 1792,
    2048, 2304, 2560, 3072, 3840,
];

/// SCL multiplier factor selection (`F[MULT]`): the divider is multiplied by `2^MULT`.
#[derive(Clone, Copy, Debug, PartialEq, Eq, Structural)]
pub enum Mult {
    _00,
    _01,
    _10,
}

impl Mult {
    /// The field value as a number.
    pub open spec fn bits(self) -> int {
        match self {
            Mult::_00 => 0,
            Mult::_01 => 1,
            Mult::_10 => 2,
        }
    }

    /// The field value.
    pub fn to_bits(self) -> (r: u8)
        ensures
            r == self.bits(),
    {
        match self {
            Mult::_00 => 0,
            Mult::_01 => 1,
            Mult::_10 => 2,
        }
    }
}

/// What a multiplier selection multiplies the SCL divider by.
pub open spec fn multiplier(mult: int) -> int {
    if mult == 0 {
        1
    } else if mult == 1 {
        2
    } else {
        4
    }
}

/// SCL rate in Hz, rounded down.
pub open spec fn scl_rate(bus_hz: int, mult: int, icr: int) -> int {
    bus_hz / (multiplier(mult) * DIVIDERS@[icr])
}

/// How far a divider setting is from the requested frequency.
pub open spec fn scl_error(bus_hz: int, frequency: int, mult: int, icr: int) -> int {
    let rate = scl_rate(bus_hz, mult, icr);
    if rate >= frequency {
        rate - frequency
    } else {
        frequency - rate
    }
}

/// The order in which settings that come equally close are preferred: by multiplier, then divider.
pub open spec fn scl_rank(mult: int, icr: int) -> int {
    mult * 64 + icr
}

/// Whether the setting comes closest to `frequency`, and comes first among those that come as
/// close.
pub open spec fn closest_scl(bus_hz: int, frequency: int, mult: int, icr: int) -> bool {
    &&& 0 <= mult <= 2 && 0 <= icr < 64
    &&& forall|m: int, i: int|
        0 <= m <= 2 && 0 <= i < 64 ==> {
            ||| #[trigger] scl_error(bus_hz, frequency, m, i) > scl_error(
                bus_hz,
                frequency,
                mult,
                icr,
            )
            ||| scl_error(bus_hz, frequency, m, i) == scl_error(bus_hz, frequency, mult, icr)
                && scl_rank(mult, icr) <= scl_rank(m, i)
        }
}

proof fn lemma_dividers(icr: int)
    requires
        0 <= icr < 64,
    ensures
        20 <= DIVIDERS@[icr] <= 3840,
{
    let d = DIVIDERS@;
    assert(d[0] == 20 && d[1] == 22 && d[2] == 24 && d[3] == 26 && d[4] == 28 && d[5] == 30);
    assert(d[6] == 34 && d[7] == 40 && d[8] == 28 && d[9] == 32 && d[10] == 36 && d[11] == 40);
    assert(d[12] == 44 && d[13] == 48 && d[14] == 56 && d[15] == 68 && d[16] == 48);
    assert(d[17] == 56 && d[18] == 64 && d[19] == 72 && d[20] == 80 && d[21] == 88);
    assert(d[22] == 104 && d[23] == 128 && d[24] == 80 && d[25] == 96 && d[26] == 112);
    assert(d[27] == 128 && d[28] == 144 && d[29] == 160 && d[30] == 192 && d[31] == 240);
    assert(d[32] == 160 && d[33] == 192 && d[34] == 224 && d[35] == 256 && d[36] == 288);
    assert(d[37] == 320 && d[38] == 384 && d[39] == 480 && d[40] == 320 && d[41] == 384);
    assert(d[42] == 448 && d[43] == 512 && d[44] == 576 && d[45] == 640 && d[46] == 768);
    assert(d[47] == 960 && d[48] == 640 && d[49] == 768 && d[50] == 896 && d[51] == 1024);
    assert(d[52] == 1152 && d[53] == 1280 && d[54] == 1536 && d[55] == 1920 && d[56] == 1280);
    assert(d[57] == 1536 && d[58] == 1792 && d[59] == 2048 && d[60] == 2304 && d[61] == 2560);
    assert(d[62] == 3072 && d[63] == 3840);
}

/// `F[MULT]` and `F[ICR]` giving the SCL frequency closest to `frequency` from `bus_hz`.
pub fn baud_divisors(bus_hz: u32, frequency: u32) -> (r: (Mult, u8))
    ensures
        closest_scl(bus_hz as int, frequency as int, r.0.bits(), r.1 as int),
{
    let mut best_error: u32 = u32::MAX;
    let mut best_mult: u8 = 0;
    let mut best_icr: u8 = 0;
    let mut rank: usize = 0;
    while rank < 192
        invariant
            rank <= 192,
            best_mult <= 2,
            best_icr < 64,
            rank > 0 ==> {
                &&& best_error == scl_error(
                    bus_hz as int,
                    frequency as int,
                    best_mult as int,
                    best_icr as int,
                )
                &&& scl_rank(best_mult as int, best_icr as int) < rank
            },
            rank == 0 ==> best_error == u32::MAX && best_mult == 0 && best_icr == 0,
            forall|m: int, i: int|
                0 <= m <= 2 && 0 <= i < 64 && scl_rank(m, i) < rank ==> {
                    ||| #[trigger] scl_error(bus_hz as int, frequency as int, m, i) > best_error
                    ||| scl_error(bus_hz as int, frequency as int, m, i) == best_error
                        && scl_rank(best_mult as int, best_icr as int) <= scl_rank(m, i)
                },
        decreases 192 - rank,
    {
        let mult: usize = rank / 64;
        let icr: usize = rank % 64;
        let factor: u32 = if mult == 0 {
            1
        } else if mult == 1 {
            2
        } else {
            4
        };
        proof {
            lemma_dividers(icr as int);
        }
        assert(20 <= factor * DIVIDERS@[icr as int] <= 4 * 3840) by (nonlinear_arith)
            requires
                1 <= factor <= 4,
                20 <= DIVIDERS@[icr as int] <= 3840,
        ;
        let rate: u32 = bus_hz / (factor * DIVIDERS[icr] as u32);
        let error: u32 = if rate >= frequency {
            rate - frequency
        } else {
            frequency - rate
        };
        assert(error == scl_error(bus_hz as int, frequency as int, mult as int, icr as int));
        assert forall|m: int, i: int| 0 <= m <= 2 && 0 <= i < 64 && #[trigger] scl_rank(m, i) == rank implies m
            == mult && i == icr by {}
        if error < best_error {
            best_error = error;
            best_mult = mult as u8;
            best_icr = icr as u8;
        }
        rank = rank + 1;
    }
    let mult: Mult = match best_mult {
        0 => Mult::_00,
        1 => Mult::_01,
        _ => Mult::_10,
    };
    (mult, best_icr)
}

/// I2C configuration.
#[derive(Clone, Copy, Debug, PartialEq, Eq, Structural)]
pub struct Config {
    /// SCL frequency in Hz. The closest divider of the bus clock is used.
    pub frequency: u32,
    /// Enable the internal pull-ups on SCL and SDA.
    pub internal_pullup: bool,
}

impl Default for Config {
    fn default() -> (r: Self)
        ensures
            r == (Config { frequency: 100_000, internal_pullup: true }),
    {
        Config { frequency: 100_000, internal_pullup: true }
    }
}

/// Accesses that set the module up: the reset state, with the start and stop detect flags cleared,
/// then the divider and the pins.
pub open spec fn init_program(
    mult: Mult,
    icr: u8,
    scl: Mux,
    sda: Mux,
    internal_pullup: bool,
) -> Seq<Op> {
    seq![
        Op::EnableClock,
        Op::ResetA1,
        Op::ResetF,
        Op::ResetC1,
        Op::WriteS(0xFF),
        Op::ResetC2,
        Op::ResetFlt,
        Op::ResetRa,
        Op::WriteF { mult, icr },
        Op::ConfigurePin { line: Line::Scl, mux: scl, pe: internal_pullup },
        Op::ConfigurePin { line: Line::Sda, mux: sda, pe: internal_pullup },
        Op::EnableModule,
    ]
}

/// Whether a program sets the module up for a configuration.
pub open spec fn sets_up(ops: Seq<Op>, bus_hz: u32, scl: Mux, sda: Mux, config: Config) -> bool {
    exists|mult: Mult, icr: u8|
        closest_scl(bus_hz as int, config.frequency as int, mult.bits(), icr as int) && ops
            == #[trigger] init_program(mult, icr, scl, sda, config.internal_pullup)
}

/// Sets the module up; `scl` and `sda` are the alternatives that connect the pins to it.
pub fn init(bus_hz: u32, scl: Mux, sda: Mux, config: &Config) -> (r: Vec<Op>)
    ensures
        sets_up(r@, bus_hz, scl, sda, *config),
{
    let (mult, icr) = baud_divisors(bus_hz, config.frequency);
    let ops: Vec<Op> = vec![
        Op::EnableClock,
        Op::ResetA1,
        Op::ResetF,
        Op::ResetC1,
        Op::WriteS(0xFF),
        Op::ResetC2,
        Op::ResetFlt,
        Op::ResetRa,
        Op::WriteF { mult, icr },
        Op::ConfigurePin { line: Line::Scl, mux: scl, pe: config.internal_pullup },
        Op::ConfigurePin { line: Line::Sda, mux: sda, pe: config.internal_pullup },
        Op::EnableModule,
    ];
    assert(ops@ =~= init_program(mult, icr, scl, sda, config.internal_pullup));
    ops
}

/// The I2C setting that a divider search picks is unique.
pub proof fn law_closest_scl_is_unique(
    bus_hz: int,
    frequency: int,
    mult: int,
    icr: int,
    other_mult: int,
    other_icr: int,
)
    requires
        closest_scl(bus_hz, frequency, mult, icr),
        closest_scl(bus_hz, frequency, other_mult, other_icr),
    ensures
        mult == other_mult,
        icr == other_icr,
{
    assert(scl_error(bus_hz, frequency, mult, icr) == scl_error(
        bus_hz,
        frequency,
        other_mult,
        other_icr,
    ));
}

/// I2C master driver.
#[derive(Clone, Copy, Debug, PartialEq, Eq, Structural)]
pub struct I2c {
    /// Sleep on the interrupt rather than poll.
    is_async: bool,
    /// Move the bulk of each transfer by DMA.
    dma: bool,
}

impl I2c {
    /// Whether the driver sleeps on the interrupt.
    pub closed spec fn sleeps(&self) -> bool {
        self.is_async
    }

    /// Whether the driver has a DMA channel.
    pub closed spec fn has_dma(&self) -> bool {
        self.dma
    }

    /// Create a blocking I2C master.
    pub fn new_blocking(bus_hz: u32, scl: Mux, sda: Mux, config: Config) -> (r: (Self, Vec<Op>))
        ensures
            !r.0.sleeps(),
            !r.0.has_dma(),
            sets_up(r.1@, bus_hz, scl, sda, config),
    {
        (I2c { is_async: false, dma: false }, init(bus_hz, scl, sda, &config))
    }

    /// Create an async I2C master. `source` is the input number on the interrupt multiplexer of a
    /// module that has no interrupt line of its own.
    pub fn new(
        bus_hz: u32,
        scl: Mux,
        sda: Mux,
        source: Option<u8>,
        config: Config,
    ) -> (r: (Self, Vec<Op>))
        ensures
            r.0.sleeps(),
            !r.0.has_dma(),
            exists|setup: Seq<Op>|
                sets_up(setup, bus_hz, scl, sda, config) && r.1@ == setup
                    + #[trigger] interrupt_program(source),
    {
        let mut ops: Vec<Op> = init(bus_hz, scl, sda, &config);
        let ghost setup = ops@;
        if let Some(input) = source {
            ops.push(Op::EnableSource(input));
        }
        ops.push(Op::UnpendInterrupt);
        ops.push(Op::EnableInterrupt);
        assert(ops@ =~= setup + interrupt_program(source));
        (I2c { is_async: true, dma: false }, ops)
    }

    /// Create an async I2C master that moves the bulk of each transfer with a DMA channel.
    pub fn new_with_dma(
        bus_hz: u32,
        scl: Mux,
        sda: Mux,
        source: Option<u8>,
        config: Config,
    ) -> (r: (Self, Vec<Op>))
        ensures
            r.0.sleeps(),
            r.0.has_dma(),
            exists|setup: Seq<Op>|
                sets_up(setup, bus_hz, scl, sda, config) && r.1@ == setup
                    + #[trigger] interrupt_program(source),
    {
        let (mut i2c, ops) = I2c::new(bus_hz, scl, sda, source, config);
        i2c.dma = true;
        (i2c, ops)
    }

    /// Read `len` bytes from the device at `address`.
    pub fn read(&self, address: u8, len: usize) -> (r: Transaction)
        ensures
            r.wf(),
            r.progress() == (transaction::Progress { at: 0, wait: transaction::Wait::Nothing }),
            r.steps() == transaction::transaction_steps(
                address,
                seq![Operation::Read(len)],
                self.has_dma(),
            ),
    {
        let operations: Vec<Operation> = vec![Operation::Read(len)];
        proof {
            transaction::lemma_countable_pair(operations@, len as int);
        }
        assert(operations@ =~= seq![Operation::Read(len)]);
        self.transaction(address, &operations)
    }

    /// Write `bytes` to the device at `address`.
    pub fn write(&self, address: u8, bytes: Vec<u8>) -> (r: Transaction)
        ensures
            r.wf(),
            r.progress() == (transaction::Progress { at: 0, wait: transaction::Wait::Nothing }),
            r.steps() == transaction::transaction_steps(
                address,
                seq![Operation::Write(bytes)],
                self.has_dma(),
            ),
    {
        let operations: Vec<Operation> = vec![Operation::Write(bytes)];
        proof {
            transaction::lemma_countable_pair(operations@, 0);
        }
        assert(operations@ =~= seq![Operation::Write(bytes)]);
        self.transaction(address, &operations)
    }

    /// Write `bytes`, then read `len` bytes after a repeated start.
    pub fn write_read(&self, address: u8, bytes: Vec<u8>, len: usize) -> (r: Transaction)
        ensures
            r.wf(),
            r.progress() == (transaction::Progress { at: 0, wait: transaction::Wait::Nothing }),
            r.steps() == transaction::transaction_steps(
                address,
                seq![Operation::Write(bytes), Operation::Read(len)],
                self.has_dma(),
            ),
    {
        let operations: Vec<Operation> = vec![Operation::Write(bytes), Operation::Read(len)];
        proof {
            transaction::lemma_countable_pair(operations@, len as int);
        }
        assert(operations@ =~= seq![Operation::Write(bytes), Operation::Read(len)]);
        self.transaction(address, &operations)
    }

    /// Run a sequence of operations as one transaction.
    pub fn transaction(&self, address: u8, operations: &Vec<Operation>) -> (r: Transaction)
        requires
            transaction::countable(operations@),
        ensures
            r.wf(),
            r.progress() == (transaction::Progress { at: 0, wait: transaction::Wait::Nothing }),
            r.steps() == transaction::transaction_steps(address, operations@, self.has_dma()),
    {
        Transaction::new(address, operations, self.dma)
    }

    /// Looks for the end of the byte in flight. While it is not there an async driver, once its
    /// waker is registered, unmasks the interrupt (`C1[IICIE] = 1`, atomically) before it sleeps;
    /// `IICIF` is level sensitive, so a flag set in between still raises the interrupt.
    pub fn wait_iicif(&self, iicif: bool) -> (r: Poll)
        ensures
            r == if iicif {
                Poll::Ready
            } else if self.sleeps() {
                Poll::Sleep
            } else {
                Poll::Spin
            },
    {
        if iicif {
            return Poll::Ready;
        }
        if self.is_async {
            Poll::Sleep
        } else {
            Poll::Spin
        }
    }
}

/// Accesses that let a module raise its interrupt.
pub open spec fn interrupt_program(source: Option<u8>) -> Seq<Op> {
    (match source {
        Some(input) => seq![Op::EnableSource(input)],
        None => seq![],
    }) + seq![Op::UnpendInterrupt, Op::EnableInterrupt]
}

/// What to do about a flag.
#[derive(Clone, Copy, Debug, PartialEq, Eq, Structural)]
pub enum Poll {
    /// It is set: go on.
    Ready,
    /// Register the waker, unmask the interrupt and sleep.
    Sleep,
    /// Look again.
    Spin,
}

/// What to do about the byte that the last access of a DMA run started.
#[derive(Clone, Copy, Debug, PartialEq, Eq, Structural)]
pub enum AfterDma {
    /// It is done: this status is its status.
    Done,
    /// Clear `IICIF`, which may be stale from the bytes that the DMA moved, and read the status
    /// again.
    Clear,
    /// Wait for `IICIF`.
    Wait,
}

/// After a DMA run: the byte that the DMA's last register access started is in flight or done.
/// `cleared` tells whether `IICIF` was cleared since the run, `tcf` is `S[TCF]`.
pub fn wait_after_dma(cleared: bool, tcf: bool) -> (r: AfterDma)
    ensures
        r == if tcf {
            AfterDma::Done
        } else if cleared {
            AfterDma::Wait
        } else {
            AfterDma::Clear
        },
{
    if tcf {
        AfterDma::Done
    } else if cleared {
        AfterDma::Wait
    } else {
        AfterDma::Clear
    }
}

/// Whether the interrupt handler masks the interrupt (`C1[IICIE] = 0`) and wakes the driver.
pub fn on_interrupt(iicie: bool, iicif: bool) -> (r: bool)
    ensures
        r == (iicie && iicif),
{
    iicie && iicif
}

} // verus!
