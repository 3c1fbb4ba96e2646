//! SPI master logic for the Kinetis DSPI module.

pub mod hardware;
pub mod transfer;

use vstd::prelude::*;

use crate::gpio::Mux;
use crate::spi::transfer::DmaTransfer;
use crate::spi::transfer::Transfer;

verus! {

/// Write-1-to-clear flags in SR: TCF, EOQF, TFUF, TFFF, RFOF, RFDF.
pub const SR_W1C: u32 = 0x9A0A_0000;

/// Byte clocked out when there is nothing to send.
pub const DUMMY: u8 = 0xFF;

/// SPI error.
#[derive(Clone, Copy, Debug, PartialEq, Eq, Structural)]
#[non_exhaustive]
pub enum Error {
    /// The receive FIFO overflowed.
    Overrun,
    /// The DMA controller reported an error moving the data.
    Dma,
}

/// The kinds of error that SPI drivers have in common.
#[derive(Clone, Copy, Debug, PartialEq, Eq, Structural)]
pub enum ErrorKind {
    Overrun,
    Other,
}

impl Error {
    /// The kind of error that this is.
    pub fn kind(&self) -> (r: ErrorKind)
        ensures
            r == match *self {
                Error::Overrun => ErrorKind::Overrun,
                Error::Dma => ErrorKind::Other,
            },
    {
        match self {
            Error::Overrun => ErrorKind::Overrun,
            Error::Dma => ErrorKind::Other,
        }
    }
}

/// Clock phase.
#[derive(Clone, Copy, Debug, PartialEq, Eq, Structural)]
pub enum Phase {
    /// Data in "captured" on the first clock transition.
    CaptureOnFirstTransition,
    /// Data in "captured" on the second clock transition.
    CaptureOnSecondTransition,
}

/// Clock polarity.
#[derive(Clone, Copy, Debug, PartialEq, Eq, Structural)]
pub enum Polarity {
    /// Clock signal low when idle.
    IdleLow,
    /// Clock signal high when idle.
    IdleHigh,
}

/// Bit order.
#[derive(Clone, Copy, Debug, PartialEq, Eq, Structural)]
pub enum BitOrder {
    MsbFirst,
    LsbFirst,
}

/// SPI configuration.
#[derive(Clone, Copy, Debug, PartialEq, Eq, Structural)]
pub struct Config {
    /// SCK frequency in Hz. The closest rate not above it is used.
    pub frequency: u32,
    pub phase: Phase,
    pub polarity: Polarity,
    pub bit_order: BitOrder,
}

impl Default for Config {
    fn default() -> (r: Self)
        ensures
            r == (Config {
                frequency: 1_000_000,
                phase: Phase::CaptureOnFirstTransition,
                polarity: Polarity::IdleLow,
                bit_order: BitOrder::MsbFirst,
            }),
    {
        Config {
            frequency: 1_000_000,
            phase: Phase::CaptureOnFirstTransition,
            polarity: Polarity::IdleLow,
            bit_order: BitOrder::MsbFirst,
        }
    }
}

/// Per-instance constants.
#[derive(Clone, Copy, Debug, PartialEq, Eq, Structural)]
pub struct Info {
    /// Entries of the FIFOs: 4 in SPI0, 1 in SPI1.
    pub fifo_depth: u8,
}

/// A bus line.
#[derive(Clone, Copy, Debug, PartialEq, Eq, Structural)]
pub enum Line {
    Sck,
    Mosi,
    Miso,
}

/// Transfer attributes (`CTAR0`).
#[derive(Clone, Copy, Debug, PartialEq, Eq, Structural)]
pub struct Ctar {
    pub fmsz: u8,
    pub cpol: bool,
    pub cpha: bool,
    pub lsbfe: bool,
    pub dbr: bool,
    pub pbr: Pbr,
    pub br: u8,
}

/// A register access of the SPI master. Fields that an access does not name keep their value,
/// unless it is described as a write of the whole register.
#[derive(Clone, Copy, Debug, PartialEq, Eq, Structural)]
pub enum Op {
    /// Open the clock gate of the module.
    EnableClock,
    /// Write the whole of `MCR`: master, module enabled, halted, FIFOs cleared.
    WriteMcrHalted,
    /// Write the whole of `CTAR0`.
    WriteCtar(Ctar),
    /// `PCR[MUX]` of a line's pin.
    SetMux { line: Line, mux: Mux },
    /// Write `SR`, whose flags clear where a one is written.
    WriteSr(u32),
    /// `MCR[HALT] = 0`.
    Run,
    /// Route the interrupt through the multiplexer.
    EnableSource(u8),
    /// Clear a pending interrupt at the NVIC.
    UnpendInterrupt,
    /// Enable the interrupt at the NVIC.
    EnableInterrupt,
    /// `MCR[CLR_TXF] = 1` and `MCR[CLR_RXF] = 1`.
    ClearFifos,
    /// Write `PUSHR`: this data byte, no chip select, attributes of `CTAR0`.
    Push(u8),
    /// Write `SR` with `RFDF` alone, which clears it.
    ClearRfdf,
    /// Write `SR` with `RFOF` alone, which clears it.
    ClearRfof,
    /// Write zero to the command half of `PUSHR`.
    ClearCommand,
    /// Start the receive channel: `POPR` into the chunk of the read buffer, or into nothing.
    StartRx { keep: bool },
    /// Start the transmit channel: the chunk of the write buffer, or 0xFF as often as the chunk is
    /// long, into `PUSHR`.
    StartTx { data: bool },
    /// Write the whole of `RSER`: `RFDF` and `TFFF` request DMA.
    EnableRequests,
    /// Write zero to `RSER`.
    DisableRequests,
}

/// Baud rate prescaler for each `PBR` value.
pub const PRESCALERS: [u32; 4] = [2, 3, 5, 7];

/// Baud rate scaler for each `BR` value.
pub const SCALERS: [u32; 16] = [
    2,
    4,
    6,
    8,
    16,
    32,
    64,
    128,
    256,
    512,
    1024,
    2048,
    4096,
    8192,
    16384,
    32768,
];

/// Baud rate prescaler selection (`CTAR[PBR]`).
#[derive(Clone, Copy, Debug, PartialEq, Eq, Structural)]
pub enum Pbr {
    _00,
    _01,
    _10,
    _11,
}

impl Pbr {
    /// The field value as a number.
    pub open spec fn bits(self) -> int {
        match self {
            Pbr::_00 => 0,
            Pbr::_01 => 1,
            Pbr::_10 => 2,
            Pbr::_11 => 3,
        }
    }

    /// The field value.
    pub fn to_bits(self) -> (r: u8)
        ensures
            r == self.bits(),
    {
        match self {
            Pbr::_00 => 0,
            Pbr::_01 => 1,
            Pbr::_10 => 2,
            Pbr::_11 => 3,
        }
    }

    /// The prescaler with this field value; only the low two bits count.
    pub fn from_bits(bits: u8) -> (r: Pbr)
        ensures
            r.bits() == bits % 4,
    {
        match bits % 4 {
            0 => Pbr::_00,
            1 => Pbr::_01,
            2 => Pbr::_10,
            _ => Pbr::_11,
        }
    }
}

/// Why no SCK rate can be chosen.
#[derive(Clone, Copy, Debug, PartialEq, Eq, Structural)]
pub enum FrequencyError {
    /// The requested frequency is zero.
    Zero,
    /// The requested frequency is below the slowest rate of the module.
    BelowMinimum,
}

/// Whether these fields fit the `DBR`, `PBR` and `BR` bits.
pub open spec fn valid_divisors(pbr: int, br: int) -> bool {
    0 <= pbr < 4 && 0 <= br < 16
}

/// SCK rate in Hz, rounded down.
pub open spec fn sck_rate(bus_hz: int, dbr: bool, pbr: int, br: int) -> int {
    bus_hz * (if dbr { 2int } else { 1int }) / (PRESCALERS@[pbr] * SCALERS@[br])
}

/// The order in which settings of equal rate are preferred: by prescaler, then scaler, then
/// without doubling first.
pub open spec fn divisors_rank(dbr: bool, pbr: int, br: int) -> int {
    (pbr * 16 + br) * 2 + (if dbr { 1int } else { 0int })
}

/// Whether these divisors give the highest rate not above `frequency`, and come first among those
/// that give it.
pub open spec fn best_divisors(bus_hz: int, frequency: int, dbr: bool, pbr: int, br: int) -> bool {
    &&& valid_divisors(pbr, br)
    &&& sck_rate(bus_hz, dbr, pbr, br) <= frequency
    &&& forall|d: bool, p: int, b: int|
        valid_divisors(p, b) && #[trigger] sck_rate(bus_hz, d, p, b) <= frequency ==> {
            ||| sck_rate(bus_hz, d, p, b) < sck_rate(bus_hz, dbr, pbr, br)
            ||| sck_rate(bus_hz, d, p, b) == sck_rate(bus_hz, dbr, pbr, br) && divisors_rank(
                dbr,
                pbr,
                br,
            ) <= divisors_rank(d, p, b)
        }
}

proof fn lemma_tables(pbr: int, br: int)
    requires
        valid_divisors(pbr, br),
    ensures
        2 <= PRESCALERS@[pbr] <= 7,
        2 <= SCALERS@[br] <= 32768,
        4 <= PRESCALERS@[pbr] * SCALERS@[br] <= 229376,
{
    let s = SCALERS@;
    assert(s[0] == 2 && s[1] == 4 && s[2] == 6 && s[3] == 8 && s[4] == 16 && s[5] == 32);
    assert(s[6] == 64 && s[7] == 128 && s[8] == 256 && s[9] == 512 && s[10] == 1024);
    assert(s[11] == 2048 && s[12] == 4096 && s[13] == 8192 && s[14] == 16384 && s[15] == 32768);
    assert(4 <= PRESCALERS@[pbr] * SCALERS@[br] <= 229376) by (nonlinear_arith)
        requires
            2 <= PRESCALERS@[pbr] <= 7,
            2 <= SCALERS@[br] <= 32768,
    ;
}

/// `DBR`, `PBR` and `BR` for the highest SCK rate not above `frequency`.
pub fn baud_divisors(bus_hz: u32, frequency: u32) -> (r: Result<(bool, Pbr, u8), FrequencyError>)
    ensures
        match r {
            Ok((dbr, pbr, br)) => frequency != 0 && best_divisors(
                bus_hz as int,
                frequency as int,
                dbr,
                pbr.bits(),
                br as int,
            ),
            Err(FrequencyError::Zero) => frequency == 0,
            Err(FrequencyError::BelowMinimum) => frequency != 0 && forall|d: bool, p: int, b: int|
                valid_divisors(p, b) ==> #[trigger] sck_rate(bus_hz as int, d, p, b) > frequency,
        },
{
    if frequency == 0 {
        return Err(FrequencyError::Zero);
    }
    let mut best: Option<(u32, bool, u8, u8)> = None;
    let mut rank: usize = 0;
    while rank < 128
        invariant
            rank <= 128,
            match best {
                None => forall|d: bool, p: int, b: int|
                    valid_divisors(p, b) && divisors_rank(d, p, b) < rank ==> #[trigger] sck_rate(
                        bus_hz as int,
                        d,
                        p,
                        b,
                    ) > frequency,
                Some((error, dbr, pbr, br)) => {
                    &&& valid_divisors(pbr as int, br as int)
                    &&& divisors_rank(dbr, pbr as int, br as int) < rank
                    &&& sck_rate(bus_hz as int, dbr, pbr as int, br as int) + error == frequency
                    &&& forall|d: bool, p: int, b: int|
                        valid_divisors(p, b) && divisors_rank(d, p, b) < rank && #[trigger] sck_rate(
                            bus_hz as int,
                            d,
                            p,
                            b,
                        ) <= frequency ==> {
                            let rate = sck_rate(bus_hz as int, dbr, pbr as int, br as int);
                            ||| sck_rate(bus_hz as int, d, p, b) < rate
                            ||| sck_rate(bus_hz as int, d, p, b) == rate && divisors_rank(
                                dbr,
                                pbr as int,
                                br as int,
                            ) <= divisors_rank(d, p, b)
                        }
                },
            },
        decreases 128 - rank,
    {
        let pbr: usize = rank / 32;
        let br: usize = rank / 2 % 16;
        let dbr: bool = rank % 2 == 1;
        proof {
            lemma_tables(pbr as int, br as int);
        }
        let divisor: u64 = PRESCALERS[pbr] as u64 * SCALERS[br] as u64;
        let clock: u64 = bus_hz as u64 * (if dbr { 2 } else { 1 });
        assert(clock / divisor <= clock / 4) by (nonlinear_arith)
            requires
                divisor >= 4,
        ;
        let rate: u32 = (clock / divisor) as u32;
        assert(rate == sck_rate(bus_hz as int, dbr, pbr as int, br as int));
        assert(rank == divisors_rank(dbr, pbr as int, br as int));
        assert forall|d: bool, p: int, b: int|
            valid_divisors(p, b) && divisors_rank(d, p, b) == rank implies d == dbr && p == pbr && b
            == br by {}
        if rate <= frequency {
            let error: u32 = frequency - rate;
            let better: bool = match best {
                None => true,
                Some((best_error, _, _, _)) => error < best_error,
            };
            if better {
                best = Some((error, dbr, pbr as u8, br as u8));
            }
        }
        rank = rank + 1;
    }
    match best {
        None => Err(FrequencyError::BelowMinimum),
        Some((_, dbr, pbr, br)) => Ok((dbr, Pbr::from_bits(pbr), br)),
    }
}

impl FrequencyError {
    /// What to tell the user.
    pub fn message(self) -> (r: &'static str)
        ensures
            match self {
                FrequencyError::Zero => r@ == "SPI frequency must be greater than zero"@,
                FrequencyError::BelowMinimum => r@
                    == "requested SPI frequency is below the hardware minimum"@,
            },
    {
        match self {
            FrequencyError::Zero => "SPI frequency must be greater than zero",
            FrequencyError::BelowMinimum => "requested SPI frequency is below the hardware minimum",
        }
    }
}

/// The best divisors are unique.
pub proof fn law_best_divisors_are_unique(
    bus_hz: int,
    frequency: int,
    a: (bool, int, int),
    b: (bool, int, int),
)
    requires
        best_divisors(bus_hz, frequency, a.0, a.1, a.2),
        best_divisors(bus_hz, frequency, b.0, b.1, b.2),
    ensures
        a == b,
{
    assert(sck_rate(bus_hz, a.0, a.1, a.2) == sck_rate(bus_hz, b.0, b.1, b.2));
}

/// The attributes of a configuration with given divisors: 8-bit frames.
pub open spec fn attributes(config: Config, dbr: bool, pbr: Pbr, br: u8) -> Ctar {
    Ctar {
        fmsz: 7,
        cpol: config.polarity == Polarity::IdleHigh,
        cpha: config.phase == Phase::CaptureOnSecondTransition,
        lsbfe: config.bit_order == BitOrder::LsbFirst,
        dbr,
        pbr,
        br,
    }
}

/// Accesses that connect a line, where it is used.
pub open spec fn line_program(line: Line, mux: Option<Mux>) -> Seq<Op> {
    match mux {
        Some(mux) => seq![Op::SetMux { line, mux }],
        None => seq![],
    }
}

/// Accesses that set the module up: halted while configuring.
pub open spec fn init_program(
    ctar: Ctar,
    sck: Mux,
    mosi: Option<Mux>,
    miso: Option<Mux>,
) -> Seq<Op> {
    seq![Op::EnableClock, Op::WriteMcrHalted, Op::WriteCtar(ctar)] + line_program(
        Line::Sck,
        Some(sck),
    ) + line_program(Line::Mosi, mosi) + line_program(Line::Miso, miso) + seq![
        Op::WriteSr(SR_W1C),
        Op::Run,
    ]
}

/// Whether a program sets the module up for a configuration.
pub open spec fn sets_up(
    ops: Seq<Op>,
    bus_hz: u32,
    sck: Mux,
    mosi: Option<Mux>,
    miso: Option<Mux>,
    config: Config,
) -> bool {
    exists|dbr: bool, pbr: Pbr, br: u8|
        #![trigger attributes(config, dbr, pbr, br)]
        best_divisors(bus_hz as int, config.frequency as int, dbr, pbr.bits(), br as int) && ops
            == init_program(attributes(config, dbr, pbr, br), sck, mosi, miso)
}

/// Whether no rate can be chosen, and why.
pub open spec fn no_rate(bus_hz: u32, frequency: u32, e: FrequencyError) -> bool {
    match e {
        FrequencyError::Zero => frequency == 0,
        FrequencyError::BelowMinimum => frequency != 0 && forall|d: bool, p: int, b: int|
            valid_divisors(p, b) ==> #[trigger] sck_rate(bus_hz as int, d, p, b) > frequency,
    }
}

/// Sets the module up; the `Mux` values are the alternatives that connect the pins to it.
pub fn init(
    bus_hz: u32,
    sck: Mux,
    mosi: Option<Mux>,
    miso: Option<Mux>,
    config: &Config,
) -> (r: Result<Vec<Op>, FrequencyError>)
    ensures
        match r {
            Ok(ops) => config.frequency != 0 && sets_up(ops@, bus_hz, sck, mosi, miso, *config),
            Err(e) => no_rate(bus_hz, config.frequency, e),
        },
{
    let (dbr, pbr, br): (bool, Pbr, u8) = match baud_divisors(bus_hz, config.frequency) {
        Ok(divisors) => divisors,
        Err(e) => return Err(e),
    };
    let ctar: Ctar = Ctar {
        fmsz: 7,
        cpol: config.polarity == Polarity::IdleHigh,
        cpha: config.phase == Phase::CaptureOnSecondTransition,
        lsbfe: config.bit_order == BitOrder::LsbFirst,
        dbr,
        pbr,
        br,
    };
    assert(ctar == attributes(*config, dbr, pbr, br));
    let mut ops: Vec<Op> = vec![
        Op::EnableClock,
        Op::WriteMcrHalted,
        Op::WriteCtar(ctar),
        Op::SetMux { line: Line::Sck, mux: sck },
    ];
    if let Some(mux) = mosi {
        ops.push(Op::SetMux { line: Line::Mosi, mux });
    }
    if let Some(mux) = miso {
        ops.push(Op::SetMux { line: Line::Miso, mux });
    }
    ops.push(Op::WriteSr(SR_W1C));
    ops.push(Op::Run);
    assert(ops@ =~= init_program(ctar, sck, mosi, miso));
    Ok(ops)
}

/// Accesses that let a module raise its interrupt.
pub open spec fn interrupt_program(source: Option<u8>) -> Seq<Op> {
    (match source {
        Some(input) => seq![Op::EnableSource(input)],
        None => seq![],
    }) + seq![Op::UnpendInterrupt, Op::EnableInterrupt]
}

/// Lets the module raise its interrupt. `source` is the input number on the interrupt multiplexer of
/// a module that has no interrupt line of its own.
pub fn enable_interrupt(source: Option<u8>) -> (r: Vec<Op>)
    ensures
        r@ == interrupt_program(source),
{
    let mut ops: Vec<Op> = Vec::new();
    if let Some(input) = source {
        ops.push(Op::EnableSource(input));
    }
    ops.push(Op::UnpendInterrupt);
    ops.push(Op::EnableInterrupt);
    assert(ops@ =~= interrupt_program(source));
    ops
}

/// What to do about the receive FIFO.
#[derive(Clone, Copy, Debug, PartialEq, Eq, Structural)]
pub enum Poll {
    /// It holds a frame: go on.
    Ready,
    /// Register the waker, unmask the interrupt (`RSER[RFDF_RE] = 1`, atomically) and sleep.
    Sleep,
    /// Look again.
    Spin,
}

/// SPI master driver.
#[derive(Clone, Copy, Debug, PartialEq, Eq, Structural)]
pub struct Spi {
    info: Info,
    /// Sleep on the interrupt rather than poll.
    interrupt: bool,
    /// Transfers go by DMA.
    dma: bool,
}

impl Spi {
    /// Entries of the FIFOs.
    pub closed spec fn fifo_depth(&self) -> u8 {
        self.info.fifo_depth
    }

    /// Whether the driver sleeps on the interrupt.
    pub closed spec fn sleeps(&self) -> bool {
        self.interrupt
    }

    /// Whether the driver has DMA channels.
    pub closed spec fn has_dma(&self) -> bool {
        self.dma
    }

    /// Create a blocking master, full-duplex where it has both MOSI and MISO.
    pub fn new_blocking(
        info: Info,
        bus_hz: u32,
        sck: Mux,
        mosi: Option<Mux>,
        miso: Option<Mux>,
        config: Config,
    ) -> (r: Result<(Self, Vec<Op>), FrequencyError>)
        ensures
            match r {
                Ok((spi, ops)) => {
                    &&& config.frequency != 0
                    &&& spi.fifo_depth() == info.fifo_depth
                    &&& !spi.sleeps()
                    &&& !spi.has_dma()
                    &&& sets_up(ops@, bus_hz, sck, mosi, miso, config)
                },
                Err(e) => no_rate(bus_hz, config.frequency, e),
            },
    {
        match init(bus_hz, sck, mosi, miso, &config) {
            Ok(ops) => Ok((Spi { info, interrupt: false, dma: false }, ops)),
            Err(e) => Err(e),
        }
    }

    /// Create an async master, full-duplex where it has both MOSI and MISO.
    /// `source` is the input number on the interrupt multiplexer of a module that has no interrupt
    /// line of its own.
    pub fn new(
        info: Info,
        bus_hz: u32,
        sck: Mux,
        mosi: Option<Mux>,
        miso: Option<Mux>,
        source: Option<u8>,
        config: Config,
    ) -> (r: Result<(Self, Vec<Op>), FrequencyError>)
        ensures
            match r {
                Ok((spi, ops)) => {
                    &&& config.frequency != 0
                    &&& spi.fifo_depth() == info.fifo_depth
                    &&& spi.sleeps()
                    &&& !spi.has_dma()
                    &&& exists|setup: Seq<Op>|
                        sets_up(setup, bus_hz, sck, mosi, miso, config) && ops@ == setup
                            + #[trigger] interrupt_program(source)
                },
                Err(e) => no_rate(bus_hz, config.frequency, e),
            },
    {
        match init(bus_hz, sck, mosi, miso, &config) {
            Ok(mut ops) => {
                let ghost setup = ops@;
                let mut enable: Vec<Op> = enable_interrupt(source);
                ops.append(&mut enable);
                assert(ops@ == setup + interrupt_program(source));
                Ok((Spi { info, interrupt: true, dma: false }, ops))
            },
            Err(e) => Err(e),
        }
    }

    /// Create a blocking transmit-only master (no MISO pin).
    pub fn new_blocking_txonly(info: Info, bus_hz: u32, sck: Mux, mosi: Mux, config: Config) -> (r: Result<
        (Self, Vec<Op>),
        FrequencyError,
    >)
        ensures
            match r {
                Ok((spi, ops)) => {
                    &&& config.frequency != 0
                    &&& spi.fifo_depth() == info.fifo_depth
                    &&& !spi.sleeps()
                    &&& !spi.has_dma()
                    &&& sets_up(ops@, bus_hz, sck, Some(mosi), None, config)
                },
                Err(e) => no_rate(bus_hz, config.frequency, e),
            },
    {
        Spi::new_blocking(info, bus_hz, sck, Some(mosi), None, config)
    }

    /// Create a blocking receive-only master (no MOSI pin).
    pub fn new_blocking_rxonly(info: Info, bus_hz: u32, sck: Mux, miso: Mux, config: Config) -> (r: Result<
        (Self, Vec<Op>),
        FrequencyError,
    >)
        ensures
            match r {
                Ok((spi, ops)) => {
                    &&& config.frequency != 0
                    &&& spi.fifo_depth() == info.fifo_depth
                    &&& !spi.sleeps()
                    &&& !spi.has_dma()
                    &&& sets_up(ops@, bus_hz, sck, None, Some(miso), config)
                },
                Err(e) => no_rate(bus_hz, config.frequency, e),
            },
    {
        Spi::new_blocking(info, bus_hz, sck, None, Some(miso), config)
    }

    /// Create an async transmit-only master (no MISO pin).
    pub fn new_txonly(
        info: Info,
        bus_hz: u32,
        sck: Mux,
        mosi: Mux,
        source: Option<u8>,
        config: Config,
    ) -> (r: Result<(Self, Vec<Op>), FrequencyError>)
        ensures
            match r {
                Ok((spi, ops)) => {
                    &&& config.frequency != 0
                    &&& spi.fifo_depth() == info.fifo_depth
                    &&& spi.sleeps()
                    &&& !spi.has_dma()
                    &&& exists|setup: Seq<Op>|
                        sets_up(setup, bus_hz, sck, Some(mosi), None, config) && ops@ == setup
                            + #[trigger] interrupt_program(source)
                },
                Err(e) => no_rate(bus_hz, config.frequency, e),
            },
    {
        Spi::new(info, bus_hz, sck, Some(mosi), None, source, config)
    }

    /// Create an async receive-only master (no MOSI pin).
    pub fn new_rxonly(
        info: Info,
        bus_hz: u32,
        sck: Mux,
        miso: Mux,
        source: Option<u8>,
        config: Config,
    ) -> (r: Result<(Self, Vec<Op>), FrequencyError>)
        ensures
            match r {
                Ok((spi, ops)) => {
                    &&& config.frequency != 0
                    &&& spi.fifo_depth() == info.fifo_depth
                    &&& spi.sleeps()
                    &&& !spi.has_dma()
                    &&& exists|setup: Seq<Op>|
                        sets_up(setup, bus_hz, sck, None, Some(miso), config) && ops@ == setup
                            + #[trigger] interrupt_program(source)
                },
                Err(e) => no_rate(bus_hz, config.frequency, e),
            },
    {
        Spi::new(info, bus_hz, sck, None, Some(miso), source, config)
    }

    /// Create a full-duplex master whose FIFOs are fed and drained by DMA. No interrupt is needed:
    /// completion comes from the DMA controller.
    pub fn new_with_dma(
        info: Info,
        bus_hz: u32,
        sck: Mux,
        mosi: Mux,
        miso: Mux,
        config: Config,
    ) -> (r: Result<(Self, Vec<Op>), FrequencyError>)
        ensures
            match r {
                Ok((spi, ops)) => {
                    &&& config.frequency != 0
                    &&& spi.fifo_depth() == info.fifo_depth
                    &&& !spi.sleeps()
                    &&& spi.has_dma()
                    &&& sets_up(ops@, bus_hz, sck, Some(mosi), Some(miso), config)
                },
                Err(e) => no_rate(bus_hz, config.frequency, e),
            },
    {
        match init(bus_hz, sck, Some(mosi), Some(miso), &config) {
            Ok(ops) => Ok((Spi { info, interrupt: false, dma: true }, ops)),
            Err(e) => Err(e),
        }
    }

    /// Whether transfers go by DMA; see [`transfer::dma_chunks`] for those.
    pub fn uses_dma(&self) -> (r: bool)
        ensures
            r == self.has_dma(),
    {
        self.dma
    }

    /// Clock `write` out and `read` in at the same time. The longer one sets the length; the
    /// shorter one is padded with 0xFF on the way out or dropped on the way in.
    pub fn transfer(&self, read: Vec<u8>, write: Vec<u8>) -> (r: (Transfer, Vec<Op>))
        requires
            self.fifo_depth() >= 1,
        ensures
            r.0.wf(),
            r.0.state() == transfer::initial_state(
                transfer::padded(
                    write@,
                    if read@.len() >= write@.len() {
                        read@.len()
                    } else {
                        write@.len()
                    },
                ),
                self.fifo_depth() as int,
            ),
            r.0.buffer() == read@,
            r.0.initial_buffer() == read@,
            r.1@ == transfer::begin_program(r.0.state().outgoing.len() as int),
    {
        Transfer::new(read, write, self.info.fifo_depth)
    }

    /// [`transfer`](Self::transfer) of `read_len` bytes in and `write_len` bytes out with the DMA
    /// channels.
    pub fn transfer_dma(&self, read_len: usize, write_len: usize) -> (r: (DmaTransfer, Vec<Op>))
        ensures
            r.0.wf(),
            (r.0.state(), r.1@) == transfer::dma_initial(read_len as int, write_len as int),
    {
        DmaTransfer::new(read_len, write_len)
    }

    /// Clock `data` out, replacing it with what comes in.
    pub fn transfer_in_place(&self, data: Vec<u8>) -> (r: (Transfer, Vec<Op>))
        requires
            self.fifo_depth() >= 1,
        ensures
            r.0.wf(),
            r.0.state() == transfer::initial_state(data@, self.fifo_depth() as int),
            r.0.buffer() == data@,
            r.0.initial_buffer() == data@,
            r.1@ == transfer::begin_program(data@.len() as int),
    {
        Transfer::new_in_place(data, self.info.fifo_depth)
    }

    /// Clock `data` out, discarding what comes in.
    pub fn write(&self, data: Vec<u8>) -> (r: (Transfer, Vec<Op>))
        requires
            self.fifo_depth() >= 1,
        ensures
            r.0.wf(),
            r.0.state() == transfer::initial_state(data@, self.fifo_depth() as int),
            r.0.buffer() == Seq::<u8>::empty(),
            r.0.initial_buffer() == Seq::<u8>::empty(),
            r.1@ == transfer::begin_program(data@.len() as int),
    {
        assert(transfer::padded(data@, data@.len()) =~= data@);
        self.transfer(Vec::new(), data)
    }

    /// Clock 0xFF out and fill `data` with what comes in.
    pub fn read(&self, data: Vec<u8>) -> (r: (Transfer, Vec<Op>))
        requires
            self.fifo_depth() >= 1,
        ensures
            r.0.wf(),
            r.0.state() == transfer::initial_state(
                Seq::new(data@.len(), |i: int| DUMMY),
                self.fifo_depth() as int,
            ),
            r.0.buffer() == data@,
            r.0.initial_buffer() == data@,
            r.1@ == transfer::begin_program(data@.len() as int),
    {
        assert(transfer::padded(Seq::empty(), data@.len()) =~= Seq::new(
            data@.len(),
            |i: int| DUMMY,
        ));
        self.transfer(data, Vec::new())
    }

    /// Whether the transmit FIFO has drained: `txctr` is `SR[TXCTR]`. Transfers already wait for
    /// every frame to come back, so this is so immediately after them.
    pub fn flush(&self, txctr: u8) -> (r: bool)
        ensures
            r == (txctr == 0),
    {
        txctr == 0
    }

    /// Looks for a frame in the receive FIFO: `rxctr` is `SR[RXCTR]`. `RFDF` is level sensitive
    /// (receive FIFO not empty), so a frame that lands before the interrupt is unmasked still
    /// raises it.
    pub fn wait_rx(&self, rxctr: u8) -> (r: Poll)
        ensures
            r == if rxctr != 0 {
                Poll::Ready
            } else if self.sleeps() {
                Poll::Sleep
            } else {
                Poll::Spin
            },
    {
        if rxctr != 0 {
            return Poll::Ready;
        }
        if self.interrupt {
            Poll::Sleep
        } else {
            Poll::Spin
        }
    }
}

/// Whether the interrupt handler masks the interrupt (`RSER[RFDF_RE] = 0`) and wakes the driver.
pub fn on_interrupt(rfdf_re: bool, rfdf: bool) -> (r: bool)
    ensures
        r == (rfdf_re && rfdf),
{
    rfdf_re && rfdf
}

} // verus!
