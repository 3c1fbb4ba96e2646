//! LPUART logic.

pub mod buffered;
pub mod hardware;
pub mod transfer;

use vstd::prelude::*;

use crate::clocks::Clocks;
use crate::clocks::Lpuartsrc;
use crate::gpio::Mux;
use crate::lpuart::transfer::DmaTransfer;
use crate::lpuart::transfer::Read;
use crate::lpuart::transfer::Write;

verus! {

/// Write-1-to-clear flags in STAT: LBKDIF, RXEDGIF, IDLE, OR, NF, FE, PF, MA1F, MA2F.
pub const STAT_W1C: u32 = 0xC01F_C000;

/// Serial error.
#[derive(Clone, Copy, Debug, PartialEq, Eq, Structural)]
#[non_exhaustive]
pub enum Error {
    /// The receive FIFO overflowed and data was lost.
    Overrun,
    /// The received character's parity did not match the configuration.
    Parity,
    /// The received character had no valid stop bit (also raised by a break).
    Framing,
    /// The receiver detected noise on the line.
    Noise,
    /// The DMA controller reported an error moving the data.
    Dma,
    /// Reception is suspended.
    Suspended,
}

/// The kinds of error that byte streams have in common.
#[derive(Clone, Copy, Debug, PartialEq, Eq, Structural)]
pub enum ErrorKind {
    InvalidData,
    Other,
}

impl Error {
    /// The kind of error that this is.
    pub fn kind(&self) -> (r: ErrorKind)
        ensures
            r == match *self {
                Error::Parity | Error::Framing => ErrorKind::InvalidData,
                Error::Overrun | Error::Noise | Error::Dma | Error::Suspended => ErrorKind::Other,
            },
    {
        match self {
            Error::Overrun => ErrorKind::Other,
            Error::Parity => ErrorKind::InvalidData,
            Error::Framing => ErrorKind::InvalidData,
            Error::Noise => ErrorKind::Other,
            Error::Dma => ErrorKind::Other,
            Error::Suspended => ErrorKind::Other,
        }
    }
}

/// Parity bit.
#[derive(Clone, Copy, Debug, PartialEq, Eq, Structural)]
pub enum Parity {
    /// No parity.
    ParityNone,
    /// Even parity.
    ParityEven,
    /// Odd parity.
    ParityOdd,
}

/// Stop bits.
#[derive(Clone, Copy, Debug, PartialEq, Eq, Structural)]
pub enum StopBits {
    /// 1 stop bit.
    Stop1,
    /// 2 stop bits.
    Stop2,
}

/// UART configuration. Frames always carry 8 data bits.
#[derive(Clone, Copy, Debug, PartialEq, Eq, Structural)]
pub struct Config {
    /// Baud rate. It is refused if the closest achievable rate is more than 3% off.
    pub baudrate: u32,
    /// Stop bits.
    pub stop_bits: StopBits,
    /// Parity bit.
    pub parity: Parity,
    /// Invert the TX pin output.
    pub invert_tx: bool,
    /// Invert the RX pin input.
    pub invert_rx: bool,
}

impl Default for Config {
    fn default() -> (r: Self)
        ensures
            r == (Config {
                baudrate: 115200,
                stop_bits: StopBits::Stop1,
                parity: Parity::ParityNone,
                invert_tx: false,
                invert_rx: false,
            }),
    {
        Config {
            baudrate: 115200,
            stop_bits: StopBits::Stop1,
            parity: Parity::ParityNone,
            invert_tx: false,
            invert_rx: false,
        }
    }
}

/// Receive error flags of `STAT`.
#[derive(Clone, Copy, Debug, PartialEq, Eq, Structural)]
pub struct Flags {
    pub or: bool,
    pub fe: bool,
    pub pf: bool,
    pub nf: bool,
}

/// A pin of the module.
#[derive(Clone, Copy, Debug, PartialEq, Eq, Structural)]
pub enum Line {
    Tx,
    Rx,
}

/// Control fields (`CTRL`).
#[derive(Clone, Copy, Debug, PartialEq, Eq, Structural)]
pub struct Ctrl {
    pub m: bool,
    pub pe: bool,
    pub pt: bool,
    pub txinv: bool,
    pub te: bool,
    pub re: bool,
}

/// Baud rate fields (`BAUD`).
#[derive(Clone, Copy, Debug, PartialEq, Eq, Structural)]
pub struct Baud {
    pub osr: u8,
    pub sbr: u16,
    pub bothedge: bool,
    pub sbns: bool,
}

/// A register access of the LPUART driver. Fields that an access does not name keep their value,
/// unless it is described as a write of the whole register. Accesses to `CTRL` are made atomically
/// with respect to the interrupt handler.
#[derive(Clone, Copy, Debug, PartialEq, Eq, Structural)]
pub enum Op {
    /// `SIM_SOPT2[LPUARTSRC]`; the register is shared, so atomically.
    SelectSource(Lpuartsrc),
    /// Open the clock gate of the module.
    EnableClock,
    /// Write zero to `CTRL`.
    ResetCtrl,
    /// Write the whole of `BAUD`.
    WriteBaud(Baud),
    /// Write the whole of `STAT`: clear every flag, and `RXINV`.
    ResetStat { rxinv: bool },
    /// `FIFO[TXFE]`, `FIFO[RXFE]`, `FIFO[TXFLUSH]` and `FIFO[RXFLUSH]` set.
    EnableFifos,
    /// Write the whole of `WATER`: both watermarks zero, so `TDRE` when the transmit FIFO is empty
    /// and `RDRF` as soon as one byte is in the receive FIFO.
    ResetWater,
    /// `PCR[MUX]` of a pin.
    SetMux { line: Line, mux: Mux },
    /// Write the whole of `CTRL`.
    WriteCtrl(Ctrl),
    /// Route the interrupt through the multiplexer.
    EnableSource(u8),
    /// Clear a pending interrupt at the NVIC.
    UnpendInterrupt,
    /// Enable the interrupt at the NVIC.
    EnableInterrupt,
    /// Write `DATA`.
    WriteData(u8),
    /// Clear these flags in `STAT`; see [`clear_stat`].
    ClearStat(Flags),
    /// `BAUD[TDMAE]`.
    SetTdmae(bool),
    /// `BAUD[RDMAE]`.
    SetRdmae(bool),
    /// Start the DMA channel on a part of the buffer.
    StartDma { offset: usize, len: usize },
    /// Stop reception: mask its interrupts, disable the receiver and disconnect its pin.
    DisconnectRx,
    /// Connect the pin of the receiver, discard what the FIFO holds and its errors, and enable it.
    ConnectRx,
    /// `CTRL[RIE]` and `CTRL[ORIE]` set.
    ArmRx,
}

/// A character from the receive FIFO: the error flags travel with it.
#[derive(Clone, Copy, Debug, PartialEq, Eq, Structural)]
pub struct Character {
    pub byte: u8,
    pub fretsc: bool,
    pub paritye: bool,
    pub noisy: bool,
}

/// What a character is: its byte, or the first of its errors.
pub open spec fn character_result(c: Character) -> Result<u8, Error> {
    if c.fretsc {
        Err(Error::Framing)
    } else if c.paritye {
        Err(Error::Parity)
    } else if c.noisy {
        Err(Error::Noise)
    } else {
        Ok(c.byte)
    }
}

/// What a character is: its byte, or the first of its errors.
pub fn character(c: Character) -> (r: Result<u8, Error>)
    ensures
        r == character_result(c),
{
    if c.fretsc {
        Err(Error::Framing)
    } else if c.paritye {
        Err(Error::Parity)
    } else if c.noisy {
        Err(Error::Noise)
    } else {
        Ok(c.byte)
    }
}

/// Baud rate in Hz, rounded down, for an oversampling ratio and a modulo divisor.
pub open spec fn baud_rate(src: int, osr: int, sbr: int) -> int {
    src / (osr * sbr)
}

/// How far a pair of divisors is from the requested baud rate.
pub open spec fn baud_error(src: int, baudrate: int, osr: int, sbr: int) -> int {
    let rate = baud_rate(src, osr, sbr);
    if rate >= baudrate {
        rate - baudrate
    } else {
        baudrate - rate
    }
}

/// Largest value of the 13-bit `SBR` field.
pub const MAX_SBR: u32 = 0x1FFF;

/// Whether the fields can hold an oversampling ratio and a modulo divisor.
pub open spec fn legal_divisors(osr: int, sbr: int) -> bool {
    4 <= osr <= 32 && 1 <= sbr <= MAX_SBR
}

/// The ideal modulo divisor for one oversampling ratio, rounded down and brought into the range of
/// the field.
pub open spec fn ideal_sbr(src: int, baudrate: int, osr: int) -> int {
    let ideal = src / (baudrate * osr);
    if ideal < 1 {
        1
    } else if ideal > MAX_SBR {
        MAX_SBR as int
    } else {
        ideal
    }
}

/// The modulo divisor for one oversampling ratio: the ideal one rounded down, or the next one if
/// that is strictly closer and the field can hold it.
pub open spec fn nearest_sbr(src: int, baudrate: int, osr: int) -> int {
    let sbr = ideal_sbr(src, baudrate, osr);
    if sbr < MAX_SBR && baud_error(src, baudrate, osr, sbr + 1) < baud_error(
        src,
        baudrate,
        osr,
        sbr,
    ) {
        sbr + 1
    } else {
        sbr
    }
}

/// Whether no legal divisors come closer to the requested baud rate than these, and none with a
/// higher oversampling ratio come as close.
pub open spec fn best_divisors(src: int, baudrate: int, osr: int, sbr: int) -> bool {
    &&& legal_divisors(osr, sbr)
    &&& sbr == nearest_sbr(src, baudrate, osr)
    &&& forall|o: int, s: int| #[trigger]
        legal_divisors(o, s) ==> {
            ||| baud_error(src, baudrate, osr, sbr) < baud_error(src, baudrate, o, s)
            ||| baud_error(src, baudrate, osr, sbr) == baud_error(src, baudrate, o, s) && o <= osr
        }
}

/// Whether a pair of divisors misses the requested baud rate by more than 3%.
pub open spec fn too_far_off(src: int, baudrate: int, osr: int, sbr: int) -> bool {
    100 * baud_error(src, baudrate, osr, sbr) > 3 * baudrate
}

/// How far a pair of divisors is from the requested baud rate.
fn rate_error(src: u32, baudrate: u32, osr: u32, sbr: u32) -> (r: u32)
    requires
        legal_divisors(osr as int, sbr as int),
    ensures
        r == baud_error(src as int, baudrate as int, osr as int, sbr as int),
{
    assert(4 <= osr * sbr <= 32 * 0x1FFF) by (nonlinear_arith)
        requires
            4 <= osr <= 32,
            1 <= sbr <= 0x1FFF,
    ;
    let rate: u32 = src / (osr * sbr);
    if rate >= baudrate {
        rate - baudrate
    } else {
        baudrate - rate
    }
}

/// The modulo divisor for one oversampling ratio, and how far it is from the requested baud rate.
fn closest_sbr(src: u32, baudrate: u32, osr: u32) -> (r: (u32, u32))
    requires
        baudrate > 0,
        baudrate * 32 <= u32::MAX,
        4 <= osr <= 32,
    ensures
        1 <= r.0 <= MAX_SBR,
        r.0 == nearest_sbr(src as int, baudrate as int, osr as int),
        r.1 == baud_error(src as int, baudrate as int, osr as int, r.0 as int),
{
    assert(4 <= baudrate * osr <= baudrate * 32) by (nonlinear_arith)
        requires
            baudrate > 0,
            4 <= osr <= 32,
    ;
    let ideal: u32 = src / (baudrate * osr);
    let sbr: u32 = if ideal < 1 {
        1
    } else if ideal > MAX_SBR {
        MAX_SBR
    } else {
        ideal
    };
    let diff: u32 = rate_error(src, baudrate, osr, sbr);
    if sbr < MAX_SBR {
        let diff_next: u32 = rate_error(src, baudrate, osr, sbr + 1);
        if diff_next < diff {
            return (sbr + 1, diff_next);
        }
    }
    (sbr, diff)
}

/// Oversampling ratio and baud rate modulo divisor for `baudrate` from the `src` clock, picking
/// the pair with the smallest error, and of several such pairs the one with the highest ratio.
/// `None` if the error exceeds 3%.
pub fn baud_divisors(src: u32, baudrate: u32) -> (r: Option<(u8, u16)>)
    requires
        baudrate > 0,
        baudrate * 32 <= u32::MAX,
    ensures
        match r {
            Some((osr, sbr)) => {
                &&& best_divisors(src as int, baudrate as int, osr as int, sbr as int)
                &&& !too_far_off(src as int, baudrate as int, osr as int, sbr as int)
            },
            None => forall|o: int, s: int| #[trigger]
                legal_divisors(o, s) ==> too_far_off(src as int, baudrate as int, o, s),
        },
{
    let (first_sbr, first_diff): (u32, u32) = closest_sbr(src, baudrate, 4);
    let mut best_osr: u32 = 4;
    let mut best_sbr: u32 = first_sbr;
    let mut best_diff: u32 = first_diff;
    proof {
        lemma_closest_for(src as int, baudrate as int, 4);
    }
    let mut osr: u32 = 5;
    while osr <= 32
        invariant
            baudrate > 0,
            baudrate * 32 <= u32::MAX,
            5 <= osr <= 33,
            4 <= best_osr < osr,
            legal_divisors(best_osr as int, best_sbr as int),
            best_sbr == nearest_sbr(src as int, baudrate as int, best_osr as int),
            best_diff == baud_error(src as int, baudrate as int, best_osr as int, best_sbr as int),
            forall|o: int, s: int| #[trigger]
                legal_divisors(o, s) && o < osr ==> {
                    ||| best_diff < baud_error(src as int, baudrate as int, o, s)
                    ||| best_diff == baud_error(src as int, baudrate as int, o, s) && o <= best_osr
                },
        decreases 33 - osr,
    {
        let (sbr, diff): (u32, u32) = closest_sbr(src, baudrate, osr);
        proof {
            lemma_closest_for(src as int, baudrate as int, osr as int);
        }
        if diff <= best_diff {
            best_osr = osr;
            best_sbr = sbr;
            best_diff = diff;
        }
        osr = osr + 1;
    }
    if best_diff as u64 * 100 <= baudrate as u64 * 3 {
        Some((best_osr as u8, best_sbr as u16))
    } else {
        None
    }
}

proof fn lemma_closest_for(src: int, baudrate: int, osr: int)
    requires
        src >= 0,
        baudrate > 0,
        4 <= osr <= 32,
    ensures
        legal_divisors(osr, nearest_sbr(src, baudrate, osr)),
        forall|s: int| #[trigger]
            legal_divisors(osr, s) ==> baud_error(
                src,
                baudrate,
                osr,
                nearest_sbr(src, baudrate, osr),
            ) <= baud_error(src, baudrate, osr, s),
{
    assert forall|s: int| #[trigger] legal_divisors(osr, s) implies baud_error(
        src,
        baudrate,
        osr,
        nearest_sbr(src, baudrate, osr),
    ) <= baud_error(src, baudrate, osr, s) by {
        law_nearest_sbr_is_closest(src, baudrate, osr, s);
    }
}

/// There is one best pair of divisors for a baud rate.
pub proof fn law_best_divisors_are_unique(
    src: int,
    baudrate: int,
    osr: int,
    sbr: int,
    other_osr: int,
    other_sbr: int,
)
    requires
        best_divisors(src, baudrate, osr, sbr),
        best_divisors(src, baudrate, other_osr, other_sbr),
    ensures
        osr == other_osr,
        sbr == other_sbr,
{
}

/// For one oversampling ratio, no legal modulo divisor comes closer to the requested baud rate than
/// [`nearest_sbr`].
pub proof fn law_nearest_sbr_is_closest(src: int, baudrate: int, osr: int, sbr: int)
    requires
        src >= 0,
        baudrate > 0,
        legal_divisors(osr, sbr),
    ensures
        legal_divisors(osr, nearest_sbr(src, baudrate, osr)),
        baud_error(src, baudrate, osr, nearest_sbr(src, baudrate, osr)) <= baud_error(
            src,
            baudrate,
            osr,
            sbr,
        ),
{
    let step = baudrate * osr;
    assert(step > 0) by (nonlinear_arith)
        requires
            step == baudrate * osr,
            baudrate > 0,
            osr > 0,
    ;
    let ideal = src / step;
    let low = ideal_sbr(src, baudrate, osr);
    vstd::arithmetic::div_mod::lemma_fundamental_div_mod(src, step);
    vstd::arithmetic::div_mod::lemma_mod_bound(src, step);
    // At or below `ideal` the rate is at least the requested one, above it at most that.
    if sbr <= low {
        lemma_rate_decreases(src, osr, sbr, low);
        if ideal >= 1 {
            assert(step * low <= src) by (nonlinear_arith)
                requires
                    step * ideal <= src,
                    low <= ideal,
                    step > 0,
            ;
            lemma_rate_at_least(src, baudrate, osr, low);
        }
    } else {
        lemma_rate_decreases(src, osr, low + 1, sbr);
        assert(src < step * (low + 1)) by (nonlinear_arith)
            requires
                src < step * ideal + step,
                ideal <= low,
                step > 0,
        ;
        lemma_rate_at_most(src, baudrate, osr, low + 1);
    }
}

proof fn lemma_rate_decreases(src: int, osr: int, a: int, b: int)
    requires
        src >= 0,
        osr > 0,
        1 <= a <= b,
    ensures
        baud_rate(src, osr, b) <= baud_rate(src, osr, a),
{
    assert(0 < osr * a <= osr * b) by (nonlinear_arith)
        requires
            osr > 0,
            1 <= a <= b,
    ;
    vstd::arithmetic::div_mod::lemma_div_is_ordered_by_denominator(src, osr * a, osr * b);
}

proof fn lemma_rate_at_least(src: int, baudrate: int, osr: int, sbr: int)
    requires
        baudrate > 0,
        osr > 0,
        sbr >= 1,
        baudrate * osr * sbr <= src,
    ensures
        baud_rate(src, osr, sbr) >= baudrate,
{
    let d = osr * sbr;
    assert(d > 0 && baudrate * d == baudrate * osr * sbr) by (nonlinear_arith)
        requires
            d == osr * sbr,
            osr > 0,
            sbr >= 1,
    ;
    vstd::arithmetic::div_mod::lemma_div_is_ordered(baudrate * d, src, d);
    vstd::arithmetic::div_mod::lemma_div_by_multiple(baudrate, d);
}

proof fn lemma_rate_at_most(src: int, baudrate: int, osr: int, sbr: int)
    requires
        baudrate > 0,
        osr > 0,
        sbr >= 1,
        src < baudrate * osr * sbr,
    ensures
        baud_rate(src, osr, sbr) <= baudrate,
{
    let d = osr * sbr;
    assert(d > 0 && baudrate * d == baudrate * osr * sbr) by (nonlinear_arith)
        requires
            d == osr * sbr,
            osr > 0,
            sbr >= 1,
    ;
    vstd::arithmetic::div_mod::lemma_div_is_ordered(src, baudrate * d, d);
    vstd::arithmetic::div_mod::lemma_div_by_multiple(baudrate, d);
}

/// What to write to `STAT`, which reads `stat`, to clear the write-1-to-clear flags selected by
/// `mask` without disturbing the others.
pub fn clear_stat(stat: u32, mask: u32) -> (r: u32)
    ensures
        r == (stat & !STAT_W1C) | (mask & STAT_W1C),
{
    (stat & !STAT_W1C) | (mask & STAT_W1C)
}

/// `STAT` after a write, of which the write-1-to-clear flags clear where a one is written and stay
/// otherwise.
pub open spec fn stat_after(stat: u32, written: u32) -> u32 {
    (written & !STAT_W1C) | (stat & STAT_W1C & !written)
}

/// Clearing flags clears those selected, and leaves every other flag and setting as it was.
pub proof fn law_clear_stat(stat: u32, mask: u32)
    ensures
        stat_after(stat, (stat & !STAT_W1C) | (mask & STAT_W1C)) == stat & !(mask & STAT_W1C),
{
    assert((((stat & !0xC01F_C000u32) | (mask & 0xC01F_C000u32)) & !0xC01F_C000u32) | (stat
        & 0xC01F_C000u32 & !((stat & !0xC01F_C000u32) | (mask & 0xC01F_C000u32))) == stat & !(mask
        & 0xC01F_C000u32)) by (bit_vector);
}

/// Entries of the transmit FIFO for a `FIFO[TXFIFOSIZE]` value.
pub open spec fn fifo_size(txfifosize: u8) -> int {
    if txfifosize == 0 {
        1
    } else if txfifosize == 1 {
        4
    } else if txfifosize == 2 {
        8
    } else if txfifosize == 3 {
        16
    } else if txfifosize == 4 {
        32
    } else if txfifosize == 5 {
        64
    } else {
        128
    }
}

/// Entries of the transmit FIFO: `txfifosize` is `FIFO[TXFIFOSIZE]`.
pub fn tx_fifo_size(txfifosize: u8) -> (r: u8)
    requires
        txfifosize <= 6,
    ensures
        r == fifo_size(txfifosize),
        r >= 1,
{
    match txfifosize {
        0 => 1,
        n => {
            assert(1u8 << 2u8 == 4 && 1u8 << 3u8 == 8 && 1u8 << 4u8 == 16 && 1u8 << 5u8 == 32 && 1u8
                << 6u8 == 64 && 1u8 << 7u8 == 128) by (bit_vector);
            1u8 << (n + 1)
        },
    }
}

/// The control fields of a configuration. With parity the frame grows to 9 bits: 8 data plus the
/// parity bit.
pub open spec fn control(config: Config, tx: bool, rx: bool) -> Ctrl {
    Ctrl {
        m: config.parity != Parity::ParityNone,
        pe: config.parity != Parity::ParityNone,
        pt: config.parity == Parity::ParityOdd,
        txinv: config.invert_tx,
        te: tx,
        re: rx,
    }
}

/// The baud rate fields of a configuration with given divisors. Sampling on both edges is required
/// for oversampling ratios below 8.
pub open spec fn baud(config: Config, osr: u8, sbr: u16) -> Baud {
    Baud {
        osr: (osr - 1) as u8,
        sbr,
        bothedge: osr < 8,
        sbns: config.stop_bits == StopBits::Stop2,
    }
}

/// Accesses that connect a pin, where it is used.
pub open spec fn line_program(line: Line, mux: Option<Mux>) -> Seq<Op> {
    match mux {
        Some(mux) => seq![Op::SetMux { line, mux }],
        None => seq![],
    }
}

/// Accesses that set the module up: everything off while configuring.
pub open spec fn init_program(
    source: Lpuartsrc,
    fields: Baud,
    tx: Option<Mux>,
    rx: Option<Mux>,
    config: Config,
) -> Seq<Op> {
    seq![
        Op::SelectSource(source),
        Op::EnableClock,
        Op::ResetCtrl,
        Op::WriteBaud(fields),
        Op::ResetStat { rxinv: config.invert_rx },
        Op::EnableFifos,
        Op::ResetWater,
    ] + line_program(Line::Tx, tx) + line_program(Line::Rx, rx) + seq![
        Op::WriteCtrl(control(config, tx is Some, rx is Some)),
    ]
}

/// Whether a pair of divisors is the one for a baud rate, and close enough.
pub open spec fn fitting_divisors(src: u32, baudrate: u32, osr: u8, sbr: u16) -> bool {
    &&& best_divisors(src as int, baudrate as int, osr as int, sbr as int)
    &&& !too_far_off(src as int, baudrate as int, osr as int, sbr as int)
}

/// Whether no pair of divisors comes close enough to a baud rate.
pub open spec fn unachievable(src: u32, baudrate: u32) -> bool {
    forall|o: int, s: int| #[trigger]
        legal_divisors(o, s) ==> too_far_off(src as int, baudrate as int, o, s)
}

/// The clock source of the LPUARTs.
pub open spec fn clock_source(clocks: Clocks) -> Lpuartsrc {
    if clocks.pllfll == 0 {
        Lpuartsrc::_11
    } else {
        Lpuartsrc::_01
    }
}

/// Sets the module up with given baud rate fields.
fn configure(
    source: Lpuartsrc,
    fields: Baud,
    tx: Option<Mux>,
    rx: Option<Mux>,
    config: &Config,
) -> (r: Vec<Op>)
    ensures
        r@ == init_program(source, fields, tx, rx, *config),
{
    let mut ops: Vec<Op> = vec![
        Op::SelectSource(source),
        Op::EnableClock,
        Op::ResetCtrl,
        Op::WriteBaud(fields),
        Op::ResetStat { rxinv: config.invert_rx },
        Op::EnableFifos,
        Op::ResetWater,
    ];
    if let Some(mux) = tx {
        ops.push(Op::SetMux { line: Line::Tx, mux });
    }
    if let Some(mux) = rx {
        ops.push(Op::SetMux { line: Line::Rx, mux });
    }
    ops.push(
        Op::WriteCtrl(
            Ctrl {
                m: config.parity != Parity::ParityNone,
                pe: config.parity != Parity::ParityNone,
                pt: config.parity == Parity::ParityOdd,
                txinv: config.invert_tx,
                te: tx.is_some(),
                re: rx.is_some(),
            },
        ),
    );
    assert(ops@ =~= init_program(source, fields, tx, rx, *config));
    ops
}

/// Clock, baud, frame and pin setup shared by all constructors; nothing if the closest achievable
/// baud rate is more than 3% off.
pub fn init(clocks: &Clocks, tx: Option<Mux>, rx: Option<Mux>, config: &Config) -> (r: Option<
    Vec<Op>,
>)
    requires
        config.baudrate > 0,
        config.baudrate * 32 <= u32::MAX,
    ensures
        match r {
            Some(ops) => exists|osr: u8, sbr: u16|
                #![trigger baud(*config, osr, sbr)]
                fitting_divisors(clocks.lpuart, config.baudrate, osr, sbr) && ops@ == init_program(
                    clock_source(*clocks),
                    baud(*config, osr, sbr),
                    tx,
                    rx,
                    *config,
                ),
            None => unachievable(clocks.lpuart, config.baudrate),
        },
{
    match baud_divisors(clocks.lpuart, config.baudrate) {
        Some((osr, sbr)) => {
            let fields: Baud = Baud {
                osr: osr - 1,
                sbr,
                bothedge: osr < 8,
                sbns: config.stop_bits == StopBits::Stop2,
            };
            assert(fields == baud(*config, osr, sbr));
            Some(configure(crate::clocks::lpuart_source(clocks), fields, tx, rx, config))
        },
        None => None,
    }
}

/// Accesses that let a module raise its interrupt.
pub open spec fn interrupt_program(source: Option<u8>) -> Seq<Op> {
    (match source {
        Some(input) => seq![Op::EnableSource(input)],
        None => seq![],
    }) + seq![Op::UnpendInterrupt, Op::EnableInterrupt]
}

/// Lets the module raise its interrupt. `source` is the input number on the interrupt multiplexer of
/// a module that has no interrupt line of its own.
pub fn enable_interrupt(source: Option<u8>) -> (r: Vec<Op>)
    ensures
        r@ == interrupt_program(source),
{
    let mut ops: Vec<Op> = Vec::new();
    if let Some(input) = source {
        ops.push(Op::EnableSource(input));
    }
    ops.push(Op::UnpendInterrupt);
    ops.push(Op::EnableInterrupt);
    assert(ops@ =~= interrupt_program(source));
    ops
}

/// What a DMA transfer of a half needs.
#[derive(Clone, Copy, Debug, PartialEq, Eq, Structural)]
pub enum Path {
    /// Nothing: the buffer is empty.
    Nothing,
    /// The DMA channel moves the buffer.
    Dma,
    /// The bytes go through the FIFO one at a time.
    Fifo,
}

/// Transmit half of an LPUART.
#[derive(Clone, Copy, Debug, PartialEq, Eq, Structural)]
pub struct LpuartTx {
    dma: bool,
}

impl LpuartTx {
    /// Whether the half has a DMA channel.
    pub closed spec fn has_dma(&self) -> bool {
        self.dma
    }

    /// The transmit half, with a DMA channel or without.
    pub fn new(dma: bool) -> (r: Self)
        ensures
            r.has_dma() == dma,
    {
        LpuartTx { dma }
    }

    /// How [`write`](Self::write) moves a buffer of `len` bytes: through the DMA channel if one was
    /// given.
    pub fn write_path(&self, len: usize) -> (r: Path)
        ensures
            r == if !self.has_dma() {
                Path::Fifo
            } else if len == 0 {
                Path::Nothing
            } else {
                Path::Dma
            },
    {
        if !self.dma {
            Path::Fifo
        } else if len == 0 {
            Path::Nothing
        } else {
            Path::Dma
        }
    }

    /// Write all bytes, waiting while the FIFO is full; `txfifosize` is `FIFO[TXFIFOSIZE]`.
    pub fn write(&self, buffer: Vec<u8>, txfifosize: u8) -> (r: Write)
        requires
            txfifosize <= 6,
        ensures
            r.wf(),
            r.state() == transfer::write_initial(buffer@, fifo_size(txfifosize), false),
    {
        Write::new(buffer, tx_fifo_size(txfifosize), false)
    }

    /// Write all bytes, blocking while the FIFO is full; `txfifosize` is `FIFO[TXFIFOSIZE]`.
    pub fn blocking_write(&self, buffer: Vec<u8>, txfifosize: u8) -> (r: Write)
        requires
            txfifosize <= 6,
        ensures
            r.wf(),
            r.state() == transfer::write_initial(buffer@, fifo_size(txfifosize), true),
    {
        Write::new(buffer, tx_fifo_size(txfifosize), true)
    }

    /// Write all of a buffer of `len` bytes by DMA.
    pub fn write_dma(&self, len: usize) -> (r: (DmaTransfer, Vec<Op>))
        ensures
            r.0.wf(),
            (r.0.state(), r.1@) == transfer::dma_initial(false, len as int),
    {
        DmaTransfer::new(false, len)
    }
}

/// Receive half of an LPUART.
#[derive(Clone, Copy, Debug, PartialEq, Eq, Structural)]
pub struct LpuartRx {
    dma: bool,
    suspended: bool,
}

/// The error that the status register reports after a transfer by DMA.
pub open spec fn status_error(flags: Flags) -> Option<Error> {
    if flags.or {
        Some(Error::Overrun)
    } else if flags.fe {
        Some(Error::Framing)
    } else if flags.pf {
        Some(Error::Parity)
    } else if flags.nf {
        Some(Error::Noise)
    } else {
        None
    }
}

/// The error that the status register reports after a transfer by DMA.
pub(crate) fn first_error(flags: Flags) -> (r: Option<Error>)
    ensures
        r == status_error(flags),
{
    if flags.or {
        Some(Error::Overrun)
    } else if flags.fe {
        Some(Error::Framing)
    } else if flags.pf {
        Some(Error::Parity)
    } else if flags.nf {
        Some(Error::Noise)
    } else {
        None
    }
}

/// Every receive error flag.
pub open spec fn all_flags() -> Flags {
    Flags { or: true, fe: true, pf: true, nf: true }
}

/// The flag of an overrun.
pub open spec fn overrun_flag() -> Flags {
    Flags { or: true, fe: false, pf: false, nf: false }
}

/// The flags of the errors of a character.
pub open spec fn character_flags() -> Flags {
    Flags { or: false, fe: true, pf: true, nf: true }
}

impl LpuartRx {
    /// Whether the half has a DMA channel.
    pub closed spec fn has_dma(&self) -> bool {
        self.dma
    }

    /// Whether reception is suspended.
    pub closed spec fn suspended(&self) -> bool {
        self.suspended
    }

    /// The receive half, with a DMA channel or without.
    pub fn new(dma: bool) -> (r: Self)
        ensures
            r.has_dma() == dma,
            !r.suspended(),
    {
        LpuartRx { dma, suspended: false }
    }

    /// Whether reception is suspended and RX is disconnected.
    pub fn is_suspended(&self) -> (r: bool)
        ensures
            r == self.suspended(),
    {
        self.suspended
    }

    /// Stop reception and disconnect RX.
    pub fn suspend(&mut self) -> (r: Op)
        ensures
            final(self).suspended(),
            final(self).has_dma() == old(self).has_dma(),
            r == Op::DisconnectRx,
    {
        self.suspended = true;
        Op::DisconnectRx
    }

    /// Discard stale input and resume reception.
    pub fn resume(&mut self) -> (r: Op)
        ensures
            !final(self).suspended(),
            final(self).has_dma() == old(self).has_dma(),
            r == Op::ConnectRx,
    {
        self.suspended = false;
        Op::ConnectRx
    }

    /// How [`read`](Self::read) fills a buffer of `len` bytes: through the DMA channel if one was
    /// given.
    pub fn read_path(&self, len: usize) -> (r: Path)
        ensures
            r == if !self.has_dma() {
                Path::Fifo
            } else if len == 0 {
                Path::Nothing
            } else {
                Path::Dma
            },
    {
        if !self.dma {
            Path::Fifo
        } else if len == 0 {
            Path::Nothing
        } else {
            Path::Dma
        }
    }

    /// Fill the buffer, waiting for each byte.
    pub fn read(&self, buffer: Vec<u8>) -> (r: Read)
        ensures
            r.wf(),
            r.state() == transfer::read_initial(buffer@.len() as int, true),
            r.buffer() == buffer@,
            r.initial_buffer() == buffer@,
    {
        Read::new(buffer, true)
    }

    /// Wait for one byte, then take whatever else is already in the FIFO.
    pub fn read_some(&self, buffer: Vec<u8>) -> (r: Read)
        ensures
            r.wf(),
            r.state() == transfer::read_initial(buffer@.len() as int, false),
            r.buffer() == buffer@,
            r.initial_buffer() == buffer@,
    {
        Read::new(buffer, false)
    }

    /// One byte from the FIFO if there is one, or a pending error. `or` is `STAT[OR]` and `rxcount`
    /// is `WATER[RXCOUNT]`. An overrun is reported, and its flag alone is cleared; where there is a
    /// character, it is to be taken out of the FIFO and goes to
    /// [`try_read_character`](Self::try_read_character).
    pub fn try_read_byte(&self, or: bool, rxcount: u8) -> (r: (TryRead, Vec<Op>))
        ensures
            r.0 == if or {
                TryRead::Finished(Some(Err(Error::Overrun)))
            } else if rxcount == 0 {
                TryRead::Finished(None)
            } else {
                TryRead::Character
            },
            r.1@ == if or {
                seq![Op::ClearStat(overrun_flag())]
            } else {
                seq![]
            },
    {
        if or {
            let ops: Vec<Op> = vec![
                Op::ClearStat(Flags { or: true, fe: false, pf: false, nf: false }),
            ];
            assert(ops@ =~= seq![Op::ClearStat(overrun_flag())]);
            (TryRead::Finished(Some(Err(Error::Overrun))), ops)
        } else if rxcount == 0 {
            (TryRead::Finished(None), Vec::new())
        } else {
            (TryRead::Character, Vec::new())
        }
    }

    /// What a character taken out of the FIFO is: its byte, or the first of its errors, whose flags
    /// are then cleared.
    pub fn try_read_character(&self, c: Character) -> (r: (Result<u8, Error>, Vec<Op>))
        ensures
            r.0 == character_result(c),
            r.1@ == if character_result(c) is Err {
                seq![Op::ClearStat(character_flags())]
            } else {
                seq![]
            },
    {
        let result: Result<u8, Error> = character(c);
        let mut ops: Vec<Op> = Vec::new();
        if result.is_err() {
            ops.push(Op::ClearStat(Flags { or: false, fe: true, pf: true, nf: true }));
        }
        assert(ops@ =~= if character_result(c) is Err {
            seq![Op::ClearStat(character_flags())]
        } else {
            seq![]
        });
        (result, ops)
    }

    /// Fill a buffer of `len` bytes by DMA.
    pub fn read_dma(&self, len: usize) -> (r: (DmaTransfer, Vec<Op>))
        ensures
            r.0.wf(),
            (r.0.state(), r.1@) == transfer::dma_initial(true, len as int),
    {
        DmaTransfer::new(true, len)
    }
}

/// What a look at the receiver found.
#[derive(Clone, Copy, Debug, PartialEq, Eq)]
pub enum TryRead {
    /// No character is to be taken: an error, or nothing.
    Finished(Option<Result<u8, Error>>),
    /// A character is there.
    Character,
}

/// Bidirectional LPUART driver.
#[derive(Clone, Copy, Debug, PartialEq, Eq, Structural)]
pub struct Lpuart {
    pub tx: LpuartTx,
    pub rx: LpuartRx,
}

impl Lpuart {
    /// The driver, with DMA channels or without.
    pub fn new(dma: bool) -> (r: Self)
        ensures
            r.tx.has_dma() == dma,
            r.rx.has_dma() == dma,
            !r.rx.suspended(),
    {
        Lpuart { tx: LpuartTx::new(dma), rx: LpuartRx::new(dma) }
    }

    /// Split into independently usable transmit and receive halves.
    pub fn split(self) -> (r: (LpuartTx, LpuartRx))
        ensures
            r == (self.tx, self.rx),
    {
        (self.tx, self.rx)
    }
}

/// Whether the receiver has something for a reader that waits, which is so for a byte and for an
/// overrun. Otherwise `CTRL[RIE]` and `CTRL[ORIE]` are to be set, once the waker is registered; both
/// flags are level sensitive, so one set in between still raises the interrupt.
pub fn rx_ready(rdrf: bool, or: bool) -> (r: bool)
    ensures
        r == (rdrf || or),
{
    rdrf || or
}

/// What the interrupt handler does: for each half, whether it masks its interrupts and wakes it.
/// Every enable is masked again; the waiting task re-arms what it still needs.
#[derive(Clone, Copy, Debug, PartialEq, Eq, Structural)]
pub struct Service {
    /// `CTRL[RIE] = 0` and `CTRL[ORIE] = 0`, and wake the receiver.
    pub rx: bool,
    /// `CTRL[TIE] = 0` and `CTRL[TCIE] = 0`, and wake the transmitter.
    pub tx: bool,
}

/// Interrupt enables in `CTRL`.
#[derive(Clone, Copy, Debug, PartialEq, Eq, Structural)]
pub struct Enables {
    pub rie: bool,
    pub orie: bool,
    pub tie: bool,
    pub tcie: bool,
}

/// Interrupt flags in `STAT`.
#[derive(Clone, Copy, Debug, PartialEq, Eq, Structural)]
pub struct Pending {
    pub rdrf: bool,
    pub or: bool,
    pub tdre: bool,
    pub tc: bool,
}

/// What the interrupt handler does.
pub fn on_interrupt(ctrl: Enables, stat: Pending) -> (r: Service)
    ensures
        r.rx == (ctrl.rie && stat.rdrf || ctrl.orie && stat.or),
        r.tx == (ctrl.tie && stat.tdre || ctrl.tcie && stat.tc),
{
    Service {
        rx: (ctrl.rie && stat.rdrf) || (ctrl.orie && stat.or),
        tx: (ctrl.tie && stat.tdre) || (ctrl.tcie && stat.tc),
    }
}

} // verus!
