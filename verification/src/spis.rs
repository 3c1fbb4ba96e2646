//! Kinetis DSPI slave driver.
//!
//! Each transfer covers one active-low PCS0 assertion and completes when PCS0 is deasserted.
//! Receive and transmit buffers are upper bounds: extra received bytes are discarded, and the
//! configured over-read character is sent after the transmit buffer is exhausted.

pub mod hardware;

use vstd::prelude::*;

use crate::gpio::Mux;
use crate::spi::Phase;
use crate::spi::Polarity;
use crate::spi::SR_W1C;

verus! {

/// SPI slave error.
#[derive(Clone, Copy, Debug, PartialEq, Eq, Structural)]
#[non_exhaustive]
pub enum Error {
    /// The receive FIFO overflowed.
    Overrun,
    /// The transmit FIFO ran empty while the master clocked a frame.
    Underrun,
}

/// SPI slave configuration.
#[derive(Clone, Copy, Debug, PartialEq, Eq, Structural)]
pub struct Config {
    /// Clock phase.
    pub phase: Phase,
    /// Clock polarity.
    pub polarity: Polarity,
    /// Byte sent after all bytes in the transmit buffer have been sent.
    pub orc: u8,
}

impl Default for Config {
    fn default() -> (r: Self)
        ensures
            r == (Config {
                phase: Phase::CaptureOnFirstTransition,
                polarity: Polarity::IdleLow,
                orc: 0,
            }),
    {
        Config { phase: Phase::CaptureOnFirstTransition, polarity: Polarity::IdleLow, orc: 0 }
    }
}

/// A bus line.
#[derive(Clone, Copy, Debug, PartialEq, Eq, Structural)]
pub enum Line {
    Sck,
    Sout,
    Sin,
    Pcs,
}

/// A register access of the SPI slave. Fields that an access does not name keep their value, unless
/// it is described as a write of the whole register.
#[derive(Clone, Copy, Debug, PartialEq, Eq, Structural)]
pub enum Op {
    /// Open the clock gate of the module.
    EnableClock,
    /// Write the whole of `MCR`: slave, module enabled, halted, PCS0 active low, FIFOs cleared.
    WriteMcrHalted,
    /// Write the whole of `CTAR0_SLAVE`: 8-bit frames.
    WriteCtar { cpol: bool, cpha: bool },
    /// `PCR[MUX]` of a line's pin.
    SetMux { line: Line, mux: Mux },
    /// Write zero to `RSER`.
    DisableRequests,
    /// Write the whole of `RSER`: `TFFF`, `TFUF`, `RFOF` and `RFDF` raise the interrupt.
    EnableRequests,
    /// Write `SR`, whose flags clear where a one is written.
    WriteSr(u32),
    /// `MCR[HALT]`.
    SetHalt(bool),
    /// Wait until `SR[TXRXS]` is clear.
    WaitStopped,
    /// `MCR[CLR_TXF] = 1` and `MCR[CLR_RXF] = 1`.
    ClearFifos,
    /// Write `PUSHR_SLAVE`.
    Push(u8),
    /// Write `SR` with `TFFF` alone, which clears it.
    ClearTfff,
    /// Write `SR` with `TFUF` alone, which clears it.
    ClearTfuf,
    /// Write `SR` with `RFDF` alone, which clears it.
    ClearRfdf,
    /// Write `SR` with `RFOF` alone, which clears it.
    ClearRfof,
    /// Route the interrupt through the multiplexer.
    EnableSource(u8),
    /// Clear a pending interrupt at the NVIC.
    UnpendInterrupt,
    /// Enable the interrupt at the NVIC.
    EnableInterrupt,
}

/// Accesses that set the module up, which stays stopped until a transfer is armed.
pub open spec fn init_program(
    sck: Mux,
    sout: Mux,
    sin: Mux,
    pcs: Mux,
    config: Config,
) -> Seq<Op> {
    seq![
        Op::EnableClock,
        Op::WriteMcrHalted,
        Op::WriteCtar {
            cpol: config.polarity == Polarity::IdleHigh,
            cpha: config.phase == Phase::CaptureOnSecondTransition,
        },
        Op::SetMux { line: Line::Sck, mux: sck },
        Op::SetMux { line: Line::Sout, mux: sout },
        Op::SetMux { line: Line::Sin, mux: sin },
        Op::SetMux { line: Line::Pcs, mux: pcs },
        Op::DisableRequests,
        Op::WriteSr(SR_W1C),
    ]
}

/// Sets the module up; the `Mux` values are the alternatives that connect the pins to it.
pub fn init(sck: Mux, sout: Mux, sin: Mux, pcs: Mux, config: &Config) -> (r: Vec<Op>)
    ensures
        r@ == init_program(sck, sout, sin, pcs, *config),
{
    let ops: Vec<Op> = vec![
        Op::EnableClock,
        Op::WriteMcrHalted,
        Op::WriteCtar {
            cpol: config.polarity == Polarity::IdleHigh,
            cpha: config.phase == Phase::CaptureOnSecondTransition,
        },
        Op::SetMux { line: Line::Sck, mux: sck },
        Op::SetMux { line: Line::Sout, mux: sout },
        Op::SetMux { line: Line::Sin, mux: sin },
        Op::SetMux { line: Line::Pcs, mux: pcs },
        Op::DisableRequests,
        Op::WriteSr(SR_W1C),
    ];
    assert(ops@ =~= init_program(sck, sout, sin, pcs, *config));
    ops
}

/// Accesses that let a module raise its interrupt.
pub open spec fn interrupt_program(source: Option<u8>) -> Seq<Op> {
    (match source {
        Some(input) => seq![Op::EnableSource(input)],
        None => seq![],
    }) + seq![Op::UnpendInterrupt, Op::EnableInterrupt]
}

/// Lets the module raise its interrupt. `source` is the input number on the interrupt multiplexer of
/// a module that has no interrupt line of its own.
pub fn enable_interrupt(source: Option<u8>) -> (r: Vec<Op>)
    ensures
        r@ == interrupt_program(source),
{
    let mut ops: Vec<Op> = Vec::new();
    if let Some(input) = source {
        ops.push(Op::EnableSource(input));
    }
    ops.push(Op::UnpendInterrupt);
    ops.push(Op::EnableInterrupt);
    assert(ops@ =~= interrupt_program(source));
    ops
}

/// Accesses that stop the module.
pub open spec fn halt_program() -> Seq<Op> {
    seq![Op::SetHalt(true), Op::WaitStopped, Op::DisableRequests]
}

/// Accesses that empty the FIFOs and clear the flags.
pub open spec fn clear_program() -> Seq<Op> {
    seq![Op::ClearFifos, Op::WriteSr(SR_W1C)]
}

/// Accesses that start the module.
pub open spec fn run_program() -> Seq<Op> {
    seq![Op::EnableRequests, Op::SetHalt(false)]
}

/// Stops the module.
pub fn halt() -> (r: Vec<Op>)
    ensures
        r@ == halt_program(),
{
    let ops: Vec<Op> = vec![Op::SetHalt(true), Op::WaitStopped, Op::DisableRequests];
    assert(ops@ =~= halt_program());
    ops
}

/// Starts the module.
pub fn run() -> (r: Vec<Op>)
    ensures
        r@ == run_program(),
{
    let ops: Vec<Op> = vec![Op::EnableRequests, Op::SetHalt(false)];
    assert(ops@ =~= run_program());
    ops
}

/// What a transfer needs next while it is served.
#[derive(Clone, Copy, Debug, PartialEq, Eq, Structural)]
pub enum Wait {
    /// `SR[RFOF]` and `SR[TFUF]`, now.
    Flags,
    /// The number of frames in the receive FIFO (`SR[RXCTR]`, now).
    RxCount,
    /// A frame from the receive FIFO (`POPR`, now).
    Frame,
    /// The number of frames in the transmit FIFO (`SR[TXCTR]`, now).
    TxCount,
    /// Nothing until the next interrupt.
    Nothing,
}

/// What happened.
#[derive(Clone, Copy, Debug, PartialEq, Eq, Structural)]
pub enum Event {
    Flags { rfof: bool, tfuf: bool },
    RxCount(u8),
    Frame(u8),
    TxCount(u8),
}

/// The state of a transfer.
pub ghost struct State {
    pub active: bool,
    /// The bytes to send; of a transfer in place nothing, those of `rx` are sent.
    pub tx: Seq<u8>,
    /// The receive buffer.
    pub rx: Seq<u8>,
    pub in_place: bool,
    /// How many bytes have been queued, as far as that can be counted.
    pub queued: int,
    /// How many bytes have been received, as far as that can be counted.
    pub received: int,
    /// The over-read character.
    pub orc: u8,
    /// The first error.
    pub error: Option<Error>,
    pub depth: int,
    pub wait: Wait,
}

/// One more, as far as that can be counted.
pub open spec fn counted(n: int) -> int {
    if n < usize::MAX {
        n + 1
    } else {
        n
    }
}

impl State {
    /// The bytes to send.
    pub open spec fn outgoing(self) -> Seq<u8> {
        if self.in_place {
            self.rx
        } else {
            self.tx
        }
    }

    /// The byte to queue next.
    pub open spec fn next_byte(self) -> u8 {
        if self.queued < self.outgoing().len() {
            self.outgoing()[self.queued]
        } else {
            self.orc
        }
    }

    pub open spec fn wf(self) -> bool {
        &&& 0 <= self.queued <= usize::MAX
        &&& 0 <= self.received <= usize::MAX
        &&& !self.active ==> self.wait == Wait::Nothing
    }

    /// The counts of a transfer: bytes stored and bytes consumed.
    pub open spec fn counts(self) -> (int, int) {
        (least(self.received, self.rx.len() as int), least(
            self.received,
            self.outgoing().len() as int,
        ))
    }
}

pub open spec fn least(a: int, b: int) -> int {
    if a <= b {
        a
    } else {
        b
    }
}

/// A transfer that has been prepared, with the transmit FIFO to be filled.
pub open spec fn prepared(
    rx: Seq<u8>,
    tx: Seq<u8>,
    in_place: bool,
    orc: u8,
    depth: int,
) -> State {
    State {
        active: true,
        tx,
        rx,
        in_place,
        queued: 0,
        received: 0,
        orc,
        error: None,
        depth,
        wait: Wait::TxCount,
    }
}

/// How a transfer goes on at an event, and the accesses for that. An event that it does not wait
/// for changes nothing.
pub open spec fn advance_to(now: State, event: Event) -> (State, Seq<Op>) {
    match (now.wait, event) {
        (Wait::Flags, Event::Flags { rfof, tfuf }) => (
            State {
                error: match now.error {
                    Some(e) => Some(e),
                    None => if rfof {
                        Some(Error::Overrun)
                    } else if tfuf {
                        Some(Error::Underrun)
                    } else {
                        None
                    },
                },
                wait: Wait::RxCount,
                ..now
            },
            (if rfof {
                seq![Op::ClearRfof]
            } else {
                seq![]
            }) + (if tfuf {
                seq![Op::ClearTfuf]
            } else {
                seq![]
            }),
        ),
        (Wait::RxCount, Event::RxCount(count)) => (
            State {
                wait: if count != 0 {
                    Wait::Frame
                } else {
                    Wait::TxCount
                },
                ..now
            },
            seq![],
        ),
        (Wait::Frame, Event::Frame(byte)) => (
            State {
                rx: if now.received < now.rx.len() {
                    now.rx.update(now.received, byte)
                } else {
                    now.rx
                },
                received: counted(now.received),
                wait: Wait::RxCount,
                ..now
            },
            seq![Op::ClearRfdf],
        ),
        (Wait::TxCount, Event::TxCount(count)) => if count < now.depth {
            (
                State { queued: counted(now.queued), ..now },
                seq![Op::Push(now.next_byte()), Op::ClearTfff],
            )
        } else {
            (State { wait: Wait::Nothing, ..now }, seq![])
        },
        _ => (now, seq![]),
    }
}

/// A transfer, shared between the driver and its interrupt handler.
#[derive(Debug)]
pub struct Transfer {
    active: bool,
    tx: Vec<u8>,
    rx: Vec<u8>,
    in_place: bool,
    queued: usize,
    received: usize,
    orc: u8,
    error: Option<Error>,
    fifo_depth: u8,
    wait: Wait,
}

impl Transfer {
    pub closed spec fn state(&self) -> State {
        State {
            active: self.active,
            tx: self.tx@,
            rx: self.rx@,
            in_place: self.in_place,
            queued: self.queued as int,
            received: self.received as int,
            orc: self.orc,
            error: self.error,
            depth: self.fifo_depth as int,
            wait: self.wait,
        }
    }

    /// Whether the transfer is consistent.
    pub open spec fn wf(&self) -> bool {
        self.state().wf()
    }

    /// No transfer.
    pub fn new() -> (r: Self)
        ensures
            r.wf(),
            !r.state().active,
            r.state().rx == Seq::<u8>::empty(),
    {
        Transfer {
            active: false,
            tx: Vec::new(),
            rx: Vec::new(),
            in_place: false,
            queued: 0,
            received: 0,
            orc: 0,
            error: None,
            fifo_depth: 0,
            wait: Wait::Nothing,
        }
    }

    /// Prepares a transfer that receives into `rx` and sends `tx`, or, in place, sends `rx`. The
    /// accesses stop the module and clear it; the transmit FIFO is to be filled then.
    pub fn prepare(rx: Vec<u8>, tx: Vec<u8>, in_place: bool, orc: u8, fifo_depth: u8) -> (r: (
        Self,
        Vec<Op>,
    ))
        ensures
            r.0.wf(),
            r.0.state() == prepared(rx@, tx@, in_place, orc, fifo_depth as int),
            r.1@ == halt_program() + clear_program(),
    {
        let mut ops: Vec<Op> = halt();
        ops.push(Op::ClearFifos);
        ops.push(Op::WriteSr(SR_W1C));
        assert(ops@ =~= halt_program() + clear_program());
        let transfer: Transfer = Transfer {
            active: true,
            tx,
            rx,
            in_place,
            queued: 0,
            received: 0,
            orc,
            error: None,
            fifo_depth,
            wait: Wait::TxCount,
        };
        (transfer, ops)
    }

    /// What the transfer needs next.
    pub fn wait(&self) -> (r: Wait)
        ensures
            r == self.state().wait,
    {
        self.wait
    }

    /// Serves the module: the receive FIFO is to be drained, then the transmit FIFO filled.
    pub fn service(&mut self)
        requires
            old(self).wf(),
        ensures
            final(self).wf(),
            final(self).state() == (State {
                wait: if old(self).state().active {
                    Wait::Flags
                } else {
                    old(self).state().wait
                },
                ..old(self).state()
            }),
    {
        if self.active {
            self.wait = Wait::Flags;
        }
    }

    /// Goes on at an event. The accesses returned are to be made at once, in order.
    pub fn advance(&mut self, event: Event) -> (r: Vec<Op>)
        requires
            old(self).wf(),
        ensures
            final(self).wf(),
            final(self).state() == advance_to(old(self).state(), event).0,
            r@ == advance_to(old(self).state(), event).1,
    {
        let mut ops: Vec<Op> = Vec::new();
        match (self.wait, event) {
            (Wait::Flags, Event::Flags { rfof, tfuf }) => {
                if rfof {
                    ops.push(Op::ClearRfof);
                    if self.error.is_none() {
                        self.error = Some(Error::Overrun);
                    }
                }
                if tfuf {
                    ops.push(Op::ClearTfuf);
                    if self.error.is_none() {
                        self.error = Some(Error::Underrun);
                    }
                }
                self.wait = Wait::RxCount;
            },
            (Wait::RxCount, Event::RxCount(count)) => {
                self.wait = if count != 0 {
                    Wait::Frame
                } else {
                    Wait::TxCount
                };
            },
            (Wait::Frame, Event::Frame(byte)) => {
                ops.push(Op::ClearRfdf);
                if self.received < self.rx.len() {
                    self.rx.set(self.received, byte);
                }
                if self.received < usize::MAX {
                    self.received = self.received + 1;
                }
                self.wait = Wait::RxCount;
            },
            (Wait::TxCount, Event::TxCount(count)) => {
                if count < self.fifo_depth {
                    let byte: u8 = if self.in_place {
                        if self.queued < self.rx.len() {
                            self.rx[self.queued]
                        } else {
                            self.orc
                        }
                    } else if self.queued < self.tx.len() {
                        self.tx[self.queued]
                    } else {
                        self.orc
                    };
                    ops.push(Op::Push(byte));
                    ops.push(Op::ClearTfff);
                    if self.queued < usize::MAX {
                        self.queued = self.queued + 1;
                    }
                } else {
                    self.wait = Wait::Nothing;
                }
            },
            _ => {},
        }
        assert(ops@ =~= advance_to(old(self).state(), event).1);
        ops
    }

    /// Ends the transfer, once PCS0 is deasserted, the module is stopped and it was served once
    /// more: the receive buffer, and the number of bytes stored in it and of bytes of the transmit
    /// buffer consumed, or the first error. The accesses clear the module.
    pub fn finish(&mut self) -> (r: (Vec<u8>, Result<(usize, usize), Error>, Vec<Op>))
        requires
            old(self).wf(),
        ensures
            final(self).wf(),
            !final(self).state().active,
            r.0@ == old(self).state().rx,
            match (old(self).state().error, r.1) {
                (Some(e), Err(f)) => e == f,
                (None, Ok(n)) => (n.0 as int, n.1 as int) == old(self).state().counts(),
                _ => false,
            },
            r.2@ == clear_program(),
    {
        let tx_len: usize = if self.in_place {
            self.rx.len()
        } else {
            self.tx.len()
        };
        let stored: usize = if self.received <= self.rx.len() {
            self.received
        } else {
            self.rx.len()
        };
        let consumed: usize = if self.received <= tx_len {
            self.received
        } else {
            tx_len
        };
        let result: Result<(usize, usize), Error> = match self.error {
            Some(e) => Err(e),
            None => Ok((stored, consumed)),
        };
        let mut finished: Transfer = Transfer::new();
        std::mem::swap(&mut finished, self);
        let ops: Vec<Op> = vec![Op::ClearFifos, Op::WriteSr(SR_W1C)];
        assert(ops@ =~= clear_program());
        (finished.rx, result, ops)
    }

    /// Gives the transfer up: the accesses stop the module and clear it.
    pub fn abort(&mut self) -> (r: Vec<Op>)
        ensures
            final(self).wf(),
            !final(self).state().active,
            r@ == halt_program() + clear_program(),
    {
        *self = Transfer::new();
        let mut ops: Vec<Op> = halt();
        ops.push(Op::ClearFifos);
        ops.push(Op::WriteSr(SR_W1C));
        assert(ops@ =~= halt_program() + clear_program());
        ops
    }
}

/// Serial Peripheral Interface in slave mode.
#[derive(Clone, Copy, Debug, PartialEq, Eq, Structural)]
pub struct Spis {
    orc: u8,
    fifo_depth: u8,
}

impl Spis {
    /// The over-read character.
    pub closed spec fn over_read(&self) -> u8 {
        self.orc
    }

    /// Entries of the FIFOs.
    pub closed spec fn depth(&self) -> u8 {
        self.fifo_depth
    }

    /// Create a blocking SPI slave.
    pub fn new_blocking(
        fifo_depth: u8,
        sck: Mux,
        sout: Mux,
        sin: Mux,
        pcs: Mux,
        config: Config,
    ) -> (r: (Self, Vec<Op>))
        ensures
            r.0.over_read() == config.orc,
            r.0.depth() == fifo_depth,
            r.1@ == init_program(sck, sout, sin, pcs, config),
    {
        (Spis { orc: config.orc, fifo_depth }, init(sck, sout, sin, pcs, &config))
    }

    /// Create an async SPI slave. `source` is the input number on the interrupt multiplexer of a
    /// module that has no interrupt line of its own.
    pub fn new(
        fifo_depth: u8,
        sck: Mux,
        sout: Mux,
        sin: Mux,
        pcs: Mux,
        source: Option<u8>,
        config: Config,
    ) -> (r: (Self, Vec<Op>))
        ensures
            r.0.over_read() == config.orc,
            r.0.depth() == fifo_depth,
            r.1@ == init_program(sck, sout, sin, pcs, config) + interrupt_program(source),
    {
        let mut ops: Vec<Op> = init(sck, sout, sin, pcs, &config);
        let mut enable: Vec<Op> = enable_interrupt(source);
        ops.append(&mut enable);
        (Spis { orc: config.orc, fifo_depth }, ops)
    }

    /// Receive and transmit during one PCS0 assertion.
    ///
    /// The buffers limit how many bytes are stored or supplied; they do not set the transaction
    /// length. Extra received bytes are discarded and extra clocks transmit [`Config::orc`]. The
    /// transfer completes when PCS0 is deasserted.
    pub fn transfer(&self, read: Vec<u8>, write: Vec<u8>) -> (r: (Transfer, Vec<Op>))
        ensures
            r.0.wf(),
            r.0.state() == prepared(read@, write@, false, self.over_read(), self.depth() as int),
            r.1@ == halt_program() + clear_program(),
    {
        Transfer::prepare(read, write, false, self.orc, self.fifo_depth)
    }

    /// Receive during one PCS0 assertion while transmitting the over-read character.
    pub fn read(&self, data: Vec<u8>) -> (r: (Transfer, Vec<Op>))
        ensures
            r.0.wf(),
            r.0.state() == prepared(
                data@,
                Seq::empty(),
                false,
                self.over_read(),
                self.depth() as int,
            ),
            r.1@ == halt_program() + clear_program(),
    {
        self.transfer(data, Vec::new())
    }

    /// Transmit during one PCS0 assertion and discard received bytes.
    pub fn write(&self, data: Vec<u8>) -> (r: (Transfer, Vec<Op>))
        ensures
            r.0.wf(),
            r.0.state() == prepared(
                Seq::empty(),
                data@,
                false,
                self.over_read(),
                self.depth() as int,
            ),
            r.1@ == halt_program() + clear_program(),
    {
        self.transfer(Vec::new(), data)
    }

    /// Receive and transmit in place during one PCS0 assertion.
    pub fn transfer_in_place(&self, data: Vec<u8>) -> (r: (Transfer, Vec<Op>))
        ensures
            r.0.wf(),
            r.0.state() == prepared(
                data@,
                Seq::empty(),
                true,
                self.over_read(),
                self.depth() as int,
            ),
            r.1@ == halt_program() + clear_program(),
    {
        Transfer::prepare(data, Vec::new(), true, self.orc, self.fifo_depth)
    }
}

/// The buffers are upper bounds: no more bytes are reported stored or consumed than they hold, nor
/// than frames were clocked.
pub proof fn law_buffers_bound_the_counts(now: State)
    requires
        now.wf(),
    ensures
        now.counts().0 <= now.rx.len(),
        now.counts().1 <= now.outgoing().len(),
        now.counts().0 <= now.received,
        now.counts().1 <= now.received,
        now.received <= now.rx.len() ==> now.counts().0 == now.received,
{
}

/// Received bytes are stored in order, extra ones are discarded, and the receive buffer keeps its
/// length.
pub proof fn law_received_bytes_in_order(now: State, event: Event)
    requires
        now.wf(),
        now.rx.len() <= usize::MAX,
    ensures
        ({
            let next = advance_to(now, event).0;
            &&& next.wf()
            &&& next.rx.len() == now.rx.len()
            &&& forall|i: int|
                0 <= i < now.rx.len() && i != now.received ==> #[trigger] next.rx[i] == now.rx[i]
            &&& next.rx != now.rx ==> (event matches Event::Frame(byte) && now.received
                < now.rx.len() && next.rx[now.received] == byte && next.received == now.received
                + 1)
        }),
{
}

/// Bytes go out in order, and once the transmit buffer is exhausted the over-read character does.
pub proof fn law_queued_bytes_in_order(now: State, event: Event)
    requires
        now.wf(),
    ensures
        ({
            let (next, ops) = advance_to(now, event);
            next.queued != now.queued ==> ops == seq![
                Op::Push(
                    if now.queued < now.outgoing().len() {
                        now.outgoing()[now.queued]
                    } else {
                        now.orc
                    },
                ),
                Op::ClearTfff,
            ] && next.queued == now.queued + 1
        }),
{
}

/// While no more bytes have come in than went out, a transfer in place never overwrites a byte that
/// has not gone out.
pub proof fn law_in_place_keeps_unsent_bytes(now: State, event: Event)
    requires
        now.wf(),
        now.received < now.queued,
    ensures
        forall|i: int|
            now.queued <= i < now.rx.len() ==> #[trigger] advance_to(now, event).0.rx[i] == now.rx[i],
{
}

/// The first error of a transfer is the one that is reported.
pub proof fn law_first_error_stays(now: State, event: Event)
    ensures
        now.error is Some ==> advance_to(now, event).0.error == now.error,
{
}

} // verus!
