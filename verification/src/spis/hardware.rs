//! What the accesses of the SPI slave do to the module, and what a transfer makes of its events.
//!
//! [`after`] is the state that accesses leave the module in, as the reference manual has it. The laws
//! hold it, and the bytes that go out and come in, against what was asked for.

use vstd::prelude::*;

use crate::gpio::Mux;
use crate::spi::Phase;
use crate::spi::Polarity;
use crate::spis;
use crate::spis::Config;
use crate::spis::Error;
use crate::spis::Event;
use crate::spis::Line;
use crate::spis::Op;
use crate::spis::Wait;

verus! {

/// The registers of the module, and of its pins.
pub ghost struct Module {
    pub clocked: bool,
    pub run: Run,
    /// `CPOL` and `CPHA`.
    pub clock: (bool, bool),
    /// `SR`.
    pub status: u32,
    pub pins: Pins,
    /// No access came while the module was not clocked, and its attributes and FIFOs changed only
    /// while it was halted.
    pub in_order: bool,
}

/// Whether the module runs.
pub ghost struct Run {
    /// Slave, and the module is enabled.
    pub slave: bool,
    pub halted: bool,
    /// The end of the frame under way was waited for since the module was halted.
    pub stopped: bool,
    /// The interrupt requests are on.
    pub requests: bool,
    /// Both FIFOs are empty.
    pub empty: bool,
}

/// What the pins of the module are connected to.
pub ghost struct Pins {
    pub sck: Mux,
    pub sout: Mux,
    pub sin: Mux,
    pub pcs: Mux,
}

/// The way of the interrupt to the processor.
pub ghost struct Interrupt {
    /// Inputs of the interrupt multiplexer that are let through.
    pub routed: Set<u8>,
    /// Nothing from before is pending at the NVIC.
    pub unpended: bool,
    pub enabled: bool,
    /// Nothing from before was pending when the interrupt was enabled.
    pub in_order: bool,
}

/// The module after an access.
#[verifier::opaque]
pub open spec fn step(op: Op, m: Module) -> Module {
    match op {
        Op::EnableClock => Module { clocked: true, ..m },
        Op::WriteMcrHalted => Module {
            run: Run { slave: true, halted: true, stopped: false, empty: true, ..m.run },
            in_order: m.in_order && m.clocked,
            ..m
        },
        Op::WriteCtar { cpol, cpha } => Module {
            clock: (cpol, cpha),
            in_order: m.in_order && m.clocked && m.run.halted,
            ..m
        },
        Op::SetMux { line, mux } => Module {
            pins: match line {
                Line::Sck => Pins { sck: mux, ..m.pins },
                Line::Sout => Pins { sout: mux, ..m.pins },
                Line::Sin => Pins { sin: mux, ..m.pins },
                Line::Pcs => Pins { pcs: mux, ..m.pins },
            },
            ..m
        },
        Op::DisableRequests => Module {
            run: Run { requests: false, ..m.run },
            in_order: m.in_order && m.clocked,
            ..m
        },
        Op::EnableRequests => Module {
            run: Run { requests: true, ..m.run },
            in_order: m.in_order && m.clocked,
            ..m
        },
        Op::WriteSr(ones) => Module {
            status: m.status & !ones,
            in_order: m.in_order && m.clocked,
            ..m
        },
        Op::SetHalt(halted) => Module {
            run: Run { halted, stopped: false, ..m.run },
            in_order: m.in_order && m.clocked,
            ..m
        },
        Op::WaitStopped => Module {
            run: Run { stopped: true, ..m.run },
            in_order: m.in_order && m.run.halted,
            ..m
        },
        Op::ClearFifos => Module {
            run: Run { empty: true, ..m.run },
            in_order: m.in_order && m.clocked && m.run.halted && m.run.stopped,
            ..m
        },
        Op::Push(_) => Module { run: Run { empty: false, ..m.run }, ..m },
        // TFFF, TFUF, RFDF and RFOF.
        Op::ClearTfff => Module { status: m.status & !0x0200_0000, ..m },
        Op::ClearTfuf => Module { status: m.status & !0x0800_0000, ..m },
        Op::ClearRfdf => Module { status: m.status & !0x0002_0000, ..m },
        Op::ClearRfof => Module { status: m.status & !0x0008_0000, ..m },
        _ => m,
    }
}

/// The module after the first `n` of some accesses.
pub open spec fn after(ops: Seq<Op>, n: int, from: Module) -> Module
    decreases n,
{
    if n <= 0 {
        from
    } else {
        step(ops[n - 1], after(ops, n - 1, from))
    }
}

/// The way of the interrupt after an access.
pub open spec fn route(op: Op, i: Interrupt) -> Interrupt {
    match op {
        Op::EnableSource(input) => Interrupt { routed: i.routed.insert(input), ..i },
        Op::UnpendInterrupt => Interrupt { unpended: true, ..i },
        Op::EnableInterrupt => Interrupt {
            enabled: true,
            in_order: i.in_order && i.unpended,
            ..i
        },
        _ => i,
    }
}

/// The way of the interrupt after the first `n` of some accesses.
pub open spec fn routed_after(ops: Seq<Op>, n: int, from: Interrupt) -> Interrupt
    decreases n,
{
    if n <= 0 {
        from
    } else {
        route(ops[n - 1], routed_after(ops, n - 1, from))
    }
}

/// A setup gives the clock settings asked for, connects every pin, and leaves the module halted as
/// slave, with its FIFOs empty, no request on and no old flag set.
pub proof fn law_setup_gives_the_bus_settings(
    sck: Mux,
    sout: Mux,
    sin: Mux,
    pcs: Mux,
    config: Config,
    from: Module,
)
    requires
        from.in_order,
    ensures
        ({
            let ops = super::init_program(sck, sout, sin, pcs, config);
            let to = after(ops, ops.len() as int, from);
            &&& to.in_order
            &&& to.clocked && to.run.slave && to.run.halted && to.run.empty && !to.run.requests
            &&& to.clock == (
                config.polarity == Polarity::IdleHigh,
                config.phase == Phase::CaptureOnSecondTransition,
            )
            &&& to.pins == (Pins { sck, sout, sin, pcs })
            &&& to.status & 0x9A0A_0000 == 0
        }),
{
    let ops = super::init_program(sck, sout, sin, pcs, config);
    assert(ops.len() == 9);
    let c1 = Module { clocked: true, ..from };
    assert(after(ops, 1, from) == c1) by {
        reveal(step);
        assert(after(ops, 0, from) == from);
    }
    let c2 = Module {
        run: Run { slave: true, halted: true, stopped: false, empty: true, ..c1.run },
        ..c1
    };
    assert(after(ops, 2, from) == c2) by {
        reveal(step);
    }
    let c3 = Module {
        clock: (
            config.polarity == Polarity::IdleHigh,
            config.phase == Phase::CaptureOnSecondTransition,
        ),
        ..c2
    };
    assert(after(ops, 3, from) == c3) by {
        reveal(step);
    }
    let c4 = Module { pins: Pins { sck, ..c3.pins }, ..c3 };
    assert(after(ops, 4, from) == c4) by {
        reveal(step);
    }
    let c5 = Module { pins: Pins { sout, ..c4.pins }, ..c4 };
    assert(after(ops, 5, from) == c5) by {
        reveal(step);
    }
    let c6 = Module { pins: Pins { sin, ..c5.pins }, ..c5 };
    assert(after(ops, 6, from) == c6) by {
        reveal(step);
    }
    let c7 = Module { pins: Pins { pcs, ..c6.pins }, ..c6 };
    assert(after(ops, 7, from) == c7) by {
        reveal(step);
    }
    let c8 = Module { run: Run { requests: false, ..c7.run }, ..c7 };
    assert(after(ops, 8, from) == c8) by {
        reveal(step);
    }
    let c9 = Module { status: c8.status & !0x9A0A_0000u32, ..c8 };
    assert(after(ops, 9, from) == c9) by {
        reveal(step);
    }
    let flags = c8.status;
    assert((flags & !0x9A0A_0000u32) & 0x9A0A_0000u32 == 0) by (bit_vector);
}

/// A transfer begins on a clean module: it is halted and its frame waited for, its requests are off,
/// then its FIFOs are emptied and its flags cleared. Starting it turns the requests on before it runs.
pub proof fn law_transfers_begin_clean(from: Module)
    requires
        from.in_order,
        from.clocked,
    ensures
        ({
            let ops = super::halt_program() + super::clear_program();
            let to = after(ops, ops.len() as int, from);
            let start = super::run_program();
            let running = after(start, start.len() as int, to);
            &&& to.in_order
            &&& to.run == (Run {
                halted: true,
                stopped: true,
                requests: false,
                empty: true,
                ..from.run
            })
            &&& to.status & 0x9A0A_0000 == 0
            &&& running.in_order
            &&& !running.run.halted && running.run.requests
            &&& after(start, 1, to).run.halted && after(start, 1, to).run.requests
        }),
{
    let ops = super::halt_program() + super::clear_program();
    assert(ops.len() == 5);
    let c3 = Module {
        run: Run { halted: true, stopped: true, requests: false, ..from.run },
        ..from
    };
    assert(after(ops, 3, from) == c3) by {
        reveal(step);
        reveal_with_fuel(after, 4);
    }
    let c5 = Module {
        run: Run { empty: true, ..c3.run },
        status: c3.status & !0x9A0A_0000u32,
        ..c3
    };
    assert(after(ops, 5, from) == c5) by {
        reveal(step);
        reveal_with_fuel(after, 3);
    }
    let flags = c3.status;
    assert((flags & !0x9A0A_0000u32) & 0x9A0A_0000u32 == 0) by (bit_vector);
    let start = super::run_program();
    reveal(step);
    reveal_with_fuel(after, 3);
}

/// The interrupt of a module is let through all the way: through the multiplexer where the module
/// sits behind it, and at the NVIC once nothing old is pending there.
pub proof fn law_interrupt_is_let_through(source: Option<u8>, from: Interrupt)
    requires
        from.in_order,
        !from.unpended,
    ensures
        ({
            let ops = super::interrupt_program(source);
            let to = routed_after(ops, ops.len() as int, from);
            &&& to.enabled
            &&& to.in_order
            &&& to.routed == match source {
                Some(input) => from.routed.insert(input),
                None => from.routed,
            }
        }),
{
    reveal_with_fuel(routed_after, 4);
}

/// A transfer begins with nothing sent, nothing received and no error, and fills the transmit FIFO
/// first.
pub proof fn law_prepared(rx: Seq<u8>, tx: Seq<u8>, in_place: bool, orc: u8, depth: int)
    ensures
        ({
            let state = super::prepared(rx, tx, in_place, orc, depth);
            &&& state.active && state.wait == Wait::TxCount
            &&& state.queued == 0 && state.received == 0 && state.error is None
            &&& state.rx == rx && state.orc == orc && state.depth == depth
            &&& state.outgoing() == if in_place {
                rx
            } else {
                tx
            }
        }),
{
}

/// Serving the module takes the errors first, then every frame that came in, then fills the transmit
/// FIFO up, and then waits for the next interrupt.
pub proof fn law_service_in_order(now: spis::State, event: Event)
    requires
        now.wf(),
    ensures
        ({
            let next = super::advance_to(now, event).0;
            match (now.wait, event) {
                (Wait::Flags, Event::Flags { .. }) => next.wait == Wait::RxCount,
                (Wait::RxCount, Event::RxCount(count)) => next == (spis::State {
                    wait: if count == 0 {
                        Wait::TxCount
                    } else {
                        Wait::Frame
                    },
                    ..now
                }),
                (Wait::Frame, Event::Frame(_)) => next.wait == Wait::RxCount,
                (Wait::TxCount, Event::TxCount(count)) => next.wait == if count < now.depth {
                    Wait::TxCount
                } else {
                    Wait::Nothing
                },
                _ => next == now,
            }
        }),
{
}

/// Where the master clocks fewer frames than can be counted, each frame that comes in is stored where
/// it belongs or dropped, and acknowledged; each byte that the transmit FIFO has room for is the next
/// one to send, or the over-read character; and each error is taken down once, the first of them
/// staying, and acknowledged.
pub proof fn law_events(now: spis::State, event: Event, m: Module)
    requires
        now.wf(),
        now.queued < usize::MAX,
        now.received < usize::MAX,
    ensures
        ({
            let (next, ops) = super::advance_to(now, event);
            match (now.wait, event) {
                (Wait::Flags, Event::Flags { rfof, tfuf }) => {
                    &&& next == (spis::State {
                        error: if now.error is None && rfof {
                            Some(Error::Overrun)
                        } else if now.error is None && tfuf {
                            Some(Error::Underrun)
                        } else {
                            now.error
                        },
                        wait: next.wait,
                        ..now
                    })
                    &&& ops.contains(Op::ClearRfof) == rfof
                    &&& ops.contains(Op::ClearTfuf) == tfuf
                    &&& forall|i: int|
                        0 <= i < ops.len() ==> #[trigger] ops[i] == Op::ClearRfof || ops[i]
                            == Op::ClearTfuf
                },
                (Wait::Frame, Event::Frame(byte)) => {
                    &&& next.received == now.received + 1
                    &&& next.rx.len() == now.rx.len()
                    &&& forall|i: int|
                        0 <= i < now.rx.len() ==> #[trigger] next.rx[i] == if i == now.received {
                            byte
                        } else {
                            now.rx[i]
                        }
                    &&& next.queued == now.queued && next.error == now.error
                    &&& ops == seq![Op::ClearRfdf]
                },
                (Wait::TxCount, Event::TxCount(count)) => if count < now.depth {
                    &&& next == (spis::State { queued: now.queued + 1, ..now })
                    &&& ops == seq![
                        Op::Push(
                            if now.in_place && now.queued < now.rx.len() {
                                now.rx[now.queued]
                            } else if !now.in_place && now.queued < now.tx.len() {
                                now.tx[now.queued]
                            } else {
                                now.orc
                            },
                        ),
                        Op::ClearTfff,
                    ]
                } else {
                    &&& next == (spis::State { wait: next.wait, ..now })
                    &&& ops.len() == 0
                },
                _ => ops.len() == 0,
            }
        }),
{
    let (next, ops) = super::advance_to(now, event);
    if let (Wait::Flags, Event::Flags { rfof, tfuf }) = (now.wait, event) {
        if rfof {
            assert(ops[0] == Op::ClearRfof);
        }
        if tfuf {
            assert(ops.last() == Op::ClearTfuf);
        }
    }
}

/// What is reported of a transfer is how many of the bytes that came in fitted the receive buffer, and
/// how many of those sent were from the transmit buffer.
pub proof fn law_counts(now: spis::State)
    ensures
        now.counts().0 == if now.received < now.rx.len() {
            now.received
        } else {
            now.rx.len() as int
        },
        now.counts().1 == if now.received < now.outgoing().len() {
            now.received
        } else {
            now.outgoing().len() as int
        },
{
}

} // verus!
