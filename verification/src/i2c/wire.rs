//! What the accesses of a transaction do on the bus.
//!
//! [`wire_step`] is what one access does to the module and the bus, as the reference manual has it.
//! The laws run the accesses that a transaction hands out, in order, together with what the module
//! and the DMA controller do in between, and hold what comes out on the bus against what was asked
//! for.

use vstd::prelude::*;

use crate::i2c::transaction;
use crate::i2c::transaction::Before;
use crate::i2c::transaction::Operation;
use crate::i2c::transaction::Step;
use crate::i2c::transaction::Wait;
use crate::i2c::Error;
use crate::i2c::Op;

verus! {

/// The module as master, and what happened on its bus.
pub ghost struct Bus {
    pub control: Control,
    pub line: Line,
    /// What happened on the bus.
    pub events: Seq<transaction::BusEvent>,
    /// The slots that were filled, in order.
    pub filled: Seq<(int, int)>,
    /// Every access came when it may.
    pub in_order: bool,
}

/// Fields of `C1`.
pub ghost struct Control {
    /// `MST`.
    pub master: bool,
    /// `TX`.
    pub tx: bool,
    /// `TXAK`.
    pub txak: bool,
    /// `DMAEN`.
    pub dmaen: bool,
}

/// The state of the line.
pub ghost struct Line {
    /// A START was made, repeated or not, whose address byte is still to come.
    pub addressing: Option<bool>,
    /// The data register was waited for since the last START.
    pub empty: bool,
    /// The bus was waited for since the last STOP.
    pub settled: bool,
    /// `F[MULT]` is cleared for a repeated START.
    pub slowed: bool,
    /// `S[IICIF]`: a byte is done and not acknowledged to the module.
    pub flag: bool,
}

impl Bus {
    /// Whether the module is ready for the next step of a transaction.
    pub open spec fn ready(self) -> bool {
        &&& self.in_order
        &&& self.line.addressing is None
        &&& self.line.settled
        &&& !self.line.slowed
        &&& !self.line.flag
        &&& !self.control.dmaen
    }

    /// Whether the module is master, and whether it transmits.
    pub open spec fn mode(self) -> (bool, bool) {
        (self.control.master, self.control.tx)
    }
}

/// The module and the bus after a read of the data register: while receiving it clocks in one more
/// byte, which is answered by `TXAK` as it is then.
pub open spec fn read_data(b: Bus) -> Bus {
    if b.control.master && !b.control.tx {
        Bus {
            events: b.events.push(transaction::BusEvent::Read { ack: !b.control.txak }),
            in_order: b.in_order && !b.line.flag,
            ..b
        }
    } else {
        b
    }
}

/// The module and the bus after an access.
#[verifier::opaque]
pub open spec fn wire_step(op: Op, b: Bus) -> Bus {
    match op {
        Op::Master => Bus {
            control: Control { master: true, tx: true, ..b.control },
            line: Line { addressing: Some(false), empty: false, ..b.line },
            in_order: b.in_order && !b.control.master && b.line.settled,
            ..b
        },
        Op::RepeatedStart => Bus {
            control: Control { tx: true, ..b.control },
            line: Line { addressing: Some(true), empty: false, ..b.line },
            in_order: b.in_order && b.control.master && b.line.slowed,
            ..b
        },
        Op::ClearMult => Bus { line: Line { slowed: true, ..b.line }, ..b },
        Op::RestoreF => Bus { line: Line { slowed: false, ..b.line }, ..b },
        Op::WaitEmpty => Bus { line: Line { empty: true, ..b.line }, ..b },
        Op::WriteData(byte) => Bus {
            line: Line { addressing: None, ..b.line },
            events: b.events.push(
                match b.line.addressing {
                    Some(repeated) => if repeated {
                        transaction::BusEvent::RepeatedStart(byte)
                    } else {
                        transaction::BusEvent::Start(byte)
                    },
                    None => transaction::BusEvent::Write(byte),
                },
            ),
            in_order: b.in_order && b.control.master && b.control.tx && !b.line.flag && (
            b.line.addressing is Some ==> b.line.empty && !b.line.slowed),
            ..b
        },
        Op::DummyRead => read_data(b),
        Op::ReadData { operation, slot } => Bus {
            filled: b.filled.push((operation as int, slot as int)),
            ..read_data(b)
        },
        Op::SetTx(tx) => Bus { control: Control { tx, ..b.control }, ..b },
        Op::SetTxak(txak) => Bus { control: Control { txak, ..b.control }, ..b },
        Op::SetReceive { txak } => Bus { control: Control { tx: false, txak, ..b.control }, ..b },
        Op::SetDmaen(dmaen) => Bus { control: Control { dmaen, ..b.control }, ..b },
        Op::Release => Bus {
            control: Control { master: false, tx: false, txak: false, ..b.control },
            line: Line { settled: false, ..b.line },
            events: if b.control.master {
                b.events.push(transaction::BusEvent::Stop)
            } else {
                b.events
            },
            ..b
        },
        Op::WaitIdle => Bus { line: Line { settled: true, ..b.line }, ..b },
        Op::ClearIicif => Bus { line: Line { flag: false, ..b.line }, ..b },
        _ => b,
    }
}

/// The module and the bus after the first `n` of some accesses.
pub open spec fn wire_after(ops: Seq<Op>, n: int, from: Bus) -> Bus
    decreases n,
{
    if n <= 0 {
        from
    } else {
        wire_step(ops[n - 1], wire_after(ops, n - 1, from))
    }
}

/// The module and the bus after what a transaction waited for has come: a byte sets its flag, and the
/// DMA controller has moved the bytes of the step, each by an access to the data register.
pub open spec fn awaited(wait: Wait, step: Step, operations: Seq<Operation>, b: Bus) -> Bus {
    match wait {
        Wait::Byte | Wait::ByteAfterDma => Bus { line: Line { flag: true, ..b.line }, ..b },
        Wait::Dma => match step {
            Step::SendDma { operation, offset, count, .. } => Bus {
                events: b.events + Seq::new(
                    count as nat,
                    |k: int|
                        transaction::BusEvent::Write(
                            operations[operation as int].bytes()[offset + 1 + k],
                        ),
                ),
                in_order: b.in_order && b.control.dmaen && b.control.master && b.control.tx,
                ..b
            },
            Step::ReceiveDma { operation, slot, count } => Bus {
                events: b.events + Seq::new(
                    count as nat,
                    |k: int| transaction::BusEvent::Read { ack: !b.control.txak },
                ),
                filled: b.filled + Seq::new(count as nat, |k: int| (operation as int, slot + k)),
                in_order: b.in_order && b.control.dmaen && b.control.master && !b.control.tx,
                ..b
            },
            _ => Bus { in_order: false, ..b },
        },
        _ => b,
    }
}

/// The module and the bus after a number of events at which everything goes well, and the accesses
/// that a transaction makes at them.
pub open spec fn wire_on(
    steps: Seq<Step>,
    operations: Seq<Operation>,
    now: transaction::Progress,
    b: Bus,
    events: nat,
) -> Bus
    decreases events,
{
    if events == 0 {
        b
    } else {
        let (next, ops) = transaction::advance_to(
            steps,
            now,
            transaction::favourable(now.wait),
        );
        wire_on(
            steps,
            operations,
            next,
            wire_after(ops, ops.len() as int, awaited(now.wait, steps[now.at], operations, b)),
            (events - 1) as nat,
        )
    }
}

/// The mode after a step.
pub open spec fn mode_after(step: Step, mode: (bool, bool)) -> (bool, bool) {
    match step {
        Step::Start { .. } => (true, true),
        Step::Transmit => (mode.0, true),
        Step::Receive { .. } => (mode.0, false),
        Step::Take { before, .. } => match before {
            Before::Stop => (false, false),
            Before::Hold => (mode.0, true),
            _ => mode,
        },
        Step::Stop => (false, false),
        _ => mode,
    }
}

/// Whether a step may come in a mode.
pub open spec fn mode_fits(step: Step, mode: (bool, bool)) -> bool {
    match step {
        Step::Start { repeated, .. } => mode.0 == repeated,
        Step::Transmit | Step::Receive { .. } | Step::Stop => mode.0,
        Step::Send(_) | Step::SendDma { .. } => mode == (true, true),
        Step::ReceiveDma { .. } | Step::Take { .. } => mode == (true, false),
        Step::Fail => !mode.0,
    }
}

/// The mode after the steps below `n`.
pub open spec fn mode_at(steps: Seq<Step>, n: int, mode: (bool, bool)) -> (bool, bool)
    decreases n,
{
    if n <= 0 {
        mode
    } else {
        mode_after(steps[n - 1], mode_at(steps, n - 1, mode))
    }
}

/// Whether every step may come where it comes.
pub open spec fn orderly(steps: Seq<Step>, mode: (bool, bool)) -> bool {
    forall|k: int| 0 <= k < steps.len() ==> mode_fits(#[trigger] steps[k], mode_at(steps, k, mode))
}

// ---------------------------------------------------------------------------------------------
// Plans are orderly
// ---------------------------------------------------------------------------------------------

proof fn lemma_mode_prefix(a: Seq<Step>, b: Seq<Step>, n: int, mode: (bool, bool))
    requires
        0 <= n <= a.len(),
    ensures
        mode_at(a + b, n, mode) == mode_at(a, n, mode),
    decreases n,
{
    if n > 0 {
        lemma_mode_prefix(a, b, n - 1, mode);
        assert((a + b)[n - 1] == a[n - 1]);
    }
}

proof fn lemma_mode_append(a: Seq<Step>, b: Seq<Step>, n: int, mode: (bool, bool))
    requires
        0 <= n <= b.len(),
    ensures
        mode_at(a + b, a.len() + n, mode) == mode_at(b, n, mode_at(a, a.len() as int, mode)),
    decreases n,
{
    if n > 0 {
        lemma_mode_append(a, b, n - 1, mode);
        assert((a + b)[a.len() + n - 1] == b[n - 1]);
    } else {
        lemma_mode_prefix(a, b, a.len() as int, mode);
    }
}

proof fn lemma_orderly_append(a: Seq<Step>, b: Seq<Step>, mode: (bool, bool))
    requires
        orderly(a, mode),
        orderly(b, mode_at(a, a.len() as int, mode)),
    ensures
        orderly(a + b, mode),
        mode_at(a + b, (a + b).len() as int, mode) == mode_at(
            b,
            b.len() as int,
            mode_at(a, a.len() as int, mode),
        ),
{
    lemma_mode_append(a, b, b.len() as int, mode);
    assert forall|k: int| 0 <= k < (a + b).len() implies mode_fits(
        #[trigger] (a + b)[k],
        mode_at(a + b, k, mode),
    ) by {
        if k < a.len() {
            lemma_mode_prefix(a, b, k, mode);
            assert((a + b)[k] == a[k]);
        } else {
            lemma_mode_append(a, b, k - a.len(), mode);
            assert((a + b)[k] == b[k - a.len()]);
        }
    }
}

proof fn lemma_sends_stay(steps: Seq<Step>, n: int)
    requires
        0 <= n <= steps.len(),
        forall|k: int|
            0 <= k < steps.len() ==> #[trigger] steps[k] is Send || steps[k] is SendDma,
    ensures
        mode_at(steps, n, (true, true)) == (true, true),
    decreases n,
{
    if n > 0 {
        lemma_sends_stay(steps, n - 1);
        assert(steps[n - 1] is Send || steps[n - 1] is SendDma);
    }
}

proof fn lemma_dma_sends_only(operation: int, bytes: Seq<u8>, offset: int)
    requires
        0 <= offset <= bytes.len(),
    ensures
        ({
            let steps = transaction::dma_send_steps(operation, bytes, offset);
            forall|k: int|
                0 <= k < steps.len() ==> #[trigger] steps[k] is Send || steps[k] is SendDma
        }),
    decreases bytes.len() - offset,
{
    let left = bytes.len() - offset;
    if left >= 2 {
        let count = transaction::dma_count(left - 1);
        lemma_dma_sends_only(operation, bytes, offset + 1 + count);
    }
}

proof fn lemma_writes_only(operations: Seq<Operation>, i: int, end: int, dma: bool)
    requires
        0 <= i <= end <= operations.len(),
    ensures
        ({
            let steps = transaction::write_steps(operations, i, end, dma);
            forall|k: int|
                0 <= k < steps.len() ==> #[trigger] steps[k] is Send || steps[k] is SendDma
        }),
    decreases end - i,
{
    if i < end {
        lemma_writes_only(operations, i + 1, end, dma);
        lemma_dma_sends_only(i, operations[i].bytes(), 0);
    }
}

/// The mode in which a run of reads leaves the module.
pub open spec fn run_mode(last_run: bool) -> (bool, bool) {
    if last_run {
        (false, false)
    } else {
        (true, true)
    }
}

proof fn lemma_takes_orderly(
    operations: Seq<Operation>,
    i: int,
    slot: int,
    end: int,
    remaining: int,
    after_dma: bool,
    last_run: bool,
)
    requires
        0 <= i <= end <= operations.len(),
        0 <= slot,
        i < end ==> slot <= operations[i].len(),
        i == end ==> slot == 0,
        remaining == transaction::run_len(operations, i, end) - slot,
    ensures
        ({
            let steps = transaction::take_steps(
                operations,
                i,
                slot,
                end,
                remaining,
                after_dma,
                last_run,
            );
            &&& remaining >= 1 ==> orderly(steps, (true, false)) && mode_at(
                steps,
                steps.len() as int,
                (true, false),
            ) == run_mode(last_run)
            &&& remaining <= 0 ==> steps.len() == 0
            &&& forall|k: int| 0 <= k < steps.len() ==> !(#[trigger] steps[k] is Fail)
        }),
    decreases end - i, (if i < end { operations[i].len() - slot } else { 0 }),
{
    let steps = transaction::take_steps(operations, i, slot, end, remaining, after_dma, last_run);
    if i < end {
        transaction::lemma_run_len(operations, i + 1, end);
        if slot >= operations[i].len() {
            lemma_takes_orderly(operations, i + 1, 0, end, remaining, after_dma, last_run);
        } else {
            let step = Step::Take {
                operation: i as usize,
                slot: slot as usize,
                after_dma,
                before: transaction::before_byte(remaining, last_run),
            };
            let rest = transaction::take_steps(
                operations,
                i,
                slot + 1,
                end,
                remaining - 1,
                false,
                last_run,
            );
            lemma_takes_orderly(operations, i, slot + 1, end, remaining - 1, false, last_run);
            let first = seq![step];
            assert(steps =~= first + rest);
            reveal_with_fuel(mode_at, 2);
            assert(orderly(first, (true, false)));
            if remaining >= 2 {
                lemma_orderly_append(first, rest, (true, false));
            } else {
                assert(steps =~= first);
            }
        }
    }
}

proof fn lemma_dma_takes_orderly(
    operations: Seq<Operation>,
    i: int,
    slot: int,
    remaining: int,
    last_run: bool,
)
    requires
        0 <= i < operations.len(),
        0 <= slot,
        1 <= remaining,
        remaining == operations[i].len() - slot,
    ensures
        ({
            let steps = transaction::dma_take_steps(operations, i, slot, remaining, last_run);
            &&& orderly(steps, (true, false))
            &&& mode_at(steps, steps.len() as int, (true, false)) == run_mode(last_run)
            &&& forall|k: int| 0 <= k < steps.len() ==> !(#[trigger] steps[k] is Fail)
        }),
    decreases remaining,
{
    let steps = transaction::dma_take_steps(operations, i, slot, remaining, last_run);
    transaction::lemma_one_read(operations, i);
    if remaining >= 3 {
        let count = transaction::dma_count(remaining - 2);
        let moved = Step::ReceiveDma {
            operation: i as usize,
            slot: slot as usize,
            count: count as usize,
        };
        let first = seq![moved];
        reveal_with_fuel(mode_at, 2);
        assert(orderly(first, (true, false)));
        if remaining - count == 2 {
            let rest = transaction::take_steps(operations, i, slot + count, i + 1, 2, true, last_run);
            lemma_takes_orderly(operations, i, slot + count, i + 1, 2, true, last_run);
            lemma_orderly_append(first, rest, (true, false));
            assert(steps =~= first + rest);
        } else {
            let byte = Step::Take {
                operation: i as usize,
                slot: (slot + count) as usize,
                after_dma: true,
                before: Before::Nothing,
            };
            let rest = transaction::dma_take_steps(
                operations,
                i,
                slot + count + 1,
                remaining - count - 1,
                last_run,
            );
            lemma_dma_takes_orderly(
                operations,
                i,
                slot + count + 1,
                remaining - count - 1,
                last_run,
            );
            let second = seq![byte];
            assert(orderly(second, (true, false)));
            lemma_orderly_append(second, rest, (true, false));
            lemma_orderly_append(first, second + rest, (true, false));
            assert(steps =~= first + (second + rest));
        }
    } else {
        lemma_takes_orderly(operations, i, slot, i + 1, remaining, false, last_run);
    }
}

proof fn lemma_pair(a: Step, b: Step, mode: (bool, bool))
    requires
        mode_fits(a, mode),
        mode_fits(b, mode_after(a, mode)),
    ensures
        orderly(seq![a, b], mode),
        mode_at(seq![a, b], 2, mode) == mode_after(b, mode_after(a, mode)),
{
    reveal_with_fuel(mode_at, 3);
}

proof fn lemma_plan_orderly(
    address: u8,
    operations: Seq<Operation>,
    dma: bool,
    i: int,
    started: bool,
    tx: bool,
)
    requires
        0 <= i <= operations.len(),
    ensures
        ({
            let steps = transaction::plan_steps(address, operations, dma, i, started, false);
            &&& orderly(steps, (started, tx))
            &&& !mode_at(steps, steps.len() as int, (started, tx)).0
        }),
    decreases operations.len() - i,
{
    let steps = transaction::plan_steps(address, operations, dma, i, started, false);
    if i >= operations.len() {
        reveal_with_fuel(mode_at, 2);
    } else {
        let read = operations[i].is_read();
        transaction::lemma_run_end(operations, i, read);
        let end = transaction::run_end(operations, i, read);
        let total = transaction::run_len(operations, i, end);
        let start = Step::Start {
            repeated: started,
            byte: transaction::address_byte(address, read),
        };
        if !read {
            let head = seq![start, Step::Transmit];
            let body = transaction::write_steps(operations, i, end, dma);
            let rest = transaction::plan_steps(address, operations, dma, end, true, false);
            lemma_writes_only(operations, i, end, dma);
            assert forall|k: int| 0 <= k < body.len() implies mode_fits(
                #[trigger] body[k],
                mode_at(body, k, (true, true)),
            ) by {
                lemma_sends_stay(body, k);
            }
            lemma_sends_stay(body, body.len() as int);
            lemma_plan_orderly(address, operations, dma, end, true, true);
            lemma_pair(head[0], head[1], (started, tx));
            assert(mode_at(head, 2, (started, tx)) == (true, true));
            lemma_orderly_append(head, body, (started, tx));
            lemma_orderly_append(head + body, rest, (started, tx));
            assert(steps =~= head + body + rest);
        } else if total != 0 {
            transaction::lemma_run_len(operations, i, end);
            let head = seq![start, Step::Receive { nack: total == 1 }];
            let body = transaction::read_steps(operations, i, end, dma);
            let last_run = end == operations.len();
            let rest = transaction::plan_steps(address, operations, dma, end, true, last_run);
            if end == i + 1 && dma {
                transaction::lemma_one_read(operations, i);
                lemma_dma_takes_orderly(operations, i, 0, total, last_run);
            } else {
                lemma_takes_orderly(operations, i, 0, end, total, false, last_run);
            }
            lemma_pair(head[0], head[1], (started, tx));
            assert(mode_at(head, 2, (started, tx)) == (true, false));
            lemma_orderly_append(head, body, (started, tx));
            assert(steps =~= head + body + rest);
            if last_run {
                assert(rest =~= Seq::<Step>::empty());
                assert(steps =~= head + body);
            } else {
                lemma_plan_orderly(address, operations, dma, end, true, true);
                lemma_orderly_append(head + body, rest, (started, tx));
            }
        } else {
            let tail = seq![Step::Fail];
            reveal_with_fuel(mode_at, 2);
            if started {
                let stop = seq![Step::Stop];
                assert(steps =~= stop + tail);
                assert(orderly(stop, (started, tx)));
                assert(orderly(tail, (false, false)));
                lemma_orderly_append(stop, tail, (started, tx));
            } else {
                assert(steps =~= tail);
            }
        }
    }
}

/// A plan gives up, if it does, with its last step.
proof fn lemma_gives_up_last(
    address: u8,
    operations: Seq<Operation>,
    dma: bool,
    i: int,
    started: bool,
)
    requires
        0 <= i <= operations.len(),
    ensures
        ({
            let steps = transaction::plan_steps(address, operations, dma, i, started, false);
            forall|k: int|
                0 <= k < steps.len() && #[trigger] steps[k] is Fail ==> k == steps.len() - 1
        }),
    decreases operations.len() - i,
{
    let steps = transaction::plan_steps(address, operations, dma, i, started, false);
    if i < operations.len() {
        let read = operations[i].is_read();
        transaction::lemma_run_end(operations, i, read);
        let end = transaction::run_end(operations, i, read);
        let total = transaction::run_len(operations, i, end);
        let last_run = read && end == operations.len();
        let rest = transaction::plan_steps(address, operations, dma, end, true, last_run);
        if !last_run {
            lemma_gives_up_last(address, operations, dma, end, true);
        }
        let start = Step::Start {
            repeated: started,
            byte: transaction::address_byte(address, read),
        };
        if !read {
            let head = seq![start, Step::Transmit];
            let body = transaction::write_steps(operations, i, end, dma);
            lemma_writes_only(operations, i, end, dma);
            lemma_gives_up_behind(steps, head, body, rest);
        } else if total != 0 {
            transaction::lemma_run_len(operations, i, end);
            let head = seq![start, Step::Receive { nack: total == 1 }];
            let body = transaction::read_steps(operations, i, end, dma);
            if end == i + 1 && dma {
                transaction::lemma_one_read(operations, i);
                lemma_dma_takes_orderly(operations, i, 0, total, last_run);
            } else {
                lemma_takes_orderly(operations, i, 0, end, total, false, last_run);
            }
            lemma_gives_up_behind(steps, head, body, rest);
        }
    }
}

proof fn lemma_gives_up_behind(
    steps: Seq<Step>,
    head: Seq<Step>,
    body: Seq<Step>,
    rest: Seq<Step>,
)
    requires
        steps == head + body + rest,
        forall|k: int| 0 <= k < head.len() ==> !(#[trigger] head[k] is Fail),
        forall|k: int| 0 <= k < body.len() ==> !(#[trigger] body[k] is Fail),
        forall|k: int| 0 <= k < rest.len() && #[trigger] rest[k] is Fail ==> k == rest.len() - 1,
    ensures
        forall|k: int|
            0 <= k < steps.len() && #[trigger] steps[k] is Fail ==> k == steps.len() - 1,
{
    assert forall|k: int| 0 <= k < steps.len() && #[trigger] steps[k] is Fail implies k
        == steps.len() - 1 by {
        if k < head.len() {
            assert(steps[k] == head[k]);
        } else if k < head.len() + body.len() {
            assert(steps[k] == body[k - head.len()]);
        } else {
            assert(steps[k] == rest[k - head.len() - body.len()]);
        }
    }
}

/// Whether the operations from `i` to `end` are a run: all in one direction, up to where that
/// changes or the transaction ends.
pub open spec fn is_run(operations: Seq<Operation>, i: int, end: int) -> bool {
    &&& 0 <= i < end <= operations.len()
    &&& forall|j: int| i <= j < end ==> #[trigger] operations[j] is Read == operations[i] is Read
    &&& end < operations.len() ==> operations[end] is Read != operations[i] is Read
}

proof fn lemma_is_run(operations: Seq<Operation>, i: int, end: int, from: int)
    requires
        is_run(operations, i, end),
        i <= from <= end,
    ensures
        transaction::run_end(operations, from, operations[i].is_read()) == end,
    decreases end - from,
{
    if from < end {
        assert(operations[from] is Read == operations[i] is Read);
        lemma_is_run(operations, i, end, from + 1);
    }
}

/// Whether the operations from `i` to `end` are a run of reads of no bytes at all.
pub open spec fn empty_run(operations: Seq<Operation>, i: int, end: int) -> bool {
    &&& is_run(operations, i, end)
    &&& i == 0 || operations[i - 1] is Write
    &&& forall|j: int| i <= j < end ==> #[trigger] operations[j] == Operation::Read(0)
}

proof fn lemma_zero(operations: Seq<Operation>, i: int, end: int)
    requires
        0 <= i <= end <= operations.len(),
        forall|j: int| i <= j < end ==> #[trigger] operations[j] is Read,
    ensures
        transaction::run_len(operations, i, end) == 0 <==> forall|j: int|
            i <= j < end ==> #[trigger] operations[j] == Operation::Read(0),
    decreases end - i,
{
    if i < end {
        lemma_zero(operations, i + 1, end);
        transaction::lemma_run_len(operations, i + 1, end);
        assert(operations[i] is Read);
    }
}

/// How the plan of a run ends.
proof fn lemma_last_step(
    address: u8,
    operations: Seq<Operation>,
    dma: bool,
    i: int,
    started: bool,
)
    requires
        0 <= i < operations.len(),
    ensures
        ({
            let steps = transaction::plan_steps(address, operations, dma, i, started, false);
            let read = operations[i].is_read();
            let end = transaction::run_end(operations, i, read);
            let total = transaction::run_len(operations, i, end);
            let rest = transaction::plan_steps(address, operations, dma, end, true, false);
            &&& steps.len() > 0
            &&& (steps.last() is Fail) == if read && total == 0 {
                true
            } else if read && end == operations.len() {
                false
            } else {
                rest.last() is Fail
            }
        }),
{
    let steps = transaction::plan_steps(address, operations, dma, i, started, false);
    let read = operations[i].is_read();
    transaction::lemma_run_end(operations, i, read);
    let end = transaction::run_end(operations, i, read);
    let total = transaction::run_len(operations, i, end);
    let last_run = read && end == operations.len();
    let rest = transaction::plan_steps(address, operations, dma, end, true, last_run);
    lemma_goes_on(address, operations, dma, end);
    if read && total != 0 && last_run {
        let body = transaction::read_steps(operations, i, end, dma);
        transaction::lemma_run_len(operations, i, end);
        if end == i + 1 && dma {
            transaction::lemma_one_read(operations, i);
            lemma_dma_takes_orderly(operations, i, 0, total, last_run);
        } else {
            lemma_takes_orderly(operations, i, 0, end, total, false, last_run);
        }
        if body.len() > 0 {
            assert(steps.last() == body.last());
        }
    } else if !(read && total == 0) {
        assert(steps.last() == rest.last());
    }
}

/// An empty run of reads at or behind a run is that run, or behind it.
proof fn lemma_empty_run_behind(operations: Seq<Operation>, i: int, end: int, a: int, b: int)
    requires
        is_run(operations, i, end),
        i <= a,
        empty_run(operations, a, b),
    ensures
        end <= a || operations[i] is Read && transaction::run_len(operations, i, end) == 0,
{
    assert(operations[a] is Read);
    if a < end {
        assert(operations[a] is Read == operations[i] is Read);
        if a > i {
            assert(operations[a - 1] is Read == operations[i] is Read);
        } else {
            lemma_is_run(operations, a, b, a);
            lemma_is_run(operations, i, end, i);
            lemma_zero(operations, i, end);
        }
    }
}

/// A plan gives up exactly if it comes to a run of reads of no bytes at all.
proof fn lemma_gives_up(
    address: u8,
    operations: Seq<Operation>,
    dma: bool,
    i: int,
    started: bool,
)
    requires
        0 <= i <= operations.len(),
        0 < i < operations.len() ==> operations[i - 1] is Read != operations[i] is Read,
    ensures
        ({
            let steps = transaction::plan_steps(address, operations, dma, i, started, false);
            (steps.len() > 0 && steps.last() is Fail) <==> exists|a: int, b: int|
                i <= a && #[trigger] empty_run(operations, a, b)
        }),
    decreases operations.len() - i,
{
    let steps = transaction::plan_steps(address, operations, dma, i, started, false);
    if i < operations.len() {
        let read = operations[i].is_read();
        transaction::lemma_run_end(operations, i, read);
        let end = transaction::run_end(operations, i, read);
        let total = transaction::run_len(operations, i, end);
        assert(is_run(operations, i, end)) by {
            assert forall|j: int| i <= j < end implies #[trigger] operations[j] is Read
                == operations[i] is Read by {
                assert(operations[j].is_read() == read);
            }
        }
        lemma_last_step(address, operations, dma, i, started);
        if end < operations.len() {
            assert(operations[end - 1] is Read == operations[i] is Read);
        }
        lemma_gives_up(address, operations, dma, end, true);
        lemma_goes_on(address, operations, dma, end);
        let here = exists|a: int, b: int| i <= a && #[trigger] empty_run(operations, a, b);
        let behind = exists|a: int, b: int| end <= a && #[trigger] empty_run(operations, a, b);
        if read && total == 0 {
            lemma_zero(operations, i, end);
            assert(empty_run(operations, i, end));
        } else if here {
            let (a, b) = choose|a: int, b: int| i <= a && #[trigger] empty_run(operations, a, b);
            lemma_empty_run_behind(operations, i, end, a, b);
            assert(behind);
        }
        if behind && end == operations.len() {
            let (a, b) = choose|a: int, b: int| end <= a && #[trigger] empty_run(operations, a, b);
            assert(false);
        }
    }
}

/// A plan that has begun is not over.
proof fn lemma_goes_on(address: u8, operations: Seq<Operation>, dma: bool, i: int)
    requires
        0 <= i <= operations.len(),
    ensures
        transaction::plan_steps(address, operations, dma, i, true, false).len() > 0,
{
}

// ---------------------------------------------------------------------------------------------
// Steps on the wire
// ---------------------------------------------------------------------------------------------

proof fn lemma_wire_prefix(a: Seq<Op>, b: Seq<Op>, n: int, from: Bus)
    requires
        0 <= n <= a.len(),
    ensures
        wire_after(a + b, n, from) == wire_after(a, n, from),
    decreases n,
{
    if n > 0 {
        lemma_wire_prefix(a, b, n - 1, from);
        assert((a + b)[n - 1] == a[n - 1]);
    }
}

proof fn lemma_wire_append(a: Seq<Op>, b: Seq<Op>, n: int, from: Bus)
    requires
        0 <= n <= b.len(),
    ensures
        wire_after(a + b, a.len() + n, from) == wire_after(
            b,
            n,
            wire_after(a, a.len() as int, from),
        ),
    decreases n,
{
    if n > 0 {
        lemma_wire_append(a, b, n - 1, from);
        assert((a + b)[a.len() + n - 1] == b[n - 1]);
    } else {
        lemma_wire_prefix(a, b, a.len() as int, from);
    }
}

proof fn lemma_one(op: Op, from: Bus)
    ensures
        wire_after(seq![op], 1, from) == wire_step(op, from),
{
    reveal_with_fuel(wire_after, 2);
}

proof fn lemma_two(a: Op, b: Op, from: Bus)
    ensures
        wire_after(seq![a, b], 2, from) == wire_step(b, wire_step(a, from)),
{
    reveal_with_fuel(wire_after, 3);
}

/// The bus after a START and its address byte.
proof fn lemma_start(byte: u8, from: Bus)
    requires
        from.ready(),
        !from.control.master,
    ensures
        ({
            let ops = transaction::start_program(byte);
            wire_after(ops, ops.len() as int, from) == (Bus {
                control: Control { master: true, tx: true, ..from.control },
                line: Line { empty: true, ..from.line },
                events: from.events.push(transaction::BusEvent::Start(byte)),
                ..from
            })
        }),
{
    let ops = transaction::start_program(byte);
    assert(ops.len() == 3);
    reveal(wire_step);
    reveal_with_fuel(wire_after, 4);
}

/// The bus after a repeated START and its address byte.
proof fn lemma_repeated_start(byte: u8, from: Bus)
    requires
        from.ready(),
        from.control.master,
    ensures
        ({
            let ops = transaction::repeated_start_program(byte);
            wire_after(ops, ops.len() as int, from) == (Bus {
                control: Control { tx: true, ..from.control },
                line: Line { empty: true, ..from.line },
                events: from.events.push(transaction::BusEvent::RepeatedStart(byte)),
                ..from
            })
        }),
{
    let ops = transaction::repeated_start_program(byte);
    assert(ops.len() == 6);
    let c1 = Bus { line: Line { slowed: true, ..from.line }, ..from };
    assert(wire_after(ops, 1, from) == c1) by {
        reveal(wire_step);
        assert(wire_after(ops, 0, from) == from);
    }
    let c2 = Bus {
        control: Control { tx: true, ..c1.control },
        line: Line { addressing: Some(true), empty: false, ..c1.line },
        ..c1
    };
    assert(wire_after(ops, 2, from) == c2) by {
        reveal(wire_step);
    }
    let c3 = Bus { line: Line { slowed: false, ..c2.line }, ..c2 };
    assert(wire_after(ops, 3, from) == c3) by {
        reveal(wire_step);
    }
    assert(wire_after(ops, 4, from) == c3) by {
        reveal(wire_step);
    }
    let c5 = Bus { line: Line { empty: true, ..c3.line }, ..c3 };
    assert(wire_after(ops, 5, from) == c5) by {
        reveal(wire_step);
    }
    assert(wire_after(ops, 6, from) == (Bus {
        line: Line { addressing: None, ..c5.line },
        events: c5.events.push(transaction::BusEvent::RepeatedStart(byte)),
        ..c5
    })) by {
        reveal(wire_step);
    }
}

/// The bus after a STOP.
proof fn lemma_stop(from: Bus)
    requires
        from.ready(),
        from.control.master,
    ensures
        ({
            let ops = transaction::stop_program();
            wire_after(ops, ops.len() as int, from) == (Bus {
                control: Control { master: false, tx: false, txak: false, ..from.control },
                events: from.events.push(transaction::BusEvent::Stop),
                ..from
            })
        }),
{
    let ops = transaction::stop_program();
    assert(ops.len() == 2);
    reveal(wire_step);
    reveal_with_fuel(wire_after, 3);
}

/// The bus after a received byte has been read out, from the moment that it is done.
proof fn lemma_take(operation: usize, slot: usize, before: Before, from: Bus)
    requires
        from.in_order,
        from.line.addressing is None,
        from.line.settled,
        !from.line.slowed,
        !from.control.dmaen,
        from.mode() == (true, false),
    ensures
        ({
            let ops = seq![Op::ClearIicif] + transaction::before_program(before) + seq![
                Op::ReadData { operation, slot },
            ];
            let to = wire_after(ops, ops.len() as int, from);
            let step = Step::Take { operation, slot, after_dma: false, before };
            &&& to.ready()
            &&& to.mode() == mode_after(step, from.mode())
            &&& to.control.txak == transaction::txak_after(step, from.control.txak)
            &&& to.events == from.events + transaction::step_trace(
                step,
                Seq::empty(),
                from.control.txak,
            )
            &&& to.filled == from.filled.push((operation as int, slot as int))
        }),
{
    let first = seq![Op::ClearIicif];
    let middle = transaction::before_program(before);
    let last = seq![Op::ReadData { operation, slot }];
    let ops = first + middle + last;
    let a = Bus { line: Line { flag: false, ..from.line }, ..from };
    assert(wire_after(first, 1, from) == a) by {
        lemma_one(Op::ClearIicif, from);
        reveal(wire_step);
    }
    let b = wire_after(middle, middle.len() as int, a);
    let c = wire_after(last, 1, b);
    lemma_wire_append(first, middle, middle.len() as int, from);
    lemma_wire_append(first + middle, last, 1, from);
    lemma_one(Op::ReadData { operation, slot }, b);
    let step = Step::Take { operation, slot, after_dma: false, before };
    let trace = transaction::step_trace(step, Seq::empty(), from.control.txak);
    match before {
        Before::Stop => {
            lemma_stop(a);
        },
        Before::Hold => {
            lemma_one(Op::SetTx(true), a);
        },
        Before::NackNext => {
            lemma_one(Op::SetTxak(true), a);
        },
        Before::Nothing => {
            assert(wire_after(middle, 0, a) == a);
        },
    }
    reveal(wire_step);
    assert(c.events =~= from.events + trace);
}

/// Whether a number of events takes a transaction through its step where everything goes well, and
/// what that does on the wire is what the step is to do.
spec fn done_after(
    steps: Seq<Step>,
    operations: Seq<Operation>,
    at: int,
    b: Bus,
    events: nat,
) -> bool {
    let now = transaction::Progress { at, wait: Wait::Nothing };
    let to = wire_on(steps, operations, now, b, events);
    &&& transaction::go_on(steps, now, events) == (transaction::Progress {
        at: at + 1,
        wait: Wait::Nothing,
    })
    &&& to.ready()
    &&& to.mode() == mode_after(steps[at], b.mode())
    &&& to.control.txak == transaction::txak_after(steps[at], b.control.txak)
    &&& to.events == b.events + transaction::step_trace(steps[at], operations, b.control.txak)
    &&& to.filled == b.filled + transaction::step_filled(steps[at])
}

proof fn lemma_transmit(steps: Seq<Step>, operations: Seq<Operation>, at: int, b: Bus) -> (events: nat)
    requires
        0 <= at < steps.len(),
        steps[at] is Transmit,
        b.ready(),
        mode_fits(steps[at], b.mode()),
        transaction::step_fits(steps[at], operations),
    ensures
        done_after(steps, operations, at, b, events),
{
    let now = transaction::Progress { at, wait: Wait::Nothing };
    let step = steps[at];
    let trace = transaction::step_trace(step, operations, b.control.txak);
    let filled = transaction::step_filled(step);
    reveal_with_fuel(transaction::go_on, 4);
    lemma_one(Op::SetTx(true), b);
    let to = wire_step(Op::SetTx(true), b);
    assert(wire_on(steps, operations, now, b, 1) == to) by {
        reveal_with_fuel(wire_on, 2);
    }
    reveal(wire_step);
    assert(to.events =~= b.events + trace);
    assert(to.filled =~= b.filled + filled);
    1
}

proof fn lemma_receive(steps: Seq<Step>, operations: Seq<Operation>, at: int, b: Bus) -> (events: nat)
    requires
        0 <= at < steps.len(),
        steps[at] is Receive,
        b.ready(),
        mode_fits(steps[at], b.mode()),
        transaction::step_fits(steps[at], operations),
    ensures
        done_after(steps, operations, at, b, events),
{
    let now = transaction::Progress { at, wait: Wait::Nothing };
    let step = steps[at];
    let trace = transaction::step_trace(step, operations, b.control.txak);
    let filled = transaction::step_filled(step);
    let nack = step->nack;
    reveal_with_fuel(transaction::go_on, 4);
    lemma_two(Op::SetReceive { txak: nack }, Op::DummyRead, b);
    let to = wire_step(Op::DummyRead, wire_step(Op::SetReceive { txak: nack }, b));
    assert(wire_on(steps, operations, now, b, 1) == to) by {
        reveal_with_fuel(wire_on, 2);
    }
    reveal(wire_step);
    assert(to.events =~= b.events + trace);
    assert(to.filled =~= b.filled + filled);
    1
}

proof fn lemma_stop_step(steps: Seq<Step>, operations: Seq<Operation>, at: int, b: Bus) -> (events: nat)
    requires
        0 <= at < steps.len(),
        steps[at] is Stop,
        b.ready(),
        mode_fits(steps[at], b.mode()),
        transaction::step_fits(steps[at], operations),
    ensures
        done_after(steps, operations, at, b, events),
{
    let now = transaction::Progress { at, wait: Wait::Nothing };
    let step = steps[at];
    let trace = transaction::step_trace(step, operations, b.control.txak);
    let filled = transaction::step_filled(step);
    reveal_with_fuel(transaction::go_on, 4);
    lemma_stop(b);
    let ops = transaction::stop_program();
    let to = wire_after(ops, ops.len() as int, b);
    assert(wire_on(steps, operations, now, b, 1) == to) by {
        reveal_with_fuel(wire_on, 2);
    }
    assert(to.events =~= b.events + trace);
    assert(to.filled =~= b.filled + filled);
    1
}

proof fn lemma_start_step(steps: Seq<Step>, operations: Seq<Operation>, at: int, b: Bus) -> (events: nat)
    requires
        0 <= at < steps.len(),
        steps[at] is Start,
        b.ready(),
        mode_fits(steps[at], b.mode()),
        transaction::step_fits(steps[at], operations),
    ensures
        done_after(steps, operations, at, b, events),
{
    let now = transaction::Progress { at, wait: Wait::Nothing };
    let step = steps[at];
    let trace = transaction::step_trace(step, operations, b.control.txak);
    let filled = transaction::step_filled(step);
    let (repeated, byte) = (step->repeated, step->byte);
    reveal_with_fuel(transaction::go_on, 4);
    let ops = if repeated {
        transaction::repeated_start_program(byte)
    } else {
        transaction::start_program(byte)
    };
    if repeated {
        lemma_repeated_start(byte, b);
    } else {
        lemma_start(byte, b);
        assert(wire_after(Seq::<Op>::empty(), 0, b) == b);
    }
    let mid = wire_after(ops, ops.len() as int, b);
    let done = Bus { line: Line { flag: true, ..mid.line }, ..mid };
    lemma_one(Op::ClearIicif, done);
    let to = wire_step(Op::ClearIicif, done);
    let count: nat = if repeated {
        2
    } else {
        3
    };
    assert(wire_on(steps, operations, now, b, count) == to) by {
        reveal_with_fuel(wire_on, 4);
    }
    reveal(wire_step);
    assert(to.events =~= b.events + trace);
    assert(to.filled =~= b.filled + filled);
    count
}

proof fn lemma_send(steps: Seq<Step>, operations: Seq<Operation>, at: int, b: Bus) -> (events: nat)
    requires
        0 <= at < steps.len(),
        steps[at] is Send,
        b.ready(),
        mode_fits(steps[at], b.mode()),
        transaction::step_fits(steps[at], operations),
    ensures
        done_after(steps, operations, at, b, events),
{
    let now = transaction::Progress { at, wait: Wait::Nothing };
    let step = steps[at];
    let trace = transaction::step_trace(step, operations, b.control.txak);
    let filled = transaction::step_filled(step);
    let byte = step->Send_0;
    reveal_with_fuel(transaction::go_on, 4);
    lemma_one(Op::WriteData(byte), b);
    let mid = wire_step(Op::WriteData(byte), b);
    let done = Bus { line: Line { flag: true, ..mid.line }, ..mid };
    lemma_one(Op::ClearIicif, done);
    let to = wire_step(Op::ClearIicif, done);
    assert(wire_on(steps, operations, now, b, 2) == to) by {
        reveal_with_fuel(wire_on, 3);
    }
    reveal(wire_step);
    assert(to.events =~= b.events + trace);
    assert(to.filled =~= b.filled + filled);
    2
}

proof fn lemma_send_dma(steps: Seq<Step>, operations: Seq<Operation>, at: int, b: Bus) -> (events: nat)
    requires
        0 <= at < steps.len(),
        steps[at] is SendDma,
        b.ready(),
        mode_fits(steps[at], b.mode()),
        transaction::step_fits(steps[at], operations),
    ensures
        done_after(steps, operations, at, b, events),
{
    let now = transaction::Progress { at, wait: Wait::Nothing };
    let step = steps[at];
    let trace = transaction::step_trace(step, operations, b.control.txak);
    let filled = transaction::step_filled(step);
    let (operation, offset, count, first) = (
        step->SendDma_operation,
        step->offset,
        step->SendDma_count,
        step->first,
    );
    reveal_with_fuel(transaction::go_on, 4);
    lemma_two(Op::SetDmaen(true), Op::WriteData(first), b);
    let mid = wire_step(Op::WriteData(first), wire_step(Op::SetDmaen(true), b));
    let moved = awaited(Wait::Dma, step, operations, mid);
    lemma_one(Op::SetDmaen(false), moved);
    let off = wire_step(Op::SetDmaen(false), moved);
    let done = Bus { line: Line { flag: true, ..off.line }, ..off };
    lemma_one(Op::ClearIicif, done);
    let to = wire_step(Op::ClearIicif, done);
    assert(wire_on(steps, operations, now, b, 3) == to) by {
        reveal_with_fuel(wire_on, 4);
    }
    reveal(wire_step);
    let bytes = operations[operation as int].bytes();
    assert(bytes.subrange(offset + 1, offset + 1 + count).len() == count);
    assert(to.events =~= b.events + trace);
    assert(to.filled =~= b.filled + filled);
    3
}

proof fn lemma_receive_dma(steps: Seq<Step>, operations: Seq<Operation>, at: int, b: Bus) -> (events: nat)
    requires
        0 <= at < steps.len(),
        steps[at] is ReceiveDma,
        b.ready(),
        mode_fits(steps[at], b.mode()),
        transaction::step_fits(steps[at], operations),
    ensures
        done_after(steps, operations, at, b, events),
{
    let now = transaction::Progress { at, wait: Wait::Nothing };
    let step = steps[at];
    let trace = transaction::step_trace(step, operations, b.control.txak);
    let filled = transaction::step_filled(step);
    let (operation, slot, count) = (
        step->ReceiveDma_operation,
        step->ReceiveDma_slot,
        step->ReceiveDma_count,
    );
    reveal_with_fuel(transaction::go_on, 4);
    lemma_one(Op::SetDmaen(true), b);
    let mid = wire_step(Op::SetDmaen(true), b);
    let moved = awaited(Wait::Dma, step, operations, mid);
    lemma_one(Op::SetDmaen(false), moved);
    let to = wire_step(Op::SetDmaen(false), moved);
    assert(wire_on(steps, operations, now, b, 2) == to) by {
        reveal_with_fuel(wire_on, 3);
    }
    reveal(wire_step);
    assert(to.events =~= b.events + trace);
    assert(to.filled =~= b.filled + filled);
    2
}

proof fn lemma_take_step(steps: Seq<Step>, operations: Seq<Operation>, at: int, b: Bus) -> (events: nat)
    requires
        0 <= at < steps.len(),
        steps[at] is Take,
        b.ready(),
        mode_fits(steps[at], b.mode()),
        transaction::step_fits(steps[at], operations),
    ensures
        done_after(steps, operations, at, b, events),
{
    let now = transaction::Progress { at, wait: Wait::Nothing };
    let step = steps[at];
    let trace = transaction::step_trace(step, operations, b.control.txak);
    let filled = transaction::step_filled(step);
    let (operation, slot, before) = (step->Take_operation, step->Take_slot, step->before);
    reveal_with_fuel(transaction::go_on, 4);
    let done = Bus { line: Line { flag: true, ..b.line }, ..b };
    lemma_take(operation, slot, before, done);
    assert(wire_after(Seq::<Op>::empty(), 0, b) == b);
    let ops = seq![Op::ClearIicif] + transaction::before_program(before) + seq![
        Op::ReadData { operation, slot },
    ];
    let to = wire_after(ops, ops.len() as int, done);
    assert(wire_on(steps, operations, now, b, 2) == to) by {
        reveal_with_fuel(wire_on, 3);
    }
    assert(to.filled =~= b.filled + filled);
    2
}

/// What one step of a transaction does on the wire where everything goes well.
proof fn lemma_step_on_the_wire(
    steps: Seq<Step>,
    operations: Seq<Operation>,
    at: int,
    b: Bus,
) -> (events: nat)
    requires
        0 <= at < steps.len(),
        !(steps[at] is Fail),
        b.ready(),
        mode_fits(steps[at], b.mode()),
        transaction::step_fits(steps[at], operations),
    ensures
        done_after(steps, operations, at, b, events),
{
    match steps[at] {
        Step::Transmit => lemma_transmit(steps, operations, at, b),
        Step::Receive { .. } => lemma_receive(steps, operations, at, b),
        Step::Stop => lemma_stop_step(steps, operations, at, b),
        Step::Start { .. } => lemma_start_step(steps, operations, at, b),
        Step::Send(_) => lemma_send(steps, operations, at, b),
        Step::SendDma { .. } => lemma_send_dma(steps, operations, at, b),
        Step::ReceiveDma { .. } => lemma_receive_dma(steps, operations, at, b),
        Step::Take { .. } => lemma_take_step(steps, operations, at, b),
        Step::Fail => 0,
    }
}

/// What the steps of a transaction from `at` on do on the wire where everything goes well.
proof fn lemma_steps_on_the_wire(
    steps: Seq<Step>,
    operations: Seq<Operation>,
    at: int,
    b: Bus,
    mode: (bool, bool),
) -> (events: nat)
    requires
        0 <= at <= steps.len(),
        b.ready(),
        b.mode() == mode_at(steps, at, mode),
        orderly(steps, mode),
        transaction::all_fit(steps, operations),
        forall|k: int|
            0 <= k < steps.len() && #[trigger] steps[k] is Fail ==> k == steps.len() - 1,
    ensures
        ({
            let now = transaction::Progress { at, wait: Wait::Nothing };
            let to = wire_on(steps, operations, now, b, events);
            &&& transaction::go_on(steps, now, events).wait == Wait::Finished(
                if at < steps.len() && steps.last() is Fail {
                    Err(Error::InvalidReadBufferLength)
                } else {
                    Ok(())
                },
            )
            &&& to.ready()
            &&& to.mode() == mode_at(steps, steps.len() as int, mode)
            &&& to.events == b.events + transaction::trace(
                steps.skip(at),
                operations,
                b.control.txak,
            )
            &&& to.filled == b.filled + transaction::filled(steps.skip(at))
        }),
    decreases steps.len() - at,
{
    let now = transaction::Progress { at, wait: Wait::Nothing };
    let rest = steps.skip(at);
    if at == steps.len() || steps[at] is Fail {
        reveal_with_fuel(transaction::go_on, 2);
        assert(wire_after(Seq::<Op>::empty(), 0, b) == b);
        assert(wire_on(steps, operations, now, b, 1) == b) by {
            reveal_with_fuel(wire_on, 2);
        }
        if at < steps.len() {
            assert(rest =~= seq![steps[at]]);
            transaction::lemma_single(steps[at], operations, b.control.txak);
        }
        assert(b.events + transaction::trace(rest, operations, b.control.txak) =~= b.events);
        assert(b.filled + transaction::filled(rest) =~= b.filled);
        1
    } else {
        let first = lemma_step_on_the_wire(steps, operations, at, b);
        let mid = wire_on(steps, operations, now, b, first);
        let next = transaction::Progress { at: at + 1, wait: Wait::Nothing };
        let later = lemma_steps_on_the_wire(steps, operations, at + 1, mid, mode);
        transaction::lemma_go_on_append(steps, now, first, later);
        lemma_wire_on_append(steps, operations, now, b, first, later);
        assert(rest.skip(1) =~= steps.skip(at + 1));
        let to = wire_on(steps, operations, now, b, first + later);
        assert(to.events =~= b.events + transaction::trace(rest, operations, b.control.txak));
        assert(to.filled =~= b.filled + transaction::filled(rest));
        first + later
    }
}

proof fn lemma_wire_on_append(
    steps: Seq<Step>,
    operations: Seq<Operation>,
    now: transaction::Progress,
    b: Bus,
    first: nat,
    later: nat,
)
    ensures
        wire_on(steps, operations, now, b, first + later) == wire_on(
            steps,
            operations,
            transaction::go_on(steps, now, first),
            wire_on(steps, operations, now, b, first),
            later,
        ),
    decreases first,
{
    if first > 0 {
        let (next, ops) = transaction::advance_to(
            steps,
            now,
            transaction::favourable(now.wait),
        );
        let b1 = wire_after(ops, ops.len() as int, awaited(now.wait, steps[now.at], operations, b));
        lemma_wire_on_append(steps, operations, next, b1, (first - 1) as nat, later);
    }
}

/// The accesses of a transaction put on the bus exactly what was asked for. On a free bus where the
/// slave acknowledges and nothing else goes wrong, with or without DMA and whatever `TXAK` was, the
/// accesses that a transaction hands out make the bus events of its operations and no others, fill
/// the slots of its reads in order, come when they may, and leave the bus free. It ends well, unless
/// there is a run of reads of no bytes at all.
pub proof fn law_transaction_on_the_wire(
    address: u8,
    operations: Seq<Operation>,
    dma: bool,
    b: Bus,
)
    requires
        operations.len() <= usize::MAX,
        transaction::countable(operations),
        b.ready(),
        !b.control.master,
    ensures
        ({
            let steps = transaction::transaction_steps(address, operations, dma);
            let now = transaction::Progress { at: 0, wait: Wait::Nothing };
            exists|events: nat|
                {
                    let to = #[trigger] wire_on(steps, operations, now, b, events);
                    &&& transaction::go_on(steps, now, events).wait == Wait::Finished(
                        if exists|i: int, end: int| #[trigger] empty_run(operations, i, end) {
                            Err(Error::InvalidReadBufferLength)
                        } else {
                            Ok(())
                        },
                    )
                    &&& to.events == b.events + transaction::bus_contract(
                        address,
                        operations,
                        0,
                        false,
                    )
                    &&& to.filled == b.filled + transaction::slot_contract(operations, 0)
                    &&& to.ready()
                    &&& !to.control.master
                }
        }),
{
    let steps = transaction::transaction_steps(address, operations, dma);
    let now = transaction::Progress { at: 0, wait: Wait::Nothing };
    lemma_plan_orderly(address, operations, dma, 0, false, b.control.tx);
    lemma_gives_up_last(address, operations, dma, 0, false);
    lemma_gives_up(address, operations, dma, 0, false);
    transaction::law_dma_steps_fit(address, operations, dma);
    transaction::law_bus_contract(address, operations, dma, b.control.txak);
    transaction::law_slots_in_order(address, operations, dma);
    let events = lemma_steps_on_the_wire(steps, operations, 0, b, b.mode());
    assert(steps.skip(0) =~= steps);
    assert(wire_on(steps, operations, now, b, events).ready());
}

// ---------------------------------------------------------------------------------------------
// What is asked for
// ---------------------------------------------------------------------------------------------

/// The address byte is the 7-bit address with the direction behind it: one for a read.
pub proof fn law_address_byte(address: u8, read: bool)
    requires
        address < 128,
    ensures
        transaction::address_byte(address, read) == 2 * address + if read {
            1int
        } else {
            0
        },
{
    assert((address << 1) | 1u8 == 2 * address + 1 && (address << 1) | 0u8 == 2 * address)
        by (bit_vector)
        requires
            address < 128,
    ;
}

/// A write on its own is a START with the address, its bytes in order, and a STOP.
pub proof fn law_write_alone(address: u8, operations: Seq<Operation>, k: int)
    requires
        address < 128,
        operations.len() == 1,
        operations[0] is Write,
    ensures
        ({
            let bytes = operations[0]->Write_0@;
            let events = transaction::bus_contract(address, operations, 0, false);
            &&& events.len() == bytes.len() + 2
            &&& events[0] == transaction::BusEvent::Start((2 * address) as u8)
            &&& 0 <= k < bytes.len() ==> events[k + 1] == transaction::BusEvent::Write(bytes[k])
            &&& events.last() == transaction::BusEvent::Stop
        }),
{
    law_address_byte(address, false);
    reveal_with_fuel(transaction::run_end, 2);
    reveal_with_fuel(transaction::run_bytes, 2);
    reveal_with_fuel(transaction::bus_contract, 2);
}

/// A read on its own is a START with the address, one byte after the other of which every one but
/// the last is acknowledged, and a STOP; each byte goes to its own slot.
pub proof fn law_read_alone(address: u8, operations: Seq<Operation>, k: int)
    requires
        address < 128,
        operations.len() == 1,
        operations[0] matches Operation::Read(len) && len >= 1,
    ensures
        ({
            let len = operations[0]->Read_0 as int;
            let events = transaction::bus_contract(address, operations, 0, false);
            let slots = transaction::slot_contract(operations, 0);
            &&& events.len() == len + 2
            &&& events[0] == transaction::BusEvent::Start((2 * address + 1) as u8)
            &&& 0 <= k < len ==> events[k + 1] == (transaction::BusEvent::Read {
                ack: k < len - 1,
            })
            &&& events.last() == transaction::BusEvent::Stop
            &&& slots.len() == len
            &&& 0 <= k < len ==> slots[k] == (0int, k)
        }),
{
    law_address_byte(address, true);
    reveal_with_fuel(transaction::run_end, 2);
    reveal_with_fuel(transaction::run_len, 2);
    reveal_with_fuel(transaction::bus_contract, 2);
    reveal_with_fuel(transaction::slot_contract, 2);
    let len = operations[0].len();
    transaction::lemma_first_slots(operations, 0, 1, 0, len);
    reveal_with_fuel(transaction::run_slots, 2);
}

/// A write and then a read are one transfer: the read follows the bytes written behind a repeated
/// START, without a STOP in between.
pub proof fn law_write_then_read(address: u8, operations: Seq<Operation>, k: int)
    requires
        address < 128,
        operations.len() == 2,
        operations[0] is Write,
        operations[1] matches Operation::Read(len) && len >= 1,
    ensures
        ({
            let bytes = operations[0]->Write_0@;
            let len = operations[1]->Read_0 as int;
            let events = transaction::bus_contract(address, operations, 0, false);
            &&& events.len() == bytes.len() + len + 3
            &&& events[0] == transaction::BusEvent::Start((2 * address) as u8)
            &&& 0 <= k < bytes.len() ==> events[k + 1] == transaction::BusEvent::Write(bytes[k])
            &&& events[bytes.len() as int + 1] == transaction::BusEvent::RepeatedStart(
                (2 * address + 1) as u8,
            )
            &&& 0 <= k < len ==> events[bytes.len() as int + 2 + k] == (transaction::BusEvent::Read {
                ack: k < len - 1,
            })
            &&& events.last() == transaction::BusEvent::Stop
        }),
{
    law_address_byte(address, false);
    law_address_byte(address, true);
    reveal_with_fuel(transaction::run_end, 3);
    reveal_with_fuel(transaction::run_bytes, 3);
    reveal_with_fuel(transaction::run_len, 3);
    reveal_with_fuel(transaction::bus_contract, 3);
}

/// A run of writes is one stream of bytes behind one START: the bytes of its first operation, those
/// of its second and so on. What follows in the transaction follows behind a repeated START.
pub proof fn law_run_of_writes(
    address: u8,
    operations: Seq<Operation>,
    i: int,
    end: int,
    started: bool,
)
    requires
        is_run(operations, i, end),
        operations[i] is Write,
    ensures
        transaction::bus_contract(address, operations, i, started) == seq![
            if started {
                transaction::BusEvent::RepeatedStart(transaction::address_byte(address, false))
            } else {
                transaction::BusEvent::Start(transaction::address_byte(address, false))
            },
        ] + operations.subrange(i, end).map_values(|o: Operation| o->Write_0@).flatten().map_values(
            |byte: u8| transaction::BusEvent::Write(byte),
        ) + transaction::bus_contract(address, operations, end, true),
{
    lemma_is_run(operations, i, end, i);
    lemma_stream(operations, i, end);
    let bytes = operations.subrange(i, end).map_values(|o: Operation| o->Write_0@).flatten();
    assert(transaction::writes(bytes) =~= bytes.map_values(
        |byte: u8| transaction::BusEvent::Write(byte),
    ));
}

proof fn lemma_stream(operations: Seq<Operation>, i: int, end: int)
    requires
        0 <= i <= end <= operations.len(),
        forall|j: int| i <= j < end ==> #[trigger] operations[j] is Write,
    ensures
        transaction::run_bytes(operations, i, end) == operations.subrange(i, end).map_values(
            |o: Operation| o->Write_0@,
        ).flatten(),
    decreases end - i,
{
    let parts = operations.subrange(i, end).map_values(|o: Operation| o->Write_0@);
    if i < end {
        lemma_stream(operations, i + 1, end);
        assert(parts.drop_first() =~= operations.subrange(i + 1, end).map_values(
            |o: Operation| o->Write_0@,
        ));
        assert(parts.first() == operations[i].bytes());
    }
}

/// A run of reads is one stream of bytes behind one START: as many as its operations ask for
/// together, of which the last alone is not acknowledged. What follows in the transaction follows
/// behind a repeated START.
pub proof fn law_run_of_reads(
    address: u8,
    operations: Seq<Operation>,
    i: int,
    end: int,
    started: bool,
)
    requires
        is_run(operations, i, end),
        operations[i] is Read,
        exists|j: int| i <= j < end && #[trigger] operations[j].len() > 0,
    ensures
        transaction::bus_contract(address, operations, i, started) == seq![
            if started {
                transaction::BusEvent::RepeatedStart(transaction::address_byte(address, true))
            } else {
                transaction::BusEvent::Start(transaction::address_byte(address, true))
            },
        ] + Seq::new(
            total(operations, i, end) as nat,
            |k: int| transaction::BusEvent::Read { ack: k < total(operations, i, end) - 1 },
        ) + transaction::bus_contract(address, operations, end, true),
{
    lemma_is_run(operations, i, end, i);
    lemma_total(operations, i, end);
    let n = total(operations, i, end);
    let j = choose|j: int| i <= j < end && #[trigger] operations[j].len() > 0;
    lemma_total_positive(operations, i, end, j);
    assert(transaction::reads(n - 1, true) + transaction::reads(1, false) =~= Seq::new(
        n as nat,
        |k: int| transaction::BusEvent::Read { ack: k < n - 1 },
    ));
}

/// The number of bytes that reads ask for together.
pub open spec fn total(operations: Seq<Operation>, i: int, end: int) -> int
    decreases end - i,
{
    if i < end {
        total(operations, i, end - 1) + operations[end - 1]->Read_0
    } else {
        0
    }
}

proof fn lemma_total(operations: Seq<Operation>, i: int, end: int)
    requires
        0 <= i <= end <= operations.len(),
        forall|j: int| i <= j < end ==> #[trigger] operations[j] is Read,
    ensures
        transaction::run_len(operations, i, end) == total(operations, i, end),
    decreases end - i,
{
    if i < end {
        lemma_total(operations, i, end - 1);
        lemma_len_split(operations, i, end);
    }
}

proof fn lemma_len_split(operations: Seq<Operation>, i: int, end: int)
    requires
        0 <= i < end <= operations.len(),
    ensures
        transaction::run_len(operations, i, end) == transaction::run_len(operations, i, end - 1)
            + operations[end - 1].len(),
    decreases end - i,
{
    reveal_with_fuel(transaction::run_len, 2);
    if i + 1 < end {
        lemma_len_split(operations, i + 1, end);
    }
}

proof fn lemma_total_positive(operations: Seq<Operation>, i: int, end: int, j: int)
    requires
        0 <= i <= j < end <= operations.len(),
        operations[j].len() > 0,
        forall|j: int| i <= j < end ==> #[trigger] operations[j] is Read,
    ensures
        total(operations, i, end) > 0,
    decreases end - i,
{
    assert(operations[end - 1] is Read);
    if j == end - 1 {
        lemma_total(operations, i, end - 1);
        transaction::lemma_run_len(operations, i, end - 1);
    } else {
        lemma_total_positive(operations, i, end - 1, j);
    }
}

/// A run of reads of no bytes at all cannot be put on the bus: the transaction ends there, with the
/// bus given back if it was taken.
pub proof fn law_empty_run_of_reads(
    address: u8,
    operations: Seq<Operation>,
    i: int,
    end: int,
    started: bool,
)
    requires
        is_run(operations, i, end),
        operations[i] is Read,
        forall|j: int| i <= j < end ==> (#[trigger] operations[j]).len() == 0,
    ensures
        transaction::bus_contract(address, operations, i, started) == if started {
            seq![transaction::BusEvent::Stop]
        } else {
            seq![]
        },
{
    lemma_is_run(operations, i, end, i);
    lemma_empty(operations, i, end);
}

proof fn lemma_empty(operations: Seq<Operation>, i: int, end: int)
    requires
        0 <= i <= end <= operations.len(),
        forall|j: int| i <= j < end ==> (#[trigger] operations[j]).len() == 0,
    ensures
        transaction::run_len(operations, i, end) == 0,
    decreases end - i,
{
    if i < end {
        lemma_empty(operations, i + 1, end);
    }
}

/// A transaction ends with a STOP if it began, and one of no operations does nothing.
pub proof fn law_end_of_transaction(address: u8, operations: Seq<Operation>, started: bool)
    ensures
        transaction::bus_contract(address, operations, operations.len() as int, started)
            == if started {
            seq![transaction::BusEvent::Stop]
        } else {
            seq![]
        },
{
}

/// A transaction that fails gives the bus back. Where a byte that was sent is not acknowledged, or the
/// DMA controller fails, a STOP follows and is waited for, and nothing else comes on the bus; the
/// error tells whether it was the address or a byte of data. Where arbitration is lost the bus is
/// another master's: nothing follows, and the flags are cleared.
pub proof fn law_failed_transaction_on_the_wire(
    steps: Seq<Step>,
    operations: Seq<Operation>,
    now: transaction::Progress,
    event: transaction::Event,
    b: Bus,
)
    requires
        transaction::consistent(steps, now),
        !(now.wait is Finished),
        b.in_order && b.line.settled && !b.line.slowed && b.line.addressing is None,
        b.control.master,
        b.control.dmaen <==> now.wait == Wait::Dma,
    ensures
        ({
            let (next, ops) = transaction::advance_to(steps, now, event);
            let to = wire_after(ops, ops.len() as int, b);
            next.wait matches Wait::Finished(Err(e)) ==> match e {
                Error::AddressNack => {
                    &&& steps[now.at] is Start
                    &&& event == transaction::Event::Byte { arbl: false, rxak: true }
                    &&& !to.control.master && to.line.settled && !to.line.flag
                    &&& to.events == b.events.push(transaction::BusEvent::Stop)
                },
                Error::DataNack => {
                    &&& steps[now.at] is Send || steps[now.at] is SendDma
                    &&& event == transaction::Event::Byte { arbl: false, rxak: true }
                    &&& !to.control.master && to.line.settled && !to.line.flag
                    &&& to.events == b.events.push(transaction::BusEvent::Stop)
                },
                Error::Dma => {
                    &&& event == transaction::Event::Dma { ok: false }
                    &&& !to.control.master && to.line.settled && !to.control.dmaen
                    &&& to.events == b.events.push(transaction::BusEvent::Stop)
                },
                Error::Arbitration => {
                    &&& event matches transaction::Event::Byte { arbl: true, .. }
                    &&& to.events == b.events
                    &&& !to.line.flag
                    &&& ops.last() == Op::ClearArbl
                },
                Error::Bus => {
                    &&& event == transaction::Event::Bus { busy: true }
                    &&& steps[now.at] is Start
                    &&& to == b
                },
                Error::InvalidReadBufferLength => steps[now.at] is Fail && to == b,
            }
        }),
{
    let (next, ops) = transaction::advance_to(steps, now, event);
    reveal(wire_step);
    reveal_with_fuel(wire_after, 4);
}

/// A transaction fails exactly where it has to: arbitration that is lost ends it at any byte, a byte
/// that is not acknowledged ends it where the byte was sent, a failed transfer of the DMA controller
/// and a bus that is busy at the START end it; a byte that was received never does.
pub proof fn law_failures(steps: Seq<Step>, now: transaction::Progress, event: transaction::Event)
    requires
        transaction::consistent(steps, now),
        !(now.wait is Finished),
    ensures
        ({
            let next = transaction::advance_to(steps, now, event).0;
            match (now.wait, event) {
                (Wait::Byte, transaction::Event::Byte { arbl, rxak }) | (
                    Wait::ByteAfterDma,
                    transaction::Event::Byte { arbl, rxak },
                ) => if arbl {
                    next.wait == Wait::Finished(Err(Error::Arbitration))
                } else if rxak && !(steps[now.at] is Take) {
                    next.wait == Wait::Finished(
                        Err(
                            if steps[now.at] is Start {
                                Error::AddressNack
                            } else {
                                Error::DataNack
                            },
                        ),
                    )
                } else {
                    next == (transaction::Progress { at: now.at + 1, wait: Wait::Nothing })
                },
                (Wait::Bus, transaction::Event::Bus { busy }) => busy == (next.wait
                    is Finished) && (busy ==> next.wait == Wait::Finished(Err(Error::Bus))),
                (Wait::Dma, transaction::Event::Dma { ok }) => !ok == (next.wait is Finished) && (!ok
                    ==> next.wait == Wait::Finished(Err(Error::Dma))),
                (Wait::Nothing, transaction::Event::Continue) => (next.wait is Finished) == (now.at
                    >= steps.len() || steps[now.at] is Fail),
                _ => next == now,
            }
        }),
{
}

} // verus!
