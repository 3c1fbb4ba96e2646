//! Transactions: a list of reads and writes as one bus transfer.
//!
//! [`plan`] lays out the steps of a transaction; [`Transaction`] runs them, one register access
//! program and one event at a time, and gives up at the first error. What the steps put on the bus
//! is [`trace`].

use vstd::prelude::*;

use crate::dma::MAX_TRANSFER;
use crate::i2c::Error;
use crate::i2c::Op;

verus! {

/// One operation of a transaction.
#[derive(Debug)]
pub enum Operation {
    /// Read this many bytes.
    Read(usize),
    /// Write these bytes.
    Write(Vec<u8>),
}

impl Operation {
    pub open spec fn is_read(self) -> bool {
        self is Read
    }

    /// The number of bytes.
    pub open spec fn len(self) -> int {
        match self {
            Operation::Read(len) => len as int,
            Operation::Write(bytes) => bytes@.len() as int,
        }
    }

    /// The bytes written.
    pub open spec fn bytes(self) -> Seq<u8> {
        match self {
            Operation::Read(_) => seq![],
            Operation::Write(bytes) => bytes@,
        }
    }
}

/// What to do before a received byte is read out of the data register.
#[derive(Clone, Copy, Debug, PartialEq, Eq, Structural)]
pub enum Before {
    /// Last byte of the transaction: STOP, so no further byte is clocked.
    Stop,
    /// Last byte of a run: switch to transmit and hold the bus for a repeated start.
    Hold,
    /// Second to last byte of a run: NACK the next one.
    NackNext,
    /// Nothing: the read clocks in the next byte.
    Nothing,
}

/// One step of a transaction.
#[derive(Clone, Copy, Debug, PartialEq, Eq, Structural)]
pub enum Step {
    /// START (or repeated START) followed by the address byte.
    Start { repeated: bool, byte: u8 },
    /// Stay in transmit mode.
    Transmit,
    /// Send one byte.
    Send(u8),
    /// Send bytes of an operation: the one at `offset` by hand, and the `count` after it by DMA.
    SendDma { operation: usize, offset: usize, count: usize, first: u8 },
    /// Switch to receive; a dummy read clocks in the first byte, which is answered by a NACK if
    /// `nack`.
    Receive { nack: bool },
    /// Receive `count` bytes of an operation by DMA, from this slot on.
    ReceiveDma { operation: usize, slot: usize, count: usize },
    /// Wait for a byte and read it into this slot of an operation.
    Take { operation: usize, slot: usize, after_dma: bool, before: Before },
    /// STOP.
    Stop,
    /// Give up: a read of zero bytes was requested.
    Fail,
}

/// The address byte: the address, then the direction bit.
pub open spec fn address_byte(address: u8, read: bool) -> u8 {
    (address << 1) | (if read {
        1u8
    } else {
        0u8
    })
}

/// The end of the run of operations of one direction that starts at `i`.
pub open spec fn run_end(operations: Seq<Operation>, i: int, read: bool) -> int
    decreases operations.len() - i,
{
    if 0 <= i < operations.len() && operations[i].is_read() == read {
        run_end(operations, i + 1, read)
    } else {
        i
    }
}

/// The number of bytes in the operations from `i` to `end`.
pub open spec fn run_len(operations: Seq<Operation>, i: int, end: int) -> int
    decreases end - i,
{
    if i < end {
        operations[i].len() + run_len(operations, i + 1, end)
    } else {
        0
    }
}

/// The bytes of the writes from `i` to `end`.
pub open spec fn run_bytes(operations: Seq<Operation>, i: int, end: int) -> Seq<u8>
    decreases end - i,
{
    if i < end {
        operations[i].bytes() + run_bytes(operations, i + 1, end)
    } else {
        seq![]
    }
}

/// The slots of the reads from slot `slot` of operation `i` to operation `end`, in order.
pub open spec fn run_slots(operations: Seq<Operation>, i: int, slot: int, end: int) -> Seq<
    (int, int),
>
    decreases end - i, operations[i].len() - slot,
{
    if i >= end {
        seq![]
    } else if slot >= operations[i].len() {
        run_slots(operations, i + 1, 0, end)
    } else {
        seq![(i, slot)] + run_slots(operations, i, slot + 1, end)
    }
}

/// Steps that send bytes one at a time.
pub open spec fn send_steps(bytes: Seq<u8>) -> Seq<Step> {
    bytes.map_values(|byte: u8| Step::Send(byte))
}

/// How many of the bytes that are left the DMA controller moves at once.
pub open spec fn dma_count(left: int) -> int {
    if left < MAX_TRANSFER {
        left
    } else {
        MAX_TRANSFER as int
    }
}

/// Steps that send the bytes of an operation from `offset` on by DMA: as many at once as the
/// controller can move, with one sent by hand to set them off, and a single one at the end by hand.
pub open spec fn dma_send_steps(operation: int, bytes: Seq<u8>, offset: int) -> Seq<Step>
    decreases bytes.len() - offset,
{
    let left = bytes.len() - offset;
    if left >= 2 {
        let count = dma_count(left - 1);
        seq![
            Step::SendDma {
                operation: operation as usize,
                offset: offset as usize,
                count: count as usize,
                first: bytes[offset],
            },
        ] + dma_send_steps(operation, bytes, offset + 1 + count)
    } else {
        send_steps(bytes.skip(offset))
    }
}

/// Steps that send the writes from `i` to `end`.
pub open spec fn write_steps(operations: Seq<Operation>, i: int, end: int, dma: bool) -> Seq<Step>
    decreases end - i,
{
    if i < end {
        let bytes = operations[i].bytes();
        (if dma {
            dma_send_steps(i, bytes, 0)
        } else {
            send_steps(bytes)
        }) + write_steps(operations, i + 1, end, dma)
    } else {
        seq![]
    }
}

/// What to do before reading out a byte when `remaining` bytes of the run are left.
pub open spec fn before_byte(remaining: int, last_run: bool) -> Before {
    if remaining == 1 {
        if last_run {
            Before::Stop
        } else {
            Before::Hold
        }
    } else if remaining == 2 {
        Before::NackNext
    } else {
        Before::Nothing
    }
}

/// Steps that read the bytes from slot `slot` of operation `i` to operation `end`, of which there
/// are `remaining`.
pub open spec fn take_steps(
    operations: Seq<Operation>,
    i: int,
    slot: int,
    end: int,
    remaining: int,
    after_dma: bool,
    last_run: bool,
) -> Seq<Step>
    decreases end - i, operations[i].len() - slot,
{
    if i >= end {
        seq![]
    } else if slot >= operations[i].len() {
        take_steps(operations, i + 1, 0, end, remaining, after_dma, last_run)
    } else {
        seq![
            Step::Take {
                operation: i as usize,
                slot: slot as usize,
                after_dma,
                before: before_byte(remaining, last_run),
            },
        ] + take_steps(operations, i, slot + 1, end, remaining - 1, false, last_run)
    }
}

/// Steps that read the bytes of operation `i`, which ends its run, from slot `slot` on, of which there
/// are `remaining`: all but the last two by DMA, as many at once as the controller can move, with one
/// read by hand in between; the last two set the NACK and the STOP.
pub open spec fn dma_take_steps(
    operations: Seq<Operation>,
    i: int,
    slot: int,
    remaining: int,
    last_run: bool,
) -> Seq<Step>
    decreases remaining,
{
    if remaining >= 3 {
        let count = dma_count(remaining - 2);
        seq![
            Step::ReceiveDma {
                operation: i as usize,
                slot: slot as usize,
                count: count as usize,
            },
        ] + if remaining - count == 2 {
            take_steps(operations, i, slot + count, i + 1, 2, true, last_run)
        } else {
            seq![
                Step::Take {
                    operation: i as usize,
                    slot: (slot + count) as usize,
                    after_dma: true,
                    before: Before::Nothing,
                },
            ] + dma_take_steps(operations, i, slot + count + 1, remaining - count - 1, last_run)
        }
    } else {
        take_steps(operations, i, slot, i + 1, remaining, false, last_run)
    }
}

/// Steps that read the run of reads from `i` to `end`; a single read goes by DMA where there is one.
pub open spec fn read_steps(operations: Seq<Operation>, i: int, end: int, dma: bool) -> Seq<Step> {
    let total = run_len(operations, i, end);
    let last_run = end == operations.len();
    if end == i + 1 && dma {
        dma_take_steps(operations, i, 0, total, last_run)
    } else {
        take_steps(operations, i, 0, end, total, false, last_run)
    }
}

/// Steps of the operations from `i` on, in a transaction that has begun or not.
pub open spec fn plan_steps(
    address: u8,
    operations: Seq<Operation>,
    dma: bool,
    i: int,
    started: bool,
    stopped: bool,
) -> Seq<Step>
    decreases operations.len() - i,
    when 0 <= i <= operations.len()
    via plan_steps_decreases
{
    if i >= operations.len() {
        if started && !stopped {
            seq![Step::Stop]
        } else {
            seq![]
        }
    } else if !operations[i].is_read() {
        let end = run_end(operations, i, false);
        seq![Step::Start { repeated: started, byte: address_byte(address, false) }, Step::Transmit]
            + write_steps(operations, i, end, dma) + plan_steps(
            address,
            operations,
            dma,
            end,
            true,
            stopped,
        )
    } else {
        let end = run_end(operations, i, true);
        let total = run_len(operations, i, end);
        if total == 0 {
            (if started {
                seq![Step::Stop]
            } else {
                seq![]
            }) + seq![Step::Fail]
        } else {
            seq![
                Step::Start { repeated: started, byte: address_byte(address, true) },
                Step::Receive { nack: total == 1 },
            ] + read_steps(operations, i, end, dma) + plan_steps(
                address,
                operations,
                dma,
                end,
                true,
                stopped || end == operations.len(),
            )
        }
    }
}

#[via_fn]
proof fn plan_steps_decreases(
    address: u8,
    operations: Seq<Operation>,
    dma: bool,
    i: int,
    started: bool,
    stopped: bool,
) {
    if i < operations.len() {
        lemma_run_end(operations, i, operations[i].is_read());
    }
}

/// A run is not empty, stays inside the transaction, has one direction, and ends where that
/// changes.
pub(crate) proof fn lemma_run_end(operations: Seq<Operation>, i: int, read: bool)
    requires
        0 <= i <= operations.len(),
    ensures
        i <= run_end(operations, i, read) <= operations.len(),
        i < operations.len() && operations[i].is_read() == read ==> i < run_end(operations, i, read),
        forall|j: int|
            i <= j < run_end(operations, i, read) ==> (#[trigger] operations[j]).is_read() == read,
        run_end(operations, i, read) < operations.len() ==> operations[run_end(
            operations,
            i,
            read,
        )].is_read() != read,
    decreases operations.len() - i,
{
    if i < operations.len() && operations[i].is_read() == read {
        lemma_run_end(operations, i + 1, read);
    }
}

/// Steps of a whole transaction.
pub open spec fn transaction_steps(address: u8, operations: Seq<Operation>, dma: bool) -> Seq<
    Step,
> {
    plan_steps(address, operations, dma, 0, false, false)
}

/// Whether the operations from `i` to `end` are all reads.
pub open spec fn all_reads(operations: Seq<Operation>, i: int, end: int) -> bool {
    forall|j: int| i <= j < end ==> (#[trigger] operations[j]).is_read()
}

/// Whether the length of every run of reads can be counted.
pub open spec fn countable(operations: Seq<Operation>) -> bool {
    forall|i: int, end: int|
        0 <= i <= end <= operations.len() && all_reads(operations, i, end) ==> #[trigger] run_len(
            operations,
            i,
            end,
        ) <= usize::MAX
}

pub(crate) proof fn lemma_run_len(operations: Seq<Operation>, i: int, end: int)
    requires
        0 <= i <= end <= operations.len(),
    ensures
        run_len(operations, i, end) >= 0,
    decreases end - i,
{
    if i < end {
        lemma_run_len(operations, i + 1, end);
    }
}

/// One write, one read, or a write and a read of `len` bytes, can be counted.
pub(crate) proof fn lemma_countable_pair(operations: Seq<Operation>, len: int)
    requires
        0 <= len <= usize::MAX,
        1 <= operations.len() <= 2,
        operations.len() == 2 ==> operations[0] is Write && operations[1] is Read,
        forall|i: int| 0 <= i < operations.len() && (#[trigger] operations[i]).is_read() ==> operations[i].len() == len,
    ensures
        countable(operations),
{
    assert forall|i: int, end: int|
        0 <= i <= end <= operations.len() && all_reads(operations, i, end) implies #[trigger] run_len(
        operations,
        i,
        end,
    ) <= usize::MAX by {
        reveal_with_fuel(run_len, 3);
        if i < end {
            assert(operations[i].is_read());
        }
    }
}

fn plan_sends(steps: &mut Vec<Step>, bytes: &Vec<u8>)
    ensures
        final(steps)@ == old(steps)@ + send_steps(bytes@),
{
    let ghost before = steps@;
    let mut k: usize = 0;
    while k < bytes.len()
        invariant
            k <= bytes.len(),
            steps@ =~= before + send_steps(bytes@).take(k as int),
        decreases bytes.len() - k,
    {
        steps.push(Step::Send(bytes[k]));
        k = k + 1;
    }
    assert(send_steps(bytes@).take(bytes@.len() as int) =~= send_steps(bytes@));
}

fn plan_dma_sends(steps: &mut Vec<Step>, bytes: &Vec<u8>, operation: usize)
    ensures
        final(steps)@ == old(steps)@ + dma_send_steps(operation as int, bytes@, 0),
{
    let ghost full = steps@ + dma_send_steps(operation as int, bytes@, 0);
    let mut offset: usize = 0;
    while bytes.len() - offset >= 2
        invariant
            offset <= bytes.len(),
            steps@ + dma_send_steps(operation as int, bytes@, offset as int) =~= full,
        decreases bytes.len() - offset,
    {
        let left: usize = bytes.len() - offset - 1;
        let count: usize = if left < MAX_TRANSFER {
            left
        } else {
            MAX_TRANSFER
        };
        let step: Step = Step::SendDma { operation, offset, count, first: bytes[offset] };
        let ghost sent = steps@;
        let ghost rest = dma_send_steps(operation as int, bytes@, offset + 1 + count);
        steps.push(step);
        assert(steps@ + rest =~= sent + (seq![step] + rest));
        offset = offset + 1 + count;
    }
    if offset < bytes.len() {
        steps.push(Step::Send(bytes[offset]));
        assert(send_steps(bytes@.skip(offset as int)) =~= seq![Step::Send(bytes@[offset as int])]);
    } else {
        assert(send_steps(bytes@.skip(offset as int)) =~= Seq::<Step>::empty());
    }
    assert(steps@ =~= full);
}

/// Consecutive writes are one stream of bytes. Returns the end of the run.
fn plan_writes(steps: &mut Vec<Step>, operations: &Vec<Operation>, from: usize, dma: bool) -> (r:
    usize)
    requires
        from <= operations.len(),
    ensures
        r == run_end(operations@, from as int, false),
        final(steps)@ == old(steps)@ + write_steps(operations@, from as int, r as int, dma),
{
    let ghost before = steps@;
    let ghost end = run_end(operations@, from as int, false);
    proof {
        lemma_run_end(operations@, from as int, false);
    }
    let mut i: usize = from;
    while i < operations.len() && matches!(&operations[i], Operation::Write(_))
        invariant
            from <= i <= end <= operations.len(),
            end == run_end(operations@, i as int, false),
            steps@ + write_steps(operations@, i as int, end, dma) =~= before + write_steps(
                operations@,
                from as int,
                end,
                dma,
            ),
        decreases operations.len() - i,
    {
        let ghost sent = steps@;
        let ghost rest = write_steps(operations@, i + 1, end, dma);
        proof {
            lemma_run_end(operations@, i + 1, false);
        }
        if let Operation::Write(bytes) = &operations[i] {
            if dma {
                plan_dma_sends(steps, bytes, i);
                assert(steps@ + rest =~= sent + (dma_send_steps(i as int, bytes@, 0) + rest));
            } else {
                plan_sends(steps, bytes);
                assert(steps@ + rest =~= sent + (send_steps(bytes@) + rest));
            }
        }
        i = i + 1;
    }
    i
}

/// The end of the run of reads at `from`, and the number of its bytes.
fn measure_reads(operations: &Vec<Operation>, from: usize) -> (r: (usize, usize))
    requires
        from <= operations.len(),
        countable(operations@),
    ensures
        r.0 == run_end(operations@, from as int, true),
        r.1 == run_len(operations@, from as int, r.0 as int),
{
    let ghost end = run_end(operations@, from as int, true);
    proof {
        lemma_run_end(operations@, from as int, true);
        assert(all_reads(operations@, from as int, end));
    }
    let mut i: usize = from;
    let mut total: usize = 0;
    while i < operations.len() && matches!(&operations[i], Operation::Read(_))
        invariant
            from <= i <= end <= operations.len(),
            end == run_end(operations@, i as int, true),
            countable(operations@),
            all_reads(operations@, from as int, end),
            total + run_len(operations@, i as int, end) == run_len(operations@, from as int, end),
        decreases operations.len() - i,
    {
        proof {
            lemma_run_end(operations@, i + 1, true);
            lemma_run_len(operations@, i + 1, end);
            assert(run_len(operations@, from as int, end) <= usize::MAX);
        }
        if let Operation::Read(len) = &operations[i] {
            total = total + *len;
        }
        i = i + 1;
    }
    (i, total)
}

/// Plans the reads from slot `slot` of operation `from` to operation `end`.
fn plan_takes(
    steps: &mut Vec<Step>,
    operations: &Vec<Operation>,
    from: usize,
    slot: usize,
    end: usize,
    remaining: usize,
    after_dma: bool,
)
    requires
        from <= end <= operations.len(),
        slot <= 0 || from < end && slot <= operations@[from as int].len(),
        remaining == run_len(operations@, from as int, end as int) - slot,
        forall|j: int| from <= j < end ==> (#[trigger] operations@[j]).is_read(),
    ensures
        final(steps)@ == old(steps)@ + take_steps(
            operations@,
            from as int,
            slot as int,
            end as int,
            remaining as int,
            after_dma,
            end == operations@.len(),
        ),
{
    let last_run: bool = end == operations.len();
    let ghost full = steps@ + take_steps(
        operations@,
        from as int,
        slot as int,
        end as int,
        remaining as int,
        after_dma,
        last_run,
    );
    let mut i: usize = from;
    let mut s: usize = slot;
    let mut left: usize = remaining;
    let mut fresh: bool = after_dma;
    while i < end
        invariant
            from <= i <= end <= operations.len(),
            last_run == (end == operations.len()),
            s == 0 || i < end && s <= operations@[i as int].len(),
            left == run_len(operations@, i as int, end as int) - s,
            forall|j: int| from <= j < end ==> (#[trigger] operations@[j]).is_read(),
            steps@ + take_steps(
                operations@,
                i as int,
                s as int,
                end as int,
                left as int,
                fresh,
                last_run,
            ) =~= full,
        decreases end - i, (if i < end { operations@[i as int].len() - s } else { 0 }),
    {
        let len: usize = match &operations[i] {
            Operation::Read(len) => *len,
            Operation::Write(_) => 0,
        };
        proof {
            lemma_run_len(operations@, i + 1, end as int);
        }
        if s < len {
            let before: Before = if left == 1 {
                if last_run {
                    Before::Stop
                } else {
                    Before::Hold
                }
            } else if left == 2 {
                Before::NackNext
            } else {
                Before::Nothing
            };
            let ghost taken = steps@;
            let ghost rest = take_steps(
                operations@,
                i as int,
                s + 1,
                end as int,
                left - 1,
                false,
                last_run,
            );
            steps.push(Step::Take { operation: i, slot: s, after_dma: fresh, before });
            assert(steps@ + rest =~= taken + (seq![
                Step::Take { operation: i, slot: s, after_dma: fresh, before },
            ] + rest));
            fresh = false;
            left = left - 1;
            s = s + 1;
        } else {
            i = i + 1;
            s = 0;
        }
    }
    assert(steps@ + Seq::<Step>::empty() =~= steps@);
}

/// Plans the bytes of a single read of `total` bytes by DMA.
fn plan_dma_takes(steps: &mut Vec<Step>, operations: &Vec<Operation>, from: usize, total: usize)
    requires
        from < operations.len(),
        operations@[from as int].is_read(),
        total == operations@[from as int].len(),
    ensures
        final(steps)@ == old(steps)@ + dma_take_steps(
            operations@,
            from as int,
            0,
            total as int,
            from + 1 == operations@.len(),
        ),
{
    let ghost last_run = from + 1 == operations@.len();
    let ghost full = steps@ + dma_take_steps(operations@, from as int, 0, total as int, last_run);
    let mut slot: usize = 0;
    while total - slot >= 3
        invariant
            slot <= total,
            from < operations.len(),
            operations@[from as int].is_read(),
            total == operations@[from as int].len(),
            last_run == (from + 1 == operations@.len()),
            full == old(steps)@ + dma_take_steps(
                operations@,
                from as int,
                0,
                total as int,
                last_run,
            ),
            steps@ + dma_take_steps(
                operations@,
                from as int,
                slot as int,
                total - slot,
                last_run,
            ) =~= full,
        decreases total - slot,
    {
        let most: usize = total - slot - 2;
        let count: usize = if most < MAX_TRANSFER {
            most
        } else {
            MAX_TRANSFER
        };
        let moved: Step = Step::ReceiveDma { operation: from, slot, count };
        let ghost before = steps@;
        steps.push(moved);
        if count == most {
            proof {
                lemma_one_read(operations@, from as int);
            }
            let ghost rest = take_steps(
                operations@,
                from as int,
                slot + count,
                from + 1,
                2,
                true,
                last_run,
            );
            assert(steps@ + rest =~= before + (seq![moved] + rest));
            plan_takes(steps, operations, from, slot + count, from + 1, 2, true);
            return;
        }
        let byte: Step = Step::Take {
            operation: from,
            slot: slot + count,
            after_dma: true,
            before: Before::Nothing,
        };
        steps.push(byte);
        let ghost rest = dma_take_steps(
            operations@,
            from as int,
            slot + count + 1,
            total - slot - count - 1,
            last_run,
        );
        assert(steps@ + rest =~= before + (seq![moved] + (seq![byte] + rest)));
        slot = slot + count + 1;
    }
    proof {
        lemma_one_read(operations@, from as int);
    }
    plan_takes(steps, operations, from, slot, from + 1, total - slot, false);
}

pub(crate) proof fn lemma_one_read(operations: Seq<Operation>, i: int)
    requires
        0 <= i < operations.len(),
    ensures
        run_len(operations, i, i + 1) == operations[i].len(),
{
    reveal_with_fuel(run_len, 2);
}

proof fn lemma_append(done: Seq<Step>, head: Seq<Step>, body: Seq<Step>, rest: Seq<Step>)
    ensures
        done + head + body + rest == done + (head + body + rest),
{
    assert(done + head + body + rest =~= done + (head + body + rest));
}

/// The steps of a transaction; `dma` tells whether a DMA channel is there to use.
pub fn plan(address: u8, operations: &Vec<Operation>, dma: bool) -> (r: Vec<Step>)
    requires
        countable(operations@),
    ensures
        r@ == transaction_steps(address, operations@, dma),
{
    let ghost full = transaction_steps(address, operations@, dma);
    let count: usize = operations.len();
    let mut steps: Vec<Step> = Vec::new();
    let mut index: usize = 0;
    let mut started: bool = false;
    let mut stopped: bool = false;
    while index < count
        invariant
            count == operations.len(),
            index <= count,
            countable(operations@),
            full == transaction_steps(address, operations@, dma),
            steps@ + plan_steps(address, operations@, dma, index as int, started, stopped) == full,
        decreases count - index,
    {
        let ghost done = steps@;
        let reading: bool = matches!(&operations[index], Operation::Read(_));
        proof {
            lemma_run_end(operations@, index as int, reading);
        }
        if !reading {
            let byte: u8 = address << 1;
            assert(byte == address_byte(address, false)) by {
                assert(address << 1 == (address << 1) | 0u8) by (bit_vector);
            }
            let ghost end = run_end(operations@, index as int, false);
            let ghost head = seq![Step::Start { repeated: started, byte }, Step::Transmit];
            let ghost body = write_steps(operations@, index as int, end, dma);
            let ghost rest = plan_steps(address, operations@, dma, end, true, stopped);
            steps.push(Step::Start { repeated: started, byte });
            steps.push(Step::Transmit);
            assert(steps@ =~= done + head);
            started = true;
            index = plan_writes(&mut steps, operations, index, dma);
            proof {
                lemma_append(done, head, body, rest);
            }
        } else {
            let (end, total) = measure_reads(operations, index);
            if total == 0 {
                if started {
                    steps.push(Step::Stop);
                }
                steps.push(Step::Fail);
                assert(steps@ =~= full);
                return steps;
            }
            let byte: u8 = (address << 1) | 1;
            let ghost head = seq![
                Step::Start { repeated: started, byte },
                Step::Receive { nack: total == 1 },
            ];
            let ghost body = read_steps(operations@, index as int, end as int, dma);
            let ghost rest = plan_steps(
                address,
                operations@,
                dma,
                end as int,
                true,
                stopped || end == count,
            );
            steps.push(Step::Start { repeated: started, byte });
            steps.push(Step::Receive { nack: total == 1 });
            assert(steps@ =~= done + head);
            started = true;
            if end == index + 1 && dma {
                proof {
                    lemma_one_read(operations@, index as int);
                }
                plan_dma_takes(&mut steps, operations, index, total);
            } else {
                plan_takes(&mut steps, operations, index, 0, end, total, false);
            }
            proof {
                lemma_append(done, head, body, rest);
            }
            if end == count {
                stopped = true;
            }
            index = end;
        }
    }
    let ghost done = steps@;
    if started && !stopped {
        steps.push(Step::Stop);
        assert(steps@ =~= done + seq![Step::Stop]);
    } else {
        assert(done + Seq::<Step>::empty() =~= done);
    }
    steps
}

// ---------------------------------------------------------------------------------------------
// What the steps do to the bus
// ---------------------------------------------------------------------------------------------

/// What happens on the bus.
pub ghost enum BusEvent {
    /// START and the address byte.
    Start(u8),
    /// Repeated START and the address byte.
    RepeatedStart(u8),
    /// A byte from the master.
    Write(u8),
    /// A byte from the slave, acknowledged or not.
    Read { ack: bool },
    /// STOP.
    Stop,
}

/// A number of bytes from the slave, all acknowledged or all not.
pub open spec fn reads(count: int, ack: bool) -> Seq<BusEvent> {
    Seq::new(
        if count >= 0 {
            count as nat
        } else {
            0
        },
        |i: int| BusEvent::Read { ack },
    )
}

/// Bytes from the master.
pub open spec fn writes(bytes: Seq<u8>) -> Seq<BusEvent> {
    bytes.map_values(|byte: u8| BusEvent::Write(byte))
}

/// What a step puts on the bus when `TXAK` is `txak`. Reading the data register while receiving
/// clocks in one more byte, which is acknowledged unless `TXAK` is set.
pub open spec fn step_trace(step: Step, operations: Seq<Operation>, txak: bool) -> Seq<BusEvent> {
    match step {
        Step::Start { repeated, byte } => seq![
            if repeated {
                BusEvent::RepeatedStart(byte)
            } else {
                BusEvent::Start(byte)
            },
        ],
        Step::Transmit => seq![],
        Step::Send(byte) => seq![BusEvent::Write(byte)],
        Step::SendDma { operation, offset, count, first } => writes(
            seq![first] + operations[operation as int].bytes().subrange(
                offset + 1,
                offset + 1 + count,
            ),
        ),
        Step::Receive { nack } => reads(1, !nack),
        Step::ReceiveDma { count, .. } => reads(count as int, !txak),
        Step::Take { before, .. } => match before {
            Before::Stop => seq![BusEvent::Stop],
            Before::Hold => seq![],
            Before::NackNext => reads(1, false),
            Before::Nothing => reads(1, !txak),
        },
        Step::Stop => seq![BusEvent::Stop],
        Step::Fail => seq![],
    }
}

/// `TXAK` after a step.
pub open spec fn txak_after(step: Step, txak: bool) -> bool {
    match step {
        Step::Receive { nack } => nack,
        Step::Take { before, .. } => match before {
            Before::Stop => false,
            Before::NackNext => true,
            _ => txak,
        },
        Step::Stop => false,
        _ => txak,
    }
}

/// What a list of steps puts on the bus.
pub open spec fn trace(steps: Seq<Step>, operations: Seq<Operation>, txak: bool) -> Seq<BusEvent>
    decreases steps.len(),
{
    if steps.len() == 0 {
        seq![]
    } else {
        step_trace(steps[0], operations, txak) + trace(
            steps.skip(1),
            operations,
            txak_after(steps[0], txak),
        )
    }
}

/// `TXAK` after a list of steps.
pub open spec fn txak_after_all(steps: Seq<Step>, txak: bool) -> bool
    decreases steps.len(),
{
    if steps.len() == 0 {
        txak
    } else {
        txak_after_all(steps.skip(1), txak_after(steps[0], txak))
    }
}

/// The slots that a list of steps fills, in order.
pub open spec fn filled(steps: Seq<Step>) -> Seq<(int, int)>
    decreases steps.len(),
{
    if steps.len() == 0 {
        seq![]
    } else {
        step_filled(steps[0]) + filled(steps.skip(1))
    }
}

/// What a transaction is to put on the bus, from operation `i` on: per run of operations of one
/// direction a START (repeated but for the first) with the address and the direction, then the
/// bytes of the run as one stream, of which the last byte read is not acknowledged; and a STOP at
/// the end. A run of reads of no bytes at all ends the transaction.
pub open spec fn bus_contract(
    address: u8,
    operations: Seq<Operation>,
    i: int,
    started: bool,
) -> Seq<BusEvent>
    decreases operations.len() - i,
    when 0 <= i <= operations.len()
    via bus_contract_decreases
{
    if i >= operations.len() {
        if started {
            seq![BusEvent::Stop]
        } else {
            seq![]
        }
    } else {
        let read = operations[i].is_read();
        let end = run_end(operations, i, read);
        let total = run_len(operations, i, end);
        let byte = address_byte(address, read);
        let start = seq![
            if started {
                BusEvent::RepeatedStart(byte)
            } else {
                BusEvent::Start(byte)
            },
        ];
        if !read {
            start + writes(run_bytes(operations, i, end)) + bus_contract(
                address,
                operations,
                end,
                true,
            )
        } else if total == 0 {
            if started {
                seq![BusEvent::Stop]
            } else {
                seq![]
            }
        } else {
            start + (reads(total - 1, true) + reads(1, false)) + bus_contract(
                address,
                operations,
                end,
                true,
            )
        }
    }
}

#[via_fn]
proof fn bus_contract_decreases(address: u8, operations: Seq<Operation>, i: int, started: bool) {
    if i < operations.len() {
        lemma_run_end(operations, i, operations[i].is_read());
    }
}

/// The slots of all reads from operation `i` on, up to a run of reads of no bytes at all.
pub open spec fn slot_contract(operations: Seq<Operation>, i: int) -> Seq<(int, int)>
    decreases operations.len() - i,
    when 0 <= i <= operations.len()
    via slot_contract_decreases
{
    if i >= operations.len() {
        seq![]
    } else {
        let read = operations[i].is_read();
        let end = run_end(operations, i, read);
        if !read {
            slot_contract(operations, end)
        } else if run_len(operations, i, end) == 0 {
            seq![]
        } else {
            run_slots(operations, i, 0, end) + slot_contract(operations, end)
        }
    }
}

#[via_fn]
proof fn slot_contract_decreases(operations: Seq<Operation>, i: int) {
    if i < operations.len() {
        lemma_run_end(operations, i, operations[i].is_read());
    }
}

/// The slots that a step fills.
pub open spec fn step_filled(step: Step) -> Seq<(int, int)> {
    match step {
        Step::ReceiveDma { operation, slot, count } => Seq::new(
            count as nat,
            |k: int| (operation as int, slot + k),
        ),
        Step::Take { operation, slot, .. } => seq![(operation as int, slot as int)],
        _ => seq![],
    }
}

/// Whether what a step moves by DMA can be moved at once, and lies within its operation.
pub open spec fn step_fits(step: Step, operations: Seq<Operation>) -> bool {
    match step {
        Step::SendDma { operation, offset, count, first } => {
            &&& operation < operations.len()
            &&& 1 <= count <= MAX_TRANSFER
            &&& offset + 1 + count <= operations[operation as int].bytes().len()
            &&& first == operations[operation as int].bytes()[offset as int]
        },
        Step::ReceiveDma { operation, slot, count } => {
            &&& operation < operations.len()
            &&& operations[operation as int].is_read()
            &&& 1 <= count <= MAX_TRANSFER
            &&& slot + count <= operations[operation as int].len()
        },
        _ => true,
    }
}

/// Whether what every step moves by DMA can be moved at once, and lies within its operation.
pub open spec fn all_fit(steps: Seq<Step>, operations: Seq<Operation>) -> bool {
    forall|k: int| 0 <= k < steps.len() ==> step_fits(#[trigger] steps[k], operations)
}

proof fn lemma_bytes_in_memory(operation: Operation)
    ensures
        operation.bytes().len() <= usize::MAX,
{
    if let Operation::Write(bytes) = operation {
        assert(bytes@.len() == bytes.len());
    }
}

proof fn lemma_fit_append(a: Seq<Step>, b: Seq<Step>, operations: Seq<Operation>)
    requires
        all_fit(a, operations),
        all_fit(b, operations),
    ensures
        all_fit(a + b, operations),
{
}

pub(crate) proof fn lemma_single(step: Step, operations: Seq<Operation>, txak: bool)
    ensures
        trace(seq![step], operations, txak) == step_trace(step, operations, txak),
        txak_after_all(seq![step], txak) == txak_after(step, txak),
        filled(seq![step]) == step_filled(step),
{
    assert(seq![step].skip(1) =~= Seq::<Step>::empty());
    reveal_with_fuel(trace, 2);
    reveal_with_fuel(txak_after_all, 2);
    reveal_with_fuel(filled, 2);
    assert(trace(seq![step], operations, txak) =~= step_trace(step, operations, txak));
    assert(filled(seq![step]) =~= step_filled(step));
}

proof fn lemma_trace_append(
    a: Seq<Step>,
    b: Seq<Step>,
    operations: Seq<Operation>,
    txak: bool,
)
    ensures
        trace(a + b, operations, txak) == trace(a, operations, txak) + trace(
            b,
            operations,
            txak_after_all(a, txak),
        ),
    decreases a.len(),
{
    if a.len() == 0 {
        assert(a + b =~= b);
        assert(trace(a, operations, txak) + trace(b, operations, txak) =~= trace(
            b,
            operations,
            txak,
        ));
    } else {
        assert((a + b).skip(1) =~= a.skip(1) + b);
        let after = txak_after(a[0], txak);
        lemma_trace_append(a.skip(1), b, operations, after);
        assert(trace(a + b, operations, txak) =~= trace(a, operations, txak) + trace(
            b,
            operations,
            txak_after_all(a, txak),
        ));
    }
}

proof fn lemma_filled_append(a: Seq<Step>, b: Seq<Step>)
    ensures
        filled(a + b) == filled(a) + filled(b),
    decreases a.len(),
{
    if a.len() == 0 {
        assert(a + b =~= b);
        assert(filled(a) + filled(b) =~= filled(b));
    } else {
        assert((a + b).skip(1) =~= a.skip(1) + b);
        lemma_filled_append(a.skip(1), b);
        assert(filled(a + b) =~= filled(a) + filled(b));
    }
}

proof fn lemma_sends(bytes: Seq<u8>, operations: Seq<Operation>, txak: bool)
    ensures
        trace(send_steps(bytes), operations, txak) == writes(bytes),
        txak_after_all(send_steps(bytes), txak) == txak,
        filled(send_steps(bytes)) == Seq::<(int, int)>::empty(),
        all_fit(send_steps(bytes), operations),
    decreases bytes.len(),
{
    let steps = send_steps(bytes);
    if bytes.len() > 0 {
        assert(steps.skip(1) =~= send_steps(bytes.skip(1)));
        lemma_sends(bytes.skip(1), operations, txak);
        assert(trace(steps, operations, txak) =~= writes(bytes));
        assert(filled(steps) =~= Seq::<(int, int)>::empty());
    } else {
        assert(writes(bytes) =~= seq![]);
    }
}

proof fn lemma_dma_sends(
    operations: Seq<Operation>,
    i: int,
    bytes: Seq<u8>,
    offset: int,
    txak: bool,
)
    requires
        0 <= i < operations.len() <= usize::MAX,
        bytes == operations[i].bytes(),
        0 <= offset <= bytes.len() <= usize::MAX,
    ensures
        trace(dma_send_steps(i, bytes, offset), operations, txak) == writes(bytes.skip(offset)),
        txak_after_all(dma_send_steps(i, bytes, offset), txak) == txak,
        filled(dma_send_steps(i, bytes, offset)) == Seq::<(int, int)>::empty(),
        all_fit(dma_send_steps(i, bytes, offset), operations),
    decreases bytes.len() - offset,
{
    let left = bytes.len() - offset;
    let steps = dma_send_steps(i, bytes, offset);
    if left >= 2 {
        let count = dma_count(left - 1);
        let rest = dma_send_steps(i, bytes, offset + 1 + count);
        lemma_dma_sends(operations, i, bytes, offset + 1 + count, txak);
        assert(steps.skip(1) =~= rest);
        assert(seq![bytes[offset]] + bytes.subrange(offset + 1, offset + 1 + count)
            =~= bytes.subrange(offset, offset + 1 + count));
        assert(trace(steps, operations, txak) =~= writes(bytes.skip(offset)));
        assert(filled(steps) =~= Seq::<(int, int)>::empty());
        lemma_fit_append(seq![steps[0]], rest, operations);
    } else {
        lemma_sends(bytes.skip(offset), operations, txak);
    }
}

proof fn lemma_write_steps(
    operations: Seq<Operation>,
    i: int,
    end: int,
    dma: bool,
    txak: bool,
)
    requires
        0 <= i <= end <= operations.len() <= usize::MAX,
    ensures
        all_fit(write_steps(operations, i, end, dma), operations),
        trace(write_steps(operations, i, end, dma), operations, txak) == writes(
            run_bytes(operations, i, end),
        ),
        filled(write_steps(operations, i, end, dma)) == Seq::<(int, int)>::empty(),
    decreases end - i,
{
    if i < end {
        let bytes = operations[i].bytes();
        let rest = write_steps(operations, i + 1, end, dma);
        lemma_write_steps(operations, i + 1, end, dma, txak);
        let head = if dma {
            dma_send_steps(i, bytes, 0)
        } else {
            send_steps(bytes)
        };
        lemma_trace_append(head, rest, operations, txak);
        lemma_filled_append(head, rest);
        if dma {
            lemma_bytes_in_memory(operations[i]);
            lemma_dma_sends(operations, i, bytes, 0, txak);
            assert(bytes.skip(0) =~= bytes);
        } else {
            lemma_sends(bytes, operations, txak);
        }
        lemma_fit_append(head, rest, operations);
        assert(writes(bytes) + writes(run_bytes(operations, i + 1, end)) =~= writes(
            run_bytes(operations, i, end),
        ));
    } else {
        assert(writes(run_bytes(operations, i, end)) =~= seq![]);
    }
}

/// The bytes of a run after the first: all acknowledged but the last.
pub open spec fn later_reads(remaining: int) -> Seq<BusEvent> {
    reads(remaining - 2, true) + reads(
        if remaining >= 2 {
            1
        } else {
            0
        },
        false,
    )
}

proof fn lemma_take_steps(
    operations: Seq<Operation>,
    i: int,
    slot: int,
    end: int,
    remaining: int,
    after_dma: bool,
    last_run: bool,
    txak: bool,
)
    requires
        0 <= i <= end <= operations.len() <= usize::MAX,
        forall|j: int| i <= j < end ==> (#[trigger] operations[j]).is_read(),
        0 <= slot,
        i < end ==> slot <= operations[i].len(),
        i == end ==> slot == 0,
        remaining == run_len(operations, i, end) - slot,
        remaining >= 2 ==> !txak,
    ensures
        ({
            let steps = take_steps(operations, i, slot, end, remaining, after_dma, last_run);
            &&& trace(steps, operations, txak) == if remaining >= 1 {
                later_reads(remaining) + if last_run {
                    seq![BusEvent::Stop]
                } else {
                    seq![]
                }
            } else {
                seq![]
            }
            &&& filled(steps) == run_slots(operations, i, slot, end)
            &&& all_fit(steps, operations)
        }),
    decreases end - i, (if i < end { operations[i].len() - slot } else { 0 }),
{
    let steps = take_steps(operations, i, slot, end, remaining, after_dma, last_run);
    if i < end {
        lemma_run_len(operations, i + 1, end);
        if slot >= operations[i].len() {
            lemma_take_steps(operations, i + 1, 0, end, remaining, after_dma, last_run, txak);
        } else {
            let before = before_byte(remaining, last_run);
            let step = Step::Take {
                operation: i as usize,
                slot: slot as usize,
                after_dma,
                before,
            };
            let rest = take_steps(operations, i, slot + 1, end, remaining - 1, false, last_run);
            let after = txak_after(step, txak);
            assert(steps.skip(1) =~= rest);
            lemma_take_steps(
                operations,
                i,
                slot + 1,
                end,
                remaining - 1,
                false,
                last_run,
                after,
            );
            assert(filled(steps) =~= run_slots(operations, i, slot, end));
            let tail = if last_run {
                seq![BusEvent::Stop]
            } else {
                seq![]
            };
            if remaining == 1 {
                assert(trace(steps, operations, txak) =~= later_reads(remaining) + tail);
            } else if remaining == 2 {
                assert(trace(steps, operations, txak) =~= later_reads(remaining) + tail);
            } else {
                assert(reads(1, true) + reads(remaining - 3, true) =~= reads(remaining - 2, true));
                assert(trace(steps, operations, txak) =~= later_reads(remaining) + tail);
            }
        }
    }
}

pub(crate) proof fn lemma_first_slots(operations: Seq<Operation>, i: int, end: int, slot: int, count: int)
    requires
        0 <= i < end <= operations.len(),
        0 <= slot <= count <= operations[i].len(),
    ensures
        run_slots(operations, i, slot, end) == Seq::new(
            (count - slot) as nat,
            |k: int| (i, slot + k),
        ) + run_slots(operations, i, count, end),
    decreases count - slot,
{
    if slot < count {
        lemma_first_slots(operations, i, end, slot + 1, count);
    }
    assert(run_slots(operations, i, slot, end) =~= Seq::new(
        (count - slot) as nat,
        |k: int| (i, slot + k),
    ) + run_slots(operations, i, count, end));
}

proof fn lemma_dma_take_steps(
    operations: Seq<Operation>,
    i: int,
    slot: int,
    remaining: int,
    last_run: bool,
    txak: bool,
)
    requires
        0 <= i < operations.len() <= usize::MAX,
        operations[i].is_read(),
        0 <= slot,
        1 <= remaining,
        remaining == operations[i].len() - slot,
        remaining >= 2 ==> !txak,
    ensures
        ({
            let steps = dma_take_steps(operations, i, slot, remaining, last_run);
            &&& trace(steps, operations, txak) == later_reads(remaining) + if last_run {
                seq![BusEvent::Stop]
            } else {
                seq![]
            }
            &&& filled(steps) == run_slots(operations, i, slot, i + 1)
            &&& all_fit(steps, operations)
        }),
    decreases remaining,
{
    let steps = dma_take_steps(operations, i, slot, remaining, last_run);
    let tail = if last_run {
        seq![BusEvent::Stop]
    } else {
        seq![]
    };
    lemma_one_read(operations, i);
    if remaining >= 3 {
        let count = dma_count(remaining - 2);
        let moved = Step::ReceiveDma {
            operation: i as usize,
            slot: slot as usize,
            count: count as usize,
        };
        lemma_single(moved, operations, false);
        lemma_first_slots(operations, i, i + 1, slot, slot + count);
        if remaining - count == 2 {
            let rest = take_steps(operations, i, slot + count, i + 1, 2, true, last_run);
            assert(steps == seq![moved] + rest);
            lemma_take_steps(operations, i, slot + count, i + 1, 2, true, last_run, false);
            lemma_trace_append(seq![moved], rest, operations, false);
            lemma_filled_append(seq![moved], rest);
            assert(reads(count, true) + (later_reads(2) + tail) =~= later_reads(remaining) + tail);
            assert(filled(seq![moved]) =~= Seq::new(
                (slot + count - slot) as nat,
                |k: int| (i, slot + k),
            ));
            lemma_fit_append(seq![moved], rest, operations);
        } else {
            let byte = Step::Take {
                operation: i as usize,
                slot: (slot + count) as usize,
                after_dma: true,
                before: Before::Nothing,
            };
            let left = remaining - count - 1;
            let rest = dma_take_steps(operations, i, slot + count + 1, left, last_run);
            assert(steps == seq![moved] + (seq![byte] + rest));
            lemma_dma_take_steps(operations, i, slot + count + 1, left, last_run, false);
            lemma_single(byte, operations, false);
            lemma_trace_append(seq![moved], seq![byte] + rest, operations, false);
            lemma_trace_append(seq![byte], rest, operations, false);
            lemma_filled_append(seq![moved], seq![byte] + rest);
            lemma_filled_append(seq![byte], rest);
            assert(reads(count, true) + (reads(1, true) + (later_reads(left) + tail))
                =~= later_reads(remaining) + tail);
            assert(filled(seq![moved]) =~= Seq::new(
                (slot + count - slot) as nat,
                |k: int| (i, slot + k),
            ));
            assert(filled(steps) =~= run_slots(operations, i, slot, i + 1));
            lemma_fit_append(seq![byte], rest, operations);
            lemma_fit_append(seq![moved], seq![byte] + rest, operations);
        }
    } else {
        lemma_take_steps(operations, i, slot, i + 1, remaining, false, last_run, txak);
    }
}

proof fn lemma_read_steps(operations: Seq<Operation>, i: int, end: int, dma: bool)
    requires
        0 <= i < end <= operations.len() <= usize::MAX,
        forall|j: int| i <= j < end ==> (#[trigger] operations[j]).is_read(),
        1 <= run_len(operations, i, end) <= usize::MAX,
    ensures
        ({
            let total = run_len(operations, i, end);
            let steps = read_steps(operations, i, end, dma);
            &&& reads(1, total != 1) + trace(steps, operations, total == 1) == (reads(
                total - 1,
                true,
            ) + reads(1, false)) + if end == operations.len() {
                seq![BusEvent::Stop]
            } else {
                seq![]
            }
            &&& filled(steps) == run_slots(operations, i, 0, end)
            &&& all_fit(steps, operations)
        }),
{
    let total = run_len(operations, i, end);
    let last_run = end == operations.len();
    let steps = read_steps(operations, i, end, dma);
    let tail = if last_run {
        seq![BusEvent::Stop]
    } else {
        seq![]
    };
    lemma_run_len(operations, i + 1, end);
    if end == i + 1 && dma {
        lemma_one_read(operations, i);
        lemma_dma_take_steps(operations, i, 0, total, last_run, total == 1);
    } else {
        lemma_take_steps(operations, i, 0, end, total, false, last_run, total == 1);
    }
    if total == 1 {
        assert(reads(1, false) + (later_reads(1) + tail) =~= (reads(0, true) + reads(1, false))
            + tail);
    } else {
        assert(reads(1, true) + (later_reads(total) + tail) =~= (reads(total - 1, true) + reads(
            1,
            false,
        )) + tail);
    }
}

/// What a run of two leading steps, a body and the rest of the plan put on the bus and fill.
proof fn lemma_run(
    first: Step,
    second: Step,
    body: Seq<Step>,
    rest: Seq<Step>,
    operations: Seq<Operation>,
    txak: bool,
)
    requires
        first is Start,
        second is Transmit || second is Receive,
    ensures
        ({
            let steps = seq![first, second] + body + rest;
            let after = txak_after(second, txak);
            &&& trace(steps, operations, txak) == step_trace(first, operations, txak) + (step_trace(
                second,
                operations,
                txak,
            ) + trace(body, operations, after)) + trace(
                rest,
                operations,
                txak_after_all(body, after),
            )
            &&& filled(steps) == filled(body) + filled(rest)
        }),
{
    let steps = seq![first, second] + body + rest;
    let after = txak_after(second, txak);
    let tail = body + rest;
    assert(steps =~= seq![first] + (seq![second] + tail));
    lemma_trace_append(seq![first], seq![second] + tail, operations, txak);
    lemma_single(first, operations, txak);
    lemma_trace_append(seq![second], tail, operations, txak);
    lemma_single(second, operations, txak);
    lemma_trace_append(body, rest, operations, after);
    assert(trace(steps, operations, txak) =~= step_trace(first, operations, txak) + (step_trace(
        second,
        operations,
        txak,
    ) + trace(body, operations, after)) + trace(rest, operations, txak_after_all(body, after)));
    lemma_filled_append(seq![first], seq![second] + tail);
    lemma_filled_append(seq![second], tail);
    lemma_filled_append(body, rest);
    assert(filled(steps) =~= filled(body) + filled(rest));
}

proof fn lemma_empty_read(operations: Seq<Operation>, started: bool, txak: bool)
    ensures
        ({
            let steps = (if started {
                seq![Step::Stop]
            } else {
                seq![]
            }) + seq![Step::Fail];
            &&& trace(steps, operations, txak) == if started {
                seq![BusEvent::Stop]
            } else {
                seq![]
            }
            &&& filled(steps) == Seq::<(int, int)>::empty()
        }),
{
    lemma_single(Step::Fail, operations, txak);
    if started {
        lemma_trace_append(seq![Step::Stop], seq![Step::Fail], operations, txak);
        lemma_filled_append(seq![Step::Stop], seq![Step::Fail]);
        lemma_single(Step::Stop, operations, txak);
        lemma_single(Step::Fail, operations, false);
        assert(seq![BusEvent::Stop] + Seq::<BusEvent>::empty() =~= seq![BusEvent::Stop]);
        assert(Seq::<(int, int)>::empty() + Seq::<(int, int)>::empty() =~= Seq::empty());
    } else {
        assert(Seq::<Step>::empty() + seq![Step::Fail] =~= seq![Step::Fail]);
    }
}

proof fn lemma_plan_steps(
    address: u8,
    operations: Seq<Operation>,
    dma: bool,
    i: int,
    started: bool,
    txak: bool,
)
    requires
        0 <= i <= operations.len() <= usize::MAX,
        countable(operations),
    ensures
        all_fit(plan_steps(address, operations, dma, i, started, false), operations),
        trace(plan_steps(address, operations, dma, i, started, false), operations, txak)
            == bus_contract(address, operations, i, started),
        filled(plan_steps(address, operations, dma, i, started, false)) == slot_contract(
            operations,
            i,
        ),
    decreases operations.len() - i,
{
    let steps = plan_steps(address, operations, dma, i, started, false);
    if i >= operations.len() {
        lemma_single(Step::Stop, operations, txak);
        assert(trace(steps, operations, txak) == bus_contract(address, operations, i, started));
    } else {
        let read = operations[i].is_read();
        lemma_run_end(operations, i, read);
        let end = run_end(operations, i, read);
        let total = run_len(operations, i, end);
        let start = Step::Start { repeated: started, byte: address_byte(address, read) };
        if !read {
            let body = write_steps(operations, i, end, dma);
            let rest = plan_steps(address, operations, dma, end, true, false);
            let bytes = writes(run_bytes(operations, i, end));
            lemma_run(start, Step::Transmit, body, rest, operations, txak);
            lemma_write_steps(operations, i, end, dma, txak);
            lemma_plan_steps(address, operations, dma, end, true, txak_after_all(body, txak));
            assert(Seq::<BusEvent>::empty() + bytes =~= bytes);
            assert(Seq::<(int, int)>::empty() + slot_contract(operations, end) =~= slot_contract(
                operations,
                end,
            ));
            assert(steps == seq![start, Step::Transmit] + body + rest);
            lemma_fit_append(seq![start, Step::Transmit], body, operations);
            lemma_fit_append(seq![start, Step::Transmit] + body, rest, operations);
            assert(trace(steps, operations, txak) == bus_contract(address, operations, i, started));
        } else if total == 0 {
            lemma_empty_read(operations, started, txak);
        } else {
            lemma_run_len(operations, i, end);
            let receive = Step::Receive { nack: total == 1 };
            let body = read_steps(operations, i, end, dma);
            let last_run = end == operations.len();
            let rest = plan_steps(address, operations, dma, end, true, last_run);
            let after = txak_after_all(body, total == 1);
            let run = reads(total - 1, true) + reads(1, false);
            lemma_run(start, receive, body, rest, operations, txak);
            lemma_read_steps(operations, i, end, dma);
            assert(steps == seq![start, receive] + body + rest);
            lemma_fit_append(seq![start, receive], body, operations);
            if last_run {
                let opening = step_trace(start, operations, txak);
                assert(rest == Seq::<Step>::empty());
                assert(trace(rest, operations, after) == Seq::<BusEvent>::empty());
                assert(filled(rest) == Seq::<(int, int)>::empty());
                assert(bus_contract(address, operations, end, true) == seq![BusEvent::Stop]);
                assert(slot_contract(operations, end) == Seq::<(int, int)>::empty());
                assert(opening + (run + seq![BusEvent::Stop]) + Seq::<BusEvent>::empty()
                    =~= opening + run + seq![BusEvent::Stop]);
            } else {
                lemma_plan_steps(address, operations, dma, end, true, after);
                lemma_fit_append(seq![start, receive] + body, rest, operations);
                assert(run + Seq::<BusEvent>::empty() =~= run);
                assert(trace(steps, operations, txak) == bus_contract(address, operations, i, started));
            }
        }
    }
}

/// A planned transaction puts on the bus exactly what the contract of a transaction asks for, with
/// or without DMA, and whatever state the acknowledge bit was left in.
pub proof fn law_bus_contract(address: u8, operations: Seq<Operation>, dma: bool, txak: bool)
    requires
        operations.len() <= usize::MAX,
        countable(operations),
    ensures
        trace(transaction_steps(address, operations, dma), operations, txak) == bus_contract(
            address,
            operations,
            0,
            false,
        ),
{
    lemma_plan_steps(address, operations, dma, 0, false, txak);
}

/// A planned transaction fills every slot of its reads once, in order, up to a run of reads of no
/// bytes at all.
pub proof fn law_slots_in_order(address: u8, operations: Seq<Operation>, dma: bool)
    requires
        operations.len() <= usize::MAX,
        countable(operations),
    ensures
        filled(transaction_steps(address, operations, dma)) == slot_contract(operations, 0),
{
    lemma_plan_steps(address, operations, dma, 0, false, false);
}

/// Whatever the lengths of its operations, a planned transaction asks of the DMA controller only what
/// that can move at once, and only bytes of its operations.
pub proof fn law_dma_steps_fit(address: u8, operations: Seq<Operation>, dma: bool)
    requires
        operations.len() <= usize::MAX,
        countable(operations),
    ensures
        all_fit(transaction_steps(address, operations, dma), operations),
{
    lemma_plan_steps(address, operations, dma, 0, false, false);
}

// ---------------------------------------------------------------------------------------------
// Running the steps
// ---------------------------------------------------------------------------------------------

/// What a [`Transaction`] is waiting for.
#[derive(Clone, Copy, Debug, PartialEq, Eq)]
pub enum Wait {
    /// Nothing: go on with [`Event::Continue`].
    Nothing,
    /// Whether the bus is busy (`S[BUSY]`, now).
    Bus,
    /// The byte in flight (`S` once `IICIF` is set).
    Byte,
    /// The byte that the last access of a DMA run started; see
    /// [`wait_after_dma`](crate::i2c::wait_after_dma).
    ByteAfterDma,
    /// A DMA transfer.
    Dma,
    /// Nothing any more: the transaction is over.
    Finished(Result<(), Error>),
}

/// What happened.
#[derive(Clone, Copy, Debug, PartialEq, Eq, Structural)]
pub enum Event {
    /// Nothing.
    Continue,
    /// The bus is busy or not.
    Bus { busy: bool },
    /// The byte in flight is done: `S[ARBL]` and `S[RXAK]`.
    Byte { arbl: bool, rxak: bool },
    /// The DMA transfer is done, well or not.
    Dma { ok: bool },
}

/// STOP, then wait for the bus to go idle.
pub open spec fn stop_program() -> Seq<Op> {
    seq![Op::Release, Op::WaitIdle]
}

/// START followed by the address byte.
pub open spec fn start_program(byte: u8) -> Seq<Op> {
    seq![Op::Master, Op::WaitEmpty, Op::WriteData(byte)]
}

/// Repeated START followed by the address byte. A repeated start is not generated reliably with
/// `F[MULT] != 0`, so that is cleared meanwhile.
pub open spec fn repeated_start_program(byte: u8) -> Seq<Op> {
    seq![
        Op::ClearMult,
        Op::RepeatedStart,
        Op::RestoreF,
        Op::Delay(6),
        Op::WaitEmpty,
        Op::WriteData(byte),
    ]
}

/// Accesses before a received byte is read out.
pub open spec fn before_program(before: Before) -> Seq<Op> {
    match before {
        Before::Stop => stop_program(),
        Before::Hold => seq![Op::SetTx(true)],
        Before::NackNext => seq![Op::SetTxak(true)],
        Before::Nothing => seq![],
    }
}

/// A transaction's progress: the step it is at, and what it is waiting for.
pub ghost struct Progress {
    pub at: int,
    pub wait: Wait,
}

/// How a transaction begins its step, and the accesses for that.
pub open spec fn begin_step(steps: Seq<Step>, at: int) -> (Progress, Seq<Op>) {
    if at >= steps.len() {
        (Progress { at, wait: Wait::Finished(Ok(())) }, seq![])
    } else {
        match steps[at] {
            Step::Start { repeated, byte } => if repeated {
                (Progress { at, wait: Wait::Byte }, repeated_start_program(byte))
            } else {
                (Progress { at, wait: Wait::Bus }, seq![])
            },
            Step::Transmit => (
                Progress { at: at + 1, wait: Wait::Nothing },
                seq![Op::SetTx(true)],
            ),
            Step::Send(byte) => (Progress { at, wait: Wait::Byte }, seq![Op::WriteData(byte)]),
            Step::SendDma { first, .. } => (
                Progress { at, wait: Wait::Dma },
                seq![Op::SetDmaen(true), Op::WriteData(first)],
            ),
            Step::Receive { nack } => (
                Progress { at: at + 1, wait: Wait::Nothing },
                seq![Op::SetReceive { txak: nack }, Op::DummyRead],
            ),
            Step::ReceiveDma { .. } => (
                Progress { at, wait: Wait::Dma },
                seq![Op::SetDmaen(true)],
            ),
            Step::Take { after_dma, .. } => (
                Progress {
                    at,
                    wait: if after_dma {
                        Wait::ByteAfterDma
                    } else {
                        Wait::Byte
                    },
                },
                seq![],
            ),
            Step::Stop => (Progress { at: at + 1, wait: Wait::Nothing }, stop_program()),
            Step::Fail => (
                Progress { at, wait: Wait::Finished(Err(Error::InvalidReadBufferLength)) },
                seq![],
            ),
        }
    }
}

/// How a transaction goes on when the byte in flight is done: the flag is cleared; arbitration
/// loss ends the transaction (it clears `MST` in hardware, so there is nothing to stop), and so
/// does a NACK of a byte that was sent.
pub open spec fn byte_done(steps: Seq<Step>, at: int, arbl: bool, rxak: bool) -> (
    Progress,
    Seq<Op>,
) {
    if arbl {
        (
            Progress { at, wait: Wait::Finished(Err(Error::Arbitration)) },
            seq![Op::ClearIicif, Op::ClearArbl],
        )
    } else {
        match steps[at] {
            Step::Take { operation, slot, before, .. } => (
                Progress { at: at + 1, wait: Wait::Nothing },
                seq![Op::ClearIicif] + before_program(before) + seq![
                    Op::ReadData { operation, slot },
                ],
            ),
            step => if rxak {
                (
                    Progress {
                        at,
                        wait: Wait::Finished(
                            Err(
                                if step is Start {
                                    Error::AddressNack
                                } else {
                                    Error::DataNack
                                },
                            ),
                        ),
                    },
                    seq![Op::ClearIicif] + stop_program(),
                )
            } else {
                (Progress { at: at + 1, wait: Wait::Nothing }, seq![Op::ClearIicif])
            },
        }
    }
}

/// How a transaction goes on at an event, and the accesses for that. An event that it does not
/// wait for changes nothing.
pub open spec fn advance_to(steps: Seq<Step>, now: Progress, event: Event) -> (
    Progress,
    Seq<Op>,
) {
    match (now.wait, event) {
        (Wait::Nothing, Event::Continue) => begin_step(steps, now.at),
        (Wait::Bus, Event::Bus { busy }) => if busy {
            (Progress { at: now.at, wait: Wait::Finished(Err(Error::Bus)) }, seq![])
        } else {
            (
                Progress { at: now.at, wait: Wait::Byte },
                start_program(steps[now.at]->Start_byte),
            )
        },
        (Wait::Byte, Event::Byte { arbl, rxak }) => byte_done(steps, now.at, arbl, rxak),
        (Wait::ByteAfterDma, Event::Byte { arbl, rxak }) => byte_done(steps, now.at, arbl, rxak),
        (Wait::Dma, Event::Dma { ok }) => if !ok {
            (
                Progress { at: now.at, wait: Wait::Finished(Err(Error::Dma)) },
                seq![Op::SetDmaen(false)] + stop_program(),
            )
        } else if steps[now.at] is SendDma {
            (Progress { at: now.at, wait: Wait::ByteAfterDma }, seq![Op::SetDmaen(false)])
        } else {
            (Progress { at: now.at + 1, wait: Wait::Nothing }, seq![Op::SetDmaen(false)])
        },
        _ => (now, seq![]),
    }
}

/// Whether a transaction can be waiting for this at this step.
pub open spec fn consistent(steps: Seq<Step>, now: Progress) -> bool {
    &&& 0 <= now.at <= steps.len()
    &&& match now.wait {
        Wait::Nothing | Wait::Finished(_) => true,
        Wait::Bus => now.at < steps.len() && steps[now.at] is Start
            && !steps[now.at]->Start_repeated,
        Wait::Byte => now.at < steps.len() && match steps[now.at] {
            Step::Start { .. } | Step::Send(_) => true,
            Step::Take { after_dma, .. } => !after_dma,
            _ => false,
        },
        Wait::ByteAfterDma => now.at < steps.len() && match steps[now.at] {
            Step::SendDma { .. } => true,
            Step::Take { after_dma, .. } => after_dma,
            _ => false,
        },
        Wait::Dma => now.at < steps.len() && (steps[now.at] is SendDma
            || steps[now.at] is ReceiveDma),
    }
}

/// A transaction under way.
#[derive(Debug)]
pub struct Transaction {
    steps: Vec<Step>,
    at: usize,
    wait: Wait,
}

impl Transaction {
    /// Whether the transaction can be where it is.
    pub open spec fn wf(&self) -> bool {
        consistent(self.steps(), self.progress())
    }

    /// The steps of the transaction.
    pub closed spec fn steps(&self) -> Seq<Step> {
        self.steps@
    }

    /// How far it is.
    pub closed spec fn progress(&self) -> Progress {
        Progress { at: self.at as int, wait: self.wait }
    }

    /// A transaction that has not begun.
    pub fn new(address: u8, operations: &Vec<Operation>, dma: bool) -> (r: Self)
        requires
            countable(operations@),
        ensures
            r.steps() == transaction_steps(address, operations@, dma),
            r.progress() == (Progress { at: 0, wait: Wait::Nothing }),
            r.wf(),
    {
        Transaction { steps: plan(address, operations, dma), at: 0, wait: Wait::Nothing }
    }

    /// What the transaction is waiting for.
    pub fn wait(&self) -> (r: Wait)
        ensures
            r == self.progress().wait,
    {
        self.wait
    }

    /// The step that the transaction is at, unless it has gone through all of them.
    pub fn step(&self) -> (r: Option<Step>)
        ensures
            r == if self.progress().at < self.steps().len() {
                Some(self.steps()[self.progress().at])
            } else {
                None::<Step>
            },
    {
        if self.at < self.steps.len() {
            Some(self.steps[self.at])
        } else {
            None
        }
    }

    /// Goes on at an event. The accesses returned are to be made at once, in order.
    pub fn advance(&mut self, event: Event) -> (r: Vec<Op>)
        requires
            old(self).wf(),
        ensures
            final(self).wf(),
            final(self).steps() == old(self).steps(),
            final(self).progress() == advance_to(old(self).steps(), old(self).progress(), event).0,
            r@ == advance_to(old(self).steps(), old(self).progress(), event).1,
    {
        match (self.wait, event) {
            (Wait::Nothing, Event::Continue) => self.begin(),
            (Wait::Bus, Event::Bus { busy }) => {
                if busy {
                    self.wait = Wait::Finished(Err(Error::Bus));
                    return Vec::new();
                }
                if let Step::Start { byte, .. } = self.steps[self.at] {
                    self.wait = Wait::Byte;
                    vec![Op::Master, Op::WaitEmpty, Op::WriteData(byte)]
                } else {
                    Vec::new()
                }
            },
            (Wait::Byte, Event::Byte { arbl, rxak }) => self.finish_byte(arbl, rxak),
            (Wait::ByteAfterDma, Event::Byte { arbl, rxak }) => self.finish_byte(arbl, rxak),
            (Wait::Dma, Event::Dma { ok }) => {
                if !ok {
                    self.wait = Wait::Finished(Err(Error::Dma));
                    return vec![Op::SetDmaen(false), Op::Release, Op::WaitIdle];
                }
                if matches!(self.steps[self.at], Step::SendDma { .. }) {
                    self.wait = Wait::ByteAfterDma;
                } else {
                    assert(self.at < self.steps.len());
                    self.at = self.at + 1;
                    self.wait = Wait::Nothing;
                }
                vec![Op::SetDmaen(false)]
            },
            _ => Vec::new(),
        }
    }

    fn begin(&mut self) -> (r: Vec<Op>)
        requires
            old(self).wf(),
            old(self).progress().wait == Wait::Nothing,
        ensures
            final(self).wf(),
            final(self).steps() == old(self).steps(),
            final(self).progress() == begin_step(old(self).steps(), old(self).progress().at).0,
            r@ == begin_step(old(self).steps(), old(self).progress().at).1,
    {
        if self.at >= self.steps.len() {
            self.wait = Wait::Finished(Ok(()));
            return Vec::new();
        }
        match self.steps[self.at] {
            Step::Start { repeated, byte } => {
                if repeated {
                    self.wait = Wait::Byte;
                    vec![
                        Op::ClearMult,
                        Op::RepeatedStart,
                        Op::RestoreF,
                        Op::Delay(6),
                        Op::WaitEmpty,
                        Op::WriteData(byte),
                    ]
                } else {
                    self.wait = Wait::Bus;
                    Vec::new()
                }
            },
            Step::Transmit => {
                self.at = self.at + 1;
                vec![Op::SetTx(true)]
            },
            Step::Send(byte) => {
                self.wait = Wait::Byte;
                vec![Op::WriteData(byte)]
            },
            // With DMAEN set, the completion of each byte requests the next one from the DMA.
            Step::SendDma { first, .. } => {
                self.wait = Wait::Dma;
                vec![Op::SetDmaen(true), Op::WriteData(first)]
            },
            Step::Receive { nack } => {
                self.at = self.at + 1;
                vec![Op::SetReceive { txak: nack }, Op::DummyRead]
            },
            Step::ReceiveDma { .. } => {
                self.wait = Wait::Dma;
                vec![Op::SetDmaen(true)]
            },
            Step::Take { after_dma, .. } => {
                self.wait = if after_dma {
                    Wait::ByteAfterDma
                } else {
                    Wait::Byte
                };
                Vec::new()
            },
            Step::Stop => {
                self.at = self.at + 1;
                vec![Op::Release, Op::WaitIdle]
            },
            Step::Fail => {
                self.wait = Wait::Finished(Err(Error::InvalidReadBufferLength));
                Vec::new()
            },
        }
    }

    fn finish_byte(&mut self, arbl: bool, rxak: bool) -> (r: Vec<Op>)
        requires
            old(self).wf(),
            old(self).progress().wait == Wait::Byte || old(self).progress().wait
                == Wait::ByteAfterDma,
        ensures
            final(self).wf(),
            final(self).steps() == old(self).steps(),
            final(self).progress() == byte_done(
                old(self).steps(),
                old(self).progress().at,
                arbl,
                rxak,
            ).0,
            r@ == byte_done(old(self).steps(), old(self).progress().at, arbl, rxak).1,
    {
        if arbl {
            self.wait = Wait::Finished(Err(Error::Arbitration));
            return vec![Op::ClearIicif, Op::ClearArbl];
        }
        assert(self.at < self.steps.len());
        let mut ops: Vec<Op> = vec![Op::ClearIicif];
        match self.steps[self.at] {
            Step::Take { operation, slot, before, .. } => {
                match before {
                    Before::Stop => {
                        ops.push(Op::Release);
                        ops.push(Op::WaitIdle);
                    },
                    Before::Hold => ops.push(Op::SetTx(true)),
                    Before::NackNext => ops.push(Op::SetTxak(true)),
                    Before::Nothing => {},
                }
                ops.push(Op::ReadData { operation, slot });
                self.at = self.at + 1;
                self.wait = Wait::Nothing;
            },
            step => {
                if rxak {
                    ops.push(Op::Release);
                    ops.push(Op::WaitIdle);
                    let nack: Error = if matches!(step, Step::Start { .. }) {
                        Error::AddressNack
                    } else {
                        Error::DataNack
                    };
                    self.wait = Wait::Finished(Err(nack));
                } else {
                    self.at = self.at + 1;
                    self.wait = Wait::Nothing;
                }
            },
        }
        ops
    }
}

/// A transaction that fails gives the bus back: after a NACK or a DMA error the last accesses are a
/// STOP and the wait for it; where another master has won the bus, or the bus was never taken,
/// there is no STOP to make.
pub proof fn law_failure_releases_the_bus(steps: Seq<Step>, now: Progress, event: Event)
    requires
        consistent(steps, now),
        !(now.wait is Finished),
    ensures
        ({
            let (next, ops) = advance_to(steps, now, event);
            next.wait matches Wait::Finished(Err(e)) ==> match e {
                Error::AddressNack | Error::DataNack | Error::Dma => ops.len() >= 2 && ops.skip(
                    ops.len() - 2,
                ) == stop_program(),
                Error::Bus | Error::InvalidReadBufferLength => ops.len() == 0,
                Error::Arbitration => ops == seq![Op::ClearIicif, Op::ClearArbl],
            }
        }),
{
    let (next, ops) = advance_to(steps, now, event);
    if let Wait::Finished(Err(e)) = next.wait {
        if e == Error::AddressNack || e == Error::DataNack || e == Error::Dma {
            assert(ops.skip(ops.len() - 2) =~= stop_program());
        }
    }
}

/// Once a transaction is over nothing more is done, whatever happens.
pub proof fn law_finished_is_final(steps: Seq<Step>, now: Progress, event: Event)
    requires
        now.wait is Finished,
    ensures
        advance_to(steps, now, event) == (now, Seq::<Op>::empty()),
{
}

/// The event that lets a transaction go on at its step.
pub open spec fn favourable(wait: Wait) -> Event {
    match wait {
        Wait::Nothing | Wait::Finished(_) => Event::Continue,
        Wait::Bus => Event::Bus { busy: false },
        Wait::Byte | Wait::ByteAfterDma => Event::Byte { arbl: false, rxak: false },
        Wait::Dma => Event::Dma { ok: true },
    }
}

/// Where a number of favourable events takes a transaction.
pub open spec fn go_on(steps: Seq<Step>, now: Progress, events: nat) -> Progress
    decreases events,
{
    if events == 0 {
        now
    } else {
        go_on(
            steps,
            advance_to(steps, now, favourable(now.wait)).0,
            (events - 1) as nat,
        )
    }
}

proof fn lemma_step_completes(steps: Seq<Step>, at: int)
    requires
        0 <= at < steps.len(),
        !(steps[at] is Fail),
    ensures
        exists|events: nat|
            events <= 3 && #[trigger] go_on(
                steps,
                Progress { at, wait: Wait::Nothing },
                events,
            ) == (Progress { at: at + 1, wait: Wait::Nothing }),
{
    let now = Progress { at, wait: Wait::Nothing };
    reveal_with_fuel(go_on, 4);
    match steps[at] {
        Step::Transmit | Step::Receive { .. } | Step::Stop => {
            assert(go_on(steps, now, 1) == (Progress { at: at + 1, wait: Wait::Nothing }));
        },
        Step::Start { repeated, .. } => {
            if repeated {
                assert(go_on(steps, now, 2) == (Progress { at: at + 1, wait: Wait::Nothing }));
            } else {
                assert(go_on(steps, now, 3) == (Progress { at: at + 1, wait: Wait::Nothing }));
            }
        },
        Step::Send(_) | Step::ReceiveDma { .. } | Step::Take { .. } => {
            assert(go_on(steps, now, 2) == (Progress { at: at + 1, wait: Wait::Nothing }));
        },
        Step::SendDma { .. } => {
            assert(go_on(steps, now, 3) == (Progress { at: at + 1, wait: Wait::Nothing }));
        },
        Step::Fail => {},
    }
}

pub(crate) proof fn lemma_go_on_append(steps: Seq<Step>, now: Progress, a: nat, b: nat)
    ensures
        go_on(steps, now, a + b) == go_on(steps, go_on(steps, now, a), b),
    decreases a,
{
    if a > 0 {
        lemma_go_on_append(
            steps,
            advance_to(steps, now, favourable(now.wait)).0,
            (a - 1) as nat,
            b,
        );
    }
}

/// Where the slave acknowledges and nothing else goes wrong, a transaction goes through its steps
/// one after the other: it ends well, unless the plan says that it has to fail.
pub proof fn law_undisturbed_transaction_ends(steps: Seq<Step>, at: int)
    requires
        0 <= at <= steps.len(),
    ensures
        exists|events: nat|
            (#[trigger] go_on(steps, Progress { at, wait: Wait::Nothing }, events)).wait
                == Wait::Finished(
                if steps.skip(at).contains(Step::Fail) {
                    Err(Error::InvalidReadBufferLength)
                } else {
                    Ok(())
                },
            ),
    decreases steps.len() - at,
{
    let now = Progress { at, wait: Wait::Nothing };
    let rest = steps.skip(at);
    reveal_with_fuel(go_on, 2);
    if at == steps.len() {
        assert(go_on(steps, now, 1).wait == Wait::Finished(Ok(())));
    } else if steps[at] is Fail {
        assert(rest[0] == Step::Fail);
        assert(go_on(steps, now, 1).wait == Wait::Finished(Err(Error::InvalidReadBufferLength)));
    } else {
        lemma_step_completes(steps, at);
        let a = choose|events: nat|
            events <= 3 && #[trigger] go_on(steps, now, events) == (Progress {
                at: at + 1,
                wait: Wait::Nothing,
            });
        law_undisturbed_transaction_ends(steps, at + 1);
        let next = Progress { at: at + 1, wait: Wait::Nothing };
        let later = steps.skip(at + 1);
        let end = Wait::Finished(
            if later.contains(Step::Fail) {
                Err(Error::InvalidReadBufferLength)
            } else {
                Ok(())
            },
        );
        let b = choose|events: nat| (#[trigger] go_on(steps, next, events)).wait == end;
        lemma_go_on_append(steps, now, a, b);
        if later.contains(Step::Fail) {
            let k = later.index_of(Step::Fail);
            assert(rest[k + 1] == Step::Fail);
        }
        if rest.contains(Step::Fail) {
            let k = rest.index_of(Step::Fail);
            assert(later[k - 1] == Step::Fail);
        }
        assert(go_on(steps, now, a + b).wait == end);
    }
}

} // verus!
