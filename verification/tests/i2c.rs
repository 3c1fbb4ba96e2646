use embassy_nxp::gpio::Mux;
use embassy_nxp::i2c::transaction::{plan, Before, Event, Operation, Step, Transaction, Wait};
use embassy_nxp::i2c::{
    baud_divisors, on_interrupt, wait_after_dma, AfterDma, Config, Error, ErrorKind, I2c, Line, Mult, Op, Poll, DIVIDERS,
};

fn driver() -> I2c {
    I2c::new_blocking(24_000_000, Mux::Mux2, Mux::Mux2, Config::default()).0
}

/// Runs a transaction with an event for every wait; returns the accesses and the outcome.
fn run(mut transaction: Transaction, event: impl Fn(Wait, usize) -> Event) -> (Vec<Op>, Result<(), Error>) {
    let mut ops = Vec::new();
    let mut waits = 0;
    loop {
        match transaction.wait() {
            Wait::Finished(result) => return (ops, result),
            Wait::Nothing => ops.append(&mut transaction.advance(Event::Continue)),
            wait => {
                let event = event(wait, waits);
                waits += 1;
                ops.append(&mut transaction.advance(event));
            }
        }
    }
}

fn favourable(wait: Wait, _: usize) -> Event {
    match wait {
        Wait::Bus => Event::Bus { busy: false },
        Wait::Byte | Wait::ByteAfterDma => Event::Byte { arbl: false, rxak: false },
        Wait::Dma => Event::Dma { ok: true },
        _ => Event::Continue,
    }
}

#[test]
fn closest_scl_rate_is_chosen() {
    let (mult, icr) = baud_divisors(24_000_000, 100_000);
    let divider = (1u32 << mult.to_bits()) * DIVIDERS[icr as usize] as u32;
    assert_eq!(24_000_000 / divider, 100_000);
    assert_eq!((mult, icr), (Mult::_00, 31));
    assert_eq!(baud_divisors(20_000_000, u32::MAX), (Mult::_00, 0));
    assert_eq!(baud_divisors(20_000_000, 0), (Mult::_10, 63));
}

#[test]
fn setup_program() {
    let (_, ops) = I2c::new_blocking(24_000_000, Mux::Mux2, Mux::Mux3, Config { frequency: 100_000, internal_pullup: false });
    assert_eq!(
        ops,
        vec![
            Op::EnableClock,
            Op::ResetA1,
            Op::ResetF,
            Op::ResetC1,
            Op::WriteS(0xFF),
            Op::ResetC2,
            Op::ResetFlt,
            Op::ResetRa,
            Op::WriteF { mult: Mult::_00, icr: 31 },
            Op::ConfigurePin { line: Line::Scl, mux: Mux::Mux2, pe: false },
            Op::ConfigurePin { line: Line::Sda, mux: Mux::Mux3, pe: false },
            Op::EnableModule,
        ]
    );
    let (_, ops) = I2c::new(24_000_000, Mux::Mux2, Mux::Mux3, Some(9), Config::default());
    assert_eq!(ops[12..], [Op::EnableSource(9), Op::UnpendInterrupt, Op::EnableInterrupt]);
}

#[test]
fn write_read_uses_a_repeated_start() {
    let (ops, result) = run(driver().write_read(0x1D, vec![0x0D, 0x55], 2), favourable);
    assert_eq!(result, Ok(()));
    assert_eq!(
        ops,
        vec![
            Op::Master,
            Op::WaitEmpty,
            Op::WriteData(0x3A),
            Op::ClearIicif,
            Op::SetTx(true),
            Op::WriteData(0x0D),
            Op::ClearIicif,
            Op::WriteData(0x55),
            Op::ClearIicif,
            Op::ClearMult,
            Op::RepeatedStart,
            Op::RestoreF,
            Op::Delay(6),
            Op::WaitEmpty,
            Op::WriteData(0x3B),
            Op::ClearIicif,
            Op::SetReceive { txak: false },
            Op::DummyRead,
            Op::ClearIicif,
            Op::SetTxak(true),
            Op::ReadData { operation: 1, slot: 0 },
            Op::ClearIicif,
            Op::Release,
            Op::WaitIdle,
            Op::ReadData { operation: 1, slot: 1 },
        ]
    );
}

#[test]
fn single_byte_read_is_not_acknowledged() {
    let (ops, result) = run(driver().read(0x50, 1), favourable);
    assert_eq!(result, Ok(()));
    assert!(ops.contains(&Op::SetReceive { txak: true }));
    assert_eq!(ops.iter().filter(|op| **op == Op::Release).count(), 1);
}

#[test]
fn write_ends_with_a_stop() {
    let (ops, result) = run(driver().write(0x50, vec![1]), favourable);
    assert_eq!(result, Ok(()));
    assert_eq!(ops[ops.len() - 2..], [Op::Release, Op::WaitIdle]);
    let (ops, result) = run(driver().write(0x50, vec![]), favourable);
    assert_eq!(result, Ok(()));
    assert_eq!(ops[2], Op::WriteData(0xA0));
}

#[test]
fn consecutive_reads_are_one_stream() {
    let operations = vec![Operation::Read(1), Operation::Read(0), Operation::Read(2), Operation::Write(vec![9])];
    let steps = plan(0x50, &operations, true);
    assert_eq!(
        steps,
        vec![
            Step::Start { repeated: false, byte: 0xA1 },
            Step::Receive { nack: false },
            Step::Take { operation: 0, slot: 0, after_dma: false, before: Before::Nothing },
            Step::Take { operation: 2, slot: 0, after_dma: false, before: Before::NackNext },
            Step::Take { operation: 2, slot: 1, after_dma: false, before: Before::Hold },
            Step::Start { repeated: true, byte: 0xA0 },
            Step::Transmit,
            Step::Send(9),
            Step::Stop,
        ]
    );
}

#[test]
fn dma_moves_the_bulk() {
    let operations = vec![Operation::Write(vec![1, 2, 3]), Operation::Write(vec![4]), Operation::Read(5)];
    let steps = plan(0x50, &operations, true);
    assert_eq!(
        steps,
        vec![
            Step::Start { repeated: false, byte: 0xA0 },
            Step::Transmit,
            Step::SendDma { operation: 0, offset: 0, count: 2, first: 1 },
            Step::Send(4),
            Step::Start { repeated: true, byte: 0xA1 },
            Step::Receive { nack: false },
            Step::ReceiveDma { operation: 2, slot: 0, count: 3 },
            Step::Take { operation: 2, slot: 3, after_dma: true, before: Before::NackNext },
            Step::Take { operation: 2, slot: 4, after_dma: false, before: Before::Stop },
        ]
    );
    let (i2c, _) = I2c::new_with_dma(24_000_000, Mux::Mux2, Mux::Mux2, None, Config::default());
    let (ops, result) = run(i2c.transaction(0x50, &operations), favourable);
    assert_eq!(result, Ok(()));
    assert_eq!(ops.iter().filter(|op| **op == Op::SetDmaen(true)).count(), 2);
    assert_eq!(ops.iter().filter(|op| **op == Op::SetDmaen(false)).count(), 2);
}

#[test]
fn dma_moves_long_operations_in_parts() {
    let mut bytes = vec![7; 32_770];
    bytes[32_768] = 9;
    let steps = plan(0x50, &vec![Operation::Write(bytes)], true);
    assert_eq!(
        steps[2..],
        [
            Step::SendDma { operation: 0, offset: 0, count: 32_767, first: 7 },
            Step::SendDma { operation: 0, offset: 32_768, count: 1, first: 9 },
            Step::Stop,
        ]
    );
    let steps = plan(0x50, &vec![Operation::Write(vec![7; 32_769])], true);
    assert_eq!(steps[3], Step::Send(7));

    let operations = vec![Operation::Read(40_000)];
    let steps = plan(0x50, &operations, true);
    assert_eq!(
        steps[1..],
        [
            Step::Receive { nack: false },
            Step::ReceiveDma { operation: 0, slot: 0, count: 32_767 },
            Step::Take { operation: 0, slot: 32_767, after_dma: true, before: Before::Nothing },
            Step::ReceiveDma { operation: 0, slot: 32_768, count: 7_230 },
            Step::Take { operation: 0, slot: 39_998, after_dma: true, before: Before::NackNext },
            Step::Take { operation: 0, slot: 39_999, after_dma: false, before: Before::Stop },
        ]
    );
    let (i2c, _) = I2c::new_with_dma(24_000_000, Mux::Mux2, Mux::Mux2, None, Config::default());
    assert_eq!(run(i2c.transaction(0x50, &operations), favourable).1, Ok(()));
}

#[test]
fn empty_reads_are_refused() {
    let (ops, result) = run(driver().read(0x50, 0), favourable);
    assert_eq!((ops, result), (vec![], Err(Error::InvalidReadBufferLength)));
    let (ops, result) = run(driver().write_read(0x50, vec![1], 0), favourable);
    assert_eq!(result, Err(Error::InvalidReadBufferLength));
    assert_eq!(ops[ops.len() - 2..], [Op::Release, Op::WaitIdle]);
    let (ops, result) = run(driver().transaction(0x50, &vec![]), favourable);
    assert_eq!((ops, result), (vec![], Ok(())));
}

#[test]
fn errors_end_the_transaction() {
    let (ops, result) = run(driver().write(0x50, vec![1]), |_, _| Event::Bus { busy: true });
    assert_eq!((ops, result), (vec![], Err(Error::Bus)));

    let nack = |wait, n| match (wait, n) {
        (Wait::Byte, 1) => Event::Byte { arbl: false, rxak: true },
        _ => favourable(wait, n),
    };
    let (ops, result) = run(driver().write(0x50, vec![1]), nack);
    assert_eq!(result, Err(Error::AddressNack));
    assert_eq!(ops[3..], [Op::ClearIicif, Op::Release, Op::WaitIdle]);

    let data_nack = |wait, n| match (wait, n) {
        (Wait::Byte, 2) => Event::Byte { arbl: false, rxak: true },
        _ => favourable(wait, n),
    };
    assert_eq!(run(driver().write(0x50, vec![1, 2]), data_nack).1, Err(Error::DataNack));

    let lost = |wait, n| match (wait, n) {
        (Wait::Byte, 2) => Event::Byte { arbl: true, rxak: true },
        _ => favourable(wait, n),
    };
    let (ops, result) = run(driver().read(0x50, 3), lost);
    assert_eq!(result, Err(Error::Arbitration));
    assert_eq!(*ops.last().unwrap(), Op::ClearArbl);
    assert!(!ops.contains(&Op::Release));

    let failed = |wait, n| match wait {
        Wait::Dma => Event::Dma { ok: false },
        _ => favourable(wait, n),
    };
    let (i2c, _) = I2c::new_with_dma(24_000_000, Mux::Mux2, Mux::Mux2, None, Config::default());
    let (ops, result) = run(i2c.read(0x50, 3), failed);
    assert_eq!(result, Err(Error::Dma));
    assert_eq!(ops[ops.len() - 3..], [Op::SetDmaen(false), Op::Release, Op::WaitIdle]);
}

#[test]
fn unexpected_events_change_nothing() {
    let mut transaction = driver().write(0x50, vec![1]);
    assert!(transaction.advance(Event::Dma { ok: false }).is_empty());
    assert_eq!(transaction.wait(), Wait::Nothing);
    assert_eq!(transaction.step(), Some(Step::Start { repeated: false, byte: 0xA0 }));
}

#[test]
fn error_kinds() {
    assert_eq!(Error::Bus.kind(), ErrorKind::Bus);
    assert_eq!(Error::Arbitration.kind(), ErrorKind::ArbitrationLoss);
    assert_eq!(Error::AddressNack.kind(), ErrorKind::NoAcknowledgeAddress);
    assert_eq!(Error::DataNack.kind(), ErrorKind::NoAcknowledgeData);
    assert_eq!(Error::InvalidReadBufferLength.kind(), ErrorKind::Other);
    assert_eq!(Error::Dma.kind(), ErrorKind::Other);
}

#[test]
fn waits_for_the_byte() {
    assert_eq!(driver().wait_iicif(true), Poll::Ready);
    assert_eq!(driver().wait_iicif(false), Poll::Spin);
    let (i2c, _) = I2c::new(24_000_000, Mux::Mux2, Mux::Mux2, None, Config::default());
    assert_eq!(i2c.wait_iicif(false), Poll::Sleep);
    assert_eq!(wait_after_dma(false, true), AfterDma::Done);
    assert_eq!(wait_after_dma(false, false), AfterDma::Clear);
    assert_eq!(wait_after_dma(true, false), AfterDma::Wait);
    assert!(on_interrupt(true, true) && !on_interrupt(true, false) && !on_interrupt(false, true));
}
