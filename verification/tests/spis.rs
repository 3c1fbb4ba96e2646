use embassy_nxp::gpio::Mux;
use embassy_nxp::spi::{Phase, Polarity, SR_W1C};
use embassy_nxp::spis::{halt, run, Config, Error, Event, Line, Op, Spis, Transfer, Wait};

fn spis() -> Spis {
    Spis::new_blocking(4, Mux::Mux2, Mux::Mux2, Mux::Mux2, Mux::Mux2, Config { orc: 0xEE, ..Config::default() }).0
}

/// Fills the transmit FIFO of four frames, which holds `held`; returns the bytes queued.
fn fill(transfer: &mut Transfer, held: u8) -> Vec<u8> {
    let mut queued = Vec::new();
    let mut count = held;
    while transfer.wait() == Wait::TxCount {
        for op in transfer.advance(Event::TxCount(count)) {
            if let Op::Push(byte) = op {
                queued.push(byte);
                count += 1;
            }
        }
    }
    queued
}

/// Serves the module with frames that came in.
fn serve(transfer: &mut Transfer, frames: &[u8]) -> Vec<u8> {
    transfer.service();
    transfer.advance(Event::Flags { rfof: false, tfuf: false });
    for frame in frames {
        transfer.advance(Event::RxCount(1));
        assert_eq!(transfer.advance(Event::Frame(*frame)), vec![Op::ClearRfdf]);
    }
    transfer.advance(Event::RxCount(0));
    fill(transfer, 4 - frames.len() as u8)
}

#[test]
fn slave_setup() {
    let config = Config { phase: Phase::CaptureOnSecondTransition, polarity: Polarity::IdleHigh, orc: 0 };
    let (_, ops) = Spis::new(4, Mux::Mux2, Mux::Mux3, Mux::Mux4, Mux::Mux5, None, config);
    assert_eq!(
        ops,
        vec![
            Op::EnableClock,
            Op::WriteMcrHalted,
            Op::WriteCtar { cpol: true, cpha: true },
            Op::SetMux { line: Line::Sck, mux: Mux::Mux2 },
            Op::SetMux { line: Line::Sout, mux: Mux::Mux3 },
            Op::SetMux { line: Line::Sin, mux: Mux::Mux4 },
            Op::SetMux { line: Line::Pcs, mux: Mux::Mux5 },
            Op::DisableRequests,
            Op::WriteSr(SR_W1C),
            Op::UnpendInterrupt,
            Op::EnableInterrupt,
        ]
    );
    assert_eq!(run(), vec![Op::EnableRequests, Op::SetHalt(false)]);
    assert_eq!(halt(), vec![Op::SetHalt(true), Op::WaitStopped, Op::DisableRequests]);
}

#[test]
fn buffers_are_upper_bounds() {
    let (mut transfer, ops) = spis().transfer(vec![0; 2], vec![1, 2, 3]);
    assert_eq!(
        ops,
        vec![Op::SetHalt(true), Op::WaitStopped, Op::DisableRequests, Op::ClearFifos, Op::WriteSr(SR_W1C)]
    );
    assert_eq!(fill(&mut transfer, 0), vec![1, 2, 3, 0xEE]);
    assert_eq!(serve(&mut transfer, &[10, 20, 30, 40]), vec![0xEE; 4]);
    let (buffer, result, ops) = transfer.finish();
    assert_eq!((buffer, result), (vec![10, 20], Ok((2, 3))));
    assert_eq!(ops, vec![Op::ClearFifos, Op::WriteSr(SR_W1C)]);
}

#[test]
fn short_transfers_report_what_was_clocked() {
    let (mut transfer, _) = spis().transfer(vec![0; 5], vec![1, 2, 3]);
    fill(&mut transfer, 0);
    serve(&mut transfer, &[9]);
    let (buffer, result, _) = transfer.finish();
    assert_eq!((buffer, result), (vec![9, 0, 0, 0, 0], Ok((1, 1))));
    assert_eq!(transfer.wait(), Wait::Nothing);
}

#[test]
fn in_place_slave_transfer() {
    let (mut transfer, _) = spis().transfer_in_place(vec![1, 2, 3, 4, 5, 6]);
    assert_eq!(fill(&mut transfer, 0), vec![1, 2, 3, 4]);
    assert_eq!(serve(&mut transfer, &[11, 12]), vec![5, 6]);
    assert_eq!(serve(&mut transfer, &[13, 14, 15, 16]), vec![0xEE; 4]);
    assert_eq!(transfer.finish().0, vec![11, 12, 13, 14, 15, 16]);
}

#[test]
fn reads_and_writes_of_the_slave() {
    let (mut transfer, _) = spis().read(vec![0; 2]);
    assert_eq!(fill(&mut transfer, 2), vec![0xEE, 0xEE]);
    serve(&mut transfer, &[1]);
    assert_eq!(transfer.finish().1, Ok((1, 0)));
    let (mut transfer, _) = spis().write(vec![5]);
    assert_eq!(fill(&mut transfer, 3), vec![5]);
    serve(&mut transfer, &[1, 2]);
    assert_eq!(transfer.finish().1, Ok((0, 1)));
}

#[test]
fn first_slave_error_is_reported() {
    let (mut transfer, _) = spis().read(vec![0; 2]);
    fill(&mut transfer, 0);
    transfer.service();
    assert_eq!(
        transfer.advance(Event::Flags { rfof: false, tfuf: true }),
        vec![Op::ClearTfuf]
    );
    transfer.service();
    assert_eq!(
        transfer.advance(Event::Flags { rfof: true, tfuf: true }),
        vec![Op::ClearRfof, Op::ClearTfuf]
    );
    assert_eq!(transfer.finish().1, Err(Error::Underrun));

    let (mut transfer, _) = spis().read(vec![0; 2]);
    fill(&mut transfer, 0);
    transfer.service();
    transfer.advance(Event::Flags { rfof: true, tfuf: true });
    assert_eq!(transfer.finish().1, Err(Error::Overrun));
}

#[test]
fn inactive_transfers_are_not_served() {
    let mut transfer = Transfer::new();
    transfer.service();
    assert_eq!(transfer.wait(), Wait::Nothing);
    let (mut transfer, _) = spis().read(vec![0; 2]);
    assert_eq!(transfer.abort().len(), 5);
    transfer.service();
    assert_eq!(transfer.wait(), Wait::Nothing);
}
