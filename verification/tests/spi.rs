use embassy_nxp::gpio::Mux;
use embassy_nxp::spi::transfer::{Chunk, DmaEvent, DmaTransfer, DmaWait, Event, Transfer, Wait};
use embassy_nxp::spi::{
    baud_divisors, on_interrupt, BitOrder, Config, Ctar, Error, ErrorKind, FrequencyError, Info, Line, Op, Pbr, Phase,
    Polarity, Poll, Spi, PRESCALERS, SCALERS, SR_W1C,
};

#[test]
fn baud_rate_does_not_exceed_request() {
    let bus_hz = 24_000_000;
    let requested = 1_000_000;
    let (dbr, pbr, br) = baud_divisors(bus_hz, requested).unwrap();
    let rate = bus_hz * if dbr { 2 } else { 1 } / (PRESCALERS[pbr.to_bits() as usize] * SCALERS[br as usize]);
    assert!(rate <= requested);
}

#[test]
#[should_panic(expected = "below the hardware minimum")]
fn rejects_unrepresentable_low_baud_rate() {
    if let Err(e) = baud_divisors(24_000_000, 100) {
        panic!("{}", e.message());
    }
}

#[test]
fn highest_rate_is_chosen() {
    let (dbr, pbr, br) = baud_divisors(24_000_000, 1_000_000).unwrap();
    assert_eq!(24_000_000 * (dbr as u32 + 1) / (PRESCALERS[pbr.to_bits() as usize] * SCALERS[br as usize]), 1_000_000);
    assert_eq!((dbr, pbr, br), (false, Pbr::_01, 3));
    assert_eq!(baud_divisors(24_000_000, u32::MAX), Ok((true, Pbr::_00, 0)));
    assert_eq!(baud_divisors(24_000_000, 0), Err(FrequencyError::Zero));
    assert_eq!(FrequencyError::Zero.message(), "SPI frequency must be greater than zero");
}

fn info(fifo_depth: u8) -> Info {
    Info { fifo_depth }
}

fn spi(fifo_depth: u8) -> Spi {
    Spi::new_blocking(info(fifo_depth), 24_000_000, Mux::Mux2, Some(Mux::Mux2), Some(Mux::Mux2), Config::default())
        .unwrap()
        .0
}

#[test]
fn setup_of_the_master() {
    let config = Config {
        phase: Phase::CaptureOnSecondTransition,
        polarity: Polarity::IdleHigh,
        bit_order: BitOrder::LsbFirst,
        ..Config::default()
    };
    let (_, ops) = Spi::new(info(4), 24_000_000, Mux::Mux2, None, Some(Mux::Mux3), Some(3), config).unwrap();
    assert_eq!(
        ops,
        vec![
            Op::EnableClock,
            Op::WriteMcrHalted,
            Op::WriteCtar(Ctar { fmsz: 7, cpol: true, cpha: true, lsbfe: true, dbr: false, pbr: Pbr::_01, br: 3 }),
            Op::SetMux { line: Line::Sck, mux: Mux::Mux2 },
            Op::SetMux { line: Line::Miso, mux: Mux::Mux3 },
            Op::WriteSr(SR_W1C),
            Op::Run,
            Op::EnableSource(3),
            Op::UnpendInterrupt,
            Op::EnableInterrupt,
        ]
    );
    let config = Config::default();
    let (_, ops) = Spi::new_blocking_txonly(info(4), 24_000_000, Mux::Mux2, Mux::Mux3, config).unwrap();
    assert_eq!(ops[4], Op::SetMux { line: Line::Mosi, mux: Mux::Mux3 });
    assert_eq!(ops.len(), 7);
    let (spi, _) = Spi::new_blocking_rxonly(info(4), 24_000_000, Mux::Mux2, Mux::Mux3, config).unwrap();
    assert_eq!(spi.wait_rx(0), Poll::Spin);
    let (spi, ops) = Spi::new_txonly(info(4), 24_000_000, Mux::Mux2, Mux::Mux3, None, config).unwrap();
    assert_eq!((spi.wait_rx(0), ops.len()), (Poll::Sleep, 9));
    let (_, ops) = Spi::new_rxonly(info(4), 24_000_000, Mux::Mux2, Mux::Mux3, None, config).unwrap();
    assert_eq!(ops[4], Op::SetMux { line: Line::Miso, mux: Mux::Mux3 });
    let slow = Config { frequency: 100, ..Config::default() };
    assert_eq!(
        Spi::new_with_dma(info(4), 24_000_000, Mux::Mux2, Mux::Mux2, Mux::Mux2, slow).map(|_| ()),
        Err(FrequencyError::BelowMinimum)
    );
    assert_eq!(SR_W1C, 0x9A0A_0000);
}

/// A bus that returns every frame inverted; returns the frames sent, the most frames in flight, and
/// the buffer.
fn run(mut transfer: Transfer, depth: u8) -> (Vec<u8>, usize, Vec<u8>) {
    let mut sent = Vec::new();
    let mut received = 0;
    let mut most = 0;
    loop {
        let event = match transfer.wait() {
            Wait::TxCount => Event::TxCount(0),
            Wait::RxReady => {
                assert!(sent.len() > received);
                Event::RxReady
            }
            Wait::RxCount => Event::RxCount((sent.len() - received) as u8),
            Wait::Frame => {
                let frame: u8 = sent[received];
                received += 1;
                Event::Frame(!frame)
            }
            Wait::Overrun => Event::Overrun(false),
            Wait::Finished(result) => {
                assert_eq!(result, Ok(()));
                return (sent, most, transfer.into_buffer());
            }
        };
        for op in transfer.advance(event) {
            if let Op::Push(byte) = op {
                sent.push(byte);
            }
        }
        most = most.max(sent.len() - received);
        assert!(most <= depth as usize);
    }
}

#[test]
fn longer_buffer_sets_the_length() {
    let (transfer, ops) = spi(4).transfer(vec![0; 6], vec![1, 2, 3]);
    assert_eq!(ops, vec![Op::ClearFifos, Op::WriteSr(SR_W1C)]);
    let (sent, most, buffer) = run(transfer, 4);
    assert_eq!(sent, vec![1, 2, 3, 0xFF, 0xFF, 0xFF]);
    assert_eq!(most, 4);
    assert_eq!(buffer, vec![0xFE, 0xFD, 0xFC, 0, 0, 0]);

    let (transfer, _) = spi(1).transfer(vec![7], vec![1, 2, 3]);
    let (sent, most, buffer) = run(transfer, 1);
    assert_eq!((sent, most, buffer), (vec![1, 2, 3], 1, vec![0xFE]));
}

#[test]
fn in_place_sends_what_was_there() {
    let (transfer, _) = spi(4).transfer_in_place(vec![1, 2, 3, 4, 5, 6, 7]);
    let (sent, _, buffer) = run(transfer, 4);
    assert_eq!(sent, vec![1, 2, 3, 4, 5, 6, 7]);
    assert_eq!(buffer, vec![0xFE, 0xFD, 0xFC, 0xFB, 0xFA, 0xF9, 0xF8]);
}

#[test]
fn reads_clock_padding_and_writes_discard() {
    let (sent, _, buffer) = run(spi(4).read(vec![0; 3]).0, 4);
    assert_eq!((sent, buffer), (vec![0xFF; 3], vec![0; 3]));
    let (sent, _, buffer) = run(spi(4).write(vec![9, 8]).0, 4);
    assert_eq!((sent, buffer), (vec![9, 8], vec![]));
}

#[test]
fn empty_transfers_are_over() {
    let (transfer, ops) = spi(4).transfer(vec![], vec![]);
    assert!(ops.is_empty());
    assert_eq!(transfer.wait(), Wait::Finished(Ok(())));
}

#[test]
fn overruns_are_reported() {
    let (mut transfer, _) = spi(1).write(vec![1]);
    assert_eq!(transfer.advance(Event::TxCount(1)), vec![]);
    assert_eq!(transfer.wait(), Wait::RxReady);
    let (mut transfer, _) = spi(1).write(vec![1]);
    assert_eq!(transfer.advance(Event::TxCount(0)), vec![Op::Push(1)]);
    transfer.advance(Event::RxReady);
    assert_eq!(transfer.advance(Event::RxCount(0)), vec![]);
    assert_eq!(transfer.wait(), Wait::RxReady);
    transfer.advance(Event::RxReady);
    transfer.advance(Event::RxCount(1));
    assert_eq!(transfer.advance(Event::Frame(0)), vec![Op::ClearRfdf]);
    assert_eq!(transfer.advance(Event::Overrun(true)), vec![Op::ClearRfof]);
    assert_eq!(transfer.wait(), Wait::Finished(Err(Error::Overrun)));
}

const DONE: DmaEvent = DmaEvent::Channels { rx_ok: true, tx_ok: true };

/// The chunks of a transfer that nothing disturbs.
fn chunks(read_len: usize, write_len: usize) -> Vec<Chunk> {
    let (mut transfer, _) = DmaTransfer::new(read_len, write_len);
    let mut chunks = Vec::new();
    loop {
        match transfer.wait() {
            DmaWait::Channels(chunk) => {
                chunks.push(chunk);
                assert_eq!(transfer.advance(DONE), vec![Op::DisableRequests]);
            }
            DmaWait::Overrun => {
                transfer.advance(DmaEvent::Overrun(false));
            }
            DmaWait::Finished(result) => {
                assert_eq!(result, Ok(()));
                return chunks;
            }
        }
    }
}

#[test]
fn chunks_end_where_a_buffer_ends() {
    assert_eq!(
        chunks(0x9000, 2),
        vec![
            Chunk { offset: 0, len: 2, keep: true, data: true },
            Chunk { offset: 2, len: 0x7FFF, keep: true, data: false },
            Chunk { offset: 0x8001, len: 0xFFF, keep: true, data: false },
        ]
    );
    assert_eq!(chunks(0, 3), vec![Chunk { offset: 0, len: 3, keep: false, data: true }]);
    assert!(chunks(0, 0).is_empty());
    assert!(DmaTransfer::new(0, 0).1.is_empty());
}

#[test]
fn chunks_send_padded_data_and_fill_the_read_buffer() {
    for (read_len, write) in [(5, vec![1, 2, 3]), (2, vec![1, 2, 3]), (0, vec![9]), (3, vec![])] {
        let len = read_len.max(write.len());
        let reply: Vec<u8> = (100..).take(len).collect();
        let mut sent = Vec::new();
        let mut kept = Vec::new();
        for chunk in chunks(read_len, write.len()) {
            let part = chunk.offset..chunk.offset + chunk.len;
            if chunk.data {
                sent.extend_from_slice(&write[part.clone()]);
            } else {
                sent.extend(vec![0xFF; chunk.len]);
            }
            if chunk.keep {
                kept.extend_from_slice(&reply[part]);
            }
        }
        let mut padded = write.clone();
        padded.resize(len, 0xFF);
        assert_eq!((sent, kept), (padded, reply[..read_len].to_vec()));
    }
}

#[test]
fn dma_starts_and_stops() {
    let (dma, _) =
        Spi::new_with_dma(info(4), 24_000_000, Mux::Mux2, Mux::Mux2, Mux::Mux2, Config::default()).unwrap();
    let start = [Op::ClearCommand, Op::StartRx { keep: false }, Op::StartTx { data: true }, Op::EnableRequests];
    let (mut transfer, ops) = dma.transfer_dma(0, 0x8000);
    assert_eq!(ops[..2], [Op::ClearFifos, Op::WriteSr(SR_W1C)]);
    assert_eq!(ops[2..], start);
    assert_eq!(transfer.wait(), DmaWait::Channels(Chunk { offset: 0, len: 0x7FFF, keep: false, data: true }));
    assert!(transfer.advance(DmaEvent::Overrun(true)).is_empty());
    assert_eq!(transfer.advance(DONE), vec![Op::DisableRequests]);
    assert_eq!(transfer.advance(DmaEvent::Overrun(false)), start);
    assert_eq!(transfer.wait(), DmaWait::Channels(Chunk { offset: 0x7FFF, len: 1, keep: false, data: true }));
    assert_eq!(transfer.advance(DONE), vec![Op::DisableRequests]);
    assert!(transfer.advance(DmaEvent::Overrun(false)).is_empty());
    assert_eq!(transfer.wait(), DmaWait::Finished(Ok(())));

    for (rx_ok, tx_ok) in [(false, true), (true, false), (false, false)] {
        let (mut transfer, _) = dma.transfer_dma(0, 0x8000);
        assert_eq!(transfer.advance(DmaEvent::Channels { rx_ok, tx_ok }), vec![Op::DisableRequests]);
        assert_eq!(transfer.wait(), DmaWait::Finished(Err(Error::Dma)));
        assert!(transfer.advance(DmaEvent::Overrun(true)).is_empty());
    }
    let (mut transfer, _) = dma.transfer_dma(0, 0x8000);
    transfer.advance(DONE);
    assert_eq!(transfer.advance(DmaEvent::Overrun(true)), vec![Op::ClearRfof]);
    assert_eq!(transfer.wait(), DmaWait::Finished(Err(Error::Overrun)));
    assert!(transfer.advance(DONE).is_empty());
}

#[test]
fn waits_for_frames() {
    assert_eq!(spi(4).wait_rx(1), Poll::Ready);
    assert_eq!(spi(4).wait_rx(0), Poll::Spin);
    let (interrupting, _) =
        Spi::new(info(4), 24_000_000, Mux::Mux2, None, Some(Mux::Mux2), None, Config::default()).unwrap();
    assert_eq!(interrupting.wait_rx(0), Poll::Sleep);
    assert!(!interrupting.uses_dma());
    let (dma, _) =
        Spi::new_with_dma(info(4), 24_000_000, Mux::Mux2, Mux::Mux2, Mux::Mux2, Config::default()).unwrap();
    assert!(dma.uses_dma());
    assert_eq!(dma.wait_rx(0), Poll::Spin);
    assert!(spi(4).flush(0) && !spi(4).flush(1));
    assert!(on_interrupt(true, true) && !on_interrupt(true, false) && !on_interrupt(false, true));
    assert_eq!(Error::Overrun.kind(), ErrorKind::Overrun);
    assert_eq!(Error::Dma.kind(), ErrorKind::Other);
}
