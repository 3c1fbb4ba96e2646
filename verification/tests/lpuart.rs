use embassy_nxp::clocks::{ClockConfig, Lpuartsrc};
use embassy_nxp::gpio::Mux;
use embassy_nxp::lpuart::buffered::{BufferedLpuartRx, RxBuffer};
use embassy_nxp::lpuart::transfer::{DmaEvent, DmaWait, Read, ReadEvent, ReadWait, Write, WriteEvent, WriteWait};
use embassy_nxp::lpuart::{
    baud_divisors, character, clear_stat, enable_interrupt, init, on_interrupt, rx_ready, tx_fifo_size, Baud, Character,
    Config, Ctrl, Enables, Error, ErrorKind, Flags, Line, Lpuart, LpuartRx, LpuartTx, Op, Parity, Path, Pending, Service,
    StopBits, TryRead,
};

#[test]
fn wrap_and_recovery() {
    let mut ring = RxBuffer::new(vec![0; 3]);
    ring.push(1);
    ring.push(2);
    let mut byte = vec![0];
    assert_eq!(ring.read(&mut byte), Ok(1));
    assert_eq!(byte, [1]);
    ring.push(3);
    ring.push(4);
    let mut bytes = vec![0; 3];
    assert_eq!(ring.read(&mut bytes), Ok(3));
    assert_eq!(bytes, [2, 3, 4]);
    for n in 0..4 {
        ring.push(n);
    }
    assert_eq!(ring.read(&mut bytes), Err(Error::Overrun));
    assert_eq!(ring.read(&mut bytes), Err(Error::Overrun));
    ring.clear();
    ring.push(9);
    assert_eq!(ring.read(&mut bytes), Ok(1));
    assert_eq!(bytes[0], 9);
}

#[test]
fn baud_rates() {
    let (osr, sbr) = baud_divisors(48_000_000, 115_200).unwrap();
    let rate = 48_000_000 / (osr as u32 * sbr as u32);
    assert!(rate.abs_diff(115_200) <= 115_200 / 100 * 3);
    assert_eq!(baud_divisors(4_000_000, 9_600).map(|(o, s)| 4_000_000 / (o as u32 * s as u32)), Some(9_615));
    assert_eq!(baud_divisors(4_000_000, 3_000_000), None);
    assert_eq!(baud_divisors(48_000_000, 12_000_000), Some((4, 1)));
}

#[test]
fn slow_baud_rates_use_the_largest_divisor() {
    assert_eq!(baud_divisors(48_000_000, 183), Some((32, 8191)));
    assert_eq!(baud_divisors(48_000_000, 178), Some((32, 8191)));
    assert_eq!(baud_divisors(48_000_000, 100), None);
}

#[test]
fn tolerance_is_not_rounded() {
    // 3% of 970_874 is 29_126.22, of 970_873 it is 29_126.19.
    assert_eq!(baud_divisors(4_000_000, 970_874), Some((4, 1)));
    assert_eq!(baud_divisors(4_000_000, 970_873), None);
}

#[test]
fn any_clock_is_accepted() {
    assert_eq!(baud_divisors(u32::MAX, 134_217_727), Some((32, 1)));
    assert_eq!(baud_divisors(u32::MAX, 1), None);
}

#[test]
fn uart_setup() {
    let config = Config {
        baudrate: 12_000_000,
        stop_bits: StopBits::Stop2,
        parity: Parity::ParityOdd,
        invert_tx: true,
        invert_rx: true,
    };
    let ops = init(&ClockConfig::default().clocks(), Some(Mux::Mux2), Some(Mux::Mux3), &config).unwrap();
    assert_eq!(
        ops,
        vec![
            Op::SelectSource(Lpuartsrc::_01),
            Op::EnableClock,
            Op::ResetCtrl,
            Op::WriteBaud(Baud { osr: 3, sbr: 1, bothedge: true, sbns: true }),
            Op::ResetStat { rxinv: true },
            Op::EnableFifos,
            Op::ResetWater,
            Op::SetMux { line: Line::Tx, mux: Mux::Mux2 },
            Op::SetMux { line: Line::Rx, mux: Mux::Mux3 },
            Op::WriteCtrl(Ctrl { m: true, pe: true, pt: true, txinv: true, te: true, re: true }),
        ]
    );
    let vlpr = init(&ClockConfig::vlpr().clocks(), None, Some(Mux::Mux3), &Config { baudrate: 9600, ..Config::default() }).unwrap();
    assert_eq!(vlpr[0], Op::SelectSource(Lpuartsrc::_11));
    assert_eq!(
        *vlpr.last().unwrap(),
        Op::WriteCtrl(Ctrl { m: false, pe: false, pt: false, txinv: false, te: false, re: true })
    );
    assert!(init(&ClockConfig::vlpr().clocks(), None, None, &Config { baudrate: 3_000_000, ..Config::default() }).is_none());
    assert_eq!(enable_interrupt(Some(5))[0], Op::EnableSource(5));
    assert_eq!(enable_interrupt(None).len(), 2);
}

#[test]
fn stat_flags_are_cleared_alone() {
    assert_eq!(clear_stat(0xFFFF_FFFF, 0x0008_0000), 0x3FE8_3FFF);
    assert_eq!(clear_stat(0x0008_8000, 0x0000_0001), 0);
    let sizes: Vec<u8> = (0..=6).map(tx_fifo_size).collect();
    assert_eq!(sizes, vec![1, 4, 8, 16, 32, 64, 128]);
}

fn plain(byte: u8) -> Character {
    Character { byte, fretsc: false, paritye: false, noisy: false }
}

#[test]
fn character_errors_in_order() {
    assert_eq!(character(plain(7)), Ok(7));
    assert_eq!(character(Character { fretsc: true, paritye: true, noisy: true, byte: 0 }), Err(Error::Framing));
    assert_eq!(character(Character { fretsc: false, paritye: true, noisy: true, byte: 0 }), Err(Error::Parity));
    assert_eq!(character(Character { fretsc: false, paritye: false, noisy: true, byte: 0 }), Err(Error::Noise));
    let kinds: Vec<ErrorKind> = [Error::Overrun, Error::Parity, Error::Framing, Error::Noise, Error::Dma, Error::Suspended]
        .iter()
        .map(|e| e.kind())
        .collect();
    assert_eq!(
        kinds,
        vec![
            ErrorKind::Other,
            ErrorKind::InvalidData,
            ErrorKind::InvalidData,
            ErrorKind::Other,
            ErrorKind::Other,
            ErrorKind::Other,
        ]
    );
}

fn read_all(mut read: Read, line: &[u8]) -> (Result<usize, Error>, Vec<u8>) {
    let mut at = 0;
    loop {
        let event = match read.wait() {
            ReadWait::Status => ReadEvent::Status { or: false, rxcount: (line.len() - at).min(1) as u8 },
            ReadWait::Character => {
                at += 1;
                ReadEvent::Character(plain(line[at - 1]))
            }
            ReadWait::Ready => ReadEvent::Ready,
            ReadWait::Finished(result) => return (result, read.into_buffer()),
        };
        assert!(read.advance(event).is_empty());
    }
}

#[test]
fn reads_fill_the_buffer() {
    let (result, buffer) = read_all(LpuartRx::new(false).read(vec![0; 3]), &[1, 2, 3, 4]);
    assert_eq!((result, buffer), (Ok(3), vec![1, 2, 3]));
    let (result, buffer) = read_all(LpuartRx::new(false).read_some(vec![0; 4]), &[1, 2]);
    assert_eq!((result, buffer), (Ok(2), vec![1, 2, 0, 0]));
    assert_eq!(LpuartRx::new(false).read(vec![]).wait(), ReadWait::Finished(Ok(0)));
}

#[test]
fn read_waits_and_fails() {
    let mut read = LpuartRx::new(false).read(vec![0; 2]);
    read.advance(ReadEvent::Status { or: false, rxcount: 0 });
    assert_eq!(read.wait(), ReadWait::Ready);
    read.advance(ReadEvent::Ready);
    assert_eq!(
        read.advance(ReadEvent::Status { or: true, rxcount: 3 }),
        vec![Op::ClearStat(Flags { or: true, fe: false, pf: false, nf: false })]
    );
    assert_eq!(read.wait(), ReadWait::Finished(Err(Error::Overrun)));

    let mut read = LpuartRx::new(false).read(vec![0; 2]);
    read.advance(ReadEvent::Status { or: false, rxcount: 1 });
    assert_eq!(
        read.advance(ReadEvent::Character(Character { noisy: true, ..plain(1) })),
        vec![Op::ClearStat(Flags { or: false, fe: true, pf: true, nf: true })]
    );
    assert_eq!(read.wait(), ReadWait::Finished(Err(Error::Noise)));
    assert_eq!(read.into_buffer(), vec![0, 0]);
}

fn written(ops: &[Op]) -> Vec<u8> {
    ops.iter()
        .map(|op| match op {
            Op::WriteData(byte) => *byte,
            _ => unreachable!(),
        })
        .collect()
}

#[test]
fn writes_go_out_in_order() {
    let mut write: Write = LpuartTx::new(false).write(vec![1, 2, 3], 0);
    assert_eq!(written(&write.advance(WriteEvent::TxCount(0))), vec![1]);
    assert!(write.advance(WriteEvent::TxCount(1)).is_empty());
    assert_eq!(write.wait(), WriteWait::Tdre);
    assert!(write.advance(WriteEvent::Tdre).is_empty());
    assert_eq!(written(&write.advance(WriteEvent::TxCount(0))), vec![2]);
    assert_eq!(written(&write.advance(WriteEvent::TxCount(0))), vec![3]);
    assert_eq!(write.wait(), WriteWait::Finished);
    assert_eq!(LpuartTx::new(false).write(vec![], 2).wait(), WriteWait::Finished);
}

#[test]
fn blocking_writes_come_in_bursts() {
    let mut write = LpuartTx::new(false).blocking_write(vec![1, 2, 3, 4, 5, 6], 1);
    assert_eq!(write.wait(), WriteWait::Tdre);
    assert_eq!(written(&write.advance(WriteEvent::Tdre)), vec![1, 2, 3, 4]);
    assert_eq!(written(&write.advance(WriteEvent::Tdre)), vec![5, 6]);
    assert_eq!(write.wait(), WriteWait::Finished);
}

#[test]
fn dma_paths() {
    let (tx, rx) = Lpuart::new(true).split();
    assert_eq!((tx.write_path(0), tx.write_path(1)), (Path::Nothing, Path::Dma));
    assert_eq!((rx.read_path(0), rx.read_path(1)), (Path::Nothing, Path::Dma));
    let (tx, rx) = Lpuart::new(false).split();
    assert_eq!((tx.write_path(0), rx.read_path(1)), (Path::Fifo, Path::Fifo));
}

#[test]
fn dma_moves_buffers_of_any_length() {
    let tx = LpuartTx::new(true);
    let (mut transfer, ops) = tx.write_dma(70_000);
    assert_eq!(ops, vec![Op::SetTdmae(true), Op::StartDma { offset: 0, len: 32_767 }]);
    assert_eq!(transfer.wait(), DmaWait::Chunk { offset: 0, len: 32_767 });
    assert_eq!(transfer.advance(DmaEvent::Chunk { ok: true }), vec![Op::StartDma { offset: 32_767, len: 32_767 }]);
    assert_eq!(transfer.advance(DmaEvent::Chunk { ok: true }), vec![Op::StartDma { offset: 65_534, len: 4_466 }]);
    assert_eq!(transfer.advance(DmaEvent::Chunk { ok: true }), vec![Op::SetTdmae(false)]);
    assert_eq!(transfer.wait(), DmaWait::Finished(Ok(())));

    let (mut transfer, ops) = tx.write_dma(1);
    assert_eq!(ops, vec![Op::SetTdmae(true), Op::StartDma { offset: 0, len: 1 }]);
    assert_eq!(transfer.advance(DmaEvent::Chunk { ok: false }), vec![Op::SetTdmae(false)]);
    assert_eq!(transfer.wait(), DmaWait::Finished(Err(Error::Dma)));

    let (transfer, ops) = tx.write_dma(0);
    assert_eq!((transfer.wait(), ops), (DmaWait::Finished(Ok(())), vec![]));
}

#[test]
fn dma_reads_report_errors_at_the_end() {
    let all = Flags { or: true, fe: true, pf: true, nf: true };
    let none = Flags { or: false, fe: false, pf: false, nf: false };
    let rx = LpuartRx::new(true);
    let (mut transfer, ops) = rx.read_dma(32_768);
    assert_eq!(ops, vec![Op::ClearStat(all), Op::SetRdmae(true), Op::StartDma { offset: 0, len: 32_767 }]);
    assert_eq!(transfer.advance(DmaEvent::Chunk { ok: true }), vec![Op::StartDma { offset: 32_767, len: 1 }]);
    assert!(transfer.advance(DmaEvent::Flags(all)).is_empty());
    assert_eq!(transfer.advance(DmaEvent::Chunk { ok: false }), vec![Op::SetRdmae(false)]);
    assert_eq!(transfer.wait(), DmaWait::Finished(Err(Error::Dma)));
    for (flags, error) in [
        (none, None),
        (all, Some(Error::Overrun)),
        (Flags { or: false, ..all }, Some(Error::Framing)),
        (Flags { pf: true, nf: true, ..none }, Some(Error::Parity)),
        (Flags { nf: true, ..none }, Some(Error::Noise)),
    ] {
        let (mut transfer, _) = rx.read_dma(5);
        assert_eq!(transfer.advance(DmaEvent::Chunk { ok: true }), vec![Op::SetRdmae(false)]);
        assert_eq!(transfer.wait(), DmaWait::Flags);
        let ops = transfer.advance(DmaEvent::Flags(flags));
        match error {
            None => assert_eq!((ops, transfer.wait()), (vec![], DmaWait::Finished(Ok(())))),
            Some(e) => assert_eq!((ops, transfer.wait()), (vec![Op::ClearStat(all)], DmaWait::Finished(Err(e)))),
        }
    }
}

#[test]
fn buffered_receiver_keeps_its_dma_channel() {
    let (rx, _) = LpuartRx::new(true).into_buffered(vec![0; 4]);
    let (half, storage, _) = rx.into_inner();
    assert_eq!((half.read_path(1), storage.len()), (Path::Dma, 4));
    let (rx, _) = LpuartRx::new(false).into_buffered(storage);
    assert_eq!(rx.into_inner().0.read_path(1), Path::Fifo);
}

#[test]
fn receiver_status() {
    let rx = LpuartRx::new(false);
    let overrun = Flags { or: true, fe: false, pf: false, nf: false };
    let bad = Flags { or: false, fe: true, pf: true, nf: true };
    assert_eq!(
        rx.try_read_byte(true, 1),
        (TryRead::Finished(Some(Err(Error::Overrun))), vec![Op::ClearStat(overrun)])
    );
    assert_eq!(rx.try_read_byte(false, 0), (TryRead::Finished(None), vec![]));
    assert_eq!(rx.try_read_byte(false, 1), (TryRead::Character, vec![]));
    let good = Character { byte: 7, fretsc: false, paritye: false, noisy: false };
    assert_eq!(rx.try_read_character(good), (Ok(7), vec![]));
    assert_eq!(
        rx.try_read_character(Character { paritye: true, noisy: true, ..good }),
        (Err(Error::Parity), vec![Op::ClearStat(bad)])
    );
    assert!(rx_ready(true, false) && rx_ready(false, true) && !rx_ready(false, false));
}

#[test]
fn interrupts_are_served_where_enabled() {
    let off = Enables { rie: false, orie: false, tie: false, tcie: false };
    let all = Pending { rdrf: true, or: true, tdre: true, tc: true };
    assert_eq!(on_interrupt(off, all), Service { rx: false, tx: false });
    assert_eq!(on_interrupt(Enables { orie: true, ..off }, all), Service { rx: true, tx: false });
    assert_eq!(on_interrupt(Enables { tcie: true, ..off }, all), Service { rx: false, tx: true });
    assert_eq!(
        on_interrupt(Enables { rie: true, tie: true, ..off }, Pending { rdrf: false, tdre: false, ..all }),
        Service { rx: false, tx: false }
    );
}

#[test]
fn ring_copies_are_bounded() {
    let mut ring = RxBuffer::new(vec![0; 64]);
    for n in 0..40 {
        ring.push(n);
    }
    let mut bytes = vec![0xAA; 50];
    assert_eq!(ring.read(&mut bytes), Ok(32));
    assert_eq!(bytes[31], 31);
    assert_eq!(bytes[32], 0xAA);
    assert_eq!(ring.read(&mut bytes), Ok(8));
    assert_eq!(bytes[7], 39);
    assert_eq!(ring.into_storage().len(), 64);
}

fn buffered() -> BufferedLpuartRx {
    let (rx, ops) = LpuartRx::new(false).into_buffered(vec![0; 4]);
    assert_eq!(ops, vec![Op::DisconnectRx, Op::ConnectRx, Op::ArmRx]);
    rx
}

#[test]
fn interrupts_fill_the_ring() {
    let mut rx = buffered();
    assert_eq!(rx.on_interrupt(false, false, true), None);
    let mut left = rx.on_interrupt(true, true, false).unwrap();
    assert_eq!(left, 8);
    for n in 0..3 {
        assert!(rx.wants(left, 1));
        left = rx.take(left, plain(n));
    }
    assert_eq!(left, 5);
    assert!(!rx.wants(0, 1) && !rx.wants(left, 0));
    assert_eq!(rx.served(), (false, true));
    let mut bytes = vec![9; 4];
    assert_eq!(rx.try_read(&mut bytes), Ok(3));
    assert_eq!(bytes, vec![0, 1, 2, 9]);
    assert_eq!(rx.try_read(&mut bytes), Ok(0));
    assert_eq!(rx.served(), (false, false));
    assert!(BufferedLpuartRx::read_done(0, Ok(0)) && !BufferedLpuartRx::read_done(4, Ok(0)));
    assert!(BufferedLpuartRx::read_done(4, Ok(1)) && BufferedLpuartRx::read_done(4, Err(Error::Overrun)));
}

#[test]
fn errors_latch_until_recovery() {
    let mut rx = buffered();
    let left = rx.on_interrupt(true, true, false).unwrap();
    rx.take(left, plain(1));
    rx.take(left, Character { fretsc: true, ..plain(2) });
    assert!(!rx.wants(left, 1));
    assert_eq!(rx.served(), (true, true));
    let mut bytes = vec![0; 4];
    assert_eq!(rx.try_read(&mut bytes), Err(Error::Framing));
    assert_eq!(rx.try_read(&mut bytes), Err(Error::Framing));
    assert_eq!(rx.recover(), vec![Op::DisconnectRx, Op::ConnectRx, Op::ArmRx]);
    assert_eq!(rx.try_read(&mut bytes), Ok(0));
    rx.on_interrupt(true, true, true);
    assert_eq!(rx.try_read(&mut bytes), Err(Error::Overrun));
}

#[test]
fn suspended_receivers_hold_nothing() {
    let mut rx = buffered();
    let left = rx.on_interrupt(true, true, false).unwrap();
    rx.take(left, plain(1));
    assert_eq!(rx.suspend(), Op::DisconnectRx);
    assert!(rx.is_suspended());
    let mut bytes = vec![0; 4];
    assert_eq!(rx.try_read(&mut bytes), Err(Error::Suspended));
    assert_eq!(rx.try_read(&mut vec![]), Ok(0));
    assert_eq!(rx.recover(), vec![Op::DisconnectRx]);
    assert_eq!(rx.resume(), vec![Op::ConnectRx, Op::ArmRx]);
    assert!(rx.resume().is_empty());
    assert_eq!(rx.try_read(&mut bytes), Ok(0));
    let (half, storage, op) = rx.into_inner();
    assert!(half.is_suspended());
    assert_eq!((storage.len(), op), (4, Op::DisconnectRx));
    let (again, ops) = half.into_buffered(storage);
    assert!(again.is_suspended());
    assert_eq!(ops, vec![Op::DisconnectRx]);
}
