use embassy_nxp::dma::{
    init, on_channel, read, read_discard, write_repeated, AnyChannel, Channel, Error, Errors, Op, Ssize, Tcd, Word,
};

fn descriptor(ops: &[Op]) -> Tcd {
    for op in ops {
        if let Op::WriteTcd { tcd, .. } = op {
            return *tcd;
        }
    }
    unreachable!()
}

#[test]
fn read_counts_up_in_memory() {
    let (transfer, ops) = read::<_, u16>(AnyChannel::steal(5), 12, 0x4000, 0x2000, 100);
    assert_eq!(transfer.channel(), 5);
    assert_eq!(
        ops[..6],
        [
            Op::DisableRequest(5),
            Op::DisconnectSource(5),
            Op::WaitInactive(5),
            Op::ClearDone(5),
            Op::ClearInterrupt(5),
            Op::ForgetError(5),
        ]
    );
    assert_eq!(ops[7..], [Op::ConnectSource { channel: 5, source: 12 }, Op::EnableRequest(5)]);
    let tcd = descriptor(&ops);
    assert_eq!(
        tcd,
        Tcd {
            saddr: 0x4000,
            soff: 0,
            size: Ssize::Bits16,
            nbytes: 2,
            slast: 0,
            daddr: 0x2000,
            doff: 2,
            citer: 100,
            biter: 100,
            dlastsga: 0,
            intmajor: true,
            dreq: true,
        }
    );
}

#[test]
fn directions_differ_in_their_offsets() {
    let (_, ops) = embassy_nxp::dma::write::<_, u32>(AnyChannel::steal(0), 1, 0x10, 0x20, 3);
    let tcd = descriptor(&ops);
    assert_eq!((tcd.soff, tcd.doff, tcd.nbytes), (4, 0, 4));
    let (_, ops) = read_discard::<_, u8>(AnyChannel::steal(0), 1, 0x10, 0x20, 0x7FFF);
    let tcd = descriptor(&ops);
    assert_eq!((tcd.soff, tcd.doff, tcd.nbytes, tcd.citer), (0, 0, 1, 0x7FFF));
    let (_, ops) = write_repeated::<_, u8>(AnyChannel::steal(0), 1, 0x10, 0x20, 1);
    let tcd = descriptor(&ops);
    assert_eq!((tcd.saddr, tcd.daddr, tcd.soff, tcd.doff), (0x10, 0x20, 0, 0));
    assert_eq!((u8::size(), u16::size(), u32::size()), (Ssize::Bits8, Ssize::Bits16, Ssize::Bits32));
    assert_eq!(Ssize::Bits32.to_bits(), 2);
    assert_eq!(AnyChannel::steal(7).number(), 7);
}

#[test]
fn errors_reach_their_channel_once() {
    let mut errors = Errors::new();
    let (first, _) = read::<_, u8>(AnyChannel::steal(1), 1, 0, 0, 1);
    let (second, _) = read::<_, u8>(AnyChannel::steal(6), 1, 0, 0, 1);
    let ops = errors.record(0x42);
    assert_eq!(
        ops,
        vec![
            Op::DisableRequest(1),
            Op::ClearError(1),
            Op::Wake(1),
            Op::DisableRequest(6),
            Op::ClearError(6),
            Op::Wake(6),
        ]
    );
    assert_eq!(first.poll(&mut errors, true), Some(Err(Error::Bus)));
    assert_eq!(first.poll(&mut errors, true), Some(Ok(())));
    assert_eq!(second.poll(&mut errors, false), Some(Err(Error::Bus)));
    assert_eq!(second.poll(&mut errors, false), None);
}

#[test]
fn starting_forgets_stale_errors() {
    let mut errors = Errors::new();
    let (transfer, ops) = read::<_, u8>(AnyChannel::steal(3), 1, 0, 0, 1);
    // The error of an earlier transfer is raised while the channel is being quiesced.
    for op in ops {
        match op {
            Op::WaitInactive(3) => assert_eq!(errors.record(0xFF).len(), 24),
            Op::ForgetError(channel) => assert!(errors.take(channel)),
            _ => {}
        }
    }
    assert_eq!(transfer.poll(&mut errors, false), None);
    assert!(errors.take(4));
    assert!(!errors.take(4));
    // One of the transfer itself is reported.
    errors.record(0x08);
    assert_eq!(transfer.poll(&mut errors, false), Some(Err(Error::Bus)));
    assert_eq!(
        transfer.cancel(),
        vec![Op::DisableRequest(3), Op::DisconnectSource(3), Op::WaitInactive(3), Op::Fence]
    );
}

#[test]
fn channel_interrupts_wake_once_flagged() {
    assert_eq!(on_channel(4, true), vec![Op::ClearInterrupt(4), Op::Wake(4)]);
    assert!(on_channel(4, false).is_empty());
    let ops = init();
    assert_eq!(ops.len(), 15);
    assert_eq!(ops[2..5], [Op::DisableAll, Op::ClearInterrupts(0xFF), Op::ClearErrors(0xFF)]);
}
