use embassy_nxp::gpio::{
    init, on_port_interrupt, AnyPin, Bank, Flex, Input, Irqc, Level, Mux, Op, Output, Pin, Pull,
};

#[test]
fn output_is_set_before_it_is_driven() {
    let (mut output, ops) = Output::new(AnyPin::steal(Bank::GpioC, 7), Level::High);
    assert_eq!(
        ops,
        vec![
            Op::Psor { bank: Bank::GpioC, mask: 1 << 7 },
            Op::SetMux { bank: Bank::GpioC, pin: 7, mux: Mux::Mux1 },
            Op::SetDirection { bank: Bank::GpioC, pin: 7, output: true },
        ]
    );
    assert_eq!(output.set_low(), Op::Pcor { bank: Bank::GpioC, mask: 1 << 7 });
    assert_eq!(output.set_high(), Op::Psor { bank: Bank::GpioC, mask: 1 << 7 });
    assert_eq!(output.toggle(), Op::Ptor { bank: Bank::GpioC, mask: 1 << 7 });
    assert!(output.is_set_high(0x80) && !output.is_set_low(0x80));
    assert!(!output.is_set_high(0x40) && output.is_set_low(0x40));
    assert_eq!(output.level(0x80), Level::High);
    let (_, low) = Output::new(AnyPin::steal(Bank::GpioA, 0), Level::Low);
    assert_eq!(low[0], Op::Pcor { bank: Bank::GpioA, mask: 1 });
}

#[test]
fn input_reads_its_own_bit() {
    let (mut input, ops) = Input::new(AnyPin::steal(Bank::GpioE, 31), Pull::Up);
    assert_eq!(ops[1], Op::SetDirection { bank: Bank::GpioE, pin: 31, output: false });
    assert_eq!(ops[2], Op::SetPull { bank: Bank::GpioE, pin: 31, pe: true, ps: true });
    assert!(input.is_high(0x8000_0000) && !input.is_low(0x8000_0000));
    assert!(!input.is_high(0x7FFF_FFFF) && input.is_low(0x7FFF_FFFF));
    assert_eq!(input.read(0), Level::Low);
    assert_eq!(input.set_pull(Pull::Down), Op::SetPull { bank: Bank::GpioE, pin: 31, pe: true, ps: false });
    assert_eq!(input.set_pull(Pull::Off), Op::SetPull { bank: Bank::GpioE, pin: 31, pe: false, ps: false });
}

#[test]
fn flex_knows_its_pin() {
    let mut flex = Flex::new(AnyPin::steal(Bank::GpioB, 3));
    assert_eq!((flex.pin_bank(), flex.pin_number(), flex.bit()), (Bank::GpioB, 3, 8));
    assert_eq!(Bank::GpioB.index(), 1);
    assert_eq!(
        flex.set_as_input(),
        vec![
            Op::SetMux { bank: Bank::GpioB, pin: 3, mux: Mux::Mux1 },
            Op::SetDirection { bank: Bank::GpioB, pin: 3, output: false },
        ]
    );
    assert_eq!(flex.set_as_output()[1], Op::SetDirection { bank: Bank::GpioB, pin: 3, output: true });
    assert!(flex.is_high(8) && flex.is_low(!8));
    assert!(flex.is_set_high(8) && !flex.is_set_high(!8));
    let pin = AnyPin::steal(Bank::GpioD, 5);
    assert_eq!((pin.pin(), pin.bank()), (5, Bank::GpioD));
}

#[test]
fn level_waits_return_at_once() {
    let mut flex = Flex::new(AnyPin::steal(Bank::GpioB, 3));
    assert!(flex.wait_for_high(8).is_none());
    assert!(flex.wait_for_low(0).is_none());
    let (wait, op) = flex.wait_for_high(0).unwrap();
    assert_eq!(op, Op::SetInterrupt { bank: Bank::GpioB, pin: 3, irqc: Irqc::_1100 });
    assert!(!wait.poll(Irqc::_1100));
    assert!(wait.poll(Irqc::_0000));
    assert_eq!(wait.cancel(), Op::SetInterrupt { bank: Bank::GpioB, pin: 3, irqc: Irqc::_0000 });
    assert_eq!(flex.wait_for_low(8).unwrap().1, Op::SetInterrupt { bank: Bank::GpioB, pin: 3, irqc: Irqc::_1000 });
    assert_eq!(flex.wait_for_rising_edge().1, Op::SetInterrupt { bank: Bank::GpioB, pin: 3, irqc: Irqc::_1001 });
    assert_eq!(flex.wait_for_falling_edge().1, Op::SetInterrupt { bank: Bank::GpioB, pin: 3, irqc: Irqc::_1010 });
    assert_eq!(flex.wait_for_any_edge().1, Op::SetInterrupt { bank: Bank::GpioB, pin: 3, irqc: Irqc::_1011 });
}

#[test]
fn port_interrupt_serves_flagged_pins() {
    let ops = on_port_interrupt(Bank::GpioD, 0x8000_0011);
    let pins: Vec<u8> = ops
        .iter()
        .map(|op| match op {
            Op::SetInterrupt { bank: Bank::GpioD, pin, irqc: Irqc::_0000 } => *pin,
            _ => unreachable!(),
        })
        .collect();
    assert_eq!(pins, vec![0, 4, 31]);
    assert!(on_port_interrupt(Bank::GpioA, 0).is_empty());
}

#[test]
fn ports_are_clocked_before_their_interrupts() {
    let ops = init();
    assert_eq!(ops.len(), 10);
    assert_eq!(ops[0], Op::EnableClock { bank: Bank::GpioA });
    assert_eq!(ops[9], Op::EnableInterrupt { bank: Bank::GpioE });
}

#[test]
fn direction_is_undone() {
    let mut flex = Flex::new(AnyPin::steal(Bank::GpioB, 4));
    let mut pddr = 0b1000_0001u32;
    for (ops, expected) in [(flex.set_as_output(), 0b1001_0001), (flex.set_as_input(), 0b1000_0001)] {
        for op in ops {
            match op {
                Op::SetDirection { bank: Bank::GpioB, pin, output: true } => pddr |= 1 << pin,
                Op::SetDirection { bank: Bank::GpioB, pin, output: false } => pddr &= !(1 << pin),
                op => assert_eq!(op, Op::SetMux { bank: Bank::GpioB, pin: 4, mux: Mux::Mux1 }),
            }
        }
        assert_eq!(pddr, expected);
    }
}
