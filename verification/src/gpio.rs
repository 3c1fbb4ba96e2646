//! General purpose input and output.
//!
//! The drivers here decide; the accesses they ask for are values of [`Op`], and what they need to
//! know of a port is passed in as the value of its register. Every read-modify-write of a register
//! that pins share is to be made atomically.

use vstd::prelude::*;

use crate::bits;

verus! {

/// Number of pins in a port.
pub const PINS_PER_PORT: u8 = 32;

/// The GPIO pin level.
#[derive(Clone, Copy, Debug, PartialEq, Eq, Structural)]
pub enum Level {
    /// Logical low. Corresponds to 0V.
    Low,
    /// Logical high. Corresponds to VDD.
    High,
}

/// Pull setting for a GPIO input.
#[derive(Clone, Copy, Debug, PartialEq, Eq, Structural)]
pub enum Pull {
    /// No pull.
    Off,
    /// Internal pull-up resistor.
    Up,
    /// Internal pull-down resistor.
    Down,
}

/// A GPIO port. Each Kinetis port pairs a `PORTx` pin control block (mux, pull, interrupts) with
/// a `GPIOx` data block (direction, input, output).
#[derive(Clone, Copy, Debug, PartialEq, Eq, Structural)]
pub enum Bank {
    GpioA,
    GpioB,
    GpioC,
    GpioD,
    GpioE,
}

impl Bank {
    /// The position of the port: 0 for port A.
    pub open spec fn position(self) -> int {
        match self {
            Bank::GpioA => 0,
            Bank::GpioB => 1,
            Bank::GpioC => 2,
            Bank::GpioD => 3,
            Bank::GpioE => 4,
        }
    }

    /// The position of the port, for tables with an entry per port.
    pub fn index(self) -> (r: usize)
        ensures
            r == self.position(),
    {
        match self {
            Bank::GpioA => 0,
            Bank::GpioB => 1,
            Bank::GpioC => 2,
            Bank::GpioD => 3,
            Bank::GpioE => 4,
        }
    }
}

/// Pin function (`PCR[MUX]`): `Mux0` is the analog function, `Mux1` is GPIO, the rest are
/// alternatives.
#[derive(Clone, Copy, Debug, PartialEq, Eq, Structural)]
pub enum Mux {
    Mux0,
    Mux1,
    Mux2,
    Mux3,
    Mux4,
    Mux5,
    Mux6,
    Mux7,
}

/// Pin interrupt configuration (`PCR[IRQC]`).
#[derive(Clone, Copy, Debug, PartialEq, Eq, Structural)]
#[allow(non_camel_case_types)]
pub enum Irqc {
    /// Off.
    _0000,
    /// While low.
    _1000,
    /// On a rising edge.
    _1001,
    /// On a falling edge.
    _1010,
    /// On either edge.
    _1011,
    /// While high.
    _1100,
}

/// A register access of a GPIO driver.
#[derive(Clone, Copy, Debug, PartialEq, Eq, Structural)]
pub enum Op {
    /// Write `GPIOx_PSOR`: set the output bits in `mask`.
    Psor { bank: Bank, mask: u32 },
    /// Write `GPIOx_PCOR`: clear the output bits in `mask`.
    Pcor { bank: Bank, mask: u32 },
    /// Write `GPIOx_PTOR`: invert the output bits in `mask`.
    Ptor { bank: Bank, mask: u32 },
    /// `GPIOx_PDDR`: the direction of one pin.
    SetDirection { bank: Bank, pin: u8, output: bool },
    /// `PORTx_PCRn[MUX]`.
    SetMux { bank: Bank, pin: u8, mux: Mux },
    /// `PORTx_PCRn[PE]` and `PORTx_PCRn[PS]`.
    SetPull { bank: Bank, pin: u8, pe: bool, ps: bool },
    /// `PORTx_PCRn[IRQC]`, and `PORTx_PCRn[ISF]` written with one, which clears the flag.
    SetInterrupt { bank: Bank, pin: u8, irqc: Irqc },
    /// Open the clock gate of a port.
    EnableClock { bank: Bank },
    /// Enable the NVIC line of a port.
    EnableInterrupt { bank: Bank },
}

/// The output register (`GPIOx_PDOR`) of a port after an access.
pub open spec fn output_after(op: Op, port: Bank, pdor: u32) -> u32 {
    match op {
        Op::Psor { bank, mask } => if bank == port {
            pdor | mask
        } else {
            pdor
        },
        Op::Pcor { bank, mask } => if bank == port {
            pdor & !mask
        } else {
            pdor
        },
        Op::Ptor { bank, mask } => if bank == port {
            pdor ^ mask
        } else {
            pdor
        },
        _ => pdor,
    }
}

/// The direction register (`GPIOx_PDDR`) of a port after an access.
pub open spec fn direction_after(op: Op, port: Bank, pddr: u32) -> u32 {
    match op {
        Op::SetDirection { bank, pin, output } => if bank != port {
            pddr
        } else if output {
            pddr | (1u32 << pin)
        } else {
            pddr & !(1u32 << pin)
        },
        _ => pddr,
    }
}

/// The direction register of a port after some accesses.
pub open spec fn directions_after(program: Seq<Op>, port: Bank, pddr: u32) -> u32
    decreases program.len(),
{
    if program.len() == 0 {
        pddr
    } else {
        direction_after(program.last(), port, directions_after(program.drop_last(), port, pddr))
    }
}

/// A pin that a driver can take over.
pub trait Pin: Sized {
    /// The port that the pin belongs to.
    spec fn port(&self) -> Bank;

    /// The number of the pin within its port.
    spec fn number(&self) -> u8;

    /// Returns the pin number within a bank
    fn pin(&self) -> (r: u8)
        ensures
            r == self.number(),
            r < PINS_PER_PORT,
    ;

    /// Returns the bank of this pin
    fn bank(&self) -> (r: Bank)
        ensures
            r == self.port(),
    ;
}

/// Type-erased GPIO pin.
#[derive(Debug, PartialEq, Eq, Structural)]
pub struct AnyPin {
    pin_bank: Bank,
    pin_number: u8,
}

impl AnyPin {
    #[verifier::type_invariant]
    spec fn in_port(self) -> bool {
        self.pin_number < PINS_PER_PORT
    }

    pub closed spec fn spec_bank(&self) -> Bank {
        self.pin_bank
    }

    pub closed spec fn spec_pin(&self) -> u8 {
        self.pin_number
    }

    /// Create a new type-erased pin.
    ///
    /// You must ensure that you're only using one instance of this type at a time.
    pub fn steal(pin_bank: Bank, pin_number: u8) -> (r: Self)
        requires
            pin_number < PINS_PER_PORT,
        ensures
            r.port() == pin_bank,
            r.number() == pin_number,
    {
        AnyPin { pin_bank, pin_number }
    }
}

impl Pin for AnyPin {
    open spec fn port(&self) -> Bank {
        self.spec_bank()
    }

    open spec fn number(&self) -> u8 {
        self.spec_pin()
    }

    fn pin(&self) -> u8 {
        proof {
            use_type_invariant(self);
        }
        self.pin_number
    }

    fn bank(&self) -> Bank {
        self.pin_bank
    }
}

/// A flexible GPIO pin whose mode is not yet determined. Under the hood, this is a type-erased pin
/// called ["AnyPin"](AnyPin).
#[derive(Debug, PartialEq, Eq, Structural)]
pub struct Flex {
    pin: AnyPin,
}

impl Flex {
    /// The port that the pin belongs to.
    pub closed spec fn port(&self) -> Bank {
        self.pin.port()
    }

    /// The number of the pin within its port.
    pub closed spec fn number(&self) -> u8 {
        self.pin.number()
    }

    /// Wrap the pin in a `Flex`.
    ///
    /// Note: the pin keeps whatever mux setting it had; it is not switched to GPIO until
    /// [`set_as_input`](Self::set_as_input) or [`set_as_output`](Self::set_as_output).
    pub fn new<P: Pin>(pin: P) -> (r: Self)
        ensures
            r.port() == pin.port(),
            r.number() == pin.number(),
            r.number() < PINS_PER_PORT,
    {
        let pin_number: u8 = pin.pin();
        Flex { pin: AnyPin::steal(pin.bank(), pin_number) }
    }

    /// Get the bank of this pin. See also [Bank].
    pub fn pin_bank(&self) -> (r: Bank)
        ensures
            r == self.port(),
    {
        self.pin.bank()
    }

    /// Get the number of this pin within its bank.
    pub fn pin_number(&self) -> (r: u8)
        ensures
            r == self.number(),
            r < PINS_PER_PORT,
    {
        self.pin.pin()
    }

    /// Get the bit mask for this pin. PTx0 is bit 0, PTx1 is bit 1, etc.
    pub fn bit(&self) -> (r: u32)
        ensures
            r == 1u32 << self.number(),
            self.number() < PINS_PER_PORT,
    {
        1u32 << self.pin_number()
    }

    /// Set the pull configuration for the pin. To disable the pull, use [Pull::Off].
    pub fn set_pull(&mut self, pull: Pull) -> (r: Op)
        ensures
            *final(self) == *old(self),
            r == (Op::SetPull {
                bank: old(self).port(),
                pin: old(self).number(),
                pe: pull != Pull::Off,
                ps: pull == Pull::Up,
            }),
            final(self).number() < PINS_PER_PORT,
    {
        Op::SetPull {
            bank: self.pin_bank(),
            pin: self.pin_number(),
            pe: pull != Pull::Off,
            ps: pull == Pull::Up,
        }
    }

    /// Route the pin to the GPIO function (ALT1).
    fn set_as_gpio(&self) -> (r: Op)
        ensures
            r == (Op::SetMux { bank: self.port(), pin: self.number(), mux: Mux::Mux1 }),
            self.number() < PINS_PER_PORT,
    {
        Op::SetMux { bank: self.pin_bank(), pin: self.pin_number(), mux: Mux::Mux1 }
    }

    /// Set the pin in output mode. This also routes the pin to the GPIO function.
    pub fn set_as_output(&mut self) -> (r: Vec<Op>)
        ensures
            *final(self) == *old(self),
            r@ == direction_program(old(self).port(), old(self).number(), true),
            final(self).number() < PINS_PER_PORT,
    {
        let ops: Vec<Op> = vec![
            self.set_as_gpio(),
            Op::SetDirection { bank: self.pin_bank(), pin: self.pin_number(), output: true },
        ];
        assert(ops@ =~= direction_program(self.port(), self.number(), true));
        ops
    }

    /// Set the pin in input mode. This also routes the pin to the GPIO function.
    pub fn set_as_input(&mut self) -> (r: Vec<Op>)
        ensures
            *final(self) == *old(self),
            r@ == direction_program(old(self).port(), old(self).number(), false),
            final(self).number() < PINS_PER_PORT,
    {
        let ops: Vec<Op> = vec![
            self.set_as_gpio(),
            Op::SetDirection { bank: self.pin_bank(), pin: self.pin_number(), output: false },
        ];
        assert(ops@ =~= direction_program(self.port(), self.number(), false));
        ops
    }

    /// Get the current level of the pin, as seen by the input buffer: `pdir` is `GPIOx_PDIR`.
    pub fn level(&self, pdir: u32) -> (r: Level)
        ensures
            r == level_in(pdir, self.number()),
            self.number() < PINS_PER_PORT,
    {
        if pdir & self.bit() != 0 {
            Level::High
        } else {
            Level::Low
        }
    }

    /// Whether the pin is high.
    pub fn is_high(&self, pdir: u32) -> (r: bool)
        ensures
            r == (level_in(pdir, self.number()) == Level::High),
            self.number() < PINS_PER_PORT,
    {
        self.level(pdir) == Level::High
    }

    /// Whether the pin is low.
    pub fn is_low(&self, pdir: u32) -> (r: bool)
        ensures
            r == (level_in(pdir, self.number()) == Level::Low),
            self.number() < PINS_PER_PORT,
    {
        self.level(pdir) == Level::Low
    }

    /// Whether the output register (`pdor`, `GPIOx_PDOR`) drives the pin high (regardless of
    /// direction).
    pub fn is_set_high(&self, pdor: u32) -> (r: bool)
        ensures
            r == bits::bit32(pdor, self.number()),
            self.number() < PINS_PER_PORT,
    {
        pdor & self.bit() != 0
    }

    /// Drive the pin high.
    pub fn set_high(&mut self) -> (r: Op)
        ensures
            *final(self) == *old(self),
            r == (Op::Psor { bank: old(self).port(), mask: 1u32 << old(self).number() }),
            final(self).number() < PINS_PER_PORT,
    {
        Op::Psor { bank: self.pin_bank(), mask: self.bit() }
    }

    /// Drive the pin low.
    pub fn set_low(&mut self) -> (r: Op)
        ensures
            *final(self) == *old(self),
            r == (Op::Pcor { bank: old(self).port(), mask: 1u32 << old(self).number() }),
            final(self).number() < PINS_PER_PORT,
    {
        Op::Pcor { bank: self.pin_bank(), mask: self.bit() }
    }

    /// Invert the level that the pin is driven to.
    pub fn toggle(&mut self) -> (r: Op)
        ensures
            *final(self) == *old(self),
            r == (Op::Ptor { bank: old(self).port(), mask: 1u32 << old(self).number() }),
            final(self).number() < PINS_PER_PORT,
    {
        Op::Ptor { bank: self.pin_bank(), mask: self.bit() }
    }

    /// Wait until the pin is high: nothing if it already is.
    pub fn wait_for_high(&mut self, pdir: u32) -> (r: Option<(InputFuture, Op)>)
        ensures
            *final(self) == *old(self),
            r is None <==> level_in(pdir, old(self).number()) == Level::High,
            r matches Some(w) ==> w == wait_on(
                old(self).port(),
                old(self).number(),
                Irqc::_1100,
            ),
            final(self).number() < PINS_PER_PORT,
    {
        if self.is_high(pdir) {
            return None;
        }
        Some(InputFuture::new(self, Irqc::_1100))
    }

    /// Wait until the pin is low: nothing if it already is.
    pub fn wait_for_low(&mut self, pdir: u32) -> (r: Option<(InputFuture, Op)>)
        ensures
            *final(self) == *old(self),
            r is None <==> level_in(pdir, old(self).number()) == Level::Low,
            r matches Some(w) ==> w == wait_on(
                old(self).port(),
                old(self).number(),
                Irqc::_1000,
            ),
            final(self).number() < PINS_PER_PORT,
    {
        if self.is_low(pdir) {
            return None;
        }
        Some(InputFuture::new(self, Irqc::_1000))
    }

    /// Wait for a low to high transition.
    pub fn wait_for_rising_edge(&mut self) -> (r: (InputFuture, Op))
        ensures
            *final(self) == *old(self),
            r == wait_on(old(self).port(), old(self).number(), Irqc::_1001),
            final(self).number() < PINS_PER_PORT,
    {
        InputFuture::new(self, Irqc::_1001)
    }

    /// Wait for a high to low transition.
    pub fn wait_for_falling_edge(&mut self) -> (r: (InputFuture, Op))
        ensures
            *final(self) == *old(self),
            r == wait_on(old(self).port(), old(self).number(), Irqc::_1010),
            final(self).number() < PINS_PER_PORT,
    {
        InputFuture::new(self, Irqc::_1010)
    }

    /// Wait for a transition in either direction.
    pub fn wait_for_any_edge(&mut self) -> (r: (InputFuture, Op))
        ensures
            *final(self) == *old(self),
            r == wait_on(old(self).port(), old(self).number(), Irqc::_1011),
            final(self).number() < PINS_PER_PORT,
    {
        InputFuture::new(self, Irqc::_1011)
    }
}

/// The level of a pin, given the input register of its port.
pub open spec fn level_in(pdir: u32, pin: u8) -> Level {
    if bits::bit32(pdir, pin) {
        Level::High
    } else {
        Level::Low
    }
}

/// Accesses that make a pin a GPIO and set its direction.
pub open spec fn direction_program(bank: Bank, pin: u8, output: bool) -> Seq<Op> {
    seq![Op::SetMux { bank, pin, mux: Mux::Mux1 }, Op::SetDirection { bank, pin, output }]
}

/// The wait for a pin interrupt, and the access that arms it.
pub open spec fn wait_on(bank: Bank, pin: u8, irqc: Irqc) -> (InputFuture, Op) {
    (InputFuture { bank, pin }, Op::SetInterrupt { bank, pin, irqc })
}

/// GPIO output driver. Internally, this is a specialized [Flex] pin.
#[derive(Debug, PartialEq, Eq, Structural)]
pub struct Output {
    pin: Flex,
}

impl Output {
    /// The port that the pin belongs to.
    pub closed spec fn port(&self) -> Bank {
        self.pin.port()
    }

    /// The number of the pin within its port.
    pub closed spec fn number(&self) -> u8 {
        self.pin.number()
    }

    /// Create GPIO output driver for a [Pin] with the provided [initial output](Level).
    pub fn new<P: Pin>(pin: P, initial_output: Level) -> (r: (Self, Vec<Op>))
        ensures
            r.0.port() == pin.port(),
            r.0.number() == pin.number(),
            r.1@ == output_program(pin.port(), pin.number(), initial_output),
            r.0.number() < PINS_PER_PORT,
    {
        let mut flex: Flex = Flex::new(pin);
        let mut ops: Vec<Op> = Vec::new();
        // Set the level before switching to output so the pin never glitches.
        match initial_output {
            Level::High => ops.push(flex.set_high()),
            Level::Low => ops.push(flex.set_low()),
        }
        let mut direction: Vec<Op> = flex.set_as_output();
        ops.append(&mut direction);
        assert(ops@ =~= output_program(pin.port(), pin.number(), initial_output));
        (Output { pin: flex }, ops)
    }

    /// Drive the pin high.
    pub fn set_high(&mut self) -> (r: Op)
        ensures
            *final(self) == *old(self),
            r == (Op::Psor { bank: old(self).port(), mask: 1u32 << old(self).number() }),
            final(self).number() < PINS_PER_PORT,
    {
        self.pin.set_high()
    }

    /// Drive the pin low.
    pub fn set_low(&mut self) -> (r: Op)
        ensures
            *final(self) == *old(self),
            r == (Op::Pcor { bank: old(self).port(), mask: 1u32 << old(self).number() }),
            final(self).number() < PINS_PER_PORT,
    {
        self.pin.set_low()
    }

    /// Invert the level that the pin is driven to.
    pub fn toggle(&mut self) -> (r: Op)
        ensures
            *final(self) == *old(self),
            r == (Op::Ptor { bank: old(self).port(), mask: 1u32 << old(self).number() }),
            final(self).number() < PINS_PER_PORT,
    {
        self.pin.toggle()
    }

    /// Get the current output level of the pin. Note that the value returned by this function is
    /// the voltage level reported by the pin, not the value set by the output driver.
    pub fn level(&self, pdir: u32) -> (r: Level)
        ensures
            r == level_in(pdir, self.number()),
            self.number() < PINS_PER_PORT,
    {
        self.pin.level(pdir)
    }

    /// Whether the output is driven high.
    pub fn is_set_high(&self, pdor: u32) -> (r: bool)
        ensures
            r == bits::bit32(pdor, self.number()),
            self.number() < PINS_PER_PORT,
    {
        self.pin.is_set_high(pdor)
    }

    /// Whether the output is driven low.
    pub fn is_set_low(&self, pdor: u32) -> (r: bool)
        ensures
            r == !bits::bit32(pdor, self.number()),
            self.number() < PINS_PER_PORT,
    {
        !self.is_set_high(pdor)
    }
}

/// Accesses that make a pin an output at a level.
pub open spec fn output_program(bank: Bank, pin: u8, level: Level) -> Seq<Op> {
    seq![
        match level {
            Level::High => Op::Psor { bank, mask: 1u32 << pin },
            Level::Low => Op::Pcor { bank, mask: 1u32 << pin },
        },
    ] + direction_program(bank, pin, true)
}

/// GPIO input driver. Internally, this is a specialized [Flex] pin.
#[derive(Debug, PartialEq, Eq, Structural)]
pub struct Input {
    pin: Flex,
}

impl Input {
    /// The port that the pin belongs to.
    pub closed spec fn port(&self) -> Bank {
        self.pin.port()
    }

    /// The number of the pin within its port.
    pub closed spec fn number(&self) -> u8 {
        self.pin.number()
    }

    /// Create GPIO input driver for a [Pin] with the provided [Pull].
    pub fn new<P: Pin>(pin: P, pull: Pull) -> (r: (Self, Vec<Op>))
        ensures
            r.0.port() == pin.port(),
            r.0.number() == pin.number(),
            r.1@ == direction_program(pin.port(), pin.number(), false).push(
                Op::SetPull {
                    bank: pin.port(),
                    pin: pin.number(),
                    pe: pull != Pull::Off,
                    ps: pull == Pull::Up,
                },
            ),
            r.0.number() < PINS_PER_PORT,
    {
        let mut flex: Flex = Flex::new(pin);
        let mut ops: Vec<Op> = flex.set_as_input();
        let mut result: Input = Input { pin: flex };
        ops.push(result.set_pull(pull));
        (result, ops)
    }

    /// Set the pull configuration for the pin. To disable the pull, use [Pull::Off].
    pub fn set_pull(&mut self, pull: Pull) -> (r: Op)
        ensures
            *final(self) == *old(self),
            r == (Op::SetPull {
                bank: old(self).port(),
                pin: old(self).number(),
                pe: pull != Pull::Off,
                ps: pull == Pull::Up,
            }),
            final(self).number() < PINS_PER_PORT,
    {
        self.pin.set_pull(pull)
    }

    /// Get the current input level of the pin: `pdir` is `GPIOx_PDIR`.
    pub fn read(&self, pdir: u32) -> (r: Level)
        ensures
            r == level_in(pdir, self.number()),
            self.number() < PINS_PER_PORT,
    {
        self.pin.level(pdir)
    }

    /// Whether the input is high.
    pub fn is_high(&self, pdir: u32) -> (r: bool)
        ensures
            r == (level_in(pdir, self.number()) == Level::High),
            self.number() < PINS_PER_PORT,
    {
        self.read(pdir) == Level::High
    }

    /// Whether the input is low.
    pub fn is_low(&self, pdir: u32) -> (r: bool)
        ensures
            r == (level_in(pdir, self.number()) == Level::Low),
            self.number() < PINS_PER_PORT,
    {
        self.read(pdir) == Level::Low
    }

    /// Wait until the pin is high: nothing if it already is.
    pub fn wait_for_high(&mut self, pdir: u32) -> (r: Option<(InputFuture, Op)>)
        ensures
            *final(self) == *old(self),
            r is None <==> level_in(pdir, old(self).number()) == Level::High,
            r matches Some(w) ==> w == wait_on(
                old(self).port(),
                old(self).number(),
                Irqc::_1100,
            ),
            final(self).number() < PINS_PER_PORT,
    {
        self.pin.wait_for_high(pdir)
    }

    /// Wait until the pin is low: nothing if it already is.
    pub fn wait_for_low(&mut self, pdir: u32) -> (r: Option<(InputFuture, Op)>)
        ensures
            *final(self) == *old(self),
            r is None <==> level_in(pdir, old(self).number()) == Level::Low,
            r matches Some(w) ==> w == wait_on(
                old(self).port(),
                old(self).number(),
                Irqc::_1000,
            ),
            final(self).number() < PINS_PER_PORT,
    {
        self.pin.wait_for_low(pdir)
    }

    /// Wait for a low to high transition.
    pub fn wait_for_rising_edge(&mut self) -> (r: (InputFuture, Op))
        ensures
            *final(self) == *old(self),
            r == wait_on(old(self).port(), old(self).number(), Irqc::_1001),
            final(self).number() < PINS_PER_PORT,
    {
        self.pin.wait_for_rising_edge()
    }

    /// Wait for a high to low transition.
    pub fn wait_for_falling_edge(&mut self) -> (r: (InputFuture, Op))
        ensures
            *final(self) == *old(self),
            r == wait_on(old(self).port(), old(self).number(), Irqc::_1010),
            final(self).number() < PINS_PER_PORT,
    {
        self.pin.wait_for_falling_edge()
    }

    /// Wait for a transition in either direction.
    pub fn wait_for_any_edge(&mut self) -> (r: (InputFuture, Op))
        ensures
            *final(self) == *old(self),
            r == wait_on(old(self).port(), old(self).number(), Irqc::_1011),
            final(self).number() < PINS_PER_PORT,
    {
        self.pin.wait_for_any_edge()
    }
}

/// Completes when the pin interrupt that was armed for it has fired. The port handler switches the
/// pin's interrupt off when it fires, which is what [`InputFuture::poll`] looks for.
#[derive(Debug, PartialEq, Eq, Structural)]
pub struct InputFuture {
    pub bank: Bank,
    pub pin: u8,
}

impl InputFuture {
    /// The wait, and the access that clears a stale flag and arms the interrupt. Level modes raise
    /// the interrupt at once if the condition already holds, so no event between the caller's check
    /// and this point is lost.
    fn new(flex: &Flex, irqc: Irqc) -> (r: (Self, Op))
        ensures
            r == wait_on(flex.port(), flex.number(), irqc),
            flex.number() < PINS_PER_PORT,
    {
        let bank: Bank = flex.pin_bank();
        let pin: u8 = flex.pin_number();
        (InputFuture { bank, pin }, Op::SetInterrupt { bank, pin, irqc })
    }

    /// Whether the interrupt has fired: `irqc` is what the pin's `PCR[IRQC]` reads.
    pub fn poll(&self, irqc: Irqc) -> (r: bool)
        ensures
            r == (irqc == Irqc::_0000),
    {
        irqc == Irqc::_0000
    }

    /// The access that switches the interrupt off when the wait ends, completed or not.
    pub fn cancel(&self) -> (r: Op)
        ensures
            r == (Op::SetInterrupt { bank: self.bank, pin: self.pin, irqc: Irqc::_0000 }),
    {
        Op::SetInterrupt { bank: self.bank, pin: self.pin, irqc: Irqc::_0000 }
    }
}

/// The pins below `end` whose flag is set, in ascending order.
pub open spec fn flagged(flags: u32, end: int) -> Seq<u8>
    decreases end,
{
    if end <= 0 {
        seq![]
    } else if bits::bit32(flags, (end - 1) as u8) {
        flagged(flags, end - 1).push((end - 1) as u8)
    } else {
        flagged(flags, end - 1)
    }
}

/// A pin is among the flagged ones exactly where its flag is set.
pub proof fn law_flagged(flags: u32, end: int, pin: u8)
    requires
        0 <= end <= PINS_PER_PORT,
    ensures
        flagged(flags, end).contains(pin) <==> (pin < end && bits::bit32(flags, pin)),
        forall|i: int, j: int|
            0 <= i < j < flagged(flags, end).len() ==> #[trigger] flagged(flags, end)[i]
                < #[trigger] flagged(flags, end)[j],
    decreases end,
{
    if end > 0 {
        law_flagged(flags, end - 1, pin);
        let before = flagged(flags, end - 1);
        let last = (end - 1) as u8;
        assert forall|i: int| 0 <= i < before.len() implies #[trigger] before[i] < last by {
            law_flagged(flags, end - 1, before[i]);
            assert(before.contains(before[i]));
        }
        if bits::bit32(flags, last) {
            let now = before.push(last);
            if pin == last {
                assert(now[now.len() - 1] == pin);
            }
            assert(forall|i: int| 0 <= i < before.len() ==> now[i] == before[i]);
            if before.contains(pin) {
                let i = before.index_of(pin);
                assert(now[i] == pin);
            }
        }
    }
}

/// The access that switches a pin's interrupt off and clears its flag.
pub open spec fn disarm(bank: Bank, pin: u8) -> Op {
    Op::SetInterrupt { bank, pin, irqc: Irqc::_0000 }
}

/// Port interrupt: the pins with their flag set, `flags` being `PORTx_ISFR`. For each of them the
/// pin's interrupt is switched off (a level condition would otherwise fire again immediately), its
/// flag cleared, and its waiter woken, which recognises completion by the interrupt being off.
pub fn on_port_interrupt(bank: Bank, flags: u32) -> (r: Vec<Op>)
    ensures
        r@ == flagged(flags, PINS_PER_PORT as int).map_values(
            |pin: u8| disarm(bank, pin),
        ),
{
    let ghost off = |pin: u8| disarm(bank, pin);
    let mut ops: Vec<Op> = Vec::new();
    let mut pin: u8 = 0;
    while pin < PINS_PER_PORT
        invariant
            pin <= PINS_PER_PORT,
            off == |pin: u8| disarm(bank, pin),
            ops@ == flagged(flags, pin as int).map_values(off),
        decreases PINS_PER_PORT - pin,
    {
        if flags & (1u32 << pin) != 0 {
            ops.push(Op::SetInterrupt { bank, pin, irqc: Irqc::_0000 });
            assert(ops@ =~= flagged(flags, pin + 1).map_values(off));
        }
        pin = pin + 1;
    }
    ops
}

/// Accesses that make the pins usable. The pin control registers (`PORTx_PCRn`) bus-fault until
/// the port clock is on, and one NVIC line per port carries every pin interrupt.
pub open spec fn init_program() -> Seq<Op> {
    seq![
        Op::EnableClock { bank: Bank::GpioA },
        Op::EnableClock { bank: Bank::GpioB },
        Op::EnableClock { bank: Bank::GpioC },
        Op::EnableClock { bank: Bank::GpioD },
        Op::EnableClock { bank: Bank::GpioE },
        Op::EnableInterrupt { bank: Bank::GpioA },
        Op::EnableInterrupt { bank: Bank::GpioB },
        Op::EnableInterrupt { bank: Bank::GpioC },
        Op::EnableInterrupt { bank: Bank::GpioD },
        Op::EnableInterrupt { bank: Bank::GpioE },
    ]
}

/// Opens the clock gates of the ports and enables their interrupts.
pub fn init() -> (r: Vec<Op>)
    ensures
        r@ == init_program(),
{
    let ops: Vec<Op> = vec![
        Op::EnableClock { bank: Bank::GpioA },
        Op::EnableClock { bank: Bank::GpioB },
        Op::EnableClock { bank: Bank::GpioC },
        Op::EnableClock { bank: Bank::GpioD },
        Op::EnableClock { bank: Bank::GpioE },
        Op::EnableInterrupt { bank: Bank::GpioA },
        Op::EnableInterrupt { bank: Bank::GpioB },
        Op::EnableInterrupt { bank: Bank::GpioC },
        Op::EnableInterrupt { bank: Bank::GpioD },
        Op::EnableInterrupt { bank: Bank::GpioE },
    ];
    assert(ops@ =~= init_program());
    ops
}

/// An output takes the level it is set to, toggling inverts it, and no other pin is affected.
pub proof fn law_outputs_are_independent(bank: Bank, pin: u8, other: u8, pdor: u32)
    requires
        pin < PINS_PER_PORT,
        other < PINS_PER_PORT,
    ensures
        ({
            let mask = 1u32 << pin;
            let high = output_after(Op::Psor { bank, mask }, bank, pdor);
            let low = output_after(Op::Pcor { bank, mask }, bank, pdor);
            let toggled = output_after(Op::Ptor { bank, mask }, bank, pdor);
            &&& bits::bit32(high, pin)
            &&& !bits::bit32(low, pin)
            &&& bits::bit32(toggled, pin) == !bits::bit32(pdor, pin)
            &&& other != pin ==> bits::bit32(high, other) == bits::bit32(pdor, other)
            &&& other != pin ==> bits::bit32(low, other) == bits::bit32(pdor, other)
            &&& other != pin ==> bits::bit32(toggled, other) == bits::bit32(pdor, other)
            &&& output_after(Op::Ptor { bank, mask }, bank, toggled) == pdor
        }),
{
    bits::lemma_set32(pdor, pin, pin);
    bits::lemma_set32(pdor, pin, other);
    bits::lemma_clear32(pdor, pin, pin);
    bits::lemma_clear32(pdor, pin, other);
    assert(((pdor ^ (1u32 << pin)) & (1u32 << other) != 0 <==> ((other == pin) != (pdor & (1u32
        << other) != 0))) && ((pdor ^ (1u32 << pin)) & (1u32 << pin) != 0 <==> !(pdor & (1u32 << pin)
        != 0)) && ((pdor ^ (1u32 << pin)) ^ (1u32 << pin)) == pdor) by (bit_vector)
        requires
            pin < 32,
            other < 32,
    ;
}

/// A new output never glitches: its level is set before it is driven.
pub proof fn law_output_never_glitches(bank: Bank, pin: u8, level: Level, pdor: u32)
    requires
        pin < PINS_PER_PORT,
    ensures
        ({
            let program = output_program(bank, pin, level);
            forall|i: int|
                0 <= i < program.len() && #[trigger] program[i] is SetDirection ==> i > 0 && bits::bit32(
                    output_after(program[0], bank, pdor),
                    pin,
                ) == (level == Level::High)
        }),
{
    law_outputs_are_independent(bank, pin, pin, pdor);
}

proof fn lemma_direction_program(bank: Bank, pin: u8, output: bool, port: Bank, pddr: u32)
    ensures
        directions_after(direction_program(bank, pin, output), port, pddr) == direction_after(
            Op::SetDirection { bank, pin, output },
            port,
            pddr,
        ),
{
    let program = direction_program(bank, pin, output);
    assert(program.drop_last() =~= seq![program[0]]);
    assert(program.drop_last().drop_last() =~= Seq::<Op>::empty());
    reveal_with_fuel(directions_after, 3);
}

/// Making a pin an output or an input sets its direction and changes that of no other pin, of its
/// port or another; and making it an input undoes making it an output, where it was an input before.
pub proof fn law_direction_is_undone(bank: Bank, pin: u8, port: Bank, other: u8, pddr: u32)
    requires
        pin < PINS_PER_PORT,
        other < PINS_PER_PORT,
    ensures
        ({
            let driven = directions_after(direction_program(bank, pin, true), port, pddr);
            let sensed = directions_after(direction_program(bank, pin, false), port, pddr);
            let undone = directions_after(direction_program(bank, pin, false), port, driven);
            &&& bits::bit32(driven, other) == (port == bank && other == pin || bits::bit32(pddr, other))
            &&& bits::bit32(sensed, other) == (!(port == bank && other == pin) && bits::bit32(
                pddr,
                other,
            ))
            &&& undone == sensed
            &&& port != bank || !bits::bit32(pddr, pin) ==> undone == pddr
        }),
{
    lemma_direction_program(bank, pin, true, port, pddr);
    lemma_direction_program(bank, pin, false, port, pddr);
    lemma_direction_program(
        bank,
        pin,
        false,
        port,
        directions_after(direction_program(bank, pin, true), port, pddr),
    );
    bits::lemma_set32(pddr, pin, other);
    bits::lemma_clear32(pddr, pin, other);
    assert((pddr | (1u32 << pin)) & !(1u32 << pin) == pddr & !(1u32 << pin) && (pddr & (1u32 << pin)
        == 0 ==> pddr & !(1u32 << pin) == pddr)) by (bit_vector)
        requires
            pin < 32,
    ;
}

/// A pin and its port.
pub ghost struct PinState {
    pub mux: Mux,
    pub output: bool,
    /// The level that it is driven to as an output.
    pub driven: bool,
    /// `PCR[PE]` and `PCR[PS]`.
    pub pull: (bool, bool),
    pub irqc: Irqc,
    /// `PCR[ISF]`.
    pub flag: bool,
    /// The clock of its port is on, and its interrupts are let through.
    pub usable: (bool, bool),
    /// Its control register was accessed only while the clock of its port was on.
    pub in_order: bool,
}

/// A pin after an access.
pub open spec fn pin_after(op: Op, port: Bank, number: u8, s: PinState) -> PinState {
    match op {
        Op::Psor { bank, mask } => PinState {
            driven: s.driven || bank == port && bits::bit32(mask, number),
            ..s
        },
        Op::Pcor { bank, mask } => PinState {
            driven: s.driven && !(bank == port && bits::bit32(mask, number)),
            ..s
        },
        Op::Ptor { bank, mask } => PinState {
            driven: s.driven != (bank == port && bits::bit32(mask, number)),
            ..s
        },
        Op::SetDirection { bank, pin, output } => if bank == port && pin == number {
            PinState { output, ..s }
        } else {
            s
        },
        Op::SetMux { bank, pin, mux } => if bank == port && pin == number {
            PinState { mux, ..s }
        } else {
            s
        },
        Op::SetPull { bank, pin, pe, ps } => if bank == port && pin == number {
            PinState { pull: (pe, ps), ..s }
        } else {
            s
        },
        Op::SetInterrupt { bank, pin, irqc } => if bank == port && pin == number {
            PinState { irqc, flag: false, ..s }
        } else {
            s
        },
        Op::EnableClock { bank } => if bank == port {
            PinState { usable: (true, s.usable.1), ..s }
        } else {
            s
        },
        Op::EnableInterrupt { bank } => if bank == port {
            PinState { usable: (s.usable.0, true), in_order: s.in_order && s.usable.0, ..s }
        } else {
            s
        },
    }
}

/// A pin after the first `n` of some accesses.
pub open spec fn pin_after_all(ops: Seq<Op>, n: int, port: Bank, number: u8, s: PinState) -> PinState
    decreases n,
{
    if n <= 0 {
        s
    } else {
        pin_after(ops[n - 1], port, number, pin_after_all(ops, n - 1, port, number, s))
    }
}

proof fn lemma_own_bit(pin: u8, other: u8)
    requires
        pin < 32,
        other < 32,
    ensures
        bits::bit32(1u32 << pin, other) == (pin == other),
{
    assert((1u32 << pin) & (1u32 << other) != 0 <==> pin == other) by (bit_vector)
        requires
            pin < 32,
            other < 32,
    ;
}

/// A pin made an output is a GPIO, driven at the level asked for, which it had before it was driven; one
/// made an input is a GPIO that is not driven. No other pin, of any port, changes.
pub proof fn law_pins_become_gpios(
    bank: Bank,
    pin: u8,
    level: Level,
    port: Bank,
    number: u8,
    s: PinState,
)
    requires
        pin < 32,
        number < 32,
    ensures
        ({
            let output = output_program(bank, pin, level);
            let input = direction_program(bank, pin, false);
            let driven = pin_after_all(output, output.len() as int, port, number, s);
            let sensed = pin_after_all(input, input.len() as int, port, number, s);
            if port == bank && number == pin {
                &&& driven == (PinState {
                    mux: Mux::Mux1,
                    output: true,
                    driven: level == Level::High,
                    ..s
                })
                &&& sensed == (PinState { mux: Mux::Mux1, output: false, ..s })
                &&& forall|n: int|
                    0 <= n < output.len() && (#[trigger] pin_after_all(
                        output,
                        n,
                        port,
                        number,
                        s,
                    )).output && !s.output ==> pin_after_all(output, n, port, number, s).driven == (
                    level == Level::High)
            } else {
                driven == s && sensed == s
            }
        }),
{
    lemma_own_bit(pin, number);
    reveal_with_fuel(pin_after_all, 4);
    let output = output_program(bank, pin, level);
    assert(output.len() == 3);
    if port == bank && number == pin {
        assert(pin_after_all(output, 0, port, number, s) == s);
        assert(pin_after_all(output, 1, port, number, s).output == s.output);
        assert(pin_after_all(output, 2, port, number, s).output == s.output);
    }
}

/// Waiting for a pin arms that pin with the condition asked for, without a stale flag, and no other; the
/// wait is for that pin.
pub proof fn law_waits_arm_their_pin(
    bank: Bank,
    pin: u8,
    irqc: Irqc,
    port: Bank,
    number: u8,
    s: PinState,
)
    ensures
        ({
            let (wait, op) = wait_on(bank, pin, irqc);
            let armed = pin_after(op, port, number, s);
            &&& wait == (InputFuture { bank, pin })
            &&& armed == if port == bank && number == pin {
                PinState { irqc, flag: false, ..s }
            } else {
                s
            }
        }),
{
}

/// A port interrupt switches the interrupt of every flagged pin of the port off and clears its flag,
/// and leaves all other pins alone.
pub proof fn law_port_interrupt(bank: Bank, flags: u32, port: Bank, number: u8, s: PinState)
    requires
        number < 32,
    ensures
        ({
            let ops = flagged(flags, 32).map_values(|pin: u8| disarm(bank, pin));
            pin_after_all(ops, ops.len() as int, port, number, s) == if port == bank && bits::bit32(
                flags,
                number,
            ) {
                PinState { irqc: Irqc::_0000, flag: false, ..s }
            } else {
                s
            }
        }),
{
    let pins = flagged(flags, 32);
    let ops = pins.map_values(|pin: u8| disarm(bank, pin));
    lemma_disarmed(pins, bank, port, number, s, pins.len() as int);
    law_flagged(flags, 32, number);
    assert(pins.take(pins.len() as int) =~= pins);
}

proof fn lemma_disarmed(
    pins: Seq<u8>,
    bank: Bank,
    port: Bank,
    number: u8,
    s: PinState,
    n: int,
)
    requires
        0 <= n <= pins.len(),
    ensures
        ({
            let ops = pins.map_values(|pin: u8| disarm(bank, pin));
            pin_after_all(ops, n, port, number, s) == if port == bank && pins.take(n).contains(number) {
                PinState { irqc: Irqc::_0000, flag: false, ..s }
            } else {
                s
            }
        }),
    decreases n,
{
    if n > 0 {
        lemma_disarmed(pins, bank, port, number, s, n - 1);
        let now = pins.take(n);
        let before = pins.take(n - 1);
        assert(now =~= before.push(pins[n - 1]));
        if before.contains(number) {
            let k = before.index_of(number);
            assert(now[k] == number);
        }
        if now.contains(number) && pins[n - 1] != number {
            let k = now.index_of(number);
            assert(before[k] == number);
        }
        if pins[n - 1] == number {
            assert(now[n - 1] == number);
        }
    }
}

/// Making the pins usable opens the clock of every port, and lets its interrupts through after that.
pub proof fn law_every_port_is_usable(port: Bank, number: u8, s: PinState)
    requires
        s.in_order,
    ensures
        ({
            let ops = init_program();
            pin_after_all(ops, ops.len() as int, port, number, s) == (PinState {
                usable: (true, true),
                ..s
            })
        }),
{
    reveal_with_fuel(pin_after_all, 11);
}

/// A pin is high exactly if its bit in the input register is one.
pub proof fn law_level(pdir: u32, pin: u8)
    requires
        pin < 32,
    ensures
        level_in(pdir, pin) == Level::High <==> (pdir >> pin) % 2 == 1,
        level_in(pdir, pin) == Level::Low <==> (pdir >> pin) % 2 == 0,
{
    assert(pdir & (1u32 << pin) != 0 <==> (pdir >> pin) % 2 == 1) by (bit_vector)
        requires
            pin < 32,
    ;
}

/// The ports are numbered from zero in the order of their letters.
pub proof fn law_positions()
    ensures
        0 == Bank::GpioA.position(),
        Bank::GpioA.position() + 1 == Bank::GpioB.position(),
        Bank::GpioB.position() + 1 == Bank::GpioC.position(),
        Bank::GpioC.position() + 1 == Bank::GpioD.position(),
        Bank::GpioD.position() + 1 == Bank::GpioE.position(),
{
}

} // verus!
