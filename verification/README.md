# embassy-nxp for Kinetis

Drivers for the peripherals of Kinetis MKL82Z7 microcontrollers, with their logic verified by Verus.

- `src/` is the library: clock and power mode configuration, GPIO, DMA, ADC, I2C, SPI master and
  slave, LPUART, PWM, watchdog, interrupt multiplexer and time drivers. It makes no register access.
  A driver hands out the accesses to make as values of its module's `Op`, and is told what was read.
  Drivers whose course depends on the hardware are state machines: `wait` says what is needed next,
  `advance` takes it. The contracts fix the accesses and the results; properties that span calls are
  the public proof functions named `law_...`.
- `app/` is the HAL around it: the register accesses, with the `nxp-pac` peripheral access crate,
  interrupt handlers, futures, and the `embedded-hal` and `embedded-io` traits.
- `tests/` runs the library on the host.

The timer queue of the time drivers is `embassy-time-queue-utils`; `src/time_driver.rs` holds what is
taken for granted of it. Which task a timer in the queue belongs to is up to the queue, and no
contract says it.
