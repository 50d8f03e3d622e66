# stm32_usb

A verified driver for the full-speed USB device peripheral of STM32 microcontrollers, with the
reference counting of the reset and clock control that switches peripherals on and off.

`src/` holds the driver's logic, verified with Verus. It never touches hardware: its functions take
the values that were read and list the accesses (`Op`, `RccOp`) to perform. Transfers, which wait
for the hardware, are step functions from a state and an input to the next thing needed (`Next`).

- `rcc`, `util`, `time`: clock control and clock arithmetic
- `regs`, `epr`: register words and what writing an endpoint register does
- `btable`, `buffer`: buffer table and packet buffers in packet memory
- `driver`, `bus`, `endpoint`, `control`, `interrupt`: the driver proper
- `address`, `types`, `instance`: shared types

`app/` performs the accesses on an STM32F072 and offers the driver through the
`embassy_usb_driver` traits.
