# runtime_hal

A hardware abstraction layer for the GD32F10x and GD32F1x0 families that finds out at run time
which chip it runs on. One image probes the bus, tells the family, synthesises a descriptor of the
part, and drives clocks, pins, I2C, ADCs, timers, DMA and flash from that descriptor.

- `src/` is the library, verified with Verus. Every register access goes through the trait
  `reg::Bus`, whose ghost log records what went over the bus. The contract of a driver function
  states the script of bus steps it runs, the result for each outcome of the loads, and where a
  script may break off. `regfile::RegisterFile` is a plain memory; `device::Device` is hardware
  behind a `Port`.
- The functions named `law_..` state what holds across calls: what a script leaves untouched, what
  one call undoes of another, and what the registers hold afterwards.
- `tests/` runs the library against a register file and against model parts.
- `app/` holds what touches the machine: volatile access, the fault handler, the vector table,
  critical sections, interrupt handlers, and the `embedded-hal` and `embedded-io` traits.
