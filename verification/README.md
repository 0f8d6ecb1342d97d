# mc1322x

Drivers for the MC1322x family of system-on-chips (MC13224V, MC13226V), written in Verus.

A driver here never touches the hardware. It returns the register operations and routine calls
that the chip has to perform (`port::Op`, `nvm::NvmCall`), and takes back what they read. That
leaves plain functions from values to values, whose behaviour is stated in contracts and proved.

- `src/` is the verified library: the peripherals, the radio, the timebase, the second stage
  loader's protocol and the flash algorithm. Functions named `law_...` state what holds across
  several of them, such as that decryption undoes encryption, that a frame reader undoes framing,
  or that an I2C failure always releases the bus.
- `tests/` runs the library on concrete values.
- `app/` performs the operations on the chip, handles its interrupts, and implements the traits of
  the embedded ecosystem on top.
