# i2c_wasm_components

Device logic for I2C peripherals on a Raspberry Pi, written in Verus and
verified.

- `src/` is the library. Each device routine returns the exact list of bus
  operations (`bus::BusOp`: one- or two-byte writes and pauses) that drives
  the device, with a contract that states that list.
  - `lcd`: HD44780 character LCD behind a PCF8574 backpack, in 4-bit mode.
    A model of the controller (`received`) and the laws
    `lemma_transfer_received`, `lemma_write_message_received` and
    `lemma_write_message_frames` state that the
    controller receives exactly the bytes that were written, in
    well-formed frames.
  - `segment`, `counter`, `clock`: a four-digit seven-segment display, the
    incrementing counter, and the `HHMM` clock face.
  - `sensor`, `decimal`: the text reports of HTS221 readings.
  - `guest`, `host`: which guest component the host runs and how it loads
    it, and the host's answers to a guest's I2C reads and writes.
- `app/` is the program that performs those operations on `/dev/i2c-1`
  and reads the clock and the sensor.
- `tests/` runs the library on concrete inputs.
