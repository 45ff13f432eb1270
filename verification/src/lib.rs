//! Verified device logic for I2C peripherals driven from WebAssembly
//! components: a HD44780 character LCD behind a PCF8574 backpack, a
//! four-digit seven-segment display, and an HTS221 humidity and
//! temperature sensor.
//!
//! The library never touches the bus itself. Every device routine computes
//! the exact sequence of bus operations (writes and pauses) that drives the
//! device, and the embedding program performs them.

pub mod bus;
pub mod clock;
pub mod counter;
pub mod decimal;
pub mod guest;
pub mod host;
pub mod lcd;
pub mod segment;
pub mod sensor;

