use vstd::prelude::*;

verus! {

/// One step of work on an I2C bus, as the devices of this crate issue them.
#[derive(Clone, Copy, Debug, PartialEq, Eq, Structural)]
pub enum BusOp {
    /// A transaction that writes one byte to the peripheral at `address`.
    Write1 { address: u16, byte: u8 },
    /// A transaction that writes two bytes, `first` then `second`, to the
    /// peripheral at `address`.
    Write2 { address: u16, first: u8, second: u8 },
    /// A pause of `ns` nanoseconds before the next operation.
    DelayNs { ns: u32 },
}

} // verus!
