use vstd::prelude::*;

verus! {

/// Which side of an I2C transfer failed to acknowledge.
#[derive(Clone, Copy, Debug, PartialEq, Eq, Structural)]
pub enum NoAcknowledgeSource {
    /// The peripheral did not acknowledge its address.
    Address,
    /// The peripheral did not acknowledge a data byte.
    Data,
    /// It is not known which byte was not acknowledged.
    Unknown,
}

/// The errors that the I2C interface hands back to a guest.
#[derive(Clone, Copy, Debug, PartialEq, Eq, Structural)]
pub enum ErrorCode {
    /// A bus error.
    Bus,
    /// The bus was lost to another controller.
    ArbitrationLoss,
    /// A byte was not acknowledged.
    NoAcknowledge(NoAcknowledgeSource),
    /// The peripheral sent more data than was read.
    Overrun,
    /// Any other failure of the host's I2C device.
    Other,
}

/// A zeroed buffer of `len` bytes, into which the host reads for a guest.
/// The length arrives as a `u64` and must fit in a `usize`.
pub fn read_buffer(len: u64) -> (buffer: Vec<u8>)
    requires
        len <= usize::MAX,
    ensures
        buffer@ == Seq::new(len as nat, |i: int| 0u8),
{
    let n = len as usize;
    let mut buffer: Vec<u8> = Vec::new();
    let mut i: usize = 0;
    while i < n
        invariant
            i <= n,
            n == len,
            buffer@ == Seq::new(i as nat, |j: int| 0u8),
        decreases n - i,
    {
        buffer.push(0u8);
        i = i + 1;
        assert(buffer@ =~= Seq::new(i as nat, |j: int| 0u8));
    }
    buffer
}

/// The answer to a guest's read (or write-then-read): the bytes read when
/// the host's device succeeded, and `Other` when it failed, whatever its
/// error.
pub fn read_reply<E>(outcome: Result<(), E>, data: Vec<u8>) -> (reply: Result<Vec<u8>, ErrorCode>)
    ensures
        outcome is Ok ==> reply == Ok::<Vec<u8>, ErrorCode>(data),
        outcome is Err ==> reply == Err::<Vec<u8>, ErrorCode>(ErrorCode::Other),
{
    match outcome {
        Ok(()) => Ok(data),
        Err(_) => Err(ErrorCode::Other),
    }
}

/// The answer to a guest's write: success when the host's device
/// succeeded, and `Other` when it failed, whatever its error.
pub fn write_reply<E>(outcome: Result<(), E>) -> (reply: Result<(), ErrorCode>)
    ensures
        outcome is Ok ==> reply == Ok::<(), ErrorCode>(()),
        outcome is Err ==> reply == Err::<(), ErrorCode>(ErrorCode::Other),
{
    match outcome {
        Ok(()) => Ok(()),
        Err(_) => Err(ErrorCode::Other),
    }
}

} // verus!
