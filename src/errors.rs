use vstd::prelude::*;

verus! {

/// A byte buffer that does not hold a card, with the buffer itself for diagnostics.
#[derive(Debug, Copy, Clone)]
pub struct ConversionError<'a> {
    pub message: &'a str,
    pub bytes: &'a [u8],
}

impl<'a> ConversionError<'a> {
    /// An error with `message` about `bytes`.
    pub fn new(message: &'a str, bytes: &'a [u8]) -> (r: Self)
        ensures
            r.message == message,
            r.bytes == bytes,
    {
        ConversionError { message, bytes }
    }
}

/// A failure reported by a card reader/writer.
#[derive(Debug, Copy, Clone)]
pub enum KernelError<'a> {
    /// Writing to a physical card failed.
    Write { message: &'a str, code: u16 },
    /// Reading a physical card failed.
    Read { message: &'a str, code: u16 },
    /// No particular failure.
    Unspecified,
}

} // verus!
