use vstd::prelude::*;

use crate::card::Card;
use crate::errors::KernelError;

verus! {

/// The hardware below the registry that reads, writes and senses physical cards, such as
/// an NFC reader/writer.
pub trait Kernel: Send + Sync + 'static {
    /// The live state of the physical card `card`.
    fn read(&self, card: u16) -> (r: Result<&Card, KernelError>)
        ensures
            match r {
                Ok(c) => c@.0 == card,
                Err(e) => e is Read,
            },
    ;

    /// The live state of the physical card `card`, to be changed.
    fn read_mut(&mut self, card: u16) -> (r: Result<&mut Card, KernelError>)
        ensures
            r matches Err(e) ==> e is Read,
    ;

    /// Sends `data` to the physical card `card`.
    fn write(&self, card: &Card, data: &[u8]) -> (r: Result<(), KernelError>)
        ensures
            r matches Err(e) ==> e is Write,
    ;

    /// Polls for cards in range.
    fn sense(&self);
}

/// The message of every failure of [`SystemBase`].
pub const NO_HARDWARE: &'static str = "no card hardware is attached";

/// The code of every failure of [`SystemBase`].
pub const NO_HARDWARE_CODE: u16 = 0;

/// A kernel with no hardware behind it: reads and writes fail, sensing finds nothing.
#[derive(Debug, Copy, Clone)]
pub struct SystemBase;

impl SystemBase {
    /// The one instance.
    #[allow(non_upper_case_globals)]
    pub const Global: SystemBase = SystemBase;
}

#[allow(unused_variables)]
impl Kernel for SystemBase {
    fn read(&self, card: u16) -> (r: Result<&Card, KernelError>) {
        Err(KernelError::Read { message: NO_HARDWARE, code: NO_HARDWARE_CODE })
    }

    fn read_mut(&mut self, card: u16) -> (r: Result<&mut Card, KernelError>) {
        Err(KernelError::Read { message: NO_HARDWARE, code: NO_HARDWARE_CODE })
    }

    fn write(&self, card: &Card, data: &[u8]) -> (r: Result<(), KernelError>) {
        Err(KernelError::Write { message: NO_HARDWARE, code: NO_HARDWARE_CODE })
    }

    fn sense(&self) {
    }
}

} // verus!
