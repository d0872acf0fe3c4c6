use vstd::prelude::*;

pub mod card;
pub mod errors;
pub mod kernel;
pub mod permissions;
pub mod service;
pub mod text;

pub use card::Card;
pub use errors::{ConversionError, KernelError};
pub use kernel::{Kernel, SystemBase};
pub use permissions::Permissions;
pub use service::NfcService;

verus! {

} // verus!
