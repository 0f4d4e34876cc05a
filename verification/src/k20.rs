//! K20-specific parts of the builder: the USB descriptor compiler, the
//! microcontroller parameter tables and the MCU-specific configuration.

use vstd::prelude::*;

pub mod builder;
pub mod predefined;
pub mod types;
pub mod usb;
pub mod usbdescriptors;
pub mod usbserial;

pub use builder::EEESplit;

use crate::target::Target;

verus! {

/// The instruction-set target of the K20 family.
pub fn get_target() -> (r: Target)
    ensures
        r is Thumbv7em,
{
    Target::Thumbv7em
}

} // verus!
