//! Build-time configuration library for a K20-family microcontroller board.
//!
//! The heart of the crate is the USB descriptor compiler under
//! [`k20::usbdescriptors`]: it turns an in-memory tree of USB device,
//! configuration, interface, endpoint and CDC functional descriptors into
//! the exact binary descriptor records the USB 2.0 and CDC 1.2
//! specifications prescribe, together with two hardware artifacts derived
//! from the same tree: the buffer-descriptor-table size and the per-endpoint
//! register configuration.

use vstd::prelude::*;

pub mod builder;
pub mod hal;
pub mod k20;
pub mod seq_util;
pub mod target;
pub mod util;

pub use builder::McuType;
pub use util::Bytes;

verus! {

/// The entry point of a build script: a fresh build configuration for a
/// K20-family microcontroller.
pub fn start(mcu: McuType) -> (r: builder::BuilderConfig)
    ensures
        r.wf(),
        r.mcu_class is K20,
        r.mcu_type == mcu,
        r.target is Thumbv7em,
        r.cargo_config,
        r.user_startup_function is None,
        r.init_function is Some,
        r.init_function->0.is_default(),
        r.src_generated_rs@.len() == 1,
        r.src_generated_rs@[0]@ == "#![allow(dead_code)]\n"@,
        !r.called_mcu,
        !r.executed,
{
    builder::BuilderConfig::new(builder::McuClass::K20, mcu)
}

} // verus!
