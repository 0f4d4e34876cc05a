//! The cross-compilation targets the builder can emit a cargo
//! configuration for.

use vstd::prelude::*;

verus! {

pub const CARGOCONFIG_THUMBV7M: &'static str = r#"
[build]
target = "thumbv7m-none-eabi"

[target.thumbv7m-none-eabi]
linker = "arm-none-eabi-gcc"
ar = "arm-none-eabi-ar"
rustflags = [
    "-C",
    "link-arg=-Tlayout.ld",
]
"#;

pub const CARGOCONFIG_THUMBV7EM: &'static str = r#"
[build]
target = "thumbv7em-none-eabi"

[target.thumbv7em-none-eabi]
linker = "arm-none-eabi-gcc"
ar = "arm-none-eabi-ar"
rustflags = [
    "-C",
    "link-arg=-Tlayout.ld",
]
"#;

pub const CARGOCONFIG_THUMBV6M: &'static str = r#"
[build]
target = "thumbv6m-none-eabi"

[target.thumbv6m-none-eabi]
rustflags = [
    "-C",
    "link-arg=-Tlayout.ld",
]
linker = "arm-none-eabi-gcc"
ar = "arm-none-eabi-ar"
"#;

/// An ARM Cortex-M instruction-set target.
#[derive(Clone, Copy)]
pub enum Target {
    Thumbv6m,
    Thumbv7em,
    Thumbv7m,
}

impl Target {
    /// The cargo configuration text for this target.
    pub fn cargo_config(&self) -> (r: &'static str)
        ensures
            r@ == match *self {
                Target::Thumbv6m => CARGOCONFIG_THUMBV6M@,
                Target::Thumbv7em => CARGOCONFIG_THUMBV7EM@,
                Target::Thumbv7m => CARGOCONFIG_THUMBV7M@,
            },
    {
        match self {
            Target::Thumbv6m => CARGOCONFIG_THUMBV6M,
            Target::Thumbv7em => CARGOCONFIG_THUMBV7EM,
            Target::Thumbv7m => CARGOCONFIG_THUMBV7M,
        }
    }
}

} // verus!
