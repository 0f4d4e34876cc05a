//! K20-specific hardware value models.

pub mod usb;
