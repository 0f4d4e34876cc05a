//! Ready-made configurators for known boards.

pub mod teensy;
