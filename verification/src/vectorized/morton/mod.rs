//! The `morton` scheme over slices.
pub mod conversion;
pub mod hierarchy;
