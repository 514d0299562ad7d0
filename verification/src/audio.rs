//! Audio input: device choice and rate conversion.

pub mod device;
pub mod resample;
