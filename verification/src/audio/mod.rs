//! Audio subsystem.
pub mod capture;
pub mod convert;
pub mod i2s;
pub mod output;
pub mod pipeline;
pub mod resample;
pub mod spdif;
pub mod stream;
