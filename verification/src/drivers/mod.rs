//! Device drivers.
pub mod encoder;
pub mod settings;
pub mod tas5830;
