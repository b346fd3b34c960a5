//! Control logic of the OtterAmp DSP smart speaker.
pub mod audio;
pub mod bytes;
pub mod collections;
pub mod config;
pub mod control;
pub mod drivers;
pub mod gui;
pub mod hw;
pub mod storage;
pub mod usb;
pub mod usb_msc;
