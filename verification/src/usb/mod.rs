//! USB audio.
//!
//! - Sample rate: 96 kHz
//! - Bit depth: 24-bit
//! - Channels: stereo
pub mod audio;
