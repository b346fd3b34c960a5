//! Addresses, bus speeds and audio configuration of the board.
pub mod audio;
pub mod i2c_addr;
pub mod i2c_freq;
