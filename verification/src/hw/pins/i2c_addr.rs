//! I2C addresses.

use vstd::prelude::*;

verus! {

/// SH1106 OLED display.
pub const SH1106: u8 = 0x3C;

/// TAS5830 amplifier.
pub const TAS5830: u8 = 0x60;

} // verus!
