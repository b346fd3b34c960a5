//! I2C bus speeds.

use vstd::prelude::*;

verus! {

/// Fast mode for the OLED.
pub const OLED_HZ: u32 = 400_000;

/// Fast mode for the amplifier.
pub const AMP_HZ: u32 = 400_000;

} // verus!
