//! Modulation mode (bits 1:0 of the device control 1 register).

use vstd::prelude::*;

verus! {

/// Both drivers switching (traditional H-bridge)
pub const BD: u8 = 0;
/// Single-ended PWM
pub const ONE_SPW: u8 = 1;
/// Adaptive hybrid
pub const HYBRID: u8 = 2;

} // verus!
