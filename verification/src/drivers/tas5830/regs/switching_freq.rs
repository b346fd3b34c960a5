//! Switching frequency (bits 6:4 of the device control 1 register).

use vstd::prelude::*;

verus! {

pub const F_768K: u8 = 0 << 4;
pub const F_384K: u8 = 1 << 4;
pub const F_480K: u8 = 2 << 4;
pub const F_576K: u8 = 3 << 4;

} // verus!
