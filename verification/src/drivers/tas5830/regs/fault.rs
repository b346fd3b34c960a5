//! Fault register bit masks.

use vstd::prelude::*;

verus! {

// CHAN_FAULT (0x70)
pub const RIGHT_OC: u8 = 1 << 0;
pub const RIGHT_DC: u8 = 1 << 1;
pub const LEFT_OC: u8 = 1 << 2;
pub const LEFT_DC: u8 = 1 << 3;

// GLOBAL_FAULT1 (0x71)
pub const PVDD_UV: u8 = 1 << 0;
pub const PVDD_OV: u8 = 1 << 1;
pub const CLOCK: u8 = 1 << 2;
pub const EEPROM_CRC: u8 = 1 << 3;
pub const BQ_WRITE: u8 = 1 << 4;
pub const OTP_CRC: u8 = 1 << 5;

// GLOBAL_FAULT2 (0x72)
pub const THERMAL_SD: u8 = 1 << 0;
pub const THERMAL_CBC: u8 = 1 << 1;

// OT_WARNING (0x73)
pub const OT_112C: u8 = 1 << 0;
pub const OT_122C: u8 = 1 << 1;
pub const OT_134C: u8 = 1 << 2;
pub const OT_146C: u8 = 1 << 3;

} // verus!
