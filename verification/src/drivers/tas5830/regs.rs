//! TAS5830 register map and DSP memory layout.
//!
//! Control-port registers (book 0, page 0) and the DSP coefficient RAM
//! locations for EQ, mixer and channel volume.
pub mod fault;
pub mod modulation;
pub mod switching_freq;

use vstd::prelude::*;

verus! {

// Control port: Book 0, Page 0

/// Page select register - present on every page
pub const PAGE_SELECT: u8 = 0x00;

/// Reset / clock control
pub const RESET_CTRL: u8 = 0x01;

/// Device control 1 - modulation, bridge, switching frequency
pub const DEVICE_CTRL_1: u8 = 0x02;

/// Device control 2 - state machine + soft mute
///
/// Bits \[1:0\]: 0 = Deep Sleep, 1 = Sleep, 2 = Hi-Z, 3 = Play
/// Bit 0 of the mute field: 1 = muted
pub const DEVICE_CTRL_2: u8 = 0x03;

/// S/PDIF-out select (post/pre DSP)
pub const SDOUT_SEL: u8 = 0x30;

/// Clock detection status
pub const CLKDET_STATUS: u8 = 0x39;

/// Master digital volume (0.5 dB/step, 0x00 = 0 dB, 0xFF = -127.5 dB)
pub const DIG_VOL: u8 = 0x4C;

/// Auto-mute timing
pub const AUTO_MUTE_TIME: u8 = 0x51;

/// Analog control
pub const ANA_CTRL: u8 = 0x53;

/// Analog gain (bits 4:0, 0.5 dB/step, 0 = 0 dB, 31 = -15.5 dB)
pub const AGAIN: u8 = 0x54;

/// DSP misc - bit 0: EQ/biquad bypass on TAS5805M-compatible chips
pub const DSP_MISC: u8 = 0x66;

/// Die ID (read-only)
pub const DIE_ID: u8 = 0x67;

/// Power state (read-only, bits 1:0)
pub const POWER_STATE: u8 = 0x68;

/// Channel fault status
pub const CHAN_FAULT: u8 = 0x70;

/// Global fault 1
pub const GLOBAL_FAULT1: u8 = 0x71;

/// Global fault 2
pub const GLOBAL_FAULT2: u8 = 0x72;

/// Over-temperature warning
pub const OT_WARNING: u8 = 0x73;

/// Clear-fault register (write 0x80 to clear)
pub const CLEAR_FAULT: u8 = 0x78;

/// Book select - always at 0x7F on page 0
pub const BOOK_SELECT: u8 = 0x7F;

// DSP Books

/// Book 0 - control port (default)
pub const BOOK_CTRL: u8 = 0x00;

/// Book 0x8C - mixer, channel volume, crossover, DRC
pub const BOOK_AUDIO: u8 = 0x8C;

/// Book 0xAA - EQ biquad coefficient RAM
pub const BOOK_EQ: u8 = 0xAA;

// Input Mixer (Book 0x8C, Pages 0x09-0x0A) - TAS5830 SLUUDB4
//
// R2R crosses a page boundary: L2L/R2L/L2R are on page 0x09,
// R2R is on page 0x0A.

/// Page containing L2L, R2L, and L2R mixer gains
pub const MIXER_PAGE: u8 = 0x09;

/// Page containing R2R mixer gain (crosses page boundary from 0x09)
pub const MIXER_PAGE_R2R: u8 = 0x0A;

/// Left-to-Left gain (4 bytes, 9.23 fixed-point)
pub const MIXER_L2L: u8 = 0x74;
/// Right-to-Left gain
pub const MIXER_R2L: u8 = 0x78;
/// Left-to-Right gain
pub const MIXER_L2R: u8 = 0x7C;
/// Right-to-Right gain (on MIXER_PAGE_R2R, not MIXER_PAGE!)
pub const MIXER_R2R: u8 = 0x08;

// Channel volume (Book 0x8C, Page 0x06) - TAS5830 SLUUDB4

/// Page containing per-channel volume
pub const CHAN_VOL_PAGE: u8 = 0x06;

/// Left channel volume (4 bytes, 9.23 fixed-point)
pub const CHAN_VOL_LEFT: u8 = 0x64;
/// Right channel volume
pub const CHAN_VOL_RIGHT: u8 = 0x68;

// EQ biquad RAM (Book 0xAA) - TAS5830 SLUUDB4
//
// Two independent EQ banks of 12 biquads each:
//   - Tweeter / Left:  Pages 0x01-0x03 (BQ1 @ Page 0x01 reg 0x30)
//   - Woofer  / Right: Pages 0x03-0x05 (BQ1 @ Page 0x03 reg 0x30)
//
// Layout is identical for PF2/3/6/7 (stereo/mono 96kHz) and PF9 (1.1 96kHz).

/// Number of EQ biquads per channel (tweeter/left or woofer/right)
pub const EQ_BANDS_PER_CHANNEL: u8 = 12;

/// Total EQ biquad bands (12 tweeter/left + 12 woofer/right)
pub const EQ_BAND_COUNT: u8 = 24;

/// Bytes per biquad (5 coefficients x 4 bytes)
pub const BIQUAD_SIZE: u16 = 20;

/// First EQ page (tweeter/left channel)
pub const EQ_PAGE_FIRST: u8 = 0x01;

/// First register on the first EQ page of each channel
pub const EQ_REG_FIRST: u8 = 0x30;

/// First register on continuation pages
pub const EQ_REG_CONT: u8 = 0x08;

/// Usable bytes on the first EQ page (0x30..=0x7F)
pub const EQ_FIRST_PAGE_BYTES: u16 = 80;

/// Usable bytes on continuation EQ pages (0x08..=0x7F)
pub const EQ_CONT_PAGE_BYTES: u16 = 120;

/// Page offset between left/tweeter and right/woofer EQ banks.
/// Woofer/right EQ starts at EQ_PAGE_FIRST + EQ_CHANNEL_PAGE_OFFSET.
pub const EQ_CHANNEL_PAGE_OFFSET: u8 = 2;

/// Offset of a coefficient in its channel's bank.
pub open spec fn eq_byte_offset(band: int, coeff: int) -> int {
    (if band < 12 {
        band
    } else {
        band - 12
    }) * 20 + coeff * 4
}

/// First page of the bank that holds a band.
pub open spec fn eq_first_page(band: int) -> int {
    if band < 12 {
        1
    } else {
        3
    }
}

/// Page and register of a coefficient: a bank starts at register 0x30 of its
/// first page and goes on at register 0x08 of each following page.
pub open spec fn eq_location(band: int, coeff: int) -> (u8, u8) {
    let offset = eq_byte_offset(band, coeff);
    if offset < 80 {
        (eq_first_page(band) as u8, (0x30 + offset) as u8)
    } else {
        (
            (eq_first_page(band) + 1 + (offset - 80) / 120) as u8,
            (0x08 + (offset - 80) % 120) as u8,
        )
    }
}

/// Computes page and start register of a biquad coefficient.
///
/// `band` is 0 to 23 (12 tweeter/left, then 12 woofer/right), `coeff` 0 to 4
/// (b0, b1, b2, a1, a2). Each coefficient takes 4 consecutive bytes.
pub fn eq_coeff_location(band: u8, coeff: u8) -> (location: (u8, u8))
    ensures
        location == eq_location(band as int, coeff as int),
{
    let second: bool = band >= EQ_BANDS_PER_CHANNEL;
    let channel_page_offset: u8 = if second {
        EQ_CHANNEL_PAGE_OFFSET
    } else {
        0
    };
    let local_band: u8 = if second {
        band - EQ_BANDS_PER_CHANNEL
    } else {
        band
    };
    let byte_offset: u16 = local_band as u16 * BIQUAD_SIZE + coeff as u16 * 4;
    if byte_offset < EQ_FIRST_PAGE_BYTES {
        (EQ_PAGE_FIRST + channel_page_offset, EQ_REG_FIRST + byte_offset as u8)
    } else {
        let remaining: u16 = byte_offset - EQ_FIRST_PAGE_BYTES;
        let page: u8 = EQ_PAGE_FIRST + channel_page_offset + 1 + (remaining
            / EQ_CONT_PAGE_BYTES) as u8;
        let reg: u8 = EQ_REG_CONT + (remaining % EQ_CONT_PAGE_BYTES) as u8;
        (page, reg)
    }
}

/// Every coefficient lies whole on its page, clear of the page and book select
/// registers.
pub proof fn law_eq_locations_fit(band: u8, coeff: u8)
    requires
        band < 24,
        coeff < 5,
    ensures
        ({
            let (page, reg) = eq_location(band as int, coeff as int);
            &&& 1 <= page <= 5
            &&& 0x08 <= reg
            &&& reg + 3 <= 0x7F
            &&& reg % 4 == 0
        }),
{
}

/// No two coefficients share a location.
pub proof fn law_eq_locations_distinct(band: u8, coeff: u8, other_band: u8, other_coeff: u8)
    requires
        band < 24,
        coeff < 5,
        other_band < 24,
        other_coeff < 5,
        eq_location(band as int, coeff as int) == eq_location(
            other_band as int,
            other_coeff as int,
        ),
    ensures
        band == other_band,
        coeff == other_coeff,
{
    lemma_bank_of_page(band as int, coeff as int);
    lemma_bank_of_page(other_band as int, other_coeff as int);
}

/// The first bank ends on page 3 before the register at which the second
/// begins.
proof fn lemma_bank_of_page(band: int, coeff: int)
    requires
        0 <= band < 24,
        0 <= coeff < 5,
    ensures
        ({
            let (page, reg) = eq_location(band, coeff);
            &&& band < 12 <==> page < 3 || page == 3 && reg < 0x30
        }),
{
}

/// Within a bank the coefficients lie one behind the other: the next one is four
/// registers further on, or at register 0x08 of the next page if the page ends at
/// 0x7F. The banks start at register 0x30 of pages 1 and 3.
pub proof fn law_eq_banks_are_contiguous(band: int, coeff: int)
    requires
        0 <= band < 24,
        0 <= coeff < 5,
        coeff < 4 || band % 12 != 11,
    ensures
        ({
            let (page, reg) = eq_location(band, coeff);
            let next = if coeff < 4 {
                eq_location(band, coeff + 1)
            } else {
                eq_location(band + 1, 0)
            };
            if reg + 4 < 0x80 {
                next == (page, (reg + 4) as u8)
            } else {
                next == ((page + 1) as u8, 0x08u8)
            }
        }),
        eq_location(0, 0) == (1u8, 0x30u8),
        eq_location(12, 0) == (3u8, 0x30u8),
{
}

/// The second bank is the first one two pages further on.
pub proof fn law_eq_banks_alike(band: int, coeff: int)
    requires
        0 <= band < 12,
        0 <= coeff < 5,
    ensures
        eq_location(band + 12, coeff).0 == eq_location(band, coeff).0 + 2,
        eq_location(band + 12, coeff).1 == eq_location(band, coeff).1,
{
}

/// Where a coefficient is: the 60 of the first twelve bands lie one behind the
/// other from register 0x30 of page 1 on, the 60 of the others from register 0x30
/// of page 3 on, four registers each. A page has 30 of them, the first 20.
pub proof fn law_coefficient_places(band: u8, coeff: u8, location: (u8, u8))
    requires
        band < 24,
        coeff < 5,
        call_ensures(eq_coeff_location, (band, coeff), location),
    ensures
        band < 12 ==> 120 * (location.0 - 1) + (location.1 - 0x30) == 4 * (5 * band + coeff),
        band >= 12 ==> 120 * (location.0 - 3) + (location.1 - 0x30) == 4 * (5 * (band - 12) + coeff),
        0x08 <= location.1 <= 0x7C,
{
}

} // verus!
