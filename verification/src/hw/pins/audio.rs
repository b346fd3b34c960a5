//! Audio configuration.

use vstd::prelude::*;

verus! {

/// I2S output sample rate in Hz.
pub const SAMPLE_RATE: u32 = 96_000;

/// USB audio input sample rate in Hz.
pub const USB_SAMPLE_RATE: u32 = 96_000;

/// Bit depth per channel.
pub const BIT_DEPTH: u8 = 32;

/// Number of channels.
pub const CHANNELS: u8 = 2;

/// I2S bit clock frequency: sample rate, bit depth and channels multiplied.
pub const BCLK_FREQ: u32 = 6_144_000;

/// S/PDIF biphase coding runs at 128 times the sample rate.
pub const SPDIF_BCLK_FREQ: u32 = 12_288_000;

/// The clock frequencies follow from the stream format.
pub proof fn law_clock_frequencies()
    ensures
        BCLK_FREQ == SAMPLE_RATE * BIT_DEPTH * CHANNELS,
        SPDIF_BCLK_FREQ == SAMPLE_RATE * 128,
{
}

} // verus!
