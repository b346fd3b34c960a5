//! DSP configuration file.
//!
//! A human-readable, INI-like file is parsed into a [`DspConfigFile`], which is
//! converted to a [`DspConfig`] for programming the amplifier.

pub mod flash;
pub mod number;
pub mod pairs;
pub mod parser;

use vstd::prelude::*;

use crate::drivers::tas5830::{
    BiquadCoeffs, ChannelVolume, DspConfig, FilterType, Gain923, MixerGains, MixerMode,
};
use pairs::{new_pairs, pairs_slice};

verus! {

/// Fully parsed configuration file.
pub struct DspConfigFile {
    /// 24-band EQ: bands 0 to 11 are tweeter/left, 12 to 23 woofer/right.
    pub eq_bands: [FilterType; 24],
    /// Whether EQ processing is bypassed.
    pub eq_bypass: bool,
    /// Mixer mode preset.
    pub mixer: MixerMode,
    /// Custom mixer gains, which override the mode.
    pub mixer_gains: Option<MixerGains>,
    /// Tweeter/left volume in dB.
    pub channel_volume_left_db: i16,
    /// Woofer/right volume in dB.
    pub channel_volume_right_db: i16,
    /// Master digital volume register value.
    pub digital_volume: u8,
    /// Analog gain (0 to 31).
    pub analog_gain: u8,
    /// Sample rate in Hz.
    pub sample_rate: u32,
    /// Raw processing register pairs.
    pub processing: heapless::Vec<(u8, u8), 512>,
}

/// The contents of a configuration file.
#[verifier::ext_equal]
pub struct ConfigModel {
    pub eq_bands: Seq<FilterType>,
    pub eq_bypass: bool,
    pub mixer: MixerMode,
    pub mixer_gains: Option<MixerGains>,
    pub left_db: i16,
    pub right_db: i16,
    pub digital_volume: u8,
    pub analog_gain: u8,
    pub sample_rate: u32,
    pub processing: Seq<(u8, u8)>,
}

impl ConfigModel {
    /// The configuration of an empty file.
    pub open spec fn initial() -> ConfigModel {
        ConfigModel {
            eq_bands: Seq::new(24, |i: int| FilterType::Bypass),
            eq_bypass: false,
            mixer: MixerMode::Stereo,
            mixer_gains: None,
            left_db: 0,
            right_db: 0,
            digital_volume: 0x30,
            analog_gain: 0,
            sample_rate: 96_000,
            processing: Seq::empty(),
        }
    }

    /// The mixer gains in force.
    pub open spec fn gains(self) -> MixerGains {
        match self.mixer_gains {
            Some(gains) => gains,
            None => self.mixer.gains(),
        }
    }
}

impl View for DspConfigFile {
    type V = ConfigModel;

    open spec fn view(&self) -> ConfigModel {
        ConfigModel {
            eq_bands: self.eq_bands@,
            eq_bypass: self.eq_bypass,
            mixer: self.mixer,
            mixer_gains: self.mixer_gains,
            left_db: self.channel_volume_left_db,
            right_db: self.channel_volume_right_db,
            digital_volume: self.digital_volume,
            analog_gain: self.analog_gain,
            sample_rate: self.sample_rate,
            processing: pairs::pairs_of(self.processing),
        }
    }
}

impl Default for DspConfigFile {
    fn default() -> (config: Self)
        ensures
            config@ == ConfigModel::initial(),
    {
        let config = DspConfigFile {
            eq_bands: FilterType::bypassed(),
            eq_bypass: false,
            mixer: MixerMode::Stereo,
            mixer_gains: None,
            channel_volume_left_db: 0,
            channel_volume_right_db: 0,
            digital_volume: 0x30,
            analog_gain: 0,
            sample_rate: 96_000,
            processing: new_pairs(),
        };
        assert(config@ =~= ConfigModel::initial());
        config
    }
}

impl DspConfigFile {
    /// Converts to the configuration of the amplifier. `computed` holds the
    /// coefficients of the bands' filters at the sample rate; a bypassed band
    /// is passed through whatever stands there.
    pub fn to_dsp_config(&self, computed: &[BiquadCoeffs; 24]) -> (config: DspConfig)
        ensures
            forall|i: int|
                0 <= i < 24 ==> #[trigger] config.eq_bands@[i] == if self@.eq_bands[i]
                    == FilterType::Bypass {
                    BiquadCoeffs::identity()
                } else {
                    computed@[i]
                },
            config.eq_bypass == self@.eq_bypass,
            config.mixer == self@.gains(),
            config.channel_volume.left.0 == crate::drivers::tas5830::dsp::gain_of_db(
                self@.left_db as int,
            ),
            config.channel_volume.right.0 == crate::drivers::tas5830::dsp::gain_of_db(
                self@.right_db as int,
            ),
            config.digital_volume == self@.digital_volume,
            config.analog_gain == self@.analog_gain,
            config.processing@ == self@.processing,
    {
        let mut eq_bands: [BiquadCoeffs; 24] = *computed;
        let mut i: usize = 0;
        while i < 24
            invariant
                i <= 24,
                forall|j: int|
                    0 <= j < 24 ==> #[trigger] eq_bands@[j] == if j < i && self@.eq_bands[j]
                        == FilterType::Bypass {
                        BiquadCoeffs::identity()
                    } else {
                        computed@[j]
                    },
            decreases 24 - i,
        {
            if self.eq_bands[i] == FilterType::Bypass {
                eq_bands[i] = BiquadCoeffs::passthrough();
            }
            i = i + 1;
        }
        let mixer: MixerGains = match self.mixer_gains {
            Some(gains) => gains,
            None => self.mixer.to_gains(),
        };
        let slice: &[(u8, u8)] = pairs_slice(&self.processing);
        let mut processing: Vec<(u8, u8)> = Vec::new();
        let mut k: usize = 0;
        while k < slice.len()
            invariant
                k <= slice@.len(),
                processing@ =~= slice@.take(k as int),
            decreases slice@.len() - k,
        {
            processing.push(slice[k]);
            k = k + 1;
        }
        assert(processing@ =~= slice@);
        DspConfig {
            eq_bands,
            eq_bypass: self.eq_bypass,
            mixer,
            channel_volume: ChannelVolume {
                left: Gain923::from_db(self.channel_volume_left_db),
                right: Gain923::from_db(self.channel_volume_right_db),
            },
            digital_volume: self.digital_volume,
            analog_gain: self.analog_gain,
            processing,
        }
    }
}

/// The configuration in force: that of the stored file, or of the `fallback`
/// if none is stored.
pub fn load_config(stored: Option<&[u8]>, fallback: &[u8]) -> (config: DspConfigFile)
    ensures
        config@ == parser::parsed(
            match stored {
                Some(data) => data@,
                None => fallback@,
            },
        ),
{
    let data: &[u8] = match stored {
        Some(data) => data,
        None => fallback,
    };
    match parser::parse(data) {
        Ok(config) => config,
        Err(_) => DspConfigFile::default(),
    }
}

/// What the amplifier is given: the computed coefficients of every band but those
/// that are bypassed, the mixer gains in force and the levels as gains, left as left
/// and right as right.
pub proof fn law_conversion(
    file: DspConfigFile,
    computed: [BiquadCoeffs; 24],
    config: DspConfig,
    i: int,
)
    requires
        0 <= i < 24,
        call_ensures(DspConfigFile::to_dsp_config, (&file, &computed), config),
    ensures
        file@.eq_bands[i] is Bypass ==> config.eq_bands@[i] == BiquadCoeffs::identity(),
        !(file@.eq_bands[i] is Bypass) ==> config.eq_bands@[i] == computed@[i],
        config.eq_bypass == file.eq_bypass,
        file.mixer_gains is Some ==> config.mixer == file.mixer_gains->0,
        file.mixer_gains is None ==> config.mixer == file.mixer.gains(),
        config.channel_volume.left.0 == crate::drivers::tas5830::dsp::gain_of_db(
            file.channel_volume_left_db as int,
        ),
        config.channel_volume.right.0 == crate::drivers::tas5830::dsp::gain_of_db(
            file.channel_volume_right_db as int,
        ),
        config.digital_volume == file.digital_volume,
        config.analog_gain == file.analog_gain,
        config.processing@ == file@.processing,
{
}

/// A stored file is preferred to the fallback.
pub proof fn law_loading(stored: Option<&[u8]>, fallback: &[u8], config: DspConfigFile)
    requires
        call_ensures(load_config, (stored, fallback), config),
    ensures
        stored is Some ==> config@ == parser::parsed((stored->0)@),
        stored is None ==> config@ == parser::parsed(fallback@),
{
}

} // verus!
