//! TAS5830 Class-D amplifier driver with DSP control.
//!
//! The driver decides which register accesses program the amplifier; the
//! caller performs them on the I2C bus, in order, and stops at the first that
//! fails.
//!
//! The boot sequence has two phases:
//!
//! 1. [`Tas5830::init`]: power up and reset, before the I2S clocks run
//! 2. [`Tas5830::play_setup`], [`Tas5830::play_start`] and [`PlayMonitor`]: DSP
//!    programming and the transition to Play, once the I2S clocks run

pub mod bus;
pub mod dsp;
pub mod regs;

use vstd::prelude::*;

pub use bus::BusOp;
pub use dsp::{
    BiquadCoeffs, ChannelVolume, Decimal, FaultStatus, FilterType, Gain923, MixerGains, MixerMode,
};

use bus::{append, book_page, registers};

verus! {

/// I2C address of the amplifier.
pub const DEFAULT_ADDRESS: u8 = crate::hw::pins::i2c_addr::TAS5830;

/// Polls of the power state before Play is requested once more.
pub const PLAY_ATTEMPTS: u8 = 10;

/// Lowest digital volume that counts as audible.
pub const SILENT_VOLUME: u8 = 0xCF;

/// Power state.
#[derive(Debug, Clone, Copy, PartialEq, Eq, Structural)]
pub enum PowerState {
    DeepSleep,
    Sleep,
    HiZ,
    Play,
    Unknown(u8),
}

/// The power state in the lower two bits of the register.
pub open spec fn power_state_of(val: u8) -> PowerState {
    if val % 4 == 0 {
        PowerState::DeepSleep
    } else if val % 4 == 1 {
        PowerState::Sleep
    } else if val % 4 == 2 {
        PowerState::HiZ
    } else {
        PowerState::Play
    }
}

impl From<u8> for PowerState {
    fn from(val: u8) -> (state: Self) {
        let bits: u8 = val % 4;
        if bits == 0 {
            PowerState::DeepSleep
        } else if bits == 1 {
            PowerState::Sleep
        } else if bits == 2 {
            PowerState::HiZ
        } else {
            PowerState::Play
        }
    }
}

impl vstd::std_specs::convert::FromSpecImpl<u8> for PowerState {
    open spec fn obeys_from_spec() -> bool {
        true
    }

    open spec fn from_spec(val: u8) -> PowerState {
        power_state_of(val)
    }
}

/// Driver error.
#[derive(Debug)]
pub enum Error<E> {
    /// I2C bus error.
    I2c(E),
    /// EQ band index out of range.
    InvalidBand,
}

impl<E> From<E> for Error<E> {
    fn from(e: E) -> (error: Self) {
        Error::I2c(e)
    }
}

impl<E> vstd::std_specs::convert::FromSpecImpl<E> for Error<E> {
    open spec fn obeys_from_spec() -> bool {
        true
    }

    open spec fn from_spec(e: E) -> Error<E> {
        Error::I2c(e)
    }
}

/// Volume register value for a percentage on the loudness curve: 0x00 is 0 dB,
/// 0xCF is silence.
pub open spec fn volume_reg(scaled_percent: u8) -> u8 {
    if scaled_percent >= 100 {
        0
    } else {
        (0xCF - scaled_percent * 0xCF / 100) as u8
    }
}

/// Percentage that a volume register value stands for.
pub open spec fn volume_percent(volume: u8) -> u8 {
    if volume >= 0xCF {
        0
    } else {
        ((0xCF - volume) * 100 / 0xCF) as u8
    }
}

/// Converts a percentage on the loudness curve to a volume register value.
pub fn scaled_percent_to_reg(scaled_percent: u8) -> (reg: u8)
    ensures
        reg == volume_reg(scaled_percent),
{
    if scaled_percent >= 100 {
        0x00
    } else {
        SILENT_VOLUME - ((scaled_percent as u16 * 0xCF) / 100) as u8
    }
}

/// Complete DSP configuration.
pub struct DspConfig {
    /// 24-band parametric EQ: 12 tweeter/left, then 12 woofer/right.
    pub eq_bands: [BiquadCoeffs; 24],
    /// Whether EQ processing is bypassed.
    pub eq_bypass: bool,
    pub mixer: MixerGains,
    pub channel_volume: ChannelVolume,
    /// Master digital volume (0x00 = 0 dB to 0xFF = -127.5 dB).
    pub digital_volume: u8,
    /// Analog gain (0 to 31, 0.5 dB/step, 0 = 0 dB).
    pub analog_gain: u8,
    /// Raw processing coefficients: register and value pairs with their book
    /// and page switches.
    pub processing: Vec<(u8, u8)>,
}

impl DspConfig {
    /// Flat passthrough: no EQ, stereo mixer, -24 dB volume, no processing.
    pub fn default() -> (config: Self)
        ensures
            config.eq_bands@ == Seq::new(24, |i: int| BiquadCoeffs::identity()),
            !config.eq_bypass,
            config.mixer == MixerMode::Stereo.gains(),
            config.channel_volume == (ChannelVolume {
                left: Gain923(dsp::GAIN_ONE),
                right: Gain923(dsp::GAIN_ONE),
            }),
            config.digital_volume == 0x30,
            config.analog_gain == 0,
            config.processing@ == Seq::<(u8, u8)>::empty(),
    {
        let config = DspConfig {
            eq_bands: [BiquadCoeffs { b0: dsp::BQ_ONE, b1: 0, b2: 0, a1: 0, a2: 0 };24],
            eq_bypass: false,
            mixer: MixerGains::stereo(),
            channel_volume: ChannelVolume::unity(),
            digital_volume: 0x30,
            analog_gain: 0,
            processing: Vec::new(),
        };
        assert(config.eq_bands@ =~= Seq::new(24, |i: int| BiquadCoeffs::identity()));
        assert(config.processing@ =~= Seq::<(u8, u8)>::empty());
        config
    }
}

/// Accesses that write one EQ band, up to coefficient `n`. The page is selected
/// where it differs from that of the coefficient before.
pub open spec fn eq_band_ops(band: int, coeffs: BiquadCoeffs, n: int) -> Seq<BusOp>
    decreases n,
{
    if n <= 0 {
        Seq::empty()
    } else {
        let (page, reg) = regs::eq_location(band, n - 1);
        let select = if n == 1 || page != regs::eq_location(band, n - 2).0 {
            bus::select(regs::BOOK_EQ, page)
        } else {
            Seq::empty()
        };
        (eq_band_ops(band, coeffs, n - 1) + select).push(
            BusOp::Word { reg, word: coeffs.word(n - 1) },
        )
    }
}

/// Accesses that write the first `n` EQ bands.
pub open spec fn eq_ops(bands: Seq<BiquadCoeffs>, n: int) -> Seq<BusOp>
    decreases n,
{
    if n <= 0 {
        Seq::empty()
    } else {
        eq_ops(bands, n - 1) + eq_band_ops(n - 1, bands[n - 1], 5)
    }
}

/// Accesses that write the mixer gains and read them back. R2R lies on a page
/// of its own.
pub open spec fn mixer_ops(gains: MixerGains) -> Seq<BusOp> {
    bus::select(regs::BOOK_AUDIO, regs::MIXER_PAGE) + seq![
        BusOp::Word { reg: regs::MIXER_L2L, word: gains.l2l.0 },
        BusOp::Word { reg: regs::MIXER_R2L, word: gains.r2l.0 },
        BusOp::Word { reg: regs::MIXER_L2R, word: gains.l2r.0 },
    ] + bus::select(regs::BOOK_AUDIO, regs::MIXER_PAGE_R2R) + seq![
        BusOp::Word { reg: regs::MIXER_R2R, word: gains.r2r.0 },
    ] + bus::select(regs::BOOK_AUDIO, regs::MIXER_PAGE) + seq![
        BusOp::Read { reg: regs::MIXER_L2L, len: 4 },
        BusOp::Read { reg: regs::MIXER_R2L, len: 4 },
        BusOp::Read { reg: regs::MIXER_L2R, len: 4 },
    ] + bus::select(regs::BOOK_AUDIO, regs::MIXER_PAGE_R2R) + seq![
        BusOp::Read { reg: regs::MIXER_R2R, len: 4 },
    ]
}

pub open spec fn channel_volume_ops(vol: ChannelVolume) -> Seq<BusOp> {
    bus::select(regs::BOOK_AUDIO, regs::CHAN_VOL_PAGE) + seq![
        BusOp::Word { reg: regs::CHAN_VOL_LEFT, word: vol.left.0 },
        BusOp::Word { reg: regs::CHAN_VOL_RIGHT, word: vol.right.0 },
    ]
}

/// A write to a control-port register.
pub open spec fn control_ops(reg: u8, value: u8) -> Seq<BusOp> {
    bus::select(regs::BOOK_CTRL, 0).push(BusOp::Reg { reg, value })
}

/// A read of a control-port register.
pub open spec fn status_ops(reg: u8) -> Seq<BusOp> {
    bus::select(regs::BOOK_CTRL, 0).push(BusOp::Read { reg, len: 1 })
}

pub open spec fn analog_gain_ops(gain: u8) -> Seq<BusOp> {
    control_ops(
        regs::AGAIN,
        if gain < 31 {
            gain
        } else {
            31
        },
    )
}

pub open spec fn read_faults_ops() -> Seq<BusOp> {
    bus::select(regs::BOOK_CTRL, 0) + seq![
        BusOp::Read { reg: regs::CHAN_FAULT, len: 1 },
        BusOp::Read { reg: regs::GLOBAL_FAULT1, len: 1 },
        BusOp::Read { reg: regs::GLOBAL_FAULT2, len: 1 },
        BusOp::Read { reg: regs::OT_WARNING, len: 1 },
    ]
}

/// Accesses that initialise the processing chain: 12 passthrough biquads in
/// each EQ bank.
pub open spec fn init_processing_ops() -> Seq<BusOp> {
    eq_ops(Seq::new(24, |i: int| BiquadCoeffs::identity()), 24)
}

/// All accesses that program the DSP, up to the transition to Play.
pub open spec fn play_setup_ops(chip_config: Seq<(u8, u8)>, config: DspConfig) -> Seq<BusOp> {
    seq![BusOp::Delay { ms: 5 }] + bus::register_ops(chip_config) + init_processing_ops()
        + bus::register_ops(config.processing@) + eq_ops(config.eq_bands@, 24) + mixer_ops(
        config.mixer,
    ) + channel_volume_ops(config.channel_volume) + control_ops(
        regs::DSP_MISC,
        if config.eq_bypass {
            1
        } else {
            0
        },
    ) + analog_gain_ops(config.analog_gain) + control_ops(regs::SDOUT_SEL, 0)
}

/// The accesses that set the volume and request Play, once the control port is
/// selected.
pub open spec fn play_start_ops(volume: u8) -> Seq<BusOp> {
    seq![BusOp::Reg { reg: regs::DIG_VOL, value: volume }] + control_ops(regs::CLEAR_FAULT, 0x80) + seq![
        BusOp::Read { reg: regs::CLKDET_STATUS, len: 1 },
        BusOp::Reg { reg: regs::DEVICE_CTRL_2, value: 3 },
    ]
}

/// TAS5830 amplifier driver.
pub struct Tas5830 {
    address: u8,
    volume: u8,
    muted: bool,
}

impl Tas5830 {
    pub closed spec fn addr(self) -> u8 {
        self.address
    }

    /// The volume register value in force when not muted.
    pub closed spec fn level(self) -> u8 {
        self.volume
    }

    pub closed spec fn silent(self) -> bool {
        self.muted
    }

    pub fn new(address: u8) -> (amp: Self)
        ensures
            amp.addr() == address,
            amp.level() == 0x30,
            !amp.silent(),
    {
        Tas5830 { address, volume: 0x30, muted: false }
    }

    /// A driver for the default I2C address.
    pub fn new_default() -> (amp: Self)
        ensures
            amp.addr() == 0x60,
            amp.level() == 0x30,
            !amp.silent(),
    {
        Tas5830::new(DEFAULT_ADDRESS)
    }

    pub fn address(&self) -> (address: u8)
        ensures
            address == self.addr(),
    {
        self.address
    }

    /// Phase 1: power up, read the die ID and send the reset sequence
    /// `hardware_init`.
    pub fn init(&self, hardware_init: &[(u8, u8)]) -> (ops: Vec<BusOp>)
        ensures
            ops@ == seq![
                BusOp::PowerDownPin(true),
                BusOp::MutePin(false),
                BusOp::Delay { ms: 5 },
                BusOp::Read { reg: regs::DIE_ID, len: 1 },
            ] + bus::register_ops(hardware_init@),
    {
        let mut ops: Vec<BusOp> = Vec::new();
        ops.push(BusOp::PowerDownPin(true));
        ops.push(BusOp::MutePin(false));
        ops.push(BusOp::Delay { ms: 5 });
        ops.push(BusOp::Read { reg: regs::DIE_ID, len: 1 });
        registers(&mut ops, hardware_init);
        ops
    }

    /// Phase 2, first part: programs the DSP with the chip configuration
    /// sequence `chip_config` and `config`.
    pub fn play_setup(&self, chip_config: &[(u8, u8)], config: &DspConfig) -> (ops: Vec<BusOp>)
        ensures
            ops@ == play_setup_ops(chip_config@, *config),
    {
        let mut ops: Vec<BusOp> = Vec::new();
        ops.push(BusOp::Delay { ms: 5 });
        registers(&mut ops, chip_config);
        init_dsp_processing(&mut ops);
        registers(&mut ops, config.processing.as_slice());
        write_all_eq(&mut ops, &config.eq_bands);
        append(&mut ops, self.set_mixer(&config.mixer));
        append(&mut ops, self.set_channel_volume(&config.channel_volume));
        write_control(
            &mut ops,
            regs::DSP_MISC,
            if config.eq_bypass {
                0x01
            } else {
                0x00
            },
        );
        append(&mut ops, self.set_analog_gain(config.analog_gain));
        write_control(&mut ops, regs::SDOUT_SEL, 0x00);
        assert(ops@ =~= play_setup_ops(chip_config@, *config));
        ops
    }

    /// Phase 2, second part, once the first has succeeded: sets the volume and
    /// requests Play.
    pub fn play_start(&mut self, config: &DspConfig) -> (ops: Vec<BusOp>)
        ensures
            final(self).addr() == old(self).addr(),
            final(self).silent() == old(self).silent(),
            final(self).level() == config.digital_volume,
            ops@ == play_start_ops(config.digital_volume),
    {
        let mut ops: Vec<BusOp> = Vec::new();
        self.volume = config.digital_volume;
        ops.push(BusOp::Reg { reg: regs::DIG_VOL, value: config.digital_volume });
        append(&mut ops, self.clear_faults());
        ops.push(BusOp::Read { reg: regs::CLKDET_STATUS, len: 1 });
        ops.push(BusOp::Reg { reg: regs::DEVICE_CTRL_2, value: 0x03 });
        assert(ops@ =~= play_start_ops(config.digital_volume));
        ops
    }

    /// Sets the master digital volume (0x00 = 0 dB, 0xFF = -127.5 dB). While
    /// muted, it takes effect on unmuting.
    pub fn set_volume(&mut self, volume: u8) -> (ops: Vec<BusOp>)
        ensures
            final(self).addr() == old(self).addr(),
            final(self).silent() == old(self).silent(),
            final(self).level() == volume,
            ops@ == if old(self).silent() {
                Seq::empty()
            } else {
                control_ops(regs::DIG_VOL, volume)
            },
    {
        self.volume = volume;
        let mut ops: Vec<BusOp> = Vec::new();
        if !self.muted {
            write_control(&mut ops, regs::DIG_VOL, volume);
        }
        assert(ops@ =~= if old(self).silent() {
            Seq::empty()
        } else {
            control_ops(regs::DIG_VOL, volume)
        });
        ops
    }

    /// Sets the volume as a percentage on the loudness curve.
    pub fn set_volume_percent(&mut self, scaled_percent: u8) -> (ops: Vec<BusOp>)
        ensures
            final(self).addr() == old(self).addr(),
            final(self).silent() == old(self).silent(),
            final(self).level() == volume_reg(scaled_percent),
            ops@ == if old(self).silent() {
                Seq::empty()
            } else {
                control_ops(regs::DIG_VOL, volume_reg(scaled_percent))
            },
    {
        let volume: u8 = scaled_percent_to_reg(scaled_percent);
        self.set_volume(volume)
    }

    /// The volume as a percentage.
    pub fn get_volume_percent(&self) -> (percent: u8)
        ensures
            percent == volume_percent(self.level()),
    {
        if self.volume >= SILENT_VOLUME {
            0
        } else {
            (((SILENT_VOLUME - self.volume) as u16 * 100) / 0xCF) as u8
        }
    }

    /// Mutes by the volume register.
    pub fn mute(&mut self) -> (ops: Vec<BusOp>)
        ensures
            final(self).addr() == old(self).addr(),
            final(self).silent(),
            final(self).level() == old(self).level(),
            ops@ == control_ops(regs::DIG_VOL, 0xFF),
    {
        self.muted = true;
        let mut ops: Vec<BusOp> = Vec::new();
        write_control(&mut ops, regs::DIG_VOL, 0xFF);
        assert(ops@ =~= control_ops(regs::DIG_VOL, 0xFF));
        ops
    }

    /// Restores the volume.
    pub fn unmute(&mut self) -> (ops: Vec<BusOp>)
        ensures
            final(self).addr() == old(self).addr(),
            !final(self).silent(),
            final(self).level() == old(self).level(),
            ops@ == control_ops(regs::DIG_VOL, old(self).level()),
    {
        self.muted = false;
        let mut ops: Vec<BusOp> = Vec::new();
        write_control(&mut ops, regs::DIG_VOL, self.volume);
        assert(ops@ =~= control_ops(regs::DIG_VOL, self.volume));
        ops
    }

    pub fn is_muted(&self) -> (muted: bool)
        ensures
            muted == self.silent(),
    {
        self.muted
    }

    /// Toggles the mute state. Returns the new state and the accesses.
    pub fn toggle_mute(&mut self) -> (toggled: (bool, Vec<BusOp>))
        ensures
            final(self).addr() == old(self).addr(),
            final(self).silent() == !old(self).silent(),
            final(self).level() == old(self).level(),
            toggled.0 == final(self).silent(),
            toggled.1@ == control_ops(
                regs::DIG_VOL,
                if old(self).silent() {
                    old(self).level()
                } else {
                    0xFF
                },
            ),
    {
        if self.muted {
            let ops: Vec<BusOp> = self.unmute();
            (false, ops)
        } else {
            let ops: Vec<BusOp> = self.mute();
            (true, ops)
        }
    }

    /// Writes the coefficients of a single EQ band (0 to 23).
    pub fn set_eq_band<E>(&self, band: u8, coeffs: &BiquadCoeffs) -> (result: Result<
        Vec<BusOp>,
        Error<E>,
    >)
        ensures
            band >= 24 ==> result == Err::<Vec<BusOp>, Error<E>>(Error::InvalidBand),
            band < 24 ==> result is Ok && result->Ok_0@ == eq_band_ops(band as int, *coeffs, 5),
    {
        if band >= regs::EQ_BAND_COUNT {
            return Err(Error::InvalidBand);
        }
        let mut ops: Vec<BusOp> = Vec::new();
        write_eq_band(&mut ops, band, coeffs);
        assert(ops@ =~= eq_band_ops(band as int, *coeffs, 5));
        Ok(ops)
    }

    /// Clears all EQ bands to passthrough.
    pub fn clear_eq(&self) -> (ops: Vec<BusOp>)
        ensures
            ops@ == eq_ops(Seq::new(24, |i: int| BiquadCoeffs::identity()), 24),
    {
        let mut ops: Vec<BusOp> = Vec::new();
        let bands: [BiquadCoeffs; 24] = [BiquadCoeffs { b0: dsp::BQ_ONE, b1: 0, b2: 0, a1: 0, a2: 0 };24];
        write_all_eq(&mut ops, &bands);
        assert(bands@ =~= Seq::new(24, |i: int| BiquadCoeffs::identity()));
        assert(ops@ =~= eq_ops(bands@, 24));
        ops
    }

    /// First part of switching the EQ bypass: reads the register that holds the
    /// flag.
    pub fn read_eq_bypass(&self) -> (ops: Vec<BusOp>)
        ensures
            ops@ == status_ops(regs::DSP_MISC),
    {
        let mut ops: Vec<BusOp> = Vec::new();
        read_status(&mut ops, regs::DSP_MISC);
        assert(ops@ =~= status_ops(regs::DSP_MISC));
        ops
    }

    /// Second part: sets or clears the flag (bit 0) in the value read.
    pub fn set_eq_bypass(&self, val: u8, bypass: bool) -> (op: BusOp)
        ensures
            op == (BusOp::Reg {
                reg: regs::DSP_MISC,
                value: (val - val % 2 + if bypass {
                    1int
                } else {
                    0int
                }) as u8,
            }),
    {
        let cleared: u8 = val - val % 2;
        BusOp::Reg {
            reg: regs::DSP_MISC,
            value: if bypass {
                cleared + 1
            } else {
                cleared
            },
        }
    }

    /// Sets the mixer gains and reads them back.
    pub fn set_mixer(&self, gains: &MixerGains) -> (ops: Vec<BusOp>)
        ensures
            ops@ == mixer_ops(*gains),
    {
        let mut ops: Vec<BusOp> = Vec::new();
        book_page(&mut ops, regs::BOOK_AUDIO, regs::MIXER_PAGE);
        ops.push(BusOp::Word { reg: regs::MIXER_L2L, word: gains.l2l.0 });
        ops.push(BusOp::Word { reg: regs::MIXER_R2L, word: gains.r2l.0 });
        ops.push(BusOp::Word { reg: regs::MIXER_L2R, word: gains.l2r.0 });
        book_page(&mut ops, regs::BOOK_AUDIO, regs::MIXER_PAGE_R2R);
        ops.push(BusOp::Word { reg: regs::MIXER_R2R, word: gains.r2r.0 });
        book_page(&mut ops, regs::BOOK_AUDIO, regs::MIXER_PAGE);
        ops.push(BusOp::Read { reg: regs::MIXER_L2L, len: 4 });
        ops.push(BusOp::Read { reg: regs::MIXER_R2L, len: 4 });
        ops.push(BusOp::Read { reg: regs::MIXER_L2R, len: 4 });
        book_page(&mut ops, regs::BOOK_AUDIO, regs::MIXER_PAGE_R2R);
        ops.push(BusOp::Read { reg: regs::MIXER_R2R, len: 4 });
        assert(ops@ =~= mixer_ops(*gains));
        ops
    }

    /// Sets the mixer to a named preset.
    pub fn set_mixer_mode(&self, mode: MixerMode) -> (ops: Vec<BusOp>)
        ensures
            ops@ == mixer_ops(mode.gains()),
    {
        self.set_mixer(&mode.to_gains())
    }

    /// Sets the per-channel volume.
    pub fn set_channel_volume(&self, vol: &ChannelVolume) -> (ops: Vec<BusOp>)
        ensures
            ops@ == channel_volume_ops(*vol),
    {
        let mut ops: Vec<BusOp> = Vec::new();
        book_page(&mut ops, regs::BOOK_AUDIO, regs::CHAN_VOL_PAGE);
        ops.push(BusOp::Word { reg: regs::CHAN_VOL_LEFT, word: vol.left.0 });
        ops.push(BusOp::Word { reg: regs::CHAN_VOL_RIGHT, word: vol.right.0 });
        assert(ops@ =~= channel_volume_ops(*vol));
        ops
    }

    /// Sets the analog output-stage gain, 0 to 31; larger values count as 31.
    pub fn set_analog_gain(&self, gain: u8) -> (ops: Vec<BusOp>)
        ensures
            ops@ == analog_gain_ops(gain),
    {
        let mut ops: Vec<BusOp> = Vec::new();
        write_control(
            &mut ops,
            regs::AGAIN,
            if gain < 31 {
                gain
            } else {
                31
            },
        );
        assert(ops@ =~= analog_gain_ops(gain));
        ops
    }

    /// Reads the fault and warning registers, in the order of the fields of
    /// [`FaultStatus`].
    pub fn read_faults(&self) -> (ops: Vec<BusOp>)
        ensures
            ops@ == read_faults_ops(),
    {
        let mut ops: Vec<BusOp> = Vec::new();
        book_page(&mut ops, regs::BOOK_CTRL, 0x00);
        ops.push(BusOp::Read { reg: regs::CHAN_FAULT, len: 1 });
        ops.push(BusOp::Read { reg: regs::GLOBAL_FAULT1, len: 1 });
        ops.push(BusOp::Read { reg: regs::GLOBAL_FAULT2, len: 1 });
        ops.push(BusOp::Read { reg: regs::OT_WARNING, len: 1 });
        assert(ops@ =~= read_faults_ops());
        ops
    }

    /// Clears all latched faults.
    pub fn clear_faults(&self) -> (ops: Vec<BusOp>)
        ensures
            ops@ == control_ops(regs::CLEAR_FAULT, 0x80),
    {
        let mut ops: Vec<BusOp> = Vec::new();
        write_control(&mut ops, regs::CLEAR_FAULT, 0x80);
        assert(ops@ =~= control_ops(regs::CLEAR_FAULT, 0x80));
        ops
    }

    /// Reads the power state register; [`PowerState::from`] decodes it.
    pub fn get_power_state(&self) -> (ops: Vec<BusOp>)
        ensures
            ops@ == status_ops(regs::POWER_STATE),
    {
        let mut ops: Vec<BusOp> = Vec::new();
        read_status(&mut ops, regs::POWER_STATE);
        assert(ops@ =~= status_ops(regs::POWER_STATE));
        ops
    }

    /// Writes a raw sequence of register and value pairs.
    pub fn write_raw_sequence(&self, pairs: &[(u8, u8)]) -> (ops: Vec<BusOp>)
        ensures
            ops@ == bus::register_ops(pairs@),
    {
        let mut ops: Vec<BusOp> = Vec::new();
        registers(&mut ops, pairs);
        assert(ops@ =~= bus::register_ops(pairs@));
        ops
    }
}

fn write_control(ops: &mut Vec<BusOp>, reg: u8, value: u8)
    ensures
        final(ops)@ == old(ops)@ + control_ops(reg, value),
{
    book_page(ops, regs::BOOK_CTRL, 0x00);
    ops.push(BusOp::Reg { reg, value });
    assert(ops@ =~= old(ops)@ + control_ops(reg, value));
}

fn read_status(ops: &mut Vec<BusOp>, reg: u8)
    ensures
        final(ops)@ == old(ops)@ + status_ops(reg),
{
    book_page(ops, regs::BOOK_CTRL, 0x00);
    ops.push(BusOp::Read { reg, len: 1 });
    assert(ops@ =~= old(ops)@ + status_ops(reg));
}

fn write_eq_band(ops: &mut Vec<BusOp>, band: u8, coeffs: &BiquadCoeffs)
    requires
        band < 24,
    ensures
        final(ops)@ == old(ops)@ + eq_band_ops(band as int, *coeffs, 5),
{
    let mut last_page: u8 = 0xFF;
    let mut i: u8 = 0;
    assert(ops@ =~= old(ops)@ + eq_band_ops(band as int, *coeffs, 0));
    while i < 5
        invariant
            i <= 5,
            band < 24,
            ops@ == old(ops)@ + eq_band_ops(band as int, *coeffs, i as int),
            last_page == if i == 0 {
                0xFF
            } else {
                regs::eq_location(band as int, i - 1).0
            },
        decreases 5 - i,
    {
        let (page, reg) = regs::eq_coeff_location(band, i);
        proof {
            regs::law_eq_locations_fit(band, i);
        }
        let ghost before = ops@;
        if page != last_page {
            book_page(ops, regs::BOOK_EQ, page);
            last_page = page;
        }
        ops.push(BusOp::Word { reg, word: coeffs.coeff_word(i) });
        i = i + 1;
        assert(ops@ =~= old(ops)@ + eq_band_ops(band as int, *coeffs, i as int));
    }
}

fn write_all_eq(ops: &mut Vec<BusOp>, bands: &[BiquadCoeffs; 24])
    ensures
        final(ops)@ == old(ops)@ + eq_ops(bands@, 24),
{
    let mut band: u8 = 0;
    assert(ops@ =~= old(ops)@ + eq_ops(bands@, 0));
    while band < 24
        invariant
            band <= 24,
            ops@ == old(ops)@ + eq_ops(bands@, band as int),
        decreases 24 - band,
    {
        write_eq_band(ops, band, &bands[band as usize]);
        band = band + 1;
        assert(ops@ =~= old(ops)@ + eq_ops(bands@, band as int));
    }
}

fn init_dsp_processing(ops: &mut Vec<BusOp>)
    ensures
        final(ops)@ == old(ops)@ + init_processing_ops(),
{
    let passthrough: [BiquadCoeffs; 24] = [
        BiquadCoeffs { b0: dsp::BQ_ONE, b1: 0, b2: 0, a1: 0, a2: 0 };24];
    assert(passthrough@ =~= Seq::new(24, |i: int| BiquadCoeffs::identity()));
    write_all_eq(ops, &passthrough);
}

/// Watches the transition to Play.
#[derive(Debug, Clone, Copy, PartialEq, Eq, Structural)]
pub enum PlayMonitor {
    /// Waiting, with the number of polls so far.
    Waiting(u8),
    /// Play was requested once more.
    Retrying,
    /// Nothing is left to be done.
    Done,
}

impl PlayMonitor {
    pub fn new() -> (m: Self)
        ensures
            m == PlayMonitor::Waiting(0),
    {
        PlayMonitor::Waiting(0)
    }

    pub open spec fn wf(self) -> bool {
        self matches PlayMonitor::Waiting(n) ==> n < PLAY_ATTEMPTS
    }

    /// The accesses of the next step. The last one of a step that is not the
    /// final one reads the power state.
    pub open spec fn ops(self) -> Seq<BusOp> {
        match self {
            PlayMonitor::Waiting(_) => seq![BusOp::Delay { ms: 10 }] + status_ops(
                regs::POWER_STATE,
            ),
            PlayMonitor::Retrying => read_faults_ops() + control_ops(regs::CLEAR_FAULT, 0x80)
                + seq![
                BusOp::Reg { reg: regs::DEVICE_CTRL_2, value: 3 },
                BusOp::Delay { ms: 50 },
            ] + status_ops(regs::POWER_STATE),
            PlayMonitor::Done => seq![BusOp::MutePin(true)],
        }
    }

    /// The step after the power state was read.
    pub open spec fn next(self, state: PowerState) -> PlayMonitor {
        match self {
            PlayMonitor::Waiting(n) => if state == PowerState::Play {
                PlayMonitor::Done
            } else if n + 1 < PLAY_ATTEMPTS {
                PlayMonitor::Waiting((n + 1) as u8)
            } else {
                PlayMonitor::Retrying
            },
            PlayMonitor::Retrying | PlayMonitor::Done => PlayMonitor::Done,
        }
    }

    pub fn step(&self, amp: &Tas5830) -> (ops: Vec<BusOp>)
        ensures
            ops@ == self.ops(),
    {
        let mut ops: Vec<BusOp> = Vec::new();
        match self {
            PlayMonitor::Waiting(_) => {
                ops.push(BusOp::Delay { ms: 10 });
                append(&mut ops, amp.get_power_state());
            },
            PlayMonitor::Retrying => {
                append(&mut ops, amp.read_faults());
                append(&mut ops, amp.clear_faults());
                ops.push(BusOp::Reg { reg: regs::DEVICE_CTRL_2, value: 0x03 });
                ops.push(BusOp::Delay { ms: 50 });
                append(&mut ops, amp.get_power_state());
            },
            PlayMonitor::Done => {
                ops.push(BusOp::MutePin(true));
            },
        }
        assert(ops@ =~= self.ops());
        ops
    }

    /// Takes the power state that was read.
    pub fn observe(&mut self, state: PowerState)
        requires
            old(self).wf(),
        ensures
            final(self).wf(),
            *final(self) == old(self).next(state),
    {
        *self = match *self {
            PlayMonitor::Waiting(n) => if state == PowerState::Play {
                PlayMonitor::Done
            } else if n + 1 < PLAY_ATTEMPTS {
                PlayMonitor::Waiting(n + 1)
            } else {
                PlayMonitor::Retrying
            },
            PlayMonitor::Retrying => PlayMonitor::Done,
            PlayMonitor::Done => PlayMonitor::Done,
        };
    }
}

/// The monitor after a sequence of power states was read.
pub open spec fn watched(m: PlayMonitor, states: Seq<PowerState>) -> PlayMonitor
    decreases states.len(),
{
    if states.len() == 0 {
        m
    } else {
        watched(m, states.drop_last()).next(states.last())
    }
}

/// Whatever the amplifier reports, the transition is over after eleven polls,
/// and no sooner than it reported Play or eleven polls were made.
pub proof fn law_play_terminates(states: Seq<PowerState>)
    ensures
        states.len() >= 11 ==> watched(PlayMonitor::Waiting(0), states) == PlayMonitor::Done,
        states.len() < 11 && !states.contains(PowerState::Play) ==> watched(
            PlayMonitor::Waiting(0),
            states,
        ) != PlayMonitor::Done,
        states.len() <= 10 && states.contains(PowerState::Play) ==> watched(
            PlayMonitor::Waiting(0),
            states,
        ) == PlayMonitor::Done,
    decreases states.len(),
{
    lemma_watched(states);
}

proof fn lemma_watched(states: Seq<PowerState>)
    ensures
        watched(PlayMonitor::Waiting(0), states) == if exists|i: int|
            0 <= i < states.len() && i < 10 && states[i] == PowerState::Play {
            PlayMonitor::Done
        } else if states.len() < 10 {
            PlayMonitor::Waiting(states.len() as u8)
        } else if states.len() == 10 {
            PlayMonitor::Retrying
        } else {
            PlayMonitor::Done
        },
    decreases states.len(),
{
    if states.len() > 0 {
        let init = states.drop_last();
        lemma_watched(init);
        if exists|i: int| 0 <= i < init.len() && i < 10 && init[i] == PowerState::Play {
            let i = choose|i: int| 0 <= i < init.len() && i < 10 && init[i] == PowerState::Play;
            assert(states[i] == PowerState::Play);
        } else {
            assert forall|i: int|
                0 <= i < states.len() && i < 10 && states[i] == PowerState::Play implies i
                == states.len() - 1 by {
                if i < states.len() - 1 {
                    assert(init[i] == states[i]);
                }
            }
            if states.len() <= 10 && states.last() == PowerState::Play {
                assert(states[states.len() - 1] == PowerState::Play);
            }
        }
    }
}

/// The percentage that a volume setting reads back as is the one set, or one
/// less by rounding.
pub proof fn law_volume_reads_back(scaled_percent: u8)
    ensures
        scaled_percent >= 100 ==> volume_percent(volume_reg(scaled_percent)) == 100,
        scaled_percent < 100 ==> scaled_percent - 1 <= volume_percent(volume_reg(scaled_percent))
            <= scaled_percent,
{
}

/// A higher percentage never sets a quieter volume (the register counts
/// attenuation).
pub proof fn law_volume_monotone(low: u8, high: u8)
    requires
        low <= high,
    ensures
        volume_reg(high) <= volume_reg(low),
        volume_reg(0) == 0xCF,
{
}

/// Book, page and register of a coefficient.
pub open spec fn eq_address(band: int, coeff: int) -> (u8, u8, u8) {
    let (page, reg) = regs::eq_location(band, coeff);
    (regs::BOOK_EQ, page, reg)
}

/// Whether an address holds no coefficient.
pub open spec fn outside_eq(address: (u8, u8, u8)) -> bool {
    forall|band: int, coeff: int|
        0 <= band < 24 && 0 <= coeff < 5 ==> address != #[trigger] eq_address(band, coeff)
}

/// Whether two states of the amplifier hold the same word at an address, or
/// both none.
pub open spec fn alike_at(
    a: bus::DeviceModel,
    b: bus::DeviceModel,
    address: (u8, u8, u8),
) -> bool {
    &&& a.words.contains_key(address) == b.words.contains_key(address)
    &&& a.words.contains_key(address) ==> a.words[address] == b.words[address]
}

/// Programming an EQ band stores every coefficient at its location in the EQ
/// book, whatever was selected before.
pub proof fn law_eq_band_is_programmed(d: bus::DeviceModel, band: u8, coeffs: BiquadCoeffs, i: u8)
    requires
        band < 24,
        i < 5,
    ensures
        ({
            let after = bus::run(d, eq_band_ops(band as int, coeffs, 5));
            let address = eq_address(band as int, i as int);
            after.words.contains_key(address) && after.words[address] == coeffs.word(i as int)
        }),
{
    lemma_eq_band_run(d, band, coeffs, 5);
}

/// Programming the EQ stores the coefficients of all bands at their locations.
pub proof fn law_eq_is_programmed(
    d: bus::DeviceModel,
    bands: Seq<BiquadCoeffs>,
    band: u8,
    coeff: u8,
)
    requires
        bands.len() == 24,
        band < 24,
        coeff < 5,
    ensures
        ({
            let after = bus::run(d, eq_ops(bands, 24));
            let address = eq_address(band as int, coeff as int);
            &&& after.words.contains_key(address)
            &&& after.words[address] == bands[band as int].word(coeff as int)
        }),
{
    lemma_eq_run(d, bands, 24);
}

/// Programming the EQ stores nothing where no coefficient lies.
pub proof fn law_eq_keeps_the_rest(
    d: bus::DeviceModel,
    bands: Seq<BiquadCoeffs>,
    address: (u8, u8, u8),
)
    requires
        bands.len() == 24,
        outside_eq(address),
    ensures
        alike_at(d, bus::run(d, eq_ops(bands, 24)), address),
{
    lemma_eq_run(d, bands, 24);
}

/// The processing chain starts with a passthrough biquad in every place of the
/// memory map, and nothing is stored elsewhere.
pub proof fn law_processing_starts_flat(d: bus::DeviceModel, address: (u8, u8, u8))
    ensures
        ({
            let after = bus::run(d, init_processing_ops());
            &&& forall|band: int, coeff: int|
                0 <= band < 24 && 0 <= coeff < 5 ==> after.words.contains_key(
                    #[trigger] eq_address(band, coeff),
                ) && after.words[eq_address(band, coeff)] == BiquadCoeffs::identity().word(coeff)
            &&& outside_eq(address) ==> alike_at(d, after, address)
        }),
{
    lemma_eq_run(d, Seq::new(24, |i: int| BiquadCoeffs::identity()), 24);
}

proof fn lemma_eq_run(d: bus::DeviceModel, bands: Seq<BiquadCoeffs>, n: int)
    requires
        0 <= n <= 24,
        bands.len() == 24,
    ensures
        ({
            let after = bus::run(d, eq_ops(bands, n));
            &&& forall|band: int, coeff: int|
                0 <= band < n && 0 <= coeff < 5 ==> after.words.contains_key(
                    #[trigger] eq_address(band, coeff),
                ) && after.words[eq_address(band, coeff)] == bands[band].word(coeff)
            &&& forall|address: (u8, u8, u8)|
                outside_eq(address) ==> #[trigger] alike_at(d, after, address)
        }),
    decreases n,
{
    if n > 0 {
        lemma_eq_run(d, bands, n - 1);
        let before = bus::run(d, eq_ops(bands, n - 1));
        let own = bands[n - 1];
        bus::lemma_run_concat(d, eq_ops(bands, n - 1), eq_band_ops(n - 1, own, 5));
        lemma_eq_band_run(before, (n - 1) as u8, own, 5);
        let after = bus::run(d, eq_ops(bands, n));
        assert(after == bus::run(before, eq_band_ops(n - 1, own, 5)));
        assert forall|band: int, coeff: int| 0 <= band < n && 0 <= coeff < 5 implies (
        after.words.contains_key(#[trigger] eq_address(band, coeff)) && after.words[eq_address(
            band,
            coeff,
        )] == bands[band].word(coeff)) by {
            if band < n - 1 {
                let address = eq_address(band, coeff);
                assert forall|i: int| 0 <= i < 5 implies address != #[trigger] eq_address(
                    n - 1,
                    i,
                ) by {
                    if address == eq_address(n - 1, i) {
                        regs::law_eq_locations_distinct(
                            band as u8,
                            coeff as u8,
                            (n - 1) as u8,
                            i as u8,
                        );
                    }
                }
                assert(alike_at(before, after, address));
            }
        }
        assert forall|address: (u8, u8, u8)| outside_eq(address) implies #[trigger] alike_at(
            d,
            after,
            address,
        ) by {
            assert(alike_at(d, before, address));
            assert(alike_at(before, after, address));
        }
    }
}

proof fn lemma_eq_band_run(d: bus::DeviceModel, band: u8, coeffs: BiquadCoeffs, n: int)
    requires
        band < 24,
        0 <= n <= 5,
    ensures
        ({
            let after = bus::run(d, eq_band_ops(band as int, coeffs, n));
            &&& n > 0 ==> after.book == regs::BOOK_EQ && after.page == regs::eq_location(
                band as int,
                n - 1,
            ).0
            &&& forall|i: int|
                0 <= i < n ==> after.words.contains_key(#[trigger] eq_address(band as int, i))
                    && after.words[eq_address(band as int, i)] == coeffs.word(i)
            &&& forall|address: (u8, u8, u8)|
                (forall|i: int| 0 <= i < n ==> address != #[trigger] eq_address(band as int, i))
                    ==> #[trigger] alike_at(d, after, address)
        }),
    decreases n,
{
    if n > 0 {
        lemma_eq_band_run(d, band, coeffs, n - 1);
        let before = bus::run(d, eq_band_ops(band as int, coeffs, n - 1));
        let (page, reg) = regs::eq_location(band as int, n - 1);
        let select = if n == 1 || page != regs::eq_location(band as int, n - 2).0 {
            bus::select(regs::BOOK_EQ, page)
        } else {
            Seq::empty()
        };
        let word = BusOp::Word { reg, word: coeffs.word(n - 1) };
        let selected = bus::run(before, select);
        regs::law_eq_locations_fit(band, (n - 1) as u8);
        bus::lemma_run_concat(d, eq_band_ops(band as int, coeffs, n - 1), select);
        bus::lemma_run_select(before, regs::BOOK_EQ, page);
        let all = eq_band_ops(band as int, coeffs, n - 1) + select;
        assert(all.push(word).drop_last() =~= all);
        let after = bus::applied(selected, word);
        assert(bus::run(d, all.push(word)) == after);
        assert(selected.book == regs::BOOK_EQ);
        assert(selected.page == page);
        assert(selected.words == before.words);
        assert(!bus::covers(reg, regs::PAGE_SELECT));
        assert(after.words == before.words.insert(
            eq_address(band as int, n - 1),
            coeffs.word(n - 1),
        ));
        assert forall|i: int| 0 <= i < n implies after.words.contains_key(
            #[trigger] eq_address(band as int, i),
        ) && after.words[eq_address(band as int, i)] == coeffs.word(i) by {
            if i < n - 1 {
                if regs::eq_location(band as int, i) == regs::eq_location(band as int, n - 1) {
                    regs::law_eq_locations_distinct(band, i as u8, band, (n - 1) as u8);
                }
            }
        }
        assert forall|address: (u8, u8, u8)|
            (forall|i: int|
                0 <= i < n ==> address != #[trigger] eq_address(
                    band as int,
                    i,
                )) implies #[trigger] alike_at(d, after, address) by {
            assert(alike_at(d, before, address));
            assert(address != eq_address(band as int, n - 1));
        }
    }
}

/// The power states are told by the lower two bits: 0 to 3 are deep sleep, sleep,
/// Hi-Z and Play; the upper bits have no say.
pub proof fn law_power_states(val: u8, other: u8)
    ensures
        val % 4 == other % 4 <==> power_state_of(val) == power_state_of(other),
        power_state_of(0) == PowerState::DeepSleep,
        power_state_of(1) == PowerState::Sleep,
        power_state_of(2) == PowerState::HiZ,
        power_state_of(3) == PowerState::Play,
{
}

/// The volume register counts attenuation: 0xCF and more are silence (0 %), 0 is
/// full volume (100 %), and in between the percentage falls evenly.
pub proof fn law_volume_scale(low: u8, high: u8)
    requires
        low <= high,
    ensures
        volume_percent(high) <= volume_percent(low) <= 100,
        high >= 0xCF ==> volume_percent(high) == 0,
        volume_percent(0) == 100,
        high < 0xCF ==> 0xCF * volume_percent(high) <= 100 * (0xCF - high) < 0xCF * (volume_percent(
            high,
        ) + 1),
        high < 100 ==> 0xCF * high - 100 < 100 * (0xCF - volume_reg(high)) <= 0xCF * high,
        high >= 100 ==> volume_reg(high) == 0,
{
}

/// Setting the mixer stores the four gains in book 0x8C: L2L, R2L and L2R on page
/// 9, R2R on page 10, and nothing else.
pub proof fn law_mixer_is_programmed(d: bus::DeviceModel, gains: MixerGains)
    ensures
        bus::run(d, mixer_ops(gains)).words == d.words.insert((0x8Cu8, 9u8, 0x74u8), gains.l2l.0)
            .insert((0x8Cu8, 9u8, 0x78u8), gains.r2l.0)
            .insert((0x8Cu8, 9u8, 0x7Cu8), gains.l2r.0)
            .insert((0x8Cu8, 10u8, 0x08u8), gains.r2r.0),
{
    let s1 = bus::select(regs::BOOK_AUDIO, regs::MIXER_PAGE);
    let s2 = bus::select(regs::BOOK_AUDIO, regs::MIXER_PAGE_R2R);
    let l2l = BusOp::Word { reg: regs::MIXER_L2L, word: gains.l2l.0 };
    let r2l = BusOp::Word { reg: regs::MIXER_R2L, word: gains.r2l.0 };
    let l2r = BusOp::Word { reg: regs::MIXER_L2R, word: gains.l2r.0 };
    let r2r = BusOp::Word { reg: regs::MIXER_R2R, word: gains.r2r.0 };
    let first = s1.push(l2l).push(r2l).push(l2r);
    let second = s2.push(r2r);
    let reads = s1 + seq![
        BusOp::Read { reg: regs::MIXER_L2L, len: 4 },
        BusOp::Read { reg: regs::MIXER_R2L, len: 4 },
        BusOp::Read { reg: regs::MIXER_L2R, len: 4 },
    ] + s2 + seq![BusOp::Read { reg: regs::MIXER_R2R, len: 4 }];
    assert(mixer_ops(gains) =~= (first + second) + reads);
    bus::lemma_run_concat(d, first + second, reads);
    bus::lemma_run_concat(d, first, second);
    bus::lemma_run_without_words(bus::run(d, first + second), reads);
    bus::lemma_run_select(d, regs::BOOK_AUDIO, regs::MIXER_PAGE);
    bus::lemma_run_push(d, s1, l2l);
    bus::lemma_run_push(d, s1.push(l2l), r2l);
    bus::lemma_run_push(d, s1.push(l2l).push(r2l), l2r);
    bus::lemma_run_select(bus::run(d, first), regs::BOOK_AUDIO, regs::MIXER_PAGE_R2R);
    bus::lemma_run_push(bus::run(d, first), s2, r2r);
}

/// Setting the channel volume stores both gains in book 0x8C on page 6, and
/// nothing else.
pub proof fn law_channel_volume_is_programmed(d: bus::DeviceModel, vol: ChannelVolume)
    ensures
        bus::run(d, channel_volume_ops(vol)).words == d.words.insert(
            (0x8Cu8, 6u8, 0x64u8),
            vol.left.0,
        ).insert((0x8Cu8, 6u8, 0x68u8), vol.right.0),
{
    let s = bus::select(regs::BOOK_AUDIO, regs::CHAN_VOL_PAGE);
    let left = BusOp::Word { reg: regs::CHAN_VOL_LEFT, word: vol.left.0 };
    let right = BusOp::Word { reg: regs::CHAN_VOL_RIGHT, word: vol.right.0 };
    assert(channel_volume_ops(vol) =~= s.push(left).push(right));
    bus::lemma_run_select(d, regs::BOOK_AUDIO, regs::CHAN_VOL_PAGE);
    bus::lemma_run_push(d, s, left);
    bus::lemma_run_push(d, s.push(left), right);
}

/// A control-port access selects book 0, page 0 and then writes or reads the one
/// register; it stores no word.
pub proof fn law_control_accesses(d: bus::DeviceModel, reg: u8, value: u8)
    requires
        reg != 0,
        reg != 0x7F,
    ensures
        ({
            let after = bus::run(d, control_ops(reg, value));
            &&& after.book == 0 && after.page == 0 && after.words == d.words
            &&& control_ops(reg, value).last() == (BusOp::Reg { reg, value })
            &&& status_ops(reg).last() == (BusOp::Read { reg, len: 1 })
            &&& bus::run(d, status_ops(reg).drop_last()) == bus::run(
                d,
                control_ops(reg, value).drop_last(),
            )
        }),
{
    let s = bus::select(regs::BOOK_CTRL, 0);
    bus::lemma_run_select(d, regs::BOOK_CTRL, 0);
    bus::lemma_run_push(d, s, BusOp::Reg { reg, value });
    assert(control_ops(reg, value).drop_last() =~= s);
    assert(status_ops(reg).drop_last() =~= s);
}

/// The analog gain that is set is the one asked for, up to 31.
pub proof fn law_analog_gain(gain: u8)
    ensures
        analog_gain_ops(gain).last() matches BusOp::Reg { reg, value } && reg == 0x54 && value <= 31
            && value <= gain && (value == gain || value == 31),
{
}

/// The four fault registers are read in the order 0x70 to 0x73, on page 0 of book
/// 0.
pub proof fn law_faults_are_read(d: bus::DeviceModel, i: int)
    requires
        0 <= i < 4,
    ensures
        read_faults_ops().len() == 7,
        read_faults_ops()[3 + i] == (BusOp::Read { reg: (0x70 + i) as u8, len: 1 }),
        bus::run(d, read_faults_ops().take(3)).book == 0,
        bus::run(d, read_faults_ops().take(3)).page == 0,
{
    assert(read_faults_ops().take(3) =~= bus::select(regs::BOOK_CTRL, 0));
    bus::lemma_run_select(d, regs::BOOK_CTRL, 0);
}

/// Once set up, the DSP holds the configuration, whatever its memory held and
/// whatever the raw pairs did: every EQ coefficient, the mixer gains and the
/// channel volumes.
pub proof fn law_play_programs_config(
    d: bus::DeviceModel,
    chip_config: Seq<(u8, u8)>,
    config: DspConfig,
)
    ensures
        ({
            let words = bus::run(d, play_setup_ops(chip_config, config)).words;
            &&& forall|band: int, coeff: int|
                0 <= band < 24 && 0 <= coeff < 5 ==> words[#[trigger] eq_address(band, coeff)]
                    == config.eq_bands@[band].word(coeff)
            &&& words[(0x8Cu8, 9u8, 0x74u8)] == config.mixer.l2l.0
            &&& words[(0x8Cu8, 9u8, 0x78u8)] == config.mixer.r2l.0
            &&& words[(0x8Cu8, 9u8, 0x7Cu8)] == config.mixer.l2r.0
            &&& words[(0x8Cu8, 10u8, 0x08u8)] == config.mixer.r2r.0
            &&& words[(0x8Cu8, 6u8, 0x64u8)] == config.channel_volume.left.0
            &&& words[(0x8Cu8, 6u8, 0x68u8)] == config.channel_volume.right.0
        }),
{
    let head = seq![BusOp::Delay { ms: 5 }] + bus::register_ops(chip_config)
        + init_processing_ops() + bus::register_ops(config.processing@);
    let eq = eq_ops(config.eq_bands@, 24);
    let mixer = mixer_ops(config.mixer);
    let volume = channel_volume_ops(config.channel_volume);
    let tail = control_ops(
        regs::DSP_MISC,
        if config.eq_bypass {
            1
        } else {
            0
        },
    ) + analog_gain_ops(config.analog_gain) + control_ops(regs::SDOUT_SEL, 0);
    assert(play_setup_ops(chip_config, config) =~= (((head + eq) + mixer) + volume) + tail);
    let d1 = bus::run(d, head);
    bus::lemma_run_concat(d, head, eq);
    let d2 = bus::run(d1, eq);
    bus::lemma_run_concat(d, head + eq, mixer);
    let d3 = bus::run(d2, mixer);
    bus::lemma_run_concat(d, (head + eq) + mixer, volume);
    let d4 = bus::run(d3, volume);
    bus::lemma_run_concat(d, ((head + eq) + mixer) + volume, tail);
    lemma_eq_run(d1, config.eq_bands@, 24);
    law_mixer_is_programmed(d2, config.mixer);
    law_channel_volume_is_programmed(d3, config.channel_volume);
    bus::lemma_run_without_words(d4, tail);
    assert forall|band: int, coeff: int| 0 <= band < 24 && 0 <= coeff < 5 implies (
    #[trigger] eq_address(band, coeff)).0 == 0xAA by {}
}

/// Starting to play sets the volume first, then clears the faults, and requests
/// Play last.
pub proof fn law_play_start(volume: u8)
    ensures
        play_start_ops(volume).first() == (BusOp::Reg { reg: 0x4C, value: volume }),
        play_start_ops(volume).last() == (BusOp::Reg { reg: 0x03, value: 3 }),
        play_start_ops(volume).contains(BusOp::Reg { reg: 0x78, value: 0x80 }),
{
    let ops = play_start_ops(volume);
    assert(ops[4] == (BusOp::Reg { reg: 0x78, value: 0x80 }));
}

/// While it waits, the monitor polls the power state after 10 ms; before its last
/// poll it clears the faults and requests Play once more; in the end it releases
/// the mute pin.
pub proof fn law_monitor_accesses(m: PlayMonitor)
    ensures
        m != PlayMonitor::Done ==> m.ops().last() == (BusOp::Read { reg: 0x68, len: 1 }),
        m is Waiting ==> m.ops()[0] == (BusOp::Delay { ms: 10 }),
        m == PlayMonitor::Retrying ==> m.ops().contains(BusOp::Reg { reg: 0x78, value: 0x80 })
            && m.ops().contains(BusOp::Reg { reg: 0x03, value: 3 }) && m.ops().contains(
            BusOp::Delay { ms: 50 },
        ),
        m == PlayMonitor::Done ==> m.ops() == seq![BusOp::MutePin(true)],
        m.ops().contains(BusOp::MutePin(true)) ==> m == PlayMonitor::Done,
{
    if m == PlayMonitor::Retrying {
        assert(m.ops()[10] == (BusOp::Reg { reg: 0x78, value: 0x80 }));
        assert(m.ops()[11] == (BusOp::Reg { reg: 0x03, value: 3 }));
        assert(m.ops()[12] == (BusOp::Delay { ms: 50 }));
    }
}

/// What the accesses to the DSP memory leave there: the four gains of the mixer, of
/// a preset as well as of custom gains, and the two channel volumes.
pub proof fn law_gains_are_stored(
    amp: Tas5830,
    gains: MixerGains,
    custom: Vec<BusOp>,
    mode: MixerMode,
    preset: Vec<BusOp>,
    vol: ChannelVolume,
    volumes: Vec<BusOp>,
    d: bus::DeviceModel,
)
    requires
        call_ensures(Tas5830::set_mixer, (&amp, &gains), custom),
        call_ensures(Tas5830::set_mixer_mode, (&amp, mode), preset),
        call_ensures(Tas5830::set_channel_volume, (&amp, &vol), volumes),
    ensures
        bus::run(d, custom@).words == d.words.insert((0x8Cu8, 9u8, 0x74u8), gains.l2l.0).insert(
            (0x8Cu8, 9u8, 0x78u8),
            gains.r2l.0,
        ).insert((0x8Cu8, 9u8, 0x7Cu8), gains.l2r.0).insert(
            (0x8Cu8, 10u8, 0x08u8),
            gains.r2r.0,
        ),
        bus::run(d, preset@).words[(0x8Cu8, 9u8, 0x74u8)] == mode.gains().l2l.0,
        bus::run(d, preset@).words[(0x8Cu8, 9u8, 0x78u8)] == mode.gains().r2l.0,
        bus::run(d, preset@).words[(0x8Cu8, 9u8, 0x7Cu8)] == mode.gains().l2r.0,
        bus::run(d, preset@).words[(0x8Cu8, 10u8, 0x08u8)] == mode.gains().r2r.0,
        bus::run(d, volumes@).words == d.words.insert((0x8Cu8, 6u8, 0x64u8), vol.left.0).insert(
            (0x8Cu8, 6u8, 0x68u8),
            vol.right.0,
        ),
{
    law_mixer_is_programmed(d, gains);
    law_mixer_is_programmed(d, mode.gains());
    law_channel_volume_is_programmed(d, vol);
}

/// A band of the EQ is stored coefficient by coefficient at its places; there are 24
/// bands, and any other is refused.
pub proof fn law_bands_are_stored<E>(
    amp: Tas5830,
    band: u8,
    coeffs: BiquadCoeffs,
    result: Result<Vec<BusOp>, Error<E>>,
    i: u8,
    d: bus::DeviceModel,
)
    requires
        i < 5,
        call_ensures(Tas5830::set_eq_band::<E>, (&amp, band, &coeffs), result),
    ensures
        result is Ok <==> band < 24,
        result matches Err(e) ==> e is InvalidBand,
        result matches Ok(ops) ==> {
            let after = bus::run(d, ops@);
            let at = eq_address(band as int, i as int);
            after.words.contains_key(at) && after.words[at] == coeffs.word(i as int)
        },
{
    if band < 24 {
        law_eq_band_is_programmed(d, band, coeffs, i);
    }
}

/// Clearing the EQ makes every band pass its input through.
pub proof fn law_eq_is_cleared(
    amp: Tas5830,
    ops: Vec<BusOp>,
    band: u8,
    coeff: u8,
    d: bus::DeviceModel,
)
    requires
        band < 24,
        coeff < 5,
        call_ensures(Tas5830::clear_eq, (&amp,), ops),
    ensures
        ({
            let at = eq_address(band as int, coeff as int);
            let after = bus::run(d, ops@);
            &&& after.words.contains_key(at)
            &&& coeff == 0 ==> after.words[at] == 0x0800_0000
            &&& coeff > 0 ==> after.words[at] == 0
        }),
{
    let bands = Seq::new(24, |i: int| BiquadCoeffs::identity());
    law_eq_is_programmed(d, bands, band, coeff);
    dsp::law_coefficient_order(BiquadCoeffs::identity(), coeff as int);
}

/// The volume register is written at once, or once the output is not muted any
/// more; mute writes silence, and unmuting the volume that was kept.
pub proof fn law_volume_and_mute(
    set: &mut Tas5830,
    volume: u8,
    set_ops: Vec<BusOp>,
    muted: &mut Tas5830,
    mute_ops: Vec<BusOp>,
    unmuted: &mut Tas5830,
    unmute_ops: Vec<BusOp>,
    toggled: &mut Tas5830,
    toggle: (bool, Vec<BusOp>),
)
    requires
        call_ensures(Tas5830::set_volume, (set, volume), set_ops),
        call_ensures(Tas5830::mute, (muted,), mute_ops),
        call_ensures(Tas5830::unmute, (unmuted,), unmute_ops),
        call_ensures(Tas5830::toggle_mute, (toggled,), toggle),
    ensures
        final(set).level() == volume && final(set).silent() == old(set).silent(),
        old(set).silent() ==> set_ops@.len() == 0,
        !old(set).silent() ==> set_ops@.last() == (BusOp::Reg { reg: 0x4C, value: volume }),
        final(muted).silent() && final(muted).level() == old(muted).level(),
        mute_ops@.last() == (BusOp::Reg { reg: 0x4C, value: 0xFF }),
        !final(unmuted).silent() && final(unmuted).level() == old(unmuted).level(),
        unmute_ops@.last() == (BusOp::Reg { reg: 0x4C, value: old(unmuted).level() }),
        final(toggled).silent() != old(toggled).silent() && toggle.0 == final(toggled).silent(),
        final(toggled).level() == old(toggled).level(),
        final(toggled).silent() ==> toggle.1@.last() == (BusOp::Reg { reg: 0x4C, value: 0xFF }),
        !final(toggled).silent() ==> toggle.1@.last() == (BusOp::Reg {
            reg: 0x4C,
            value: old(toggled).level(),
        }),
{
    lemma_last_access(0x4C, volume);
}

proof fn lemma_last_access(reg: u8, value: u8)
    ensures
        control_ops(reg, value).last() == (BusOp::Reg { reg, value }),
        control_ops(reg, value).len() > 0,
{
}

/// A percentage sets the register evenly from silence to full volume, and reads
/// back as itself or one less.
pub proof fn law_percent(
    amp: &mut Tas5830,
    percent: u8,
    ops: Vec<BusOp>,
    other: Tas5830,
    read: u8,
    reg: u8,
)
    requires
        percent <= 100,
        other.level() == reg,
        call_ensures(scaled_percent_to_reg, (percent,), reg),
        call_ensures(Tas5830::set_volume_percent, (amp, percent), ops),
        call_ensures(Tas5830::get_volume_percent, (&other,), read),
    ensures
        final(amp).level() == reg,
        percent == 100 ==> reg == 0,
        percent < 100 ==> 0xCF * percent - 100 < 100 * (0xCF - reg) <= 0xCF * percent,
        percent - 1 <= read <= percent,
        !old(amp).silent() ==> ops@.last() == (BusOp::Reg { reg: 0x4C, value: reg }),
        old(amp).silent() ==> ops@.len() == 0,
{
    law_volume_scale(percent, percent);
    law_volume_reads_back(percent);
    lemma_last_access(0x4C, reg);
}

/// Bypassing the EQ is the lowest bit of register 0x66; the other bits stay.
pub proof fn law_bypass_bit(amp: Tas5830, val: u8, bypass: bool, op: BusOp)
    requires
        call_ensures(Tas5830::set_eq_bypass, (&amp, val, bypass), op),
    ensures
        op matches BusOp::Reg { reg, value } && reg == 0x66 && value / 2 == val / 2 && (value % 2
            == 1 <==> bypass),
{
}

/// Once set up, the DSP holds the configuration, and starting to play sets its
/// volume.
#[verifier::rlimit(50)]
#[verifier::spinoff_prover]
pub proof fn law_setup_and_start(
    amp: Tas5830,
    chip_config: &[(u8, u8)],
    config: DspConfig,
    setup: Vec<BusOp>,
    started: &mut Tas5830,
    start: Vec<BusOp>,
    d: bus::DeviceModel,
)
    requires
        call_ensures(Tas5830::play_setup, (&amp, chip_config, &config), setup),
        call_ensures(Tas5830::play_start, (started, &config), start),
    ensures
        ({
            let words = bus::run(d, setup@).words;
            &&& forall|band: int, coeff: int|
                0 <= band < 24 && 0 <= coeff < 5 ==> words[#[trigger] eq_address(band, coeff)]
                    == config.eq_bands@[band].word(coeff)
            &&& words[(0x8Cu8, 9u8, 0x74u8)] == config.mixer.l2l.0
            &&& words[(0x8Cu8, 9u8, 0x78u8)] == config.mixer.r2l.0
            &&& words[(0x8Cu8, 9u8, 0x7Cu8)] == config.mixer.l2r.0
            &&& words[(0x8Cu8, 10u8, 0x08u8)] == config.mixer.r2r.0
            &&& words[(0x8Cu8, 6u8, 0x64u8)] == config.channel_volume.left.0
            &&& words[(0x8Cu8, 6u8, 0x68u8)] == config.channel_volume.right.0
        }),
        start@.first() == (BusOp::Reg { reg: 0x4C, value: config.digital_volume }),
        start@.last() == (BusOp::Reg { reg: 0x03, value: 3 }),
        final(started).level() == config.digital_volume,
        final(started).silent() == old(started).silent(),
{
    law_play_programs_config(d, chip_config@, config);
    law_play_start(config.digital_volume);
}

/// The analog gain, the faults and the power state are accessed at their registers.
pub proof fn law_status_accesses(
    amp: Tas5830,
    gain: u8,
    gain_ops: Vec<BusOp>,
    cleared: Vec<BusOp>,
    power: Vec<BusOp>,
    faults: Vec<BusOp>,
    i: int,
)
    requires
        0 <= i < 4,
        call_ensures(Tas5830::set_analog_gain, (&amp, gain), gain_ops),
        call_ensures(Tas5830::clear_faults, (&amp,), cleared),
        call_ensures(Tas5830::get_power_state, (&amp,), power),
        call_ensures(Tas5830::read_faults, (&amp,), faults),
    ensures
        gain_ops@.last() matches BusOp::Reg { reg, value } && reg == 0x54 && value <= 31 && value
            <= gain && (value == gain || value == 31),
        cleared@.last() == (BusOp::Reg { reg: 0x78, value: 0x80 }),
        power@.last() == (BusOp::Read { reg: 0x68, len: 1 }),
        faults@[3 + i] == (BusOp::Read { reg: (0x70 + i) as u8, len: 1 }),
        faults@.len() == 7,
{
    law_analog_gain(gain);
    law_faults_are_read(
        bus::DeviceModel { book: 0, page: 0, words: Map::empty() },
        i,
    );
}

/// Watching the transition: done as soon as the amplifier plays, one more attempt
/// after ten polls, and done after that in any case.
pub proof fn law_watching(m: &mut PlayMonitor, state: PowerState)
    requires
        old(m).wf(),
        call_ensures(PlayMonitor::observe, (m, state), ()),
    ensures
        state == PowerState::Play ==> *final(m) == PlayMonitor::Done,
        !(*old(m) is Waiting) ==> *final(m) == PlayMonitor::Done,
        *old(m) matches PlayMonitor::Waiting(n) ==> (state != PowerState::Play ==> {
            &&& n < 9 ==> *final(m) == PlayMonitor::Waiting((n + 1) as u8)
            &&& n == 9 ==> *final(m) == PlayMonitor::Retrying
        }),
{
}

/// What the amplifier is woken with: power up while muted, five milliseconds, the
/// identification, then the registers in order.
pub proof fn law_waking(amp: Tas5830, hardware_init: &[(u8, u8)], ops: Vec<BusOp>, i: int)
    requires
        call_ensures(Tas5830::init, (&amp, hardware_init), ops),
    ensures
        ops@.len() == 4 + hardware_init@.len(),
        ops@[0] == BusOp::PowerDownPin(true),
        ops@[1] == BusOp::MutePin(false),
        ops@[2] == (BusOp::Delay { ms: 5 }),
        ops@[3] == (BusOp::Read { reg: 0x67, len: 1 }),
        0 <= i < hardware_init@.len() ==> ops@[4 + i] == (BusOp::Reg {
            reg: hardware_init@[i].0,
            value: hardware_init@[i].1,
        }),
{
}

/// How a setup goes: five milliseconds, the chip configuration in order; once the
/// processing chain is flat, at access `k`, the raw pairs in order; and in the end
/// the EQ bypass, the analog gain and the serial output.
#[verifier::rlimit(50)]
#[verifier::spinoff_prover]
pub proof fn law_setup_sequence(
    amp: Tas5830,
    chip_config: &[(u8, u8)],
    config: DspConfig,
    ops: Vec<BusOp>,
    i: int,
    d: bus::DeviceModel,
) -> (k: int)
    requires
        call_ensures(Tas5830::play_setup, (&amp, chip_config, &config), ops),
    ensures
        ops@[0] == (BusOp::Delay { ms: 5 }),
        0 <= i < chip_config@.len() ==> ops@[1 + i] == (BusOp::Reg {
            reg: chip_config@[i].0,
            value: chip_config@[i].1,
        }),
        1 + chip_config@.len() <= k <= ops@.len() - config.processing@.len() - 12,
        0 <= i < config.processing@.len() ==> ops@[k + i] == (BusOp::Reg {
            reg: config.processing@[i].0,
            value: config.processing@[i].1,
        }),
        forall|band: int, coeff: int|
            0 <= band < 24 && 0 <= coeff < 5 ==> bus::run(d, ops@.take(k)).words[#[trigger] eq_address(
                band,
                coeff,
            )] == BiquadCoeffs::identity().word(coeff),
        ops@[ops@.len() - 9] == (BusOp::Reg {
            reg: 0x66,
            value: if config.eq_bypass {
                1
            } else {
                0
            },
        }),
        ops@[ops@.len() - 5] == (BusOp::Reg {
            reg: 0x54,
            value: if config.analog_gain <= 31 {
                config.analog_gain
            } else {
                31
            },
        }),
        ops@.last() matches BusOp::Reg { reg, value } && reg == regs::SDOUT_SEL && value == 0,
{
    let head = seq![BusOp::Delay { ms: 5 }] + bus::register_ops(chip_config@);
    let k = (head + init_processing_ops()).len() as int;
    assert(ops@.take(k) =~= head + init_processing_ops());
    bus::lemma_run_concat(d, head, init_processing_ops());
    law_processing_starts_flat(bus::run(d, head), (0, 0, 0));
    let tail = eq_ops(config.eq_bands@, 24) + mixer_ops(config.mixer) + channel_volume_ops(
        config.channel_volume,
    ) + control_ops(
        regs::DSP_MISC,
        if config.eq_bypass {
            1
        } else {
            0
        },
    ) + analog_gain_ops(config.analog_gain) + control_ops(regs::SDOUT_SEL, 0);
    assert(ops@.skip(k) =~= bus::register_ops(config.processing@) + tail);
    if 0 <= i < config.processing@.len() {
        assert(ops@.skip(k)[i] == ops@[k + i]);
    }
    k
}

/// The mixer gains are read back after they were written, each from its register.
pub proof fn law_mixer_is_read_back(amp: Tas5830, gains: MixerGains, ops: Vec<BusOp>)
    requires
        call_ensures(Tas5830::set_mixer, (&amp, &gains), ops),
    ensures
        ops@.len() == 20,
        ops@[13] == (BusOp::Read { reg: 0x74, len: 4 }),
        ops@[14] == (BusOp::Read { reg: 0x78, len: 4 }),
        ops@[15] == (BusOp::Read { reg: 0x7C, len: 4 }),
        ops@[19] == (BusOp::Read { reg: 0x08, len: 4 }),
{
}

/// How playing starts: volume, faults cleared, a look at the clock, the request.
pub proof fn law_start_sequence(amp: &mut Tas5830, config: DspConfig, ops: Vec<BusOp>)
    requires
        call_ensures(Tas5830::play_start, (amp, &config), ops),
    ensures
        ops@.len() == 7,
        ops@[0] == (BusOp::Reg { reg: 0x4C, value: config.digital_volume }),
        ops@[4] == (BusOp::Reg { reg: 0x78, value: 0x80 }),
        ops@[5] matches BusOp::Read { reg, len } && reg == regs::CLKDET_STATUS && len == 1,
        ops@[6] == (BusOp::Reg { reg: 0x03, value: 3 }),
{
}

/// A fresh amplifier is at -24 dB and not muted, at the address it was given or at
/// 0x60; a default configuration changes nothing of the sound.
pub proof fn law_fresh_amplifier(address: u8, a: Tas5830, b: Tas5830, c: DspConfig, i: int)
    requires
        0 <= i < 24,
        call_ensures(Tas5830::new, (address,), a),
        call_ensures(Tas5830::new_default, (), b),
        call_ensures(DspConfig::default, (), c),
    ensures
        a.addr() == address && b.addr() == 0x60,
        a.level() == 0x30 && b.level() == 0x30 && !a.silent() && !b.silent(),
        c.eq_bands@[i].b0 == 0x0800_0000 && c.eq_bands@[i].b1 == 0 && c.eq_bands@[i].b2 == 0
            && c.eq_bands@[i].a1 == 0 && c.eq_bands@[i].a2 == 0,
        c.mixer == MixerMode::Stereo.gains() && !c.eq_bypass,
        c.channel_volume.left.0 == 0x0080_0000 && c.channel_volume.right.0 == 0x0080_0000,
        c.digital_volume == 0x30 && c.analog_gain == 0 && c.processing@.len() == 0,
{
}

/// Which power state a register value is converted to, and that every bus error is
/// kept as it is.
pub proof fn law_conversions<E>(val: u8, state: PowerState, e: E, error: Error<E>)
    requires
        call_ensures(<PowerState as From<u8>>::from, (val,), state),
        call_ensures(<Error<E> as From<E>>::from, (e,), error),
    ensures
        val % 4 == 0 ==> state == PowerState::DeepSleep,
        val % 4 == 1 ==> state == PowerState::Sleep,
        val % 4 == 2 ==> state == PowerState::HiZ,
        val % 4 == 3 ==> state == PowerState::Play,
        error matches Error::I2c(inner) && inner == e,
{
    law_power_states(val, (val % 4) as u8);
}

} // verus!
