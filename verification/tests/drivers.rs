use otteramp_dsp::drivers::encoder::{EncoderEvent, Pins, RotaryEncoder};
use otteramp_dsp::drivers::settings::{
    find_last_entry, load, save, PersistedSettings, MAX_ENTRIES, SETTINGS_OFFSET,
};
use otteramp_dsp::drivers::tas5830::bus::BusOp;
use otteramp_dsp::drivers::tas5830::regs::{self, eq_coeff_location};
use otteramp_dsp::drivers::tas5830::{
    scaled_percent_to_reg, BiquadCoeffs, ChannelVolume, DspConfig, Error, FaultStatus, Gain923,
    MixerGains, MixerMode, PlayMonitor, PowerState, Tas5830,
};
use otteramp_dsp::storage::FlashOp;

#[test]
fn power_states() {
    assert_eq!(PowerState::from(0), PowerState::DeepSleep);
    assert_eq!(PowerState::from(0x85), PowerState::Sleep);
    assert_eq!(PowerState::from(2), PowerState::HiZ);
    assert_eq!(PowerState::from(0xFF), PowerState::Play);
}

#[test]
fn volume_registers() {
    assert_eq!(scaled_percent_to_reg(0), 0xCF);
    assert_eq!(scaled_percent_to_reg(50), 0xCF - 103);
    assert_eq!(scaled_percent_to_reg(99), 0xCF - 204);
    assert_eq!(scaled_percent_to_reg(100), 0);
    assert_eq!(scaled_percent_to_reg(255), 0);
    for p in 0..100u8 {
        assert!(scaled_percent_to_reg(p + 1) <= scaled_percent_to_reg(p));
    }
}

fn select(book: u8, page: u8) -> Vec<BusOp> {
    vec![
        BusOp::Reg { reg: 0x00, value: 0 },
        BusOp::Reg { reg: 0x7F, value: book },
        BusOp::Reg { reg: 0x00, value: page },
    ]
}

fn control(reg: u8, value: u8) -> Vec<BusOp> {
    let mut ops = select(0, 0);
    ops.push(BusOp::Reg { reg, value });
    ops
}

#[test]
fn volume_and_mute() {
    let mut amp = Tas5830::new_default();
    assert_eq!(amp.address(), 0x60);
    assert_eq!(Tas5830::new(0x61).address(), 0x61);
    assert_eq!(amp.get_volume_percent(), 76);
    assert_eq!(amp.set_volume(0x40), control(0x4C, 0x40));
    assert!(!amp.is_muted());
    assert_eq!(amp.mute(), control(0x4C, 0xFF));
    assert!(amp.is_muted());
    // The volume is kept for later.
    assert_eq!(amp.set_volume_percent(50), vec![]);
    assert_eq!(amp.unmute(), control(0x4C, 0x68));
    assert_eq!(amp.toggle_mute(), (true, control(0x4C, 0xFF)));
    assert_eq!(amp.toggle_mute(), (false, control(0x4C, 0x68)));
    amp.set_volume(0xCF);
    assert_eq!(amp.get_volume_percent(), 0);
    amp.set_volume(0);
    assert_eq!(amp.get_volume_percent(), 100);
}

#[test]
fn volume_reads_back_within_one() {
    let mut amp = Tas5830::new_default();
    for p in 0..=100u8 {
        amp.set_volume_percent(p);
        let back = amp.get_volume_percent();
        assert!(back <= p && p <= back + 1);
    }
}

#[test]
fn bus_messages() {
    assert_eq!(BusOp::Reg { reg: 1, value: 2 }.to_message(), vec![1, 2]);
    assert_eq!(
        BusOp::Word { reg: 8, word: 0x0102_0304 }.to_message(),
        vec![8, 1, 2, 3, 4]
    );
    assert_eq!(BusOp::Read { reg: 9, len: 4 }.to_message(), vec![9]);
    assert!(BusOp::Delay { ms: 5 }.to_message().is_empty());
    assert!(BusOp::MutePin(true).to_message().is_empty());
}

#[test]
fn eq_locations() {
    assert_eq!(eq_coeff_location(0, 0), (0x01, 0x30));
    assert_eq!(eq_coeff_location(3, 4), (0x01, 0x7C));
    assert_eq!(eq_coeff_location(4, 0), (0x02, 0x08));
    assert_eq!(eq_coeff_location(9, 4), (0x02, 0x7C));
    assert_eq!(eq_coeff_location(10, 0), (0x03, 0x08));
    assert_eq!(eq_coeff_location(12, 0), (0x03, 0x30));
    assert_eq!(eq_coeff_location(23, 4).1 % 4, 0);
}

#[test]
fn eq_bands() {
    let amp = Tas5830::new_default();
    let coeffs = BiquadCoeffs::from_raw(0x0800_0000, -1, 2, 3, -4);
    let mut expected = select(0xAA, 1);
    for (i, word) in [0x0800_0000u32, 0xFFFF_FFFF, 2, 3, 0xFFFF_FFFC].iter().enumerate() {
        expected.push(BusOp::Word { reg: 0x30 + 4 * i as u8, word: *word });
    }
    let ops: Result<Vec<BusOp>, Error<()>> = amp.set_eq_band(0, &coeffs);
    assert_eq!(ops.unwrap(), expected);
    let refused: Result<Vec<BusOp>, Error<()>> = amp.set_eq_band(24, &coeffs);
    assert!(matches!(refused, Err(Error::InvalidBand)));
    assert!(matches!(Error::from(7u8), Error::I2c(7)));
    // 24 bands, none of which spans two pages.
    assert_eq!(amp.clear_eq().len(), 24 * 8);
}

#[test]
fn eq_bypass_keeps_other_bits() {
    let amp = Tas5830::new_default();
    let mut expected = select(0, 0);
    expected.push(BusOp::Read { reg: regs::DSP_MISC, len: 1 });
    assert_eq!(amp.read_eq_bypass(), expected);
    assert_eq!(amp.set_eq_bypass(0x86, true), BusOp::Reg { reg: 0x66, value: 0x87 });
    assert_eq!(amp.set_eq_bypass(0x87, false), BusOp::Reg { reg: 0x66, value: 0x86 });
}

#[test]
fn mixer_accesses() {
    let amp = Tas5830::new_default();
    let ops = amp.set_mixer_mode(MixerMode::Mono);
    let mut expected = select(0x8C, 0x09);
    for reg in [0x74, 0x78, 0x7C] {
        expected.push(BusOp::Word { reg, word: 0x0040_0000 });
    }
    expected.extend(select(0x8C, 0x0A));
    expected.push(BusOp::Word { reg: 0x08, word: 0x0040_0000 });
    expected.extend(select(0x8C, 0x09));
    for reg in [0x74, 0x78, 0x7C] {
        expected.push(BusOp::Read { reg, len: 4 });
    }
    expected.extend(select(0x8C, 0x0A));
    expected.push(BusOp::Read { reg: 0x08, len: 4 });
    assert_eq!(ops, expected);
    assert_eq!(amp.set_mixer(&MixerGains::mono()), expected);
}

#[test]
fn channel_volume_and_gain_accesses() {
    let amp = Tas5830::new_default();
    let mut expected = select(0x8C, 0x06);
    expected.push(BusOp::Word { reg: 0x64, word: 0x0080_0000 });
    expected.push(BusOp::Word { reg: 0x68, word: 0x0040_0000 });
    let volume = ChannelVolume { left: Gain923::unity(), right: Gain923::from_db(-6) };
    assert_eq!(amp.set_channel_volume(&volume), expected);
    assert_eq!(amp.set_analog_gain(7), control(0x54, 7));
    assert_eq!(amp.set_analog_gain(200), control(0x54, 31));
    assert_eq!(amp.clear_faults(), control(0x78, 0x80));
    assert_eq!(
        amp.write_raw_sequence(&[(1, 2), (3, 4)]),
        vec![BusOp::Reg { reg: 1, value: 2 }, BusOp::Reg { reg: 3, value: 4 }]
    );
}

#[test]
fn fault_accesses() {
    let amp = Tas5830::new_default();
    let mut expected = select(0, 0);
    for reg in [0x70, 0x71, 0x72, 0x73] {
        expected.push(BusOp::Read { reg, len: 1 });
    }
    assert_eq!(amp.read_faults(), expected);
    let mut expected = select(0, 0);
    expected.push(BusOp::Read { reg: 0x68, len: 1 });
    assert_eq!(amp.get_power_state(), expected);
}

#[test]
fn boot_accesses() {
    let amp = Tas5830::new_default();
    assert_eq!(
        amp.init(&[(0x03, 0x02)]),
        vec![
            BusOp::PowerDownPin(true),
            BusOp::MutePin(false),
            BusOp::Delay { ms: 5 },
            BusOp::Read { reg: 0x67, len: 1 },
            BusOp::Reg { reg: 0x03, value: 0x02 },
        ]
    );
}

/// The words that accesses store, with book, page and register.
fn words(ops: &[BusOp]) -> Vec<(u8, u8, u8, u32)> {
    let (mut book, mut page) = (0u8, 0u8);
    let mut stored = Vec::new();
    for op in ops {
        match *op {
            BusOp::Reg { reg: 0x00, value } => page = value,
            BusOp::Reg { reg: 0x7F, value } if page == 0 => book = value,
            BusOp::Word { reg, word } => stored.push((book, page, reg, word)),
            _ => {}
        }
    }
    stored
}

#[test]
fn play_accesses() {
    let mut amp = Tas5830::new_default();
    let mut config = DspConfig::default();
    config.processing = vec![(0x11, 0x22)];
    config.digital_volume = 0x12;
    config.eq_bypass = true;
    let setup = amp.play_setup(&[(0x66, 0x87)], &config);
    assert_eq!(setup[0], BusOp::Delay { ms: 5 });
    assert_eq!(setup[1], BusOp::Reg { reg: 0x66, value: 0x87 });
    // The processing chain: a passthrough filter in every place.
    let flat = amp.clear_eq();
    let end = 2 + flat.len();
    assert_eq!(&setup[2..end], &flat[..]);
    let stored = words(&setup[2..end]);
    assert_eq!(stored.len(), 120);
    for band in 0..24u8 {
        for coeff in 0..5u8 {
            let (page, reg) = eq_coeff_location(band, coeff);
            let word = if coeff == 0 { 0x0800_0000 } else { 0 };
            assert!(stored.contains(&(0xAA, page, reg, word)));
        }
    }
    assert_eq!(setup[end], BusOp::Reg { reg: 0x11, value: 0x22 });
    assert_eq!(&setup[setup.len() - 4..], &control(0x30, 0)[..]);
    assert!(setup.contains(&BusOp::Reg { reg: 0x66, value: 0x01 }));
    assert_eq!(amp.unmute(), control(0x4C, 0x30));
    let start = amp.play_start(&config);
    let volume = BusOp::Reg { reg: 0x4C, value: 0x12 };
    assert!(start.contains(&volume));
    assert_eq!(start.last(), Some(&BusOp::Reg { reg: 0x03, value: 3 }));
    assert_eq!(amp.unmute(), control(0x4C, 0x12));
}

#[test]
fn play_is_awaited() {
    let amp = Tas5830::new_default();
    let mut monitor = PlayMonitor::new();
    let mut expected = vec![BusOp::Delay { ms: 10 }];
    expected.extend(amp.get_power_state());
    assert_eq!(monitor.step(&amp), expected);
    monitor.observe(PowerState::HiZ);
    assert_eq!(monitor, PlayMonitor::Waiting(1));
    monitor.observe(PowerState::Play);
    assert_eq!(monitor, PlayMonitor::Done);
    assert_eq!(monitor.step(&amp), vec![BusOp::MutePin(true)]);
}

#[test]
fn play_is_retried_once() {
    let amp = Tas5830::new_default();
    let mut monitor = PlayMonitor::new();
    for _ in 0..10 {
        assert!(matches!(monitor, PlayMonitor::Waiting(_)));
        monitor.observe(PowerState::HiZ);
    }
    assert_eq!(monitor, PlayMonitor::Retrying);
    assert!(monitor.step(&amp).contains(&BusOp::Reg { reg: 0x78, value: 0x80 }));
    monitor.observe(PowerState::HiZ);
    assert_eq!(monitor, PlayMonitor::Done);
}

#[test]
fn gains() {
    assert_eq!(Gain923::unity().to_bytes(), [0x00, 0x80, 0x00, 0x00]);
    assert_eq!(Gain923::mute().0, 0);
    assert_eq!(Gain923::minus_6db().0, 0x0040_0000);
    assert_eq!(Gain923::from_db(0), Gain923::unity());
    assert_eq!(Gain923::from_db(-6), Gain923::minus_6db());
    assert_eq!(Gain923::from_db(6).0, 0x0100_0000);
    assert_eq!(Gain923::from_db(48).0, 0x8000_0000);
    // Above the format the gain stays at its largest value.
    assert_eq!(Gain923::from_db(53).0, 0xB555_5555);
    assert_eq!(Gain923::from_db(54).0, 0xB555_5555);
    assert_eq!(Gain923::from_db(60).0, 0xB555_5555);
    assert_eq!(Gain923::from_db(i16::MAX).0, 0xB555_5555);
    assert_eq!(Gain923::from_db(-109).0, 30);
    assert_eq!(Gain923::from_db(-110), Gain923::mute());
    assert_eq!(Gain923::from_db(i16::MIN), Gain923::mute());
    for db in [-108, -60, -12, -6, 0, 6, 36, 42] {
        assert_eq!(Gain923::from_db(db + 6).0, 2 * Gain923::from_db(db).0);
    }
    assert!(Gain923::from_db(9).0.abs_diff(2 * Gain923::from_db(3).0) <= 1);
    for db in -120..120 {
        assert!(Gain923::from_db(db).0 <= Gain923::from_db(db + 1).0);
        assert_eq!(Gain923::from_db(db) == Gain923::mute(), db <= -110);
    }
}

#[test]
fn mixer_presets() {
    assert_eq!(MixerMode::Stereo.to_gains(), MixerGains::stereo());
    assert_eq!(MixerMode::LeftOnly.to_gains(), MixerGains::left_only());
    assert_eq!(MixerMode::RightOnly.to_gains(), MixerGains::right_only());
    let stereo = MixerGains::stereo();
    assert_eq!(stereo.l2l, Gain923::unity());
    assert_eq!(stereo.r2l, Gain923::mute());
    assert_eq!(ChannelVolume::unity().right, Gain923::unity());
    let mono = MixerGains::mono();
    assert_eq!(mono.l2l.0 + mono.r2l.0, Gain923::unity().0);
}

#[test]
fn biquads() {
    let c = BiquadCoeffs::from_raw(0x0800_0000, -2, 3, -4, 5);
    assert_eq!(c.coeff_word(1), 0xFFFF_FFFE);
    assert_eq!(c.coeff_word(4), 5);
    assert_eq!(&c.to_bytes()[..8], &[8, 0, 0, 0, 0xFF, 0xFF, 0xFF, 0xFE]);
    assert_eq!(BiquadCoeffs::passthrough(), BiquadCoeffs::from_raw(0x0800_0000, 0, 0, 0, 0));
    assert_eq!(BiquadCoeffs::mute(), BiquadCoeffs::from_raw(0, 0, 0, 0, 0));
}

#[test]
fn faults() {
    let none = FaultStatus { chan_fault: 0, global_fault1: 0, global_fault2: 0, ot_warning: 0 };
    assert!(!none.has_fault() && !none.has_ot_warning());
    let some = FaultStatus { chan_fault: 5, global_fault1: 4, global_fault2: 1, ot_warning: 8 };
    assert!(some.has_fault() && some.has_ot_warning());
    assert!(some.right_oc() && some.left_oc() && !some.right_dc() && !some.left_dc());
    assert!(some.clock_fault() && !some.pvdd_uv() && !some.pvdd_ov());
    assert!(some.thermal_shutdown());
}

fn write_of(op: &FlashOp) -> (u32, Vec<u8>) {
    match op {
        FlashOp::Write { offset, bytes } => (*offset, bytes.clone()),
        FlashOp::Erase { .. } => panic!("not a write"),
    }
}

fn run(sector: &mut [u8], ops: &[FlashOp]) {
    for op in ops {
        match op {
            FlashOp::Erase { from, to } => {
                assert_eq!((*from, *to), (SETTINGS_OFFSET, SETTINGS_OFFSET + 4096));
                for b in sector.iter_mut() {
                    *b = 0xFF;
                }
            }
            FlashOp::Write { offset, bytes } => {
                let at = (*offset - SETTINGS_OFFSET) as usize;
                for (i, b) in bytes.iter().enumerate() {
                    sector[at + i] &= *b;
                }
            }
        }
    }
}

#[test]
fn saved_settings_are_loaded() {
    let mut sector = vec![0xFFu8; 4096];
    assert_eq!(find_last_entry(&sector), None);
    assert_eq!(load(&sector), PersistedSettings { volume: 50, muted: false });
    assert_eq!(load(&sector), PersistedSettings::default());
    let mut erased = 0;
    for i in 0..2100u32 {
        let settings = PersistedSettings { volume: (i % 101) as u8, muted: i % 3 == 0 };
        let ops = save(&sector, &settings);
        if ops.len() == 2 {
            erased += 1;
        }
        run(&mut sector, &ops);
        assert_eq!(load(&sector), settings);
        assert_eq!(find_last_entry(&sector), Some(i as usize % MAX_ENTRIES));
    }
    // Only a full sector is erased.
    assert_eq!(erased, 2);
}

#[test]
fn settings_entry_in_detail() {
    let mut sector = vec![0xFFu8; 4096];
    let settings = PersistedSettings { volume: 77, muted: true };
    let ops = save(&sector, &settings);
    assert_eq!(ops.len(), 1);
    assert_eq!(write_of(&ops[0]), (0x7F_F000, vec![0xA5, 77, 1, 0xFF]));
    run(&mut sector, &ops);
    assert_eq!(write_of(&save(&sector, &settings)[0]).0, 0x7F_F004);
    sector[1] = 230;
    assert_eq!(load(&sector), PersistedSettings { volume: 100, muted: true });
}

#[test]
fn corrupt_settings() {
    let mut sector = vec![0xFFu8; 4096];
    sector[0] = 0x12;
    assert_eq!(load(&sector), PersistedSettings::default());
    let settings = PersistedSettings { volume: 1, muted: false };
    let ops = save(&sector, &settings);
    assert_eq!(ops.len(), 2);
    run(&mut sector, &ops);
    assert_eq!(load(&sector), settings);
    // A corrupt entry behind a valid one is skipped, and not written over.
    sector[4] = 0x12;
    assert_eq!(find_last_entry(&sector), Some(0));
    assert_eq!(write_of(&save(&sector, &settings)[0]).0, SETTINGS_OFFSET + 8);
    assert_eq!(load(&sector[..0]), PersistedSettings::default());
}

const IDLE: Pins = Pins { a: true, b: true, button: false };

#[test]
fn encoder_turns() {
    let mut encoder = RotaryEncoder::new(0, IDLE);
    assert_eq!(encoder.poll(10_000, IDLE), None);
    let mut events = Vec::new();
    let mut now = 20_000;
    for _ in 0..3 {
        for pins in [
            Pins { a: false, b: true, button: false },
            Pins { a: false, b: false, button: false },
            Pins { a: true, b: false, button: false },
            IDLE,
        ] {
            if let Some(event) = encoder.poll(now, pins) {
                events.push(event);
            }
            now += 10_000;
        }
    }
    let one_way = events.clone();
    assert!(!one_way.is_empty());
    events.clear();
    for _ in 0..3 {
        for pins in [
            Pins { a: true, b: false, button: false },
            Pins { a: false, b: false, button: false },
            Pins { a: false, b: true, button: false },
            IDLE,
        ] {
            if let Some(event) = encoder.poll(now, pins) {
                events.push(event);
            }
            now += 10_000;
        }
    }
    assert_eq!(events.len(), one_way.len());
    assert!(one_way.iter().all(|e| *e == one_way[0]));
    assert!(events.iter().all(|e| *e == events[0]));
    assert!(events[0] != one_way[0]);
}

#[test]
fn encoder_is_pressed_short_and_long() {
    let pressed = Pins { a: true, b: true, button: true };
    let mut encoder = RotaryEncoder::new(0, IDLE);
    assert_eq!(encoder.poll(100_000, pressed), Some(EncoderEvent::Press));
    assert_eq!(encoder.poll(200_000, pressed), None);
    assert_eq!(encoder.poll(300_000, IDLE), Some(EncoderEvent::Release));
    // Half a second is still short.
    assert_eq!(encoder.poll(400_000, pressed), Some(EncoderEvent::Press));
    assert_eq!(encoder.poll(900_000, IDLE), Some(EncoderEvent::Release));
    assert_eq!(encoder.poll(1_000_000, pressed), Some(EncoderEvent::Press));
    assert_eq!(encoder.poll(1_500_001, IDLE), Some(EncoderEvent::LongPress));
}

#[test]
fn bouncing_button_is_ignored() {
    let pressed = Pins { a: true, b: true, button: true };
    let mut encoder = RotaryEncoder::new(0, IDLE);
    assert_eq!(encoder.poll(100_000, pressed), Some(EncoderEvent::Press));
    assert_eq!(encoder.poll(110_000, IDLE), None);
    assert_eq!(encoder.poll(120_000, IDLE), None);
    assert_eq!(encoder.poll(120_001, IDLE), Some(EncoderEvent::Release));
}
