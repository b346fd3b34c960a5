use otteramp_dsp::config::flash::{
    erase_config, read_config, read_header, write_config, CONFIG_MAX_DATA, CONFIG_MAX_SIZE,
    CONFIG_OFFSET,
};
use otteramp_dsp::config::number::{
    find, parse_decimal, parse_hex_u8, parse_i16, parse_u32, parse_u8,
};
use otteramp_dsp::config::parser::{
    eq_bytes, parse, parse_channel_volume, parse_device, parse_eq_band, parse_eq_global,
    parse_mixer, parse_processing, parse_section, parse_volume, set_filter_freq, set_filter_gain,
    set_filter_q, split_kv, starts_with, trim, LineIter, ParseError, ParseErrorKind, Section,
};
use otteramp_dsp::config::{load_config, DspConfigFile};
use otteramp_dsp::drivers::tas5830::{
    BiquadCoeffs, Decimal, FilterType, Gain923, MixerGains, MixerMode,
};
use otteramp_dsp::storage::{FlashOp, FLASH_SIZE};

fn run(flash: &mut [u8], ops: &[FlashOp]) {
    for op in ops {
        match op {
            FlashOp::Erase { from, to } => {
                for b in &mut flash[*from as usize..*to as usize] {
                    *b = 0xFF;
                }
            }
            FlashOp::Write { offset, bytes } => {
                for (i, b) in bytes.iter().enumerate() {
                    flash[*offset as usize + i] &= *b;
                }
            }
        }
    }
}

fn region(flash: &[u8]) -> &[u8] {
    &flash[CONFIG_OFFSET as usize..CONFIG_OFFSET as usize + CONFIG_MAX_SIZE]
}

#[test]
fn numbers() {
    assert_eq!(find(b"a=b", b'='), 1);
    assert_eq!(find(b"ab", b'='), 2);
    assert_eq!(parse_u32(b"96000"), Some(96_000));
    assert_eq!(parse_u32(b"4294967295"), Some(u32::MAX));
    assert_eq!(parse_u32(b"4294967296"), None);
    assert_eq!(parse_u32(b""), None);
    assert_eq!(parse_u32(b"-1"), None);
    assert_eq!(parse_u8(b"255"), Some(255));
    assert_eq!(parse_u8(b"256"), None);
    assert_eq!(parse_i16(b"-24.5"), Some(-24));
    assert_eq!(parse_i16(b"6"), Some(6));
    assert_eq!(parse_i16(b"-32768"), Some(i16::MIN));
    assert_eq!(parse_i16(b"32768"), None);
    assert_eq!(parse_i16(b"1x"), None);
    assert_eq!(parse_i16(b""), None);
    assert_eq!(parse_hex_u8(b"0x2A"), Some(0x2A));
    assert_eq!(parse_hex_u8(b"2a"), Some(0x2A));
    assert_eq!(parse_hex_u8(b"0XfF"), Some(0xFF));
    assert_eq!(parse_hex_u8(b"7"), Some(7));
    assert_eq!(parse_hex_u8(b"0x"), None);
    assert_eq!(parse_hex_u8(b"123"), None);
    assert_eq!(parse_hex_u8(b"g1"), None);
}

#[test]
fn decimals() {
    assert_eq!(parse_decimal(b"123"), Some(Decimal::new(123, 0, 1)));
    assert_eq!(parse_decimal(b"1.5"), Some(Decimal::new(1, 5, 10)));
    assert_eq!(parse_decimal(b"0.707"), Some(Decimal::new(0, 707, 1000)));
    assert_eq!(
        parse_decimal(b"-3.14"),
        Some(Decimal { negative: true, integer: 3, fraction: 14, divisor: 100 })
    );
    // Nine decimals count; the others only have to be digits.
    let quarter = Decimal::new(0, 250_000_000, 1_000_000_000);
    assert_eq!(parse_decimal(b"0.250000000"), Some(quarter));
    assert_eq!(parse_decimal(b"0.2500000000"), Some(quarter));
    assert_eq!(parse_decimal(b"0.25000000099999999999"), Some(quarter));
    assert_eq!(parse_decimal(b"0.2500000000x"), None);
    assert_eq!(parse_decimal(b"4294967295"), Some(Decimal::new(u32::MAX, 0, 1)));
    assert_eq!(parse_decimal(b"5000000000.5"), Some(Decimal::new(u32::MAX, 5, 10)));
    assert_eq!(parse_decimal(b"1.2.3"), None);
    assert_eq!(parse_decimal(b"1e3"), None);
    assert_eq!(parse_decimal(b""), None);
}

#[test]
fn lines() {
    let mut lines = LineIter::new(b"a\r\n\nb");
    assert_eq!(lines.next(), Some(&b"a"[..]));
    assert_eq!(lines.next(), Some(&b""[..]));
    assert_eq!(lines.next(), Some(&b"b"[..]));
    assert_eq!(lines.next(), None);
}

#[test]
fn trimming() {
    assert_eq!(trim(b"  a b\t"), b"a b");
    assert_eq!(trim(b" \t "), b"");
    assert_eq!(trim(b"\x0Ckey\r"), b"key");
    assert_eq!(trim(trim(b" x ")), trim(b" x "));
}

#[test]
fn keys_and_values() {
    assert_eq!(split_kv(b"key = value = x"), Some((&b"key"[..], &b"value = x"[..])));
    assert_eq!(split_kv(b"key="), Some((&b"key"[..], &b""[..])));
    assert_eq!(split_kv(b" = value"), None);
    assert_eq!(split_kv(b"key"), None);
    assert!(eq_bytes(b"ab", b"ab"));
    assert!(!eq_bytes(b"ab", b"aB"));
    assert!(!eq_bytes(b"ab", b"abc"));
    assert!(starts_with(b"eq.3", b"eq."));
    assert!(!starts_with(b"eq", b"eq."));
}

#[test]
fn sections() {
    assert_eq!(parse_section(b"[device]"), Section::Device);
    assert_eq!(parse_section(b"[mixer]"), Section::Mixer);
    assert_eq!(parse_section(b"[channel_volume]"), Section::ChannelVolume);
    assert_eq!(parse_section(b"[volume] # x"), Section::Volume);
    assert_eq!(parse_section(b"[eq]"), Section::Eq);
    assert_eq!(parse_section(b"[eq.23]"), Section::EqBand(23));
    assert_eq!(parse_section(b"[eq.24]"), Section::Unknown);
    assert_eq!(parse_section(b"[eq.]"), Section::Unknown);
    assert_eq!(parse_section(b"[processing]"), Section::Processing);
    assert_eq!(parse_section(b"[other]"), Section::Unknown);
    assert_eq!(parse_section(b"[device"), Section::Unknown);
}

#[test]
fn device_and_volume_keys() {
    let mut config = DspConfigFile::default();
    assert_eq!(config.sample_rate, 96_000);
    parse_device(b"sample_rate", b"48000", &mut config);
    parse_device(b"other", b"1", &mut config);
    parse_device(b"sample_rate", b"x", &mut config);
    assert_eq!(config.sample_rate, 48_000);
    parse_channel_volume(b"tweeter_db", b"-6", &mut config);
    parse_channel_volume(b"right_db", b"3", &mut config);
    assert_eq!(config.channel_volume_left_db, -6);
    assert_eq!(config.channel_volume_right_db, 3);
    parse_channel_volume(b"left_db", b"-1", &mut config);
    parse_channel_volume(b"woofer_db", b"2", &mut config);
    assert_eq!(config.channel_volume_left_db, -1);
    assert_eq!(config.channel_volume_right_db, 2);
    assert_eq!(config.digital_volume, 0x30);
    parse_volume(b"digital_db", b"-10", &mut config);
    assert_eq!(config.digital_volume, 20);
    parse_volume(b"digital_db", b"5", &mut config);
    assert_eq!(config.digital_volume, 0);
    parse_volume(b"digital_db", b"-200", &mut config);
    assert_eq!(config.digital_volume, 255);
    parse_volume(b"analog_gain", b"12", &mut config);
    assert_eq!(config.analog_gain, 12);
    parse_volume(b"analog_gain", b"99", &mut config);
    assert_eq!(config.analog_gain, 31);
    parse_eq_global(b"bypass", b"true", &mut config);
    assert!(config.eq_bypass);
    parse_eq_global(b"bypass", b"True", &mut config);
    assert!(!config.eq_bypass);
}

#[test]
fn mixer_keys() {
    let mut config = DspConfigFile::default();
    for (value, mode) in [
        (&b"mono"[..], MixerMode::Mono),
        (&b"left_only"[..], MixerMode::LeftOnly),
        (&b"right_only"[..], MixerMode::RightOnly),
        (&b"stereo"[..], MixerMode::Stereo),
        (&b"mono"[..], MixerMode::Mono),
        (&b"surround"[..], MixerMode::Stereo),
    ] {
        parse_mixer(b"mode", value, &mut config);
        assert_eq!(config.mixer, mode);
    }
    assert_eq!(config.mixer_gains, None);
    parse_mixer(b"l2r", b"-6", &mut config);
    let gains = config.mixer_gains.unwrap();
    assert_eq!(gains.l2r, Gain923::from_db(-6));
    assert_eq!(gains.l2l, Gain923::unity());
    parse_mixer(b"l2l", b"-12", &mut config);
    parse_mixer(b"r2l", b"0", &mut config);
    parse_mixer(b"r2r", b"6", &mut config);
    assert_eq!(
        config.mixer_gains,
        Some(MixerGains {
            l2l: Gain923::from_db(-12),
            r2l: Gain923::from_db(0),
            l2r: Gain923::from_db(-6),
            r2r: Gain923::from_db(6),
        })
    );
}

#[test]
fn band_keys() {
    let mut config = DspConfigFile::default();
    parse_eq_band(5, b"type", b"peaking", &mut config);
    assert_eq!(
        config.eq_bands[5],
        FilterType::Peaking {
            freq_hz: Decimal::new(1000, 0, 1),
            gain_db: Decimal::new(0, 0, 1),
            q: Decimal::new(1, 41, 100),
        }
    );
    parse_eq_band(5, b"freq", b"250.5", &mut config);
    parse_eq_band(5, b"gain_db", b"-3", &mut config);
    parse_eq_band(5, b"q", b"2", &mut config);
    parse_eq_band(5, b"q", b"bad", &mut config);
    assert_eq!(
        config.eq_bands[5],
        FilterType::Peaking {
            freq_hz: Decimal::new(250, 5, 10),
            gain_db: Decimal { negative: true, integer: 3, fraction: 0, divisor: 1 },
            q: Decimal::new(2, 0, 1),
        }
    );
    parse_eq_band(5, b"type", b"none", &mut config);
    assert_eq!(config.eq_bands[5], FilterType::Bypass);
    parse_eq_band(5, b"freq", b"100", &mut config);
    assert_eq!(config.eq_bands[5], FilterType::Bypass);
    let freq_hz = Decimal::new(1000, 0, 1);
    let gain_db = Decimal::new(0, 0, 1);
    let q = Decimal::new(0, 707, 1000);
    for (name, filter) in [
        (&b"low_pass"[..], FilterType::LowPass { freq_hz, q }),
        (&b"high_pass"[..], FilterType::HighPass { freq_hz, q }),
        (&b"low_shelf"[..], FilterType::LowShelf { freq_hz, gain_db, q }),
        (&b"high_shelf"[..], FilterType::HighShelf { freq_hz, gain_db, q }),
        (&b"band_pass"[..], FilterType::BandPass { freq_hz, q }),
        (&b"notch"[..], FilterType::Notch { freq_hz, q }),
        (&b"all_pass"[..], FilterType::AllPass { freq_hz, q }),
    ] {
        parse_eq_band(0, b"type", name, &mut config);
        assert_eq!(config.eq_bands[0], filter);
    }
}

#[test]
fn filter_fields() {
    let one = Decimal::new(1, 0, 1);
    let two = Decimal::new(2, 0, 1);
    let mut notch = FilterType::Notch { freq_hz: one, q: one };
    set_filter_freq(&mut notch, two);
    set_filter_gain(&mut notch, two);
    assert_eq!(notch, FilterType::Notch { freq_hz: two, q: one });
    set_filter_q(&mut notch, two);
    assert_eq!(notch, FilterType::Notch { freq_hz: two, q: two });
    let mut shelf = FilterType::LowShelf { freq_hz: one, gain_db: one, q: one };
    set_filter_gain(&mut shelf, two);
    assert_eq!(shelf, FilterType::LowShelf { freq_hz: one, gain_db: two, q: one });
}

#[test]
fn processing_pairs() {
    let mut config = DspConfigFile::default();
    assert_eq!(parse_processing(b"0x7F", b"0x8C", &mut config), Ok(()));
    assert_eq!(
        parse_processing(b"zz", b"0", &mut config),
        Err(ParseError { line: 0, kind: ParseErrorKind::InvalidNumber })
    );
    assert_eq!(
        parse_processing(b"0", b"zz", &mut config),
        Err(ParseError { line: 0, kind: ParseErrorKind::InvalidNumber })
    );
    assert_eq!(config.processing.as_slice(), &[(0x7F, 0x8C)]);
    for i in 1..512u32 {
        let value = format!("{:02x}", i % 256);
        assert_eq!(parse_processing(b"1", value.as_bytes(), &mut config), Ok(()));
    }
    assert_eq!(
        parse_processing(b"1", b"2", &mut config),
        Err(ParseError { line: 0, kind: ParseErrorKind::TooManyProcessingPairs })
    );
    assert_eq!(config.processing.len(), 512);
    assert_eq!(config.processing[511], (1, 0xFF));
}

const FILE: &[u8] = b"# comment\r\n\
sample_rate = 1\r\n\
[device]\r\n\
  sample_rate = 48000\r\n\
; another\n\
[eq]\n\
bypass = true\n\
[eq.12]\n\
type = low_pass\n\
freq=2500\n\
[nonsense]\n\
analog_gain = 3\n\
[processing]\n\
00 = 00\n\
oops = 1\n\
7F = 8C\n\
[mixer]\n\
mode = mono";

#[test]
fn whole_file() {
    let config = parse(FILE).unwrap();
    assert_eq!(config.sample_rate, 48_000);
    assert!(config.eq_bypass);
    assert_eq!(
        config.eq_bands[12],
        FilterType::LowPass {
            freq_hz: Decimal::new(2500, 0, 1),
            q: Decimal::new(0, 707, 1000),
        }
    );
    assert_eq!(config.eq_bands[11], FilterType::Bypass);
    assert_eq!(config.analog_gain, 0);
    assert_eq!(config.processing.as_slice(), &[(0, 0), (0x7F, 0x8C)]);
    assert_eq!(config.mixer, MixerMode::Mono);
}

#[test]
fn empty_file_gives_defaults() {
    let config = parse(b"").unwrap();
    assert_eq!(config.sample_rate, 96_000);
    assert_eq!(config.digital_volume, 0x30);
    assert_eq!(config.mixer, MixerMode::Stereo);
    assert!(config.processing.is_empty());
}

#[test]
fn line_endings_do_not_matter() {
    let unix = parse(b"[device]\nsample_rate = 44100\n").unwrap();
    let dos = parse(b"[device]\r\nsample_rate = 44100\r\n").unwrap();
    assert_eq!(unix.sample_rate, 44_100);
    assert_eq!(dos.sample_rate, 44_100);
}

#[test]
fn skipped_lines_do_not_matter() {
    let plain = parse(b"[device]\nsample_rate = 44100\n[volume]\nanalog_gain = 3\n").unwrap();
    let long = parse(
        b"\r\n# rate\r\n[device]\r\n \t\r\n\r\nsample_rate = 44100\r\n  # volume\r\n[volume]\r\n\
        \t\nanalog_gain = 3\r\n#",
    )
    .unwrap();
    for config in [plain, long] {
        assert_eq!(config.sample_rate, 44_100);
        assert_eq!(config.analog_gain, 3);
        assert_eq!(config.digital_volume, 0x30);
    }
}

#[test]
fn conversion_for_the_amplifier() {
    let mut config = parse(FILE).unwrap();
    config.channel_volume_left_db = -6;
    let mut computed = [BiquadCoeffs::mute(); 24];
    computed[12] = BiquadCoeffs::from_raw(1, 2, 3, 4, 5);
    let dsp = config.to_dsp_config(&computed);
    assert_eq!(dsp.eq_bands[12], BiquadCoeffs::from_raw(1, 2, 3, 4, 5));
    assert_eq!(dsp.eq_bands[0], BiquadCoeffs::passthrough());
    assert!(dsp.eq_bypass);
    assert_eq!(dsp.mixer, MixerGains::mono());
    assert_eq!(dsp.channel_volume.left, Gain923::from_db(-6));
    assert_eq!(dsp.channel_volume.right, Gain923::from_db(0));
    assert_eq!(dsp.digital_volume, 0x30);
    assert_eq!(dsp.processing, vec![(0, 0), (0x7F, 0x8C)]);
    config.mixer_gains = Some(MixerGains::left_only());
    assert_eq!(config.to_dsp_config(&computed).mixer, MixerGains::left_only());
}

#[test]
fn stored_file_comes_first() {
    let config = load_config(Some(b"[device]\nsample_rate = 1"), b"[device]\nsample_rate = 2");
    assert_eq!(config.sample_rate, 1);
    let config = load_config(None, b"[device]\nsample_rate = 2");
    assert_eq!(config.sample_rate, 2);
}

#[test]
fn stored_files_are_read_back() {
    let mut flash = vec![0x5A; FLASH_SIZE];
    for len in [1usize, 256, 257, 5000, CONFIG_MAX_DATA] {
        let data: Vec<u8> = (0..len).map(|i| (i * 7 % 251) as u8).collect();
        let ops = write_config(&data).unwrap();
        run(&mut flash, &ops);
        assert_eq!(read_config(region(&flash)), Some(&data[..]));
        assert_eq!(read_header(region(&flash)), Some(len));
    }
    assert_eq!(flash[CONFIG_OFFSET as usize - 1], 0x5A);
    assert_eq!(flash[CONFIG_OFFSET as usize + CONFIG_MAX_SIZE], 0x5A);
    run(&mut flash, &[erase_config()]);
    assert_eq!(read_config(region(&flash)), None);
    run(&mut flash, &write_config(b"").unwrap());
    assert_eq!(read_config(region(&flash)), None);
}

#[test]
fn stored_files_in_detail() {
    assert!(write_config(&vec![0; CONFIG_MAX_DATA + 1]).is_none());
    let ops = write_config(&[1; 300]).unwrap();
    assert_eq!(ops.len(), 4);
    match &ops[0] {
        FlashOp::Erase { from, to } => assert_eq!((*from, *to), (0x78_0000, 0x78_8000)),
        _ => panic!("not erased"),
    }
    match &ops[1] {
        FlashOp::Write { offset, bytes } => {
            assert_eq!(*offset, 0x78_0000);
            assert_eq!(bytes, &vec![0xCF, 0x67, 0x01, 0x2C]);
        }
        _ => panic!("no header"),
    }
    match &ops[3] {
        FlashOp::Write { offset, bytes } => {
            assert_eq!(*offset, 0x78_0104);
            assert_eq!(bytes.len(), 44);
        }
        _ => panic!("no data"),
    }
    assert_eq!(read_header(&[0xCF, 0x67, 0, 0]), None);
    assert_eq!(read_header(&[0xCF, 0x68, 0, 1]), None);
    assert_eq!(read_header(&[0xCF, 0x67, 0x7F, 0xFD]), None);
    assert_eq!(read_header(&[0xCF, 0x67, 0x7F, 0xFC]), Some(CONFIG_MAX_DATA));
    assert_eq!(read_config(&[0xCF, 0x67, 0, 3, 1, 2]), None);
}
