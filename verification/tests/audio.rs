use fixed::traits::ToFixed;
use fixed::types::U24F8;
use otteramp_dsp::audio::capture::{analyze_capture, sf_info, SampFreqInfo, SampleFreq};
use otteramp_dsp::audio::convert::{justify24, sample_to_word, word_to_sample};
use otteramp_dsp::audio::i2s::{calculate_clock_divider, ClockSpeed, I2sTx};
use otteramp_dsp::audio::output::{
    play_frames, OutputLoop, OutputStep, SOURCE_LINEIN, SOURCE_SPDIF, SOURCE_USB,
};
use otteramp_dsp::audio::pipeline::{AudioRingBuffer, StereoFrame, BUFFER_SIZE};
use otteramp_dsp::audio::resample::{extract_audio_sample, Resampler};

/// A capture made of runs of ones and zeros, starting with ones.
fn capture(runs: &[usize]) -> Vec<u32> {
    let mut words = vec![0u32; 128];
    let mut at = 0;
    let mut level = true;
    let mut i = 0;
    while at < 128 * 32 {
        for _ in 0..runs[i % runs.len()] {
            if at < 128 * 32 && level {
                words[at / 32] |= 1 << (31 - at % 32);
            }
            at += 1;
        }
        level = !level;
        i += 1;
    }
    words
}

#[test]
fn frequencies_in_hertz() {
    assert_eq!(SampleFreq::Unknown.as_hz(), 0);
    assert_eq!(SampleFreq::Hz44100.as_hz(), 44_100);
    assert_eq!(SampleFreq::Hz48000.as_hz(), 48_000);
    assert_eq!(SampleFreq::Hz88200.as_hz(), 88_200);
    assert_eq!(SampleFreq::Hz96000.as_hz(), 96_000);
    assert_eq!(SampleFreq::Hz176400.as_hz(), 176_400);
    assert_eq!(SampleFreq::Hz192000.as_hz(), 192_000);
}

#[test]
fn edge_windows() {
    let info = SampFreqInfo::new(SampleFreq::Hz48000, 48_000);
    assert!(!info.check_min_edge(36));
    assert!(info.check_min_edge(37));
    assert!(info.check_min_edge(45));
    assert!(!info.check_min_edge(46));
    assert!(!info.check_max_edge(119));
    assert!(info.check_max_edge(120));
    assert!(info.check_max_edge(128));
    assert!(!info.check_max_edge(129));
    assert_eq!(sf_info().len(), 6);
    assert!(sf_info()[5].check_min_edge(9));
    assert!(!sf_info()[5].check_min_edge(8));
}

#[test]
fn capture_at_48_khz() {
    let data = capture(&[20, 21, 20, 21, 20, 21, 62, 62]);
    assert_eq!(analyze_capture(&data), Some((SampleFreq::Hz48000, false)));
}

#[test]
fn capture_at_48_khz_inverted() {
    let data = capture(&[20, 21, 20, 62, 62, 21]);
    assert_eq!(analyze_capture(&data), Some((SampleFreq::Hz48000, true)));
}

#[test]
fn capture_at_192_khz() {
    let data = capture(&[5, 5, 5, 5, 15, 16]);
    assert_eq!(analyze_capture(&data), Some((SampleFreq::Hz192000, false)));
}

#[test]
fn capture_without_signal() {
    assert_eq!(analyze_capture(&[0u32; 128]), None);
    assert_eq!(analyze_capture(&[u32::MAX; 128]), None);
    assert_eq!(analyze_capture(&[0xAAAA_AAAA; 128]), None);
}

#[test]
fn words_and_samples() {
    assert_eq!(word_to_sample(0xFFFF_FFFF), -1);
    assert_eq!(word_to_sample(0x7FFF_FFFF), i32::MAX);
    assert_eq!(sample_to_word(-1), 0xFFFF_FFFF);
    assert_eq!(sample_to_word(i32::MIN), 0x8000_0000);
    assert_eq!(word_to_sample(sample_to_word(-12345)), -12345);
    assert_eq!(justify24(0x00_0001), 256);
    assert_eq!(justify24(0xFF_FFFF), -256);
    assert_eq!(justify24(0x80_0000), i32::MIN);
}

#[test]
fn ring_keeps_order() {
    let mut ring = AudioRingBuffer::new();
    assert_eq!(ring.available(), 0);
    assert_eq!(ring.space(), BUFFER_SIZE);
    assert_eq!(ring.read_sample(), None);
    for i in 0..300 {
        assert!(ring.write_sample(StereoFrame::new(i, -i)));
    }
    for i in 0..300 {
        assert_eq!(ring.read_sample(), Some(StereoFrame::new(i, -i)));
    }
    for i in 0..300 {
        assert!(ring.write_sample(StereoFrame::new(i, i)));
    }
    assert_eq!(ring.available(), 300);
    assert_eq!(ring.read_sample(), Some(StereoFrame::new(0, 0)));
    ring.clear();
    assert_eq!(ring.available(), 0);
}

#[test]
fn full_ring_drops_frames() {
    let mut ring = AudioRingBuffer::new();
    for i in 0..512 {
        assert!(ring.write_sample(StereoFrame::new(i, i)));
    }
    assert_eq!(ring.space(), 0);
    assert!(!ring.write_sample(StereoFrame::new(999, 999)));
    assert_eq!(ring.available(), 512);
    assert_eq!(ring.read_sample(), Some(StereoFrame::new(0, 0)));
}

#[test]
fn ring_filled_in_portions() {
    let frames: Vec<StereoFrame> = (0..600).map(|i| StereoFrame::new(i, 2 * i)).collect();
    let mut whole = AudioRingBuffer::new();
    whole.write_all(&frames);
    let mut parts = AudioRingBuffer::new();
    parts.write_all(&frames[..200]);
    parts.write_all(&frames[200..]);
    assert_eq!(whole.available(), 512);
    while let Some(frame) = whole.read_sample() {
        assert_eq!(parts.read_sample(), Some(frame));
    }
    assert_eq!(parts.read_sample(), None);
}

#[test]
fn silent_frames() {
    assert_eq!(StereoFrame::zero(), StereoFrame::new(0, 0));
    assert_eq!(StereoFrame::default(), StereoFrame::zero());
}

fn mono(values: &[i32]) -> Vec<StereoFrame> {
    values.iter().map(|&v| StereoFrame::new(v, -v)).collect()
}

#[test]
fn resampling_doubles() {
    let mut r = Resampler::new(96_000);
    assert!(r.is_passthrough());
    r.set_input_rate(48_000);
    assert!(!r.is_passthrough());
    assert_eq!(r.input_rate(), 48_000);
    let mut out = vec![StereoFrame::zero(); 8];
    let n = r.process(&mono(&[1000, 2000]), &mut out);
    assert_eq!(n, 6);
    assert_eq!(&out[..6], &mono(&[0, 0, 0, 500, 1000, 1500])[..]);
}

#[test]
fn resampling_halves() {
    let mut r = Resampler::new(96_000);
    r.set_input_rate(192_000);
    let mut out = vec![StereoFrame::zero(); 8];
    let n = r.process(&mono(&[100, 200, 300, 400, 500]), &mut out);
    assert_eq!(n, 3);
    assert_eq!(&out[..3], &mono(&[0, 100, 300])[..]);
}

#[test]
fn resampling_passes_through() {
    let mut r = Resampler::new(96_000);
    let mut out = vec![StereoFrame::zero(); 2];
    assert_eq!(r.process(&mono(&[7, 8, 9]), &mut out), 2);
    assert_eq!(out, mono(&[7, 8]));
}

#[test]
fn resampling_in_portions() {
    let input = mono(&[100, -200, 300, 400, -500, 600, 700]);
    let mut whole = Resampler::new(96_000);
    whole.set_input_rate(44_100);
    let mut expected = vec![StereoFrame::zero(); 64];
    let total = whole.process(&input, &mut expected);

    let mut parts = Resampler::new(96_000);
    parts.set_input_rate(44_100);
    let mut first = vec![StereoFrame::zero(); 64];
    let a = parts.process(&input[..3], &mut first);
    let mut second = vec![StereoFrame::zero(); 64];
    let b = parts.process(&input[3..], &mut second);
    assert_eq!(a + b, total);
    assert_eq!(&first[..a], &expected[..a]);
    assert_eq!(&second[..b], &expected[a..total]);
}

#[test]
fn resampling_after_reset() {
    let mut r = Resampler::new(96_000);
    r.set_input_rate(48_000);
    let mut out = vec![StereoFrame::zero(); 8];
    r.process(&mono(&[1000, 2000]), &mut out);
    r.reset();
    assert_eq!(r.process(&mono(&[4]), &mut out), 4);
    assert_eq!(&out[..4], &mono(&[0, 0, 0, 2])[..]);
}

#[test]
fn interpolated_samples() {
    let r = Resampler::new(96_000);
    assert_eq!(r.interpolate(100, 200, 0), 100);
    assert_eq!(r.interpolate(100, 200, 0x8000), 150);
    assert_eq!(r.interpolate(0, -1, 0x8000), -1);
    assert_eq!(r.interpolate(i32::MIN, i32::MAX, 0x8000), -1);
}

#[test]
fn spdif_words_resampled() {
    let mut r = Resampler::new(96_000);
    let mut out = vec![StereoFrame::zero(); 4];
    assert_eq!(r.process_spdif(&[0x0123_4560], &mut out), 0);
    assert_eq!(r.process_spdif(&[0x0123_4567, 0x0800_000F, 0], &mut out), 1);
    assert_eq!(out[0], StereoFrame::new(0x091A_2B00, -0x4000_0000));
    assert_eq!(extract_audio_sample(0xF123_456B), 0x091A_2B00);
}

#[test]
fn clock_dividers() {
    assert_eq!(calculate_clock_divider(96_000, 150_000_000), 0x0C35);
    // 6802.72 and 3401.36 steps
    assert_eq!(calculate_clock_divider(44_100, 150_000_000), 6803);
    assert_eq!(calculate_clock_divider(88_200, 150_000_000), 3401);
    // Half a step goes to the even side.
    assert_eq!(calculate_clock_divider(4, 5), 2);
    assert_eq!(calculate_clock_divider(4, 7), 4);
    assert_eq!(calculate_clock_divider(1, 0x7FFF_FFFF), 0xFFFF_FFFE);
}

#[test]
fn clock_dividers_agree_with_floating_point() {
    for sys_freq in [1u32, 12_000_000, 125_000_000, 150_000_000, 0x7FFF_FFFF, u32::MAX] {
        for sample_rate in [2u32, 3, 7, 44_100, 48_000, 88_200, 96_000, 192_000, u32::MAX] {
            let ratio = sys_freq as f64 / (sample_rate as u64 * 128) as f64;
            let fixed: U24F8 = ratio.to_fixed();
            assert_eq!(calculate_clock_divider(sample_rate, sys_freq), fixed.to_bits());
        }
    }
}

#[test]
fn clock_speeds() {
    let mut tx = I2sTx::new(96_000, 150_000_000);
    assert_eq!(tx.sample_rate(), 96_000);
    assert_eq!(tx.clkdiv(), 0x0C_3500);
    assert!(!tx.adjust_clock(ClockSpeed::Normal));
    assert!(tx.adjust_clock(ClockSpeed::Slow));
    assert_eq!(tx.clkdiv(), 0x0C_3600);
    assert!(tx.adjust_clock(ClockSpeed::Fast));
    assert_eq!(tx.clkdiv(), 0x0C_3400);
    assert!(!tx.set_sample_rate(96_000, 1));
    assert_eq!(tx.clkdiv(), 0x0C_3400);
    assert!(tx.set_sample_rate(88_200, 150_000_000));
    assert_eq!(tx.sample_rate(), 88_200);
    assert_eq!(tx.clkdiv(), 0x0D_4900);
}

#[test]
fn output_plays_frames() {
    let mut ring = AudioRingBuffer::new();
    let mut output = OutputLoop::new(I2sTx::new(96_000, 150_000_000));
    play_frames(&mut ring, SOURCE_SPDIF, SOURCE_USB, &mono(&[5]));
    assert_eq!(ring.available(), 0);
    play_frames(&mut ring, SOURCE_USB, SOURCE_USB, &mono(&[5]));
    assert_eq!(
        output.step(&mut ring, SOURCE_USB, Some((1, 2))),
        OutputStep {
            clkdiv: None,
            left: 5,
            right: (-5i32) as u32,
            peaks: Some((5, 5)),
        }
    );
    assert_eq!(
        output.step(&mut ring, SOURCE_USB, None),
        OutputStep { clkdiv: None, left: 0, right: 0, peaks: None }
    );
}

#[test]
fn output_plays_line_in() {
    let mut ring = AudioRingBuffer::new();
    let mut output = OutputLoop::new(I2sTx::new(96_000, 150_000_000));
    let step = output.step(&mut ring, SOURCE_LINEIN, Some((0x4000_0000, 0x0000_0003)));
    assert_eq!(step.left, 0x8000_0000);
    assert_eq!(step.right, 6);
    assert_eq!(step.peaks, Some((0x8000_0000, 6)));
}

#[test]
fn clock_follows_buffer_level() {
    let mut ring = AudioRingBuffer::new();
    let mut output = OutputLoop::new(I2sTx::new(96_000, 150_000_000));
    for _ in 0..255 {
        assert_eq!(output.step(&mut ring, SOURCE_USB, None).clkdiv, None);
    }
    // An empty buffer slows the output down.
    assert_eq!(output.step(&mut ring, SOURCE_USB, None).clkdiv, Some(0x0C_3600));
    // A full one speeds it up.
    let frames = mono(&[1; 512]);
    ring.write_all(&frames);
    for _ in 0..255 {
        output.step(&mut ring, SOURCE_USB, None);
        ring.write_all(&frames);
    }
    assert_eq!(output.step(&mut ring, SOURCE_USB, None).clkdiv, Some(0x0C_3400));
    // Line-in shares the clock.
    for _ in 0..255 {
        output.step(&mut ring, SOURCE_LINEIN, None);
    }
    assert_eq!(output.step(&mut ring, SOURCE_LINEIN, None).clkdiv, Some(0x0C_3500));
}

#[test]
fn output_rate_changes() {
    let mut ring = AudioRingBuffer::new();
    ring.write_all(&mono(&[1, 2, 3]));
    let mut output = OutputLoop::new(I2sTx::new(96_000, 150_000_000));
    assert_eq!(output.rate_change(0), None);
    assert_eq!(output.rate_change(96_000), None);
    assert_eq!(output.rate_change(88_200), Some(88_200));
    assert_eq!(output.change_rate(88_200, 150_000_000, &mut ring), 0x0D_4900);
    assert_eq!(ring.available(), 0);
    assert_eq!(output.rate_change(88_200), None);
}
