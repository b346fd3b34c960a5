use otteramp_dsp::audio::capture::SampleFreq;
use otteramp_dsp::audio::pipeline::StereoFrame;
use otteramp_dsp::audio::spdif::{
    decode_variant, extract_audio, is_left_channel, relocate, DecodeStep, PioProgram, SpdifRx,
    State, SPDIF_RX_FIFO_SIZE,
};
use otteramp_dsp::audio::stream::{
    calculate_output_rate, calculate_resample_mode, convert_frames, extract_frames, ResampleMode,
    SpdifTask, TaskAction,
};

/// A capture of a 48 kHz signal.
fn capture() -> Vec<u32> {
    let runs = [20usize, 21, 20, 21, 20, 21, 62, 62];
    let mut words = vec![0u32; 128];
    let mut at = 0;
    let mut i = 0;
    while at < 4096 {
        for _ in 0..runs[i % 8] {
            if at < 4096 && i % 2 == 0 {
                words[at / 32] |= 1 << (31 - at % 32);
            }
            at += 1;
        }
        i += 1;
    }
    words
}

fn program() -> PioProgram {
    PioProgram { code: vec![0x2020, 0x0001, 0x00C5], wrap_source: 2, wrap_target: 1 }
}

/// A receiver of a 48 kHz signal, waiting for it to become stable.
fn waiting() -> SpdifRx {
    let mut rx = SpdifRx::new();
    assert!(rx.detect_signal(Some(&capture()[..])));
    match rx.start_decode(&program(), Some(3)) {
        DecodeStep::Run(_) => {}
        _ => panic!("not started"),
    }
    rx
}

fn good_words(n: usize) -> Vec<u32> {
    (0..n as u32).map(|i| (i << 4) | 0b1011).collect()
}

#[test]
fn receiver_starts_without_signal() {
    let mut rx = SpdifRx::new();
    assert_eq!(rx.state(), State::NoSignal);
    assert_eq!(rx.sample_freq(), SampleFreq::Unknown);
    assert!(!rx.is_inverted());
    assert_eq!(rx.fifo_count(), 0);
    assert!(!rx.detect_signal(None));
    assert!(!rx.detect_signal(Some(&[0u32; 128])));
    assert!(matches!(rx.start_decode(&program(), Some(0)), DecodeStep::NoFrequency));
}

#[test]
fn capture_program_is_loaded_once() {
    let mut rx = SpdifRx::new();
    assert_eq!(rx.capture_program(None), None);
    assert_eq!(rx.capture_program(Some((2, 6, 5))), Some((2, 8, 7)));
    assert_eq!(rx.capture_program(None), Some((2, 8, 7)));
}

#[test]
fn decode_program_is_loaded_then_rewritten() {
    let mut rx = SpdifRx::new();
    assert!(rx.detect_signal(Some(&capture()[..])));
    assert_eq!(rx.sample_freq(), SampleFreq::Hz48000);
    match rx.start_decode(&program(), None) {
        DecodeStep::Load(freq) => assert_eq!(freq, SampleFreq::Hz48000),
        _ => panic!("not loaded"),
    }
    match rx.start_decode(&program(), Some(3)) {
        DecodeStep::Run(plan) => {
            assert_eq!(plan.origin, 3);
            assert!(plan.rewrite.is_empty());
            assert_eq!((plan.wrap_top, plan.wrap_bottom), (5, 4));
        }
        _ => panic!("not started"),
    }
    assert_eq!(rx.state(), State::WaitingStable);
    rx.reset();
    assert_eq!(rx.state(), State::NoSignal);
    assert_eq!(rx.sample_freq(), SampleFreq::Unknown);
    assert!(rx.detect_signal(Some(&capture()[..])));
    match rx.start_decode(&program(), None) {
        DecodeStep::Run(plan) => {
            assert_eq!(plan.origin, 3);
            assert_eq!(plan.rewrite, vec![(3, 0x2020), (4, 0x0004), (5, 0x00C8)]);
        }
        _ => panic!("not started"),
    }
}

#[test]
fn decode_variants() {
    assert_eq!(decode_variant(SampleFreq::Hz44100), Some(SampleFreq::Hz48000));
    assert_eq!(decode_variant(SampleFreq::Hz88200), Some(SampleFreq::Hz96000));
    assert_eq!(decode_variant(SampleFreq::Hz192000), Some(SampleFreq::Hz192000));
    assert_eq!(decode_variant(SampleFreq::Unknown), None);
}

#[test]
fn only_jumps_are_relocated() {
    assert_eq!(relocate(0x0001, 5), 0x0006);
    assert_eq!(relocate(0x1FDF, 2), 0x1FC1);
    assert_eq!(relocate(0x2001, 5), 0x2001);
    assert_eq!(relocate(relocate(0x00C5, 9), 20), relocate(0x00C5, 29));
}

#[test]
fn stable_after_sixteen_blocks() {
    let mut rx = waiting();
    let mut sink = [0u32; 64];
    for i in 0..16 {
        assert_eq!(rx.state(), State::WaitingStable);
        let size = rx.dma_request(64).unwrap();
        assert_eq!(rx.process_dma(Some(&good_words(size))), size);
        if i < 15 {
            rx.read_fifo(&mut sink);
        }
    }
    assert_eq!(rx.state(), State::Stable);
}

#[test]
fn given_up_after_ten_losses() {
    let mut rx = waiting();
    for _ in 0..9 {
        assert_eq!(rx.process_dma(None), 0);
        assert_eq!(rx.state(), State::WaitingStable);
    }
    rx.process_dma(None);
    assert_eq!(rx.state(), State::NoSignal);
}

#[test]
fn bad_blocks_count_as_losses() {
    let mut rx = waiting();
    let mut words = vec![0u32; 64];
    // Three quarters of the words with a sync code are enough.
    for word in words.iter_mut().take(48) {
        *word = 0b1111;
    }
    for _ in 0..16 {
        let mut sink = [0u32; 64];
        rx.process_dma(Some(&words));
        rx.read_fifo(&mut sink);
    }
    assert_eq!(rx.state(), State::Stable);
    words[0] = 0;
    rx.process_dma(Some(&words));
    assert_eq!(rx.state(), State::WaitingStable);
}

#[test]
fn stuck_buffer_is_given_up() {
    let mut rx = waiting();
    let mut stored = 0;
    while let Some(size) = rx.dma_request(64) {
        rx.process_dma(Some(&vec![0b0111u32; size]));
        stored += size;
    }
    assert_eq!(stored, 767);
    assert_eq!(rx.fifo_count(), 767);
    assert_eq!(rx.state(), State::WaitingStable);
    for _ in 0..9 {
        assert_eq!(rx.dma_request(64), None);
    }
    assert_eq!(rx.state(), State::NoSignal);
}

#[test]
fn fifo_keeps_word_order() {
    let mut rx = waiting();
    let words = good_words(64);
    for _ in 0..20 {
        let size = rx.dma_request(64).unwrap();
        rx.process_dma(Some(&words[..size]));
        let mut out = [0u32; 100];
        assert_eq!(rx.read_fifo(&mut out), size);
        assert_eq!(&out[..size], &words[..size]);
    }
    assert_eq!(rx.fifo_count(), 0);
}

#[test]
fn polled_words() {
    let mut rx = waiting();
    assert!(!rx.process(&[]));
    for _ in 0..16 {
        assert!(rx.process(&[0, 0b0111]));
    }
    assert_eq!(rx.state(), State::Stable);
    assert!(rx.process(&[0, 0x10]));
    assert_eq!(rx.state(), State::WaitingStable);
    rx.stop();
    assert_eq!(rx.state(), State::NoSignal);
}

#[test]
fn audio_of_a_word() {
    assert_eq!(extract_audio(0x0123_4567), 0x1234_5600);
    assert_eq!(extract_audio(0xF800_000F), i32::MIN);
    assert!(is_left_channel(0b1111));
    assert!(is_left_channel(0b1011));
    assert!(!is_left_channel(0b0111));
}

#[test]
fn output_rates() {
    for rate in [44_100, 88_200, 176_400] {
        assert_eq!(calculate_output_rate(rate), 88_200);
    }
    for rate in [48_000, 96_000, 192_000] {
        assert_eq!(calculate_output_rate(rate), 96_000);
    }
    assert_eq!(calculate_resample_mode(44_100, 88_200), ResampleMode::Upsample2x);
    assert_eq!(calculate_resample_mode(96_000, 96_000), ResampleMode::Passthrough);
    assert_eq!(calculate_resample_mode(192_000, 96_000), ResampleMode::Downsample2x);
    assert_eq!(calculate_resample_mode(32_000, 96_000), ResampleMode::Passthrough);
}

#[test]
fn frames_are_converted() {
    let frames = extract_frames(&[0x0000_0010, 0x0000_0020, 0x0000_0040, 0x0000_0060, 0x70]);
    assert_eq!(frames, vec![StereoFrame::new(0x100, 0x200), StereoFrame::new(0x400, 0x600)]);
    let before = StereoFrame::new(-0x300, 0);
    assert_eq!(
        convert_frames(ResampleMode::Upsample2x, before, frames.clone()),
        vec![
            StereoFrame::new(-0x100, 0x100),
            StereoFrame::new(0x100, 0x200),
            StereoFrame::new(0x280, 0x400),
            StereoFrame::new(0x400, 0x600),
        ]
    );
    assert_eq!(
        convert_frames(ResampleMode::Downsample2x, before, frames.clone()),
        vec![StereoFrame::new(0x280, 0x400)]
    );
    assert_eq!(convert_frames(ResampleMode::Passthrough, before, frames.clone()), frames);
}

#[test]
fn averages_truncate_towards_zero() {
    let frames = vec![StereoFrame::new(-1, 3), StereoFrame::new(-3, 5)];
    assert_eq!(
        convert_frames(ResampleMode::Downsample2x, StereoFrame::zero(), frames),
        vec![StereoFrame::new(-1, 3)]
    );
}

fn dma(task: &mut SpdifTask, words: &[u32]) {
    let size = task.rx.dma_request(64).unwrap();
    task.rx.process_dma(Some(&words[..size]));
}

#[test]
fn task_plays_a_signal() {
    let mut task = SpdifTask::new();
    let (active, action) = task.begin();
    assert_eq!(active, Some(false));
    assert!(matches!(action, TaskAction::Detect));
    assert_eq!(task.detect(None), None);
    assert_eq!(task.detect(Some(&capture()[..])), Some((48_000, 96_000)));
    task.rx.start_decode(&program(), Some(0));

    let words = vec![0x0000_101Fu32; 64];
    for _ in 0..16 {
        let (active, action) = task.begin();
        assert_eq!(active, None);
        assert!(matches!(action, TaskAction::Settle));
        dma(&mut task, &words);
        assert!(!task.finish_settling());
    }
    // Muted until half of the FIFO is full, then batches of 64 words.
    let mut played = Vec::new();
    for _ in 0..10 {
        let (active, action) = task.begin();
        assert_eq!(active, Some(true));
        match action {
            TaskAction::Play(frames) => {
                if !frames.is_empty() {
                    played = frames;
                }
            }
            _ => panic!("not played"),
        }
        dma(&mut task, &words);
        assert!(!task.finish_playing());
    }
    assert_eq!(task.rx.fifo_count(), SPDIF_RX_FIFO_SIZE / 2);
    // 32 frames, doubled.
    assert_eq!(played.len(), 64);
    assert_eq!(played[63], StereoFrame::new(0x1_0100, 0x1_0100));
    for _ in 0..10 {
        task.rx.process_dma(None);
    }
    assert!(task.finish_playing());
    assert_eq!(task.begin().0, Some(false));
}

#[test]
fn task_tells_loss_while_settling() {
    let mut task = SpdifTask::new();
    task.detect(Some(&capture()[..]));
    task.rx.start_decode(&program(), Some(0));
    for _ in 0..10 {
        task.rx.process_dma(None);
    }
    assert!(task.finish_settling());
    assert_eq!(task.rx.sample_freq(), SampleFreq::Unknown);
}
