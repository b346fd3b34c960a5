//! The S/PDIF receiver task: from detection to frames for the ring buffer.
//!
//! The I2S output runs at 88.2 kHz or 96 kHz, so that every input rate is
//! reached by doubling, halving or passing through:
//!
//! - 44.1k family (44.1, 88.2, 176.4) to 88.2 kHz
//! - 48k family (48, 96, 192) to 96 kHz

use vstd::prelude::*;

use crate::audio::pipeline::StereoFrame;
use crate::audio::spdif::{
    extract_audio, SpdifRx, State, SPDIF_RX_FIFO_SIZE,
};

verus! {

/// Words read from the receiver's FIFO at a time (one DMA block).
pub const RAW_BUF_SIZE: usize = 64;

/// How input frames become output frames.
#[derive(Debug, Clone, Copy, PartialEq, Eq, Structural)]
pub enum ResampleMode {
    Passthrough,
    Upsample2x,
    Downsample2x,
}

pub open spec fn output_rate_of(input_rate: u32) -> u32 {
    if input_rate % 44100 == 0 {
        88200
    } else {
        96000
    }
}

pub open spec fn mode_of(input_rate: u32, output_rate: u32) -> ResampleMode {
    if input_rate == output_rate {
        ResampleMode::Passthrough
    } else if input_rate * 2 == output_rate {
        ResampleMode::Upsample2x
    } else if input_rate == output_rate * 2 {
        ResampleMode::Downsample2x
    } else {
        ResampleMode::Passthrough
    }
}

/// Output rate for an S/PDIF input rate.
pub fn calculate_output_rate(input_rate: u32) -> (rate: u32)
    ensures
        rate == output_rate_of(input_rate),
{
    if input_rate % 44100 == 0 {
        88_200
    } else {
        96_000
    }
}

/// Resampling mode for an input and an output rate. Rates that are not a factor
/// of two apart are passed through.
pub fn calculate_resample_mode(input_rate: u32, output_rate: u32) -> (mode: ResampleMode)
    ensures
        mode == mode_of(input_rate, output_rate),
{
    if input_rate == output_rate {
        ResampleMode::Passthrough
    } else if input_rate as u64 * 2 == output_rate as u64 {
        ResampleMode::Upsample2x
    } else if input_rate as u64 == output_rate as u64 * 2 {
        ResampleMode::Downsample2x
    } else {
        ResampleMode::Passthrough
    }
}

/// Half of `x`, rounded towards zero.
pub open spec fn half(x: int) -> int {
    if x >= 0 {
        x / 2
    } else {
        -((-x) / 2)
    }
}

fn halve(x: i32) -> (h: i32)
    ensures
        h == half(x as int),
{
    if x >= 0 {
        (x as u32 / 2) as i32
    } else {
        -((((-(x as i64)) as u64) / 2) as i64) as i32
    }
}

/// The average of two frames.
pub open spec fn average_of(a: StereoFrame, b: StereoFrame) -> StereoFrame {
    StereoFrame {
        left: (half(a.left as int) + half(b.left as int)) as i32,
        right: (half(a.right as int) + half(b.right as int)) as i32,
    }
}

fn average(a: StereoFrame, b: StereoFrame) -> (frame: StereoFrame)
    ensures
        frame == average_of(a, b),
{
    StereoFrame::new(halve(a.left) + halve(b.left), halve(a.right) + halve(b.right))
}

/// The frames in S/PDIF words, which alternate between left and right.
pub open spec fn frames_of(words: Seq<u32>) -> Seq<StereoFrame> {
    Seq::new(
        words.len() / 2,
        |i: int|
            StereoFrame {
                left: crate::audio::spdif::audio_of(words[2 * i]) as i32,
                right: crate::audio::spdif::audio_of(words[2 * i + 1]) as i32,
            },
    )
}

/// Every frame preceded by its average with the one before it; `before`
/// precedes the first.
pub open spec fn doubled(before: StereoFrame, frames: Seq<StereoFrame>) -> Seq<StereoFrame> {
    Seq::new(
        2 * frames.len(),
        |k: int|
            if k % 2 == 1 {
                frames[k / 2]
            } else if k == 0 {
                average_of(before, frames[0])
            } else {
                average_of(frames[k / 2 - 1], frames[k / 2])
            },
    )
}

/// The averages of successive pairs; an odd last frame is dropped.
pub open spec fn halved(frames: Seq<StereoFrame>) -> Seq<StereoFrame> {
    Seq::new(frames.len() / 2, |i: int| average_of(frames[2 * i], frames[2 * i + 1]))
}

pub open spec fn converted(
    mode: ResampleMode,
    before: StereoFrame,
    frames: Seq<StereoFrame>,
) -> Seq<StereoFrame> {
    match mode {
        ResampleMode::Passthrough => frames,
        ResampleMode::Upsample2x => doubled(before, frames),
        ResampleMode::Downsample2x => halved(frames),
    }
}

/// Extracts the frames of S/PDIF words.
pub fn extract_frames(words: &[u32]) -> (frames: Vec<StereoFrame>)
    ensures
        frames@ == frames_of(words@),
{
    let mut frames: Vec<StereoFrame> = Vec::new();
    let num_frames: usize = words.len() / 2;
    let mut i: usize = 0;
    while i < num_frames
        invariant
            i <= num_frames,
            num_frames == words@.len() / 2,
            words@.len() <= usize::MAX,
            frames@ =~= frames_of(words@).take(i as int),
        decreases num_frames - i,
    {
        frames.push(StereoFrame::new(extract_audio(words[i * 2]), extract_audio(words[i * 2 + 1])));
        i = i + 1;
    }
    assert(frames@ =~= frames_of(words@));
    frames
}

/// Converts frames to the output rate. `before` is the last frame of the
/// previous batch.
pub fn convert_frames(mode: ResampleMode, before: StereoFrame, frames: Vec<StereoFrame>) -> (out:
    Vec<StereoFrame>)
    requires
        frames@.len() <= usize::MAX / 2,
    ensures
        out@ == converted(mode, before, frames@),
{
    match mode {
        ResampleMode::Passthrough => frames,
        ResampleMode::Upsample2x => {
            let mut out: Vec<StereoFrame> = Vec::new();
            let mut prev = before;
            let mut i: usize = 0;
            while i < frames.len()
                invariant
                    i <= frames@.len() <= usize::MAX / 2,
                    prev == if i == 0 {
                        before
                    } else {
                        frames@[i - 1]
                    },
                    out@ =~= doubled(before, frames@).take(2 * i),
                decreases frames@.len() - i,
            {
                let curr = frames[i];
                out.push(average(prev, curr));
                out.push(curr);
                prev = curr;
                i = i + 1;
            }
            assert(out@ =~= doubled(before, frames@));
            out
        },
        ResampleMode::Downsample2x => {
            let mut out: Vec<StereoFrame> = Vec::new();
            let mut i: usize = 0;
            while i + 1 < frames.len()
                invariant
                    i <= frames@.len() <= usize::MAX / 2,
                    i % 2 == 0,
                    out@ =~= halved(frames@).take(i as int / 2),
                decreases frames@.len() - i,
            {
                out.push(average(frames[i], frames[i + 1]));
                i = i + 2;
            }
            assert(out@ =~= halved(frames@));
            out
        },
    }
}

/// What the task does until the next transfer has ended.
pub enum TaskAction {
    /// Capture the line and hand the result to [`SpdifTask::detect`].
    Detect,
    /// Run a transfer, then call [`SpdifTask::finish_settling`].
    Settle,
    /// Run a transfer while these frames are played, then call
    /// [`SpdifTask::finish_playing`].
    Play(Vec<StereoFrame>),
}

/// The task as its users see it.
#[verifier::ext_equal]
pub struct TaskModel {
    pub rx: crate::audio::spdif::RxModel,
    pub mute: bool,
    pub mode: ResampleMode,
    /// Words read in the last round, to be played in this one.
    pub batch: Seq<u32>,
    /// Words read in this round.
    pub next: Seq<u32>,
    /// Last frame played in doubling mode.
    pub last_frame: StereoFrame,
}

impl TaskModel {
    /// Nothing of the stream is remembered, but for its mode.
    pub open spec fn silenced(self) -> TaskModel {
        TaskModel { mute: true, batch: Seq::empty(), last_frame: StereoFrame::silence(), ..self }
    }

    /// Muting ends once the FIFO is half full.
    pub open spec fn muted(self) -> bool {
        self.mute && self.rx.fifo.len() < SPDIF_RX_FIFO_SIZE / 2
    }

    /// The words that a playing round reads.
    pub open spec fn read(self) -> int {
        if !self.muted() && self.rx.fifo.len() >= RAW_BUF_SIZE {
            RAW_BUF_SIZE as int
        } else {
            0
        }
    }

    /// The frames that a playing round plays.
    pub open spec fn played(self) -> Seq<StereoFrame> {
        converted(self.mode, self.last_frame, frames_of(self.batch))
    }

    pub open spec fn last_played(self) -> StereoFrame {
        if self.mode == ResampleMode::Upsample2x && self.batch.len() >= 2 {
            frames_of(self.batch).last()
        } else {
            self.last_frame
        }
    }
}

/// The S/PDIF receiver task.
pub struct SpdifTask {
    pub rx: SpdifRx,
    mute: bool,
    mode: ResampleMode,
    batch: Vec<u32>,
    next: Vec<u32>,
    last_frame: StereoFrame,
}

impl View for SpdifTask {
    type V = TaskModel;

    closed spec fn view(&self) -> TaskModel {
        TaskModel {
            rx: self.rx@,
            mute: self.mute,
            mode: self.mode,
            batch: self.batch@,
            next: self.next@,
            last_frame: self.last_frame,
        }
    }
}

impl SpdifTask {
    pub closed spec fn wf(self) -> bool {
        &&& self.rx.wf()
        &&& self.batch@.len() <= RAW_BUF_SIZE
        &&& self.next@.len() <= RAW_BUF_SIZE
    }

    pub fn new() -> (task: Self)
        ensures
            task.wf(),
            task@ == (TaskModel {
                rx: crate::audio::spdif::RxModel::fresh(),
                mute: true,
                mode: ResampleMode::Passthrough,
                batch: Seq::empty(),
                next: Seq::empty(),
                last_frame: StereoFrame::silence(),
            }),
    {
        let task = SpdifTask {
            rx: SpdifRx::new(),
            mute: true,
            mode: ResampleMode::Passthrough,
            batch: Vec::new(),
            next: Vec::new(),
            last_frame: StereoFrame::zero(),
        };
        assert(task@.batch =~= Seq::empty());
        assert(task@.next =~= Seq::empty());
        task
    }

    /// Starts a round: tells what to do, and whether the activity flag has to
    /// be set (`Some(true)`) or cleared (`Some(false)`).
    pub fn begin(&mut self) -> (step: (Option<bool>, TaskAction))
        requires
            old(self).wf(),
        ensures
            final(self).wf(),
            match old(self)@.rx.state {
                State::NoSignal => {
                    &&& step == (Some(false), TaskAction::Detect)
                    &&& final(self)@ == old(self)@.silenced()
                },
                State::WaitingStable => {
                    &&& step == (None::<bool>, TaskAction::Settle)
                    &&& final(self)@ == (TaskModel {
                        rx: old(self)@.rx.consumed(
                            RAW_BUF_SIZE * (old(self)@.rx.fifo.len() as int / RAW_BUF_SIZE as int),
                        ),
                        ..old(self)@
                    })
                },
                State::Stable => {
                    &&& step.0 == Some(true)
                    &&& step.1 matches TaskAction::Play(frames)
                    &&& frames@ == old(self)@.played()
                    &&& final(self)@ == (TaskModel {
                        rx: old(self)@.rx.consumed(old(self)@.read()),
                        mute: old(self)@.muted(),
                        next: old(self)@.rx.fifo.take(old(self)@.read()),
                        last_frame: old(self)@.last_played(),
                        ..old(self)@
                    })
                },
            },
    {
        proof {
            self.rx.lemma_bounds();
        }
        match self.rx.state() {
            State::NoSignal => {
                self.silence();
                (Some(false), TaskAction::Detect)
            },
            State::WaitingStable => {
                self.drain();
                (None, TaskAction::Settle)
            },
            State::Stable => {
                let fifo_count: usize = self.rx.fifo_count();
                if self.mute && fifo_count >= SPDIF_RX_FIFO_SIZE / 2 {
                    self.mute = false;
                }
                let mut raw = [0u32; RAW_BUF_SIZE];
                let mut next: Vec<u32> = Vec::new();
                let ghost rx0 = self.rx@;
                if !self.mute && fifo_count >= RAW_BUF_SIZE {
                    self.rx.read_fifo(&mut raw);
                    let mut i: usize = 0;
                    assert(raw@ =~= rx0.fifo.take(RAW_BUF_SIZE as int));
                    while i < RAW_BUF_SIZE
                        invariant
                            i <= RAW_BUF_SIZE,
                            next@ =~= raw@.take(i as int),
                        decreases RAW_BUF_SIZE - i,
                    {
                        next.push(raw[i]);
                        i = i + 1;
                    }
                    assert(next@ =~= rx0.fifo.take(RAW_BUF_SIZE as int));
                } else {
                    assert(next@ =~= rx0.fifo.take(0));
                    assert(rx0.fifo.skip(0) =~= rx0.fifo);
                }
                self.next = next;
                let frames: Vec<StereoFrame> = extract_frames(self.batch.as_slice());
                let before = self.last_frame;
                if self.mode == ResampleMode::Upsample2x && frames.len() > 0 {
                    self.last_frame = frames[frames.len() - 1];
                }
                let out: Vec<StereoFrame> = convert_frames(self.mode, before, frames);
                (Some(true), TaskAction::Play(out))
            },
        }
    }

    fn silence(&mut self)
        requires
            old(self).wf(),
        ensures
            final(self).wf(),
            final(self)@ == old(self)@.silenced(),
    {
        self.mute = true;
        self.batch = Vec::new();
        self.last_frame = StereoFrame::zero();
        assert(self@ =~= old(self)@.silenced());
    }

    /// Discards whole blocks of the FIFO.
    fn drain(&mut self)
        requires
            old(self).wf(),
        ensures
            final(self).wf(),
            final(self)@ == (TaskModel {
                rx: old(self)@.rx.consumed(
                    RAW_BUF_SIZE * (old(self)@.rx.fifo.len() as int / RAW_BUF_SIZE as int),
                ),
                ..old(self)@
            }),
    {
        let mut raw = [0u32; RAW_BUF_SIZE];
        let ghost rx0 = self.rx@;
        let ghost mut done: int = 0;
        assert(rx0.fifo.skip(0) =~= rx0.fifo);
        assert(rx0 =~= rx0.consumed(0));
        while self.rx.fifo_count() >= RAW_BUF_SIZE
            invariant
                self.wf(),
                *self == (SpdifTask { rx: self.rx, ..*old(self) }),
                0 <= done <= rx0.fifo.len(),
                done % 64 == 0,
                self.rx@ == rx0.consumed(done),
            decreases self.rx@.fifo.len(),
        {
            self.rx.read_fifo(&mut raw);
            proof {
                assert(rx0.fifo.skip(done).skip(64) =~= rx0.fifo.skip(done + 64));
                assert(self.rx@ =~= rx0.consumed(done + 64));
                done = done + 64;
            }
        }
        assert(done == 64 * (rx0.fifo.len() as int / 64));
    }

    /// Takes the result of a capture. On a recognised signal returns its rate
    /// and the output rate to request; decoding is to be started then.
    pub fn detect(&mut self, capture: Option<&[u32]>) -> (rates: Option<(u32, u32)>)
        requires
            old(self).wf(),
            capture matches Some(data) ==> 0 < data@.len() <= i32::MAX / 32,
        ensures
            final(self).wf(),
            ({
                let recognised = match capture {
                    None => None,
                    Some(data) => crate::audio::capture::classify(
                        crate::audio::capture::scan(data@, 32 * (data@.len() as int)),
                        0,
                    ),
                };
                match recognised {
                    None => rates is None && final(self)@ == old(self)@,
                    Some((freq, inverted)) => {
                        &&& rates == Some((freq.hz(), output_rate_of(freq.hz())))
                        &&& final(self)@ == (TaskModel {
                            rx: crate::audio::spdif::RxModel { freq, inverted, ..old(self)@.rx },
                            mode: mode_of(freq.hz(), output_rate_of(freq.hz())),
                            ..old(self)@
                        })
                    },
                }
            }),
    {
        if self.rx.detect_signal(capture) {
            let input_rate: u32 = self.rx.sample_freq().as_hz();
            let output_rate: u32 = calculate_output_rate(input_rate);
            self.mode = calculate_resample_mode(input_rate, output_rate);
            Some((input_rate, output_rate))
        } else {
            None
        }
    }

    /// Ends a settling round. Returns whether the signal was lost.
    pub fn finish_settling(&mut self) -> (lost: bool)
        requires
            old(self).wf(),
        ensures
            final(self).wf(),
            lost == (old(self)@.rx.state == State::NoSignal),
            final(self)@ == if lost {
                TaskModel { rx: old(self)@.rx.forgotten(), ..old(self)@ }
            } else {
                old(self)@
            },
    {
        if self.rx.state() == State::NoSignal {
            self.rx.reset();
            true
        } else {
            false
        }
    }

    /// Ends a playing round: what it read is played in the next one. Returns
    /// whether the signal was lost, and so the activity flag has to be cleared.
    pub fn finish_playing(&mut self) -> (lost: bool)
        requires
            old(self).wf(),
        ensures
            final(self).wf(),
            lost == (old(self)@.rx.state == State::NoSignal),
            final(self)@ == if lost {
                TaskModel {
                    rx: old(self)@.rx.forgotten(),
                    next: Seq::empty(),
                    ..old(self)@.silenced()
                }
            } else {
                TaskModel { batch: old(self)@.next, next: Seq::empty(), ..old(self)@ }
            },
    {
        let mut next: Vec<u32> = Vec::new();
        std::mem::swap(&mut self.next, &mut next);
        self.batch = next;
        if self.rx.state() == State::NoSignal {
            self.silence();
            self.rx.reset();
            assert(self@.next =~= Seq::empty());
            true
        } else {
            assert(self@.next =~= Seq::empty());
            false
        }
    }
}

/// Whatever frequency is detected, the output runs at 88.2 or 96 kHz, and a
/// batch of an even number of frames lasts as long at the output rate as at
/// the input rate.
pub proof fn law_rates_match(
    freq: crate::audio::capture::SampleFreq,
    before: StereoFrame,
    frames: Seq<StereoFrame>,
)
    requires
        freq != crate::audio::capture::SampleFreq::Unknown,
        frames.len() % 2 == 0,
    ensures
        ({
            let rate = output_rate_of(freq.hz());
            let out = converted(mode_of(freq.hz(), rate), before, frames);
            &&& rate == 88200 || rate == 96000
            &&& out.len() * freq.hz() == frames.len() * rate
        }),
{
}

/// Doubling keeps every input frame, in order, at the odd places.
pub proof fn law_doubling_keeps_frames(before: StereoFrame, frames: Seq<StereoFrame>, i: int)
    requires
        0 <= i < frames.len(),
    ensures
        doubled(before, frames)[2 * i + 1] == frames[i],
{
}

/// Averaging never leaves the range of its two frames by more than the
/// rounding of one step, and never overflows.
pub proof fn law_average_range(a: int, b: int)
    requires
        i32::MIN <= a <= b <= i32::MAX,
    ensures
        a - 1 <= half(a) + half(b) <= b + 1,
        i32::MIN <= half(a) + half(b) <= i32::MAX,
{
}

/// An output frame of halving is made of two input frames, 2i and 2i + 1, and of
/// no other: halving a stream in portions of even length is halving it at once.
pub proof fn law_halving_in_portions(a: Seq<StereoFrame>, b: Seq<StereoFrame>)
    requires
        a.len() % 2 == 0,
    ensures
        halved(a + b) == halved(a) + halved(b),
        halved(a).len() * 2 == a.len(),
{
    assert(halved(a + b) =~= halved(a) + halved(b));
}

/// Halving two frames gives their average; a frame without a partner is dropped.
pub proof fn law_halving_a_pair(x: StereoFrame, y: StereoFrame)
    ensures
        halved(seq![x, y]) == seq![average_of(x, y)],
        halved(seq![x]).len() == 0,
        halved(Seq::<StereoFrame>::empty()).len() == 0,
{
    assert(halved(seq![x, y]) =~= seq![average_of(x, y)]);
}

/// Every output frame of halving is as close to the middle of its two input
/// frames as rounding allows.
pub proof fn law_halving_averages(frames: Seq<StereoFrame>, i: int)
    requires
        0 <= i < frames.len() as int / 2,
    ensures
        halved(frames).len() == frames.len() / 2,
        -2 <= 2 * halved(frames)[i].left - (frames[2 * i].left + frames[2 * i + 1].left) <= 2,
        -2 <= 2 * halved(frames)[i].right - (frames[2 * i].right + frames[2 * i + 1].right) <= 2,
{
}

/// The average of two frames is, on each channel, the middle of the two samples,
/// exactly if both are even; the order does not matter.
pub proof fn law_average(a: StereoFrame, b: StereoFrame)
    ensures
        -2 <= 2 * average_of(a, b).left - (a.left + b.left) <= 2,
        -2 <= 2 * average_of(a, b).right - (a.right + b.right) <= 2,
        a.left as int % 2 == 0 && b.left as int % 2 == 0 ==> 2 * average_of(a, b).left == a.left
            + b.left,
        a.right as int % 2 == 0 && b.right as int % 2 == 0 ==> 2 * average_of(a, b).right == a.right
            + b.right,
        average_of(a, b) == average_of(b, a),
{
}

/// Half of a number is next to it on the side of zero.
pub proof fn law_half(x: int)
    ensures
        -1 <= x - 2 * half(x) <= 1,
        half(-x) == -half(x),
        x >= 0 ==> 2 * half(x) <= x,
{
}

/// Doubling puts the average of two neighbours between them: before each input
/// frame stands its average with the one before it.
pub proof fn law_doubling_interpolates(before: StereoFrame, frames: Seq<StereoFrame>, i: int)
    requires
        0 <= i < frames.len(),
    ensures
        doubled(before, frames).len() == 2 * frames.len(),
        doubled(before, frames)[2 * i] == average_of(
            if i == 0 {
                before
            } else {
                frames[i - 1]
            },
            frames[i],
        ),
{
}

/// Batches join without a seam: converting two batches of an even number of
/// frames, the second behind the last frame of the first, is converting them at
/// once.
pub proof fn law_batches_join(
    mode: ResampleMode,
    before: StereoFrame,
    a: Seq<StereoFrame>,
    b: Seq<StereoFrame>,
)
    requires
        a.len() > 0,
        a.len() % 2 == 0,
    ensures
        converted(mode, before, a + b) == converted(mode, before, a) + converted(mode, a.last(), b),
        mode == ResampleMode::Passthrough ==> converted(mode, before, a) == a,
        mode == ResampleMode::Upsample2x ==> converted(mode, before, a).len() == 2 * a.len(),
        mode == ResampleMode::Downsample2x ==> 2 * converted(mode, before, a).len() == a.len(),
{
    assert(converted(mode, before, a + b) =~= converted(mode, before, a) + converted(
        mode,
        a.last(),
        b,
    ));
}

/// S/PDIF words come in pairs, left before right: the frames of a stream cut
/// between pairs are those of its parts.
pub proof fn law_words_pair_up(a: Seq<u32>, b: Seq<u32>, left: u32, right: u32)
    requires
        a.len() % 2 == 0,
    ensures
        frames_of(a + b) == frames_of(a) + frames_of(b),
        frames_of(a).len() * 2 == a.len(),
        frames_of(seq![left, right]).len() == 1,
        frames_of(seq![left, right])[0].left == crate::audio::spdif::audio_of(left),
        frames_of(seq![left, right])[0].right == crate::audio::spdif::audio_of(right),
{
    assert(frames_of(a + b) =~= frames_of(a) + frames_of(b));
}

/// Rates: multiples of 44.1 kHz are played at 88.2 kHz and all others at 96 kHz.
/// A rate that is half or twice the output rate is converted, any other is
/// passed through.
pub proof fn law_rate_families(input_rate: u32, output_rate: u32)
    ensures
        output_rate_of(input_rate) == 88200 <==> input_rate % 44100 == 0,
        output_rate_of(input_rate) == 96000 <==> input_rate % 44100 != 0,
        mode_of(input_rate, output_rate) == ResampleMode::Upsample2x <==> 0 < input_rate
            && input_rate + input_rate == output_rate,
        mode_of(input_rate, output_rate) == ResampleMode::Downsample2x <==> 0 < output_rate
            && output_rate + output_rate == input_rate,
{
}

/// Playing starts once the receiver's FIFO is half full (384 words) and is not
/// muted again by a FIFO that runs low. A round reads 64 words if there are as
/// many, or none.
pub proof fn law_rounds(t: TaskModel)
    ensures
        t.muted() <==> t.mute && t.rx.fifo.len() < 384,
        !t.mute ==> !t.muted(),
        t.read() == 64 || t.read() == 0,
        t.read() == 64 <==> !t.muted() && t.rx.fifo.len() >= 64,
        t.read() <= t.rx.fifo.len(),
{
}

/// What a round plays are the frames of the words read in the round before,
/// converted; in doubling mode the last of them is remembered for the next round.
pub proof fn law_round_plays_batch(t: TaskModel, next: TaskModel, words: Seq<u32>)
    requires
        t.batch.len() == 64,
        next == (TaskModel { batch: words, last_frame: t.last_played(), ..t }),
    ensures
        t.mode == ResampleMode::Passthrough ==> t.played() == frames_of(t.batch),
        t.played() + next.played() == converted(t.mode, t.last_frame, frames_of(t.batch + words)),
        t.mode != ResampleMode::Upsample2x ==> t.last_played() == t.last_frame,
{
    law_words_pair_up(t.batch, words, 0, 0);
    law_batches_join(t.mode, t.last_frame, frames_of(t.batch), frames_of(words));
}

/// A silenced task is muted and remembers no words and no frame, but keeps the
/// receiver and the mode.
pub proof fn law_silencing(t: TaskModel)
    ensures
        t.silenced().mute,
        t.silenced().batch.len() == 0,
        t.silenced().last_frame.left == 0 && t.silenced().last_frame.right == 0,
        t.silenced().rx == t.rx,
        t.silenced().mode == t.mode,
        t.silenced().played().len() == 0,
{
}

/// A call converts at half, the same or twice the rate: halving gives the average
/// of the frames 2i and 2i + 1 and of no others, doubling keeps every frame and
/// puts the average with the one before it in front, and passing changes nothing.
pub proof fn law_conversion(
    mode: ResampleMode,
    before: StereoFrame,
    frames: Vec<StereoFrame>,
    out: Vec<StereoFrame>,
    i: int,
)
    requires
        frames@.len() <= usize::MAX / 2,
        call_ensures(convert_frames, (mode, before, frames), out),
    ensures
        mode == ResampleMode::Passthrough ==> out@ == frames@,
        mode == ResampleMode::Downsample2x ==> out@.len() == frames@.len() / 2,
        mode == ResampleMode::Downsample2x && 0 <= i && 2 * i + 1 < frames@.len() ==> {
            &&& -2 <= 2 * out@[i].left - (frames@[2 * i].left + frames@[2 * i + 1].left) <= 2
            &&& -2 <= 2 * out@[i].right - (frames@[2 * i].right + frames@[2 * i + 1].right) <= 2
        },
        mode == ResampleMode::Upsample2x ==> out@.len() == 2 * frames@.len(),
        mode == ResampleMode::Upsample2x && 0 <= i < frames@.len() ==> {
            let last = if i == 0 {
                before
            } else {
                frames@[i - 1]
            };
            &&& out@[2 * i + 1] == frames@[i]
            &&& -2 <= 2 * out@[2 * i].left - (last.left + frames@[i].left) <= 2
            &&& -2 <= 2 * out@[2 * i].right - (last.right + frames@[i].right) <= 2
        },
{
    if mode == ResampleMode::Downsample2x && 0 <= i && 2 * i + 1 < frames@.len() {
        law_halving_averages(frames@, i);
    }
    if mode == ResampleMode::Upsample2x && 0 <= i < frames@.len() {
        law_doubling_interpolates(before, frames@, i);
        law_average(
            if i == 0 {
                before
            } else {
                frames@[i - 1]
            },
            frames@[i],
        );
    }
}

/// Two calls on the parts of a stream give what one call gives on the whole, where
/// the first part has an even number of frames.
pub proof fn law_conversion_in_parts(
    mode: ResampleMode,
    before: StereoFrame,
    a: Vec<StereoFrame>,
    b: Vec<StereoFrame>,
    whole: Vec<StereoFrame>,
    out_a: Vec<StereoFrame>,
    out_b: Vec<StereoFrame>,
    out: Vec<StereoFrame>,
)
    requires
        whole@ == a@ + b@,
        whole@.len() <= usize::MAX / 2,
        a@.len() > 0,
        a@.len() % 2 == 0,
        call_ensures(convert_frames, (mode, before, a), out_a),
        call_ensures(convert_frames, (mode, a@.last(), b), out_b),
        call_ensures(convert_frames, (mode, before, whole), out),
    ensures
        out@ == out_a@ + out_b@,
{
    law_batches_join(mode, before, a@, b@);
}

/// Frames are taken from words two by two, the left sample first, each the 24 bits
/// above the four lowest.
pub proof fn law_extraction(words: &[u32], frames: Vec<StereoFrame>, i: int)
    requires
        call_ensures(extract_frames, (words,), frames),
    ensures
        frames@.len() == words@.len() / 2,
        0 <= i < frames@.len() ==> frames@[i].left == crate::audio::spdif::audio_of(words@[2 * i])
            && frames@[i].right == crate::audio::spdif::audio_of(words@[2 * i + 1]),
{
}

/// The output rate and the mode for an input rate: a known rate is kept, halved or
/// doubled into one of 88.2 and 96 kHz.
pub proof fn law_rates(input_rate: u32, rate: u32, mode: ResampleMode)
    requires
        call_ensures(calculate_output_rate, (input_rate,), rate),
        call_ensures(calculate_resample_mode, (input_rate, rate), mode),
    ensures
        rate == 88200 || rate == 96000,
        rate == 88200 <==> input_rate % 44100 == 0,
        input_rate == 44100 || input_rate == 48000 <==> mode == ResampleMode::Upsample2x,
        input_rate == 176400 || input_rate == 192000 <==> mode == ResampleMode::Downsample2x,
{
}

/// What a round does in each state: without a signal it looks for one in silence,
/// while it settles it drops what arrives, and then it plays what the last round
/// read and reads on.
pub proof fn law_beginning(task: &mut SpdifTask, step: (Option<bool>, TaskAction))
    requires
        old(task).wf(),
        call_ensures(SpdifTask::begin, (task,), step),
    ensures
        ({
            let before = old(task)@;
            let after = final(task)@;
            &&& before.rx.state == State::NoSignal ==> step.0 == Some(false) && step.1 is Detect
                && after.mute && after.batch.len() == 0 && after.rx == before.rx && after.mode
                == before.mode && after.last_frame == StereoFrame::silence()
            &&& before.rx.state == State::WaitingStable ==> step.0 is None && step.1 is Settle
                && after.rx.fifo.len() == before.rx.fifo.len() % 64 && after.batch == before.batch
                && after.mute == before.mute
            &&& before.rx.state == State::Stable ==> step.0 == Some(true) && (step.1 matches
                TaskAction::Play(frames) && frames@ == before.played()) && after.next
                == before.rx.fifo.take(before.read()) && after.rx.fifo == before.rx.fifo.skip(
                before.read(),
            ) && after.mute == before.muted() && after.batch == before.batch
            &&& after.rx.state == before.rx.state && after.mode == before.mode
        }),
{
    let n = old(task)@.rx.fifo.len() as int;
    assert(n - 64 * (n / 64) == n % 64);
}

/// What is recognised decides the rates and the mode; what is not changes nothing.
pub proof fn law_detection(
    task: &mut SpdifTask,
    capture: Option<&[u32]>,
    rates: Option<(u32, u32)>,
)
    requires
        old(task).wf(),
        capture matches Some(data) ==> 0 < data@.len() <= i32::MAX / 32,
        call_ensures(SpdifTask::detect, (task, capture), rates),
    ensures
        capture is None ==> rates is None,
        rates is None ==> final(task)@ == old(task)@,
        rates matches Some((input, output)) ==> {
            &&& input == final(task)@.rx.freq.hz()
            &&& output == 88200 || output == 96000
            &&& output == 88200 <==> input % 44100 == 0
            &&& input + input == output <==> final(task)@.mode == ResampleMode::Upsample2x
            &&& output + output == input <==> final(task)@.mode == ResampleMode::Downsample2x
            &&& final(task)@.batch == old(task)@.batch && final(task)@.mute == old(task)@.mute
                && final(task)@.last_frame == old(task)@.last_frame
            &&& final(task)@.rx.fifo == old(task)@.rx.fifo && final(task)@.rx.state
                == old(task)@.rx.state
        },
{
    if rates is Some {
        law_known_rates(final(task)@.rx.freq);
        let s = crate::audio::capture::scan(
            capture->0@,
            32 * (capture->0@.len() as int),
        );
        crate::audio::capture::law_found_is_accepted(s);
    }
}

/// No frequency that can be recognised has the rate zero.
pub proof fn law_known_rates(freq: crate::audio::capture::SampleFreq)
    ensures
        freq != crate::audio::capture::SampleFreq::Unknown ==> freq.hz() >= 44100,
{
}

} // verus!
