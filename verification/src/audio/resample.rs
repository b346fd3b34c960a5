//! Linear interpolation resampler.
//!
//! Converts S/PDIF input at various sample rates to a fixed output rate.

use vstd::prelude::*;

use crate::audio::pipeline::StereoFrame;
use crate::audio::spdif::extract_audio;

verus! {

/// One input sample in phase units (16 fractional bits).
pub const FRAC_ONE: u32 = 0x1_0000;

/// Most frames that one call of `process_spdif` takes.
pub const MAX_FRAMES: usize = 128;

/// The point at `frac` of 65536 parts on the way from `prev` to `curr`,
/// rounded down.
pub open spec fn between(prev: int, curr: int, frac: int) -> int {
    prev + (curr - prev) * frac / 0x1_0000
}

pub open spec fn frame_between(prev: StereoFrame, curr: StereoFrame, frac: int) -> StereoFrame {
    StereoFrame {
        left: between(prev.left as int, curr.left as int, frac) as i32,
        right: between(prev.right as int, curr.right as int, frac) as i32,
    }
}

/// The resampler as its users see it.
pub struct ResamplerModel {
    pub input_rate: u32,
    pub output_rate: u32,
    /// Position of the next output sample behind `prev`, in phase units.
    pub phase: int,
    /// Distance between output samples, in phase units.
    pub step: int,
    pub prev: StereoFrame,
    pub curr: StereoFrame,
}

impl ResamplerModel {
    pub open spec fn fresh(output_rate: u32) -> ResamplerModel {
        ResamplerModel {
            input_rate: output_rate,
            output_rate,
            phase: 0,
            step: 0x1_0000,
            prev: StereoFrame::silence(),
            curr: StereoFrame::silence(),
        }
    }

    pub open spec fn restarted(self) -> ResamplerModel {
        ResamplerModel {
            phase: 0,
            prev: StereoFrame::silence(),
            curr: StereoFrame::silence(),
            ..self
        }
    }

    pub open spec fn passthrough(self) -> bool {
        self.input_rate == self.output_rate
    }

    /// The input with the two samples that precede it.
    pub open spec fn line(self, input: Seq<StereoFrame>) -> Seq<StereoFrame> {
        seq![self.prev, self.curr] + input
    }

    /// Position of output sample `j`, counted from `prev`.
    pub open spec fn position(self, j: int) -> int {
        self.phase + j * self.step
    }

    /// Output sample `j`.
    pub open spec fn output(self, input: Seq<StereoFrame>, j: int) -> StereoFrame {
        let at = self.position(j) / 0x1_0000;
        frame_between(
            self.line(input)[at],
            self.line(input)[at + 1],
            self.position(j) % 0x1_0000,
        )
    }

    /// The state after `consumed` input samples and `n` output samples.
    pub open spec fn moved(self, input: Seq<StereoFrame>, consumed: int, n: int) -> ResamplerModel {
        ResamplerModel {
            phase: self.position(n) - 0x1_0000 * consumed,
            prev: self.line(input)[consumed],
            curr: self.line(input)[consumed + 1],
            ..self
        }
    }
}

/// `out` and `after` are what a resampler in state `before` makes of `input`
/// when there is room for `room` output samples.
pub open spec fn resampled(
    before: ResamplerModel,
    input: Seq<StereoFrame>,
    room: nat,
    out: Seq<StereoFrame>,
    after: ResamplerModel,
) -> bool {
    if before.passthrough() {
        &&& out == input.take(
            if room < input.len() {
                room as int
            } else {
                input.len() as int
            },
        )
        &&& after == before
    } else {
        let n = out.len();
        let end = 0x1_0000 * (input.len() + 1);
        &&& n <= room
        &&& forall|j: int| 0 <= j < n ==> #[trigger] before.position(j) < end
        &&& n < room ==> before.position(n as int) >= end
        &&& forall|j: int| 0 <= j < n ==> #[trigger] out[j] == before.output(input, j)
        &&& after == before.moved(
            input,
            if n < room {
                input.len() as int
            } else if n == 0 {
                0
            } else {
                before.position(n - 1) / 0x1_0000
            },
            n as int,
        )
    }
}

/// Linear interpolation resampler.
pub struct Resampler {
    input_rate: u32,
    output_rate: u32,
    /// Phase accumulator: lower 16 bits are the fraction.
    phase: u64,
    /// Phase increment per output sample.
    phase_inc: u32,
    /// Previous input sample.
    prev: StereoFrame,
    /// Current input sample.
    curr: StereoFrame,
}

impl View for Resampler {
    type V = ResamplerModel;

    closed spec fn view(&self) -> ResamplerModel {
        ResamplerModel {
            input_rate: self.input_rate,
            output_rate: self.output_rate,
            phase: self.phase as int,
            step: self.phase_inc as int,
            prev: self.prev,
            curr: self.curr,
        }
    }
}

/// `d / 65536`, rounded down.
fn floor_frac(d: i64) -> (q: i64)
    requires
        -0x1_0000_0000_0000 <= d <= 0x1_0000_0000_0000,
    ensures
        q == d as int / 0x1_0000,
{
    if d >= 0 {
        (d as u64 / 0x1_0000) as i64
    } else {
        -((((-d) as u64 + 0xffff) / 0x1_0000) as i64)
    }
}

/// A point between two samples is no lower than the lower of them and no
/// higher than the higher.
pub proof fn law_between(prev: int, curr: int, frac: int)
    requires
        0 <= frac <= 0x1_0000,
    ensures
        prev <= curr ==> prev <= between(prev, curr, frac) <= curr,
        curr <= prev ==> curr <= between(prev, curr, frac) <= prev,
        frac == 0 ==> between(prev, curr, frac) == prev,
        frac == 0x1_0000 ==> between(prev, curr, frac) == curr,
{
    let d = curr - prev;
    assert(d >= 0 ==> 0 <= d * frac <= d * 0x1_0000) by (nonlinear_arith)
        requires
            0 <= frac <= 0x1_0000,
    ;
    assert(d <= 0 ==> d * 0x1_0000 <= d * frac <= 0) by (nonlinear_arith)
        requires
            0 <= frac <= 0x1_0000,
    ;
    assert(frac == 0 ==> d * frac == 0) by (nonlinear_arith);
}

proof fn lemma_position_grows(m: ResamplerModel, j: int, k: int)
    requires
        0 <= j <= k,
        m.step >= 0,
    ensures
        m.position(j) <= m.position(k),
        m.phase <= m.position(j),
{
    assert(j * m.step <= k * m.step && 0 <= j * m.step) by (nonlinear_arith)
        requires
            0 <= j <= k,
            m.step >= 0,
    ;
}

impl Resampler {
    /// The phase stays far from the end of its range.
    pub closed spec fn wf(self) -> bool {
        self.phase <= 0x1_0000_ffff
    }

    /// Neither the position nor the distance of output samples is negative.
    pub proof fn lemma_bounds(&self)
        ensures
            self@.phase >= 0,
            self@.step >= 0,
    {
    }

    /// A resampler for the given output rate that passes its input through.
    pub fn new(output_rate: u32) -> (r: Self)
        ensures
            r.wf(),
            r@ == ResamplerModel::fresh(output_rate),
    {
        Resampler {
            input_rate: output_rate,
            output_rate,
            phase: 0,
            phase_inc: FRAC_ONE,
            prev: StereoFrame::zero(),
            curr: StereoFrame::zero(),
        }
    }

    /// Sets the input sample rate and starts anew, unless it is the current
    /// one.
    pub fn set_input_rate(&mut self, input_rate: u32)
        requires
            old(self).wf(),
            old(self)@.output_rate > 0 || input_rate == old(self)@.input_rate,
        ensures
            final(self).wf(),
            final(self)@ == if input_rate == old(self)@.input_rate {
                old(self)@
            } else {
                ResamplerModel {
                    input_rate,
                    step: input_rate * 0x1_0000 / (old(self)@.output_rate as int) % 0x1_0000_0000,
                    ..old(self)@.restarted()
                }
            },
    {
        if input_rate == self.input_rate {
            return ;
        }
        self.input_rate = input_rate;
        let ratio: u64 = (input_rate as u64 * 0x1_0000) / self.output_rate as u64;
        self.phase_inc = (ratio % 0x1_0000_0000) as u32;
        self.reset();
    }

    pub fn input_rate(&self) -> (rate: u32)
        ensures
            rate == self@.input_rate,
    {
        self.input_rate
    }

    /// Whether input and output rate are the same.
    pub fn is_passthrough(&self) -> (same: bool)
        ensures
            same == self@.passthrough(),
    {
        self.input_rate == self.output_rate
    }

    /// Resamples `input` into `output`, as far as the input lasts and the
    /// output has room. Returns the number of output samples written.
    pub fn process(&mut self, input: &[StereoFrame], output: &mut [StereoFrame]) -> (count: usize)
        requires
            old(self).wf(),
        ensures
            final(self).wf(),
            count <= old(output)@.len(),
            final(output)@.len() == old(output)@.len(),
            final(output)@.skip(count as int) == old(output)@.skip(count as int),
            resampled(
                old(self)@,
                input@,
                old(output)@.len(),
                final(output)@.take(count as int),
                final(self)@,
            ),
    {
        if self.is_passthrough() {
            let count: usize = if input.len() < output.len() {
                input.len()
            } else {
                output.len()
            };
            let ghost rest = output@.skip(count as int);
            let mut i: usize = 0;
            while i < count
                invariant
                    i <= count,
                    count <= input@.len(),
                    count <= output@.len(),
                    output@.len() == old(output)@.len(),
                    output@.take(i as int) =~= input@.take(i as int),
                    output@.skip(count as int) =~= rest,
                decreases count - i,
            {
                output[i] = input[i];
                i = i + 1;
            }
            return count;
        }
        let ghost m = self@;
        let ghost line = m.line(input@);
        let ghost end = 0x1_0000 * (input@.len() + 1);
        let ghost room = output@.len();
        let ghost output0 = output@;
        let mut input_idx: usize = 0;
        let mut output_idx: usize = 0;
        let mut exhausted: bool = false;
        assert(m.position(0) == m.phase) by (nonlinear_arith)
            requires
                m.position(0) == m.phase + 0 * m.step,
        ;
        while !exhausted && output_idx < output.len()
            invariant
                m.step == self.phase_inc,
                line == m.line(input@),
                end == 0x1_0000 * (input@.len() + 1),
                room == output@.len(),
                room == output0.len(),
                self.input_rate == m.input_rate,
                self.output_rate == m.output_rate,
                self.prev == line[input_idx as int],
                self.curr == line[input_idx + 1],
                input_idx <= input@.len(),
                output_idx <= room,
                self.phase <= 0x1_0000_ffff,
                m.phase >= 0,
                self.phase == m.position(output_idx as int) - 0x1_0000 * input_idx,
                exhausted ==> input_idx == input@.len() && self.phase >= 0x1_0000,
                !exhausted ==> input_idx == if output_idx == 0 {
                    0
                } else {
                    m.position(output_idx - 1) / 0x1_0000
                },
                forall|j: int| 0 <= j < output_idx ==> #[trigger] m.position(j) < end,
                forall|j: int|
                    0 <= j < output_idx ==> #[trigger] output@[j] == m.output(input@, j),
                forall|j: int| output_idx <= j < room ==> #[trigger] output@[j] == output0[j],
                exhausted ==> output_idx < room,
            decreases room - output_idx, (if exhausted {
                0int
            } else {
                1int
            }),
        {
            let ghost idx0 = input_idx;
            while self.phase >= FRAC_ONE as u64 && input_idx < input.len()
                invariant
                    m.step == self.phase_inc,
                    line == m.line(input@),
                    self.input_rate == m.input_rate,
                    self.output_rate == m.output_rate,
                    self.prev == line[input_idx as int],
                    self.curr == line[input_idx + 1],
                    idx0 <= input_idx <= input@.len(),
                    self.phase <= 0x1_0000_ffff,
                    self.phase == m.position(output_idx as int) - 0x1_0000 * input_idx,
                decreases input@.len() - input_idx,
            {
                self.prev = self.curr;
                self.curr = input[input_idx];
                input_idx = input_idx + 1;
                self.phase = self.phase - FRAC_ONE as u64;
            }
            if self.phase >= FRAC_ONE as u64 {
                exhausted = true;
            } else {
                let frac: u32 = (self.phase % FRAC_ONE as u64) as u32;
                let left: i32 = self.interpolate(self.prev.left, self.curr.left, frac);
                let right: i32 = self.interpolate(self.prev.right, self.curr.right, frac);
                output[output_idx] = StereoFrame::new(left, right);
                proof {
                    let p = m.position(output_idx as int);
                    assert(p / 0x1_0000 == input_idx);
                    assert(p % 0x1_0000 == frac);
                    assert(output@[output_idx as int] == m.output(input@, output_idx as int));
                    assert(m.position(output_idx + 1) == p + m.step) by (nonlinear_arith)
                        requires
                            p == m.phase + output_idx * m.step,
                            m.position(output_idx + 1) == m.phase + (output_idx + 1) * m.step,
                    ;
                }
                output_idx = output_idx + 1;
                self.phase = self.phase + self.phase_inc as u64;
            }
        }
        proof {
            let out = output@.take(output_idx as int);
            assert forall|j: int| 0 <= j < out.len() implies #[trigger] out[j] == m.output(
                input@,
                j,
            ) by {
                assert(output@[j] == m.output(input@, j));
            }
            assert(output@.skip(output_idx as int) =~= output0.skip(output_idx as int));
        }
        output_idx
    }

    /// Extracts the audio of S/PDIF words, which alternate between left and
    /// right, at half the level, and resamples it. Takes at most
    /// [`MAX_FRAMES`] frames. Returns the number of output samples written.
    pub fn process_spdif(&mut self, input: &[u32], output: &mut [StereoFrame]) -> (count: usize)
        requires
            old(self).wf(),
        ensures
            final(self).wf(),
            count <= old(output)@.len(),
            final(output)@.len() == old(output)@.len(),
            final(output)@.skip(count as int) == old(output)@.skip(count as int),
            input@.len() < 2 ==> count == 0 && final(self)@ == old(self)@,
            input@.len() >= 2 ==> resampled(
                old(self)@,
                halved_frames(input@),
                old(output)@.len(),
                final(output)@.take(count as int),
                final(self)@,
            ),
    {
        if input.len() < 2 {
            return 0;
        }
        let num_frames: usize = if input.len() / 2 < MAX_FRAMES {
            input.len() / 2
        } else {
            MAX_FRAMES
        };
        let mut stereo_input: Vec<StereoFrame> = Vec::new();
        let mut i: usize = 0;
        while i < num_frames
            invariant
                i <= num_frames,
                num_frames <= 128,
                2 * num_frames <= input@.len(),
                num_frames == halved_frames(input@).len(),
                stereo_input@ =~= halved_frames(input@).take(i as int),
            decreases num_frames - i,
        {
            let left: i32 = extract_audio_sample(input[i * 2]);
            let right: i32 = extract_audio_sample(input[i * 2 + 1]);
            stereo_input.push(StereoFrame::new(left, right));
            i = i + 1;
        }
        assert(stereo_input@ =~= halved_frames(input@));
        self.process(&stereo_input, output)
    }

    /// The point at `frac` (0 to [`FRAC_ONE`]) on the way from `prev` to
    /// `curr`.
    pub fn interpolate(&self, prev: i32, curr: i32, frac: u32) -> (sample: i32)
        requires
            frac <= FRAC_ONE,
        ensures
            sample == between(prev as int, curr as int, frac as int),
    {
        let diff: i64 = curr as i64 - prev as i64;
        assert(-0x1_0000_0000_0000 <= diff * frac <= 0x1_0000_0000_0000) by (nonlinear_arith)
            requires
                -0x1_0000_0000 <= diff <= 0x1_0000_0000,
                0 <= frac <= 0x1_0000,
        ;
        proof {
            law_between(prev as int, curr as int, frac as int);
        }
        let interp: i64 = floor_frac(diff * frac as i64);
        (prev as i64 + interp) as i32
    }

    /// Forgets the input seen so far.
    pub fn reset(&mut self)
        ensures
            final(self).wf(),
            final(self)@ == old(self)@.restarted(),
    {
        self.phase = 0;
        self.prev = StereoFrame::zero();
        self.curr = StereoFrame::zero();
    }
}

/// Half of the audio of an S/PDIF word.
pub open spec fn half_audio(word: u32) -> int {
    crate::audio::spdif::audio_of(word) / 2
}

/// The frames of S/PDIF words at half the level, [`MAX_FRAMES`] at most.
pub open spec fn halved_frames(words: Seq<u32>) -> Seq<StereoFrame> {
    let pairs = words.len() / 2;
    Seq::new(
        if pairs < MAX_FRAMES {
            pairs
        } else {
            MAX_FRAMES as nat
        },
        |i: int|
            StereoFrame {
                left: half_audio(words[2 * i]) as i32,
                right: half_audio(words[2 * i + 1]) as i32,
            },
    )
}

/// Extracts the audio sample of an S/PDIF word, attenuated to half.
pub fn extract_audio_sample(word: u32) -> (sample: i32)
    ensures
        sample == half_audio(word),
{
    let audio: i32 = extract_audio(word);
    if audio >= 0 {
        (audio as u32 / 2) as i32
    } else {
        -(((-(audio as i64)) as u32 / 2) as i32)
    }
}

/// Resampling a stream in portions gives the same output as resampling it at
/// once: if `a` was used up and `b` followed, the outputs together are those
/// of `a + b`, and so is the final state.
#[verifier::rlimit(60)]
#[verifier::spinoff_prover]
pub proof fn law_portions(
    m: ResamplerModel,
    a: Seq<StereoFrame>,
    room_a: nat,
    out_a: Seq<StereoFrame>,
    mid: ResamplerModel,
    b: Seq<StereoFrame>,
    room_b: nat,
    out_b: Seq<StereoFrame>,
    after: ResamplerModel,
)
    requires
        m.phase >= 0,
        m.step >= 0,
        resampled(m, a, room_a, out_a, mid),
        if m.passthrough() {
            a.len() <= room_a
        } else {
            out_a.len() < room_a
        },
        resampled(mid, b, room_b, out_b, after),
        room_b > 0 || m.passthrough(),
    ensures
        resampled(m, a + b, out_a.len() + room_b, out_a + out_b, after),
{
    if m.passthrough() {
        assert(out_a =~= a);
        assert(out_a + out_b =~= (a + b).take(
            if out_a.len() + room_b < (a + b).len() {
                (out_a.len() + room_b) as int
            } else {
                (a + b).len() as int
            },
        ));
    } else {
        let n = out_a.len() as int;
        let whole = a + b;
        let out = out_a + out_b;
        assert forall|j: int| mid.position(j) == #[trigger] m.position(n + j) - 0x1_0000
            * a.len() by {
            assert(n * m.step + j * m.step == (n + j) * m.step) by (nonlinear_arith);
        }
        assert forall|k: int| 0 <= k < b.len() + 2 implies #[trigger] mid.line(b)[k] == m.line(
            whole,
        )[a.len() + k] by {}
        assert forall|j: int| 0 <= j < out.len() implies #[trigger] m.position(j) < 0x1_0000 * (
        whole.len() + 1) by {
            if j >= n {
                assert(mid.position(j - n) < 0x1_0000 * (b.len() + 1));
                assert(mid.position(j - n) == m.position(n + (j - n)) - 0x1_0000 * a.len());
            } else {
                assert(m.position(j) < 0x1_0000 * (a.len() + 1));
            }
        }
        assert forall|j: int| 0 <= j < out.len() implies #[trigger] out[j] == m.output(
            whole,
            j,
        ) by {
            if j < n {
                assert(out_a[j] == m.output(a, j));
                assert(m.position(j) < 0x1_0000 * (a.len() + 1));
                lemma_position_grows(m, 0, j);
                lemma_position_grows(m, j, j);
                let at = m.position(j) / 0x1_0000;
                assert(0 <= at <= a.len());
                assert(m.line(a)[at] == m.line(whole)[at]);
                assert(m.line(a)[at + 1] == m.line(whole)[at + 1]);
            } else {
                let i = j - n;
                assert(out_b[i] == mid.output(b, i));
                assert(mid.position(i) < 0x1_0000 * (b.len() + 1));
                assert(mid.position(i) == m.position(n + i) - 0x1_0000 * a.len());
                lemma_position_grows(m, n, j);
                let at = mid.position(i) / 0x1_0000;
                assert(m.position(j) / 0x1_0000 == at + a.len());
                assert(m.position(j) % 0x1_0000 == mid.position(i) % 0x1_0000);
                assert(mid.line(b)[at] == m.line(whole)[a.len() + at]);
                assert(mid.line(b)[at + 1] == m.line(whole)[a.len() + (at + 1)]);
            }
        }
        let nb = out_b.len() as int;
        assert(mid.position(nb) == m.position(n + nb) - 0x1_0000 * a.len());
        if nb > 0 {
            assert(mid.position(nb - 1) == m.position(n + (nb - 1)) - 0x1_0000 * a.len());
            lemma_position_grows(m, n, n + (nb - 1));
        }
        let cb = if nb < room_b {
            b.len() as int
        } else if nb == 0 {
            0
        } else {
            mid.position(nb - 1) / 0x1_0000
        };
        assert(0 <= cb <= b.len()) by {
            if nb > 0 && nb == room_b {
                assert(mid.position(nb - 1) < 0x1_0000 * (b.len() + 1));
            }
        }
        assert(mid.line(b)[cb] == m.line(whole)[a.len() + cb]);
        assert(mid.line(b)[cb + 1] == m.line(whole)[a.len() + (cb + 1)]);
        let room = out_a.len() + room_b;
        let cw = if out.len() < room {
            whole.len() as int
        } else if out.len() == 0 {
            0
        } else {
            m.position(out.len() - 1) / 0x1_0000
        };
        assert(cw == a.len() + cb) by {
            if nb == room_b {
                assert(out.len() - 1 == n + (nb - 1));
                assert(m.position(out.len() - 1) == mid.position(nb - 1) + 0x1_0000 * a.len());
            }
        }
        assert(after == mid.moved(b, cb, nb));
        let goal = m.moved(whole, cw, out.len() as int);
        assert(goal.phase == after.phase);
        assert(goal.prev == after.prev && goal.curr == after.curr);
        assert(after == goal);
        if out.len() < room {
            assert(m.position(out.len() as int) >= 0x1_0000 * (whole.len() + 1));
        }
    }
}

/// Output samples are evenly spaced, from the phase on.
pub proof fn law_even_spacing(m: ResamplerModel, j: int)
    ensures
        m.position(0) == m.phase,
        m.position(j + 1) - m.position(j) == m.step,
{
    assert((j + 1) * m.step == j * m.step + m.step) by (nonlinear_arith);
}

/// The input is continued without a gap: the line begins with the two samples
/// seen last.
pub proof fn law_line(m: ResamplerModel, input: Seq<StereoFrame>)
    ensures
        m.line(input).len() == input.len() + 2,
        m.line(input)[0] == m.prev,
        m.line(input)[1] == m.curr,
        m.line(input).skip(2) == input,
{
    assert(m.line(input).skip(2) =~= input);
}

/// A rising or falling line stays a line: where the input grows by `slope` from
/// sample to sample, the output has the value at its position, rounded down.
pub proof fn law_ramp_stays_a_ramp(
    m: ResamplerModel,
    input: Seq<StereoFrame>,
    start: int,
    slope: int,
    j: int,
)
    requires
        0 <= m.position(j),
        m.position(j) < 0x1_0000 * (input.len() + 1),
        forall|k: int|
            0 <= k < input.len() + 2 ==> (#[trigger] m.line(input)[k]).left == start + slope * k
                && m.line(input)[k].right == start - slope * k,
    ensures
        m.output(input, j).left == start + slope * m.position(j) / 0x1_0000,
        m.output(input, j).right == start + (-slope) * m.position(j) / 0x1_0000,
{
    let at = m.position(j) / 0x1_0000;
    let frac = m.position(j) % 0x1_0000;
    let a = m.line(input)[at];
    let b = m.line(input)[at + 1];
    law_between(a.left as int, b.left as int, frac);
    law_between(a.right as int, b.right as int, frac);
    assert(slope * (at + 1) == slope * at + slope) by (nonlinear_arith);
    assert(slope * m.position(j) == 0x1_0000 * (slope * at) + slope * frac) by (nonlinear_arith)
        requires
            m.position(j) == 0x1_0000 * at + frac,
    ;
    assert((-slope) * m.position(j) == -(0x1_0000 * (slope * at)) + (-slope) * frac)
        by (nonlinear_arith)
        requires
            m.position(j) == 0x1_0000 * at + frac,
    ;
}

/// How many samples come out: as long as their positions lie before the last
/// input sample, and no longer.
pub proof fn law_output_count(
    m: ResamplerModel,
    input: Seq<StereoFrame>,
    room: nat,
    out: Seq<StereoFrame>,
    after: ResamplerModel,
)
    requires
        resampled(m, input, room, out, after),
    ensures
        out.len() <= room,
        m.passthrough() ==> out.is_prefix_of(input) && (out.len() == room || out == input),
        !m.passthrough() && out.len() < room ==> m.phase + out.len() * m.step >= 0x1_0000 * (
        input.len() + 1),
        !m.passthrough() && out.len() > 0 ==> m.phase + (out.len() - 1) * m.step < 0x1_0000 * (
        input.len() + 1),
{
    if m.passthrough() {
        assert(input.take(input.len() as int) =~= input);
        assert(out =~= input.take(out.len() as int));
    } else if out.len() > 0 {
        assert(m.position(out.len() - 1) < 0x1_0000 * (input.len() + 1));
    }
}

/// A resampler whose input is used up goes on behind its last two samples, and
/// its phase is that of the next output sample relative to them.
pub proof fn law_used_up(m: ResamplerModel, input: Seq<StereoFrame>, n: int)
    requires
        input.len() >= 2,
    ensures
        ({
            let after = m.moved(input, input.len() as int, n);
            &&& after.prev == input[input.len() - 2]
            &&& after.curr == input.last()
            &&& after.phase + 0x1_0000 * input.len() == m.phase + n * m.step
            &&& after.step == m.step
            &&& after.input_rate == m.input_rate
            &&& after.output_rate == m.output_rate
        }),
{
}

/// A fresh resampler passes its input through; a restarted one has forgotten its
/// input and kept its rates.
pub proof fn law_restart(m: ResamplerModel, rate: u32)
    ensures
        ResamplerModel::fresh(rate).passthrough(),
        ResamplerModel::fresh(rate).output_rate == rate,
        ResamplerModel::fresh(rate).step == FRAC_ONE,
        ResamplerModel::fresh(rate).restarted() == ResamplerModel::fresh(rate),
        m.restarted().input_rate == m.input_rate && m.restarted().output_rate == m.output_rate,
        m.restarted().step == m.step,
        m.restarted().phase == 0,
        m.restarted().prev.left == 0 && m.restarted().prev.right == 0,
        m.restarted().curr.left == 0 && m.restarted().curr.right == 0,
        m.passthrough() <==> m.input_rate == m.output_rate,
        FRAC_ONE == 65536,
{
}

/// The attenuated samples are half of the S/PDIF audio, pair by pair, for 128
/// frames at most.
#[verifier::rlimit(50)]
#[verifier::spinoff_prover]
pub proof fn law_attenuation(words: Seq<u32>, i: int)
    ensures
        2 * half_audio(words[i]) == crate::audio::spdif::audio_of(words[i]),
        halved_frames(words).len() <= 128,
        halved_frames(words).len() == 128 || halved_frames(words).len() == words.len() / 2,
        0 <= i < halved_frames(words).len() ==> 2 * halved_frames(words)[i].left
            == crate::audio::stream::frames_of(words)[i].left && 2 * halved_frames(words)[i].right
            == crate::audio::stream::frames_of(words)[i].right,
{
    lemma_half_audio(words[i]);
    if 0 <= i < halved_frames(words).len() {
        lemma_half_audio(words[2 * i]);
        lemma_half_audio(words[2 * i + 1]);
    }
}

proof fn lemma_half_audio(word: u32)
    ensures
        2 * half_audio(word) == crate::audio::spdif::audio_of(word),
        -0x8000_0000 <= crate::audio::spdif::audio_of(word) < 0x8000_0000,
{
    crate::audio::spdif::law_audio_bits(word);
}

/// A new input rate starts over with a step of the ratio of the rates, in parts of
/// 65536 and rounded down; the same rate changes nothing.
#[verifier::rlimit(50)]
#[verifier::spinoff_prover]
pub proof fn law_input_rate(r: &mut Resampler, input_rate: u32)
    requires
        old(r).wf(),
        old(r)@.output_rate > 0,
        input_rate as int / (old(r)@.output_rate as int) < 0x1_0000,
        call_ensures(Resampler::set_input_rate, (r, input_rate), ()),
    ensures
        input_rate == old(r)@.input_rate ==> final(r)@ == old(r)@,
        input_rate != old(r)@.input_rate ==> {
            let after = final(r)@;
            &&& after.input_rate == input_rate
            &&& after.output_rate == old(r)@.output_rate
            &&& after.step * after.output_rate <= 65536 * input_rate
            &&& 65536 * input_rate < (after.step + 1) * after.output_rate
            &&& after.phase == 0
            &&& after.prev.left == 0 && after.prev.right == 0
            &&& after.curr.left == 0 && after.curr.right == 0
        },
{
    let d = old(r)@.output_rate as int;
    let n = input_rate * 0x1_0000;
    let q = n / d;
    vstd::arithmetic::div_mod::lemma_fundamental_div_mod(n, d);
    vstd::arithmetic::div_mod::lemma_mod_bound(n, d);
    vstd::arithmetic::div_mod::lemma_fundamental_div_mod(input_rate as int, d);
    vstd::arithmetic::div_mod::lemma_mod_bound(input_rate as int, d);
    let k = input_rate as int / d;
    assert(q < 0x1_0000_0000) by (nonlinear_arith)
        requires
            n == d * q + n % d,
            0 <= n % d,
            n == 0x1_0000 * input_rate,
            input_rate == d * k + input_rate as int % d,
            0 <= input_rate as int % d < d,
            k < 0x1_0000,
            d > 0,
    ;
    assert(0 <= q) by (nonlinear_arith)
        requires
            n == d * q + n % d,
            n % d < d,
            n >= 0,
            d > 0,
    ;
    assert(q % 0x1_0000_0000 == q);
    assert(q * d == d * q && (q + 1) * d == d * q + d) by (nonlinear_arith);
}

/// Processing writes the start of the output and leaves the rest of it alone. At
/// equal rates it copies; otherwise output sample `j` lies `phase + j * step` behind
/// the sample before last, and as many come out as the input or the room allows.
#[verifier::rlimit(50)]
#[verifier::spinoff_prover]
pub proof fn law_processing(
    r: &mut Resampler,
    input: &[StereoFrame],
    output: &mut [StereoFrame],
    count: usize,
    j: int,
)
    requires
        old(r).wf(),
        call_ensures(Resampler::process, (r, input, output), count),
    ensures
        ({
            let m = old(r)@;
            let room = old(output)@.len();
            let n = input@.len();
            let same = m.input_rate == m.output_rate;
            &&& final(output)@.len() == room
            &&& count <= j < room ==> final(output)@[j] == old(output)@[j]
            &&& same ==> (count == n || count == room) && count <= n && final(r)@ == m
            &&& same && 0 <= j < count ==> final(output)@[j] == input@[j]
            &&& !same && count < room ==> m.phase + count * m.step >= 65536 * (n + 1)
            &&& !same && count > 0 ==> m.phase + (count - 1) * m.step < 65536 * (n + 1)
            &&& !same && 0 <= j < count ==> final(output)@[j] == m.output(input@, j)
        }),
{
    let out = final(output)@.take(count as int);
    law_output_count(old(r)@, input@, old(output)@.len(), out, final(r)@);
    if count <= j < old(output)@.len() {
        assert(final(output)@.skip(count as int)[j - count] == final(output)@[j]);
        assert(old(output)@.skip(count as int)[j - count] == old(output)@[j]);
    }
    if 0 <= j < count {
        assert(out[j] == final(output)@[j]);
    }
}

/// A sample between two others divides their distance as the fraction says, rounded
/// down.
#[verifier::rlimit(50)]
#[verifier::spinoff_prover]
pub proof fn law_interpolation(r: Resampler, prev: i32, curr: i32, frac: u32, sample: i32)
    requires
        frac <= FRAC_ONE,
        call_ensures(Resampler::interpolate, (&r, prev, curr, frac), sample),
    ensures
        65536 * (sample - prev) <= (curr - prev) * frac,
        (curr - prev) * frac < 65536 * (sample - prev + 1),
        prev <= curr ==> prev <= sample <= curr,
        curr <= prev ==> curr <= sample <= prev,
{
    law_between(prev as int, curr as int, frac as int);
}

} // verus!
