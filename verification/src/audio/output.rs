//! The output loop: drains line-in, controls the clock, feeds the I2S FIFO and
//! tracks peak levels.

use vstd::prelude::*;

use crate::audio::convert::{sample_to_word, word_to_sample};
use crate::audio::i2s::{ClockSpeed, I2sTx};
use crate::audio::pipeline::{AudioRingBuffer, StereoFrame};

verus! {

/// Codes of the active audio source.
pub const SOURCE_LINEIN: u8 = 0;

pub const SOURCE_SPDIF: u8 = 1;

pub const SOURCE_USB: u8 = 2;

/// Rounds between two looks at the buffer level (~2.7 ms at 96 kHz).
pub const CHECK_INTERVAL: u32 = 256;

/// The frame in a pair of line-in words. The receiver samples one bit before
/// the ADC drives the most significant one, so the words are one bit late.
pub open spec fn line_in_frame(words: (u32, u32)) -> StereoFrame {
    StereoFrame {
        left: crate::audio::convert::signed32((words.0 * 2 % 0x1_0000_0000) as u32) as i32,
        right: crate::audio::convert::signed32((words.1 * 2 % 0x1_0000_0000) as u32) as i32,
    }
}

/// Clock speed for a buffer level: 64 to 191 samples are on target.
pub open spec fn speed_for(level: int) -> ClockSpeed {
    if level < 64 {
        ClockSpeed::Slow
    } else if level < 192 {
        ClockSpeed::Normal
    } else {
        ClockSpeed::Fast
    }
}

/// Magnitude of a sample.
pub open spec fn magnitude(sample: i32) -> int {
    if sample < 0 {
        -(sample as int)
    } else {
        sample as int
    }
}

fn absolute(sample: i32) -> (level: u32)
    ensures
        level == magnitude(sample),
{
    if sample < 0 {
        (-(sample as i64)) as u32
    } else {
        sample as u32
    }
}

/// Writes frames of a source to the ring buffer, if that source is the active
/// one.
pub fn play_frames(
    ring: &mut AudioRingBuffer,
    source: u8,
    active_source: u8,
    frames: &[StereoFrame],
)
    requires
        old(ring).wf(),
    ensures
        final(ring).wf(),
        final(ring)@ == if source == active_source {
            crate::audio::pipeline::filled(old(ring)@, frames@)
        } else {
            old(ring)@
        },
{
    if source == active_source {
        ring.write_all(frames);
    }
}

/// What one round of the output loop sends.
#[derive(Debug, Clone, Copy, PartialEq, Eq)]
pub struct OutputStep {
    /// New value of the clock divider register, if it changes.
    pub clkdiv: Option<u32>,
    /// Words for the I2S FIFO; silence keeps the clock running.
    pub left: u32,
    pub right: u32,
    /// Magnitudes of the frame, if there was one.
    pub peaks: Option<(u32, u32)>,
}

/// State of the output loop.
pub struct OutputLoop {
    tx: I2sTx,
    check_counter: u32,
}

impl OutputLoop {
    pub closed spec fn wf(self) -> bool {
        &&& self.tx.wf()
        &&& self.check_counter < CHECK_INTERVAL
    }

    pub closed spec fn clock(self) -> I2sTx {
        self.tx
    }

    /// Rounds since the last look at the buffer level.
    pub closed spec fn counter(self) -> u32 {
        self.check_counter
    }

    pub fn new(tx: I2sTx) -> (l: Self)
        requires
            tx.wf(),
        ensures
            l.wf(),
            l.clock() == tx,
            l.counter() == 0,
    {
        OutputLoop { tx, check_counter: 0 }
    }

    /// The rate to reconfigure for, given the pending request (0 for none).
    pub fn rate_change(&self, pending: u32) -> (rate: Option<u32>)
        ensures
            rate == if pending != 0 && pending != self.clock().rate() {
                Some(pending)
            } else {
                None
            },
    {
        if pending != 0 && pending != self.tx.sample_rate() {
            Some(pending)
        } else {
            None
        }
    }

    /// Reconfigures for a rate and starts with an empty buffer; `sys_freq` is the
    /// system clock. Returns the new value of the clock divider register.
    pub fn change_rate(
        &mut self,
        sample_rate: u32,
        sys_freq: u32,
        ring: &mut AudioRingBuffer,
    ) -> (clkdiv: u32)
        requires
            old(self).wf(),
            sample_rate != old(self).clock().rate(),
            crate::audio::i2s::has_divider(sample_rate, sys_freq),
        ensures
            final(self).wf(),
            final(self).clock().rate() == sample_rate,
            final(self).clock().nominal() == crate::audio::i2s::divider_register(
                crate::audio::i2s::divider(sample_rate, sys_freq),
            ),
            final(self).clock().speed() == ClockSpeed::Normal,
            final(self).counter() == 0,
            clkdiv == final(self).clock().nominal(),
            final(ring).wf(),
            final(ring)@ == Seq::<StereoFrame>::empty(),
    {
        self.tx.set_sample_rate(sample_rate, sys_freq);
        ring.clear();
        self.check_counter = 0;
        self.tx.clkdiv()
    }

    /// One round: takes a line-in frame into the buffer if line-in is active,
    /// adjusts the clock every [`CHECK_INTERVAL`] rounds, and takes the next
    /// frame out of the buffer.
    pub fn step(
        &mut self,
        ring: &mut AudioRingBuffer,
        active_source: u8,
        line_in: Option<(u32, u32)>,
    ) -> (step: OutputStep)
        requires
            old(self).wf(),
            old(ring).wf(),
        ensures
            final(self).wf(),
            final(ring).wf(),
            final(self).clock().rate() == old(self).clock().rate(),
            final(self).clock().nominal() == old(self).clock().nominal(),
            ({
                let held = after_line_in(old(ring)@, active_source, line_in);
                let look = old(self).counter() + 1 == CHECK_INTERVAL;
                let speed = if !look {
                    old(self).clock().speed()
                } else if active_source == SOURCE_LINEIN {
                    ClockSpeed::Normal
                } else {
                    speed_for(held.len() as int)
                };
                &&& final(self).counter() == if look {
                    0
                } else {
                    old(self).counter() + 1
                }
                &&& final(self).clock().speed() == speed
                &&& step.clkdiv == if speed == old(self).clock().speed() {
                    None
                } else {
                    Some(crate::audio::i2s::register_at(old(self).clock().nominal(), speed))
                }
                &&& if held.len() == 0 {
                    &&& step.left == 0
                    &&& step.right == 0
                    &&& step.peaks is None
                    &&& final(ring)@ == held
                } else {
                    &&& crate::audio::convert::signed32(step.left) == held[0].left
                    &&& crate::audio::convert::signed32(step.right) == held[0].right
                    &&& step.peaks == Some(
                        (magnitude(held[0].left) as u32, magnitude(held[0].right) as u32),
                    )
                    &&& final(ring)@ == held.skip(1)
                }
            }),
    {
        proof {
            ring.lemma_bound();
        }
        if let Some((left, right)) = line_in {
            if active_source == SOURCE_LINEIN {
                let frame = StereoFrame::new(
                    word_to_sample(left % 0x8000_0000 * 2),
                    word_to_sample(right % 0x8000_0000 * 2),
                );
                assert(left % 0x8000_0000 * 2 == left * 2 % 0x1_0000_0000);
                assert(right % 0x8000_0000 * 2 == right * 2 % 0x1_0000_0000);
                ring.write_sample(frame);
                assert(frame == line_in_frame((left, right)));
            }
        }
        let ghost held = ring@;
        assert(held =~= after_line_in(old(ring)@, active_source, line_in));
        let mut clkdiv: Option<u32> = None;
        self.check_counter = self.check_counter + 1;
        if self.check_counter >= CHECK_INTERVAL {
            self.check_counter = 0;
            let speed: ClockSpeed = if active_source == SOURCE_LINEIN {
                // Receiver and transmitter share a clock: nothing drifts.
                ClockSpeed::Normal
            } else {
                let level: usize = ring.available();
                if level < 64 {
                    ClockSpeed::Slow
                } else if level < 192 {
                    ClockSpeed::Normal
                } else {
                    ClockSpeed::Fast
                }
            };
            if self.tx.adjust_clock(speed) {
                clkdiv = Some(self.tx.clkdiv());
            }
        }
        match ring.read_sample() {
            Some(frame) => OutputStep {
                clkdiv,
                left: sample_to_word(frame.left),
                right: sample_to_word(frame.right),
                peaks: Some((absolute(frame.left), absolute(frame.right))),
            },
            None => OutputStep { clkdiv, left: 0, right: 0, peaks: None },
        }
    }
}

/// The contents of the ring buffer after the line-in words were taken.
pub open spec fn after_line_in(
    held: Seq<StereoFrame>,
    active_source: u8,
    line_in: Option<(u32, u32)>,
) -> Seq<StereoFrame> {
    match line_in {
        Some(words) => if active_source == SOURCE_LINEIN {
            crate::audio::pipeline::filled(held, seq![line_in_frame(words)])
        } else {
            held
        },
        None => held,
    }
}

/// The clock control works against the buffer level: a fuller buffer is never
/// emptied more slowly.
pub proof fn law_clock_follows_level(nominal: u32, low: int, high: int)
    requires
        low <= high,
    ensures
        crate::audio::i2s::register_at(nominal, speed_for(high))
            <= crate::audio::i2s::register_at(nominal, speed_for(low)),
{
}

/// The clock runs at its nominal rate with 64 to 191 frames in the buffer, slower
/// with fewer and faster with more; 128 are the target.
pub proof fn law_speed_by_level(nominal: u32, level: int)
    ensures
        speed_for(level) == ClockSpeed::Normal <==> 64 <= level <= 191,
        speed_for(level) == ClockSpeed::Slow <==> level <= 63,
        speed_for(level) == ClockSpeed::Fast <==> level >= 192,
        crate::audio::i2s::register_at(nominal, speed_for(128)) == nominal,
{
}

/// Line-in samples are doubled, modulo the range of a word, channel by channel.
pub proof fn law_line_in_is_shifted(words: (u32, u32))
    ensures
        (line_in_frame(words).left - 2 * words.0) % 0x1_0000_0000 == 0,
        (line_in_frame(words).right - 2 * words.1) % 0x1_0000_0000 == 0,
{
}

/// Line-in is source 0: its frame joins the buffer, at the end, if there is room
/// and it is the active source. No other source lets it in.
pub proof fn law_line_in_joins(held: Seq<StereoFrame>, source: u8, words: (u32, u32))
    requires
        held.len() <= 512,
    ensures
        source == 0 && held.len() < 512 ==> after_line_in(held, source, Some(words)) == held.push(
            line_in_frame(words),
        ),
        source != 0 || held.len() == 512 ==> after_line_in(held, source, Some(words)) == held,
        after_line_in(held, source, None) == held,
        SOURCE_LINEIN == 0 && SOURCE_SPDIF == 1 && SOURCE_USB == 2,
{
    assert(held + seq![line_in_frame(words)] =~= held.push(line_in_frame(words)));
    assert((held + seq![line_in_frame(words)]).take(512) =~= if held.len() == 512 {
        held
    } else {
        (held + seq![line_in_frame(words)]).take(512)
    });
}

/// A magnitude is the sample or its opposite, and not negative.
pub proof fn law_magnitude(sample: i32)
    ensures
        magnitude(sample) >= 0,
        magnitude(sample) == sample || magnitude(sample) == -sample,
{
}

/// The level is looked at every 256 rounds.
pub proof fn law_look_interval()
    ensures
        CHECK_INTERVAL == 256,
{
}

/// A round plays the oldest frame of the buffer, or silence, and tells its peaks.
pub proof fn law_step_plays_oldest(
    l: &mut OutputLoop,
    ring: &mut AudioRingBuffer,
    active_source: u8,
    line_in: Option<(u32, u32)>,
    step: OutputStep,
)
    requires
        old(l).wf(),
        old(ring).wf(),
        active_source != 0 || line_in is None,
        call_ensures(OutputLoop::step, (l, ring, active_source, line_in), step),
    ensures
        old(ring)@.len() == 0 ==> step.left == 0 && step.right == 0 && step.peaks is None
            && final(ring)@.len() == 0,
        old(ring)@.len() > 0 ==> {
            let frame = old(ring)@[0];
            &&& crate::audio::convert::signed32(step.left) == frame.left
            &&& crate::audio::convert::signed32(step.right) == frame.right
            &&& final(ring)@ == old(ring)@.skip(1)
            &&& step.peaks is Some
            &&& (step.peaks->0).0 == magnitude(frame.left) && (step.peaks->0).1 == magnitude(
                frame.right,
            )
        },
{
}

/// A round with a line-in frame takes it into the buffer before it plays: while
/// line-in is active, an empty buffer plays that frame at once.
pub proof fn law_step_takes_line_in(
    l: &mut OutputLoop,
    ring: &mut AudioRingBuffer,
    words: (u32, u32),
    step: OutputStep,
)
    requires
        old(l).wf(),
        old(ring).wf(),
        old(ring)@.len() < crate::audio::pipeline::BUFFER_SIZE,
        call_ensures(OutputLoop::step, (l, ring, 0u8, Some(words)), step),
    ensures
        final(ring)@ == old(ring)@.push(line_in_frame(words)).skip(1),
        old(ring)@.len() == 0 ==> crate::audio::convert::signed32(step.left) == line_in_frame(
            words,
        ).left && crate::audio::convert::signed32(step.right) == line_in_frame(words).right,
{
    law_line_in_joins(old(ring)@, 0, words);
}

/// Every 1000th round looks at the buffer and sets the clock by what it holds: slow
/// below 64 frames, fast from 192 on, normal between, and always normal for
/// line-in. Between two looks the clock is left alone.
pub proof fn law_step_sets_clock(
    l: &mut OutputLoop,
    ring: &mut AudioRingBuffer,
    active_source: u8,
    line_in: Option<(u32, u32)>,
    step: OutputStep,
)
    requires
        old(l).wf(),
        old(ring).wf(),
        call_ensures(OutputLoop::step, (l, ring, active_source, line_in), step),
    ensures
        ({
            let before = old(l).clock();
            let after = final(l).clock();
            let held = old(ring)@.len();
            let looks = old(l).counter() + 1 == CHECK_INTERVAL;
            &&& !looks ==> after.speed() == before.speed() && step.clkdiv is None
            &&& !looks ==> final(l).counter() == old(l).counter() + 1
            &&& looks ==> final(l).counter() == 0
            &&& looks && active_source == 0 ==> after.speed() == ClockSpeed::Normal
            &&& looks && active_source != 0 && held < 64 ==> after.speed() == ClockSpeed::Slow
            &&& looks && active_source != 0 && 64 <= held < 192 ==> after.speed()
                == ClockSpeed::Normal
            &&& looks && active_source != 0 && held >= 192 ==> after.speed() == ClockSpeed::Fast
            &&& step.clkdiv is None <==> after.speed() == before.speed()
            &&& step.clkdiv is Some ==> step.clkdiv->0 == crate::audio::i2s::register_at(
                before.nominal(),
                after.speed(),
            )
            &&& after.nominal() == before.nominal() && after.rate() == before.rate()
        }),
{
}

/// Frames reach the buffer only from the active source, behind what it holds, and
/// as many as there is room for.
pub proof fn law_playing(
    ring: &mut AudioRingBuffer,
    source: u8,
    active_source: u8,
    frames: &[StereoFrame],
    i: int,
)
    requires
        old(ring).wf(),
        call_ensures(play_frames, (ring, source, active_source, frames), ()),
    ensures
        source != active_source ==> final(ring)@ == old(ring)@,
        source == active_source && old(ring)@.len() + frames@.len()
            <= crate::audio::pipeline::BUFFER_SIZE ==> final(ring)@ == old(ring)@ + frames@,
        0 <= i < old(ring)@.len() ==> final(ring)@[i] == old(ring)@[i],
        final(ring)@.len() >= old(ring)@.len(),
{
    old(ring).lemma_bound();
    crate::audio::pipeline::law_capacity(old(ring)@, frames@);
}

/// A rate is changed to only if one is asked for and it is another one; the buffer
/// then starts empty, at the nominal clock of the rate.
pub proof fn law_rate_changes(l: OutputLoop, pending: u32, rate: Option<u32>)
    requires
        call_ensures(OutputLoop::rate_change, (&l, pending), rate),
    ensures
        rate is Some <==> pending != 0 && pending != l.clock().rate(),
        rate is Some ==> rate->0 == pending,
{
}

/// After a change of rate.
pub proof fn law_rate_changed(
    l: &mut OutputLoop,
    sample_rate: u32,
    sys_freq: u32,
    ring: &mut AudioRingBuffer,
    clkdiv: u32,
)
    requires
        old(l).wf(),
        sample_rate != old(l).clock().rate(),
        crate::audio::i2s::has_divider(sample_rate, sys_freq),
        call_ensures(OutputLoop::change_rate, (l, sample_rate, sys_freq, ring), clkdiv),
    ensures
        final(l).clock().rate() == sample_rate,
        final(l).clock().speed() == ClockSpeed::Normal,
        clkdiv == final(l).clock().nominal(),
        clkdiv == crate::audio::i2s::divider_register(
            crate::audio::i2s::divider(sample_rate, sys_freq),
        ),
        final(l).counter() == 0,
        final(ring)@.len() == 0,
{
}

} // verus!
