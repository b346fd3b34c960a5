//! Ring buffer for audio samples between producers and the output loop.
//!
//! - Producers: S/PDIF task, USB task, line-in
//! - Consumer: I2S output loop
//!
//! Clock recovery keeps its level stable by adjusting the I2S clock.

use vstd::prelude::*;

verus! {

/// Block size for buffer calculations.
pub const BLOCK_SIZE: usize = 128;

/// Number of blocks in the ring buffer.
pub const BUFFER_BLOCKS: usize = 4;

/// Total samples in the ring buffer.
pub const BUFFER_SIZE: usize = 512;

/// Audio sample type (32-bit signed, Q31 format).
pub type Sample = i32;

/// Stereo audio frame.
#[derive(Debug, Clone, Copy, PartialEq, Eq, Structural)]
pub struct StereoFrame {
    pub left: Sample,
    pub right: Sample,
}

impl StereoFrame {
    pub fn new(left: Sample, right: Sample) -> (frame: Self)
        ensures
            frame == (StereoFrame { left, right }),
    {
        StereoFrame { left, right }
    }

    pub open spec fn silence() -> StereoFrame {
        StereoFrame { left: 0, right: 0 }
    }

    /// The silent frame.
    pub fn zero() -> (frame: Self)
        ensures
            frame == StereoFrame::silence(),
    {
        StereoFrame { left: 0, right: 0 }
    }
}

impl Default for StereoFrame {
    fn default() -> (frame: Self)
        ensures
            frame == StereoFrame::silence(),
    {
        StereoFrame { left: 0, right: 0 }
    }
}

/// Ring buffer for audio samples. Both positions run freely and wrap around
/// at the end of the number range, which the buffer size divides.
pub struct AudioRingBuffer {
    data: [StereoFrame; BUFFER_SIZE],
    write_pos: usize,
    read_pos: usize,
}

/// How far the write position is ahead of the read position.
spec fn ahead(write: int, read: int) -> int {
    if write >= read {
        write - read
    } else {
        write - read + usize::MAX + 1
    }
}

impl View for AudioRingBuffer {
    type V = Seq<StereoFrame>;

    /// The samples to be read, oldest first.
    closed spec fn view(&self) -> Seq<StereoFrame> {
        Seq::new(
            ahead(self.write_pos as int, self.read_pos as int) as nat,
            |i: int| self.data@[(self.read_pos + i) % (BUFFER_SIZE as int)],
        )
    }
}

proof fn lemma_size_divides_range()
    ensures
        (usize::MAX + 1) % (BUFFER_SIZE as int) == 0,
        usize::MAX > BUFFER_SIZE,
{
    assert(usize::MAX == 0xffff_ffff || usize::MAX == 0xffff_ffff_ffff_ffff);
}

impl AudioRingBuffer {
    pub closed spec fn wf(self) -> bool {
        ahead(self.write_pos as int, self.read_pos as int) <= BUFFER_SIZE
    }

    pub fn new() -> (ring: Self)
        ensures
            ring.wf(),
            ring@ == Seq::<StereoFrame>::empty(),
    {
        let ring = AudioRingBuffer {
            data: [StereoFrame { left: 0, right: 0 };BUFFER_SIZE],
            write_pos: 0,
            read_pos: 0,
        };
        assert(ring@ =~= Seq::<StereoFrame>::empty());
        ring
    }

    /// A ring buffer never holds more than its size.
    pub proof fn lemma_bound(&self)
        requires
            self.wf(),
        ensures
            self@.len() <= BUFFER_SIZE,
    {
    }

    /// Number of samples available to read.
    pub fn available(&self) -> (count: usize)
        requires
            self.wf(),
        ensures
            count == self@.len(),
            count <= BUFFER_SIZE,
    {
        self.write_pos.wrapping_sub(self.read_pos)
    }

    /// Space available for writing.
    pub fn space(&self) -> (count: usize)
        requires
            self.wf(),
        ensures
            count == BUFFER_SIZE - self@.len(),
    {
        BUFFER_SIZE - self.available()
    }

    /// Writes a single sample. A full buffer takes none and stays as it is.
    pub fn write_sample(&mut self, sample: StereoFrame) -> (written: bool)
        requires
            old(self).wf(),
        ensures
            final(self).wf(),
            written == (old(self)@.len() < BUFFER_SIZE),
            final(self)@ == if written {
                old(self)@.push(sample)
            } else {
                old(self)@
            },
    {
        if self.space() == 0 {
            return false;
        }
        let pos: usize = self.write_pos % BUFFER_SIZE;
        proof {
            lemma_size_divides_range();
        }
        self.data[pos] = sample;
        self.write_pos = self.write_pos.wrapping_add(1);
        assert(self@ =~= old(self)@.push(sample));
        true
    }

    /// Reads and consumes the oldest sample.
    pub fn read_sample(&mut self) -> (sample: Option<StereoFrame>)
        requires
            old(self).wf(),
        ensures
            final(self).wf(),
            match sample {
                None => old(self)@.len() == 0 && final(self)@ == old(self)@,
                Some(frame) => old(self)@.len() > 0 && frame == old(self)@[0] && final(self)@
                    == old(self)@.skip(1),
            },
    {
        if self.available() == 0 {
            return None;
        }
        let pos: usize = self.read_pos % BUFFER_SIZE;
        let sample = self.data[pos];
        proof {
            lemma_size_divides_range();
        }
        self.read_pos = self.read_pos.wrapping_add(1);
        assert(self@ =~= old(self)@.skip(1));
        Some(sample)
    }

    /// Discards all samples.
    pub fn clear(&mut self)
        ensures
            final(self).wf(),
            final(self)@ == Seq::<StereoFrame>::empty(),
    {
        self.read_pos = 0;
        self.write_pos = 0;
        assert(self@ =~= Seq::<StereoFrame>::empty());
    }

    /// Writes samples in order until the buffer is full; the rest is dropped.
    pub fn write_all(&mut self, samples: &[StereoFrame])
        requires
            old(self).wf(),
        ensures
            final(self).wf(),
            final(self)@ == filled(old(self)@, samples@),
    {
        let mut i: usize = 0;
        let ghost start = self@;
        assert(start + samples@.take(0) =~= start);
        while i < samples.len()
            invariant
                i <= samples@.len(),
                self.wf(),
                start.len() <= BUFFER_SIZE,
                self@ == filled(start, samples@.take(i as int)),
            decreases samples@.len() - i,
        {
            self.write_sample(samples[i]);
            assert(samples@.take(i + 1) =~= samples@.take(i as int).push(samples@[i as int]));
            assert(self@ =~= filled(start, samples@.take(i + 1)));
            i = i + 1;
        }
        assert(samples@.take(i as int) =~= samples@);
    }
}

/// The contents after samples were written into a ring buffer that held
/// `held`: what does not fit is dropped.
pub open spec fn filled(held: Seq<StereoFrame>, samples: Seq<StereoFrame>) -> Seq<StereoFrame> {
    let all = held + samples;
    if all.len() <= BUFFER_SIZE {
        all
    } else {
        all.take(BUFFER_SIZE as int)
    }
}

/// Samples that fit come out in the order in which they were written, after
/// those that were there before.
pub proof fn law_first_in_first_out(held: Seq<StereoFrame>, samples: Seq<StereoFrame>)
    requires
        held.len() + samples.len() <= BUFFER_SIZE,
    ensures
        filled(held, samples).take(held.len() as int) == held,
        filled(held, samples).skip(held.len() as int) == samples,
{
    assert((held + samples).take(held.len() as int) =~= held);
    assert((held + samples).skip(held.len() as int) =~= samples);
}

/// Writing in two portions is the same as writing at once.
pub proof fn law_portions(held: Seq<StereoFrame>, a: Seq<StereoFrame>, b: Seq<StereoFrame>)
    requires
        held.len() <= BUFFER_SIZE,
    ensures
        filled(filled(held, a), b) == filled(held, a + b),
{
    assert(filled(filled(held, a), b) =~= filled(held, a + b));
}

/// A ring buffer takes 512 frames. What it takes is a prefix of what was there
/// and what was written, and something is left out only if it is full.
pub proof fn law_capacity(held: Seq<StereoFrame>, samples: Seq<StereoFrame>)
    requires
        held.len() <= BUFFER_SIZE,
    ensures
        BUFFER_SIZE == 512,
        filled(held, samples).len() <= 512,
        filled(held, samples).is_prefix_of(held + samples),
        filled(held, samples).len() == 512 || filled(held, samples) == held + samples,
        held.is_prefix_of(filled(held, samples)),
{
    assert(filled(held, samples) =~= (held + samples).take(filled(held, samples).len() as int));
    assert(held =~= filled(held, samples).take(held.len() as int));
}

/// Silence is zero on both channels.
pub proof fn law_silence()
    ensures
        StereoFrame::silence().left == 0,
        StereoFrame::silence().right == 0,
{
}

/// A frame that is written is the last to be read, and one that is read is the
/// first that was written; a full buffer takes none, an empty one gives none.
pub proof fn law_read_and_write(
    ring: &mut AudioRingBuffer,
    sample: StereoFrame,
    written: bool,
    other: &mut AudioRingBuffer,
    read: Option<StereoFrame>,
)
    requires
        old(ring).wf(),
        old(other).wf(),
        call_ensures(AudioRingBuffer::write_sample, (ring, sample), written),
        call_ensures(AudioRingBuffer::read_sample, (other,), read),
    ensures
        written <==> old(ring)@.len() < 512,
        written ==> final(ring)@.len() == old(ring)@.len() + 1 && final(ring)@.last() == sample
            && final(ring)@.drop_last() == old(ring)@,
        !written ==> final(ring)@ == old(ring)@,
        read is None <==> old(other)@.len() == 0,
        read is Some ==> seq![read->0] + final(other)@ == old(other)@,
        read is None ==> final(other)@ == old(other)@,
{
    if written {
        assert(final(ring)@.drop_last() =~= old(ring)@);
    }
    if read is Some {
        assert(seq![read->0] + final(other)@ =~= old(other)@);
    }
}

/// What is held and what there is room for add up to 512 frames.
pub proof fn law_room_left(ring: AudioRingBuffer, available: usize, space: usize)
    requires
        ring.wf(),
        call_ensures(AudioRingBuffer::available, (&ring,), available),
        call_ensures(AudioRingBuffer::space, (&ring,), space),
    ensures
        available == ring@.len(),
        available + space == 512,
{
}

/// Frames written at once follow those held, as many as there is room for; clearing
/// leaves none.
pub proof fn law_writing_many(
    ring: &mut AudioRingBuffer,
    samples: &[StereoFrame],
    cleared: &mut AudioRingBuffer,
)
    requires
        old(ring).wf(),
        call_ensures(AudioRingBuffer::write_all, (ring, samples), ()),
        call_ensures(AudioRingBuffer::clear, (cleared,), ()),
    ensures
        final(ring)@.is_prefix_of(old(ring)@ + samples@),
        final(ring)@.len() == 512 || final(ring)@ == old(ring)@ + samples@,
        final(ring)@.len() >= old(ring)@.len(),
        final(cleared)@.len() == 0,
{
    old(ring).lemma_bound();
    law_capacity(old(ring)@, samples@);
}

} // verus!
