//! USB Audio Class 1.0 speaker: packet formats, rate feedback and volume
//! control.

use vstd::prelude::*;

use crate::audio::convert::justify24;
use crate::audio::output::SOURCE_USB;
use crate::audio::pipeline::{AudioRingBuffer, StereoFrame};

verus! {

/// Width of a sample on the bus.
#[derive(Debug, Clone, Copy, PartialEq, Eq, Structural)]
pub enum SampleWidth {
    Width2Byte,
    Width3Byte,
    Width4Byte,
}

/// USB audio configuration.
#[derive(Debug, Clone, Copy, PartialEq, Eq, Structural)]
pub struct UsbAudioConfig {
    /// Sample rate in Hz.
    pub sample_rate: u32,
    pub bit_depth: SampleWidth,
    /// Largest packet, with a margin for clock drift.
    pub max_packet_size: u16,
}

impl Default for UsbAudioConfig {
    fn default() -> (config: Self)
        ensures
            config == (UsbAudioConfig {
                sample_rate: 96_000,
                bit_depth: SampleWidth::Width3Byte,
                max_packet_size: 640,
            }),
    {
        UsbAudioConfig {
            sample_rate: 96_000,
            bit_depth: SampleWidth::Width3Byte,
            max_packet_size: 640,
        }
    }
}

impl UsbAudioConfig {
    /// 96 kHz 24-bit stereo.
    pub fn new_96k_24bit() -> (config: Self)
        ensures
            config == (UsbAudioConfig {
                sample_rate: 96_000,
                bit_depth: SampleWidth::Width3Byte,
                max_packet_size: 640,
            }),
    {
        UsbAudioConfig::default()
    }

    /// 48 kHz 24-bit stereo.
    pub fn new_48k_24bit() -> (config: Self)
        ensures
            config == (UsbAudioConfig {
                sample_rate: 48_000,
                bit_depth: SampleWidth::Width3Byte,
                max_packet_size: 320,
            }),
    {
        UsbAudioConfig {
            sample_rate: 48_000,
            bit_depth: SampleWidth::Width3Byte,
            max_packet_size: 320,
        }
    }

    pub open spec fn stereo_bytes(self) -> int {
        match self.bit_depth {
            SampleWidth::Width2Byte => 4,
            SampleWidth::Width3Byte => 6,
            SampleWidth::Width4Byte => 8,
        }
    }

    /// Bytes per stereo sample.
    pub fn bytes_per_sample(&self) -> (bytes: usize)
        ensures
            bytes == self.stereo_bytes(),
    {
        match self.bit_depth {
            SampleWidth::Width2Byte => 4,
            SampleWidth::Width3Byte => 6,
            SampleWidth::Width4Byte => 8,
        }
    }

    /// Expected bytes per USB frame (1 ms at full speed).
    pub fn bytes_per_frame(&self) -> (bytes: usize)
        ensures
            bytes == self.sample_rate as int / 1000 * self.stereo_bytes(),
    {
        let samples: usize = (self.sample_rate / 1000) as usize;
        let bytes: usize = self.bytes_per_sample();
        assert(samples * bytes <= 4_294_967 * 8) by (nonlinear_arith)
            requires
                samples <= 4_294_967,
                bytes <= 8,
        ;
        samples * bytes
    }
}

/// The 24-bit number in three bytes, least significant first.
pub open spec fn packed24(data: Seq<u8>, at: int) -> int {
    data[at] + data[at + 1] * 0x100 + data[at + 2] * 0x1_0000
}

/// The left-justified sample in three bytes.
pub open spec fn sample24(data: Seq<u8>, at: int) -> int {
    crate::audio::convert::signed24(packed24(data, at)) * 256
}

fn read24(data: &[u8], at: usize) -> (v: u32)
    requires
        at + 2 < data@.len(),
    ensures
        v == packed24(data@, at as int),
        v < 0x100_0000,
{
    data[at] as u32 + data[at + 1] as u32 * 0x100 + data[at + 2] as u32 * 0x1_0000
}

/// The frames in 24-bit stereo data.
pub open spec fn packet_frames(data: Seq<u8>) -> Seq<StereoFrame> {
    Seq::new(
        data.len() / 6,
        |i: int|
            StereoFrame {
                left: sample24(data, 6 * i) as i32,
                right: sample24(data, 6 * i + 3) as i32,
            },
    )
}

pub open spec fn least(a: nat, b: nat) -> nat {
    if a < b {
        a
    } else {
        b
    }
}

/// Converts 24-bit USB audio to 32-bit I2S samples with the audio in the upper
/// 24 bits. Returns the number of stereo samples converted: as many as there
/// are and both outputs have room for.
pub fn usb_24bit_to_i2s_32bit(usb_data: &[u8], i2s_left: &mut [i32], i2s_right: &mut [i32]) -> (samples:
    usize)
    ensures
        samples == least(
            least(usb_data@.len() / 6, old(i2s_left)@.len()),
            old(i2s_right)@.len(),
        ),
        final(i2s_left)@.len() == old(i2s_left)@.len(),
        final(i2s_right)@.len() == old(i2s_right)@.len(),
        forall|i: int|
            0 <= i < samples ==> #[trigger] final(i2s_left)@[i] == sample24(usb_data@, 6 * i),
        forall|i: int|
            0 <= i < samples ==> #[trigger] final(i2s_right)@[i] == sample24(
                usb_data@,
                6 * i + 3,
            ),
        final(i2s_left)@.skip(samples as int) == old(i2s_left)@.skip(samples as int),
        final(i2s_right)@.skip(samples as int) == old(i2s_right)@.skip(samples as int),
{
    let mut samples: usize = usb_data.len() / 6;
    if i2s_left.len() < samples {
        samples = i2s_left.len();
    }
    if i2s_right.len() < samples {
        samples = i2s_right.len();
    }
    let mut i: usize = 0;
    while i < samples
        invariant
            i <= samples,
            6 * samples <= usb_data@.len() <= usize::MAX,
            samples <= i2s_left@.len(),
            samples <= i2s_right@.len(),
            i2s_left@.len() == old(i2s_left)@.len(),
            i2s_right@.len() == old(i2s_right)@.len(),
            forall|j: int| 0 <= j < i ==> #[trigger] i2s_left@[j] == sample24(usb_data@, 6 * j),
            forall|j: int|
                0 <= j < i ==> #[trigger] i2s_right@[j] == sample24(usb_data@, 6 * j + 3),
            i2s_left@.skip(samples as int) =~= old(i2s_left)@.skip(samples as int),
            i2s_right@.skip(samples as int) =~= old(i2s_right)@.skip(samples as int),
        decreases samples - i,
    {
        let offset: usize = i * 6;
        i2s_left[i] = justify24(read24(usb_data, offset));
        i2s_right[i] = justify24(read24(usb_data, offset + 3));
        i = i + 1;
    }
    samples
}

/// Converts 24-bit USB audio to packed stereo samples: left in the upper 32
/// bits, right in the lower. Returns the number of samples converted.
pub fn usb_24bit_to_stereo_packed(usb_data: &[u8], output: &mut [u64]) -> (samples: usize)
    ensures
        samples == least(usb_data@.len() / 6, old(output)@.len()),
        final(output)@.len() == old(output)@.len(),
        forall|i: int|
            0 <= i < samples ==> #[trigger] final(output)@[i] == packed24(usb_data@, 6 * i) * 256
                * 0x1_0000_0000 + packed24(usb_data@, 6 * i + 3) * 256,
        final(output)@.skip(samples as int) == old(output)@.skip(samples as int),
{
    let mut samples: usize = usb_data.len() / 6;
    if output.len() < samples {
        samples = output.len();
    }
    let mut i: usize = 0;
    while i < samples
        invariant
            i <= samples,
            6 * samples <= usb_data@.len() <= usize::MAX,
            samples <= output@.len(),
            output@.len() == old(output)@.len(),
            forall|j: int|
                0 <= j < i ==> #[trigger] output@[j] == packed24(usb_data@, 6 * j) * 256
                    * 0x1_0000_0000 + packed24(usb_data@, 6 * j + 3) * 256,
            output@.skip(samples as int) =~= old(output)@.skip(samples as int),
        decreases samples - i,
    {
        let offset: usize = i * 6;
        let left: u64 = read24(usb_data, offset) as u64 * 256;
        let right: u64 = read24(usb_data, offset + 3) as u64 * 256;
        output[i] = left * 0x1_0000_0000 + right;
        i = i + 1;
    }
    samples
}

/// Converts a received packet to frames.
pub fn frames_from_packet(packet: &[u8]) -> (frames: Vec<StereoFrame>)
    ensures
        frames@ == packet_frames(packet@),
{
    let mut frames: Vec<StereoFrame> = Vec::new();
    let count: usize = packet.len() / 6;
    let mut i: usize = 0;
    while i < count
        invariant
            i <= count,
            count == packet@.len() / 6,
            packet@.len() <= usize::MAX,
            frames@ =~= packet_frames(packet@).take(i as int),
        decreases count - i,
    {
        let base: usize = i * 6;
        let left: i32 = justify24(read24(packet, base));
        let right: i32 = justify24(read24(packet, base + 3));
        frames.push(StereoFrame::new(left, right));
        i = i + 1;
    }
    assert(frames@ =~= packet_frames(packet@));
    frames
}

/// Takes a received packet: its frames go to the ring buffer if USB is the
/// active source, and are dropped otherwise.
pub fn receive_packet(ring: &mut AudioRingBuffer, active_source: u8, packet: &[u8])
    requires
        old(ring).wf(),
    ensures
        final(ring).wf(),
        final(ring)@ == if active_source == SOURCE_USB {
            crate::audio::pipeline::filled(old(ring)@, packet_frames(packet@))
        } else {
            old(ring)@
        },
{
    if active_source == SOURCE_USB {
        let frames: Vec<StereoFrame> = frames_from_packet(packet);
        ring.write_all(frames.as_slice());
    }
}

/// Frames over which the feedback value is averaged.
pub const FEEDBACK_FRAMES: u32 = 8;

/// A feedback value (samples per frame with 14 fractional bits) as it goes on
/// the bus: the low three bytes, least significant first.
pub open spec fn feedback_bytes(value: int) -> Seq<u8> {
    seq![(value % 0x100) as u8, (value / 0x100 % 0x100) as u8, (value / 0x1_0000 % 0x100) as u8]
}

fn low_bytes(value: u64) -> (packet: [u8; 3])
    ensures
        packet@ == feedback_bytes(value as int),
{
    let packet: [u8; 3] = [
        (value % 0x100) as u8,
        (value / 0x100 % 0x100) as u8,
        (value / 0x1_0000 % 0x100) as u8,
    ];
    assert(packet@ =~= feedback_bytes(value as int));
    packet
}

/// The packet for a raw feedback value.
pub fn raw_feedback(value: u32) -> (packet: [u8; 3])
    ensures
        packet@ == feedback_bytes(value as int),
{
    low_bytes(value as u64)
}

/// Rate feedback to the host.
pub struct RateFeedback {
    sample_rate: u32,
    sample_count: u32,
}

impl RateFeedback {
    pub closed spec fn rate(self) -> u32 {
        self.sample_rate
    }

    /// Samples consumed since the last packet was sent.
    pub closed spec fn pending(self) -> u32 {
        self.sample_count
    }

    pub fn new(sample_rate: u32) -> (f: Self)
        ensures
            f.rate() == sample_rate,
            f.pending() == 0,
    {
        RateFeedback { sample_rate, sample_count: 0 }
    }

    /// Samples consumed since the last packet was sent.
    pub fn sample_count(&self) -> (count: u32)
        ensures
            count == self.pending(),
    {
        self.sample_count
    }

    /// Counts consumed samples. Once those of [`FEEDBACK_FRAMES`] frames have
    /// been consumed, returns the feedback packet to send.
    pub fn update_feedback(&mut self, samples_consumed: u32) -> (packet: Option<[u8; 3]>)
        requires
            old(self).pending() + samples_consumed <= u32::MAX,
        ensures
            final(self).rate() == old(self).rate(),
            final(self).pending() == old(self).pending() + samples_consumed,
            match packet {
                Some(bytes) => {
                    &&& final(self).pending() >= old(self).rate() as int / 1000 * 8
                    &&& bytes@ == feedback_bytes(final(self).pending() as int / 8 * 0x4000)
                },
                None => final(self).pending() < old(self).rate() as int / 1000 * 8,
            },
    {
        self.sample_count = self.sample_count + samples_consumed;
        if self.sample_count >= self.sample_rate / 1000 * FEEDBACK_FRAMES {
            let samples_per_frame: u32 = self.sample_count / FEEDBACK_FRAMES;
            Some(low_bytes(samples_per_frame as u64 * 0x4000))
        } else {
            None
        }
    }

    /// A packet was sent: counts anew. Until then the count goes on, so that a
    /// packet that could not be sent is not lost.
    pub fn packet_sent(&mut self)
        ensures
            final(self).rate() == old(self).rate(),
            final(self).pending() == 0,
    {
        self.sample_count = 0;
    }
}

/// A volume setting of the host: muted, or a level in dB with 8 fractional
/// bits and the percentage that it stands for.
#[derive(Debug, Clone, Copy, PartialEq, Eq, Structural)]
pub enum HostVolume {
    Muted,
    Level { decibel: i32, percent: u8 },
}

/// Follows the host's volume control and tells what changed.
pub struct VolumeMonitor {
    last_muted: bool,
    last_decibel: Option<i32>,
}

impl VolumeMonitor {
    pub closed spec fn muted(self) -> bool {
        self.last_muted
    }

    pub closed spec fn decibel(self) -> Option<i32> {
        self.last_decibel
    }

    pub fn new() -> (m: Self)
        ensures
            !m.muted(),
            m.decibel() is None,
    {
        VolumeMonitor { last_muted: false, last_decibel: None }
    }

    /// Takes a setting of the host. Returns the mute state and the volume in
    /// percent, each if it changed.
    pub fn update(&mut self, volume: HostVolume) -> (change: (Option<bool>, Option<u8>))
        ensures
            final(self).muted() == (volume is Muted),
            change.0 == if old(self).muted() == (volume is Muted) {
                None
            } else {
                Some(volume is Muted)
            },
            match volume {
                HostVolume::Muted => change.1 is None && final(self).decibel() == old(
                    self,
                ).decibel(),
                HostVolume::Level { decibel, percent } => {
                    &&& change.1 == if old(self).decibel() == Some(decibel) {
                        None
                    } else {
                        Some(percent)
                    }
                    &&& final(self).decibel() == Some(decibel)
                },
            },
    {
        match volume {
            HostVolume::Muted => {
                if self.last_muted {
                    (None, None)
                } else {
                    self.last_muted = true;
                    (Some(true), None)
                }
            },
            HostVolume::Level { decibel, percent } => {
                let unmuted: Option<bool> = if self.last_muted {
                    self.last_muted = false;
                    Some(false)
                } else {
                    None
                };
                let same: bool = match self.last_decibel {
                    Some(last) => last == decibel,
                    None => false,
                };
                if same {
                    (unmuted, None)
                } else {
                    self.last_decibel = Some(decibel);
                    (unmuted, Some(percent))
                }
            },
        }
    }
}

/// The packed form and the separate samples hold the same audio: each half of
/// a packed sample, read in two's complement, is the sample of its channel.
pub proof fn law_packed_is_the_same_audio(data: Seq<u8>, at: int)
    requires
        0 <= at,
        at + 2 < data.len(),
    ensures
        0 <= packed24(data, at) * 256 <= u32::MAX,
        crate::audio::convert::signed32((packed24(data, at) * 256) as u32) == sample24(data, at),
{
}

/// In step with the nominal rate, the feedback value is that rate in samples
/// per millisecond.
pub proof fn law_feedback_at_nominal_rate(rate: u32, count: int)
    requires
        count == rate as int / 1000 * 8,
    ensures
        count / 8 * 0x4000 == rate as int / 1000 * 0x4000,
{
}

/// Three bytes hold a 24-bit number, least significant byte first; the sample is
/// that number, with its sign, in the upper 24 bits.
pub proof fn law_packed_samples(data: Seq<u8>, at: int)
    requires
        0 <= at,
        at + 2 < data.len(),
    ensures
        packed24(data, at) % 0x100 == data[at],
        packed24(data, at) / 0x100 % 0x100 == data[at + 1],
        packed24(data, at) / 0x1_0000 == data[at + 2],
        (sample24(data, at) - 256 * packed24(data, at)) % 0x1_0000_0000 == 0,
        -0x8000_0000 <= sample24(data, at) < 0x8000_0000,
{
}

/// A packet holds frames of six bytes, left before right: cut between frames, it
/// has the frames of its parts, and an incomplete frame is dropped.
pub proof fn law_packets_cut(a: Seq<u8>, b: Seq<u8>)
    requires
        a.len() % 6 == 0,
    ensures
        packet_frames(a + b) == packet_frames(a) + packet_frames(b),
        packet_frames(a).len() * 6 == a.len(),
        b.len() < 6 ==> packet_frames(b).len() == 0,
        b.len() == 6 ==> packet_frames(b).len() == 1 && packet_frames(b)[0].left == sample24(b, 0)
            && packet_frames(b)[0].right == sample24(b, 3),
{
    assert(packet_frames(a + b) =~= packet_frames(a) + packet_frames(b)) by {
        let n = a.len() / 6;
        assert forall|i: int| 0 <= i < packet_frames(b).len() implies packet_frames(a + b)[n + i]
            == #[trigger] packet_frames(b)[i] by {
            assert((a + b)[6 * (n + i)] == b[6 * i]);
            assert((a + b)[6 * (n + i) + 1] == b[6 * i + 1]);
            assert((a + b)[6 * (n + i) + 2] == b[6 * i + 2]);
            assert((a + b)[6 * (n + i) + 3] == b[6 * i + 3]);
            assert((a + b)[6 * (n + i) + 4] == b[6 * i + 4]);
            assert((a + b)[6 * (n + i) + 5] == b[6 * i + 5]);
        }
    }
}

/// The bytes of a feedback value tell its low 24 bits, least significant first.
pub proof fn law_feedback_bytes(value: int)
    requires
        0 <= value,
    ensures
        feedback_bytes(value).len() == 3,
        feedback_bytes(value)[0] == value % 0x100,
        packed24(feedback_bytes(value), 0) == value % 0x100_0000,
        FEEDBACK_FRAMES == 8,
{
}

/// A stereo sample takes two, three or four bytes for each channel.
pub proof fn law_stereo_bytes(config: UsbAudioConfig)
    ensures
        config.bit_depth == SampleWidth::Width2Byte ==> config.stereo_bytes() == 2 * 2,
        config.bit_depth == SampleWidth::Width3Byte ==> config.stereo_bytes() == 2 * 3,
        config.bit_depth == SampleWidth::Width4Byte ==> config.stereo_bytes() == 2 * 4,
{
}

/// The least of two numbers is one of them, and above neither.
pub proof fn law_least(a: nat, b: nat)
    ensures
        least(a, b) == a || least(a, b) == b,
        least(a, b) <= a && least(a, b) <= b,
{
}

/// Samples are unpacked frame by frame, six bytes each, as long as all of data and
/// buffers last; what lies behind them is left alone.
#[verifier::rlimit(50)]
#[verifier::spinoff_prover]
pub proof fn law_unpacking(
    usb_data: &[u8],
    left: &mut [i32],
    right: &mut [i32],
    samples: usize,
    i: int,
)
    requires
        call_ensures(usb_24bit_to_i2s_32bit, (usb_data, left, right), samples),
    ensures
        6 * samples <= usb_data@.len() && samples <= old(left)@.len() && samples <= old(
            right)@.len(),
        usb_data@.len() < 6 * samples + 6 || samples == old(left)@.len() || samples == old(
            right)@.len(),
        0 <= i < samples ==> (final(left)@[i] - 256 * (usb_data@[6 * i] + 0x100 * usb_data@[6 * i
            + 1] + 0x1_0000 * usb_data@[6 * i + 2])) % 0x1_0000_0000 == 0,
        0 <= i < samples ==> (final(right)@[i] - 256 * (usb_data@[6 * i + 3] + 0x100 * usb_data@[6
            * i + 4] + 0x1_0000 * usb_data@[6 * i + 5])) % 0x1_0000_0000 == 0,
        samples <= i < old(left)@.len() ==> final(left)@[i] == old(left)@[i],
        samples <= i < old(right)@.len() ==> final(right)@[i] == old(right)@[i],
{
    law_least(usb_data@.len() / 6, old(left)@.len());
    law_least(least(usb_data@.len() / 6, old(left)@.len()), old(right)@.len());
    if 0 <= i < samples {
        law_packed_samples(usb_data@, 6 * i);
        law_packed_samples(usb_data@, 6 * i + 3);
    }
    if samples <= i < old(left)@.len() {
        assert(final(left)@.skip(samples as int)[i - samples] == old(left)@.skip(samples as int)[i
            - samples]);
    }
    if samples <= i < old(right)@.len() {
        assert(final(right)@.skip(samples as int)[i - samples] == old(right)@.skip(
            samples as int)[i - samples]);
    }
}

/// Packed frames hold the left sample in the upper half and the right one in the
/// lower, each shifted to the top of its 32 bits.
#[verifier::rlimit(50)]
#[verifier::spinoff_prover]
pub proof fn law_packing(usb_data: &[u8], output: &mut [u64], samples: usize, i: int)
    requires
        call_ensures(usb_24bit_to_stereo_packed, (usb_data, output), samples),
    ensures
        6 * samples <= usb_data@.len() && samples <= old(output)@.len(),
        usb_data@.len() < 6 * samples + 6 || samples == old(output)@.len(),
        0 <= i < samples ==> final(output)@[i] as int / 0x100_0000_0000 == usb_data@[6 * i] + 0x100
            * usb_data@[6 * i + 1] + 0x1_0000 * usb_data@[6 * i + 2],
        0 <= i < samples ==> final(output)@[i] as int % 0x1_0000_0000 == 256 * (usb_data@[6 * i + 3]
            + 0x100 * usb_data@[6 * i + 4] + 0x1_0000 * usb_data@[6 * i + 5]),
        samples <= i < old(output)@.len() ==> final(output)@[i] == old(output)@[i],
{
    law_least(usb_data@.len() / 6, old(output)@.len());
    if samples <= i < old(output)@.len() {
        assert(final(output)@.skip(samples as int)[i - samples] == old(output)@.skip(
            samples as int)[i - samples]);
    }
}

/// A packet is taken for frames of six bytes, and reaches the buffer only while USB
/// is the active source.
pub proof fn law_packets(
    packet: &[u8],
    frames: Vec<StereoFrame>,
    ring: &mut AudioRingBuffer,
    active_source: u8,
    i: int,
)
    requires
        old(ring).wf(),
        call_ensures(frames_from_packet, (packet,), frames),
        call_ensures(receive_packet, (ring, active_source, packet), ()),
    ensures
        frames@.len() == packet@.len() / 6,
        0 <= i < frames@.len() ==> frames@[i].left == sample24(packet@, 6 * i) && frames@[i].right
            == sample24(packet@, 6 * i + 3),
        active_source != 2 ==> final(ring)@ == old(ring)@,
        active_source == 2 ==> final(ring)@.is_prefix_of(old(ring)@ + frames@),
        active_source == 2 ==> final(ring)@.len() == 512 || final(ring)@ == old(ring)@ + frames@,
{
    old(ring).lemma_bound();
    crate::audio::pipeline::law_capacity(old(ring)@, frames@);
}

/// Feedback is due once eight milliseconds of samples were consumed, and tells an
/// eighth of them with 14 fractional bits; sending it starts the count over.
pub proof fn law_feedback(
    f: &mut RateFeedback,
    samples_consumed: u32,
    packet: Option<[u8; 3]>,
    sent: &mut RateFeedback,
)
    requires
        old(f).pending() + samples_consumed <= u32::MAX,
        call_ensures(RateFeedback::update_feedback, (f, samples_consumed), packet),
        call_ensures(RateFeedback::packet_sent, (sent,), ()),
    ensures
        final(f).pending() == old(f).pending() + samples_consumed,
        packet is Some <==> final(f).pending() >= 8 * (old(f).rate() as int / 1000),
        packet is Some ==> packed24((packet->0)@, 0) == 0x4000 * (final(f).pending() as int / 8)
            % 0x100_0000,
        final(f).rate() == old(f).rate(),
        final(sent).pending() == 0 && final(sent).rate() == old(sent).rate(),
{
    if packet is Some {
        law_feedback_bytes(final(f).pending() as int / 8 * 0x4000);
    }
}

/// A setting of the host is told if it is another one: mute by itself, and the
/// volume by its level, which a muted host does not tell.
pub proof fn law_host_volume(
    m: &mut VolumeMonitor,
    volume: HostVolume,
    change: (Option<bool>, Option<u8>),
)
    requires
        call_ensures(VolumeMonitor::update, (m, volume), change),
    ensures
        final(m).muted() <==> volume is Muted,
        change.0 is Some <==> final(m).muted() != old(m).muted(),
        change.0 is Some ==> change.0->0 == final(m).muted(),
        volume is Muted ==> change.1 is None && final(m).decibel() == old(m).decibel(),
        volume matches HostVolume::Level { decibel, percent } ==> {
            &&& final(m).decibel() == Some(decibel)
            &&& change.1 is Some <==> old(m).decibel() != Some(decibel)
            &&& change.1 is Some ==> change.1->0 == percent
        },
{
}

/// Bytes of a stereo sample and of a millisecond.
pub proof fn law_frame_bytes(config: UsbAudioConfig, sample: usize, frame: usize)
    requires
        call_ensures(UsbAudioConfig::bytes_per_sample, (&config,), sample),
        call_ensures(UsbAudioConfig::bytes_per_frame, (&config,), frame),
    ensures
        config.bit_depth == SampleWidth::Width3Byte ==> sample == 6,
        config.bit_depth == SampleWidth::Width2Byte ==> sample == 4,
        config.bit_depth == SampleWidth::Width4Byte ==> sample == 8,
        frame == sample * (config.sample_rate as int / 1000),
{
    assert(config.sample_rate as int / 1000 * config.stereo_bytes() == config.stereo_bytes() * (
    config.sample_rate as int / 1000)) by (nonlinear_arith);
}

} // verus!
