//! S/PDIF receiver.
//!
//! The receiver's state and decisions: signal detection, placement of the PIO
//! programs, the software FIFO that DMA fills, and the judgement of signal
//! quality by sync codes. The hardware work between the steps (running the
//! state machine and the DMA channel) is the caller's.

use vstd::prelude::*;

use crate::audio::capture::analyze_capture;
use crate::audio::convert::justify24;
pub use crate::audio::capture::SampleFreq;

verus! {

/// S/PDIF block size (sub-frames per block).
pub const SPDIF_BLOCK_SIZE: usize = 384;

/// Total FIFO size: two blocks (~4.4 ms at 44.1 kHz).
pub const SPDIF_RX_FIFO_SIZE: usize = 768;

/// DMA block size for transfers.
pub const DMA_BLOCK_SIZE: usize = 64;

/// Words captured for frequency detection.
pub const CAPTURE_SIZE: usize = 128;

/// Sync codes from the decode programs.
pub const SYNC_B: u32 = 0b1111;

pub const SYNC_M: u32 = 0b1011;

pub const SYNC_W: u32 = 0b0111;

/// Blocks with valid sync codes before the signal counts as stable.
pub const STABLE_THRESHOLD: u32 = 16;

/// Consecutive sync losses before detection starts anew (~100 ms with a 10 ms
/// DMA timeout).
pub const SYNC_LOST_THRESHOLD: u32 = 10;

/// Most words that one polling pass takes.
pub const POLL_LIMIT: usize = 64;

/// Smallest DMA transfer worth starting.
pub const DMA_MIN: usize = 8;

/// S/PDIF receiver state.
#[derive(Debug, Clone, Copy, PartialEq, Eq, Structural)]
pub enum State {
    NoSignal,
    WaitingStable,
    Stable,
}

/// A PIO program: its instructions with jump targets relative to its start,
/// and its wrap points.
pub struct PioProgram {
    pub code: Vec<u16>,
    pub wrap_source: u8,
    pub wrap_target: u8,
}

impl PioProgram {
    /// The program fits the 32 words of PIO instruction memory.
    pub open spec fn fits(self) -> bool {
        &&& self.code@.len() <= 32
        &&& self.wrap_source < 32
        &&& self.wrap_target < 32
    }
}

/// How to run the decode program.
pub struct DecodePlan {
    /// Where the program starts.
    pub origin: u8,
    /// Instruction memory to write first: address and instruction.
    pub rewrite: Vec<(u8, u16)>,
    pub wrap_top: u8,
    pub wrap_bottom: u8,
}

/// What to do next to start decoding.
pub enum DecodeStep {
    /// No frequency has been detected.
    NoFrequency,
    /// The program for this variant has to be loaded first.
    Load(SampleFreq),
    Run(DecodePlan),
}

/// The receiver as its users see it.
#[verifier::ext_equal]
pub struct RxModel {
    pub state: State,
    pub freq: SampleFreq,
    pub inverted: bool,
    /// Received words that were not read yet, oldest first.
    pub fifo: Seq<u32>,
    /// Position in the buffer at which the next word is stored.
    pub write_index: int,
    /// Successive blocks with good sync codes.
    pub stable: int,
    /// Successive losses of sync.
    pub lost: int,
    /// Origin, wrap top and wrap bottom of the loaded capture program.
    pub capture: Option<(u8, u8, u8)>,
    /// The same of the loaded decode program, and its variant.
    pub decode: Option<(u8, u8, u8, SampleFreq)>,
}

pub open spec fn count_up(n: int) -> int {
    if n < u32::MAX {
        n + 1
    } else {
        n
    }
}

/// The word carries one of the three sync codes.
pub open spec fn has_sync(word: u32) -> bool {
    word % 16 == SYNC_B || word % 16 == SYNC_M || word % 16 == SYNC_W
}

/// How many of the words carry a sync code.
pub open spec fn sync_count(words: Seq<u32>) -> nat
    decreases words.len(),
{
    if words.len() == 0 {
        0
    } else {
        sync_count(words.drop_last()) + if has_sync(words.last()) {
            1nat
        } else {
            0nat
        }
    }
}

/// A block is good if at least 75 % of its words carry a sync code.
pub open spec fn good_block(words: Seq<u32>) -> bool {
    sync_count(words) >= words.len() * 3 / 4
}

/// The decode program that serves a frequency.
pub open spec fn variant_of(freq: SampleFreq) -> Option<SampleFreq> {
    match freq {
        SampleFreq::Unknown => None,
        SampleFreq::Hz44100 | SampleFreq::Hz48000 => Some(SampleFreq::Hz48000),
        SampleFreq::Hz88200 | SampleFreq::Hz96000 => Some(SampleFreq::Hz96000),
        SampleFreq::Hz176400 | SampleFreq::Hz192000 => Some(SampleFreq::Hz192000),
    }
}

/// An instruction moved to a program that starts at `origin`: the target of a
/// jump (opcode 000) moves along, within the 32 words of instruction memory.
pub open spec fn relocated(instr: u16, origin: int) -> int {
    if instr / 0x2000 == 0 {
        instr - instr % 32 + (instr % 32 + origin) % 32
    } else {
        instr as int
    }
}

impl RxModel {
    pub open spec fn fresh() -> RxModel {
        RxModel {
            state: State::NoSignal,
            freq: SampleFreq::Unknown,
            inverted: false,
            fifo: Seq::empty(),
            write_index: 0,
            stable: 0,
            lost: 0,
            capture: None,
            decode: None,
        }
    }

    /// Room for words up to the end of the buffer and up to the oldest unread
    /// word; one place always stays free.
    pub open spec fn room(self) -> int {
        let to_end = SPDIF_RX_FIFO_SIZE - self.write_index;
        let to_read = SPDIF_RX_FIFO_SIZE - 1 - self.fifo.len();
        if to_end < to_read {
            to_end
        } else {
            to_read
        }
    }

    /// Size of the next DMA transfer.
    pub open spec fn transfer(self, block_size: int) -> int {
        if block_size < self.room() {
            block_size
        } else {
            self.room()
        }
    }

    /// Another loss of sync was counted; too many start detection anew.
    pub open spec fn one_more_lost(self) -> RxModel {
        RxModel {
            lost: count_up(self.lost),
            state: if count_up(self.lost) >= SYNC_LOST_THRESHOLD {
                State::NoSignal
            } else {
                self.state
            },
            ..self
        }
    }

    /// No transfer was possible: the receiver is stuck unless it is stable.
    pub open spec fn stuck(self) -> RxModel {
        if self.state == State::Stable {
            self
        } else {
            self.one_more_lost()
        }
    }

    /// A transfer was judged by its sync codes.
    pub open spec fn judged(self, good: bool) -> RxModel {
        if good {
            RxModel {
                stable: count_up(self.stable),
                lost: 0,
                state: if count_up(self.stable) >= STABLE_THRESHOLD && self.state
                    == State::WaitingStable {
                    State::Stable
                } else {
                    self.state
                },
                ..self
            }
        } else {
            RxModel {
                stable: 0,
                state: if self.state == State::Stable {
                    State::WaitingStable
                } else {
                    self.state
                },
                ..self
            }.one_more_lost()
        }
    }

    /// A polling pass that took words was judged: one word with a sync code is
    /// enough.
    pub open spec fn polled(self, synced: bool) -> RxModel {
        if synced {
            RxModel {
                stable: count_up(self.stable),
                state: if count_up(self.stable) >= STABLE_THRESHOLD && self.state
                    == State::WaitingStable {
                    State::Stable
                } else {
                    self.state
                },
                ..self
            }
        } else {
            RxModel {
                stable: 0,
                state: if self.state == State::Stable {
                    State::WaitingStable
                } else {
                    self.state
                },
                ..self
            }
        }
    }

    /// Words were stored behind the unread ones. Filling the buffer to its last
    /// place makes it count as empty: the words up to that point are lost.
    pub open spec fn stored(self, words: Seq<u32>) -> RxModel {
        let all = self.fifo + words;
        RxModel {
            fifo: if all.len() < SPDIF_RX_FIFO_SIZE {
                all
            } else {
                all.skip(SPDIF_RX_FIFO_SIZE as int)
            },
            write_index: (self.write_index + words.len()) % (SPDIF_RX_FIFO_SIZE as int),
            ..self
        }
    }

    /// The first `n` unread words were read.
    pub open spec fn consumed(self, n: int) -> RxModel {
        RxModel { fifo: self.fifo.skip(n), ..self }
    }

    /// The FIFO and the counters start over.
    pub open spec fn cleared(self) -> RxModel {
        RxModel { fifo: Seq::empty(), write_index: 0, stable: 0, lost: 0, ..self }
    }

    /// The signal was forgotten; the loaded programs stay loaded.
    pub open spec fn forgotten(self) -> RxModel {
        RxModel { state: State::NoSignal, freq: SampleFreq::Unknown, ..self.cleared() }
    }

    /// Decoding started with the program at `origin`.
    pub open spec fn decoding(
        self,
        origin: u8,
        wrap_top: u8,
        wrap_bottom: u8,
        variant: SampleFreq,
    ) -> RxModel {
        RxModel {
            state: State::WaitingStable,
            decode: Some((origin, wrap_top, wrap_bottom, variant)),
            ..self.cleared()
        }
    }
}

/// S/PDIF receiver.
pub struct SpdifRx {
    state: State,
    samp_freq: SampleFreq,
    inverted: bool,
    fifo_buff: [u32; SPDIF_RX_FIFO_SIZE],
    buff_wr_ptr: usize,
    buff_rd_ptr: usize,
    stable_count: u32,
    sync_lost_count: u32,
    capture_info: Option<(u8, u8, u8)>,
    decode_info: Option<(u8, u8, u8, SampleFreq)>,
}

/// Number of unread words between two buffer positions.
spec fn unread(wr: int, rd: int) -> int {
    if wr >= rd {
        wr - rd
    } else {
        wr + SPDIF_RX_FIFO_SIZE - rd
    }
}

/// The unread words of a buffer.
spec fn contents(buff: Seq<u32>, wr: int, rd: int) -> Seq<u32> {
    Seq::new(unread(wr, rd) as nat, |i: int| buff[(rd + i) % (SPDIF_RX_FIFO_SIZE as int)])
}

impl View for SpdifRx {
    type V = RxModel;

    closed spec fn view(&self) -> RxModel {
        RxModel {
            state: self.state,
            freq: self.samp_freq,
            inverted: self.inverted,
            fifo: contents(self.fifo_buff@, self.buff_wr_ptr as int, self.buff_rd_ptr as int),
            write_index: self.buff_wr_ptr as int,
            stable: self.stable_count as int,
            lost: self.sync_lost_count as int,
            capture: self.capture_info,
            decode: self.decode_info,
        }
    }
}

/// A stored word joins the unread ones.
proof fn lemma_push(buff: Seq<u32>, wr: int, rd: int, word: u32)
    requires
        buff.len() == SPDIF_RX_FIFO_SIZE,
        0 <= wr < SPDIF_RX_FIFO_SIZE,
        0 <= rd < SPDIF_RX_FIFO_SIZE,
        unread(wr, rd) < SPDIF_RX_FIFO_SIZE - 1,
    ensures
        contents(buff.update(wr, word), (wr + 1) % (SPDIF_RX_FIFO_SIZE as int), rd) == contents(
            buff,
            wr,
            rd,
        ).push(word),
{
    let next = (wr + 1) % (SPDIF_RX_FIFO_SIZE as int);
    assert(contents(buff.update(wr, word), next, rd) =~= contents(buff, wr, rd).push(word));
}

/// A word stored in the last free place hides all the words.
proof fn lemma_push_last(buff: Seq<u32>, wr: int, rd: int, word: u32)
    requires
        buff.len() == SPDIF_RX_FIFO_SIZE,
        0 <= wr < SPDIF_RX_FIFO_SIZE,
        0 <= rd < SPDIF_RX_FIFO_SIZE,
        unread(wr, rd) == SPDIF_RX_FIFO_SIZE - 1,
    ensures
        contents(buff.update(wr, word), (wr + 1) % (SPDIF_RX_FIFO_SIZE as int), rd).len() == 0,
{
}

/// Storing words one after the other.
proof fn lemma_stored_push(m: RxModel, words: Seq<u32>, word: u32)
    requires
        m.fifo.len() < SPDIF_RX_FIFO_SIZE,
        words.len() < SPDIF_RX_FIFO_SIZE,
    ensures
        m.stored(words).stored(seq![word]) == m.stored(words.push(word)),
{
    let all = m.fifo + words;
    let more = m.fifo + words.push(word);
    assert(more =~= all + seq![word]);
    if all.len() < SPDIF_RX_FIFO_SIZE {
    } else {
        assert(more.skip(SPDIF_RX_FIFO_SIZE as int) =~= all.skip(SPDIF_RX_FIFO_SIZE as int)
            + seq![word]);
    }
    assert(m.stored(words).stored(seq![word]).fifo =~= m.stored(words.push(word)).fifo);
    let at = m.write_index + words.len();
    assert((at % 768 + 1) % 768 == (at + 1) % 768);
}

proof fn lemma_sync_count_push(words: Seq<u32>, i: int)
    requires
        0 <= i < words.len(),
    ensures
        sync_count(words.take(i + 1)) == sync_count(words.take(i)) + if has_sync(words[i]) {
            1nat
        } else {
            0nat
        },
        sync_count(words.take(i)) <= i,
    decreases i,
{
    assert(words.take(i + 1).drop_last() =~= words.take(i));
    assert(words.take(i + 1).last() == words[i]);
    if i > 0 {
        lemma_sync_count_push(words, i - 1);
    }
}

impl SpdifRx {
    /// Buffer positions are within the buffer, and the decode program within
    /// instruction memory.
    pub closed spec fn wf(self) -> bool {
        &&& self.buff_wr_ptr < SPDIF_RX_FIFO_SIZE
        &&& self.buff_rd_ptr < SPDIF_RX_FIFO_SIZE
        &&& self.decode_info matches Some(d) ==> d.0 < 32
    }

    /// A receiver that has seen no signal.
    pub fn new() -> (rx: Self)
        ensures
            rx.wf(),
            rx@ == RxModel::fresh(),
    {
        let rx = SpdifRx {
            state: State::NoSignal,
            samp_freq: SampleFreq::Unknown,
            inverted: false,
            fifo_buff: [0u32; SPDIF_RX_FIFO_SIZE],
            buff_wr_ptr: 0,
            buff_rd_ptr: 0,
            stable_count: 0,
            sync_lost_count: 0,
            capture_info: None,
            decode_info: None,
        };
        assert(rx@.fifo =~= Seq::empty());
        rx
    }

    /// What every receiver satisfies: the FIFO leaves one place free.
    pub proof fn lemma_bounds(&self)
        requires
            self.wf(),
        ensures
            self@.fifo.len() < SPDIF_RX_FIFO_SIZE,
            0 <= self@.write_index < SPDIF_RX_FIFO_SIZE,
            0 <= self@.stable <= u32::MAX,
            0 <= self@.lost <= u32::MAX,
    {
    }

    pub fn state(&self) -> (state: State)
        ensures
            state == self@.state,
    {
        self.state
    }

    pub fn sample_freq(&self) -> (freq: SampleFreq)
        ensures
            freq == self@.freq,
    {
        self.samp_freq
    }

    /// Whether the detected line is inverted.
    pub fn is_inverted(&self) -> (inverted: bool)
        ensures
            inverted == self@.inverted,
    {
        self.inverted
    }

    /// Number of unread words.
    pub fn fifo_count(&self) -> (count: usize)
        requires
            self.wf(),
        ensures
            count == self@.fifo.len(),
    {
        if self.buff_wr_ptr >= self.buff_rd_ptr {
            self.buff_wr_ptr - self.buff_rd_ptr
        } else {
            self.buff_wr_ptr + SPDIF_RX_FIFO_SIZE - self.buff_rd_ptr
        }
    }

    /// Reads the oldest words into `dest`, as many as there are and fit.
    pub fn read_fifo(&mut self, dest: &mut [u32]) -> (count: usize)
        requires
            old(self).wf(),
        ensures
            final(self).wf(),
            count == if old(dest)@.len() < old(self)@.fifo.len() {
                old(dest)@.len()
            } else {
                old(self)@.fifo.len()
            },
            final(dest)@ == old(self)@.fifo.take(count as int) + old(dest)@.skip(count as int),
            final(self)@ == old(self)@.consumed(count as int),
    {
        let available: usize = self.fifo_count();
        let count: usize = if dest.len() < available {
            dest.len()
        } else {
            available
        };
        let ghost all = self@.fifo;
        let ghost buff0 = self.fifo_buff@;
        let ghost rd0 = self.buff_rd_ptr as int;
        let ghost dest0 = dest@;
        let mut i: usize = 0;
        while i < count
            invariant
                i <= count,
                count <= dest@.len(),
                count <= all.len() < SPDIF_RX_FIFO_SIZE,
                dest@.len() == dest0.len(),
                self.buff_rd_ptr == (rd0 + i) % (SPDIF_RX_FIFO_SIZE as int),
                0 <= rd0 < SPDIF_RX_FIFO_SIZE,
                self.fifo_buff@ == buff0,
                all == contents(buff0, self.buff_wr_ptr as int, rd0),
                *self == (SpdifRx { buff_rd_ptr: self.buff_rd_ptr, ..*old(self) }),
                forall|j: int| 0 <= j < i ==> dest@[j] == all[j],
                forall|j: int| i <= j < dest@.len() ==> dest@[j] == dest0[j],
            decreases count - i,
        {
            dest[i] = self.fifo_buff[self.buff_rd_ptr];
            self.buff_rd_ptr = (self.buff_rd_ptr + 1) % SPDIF_RX_FIFO_SIZE;
            i = i + 1;
        }
        assert(dest@ =~= all.take(count as int) + dest0.skip(count as int));
        assert(self@.fifo =~= all.skip(count as int));
        assert(self@ =~= old(self)@.consumed(count as int));
        count
    }

    /// The capture program to run: origin, wrap top and wrap bottom. One that
    /// was loaded before is used again; otherwise `installed` tells where it
    /// has been loaded (origin, wrap source, wrap target). `None` asks to load
    /// the program first.
    pub fn capture_program(&mut self, installed: Option<(u8, u8, u8)>) -> (program: Option<
        (u8, u8, u8),
    >)
        requires
            old(self).wf(),
            installed matches Some(p) ==> p.0 < 32 && p.1 < 32 && p.2 < 32,
        ensures
            final(self).wf(),
            program == match (old(self)@.capture, installed) {
                (Some(p), _) => Some(p),
                (None, Some(p)) => Some((p.0, (p.0 + p.1) as u8, (p.0 + p.2) as u8)),
                (None, None) => None,
            },
            final(self)@ == (RxModel { capture: program, ..old(self)@ }),
    {
        if self.capture_info.is_none() {
            if let Some((origin, source, target)) = installed {
                self.capture_info = Some((origin, origin + source, origin + target));
            }
        }
        self.capture_info
    }

    /// Takes the result of a capture, `None` for one that timed out. Returns
    /// whether a frequency was recognised.
    pub fn detect_signal(&mut self, capture: Option<&[u32]>) -> (found: bool)
        requires
            old(self).wf(),
            capture matches Some(data) ==> 0 < data@.len() <= i32::MAX / 32,
        ensures
            final(self).wf(),
            ({
                let recognised = match capture {
                    None => None,
                    Some(data) => crate::audio::capture::classify(
                        crate::audio::capture::scan(data@, 32 * (data@.len() as int)),
                        0,
                    ),
                };
                &&& found == (recognised is Some)
                &&& final(self)@ == match recognised {
                    None => old(self)@,
                    Some((freq, inverted)) => RxModel { freq, inverted, ..old(self)@ },
                }
            }),
    {
        if let Some(data) = capture {
            if let Some((freq, inverted)) = analyze_capture(data) {
                self.samp_freq = freq;
                self.inverted = inverted;
                true
            } else {
                false
            }
        } else {
            false
        }
    }

    /// Starts decoding with the program for the detected frequency, `program`.
    /// A decode program that was loaded before is overwritten in place;
    /// otherwise `installed` tells where this one has been loaded.
    pub fn start_decode(&mut self, program: &PioProgram, installed: Option<u8>) -> (step: DecodeStep)
        requires
            old(self).wf(),
            program.fits(),
            installed matches Some(origin) ==> origin < 32,
        ensures
            final(self).wf(),
            ({
                let loaded = old(self)@.decode;
                let origin = match loaded {
                    Some(d) => Some(d.0),
                    None => installed,
                };
                match (variant_of(old(self)@.freq), origin) {
                    (None, _) => step == DecodeStep::NoFrequency && final(self)@ == old(self)@,
                    (Some(variant), None) => step == DecodeStep::Load(variant) && final(self)@
                        == old(self)@,
                    (Some(variant), Some(origin)) => {
                        &&& step matches DecodeStep::Run(plan)
                        &&& plan.origin == origin
                        &&& plan.wrap_top == origin + program.wrap_source
                        &&& plan.wrap_bottom == origin + program.wrap_target
                        &&& plan.rewrite@.len() == if loaded is Some {
                            program.code@.len()
                        } else {
                            0
                        }
                        &&& forall|i: int|
                            0 <= i < plan.rewrite@.len() ==> (#[trigger] plan.rewrite@[i]).0
                                == origin + i && plan.rewrite@[i].1 == relocated(
                                program.code@[i],
                                origin as int,
                            )
                        &&& final(self)@ == old(self)@.decoding(
                            origin,
                            plan.wrap_top,
                            plan.wrap_bottom,
                            variant,
                        )
                    },
                }
            }),
    {
        let variant: SampleFreq = match decode_variant(self.samp_freq) {
            Some(variant) => variant,
            None => return DecodeStep::NoFrequency,
        };
        let loaded: bool = self.decode_info.is_some();
        let origin: u8 = match self.decode_info {
            Some(d) => d.0,
            None => match installed {
                Some(origin) => origin,
                None => return DecodeStep::Load(variant),
            },
        };
        let mut rewrite: Vec<(u8, u16)> = Vec::new();
        if loaded {
            let mut i: usize = 0;
            while i < program.code.len()
                invariant
                    i <= program.code@.len() <= 32,
                    origin < 32,
                    rewrite@.len() == i,
                    forall|j: int|
                        0 <= j < i ==> (#[trigger] rewrite@[j]).0 == origin + j && rewrite@[j].1
                            == relocated(program.code@[j], origin as int),
                decreases program.code@.len() - i,
            {
                rewrite.push((origin + i as u8, relocate(program.code[i], origin)));
                i = i + 1;
            }
        }
        let wrap_top: u8 = origin + program.wrap_source;
        let wrap_bottom: u8 = origin + program.wrap_target;
        self.decode_info = Some((origin, wrap_top, wrap_bottom, variant));
        self.state = State::WaitingStable;
        self.clear();
        DecodeStep::Run(DecodePlan { origin, rewrite, wrap_top, wrap_bottom })
    }

    fn clear(&mut self)
        requires
            old(self).wf(),
        ensures
            final(self).wf(),
            final(self)@ == old(self)@.cleared(),
    {
        self.buff_wr_ptr = 0;
        self.buff_rd_ptr = 0;
        self.stable_count = 0;
        self.sync_lost_count = 0;
        assert(self@ =~= old(self)@.cleared());
    }

    /// Stores a word in the buffer.
    fn store(&mut self, word: u32)
        requires
            old(self).wf(),
        ensures
            final(self).wf(),
            final(self)@ == old(self)@.stored(seq![word]),
    {
        proof {
            let wr = self.buff_wr_ptr as int;
            let rd = self.buff_rd_ptr as int;
            if unread(wr, rd) < SPDIF_RX_FIFO_SIZE - 1 {
                lemma_push(self.fifo_buff@, wr, rd, word);
            } else {
                lemma_push_last(self.fifo_buff@, wr, rd, word);
            }
        }
        self.fifo_buff[self.buff_wr_ptr] = word;
        self.buff_wr_ptr = (self.buff_wr_ptr + 1) % SPDIF_RX_FIFO_SIZE;
        assert(self@ =~= old(self)@.stored(seq![word]));
    }

    /// Stores words in the buffer, in order.
    fn store_all(&mut self, words: &[u32])
        requires
            old(self).wf(),
            words@.len() <= SPDIF_RX_FIFO_SIZE,
        ensures
            final(self).wf(),
            final(self)@ == old(self)@.stored(words@),
    {
        let mut i: usize = 0;
        let ghost start = self@;
        proof {
            self.lemma_bounds();
            assert(words@.take(0) =~= Seq::empty());
            assert(start.stored(words@.take(0)) =~= start);
        }
        while i < words.len()
            invariant
                i <= words@.len() <= SPDIF_RX_FIFO_SIZE,
                self.wf(),
                start.fifo.len() < SPDIF_RX_FIFO_SIZE,
                0 <= start.write_index < SPDIF_RX_FIFO_SIZE,
                self@ == start.stored(words@.take(i as int)),
            decreases words@.len() - i,
        {
            self.store(words[i]);
            proof {
                assert(words@.take(i + 1) =~= words@.take(i as int).push(words@[i as int]));
                lemma_stored_push(start, words@.take(i as int), words@[i as int]);
            }
            i = i + 1;
        }
        assert(words@.take(i as int) =~= words@);
    }

    /// Takes the words of a polling pass over the PIO FIFO. Returns whether
    /// there were any.
    pub fn process(&mut self, words: &[u32]) -> (any: bool)
        requires
            old(self).wf(),
            words@.len() <= POLL_LIMIT,
        ensures
            final(self).wf(),
            any == (words@.len() > 0),
            final(self)@ == if any {
                old(self)@.stored(words@).polled(
                    exists|i: int| 0 <= i < words@.len() && has_sync(#[trigger] words@[i]),
                )
            } else {
                old(self)@
            },
    {
        if words.len() == 0 {
            return false;
        }
        self.store_all(words);
        let synced: bool = any_sync(words);
        let ghost before = self@;
        if synced {
            self.stable_count = self.stable_count.saturating_add(1);
            if self.stable_count >= STABLE_THRESHOLD && self.state == State::WaitingStable {
                self.state = State::Stable;
            }
        } else {
            self.stable_count = 0;
            if self.state == State::Stable {
                self.state = State::WaitingStable;
            }
        }
        assert(self@ =~= before.polled(synced));
        true
    }

    /// Stops the receiver.
    pub fn stop(&mut self)
        requires
            old(self).wf(),
        ensures
            final(self).wf(),
            final(self)@ == (RxModel { state: State::NoSignal, ..old(self)@ }),
    {
        self.state = State::NoSignal;
    }

    /// Forgets the signal. The loaded programs stay loaded.
    pub fn reset(&mut self)
        requires
            old(self).wf(),
        ensures
            final(self).wf(),
            final(self)@ == old(self)@.forgotten(),
    {
        self.state = State::NoSignal;
        self.samp_freq = SampleFreq::Unknown;
        self.clear();
    }

    /// Size of the next DMA transfer into the FIFO, `None` if there is no room
    /// for one. A receiver that is not stable is then stuck: nobody reads while
    /// it is muted, and nothing can be written.
    pub fn dma_request(&mut self, block_size: usize) -> (size: Option<usize>)
        requires
            old(self).wf(),
        ensures
            final(self).wf(),
            old(self)@.transfer(block_size as int) < DMA_MIN ==> size is None && final(self)@
                == old(self)@.stuck(),
            old(self)@.transfer(block_size as int) >= DMA_MIN ==> size == Some(
                old(self)@.transfer(block_size as int) as usize,
            ) && final(self)@ == old(self)@,
    {
        let space_to_end: usize = SPDIF_RX_FIFO_SIZE - self.buff_wr_ptr;
        let space_before_rd: usize = SPDIF_RX_FIFO_SIZE - 1 - self.fifo_count();
        let mut size: usize = space_to_end;
        if space_before_rd < size {
            size = space_before_rd;
        }
        if block_size < size {
            size = block_size;
        }
        if size < DMA_MIN {
            if self.state != State::Stable {
                self.lose_sync();
            }
            None
        } else {
            Some(size)
        }
    }

    fn lose_sync(&mut self)
        requires
            old(self).wf(),
        ensures
            final(self).wf(),
            final(self)@ == old(self)@.one_more_lost(),
    {
        self.sync_lost_count = self.sync_lost_count.saturating_add(1);
        if self.sync_lost_count >= SYNC_LOST_THRESHOLD {
            self.state = State::NoSignal;
        }
        assert(self@ =~= old(self)@.one_more_lost());
    }

    /// Takes the outcome of a requested DMA transfer, `None` for one that timed
    /// out. Returns the number of words received.
    pub fn process_dma(&mut self, received: Option<&[u32]>) -> (count: usize)
        requires
            old(self).wf(),
            received matches Some(words) ==> words@.len() <= old(self)@.room(),
        ensures
            final(self).wf(),
            match received {
                None => count == 0 && final(self)@ == old(self)@.judged(false),
                Some(words) => count == words@.len() && final(self)@ == old(self)@.stored(
                    words@,
                ).judged(good_block(words@)),
            },
    {
        let mut count: usize = 0;
        let mut good: bool = false;
        proof {
            self.lemma_bounds();
        }
        if let Some(words) = received {
            self.store_all(words);
            count = words.len();
            let found: usize = count_sync(words);
            good = found >= count * 3 / 4;
        }
        let ghost before = self@;
        if good {
            self.stable_count = self.stable_count.saturating_add(1);
            self.sync_lost_count = 0;
            if self.stable_count >= STABLE_THRESHOLD && self.state == State::WaitingStable {
                self.state = State::Stable;
            }
        } else {
            self.stable_count = 0;
            if self.state == State::Stable {
                self.state = State::WaitingStable;
            }
            self.lose_sync();
        }
        assert(self@ =~= before.judged(good));
        count
    }
}

/// The decode program that serves a frequency.
pub fn decode_variant(freq: SampleFreq) -> (variant: Option<SampleFreq>)
    ensures
        variant == variant_of(freq),
{
    match freq {
        SampleFreq::Unknown => None,
        SampleFreq::Hz44100 | SampleFreq::Hz48000 => Some(SampleFreq::Hz48000),
        SampleFreq::Hz88200 | SampleFreq::Hz96000 => Some(SampleFreq::Hz96000),
        SampleFreq::Hz176400 | SampleFreq::Hz192000 => Some(SampleFreq::Hz192000),
    }
}

/// Moves an instruction to a program that starts at `origin`.
pub fn relocate(instr: u16, origin: u8) -> (moved: u16)
    ensures
        moved == relocated(instr, origin as int),
{
    if instr < 0x2000 {
        let target: u16 = instr % 32;
        instr - target + (target + origin as u16) % 32
    } else {
        instr
    }
}

fn is_sync(word: u32) -> (sync: bool)
    ensures
        sync == has_sync(word),
{
    let code: u32 = word % 16;
    code == SYNC_B || code == SYNC_M || code == SYNC_W
}

fn any_sync(words: &[u32]) -> (any: bool)
    ensures
        any == exists|i: int| 0 <= i < words@.len() && has_sync(#[trigger] words@[i]),
{
    let mut i: usize = 0;
    while i < words.len()
        invariant
            i <= words@.len(),
            forall|j: int| 0 <= j < i ==> !has_sync(#[trigger] words@[j]),
        decreases words@.len() - i,
    {
        if is_sync(words[i]) {
            return true;
        }
        i = i + 1;
    }
    false
}

fn count_sync(words: &[u32]) -> (count: usize)
    ensures
        count == sync_count(words@),
        count <= words@.len(),
{
    let mut count: usize = 0;
    let mut i: usize = 0;
    while i < words.len()
        invariant
            i <= words@.len(),
            count <= i,
            count == sync_count(words@.take(i as int)),
        decreases words@.len() - i,
    {
        proof {
            lemma_sync_count_push(words@, i as int);
        }
        if is_sync(words[i]) {
            count = count + 1;
        }
        i = i + 1;
    }
    assert(words@.take(i as int) =~= words@);
    count
}

/// 24-bit audio of an S/PDIF word (bits 4 to 27), left-justified.
pub open spec fn audio_of(word: u32) -> int {
    crate::audio::convert::signed24((word / 16 % 0x100_0000) as int) * 256
}

/// Extracts the audio sample of an S/PDIF word, laid out as
/// `[31:28]` VUCP, `[27:4]` 24-bit audio, `[3:0]` sync.
pub fn extract_audio(word: u32) -> (sample: i32)
    ensures
        sample == audio_of(word),
{
    justify24(word / 16 % 0x100_0000)
}

/// Whether the word belongs to the left channel (sync B or M).
pub fn is_left_channel(word: u32) -> (left: bool)
    ensures
        left == (word % 16 == SYNC_B || word % 16 == SYNC_M),
{
    let code: u32 = word % 16;
    code == SYNC_B || code == SYNC_M
}

/// `n` transfers in a row were judged alike.
pub open spec fn judged_times(m: RxModel, good: bool, n: nat) -> RxModel
    decreases n,
{
    if n == 0 {
        m
    } else {
        judged_times(m, good, (n - 1) as nat).judged(good)
    }
}

/// A signal that was just found is stable after 16 good blocks in a row, and
/// not before.
pub proof fn law_stable_after_sixteen(m: RxModel, n: nat)
    requires
        m.state == State::WaitingStable,
        m.stable == 0,
        n < u32::MAX,
    ensures
        judged_times(m, true, n).state == (if n >= 16 {
            State::Stable
        } else {
            State::WaitingStable
        }),
        judged_times(m, true, n).stable == n,
    decreases n,
{
    if n > 0 {
        law_stable_after_sixteen(m, (n - 1) as nat);
    }
}

/// Ten bad blocks in a row, and no fewer, make a receiver in sync give the
/// signal up; a good block starts the count anew.
pub proof fn law_given_up_after_ten(m: RxModel, n: nat)
    requires
        m.state != State::NoSignal,
        n < u32::MAX,
    ensures
        (judged_times(m.judged(true), false, n).state == State::NoSignal) == (n >= 10),
        n >= 1 ==> judged_times(m.judged(true), false, n).stable == 0,
{
    lemma_lost_count(m.judged(true), n);
}

proof fn lemma_lost_count(m: RxModel, n: nat)
    requires
        m.state != State::NoSignal,
        m.lost == 0,
        n < u32::MAX,
    ensures
        judged_times(m, false, n).lost == n,
        (judged_times(m, false, n).state == State::NoSignal) == (n >= 10),
        n >= 1 ==> judged_times(m, false, n).stable == 0,
    decreases n,
{
    if n > 0 {
        lemma_lost_count(m, (n - 1) as nat);
    }
}

/// What DMA transfers put into the FIFO comes out of it in order, and a
/// transfer of the requested size never reaches an unread word.
pub proof fn law_fifo_keeps_order(m: RxModel, words: Seq<u32>, good: bool)
    requires
        m.fifo.len() < SPDIF_RX_FIFO_SIZE,
        0 <= m.write_index < SPDIF_RX_FIFO_SIZE,
        words.len() <= m.room(),
    ensures
        m.stored(words).judged(good).fifo == m.fifo + words,
        m.stored(words).judged(good).consumed(m.fifo.len() as int).fifo == words,
{
    assert((m.fifo + words).skip(m.fifo.len() as int) =~= words);
}

/// Relocation moves nothing but jump targets, and moving in two steps is the
/// same as moving in one.
pub proof fn law_relocation_composes(instr: u16, a: u8, b: u8)
    ensures
        0 <= relocated(instr, a as int) <= u16::MAX,
        relocated(instr, a as int) / 32 == instr / 32,
        relocated(relocated(instr, a as int) as u16, b as int) == relocated(instr, a + b),
        relocated(instr, 0) == instr,
{
}

/// The audio of a word is its bits 4 to 27, in the upper 24 bits of a signed
/// sample: this leaves one number, and sync code and status bits have no say.
pub proof fn law_audio_bits(word: u32)
    ensures
        (audio_of(word) - word as int / 16 * 256) % 0x1_0000_0000 == 0,
        -0x8000_0000 <= audio_of(word) < 0x8000_0000,
        audio_of(word) % 256 == 0,
{
}

/// The sync codes are 15, 11 and 7, in the low four bits.
pub proof fn law_sync_codes(word: u32)
    ensures
        has_sync(word) <==> word % 16 == 15 || word % 16 == 11 || word % 16 == 7,
        SYNC_B == 15 && SYNC_M == 11 && SYNC_W == 7,
{
}

/// Sync codes are counted word by word.
pub proof fn law_sync_count_adds(a: Seq<u32>, b: Seq<u32>, word: u32)
    ensures
        sync_count(a + b) == sync_count(a) + sync_count(b),
        sync_count(a) <= a.len(),
        sync_count(seq![word]) == if has_sync(word) {
            1nat
        } else {
            0nat
        },
        sync_count(Seq::<u32>::empty()) == 0,
    decreases b.len(),
{
    reveal_with_fuel(sync_count, 2);
    lemma_sync_count_limit(a);
    assert(seq![word].drop_last() =~= Seq::empty());
    if b.len() == 0 {
        assert(a + b =~= a);
    } else {
        law_sync_count_adds(a, b.drop_last(), word);
        assert((a + b).drop_last() =~= a + b.drop_last());
    }
}

proof fn lemma_sync_count_limit(a: Seq<u32>)
    ensures
        sync_count(a) <= a.len(),
    decreases a.len(),
{
    if a.len() > 0 {
        lemma_sync_count_limit(a.drop_last());
    }
}

/// A block is good with three sync codes to four words, rounded down: a full
/// block of 64 words takes 48.
pub proof fn law_good_blocks(words: Seq<u32>)
    ensures
        good_block(words) <==> 4 * sync_count(words) + 3 >= 3 * words.len(),
        words.len() == 64 ==> (good_block(words) <==> sync_count(words) >= 48),
{
}

/// The decode program for a frequency is that of the next multiple of 48 kHz: it
/// is never slower, and faster by less than a tenth.
pub proof fn law_decode_variants(freq: SampleFreq)
    ensures
        variant_of(freq) is None <==> freq == SampleFreq::Unknown,
        variant_of(freq) matches Some(v) ==> {
            &&& v.hz() % 48000 == 0
            &&& v.hz() > 0
            &&& freq.hz() <= v.hz()
            &&& 10 * v.hz() < 11 * freq.hz()
        },
{
}

/// A jump (an instruction below 0x2000) moves its target by the origin, modulo
/// the 32 words of memory; nothing else of it changes, and no other instruction
/// changes.
pub proof fn law_jumps_move_along(instr: u16, origin: u8)
    ensures
        instr < 0x2000 ==> (relocated(instr, origin as int) - instr - origin) % 32 == 0,
        instr < 0x2000 ==> relocated(instr, origin as int) / 32 == instr / 32,
        instr >= 0x2000 ==> relocated(instr, origin as int) == instr,
{
}

/// A receiver has room up to the end of its buffer of 768 words, and for 767
/// unread words at most; a transfer takes the room or the block size, whichever
/// is less.
pub proof fn law_room(m: RxModel, block_size: int)
    ensures
        m.write_index + m.room() <= 768,
        m.fifo.len() + m.room() <= 767,
        m.write_index + m.room() == 768 || m.fifo.len() + m.room() == 767,
        m.transfer(block_size) <= block_size && m.transfer(block_size) <= m.room(),
        m.transfer(block_size) == block_size || m.transfer(block_size) == m.room(),
        DMA_MIN == 8 && DMA_BLOCK_SIZE == 64 && CAPTURE_SIZE == 128 && SPDIF_RX_FIFO_SIZE == 768,
{
}

/// Judging a transfer touches the state and its two counters, and nothing else.
pub proof fn law_judging_keeps_the_rest(m: RxModel, good: bool)
    ensures
        m.judged(good) == (RxModel {
            state: m.judged(good).state,
            stable: m.judged(good).stable,
            lost: m.judged(good).lost,
            ..m
        }),
        m.polled(good) == (RxModel {
            state: m.polled(good).state,
            stable: m.polled(good).stable,
            ..m
        }),
        m.stuck() == (RxModel { state: m.stuck().state, lost: m.stuck().lost, ..m }),
{
}

/// A bad block ends stability at once, and a good one never ends it; without a
/// signal neither brings one back.
pub proof fn law_one_block(m: RxModel)
    requires
        0 <= m.lost < 9,
    ensures
        m.state == State::Stable ==> m.judged(false).state == State::WaitingStable,
        m.state == State::Stable ==> m.judged(true).state == State::Stable,
        m.state == State::WaitingStable ==> m.judged(false).state == State::WaitingStable,
        m.state == State::NoSignal ==> m.judged(true).state == State::NoSignal,
        m.judged(false).lost == m.lost + 1,
        m.judged(true).lost == 0,
{
}

/// A stable receiver is not stuck when it has no room; another one is given up
/// after ten such rounds, and not before.
pub proof fn law_stuck_rounds(m: RxModel, n: nat)
    requires
        m.lost == 0,
        m.state != State::NoSignal,
        n < u32::MAX,
    ensures
        m.state == State::Stable ==> m.stuck() == m,
        m.state == State::WaitingStable ==> stuck_times(m, n).lost == n && stuck_times(m, n).state
            == if n >= 10 {
            State::NoSignal
        } else {
            State::WaitingStable
        },
    decreases n,
{
    if n > 0 {
        law_stuck_rounds(m, (n - 1) as nat);
    }
}

/// `n` rounds in a row had no room.
pub open spec fn stuck_times(m: RxModel, n: nat) -> RxModel
    decreases n,
{
    if n == 0 {
        m
    } else {
        stuck_times(m, (n - 1) as nat).stuck()
    }
}

/// `n` polling passes in a row were judged alike.
pub open spec fn polled_times(m: RxModel, synced: bool, n: nat) -> RxModel
    decreases n,
{
    if n == 0 {
        m
    } else {
        polled_times(m, synced, (n - 1) as nat).polled(synced)
    }
}

/// By polling, too, a signal is stable after 16 passes with sync in a row, and
/// one pass without ends that; polling never gives a signal up.
pub proof fn law_polling(m: RxModel, n: nat)
    requires
        m.state == State::WaitingStable,
        m.stable == 0,
        n < u32::MAX,
    ensures
        polled_times(m, true, n).state == (if n >= 16 {
            State::Stable
        } else {
            State::WaitingStable
        }),
        polled_times(m, true, n).stable == n,
        polled_times(m, true, n).polled(false).state == State::WaitingStable,
        polled_times(m, true, n).polled(false).stable == 0,
    decreases n,
{
    if n > 0 {
        law_polling(m, (n - 1) as nat);
    }
}

/// Words that overrun the buffer of 768 words push out whole buffers: what is
/// left are the last words stored.
pub proof fn law_storing(m: RxModel, words: Seq<u32>)
    requires
        m.fifo.len() < 768,
        words.len() <= 768,
        0 <= m.write_index < 768,
    ensures
        m.stored(words).fifo.is_suffix_of(m.fifo + words),
        m.stored(words).fifo.len() == (m.fifo.len() + words.len()) % 768,
        0 <= m.stored(words).write_index < 768,
        (m.stored(words).write_index - m.write_index - words.len()) % 768 == 0,
        m.stored(words).state == m.state && m.stored(words).stable == m.stable && m.stored(
            words,
        ).lost == m.lost && m.stored(words).freq == m.freq,
{
    let all = m.fifo + words;
    assert(m.stored(words).fifo =~= all.skip(all.len() - m.stored(words).fifo.len()));
}

/// Reading takes words from the front: in two portions as well as at once.
pub proof fn law_reading(m: RxModel, a: int, b: int)
    requires
        0 <= a,
        0 <= b,
        a + b <= m.fifo.len(),
    ensures
        m.consumed(a).consumed(b) == m.consumed(a + b),
        m.fifo.take(a) + m.consumed(a).fifo == m.fifo,
        m.consumed(a) == (RxModel { fifo: m.consumed(a).fifo, ..m }),
{
    assert(m.fifo.skip(a).skip(b) =~= m.fifo.skip(a + b));
    assert(m.fifo.take(a) + m.fifo.skip(a) =~= m.fifo);
}

/// Starting to decode and forgetting the signal both empty the FIFO and zero the
/// counters. The first waits for stability at the detected frequency, the second
/// has no frequency; loaded programs stay loaded.
pub proof fn law_starting_over(
    m: RxModel,
    origin: u8,
    wrap_top: u8,
    wrap_bottom: u8,
    variant: SampleFreq,
)
    ensures
        ({
            let d = m.decoding(origin, wrap_top, wrap_bottom, variant);
            let f = m.forgotten();
            &&& d.fifo.len() == 0 && d.write_index == 0 && d.stable == 0 && d.lost == 0
            &&& f.fifo.len() == 0 && f.write_index == 0 && f.stable == 0 && f.lost == 0
            &&& d.state == State::WaitingStable && f.state == State::NoSignal
            &&& d.freq == m.freq && f.freq == SampleFreq::Unknown
            &&& d.inverted == m.inverted && f.inverted == m.inverted
            &&& d.capture == m.capture && f.capture == m.capture
            &&& d.decode == Some((origin, wrap_top, wrap_bottom, variant))
            &&& f.decode == m.decode
        }),
        RxModel::fresh().forgotten() == RxModel::fresh(),
        RxModel::fresh().capture is None && RxModel::fresh().decode is None,
        !RxModel::fresh().inverted,
{
}

/// Reading takes the oldest words, as many as there are or as fit, and leaves the
/// rest of the destination and of the FIFO.
pub proof fn law_fifo_reads(rx: &mut SpdifRx, dest: &mut [u32], count: usize, i: int)
    requires
        old(rx).wf(),
        call_ensures(SpdifRx::read_fifo, (rx, dest), count),
    ensures
        count == old(dest)@.len() || count == old(rx)@.fifo.len(),
        count <= old(dest)@.len() && count <= old(rx)@.fifo.len(),
        final(dest)@.len() == old(dest)@.len(),
        0 <= i < count ==> final(dest)@[i] == old(rx)@.fifo[i],
        count <= i < old(dest)@.len() ==> final(dest)@[i] == old(dest)@[i],
        old(rx)@.fifo == old(rx)@.fifo.take(count as int) + final(rx)@.fifo,
        final(rx)@.state == old(rx)@.state,
{
    assert(old(rx)@.fifo =~= old(rx)@.fifo.take(count as int) + final(rx)@.fifo);
}

/// Polled words go behind the unread ones, and one of them with a sync code is
/// enough for a pass to count as in sync.
pub proof fn law_polled_words(rx: &mut SpdifRx, words: &[u32], any: bool, i: int)
    requires
        old(rx).wf(),
        words@.len() <= POLL_LIMIT,
        old(rx)@.fifo.len() + words@.len() < 768,
        call_ensures(SpdifRx::process, (rx, words), any),
    ensures
        any <==> words@.len() > 0,
        !any ==> final(rx)@ == old(rx)@,
        any ==> final(rx)@.fifo == old(rx)@.fifo + words@,
        any && (0 <= i < words@.len() && has_sync(words@[i])) ==> final(rx)@.stable > 0,
        any && final(rx)@.stable > 0 ==> exists|k: int|
            0 <= k < words@.len() && has_sync(#[trigger] words@[k]),
        final(rx)@.lost == old(rx)@.lost,
{
}

/// A transfer goes behind the unread words and is judged by its sync codes: with
/// enough of them the loss counter is reset, without it counts one more. No
/// transfer counts as a bad one.
pub proof fn law_transferred_words(rx: &mut SpdifRx, received: Option<&[u32]>, count: usize)
    requires
        old(rx).wf(),
        received matches Some(words) ==> words@.len() <= old(rx)@.room(),
        old(rx)@.lost < u32::MAX,
        call_ensures(SpdifRx::process_dma, (rx, received), count),
    ensures
        received is None ==> count == 0 && final(rx)@.fifo == old(rx)@.fifo && final(rx)@.lost
            == old(rx)@.lost + 1 && final(rx)@.stable == 0,
        received matches Some(words) ==> {
            &&& count == words@.len()
            &&& final(rx)@.fifo == old(rx)@.fifo + words@
            &&& 4 * sync_count(words@) + 3 >= 3 * words@.len() ==> final(rx)@.lost == 0
            &&& 4 * sync_count(words@) + 3 < 3 * words@.len() ==> final(rx)@.lost == old(rx)@.lost
                + 1 && final(rx)@.stable == 0
        },
{
    if let Some(words) = received {
        law_good_blocks(words@);
        old(rx).lemma_bounds();
        law_fifo_keeps_order(old(rx)@, words@, good_block(words@));
    }
}

/// A transfer is asked for if there is room for eight words at least, of the block
/// size or what room there is; otherwise the receiver may be stuck.
pub proof fn law_transfer_requests(rx: &mut SpdifRx, block_size: usize, size: Option<usize>)
    requires
        old(rx).wf(),
        call_ensures(SpdifRx::dma_request, (rx, block_size), size),
    ensures
        size is Some <==> block_size >= 8 && old(rx)@.room() >= 8,
        size is Some ==> size->0 <= block_size && size->0 <= old(rx)@.room() && (size->0
            == block_size || size->0 == old(rx)@.room()) && final(rx)@ == old(rx)@,
        size is None && old(rx)@.state == State::Stable ==> final(rx)@ == old(rx)@,
        final(rx)@.fifo == old(rx)@.fifo && final(rx)@.stable == old(rx)@.stable,
{
    old(rx).lemma_bounds();
}

/// What stopping and resetting leave: stopping keeps all but the state, resetting
/// forgets the words, the frequency and the counters.
pub proof fn law_ends(stopped: &mut SpdifRx, reset: &mut SpdifRx)
    requires
        old(stopped).wf(),
        old(reset).wf(),
        call_ensures(SpdifRx::stop, (stopped,), ()),
        call_ensures(SpdifRx::reset, (reset,), ()),
    ensures
        final(stopped)@.state == State::NoSignal && final(reset)@.state == State::NoSignal,
        final(stopped)@.fifo == old(stopped)@.fifo && final(stopped)@.freq == old(stopped)@.freq,
        final(reset)@.fifo.len() == 0 && final(reset)@.freq == SampleFreq::Unknown,
        final(reset)@.stable == 0 && final(reset)@.lost == 0,
        final(reset)@.capture == old(reset)@.capture && final(reset)@.decode == old(reset)@.decode,
{
}

/// A frequency is taken over if a capture is recognised, and only then.
pub proof fn law_signal_detection(rx: &mut SpdifRx, capture: Option<&[u32]>, found: bool)
    requires
        old(rx).wf(),
        capture matches Some(data) ==> 0 < data@.len() <= i32::MAX / 32,
        call_ensures(SpdifRx::detect_signal, (rx, capture), found),
    ensures
        capture is None ==> !found,
        !found ==> final(rx)@ == old(rx)@,
        found ==> final(rx)@.freq != SampleFreq::Unknown,
        final(rx)@.state == old(rx)@.state && final(rx)@.fifo == old(rx)@.fifo,
{
    if found {
        let s = crate::audio::capture::scan(capture->0@, 32 * (capture->0@.len() as int));
        crate::audio::capture::law_found_is_accepted(s);
    }
}

/// The capture program is loaded once: its addresses are relative to where it was
/// put, and stay.
pub proof fn law_capture_program(
    rx: &mut SpdifRx,
    installed: Option<(u8, u8, u8)>,
    program: Option<(u8, u8, u8)>,
)
    requires
        old(rx).wf(),
        installed matches Some(p) ==> p.0 < 32 && p.1 < 32 && p.2 < 32,
        call_ensures(SpdifRx::capture_program, (rx, installed), program),
    ensures
        old(rx)@.capture is Some ==> program == old(rx)@.capture,
        old(rx)@.capture is None && installed is None ==> program is None,
        old(rx)@.capture is None && installed is Some ==> program is Some && (program->0).0
            == (installed->0).0 && (program->0).1 == (installed->0).0 + (installed->0).1
            && (program->0).2 == (installed->0).0 + (installed->0).2,
        final(rx)@ == (RxModel { capture: program, ..old(rx)@ }),
{
}

/// Decoding starts at once if its program is loaded, which is then rewritten for the
/// frequency in place; a program that is not loaded is asked for, and without a
/// frequency nothing happens.
#[verifier::rlimit(50)]
#[verifier::spinoff_prover]
pub proof fn law_decode_start(
    rx: &mut SpdifRx,
    program: &PioProgram,
    installed: Option<u8>,
    step: DecodeStep,
    i: int,
)
    requires
        old(rx).wf(),
        program.fits(),
        installed matches Some(origin) ==> origin < 32,
        call_ensures(SpdifRx::start_decode, (rx, program, installed), step),
    ensures
        old(rx)@.freq == SampleFreq::Unknown <==> step is NoFrequency,
        step is Load <==> old(rx)@.freq != SampleFreq::Unknown && old(rx)@.decode is None
            && installed is None,
        step is NoFrequency || step is Load ==> final(rx)@ == old(rx)@,
        step matches DecodeStep::Run(plan) ==> {
            let origin = if old(rx)@.decode is Some {
                (old(rx)@.decode->0).0
            } else {
                installed->0
            };
            &&& plan.origin == origin
            &&& plan.wrap_bottom == origin + program.wrap_target
            &&& plan.wrap_top == origin + program.wrap_source
            &&& old(rx)@.decode is None ==> plan.rewrite@.len() == 0
            &&& old(rx)@.decode is Some ==> plan.rewrite@.len() == program.code@.len()
            &&& 0 <= i < plan.rewrite@.len() ==> plan.rewrite@[i].0 == origin + i && (
            program.code@[i] >= 0x2000 ==> plan.rewrite@[i].1 == program.code@[i]) && (
            program.code@[i] < 0x2000 ==> (plan.rewrite@[i].1 - program.code@[i] - origin) % 32
                == 0)
            &&& final(rx)@.state == State::WaitingStable
            &&& final(rx)@.fifo.len() == 0 && final(rx)@.stable == 0 && final(rx)@.lost == 0
            &&& final(rx)@.freq == old(rx)@.freq && final(rx)@.inverted == old(rx)@.inverted
        },
{
    law_decode_variants(old(rx)@.freq);
    if let DecodeStep::Run(plan) = step {
        if 0 <= i < plan.rewrite@.len() {
            law_jumps_move_along(program.code@[i], plan.origin);
        }
    }
}

/// What is read off a single word, and what programs are moved and chosen.
pub proof fn law_words(
    word: u32,
    sample: i32,
    left: bool,
    freq: SampleFreq,
    variant: Option<SampleFreq>,
    instr: u16,
    origin: u8,
    moved: u16,
)
    requires
        call_ensures(extract_audio, (word,), sample),
        call_ensures(is_left_channel, (word,), left),
        call_ensures(decode_variant, (freq,), variant),
        call_ensures(relocate, (instr, origin), moved),
    ensures
        (sample - word as int / 16 * 256) % 0x1_0000_0000 == 0,
        left <==> word % 16 == 15 || word % 16 == 11,
        variant is None <==> freq == SampleFreq::Unknown,
        variant is Some ==> (variant->0).hz() % 48000 == 0 && freq.hz() <= (variant->0).hz() && 10
            * (variant->0).hz() < 11 * freq.hz(),
        instr >= 0x2000 ==> moved == instr,
        instr < 0x2000 ==> (moved - instr - origin) % 32 == 0 && moved / 32 == instr / 32,
{
    law_audio_bits(word);
    law_decode_variants(freq);
    law_jumps_move_along(instr, origin);
}

} // verus!
