//! Frequency and polarity detection on a raw S/PDIF capture.
//!
//! The capture program samples the input line once per PIO cycle and packs the
//! samples into 32-bit words, first sample in the most significant bit. The
//! distances between successive rising edges and between successive falling
//! edges tell the sample frequency; which of the two reaches the longest
//! distance tells the polarity of the line.

use vstd::prelude::*;

verus! {

/// PIO clock frequency.
pub const PIO_CLK_FREQ: u32 = 128_000_000;

/// Number of sample frequencies that the detector knows.
pub const FREQ_COUNT: usize = 6;

/// Supported sample frequencies.
#[derive(Debug, Clone, Copy, PartialEq, Eq, Structural)]
pub enum SampleFreq {
    Unknown,
    Hz44100,
    Hz48000,
    Hz88200,
    Hz96000,
    Hz176400,
    Hz192000,
}

impl SampleFreq {
    /// The frequency in Hz, 0 for [`SampleFreq::Unknown`].
    pub open spec fn hz(self) -> u32 {
        match self {
            SampleFreq::Unknown => 0,
            SampleFreq::Hz44100 => 44100,
            SampleFreq::Hz48000 => 48000,
            SampleFreq::Hz88200 => 88200,
            SampleFreq::Hz96000 => 96000,
            SampleFreq::Hz176400 => 176400,
            SampleFreq::Hz192000 => 192000,
        }
    }

    pub fn as_hz(self) -> (hz: u32)
        ensures
            hz == self.hz(),
    {
        match self {
            SampleFreq::Unknown => 0,
            SampleFreq::Hz44100 => 44100,
            SampleFreq::Hz48000 => 48000,
            SampleFreq::Hz88200 => 88200,
            SampleFreq::Hz96000 => 96000,
            SampleFreq::Hz176400 => 176400,
            SampleFreq::Hz192000 => 192000,
        }
    }
}

/// Edge distances, in PIO cycles, that a sample frequency accepts.
#[derive(Debug, Clone, Copy, PartialEq, Eq, Structural)]
pub struct SampFreqInfo {
    pub freq: SampleFreq,
    pub min_edge_lower: u32,
    pub min_edge_upper: u32,
    pub max_edge_lower: u32,
    pub max_edge_upper: u32,
}

/// Nominal length in PIO cycles of `symbols` biphase symbols at `sf` Hz.
pub open spec fn nominal_edge(sf: int, symbols: int) -> int {
    128_000_000int / sf * symbols / 128
}

impl SampFreqInfo {
    /// The windows around the nominal distances at `sf` Hz: the shortest
    /// distance is 2 symbols (accepted from 91 % to 111 %), the longest
    /// 6 symbols (accepted from 97 % to 104 %).
    pub open spec fn windows(self, freq: SampleFreq, sf: int) -> bool {
        &&& self.freq == freq
        &&& self.min_edge_lower == nominal_edge(sf, 2) * 91 / 100
        &&& self.min_edge_upper == nominal_edge(sf, 2) * 111 / 100
        &&& self.max_edge_lower == nominal_edge(sf, 6) * 97 / 100
        &&& self.max_edge_upper == nominal_edge(sf, 6) * 104 / 100
    }

    pub fn new(freq: SampleFreq, sf: u32) -> (info: Self)
        requires
            sf > 0,
        ensures
            info.windows(freq, sf as int),
    {
        let cycles: u32 = PIO_CLK_FREQ / sf;
        assert(cycles <= 128_000_000) by (nonlinear_arith)
            requires
                cycles == 128_000_000u32 / sf,
                sf > 0,
        ;
        let min_edge_nominal: u32 = cycles * 2 / 128;
        let max_edge_nominal: u32 = cycles * 6 / 128;
        SampFreqInfo {
            freq,
            min_edge_lower: min_edge_nominal * 91 / 100,
            min_edge_upper: min_edge_nominal * 111 / 100,
            max_edge_lower: max_edge_nominal * 97 / 100,
            max_edge_upper: max_edge_nominal * 104 / 100,
        }
    }

    pub fn check_min_edge(&self, value: u32) -> (ok: bool)
        ensures
            ok == (self.min_edge_lower <= value <= self.min_edge_upper),
    {
        value >= self.min_edge_lower && value <= self.min_edge_upper
    }

    pub fn check_max_edge(&self, value: u32) -> (ok: bool)
        ensures
            ok == (self.max_edge_lower <= value <= self.max_edge_upper),
    {
        value >= self.max_edge_lower && value <= self.max_edge_upper
    }
}

/// The known frequencies in the order in which the detector tries them.
pub open spec fn known_freq(i: int) -> SampleFreq {
    if i == 0 {
        SampleFreq::Hz44100
    } else if i == 1 {
        SampleFreq::Hz48000
    } else if i == 2 {
        SampleFreq::Hz88200
    } else if i == 3 {
        SampleFreq::Hz96000
    } else if i == 4 {
        SampleFreq::Hz176400
    } else {
        SampleFreq::Hz192000
    }
}

/// The windows of all known frequencies, in ascending order of frequency.
pub fn sf_info() -> (table: [SampFreqInfo; FREQ_COUNT])
    ensures
        forall|i: int|
            0 <= i < 6 ==> (#[trigger] table@[i]).windows(
                known_freq(i),
                known_freq(i).hz() as int,
            ),
{
    [
        SampFreqInfo::new(SampleFreq::Hz44100, 44100),
        SampFreqInfo::new(SampleFreq::Hz48000, 48000),
        SampFreqInfo::new(SampleFreq::Hz88200, 88200),
        SampFreqInfo::new(SampleFreq::Hz96000, 96000),
        SampFreqInfo::new(SampleFreq::Hz176400, 176400),
        SampFreqInfo::new(SampleFreq::Hz192000, 192000),
    ]
}

/// Bit `k` of a word, counted from the most significant one.
pub open spec fn word_bit(word: u32, k: u32) -> bool {
    (word >> ((31 - k) as u32)) & 1 == 1
}

/// Sample `p` of a capture.
pub open spec fn capture_bit(data: Seq<u32>, p: int) -> bool {
    word_bit(data[p / 32], (p % 32) as u32)
}

/// What the edges seen so far tell about a capture.
pub struct EdgeScan {
    /// Level of the line after the last sample.
    pub level: bool,
    /// Position of the last rising edge, 0 before the first.
    pub last_rise: int,
    /// Position of the last falling edge, 0 before the first.
    pub last_fall: int,
    /// Longest distance between successive rising edges.
    pub max_rise: int,
    /// Longest distance between successive falling edges.
    pub max_fall: int,
    /// Shortest distance between successive edges of one direction.
    pub min: int,
}

pub open spec fn int_min(a: int, b: int) -> int {
    if a < b {
        a
    } else {
        b
    }
}

pub open spec fn int_max(a: int, b: int) -> int {
    if a < b {
        b
    } else {
        a
    }
}

impl EdgeScan {
    /// Before the first sample. The line counts as high.
    pub open spec fn start() -> EdgeScan {
        EdgeScan {
            level: true,
            last_rise: 0,
            last_fall: 0,
            max_rise: 0,
            max_fall: 0,
            min: u32::MAX as int,
        }
    }

    /// The line changes its level at position `p`.
    pub open spec fn edge(self, p: int) -> EdgeScan {
        let last = if self.level {
            self.last_fall
        } else {
            self.last_rise
        };
        let min = if last > 0 {
            int_min(self.min, p - last)
        } else {
            self.min
        };
        if self.level {
            EdgeScan {
                level: false,
                last_fall: p,
                max_fall: if last > 0 {
                    int_max(self.max_fall, p - last)
                } else {
                    self.max_fall
                },
                min,
                ..self
            }
        } else {
            EdgeScan {
                level: true,
                last_rise: p,
                max_rise: if last > 0 {
                    int_max(self.max_rise, p - last)
                } else {
                    self.max_rise
                },
                min,
                ..self
            }
        }
    }
}

/// The edges among the first `n` samples of a capture.
pub open spec fn scan(data: Seq<u32>, n: int) -> EdgeScan
    decreases n,
{
    if n <= 0 {
        EdgeScan::start()
    } else {
        let before = scan(data, n - 1);
        if capture_bit(data, n - 1) == before.level {
            before
        } else {
            before.edge(n - 1)
        }
    }
}

pub open spec fn in_min_window(i: int, value: int) -> bool {
    let nominal = nominal_edge(known_freq(i).hz() as int, 2);
    nominal * 91 / 100 <= value <= nominal * 111 / 100
}

pub open spec fn in_max_window(i: int, value: int) -> bool {
    let nominal = nominal_edge(known_freq(i).hz() as int, 6);
    nominal * 97 / 100 <= value <= nominal * 104 / 100
}

/// The first of the frequencies from index `i` on whose windows hold the
/// scanned distances, and whether the line is inverted.
pub open spec fn classify(s: EdgeScan, i: int) -> Option<(SampleFreq, bool)>
    decreases 6 - i,
{
    if i >= 6 {
        None
    } else if in_min_window(i, s.min) && in_max_window(i, s.max_rise) {
        Some((known_freq(i), false))
    } else if in_min_window(i, s.min) && in_max_window(i, s.max_fall) {
        Some((known_freq(i), true))
    } else {
        classify(s, i + 1)
    }
}

/// A shortest distance below the smallest window matches no frequency.
proof fn lemma_too_short(s: EdgeScan, i: int)
    requires
        s.min < 9,
        0 <= i <= 6,
    ensures
        classify(s, i) is None,
    decreases 6 - i,
{
    assert(128_000_000int / 44100 == 2902);
    assert(128_000_000int / 48000 == 2666);
    assert(128_000_000int / 88200 == 1451);
    assert(128_000_000int / 96000 == 1333);
    assert(128_000_000int / 176400 == 725);
    assert(128_000_000int / 192000 == 666);
    if i < 6 {
        lemma_too_short(s, i + 1);
    }
}

/// The positions and distances that a scan holds stay within the capture, and
/// the shortest distance never grows.
proof fn lemma_scan_bounds(data: Seq<u32>, n: int)
    requires
        0 <= n,
    ensures
        ({
            let s = scan(data, n);
            &&& 0 <= s.last_rise <= n
            &&& 0 <= s.last_fall <= n
            &&& 0 <= s.max_rise <= n
            &&& 0 <= s.max_fall <= n
            &&& s.last_rise <= int_max(0, n - 1)
            &&& s.last_fall <= int_max(0, n - 1)
            &&& s.min <= u32::MAX
            &&& 0 <= s.min
        }),
    decreases n,
{
    if n > 0 {
        lemma_scan_bounds(data, n - 1);
    }
}

proof fn lemma_scan_min_falls(data: Seq<u32>, n: int, m: int)
    requires
        0 <= n <= m,
    ensures
        scan(data, m).min <= scan(data, n).min,
    decreases m,
{
    if n < m {
        lemma_scan_min_falls(data, n, m - 1);
    }
}

/// Samples that keep the level hold no edge.
proof fn lemma_scan_run(data: Seq<u32>, n: int, m: int)
    requires
        0 <= n <= m,
        forall|p: int| n <= p < m ==> #[trigger] capture_bit(data, p) == scan(data, n).level,
    ensures
        scan(data, m) == scan(data, n),
    decreases m,
{
    if n < m {
        lemma_scan_run(data, n, m - 1);
        assert(capture_bit(data, m - 1) == scan(data, n).level);
    }
}

/// Bit `k` of a word shifted left by `s` is bit `k + s` of the word, or 0
/// beyond its end.
proof fn lemma_shifted_bit(word: u32, s: u32, k: u32)
    requires
        s < 32,
        k < 32,
    ensures
        k + s < 32 ==> word_bit(word << s, k) == word_bit(word, (k + s) as u32),
        k + s >= 32 ==> !word_bit(word << s, k),
{
    assert(k + s < 32 ==> (((word << s) >> ((31 - k) as u32)) & 1 == 1) == ((word >> ((31 - (k
        + s)) as u32)) & 1 == 1)) by (bit_vector)
        requires
            s < 32,
            k < 32,
    ;
    assert(k + s >= 32 ==> ((word << s) >> ((31 - k) as u32)) & 1 != 1) by (bit_vector)
        requires
            s < 32,
            k < 32,
    ;
}

/// The leading run of a word at the level `one` is `run` bits long.
spec fn leading_run(word: u32, one: bool, run: u32) -> bool {
    &&& run <= 32
    &&& forall|k: u32| k < run ==> #[trigger] word_bit(word, k) == one
    &&& run < 32 ==> word_bit(word, run) != one
}

/// Number of leading bits of `word` at the level `one`.
fn run_length(word: u32, one: bool) -> (run: u32)
    ensures
        leading_run(word, one, run),
{
    let probe: u32 = if one {
        !word
    } else {
        word
    };
    let run: u32 = probe.leading_zeros();
    proof {
        vstd::std_specs::bits::axiom_u32_leading_zeros(probe);
        assert forall|k: u32| k < 32 implies #[trigger] word_bit(word, k) == (word_bit(probe, k)
            != one) by {
            if one {
                assert(((!word) >> ((31 - k) as u32)) & 1 == 1 <==> !((word >> ((31 - k) as u32))
                    & 1 == 1)) by (bit_vector)
                    requires
                        k < 32,
                ;
            }
        }
        assert forall|k: u32| k < run implies !#[trigger] word_bit(probe, k) by {
            let j: u32 = (31 - k) as u32;
            assert((probe >> j) & 1u32 == 0u32);
        }
        if run < 32 {
            let j: u32 = (31 - run) as u32;
            assert((probe >> j) & 1u32 != 0u32);
            assert((probe >> j) & 1u32 == 0u32 || (probe >> j) & 1u32 == 1u32) by (bit_vector);
        }
    }
    run
}

/// Determines sample frequency and polarity (`true` for an inverted line) of a
/// capture from the distances between its edges.
pub fn analyze_capture(data: &[u32]) -> (found: Option<(SampleFreq, bool)>)
    requires
        0 < data@.len() <= i32::MAX / 32,
    ensures
        found == classify(scan(data@, 32 * (data@.len() as int)), 0),
{
    let mut last_rise: u32 = 0;
    let mut last_fall: u32 = 0;
    let mut max_rise: u32 = 0;
    let mut max_fall: u32 = 0;
    let mut min_edge_interval: u32 = u32::MAX;
    let mut pos: u32 = 0;
    let mut high: bool = true;
    let mut word_idx: usize = 0;
    let mut bit_pos: u32 = 0;
    let mut shift_reg: u32 = data[0];
    let table = sf_info();
    let ghost mut seen: int = 0;
    assert(data@[0] << 0u32 == data@[0]) by {
        let w = data@[0];
        assert(w << 0u32 == w) by (bit_vector);
    }
    assert(table@[5].min_edge_lower == 9);

    while word_idx < data.len()
        invariant
            0 < data@.len() <= i32::MAX / 32,
            word_idx <= data@.len(),
            bit_pos < 32,
            pos == 32 * word_idx + bit_pos,
            word_idx == data@.len() ==> bit_pos == 0,
            word_idx < data@.len() ==> shift_reg == data@[word_idx as int] << bit_pos,
            table@[5].min_edge_lower == 9,
            seen == pos || seen == pos + 1,
            seen == pos + 1 ==> word_idx < data@.len() && capture_bit(data@, pos as int) == high,
            ({
                let s = scan(data@, seen);
                &&& s.level == high
                &&& s.last_rise == last_rise
                &&& s.last_fall == last_fall
                &&& s.max_rise == max_rise
                &&& s.max_fall == max_fall
                &&& s.min == min_edge_interval
            }),
        decreases data@.len() - word_idx, 64 - bit_pos - (seen - pos),
    {
        let ghost word = data@[word_idx as int];
        let ghost pos0 = pos as int;
        let run: u32 = run_length(shift_reg, high);
        proof {
            assert forall|k: u32| k < 32 - bit_pos implies #[trigger] word_bit(shift_reg, k)
                == capture_bit(data@, pos0 + k) by {
                lemma_shifted_bit(word, bit_pos, k);
                assert((pos0 + k) / 32 == word_idx);
                assert((pos0 + k) % 32 == bit_pos + k);
            }
            lemma_scan_bounds(data@, seen);
        }
        if run + bit_pos <= 31 {
            proof {
                assert forall|p: int| seen <= p < pos0 + run implies #[trigger] capture_bit(data@, p)
                    == high by {
                    let k: u32 = (p - pos0) as u32;
                    assert(word_bit(shift_reg, k) == capture_bit(data@, pos0 + k));
                }
                assert(word_bit(shift_reg, run) == capture_bit(data@, pos0 + run));
                if seen == pos0 + 1 && run == 0 {
                    assert(capture_bit(data@, pos0 + 0) == high);
                }
                lemma_scan_run(data@, seen, pos0 + run);
                assert(scan(data@, pos0 + run + 1) == scan(data@, pos0 + run).edge(pos0 + run));
                lemma_scan_bounds(data@, pos0 + run + 1);
                assert((word << bit_pos) << run == word << ((bit_pos + run) as u32)) by (bit_vector)
                    requires
                        bit_pos + run <= 31,
                ;
            }
            pos = pos + run;
            high = !high;
            if high {
                if last_rise > 0 {
                    let distance: u32 = pos - last_rise;
                    if distance > max_rise {
                        max_rise = distance;
                    }
                    if distance < min_edge_interval {
                        min_edge_interval = distance;
                    }
                }
                last_rise = pos;
            } else {
                if last_fall > 0 {
                    let distance: u32 = pos - last_fall;
                    if distance > max_fall {
                        max_fall = distance;
                    }
                    if distance < min_edge_interval {
                        min_edge_interval = distance;
                    }
                }
                last_fall = pos;
            }
            proof {
                seen = pos0 + run + 1;
            }
            // No known frequency has edges this close.
            if min_edge_interval < table[5].min_edge_lower {
                proof {
                    lemma_scan_min_falls(data@, seen, 32 * (data@.len() as int));
                    lemma_too_short(scan(data@, 32 * (data@.len() as int)), 0);
                }
                return None;
            }
            shift_reg = shift_reg << run;
            bit_pos = bit_pos + run;
        } else {
            proof {
                let end = 32 * (word_idx + 1);
                assert forall|p: int| seen <= p < end implies #[trigger] capture_bit(data@, p)
                    == high by {
                    let k: u32 = (p - pos0) as u32;
                    assert(word_bit(shift_reg, k) == capture_bit(data@, pos0 + k));
                }
                lemma_scan_run(data@, seen, end);
                seen = end;
            }
            pos = pos + (32 - bit_pos);
            bit_pos = 0;
            word_idx = word_idx + 1;
            if word_idx < data.len() {
                shift_reg = data[word_idx];
                proof {
                    let w = data@[word_idx as int];
                    assert(w << 0u32 == w) by (bit_vector);
                }
            }
        }
    }

    let mut i: usize = 0;
    let ghost result = scan(data@, 32 * (data@.len() as int));
    while i < FREQ_COUNT
        invariant
            i <= 6,
            forall|j: int|
                0 <= j < 6 ==> (#[trigger] table@[j]).windows(
                    known_freq(j),
                    known_freq(j).hz() as int,
                ),
            result.max_rise == max_rise,
            result.max_fall == max_fall,
            result.min == min_edge_interval,
            classify(result, 0) == classify(result, i as int),
            result == scan(data@, 32 * (data@.len() as int)),
        decreases 6 - i,
    {
        let info = table[i];
        assert(table@[i as int].windows(known_freq(i as int), known_freq(i as int).hz() as int));
        if info.check_min_edge(min_edge_interval) {
            if info.check_max_edge(max_rise) {
                return Some((info.freq, false));
            } else if info.check_max_edge(max_fall) {
                return Some((info.freq, true));
            }
        }
        i = i + 1;
    }
    None
}

/// The distances that each frequency accepts, in PIO cycles: every frequency
/// from 44.1 to 192 kHz has its own windows around two and six symbols.
pub proof fn law_windows(v: int)
    ensures
        in_min_window(0, v) <==> 40 <= v <= 49,
        in_min_window(1, v) <==> 37 <= v <= 45,
        in_min_window(2, v) <==> 20 <= v <= 24,
        in_min_window(3, v) <==> 18 <= v <= 22,
        in_min_window(4, v) <==> 10 <= v <= 12,
        in_min_window(5, v) <==> 9 <= v <= 11,
        in_max_window(0, v) <==> 131 <= v <= 141,
        in_max_window(1, v) <==> 120 <= v <= 128,
        in_max_window(2, v) <==> 65 <= v <= 70,
        in_max_window(3, v) <==> 60 <= v <= 64,
        in_max_window(4, v) <==> 32 <= v <= 34,
        in_max_window(5, v) <==> 30 <= v <= 32,
{
    assert(128_000_000int / 44100 == 2902);
    assert(128_000_000int / 48000 == 2666);
    assert(128_000_000int / 88200 == 1451);
    assert(128_000_000int / 96000 == 1333);
    assert(128_000_000int / 176400 == 725);
    assert(128_000_000int / 192000 == 666);
}

/// The detector knows every frequency, each once, in ascending order.
pub proof fn law_all_frequencies_known(freq: SampleFreq, i: int, j: int)
    requires
        0 <= i < j < 6,
    ensures
        known_freq(i).hz() < known_freq(j).hz(),
        known_freq(i) != SampleFreq::Unknown,
        known_freq(0).hz() == 44100,
        known_freq(5).hz() == 192000,
        freq == SampleFreq::Unknown <==> freq.hz() == 0,
        freq != SampleFreq::Unknown ==> freq.hz() % 44100 == 0 || freq.hz() % 48000 == 0,
        freq == SampleFreq::Unknown || freq == known_freq(0) || freq == known_freq(1) || freq
            == known_freq(2) || freq == known_freq(3) || freq == known_freq(4) || freq
            == known_freq(5),
{
}

/// Whether a frequency accepts a shortest and a longest distance.
pub open spec fn accepts(i: int, shortest: int, longest: int) -> bool {
    in_min_window(i, shortest) && in_max_window(i, longest)
}

/// The first frequency that accepts the distances is found: with the distance of
/// rising edges the line is not inverted, with that of falling edges it is. None
/// is found only if none accepts them.
pub proof fn law_first_match_is_found(s: EdgeScan, i: int)
    requires
        0 <= i < 6,
        forall|j: int|
            0 <= j < i ==> !#[trigger] accepts(j, s.min, s.max_rise) && !accepts(
                j,
                s.min,
                s.max_fall,
            ),
    ensures
        accepts(i, s.min, s.max_rise) ==> classify(s, 0) == Some((known_freq(i), false)),
        !accepts(i, s.min, s.max_rise) && accepts(i, s.min, s.max_fall) ==> classify(s, 0) == Some(
            (known_freq(i), true),
        ),
        classify(s, 0) is None ==> !accepts(i, s.min, s.max_rise) && !accepts(
            i,
            s.min,
            s.max_fall,
        ),
{
    lemma_classify_from(s, 0, i);
}

/// What is found accepts the distances.
pub proof fn law_found_is_accepted(s: EdgeScan)
    ensures
        classify(s, 0) matches Some((freq, inverted)) ==> {
            ||| !inverted && exists|i: int|
                0 <= i < 6 && freq == known_freq(i) && #[trigger] accepts(i, s.min, s.max_rise)
            ||| inverted && exists|i: int|
                0 <= i < 6 && freq == known_freq(i) && #[trigger] accepts(i, s.min, s.max_fall)
        },
{
    lemma_found_from(s, 0);
}

proof fn lemma_found_from(s: EdgeScan, k: int)
    requires
        0 <= k <= 6,
    ensures
        classify(s, k) matches Some((freq, inverted)) ==> {
            ||| !inverted && exists|i: int|
                k <= i < 6 && freq == known_freq(i) && #[trigger] accepts(i, s.min, s.max_rise)
            ||| inverted && exists|i: int|
                k <= i < 6 && freq == known_freq(i) && #[trigger] accepts(i, s.min, s.max_fall)
        },
    decreases 6 - k,
{
    if k < 6 {
        if accepts(k, s.min, s.max_rise) {
        } else if accepts(k, s.min, s.max_fall) {
        } else {
            lemma_found_from(s, k + 1);
        }
    }
}

proof fn lemma_classify_from(s: EdgeScan, k: int, i: int)
    requires
        0 <= k <= i < 6,
        forall|j: int|
            k <= j < i ==> !#[trigger] accepts(j, s.min, s.max_rise) && !accepts(
                j,
                s.min,
                s.max_fall,
            ),
    ensures
        accepts(i, s.min, s.max_rise) ==> classify(s, k) == Some((known_freq(i), false)),
        !accepts(i, s.min, s.max_rise) && accepts(i, s.min, s.max_fall) ==> classify(s, k) == Some(
            (known_freq(i), true),
        ),
    decreases i - k,
{
    if k < i {
        assert(!accepts(k, s.min, s.max_rise));
        lemma_classify_from(s, k + 1, i);
    }
}

/// The first sample of a word is its most significant bit, and the samples of a
/// capture are those of its words, one word behind the other.
pub proof fn law_samples_in_order(data: Seq<u32>, word: u32, k: u32, p: int)
    requires
        data.len() > 0,
    ensures
        word_bit(word, 0) <==> word >= 0x8000_0000,
        k < 31 ==> word_bit(word, (k + 1) as u32) == word_bit(
            (word % 0x8000_0000 * 2) as u32,
            k,
        ),
        0 <= p < 32 ==> capture_bit(data, p) == word_bit(data[0], p as u32),
        32 <= p < 32 * data.len() ==> capture_bit(data, p) == capture_bit(data.skip(1), p - 32),
{
    assert((word >> 31u32) & 1 == 1 <==> word >= 0x8000_0000) by (bit_vector);
    if k < 31 {
        lemma_shifted_bit(word, 1, k);
        assert(word << 1u32 == word % 0x8000_0000 * 2) by (bit_vector);
    }
    if 32 <= p < 32 * data.len() {
        assert((p - 32) / 32 == p / 32 - 1);
        assert((p - 32) % 32 == p % 32);
    }
}

/// The line rises at a position.
pub open spec fn rises(data: Seq<u32>, p: int) -> bool {
    p > 0 && capture_bit(data, p) && !capture_bit(data, p - 1)
}

/// The line falls at a position.
pub open spec fn falls(data: Seq<u32>, p: int) -> bool {
    p > 0 && !capture_bit(data, p) && capture_bit(data, p - 1)
}

/// Two rises with none between them.
pub open spec fn successive_rises(data: Seq<u32>, p: int, q: int) -> bool {
    &&& p < q
    &&& rises(data, p)
    &&& rises(data, q)
    &&& forall|r: int| p < r < q ==> !#[trigger] rises(data, r)
}

/// Two falls with none between them.
pub open spec fn successive_falls(data: Seq<u32>, p: int, q: int) -> bool {
    &&& p < q
    &&& falls(data, p)
    &&& falls(data, q)
    &&& forall|r: int| p < r < q ==> !#[trigger] falls(data, r)
}

/// A scan measures what it says: no distance between successive rises or
/// between successive falls is beyond its longest or shortest one, and those
/// are distances of such edges, if there are any.
pub proof fn law_scan_measures_edges(data: Seq<u32>, n: int, p: int, q: int)
    requires
        0 <= n,
        q < n,
    ensures
        ({
            let s = scan(data, n);
            &&& successive_rises(data, p, q) ==> s.min <= q - p <= s.max_rise
            &&& successive_falls(data, p, q) ==> s.min <= q - p <= s.max_fall
            &&& s.max_rise > 0 ==> exists|a: int, b: int|
                b < n && #[trigger] successive_rises(data, a, b) && b - a == s.max_rise
            &&& s.max_fall > 0 ==> exists|a: int, b: int|
                b < n && #[trigger] successive_falls(data, a, b) && b - a == s.max_fall
            &&& s.min < u32::MAX ==> {
                ||| exists|a: int, b: int|
                    b < n && #[trigger] successive_rises(data, a, b) && b - a == s.min
                ||| exists|a: int, b: int|
                    b < n && #[trigger] successive_falls(data, a, b) && b - a == s.min
            }
        }),
{
    lemma_scan_limits(data, n, p, q);
    lemma_scan_reached(data, n);
}

/// Whether `last` is the last rise before `n`, or 0 if there is none.
spec fn is_last_rise(data: Seq<u32>, n: int, last: int) -> bool {
    &&& last == 0 || 0 < last < n && rises(data, last)
    &&& forall|r: int| last < r < n ==> !#[trigger] rises(data, r)
}

/// Whether `last` is the last fall before `n`, or 0 if there is none.
spec fn is_last_fall(data: Seq<u32>, n: int, last: int) -> bool {
    &&& last == 0 || 0 < last < n && falls(data, last)
    &&& forall|r: int| last < r < n ==> !#[trigger] falls(data, r)
}

/// The level and the last edges of a scan.
proof fn lemma_scan_last(data: Seq<u32>, n: int)
    requires
        0 <= n,
    ensures
        ({
            let s = scan(data, n);
            &&& s.level == (n == 0 || capture_bit(data, n - 1))
            &&& is_last_rise(data, n, s.last_rise)
            &&& is_last_fall(data, n, s.last_fall)
        }),
    decreases n,
{
    if n > 0 {
        lemma_scan_last(data, n - 1);
        lemma_scan_bounds(data, n - 1);
    }
}

/// What the last sample adds to a scan.
proof fn lemma_scan_step(data: Seq<u32>, n: int)
    requires
        0 < n,
    ensures
        ({
            let b = scan(data, n - 1);
            let s = scan(data, n);
            let rise = rises(data, n - 1) && b.last_rise > 0;
            let fall = falls(data, n - 1) && b.last_fall > 0;
            let up = n - 1 - b.last_rise;
            let down = n - 1 - b.last_fall;
            &&& s.max_rise == if rise {
                int_max(b.max_rise, up)
            } else {
                b.max_rise
            }
            &&& s.max_fall == if fall {
                int_max(b.max_fall, down)
            } else {
                b.max_fall
            }
            &&& s.min == if rise {
                int_min(b.min, up)
            } else if fall {
                int_min(b.min, down)
            } else {
                b.min
            }
            &&& rise ==> successive_rises(data, b.last_rise, n - 1)
            &&& fall ==> successive_falls(data, b.last_fall, n - 1)
        }),
{
    lemma_scan_last(data, n - 1);
    lemma_scan_bounds(data, n - 1);
}

proof fn lemma_scan_limits(data: Seq<u32>, n: int, p: int, q: int)
    requires
        0 <= n,
        q < n,
    ensures
        ({
            let s = scan(data, n);
            &&& successive_rises(data, p, q) ==> s.min <= q - p <= s.max_rise
            &&& successive_falls(data, p, q) ==> s.min <= q - p <= s.max_fall
        }),
    decreases n,
{
    if n > 0 {
        lemma_scan_step(data, n);
        if q < n - 1 {
            lemma_scan_limits(data, n - 1, p, q);
        } else {
            lemma_scan_last(data, n - 1);
            let b = scan(data, n - 1);
            if successive_rises(data, p, q) {
                if p < b.last_rise {
                    assert(!rises(data, b.last_rise));
                }
                if p > b.last_rise {
                    assert(!rises(data, p));
                }
            }
            if successive_falls(data, p, q) {
                if p < b.last_fall {
                    assert(!falls(data, b.last_fall));
                }
                if p > b.last_fall {
                    assert(!falls(data, p));
                }
            }
        }
    }
}

spec fn rise_of(data: Seq<u32>, n: int, distance: int) -> bool {
    exists|a: int, b: int| b < n && #[trigger] successive_rises(data, a, b) && b - a == distance
}

spec fn fall_of(data: Seq<u32>, n: int, distance: int) -> bool {
    exists|a: int, b: int| b < n && #[trigger] successive_falls(data, a, b) && b - a == distance
}

proof fn lemma_later(data: Seq<u32>, n: int, distance: int)
    ensures
        rise_of(data, n - 1, distance) ==> rise_of(data, n, distance),
        fall_of(data, n - 1, distance) ==> fall_of(data, n, distance),
{
    if rise_of(data, n - 1, distance) {
        let (a, b) = choose|a: int, b: int|
            b < n - 1 && #[trigger] successive_rises(data, a, b) && b - a == distance;
        assert(successive_rises(data, a, b));
    }
    if fall_of(data, n - 1, distance) {
        let (a, b) = choose|a: int, b: int|
            b < n - 1 && #[trigger] successive_falls(data, a, b) && b - a == distance;
        assert(successive_falls(data, a, b));
    }
}

proof fn lemma_scan_reached(data: Seq<u32>, n: int)
    requires
        0 <= n,
    ensures
        ({
            let s = scan(data, n);
            &&& s.max_rise > 0 ==> rise_of(data, n, s.max_rise)
            &&& s.max_fall > 0 ==> fall_of(data, n, s.max_fall)
            &&& s.min < u32::MAX ==> rise_of(data, n, s.min) || fall_of(data, n, s.min)
        }),
    decreases n,
{
    if n > 0 {
        lemma_scan_reached(data, n - 1);
        lemma_scan_step(data, n);
        let b = scan(data, n - 1);
        lemma_later(data, n, b.max_rise);
        lemma_later(data, n, b.max_fall);
        lemma_later(data, n, b.min);
        if successive_rises(data, b.last_rise, n - 1) {
            assert(rise_of(data, n, n - 1 - b.last_rise));
        }
        if successive_falls(data, b.last_fall, n - 1) {
            assert(fall_of(data, n, n - 1 - b.last_fall));
        }
    }
}

/// A capture is recognised as the first of all six frequencies that accepts the
/// distances between its edges.
#[verifier::rlimit(50)]
#[verifier::spinoff_prover]
pub proof fn law_capture_is_recognised(data: &[u32], found: Option<(SampleFreq, bool)>, i: int)
    requires
        0 < data@.len() <= i32::MAX / 32,
        call_ensures(analyze_capture, (data,), found),
        0 <= i < 6,
        ({
            let s = scan(data@, 32 * (data@.len() as int));
            forall|j: int|
                0 <= j < i ==> !#[trigger] accepts(j, s.min, s.max_rise) && !accepts(
                    j,
                    s.min,
                    s.max_fall,
                )
        }),
    ensures
        ({
            let s = scan(data@, 32 * (data@.len() as int));
            &&& accepts(i, s.min, s.max_rise) ==> found == Some((known_freq(i), false))
            &&& !accepts(i, s.min, s.max_rise) && accepts(i, s.min, s.max_fall) ==> found == Some(
                (known_freq(i), true),
            )
        }),
{
    law_first_match_is_found(scan(data@, 32 * (data@.len() as int)), i);
}

/// A capture is recognised as nothing only if no frequency accepts its distances,
/// and as a frequency only if that one does.
pub proof fn law_capture_is_accepted(data: &[u32], found: Option<(SampleFreq, bool)>, i: int)
    requires
        0 < data@.len() <= i32::MAX / 32,
        call_ensures(analyze_capture, (data,), found),
        0 <= i < 6,
    ensures
        ({
            let s = scan(data@, 32 * (data@.len() as int));
            &&& found is None ==> !accepts(i, s.min, s.max_rise) && !accepts(i, s.min, s.max_fall)
            &&& found matches Some((freq, inverted)) ==> {
                ||| !inverted && exists|k: int|
                    0 <= k < 6 && freq == known_freq(k) && #[trigger] accepts(k, s.min, s.max_rise)
                ||| inverted && exists|k: int|
                    0 <= k < 6 && freq == known_freq(k) && #[trigger] accepts(k, s.min, s.max_fall)
            }
        }),
{
    let s = scan(data@, 32 * (data@.len() as int));
    law_found_is_accepted(s);
    if found is None {
        lemma_none_accepts(s, 0, i);
    }
}

proof fn lemma_none_accepts(s: EdgeScan, k: int, i: int)
    requires
        0 <= k <= i < 6,
        classify(s, k) is None,
    ensures
        !accepts(i, s.min, s.max_rise),
        !accepts(i, s.min, s.max_fall),
    decreases i - k,
{
    if k < i {
        lemma_none_accepts(s, k + 1, i);
    }
}

/// The limits of a frequency are made from its rate and the sampling rate alone,
/// and the check of a distance says whether it lies within them.
pub proof fn law_limit_checks(info: SampFreqInfo, value: u32, short: bool, long: bool)
    requires
        call_ensures(SampFreqInfo::check_min_edge, (&info, value), short),
        call_ensures(SampFreqInfo::check_max_edge, (&info, value), long),
    ensures
        short <==> info.min_edge_lower <= value && value <= info.min_edge_upper,
        long <==> info.max_edge_lower <= value && value <= info.max_edge_upper,
{
}

} // verus!
