//! DSP types and fixed-point formats.
//!
//! Two fixed-point formats are used by the TAS5830 DSP:
//!
//! - 5.27 for biquad filter coefficients (unity = 0x0800_0000)
//! - 9.23 for mixer gains and channel volumes (unity = 0x0080_0000)

use vstd::prelude::*;

use crate::audio::convert::sample_to_word;
use crate::bytes::{put, to_be32};
use crate::drivers::tas5830::regs::fault;

verus! {

/// Unity in 5.27 format.
pub const BQ_ONE: i32 = 0x0800_0000;

/// Unity in 9.23 format.
pub const GAIN_ONE: u32 = 0x0080_0000;

/// A decimal number: `integer + fraction / divisor`, negated if `negative`.
#[derive(Debug, Clone, Copy, PartialEq, Eq, Structural)]
pub struct Decimal {
    pub negative: bool,
    pub integer: u32,
    pub fraction: u32,
    pub divisor: u32,
}

impl Decimal {
    pub fn new(integer: u32, fraction: u32, divisor: u32) -> (d: Self)
        ensures
            d == (Decimal { negative: false, integer, fraction, divisor }),
    {
        Decimal { negative: false, integer, fraction, divisor }
    }
}

/// Five biquad coefficients in 5.27 format, normalised by a0.
///
/// H(z) = (b0 + b1/z + b2/z^2) / (1 + a1/z + a2/z^2). The hardware expects the
/// feedback coefficients negated: `a1` and `a2` hold -a1/a0 and -a2/a0.
#[derive(Debug, Clone, Copy, PartialEq, Eq, Structural)]
pub struct BiquadCoeffs {
    pub b0: i32,
    pub b1: i32,
    pub b2: i32,
    pub a1: i32,
    pub a2: i32,
}

impl BiquadCoeffs {
    /// Unity gain, no filtering.
    pub open spec fn identity() -> BiquadCoeffs {
        BiquadCoeffs { b0: BQ_ONE, b1: 0, b2: 0, a1: 0, a2: 0 }
    }

    /// Passthrough (unity gain, no filtering).
    pub fn passthrough() -> (c: Self)
        ensures
            c == BiquadCoeffs::identity(),
    {
        BiquadCoeffs { b0: BQ_ONE, b1: 0, b2: 0, a1: 0, a2: 0 }
    }

    /// Silence: zeroes the signal.
    pub fn mute() -> (c: Self)
        ensures
            c == (BiquadCoeffs { b0: 0, b1: 0, b2: 0, a1: 0, a2: 0 }),
    {
        BiquadCoeffs { b0: 0, b1: 0, b2: 0, a1: 0, a2: 0 }
    }

    /// Coefficient `i` in the order b0, b1, b2, a1, a2.
    pub open spec fn coeff(self, i: int) -> i32 {
        if i == 0 {
            self.b0
        } else if i == 1 {
            self.b1
        } else if i == 2 {
            self.b2
        } else if i == 3 {
            self.a1
        } else {
            self.a2
        }
    }

    /// Coefficient `i` as a word in two's complement.
    pub open spec fn word(self, i: int) -> u32 {
        crate::audio::convert::unsigned32(self.coeff(i))
    }

    pub fn coeff_word(&self, i: u8) -> (word: u32)
        requires
            i < 5,
        ensures
            word == self.word(i as int),
    {
        sample_to_word(
            if i == 0 {
                self.b0
            } else if i == 1 {
                self.b1
            } else if i == 2 {
                self.b2
            } else if i == 3 {
                self.a1
            } else {
                self.a2
            },
        )
    }

    /// Serialises to 20 bytes: b0, b1, b2, a1, a2, 4 bytes each, most
    /// significant first.
    pub fn to_bytes(&self) -> (bytes: [u8; 20])
        ensures
            forall|i: int|
                0 <= i < 20 ==> #[trigger] bytes@[i] == crate::bytes::be32(self.word(i / 4))[i % 4],
    {
        let mut buf: [u8; 20] = [0u8;20];
        let mut i: u8 = 0;
        while i < 5
            invariant
                i <= 5,
                forall|j: int|
                    0 <= j < 4 * i ==> #[trigger] buf@[j] == crate::bytes::be32(self.word(j / 4))[j % 4],
            decreases 5 - i,
        {
            let bytes: [u8; 4] = to_be32(self.coeff_word(i));
            let ghost before = buf@;
            put(&mut buf, i as usize * 4, &bytes);
            assert forall|j: int| 0 <= j < 4 * (i + 1) implies #[trigger] buf@[j] == crate::bytes::be32(
                self.word(j / 4),
            )[j % 4] by {
                if j < 4 * i {
                    assert(before[j] == crate::bytes::be32(self.word(j / 4))[j % 4]);
                } else {
                    assert(j / 4 == i);
                    assert(j % 4 == j - 4 * i);
                }
            }
            i = i + 1;
        }
        buf
    }

    /// Builds from raw 5.27 values.
    pub fn from_raw(b0: i32, b1: i32, b2: i32, a1: i32, a2: i32) -> (c: Self)
        ensures
            c == (BiquadCoeffs { b0, b1, b2, a1, a2 }),
    {
        BiquadCoeffs { b0, b1, b2, a1, a2 }
    }
}

/// `v` doubled `n` times.
pub open spec fn doublings(v: int, n: int) -> int
    decreases n,
{
    if n <= 0 {
        v
    } else {
        2 * doublings(v, n - 1)
    }
}

/// `v` halved `n` times, rounding down.
pub open spec fn halvings(v: int, n: int) -> int
    decreases n,
{
    if n <= 0 {
        v
    } else {
        halvings(v, n - 1) / 2
    }
}

/// The loudest level whose gain the 9.23 format holds, in dB.
pub const MAX_GAIN_DB: i16 = 53;

/// The 9.23 gain for a level in dB: a factor of two for every whole 6 dB, and a
/// linear approximation for the rest. At -110 dB and below the gain is zero;
/// above [`MAX_GAIN_DB`] it stays at the last gain of the format.
pub open spec fn gain_of_db(db: int) -> int {
    if db <= -110 {
        0
    } else if db < 0 {
        let coarse = halvings(GAIN_ONE as int, (-db) / 6);
        coarse - coarse / 2 * ((-db) % 6) / 6
    } else {
        let level = if db < MAX_GAIN_DB {
            db
        } else {
            MAX_GAIN_DB as int
        };
        let coarse = doublings(GAIN_ONE as int, level / 6);
        coarse + coarse / 2 * (level % 6) / 6
    }
}

/// A gain in 9.23 format, as used for mixer paths and channel volumes.
#[derive(Debug, Clone, Copy, PartialEq, Eq, Structural)]
pub struct Gain923(pub u32);

impl Gain923 {
    /// 0 dB (unity gain).
    pub fn unity() -> (g: Self)
        ensures
            g == Gain923(GAIN_ONE),
    {
        Gain923(GAIN_ONE)
    }

    /// Silence.
    pub fn mute() -> (g: Self)
        ensures
            g == Gain923(0),
    {
        Gain923(0)
    }

    /// -6 dB (half amplitude).
    pub fn minus_6db() -> (g: Self)
        ensures
            g == Gain923(0x0040_0000),
    {
        Gain923(GAIN_ONE / 2)
    }

    /// Converts a level in dB. Only levels of -110 dB and below are silence.
    pub fn from_db(db: i16) -> (g: Self)
        ensures
            g.0 == gain_of_db(db as int),
            g.0 == 0 <==> db <= -110,
    {
        proof {
            law_gain_of_silence(db as int);
        }
        if db <= -110 {
            return Gain923::mute();
        }
        let db: i16 = if db < MAX_GAIN_DB {
            db
        } else {
            MAX_GAIN_DB
        };
        let mut value: u64 = GAIN_ONE as u64;
        let mut remaining: i16 = db;
        let ghost mut steps: int = 0;
        assert(value * doublings(1, 8) == 0x8000_0000) by {
            reveal_with_fuel(doublings, 9);
        }
        while remaining >= 6
            invariant
                db < 54,
                remaining == db - 6 * steps,
                0 <= steps <= 8,
                steps > 0 ==> remaining >= 0,
                value == doublings(GAIN_ONE as int, steps),
                0 < value <= 0x8000_0000,
                value * doublings(1, 8 - steps) == 0x8000_0000,
            decreases remaining,
        {
            proof {
                assert(doublings(1, 8 - steps) == 2 * doublings(1, 8 - steps - 1));
                let half = doublings(1, 8 - steps - 1);
                assert(value * (2 * half) == (2 * value) * half) by (nonlinear_arith);
                lemma_doublings_positive(8 - steps - 1);
                assert(2 * value <= 0x8000_0000) by (nonlinear_arith)
                    requires
                        (2 * value) * half == 0x8000_0000,
                        half >= 1,
                ;
                steps = steps + 1;
            }
            value = value * 2;
            remaining = remaining - 6;
        }
        assert(db >= 0 ==> steps == db as int / 6);
        while remaining <= -6
            invariant
                -110 < db < 54,
                db >= 0 ==> 0 <= remaining < 6 && remaining == db - 6 * steps && value == doublings(
                    GAIN_ONE as int,
                    steps,
                ),
                db < 0 ==> remaining == db + 6 * steps && 0 <= steps && remaining <= 5 && value
                    == halvings(GAIN_ONE as int, steps) && (steps > 0 ==> remaining <= 0),
                value <= 0x8000_0000,
            decreases -remaining,
        {
            value = value / 2;
            remaining = remaining + 6;
            proof {
                steps = steps + 1;
            }
        }
        let half: u64 = value / 2;
        if remaining > 0 {
            assert(half * remaining <= 0x4000_0000 * 5) by (nonlinear_arith)
                requires
                    half <= 0x4000_0000,
                    0 < remaining <= 5,
            ;
            value = value + half * remaining as u64 / 6;
        } else if remaining < 0 {
            assert(0 <= half * (-remaining) <= half * 5) by (nonlinear_arith)
                requires
                    -5 <= remaining <= 0,
                    half >= 0,
            ;
            value = value - half * ((-remaining) as u64) / 6;
        }
        proof {
            if db >= 0 {
                assert(remaining == db as int % 6);
                assert(remaining == 0 ==> half * remaining == 0) by (nonlinear_arith);
            } else {
                assert(steps == (-db) as int / 6);
                assert(-remaining == (-db) as int % 6);
                assert(remaining == 0 ==> half * remaining == 0) by (nonlinear_arith);
            }
        }
        Gain923(value as u32)
    }

    /// Serialises as 4 bytes, most significant first.
    pub fn to_bytes(self) -> (bytes: [u8; 4])
        ensures
            bytes@ == crate::bytes::be32(self.0),
    {
        to_be32(self.0)
    }
}

proof fn lemma_doublings_positive(n: int)
    ensures
        doublings(1, n) >= 1,
    decreases n,
{
    if n > 0 {
        lemma_doublings_positive(n - 1);
    }
}

/// Mixer matrix gains.
#[derive(Debug, Clone, Copy, PartialEq, Eq, Structural)]
pub struct MixerGains {
    /// Left input to left output.
    pub l2l: Gain923,
    /// Right input to left output.
    pub r2l: Gain923,
    /// Left input to right output.
    pub l2r: Gain923,
    /// Right input to right output.
    pub r2r: Gain923,
}

impl MixerGains {
    /// The matrix that puts `left` and `right` gains on the four paths.
    pub open spec fn matrix(l2l: u32, r2l: u32, l2r: u32, r2r: u32) -> MixerGains {
        MixerGains { l2l: Gain923(l2l), r2l: Gain923(r2l), l2r: Gain923(l2r), r2r: Gain923(r2r) }
    }

    /// Each channel to its own output at 0 dB.
    pub fn stereo() -> (m: Self)
        ensures
            m == MixerGains::matrix(GAIN_ONE, 0, 0, GAIN_ONE),
    {
        MixerGains {
            l2l: Gain923::unity(),
            r2l: Gain923::mute(),
            l2r: Gain923::mute(),
            r2r: Gain923::unity(),
        }
    }

    /// Both channels summed to both outputs at -6 dB.
    pub fn mono() -> (m: Self)
        ensures
            m == MixerGains::matrix(0x0040_0000, 0x0040_0000, 0x0040_0000, 0x0040_0000),
    {
        MixerGains {
            l2l: Gain923::minus_6db(),
            r2l: Gain923::minus_6db(),
            l2r: Gain923::minus_6db(),
            r2r: Gain923::minus_6db(),
        }
    }

    /// Left channel to both outputs.
    pub fn left_only() -> (m: Self)
        ensures
            m == MixerGains::matrix(GAIN_ONE, 0, GAIN_ONE, 0),
    {
        MixerGains {
            l2l: Gain923::unity(),
            r2l: Gain923::mute(),
            l2r: Gain923::unity(),
            r2r: Gain923::mute(),
        }
    }

    /// Right channel to both outputs.
    pub fn right_only() -> (m: Self)
        ensures
            m == MixerGains::matrix(0, GAIN_ONE, 0, GAIN_ONE),
    {
        MixerGains {
            l2l: Gain923::mute(),
            r2l: Gain923::unity(),
            l2r: Gain923::mute(),
            r2r: Gain923::unity(),
        }
    }
}

/// Named mixer presets.
#[derive(Debug, Clone, Copy, PartialEq, Eq, Structural)]
pub enum MixerMode {
    Stereo,
    Mono,
    LeftOnly,
    RightOnly,
}

impl MixerMode {
    pub open spec fn gains(self) -> MixerGains {
        match self {
            MixerMode::Stereo => MixerGains::matrix(GAIN_ONE, 0, 0, GAIN_ONE),
            MixerMode::Mono => MixerGains::matrix(
                0x0040_0000,
                0x0040_0000,
                0x0040_0000,
                0x0040_0000,
            ),
            MixerMode::LeftOnly => MixerGains::matrix(GAIN_ONE, 0, GAIN_ONE, 0),
            MixerMode::RightOnly => MixerGains::matrix(0, GAIN_ONE, 0, GAIN_ONE),
        }
    }

    pub fn to_gains(self) -> (m: MixerGains)
        ensures
            m == self.gains(),
    {
        match self {
            MixerMode::Stereo => MixerGains::stereo(),
            MixerMode::Mono => MixerGains::mono(),
            MixerMode::LeftOnly => MixerGains::left_only(),
            MixerMode::RightOnly => MixerGains::right_only(),
        }
    }
}

/// Per-channel volume (post-mixer).
#[derive(Debug, Clone, Copy, PartialEq, Eq, Structural)]
pub struct ChannelVolume {
    pub left: Gain923,
    pub right: Gain923,
}

impl ChannelVolume {
    /// Both channels at unity (0 dB).
    pub fn unity() -> (v: Self)
        ensures
            v == (ChannelVolume { left: Gain923(GAIN_ONE), right: Gain923(GAIN_ONE) }),
    {
        ChannelVolume { left: Gain923::unity(), right: Gain923::unity() }
    }
}

/// Hardware fault and warning status.
#[derive(Debug, Clone, Copy, PartialEq, Eq, Structural)]
pub struct FaultStatus {
    /// Channel-fault register (0x70).
    pub chan_fault: u8,
    /// Global-fault-1 register (0x71).
    pub global_fault1: u8,
    /// Global-fault-2 register (0x72).
    pub global_fault2: u8,
    /// Over-temperature warning register (0x73).
    pub ot_warning: u8,
}

impl FaultStatus {
    /// Whether any fault bit is set.
    pub fn has_fault(&self) -> (any: bool)
        ensures
            any == (self.chan_fault != 0 || self.global_fault1 != 0 || self.global_fault2 != 0),
    {
        self.chan_fault != 0 || self.global_fault1 != 0 || self.global_fault2 != 0
    }

    /// Whether any over-temperature warning is active.
    pub fn has_ot_warning(&self) -> (any: bool)
        ensures
            any == (self.ot_warning != 0),
    {
        self.ot_warning != 0
    }

    /// Right channel over-current.
    pub fn right_oc(&self) -> (set: bool)
        ensures
            set == (self.chan_fault & fault::RIGHT_OC != 0),
    {
        self.chan_fault & fault::RIGHT_OC != 0
    }

    /// Left channel over-current.
    pub fn left_oc(&self) -> (set: bool)
        ensures
            set == (self.chan_fault & fault::LEFT_OC != 0),
    {
        self.chan_fault & fault::LEFT_OC != 0
    }

    /// Right channel DC fault.
    pub fn right_dc(&self) -> (set: bool)
        ensures
            set == (self.chan_fault & fault::RIGHT_DC != 0),
    {
        self.chan_fault & fault::RIGHT_DC != 0
    }

    /// Left channel DC fault.
    pub fn left_dc(&self) -> (set: bool)
        ensures
            set == (self.chan_fault & fault::LEFT_DC != 0),
    {
        self.chan_fault & fault::LEFT_DC != 0
    }

    /// PVDD under-voltage.
    pub fn pvdd_uv(&self) -> (set: bool)
        ensures
            set == (self.global_fault1 & fault::PVDD_UV != 0),
    {
        self.global_fault1 & fault::PVDD_UV != 0
    }

    /// PVDD over-voltage.
    pub fn pvdd_ov(&self) -> (set: bool)
        ensures
            set == (self.global_fault1 & fault::PVDD_OV != 0),
    {
        self.global_fault1 & fault::PVDD_OV != 0
    }

    /// Clock fault.
    pub fn clock_fault(&self) -> (set: bool)
        ensures
            set == (self.global_fault1 & fault::CLOCK != 0),
    {
        self.global_fault1 & fault::CLOCK != 0
    }

    /// Thermal shutdown.
    pub fn thermal_shutdown(&self) -> (set: bool)
        ensures
            set == (self.global_fault2 & fault::THERMAL_SD != 0),
    {
        self.global_fault2 & fault::THERMAL_SD != 0
    }
}

/// The filter applied to one EQ band.
#[derive(Debug, Clone, Copy, PartialEq, Eq, Structural)]
pub enum FilterType {
    /// Parametric peaking EQ: centre frequency, gain (dB), Q.
    Peaking { freq_hz: Decimal, gain_db: Decimal, q: Decimal },
    /// Second-order low-pass.
    LowPass { freq_hz: Decimal, q: Decimal },
    /// Second-order high-pass.
    HighPass { freq_hz: Decimal, q: Decimal },
    LowShelf { freq_hz: Decimal, gain_db: Decimal, q: Decimal },
    HighShelf { freq_hz: Decimal, gain_db: Decimal, q: Decimal },
    /// Band-pass (constant-skirt).
    BandPass { freq_hz: Decimal, q: Decimal },
    /// Notch (band-reject).
    Notch { freq_hz: Decimal, q: Decimal },
    AllPass { freq_hz: Decimal, q: Decimal },
    /// No filtering (passthrough).
    Bypass,
}

impl FilterType {
    /// All 24 bands without filtering.
    pub fn bypassed() -> (bands: [FilterType; 24])
        ensures
            bands@ == Seq::new(24, |i: int| FilterType::Bypass),
    {
        let mut bands: [FilterType; 24] = [FilterType::Bypass;24];
        let mut i: usize = 0;
        while i < 24
            invariant
                i <= 24,
                forall|j: int| 0 <= j < i ==> bands@[j] == FilterType::Bypass,
            decreases 24 - i,
        {
            bands[i] = FilterType::Bypass;
            i = i + 1;
        }
        assert(bands@ =~= Seq::new(24, |i: int| FilterType::Bypass));
        bands
    }
}

/// A louder level never has a smaller gain.
pub proof fn law_gain_monotone(a: int, b: int)
    requires
        a <= b,
    ensures
        gain_of_db(a) <= gain_of_db(b),
    decreases b - a,
{
    if a < b {
        law_gain_monotone(a + 1, b);
        lemma_gain_step(a);
    }
}

/// Six dB more double the gain, and six dB less halve it: exactly at multiples
/// of 6 dB, and up to the rounding of the last digit between them. The linear
/// approximation differs on the two sides of 0 dB, so that both levels lie on
/// one side; silence doubled is silence.
pub proof fn law_six_db_double(db: int)
    requires
        0 <= db && db + 6 <= MAX_GAIN_DB || -110 < db && db + 6 <= 0 || db + 6 <= -110,
    ensures
        -1 <= gain_of_db(db + 6) - 2 * gain_of_db(db) <= 1,
        db % 6 == 0 ==> gain_of_db(db + 6) == 2 * gain_of_db(db),
{
    if db >= 0 {
        let q = db / 6;
        let r = db % 6;
        let v = doublings(GAIN_ONE as int, q);
        assert((db + 6) / 6 == q + 1);
        assert((db + 6) % 6 == r);
        lemma_doublings_nonneg(GAIN_ONE as int, q);
        lemma_doublings_even(q);
        assert(doublings(GAIN_ONE as int, q + 1) == 2 * v);
        assert(v * r == 2 * (v / 2 * r)) by (nonlinear_arith)
            requires
                v == 2 * (v / 2),
        ;
        assert(r == 0 ==> v * r == 0) by (nonlinear_arith);
        assert(gain_of_db(db) == v + v / 2 * r / 6);
        assert(gain_of_db(db + 6) == 2 * v + 2 * v / 2 * r / 6);
    } else if db > -110 {
        let n = -db - 6;
        let q = n / 6;
        let r = n % 6;
        assert((-db) / 6 == q + 1);
        assert((-db) % 6 == r);
        lemma_halvings_of_unity(q);
        let v = halvings(GAIN_ONE as int, q);
        let w = v / 2;
        assert(halvings(GAIN_ONE as int, q + 1) == w);
        assert(w * r == 2 * (w / 2 * r)) by (nonlinear_arith)
            requires
                w == 2 * (w / 2),
        ;
        assert(r == 0 ==> w * r == 0 && w / 2 * r == 0) by (nonlinear_arith);
        assert(gain_of_db(db) == w - w / 2 * r / 6);
        assert(gain_of_db(db + 6) == v - v / 2 * r / 6) by {
            if n == 0 {
                assert(v == GAIN_ONE);
                assert(gain_of_db(0) == GAIN_ONE + GAIN_ONE as int / 2 * 0 / 6);
            }
        }
    }
}

proof fn lemma_doublings_even(n: int)
    ensures
        doublings(GAIN_ONE as int, n) % 2 == 0,
    decreases n,
{
    if n > 0 {
        lemma_doublings_even(n - 1);
    }
}

proof fn lemma_unity_halved()
    ensures
        halvings(GAIN_ONE as int, 18) == 32,
{
    assert(halvings(GAIN_ONE as int, 0) == 8388608);
    assert(halvings(GAIN_ONE as int, 1) == 4194304);
    assert(halvings(GAIN_ONE as int, 2) == 2097152);
    assert(halvings(GAIN_ONE as int, 3) == 1048576);
    assert(halvings(GAIN_ONE as int, 4) == 524288);
    assert(halvings(GAIN_ONE as int, 5) == 262144);
    assert(halvings(GAIN_ONE as int, 6) == 131072);
    assert(halvings(GAIN_ONE as int, 7) == 65536);
    assert(halvings(GAIN_ONE as int, 8) == 32768);
    assert(halvings(GAIN_ONE as int, 9) == 16384);
    assert(halvings(GAIN_ONE as int, 10) == 8192);
    assert(halvings(GAIN_ONE as int, 11) == 4096);
    assert(halvings(GAIN_ONE as int, 12) == 2048);
    assert(halvings(GAIN_ONE as int, 13) == 1024);
    assert(halvings(GAIN_ONE as int, 14) == 512);
    assert(halvings(GAIN_ONE as int, 15) == 256);
    assert(halvings(GAIN_ONE as int, 16) == 128);
    assert(halvings(GAIN_ONE as int, 17) == 64);
    assert(halvings(GAIN_ONE as int, 18) == 32);
}

/// Within the format unity is halved without a remainder.
proof fn lemma_halvings_of_unity(n: int)
    requires
        0 <= n <= 17,
    ensures
        halvings(GAIN_ONE as int, n) % 4 == 0,
{
    lemma_halved_exactly(n);
    lemma_doublings_even_four(17 - n);
}

/// Halving unity `n` times undoes doubling 64 as often as is left of 17.
proof fn lemma_halved_exactly(n: int)
    requires
        0 <= n <= 17,
    ensures
        halvings(GAIN_ONE as int, n) == doublings(64, 17 - n),
    decreases n,
{
    if n == 0 {
        assert(doublings(64, 0) == 64);
        assert(doublings(64, 1) == 128);
        assert(doublings(64, 2) == 256);
        assert(doublings(64, 3) == 512);
        assert(doublings(64, 4) == 1024);
        assert(doublings(64, 5) == 2048);
        assert(doublings(64, 6) == 4096);
        assert(doublings(64, 7) == 8192);
        assert(doublings(64, 8) == 16384);
        assert(doublings(64, 9) == 32768);
        assert(doublings(64, 10) == 65536);
        assert(doublings(64, 11) == 131072);
        assert(doublings(64, 12) == 262144);
        assert(doublings(64, 13) == 524288);
        assert(doublings(64, 14) == 1048576);
        assert(doublings(64, 15) == 2097152);
        assert(doublings(64, 16) == 4194304);
        assert(doublings(64, 17) == 8388608);
    } else {
        lemma_halved_exactly(n - 1);
    }
}

proof fn lemma_doublings_even_four(n: int)
    ensures
        doublings(64, n) % 4 == 0,
    decreases n,
{
    if n > 0 {
        lemma_doublings_even_four(n - 1);
    }
}

/// The gain is zero at -110 dB and below, and only there.
pub proof fn law_gain_of_silence(db: int)
    ensures
        gain_of_db(db) == 0 <==> db <= -110,
{
    if db > -110 {
        law_gain_monotone(-109, db);
        lemma_unity_halved();
        assert(gain_of_db(-109) == 32 - 16int * 1 / 6);
    }
}

proof fn lemma_gain_step(db: int)
    ensures
        gain_of_db(db) <= gain_of_db(db + 1),
{
    if db < -110 || db >= MAX_GAIN_DB {
    } else if db >= 0 {
        let q = db / 6;
        let r = db % 6;
        let v = doublings(GAIN_ONE as int, q);
        lemma_doublings_nonneg(GAIN_ONE as int, q);
        if r == 5 {
            assert((db + 1) / 6 == q + 1);
            assert((db + 1) % 6 == 0);
            assert(doublings(GAIN_ONE as int, q + 1) == 2 * v);
            assert(gain_of_db(db) == v + v / 2 * 5 / 6);
            assert(gain_of_db(db + 1) == 2 * v + 2 * v / 2 * 0 / 6);
        } else {
            assert((db + 1) / 6 == q);
            assert((db + 1) % 6 == r + 1);
            assert(v / 2 * r <= v / 2 * (r + 1)) by (nonlinear_arith)
                requires
                    v >= 0,
            ;
        }
    } else if db == -110 {
        let v = halvings(GAIN_ONE as int, 18);
        lemma_halvings_nonneg(GAIN_ONE as int, 18);
        assert(gain_of_db(-109) == v - v / 2 * 1 / 6);
    } else {
        let n = -db;
        let q = n / 6;
        let r = n % 6;
        let v = halvings(GAIN_ONE as int, q);
        lemma_halvings_nonneg(GAIN_ONE as int, q);
        if r == 0 {
            let w = halvings(GAIN_ONE as int, q - 1);
            lemma_halvings_nonneg(GAIN_ONE as int, q - 1);
            assert(v == w / 2);
            assert((n - 1) / 6 == q - 1);
            assert((n - 1) % 6 == 5);
            assert(gain_of_db(db) == v - v / 2 * 0 / 6);
            if n == 1 {
            } else {
                assert(gain_of_db(db + 1) == w - w / 2 * 5 / 6);
            }
        } else {
            assert((n - 1) / 6 == q);
            assert((n - 1) % 6 == r - 1);
            assert(v / 2 * (r - 1) <= v / 2 * r) by (nonlinear_arith)
                requires
                    v >= 0,
            ;
            if n == 1 {
                assert(v == GAIN_ONE);
                assert(gain_of_db(0) == GAIN_ONE + GAIN_ONE as int / 2 * 0 / 6);
            }
        }
    }
}

proof fn lemma_doublings_nonneg(v: int, n: int)
    requires
        v >= 0,
    ensures
        doublings(v, n) >= 0,
    decreases n,
{
    if n > 0 {
        lemma_doublings_nonneg(v, n - 1);
    }
}

proof fn lemma_halvings_nonneg(v: int, n: int)
    requires
        v >= 0,
    ensures
        halvings(v, n) >= 0,
    decreases n,
{
    if n > 0 {
        lemma_halvings_nonneg(v, n - 1);
    }
}

/// No preset makes an output louder than the sum of its inputs at half level
/// or one input at full level: the gains into each output add up to unity.
pub proof fn law_presets_keep_level(mode: MixerMode)
    ensures
        mode.gains().l2l.0 + mode.gains().r2l.0 == GAIN_ONE,
        mode.gains().l2r.0 + mode.gains().r2r.0 == GAIN_ONE,
{
}

/// Between multiples of 6 dB the gain grows in even steps, of a twelfth of the
/// gain at the multiple that is nearer to 0 dB, but for rounding. 0 dB is unity,
/// and above 53 dB the gain stays.
pub proof fn law_gain_interpolates(db: int)
    ensures
        gain_of_db(0) == 0x0080_0000,
        db >= 53 ==> gain_of_db(db) == gain_of_db(53),
        0 <= db < 53 && db % 6 < 5 ==> -12 <= 12 * (gain_of_db(db + 1) - gain_of_db(db))
            - gain_of_db(db - db % 6) <= 12,
        -110 < db < 0 && (-db) % 6 > 0 ==> -24 <= 12 * (gain_of_db(db + 1) - gain_of_db(db))
            - gain_of_db(db + (-db) % 6) <= 24,
{
    assert(doublings(GAIN_ONE as int, 0) == GAIN_ONE);
    assert(gain_of_db(0) == GAIN_ONE + GAIN_ONE as int / 2 * 0 / 6);
    if 0 <= db < 53 && db % 6 < 5 {
        let q = db / 6;
        let r = db % 6;
        let v = doublings(GAIN_ONE as int, q);
        lemma_doublings_nonneg(GAIN_ONE as int, q);
        lemma_doublings_even(q);
        assert((db + 1) / 6 == q && (db + 1) % 6 == r + 1);
        assert((db - r) / 6 == q && (db - r) % 6 == 0);
        assert(v / 2 * (r + 1) == v / 2 * r + v / 2) by (nonlinear_arith);
        assert(gain_of_db(db - r) == v + v / 2 * 0 / 6);
        assert(gain_of_db(db) == v + v / 2 * r / 6);
        assert(gain_of_db(db + 1) == v + v / 2 * (r + 1) / 6);
    }
    if -110 < db < 0 && (-db) % 6 > 0 {
        let n = -db;
        let q = n / 6;
        let r = n % 6;
        let v = halvings(GAIN_ONE as int, q);
        lemma_halvings_nonneg(GAIN_ONE as int, q);
        assert((n - 1) / 6 == q && (n - 1) % 6 == r - 1);
        assert((n - r) / 6 == q && (n - r) % 6 == 0);
        assert(v / 2 * r == v / 2 * (r - 1) + v / 2) by (nonlinear_arith);
        assert(gain_of_db(db) == v - v / 2 * r / 6);
        if n == 1 {
            assert(v == GAIN_ONE);
            assert(v / 2 * (r - 1) == 0) by (nonlinear_arith)
                requires
                    r == 1,
            ;
        }
        assert(gain_of_db(db + 1) == v - v / 2 * (r - 1) / 6);
        assert(v / 2 * 0 == 0) by (nonlinear_arith);
        if n == r {
            assert(v == GAIN_ONE);
            assert(gain_of_db(db + r) == v);
        } else {
            assert(gain_of_db(db + r) == v - v / 2 * 0 / 6);
        }
    }
}

/// What a preset sends to the two outputs, in units of unity: each channel to its
/// own output, half of both to both, or one channel to both.
pub proof fn law_presets_route(left: int, right: int)
    ensures
        MixerMode::Stereo.gains().out_left(left, right) == GAIN_ONE * left,
        MixerMode::Stereo.gains().out_right(left, right) == GAIN_ONE * right,
        2 * MixerMode::Mono.gains().out_left(left, right) == GAIN_ONE * left + GAIN_ONE * right,
        2 * MixerMode::Mono.gains().out_right(left, right) == GAIN_ONE * left + GAIN_ONE * right,
        MixerMode::LeftOnly.gains().out_left(left, right) == GAIN_ONE * left,
        MixerMode::LeftOnly.gains().out_right(left, right) == GAIN_ONE * left,
        MixerMode::RightOnly.gains().out_left(left, right) == GAIN_ONE * right,
        MixerMode::RightOnly.gains().out_right(left, right) == GAIN_ONE * right,
        GAIN_ONE == 0x0080_0000,
{
    assert(0 * left == 0 && 0 * right == 0) by (nonlinear_arith);
    assert(0x0040_0000 * left * 2 == 0x0080_0000 * left);
    assert(0x0040_0000 * right * 2 == 0x0080_0000 * right);
    assert(MixerMode::Mono.gains().l2l.0 == 0x0040_0000);
    assert(MixerMode::Mono.gains().r2l.0 == 0x0040_0000);
    assert(MixerMode::Mono.gains().l2r.0 == 0x0040_0000);
    assert(MixerMode::Mono.gains().r2r.0 == 0x0040_0000);
    assert(MixerMode::Stereo.gains().r2r.0 == 0x0080_0000);
    assert(MixerMode::Stereo.gains().l2r.0 == 0);
    assert(MixerMode::Stereo.gains().l2l.0 == 0x0080_0000);
    assert(MixerMode::Stereo.gains().r2l.0 == 0);
}

impl MixerGains {
    /// The left output for two input samples.
    pub open spec fn out_left(self, left: int, right: int) -> int {
        self.l2l.0 * left + self.r2l.0 * right
    }

    /// The right output for two input samples.
    pub open spec fn out_right(self, left: int, right: int) -> int {
        self.l2r.0 * left + self.r2r.0 * right
    }
}

/// The words of a filter are its coefficients b0, b1, b2, a1 and a2, in this
/// order; a passthrough filter has unity (1.0 with 27 fractional bits) and zeros.
pub proof fn law_coefficient_order(c: BiquadCoeffs, i: int)
    ensures
        crate::audio::convert::signed32(c.word(0)) == c.b0,
        crate::audio::convert::signed32(c.word(1)) == c.b1,
        crate::audio::convert::signed32(c.word(2)) == c.b2,
        crate::audio::convert::signed32(c.word(3)) == c.a1,
        crate::audio::convert::signed32(c.word(4)) == c.a2,
        BiquadCoeffs::identity().word(0) == 0x0800_0000,
        1 <= i < 5 ==> BiquadCoeffs::identity().word(i) == 0,
{
}

/// Every gain fits its 32 bits.
pub proof fn lemma_gain_fits(db: int)
    ensures
        0 <= gain_of_db(db) <= u32::MAX,
{
    if db < -110 {
    } else {
        law_gain_monotone(-110, db);
    }
    if db > 53 {
    } else {
        law_gain_monotone(db, 53);
    }
    assert(doublings(GAIN_ONE as int, 0) == 0x80_0000);
    assert(doublings(GAIN_ONE as int, 1) == 0x100_0000);
    assert(doublings(GAIN_ONE as int, 2) == 0x200_0000);
    assert(doublings(GAIN_ONE as int, 3) == 0x400_0000);
    assert(doublings(GAIN_ONE as int, 4) == 0x800_0000);
    assert(doublings(GAIN_ONE as int, 5) == 0x1000_0000);
    assert(doublings(GAIN_ONE as int, 6) == 0x2000_0000);
    assert(doublings(GAIN_ONE as int, 7) == 0x4000_0000);
    assert(doublings(GAIN_ONE as int, 8) == 0x8000_0000);
}

/// The gain of a level: unity at 0 dB, silence up to -110 dB and only there, double
/// for 6 dB more at multiples of 6 dB, and never less for more.
pub proof fn law_levels(low: i16, high: i16, g: Gain923, h: Gain923)
    requires
        low <= high,
        call_ensures(Gain923::from_db, (low,), g),
        call_ensures(Gain923::from_db, (high,), h),
    ensures
        g.0 <= h.0,
        g.0 == 0 <==> low <= -110,
        low == 0 ==> g.0 == 0x0080_0000,
        high == low + 6 && low as int % 6 == 0 && (0 <= low && high <= MAX_GAIN_DB || -110 < low
            && high <= 0) ==> h.0 == 2 * g.0,
{
    law_gain_monotone(low as int, high as int);
    law_gain_of_silence(low as int);
    law_gain_interpolates(0);
    if high == low + 6 && (0 <= low && high <= MAX_GAIN_DB || -110 < low && high <= 0) {
        law_six_db_double(low as int);
    }
}

/// A coefficient is written as its two's complement, b0, b1, b2, a1 and a2 in turn,
/// each with its most significant byte first.
#[verifier::rlimit(60)]
#[verifier::spinoff_prover]
pub proof fn law_coefficient_bytes(c: BiquadCoeffs, i: u8, word: u32, bytes: [u8; 20])
    requires
        i < 5,
        call_ensures(BiquadCoeffs::coeff_word, (&c, i), word),
        call_ensures(BiquadCoeffs::to_bytes, (&c,), bytes),
    ensures
        crate::audio::convert::signed32(word) == if i == 0 {
            c.b0
        } else if i == 1 {
            c.b1
        } else if i == 2 {
            c.b2
        } else if i == 3 {
            c.a1
        } else {
            c.a2
        },
        word == 0x100_0000 * bytes@[4 * i] + 0x1_0000 * bytes@[4 * i + 1] + 0x100 * bytes@[4 * i
            + 2] + bytes@[4 * i + 3],
{
    law_coefficient_order(c, i as int);
    assert((4 * i) / 4 == i && (4 * i + 1) / 4 == i && (4 * i + 2) / 4 == i && (4 * i + 3) / 4
        == i);
    assert((4 * i) % 4 == 0 && (4 * i + 1) % 4 == 1 && (4 * i + 2) % 4 == 2 && (4 * i + 3) % 4
        == 3);
    let w = c.word(i as int);
    lemma_be32_digits(w);
    assert(bytes@[4 * i] == crate::bytes::be32(w)[0]);
    assert(bytes@[4 * i + 1] == crate::bytes::be32(w)[1]);
    assert(bytes@[4 * i + 2] == crate::bytes::be32(w)[2]);
    assert(bytes@[4 * i + 3] == crate::bytes::be32(w)[3]);
}

proof fn lemma_be32_digits(w: u32)
    ensures
        w == 0x100_0000 * crate::bytes::be32(w)[0] + 0x1_0000 * crate::bytes::be32(w)[1] + 0x100
            * crate::bytes::be32(w)[2] + crate::bytes::be32(w)[3],
{
}

/// What each preset routes, in units of unity.
pub proof fn law_preset_gains(mode: MixerMode, m: MixerGains, left: int, right: int)
    requires
        call_ensures(MixerMode::to_gains, (mode,), m),
    ensures
        mode == MixerMode::Stereo ==> m.out_left(left, right) == GAIN_ONE * left && m.out_right(
            left,
            right,
        ) == GAIN_ONE * right,
        mode == MixerMode::Mono ==> 2 * m.out_left(left, right) == GAIN_ONE * left + GAIN_ONE
            * right && m.out_right(left, right) == m.out_left(left, right),
        mode == MixerMode::LeftOnly ==> m.out_left(left, right) == GAIN_ONE * left && m.out_right(
            left,
            right,
        ) == GAIN_ONE * left,
        mode == MixerMode::RightOnly ==> m.out_left(left, right) == GAIN_ONE * right && m.out_right(
            left,
            right,
        ) == GAIN_ONE * right,
{
    law_presets_route(left, right);
}

/// Any bit of the three fault registers is a fault; warnings are told apart.
pub proof fn law_fault_summary(f: FaultStatus, any: bool, warning: bool)
    requires
        call_ensures(FaultStatus::has_fault, (&f,), any),
        call_ensures(FaultStatus::has_ot_warning, (&f,), warning),
    ensures
        !any <==> f.chan_fault == 0 && f.global_fault1 == 0 && f.global_fault2 == 0,
        warning <==> f.ot_warning > 0,
{
}

/// Each fault has its bit: overcurrent and DC of the right channel are the bits worth
/// 1 and 2, of the left one 4 and 8; under- and overvoltage and the clock 1, 2 and 4;
/// the thermal shutdown 1.
pub proof fn law_fault_bits(
    f: FaultStatus,
    right_oc: bool,
    right_dc: bool,
    left_oc: bool,
    left_dc: bool,
    low: bool,
    high: bool,
    clock: bool,
    hot: bool,
)
    requires
        call_ensures(FaultStatus::right_oc, (&f,), right_oc),
        call_ensures(FaultStatus::right_dc, (&f,), right_dc),
        call_ensures(FaultStatus::left_oc, (&f,), left_oc),
        call_ensures(FaultStatus::left_dc, (&f,), left_dc),
        call_ensures(FaultStatus::pvdd_uv, (&f,), low),
        call_ensures(FaultStatus::pvdd_ov, (&f,), high),
        call_ensures(FaultStatus::clock_fault, (&f,), clock),
        call_ensures(FaultStatus::thermal_shutdown, (&f,), hot),
    ensures
        right_oc <==> f.chan_fault % 2 == 1,
        right_dc <==> f.chan_fault / 2 % 2 == 1,
        left_oc <==> f.chan_fault / 4 % 2 == 1,
        left_dc <==> f.chan_fault / 8 % 2 == 1,
        low <==> f.global_fault1 % 2 == 1,
        high <==> f.global_fault1 / 2 % 2 == 1,
        clock <==> f.global_fault1 / 4 % 2 == 1,
        hot <==> f.global_fault2 % 2 == 1,
{
    lemma_single_bits(f.chan_fault);
    lemma_single_bits(f.global_fault1);
    lemma_single_bits(f.global_fault2);
}

proof fn lemma_single_bits(b: u8)
    ensures
        b & (1u8 << 0) != 0 <==> b % 2 == 1,
        b & (1u8 << 1) != 0 <==> b / 2 % 2 == 1,
        b & (1u8 << 2) != 0 <==> b / 4 % 2 == 1,
        b & (1u8 << 3) != 0 <==> b / 8 % 2 == 1,
{
    assert((b & (1u8 << 0) != 0 <==> b % 2 == 1) && (b & (1u8 << 1) != 0 <==> b / 2 % 2 == 1) && (b
        & (1u8 << 2) != 0 <==> b / 4 % 2 == 1) && (b & (1u8 << 3) != 0 <==> b / 8 % 2 == 1))
        by (bit_vector);
}

} // verus!
