//! I2S clocking with dynamic sample rate and adaptive clock.
//!
//! - [`calculate_clock_divider`] gives the divider for a sample rate
//! - [`I2sTx::set_sample_rate`] reconfigures for a new sample rate
//! - [`I2sTx::adjust_clock`] moves the clock by one divider step, to control
//!   the level of the ring buffer
//!
//! Format: 32-bit stereo I2S, 64 bit clocks per frame.

use vstd::prelude::*;

verus! {

/// Stereo audio sample (left in the upper 32 bits, right in the lower).
pub type StereoSample = u64;

/// One step of the divider's fraction in the register (int in bits 31 to 16,
/// fraction in bits 15 to 8).
pub const CLKDIV_STEP: u32 = 0x100;

/// Clock speed adjustment for adaptive rate matching.
#[derive(Debug, Clone, Copy, PartialEq, Eq, Structural)]
pub enum ClockSpeed {
    /// Slow down output (buffer low).
    Slow,
    /// Normal speed.
    Normal,
    /// Speed up output (buffer high).
    Fast,
}

/// The state machine runs two instructions per bit clock, and a frame has 64 bit
/// clocks.
pub const CYCLES_PER_FRAME: u32 = 128;

/// The integer nearest to `n / d`; of two equally near ones, the even one.
pub open spec fn nearest(n: int, d: int) -> int {
    let below = n / d;
    let rest = n % d;
    if 2 * rest < d || (2 * rest == d && below % 2 == 0) {
        below
    } else {
        below + 1
    }
}

/// Whether a divider with 24 integer bits leads from the system clock to the
/// sample rate.
pub open spec fn has_divider(sample_rate: u32, sys_freq: u32) -> bool {
    sample_rate > 1 || (sample_rate == 1 && sys_freq < 0x8000_0000)
}

/// The divider from the system clock to the sample rate, with 8 fractional bits.
pub open spec fn divider(sample_rate: u32, sys_freq: u32) -> u32 {
    nearest(sys_freq * 0x100, sample_rate * CYCLES_PER_FRAME) as u32
}

proof fn lemma_divider_fits(sample_rate: u32, sys_freq: u32)
    requires
        has_divider(sample_rate, sys_freq),
    ensures
        0 <= nearest(sys_freq * 0x100, sample_rate * CYCLES_PER_FRAME) <= u32::MAX,
{
    let n = sys_freq * 0x100;
    let d = sample_rate * CYCLES_PER_FRAME;
    vstd::arithmetic::div_mod::lemma_fundamental_div_mod(n, d);
    let below = n / d;
    let rest = n % d;
    assert(n == d * below + rest);
    assert(0 <= rest < d);
    let top: int = if sample_rate == 1 {
        0xFFFF_FFFE
    } else {
        u32::MAX as int
    };
    assert(n <= d * top) by (nonlinear_arith)
        requires
            n == sys_freq * 0x100,
            d == sample_rate * 128,
            sample_rate >= 2 && top == 0xFFFF_FFFF || sample_rate == 1 && sys_freq <= 0x7FFF_FFFF
                && top == 0xFFFF_FFFE,
            0 <= sys_freq <= 0xFFFF_FFFF,
    ;
    assert(0 <= below <= top && (below == top ==> rest == 0)) by (nonlinear_arith)
        requires
            n == d * below + rest,
            0 <= rest < d,
            0 <= n <= d * top,
    ;
}

/// Divider of the state machine's clock for a sample rate, with 8 fractional
/// bits; the same for the transmitter and the receiver.
pub fn calculate_clock_divider(sample_rate: u32, sys_freq: u32) -> (divider_bits: u32)
    requires
        has_divider(sample_rate, sys_freq),
    ensures
        divider_bits == nearest(sys_freq * 0x100, sample_rate * CYCLES_PER_FRAME),
        divider_bits == divider(sample_rate, sys_freq),
{
    proof {
        lemma_divider_fits(sample_rate, sys_freq);
    }
    let pio_freq: u64 = sample_rate as u64 * CYCLES_PER_FRAME as u64;
    let scaled: u64 = sys_freq as u64 * 0x100;
    let below: u64 = scaled / pio_freq;
    let rest: u64 = scaled % pio_freq;
    if 2 * rest < pio_freq || (2 * rest == pio_freq && below % 2 == 0) {
        below as u32
    } else {
        (below + 1) as u32
    }
}

/// Register value of a divider with 8 fractional bits.
pub open spec fn divider_register(divider_bits: u32) -> u32 {
    (divider_bits * 0x100 % 0x1_0000_0000) as u32
}

/// Register value that runs the clock at `speed` around the `nominal` one.
pub open spec fn register_at(nominal: u32, speed: ClockSpeed) -> u32 {
    match speed {
        ClockSpeed::Normal => nominal,
        ClockSpeed::Fast => if nominal < CLKDIV_STEP {
            0
        } else {
            (nominal - CLKDIV_STEP) as u32
        },
        ClockSpeed::Slow => if nominal > u32::MAX - CLKDIV_STEP {
            u32::MAX
        } else {
            (nominal + CLKDIV_STEP) as u32
        },
    }
}

/// Clock state of the I2S transmitter.
pub struct I2sTx {
    sample_rate: u32,
    clkdiv_normal: u32,
    clkdiv_fast: u32,
    clkdiv_slow: u32,
    current_speed: ClockSpeed,
}

impl I2sTx {
    pub closed spec fn wf(self) -> bool {
        &&& self.clkdiv_fast == register_at(self.clkdiv_normal, ClockSpeed::Fast)
        &&& self.clkdiv_slow == register_at(self.clkdiv_normal, ClockSpeed::Slow)
    }

    pub closed spec fn rate(self) -> u32 {
        self.sample_rate
    }

    /// Register value at normal speed.
    pub closed spec fn nominal(self) -> u32 {
        self.clkdiv_normal
    }

    pub closed spec fn speed(self) -> ClockSpeed {
        self.current_speed
    }

    /// A transmitter at normal speed; `sys_freq` is the system clock.
    pub fn new(sample_rate: u32, sys_freq: u32) -> (tx: Self)
        requires
            has_divider(sample_rate, sys_freq),
        ensures
            tx.wf(),
            tx.rate() == sample_rate,
            tx.nominal() == divider_register(divider(sample_rate, sys_freq)),
            tx.speed() == ClockSpeed::Normal,
    {
        let divider_bits: u32 = calculate_clock_divider(sample_rate, sys_freq);
        let clkdiv_normal: u32 = divider_bits % 0x100_0000 * 0x100;
        I2sTx {
            sample_rate,
            clkdiv_normal,
            clkdiv_fast: clkdiv_normal.saturating_sub(CLKDIV_STEP),
            clkdiv_slow: clkdiv_normal.saturating_add(CLKDIV_STEP),
            current_speed: ClockSpeed::Normal,
        }
    }

    /// Reconfigures for a new sample rate; `sys_freq` is the system clock.
    /// Returns whether the rate was changed, and so the register has to be
    /// written.
    pub fn set_sample_rate(&mut self, sample_rate: u32, sys_freq: u32) -> (changed: bool)
        requires
            old(self).wf(),
            old(self).rate() != sample_rate ==> has_divider(sample_rate, sys_freq),
        ensures
            final(self).wf(),
            changed == (old(self).rate() != sample_rate),
            !changed ==> *final(self) == *old(self),
            changed ==> final(self).rate() == sample_rate && final(self).nominal()
                == divider_register(divider(sample_rate, sys_freq)) && final(self).speed()
                == ClockSpeed::Normal,
    {
        if self.sample_rate == sample_rate {
            return false;
        }
        *self = I2sTx::new(sample_rate, sys_freq);
        true
    }

    pub fn sample_rate(&self) -> (rate: u32)
        ensures
            rate == self.rate(),
    {
        self.sample_rate
    }

    /// Adjusts the clock speed. Returns whether it changed, and so the register
    /// has to be written.
    pub fn adjust_clock(&mut self, speed: ClockSpeed) -> (changed: bool)
        requires
            old(self).wf(),
        ensures
            final(self).wf(),
            changed == (old(self).speed() != speed),
            final(self).rate() == old(self).rate(),
            final(self).nominal() == old(self).nominal(),
            final(self).speed() == speed,
    {
        if speed == self.current_speed {
            return false;
        }
        self.current_speed = speed;
        true
    }

    /// The value of the clock divider register.
    pub fn clkdiv(&self) -> (register: u32)
        requires
            self.wf(),
        ensures
            register == register_at(self.nominal(), self.speed()),
    {
        match self.current_speed {
            ClockSpeed::Slow => self.clkdiv_slow,
            ClockSpeed::Normal => self.clkdiv_normal,
            ClockSpeed::Fast => self.clkdiv_fast,
        }
    }
}

/// The divided clock meets the sample rate as closely as 8 fractional bits
/// allow: within half a step of the divider.
pub proof fn law_divider_is_close(sample_rate: u32, sys_freq: u32)
    requires
        has_divider(sample_rate, sys_freq),
    ensures
        -sample_rate * CYCLES_PER_FRAME <= 2 * (divider(sample_rate, sys_freq) * (sample_rate
            * CYCLES_PER_FRAME) - sys_freq * 0x100) <= sample_rate * CYCLES_PER_FRAME,
{
    lemma_divider_fits(sample_rate, sys_freq);
    let n = sys_freq * 0x100;
    let d = sample_rate * CYCLES_PER_FRAME;
    vstd::arithmetic::div_mod::lemma_fundamental_div_mod(n, d);
    vstd::arithmetic::mul::lemma_mul_is_commutative(d, n / d);
    vstd::arithmetic::mul::lemma_mul_is_distributive_add(d, n / d, 1);
    vstd::arithmetic::mul::lemma_mul_is_commutative(d, n / d + 1);
}

/// A higher sample rate never has a larger divider.
pub proof fn law_divider_falls_with_rate(low: u32, high: u32, sys_freq: u32)
    requires
        low <= high,
        has_divider(low, sys_freq),
    ensures
        divider(high, sys_freq) <= divider(low, sys_freq),
{
    lemma_divider_fits(low, sys_freq);
    lemma_divider_fits(high, sys_freq);
    law_divider_is_close(low, sys_freq);
    law_divider_is_close(high, sys_freq);
    let n = sys_freq * 0x100;
    let d = low * CYCLES_PER_FRAME;
    let e = high * CYCLES_PER_FRAME;
    let a = divider(low, sys_freq) as int;
    let b = divider(high, sys_freq) as int;
    if a < b {
        // Both dividers would be half a step away, which rounds to the even one.
        assert(b == a + 1 && d == e) by (nonlinear_arith)
            requires
                0 < d <= e,
                0 <= n,
                0 <= a < b,
                2 * (a * d - n) >= -d,
                2 * (b * e - n) <= e,
        ;
    }
}

/// A larger divider is a slower clock: the three speeds are ordered around the
/// nominal one, one step apart.
pub proof fn law_speeds_ordered(nominal: u32)
    requires
        CLKDIV_STEP <= nominal <= u32::MAX - CLKDIV_STEP,
    ensures
        register_at(nominal, ClockSpeed::Fast) + CLKDIV_STEP == register_at(
            nominal,
            ClockSpeed::Normal,
        ),
        register_at(nominal, ClockSpeed::Normal) + CLKDIV_STEP == register_at(
            nominal,
            ClockSpeed::Slow,
        ),
{
}

/// The register holds the integer part of the divider in its upper half and the
/// fraction, in 256 parts, below it.
pub proof fn law_register_fields(divider_bits: u32)
    requires
        divider_bits < 0x100_0000,
    ensures
        divider_register(divider_bits) / 0x1_0000 == divider_bits / 0x100,
        divider_register(divider_bits) / 0x100 % 0x100 == divider_bits % 0x100,
        divider_register(divider_bits) % 0x100 == 0,
{
}

/// Fast is never slower than normal, nor normal slower than slow; the speeds are
/// no more than one step apart, and only the ends of the range bring them closer.
pub proof fn law_speed_registers(nominal: u32)
    ensures
        register_at(nominal, ClockSpeed::Normal) == nominal,
        register_at(nominal, ClockSpeed::Fast) <= nominal <= register_at(
            nominal,
            ClockSpeed::Slow,
        ),
        nominal - register_at(nominal, ClockSpeed::Fast) <= 0x100,
        register_at(nominal, ClockSpeed::Slow) - nominal <= 0x100,
        nominal - register_at(nominal, ClockSpeed::Fast) == 0x100 || register_at(
            nominal,
            ClockSpeed::Fast,
        ) == 0,
        register_at(nominal, ClockSpeed::Slow) - nominal == 0x100 || register_at(
            nominal,
            ClockSpeed::Slow,
        ) == u32::MAX,
{
}

/// The state machine needs 128 cycles for a frame: the divider, in 256 parts,
/// times the sample rate is twice the system clock but for the rounding, and a
/// divider half-way between two steps is even.
pub proof fn law_divider_meets_rate(sample_rate: u32, sys_freq: u32)
    requires
        has_divider(sample_rate, sys_freq),
    ensures
        -(sample_rate as int) <= 2 * (divider(sample_rate, sys_freq) * sample_rate - 2 * sys_freq)
            <= sample_rate,
        2 * (divider(sample_rate, sys_freq) * sample_rate - 2 * sys_freq) == sample_rate || 2 * (
        divider(sample_rate, sys_freq) * sample_rate - 2 * sys_freq) == -(sample_rate as int)
            ==> divider(sample_rate, sys_freq) % 2 == 0,
{
    lemma_divider_fits(sample_rate, sys_freq);
    law_divider_is_close(sample_rate, sys_freq);
    let n = sys_freq * 0x100;
    let d = sample_rate * CYCLES_PER_FRAME;
    let b = divider(sample_rate, sys_freq) as int;
    let r = sample_rate as int;
    vstd::arithmetic::div_mod::lemma_fundamental_div_mod(n, d);
    assert(b * (r * 128) == 128 * (b * r)) by (nonlinear_arith);
    let q = n / d;
    let x = n % d;
    assert(n == d * q + x);
    assert(q * (r * 128) == d * q) by (nonlinear_arith)
        requires
            d == r * 128,
    ;
    assert((q + 1) * (r * 128) == d * q + d) by (nonlinear_arith)
        requires
            d == r * 128,
    ;
}

/// The divider that is computed meets the sample rate within half a step.
pub proof fn law_computed_divider(sample_rate: u32, sys_freq: u32, divider_bits: u32)
    requires
        has_divider(sample_rate, sys_freq),
        call_ensures(calculate_clock_divider, (sample_rate, sys_freq), divider_bits),
    ensures
        -(sample_rate as int) <= 2 * (divider_bits * sample_rate - 2 * sys_freq) <= sample_rate,
{
    law_divider_meets_rate(sample_rate, sys_freq);
}

/// A transmitter starts at the nominal clock of its rate, and so does one whose
/// rate changes; asking for the rate it has changes nothing.
pub proof fn law_rates_are_set(
    sample_rate: u32,
    sys_freq: u32,
    started: I2sTx,
    tx: &mut I2sTx,
    changed: bool,
)
    requires
        has_divider(sample_rate, sys_freq),
        old(tx).wf(),
        call_ensures(I2sTx::new, (sample_rate, sys_freq), started),
        call_ensures(I2sTx::set_sample_rate, (tx, sample_rate, sys_freq), changed),
    ensures
        started.rate() == sample_rate && started.speed() == ClockSpeed::Normal,
        changed <==> old(tx).rate() != sample_rate,
        final(tx).rate() == sample_rate,
        changed ==> final(tx).nominal() == started.nominal() && final(tx).speed()
            == ClockSpeed::Normal,
        !changed ==> *final(tx) == *old(tx),
        started.nominal() / 0x100 == divider(sample_rate, sys_freq) || divider(
            sample_rate,
            sys_freq,
        ) >= 0x100_0000,
{
    let bits = divider(sample_rate, sys_freq);
    if bits < 0x100_0000 {
        law_register_fields(bits);
        assert(bits == 0x100 * (bits / 0x100) + bits % 0x100);
    }
}

/// Adjusting the clock sets its speed and says whether that is a change; the
/// register is the nominal one, a step above it or a step below it.
pub proof fn law_adjusting(tx: &mut I2sTx, speed: ClockSpeed, changed: bool, t: I2sTx, register: u32)
    requires
        old(tx).wf(),
        t.wf(),
        0x100 <= t.nominal() <= u32::MAX - 0x100,
        call_ensures(I2sTx::adjust_clock, (tx, speed), changed),
        call_ensures(I2sTx::clkdiv, (&t,), register),
    ensures
        final(tx).speed() == speed,
        changed <==> speed != old(tx).speed(),
        final(tx).rate() == old(tx).rate() && final(tx).nominal() == old(tx).nominal(),
        t.speed() == ClockSpeed::Normal ==> register == t.nominal(),
        t.speed() == ClockSpeed::Fast ==> register == t.nominal() - 0x100,
        t.speed() == ClockSpeed::Slow ==> register == t.nominal() + 0x100,
{
    law_speed_registers(t.nominal());
}

} // verus!
