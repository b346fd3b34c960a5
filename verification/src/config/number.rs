//! Numbers in text.

use vstd::prelude::*;

use crate::drivers::tas5830::Decimal;

verus! {

pub open spec fn is_digit(b: u8) -> bool {
    0x30 <= b <= 0x39
}

/// All bytes are decimal digits.
pub open spec fn all_digits(s: Seq<u8>) -> bool {
    forall|i: int| 0 <= i < s.len() ==> is_digit(#[trigger] s[i])
}

/// The value of a sequence of decimal digits, 0 for an empty one.
pub open spec fn digits_value(s: Seq<u8>) -> nat
    decreases s.len(),
{
    if s.len() == 0 {
        0
    } else {
        digits_value(s.drop_last()) * 10 + (s.last() - 0x30) as nat
    }
}

pub open spec fn pow10(n: nat) -> nat
    decreases n,
{
    if n == 0 {
        1
    } else {
        10 * pow10((n - 1) as nat)
    }
}

/// The unsigned number in `s`, if it is one and not above `limit`.
pub open spec fn unsigned_in(s: Seq<u8>, limit: nat) -> Option<nat> {
    if s.len() > 0 && all_digits(s) && digits_value(s) <= limit {
        Some(digits_value(s))
    } else {
        None
    }
}

/// Position of the first `b` in `s` from `from` on, or the length.
pub open spec fn position_of(s: Seq<u8>, b: u8, from: int) -> int
    decreases s.len() - from,
{
    if from >= s.len() || s[from] == b {
        from
    } else {
        position_of(s, b, from + 1)
    }
}

/// `s` starts with a minus sign.
pub open spec fn is_negative(s: Seq<u8>) -> bool {
    s.len() > 0 && s[0] == 0x2D
}

/// `s` without its minus sign.
pub open spec fn magnitude(s: Seq<u8>) -> Seq<u8> {
    if is_negative(s) {
        s.skip(1)
    } else {
        s
    }
}

/// The digits before the decimal point.
pub open spec fn whole_part(s: Seq<u8>) -> Seq<u8> {
    s.take(position_of(s, 0x2E, 0))
}

/// The digits behind the decimal point.
pub open spec fn fraction_part(s: Seq<u8>) -> Seq<u8> {
    let dot = position_of(s, 0x2E, 0);
    if dot < s.len() {
        s.skip(dot + 1)
    } else {
        Seq::empty()
    }
}

/// The signed number in `s`, truncated at its decimal point, if it fits 16
/// bits.
pub open spec fn signed16_in(s: Seq<u8>) -> Option<int> {
    let whole = whole_part(magnitude(s));
    let v = if is_negative(s) {
        -(digits_value(whole) as int)
    } else {
        digits_value(whole) as int
    };
    if s.len() > 0 && all_digits(whole) && i16::MIN <= v <= i16::MAX {
        Some(v)
    } else {
        None
    }
}

/// `v`, or the largest 32-bit number if it is above that.
pub open spec fn limited32(v: nat) -> u32 {
    if v <= u32::MAX {
        v as u32
    } else {
        u32::MAX
    }
}

/// The first nine digits of a fraction: their power of ten fits 32 bits.
pub open spec fn leading(fraction: Seq<u8>) -> Seq<u8> {
    if fraction.len() <= 9 {
        fraction
    } else {
        fraction.take(9)
    }
}

/// The decimal number in `s`: digits with at most one decimal point among
/// them, of any length. Of the fraction nine digits count, and a whole part
/// beyond 32 bits becomes the largest one.
pub open spec fn decimal_in(s: Seq<u8>) -> Option<Decimal> {
    let whole = whole_part(magnitude(s));
    let fraction = fraction_part(magnitude(s));
    if s.len() > 0 && all_digits(whole) && all_digits(fraction) {
        Some(
            Decimal {
                negative: is_negative(s),
                integer: limited32(digits_value(whole)),
                fraction: digits_value(leading(fraction)) as u32,
                divisor: pow10(leading(fraction).len()) as u32,
            },
        )
    } else {
        None
    }
}

pub open spec fn hex_value(b: u8) -> Option<u8> {
    if 0x30 <= b <= 0x39 {
        Some((b - 0x30) as u8)
    } else if 0x61 <= b <= 0x66 {
        Some((b - 0x61 + 10) as u8)
    } else if 0x41 <= b <= 0x46 {
        Some((b - 0x41 + 10) as u8)
    } else {
        None
    }
}

/// `s` without its `0x`.
pub open spec fn without_0x(s: Seq<u8>) -> Seq<u8> {
    if s.len() >= 2 && s[0] == 0x30 && (s[1] == 0x78 || s[1] == 0x58) {
        s.skip(2)
    } else {
        s
    }
}

/// The byte written as one or two hexadecimal digits.
pub open spec fn hex_in(s: Seq<u8>) -> Option<u8> {
    let h = without_0x(s);
    if h.len() == 1 {
        hex_value(h[0])
    } else if h.len() == 2 {
        match (hex_value(h[0]), hex_value(h[1])) {
            (Some(high), Some(low)) => Some((high * 16 + low) as u8),
            _ => None,
        }
    } else {
        None
    }
}

/// More digits never make a smaller number.
proof fn lemma_value_grows(s: Seq<u8>, n: int)
    requires
        0 <= n <= s.len(),
        all_digits(s),
    ensures
        digits_value(s.take(n)) <= digits_value(s),
    decreases s.len(),
{
    if n == s.len() {
        assert(s.take(n) =~= s);
    } else {
        let t = s.drop_last();
        assert(all_digits(t)) by {
            assert forall|i: int| 0 <= i < t.len() implies is_digit(#[trigger] t[i]) by {
                assert(is_digit(s[i]));
            }
        }
        lemma_value_grows(t, n);
        assert(t.take(n) =~= s.take(n));
        assert(is_digit(s[s.len() - 1]));
    }
}

proof fn lemma_value_push(s: Seq<u8>, n: int)
    requires
        0 <= n < s.len(),
    ensures
        digits_value(s.take(n + 1)) == digits_value(s.take(n)) * 10 + (s[n] - 0x30) as nat,
{
    assert(s.take(n + 1).drop_last() =~= s.take(n));
}

/// `n` digits make a number below the `n`-th power of ten.
proof fn lemma_value_bound(s: Seq<u8>)
    requires
        all_digits(s),
    ensures
        digits_value(s) < pow10(s.len()),
    decreases s.len(),
{
    if s.len() > 0 {
        let t = s.drop_last();
        assert(all_digits(t)) by {
            assert forall|i: int| 0 <= i < t.len() implies is_digit(#[trigger] t[i]) by {
                assert(is_digit(s[i]));
            }
        }
        lemma_value_bound(t);
        assert(is_digit(s[s.len() - 1]));
    }
}

proof fn lemma_pow10_nine(n: nat)
    ensures
        n <= 9 ==> pow10(n) <= 1_000_000_000,
        pow10(n) >= 1,
    decreases n,
{
    reveal_with_fuel(pow10, 10);
    if n > 9 {
        lemma_pow10_nine((n - 1) as nat);
    }
}

pub proof fn lemma_position(s: Seq<u8>, b: u8, from: int)
    requires
        0 <= from <= s.len(),
    ensures
        from <= position_of(s, b, from) <= s.len(),
        forall|i: int| from <= i < position_of(s, b, from) ==> s[i] != b,
        position_of(s, b, from) < s.len() ==> s[position_of(s, b, from)] == b,
    decreases s.len() - from,
{
    if from < s.len() && s[from] != b {
        lemma_position(s, b, from + 1);
    }
}

/// Finds the first `b` in `s`; the length if there is none.
pub fn find(s: &[u8], b: u8) -> (at: usize)
    ensures
        at == position_of(s@, b, 0),
        at <= s@.len(),
        at < s@.len() ==> s@[at as int] == b,
        forall|i: int| 0 <= i < at ==> s@[i] != b,
{
    let mut i: usize = 0;
    while i < s.len() && s[i] != b
        invariant
            i <= s@.len(),
            forall|j: int| 0 <= j < i ==> s@[j] != b,
            position_of(s@, b, 0) == position_of(s@, b, i as int),
        decreases s@.len() - i,
    {
        i = i + 1;
    }
    i
}

/// The value of digits if it does not exceed `limit`; `None` also if a byte is
/// not a digit.
fn digits(s: &[u8], limit: u32) -> (v: Option<u32>)
    ensures
        match v {
            Some(v) => all_digits(s@) && v == digits_value(s@) && v <= limit,
            None => !(all_digits(s@) && digits_value(s@) <= limit),
        },
{
    let mut result: u64 = 0;
    let mut i: usize = 0;
    assert(s@.take(0) =~= Seq::empty());
    while i < s.len()
        invariant
            i <= s@.len(),
            result == digits_value(s@.take(i as int)),
            result <= limit,
            forall|j: int| 0 <= j < i ==> is_digit(#[trigger] s@[j]),
        decreases s@.len() - i,
    {
        let b: u8 = s[i];
        if b < 0x30 || b > 0x39 {
            assert(!is_digit(s@[i as int]));
            return None;
        }
        proof {
            lemma_value_push(s@, i as int);
        }
        result = result * 10 + (b - 0x30) as u64;
        i = i + 1;
        if result > limit as u64 {
            proof {
                if all_digits(s@) {
                    lemma_value_grows(s@, i as int);
                }
            }
            return None;
        }
    }
    assert(s@.take(i as int) =~= s@);
    Some(result as u32)
}

/// Whether all bytes are digits.
fn are_digits(s: &[u8]) -> (yes: bool)
    ensures
        yes == all_digits(s@),
{
    let mut i: usize = 0;
    while i < s.len()
        invariant
            i <= s@.len(),
            forall|j: int| 0 <= j < i ==> is_digit(#[trigger] s@[j]),
        decreases s@.len() - i,
    {
        if s[i] < 0x30 || s[i] > 0x39 {
            assert(!is_digit(s@[i as int]));
            return false;
        }
        i = i + 1;
    }
    true
}

/// Parses a decimal number as a `u32`.
pub fn parse_u32(s: &[u8]) -> (v: Option<u32>)
    ensures
        match v {
            Some(v) => unsigned_in(s@, u32::MAX as nat) == Some(v as nat),
            None => unsigned_in(s@, u32::MAX as nat) is None,
        },
{
    if s.len() == 0 {
        return None;
    }
    digits(s, u32::MAX)
}

/// Parses a decimal number as a `u8`.
pub fn parse_u8(s: &[u8]) -> (v: Option<u8>)
    ensures
        match v {
            Some(v) => unsigned_in(s@, 255) == Some(v as nat),
            None => unsigned_in(s@, 255) is None,
        },
{
    match parse_u32(s) {
        Some(v) => if v <= 255 {
            Some(v as u8)
        } else {
            None
        },
        None => None,
    }
}

fn strip_minus(s: &[u8]) -> (body: &[u8])
    ensures
        body@ == magnitude(s@),
{
    if s.len() > 0 && s[0] == 0x2D {
        let body: &[u8] = &s[1..s.len()];
        assert(body@ =~= s@.skip(1));
        body
    } else {
        s
    }
}

/// Parses a number as an `i16`. A decimal part is truncated, whatever it
/// holds (`-24.5` is -24).
pub fn parse_i16(s: &[u8]) -> (v: Option<i16>)
    ensures
        match v {
            Some(v) => signed16_in(s@) == Some(v as int),
            None => signed16_in(s@) is None,
        },
{
    if s.len() == 0 {
        return None;
    }
    let neg: bool = s[0] == 0x2D;
    let body: &[u8] = strip_minus(s);
    let dot: usize = find(body, 0x2E);
    let whole: &[u8] = &body[0..dot];
    assert(whole@ =~= whole_part(magnitude(s@)));
    match digits(whole, 32768) {
        Some(v) => if neg {
            Some((-(v as i32)) as i16)
        } else if v <= 32767 {
            Some(v as i16)
        } else {
            None
        },
        None => None,
    }
}

/// Parses a decimal number such as `123`, `1.5` or `-3.14`. There is no
/// scientific notation.
pub fn parse_decimal(s: &[u8]) -> (v: Option<Decimal>)
    ensures
        v == decimal_in(s@),
{
    if s.len() == 0 {
        return None;
    }
    let negative: bool = s[0] == 0x2D;
    let body: &[u8] = strip_minus(s);
    let dot: usize = find(body, 0x2E);
    let whole: &[u8] = &body[0..dot];
    assert(whole@ =~= whole_part(magnitude(s@)));
    let fraction: &[u8] = if dot < body.len() {
        &body[dot + 1..body.len()]
    } else {
        &body[dot..dot]
    };
    assert(fraction@ =~= fraction_part(magnitude(s@)));
    if !are_digits(whole) || !are_digits(fraction) {
        return None;
    }
    let integer: u32 = match digits(whole, u32::MAX) {
        Some(v) => v,
        None => u32::MAX,
    };
    let count: usize = if fraction.len() < 9 {
        fraction.len()
    } else {
        9
    };
    let head: &[u8] = &fraction[0..count];
    assert(head@ =~= leading(fraction@));
    proof {
        assert forall|i: int| 0 <= i < head@.len() implies is_digit(#[trigger] head@[i]) by {
            assert(is_digit(fraction@[i]));
        }
        lemma_pow10_nine(head@.len());
        lemma_value_bound(head@);
    }
    let numerator: u32 = match digits(head, u32::MAX) {
        Some(v) => v,
        None => return None,
    };
    let mut divisor: u32 = 1;
    let mut i: usize = 0;
    while i < count
        invariant
            i <= count <= 9,
            divisor == pow10(i as nat),
        decreases count - i,
    {
        i = i + 1;
        proof {
            lemma_pow10_nine(i as nat);
        }
        divisor = divisor * 10;
    }
    Some(Decimal { negative, integer, fraction: numerator, divisor })
}

fn hex_digit(b: u8) -> (v: Option<u8>)
    ensures
        v == hex_value(b),
        v matches Some(v) ==> v < 16,
{
    if b >= 0x30 && b <= 0x39 {
        Some(b - 0x30)
    } else if b >= 0x61 && b <= 0x66 {
        Some(b - 0x61 + 10)
    } else if b >= 0x41 && b <= 0x46 {
        Some(b - 0x41 + 10)
    } else {
        None
    }
}

/// Parses a hexadecimal byte such as `0x2A`, `2A` or `2a`.
pub fn parse_hex_u8(s: &[u8]) -> (v: Option<u8>)
    ensures
        v == hex_in(s@),
{
    let start: usize = if s.len() >= 2 && s[0] == 0x30 && (s[1] == 0x78 || s[1] == 0x58) {
        2
    } else {
        0
    };
    assert(without_0x(s@) =~= s@.skip(start as int));
    let len: usize = s.len() - start;
    if len == 0 || len > 2 {
        return None;
    }
    let first: u8 = match hex_digit(s[start]) {
        Some(v) => v,
        None => return None,
    };
    if len == 1 {
        return Some(first);
    }
    match hex_digit(s[start + 1]) {
        Some(v) => Some(first * 16 + v),
        None => None,
    }
}

/// The text of a number: its decimal digits.
pub open spec fn text_of(n: nat) -> Seq<u8>
    decreases n,
{
    if n < 10 {
        seq![(0x30 + n) as u8]
    } else {
        text_of(n / 10).push((0x30 + n % 10) as u8)
    }
}

/// A number that was written down is read back.
pub proof fn law_numbers_read_back(n: nat)
    ensures
        text_of(n).len() > 0,
        all_digits(text_of(n)),
        digits_value(text_of(n)) == n,
        unsigned_in(text_of(n), n) == Some(n),
        n > 0 ==> unsigned_in(text_of(n), (n - 1) as nat) is None,
    decreases n,
{
    if n < 10 {
        assert(text_of(n).drop_last() =~= Seq::empty());
        assert(digits_value(Seq::empty()) == 0);
        assert(digits_value(text_of(n)) == digits_value(text_of(n).drop_last()) * 10 + (text_of(
            n,
        ).last() - 0x30) as nat);
    } else {
        law_numbers_read_back(n / 10);
        let head = text_of(n / 10);
        assert(text_of(n).drop_last() =~= head);
        assert forall|i: int| 0 <= i < text_of(n).len() implies is_digit(
            #[trigger] text_of(n)[i],
        ) by {
            if i < head.len() {
                assert(is_digit(head[i]));
            }
        }
    }
}

/// Digits count by their places: what stands in front is worth a power of ten
/// for every digit behind it.
pub proof fn law_places(a: Seq<u8>, b: Seq<u8>, d: u8)
    ensures
        digits_value(a + b) == digits_value(a) * pow10(b.len()) + digits_value(b),
        is_digit(d) ==> digits_value(seq![d]) == d - 0x30,
        is_digit(d) <==> 48 <= d <= 57,
        digits_value(Seq::<u8>::empty()) == 0,
        pow10(0) == 1,
        pow10(b.len() + 1) == 10 * pow10(b.len()),
    decreases b.len(),
{
    assert(seq![d].drop_last() =~= Seq::empty());
    assert(digits_value(Seq::<u8>::empty()) == 0);
    assert(digits_value(seq![d]) == digits_value(seq![d].drop_last()) * 10 + (d - 0x30) as nat);
    if b.len() == 0 {
        assert(a + b =~= a);
        assert(digits_value(a) * 1 == digits_value(a));
    } else {
        law_places(a, b.drop_last(), d);
        assert((a + b).drop_last() =~= a + b.drop_last());
        let x = digits_value(a);
        let p = pow10((b.len() - 1) as nat);
        let y = digits_value(b.drop_last());
        assert((x * p + y) * 10 == x * (10 * p) + y * 10) by (nonlinear_arith);
    }
}

/// Signed numbers: a text of digits is its value, with a minus sign its opposite,
/// within 16 bits; whatever follows a decimal point is cut off.
pub proof fn law_signed_numbers(n: nat, rest: Seq<u8>)
    ensures
        n <= 32767 ==> signed16_in(text_of(n)) == Some(n as int),
        n > 32767 ==> signed16_in(text_of(n)) is None,
        n <= 32768 ==> signed16_in(seq![0x2Du8] + text_of(n)) == Some(-(n as int)),
        n > 32768 ==> signed16_in(seq![0x2Du8] + text_of(n)) is None,
        signed16_in(text_of(n) + seq![0x2Eu8] + rest) == signed16_in(text_of(n)),
        signed16_in(seq![0x2Du8] + (text_of(n) + seq![0x2Eu8] + rest)) == signed16_in(
            seq![0x2Du8] + text_of(n),
        ),
{
    law_numbers_read_back(n);
    let t = text_of(n);
    let dotted = t + seq![0x2Eu8] + rest;
    assert(is_digit(t[0]));
    lemma_no_point(t);
    lemma_point_behind(t, rest);
    assert((seq![0x2Du8] + t).skip(1) =~= t);
    assert((seq![0x2Du8] + dotted).skip(1) =~= dotted);
    assert(t.take(t.len() as int) =~= t);
    assert(dotted.take(t.len() as int) =~= t);
    assert(dotted[0] == t[0]);
}

/// Digits hold no decimal point.
proof fn lemma_no_point(s: Seq<u8>)
    requires
        all_digits(s),
    ensures
        position_of(s, 0x2E, 0) == s.len(),
{
    lemma_position(s, 0x2E, 0);
    let at = position_of(s, 0x2E, 0);
    if at < s.len() {
        assert(is_digit(s[at]));
    }
}

proof fn lemma_point_behind(s: Seq<u8>, rest: Seq<u8>)
    requires
        all_digits(s),
    ensures
        position_of(s + seq![0x2Eu8] + rest, 0x2E, 0) == s.len(),
{
    let whole = s + seq![0x2Eu8] + rest;
    lemma_position(whole, 0x2E, 0);
    let at = position_of(whole, 0x2E, 0);
    assert(whole[s.len() as int] == 0x2E);
    if at < s.len() {
        assert(is_digit(s[at]));
        assert(whole[at] == s[at]);
    }
}

/// Decimal numbers: the digits before the point are the whole part, those behind
/// it the fraction, which is less than one; without a point the fraction is zero,
/// and a minus sign changes nothing but the sign.
pub proof fn law_decimal_numbers(whole: Seq<u8>, fraction: Seq<u8>)
    requires
        all_digits(whole),
        all_digits(fraction),
        whole.len() > 0,
        fraction.len() <= 9,
        digits_value(whole) <= u32::MAX,
    ensures
        decimal_in(whole + seq![0x2Eu8] + fraction) matches Some(v) && !v.negative && v.integer
            == digits_value(whole) && v.fraction == digits_value(fraction) && v.divisor == pow10(
            fraction.len(),
        ) && v.fraction < v.divisor,
        decimal_in(whole) matches Some(v) && !v.negative && v.integer == digits_value(whole)
            && v.fraction == 0 && v.divisor == 1,
        decimal_in(seq![0x2Du8] + (whole + seq![0x2Eu8] + fraction)) == Some(
            (Decimal { negative: true, ..decimal_in(whole + seq![0x2Eu8] + fraction)->0 }),
        ),
{
    let text = whole + seq![0x2Eu8] + fraction;
    lemma_point_behind(whole, fraction);
    lemma_no_point(whole);
    lemma_value_bound(fraction);
    lemma_pow10_nine(fraction.len());
    assert(is_digit(whole[0]));
    assert(text[0] == whole[0]);
    assert(text.take(whole.len() as int) =~= whole);
    assert(text.skip(whole.len() as int + 1) =~= fraction);
    assert(whole.take(whole.len() as int) =~= whole);
    assert((seq![0x2Du8] + text).skip(1) =~= text);
    assert(digits_value(Seq::<u8>::empty()) == 0);
    assert(all_digits(Seq::<u8>::empty()));
}

/// Digits beyond the ninth decimal, a whole part beyond 32 bits and what is not a
/// digit.
pub proof fn law_decimal_limits(whole: Seq<u8>, fraction: Seq<u8>, more: Seq<u8>)
    requires
        all_digits(whole),
        all_digits(fraction),
        all_digits(more),
        whole.len() > 0,
        fraction.len() == 9,
    ensures
        decimal_in(whole + seq![0x2Eu8] + (fraction + more)) == decimal_in(
            whole + seq![0x2Eu8] + fraction,
        ),
        digits_value(whole) > u32::MAX ==> decimal_in(whole) is Some && decimal_in(whole)->0.integer
            == u32::MAX,
        decimal_in(Seq::<u8>::empty()) is None,
{
    let long = whole + seq![0x2Eu8] + (fraction + more);
    let short = whole + seq![0x2Eu8] + fraction;
    lemma_point_behind(whole, fraction + more);
    lemma_point_behind(whole, fraction);
    lemma_no_point(whole);
    assert(is_digit(whole[0]));
    assert(long[0] == whole[0] && short[0] == whole[0]);
    assert(long.take(whole.len() as int) =~= whole);
    assert(short.take(whole.len() as int) =~= whole);
    assert(whole.take(whole.len() as int) =~= whole);
    assert(long.skip(whole.len() as int + 1) =~= fraction + more);
    assert(short.skip(whole.len() as int + 1) =~= fraction);
    assert forall|i: int| 0 <= i < (fraction + more).len() implies is_digit(
        #[trigger] (fraction + more)[i],
    ) by {
        if i < 9 {
            assert(is_digit(fraction[i]));
        } else {
            assert(is_digit(more[i - 9]));
        }
    }
    assert((fraction + more).take(9) =~= fraction);
    assert(leading(fraction + more) =~= fraction);
}

/// Hexadecimal digits: 0 to 9, and ten to fifteen by letters of either case.
pub proof fn law_hex_digits(b: u8, high: u8, low: u8)
    ensures
        48 <= b <= 57 ==> hex_value(b) == Some((b - 48) as u8),
        97 <= b <= 102 ==> hex_value(b) == Some((b - 87) as u8),
        65 <= b <= 70 ==> hex_value(b) == hex_value((b + 32) as u8),
        hex_value(b) is Some ==> 48 <= b <= 57 || 65 <= b <= 70 || 97 <= b <= 102,
        hex_value(high) is Some && hex_value(low) is Some ==> hex_in(seq![high, low]) == Some(
            (hex_value(high)->0 * 16 + hex_value(low)->0) as u8,
        ),
        hex_in(seq![b]) == hex_value(b),
        hex_value(high) is None || hex_value(low) is None ==> hex_in(seq![high, low]) is None,
        hex_value(high) is Some ==> hex_in(seq![0x30u8, 0x78u8, high, low]) == hex_in(
            seq![high, low],
        ) && hex_in(seq![0x30u8, 0x58u8, high, low]) == hex_in(seq![high, low]),
        hex_in(seq![0x30u8, 0x78u8, b]) == hex_value(b),
{
    let pair = seq![high, low];
    assert(seq![0x30u8, 0x78u8, high, low].skip(2) =~= pair);
    assert(seq![0x30u8, 0x58u8, high, low].skip(2) =~= pair);
    assert(seq![0x30u8, 0x78u8, b].skip(2) =~= seq![b]);
    assert(pair.skip(2) =~= Seq::empty());
}

/// Neither an empty text nor one of more than two digits is a byte.
pub proof fn law_hex_length(s: Seq<u8>)
    ensures
        hex_in(s) is Some ==> 1 <= s.len() <= 4,
        s.len() > 2 && hex_in(s) is Some ==> s[0] == 0x30 && (s[1] == 0x78 || s[1] == 0x58),
{
}

/// What the readers of numbers make of a text of digits: its value, if it is within
/// their range.
pub proof fn law_reading_numbers(
    n: nat,
    s: &[u8],
    wide: Option<u32>,
    narrow: Option<u8>,
    signed: Option<i16>,
)
    requires
        s@ == text_of(n),
        call_ensures(parse_u32, (s,), wide),
        call_ensures(parse_u8, (s,), narrow),
        call_ensures(parse_i16, (s,), signed),
    ensures
        wide is Some <==> n <= 0xFFFF_FFFF,
        wide is Some ==> wide->0 == n,
        narrow is Some <==> n <= 255,
        narrow is Some ==> narrow->0 == n,
        signed is Some <==> n <= 32767,
        signed is Some ==> signed->0 == n,
{
    law_numbers_read_back(n);
    law_signed_numbers(n, seq![]);
}

/// Finding a byte finds its first place, or the end of a text without it.
pub proof fn law_finding(s: &[u8], b: u8, at: usize, i: int)
    requires
        call_ensures(find, (s, b), at),
    ensures
        at <= s@.len(),
        at < s@.len() ==> s@[at as int] == b,
        0 <= i < at ==> s@[i] != b,
{
}

/// A minus sign in front makes a number negative; digits behind a point are its
/// fraction, but for whole numbers, which drop it.
pub proof fn law_reading_signs(
    n: nat,
    fraction: Seq<u8>,
    s: &[u8],
    signed: Option<i16>,
    decimal: Option<Decimal>,
)
    requires
        all_digits(fraction),
        fraction.len() <= 9,
        n <= 32768,
        s@ == seq![0x2Du8] + (text_of(n) + seq![0x2Eu8] + fraction),
        call_ensures(parse_i16, (s,), signed),
        call_ensures(parse_decimal, (s,), decimal),
    ensures
        signed is Some && signed->0 == -(n as int),
        decimal is Some && (decimal->0).negative && (decimal->0).integer == n && (
        decimal->0).fraction == digits_value(fraction) && (decimal->0).divisor == pow10(
            fraction.len(),
        ),
{
    law_numbers_read_back(n);
    law_signed_numbers(n, fraction);
    law_decimal_numbers(text_of(n), fraction);
}

/// Two hexadecimal digits are a byte, the first one worth sixteen times as much,
/// with or without `0x` in front.
pub proof fn law_reading_hex(high: u8, low: u8, s: &[u8], t: &[u8], v: Option<u8>, w: Option<u8>)
    requires
        hex_value(high) is Some,
        hex_value(low) is Some,
        s@ == seq![high, low],
        t@ == seq![0x30u8, 0x78u8, high, low],
        call_ensures(parse_hex_u8, (s,), v),
        call_ensures(parse_hex_u8, (t,), w),
    ensures
        v is Some && v->0 == 16 * hex_value(high)->0 + hex_value(low)->0,
        w == v,
{
    law_hex_digits(high, high, low);
    law_hex_digits(low, high, low);
}

} // verus!
