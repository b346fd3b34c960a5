//! Sample format conversions.

use vstd::prelude::*;

verus! {

/// Two's complement value of a 32-bit word.
pub open spec fn signed32(word: u32) -> int {
    if word < 0x8000_0000 {
        word as int
    } else {
        word - 0x1_0000_0000
    }
}

/// The word that holds `v` in two's complement.
pub open spec fn unsigned32(v: i32) -> u32 {
    if v >= 0 {
        v as u32
    } else {
        (v + 0x1_0000_0000) as u32
    }
}

/// Two's complement value of the 24-bit number `v`.
pub open spec fn signed24(v: int) -> int {
    if v < 0x80_0000 {
        v
    } else {
        v - 0x100_0000
    }
}

/// Reads a word as a two's complement number.
pub fn word_to_sample(word: u32) -> (sample: i32)
    ensures
        sample == signed32(word),
{
    if word < 0x8000_0000 {
        word as i32
    } else {
        (word as i64 - 0x1_0000_0000) as i32
    }
}

/// The word that holds `sample` in two's complement.
pub fn sample_to_word(sample: i32) -> (word: u32)
    ensures
        word == unsigned32(sample),
        signed32(word) == sample,
{
    if sample >= 0 {
        sample as u32
    } else {
        (sample as i64 + 0x1_0000_0000) as u32
    }
}

/// Left-justifies a 24-bit two's complement number in 32 bits.
pub fn justify24(v: u32) -> (sample: i32)
    requires
        v < 0x100_0000,
    ensures
        sample == signed24(v as int) * 256,
{
    if v < 0x80_0000 {
        v as i32 * 256
    } else {
        (v as i32 - 0x100_0000) * 256
    }
}

/// The two's complement reading loses nothing: different words are different
/// numbers.
pub proof fn law_signed32_injective(a: u32, b: u32)
    ensures
        signed32(a) == signed32(b) ==> a == b,
        i32::MIN <= signed32(a) <= i32::MAX,
        unsigned32(signed32(a) as i32) == a,
{
}

/// A two's complement reading differs from the unsigned one by a multiple of the
/// number range and lies in the signed range, which leaves one number.
pub proof fn law_twos_complement(word: u32, v: int)
    requires
        0 <= v < 0x100_0000,
    ensures
        (signed32(word) - word) % 0x1_0000_0000 == 0,
        -0x8000_0000 <= signed32(word) < 0x8000_0000,
        (signed24(v) - v) % 0x100_0000 == 0,
        -0x80_0000 <= signed24(v) < 0x80_0000,
{
}

/// Words and samples are the same 32 bits: a word below 2^31 is the sample, any other
/// is 2^32 more than the sample, and converting back gives the same word.
pub proof fn law_conversions(word: u32, sample: i32, back: u32)
    requires
        call_ensures(word_to_sample, (word,), sample),
        call_ensures(sample_to_word, (sample,), back),
    ensures
        back == word,
        word < 0x8000_0000 ==> sample == word,
        word >= 0x8000_0000 ==> sample + 0x1_0000_0000 == word,
{
}

/// A 24-bit number goes to the upper 24 bits of a sample, with its sign.
pub proof fn law_justifying(v: u32, sample: i32)
    requires
        v < 0x100_0000,
        call_ensures(justify24, (v,), sample),
    ensures
        v < 0x80_0000 ==> sample == 256 * v,
        v >= 0x80_0000 ==> sample == 256 * v - 0x1_0000_0000,
{
}

} // verus!
