//! Byte encodings of integers.

use vstd::prelude::*;

verus! {

/// The bytes of a 32-bit number, most significant first.
pub open spec fn be32(v: u32) -> Seq<u8> {
    seq![
        (v / 0x100_0000) as u8,
        (v / 0x1_0000 % 0x100) as u8,
        (v / 0x100 % 0x100) as u8,
        (v % 0x100) as u8,
    ]
}

/// The bytes of a 32-bit number, least significant first.
pub open spec fn le32(v: u32) -> Seq<u8> {
    seq![
        (v % 0x100) as u8,
        (v / 0x100 % 0x100) as u8,
        (v / 0x1_0000 % 0x100) as u8,
        (v / 0x100_0000) as u8,
    ]
}

/// The bytes of a 16-bit number, least significant first.
pub open spec fn le16(v: u16) -> Seq<u8> {
    seq![(v % 0x100) as u8, (v / 0x100) as u8]
}

/// The number in four bytes at `at`, most significant first.
pub open spec fn from_be32(data: Seq<u8>, at: int) -> int {
    data[at] * 0x100_0000 + data[at + 1] * 0x1_0000 + data[at + 2] * 0x100 + data[at + 3]
}

/// The number in two bytes at `at`, most significant first.
pub open spec fn from_be16(data: Seq<u8>, at: int) -> int {
    data[at] * 0x100 + data[at + 1]
}

/// The number in four bytes at `at`, least significant first.
pub open spec fn from_le32(data: Seq<u8>, at: int) -> int {
    data[at] + data[at + 1] * 0x100 + data[at + 2] * 0x1_0000 + data[at + 3] * 0x100_0000
}

/// The number in two bytes at `at`, least significant first.
pub open spec fn from_le16(data: Seq<u8>, at: int) -> int {
    data[at] + data[at + 1] * 0x100
}

pub fn to_be32(v: u32) -> (bytes: [u8; 4])
    ensures
        bytes@ == be32(v),
{
    let bytes: [u8; 4] = [
        (v / 0x100_0000) as u8,
        (v / 0x1_0000 % 0x100) as u8,
        (v / 0x100 % 0x100) as u8,
        (v % 0x100) as u8,
    ];
    assert(bytes@ =~= be32(v));
    bytes
}

pub fn read_be32(data: &[u8], at: usize) -> (v: u32)
    requires
        at + 3 < data@.len(),
    ensures
        v == from_be32(data@, at as int),
{
    data[at] as u32 * 0x100_0000 + data[at + 1] as u32 * 0x1_0000 + data[at + 2] as u32 * 0x100
        + data[at + 3] as u32
}

pub fn read_be16(data: &[u8], at: usize) -> (v: u16)
    requires
        at + 1 < data@.len(),
    ensures
        v == from_be16(data@, at as int),
{
    data[at] as u16 * 0x100 + data[at + 1] as u16
}

pub fn read_le32(data: &[u8], at: usize) -> (v: u32)
    requires
        at + 3 < data@.len(),
    ensures
        v == from_le32(data@, at as int),
{
    data[at] as u32 + data[at + 1] as u32 * 0x100 + data[at + 2] as u32 * 0x1_0000 + data[at
        + 3] as u32 * 0x100_0000
}

pub fn read_le16(data: &[u8], at: usize) -> (v: u16)
    requires
        at + 1 < data@.len(),
    ensures
        v == from_le16(data@, at as int),
{
    data[at] as u16 + data[at + 1] as u16 * 0x100
}

/// Writes `bytes` into `dest` at `at`.
pub fn put(dest: &mut [u8], at: usize, bytes: &[u8])
    requires
        at + bytes@.len() <= old(dest)@.len(),
    ensures
        final(dest)@ == spliced(old(dest)@, at as int, bytes@),
{
    let end: usize = dest.len();
    let mut i: usize = 0;
    while i < bytes.len()
        invariant
            i <= bytes@.len(),
            at + bytes@.len() <= end,
            dest@.len() == end,
            dest@.len() == old(dest)@.len(),
            dest@ =~= spliced(old(dest)@, at as int, bytes@.take(i as int)),
        decreases bytes@.len() - i,
    {
        dest[at + i] = bytes[i];
        i = i + 1;
    }
    assert(bytes@.take(i as int) =~= bytes@);
}

/// `data` with `bytes` in place of what stood at `at`.
pub open spec fn spliced(data: Seq<u8>, at: int, bytes: Seq<u8>) -> Seq<u8> {
    Seq::new(
        data.len(),
        |i: int|
            if at <= i < at + bytes.len() {
                bytes[i - at]
            } else {
                data[i]
            },
    )
}

/// Reading back what was encoded.
pub proof fn law_encodings_inverse(v: u32, w: u16)
    ensures
        from_be32(be32(v), 0) == v,
        from_le32(le32(v), 0) == v,
        from_le16(le16(w), 0) == w,
{
}

/// The order of the bytes: the most significant one comes first in one encoding
/// and last in the other.
pub proof fn law_byte_order(v: u32, w: u16, data: Seq<u8>, at: int)
    requires
        0 <= at,
        at + 3 < data.len(),
    ensures
        be32(v).len() == 4,
        be32(v)[3] == v % 0x100,
        be32(v)[0] >= 0x80 <==> v >= 0x8000_0000,
        be32(v) == le32(v).reverse(),
        le16(w)[0] == w % 0x100,
        le16(w).len() == 2,
        from_be16(data, at) % 0x100 == data[at + 1],
        from_be16(data, at) / 0x100 == data[at],
        from_le16(data, at) % 0x100 == data[at],
        from_le16(data, at) / 0x100 == data[at + 1],
        from_be32(data, at) == from_be16(data, at) * 0x1_0000 + from_be16(data, at + 2),
        from_le32(data, at) == from_le16(data, at) + from_le16(data, at + 2) * 0x1_0000,
{
    assert(be32(v) =~= le32(v).reverse());
}

/// What is put into data is there, and nothing else changes.
pub proof fn law_splicing(data: Seq<u8>, at: int, bytes: Seq<u8>)
    requires
        0 <= at,
        at + bytes.len() <= data.len(),
    ensures
        spliced(data, at, bytes).len() == data.len(),
        spliced(data, at, bytes).subrange(at, at + bytes.len()) == bytes,
        spliced(data, at, bytes).take(at) == data.take(at),
        spliced(data, at, bytes).skip(at + bytes.len()) == data.skip(at + bytes.len()),
{
    let after = spliced(data, at, bytes);
    assert(after.subrange(at, at + bytes.len()) =~= bytes);
    assert(after.take(at) =~= data.take(at));
    assert(after.skip(at + bytes.len()) =~= data.skip(at + bytes.len()));
}

/// What the conversions give back, digit by digit in base 256.
pub proof fn law_conversions(
    v: u32,
    bytes: [u8; 4],
    data: &[u8],
    at: usize,
    be32: u32,
    be16: u16,
    le32: u32,
    le16: u16,
)
    requires
        at + 3 < data@.len(),
        call_ensures(to_be32, (v,), bytes),
        call_ensures(read_be32, (data, at), be32),
        call_ensures(read_be16, (data, at), be16),
        call_ensures(read_le32, (data, at), le32),
        call_ensures(read_le16, (data, at), le16),
    ensures
        v == 0x100_0000 * bytes@[0] + 0x1_0000 * bytes@[1] + 0x100 * bytes@[2] + bytes@[3],
        be32 == 0x100_0000 * data@[at as int] + 0x1_0000 * data@[at + 1] + 0x100 * data@[at + 2]
            + data@[at + 3],
        be16 == 0x100 * data@[at as int] + data@[at + 1],
        le32 == data@[at as int] + 0x100 * data@[at + 1] + 0x1_0000 * data@[at + 2] + 0x100_0000
            * data@[at + 3],
        le16 == data@[at as int] + 0x100 * data@[at + 1],
{
}

/// Bytes that are put somewhere stand there, and nothing else changes.
pub proof fn law_putting(dest: &mut [u8], at: usize, bytes: &[u8], i: int)
    requires
        at + bytes@.len() <= old(dest)@.len(),
        call_ensures(put, (dest, at, bytes), ()),
        0 <= i < old(dest)@.len(),
    ensures
        final(dest)@.len() == old(dest)@.len(),
        at <= i < at + bytes@.len() ==> final(dest)@[i] == bytes@[i - at],
        !(at <= i < at + bytes@.len()) ==> final(dest)@[i] == old(dest)@[i],
{
}

} // verus!
