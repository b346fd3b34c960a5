//! Bounded list of register and value pairs.

use vstd::prelude::*;

verus! {

/// The elements of a list of pairs, in order.
pub uninterp spec fn pairs_of(list: heapless::Vec<(u8, u8), 512>) -> Seq<(u8, u8)>;

/// `heapless::Vec::new`: the new list is empty.
#[verifier::external_body]
pub(crate) fn new_pairs() -> (list: heapless::Vec<(u8, u8), 512>)
    ensures
        pairs_of(list) == Seq::<(u8, u8)>::empty(),
{
    heapless::Vec::new()
}

/// `heapless::Vec::push`: appends the pair, or hands it back and leaves the
/// list alone if the capacity of 512 is used up.
#[verifier::external_body]
pub(crate) fn push_pair(
    list: &mut heapless::Vec<(u8, u8), 512>,
    pair: (u8, u8),
) -> (result: Result<(), (u8, u8)>)
    ensures
        pairs_of(*old(list)).len() < 512 ==> result is Ok && pairs_of(*final(list)) == pairs_of(
            *old(list),
        ).push(pair),
        pairs_of(*old(list)).len() >= 512 ==> result is Err && result->Err_0 == pair && pairs_of(
            *final(list),
        ) == pairs_of(*old(list)),
{
    list.push(pair)
}

/// `heapless::Vec::is_full`: whether the length is the capacity of 512.
#[verifier::external_body]
pub(crate) fn pairs_full(list: &heapless::Vec<(u8, u8), 512>) -> (full: bool)
    ensures
        full == (pairs_of(*list).len() == 512),
{
    list.is_full()
}

/// `heapless::Vec::as_slice`: the elements in order. There are never more than
/// the capacity.
#[verifier::external_body]
pub(crate) fn pairs_slice(list: &heapless::Vec<(u8, u8), 512>) -> (slice: &[(u8, u8)])
    ensures
        slice@ == pairs_of(*list),
        slice@.len() <= 512,
{
    list.as_slice()
}

} // verus!
