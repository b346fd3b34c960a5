//! Operations on the external NOR flash.

use vstd::prelude::*;

verus! {

/// Flash size: 8 MB.
pub const FLASH_SIZE: usize = 0x80_0000;

/// Size of an erasable sector.
pub const ERASE_SIZE: usize = 0x1000;

/// An operation for the flash driver, at absolute offsets.
pub enum FlashOp {
    /// Erase from `from` up to `to`.
    Erase { from: u32, to: u32 },
    /// Write `bytes` from `offset` on.
    Write { offset: u32, bytes: Vec<u8> },
}

/// An operation in terms of its data.
pub enum FlashStep {
    Erase { from: int, to: int },
    Write { offset: int, bytes: Seq<u8> },
}

impl View for FlashOp {
    type V = FlashStep;

    open spec fn view(&self) -> FlashStep {
        match self {
            FlashOp::Erase { from, to } => FlashStep::Erase { from: *from as int, to: *to as int },
            FlashOp::Write { offset, bytes } => FlashStep::Write {
                offset: *offset as int,
                bytes: bytes@,
            },
        }
    }
}

pub open spec fn steps(ops: Seq<FlashOp>) -> Seq<FlashStep> {
    Seq::new(ops.len(), |i: int| ops[i]@)
}

/// What an operation does to the flash: erased bytes read 0xFF, and a write can
/// only clear bits.
pub open spec fn stepped(flash: Seq<u8>, step: FlashStep) -> Seq<u8> {
    match step {
        FlashStep::Erase { from, to } => Seq::new(
            flash.len(),
            |i: int|
                if from <= i < to {
                    0xFFu8
                } else {
                    flash[i]
                },
        ),
        FlashStep::Write { offset, bytes } => Seq::new(
            flash.len(),
            |i: int|
                if offset <= i < offset + bytes.len() {
                    flash[i] & bytes[i - offset]
                } else {
                    flash[i]
                },
        ),
    }
}

/// The flash after operations, in order.
pub open spec fn run(flash: Seq<u8>, ops: Seq<FlashStep>) -> Seq<u8>
    decreases ops.len(),
{
    if ops.len() == 0 {
        flash
    } else {
        run(stepped(flash, ops[0]), ops.skip(1))
    }
}

/// The bytes from `from` up to `to` are erased.
pub open spec fn erased(flash: Seq<u8>, from: int, to: int) -> bool {
    forall|i: int| from <= i < to ==> #[trigger] flash[i] == 0xFF
}

/// Writing to erased bytes stores what is written.
pub proof fn lemma_write_erased(flash: Seq<u8>, offset: int, bytes: Seq<u8>)
    requires
        0 <= offset,
        offset + bytes.len() <= flash.len(),
        erased(flash, offset, offset + bytes.len()),
    ensures
        stepped(flash, FlashStep::Write { offset, bytes }) == crate::bytes::spliced(
            flash,
            offset,
            bytes,
        ),
{
    let after = stepped(flash, FlashStep::Write { offset, bytes });
    assert forall|i: int| 0 <= i < flash.len() implies after[i] == crate::bytes::spliced(
        flash,
        offset,
        bytes,
    )[i] by {
        if offset <= i < offset + bytes.len() {
            let b = bytes[i - offset];
            assert(flash[i] == 0xFF);
            assert(0xFFu8 & b == b) by (bit_vector);
        }
    }
    assert(after =~= crate::bytes::spliced(flash, offset, bytes));
}

/// Copies a slice.
pub fn copy_bytes(data: &[u8]) -> (bytes: Vec<u8>)
    ensures
        bytes@ == data@,
{
    let mut bytes: Vec<u8> = Vec::new();
    let mut i: usize = 0;
    while i < data.len()
        invariant
            i <= data@.len(),
            bytes@ =~= data@.take(i as int),
        decreases data@.len() - i,
    {
        bytes.push(data[i]);
        i = i + 1;
    }
    assert(bytes@ =~= data@);
    bytes
}

} // verus!
