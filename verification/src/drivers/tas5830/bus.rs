//! Accesses to the amplifier over its bus and pins.

use vstd::prelude::*;

use crate::drivers::tas5830::regs;

verus! {

/// One access.
#[derive(Debug, Clone, Copy, PartialEq, Eq, Structural)]
pub enum BusOp {
    /// Write one register.
    Reg { reg: u8, value: u8 },
    /// Write four registers from `reg` on, most significant byte first.
    Word { reg: u8, word: u32 },
    /// Read `len` registers from `reg` on.
    Read { reg: u8, len: u8 },
    /// Wait.
    Delay { ms: u16 },
    /// Drive the power-down pin (low powers down).
    PowerDownPin(bool),
    /// Drive the mute pin (low mutes).
    MutePin(bool),
}

impl BusOp {
    /// The bytes that the access writes to the bus: the register number and,
    /// for a write, the data.
    pub open spec fn message(self) -> Seq<u8> {
        match self {
            BusOp::Reg { reg, value } => seq![reg, value],
            BusOp::Word { reg, word } => seq![reg] + crate::bytes::be32(word),
            BusOp::Read { reg, .. } => seq![reg],
            _ => Seq::empty(),
        }
    }

    pub fn to_message(&self) -> (bytes: Vec<u8>)
        ensures
            bytes@ == self.message(),
    {
        let mut bytes: Vec<u8> = Vec::new();
        match *self {
            BusOp::Reg { reg, value } => {
                bytes.push(reg);
                bytes.push(value);
            },
            BusOp::Word { reg, word } => {
                bytes.push(reg);
                let data: [u8; 4] = crate::bytes::to_be32(word);
                bytes.push(data[0]);
                bytes.push(data[1]);
                bytes.push(data[2]);
                bytes.push(data[3]);
            },
            BusOp::Read { reg, .. } => {
                bytes.push(reg);
            },
            BusOp::Delay { .. } => {},
            BusOp::PowerDownPin(_) => {},
            BusOp::MutePin(_) => {},
        }
        assert(bytes@ =~= self.message());
        bytes
    }
}

/// Accesses that select a DSP book and page. The book register is reached
/// through page 0.
pub open spec fn select(book: u8, page: u8) -> Seq<BusOp> {
    seq![
        BusOp::Reg { reg: regs::PAGE_SELECT, value: 0 },
        BusOp::Reg { reg: regs::BOOK_SELECT, value: book },
        BusOp::Reg { reg: regs::PAGE_SELECT, value: page },
    ]
}

/// Accesses that write register and value pairs.
pub open spec fn register_ops(pairs: Seq<(u8, u8)>) -> Seq<BusOp> {
    Seq::new(pairs.len(), |i: int| BusOp::Reg { reg: pairs[i].0, value: pairs[i].1 })
}

pub fn book_page(ops: &mut Vec<BusOp>, book: u8, page: u8)
    ensures
        final(ops)@ == old(ops)@ + select(book, page),
{
    ops.push(BusOp::Reg { reg: regs::PAGE_SELECT, value: 0x00 });
    ops.push(BusOp::Reg { reg: regs::BOOK_SELECT, value: book });
    ops.push(BusOp::Reg { reg: regs::PAGE_SELECT, value: page });
    assert(ops@ =~= old(ops)@ + select(book, page));
}

pub fn registers(ops: &mut Vec<BusOp>, pairs: &[(u8, u8)])
    ensures
        final(ops)@ == old(ops)@ + register_ops(pairs@),
{
    let mut i: usize = 0;
    while i < pairs.len()
        invariant
            i <= pairs@.len(),
            ops@ =~= old(ops)@ + register_ops(pairs@.take(i as int)),
        decreases pairs@.len() - i,
    {
        let pair: (u8, u8) = pairs[i];
        ops.push(BusOp::Reg { reg: pair.0, value: pair.1 });
        i = i + 1;
    }
    assert(pairs@.take(i as int) =~= pairs@);
}

pub fn append(ops: &mut Vec<BusOp>, more: Vec<BusOp>)
    ensures
        final(ops)@ == old(ops)@ + more@,
{
    let mut i: usize = 0;
    while i < more.len()
        invariant
            i <= more@.len(),
            ops@ =~= old(ops)@ + more@.take(i as int),
        decreases more@.len() - i,
    {
        ops.push(more[i]);
        i = i + 1;
    }
    assert(more@.take(i as int) =~= more@);
}

/// The amplifier's memory as the accesses address it: the selected book and
/// page, and the words stored so far.
pub struct DeviceModel {
    pub book: u8,
    pub page: u8,
    pub words: Map<(u8, u8, u8), u32>,
}

/// Whether register `target` is one of the four that a word written from `reg`
/// on goes to. Register numbers wrap around.
pub open spec fn covers(reg: u8, target: u8) -> bool {
    (target - reg) % 0x100 < 4
}

/// The byte of a word written from `reg` on that goes to register `target`.
pub open spec fn byte_at(reg: u8, word: u32, target: u8) -> u8 {
    crate::bytes::be32(word)[(target - reg) % 0x100]
}

/// What an access does to the amplifier: the page and book registers select,
/// also as part of a word; any other word is stored.
pub open spec fn applied(d: DeviceModel, op: BusOp) -> DeviceModel {
    match op {
        BusOp::Reg { reg, value } => if reg == regs::PAGE_SELECT {
            DeviceModel { page: value, ..d }
        } else if reg == regs::BOOK_SELECT && d.page == 0 {
            DeviceModel { book: value, ..d }
        } else {
            d
        },
        BusOp::Word { reg, word } => if covers(reg, regs::PAGE_SELECT) {
            DeviceModel { page: byte_at(reg, word, regs::PAGE_SELECT), ..d }
        } else if covers(reg, regs::BOOK_SELECT) && d.page == 0 {
            DeviceModel { book: byte_at(reg, word, regs::BOOK_SELECT), ..d }
        } else {
            DeviceModel { words: d.words.insert((d.book, d.page, reg), word), ..d }
        },
        _ => d,
    }
}

pub open spec fn run(d: DeviceModel, ops: Seq<BusOp>) -> DeviceModel
    decreases ops.len(),
{
    if ops.len() == 0 {
        d
    } else {
        applied(run(d, ops.drop_last()), ops.last())
    }
}

pub proof fn lemma_run_concat(d: DeviceModel, a: Seq<BusOp>, b: Seq<BusOp>)
    ensures
        run(d, a + b) == run(run(d, a), b),
    decreases b.len(),
{
    if b.len() == 0 {
        assert(a + b =~= a);
    } else {
        lemma_run_concat(d, a, b.drop_last());
        assert((a + b).drop_last() =~= a + b.drop_last());
    }
}

/// Selecting a book and page selects them, whatever was selected before, and
/// stores nothing.
pub proof fn lemma_run_select(d: DeviceModel, book: u8, page: u8)
    ensures
        run(d, select(book, page)) == (DeviceModel { book, page, ..d }),
{
    let s = select(book, page);
    let one = s.drop_last().drop_last();
    assert(one =~= seq![s[0]]);
    assert(one.drop_last() =~= Seq::empty());
    reveal_with_fuel(run, 4);
}

/// A message starts with the register; a word follows with its most significant
/// byte first.
pub proof fn law_messages(op: BusOp)
    ensures
        match op {
            BusOp::Reg { reg, value } => op.message().len() == 2 && op.message()[0] == reg
                && op.message()[1] == value,
            BusOp::Word { reg, word } => op.message().len() == 5 && op.message()[0] == reg
                && crate::bytes::from_be32(op.message(), 1) == word,
            BusOp::Read { reg, .. } => op.message().len() == 1 && op.message()[0] == reg,
            _ => op.message().len() == 0,
        },
{
    if let BusOp::Word { word, .. } = op {
        crate::bytes::law_encodings_inverse(word, 0);
        let data = crate::bytes::be32(word);
        let m = op.message();
        assert(data.len() == 4);
        assert(m[1] == data[0] && m[2] == data[1] && m[3] == data[2] && m[4] == data[3]);
        assert(crate::bytes::from_be32(m, 1) == crate::bytes::from_be32(data, 0));
    }
}

/// Register pairs are written in order, one access for each.
pub proof fn law_pairs_in_order(a: Seq<(u8, u8)>, b: Seq<(u8, u8)>, reg: u8, value: u8)
    ensures
        register_ops(a + b) == register_ops(a) + register_ops(b),
        register_ops(seq![(reg, value)]) == seq![BusOp::Reg { reg, value }],
{
    assert(register_ops(a + b) =~= register_ops(a) + register_ops(b));
    assert(register_ops(seq![(reg, value)]) =~= seq![BusOp::Reg { reg, value }]);
}

/// Selecting ends on the page and book asked for, through page 0.
pub proof fn law_select(d: DeviceModel, book: u8, page: u8)
    ensures
        run(d, select(book, page)).book == book,
        run(d, select(book, page)).page == page,
        run(d, select(book, page)).words == d.words,
{
    lemma_run_select(d, book, page);
}

pub proof fn lemma_run_push(d: DeviceModel, ops: Seq<BusOp>, op: BusOp)
    ensures
        run(d, ops.push(op)) == applied(run(d, ops), op),
{
    assert(ops.push(op).drop_last() =~= ops);
}

/// Accesses without words store nothing.
pub proof fn lemma_run_without_words(d: DeviceModel, ops: Seq<BusOp>)
    requires
        forall|i: int| 0 <= i < ops.len() ==> !((#[trigger] ops[i]) is Word),
    ensures
        run(d, ops).words == d.words,
    decreases ops.len(),
{
    if ops.len() > 0 {
        let init = ops.drop_last();
        assert forall|i: int| 0 <= i < init.len() implies !((#[trigger] init[i]) is Word) by {
            assert(init[i] == ops[i]);
        }
        lemma_run_without_words(d, init);
        assert(!(ops[ops.len() - 1] is Word));
    }
}

/// What is sent for an access, and that accesses are added behind those before.
pub proof fn law_accesses(
    op: BusOp,
    bytes: Vec<u8>,
    ops: &mut Vec<BusOp>,
    book: u8,
    page: u8,
    d: DeviceModel,
)
    requires
        call_ensures(BusOp::to_message, (&op,), bytes),
        call_ensures(book_page, (ops, book, page), ()),
    ensures
        match op {
            BusOp::Reg { reg, value } => bytes@.len() == 2 && bytes@[0] == reg && bytes@[1] == value,
            BusOp::Word { reg, word } => bytes@.len() == 5 && bytes@[0] == reg && word == 0x100_0000
                * bytes@[1] + 0x1_0000 * bytes@[2] + 0x100 * bytes@[3] + bytes@[4],
            BusOp::Read { reg, .. } => bytes@.len() == 1 && bytes@[0] == reg,
            _ => bytes@.len() == 0,
        },
        old(ops)@.is_prefix_of(final(ops)@),
        run(d, final(ops)@.skip(old(ops)@.len() as int)).book == book,
        run(d, final(ops)@.skip(old(ops)@.len() as int)).page == page,
{
    law_messages(op);
    assert(final(ops)@.skip(old(ops)@.len() as int) =~= select(book, page));
    assert(old(ops)@ =~= final(ops)@.take(old(ops)@.len() as int));
    law_select(d, book, page);
}

/// Pairs of registers and values become one access each, in order.
pub proof fn law_pair_accesses(ops: &mut Vec<BusOp>, pairs: &[(u8, u8)], i: int)
    requires
        call_ensures(registers, (ops, pairs), ()),
    ensures
        final(ops)@.len() == old(ops)@.len() + pairs@.len(),
        0 <= i < old(ops)@.len() ==> final(ops)@[i] == old(ops)@[i],
        0 <= i < pairs@.len() ==> (final(ops)@[old(ops)@.len() + i] matches BusOp::Reg { reg, value }
            && reg == pairs@[i].0 && value == pairs@[i].1),
{
}

} // verus!
