//! Frame buffer of the SH1106 OLED with dirty-page tracking.
//!
//! A page is eight rows of pixels. Only pages that were drawn to since the last
//! flush are sent to the display.

use vstd::prelude::*;

verus! {

pub const WIDTH: u32 = 128;

pub const HEIGHT: u32 = 64;

pub const PAGES: usize = 8;

pub const BUF_SIZE: usize = 1024;

/// The controller has 132 columns, the display 128.
pub const COL_OFFSET: u8 = 2;

/// Number of commands that initialise the controller.
pub const INIT_COUNT: usize = 16;

/// The commands: display off, clock ratio, multiplex ratio, offset, start line,
/// charge pump, page addressing, segment remap off, COM scan normal, COM pins,
/// contrast, pre-charge, VCOMH level, follow RAM, not inverted, display on.
pub const INIT_COMMANDS: [u8; 16] = [
    0xAE, 0xD5, 0xA8, 0xD3, 0x40, 0x8D, 0x20, 0xA0, 0xC0, 0xDA, 0x81, 0xD9, 0xDB, 0xA4, 0xA6, 0xAF,
];

/// Which of the commands take an argument.
pub const INIT_HAS_ARGUMENT: [bool; 16] = [
    false, true, true, true, false, true, true, false, false, true, true, true, true, false, false,
    false,
];

/// The arguments.
pub const INIT_ARGUMENTS: [u8; 16] = [
    0, 0x80, 0x3F, 0, 0, 0x14, 0x02, 0, 0, 0x12, 0xCF, 0xF1, 0x40, 0, 0, 0,
];

pub const CMD_OFF: u8 = 0xAE;

pub const CMD_ON: u8 = 0xAF;

/// Bit `bit` of a byte.
pub open spec fn bit_of(byte: u8, bit: u8) -> bool {
    (byte >> bit) & 1 == 1
}

/// Setting a bit sets no other.
proof fn lemma_set_bit(byte: u8, bit: u8, other: u8)
    requires
        bit < 8,
        other < 8,
    ensures
        bit_of(byte | (1u8 << bit), other) == (other == bit || bit_of(byte, other)),
{
    assert(((byte | (1u8 << bit)) >> other) & 1 == 1 <==> other == bit || (byte >> other) & 1
        == 1) by (bit_vector)
        requires
            bit < 8,
            other < 8,
    ;
}

/// Clearing a bit clears no other.
proof fn lemma_clear_bit(byte: u8, bit: u8, other: u8)
    requires
        bit < 8,
        other < 8,
    ensures
        bit_of(byte & !(1u8 << bit), other) == (other != bit && bit_of(byte, other)),
{
    assert(((byte & !(1u8 << bit)) >> other) & 1 == 1 <==> other != bit && (byte >> other) & 1
        == 1) by (bit_vector)
        requires
            bit < 8,
            other < 8,
    ;
}

proof fn lemma_extreme_bytes(bit: u8)
    requires
        bit < 8,
    ensures
        bit_of(0xFF, bit),
        !bit_of(0, bit),
{
    assert((0xFFu8 >> bit) & 1 == 1) by (bit_vector)
        requires
            bit < 8,
    ;
    assert((0u8 >> bit) & 1 != 1) by (bit_vector)
        requires
            bit < 8,
    ;
}

proof fn lemma_nonzero_has_bit(byte: u8)
    ensures
        byte != 0 ==> bit_of(byte, 0) || bit_of(byte, 1) || bit_of(byte, 2) || bit_of(byte, 3)
            || bit_of(byte, 4) || bit_of(byte, 5) || bit_of(byte, 6) || bit_of(byte, 7),
{
    assert(byte != 0 ==> (byte >> 0) & 1 == 1 || (byte >> 1) & 1 == 1 || (byte >> 2) & 1 == 1 || (
    byte >> 3) & 1 == 1 || (byte >> 4) & 1 == 1 || (byte >> 5) & 1 == 1 || (byte >> 6) & 1 == 1 || (
    byte >> 7) & 1 == 1) by (bit_vector);
}

/// The display as a user of the frame buffer sees it.
#[verifier::ext_equal]
pub struct DisplayModel {
    /// Lit pixels, by column and row.
    pub lit: Set<(int, int)>,
    /// Pages to be sent.
    pub dirty: Set<int>,
    /// Whether the display is switched on.
    pub enabled: bool,
}

pub open spec fn on_display(x: int, y: int) -> bool {
    0 <= x < WIDTH && 0 <= y < HEIGHT
}

pub open spec fn all_pages() -> Set<int> {
    Set::new(|p: int| 0 <= p < 8)
}

impl DisplayModel {
    /// A pixel was drawn; outside the display nothing is.
    pub open spec fn with_pixel(self, x: int, y: int, on: bool) -> DisplayModel {
        if on_display(x, y) {
            DisplayModel {
                lit: if on {
                    self.lit.insert((x, y))
                } else {
                    self.lit.remove((x, y))
                },
                dirty: self.dirty.insert(y / 8),
                ..self
            }
        } else {
            self
        }
    }

    /// A region was cleared; its rows' pages are dirty.
    pub open spec fn with_cleared(self, x: int, y: int, width: int, height: int) -> DisplayModel {
        DisplayModel {
            lit: Set::new(
                |p: (int, int)|
                    self.lit.contains(p) && !(x <= p.0 < x + width && y <= p.1 < y + height),
            ),
            dirty: Set::new(
                |p: int|
                    self.dirty.contains(p) || 0 <= p < 8 && height > 0 && y < 8 * p + 8 && 8 * p
                        < y + height,
            ),
            ..self
        }
    }

    /// All pixels were set alike.
    pub open spec fn with_all(self, on: bool) -> DisplayModel {
        DisplayModel {
            lit: Set::new(|p: (int, int)| on && on_display(p.0, p.1)),
            dirty: all_pages(),
            ..self
        }
    }

    /// The lowest dirty page.
    pub open spec fn lowest_dirty(self, page: int) -> bool {
        &&& self.dirty.contains(page)
        &&& forall|p: int| 0 <= p < page ==> !self.dirty.contains(p)
    }
}

/// Frame buffer of the display.
pub struct Sh1106 {
    buffer: [u8; BUF_SIZE],
    /// Bit `p` is set if page `p` has to be sent.
    dirty: u8,
    enabled: bool,
}

spec fn lit_in(buffer: Seq<u8>) -> Set<(int, int)> {
    Set::new(
        |p: (int, int)|
            on_display(p.0, p.1) && bit_of(buffer[p.1 / 8 * 128 + p.0], (p.1 % 8) as u8),
    )
}

spec fn page_bit(mask: u8, page: int) -> bool {
    bit_of(mask, page as u8)
}

spec fn dirty_in(mask: u8) -> Set<int> {
    Set::new(|p: int| 0 <= p < 8 && page_bit(mask, p))
}

impl View for Sh1106 {
    type V = DisplayModel;

    closed spec fn view(&self) -> DisplayModel {
        DisplayModel {
            lit: lit_in(self.buffer@),
            dirty: dirty_in(self.dirty),
            enabled: self.enabled,
        }
    }
}

impl Sh1106 {
    /// What every display satisfies.
    pub proof fn lemma_on_display(&self, x: int, y: int, page: int)
        ensures
            self@.lit.contains((x, y)) ==> on_display(x, y),
            self@.dirty.contains(page) ==> 0 <= page < 8,
    {
    }

    /// A dark display, switched off, with all pages to be sent.
    pub fn new() -> (display: Self)
        ensures
            display@ == (DisplayModel {
                lit: Set::empty(),
                dirty: all_pages(),
                enabled: false,
            }),
    {
        let display = Sh1106 { buffer: [0u8;BUF_SIZE], dirty: 0xFF, enabled: false };
        proof {
            assert forall|p: (int, int)| !(#[trigger] display@.lit.contains(p)) by {
                if on_display(p.0, p.1) {
                    lemma_extreme_bytes((p.1 % 8) as u8);
                }
            }
            assert forall|p: int| display@.dirty.contains(p) == all_pages().contains(p) by {
                if 0 <= p < 8 {
                    lemma_extreme_bytes(p as u8);
                }
            }
            assert(display@.lit =~= Set::empty());
            assert(display@.dirty =~= all_pages());
        }
        display
    }

    /// Message of initialisation command `i`: a control byte, the command and
    /// its argument, if it has one. `None` once all were sent.
    pub fn init_message(i: usize) -> (message: Option<Vec<u8>>)
        ensures
            match message {
                Some(message) => i < INIT_COUNT && message@ == if INIT_HAS_ARGUMENT@[i as int] {
                    seq![0x00, INIT_COMMANDS@[i as int], INIT_ARGUMENTS@[i as int]]
                } else {
                    seq![0x00, INIT_COMMANDS@[i as int]]
                },
                None => i >= INIT_COUNT,
            },
    {
        if i >= INIT_COUNT {
            return None;
        }
        let mut message: Vec<u8> = Vec::new();
        message.push(0x00);
        message.push(INIT_COMMANDS[i]);
        if INIT_HAS_ARGUMENT[i] {
            message.push(INIT_ARGUMENTS[i]);
        }
        assert(message@ =~= if INIT_HAS_ARGUMENT@[i as int] {
            seq![0x00u8, INIT_COMMANDS@[i as int], INIT_ARGUMENTS@[i as int]]
        } else {
            seq![0x00u8, INIT_COMMANDS@[i as int]]
        });
        Some(message)
    }

    /// All initialisation commands were sent: the display is on.
    pub fn initialized(&mut self)
        ensures
            final(self)@ == (DisplayModel { enabled: true, ..old(self)@ }),
    {
        self.enabled = true;
    }

    /// Switches the display off. Returns the command to send, unless it is off
    /// already.
    pub fn disable_display(&mut self) -> (command: Option<u8>)
        ensures
            final(self)@ == (DisplayModel { enabled: false, ..old(self)@ }),
            command == if old(self)@.enabled {
                Some(CMD_OFF)
            } else {
                None
            },
    {
        if self.enabled {
            self.enabled = false;
            Some(CMD_OFF)
        } else {
            None
        }
    }

    /// Switches the display on. Returns the command to send, unless it is on
    /// already.
    pub fn enable_display(&mut self) -> (command: Option<u8>)
        ensures
            final(self)@ == (DisplayModel { enabled: true, ..old(self)@ }),
            command == if old(self)@.enabled {
                None
            } else {
                Some(CMD_ON)
            },
    {
        if !self.enabled {
            self.enabled = true;
            Some(CMD_ON)
        } else {
            None
        }
    }

    fn page_is_dirty(&self, page: u8) -> (yes: bool)
        requires
            page < 8,
        ensures
            yes == self@.dirty.contains(page as int),
    {
        (self.dirty >> page) & 1 == 1
    }

    fn mark_dirty(&mut self, page: u8)
        requires
            page < 8,
        ensures
            final(self)@ == (DisplayModel {
                dirty: old(self)@.dirty.insert(page as int),
                ..old(self)@
            }),
            final(self).buffer == old(self).buffer,
    {
        proof {
            let mask = self.dirty;
            assert forall|p: int| 0 <= p < 8 implies #[trigger] page_bit(
                mask | (1u8 << page),
                p,
            ) == (p == page || page_bit(mask, p)) by {
                lemma_set_bit(mask, page, p as u8);
            }
        }
        self.dirty = self.dirty | (1u8 << page);
        assert(self@.dirty =~= old(self)@.dirty.insert(page as int));
    }

    /// Starts sending the dirty pages: returns them, lowest first, and counts
    /// them as clean.
    pub fn flush(&mut self) -> (pages: Vec<u8>)
        ensures
            final(self)@ == (DisplayModel { dirty: Set::empty(), ..old(self)@ }),
            forall|i: int|
                0 <= i < pages@.len() ==> old(self)@.dirty.contains(#[trigger] pages@[i] as int),
            forall|p: u8|
                old(self)@.dirty.contains(p as int) ==> #[trigger] pages@.contains(p),
            forall|i: int, j: int| 0 <= i < j < pages@.len() ==> pages@[i] < pages@[j],
    {
        let mut pages: Vec<u8> = Vec::new();
        let mut page: u8 = 0;
        while page < 8
            invariant
                page <= 8,
                *self == *old(self),
                forall|i: int|
                    0 <= i < pages@.len() ==> self@.dirty.contains(#[trigger] pages@[i] as int)
                        && pages@[i] < page,
                forall|p: u8|
                    p < page && self@.dirty.contains(p as int) ==> #[trigger] pages@.contains(p),
                forall|i: int, j: int| 0 <= i < j < pages@.len() ==> pages@[i] < pages@[j],
            decreases 8 - page,
        {
            let ghost before = pages@;
            if self.page_is_dirty(page) {
                pages.push(page);
                proof {
                    assert forall|p: u8|
                        p < page + 1 && self@.dirty.contains(p as int) implies
                        #[trigger] pages@.contains(p) by {
                        if p == page {
                            assert(pages@[before.len() as int] == p);
                        } else {
                            assert(before.contains(p));
                            let k = choose|k: int| 0 <= k < before.len() && before[k] == p;
                            assert(pages@[k] == p);
                        }
                    }
                }
            }
            page = page + 1;
        }
        self.dirty = 0;
        proof {
            assert forall|p: int| !(#[trigger] self@.dirty.contains(p)) by {
                if 0 <= p < 8 {
                    lemma_extreme_bytes(p as u8);
                }
            }
            assert(self@.dirty =~= Set::empty());
        }
        pages
    }

    /// Takes the lowest dirty page, which is to be sent, and counts it as
    /// clean. `None` if no page is dirty.
    pub fn flush_one_page(&mut self) -> (page: Option<u8>)
        ensures
            match page {
                Some(page) => old(self)@.lowest_dirty(page as int) && page < 8 && final(self)@ == (
                DisplayModel { dirty: old(self)@.dirty.remove(page as int), ..old(self)@ }),
                None => old(self)@.dirty =~= Set::empty() && final(self)@ == old(self)@,
            },
    {
        let mut page: u8 = 0;
        while page < 8
            invariant
                page <= 8,
                *self == *old(self),
                forall|p: int| 0 <= p < page ==> !self@.dirty.contains(p),
            decreases 8 - page,
        {
            if self.page_is_dirty(page) {
                proof {
                    let mask = self.dirty;
                    assert forall|p: int| 0 <= p < 8 implies #[trigger] page_bit(
                        mask & !(1u8 << page),
                        p,
                    ) == (p != page && page_bit(mask, p)) by {
                        lemma_clear_bit(mask, page, p as u8);
                    }
                }
                self.dirty = self.dirty & !(1u8 << page);
                assert(self@.dirty =~= old(self)@.dirty.remove(page as int));
                return Some(page);
            }
            page = page + 1;
        }
        assert(self@.dirty =~= Set::empty());
        None
    }

    /// Whether any page has to be sent.
    pub fn has_dirty_pages(&self) -> (any: bool)
        ensures
            any == !(self@.dirty =~= Set::<int>::empty()),
    {
        proof {
            lemma_nonzero_has_bit(self.dirty);
            if self.dirty != 0 {
                assert(page_bit(self.dirty, 0) || page_bit(self.dirty, 1) || page_bit(self.dirty, 2)
                    || page_bit(self.dirty, 3) || page_bit(self.dirty, 4) || page_bit(self.dirty, 5)
                    || page_bit(self.dirty, 6) || page_bit(self.dirty, 7));
                let p = choose|p: int| 0 <= p < 8 && page_bit(self.dirty, p);
                assert(self@.dirty.contains(p));
            } else {
                assert forall|p: int| !(#[trigger] self@.dirty.contains(p)) by {
                    if 0 <= p < 8 {
                        lemma_extreme_bytes(p as u8);
                    }
                }
            }
        }
        self.dirty != 0
    }

    /// Starts sending all pages, dirty or not.
    pub fn flush_all(&mut self) -> (pages: Vec<u8>)
        ensures
            final(self)@ == (DisplayModel { dirty: Set::empty(), ..old(self)@ }),
            forall|i: int| 0 <= i < pages@.len() ==> #[trigger] pages@[i] < 8,
            forall|p: u8| p < 8 ==> #[trigger] pages@.contains(p),
            forall|i: int, j: int| 0 <= i < j < pages@.len() ==> pages@[i] < pages@[j],
    {
        self.dirty = 0xFF;
        proof {
            assert forall|p: int| 0 <= p < 8 implies self@.dirty.contains(p) by {
                lemma_extreme_bytes(p as u8);
            }
        }
        self.flush()
    }

    /// Draws a pixel; outside the display nothing is drawn.
    pub fn set_pixel(&mut self, x: i32, y: i32, on: bool)
        ensures
            final(self)@ == old(self)@.with_pixel(x as int, y as int, on),
    {
        if x < 0 || x >= 128 || y < 0 || y >= 64 {
            return ;
        }
        let page: usize = y as usize / 8;
        let bit: u8 = (y as u32 % 8) as u8;
        let idx: usize = page * 128 + x as usize;
        let byte: u8 = self.buffer[idx];
        let value: u8 = if on {
            byte | (1u8 << bit)
        } else {
            byte & !(1u8 << bit)
        };
        self.buffer[idx] = value;
        let ghost target = old(self)@.with_pixel(x as int, y as int, on);
        proof {
            assert forall|q: (int, int)| self@.lit.contains(q) == target.lit.contains(q) by {
                if on_display(q.0, q.1) {
                    let k = q.1 / 8 * 128 + q.0;
                    if k == idx {
                        assert(q.1 / 8 == page);
                        assert(q.0 == x);
                        lemma_set_bit(byte, bit, (q.1 % 8) as u8);
                        lemma_clear_bit(byte, bit, (q.1 % 8) as u8);
                        assert(q.1 == 8 * page + q.1 % 8);
                    }
                }
            }
            assert(self@.lit =~= target.lit);
        }
        self.mark_dirty(page as u8);
        assert(self@ =~= target);
    }

    /// Clears a rectangular region.
    pub fn clear_region(&mut self, x: u32, y: u32, width: u32, height: u32)
        requires
            x + width <= u32::MAX,
            y + height <= u32::MAX,
        ensures
            final(self)@ == old(self)@.with_cleared(
                x as int,
                y as int,
                width as int,
                height as int,
            ),
    {
        let ghost start = self@;
        let mut row: u32 = y;
        assert(start =~= start.with_cleared(x as int, y as int, width as int, 0)) by {
            assert(start.lit =~= start.with_cleared(x as int, y as int, width as int, 0).lit);
            assert(start.dirty =~= start.with_cleared(x as int, y as int, width as int, 0).dirty);
        }
        while row < y + height && row < HEIGHT
            invariant
                y <= row <= y + height,
                x + width <= u32::MAX,
                y + height <= u32::MAX,
                self@ == start.with_cleared(x as int, y as int, width as int, row - y),
            decreases y + height - row,
        {
            let ghost before = self@;
            self.clear_row(x, row, width);
            row = row + 1;
            let ghost goal = start.with_cleared(x as int, y as int, width as int, row - y);
            proof {
                assert(self@.lit =~= goal.lit);
                assert(self@.dirty =~= goal.dirty);
                assert(self@ =~= goal);
            }
        }
        proof {
            let goal = start.with_cleared(x as int, y as int, width as int, height as int);
            assert forall|q: (int, int)| self@.lit.contains(q) == goal.lit.contains(q) by {
                old(self).lemma_on_display(q.0, q.1, 0);
            }
            assert(self@.lit =~= goal.lit);
            assert(self@.dirty =~= goal.dirty);
            assert(self@ =~= goal);
        }
    }

    fn clear_row(&mut self, x: u32, row: u32, width: u32)
        requires
            x + width <= u32::MAX,
            row < HEIGHT,
        ensures
            final(self)@ == old(self)@.with_cleared(x as int, row as int, width as int, 1),
    {
        let page: usize = row as usize / 8;
        let bit: u8 = (row % 8) as u8;
        let ghost start = self@;
        let ghost buffer0 = self.buffer@;
        let mut col: u32 = x;
        while col < x + width && col < WIDTH
            invariant
                x <= col <= x + width,
                x + width <= u32::MAX,
                row < HEIGHT,
                page == row / 8,
                bit == row % 8,
                self.dirty == old(self).dirty,
                self.enabled == old(self).enabled,
                buffer0.len() == 1024,
                forall|k: int|
                    0 <= k < 1024 ==> #[trigger] self.buffer@[k] == if page * 128 + x <= k < page
                        * 128 + col && k < page * 128 + 128 {
                        buffer0[k] & !(1u8 << bit)
                    } else {
                        buffer0[k]
                    },
            decreases x + width - col,
        {
            let idx: usize = page * 128 + col as usize;
            self.buffer[idx] = self.buffer[idx] & !(1u8 << bit);
            col = col + 1;
        }
        let ghost goal = start.with_cleared(x as int, row as int, width as int, 1);
        proof {
            assert forall|q: (int, int)| self@.lit.contains(q) == goal.lit.contains(q) by {
                if on_display(q.0, q.1) {
                    let k = q.1 / 8 * 128 + q.0;
                    assert(0 <= k < 1024);
                    lemma_clear_bit(buffer0[k], bit, (q.1 % 8) as u8);
                    if q.1 / 8 == page {
                        assert(k == page * 128 + q.0);
                        assert(q.1 == 8 * page + q.1 % 8);
                    }
                }
            }
            assert(self@.lit =~= goal.lit);
        }
        self.mark_dirty(page as u8);
        assert(self@.dirty =~= goal.dirty);
        assert(self@ =~= goal);
    }

    /// Message that addresses a page.
    pub fn page_command(page: u8) -> (message: [u8; 4])
        requires
            page < 8,
        ensures
            message@ == seq![0x00u8, (0xB0 + page) as u8, 0x02, 0x10],
    {
        let message: [u8; 4] = [0x00, 0xB0 + page, COL_OFFSET % 16, 0x10 + COL_OFFSET / 16];
        assert(message@ =~= seq![0x00u8, (0xB0 + page) as u8, 0x02, 0x10]);
        message
    }

    /// Message with the contents of a page: a control byte, then a byte per
    /// column, in which bit `r` is the pixel in row `r` of the page.
    pub fn page_data(&self, page: u8) -> (message: [u8; 129])
        requires
            page < 8,
        ensures
            message@[0] == 0x40,
            forall|x: int, r: int|
                0 <= x < 128 && 0 <= r < 8 ==> #[trigger] bit_of(message@[x + 1], r as u8)
                    == self@.lit.contains((x, 8 * page + r)),
    {
        let mut data: [u8; 129] = [0u8;129];
        data[0] = 0x40;
        let offset: usize = page as usize * 128;
        crate::bytes::put(&mut data, 1, &self.buffer[offset..offset + 128]);
        assert forall|x: int, r: int| 0 <= x < 128 && 0 <= r < 8 implies #[trigger] bit_of(
            data@[x + 1],
            r as u8,
        ) == self@.lit.contains((x, 8 * page + r)) by {
            assert((8 * page + r) / 8 == page);
            assert((8 * page + r) % 8 == r);
        }
        data
    }

    /// Sets all pixels alike.
    pub fn clear_all(&mut self, on: bool)
        ensures
            final(self)@ == old(self)@.with_all(on),
    {
        let byte: u8 = if on {
            0xFF
        } else {
            0x00
        };
        self.buffer = [byte;BUF_SIZE];
        self.dirty = 0xFF;
        let ghost goal = old(self)@.with_all(on);
        proof {
            assert forall|q: (int, int)| self@.lit.contains(q) == goal.lit.contains(q) by {
                if on_display(q.0, q.1) {
                    lemma_extreme_bytes((q.1 % 8) as u8);
                }
            }
            assert forall|p: int| self@.dirty.contains(p) == all_pages().contains(p) by {
                if 0 <= p < 8 {
                    lemma_extreme_bytes(p as u8);
                }
            }
            assert(self@.lit =~= goal.lit);
            assert(self@.dirty =~= goal.dirty);
            assert(self@ =~= goal);
        }
    }
}

/// Pages that are not dirty show on the screen, which holds what was last sent.
pub open spec fn in_sync(d: DisplayModel, screen: Set<(int, int)>) -> bool {
    forall|x: int, y: int|
        on_display(x, y) && !d.dirty.contains(y / 8) ==> (#[trigger] d.lit.contains((x, y))
            == screen.contains((x, y)))
}

/// The screen after a page was sent.
pub open spec fn sent(d: DisplayModel, screen: Set<(int, int)>, page: int) -> Set<(int, int)> {
    Set::new(
        |p: (int, int)|
            if p.1 / 8 == page {
                d.lit.contains(p)
            } else {
                screen.contains(p)
            },
    )
}

/// Whatever is drawn, clean pages stay what the screen shows; sending a page
/// that is then counted as clean keeps that so.
pub proof fn law_clean_pages_are_shown(
    d: DisplayModel,
    screen: Set<(int, int)>,
    x: int,
    y: int,
    width: int,
    height: int,
    on: bool,
    page: int,
)
    requires
        in_sync(d, screen),
    ensures
        in_sync(d.with_pixel(x, y, on), screen),
        in_sync(d.with_cleared(x, y, width, height), screen),
        in_sync(d.with_all(on), screen),
        in_sync(DisplayModel { dirty: d.dirty.remove(page), ..d }, sent(d, screen, page)),
{
    let c = d.with_cleared(x, y, width, height);
    assert forall|px: int, py: int|
        on_display(px, py) && !c.dirty.contains(py / 8) implies (#[trigger] c.lit.contains((px, py))
        == screen.contains((px, py))) by {
        assert(!d.dirty.contains(py / 8));
        assert(d.lit.contains((px, py)) == screen.contains((px, py)));
    }
    let p = d.with_pixel(x, y, on);
    assert forall|px: int, py: int|
        on_display(px, py) && !p.dirty.contains(py / 8) implies (#[trigger] p.lit.contains((px, py))
        == screen.contains((px, py))) by {
        assert(!d.dirty.contains(py / 8));
        assert(d.lit.contains((px, py)) == screen.contains((px, py)));
    }
    let a = d.with_all(on);
    assert forall|px: int, py: int|
        on_display(px, py) && !a.dirty.contains(py / 8) implies (#[trigger] a.lit.contains((px, py))
        == screen.contains((px, py))) by {
        assert(a.dirty.contains(py / 8));
    }
    let s = sent(d, screen, page);
    let r = DisplayModel { dirty: d.dirty.remove(page), ..d };
    assert forall|px: int, py: int|
        on_display(px, py) && !r.dirty.contains(py / 8) implies (#[trigger] r.lit.contains((px, py))
        == s.contains((px, py))) by {
        if py / 8 != page {
            assert(d.lit.contains((px, py)) == screen.contains((px, py)));
        }
    }
}

/// Once no page is dirty, the screen shows the whole frame buffer.
pub proof fn law_clean_display_is_shown(d: DisplayModel, screen: Set<(int, int)>, x: int, y: int)
    requires
        in_sync(d, screen),
        d.dirty =~= Set::<int>::empty(),
        on_display(x, y),
    ensures
        d.lit.contains((x, y)) == screen.contains((x, y)),
{
}

/// The bits of a byte add up to it, bit 0 the least.
pub proof fn law_bits(byte: u8)
    ensures
        byte == (if bit_of(byte, 0) { 1int } else { 0 }) + (if bit_of(byte, 1) { 2int } else { 0 }) + (if bit_of(byte, 2) { 4int } else { 0 }) + (if bit_of(byte, 3) { 8int } else { 0 }) + (if bit_of(byte, 4) { 16int } else { 0 }) + (if bit_of(byte, 5) { 32int } else { 0 }) + (if bit_of(byte, 6) { 64int } else { 0 }) + (if bit_of(byte, 7) { 128int } else { 0 }),
{
    assert(byte == ((byte >> 0) & 1) + 2 * ((byte >> 1) & 1) + 4 * ((byte >> 2) & 1) + 8 * ((byte
        >> 3) & 1) + 16 * ((byte >> 4) & 1) + 32 * ((byte >> 5) & 1) + 64 * ((byte >> 6) & 1) + 128
        * ((byte >> 7) & 1) && (byte >> 0) & 1 <= 1 && (byte >> 1) & 1 <= 1 && (byte >> 2) & 1 <= 1
        && (byte >> 3) & 1 <= 1 && (byte >> 4) & 1 <= 1 && (byte >> 5) & 1 <= 1 && (byte >> 6) & 1
        <= 1 && (byte >> 7) & 1 <= 1) by (bit_vector);
}

/// The display is 128 columns by 64 rows. Drawing a pixel on it changes that pixel
/// and no other, and its page has to be sent; beyond it nothing changes.
pub proof fn law_pixel(d: DisplayModel, x: int, y: int, on: bool, px: int, py: int, page: int)
    ensures
        ({
            let after = d.with_pixel(x, y, on);
            let inside = 0 <= x <= 127 && 0 <= y <= 63;
            &&& inside ==> after.lit.contains((x, y)) == on
            &&& !inside ==> after == d
            &&& (px, py) != (x, y) ==> after.lit.contains((px, py)) == d.lit.contains((px, py))
            &&& inside && 8 * page <= y < 8 * page + 8 ==> after.dirty.contains(page)
            &&& !(8 * page <= y < 8 * page + 8) ==> after.dirty.contains(page)
                == d.dirty.contains(page)
            &&& after.enabled == d.enabled
        }),
{
}

/// Clearing a region darkens it, and no pixel outside; the pages that share a row
/// with it have to be sent, and no others on its account.
pub proof fn law_clearing(
    d: DisplayModel,
    x: int,
    y: int,
    width: int,
    height: int,
    px: int,
    py: int,
    page: int,
)
    requires
        0 <= px < 128,
        0 <= py < 64,
        0 <= page < 8,
    ensures
        ({
            let after = d.with_cleared(x, y, width, height);
            let inside = x <= px && px < x + width && y <= py && py < y + height;
            &&& inside ==> !after.lit.contains((px, py))
            &&& !inside ==> after.lit.contains((px, py)) == d.lit.contains((px, py))
            &&& d.dirty.contains(page) ==> after.dirty.contains(page)
            &&& y <= py < y + height ==> after.dirty.contains(py / 8)
            &&& y + height <= 8 * page || 8 * page + 8 <= y || height <= 0
                ==> after.dirty.contains(page) == d.dirty.contains(page)
            &&& after.enabled == d.enabled
        }),
{
    let after = d.with_cleared(x, y, width, height);
    if y <= py < y + height {
        assert(8 * (py / 8) <= py < 8 * (py / 8) + 8);
    }
}

/// Clearing everything lights all pixels or none, and all pages have to be sent.
pub proof fn law_filling(d: DisplayModel, on: bool, px: int, py: int, page: int)
    ensures
        d.with_all(on).lit.contains((px, py)) <==> on && 0 <= px < 128 && 0 <= py < 64,
        0 <= page < 8 ==> d.with_all(on).dirty.contains(page),
        d.with_all(on).enabled == d.enabled,
{
}

/// The page to be sent next is the least of those that have to be.
pub proof fn law_lowest_page(d: DisplayModel, page: int, other: int)
    requires
        d.lowest_dirty(page),
        d.dirty.contains(other),
        0 <= other,
    ensures
        d.dirty.contains(page),
        page <= other,
{
}

/// Drawing a pixel, clearing a region and setting all pixels change what they are
/// asked to on the 128 by 64 pixels, and mark the pages they touch.
pub proof fn law_drawing_calls(
    a: &mut Sh1106,
    x: i32,
    y: i32,
    on: bool,
    b: &mut Sh1106,
    left: u32,
    top: u32,
    width: u32,
    height: u32,
    c: &mut Sh1106,
    px: int,
    py: int,
)
    requires
        0 <= px < 128,
        0 <= py < 64,
        left + width <= u32::MAX,
        top + height <= u32::MAX,
        call_ensures(Sh1106::set_pixel, (a, x, y, on), ()),
        call_ensures(Sh1106::clear_region, (b, left, top, width, height), ()),
        call_ensures(Sh1106::clear_all, (c, on), ()),
    ensures
        final(a)@.lit.contains((px, py)) <==> if px == x && py == y {
            on
        } else {
            old(a)@.lit.contains((px, py))
        },
        px == x && py == y ==> final(a)@.dirty.contains(py / 8),
        final(b)@.lit.contains((px, py)) <==> old(b)@.lit.contains((px, py)) && !(left <= px && px
            < left + width && top <= py && py < top + height),
        top <= py < top + height ==> final(b)@.dirty.contains(py / 8),
        final(c)@.lit.contains((px, py)) <==> on,
        final(c)@.dirty.contains(py / 8),
        final(a)@.enabled == old(a)@.enabled && final(b)@.enabled == old(b)@.enabled,
{
    law_pixel(old(a)@, x as int, y as int, on, px, py, py / 8);
    law_clearing(
        old(b)@,
        left as int,
        top as int,
        width as int,
        height as int,
        px,
        py,
        py / 8,
    );
    law_filling(old(c)@, on, px, py, py / 8);
}

/// Every page that was drawn to is sent once, the lowest first, and counts as clean
/// then; the pixels stay.
#[verifier::rlimit(50)]
#[verifier::spinoff_prover]
pub proof fn law_flushing(
    d: &mut Sh1106,
    pages: Vec<u8>,
    e: &mut Sh1106,
    page: Option<u8>,
    f: &mut Sh1106,
    all: Vec<u8>,
    p: u8,
    dirty: bool,
    g: Sh1106,
)
    requires
        call_ensures(Sh1106::flush, (d,), pages),
        call_ensures(Sh1106::flush_one_page, (e,), page),
        call_ensures(Sh1106::flush_all, (f,), all),
        call_ensures(Sh1106::has_dirty_pages, (&g,), dirty),
        0 <= p < 8,
    ensures
        pages@.contains(p) <==> old(d)@.dirty.contains(p as int),
        !final(d)@.dirty.contains(p as int) && final(d)@.lit == old(d)@.lit,
        page is Some ==> old(e)@.dirty.contains(page->0 as int) && !final(e)@.dirty.contains(
            page->0 as int),
        page is Some && old(e)@.dirty.contains(p as int) ==> page->0 <= p,
        page is Some && p != page->0 ==> final(e)@.dirty.contains(p as int) == old(
            e)@.dirty.contains(p as int),
        page is None ==> !old(e)@.dirty.contains(p as int),
        final(e)@.lit == old(e)@.lit,
        all@.contains(p) && all@.len() == 8,
        !final(f)@.dirty.contains(p as int) && final(f)@.lit == old(f)@.lit,
        g@.dirty.contains(p as int) ==> dirty,
{
    if pages@.contains(p) {
        let k = choose|k: int| 0 <= k < pages@.len() && pages@[k] == p;
        assert(old(d)@.dirty.contains(pages@[k] as int));
    }
    assert(all@.contains(p));
    lemma_eight(all@);
}

proof fn lemma_eight(s: Seq<u8>)
    requires
        forall|i: int| 0 <= i < s.len() ==> #[trigger] s[i] < 8,
        forall|p: u8| p < 8 ==> #[trigger] s.contains(p),
        forall|i: int, j: int| 0 <= i < j < s.len() ==> s[i] < s[j],
    ensures
        s.len() == 8,
{
    lemma_rising(s, s.len() as int - 1);
    lemma_reached(s, 7);
}

proof fn lemma_rising(s: Seq<u8>, i: int)
    requires
        forall|i: int, j: int| 0 <= i < j < s.len() ==> s[i] < s[j],
        i < s.len(),
    ensures
        i >= 0 ==> s[i] >= i,
    decreases i,
{
    if i > 0 {
        lemma_rising(s, i - 1);
        assert(s[i - 1] < s[i]);
    }
}

proof fn lemma_reached(s: Seq<u8>, v: int)
    requires
        forall|p: u8| p < 8 ==> #[trigger] s.contains(p),
        forall|i: int, j: int| 0 <= i < j < s.len() ==> s[i] < s[j],
        0 <= v < 8,
    ensures
        exists|k: int| v <= k < s.len() && #[trigger] s[k] == v,
    decreases v,
{
    assert(s.contains(v as u8));
    let k = choose|k: int| 0 <= k < s.len() && s[k] == v as u8;
    if v > 0 {
        lemma_reached(s, v - 1);
        let j = choose|j: int| v - 1 <= j < s.len() && #[trigger] s[j] == v - 1;
        if k < j {
            assert(s[k] < s[j]);
        }
        assert(k != j);
    }
    assert(s[k] == v);
}

/// What is sent for a page: its number, the two columns that are not seen, and a
/// byte for each of its 128 columns with the topmost pixel in the lowest bit.
pub proof fn law_page_messages(d: Sh1106, page: u8, address: [u8; 4], data: [u8; 129], x: int, r: int)
    requires
        page < 8,
        0 <= x < 128,
        0 <= r < 8,
        call_ensures(Sh1106::page_command, (page,), address),
        call_ensures(Sh1106::page_data, (&d, page), data),
    ensures
        address@[0] == 0 && address@[1] == 0xB0 + page && address@[2] == 2 && address@[3] == 0x10,
        data@[0] == 0x40,
        bit_of(data@[x + 1], r as u8) == d@.lit.contains((x, 8 * page + r)),
{
}

/// Switching the display on or off sends a command only if it is a change.
pub proof fn law_switching(off: &mut Sh1106, a: Option<u8>, on: &mut Sh1106, b: Option<u8>)
    requires
        call_ensures(Sh1106::disable_display, (off,), a),
        call_ensures(Sh1106::enable_display, (on,), b),
    ensures
        !final(off)@.enabled && final(on)@.enabled,
        a is Some <==> old(off)@.enabled,
        a is Some ==> a->0 == 0xAE,
        b is Some <==> !old(on)@.enabled,
        b is Some ==> b->0 == 0xAF,
        final(off)@.lit == old(off)@.lit && final(on)@.lit == old(on)@.lit,
{
}

} // verus!
