//! Rendering of figures into the frame buffer.
//!
//! Rectangles are drawn here; glyphs and rounded corners come from the
//! graphics crate, as bitmaps.

use embedded_graphics::framebuffer::Framebuffer;
use embedded_graphics::geometry::{Point, Size};
use embedded_graphics::mono_font::ascii::{FONT_10X20, FONT_6X10, FONT_6X9, FONT_9X15_BOLD};
use embedded_graphics::mono_font::MonoTextStyle;
use embedded_graphics::pixelcolor::raw::{LittleEndian, RawU1};
use embedded_graphics::pixelcolor::BinaryColor;
use embedded_graphics::primitives::{Primitive, PrimitiveStyle, Rectangle, RoundedRectangle};
use embedded_graphics::text::{Alignment, Text};
use embedded_graphics::Drawable;
use vstd::prelude::*;

use crate::gui::canvas::{Align, Area, Canvas, DrawOp, Font};
use crate::gui::display::{Sh1106, BUF_SIZE, HEIGHT, WIDTH};

verus! {

/// Largest coordinate, in either direction, of what the graphics crate draws.
pub const MAX_COORDINATE: i32 = 1024;

/// Largest size of a rounded rectangle and its corners.
pub const MAX_SIZE: u32 = 1024;

/// Longest text, in characters.
pub const MAX_TEXT: usize = 1024;

/// Bitmap of a text: the pixels of its glyphs.
pub uninterp spec fn text_bitmap(
    text: Seq<char>,
    x: i32,
    y: i32,
    font: Font,
    align: Align,
) -> Seq<u8>;

/// Bitmap of the border of a rectangle with rounded corners.
pub uninterp spec fn rounded_bitmap(area: Area, radius: u32) -> Seq<u8>;

/// Height of a font's cells.
pub open spec fn cell_height(font: Font) -> int {
    match font {
        Font::Small => 9,
        Font::Normal => 10,
        Font::Title => 15,
        Font::Large => 20,
    }
}

/// Width of a font's cells.
pub open spec fn cell_width(font: Font) -> int {
    match font {
        Font::Small => 6,
        Font::Normal => 6,
        Font::Title => 9,
        Font::Large => 10,
    }
}

/// Distance of the baseline from the top of the cell.
pub open spec fn baseline(font: Font) -> int {
    match font {
        Font::Small => 6,
        Font::Normal => 7,
        Font::Title => 11,
        Font::Large => 15,
    }
}

/// The pixels of a text without line breaks lie in the rows of its cells; if it
/// is aligned to the left, they lie in its cells.
pub open spec fn in_cells(
    bitmap: Seq<u8>,
    text: Seq<char>,
    x: i32,
    y: i32,
    font: Font,
    align: Align,
) -> bool {
    !text.contains('\n') ==> forall|px: int, py: int|
        crate::gui::display::on_display(px, py) && #[trigger] bitmap_pixel(bitmap, px, py) ==> {
            &&& y - baseline(font) <= py < y - baseline(font) + cell_height(font)
            &&& align == Align::Left ==> x <= px < x + cell_width(font) * text.len()
        }
}

/// `Text::draw` of embedded-graphics into a blank `Framebuffer`, in the given
/// font and alignment, without a background: the frame buffer's bytes, 16 for
/// each row. They depend on the arguments alone, and each character is drawn
/// in a cell of the font's size, one beside the other. What the glyphs look
/// like, and where a text that is not aligned to the left begins, is not
/// stated.
#[verifier::external_body]
fn draw_text(text: &str, x: i32, y: i32, font: Font, align: Align) -> (bitmap: [u8; BUF_SIZE])
    requires
        -MAX_COORDINATE <= x <= MAX_COORDINATE,
        -MAX_COORDINATE <= y <= MAX_COORDINATE,
        text@.len() <= MAX_TEXT,
    ensures
        bitmap@ == text_bitmap(text@, x, y, font, align),
        in_cells(bitmap@, text@, x, y, font, align),
{
    let face = match font {
        Font::Small => &FONT_6X9, Font::Normal => &FONT_6X10,
        Font::Title => &FONT_9X15_BOLD, Font::Large => &FONT_10X20,
    };
    let side = match align {
        Align::Left => Alignment::Left, Align::Center => Alignment::Center,
        Align::Right => Alignment::Right,
    };
    let style = MonoTextStyle::new(face, BinaryColor::On);
    let mut frame = Framebuffer::<BinaryColor, RawU1, LittleEndian, 128, 64, BUF_SIZE>::new();
    let _ = Text::with_alignment(text, Point::new(x, y), style, side).draw(&mut frame);
    *frame.data()
}

/// `RoundedRectangle::draw` of embedded-graphics with a border of one pixel and
/// equal corners, into a blank `Framebuffer`: the frame buffer's bytes, 16 for
/// each row. What they are is not stated, only that they depend on the
/// arguments alone.
#[verifier::external_body]
fn draw_rounded(area: Area, radius: u32) -> (bitmap: [u8; BUF_SIZE])
    requires
        -MAX_COORDINATE <= area.x <= MAX_COORDINATE,
        -MAX_COORDINATE <= area.y <= MAX_COORDINATE,
        area.width <= MAX_SIZE,
        area.height <= MAX_SIZE,
        radius <= MAX_SIZE,
    ensures
        bitmap@ == rounded_bitmap(area, radius),
{
    let corner = Point::new(area.x, area.y);
    let rectangle = Rectangle::new(corner, Size::new(area.width, area.height));
    let rounded = RoundedRectangle::with_equal_corners(rectangle, Size::new(radius, radius));
    let style = PrimitiveStyle::with_stroke(BinaryColor::On, 1);
    let mut frame = Framebuffer::<BinaryColor, RawU1, LittleEndian, 128, 64, BUF_SIZE>::new();
    let _ = rounded.into_styled(style).draw(&mut frame);
    *frame.data()
}

/// Pixel of a bitmap: rows of 16 bytes, the leftmost pixel in the highest bit.
pub open spec fn bitmap_pixel(bitmap: Seq<u8>, x: int, y: int) -> bool {
    crate::gui::display::bit_of(bitmap[16 * y + x / 8], (7 - x % 8) as u8)
}

pub open spec fn in_area(area: Area, x: int, y: int) -> bool {
    area.x <= x < area.x + area.width && area.y <= y < area.y + area.height
}

/// The outermost pixels of an area.
pub open spec fn on_border(area: Area, x: int, y: int) -> bool {
    in_area(area, x, y) && (x == area.x || x == area.x + area.width - 1 || y == area.y || y
        == area.y + area.height - 1)
}

/// Whether a figure has a pixel.
pub open spec fn has_pixel(figure: crate::gui::canvas::Figure, x: int, y: int) -> bool {
    match figure {
        crate::gui::canvas::Figure::Fill { area, .. } => in_area(area, x, y),
        crate::gui::canvas::Figure::Outline { area } => on_border(area, x, y),
        crate::gui::canvas::Figure::Rounded { area, radius } => bitmap_pixel(
            rounded_bitmap(area, radius),
            x,
            y,
        ),
        crate::gui::canvas::Figure::Text { text, x: tx, y: ty, font, align, .. } => bitmap_pixel(
            text_bitmap(text, tx, ty, font, align),
            x,
            y,
        ),
        crate::gui::canvas::Figure::Clear { area } => in_area(area, x, y),
    }
}

/// Whether a figure's pixels are lit.
pub open spec fn is_lit(figure: crate::gui::canvas::Figure) -> bool {
    match figure {
        crate::gui::canvas::Figure::Fill { on, .. } => on,
        crate::gui::canvas::Figure::Text { on, .. } => on,
        crate::gui::canvas::Figure::Clear { .. } => false,
        _ => true,
    }
}

/// The pixels of a figure on the display.
pub open spec fn pixels_of(figure: crate::gui::canvas::Figure) -> Set<(int, int)> {
    Set::new(
        |p: (int, int)|
            crate::gui::display::on_display(p.0, p.1) && has_pixel(figure, p.0, p.1),
    )
}

/// The pages that hold some of the pixels.
pub open spec fn pages_of(pixels: Set<(int, int)>) -> Set<int> {
    Set::new(|page: int| exists|p: (int, int)| #[trigger] pixels.contains(p) && p.1 / 8 == page)
}

/// A display of which some pixels were drawn.
pub open spec fn painted(
    d: crate::gui::display::DisplayModel,
    pixels: Set<(int, int)>,
    on: bool,
) -> crate::gui::display::DisplayModel {
    crate::gui::display::DisplayModel {
        lit: if on {
            d.lit.union(pixels)
        } else {
            d.lit.difference(pixels)
        },
        dirty: d.dirty.union(pages_of(pixels)),
        ..d
    }
}

/// A display on which a figure was drawn.
pub open spec fn drawn(
    d: crate::gui::display::DisplayModel,
    figure: crate::gui::canvas::Figure,
) -> crate::gui::display::DisplayModel {
    match figure {
        crate::gui::canvas::Figure::Clear { area } => d.with_cleared(
            area.x as int,
            area.y as int,
            area.width as int,
            area.height as int,
        ),
        _ => painted(d, pixels_of(figure), is_lit(figure)),
    }
}

/// A display on which figures were drawn one after the other.
pub open spec fn drawn_all(
    d: crate::gui::display::DisplayModel,
    figures: Seq<crate::gui::canvas::Figure>,
) -> crate::gui::display::DisplayModel
    decreases figures.len(),
{
    if figures.len() == 0 {
        d
    } else {
        drawn(drawn_all(d, figures.drop_last()), figures.last())
    }
}

/// Whether a figure can be drawn.
pub open spec fn fits(figure: crate::gui::canvas::Figure) -> bool {
    match figure {
        crate::gui::canvas::Figure::Fill { .. } => true,
        crate::gui::canvas::Figure::Outline { .. } => true,
        crate::gui::canvas::Figure::Rounded { area, radius } => {
            &&& -MAX_COORDINATE <= area.x <= MAX_COORDINATE
            &&& -MAX_COORDINATE <= area.y <= MAX_COORDINATE
            &&& area.width <= MAX_SIZE
            &&& area.height <= MAX_SIZE
            &&& radius <= MAX_SIZE
        },
        crate::gui::canvas::Figure::Text { text, x, y, .. } => {
            &&& -MAX_COORDINATE <= x <= MAX_COORDINATE
            &&& -MAX_COORDINATE <= y <= MAX_COORDINATE
            &&& text.len() <= MAX_TEXT
        },
        crate::gui::canvas::Figure::Clear { area } => {
            &&& 0 <= area.x
            &&& 0 <= area.y
            &&& area.x + area.width <= u32::MAX
            &&& area.y + area.height <= u32::MAX
        },
    }
}

/// A drawn text keeps to its cells.
pub open spec fn placed(figure: crate::gui::canvas::Figure) -> bool {
    match figure {
        crate::gui::canvas::Figure::Text { text, x, y, font, align, .. } => in_cells(
            text_bitmap(text, x, y, font, align),
            text,
            x,
            y,
            font,
            align,
        ),
        _ => true,
    }
}

pub open spec fn all_placed(figures: Seq<crate::gui::canvas::Figure>) -> bool {
    forall|i: int| 0 <= i < figures.len() ==> placed(#[trigger] figures[i])
}

pub open spec fn all_fit(figures: Seq<crate::gui::canvas::Figure>) -> bool {
    forall|i: int| 0 <= i < figures.len() ==> fits(#[trigger] figures[i])
}

/// Pixels to be drawn alike.
enum Shape<'a> {
    Area(Area),
    Border(Area),
    Bitmap(&'a [u8; BUF_SIZE]),
}

spec fn shape_has(shape: Shape, x: int, y: int) -> bool {
    match shape {
        Shape::Area(area) => in_area(area, x, y),
        Shape::Border(area) => on_border(area, x, y),
        Shape::Bitmap(bitmap) => bitmap_pixel(bitmap@, x, y),
    }
}

/// The shape's pixels that come before column `col` of row `row`.
spec fn visited(shape: Shape, row: int, col: int) -> Set<(int, int)> {
    Set::new(
        |p: (int, int)|
            crate::gui::display::on_display(p.0, p.1) && shape_has(shape, p.0, p.1) && (p.1 < row
                || p.1 == row && p.0 < col),
    )
}

spec fn shape_pixels(shape: Shape) -> Set<(int, int)> {
    Set::new(
        |p: (int, int)|
            crate::gui::display::on_display(p.0, p.1) && shape_has(shape, p.0, p.1),
    )
}

proof fn lemma_painted_nothing(d: crate::gui::display::DisplayModel, on: bool)
    ensures
        painted(d, Set::empty(), on) == d,
{
    let p = painted(d, Set::empty(), on);
    assert(p.lit =~= d.lit);
    assert(p.dirty =~= d.dirty);
    assert(p =~= d);
}

proof fn lemma_painted_one_more(
    d: crate::gui::display::DisplayModel,
    pixels: Set<(int, int)>,
    x: int,
    y: int,
    on: bool,
)
    requires
        crate::gui::display::on_display(x, y),
    ensures
        painted(d, pixels, on).with_pixel(x, y, on) == painted(d, pixels.insert((x, y)), on),
{
    let a = painted(d, pixels, on).with_pixel(x, y, on);
    let more = pixels.insert((x, y));
    let b = painted(d, more, on);
    assert(a.lit =~= b.lit);
    assert forall|page: int| a.dirty.contains(page) == b.dirty.contains(page) by {
        if pages_of(pixels).contains(page) {
            let p = choose|p: (int, int)| #[trigger] pixels.contains(p) && p.1 / 8 == page;
            assert(more.contains(p));
        }
        if page == y / 8 {
            assert(more.contains((x, y)));
        }
        if pages_of(more).contains(page) {
            let p = choose|p: (int, int)| #[trigger] more.contains(p) && p.1 / 8 == page;
            assert(p == (x, y) || pixels.contains(p));
        }
    }
    assert(a.dirty =~= b.dirty);
    assert(a =~= b);
}

spec fn clamped(v: int, limit: int) -> int {
    if v < 0 {
        0
    } else if v > limit {
        limit
    } else {
        v
    }
}

/// The part of `start .. start + len` within `0 .. limit`.
fn clip(start: i32, len: u32, limit: u32) -> (range: (u32, u32))
    requires
        limit <= 1000,
    ensures
        range.0 == clamped(start as int, limit as int),
        range.1 == clamped(start + len, limit as int),
{
    let end: i64 = start as i64 + len as i64;
    let low: u32 = if start < 0 {
        0
    } else if start as u32 > limit {
        limit
    } else {
        start as u32
    };
    let high: u32 = if end < 0 {
        0
    } else if end > limit as i64 {
        limit
    } else {
        end as u32
    };
    (low, high)
}

impl<'a> Shape<'a> {
    fn contains(&self, x: u32, y: u32) -> (yes: bool)
        requires
            x < WIDTH,
            y < HEIGHT,
        ensures
            yes == shape_has(*self, x as int, y as int),
    {
        match self {
            Shape::Area(area) => area_contains(area, x, y),
            Shape::Border(area) => {
                let right: i64 = area.x as i64 + area.width as i64 - 1;
                let bottom: i64 = area.y as i64 + area.height as i64 - 1;
                area_contains(area, x, y) && (x as i64 == area.x as i64 || x as i64 == right
                    || y as i64 == area.y as i64 || y as i64 == bottom)
            },
            Shape::Bitmap(bitmap) => {
                let byte: u8 = bitmap[16 * y as usize + x as usize / 8];
                let bit: u8 = (7 - x % 8) as u8;
                (byte >> bit) & 1 == 1
            },
        }
    }

    /// Columns and rows outside of which the shape has no pixels on the
    /// display.
    fn bounds(&self) -> (b: ((u32, u32), (u32, u32)))
        ensures
            b.0.0 <= WIDTH,
            b.0.1 <= WIDTH,
            b.1.0 <= HEIGHT,
            b.1.1 <= HEIGHT,
            forall|x: int, y: int|
                crate::gui::display::on_display(x, y) && #[trigger] shape_has(*self, x, y)
                    ==> b.0.0 <= x < b.0.1 && b.1.0 <= y < b.1.1,
    {
        match self {
            Shape::Area(area) => (
                clip(area.x, area.width, WIDTH),
                clip(area.y, area.height, HEIGHT),
            ),
            Shape::Border(area) => (
                clip(area.x, area.width, WIDTH),
                clip(area.y, area.height, HEIGHT),
            ),
            Shape::Bitmap(_) => ((0, WIDTH), (0, HEIGHT)),
        }
    }
}

fn area_contains(area: &Area, x: u32, y: u32) -> (yes: bool)
    ensures
        yes == in_area(*area, x as int, y as int),
{
    let left: i64 = area.x as i64;
    let top: i64 = area.y as i64;
    left <= x as i64 && (x as i64) < left + area.width as i64 && top <= y as i64 && (y as i64) < top
        + area.height as i64
}

/// Draws the pixels of a shape.
fn paint(display: &mut Sh1106, shape: &Shape, on: bool)
    ensures
        final(display)@ == painted(old(display)@, shape_pixels(*shape), on),
{
    let ((x0, x1), (y0, y1)) = shape.bounds();
    let ghost start = display@;
    let mut y: u32 = y0;
    proof {
        assert(visited(*shape, y0 as int, 0) =~= Set::empty());
        lemma_painted_nothing(start, on);
    }
    while y < y1
        invariant
            y1 <= HEIGHT,
            x0 <= WIDTH,
            x1 <= WIDTH,
            forall|px: int, py: int|
                crate::gui::display::on_display(px, py) && #[trigger] shape_has(*shape, px, py)
                    ==> x0 <= px < x1 && y0 <= py < y1,
            display@ == painted(start, visited(*shape, y as int, 0), on),
        decreases y1 - y,
    {
        let mut x: u32 = x0;
        assert(visited(*shape, y as int, 0) =~= visited(*shape, y as int, x0 as int));
        while x < x1
            invariant
                y < y1,
                y1 <= HEIGHT,
                x0 <= WIDTH,
                x1 <= WIDTH,
                x0 <= x,
                x <= x1 || x == x0,
                display@ == painted(start, visited(*shape, y as int, x as int), on),
            decreases x1 - x,
        {
            let ghost before = visited(*shape, y as int, x as int);
            let ghost after = visited(*shape, y as int, x + 1);
            if shape.contains(x, y) {
                display.set_pixel(x as i32, y as i32, on);
                proof {
                    lemma_painted_one_more(start, before, x as int, y as int, on);
                    assert(after =~= before.insert((x as int, y as int)));
                }
            } else {
                assert(after =~= before);
            }
            x = x + 1;
        }
        assert(visited(*shape, y as int, x as int) =~= visited(*shape, y + 1, 0));
        y = y + 1;
    }
    assert(visited(*shape, y as int, 0) =~= shape_pixels(*shape));
}

/// Whether a figure can be drawn.
pub fn is_drawable(op: &DrawOp) -> (yes: bool)
    ensures
        yes == fits(op@),
{
    match op {
        DrawOp::Fill { .. } => true,
        DrawOp::Outline { .. } => true,
        DrawOp::Rounded { area, radius } => -MAX_COORDINATE <= area.x && area.x <= MAX_COORDINATE
            && -MAX_COORDINATE <= area.y && area.y <= MAX_COORDINATE && area.width <= MAX_SIZE
            && area.height <= MAX_SIZE && *radius <= MAX_SIZE,
        DrawOp::Text { caption, x, y, .. } => -MAX_COORDINATE <= *x && *x <= MAX_COORDINATE
            && -MAX_COORDINATE <= *y && *y <= MAX_COORDINATE && caption.as_str().unicode_len()
            <= MAX_TEXT,
        DrawOp::Clear { area } => area.x >= 0 && area.y >= 0 && area.x as u64 + area.width as u64
            <= u32::MAX as u64 && area.y as u64 + area.height as u64 <= u32::MAX as u64,
    }
}

/// Draws a figure.
pub fn draw_figure(display: &mut Sh1106, op: &DrawOp)
    requires
        fits(op@),
    ensures
        final(display)@ == drawn(old(display)@, op@),
        placed(op@),
{
    match op {
        DrawOp::Fill { area, on } => {
            let shape = Shape::Area(*area);
            assert(shape_pixels(shape) =~= pixels_of(op@));
            paint(display, &shape, *on);
        },
        DrawOp::Outline { area } => {
            let shape = Shape::Border(*area);
            assert(shape_pixels(shape) =~= pixels_of(op@));
            paint(display, &shape, true);
        },
        DrawOp::Rounded { area, radius } => {
            let bitmap: [u8; BUF_SIZE] = draw_rounded(*area, *radius);
            let shape = Shape::Bitmap(&bitmap);
            assert(shape_pixels(shape) =~= pixels_of(op@));
            paint(display, &shape, true);
        },
        DrawOp::Text { caption, x, y, font, align, on } => {
            let bitmap: [u8; BUF_SIZE] = draw_text(caption.as_str(), *x, *y, *font, *align);
            let shape = Shape::Bitmap(&bitmap);
            assert(shape_pixels(shape) =~= pixels_of(op@));
            paint(display, &shape, *on);
        },
        DrawOp::Clear { area } => {
            display.clear_region(area.x as u32, area.y as u32, area.width, area.height);
        },
    }
}

/// Draws the figures of a canvas in their order.
pub fn draw_canvas(display: &mut Sh1106, canvas: &Canvas)
    requires
        all_fit(canvas@),
    ensures
        final(display)@ == drawn_all(old(display)@, canvas@),
        all_placed(canvas@),
{
    let mut i: usize = 0;
    assert(canvas@.take(0) =~= Seq::empty());
    while i < canvas.ops.len()
        invariant
            i <= canvas.ops@.len(),
            all_fit(canvas@),
            all_placed(canvas@.take(i as int)),
            display@ == drawn_all(old(display)@, canvas@.take(i as int)),
        decreases canvas.ops@.len() - i,
    {
        proof {
            let next = canvas@.take(i + 1);
            assert(next.drop_last() =~= canvas@.take(i as int));
            assert(next.last() == canvas@[i as int]);
            assert(fits(canvas@[i as int]));
        }
        draw_figure(display, &canvas.ops[i]);
        assert forall|k: int| 0 <= k < i + 1 implies placed(#[trigger] canvas@.take(i + 1)[k]) by {
            if k < i {
                assert(canvas@.take(i as int)[k] == canvas@.take(i + 1)[k]);
            }
        }
        i = i + 1;
    }
    assert(canvas@.take(i as int) =~= canvas@);
}

/// Drawing figures in portions is drawing them all.
pub proof fn law_portions(
    d: crate::gui::display::DisplayModel,
    a: Seq<crate::gui::canvas::Figure>,
    b: Seq<crate::gui::canvas::Figure>,
)
    ensures
        drawn_all(drawn_all(d, a), b) == drawn_all(d, a + b),
    decreases b.len(),
{
    if b.len() == 0 {
        assert(a + b =~= a);
    } else {
        law_portions(d, a, b.drop_last());
        assert((a + b).drop_last() =~= a + b.drop_last());
    }
}

/// Whatever figures are drawn, pages that are not dirty afterwards are what the
/// screen shows, if they were before.
pub proof fn law_drawing_marks_pages(
    d: crate::gui::display::DisplayModel,
    screen: Set<(int, int)>,
    figures: Seq<crate::gui::canvas::Figure>,
)
    requires
        crate::gui::display::in_sync(d, screen),
    ensures
        crate::gui::display::in_sync(drawn_all(d, figures), screen),
    decreases figures.len(),
{
    if figures.len() > 0 {
        law_drawing_marks_pages(d, screen, figures.drop_last());
        let before = drawn_all(d, figures.drop_last());
        let figure = figures.last();
        let after = drawn(before, figure);
        match figure {
            crate::gui::canvas::Figure::Clear { area } => {
                crate::gui::display::law_clean_pages_are_shown(
                    before,
                    screen,
                    area.x as int,
                    area.y as int,
                    area.width as int,
                    area.height as int,
                    false,
                    0,
                );
            },
            _ => {
                let pixels = pixels_of(figure);
                assert forall|x: int, y: int|
                    crate::gui::display::on_display(x, y) && !after.dirty.contains(
                        y / 8,
                    ) implies (#[trigger] after.lit.contains((x, y)) == screen.contains((x, y))) by {
                    if pixels.contains((x, y)) {
                        assert(pages_of(pixels).contains(y / 8));
                    }
                    assert(before.lit.contains((x, y)) == screen.contains((x, y)));
                }
            },
        }
    }
}

/// What lies under a filled area does not matter.
pub proof fn law_fill_covers(
    d: crate::gui::display::DisplayModel,
    figure: crate::gui::canvas::Figure,
    area: Area,
    on: bool,
)
    requires
        forall|p: (int, int)| #[trigger]
            d.lit.contains(p) ==> crate::gui::display::on_display(p.0, p.1),
        forall|x: int, y: int|
            crate::gui::display::on_display(x, y) && #[trigger] has_pixel(figure, x, y) ==> in_area(
                area,
                x,
                y,
            ),
    ensures
        ({
            let cover = crate::gui::canvas::Figure::Fill { area, on };
            drawn(drawn(d, figure), cover).lit == drawn(d, cover).lit
        }),
{
    let cover = crate::gui::canvas::Figure::Fill { area, on };
    let a = drawn(drawn(d, figure), cover).lit;
    let b = drawn(d, cover).lit;
    assert forall|p: (int, int)| a.contains(p) == b.contains(p) by {
        if crate::gui::display::on_display(p.0, p.1) && has_pixel(figure, p.0, p.1) {
            assert(in_area(area, p.0, p.1));
            assert(pixels_of(cover).contains(p));
        }
    }
    assert(a =~= b);
}

/// A border is what of an area has a neighbour outside of it.
pub proof fn law_border(area: Area, x: int, y: int)
    ensures
        on_border(area, x, y) <==> in_area(area, x, y) && !(in_area(area, x - 1, y) && in_area(
            area,
            x + 1,
            y,
        ) && in_area(area, x, y - 1) && in_area(area, x, y + 1)),
{
}

/// An area is as many columns and rows as its size says, from its corner on.
pub proof fn law_area(area: Area, dx: int, dy: int)
    ensures
        in_area(area, area.x + dx, area.y + dy) <==> 0 <= dx < area.width && 0 <= dy < area.height,
{
}

/// A byte of a bitmap is eight pixels of a row, the leftmost worth most.
pub proof fn law_bitmap_bytes(bitmap: Seq<u8>, k: int, y: int)
    requires
        bitmap.len() == 1024,
        0 <= k < 16,
        0 <= y < 64,
    ensures
        bitmap[16 * y + k] == (if bitmap_pixel(bitmap, 8 * k + 0, y) { 128int } else { 0 }) + (if bitmap_pixel(bitmap, 8 * k + 1, y) { 64int } else { 0 }) + (if bitmap_pixel(bitmap, 8 * k + 2, y) { 32int } else { 0 }) + (if bitmap_pixel(bitmap, 8 * k + 3, y) { 16int } else { 0 }) + (if bitmap_pixel(bitmap, 8 * k + 4, y) { 8int } else { 0 }) + (if bitmap_pixel(bitmap, 8 * k + 5, y) { 4int } else { 0 }) + (if bitmap_pixel(bitmap, 8 * k + 6, y) { 2int } else { 0 }) + (if bitmap_pixel(bitmap, 8 * k + 7, y) { 1int } else { 0 }),
{
    let b = bitmap[16 * y + k];
    crate::gui::display::law_bits(b);
    assert((8 * k + 0) / 8 == k && (8 * k + 0) % 8 == 0);
    assert((8 * k + 1) / 8 == k && (8 * k + 1) % 8 == 1);
    assert((8 * k + 2) / 8 == k && (8 * k + 2) % 8 == 2);
    assert((8 * k + 3) / 8 == k && (8 * k + 3) % 8 == 3);
    assert((8 * k + 4) / 8 == k && (8 * k + 4) % 8 == 4);
    assert((8 * k + 5) / 8 == k && (8 * k + 5) % 8 == 5);
    assert((8 * k + 6) / 8 == k && (8 * k + 6) % 8 == 6);
    assert((8 * k + 7) / 8 == k && (8 * k + 7) % 8 == 7);
}

/// Which figures light their pixels and which darken them.
pub proof fn law_lit_figures(figure: crate::gui::canvas::Figure)
    ensures
        figure is Outline || figure is Rounded ==> is_lit(figure),
        figure is Clear ==> !is_lit(figure),
        figure matches crate::gui::canvas::Figure::Fill { on, .. } ==> is_lit(figure) == on,
        figure matches crate::gui::canvas::Figure::Text { on, .. } ==> is_lit(figure) == on,
{
}

/// Drawing a figure sets its own pixels, to light or dark, and no others; a page
/// with a pixel of it has to be sent.
pub proof fn law_drawing(
    d: crate::gui::display::DisplayModel,
    figure: crate::gui::canvas::Figure,
    x: int,
    y: int,
    page: int,
)
    requires
        0 <= x < 128,
        0 <= y < 64,
    ensures
        has_pixel(figure, x, y) ==> drawn(d, figure).lit.contains((x, y)) == is_lit(figure),
        !has_pixel(figure, x, y) ==> drawn(d, figure).lit.contains((x, y)) == d.lit.contains(
            (x, y),
        ),
        has_pixel(figure, x, y) ==> drawn(d, figure).dirty.contains(y / 8),
        d.dirty.contains(page) ==> drawn(d, figure).dirty.contains(page),
        drawn(d, figure).enabled == d.enabled,
{
    let pixels = pixels_of(figure);
    if has_pixel(figure, x, y) {
        assert(pixels.contains((x, y)));
        assert(pages_of(pixels).contains(y / 8));
        if let crate::gui::canvas::Figure::Clear { area } = figure {
            crate::gui::display::law_clearing(
                d,
                area.x as int,
                area.y as int,
                area.width as int,
                area.height as int,
                x,
                y,
                y / 8,
            );
        }
    }
}

/// A filled or outlined figure that no row of a page touches leaves that page.
pub proof fn law_untouched_pages(
    d: crate::gui::display::DisplayModel,
    figure: crate::gui::canvas::Figure,
    page: int,
)
    requires
        !(figure is Clear),
        forall|x: int, y: int|
            #![trigger has_pixel(figure, x, y)]
            has_pixel(figure, x, y) && 0 <= x < 128 && 0 <= y < 64 ==> y / 8 != page,
    ensures
        drawn(d, figure).dirty.contains(page) == d.dirty.contains(page),
{
    let pixels = pixels_of(figure);
    if pages_of(pixels).contains(page) {
        let p = choose|p: (int, int)| #[trigger] pixels.contains(p) && p.1 / 8 == page;
        assert(has_pixel(figure, p.0, p.1));
    }
}

/// Of two figures the later one is on top.
pub proof fn law_later_on_top(
    d: crate::gui::display::DisplayModel,
    figures: Seq<crate::gui::canvas::Figure>,
    figure: crate::gui::canvas::Figure,
    x: int,
    y: int,
)
    requires
        0 <= x < 128,
        0 <= y < 64,
    ensures
        drawn_all(d, figures.push(figure)).lit.contains((x, y)) == if has_pixel(figure, x, y) {
            is_lit(figure)
        } else {
            drawn_all(d, figures).lit.contains((x, y))
        },
{
    assert(figures.push(figure).drop_last() =~= figures);
    law_drawing(drawn_all(d, figures), figure, x, y, 0);
}

/// What can be drawn: rectangles always, texts and rounded ones within 1024 pixels
/// of the display, and cleared regions from its corner on.
pub proof fn law_what_fits(figure: crate::gui::canvas::Figure)
    ensures
        figure is Fill || figure is Outline ==> fits(figure),
        figure matches crate::gui::canvas::Figure::Text { text, x, y, .. } ==> (fits(figure)
            <==> text.len() <= 1024 && -1024 <= x && x <= 1024 && -1024 <= y && y <= 1024),
        figure matches crate::gui::canvas::Figure::Rounded { area, radius } ==> (fits(figure)
            <==> radius <= 1024 && area.width <= 1024 && area.height <= 1024 && -1024 <= area.x
            && area.x <= 1024 && -1024 <= area.y && area.y <= 1024),
        figure matches crate::gui::canvas::Figure::Clear { area } ==> (fits(figure) <==> area.x >= 0
            && area.y >= 0 && area.x + area.width < 0x1_0000_0000 && area.y + area.height
            < 0x1_0000_0000),
{
}

/// A figure that is drawn sets its own pixels and no others, and a canvas is drawn
/// figure by figure.
pub proof fn law_drawing_figures(
    display: &mut Sh1106,
    op: &DrawOp,
    other: &mut Sh1106,
    canvas: &Canvas,
    drawable: bool,
    x: int,
    y: int,
)
    requires
        fits(op@),
        all_fit(canvas@),
        call_ensures(draw_figure, (display, op), ()),
        call_ensures(draw_canvas, (other, canvas), ()),
        call_ensures(is_drawable, (op,), drawable),
        0 <= x < 128,
        0 <= y < 64,
    ensures
        drawable,
        has_pixel(op@, x, y) ==> final(display)@.lit.contains((x, y)) == is_lit(op@),
        !has_pixel(op@, x, y) ==> final(display)@.lit.contains((x, y)) == old(
            display)@.lit.contains((x, y)),
        has_pixel(op@, x, y) ==> final(display)@.dirty.contains(y / 8),
        canvas@.len() == 0 ==> final(other)@ == old(other)@,
        canvas@.len() > 0 && has_pixel(canvas@.last(), x, y) ==> final(other)@.lit.contains((x, y))
            == is_lit(canvas@.last()),
        canvas@.len() > 0 && !has_pixel(canvas@.last(), x, y) ==> final(other)@.lit.contains((x, y))
            == drawn_all(old(other)@, canvas@.drop_last()).lit.contains((x, y)),
{
    law_drawing(old(display)@, op@, x, y, 0);
    if canvas@.len() > 0 {
        law_drawing(drawn_all(old(other)@, canvas@.drop_last()), canvas@.last(), x, y, 0);
    }
}

} // verus!
