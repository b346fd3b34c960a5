//! Figures to be drawn.

use core::fmt::Write;
use vstd::prelude::*;

verus! {

/// Fonts, by their cell size.
#[derive(Debug, Clone, Copy, PartialEq, Eq, Structural)]
pub enum Font {
    /// 6x9.
    Small,
    /// 6x10.
    Normal,
    /// 9x15, bold.
    Title,
    /// 10x20.
    Large,
}

/// Where the position of a text lies in it.
#[derive(Debug, Clone, Copy, PartialEq, Eq, Structural)]
pub enum Align {
    Left,
    Center,
    Right,
}

/// A rectangle by its top left corner and size.
#[derive(Debug, Clone, Copy, PartialEq, Eq, Structural)]
pub struct Area {
    pub x: i32,
    pub y: i32,
    pub width: u32,
    pub height: u32,
}

/// A text to be drawn.
pub enum Caption {
    Label(&'static str),
    Percent(heapless::String<8>),
    Rate(heapless::String<12>),
}

/// The characters of a percentage.
pub uninterp spec fn percent_chars(text: heapless::String<8>) -> Seq<char>;

/// The characters of a sample rate.
pub uninterp spec fn rate_chars(text: heapless::String<12>) -> Seq<char>;

/// The decimal digits of a number.
pub open spec fn decimal_chars(n: nat) -> Seq<char>
    decreases n,
{
    if n < 10 {
        seq![(48 + n) as char]
    } else {
        decimal_chars(n / 10).push((48 + n % 10) as char)
    }
}

/// `heapless::String::new` and `write!` to it: the decimal digits of the number
/// and a percent sign, at most four characters, which the capacity of eight
/// holds.
#[verifier::external_body]
pub(crate) fn percent_text(percent: u8) -> (text: heapless::String<8>)
    ensures
        percent_chars(text) == decimal_chars(percent as nat).push('%'),
{
    let mut text: heapless::String<8> = heapless::String::new();
    let _ = write!(text, "{}%", percent);
    text
}

/// `heapless::String::new` and `write!` to it: the decimal digits of the number
/// and `kHz`. Up to nine digits the capacity of twelve holds them.
#[verifier::external_body]
pub(crate) fn rate_text(khz: u32) -> (text: heapless::String<12>)
    requires
        khz < 1_000_000_000,
    ensures
        rate_chars(text) == decimal_chars(khz as nat).push('k').push('H').push('z'),
{
    let mut text: heapless::String<12> = heapless::String::new();
    let _ = write!(text, "{}kHz", khz);
    text
}

/// `heapless::String::as_str`: the characters of the percentage.
#[verifier::external_body]
fn percent_str(text: &heapless::String<8>) -> (s: &str)
    ensures
        s@ == percent_chars(*text),
{
    text.as_str()
}

/// `heapless::String::as_str`: the characters of the rate.
#[verifier::external_body]
fn rate_str(text: &heapless::String<12>) -> (s: &str)
    ensures
        s@ == rate_chars(*text),
{
    text.as_str()
}

impl View for Caption {
    type V = Seq<char>;

    open spec fn view(&self) -> Seq<char> {
        match self {
            Caption::Label(label) => label@,
            Caption::Percent(text) => percent_chars(*text),
            Caption::Rate(text) => rate_chars(*text),
        }
    }
}

impl Caption {
    pub fn as_str(&self) -> (s: &str)
        ensures
            s@ == self@,
    {
        match self {
            Caption::Label(label) => label,
            Caption::Percent(text) => percent_str(text),
            Caption::Rate(text) => rate_str(text),
        }
    }
}

/// A figure for the renderer.
pub enum DrawOp {
    /// A filled rectangle, lit or dark.
    Fill { area: Area, on: bool },
    /// A rectangle with a lit border of one pixel.
    Outline { area: Area },
    /// The same with rounded corners.
    Rounded { area: Area, radius: u32 },
    /// A text with its baseline at `y`, lit or dark.
    Text { caption: Caption, x: i32, y: i32, font: Font, align: Align, on: bool },
    /// A region of the frame buffer to be cleared.
    Clear { area: Area },
}

/// A figure in terms of what is seen.
pub enum Figure {
    Fill { area: Area, on: bool },
    Outline { area: Area },
    Rounded { area: Area, radius: u32 },
    Text { text: Seq<char>, x: i32, y: i32, font: Font, align: Align, on: bool },
    Clear { area: Area },
}

impl View for DrawOp {
    type V = Figure;

    open spec fn view(&self) -> Figure {
        match self {
            DrawOp::Fill { area, on } => Figure::Fill { area: *area, on: *on },
            DrawOp::Outline { area } => Figure::Outline { area: *area },
            DrawOp::Rounded { area, radius } => Figure::Rounded { area: *area, radius: *radius },
            DrawOp::Text { caption, x, y, font, align, on } => Figure::Text {
                text: caption@,
                x: *x,
                y: *y,
                font: *font,
                align: *align,
                on: *on,
            },
            DrawOp::Clear { area } => Figure::Clear { area: *area },
        }
    }
}

/// Figures in the order in which they are drawn.
pub struct Canvas {
    pub ops: Vec<DrawOp>,
}

impl View for Canvas {
    type V = Seq<Figure>;

    open spec fn view(&self) -> Seq<Figure> {
        Seq::new(self.ops@.len(), |i: int| self.ops@[i]@)
    }
}

/// A lit text in the normal font.
pub open spec fn plain(text: Seq<char>, x: int, y: int, align: Align) -> Figure {
    Figure::Text { text, x: x as i32, y: y as i32, font: Font::Normal, align, on: true }
}

/// A filled rectangle.
pub open spec fn filled(x: int, y: int, width: int, height: int) -> Figure {
    Figure::Fill {
        area: Area { x: x as i32, y: y as i32, width: width as u32, height: height as u32 },
        on: true,
    }
}

/// A rectangle with a border.
pub open spec fn outlined(x: int, y: int, width: int, height: int) -> Figure {
    Figure::Outline {
        area: Area { x: x as i32, y: y as i32, width: width as u32, height: height as u32 },
    }
}

impl Canvas {
    pub fn new() -> (canvas: Self)
        ensures
            canvas@ == Seq::<Figure>::empty(),
    {
        let canvas = Canvas { ops: Vec::new() };
        assert(canvas@ =~= Seq::<Figure>::empty());
        canvas
    }

    pub fn push(&mut self, op: DrawOp)
        ensures
            final(self)@ == old(self)@.push(op@),
    {
        self.ops.push(op);
        assert(self@ =~= old(self)@.push(op@));
    }

    /// A lit text in the normal font.
    pub fn text(&mut self, label: &'static str, x: i32, y: i32, align: Align)
        ensures
            final(self)@ == old(self)@.push(plain(label@, x as int, y as int, align)),
    {
        self.push(
            DrawOp::Text {
                caption: Caption::Label(label),
                x,
                y,
                font: Font::Normal,
                align,
                on: true,
            },
        );
    }

    /// A lit text in another font.
    pub fn text_in(&mut self, label: &'static str, x: i32, y: i32, font: Font, align: Align, on: bool)
        ensures
            final(self)@ == old(self)@.push(Figure::Text { text: label@, x, y, font, align, on }),
    {
        self.push(DrawOp::Text { caption: Caption::Label(label), x, y, font, align, on });
    }

    pub fn fill(&mut self, x: i32, y: i32, width: u32, height: u32)
        ensures
            final(self)@ == old(self)@.push(
                filled(x as int, y as int, width as int, height as int),
            ),
    {
        self.push(DrawOp::Fill { area: Area { x, y, width, height }, on: true });
    }

    pub fn outline(&mut self, x: i32, y: i32, width: u32, height: u32)
        ensures
            final(self)@ == old(self)@.push(
                outlined(x as int, y as int, width as int, height as int),
            ),
    {
        self.push(DrawOp::Outline { area: Area { x, y, width, height } });
    }
}

/// The number that decimal digits stand for.
pub open spec fn number_of(digits: Seq<char>) -> int
    decreases digits.len(),
{
    if digits.len() == 0 {
        0
    } else {
        10 * number_of(digits.drop_last()) + (digits.last() as int - '0' as int)
    }
}

/// The digits of a number stand for it; there are no others in front.
pub proof fn law_decimal_digits(n: nat, i: int)
    ensures
        number_of(decimal_chars(n)) == n,
        decimal_chars(n).len() > 0,
        0 <= i < decimal_chars(n).len() ==> '0' <= decimal_chars(n)[i] <= '9',
        n > 0 ==> decimal_chars(n)[0] != '0',
    decreases n,
{
    let d = decimal_chars(n);
    if n < 10 {
        assert(d.drop_last() =~= Seq::<char>::empty());
        assert(number_of(d.drop_last()) == 0);
    } else {
        law_decimal_digits(n / 10, i);
        law_decimal_digits(n / 10, 0);
        assert(d.drop_last() =~= decimal_chars(n / 10));
    }
}

/// A figure is where and as large as it is asked to be.
pub proof fn law_figures(text: Seq<char>, x: int, y: int, width: int, height: int, align: Align)
    requires
        i32::MIN <= x <= i32::MAX,
        i32::MIN <= y <= i32::MAX,
        0 <= width <= u32::MAX,
        0 <= height <= u32::MAX,
    ensures
        filled(x, y, width, height) matches Figure::Fill { area, on } && on && area.x == x && area.y
            == y && area.width == width && area.height == height,
        outlined(x, y, width, height) matches Figure::Outline { area } && area.x == x && area.y == y
            && area.width == width && area.height == height,
        plain(text, x, y, align) matches Figure::Text { text: t, x: tx, y: ty, font, align: a, on }
            && t == text && tx == x && ty == y && font == Font::Normal && a == align && on,
{
}

} // verus!
