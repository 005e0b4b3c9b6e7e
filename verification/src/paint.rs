//! What the components draw: the stream of cursor moves, colors, styles
//! and text that the terminal receives, in order. Writing the stream out
//! is left to the caller.
use vstd::prelude::*;

use crate::align::Align;
use crate::color::Color;
use unicode_truncate::{Alignment, UnicodeTruncateStr};
use crate::text::push_char;

verus! {

/// One instruction to the terminal.
#[derive(Debug, Clone, PartialEq)]
pub enum Paint {
    /// Moves the cursor to column `x`, row `y`, both counted from 1.
    At(u16, u16),
    /// Sets the foreground color.
    Fg(Color),
    /// Swaps foreground and background.
    Invert,
    /// Ends `Invert`.
    NoInvert,
    Bold,
    /// Ends every style and color.
    Reset,
    /// Clears the line the cursor is on.
    ClearLine,
    Text(String),
}

/// A `Paint` with its text as a character sequence.
pub enum PaintView {
    At(u16, u16),
    Fg(Color),
    Invert,
    NoInvert,
    Bold,
    Reset,
    ClearLine,
    Text(Seq<char>),
}

impl View for Paint {
    type V = PaintView;

    open spec fn view(&self) -> PaintView {
        match self {
            Paint::At(x, y) => PaintView::At(*x, *y),
            Paint::Fg(c) => PaintView::Fg(*c),
            Paint::Invert => PaintView::Invert,
            Paint::NoInvert => PaintView::NoInvert,
            Paint::Bold => PaintView::Bold,
            Paint::Reset => PaintView::Reset,
            Paint::ClearLine => PaintView::ClearLine,
            Paint::Text(s) => PaintView::Text(s@),
        }
    }
}

/// A stream of instructions, each by its view.
pub open spec fn paints_view(s: Seq<Paint>) -> Seq<PaintView> {
    s.map_values(|p: Paint| p@)
}

/// `n` copies of `c`.
pub open spec fn repeated(c: char, n: nat) -> Seq<char> {
    Seq::new(n, |i: int| c)
}

/// The one-character text `c`.
pub open spec fn glyph(c: char) -> PaintView {
    PaintView::Text(seq![c])
}

/// `s` written at column `x` on each of the `n` rows from `y` down.
pub open spec fn column(x: u16, y: int, n: nat, s: Seq<char>) -> Seq<PaintView>
    decreases n,
{
    if n == 0 {
        Seq::empty()
    } else {
        column(x, y, (n - 1) as nat, s) + seq![PaintView::At(x, (y + n - 1) as u16), PaintView::Text(s)]
    }
}

/// `s` written on row `y` at each of the `n` columns from `x` rightwards.
pub open spec fn row(x: int, y: u16, n: nat, s: Seq<char>) -> Seq<PaintView>
    decreases n,
{
    if n == 0 {
        Seq::empty()
    } else {
        row(x, y, (n - 1) as nat, s) + seq![PaintView::At((x + n - 1) as u16, y), PaintView::Text(s)]
    }
}

/// A string of `n` copies of `c`.
pub fn repeat_char(c: char, n: usize) -> (r: String)
    ensures
        r@ == repeated(c, n as nat),
{
    let mut r = String::new();
    let mut i: usize = 0;
    while i < n
        invariant
            i <= n,
            r@ == repeated(c, i as nat),
        decreases n - i,
    {
        push_char(&mut r, c);
        i = i + 1;
        assert(r@ =~= repeated(c, i as nat));
    }
    r
}

/// `left`, `n` horizontal rules, then `right`.
fn framed(left: char, n: usize, right: char) -> (r: String)
    ensures
        r@ == seq![left] + repeated('─', n as nat) + seq![right],
{
    let mut r = String::new();
    push_char(&mut r, left);
    let mut i: usize = 0;
    while i < n
        invariant
            i <= n,
            r@ == seq![left] + repeated('─', i as nat),
        decreases n - i,
    {
        push_char(&mut r, '─');
        i = i + 1;
        assert(r@ =~= seq![left] + repeated('─', i as nat));
    }
    push_char(&mut r, right);
    r
}

/// A one-character string.
fn single(c: char) -> (r: String)
    ensures
        r@ == seq![c],
{
    let mut r = String::new();
    push_char(&mut r, c);
    assert(r@ =~= seq![c]);
    r
}

/// Appends `s` at column `x` on each of the `n` rows from `y` down.
fn push_column(out: &mut Vec<Paint>, x: u16, y: u16, n: u16, s: &str)
    requires
        y + n <= u16::MAX,
    ensures
        paints_view(final(out)@) == paints_view(old(out)@) + column(x, y as int, n as nat, s@),
{
    let mut i: u16 = 0;
    while i < n
        invariant
            i <= n,
            y + n <= u16::MAX,
            paints_view(out@) == paints_view(old(out)@) + column(x, y as int, i as nat, s@),
        decreases n - i,
    {
        let ghost before = out@;
        out.push(Paint::At(x, y + i));
        out.push(Paint::Text(s.to_string()));
        i = i + 1;
        assert(paints_view(out@) =~= paints_view(before) + seq![PaintView::At(x, (y + i - 1) as u16), PaintView::Text(s@)]);
    }
}

/// Appends `s` on row `y` at each of the `n` columns from `x` rightwards.
fn push_row(out: &mut Vec<Paint>, x: u16, y: u16, n: u16, s: &str)
    requires
        x + n <= u16::MAX,
    ensures
        paints_view(final(out)@) == paints_view(old(out)@) + row(x as int, y, n as nat, s@),
{
    let mut i: u16 = 0;
    while i < n
        invariant
            i <= n,
            x + n <= u16::MAX,
            paints_view(out@) == paints_view(old(out)@) + row(x as int, y, i as nat, s@),
        decreases n - i,
    {
        let ghost before = out@;
        out.push(Paint::At(x + i, y));
        out.push(Paint::Text(s.to_string()));
        i = i + 1;
        assert(paints_view(out@) =~= paints_view(before) + seq![PaintView::At((x + i - 1) as u16, y), PaintView::Text(s@)]);
    }
}

/// A box outline `w` wide and `h` high with its top left corner at
/// (`x`, `y`).
pub open spec fn spec_border(x: u16, y: u16, w: u16, h: u16) -> Seq<PaintView> {
    let bar = repeated('─', (w - 2) as nat);
    let inner: nat = if h >= 2 { (h - 2) as nat } else { 0 };
    seq![PaintView::At(x, y), PaintView::Text(seq!['┌'] + bar + seq!['┐'])] + sides(x, y as int + 1, w, inner)
        + seq![PaintView::At(x, (y + h - 1) as u16), PaintView::Text(seq!['└'] + bar + seq!['┘'])]
}

/// The left and right edges of a box `w` wide on `n` rows from `y` down.
pub open spec fn sides(x: u16, y: int, w: u16, n: nat) -> Seq<PaintView>
    decreases n,
{
    if n == 0 {
        Seq::empty()
    } else {
        sides(x, y, w, (n - 1) as nat) + seq![
            PaintView::At(x, (y + n - 1) as u16),
            glyph('│'),
            PaintView::At((x + w - 1) as u16, (y + n - 1) as u16),
            glyph('│'),
        ]
    }
}

/// Draws a box outline `w` wide and `h` high from (`x`, `y`).
pub fn border(x: u16, y: u16, w: u16, h: u16) -> (r: Vec<Paint>)
    requires
        w >= 2,
        1 <= x + w <= u16::MAX,
        1 <= y + h <= u16::MAX,
    ensures
        paints_view(r@) == spec_border(x, y, w, h),
{
    let mut out: Vec<Paint> = Vec::new();
    out.push(Paint::At(x, y));
    out.push(Paint::Text(framed('┌', (w - 2) as usize, '┐')));
    let inner: u16 = if h >= 2 { h - 2 } else { 0 };
    let mut i: u16 = 0;
    while i < inner
        invariant
            i <= inner,
            inner == (if h >= 2 { (h - 2) as nat } else { 0nat }),
            w >= 2,
            1 <= x + w <= u16::MAX,
            1 <= y + h <= u16::MAX,
            paints_view(out@) == seq![
                PaintView::At(x, y),
                PaintView::Text(seq!['┌'] + repeated('─', (w - 2) as nat) + seq!['┐']),
            ] + sides(x, y as int + 1, w, i as nat),
        decreases inner - i,
    {
        let ghost before = out@;
        let line = y + 1 + i;
        out.push(Paint::At(x, line));
        out.push(Paint::Text(single('│')));
        out.push(Paint::At(x + w - 1, line));
        out.push(Paint::Text(single('│')));
        i = i + 1;
        assert(paints_view(out@) =~= paints_view(before) + seq![
            PaintView::At(x, (y + 1 + i - 1) as u16),
            glyph('│'),
            PaintView::At((x + w - 1) as u16, (y + 1 + i - 1) as u16),
            glyph('│'),
        ]);
    }
    let ghost before = out@;
    out.push(Paint::At(x, y + h - 1));
    out.push(Paint::Text(framed('└', (w - 2) as usize, '┘')));
    assert(paints_view(out@) =~= paints_view(before) + seq![
        PaintView::At(x, (y + h - 1) as u16),
        PaintView::Text(seq!['└'] + repeated('─', (w - 2) as nat) + seq!['┘']),
    ]);
    out
}

/// Fills the `w` by `h` rectangle from (`x`, `y`) with spaces.
pub fn clear(x: u16, y: u16, w: u16, h: u16) -> (r: Vec<Paint>)
    requires
        y + h <= u16::MAX,
    ensures
        paints_view(r@) == column(x, y as int, h as nat, repeated(' ', w as nat)),
{
    let mut out: Vec<Paint> = Vec::new();
    let blank = repeat_char(' ', w as usize);
    push_column(&mut out, x, y, h, blank.as_str());
    assert(paints_view(out@) =~= column(x, y as int, h as nat, repeated(' ', w as nat)));
    out
}

/// The line between two panels stacked side by side: a column of
/// vertical rules `h` high from (`x`, `y`), joined to the borders above
/// and below.
pub open spec fn spec_vertical_line(x: u16, y: u16, h: u16) -> Seq<PaintView> {
    column(x, y as int, h as nat, seq!['│']) + seq![
        PaintView::At(x, y),
        glyph('┬'),
        PaintView::At(x, (y + h - 1) as u16),
        glyph('┴'),
    ]
}

/// The line between two panels stacked one above the other.
pub open spec fn spec_horizontal_line(x: u16, y: u16, w: u16) -> Seq<PaintView> {
    row(x as int, y, w as nat, seq!['─']) + seq![
        PaintView::At(x, y),
        glyph('├'),
        PaintView::At((x + w - 1) as u16, y),
        glyph('┤'),
    ]
}

/// The right edge of a splitter's box.
pub open spec fn spec_right_border(x: u16, y: u16, h: u16) -> Seq<PaintView> {
    column(x, y as int, h as nat, seq!['│']) + seq![
        PaintView::At(x, y),
        glyph('┐'),
        PaintView::At(x, (h + y - 1) as u16),
        glyph('┘'),
    ]
}

/// The bottom edge of a splitter's box.
pub open spec fn spec_bottom_border(x: u16, y: u16, w: u16) -> Seq<PaintView> {
    row(x as int, y, w as nat, seq!['─']) + seq![
        PaintView::At(x, y),
        glyph('└'),
        PaintView::At((w + x - 1) as u16, y),
        glyph('┘'),
    ]
}

/// Appends two glyphs, each at its own position.
fn push_ends(out: &mut Vec<Paint>, a: (u16, u16), ca: char, b: (u16, u16), cb: char)
    ensures
        paints_view(final(out)@) == paints_view(old(out)@) + seq![
            PaintView::At(a.0, a.1),
            glyph(ca),
            PaintView::At(b.0, b.1),
            glyph(cb),
        ],
{
    let ghost before = out@;
    out.push(Paint::At(a.0, a.1));
    out.push(Paint::Text(single(ca)));
    out.push(Paint::At(b.0, b.1));
    out.push(Paint::Text(single(cb)));
    assert(paints_view(out@) =~= paints_view(before) + seq![
        PaintView::At(a.0, a.1),
        glyph(ca),
        PaintView::At(b.0, b.1),
        glyph(cb),
    ]);
}

/// Appends the line between two panels side by side.
pub fn vertical_line(out: &mut Vec<Paint>, x: u16, y: u16, h: u16)
    requires
        1 <= y + h <= u16::MAX,
    ensures
        paints_view(final(out)@) == paints_view(old(out)@) + spec_vertical_line(x, y, h),
{
    let bar = single('│');
    push_column(out, x, y, h, bar.as_str());
    push_ends(out, (x, y), '┬', (x, y + h - 1), '┴');
}

/// Appends the line between two panels one above the other.
pub fn horizontal_line(out: &mut Vec<Paint>, x: u16, y: u16, w: u16)
    requires
        1 <= x + w <= u16::MAX,
    ensures
        paints_view(final(out)@) == paints_view(old(out)@) + spec_horizontal_line(x, y, w),
{
    let bar = single('─');
    push_row(out, x, y, w, bar.as_str());
    push_ends(out, (x, y), '├', (x + w - 1, y), '┤');
}

/// Appends the right edge of a splitter's box.
pub fn right_border(out: &mut Vec<Paint>, x: u16, y: u16, h: u16)
    requires
        1 <= y + h <= u16::MAX,
    ensures
        paints_view(final(out)@) == paints_view(old(out)@) + spec_right_border(x, y, h),
{
    let bar = single('│');
    push_column(out, x, y, h, bar.as_str());
    push_ends(out, (x, y), '┐', (x, h + y - 1), '┘');
}

/// Appends the bottom edge of a splitter's box.
pub fn bottom_border(out: &mut Vec<Paint>, x: u16, y: u16, w: u16)
    requires
        1 <= x + w <= u16::MAX,
    ensures
        paints_view(final(out)@) == paints_view(old(out)@) + spec_bottom_border(x, y, w),
{
    let bar = single('─');
    push_row(out, x, y, w, bar.as_str());
    push_ends(out, (x, y), '└', (w + x - 1, y), '┘');
}

/// What `unicode_truncate`'s `unicode_pad` makes of `s` for a field of
/// `width` columns with the given alignment, cutting where `s` is wider:
/// the column widths of Unicode graphemes decide it, so it is named here
/// and not written out.
pub uninterp spec fn spec_unicode_pad(s: Seq<char>, width: u16, align: Align) -> Seq<char>;

/// `s` padded with spaces, or cut, to fill `width` terminal columns, by
/// `unicode_truncate`'s `unicode_pad` (with truncation on). It returns on
/// every text: the width of a text, in the `unicode-width` release this
/// crate builds with, is the sum of its characters' widths, so the check
/// inside `unicode_truncate` that a kept prefix is as wide as its
/// graphemes always holds.
#[verifier::external_body]
pub(crate) fn pad_to_width(s: &str, width: u16, align: Align) -> (r: String)
    ensures
        r@ == spec_unicode_pad(s@, width, align),
{
    let alignment = match align {
        Align::Left => Alignment::Left,
        Align::Center => Alignment::Center,
        Align::Right => Alignment::Right,
    };
    s.unicode_pad(width as usize, alignment, true).into_owned()
}

} // verus!
