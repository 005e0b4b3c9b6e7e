//! Components without a menu: blank space, an error box, a placeholder,
//! and displays of the song now playing.
use vstd::prelude::*;

use crate::align::{front_skip, spaces, Align};
use crate::color::Color;
use crate::event::{ComponentEvent, Event, ScreenEvent};
use crate::track::{get_tag, opt_view, spec_tag, tags_view, Track};
use crate::paint::{border, clear, column, pad_to_width, paints_view, repeated, spec_border, spec_unicode_pad, Paint, PaintView};
use crate::GlobalState;
use vstd::string::StringSliceAdditionalSpecFns;
use vstd::utf8::{decode_utf8, encode_utf8, encode_utf8_decode_utf8, is_char_boundary};

verus! {

/// `e` asks the screen to draw the component named `name` again.
pub open spec fn is_redraw(e: Event, name: Seq<char>) -> bool {
    e matches Event::ToScreen(ScreenEvent::NeedsRedraw(n)) && n@ == name
}

/// An event asking the screen to draw the component named `name` again.
pub fn redraw(name: &str) -> (e: Event)
    ensures
        is_redraw(e, name@),
{
    Event::ToScreen(ScreenEvent::NeedsRedraw(name.to_string()))
}

/// A component that only clears its area.
#[derive(Debug, PartialEq)]
pub struct EmptySpace {
    pub name: String,
}

impl EmptySpace {
    pub fn new(name: &str) -> (c: EmptySpace)
        ensures
            c.name@ == name@,
    {
        EmptySpace { name: name.to_string() }
    }
}

/// What stands in for a component that the layout file got wrong. Its
/// name is always "Error".
#[derive(Debug, PartialEq)]
pub struct ErrorBox {}

impl ErrorBox {
    pub fn new() -> (c: ErrorBox)
        ensures
            c == (ErrorBox {}),
    {
        ErrorBox {}
    }

    pub fn name(&self) -> (r: &str)
        ensures
            r@ == "Error"@,
    {
        "Error"
    }
}

/// A bordered box that holds a place in a layout.
#[derive(Debug, PartialEq)]
pub struct PlaceHolder {
    pub name: String,
    pub color: Color,
}

impl PlaceHolder {
    pub fn new(name: &str, color: Color) -> (c: PlaceHolder)
        ensures
            c.name@ == name@,
            c.color == color,
    {
        PlaceHolder { name: name.to_string(), color }
    }
}

/// What a display of the song now playing shows, given the library and
/// the id of the song (an index into the library).
pub open spec fn spec_now_playing_text(field: Option<Seq<char>>, id: Option<usize>) -> Seq<char> {
    match id {
        Some(_) => match field {
            Some(t) => t,
            None => "<Empty>"@,
        },
        None => "<Unavailable>"@,
    }
}

/// Shows the title of the song now playing.
#[derive(Debug, PartialEq)]
pub struct TitleDisplay {
    pub name: String,
    pub contents: String,
    pub color: Color,
    pub alignment: Align,
}

impl TitleDisplay {
    pub fn new(name: &str, color: Color, alignment: Align) -> (c: TitleDisplay)
        ensures
            c.name@ == name@,
            c.contents@.len() == 0,
            c.color == color,
            c.alignment == alignment,
    {
        TitleDisplay { name: name.to_string(), contents: String::new(), color, alignment }
    }

    /// Whether handling `e` can be computed.
    pub fn accepts(&self, state: &GlobalState, e: &ComponentEvent) -> (r: bool)
        ensures
            r == self.can_handle(*state, *e),
    {
        match e {
            ComponentEvent::NowPlaying(Some(id)) => *id < state.library.len(),
            _ => true,
        }
    }

    /// What handling `e` needs.
    pub open spec fn can_handle(self, state: GlobalState, e: ComponentEvent) -> bool {
        &&& e matches ComponentEvent::NowPlaying(Some(id)) ==> id < state.library@.len()
    }

    /// What handling `e` does: `new` is the component after it and `out`
    /// the events it sends.
    pub open spec fn handled(self, new: Self, state: GlobalState, e: ComponentEvent, out: Seq<Event>) -> bool {
        &&& new.name == self.name
        &&& new.color == self.color
        &&& new.alignment == self.alignment
        &&& match e {
            ComponentEvent::NowPlaying(id) => {
                &&& new.contents@ == spec_now_playing_text(
                    match id { Some(i) => opt_view(state.library@[i as int].title), None => None },
                    id,
                )
                &&& out.len() == 1 && is_redraw(out[0], self.name@)
            },
            ComponentEvent::LostMpdConnection => new.contents@ == "<Unavailable>"@
                && out.len() == 0,
            _ => new.contents == self.contents && out.len() == 0,
        }
    }

    /// Reacts to an event and returns the events to send. The song now
    /// playing must be in the library.
    pub fn handle(&mut self, state: &GlobalState, e: &ComponentEvent) -> (out: Vec<Event>)
        requires
            old(self).can_handle(*state, *e),
        ensures
            old(self).handled(*final(self), *state, *e, out@),
    {
        let mut out: Vec<Event> = Vec::new();
        match e {
            ComponentEvent::NowPlaying(id) => {
                self.contents = match id {
                    Some(id) => match &state.library[*id].title {
                        Some(title) => title.clone(),
                        None => "<Empty>".to_string(),
                    },
                    None => "<Unavailable>".to_string(),
                };
                out.push(redraw(self.name.as_str()));
            },
            ComponentEvent::LostMpdConnection => {
                self.contents = "<Unavailable>".to_string();
            },
            _ => {},
        }
        out
    }
}

/// Shows one tag (such as "Artist") of the song now playing.
#[derive(Debug, PartialEq)]
pub struct TagDisplay {
    pub name: String,
    pub tag: String,
    pub contents: String,
    pub color: Color,
    pub align: Align,
}

impl TagDisplay {
    pub fn new(name: &str, color: Color, align: Align, tag: &str) -> (c: TagDisplay)
        ensures
            c.name@ == name@,
            c.tag@ == tag@,
            c.contents@.len() == 0,
            c.color == color,
            c.align == align,
    {
        TagDisplay { name: name.to_string(), tag: tag.to_string(), contents: String::new(), color, align }
    }

    /// Whether handling `e` can be computed.
    pub fn accepts(&self, state: &GlobalState, e: &ComponentEvent) -> (r: bool)
        ensures
            r == self.can_handle(*state, *e),
    {
        match e {
            ComponentEvent::NowPlaying(Some(id)) => *id < state.library.len(),
            _ => true,
        }
    }

    /// What handling `e` needs.
    pub open spec fn can_handle(self, state: GlobalState, e: ComponentEvent) -> bool {
        &&& e matches ComponentEvent::NowPlaying(Some(id)) ==> id < state.library@.len()
    }

    /// What handling `e` does: `new` is the component after it and `out`
    /// the events it sends.
    pub open spec fn handled(self, new: Self, state: GlobalState, e: ComponentEvent, out: Seq<Event>) -> bool {
        &&& new.name == self.name
        &&& new.tag == self.tag
        &&& new.color == self.color
        &&& new.align == self.align
        &&& out.len() == 0
        &&& match e {
            ComponentEvent::NowPlaying(id) => new.contents@ == spec_now_playing_text(
                match id {
                    Some(i) => spec_tag(tags_view(state.library@[i as int].tags@), self.tag@),
                    None => None,
                },
                id,
            ),
            ComponentEvent::LostMpdConnection => new.contents@ == "<Unavailable>"@,
            _ => new.contents == self.contents,
        }
    }

    /// Reacts to an event; a display of a tag sends nothing. The song now
    /// playing must be in the library.
    pub fn handle(&mut self, state: &GlobalState, e: &ComponentEvent) -> (out: Vec<Event>)
        requires
            old(self).can_handle(*state, *e),
        ensures
            old(self).handled(*final(self), *state, *e, out@),
    {
        match e {
            ComponentEvent::NowPlaying(id) => {
                self.contents = match id {
                    Some(id) => match get_tag(&state.library[*id], self.tag.as_str()) {
                        Some(v) => v.clone(),
                        None => "<Empty>".to_string(),
                    },
                    None => "<Unavailable>".to_string(),
                };
            },
            ComponentEvent::LostMpdConnection => {
                self.contents = "<Unavailable>".to_string();
            },
            _ => {},
        }
        Vec::new()
    }
}

impl EmptySpace {
    /// Draws blank space over its `w` by `h` area from (`x`, `y`).
    pub fn draw(&self, x: u16, y: u16, w: u16, h: u16) -> (r: Vec<Paint>)
        requires
            y + h <= u16::MAX,
        ensures
            paints_view(r@) == column(x, y as int, h as nat, repeated(' ', w as nat)),
    {
        clear(x, y, w, h)
    }
}

/// How much of "Error" fits inside a box `w` wide.
pub open spec fn error_label(w: u16) -> Seq<char> {
    let n: int = if w - 2 < 5 { w - 2 } else { 5 };
    "Error"@.subrange(0, n)
}

impl ErrorBox {
    /// Draws a red box `w` by `h` from (`x`, `y`) with "Error" inside.
    pub fn draw(&self, x: u16, y: u16, w: u16, h: u16) -> (r: Vec<Paint>)
        requires
            w >= 2,
            1 <= x + w <= u16::MAX,
            1 <= y + h <= u16::MAX,
            x + 1 <= u16::MAX,
            y + 1 <= u16::MAX,
        ensures
            paints_view(r@) == seq![PaintView::Fg(Color::Red)] + spec_border(x, y, w, h) + seq![
                PaintView::At((x + 1) as u16, (y + 1) as u16),
                PaintView::Text(error_label(w)),
                PaintView::Fg(Color::Reset),
            ],
    {
        proof {
            reveal_strlit("Error");
        }
        let label = "Error";
        let n: usize = if w - 2 < 5 { (w - 2) as usize } else { 5 };
        let text = label.substring_char(0, n).to_string();
        let mut out: Vec<Paint> = Vec::new();
        out.push(Paint::Fg(Color::Red));
        let mut b = border(x, y, w, h);
        out.append(&mut b);
        let ghost framed = out@;
        out.push(Paint::At(x + 1, y + 1));
        out.push(Paint::Text(text));
        out.push(Paint::Fg(Color::Reset));
        assert(paints_view(framed) =~= seq![PaintView::Fg(Color::Red)] + spec_border(x, y, w, h));
        assert(paints_view(out@) =~= paints_view(framed) + seq![
            PaintView::At((x + 1) as u16, (y + 1) as u16),
            PaintView::Text(error_label(w)),
            PaintView::Fg(Color::Reset),
        ]);
        out
    }
}

impl PlaceHolder {
    /// Draws a box `w` by `h` from (`x`, `y`) in the placeholder's color,
    /// after a line break.
    pub fn draw(&self, x: u16, y: u16, w: u16, h: u16) -> (r: Vec<Paint>)
        requires
            w >= 2,
            1 <= x + w <= u16::MAX,
            1 <= y + h <= u16::MAX,
        ensures
            paints_view(r@) == seq![PaintView::Fg(self.color), PaintView::Text(seq!['\n'])] + spec_border(x, y, w, h),
    {
        let mut out: Vec<Paint> = Vec::new();
        out.push(Paint::Fg(self.color));
        let mut nl = String::new();
        crate::text::push_char(&mut nl, '\n');
        out.push(Paint::Text(nl));
        let ghost start = out@;
        let mut b = border(x, y, w, h);
        out.append(&mut b);
        assert(paints_view(start) =~= seq![PaintView::Fg(self.color), PaintView::Text(seq!['\n'])]);
        assert(paints_view(out@) =~= paints_view(start) + spec_border(x, y, w, h));
        out
    }
}

impl TitleDisplay {
    /// Draws the title on row `y` from column `x`, `w` columns wide.
    pub fn draw(&self, x: u16, y: u16, w: u16) -> (r: Vec<Paint>)
        ensures
            paints_view(r@) == seq![
                PaintView::Fg(self.color),
                PaintView::At(x, y),
                PaintView::Text(spec_unicode_pad(self.contents@, w, self.alignment)),
                PaintView::Fg(Color::Reset),
            ],
    {
        let mut out: Vec<Paint> = Vec::new();
        out.push(Paint::Fg(self.color));
        out.push(Paint::At(x, y));
        out.push(Paint::Text(pad_to_width(self.contents.as_str(), w, self.alignment)));
        out.push(Paint::Fg(Color::Reset));
        assert(paints_view(out@) =~= seq![
            PaintView::Fg(self.color),
            PaintView::At(x, y),
            PaintView::Text(spec_unicode_pad(self.contents@, w, self.alignment)),
            PaintView::Fg(Color::Reset),
        ]);
        out
    }
}

/// The text a tag display shows in a field `w` wide, cut as its
/// alignment cuts it.
pub open spec fn cropped(align: Align, s: Seq<char>, w: u16) -> Seq<char> {
    match align {
        Align::Left => if w as int >= encode_utf8(s).len() {
            s
        } else {
            decode_utf8(encode_utf8(s).subrange(0, w as int))
        },
        Align::Center => s,
        Align::Right => front_skip(s, (w as int - encode_utf8(s).len()) as nat),
    }
}

/// Whether a tag display can draw `s` in a field `w` wide: the padding
/// must not be negative, and the cut must fall between characters.
pub open spec fn fits(align: Align, s: Seq<char>, w: u16) -> bool {
    let n = encode_utf8(s).len();
    &&& n <= i32::MAX
    &&& align.spec_offset(n as usize, w) >= 0
    &&& align.spec_pad_right(n as usize, w) >= 0
    &&& align == Align::Left ==> (w as int >= n || is_char_boundary(encode_utf8(s), w as int))
    &&& align != Align::Left ==> n <= w as int
}

impl TagDisplay {
    /// Draws the tag's value on row `y` from column `x`, `w` columns wide,
    /// padded and cut by the display's alignment (by bytes, as `str::len`
    /// counts).
    pub fn draw(&self, x: u16, y: u16, w: u16) -> (r: Vec<Paint>)
        requires
            fits(self.align, self.contents@, w),
        ensures
            paints_view(r@) == seq![
                PaintView::Fg(self.color),
                PaintView::At(x, y),
                PaintView::Text(spaces(self.align.spec_offset(encode_utf8(self.contents@).len() as usize, w) as nat)),
                PaintView::Text(cropped(self.align, self.contents@, w)),
                PaintView::Text(spaces(self.align.spec_pad_right(encode_utf8(self.contents@).len() as usize, w) as nat)),
                PaintView::Fg(Color::Reset),
            ],
    {
        let c = self.contents.as_str();
        let n = c.len();
        proof {
            assert(c.spec_bytes() == encode_utf8(self.contents@));
        }
        let pad_left = self.align.pad_left(n, w);
        let pad_right = self.align.pad_right(n, w);
        let text = self.align.crop(self.contents.as_str(), w);
        proof {
            if self.align == Align::Left && (w as int) < encode_utf8(self.contents@).len() {
                encode_utf8_decode_utf8(text@);
            }
        }
        let mut out: Vec<Paint> = Vec::new();
        out.push(Paint::Fg(self.color));
        out.push(Paint::At(x, y));
        out.push(Paint::Text(pad_left));
        out.push(Paint::Text(text));
        out.push(Paint::Text(pad_right));
        out.push(Paint::Fg(Color::Reset));
        out
    }
}

impl TagDisplay {
    /// Whether the display can be drawn `w` columns wide.
    pub fn drawable(&self, w: u16) -> (r: bool)
        requires
            crate::text::byte_len(self.contents@) <= usize::MAX,
        ensures
            r == fits(self.align, self.contents@, w),
    {
        let c = self.contents.as_str();
        proof {
            assert(c.spec_bytes() == encode_utf8(self.contents@));
        }
        let n = c.len();
        if n > i32::MAX as usize {
            return false;
        }
        let offset_ok = match self.align {
            Align::Left => true,
            Align::Center => {
                let ret = (w as i64 / 2) - (n as i64 / 2);
                if w % 2 == 0 { ret >= 0 } else { ret - 1 >= 0 }
            },
            Align::Right => w as i64 - n as i64 >= 0,
        };
        let pad_ok = match self.align {
            Align::Left => true,
            Align::Center => {
                let ret = (w as i64 / 2) - (n as i64 / 2);
                if w % 2 == 0 { ret >= 0 } else { ret + 1 >= 0 }
            },
            Align::Right => true,
        };
        let cut_ok = match self.align {
            Align::Left => w as usize >= n || c.is_char_boundary(w as usize),
            _ => n <= w as usize,
        };
        offset_ok && pad_ok && cut_ok
    }
}

} // verus!
