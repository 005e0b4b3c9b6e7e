//! The tag editor: shows the tags of a set of songs, lets the user change
//! them one by one, and sends the result to be written into the files.
use vstd::prelude::*;

use crate::color::Color;
use crate::components::simple::{is_redraw, redraw};
use crate::event::{CommandLineEvent, ComponentEvent, Event, TaggerEvent};
use crate::align::spaces;
use crate::paint::{clear, column, paints_view, repeat_char, repeated, Paint, PaintView};
use crate::text::{byte_len, can_cut, concat, cut, cut_bytes, cuttable, spec_join, str_eq, strings_view};
use vstd::string::StringSliceAdditionalSpecFns;
use vstd::utf8::encode_utf8;
use crate::track::{copy_tracks, get_tag, opt_str_eq, opt_view, spec_tag, tags_view, tracks_view, Track};

verus! {

/// The value a tag has across the songs being edited.
#[derive(Debug, PartialEq)]
pub enum TagVal {
    /// All songs have this value.
    Value(String),
    /// No song has the tag (or there are no songs).
    Missing,
    /// The songs disagree.
    Various,
}

/// A tag value as plain values.
pub enum TagValView {
    Value(Seq<char>),
    Missing,
    Various,
}

impl TagVal {
    pub open spec fn spec_view(&self) -> TagValView {
        match self {
            TagVal::Value(s) => TagValView::Value(s@),
            TagVal::Missing => TagValView::Missing,
            TagVal::Various => TagValView::Various,
        }
    }
}

/// The value of tag `tag` of song `t`; "Title" is the song's title.
pub open spec fn spec_field(t: Track, tag: Seq<char>) -> Option<Seq<char>> {
    if tag == "Title"@ { opt_view(t.title) } else { spec_tag(tags_view(t.tags@), tag) }
}

/// The value tag `tag` has across `songs`.
pub open spec fn spec_tag_val(tag: Seq<char>, songs: Seq<Track>) -> TagValView {
    if songs.len() == 0 {
        TagValView::Missing
    } else {
        let first = spec_field(songs[0], tag);
        if forall|i: int| 0 <= i < songs.len() ==> spec_field(#[trigger] songs[i], tag) == first {
            match first {
                Some(v) => TagValView::Value(v),
                None => TagValView::Missing,
            }
        } else {
            TagValView::Various
        }
    }
}

/// The tags the editor shows, in order.
pub open spec fn spec_editor_tags() -> Seq<Seq<char>> {
    seq!["Title"@, "Artist"@, "AlbumArtist"@, "Album"@, "Date"@, "Track"@, "Genre"@, "Composer"@, "Disc"@]
}

/// The value of tag `tag` of song `t`.
fn field<'a>(tag: &str, t: &'a Track) -> (r: Option<&'a String>)
    ensures
        crate::track::opt_ref_view(r) == spec_field(*t, tag@),
{
    if str_eq(tag, "Title") {
        match &t.title {
            Some(s) => Some(s),
            None => None,
        }
    } else {
        get_tag(t, tag)
    }
}

fn opt_ref_eq(a: Option<&String>, b: Option<&String>) -> (r: bool)
    ensures
        r == (crate::track::opt_ref_view(a) == crate::track::opt_ref_view(b)),
{
    match (a, b) {
        (Some(x), Some(y)) => str_eq(x.as_str(), y.as_str()),
        (None, None) => true,
        _ => false,
    }
}

impl TagVal {
    /// The value tag `tag` has across `songs`.
    pub fn from(tag: &str, songs: &Vec<Track>) -> (r: TagVal)
        ensures
            r.spec_view() == spec_tag_val(tag@, songs@),
    {
        if songs.len() == 0 {
            return TagVal::Missing;
        }
        let first = field(tag, &songs[0]);
        let mut i: usize = 0;
        while i < songs.len()
            invariant
                i <= songs@.len(),
                crate::track::opt_ref_view(first) == spec_field(songs@[0], tag@),
                forall|j: int| 0 <= j < i ==> spec_field(#[trigger] songs@[j], tag@) == spec_field(songs@[0], tag@),
            decreases songs@.len() - i,
        {
            if !opt_ref_eq(field(tag, &songs[i]), first) {
                return TagVal::Various;
            }
            i = i + 1;
        }
        match first {
            Some(v) => TagVal::Value(v.clone()),
            None => TagVal::Missing,
        }
    }
}

/// The tag editor's state.
#[derive(Debug, PartialEq)]
pub struct TagEditor {
    name: String,
    color: Color,
    songs: Vec<Track>,
    focus: usize,
    tags: Vec<(String, TagVal)>,
    /// The selected tag; `None` selects the save button.
    sel: Option<usize>,
}

/// The (tag, value) pairs to write: every tag with one value, `None` for
/// tags to remove; tags whose songs disagree are left alone.
pub open spec fn spec_save_pairs(tags: Seq<(Seq<char>, TagValView)>) -> Seq<(Seq<char>, Option<Seq<char>>)>
    decreases tags.len(),
{
    if tags.len() == 0 {
        Seq::empty()
    } else {
        let rest = spec_save_pairs(tags.drop_last());
        match tags.last().1 {
            TagValView::Value(v) => rest.push((tags.last().0, Some(v))),
            TagValView::Missing => rest.push((tags.last().0, None)),
            TagValView::Various => rest,
        }
    }
}

/// The selection after moving down: the next tag, then the save button,
/// then the first tag again.
pub open spec fn spec_editor_next(sel: Option<usize>, n: int) -> Option<usize> {
    match sel {
        Some(s) => if s + 1 < n { Some((s + 1) as usize) } else { None },
        None => Some(0),
    }
}

/// The selection after moving up.
pub open spec fn spec_editor_prev(sel: Option<usize>, n: int) -> Option<usize> {
    match sel {
        Some(s) => if s == 0 { None } else { Some((s - 1) as usize) },
        None => Some((n - 1) as usize),
    }
}

impl TagEditor {
    pub closed spec fn spec_name(&self) -> Seq<char> {
        self.name@
    }

    pub closed spec fn spec_songs(&self) -> Seq<Track> {
        self.songs@
    }

    /// The tags shown and their values.
    pub closed spec fn spec_tags(&self) -> Seq<(Seq<char>, TagValView)> {
        self.tags@.map_values(|p: (String, TagVal)| (p.0@, p.1.spec_view()))
    }

    pub closed spec fn spec_sel(&self) -> Option<usize> {
        self.sel
    }

    /// Which of its parts has the focus; a new editor starts at the first.
    pub closed spec fn spec_focus(&self) -> usize {
        self.focus
    }

    /// The editor shows its nine tags and the selection is on one of them
    /// or on the save button.
    pub open spec fn wf(&self) -> bool {
        &&& self.spec_tags().len() == 9
        &&& forall|i: int| 0 <= i < 9 ==> #[trigger] self.spec_tags()[i].0 == spec_editor_tags()[i]
        &&& self.spec_sel() matches Some(s) ==> s < 9
    }

    /// An editor for `songs`, showing for each tag the value the songs
    /// share; the first tag is selected.
    pub fn new(name: &str, color: Color, songs: Vec<Track>) -> (e: TagEditor)
        ensures
            e.wf(),
            e.spec_name() == name@,
            e.spec_color() == color,
            e.spec_focus() == 0,
            e.spec_songs() == songs@,
            e.spec_sel() == Some(0usize),
            forall|i: int| 0 <= i < 9 ==> #[trigger] e.spec_tags()[i].1 == spec_tag_val(spec_editor_tags()[i], songs@),
    {
        let names: [&str; 9] = ["Title", "Artist", "AlbumArtist", "Album", "Date", "Track", "Genre", "Composer", "Disc"];
        let mut tags: Vec<(String, TagVal)> = Vec::new();
        let mut i: usize = 0;
        proof {
            reveal_strlit("Title");
            reveal_strlit("Artist");
            reveal_strlit("AlbumArtist");
            reveal_strlit("Album");
            reveal_strlit("Date");
            reveal_strlit("Track");
            reveal_strlit("Genre");
            reveal_strlit("Composer");
            reveal_strlit("Disc");
        }
        assert(forall|k: int| 0 <= k < 9 ==> (#[trigger] names@[k])@ == spec_editor_tags()[k]);
        while i < 9
            invariant
                i <= 9,
                forall|k: int| 0 <= k < 9 ==> (#[trigger] names@[k])@ == spec_editor_tags()[k],
                tags@.len() == i,
                forall|k: int| 0 <= k < i ==> (#[trigger] tags@[k]).0@ == spec_editor_tags()[k]
                    && tags@[k].1.spec_view() == spec_tag_val(spec_editor_tags()[k], songs@),
            decreases 9 - i,
        {
            let t = names[i];
            let v = TagVal::from(t, &songs);
            tags.push((t.to_string(), v));
            i = i + 1;
        }
        TagEditor { name: name.to_string(), color, songs, focus: 0, tags, sel: Some(0) }
    }

    pub fn name(&self) -> (r: &str)
        ensures
            r@ == self.spec_name(),
    {
        self.name.as_str()
    }

    /// The (tag, value) pairs to write.
    fn save_pairs(&self) -> (r: Vec<(String, Option<String>)>)
        ensures
            r@.map_values(|p: (String, Option<String>)| (p.0@, opt_view(p.1))) == spec_save_pairs(self.spec_tags()),
    {
        let mut r: Vec<(String, Option<String>)> = Vec::new();
        let mut i: usize = 0;
        let ghost tv = self.spec_tags();
        while i < self.tags.len()
            invariant
                tv == self.spec_tags(),
                i <= self.tags@.len(),
                r@.map_values(|p: (String, Option<String>)| (p.0@, opt_view(p.1))) == spec_save_pairs(tv.subrange(0, i as int)),
            decreases self.tags@.len() - i,
        {
            let ghost before = r@.map_values(|p: (String, Option<String>)| (p.0@, opt_view(p.1)));
            assert(tv.subrange(0, i + 1).drop_last() =~= tv.subrange(0, i as int));
            assert(tv[i as int] == (self.tags@[i as int].0@, self.tags@[i as int].1.spec_view()));
            match &self.tags[i].1 {
                TagVal::Value(v) => {
                    r.push((self.tags[i].0.clone(), Some(v.clone())));
                    assert(r@.map_values(|p: (String, Option<String>)| (p.0@, opt_view(p.1))) =~= before.push(
                        (tv[i as int].0, Some(v@)),
                    ));
                },
                TagVal::Missing => {
                    r.push((self.tags[i].0.clone(), None));
                    assert(r@.map_values(|p: (String, Option<String>)| (p.0@, opt_view(p.1))) =~= before.push(
                        (tv[i as int].0, None),
                    ));
                },
                TagVal::Various => {},
            }
            i = i + 1;
        }
        assert(tv.subrange(0, i as int) =~= tv);
        r
    }

    /// What acting on the selection sends: a request for the new value of
    /// the selected tag, or, on the save button, the songs and the tags to
    /// write.
    pub open spec fn spec_select_out(self, out: Seq<Event>) -> bool {
        &&& out.len() == 1
        &&& match self.spec_sel() {
            Some(i) => out[0] matches Event::ToCommandLine(CommandLineEvent::RequestText(p, None)) && p@
                == self.spec_tags()[i as int].0,
            None => out[0] matches Event::ToTagger(TaggerEvent::Tag(songs, pairs)) && tracks_view(songs@)
                == tracks_view(self.spec_songs()) && pairs@.map_values(
                |p: (String, Option<String>)| (p.0@, opt_view(p.1)),
            ) == spec_save_pairs(self.spec_tags()),
        }
    }

    /// Acts on the selection: asks for a new value of the selected tag, or,
    /// on the save button, sends the tags to be written.
    pub fn select(&self) -> (out: Vec<Event>)
        requires
            self.wf(),
        ensures
            self.spec_select_out(out@),
    {
        let mut out: Vec<Event> = Vec::new();
        match self.sel {
            Some(sel) => {
                assert(self.spec_tags()[sel as int].0 == self.tags@[sel as int].0@);
                let prompt = self.tags[sel].0.clone();
                out.push(Event::ToCommandLine(CommandLineEvent::RequestText(prompt, None)));
            },
            None => {
                let pairs = self.save_pairs();
                out.push(Event::ToTagger(TaggerEvent::Tag(copy_tracks(&self.songs), pairs)));
            },
        }
        out
    }

    /// Moves the selection down and asks to be drawn again.
    pub fn next(&mut self) -> (out: Vec<Event>)
        requires
            old(self).wf(),
        ensures
            final(self).wf(),
            final(self).spec_sel() == spec_editor_next(old(self).spec_sel(), 9),
            final(self).spec_tags() == old(self).spec_tags(),
            final(self).spec_songs() == old(self).spec_songs(),
            final(self).spec_name() == old(self).spec_name(),
            out@.len() == 1 && is_redraw(out@[0], old(self).spec_name()),
    {
        self.sel = match self.sel {
            Some(sel) => if sel + 1 < self.tags.len() { Some(sel + 1) } else { None },
            None => Some(0),
        };
        let mut out: Vec<Event> = Vec::new();
        out.push(redraw(self.name.as_str()));
        out
    }

    /// Moves the selection up and asks to be drawn again.
    pub fn prev(&mut self) -> (out: Vec<Event>)
        requires
            old(self).wf(),
        ensures
            final(self).wf(),
            final(self).spec_sel() == spec_editor_prev(old(self).spec_sel(), 9),
            final(self).spec_tags() == old(self).spec_tags(),
            final(self).spec_songs() == old(self).spec_songs(),
            final(self).spec_name() == old(self).spec_name(),
            out@.len() == 1 && is_redraw(out@[0], old(self).spec_name()),
    {
        self.sel = match self.sel {
            Some(sel) => if sel == 0 { None } else { Some(sel - 1) },
            None => Some(self.tags.len() - 1),
        };
        let mut out: Vec<Event> = Vec::new();
        out.push(redraw(self.name.as_str()));
        out
    }

    /// Whether a tag (rather than the save button) is selected.
    pub fn has_selection(&self) -> (r: bool)
        ensures
            r == self.spec_sel() is Some,
    {
        self.sel.is_some()
    }

    /// Whether handling `e` can be computed.
    pub fn accepts(&self, e: &ComponentEvent) -> (r: bool)
        requires
            self.wf(),
        ensures
            r == self.can_handle(*e),
    {
        match e {
            ComponentEvent::ReturnText(_) => self.has_selection(),
            _ => true,
        }
    }

    /// What handling `e` needs.
    pub open spec fn can_handle(self, e: ComponentEvent) -> bool {
        &&& self.wf()
        &&& e is ReturnText ==> self.spec_sel() is Some
    }

    /// What handling `e` does: `new` is the component after it and `out`
    /// the events it sends.
    pub open spec fn handled(self, new: Self, e: ComponentEvent, out: Seq<Event>) -> bool {
        &&& new.wf()
        &&& new.spec_name() == self.spec_name()
        &&& new.spec_songs() == self.spec_songs()
        &&& match e {
            ComponentEvent::Next => new.spec_sel() == spec_editor_next(self.spec_sel(), 9)
                && new.spec_tags() == self.spec_tags() && out.len() == 1 && is_redraw(out[0], self.spec_name()),
            ComponentEvent::Prev => new.spec_sel() == spec_editor_prev(self.spec_sel(), 9)
                && new.spec_tags() == self.spec_tags() && out.len() == 1 && is_redraw(out[0], self.spec_name()),
            ComponentEvent::Select => new.spec_sel() == self.spec_sel() && new.spec_tags() == self.spec_tags()
                && self.spec_select_out(out),
            ComponentEvent::ReturnText(s) => {
                let i = self.spec_sel()->0 as int;
                &&& new.spec_sel() == self.spec_sel()
                &&& new.spec_tags() == self.spec_tags().update(i, (
                    self.spec_tags()[i].0,
                    if s@.len() == 0 { TagValView::Missing } else { TagValView::Value(s@) },
                ))
                &&& out.len() == 1 && is_redraw(out[0], self.spec_name())
            },
            _ => new.spec_sel() == self.spec_sel() && new.spec_tags() == self.spec_tags() && out.len() == 0,
        }
    }

    /// Reacts to an event and returns the events to send. Text returned
    /// from the command line becomes the value of the selected tag (the
    /// empty text removes the tag); it can only come while a tag is
    /// selected.
    pub fn handle(&mut self, e: &ComponentEvent) -> (out: Vec<Event>)
        requires
            old(self).can_handle(*e),
        ensures
            old(self).handled(*final(self), *e, out@),
    {
        match e {
            ComponentEvent::Next => self.next(),
            ComponentEvent::Prev => self.prev(),
            ComponentEvent::Select => self.select(),
            ComponentEvent::ReturnText(s) => {
                let sel = self.sel.unwrap();
                let key = self.tags[sel].0.clone();
                let val = if s.as_str().is_empty() {
                    TagVal::Missing
                } else {
                    TagVal::Value(s.clone())
                };
                let ghost old_tags = self.tags@;
                self.tags.set(sel, (key, val));
                proof {
                    assert(self.spec_tags() =~= old(self).spec_tags().update(sel as int, (
                        old(self).spec_tags()[sel as int].0,
                        if s@.len() == 0 { TagValView::Missing } else { TagValView::Value(s@) },
                    )));
                }
                let mut out: Vec<Event> = Vec::new();
                out.push(redraw(self.name.as_str()));
                out
            },
            _ => Vec::new(),
        }
    }
}

/// The text shown for a tag value.
pub open spec fn val_text(v: TagValView) -> Seq<char> {
    match v {
        TagValView::Value(s) => s,
        TagValView::Missing => "<None>"@,
        TagValView::Various => "<Various>"@,
    }
}

/// The file names of `songs`.
pub open spec fn song_files(songs: Seq<Track>) -> Seq<Seq<char>> {
    songs.map_values(|t: Track| t.file@)
}

/// The header line of an editor `w` wide: the files being edited, cut
/// with "..." when longer than the line (counted in bytes).
pub open spec fn spec_header(songs: Seq<Track>, w: u16) -> Seq<char> {
    let j = spec_join(song_files(songs), ", "@);
    if byte_len(j) > w { cut_bytes(j, w - 3) + "..."@ } else { j }
}

/// The greatest byte length in `s` (0 for none).
pub open spec fn longest(s: Seq<Seq<char>>) -> int
    decreases s.len(),
{
    if s.len() == 0 {
        0
    } else {
        let m = longest(s.drop_last());
        if byte_len(s.last()) > m { byte_len(s.last()) } else { m }
    }
}

/// The tag names of an editor's rows.
pub open spec fn row_names(tags: Seq<(Seq<char>, TagValView)>) -> Seq<Seq<char>> {
    tags.map_values(|p: (Seq<char>, TagValView)| p.0)
}

/// The value texts of an editor's rows.
pub open spec fn row_values(tags: Seq<(Seq<char>, TagValView)>) -> Seq<Seq<char>> {
    tags.map_values(|p: (Seq<char>, TagValView)| val_text(p.1))
}

/// The column of the bar between names and values: after the longest
/// name, or in the middle when names and values do not fit side by side.
pub open spec fn spec_bar(tags: Seq<(Seq<char>, TagValView)>, w: u16) -> int {
    let t = longest(row_names(tags));
    let v = longest(row_values(tags));
    if t + v > w { if w % 2 == 0 { w / 2 - 1 } else { (w / 2) as int } } else { t }
}

/// How many rows of tags are drawn: the editor keeps row `i` while
/// `x + i` is no more than `h`.
pub open spec fn shown(x: u16, h: u16, n: int) -> int {
    if x > h { 0 } else if h - x + 1 < n { h - x + 1 } else { n }
}

/// One row of the editor: the name cut to the bar, the bar, and the
/// value cut to the rest of the line, styled by its kind and the selection.
pub open spec fn tag_row(x: u16, line: int, w: u16, bar: int, name: Seq<char>, v: TagValView, sel: bool, color: Color) -> Seq<
    PaintView,
> {
    let t = cut_bytes(name, bar);
    let s = cut_bytes(val_text(v), w - bar);
    seq![
        PaintView::At(x, line as u16),
        PaintView::Text(t),
        PaintView::Text(spaces((bar - byte_len(t)) as nat)),
        PaintView::Text(seq!['│']),
    ] + if sel {
        seq![PaintView::Invert, PaintView::Text(s), PaintView::Text(spaces((w - bar - byte_len(s)) as nat)), PaintView::NoInvert]
    } else {
        match v {
            TagValView::Missing => seq![
                PaintView::Fg(Color::Red),
                PaintView::Invert,
                PaintView::Text(s),
                PaintView::Fg(color),
                PaintView::NoInvert,
            ],
            TagValView::Various => seq![
                PaintView::Fg(Color::Yellow),
                PaintView::Invert,
                PaintView::Text(s),
                PaintView::Fg(color),
                PaintView::NoInvert,
            ],
            TagValView::Value(_) => seq![PaintView::Text(s)],
        }
    }
}

/// The first `n` rows of the editor's tags, from row `y` down.
pub open spec fn tag_rows(
    tags: Seq<(Seq<char>, TagValView)>,
    sel: Option<usize>,
    x: u16,
    y: int,
    w: u16,
    bar: int,
    color: Color,
    n: nat,
) -> Seq<PaintView>
    decreases n,
{
    if n == 0 {
        Seq::empty()
    } else {
        let i = n - 1;
        tag_rows(tags, sel, x, y, w, bar, color, (n - 1) as nat) + tag_row(
            x,
            y + i,
            w,
            bar,
            tags[i].0,
            tags[i].1,
            sel == Some(i as usize),
            color,
        )
    }
}

/// The save button on row `line`, inverted when selected.
pub open spec fn save_row(x: u16, line: int, w: u16, selected: bool) -> Seq<PaintView> {
    if selected {
        seq![
            PaintView::Invert,
            PaintView::At(x, line as u16),
            PaintView::Text("Save"@),
            PaintView::Text(spaces((w - 4) as nat)),
            PaintView::NoInvert,
        ]
    } else {
        seq![PaintView::At(x, line as u16), PaintView::Text("Save"@)]
    }
}

/// Joins `items` with `sep` between them.
fn join(items: &Vec<String>, sep: &str) -> (r: String)
    ensures
        r@ == spec_join(strings_view(items@), sep@),
{
    let ghost v = strings_view(items@);
    let mut r = String::new();
    let mut i: usize = 0;
    while i < items.len()
        invariant
            v == strings_view(items@),
            i <= items@.len(),
            r@ == spec_join(v.subrange(0, i as int), sep@),
        decreases items@.len() - i,
    {
        assert(v.subrange(0, i + 1).drop_last() =~= v.subrange(0, i as int));
        if i > 0 {
            r = concat(r.as_str(), sep);
        }
        r = concat(r.as_str(), items[i].as_str());
        i = i + 1;
        if i == 1 {
            assert(r@ =~= v.subrange(0, 1)[0]);
        }
    }
    assert(v.subrange(0, i as int) =~= v);
    r
}

/// The greatest byte length among `items`.
fn longest_of(items: &Vec<String>) -> (r: usize)
    requires
        forall|i: int| 0 <= i < items@.len() ==> byte_len(#[trigger] items@[i]@) <= usize::MAX,
    ensures
        r == longest(strings_view(items@)),
{
    let ghost v = strings_view(items@);
    let mut m: usize = 0;
    let mut i: usize = 0;
    while i < items.len()
        invariant
            v == strings_view(items@),
            forall|i: int| 0 <= i < items@.len() ==> byte_len(#[trigger] items@[i]@) <= usize::MAX,
            i <= items@.len(),
            m == longest(v.subrange(0, i as int)),
        decreases items@.len() - i,
    {
        assert(v.subrange(0, i + 1).drop_last() =~= v.subrange(0, i as int));
        let s = items[i].as_str();
        proof {
            assert(s.spec_bytes() == encode_utf8(s@));
        }
        let n = s.len();
        if n > m {
            m = n;
        }
        i = i + 1;
    }
    assert(v.subrange(0, i as int) =~= v);
    m
}

impl TagVal {
    /// The text shown for the value.
    pub fn text(&self) -> (r: &str)
        ensures
            r@ == val_text(self.spec_view()),
    {
        match self {
            TagVal::Value(s) => s.as_str(),
            TagVal::Missing => "<None>",
            TagVal::Various => "<Various>",
        }
    }
}

/// The length of `s` in bytes.
fn byte_count(s: &str) -> (r: usize)
    ensures
        r as int == byte_len(s@) || byte_len(s@) > usize::MAX,
{
    proof {
        assert(s.spec_bytes() == encode_utf8(s@));
    }
    s.len()
}

/// Appends one row of the editor.
fn push_tag_row(out: &mut Vec<Paint>, x: u16, line: u16, w: u16, bar: u16, name: &str, v: &TagVal, sel: bool, color: Color)
    requires
        bar <= w,
        can_cut(name@, bar as int),
        can_cut(val_text(v.spec_view()), w - bar),
        byte_len(name@) <= usize::MAX,
        byte_len(val_text(v.spec_view())) <= usize::MAX,
    ensures
        paints_view(final(out)@) == paints_view(old(out)@) + tag_row(x, line as int, w, bar as int, name@, v.spec_view(), sel, color),
{
    let ghost before = out@;
    let t = cut(name, bar as usize);
    let s = cut(v.text(), (w - bar) as usize);
    let left_pad = bar as usize - byte_count(t.as_str());
    let right_pad = (w - bar) as usize - byte_count(s.as_str());
    out.push(Paint::At(x, line));
    out.push(Paint::Text(t));
    out.push(Paint::Text(crate::align::repeat_space(left_pad)));
    let mut bar_text = String::new();
    crate::text::push_char(&mut bar_text, '│');
    assert(bar_text@ =~= seq!['│']);
    out.push(Paint::Text(bar_text));
    let ghost named = out@;
    if sel {
        out.push(Paint::Invert);
        out.push(Paint::Text(s));
        out.push(Paint::Text(crate::align::repeat_space(right_pad)));
        out.push(Paint::NoInvert);
    } else {
        match v {
            TagVal::Missing => {
                out.push(Paint::Fg(Color::Red));
                out.push(Paint::Invert);
                out.push(Paint::Text(s));
                out.push(Paint::Fg(color));
                out.push(Paint::NoInvert);
            },
            TagVal::Various => {
                out.push(Paint::Fg(Color::Yellow));
                out.push(Paint::Invert);
                out.push(Paint::Text(s));
                out.push(Paint::Fg(color));
                out.push(Paint::NoInvert);
            },
            TagVal::Value(_) => {
                out.push(Paint::Text(s));
            },
        }
    }
    assert(paints_view(out@) =~= paints_view(before) + tag_row(x, line as int, w, bar as int, name@, v.spec_view(), sel, color));
}

impl TagEditor {
    pub closed spec fn spec_color(&self) -> Color {
        self.color
    }

    /// The byte lengths of the editor's texts fit in a `usize`, as those of
    /// strings in memory do.
    pub open spec fn sizes_fit(&self) -> bool {
        let tags = self.spec_tags();
        &&& byte_len(spec_join(song_files(self.spec_songs()), ", "@)) <= usize::MAX
        &&& longest(row_names(tags)) + longest(row_values(tags)) <= usize::MAX
    }

    /// Whether the editor can be drawn `w` by `h` from (`x`, `y`): the
    /// numbers stay in range, and each cut falls between characters.
    pub open spec fn can_draw(&self, x: u16, y: u16, w: u16, h: u16) -> bool {
        let j = spec_join(song_files(self.spec_songs()), ", "@);
        let tags = self.spec_tags();
        let bar = spec_bar(tags, w);
        &&& self.wf()
        &&& self.sizes_fit()
        &&& y + h <= u16::MAX
        &&& y + 12 <= u16::MAX
        &&& (h < u16::MAX || x + 8 <= u16::MAX)
        &&& byte_len(j) > w ==> w >= 3 && can_cut(j, w - 3)
        &&& (longest(row_names(tags)) + longest(row_values(tags)) > w && w % 2 == 0) ==> w >= 2
        &&& forall|i: int|
            0 <= i < shown(x, h, 9) ==> can_cut(#[trigger] tags[i].0, bar) && can_cut(val_text(tags[i].1), w - bar)
        &&& self.spec_sel() is None ==> w >= 4
    }

    /// The editor drawn `w` by `h` from (`x`, `y`).
    pub open spec fn spec_draw(&self, x: u16, y: u16, w: u16, h: u16) -> Seq<PaintView> {
        let tags = self.spec_tags();
        let rule = repeated('─', w as nat);
        column(x, y as int, h as nat, spaces(w as nat)) + seq![
            PaintView::Fg(self.spec_color()),
            PaintView::At(x, y),
            PaintView::Text(spec_header(self.spec_songs(), w)),
            PaintView::At(x, (y + 1) as u16),
            PaintView::Text(rule),
        ] + tag_rows(tags, self.spec_sel(), x, y + 2, w, spec_bar(tags, w), self.spec_color(), shown(x, h, 9) as nat)
            + seq![PaintView::At(x, (y + 2 + 9) as u16), PaintView::Text(rule)] + save_row(
            x,
            y + 3 + 9,
            w,
            self.spec_sel() is None,
        )
    }

    /// The names of the files being edited.
    fn files(&self) -> (r: Vec<String>)
        ensures
            strings_view(r@) == song_files(self.spec_songs()),
    {
        let mut r: Vec<String> = Vec::new();
        let mut i: usize = 0;
        while i < self.songs.len()
            invariant
                i <= self.songs@.len(),
                r@.len() == i,
                forall|k: int| 0 <= k < i ==> (#[trigger] r@[k])@ == self.songs@[k].file@,
            decreases self.songs@.len() - i,
        {
            r.push(self.songs[i].file.clone());
            i = i + 1;
        }
        assert(strings_view(r@) =~= song_files(self.songs@));
        r
    }

    /// The editor's header line for a width of `w`.
    fn header(&self, w: u16) -> (r: String)
        requires
            self.can_draw(0, 0, w, 0) || {
                let j = spec_join(song_files(self.spec_songs()), ", "@);
                &&& byte_len(j) <= usize::MAX
                &&& byte_len(j) > w ==> w >= 3 && can_cut(j, w - 3)
            },
        ensures
            r@ == spec_header(self.spec_songs(), w),
    {
        let files = self.files();
        let j = join(&files, ", ");
        if byte_count(j.as_str()) > w as usize {
            proof {
                reveal_strlit("...");
            }
            let c = cut(j.as_str(), (w - 3) as usize);
            concat(c.as_str(), "...")
        } else {
            j
        }
    }

    /// The names and the value texts of the rows.
    fn columns(&self) -> (r: (Vec<String>, Vec<String>))
        ensures
            strings_view(r.0@) == row_names(self.spec_tags()),
            strings_view(r.1@) == row_values(self.spec_tags()),
    {
        let mut names: Vec<String> = Vec::new();
        let mut vals: Vec<String> = Vec::new();
        let mut i: usize = 0;
        let ghost tags = self.spec_tags();
        while i < self.tags.len()
            invariant
                tags == self.spec_tags(),
                i <= self.tags@.len(),
                names@.len() == i,
                vals@.len() == i,
                forall|k: int| 0 <= k < i ==> (#[trigger] names@[k])@ == tags[k].0,
                forall|k: int| 0 <= k < i ==> (#[trigger] vals@[k])@ == val_text(tags[k].1),
            decreases self.tags@.len() - i,
        {
            assert(tags[i as int] == (self.tags@[i as int].0@, self.tags@[i as int].1.spec_view()));
            names.push(self.tags[i].0.clone());
            vals.push(self.tags[i].1.text().to_string());
            i = i + 1;
        }
        assert(strings_view(names@) =~= row_names(tags));
        assert(strings_view(vals@) =~= row_values(tags));
        (names, vals)
    }

    /// Draws the editor `w` by `h` from (`x`, `y`): the files, the tags
    /// with their values, and the save button.
    pub fn draw(&self, x: u16, y: u16, w: u16, h: u16) -> (r: Vec<Paint>)
        requires
            self.can_draw(x, y, w, h),
        ensures
            paints_view(r@) == self.spec_draw(x, y, w, h),
    {
        let ghost tags = self.spec_tags();
        let mut out = clear(x, y, w, h);
        let ghost cleared = out@;
        let header = self.header(w);
        out.push(Paint::Fg(self.color));
        out.push(Paint::At(x, y));
        out.push(Paint::Text(header));
        out.push(Paint::At(x, y + 1));
        out.push(Paint::Text(repeat_char('─', w as usize)));
        assert(paints_view(out@) =~= paints_view(cleared) + seq![
            PaintView::Fg(self.spec_color()),
            PaintView::At(x, y),
            PaintView::Text(spec_header(self.spec_songs(), w)),
            PaintView::At(x, (y + 1) as u16),
            PaintView::Text(repeated('─', w as nat)),
        ]);
        let (names, vals) = self.columns();
        proof {
            assert forall|i: int| 0 <= i < names@.len() implies byte_len(#[trigger] names@[i]@) <= usize::MAX by {
                assert(strings_view(names@)[i] == names@[i]@);
                lemma_longest_bounds(strings_view(names@), i);
            }
            assert forall|i: int| 0 <= i < vals@.len() implies byte_len(#[trigger] vals@[i]@) <= usize::MAX by {
                assert(strings_view(vals@)[i] == vals@[i]@);
                lemma_longest_bounds(strings_view(vals@), i);
            }
        }
        let t = longest_of(&names);
        let v = longest_of(&vals);
        let bar: u16 = if t + v > w as usize {
            if w % 2 == 0 {
                w / 2 - 1
            } else {
                w / 2
            }
        } else {
            t as u16
        };
        let n: u16 = if x > h {
            0
        } else if (h - x) as u32 + 1 < 9 {
            h - x + 1
        } else {
            9
        };
        let ghost head = paints_view(out@);
        let mut i: u16 = 0;
        while i < n
            invariant
                self.can_draw(x, y, w, h),
                tags == self.spec_tags(),
                bar as int == spec_bar(tags, w),
                n as int == shown(x, h, 9),
                n <= 9,
                i <= n,
                paints_view(out@) == head + tag_rows(tags, self.spec_sel(), x, y + 2, w, bar as int, self.color, i as nat),
            decreases n - i,
        {
            let k = i as usize;
            assert(tags[k as int] == (self.tags@[k as int].0@, self.tags@[k as int].1.spec_view()));
            assert(can_cut(tags[k as int].0, bar as int));
            proof {
                lemma_longest_bounds(row_names(tags), k as int);
                lemma_longest_bounds(row_values(tags), k as int);
                assert(row_names(tags)[k as int] == tags[k as int].0);
                assert(row_values(tags)[k as int] == val_text(tags[k as int].1));
            }
            push_tag_row(
                &mut out,
                x,
                y + 2 + i,
                w,
                bar,
                self.tags[k].0.as_str(),
                &self.tags[k].1,
                self.sel == Some(k),
                self.color,
            );
            i = i + 1;
        }
        let ghost listed = out@;
        out.push(Paint::At(x, y + 2 + 9));
        out.push(Paint::Text(repeat_char('─', w as usize)));
        let ghost ruled = out@;
        assert(paints_view(ruled) =~= paints_view(listed) + seq![
            PaintView::At(x, (y + 2 + 9) as u16),
            PaintView::Text(repeated('─', w as nat)),
        ]);
        proof {
            reveal_strlit("Save");
        }
        match self.sel {
            None => {
                out.push(Paint::Invert);
                out.push(Paint::At(x, y + 3 + 9));
                out.push(Paint::Text("Save".to_string()));
                out.push(Paint::Text(crate::align::repeat_space((w - 4) as usize)));
                out.push(Paint::NoInvert);
            },
            Some(_) => {
                out.push(Paint::At(x, y + 3 + 9));
                out.push(Paint::Text("Save".to_string()));
            },
        }
        assert(paints_view(out@) =~= paints_view(ruled) + save_row(x, y + 3 + 9, w, self.spec_sel() is None));
        assert(paints_view(out@) =~= self.spec_draw(x, y, w, h));
        out
    }
}

/// No string in `s` is longer, in bytes, than the longest.
proof fn lemma_longest_bounds(s: Seq<Seq<char>>, i: int)
    requires
        0 <= i < s.len(),
    ensures
        byte_len(s[i]) <= longest(s),
    decreases s.len(),
{
    if i < s.len() - 1 {
        lemma_longest_bounds(s.drop_last(), i);
        assert(s.drop_last()[i] == s[i]);
    }
}

impl TagEditor {
    /// Whether the editor can be drawn `w` by `h` from (`x`, `y`).
    pub fn drawable(&self, x: u16, y: u16, w: u16, h: u16) -> (r: bool)
        requires
            self.wf(),
            self.sizes_fit(),
        ensures
            r == self.can_draw(x, y, w, h),
    {
        let ghost tags = self.spec_tags();
        if y as u32 + h as u32 > u16::MAX as u32 || y as u32 + 12 > u16::MAX as u32 {
            return false;
        }
        if h == u16::MAX && x as u32 + 8 > u16::MAX as u32 {
            return false;
        }
        let files = self.files();
        let j = join(&files, ", ");
        let jn = byte_count(j.as_str());
        if jn > w as usize && !(w >= 3 && cuttable(j.as_str(), (w - 3) as usize)) {
            return false;
        }
        let (names, vals) = self.columns();
        proof {
            assert forall|i: int| 0 <= i < names@.len() implies byte_len(#[trigger] names@[i]@) <= usize::MAX by {
                assert(strings_view(names@)[i] == names@[i]@);
                lemma_longest_bounds(strings_view(names@), i);
            }
            assert forall|i: int| 0 <= i < vals@.len() implies byte_len(#[trigger] vals@[i]@) <= usize::MAX by {
                assert(strings_view(vals@)[i] == vals@[i]@);
                lemma_longest_bounds(strings_view(vals@), i);
            }
        }
        let t = longest_of(&names);
        let v = longest_of(&vals);
        if t + v > w as usize && w % 2 == 0 && w < 2 {
            return false;
        }
        let bar: u16 = if t + v > w as usize {
            if w % 2 == 0 {
                w / 2 - 1
            } else {
                w / 2
            }
        } else {
            t as u16
        };
        let n: u16 = if x > h {
            0
        } else if (h - x) as u32 + 1 < 9 {
            h - x + 1
        } else {
            9
        };
        let mut i: u16 = 0;
        while i < n
            invariant
                tags == self.spec_tags(),
                self.wf(),
                self.sizes_fit(),
                bar as int == spec_bar(tags, w),
                n as int == shown(x, h, 9),
                n <= 9,
                i <= n,
                strings_view(names@) == row_names(tags),
                strings_view(vals@) == row_values(tags),
                forall|k: int| 0 <= k < i ==> can_cut(#[trigger] tags[k].0, bar as int) && can_cut(val_text(tags[k].1), w - bar),
            decreases n - i,
        {
            let k = i as usize;
            proof {
                assert(strings_view(names@)[k as int] == names@[k as int]@);
                assert(strings_view(vals@)[k as int] == vals@[k as int]@);
                lemma_longest_bounds(row_names(tags), k as int);
                lemma_longest_bounds(row_values(tags), k as int);
            }
            if !cuttable(names[k].as_str(), bar as usize) || !cuttable(vals[k].as_str(), (w - bar) as usize) {
                return false;
            }
            i = i + 1;
        }
        match self.sel {
            None => w >= 4,
            Some(_) => true,
        }
    }
}

} // verus!
