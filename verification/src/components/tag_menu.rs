//! A menu of the values of one tag over a set of library songs, with an
//! entry for all of them first.
use vstd::prelude::*;

use crate::align::Align;
use crate::color::Color;
use crate::components::menus::{menu_move, move_ok, spec_ids_where, spec_move, spec_move_ok, styles_fit};
use crate::components::simple::{is_redraw, redraw};
use crate::event::{AppEvent, ComponentEvent, Event, MpdEvent};
use crate::menu::{fresh_menu, items_view, Menu, Parent};
use crate::styles::{spec_genre, StyleTree};
use crate::text::{
    contains_str, contains_string, occurs_at, sort_dedup, spec_contains, spec_split_str, split_str, str_eq,
    strictly_sorted, strings_view,
};
use crate::track::{get_tag, opt_view, spec_tag, tags_view, tracks_view, Track};
use crate::GlobalState;

verus! {

/// Whether the tag value `val` is `target`: with a separator, whether one
/// of the pieces between separators is; without, whether it is equal.
pub open spec fn spec_tag_is(val: Seq<char>, target: Seq<char>, sep: Option<Seq<char>>) -> bool {
    match sep {
        Some(p) => spec_split_str(val, p).contains(target),
        None => val == target,
    }
}

/// Whether song `t` belongs under the menu line `line` of a menu over the
/// tag `tag`: the line "<Empty>" holds the songs without the tag.
pub open spec fn spec_line_matches(t: Track, tag: Seq<char>, line: Seq<char>, sep: Option<Seq<char>>) -> bool {
    let v = spec_tag(tags_view(t.tags@), tag);
    if line == "<Empty>"@ {
        v is None
    } else {
        match v {
            Some(x) => spec_tag_is(x, line, sep),
            None => false,
        }
    }
}

/// The ids of `ids`, in order, of library songs under the line `line`.
pub open spec fn spec_line_ids(ids: Seq<usize>, lib: Seq<Track>, tag: Seq<char>, line: Seq<char>, sep: Option<Seq<char>>) -> Seq<usize>
    decreases ids.len(),
{
    if ids.len() == 0 {
        Seq::empty()
    } else {
        let rest = spec_line_ids(ids.drop_last(), lib, tag, line, sep);
        let id = ids.last();
        if id < lib.len() && spec_line_matches(lib[id as int], tag, line, sep) {
            rest.push(id)
        } else {
            rest
        }
    }
}

/// The menu lines the songs `ids` give before sorting: each library
/// song's value of `tag`, or "<Empty>".
pub open spec fn spec_raw_items(ids: Seq<usize>, lib: Seq<Track>, tag: Seq<char>) -> Seq<Seq<char>>
    decreases ids.len(),
{
    if ids.len() == 0 {
        Seq::empty()
    } else {
        let rest = spec_raw_items(ids.drop_last(), lib, tag);
        let id = ids.last();
        if id < lib.len() {
            rest.push(
                match spec_tag(tags_view(lib[id as int].tags@), tag) {
                    Some(v) => v,
                    None => "<Empty>"@,
                },
            )
        } else {
            rest
        }
    }
}

/// The lines with a separator in them cut into their pieces.
pub open spec fn spec_split_items(items: Seq<Seq<char>>, sep: Option<Seq<char>>) -> Seq<Seq<char>>
    decreases items.len(),
{
    match sep {
        None => items,
        Some(p) => if items.len() == 0 {
            Seq::empty()
        } else {
            let last = items.last();
            spec_split_items(items.drop_last(), sep) + if spec_contains(last, p) {
                spec_split_str(last, p)
            } else {
                seq![last]
            }
        },
    }
}

/// The lines of a tag menu: "<All>", then the distinct values of `src` in
/// order.
pub open spec fn spec_items_of(items: Seq<Seq<char>>, src: Seq<Seq<char>>) -> bool {
    &&& items.len() >= 1
    &&& items[0] == "<All>"@
    &&& strictly_sorted(items.drop_first())
    &&& forall|x: Seq<char>| #[trigger] items.drop_first().contains(x) <==> src.contains(x)
}

/// `e` tells every component that the tag menu `name` now selects `ids`.
pub open spec fn is_tag_update(e: Event, name: Seq<char>, ids: Seq<usize>) -> bool {
    e matches Event::ToAllComponents(ComponentEvent::TagMenuUpdated(n, v)) && n@ == name && v@ == ids
}

/// The ids of `ids`, in order, that name a song of a library of
/// `lib_len` songs.
pub open spec fn spec_known_ids(ids: Seq<usize>, lib_len: nat) -> Seq<usize>
    decreases ids.len(),
{
    if ids.len() == 0 {
        Seq::empty()
    } else {
        let rest = spec_known_ids(ids.drop_last(), lib_len);
        if ids.last() < lib_len { rest.push(ids.last()) } else { rest }
    }
}

/// The ids of `ids`, in order, below `lib_len`.
fn known_ids(ids: &Vec<usize>, lib_len: usize) -> (r: Vec<usize>)
    ensures
        r@ == spec_known_ids(ids@, lib_len as nat),
        forall|k: int| 0 <= k < r@.len() ==> (#[trigger] r@[k]) < lib_len,
{
    let mut r: Vec<usize> = Vec::new();
    let mut i: usize = 0;
    while i < ids.len()
        invariant
            i <= ids@.len(),
            r@ == spec_known_ids(ids@.subrange(0, i as int), lib_len as nat),
            forall|k: int| 0 <= k < r@.len() ==> (#[trigger] r@[k]) < lib_len,
        decreases ids@.len() - i,
    {
        assert(ids@.subrange(0, i + 1).drop_last() =~= ids@.subrange(0, i as int));
        if ids[i] < lib_len {
            r.push(ids[i]);
        }
        i = i + 1;
    }
    assert(ids@.subrange(0, i as int) =~= ids@);
    r
}

/// Songs of the library whose genre is the name of one of the genres
/// `styles` of `tree`.
pub open spec fn spec_in_genres(t: Track, tree: StyleTree, styles: Seq<usize>) -> bool {
    match spec_genre(t) {
        Some(g) => exists|j: int| 0 <= j < styles.len() && tree.spec_styles()[#[trigger] styles[j] as int].name == g,
        None => false,
    }
}

/// A text without the separator is one piece.
proof fn lemma_split_whole(v: Seq<char>, p: Seq<char>)
    requires
        p.len() > 0,
        !spec_contains(v, p),
    ensures
        spec_split_str(v, p) == seq![v],
{
    crate::text::lemma_find_from(v, p, 0);
    let i = crate::text::spec_find_from(v, p, 0);
    if i != -1 {
        assert(crate::text::occurs_at(v, p, i));
    }
    assert(v.subrange(0, v.len() as int) =~= v);
}

/// Every line that the songs `ids` give a tag menu, other than
/// "<Empty>", has one of those songs under it.
proof fn lemma_line_witness(ids: Seq<usize>, lib: Seq<Track>, tag: Seq<char>, sep: Option<Seq<char>>, x: Seq<char>)
    requires
        spec_split_items(spec_raw_items(ids, lib, tag), sep).contains(x),
        x != "<Empty>"@,
        sep matches Some(p) ==> !spec_contains("<Empty>"@, p),
    ensures
        exists|k: int| 0 <= k < ids.len() && #[trigger] ids[k] < lib.len() && spec_line_matches(lib[ids[k] as int], tag, x, sep),
    decreases ids.len(),
{
    let rest = ids.drop_last();
    let raw = spec_raw_items(ids, lib, tag);
    let raw_r = spec_raw_items(rest, lib, tag);
    let id = ids.last();
    let n = ids.len() - 1;
    if ids.len() == 0 {
        assert(raw.len() == 0);
        match sep {
            None => {},
            Some(p) => {},
        }
        assert(false);
    }
    if id < lib.len() {
        let v = match spec_tag(tags_view(lib[id as int].tags@), tag) {
            Some(val) => val,
            None => "<Empty>"@,
        };
        assert(raw == raw_r.push(v));
        assert(raw.drop_last() =~= raw_r);
        let in_v = match sep {
            None => x == v,
            Some(p) => if spec_contains(v, p) { spec_split_str(v, p).contains(x) } else { x == v },
        };
        if in_v {
            assert(ids[n] == id);
            match spec_tag(tags_view(lib[id as int].tags@), tag) {
                Some(val) => {
                    match sep {
                        None => {},
                        Some(p) => {
                            if !spec_contains(val, p) {
                                if p.len() == 0 {
                                    assert(occurs_at(val, p, 0)) by {
                                        assert(val.subrange(0, 0) =~= p);
                                    }
                                }
                                lemma_split_whole(val, p);
                                assert(spec_split_str(val, p)[0] == val);
                            }
                        },
                    }
                    assert(spec_line_matches(lib[ids[n] as int], tag, x, sep));
                },
                None => {
                    match sep {
                        None => {},
                        Some(p) => {
                            if p.len() == 0 {
                                assert(occurs_at("<Empty>"@, p, 0)) by {
                                    assert(("<Empty>"@).subrange(0, 0) =~= p);
                                }
                            }
                        },
                    }
                    assert(false);
                },
            }
        } else {
            let parts = spec_split_items(raw, sep);
            match sep {
                None => {
                    let j = choose|j: int| 0 <= j < raw.len() && raw[j] == x;
                    if j == raw.len() - 1 {
                        assert(false);
                    }
                    assert(raw_r[j] == x);
                    assert(spec_split_items(raw_r, sep).contains(x));
                },
                Some(p) => {
                    let tail = if spec_contains(v, p) { spec_split_str(v, p) } else { seq![v] };
                    assert(parts == spec_split_items(raw_r, sep) + tail);
                    let j = choose|j: int| 0 <= j < parts.len() && parts[j] == x;
                    let a = spec_split_items(raw_r, sep);
                    if j >= a.len() {
                        assert(tail[j - a.len()] == x);
                        assert(tail.contains(x));
                        assert(false);
                    }
                    assert(a[j] == x);
                },
            }
            lemma_line_witness(rest, lib, tag, sep, x);
            let k = choose|k: int| 0 <= k < rest.len() && #[trigger] rest[k] < lib.len() && spec_line_matches(lib[rest[k] as int], tag, x, sep);
            assert(ids[k] == rest[k]);
        }
    } else {
        assert(raw == raw_r);
        lemma_line_witness(rest, lib, tag, sep, x);
        let k = choose|k: int| 0 <= k < rest.len() && #[trigger] rest[k] < lib.len() && spec_line_matches(lib[rest[k] as int], tag, x, sep);
        assert(ids[k] == rest[k]);
    }
}

/// Every line of a tag menu below "<All>" selects at least one of the
/// menu's songs: each value listed, and with a separator each piece of a
/// value, is matched by a song that carries it. The line "<Empty>" is
/// left out (it stands for songs without the tag), and so is a separator
/// that occurs in "<Empty>" itself, which would cut that line into
/// pieces no song carries.
pub proof fn law_tag_lines_select_songs(m: TagMenu, lib: Seq<Track>, j: usize)
    requires
        m.refreshed(lib),
        1 <= j < m.menu.items@.len(),
        m.menu.items@[j as int]@ != "<Empty>"@,
        m.sep() matches Some(p) ==> !spec_contains("<Empty>"@, p),
    ensures
        exists|k: int| 0 <= k < m.tracks@.len() && #[trigger] m.tracks@[k] < lib.len()
            && spec_line_matches(lib[m.tracks@[k] as int], m.tag@, m.menu.items@[j as int]@, m.sep()),
        (TagMenu { menu: Menu { selection: j, ..m.menu }, ..m }).spec_selection(lib).len() > 0,
{
    let items = items_view(m.menu.items@);
    let x = items[j as int];
    assert(items.drop_first()[j - 1] == x);
    assert(items.drop_first().contains(x));
    lemma_line_witness(m.tracks@, lib, m.tag@, m.sep(), x);
    let k = choose|k: int| 0 <= k < m.tracks@.len() && #[trigger] m.tracks@[k] < lib.len()
        && spec_line_matches(lib[m.tracks@[k] as int], m.tag@, x, m.sep());
    lemma_line_ids_nonempty(m.tracks@, lib, m.tag@, x, m.sep(), k);
    let m2 = TagMenu { menu: Menu { selection: j, ..m.menu }, ..m };
    assert(m2.menu.items@[m2.menu.selection as int]@ == x);
}

/// A song under a line is among the ids the line selects.
proof fn lemma_line_ids_nonempty(ids: Seq<usize>, lib: Seq<Track>, tag: Seq<char>, line: Seq<char>, sep: Option<Seq<char>>, k: int)
    requires
        0 <= k < ids.len(),
        ids[k] < lib.len(),
        spec_line_matches(lib[ids[k] as int], tag, line, sep),
    ensures
        spec_line_ids(ids, lib, tag, line, sep).len() > 0,
    decreases ids.len(),
{
    if k < ids.len() - 1 {
        assert(ids.drop_last()[k] == ids[k]);
        lemma_line_ids_nonempty(ids.drop_last(), lib, tag, line, sep, k);
    }
}

/// A menu of the values of a tag.
#[derive(Debug, PartialEq)]
pub struct TagMenu {
    /// The tag whose values are listed.
    pub tag: String,
    pub parent: Parent,
    /// The library ids of the songs the menu is over.
    pub tracks: Vec<usize>,
    pub menu: Menu,
    /// Text that separates several values within one tag value.
    pub multitag_separator: Option<String>,
}

impl TagMenu {
    pub fn new(
        name: &str,
        color: Color,
        focus_color: Color,
        title: Option<String>,
        title_alignment: Align,
        menu_alignment: Align,
        tag: &str,
        multitag_separator: Option<String>,
        parent: Option<String>,
    ) -> (m: TagMenu)
        ensures
            fresh_menu(m.menu, name@, color, focus_color, title, title_alignment, menu_alignment),
            m.tag@ == tag@,
            m.multitag_separator == multitag_separator,
            m.parent.spec_parent() == opt_view(parent),
            m.menu.selection == 0,
            m.menu.items@.len() == 0,
            m.tracks@.len() == 0,
    {
        TagMenu {
            parent: Parent::new(parent),
            tag: tag.to_string(),
            tracks: Vec::new(),
            multitag_separator,
            menu: Menu {
                name: name.to_string(),
                title,
                title_alignment,
                menu_alignment,
                color,
                focus_color,
                selection: 0,
                items: Vec::new(),
            },
        }
    }

    /// The separator as a character sequence, if any.
    pub open spec fn sep(&self) -> Option<Seq<char>> {
        opt_view(self.multitag_separator)
    }

    /// The ids the menu selects: all its songs on the first line, else
    /// those under the selected line.
    pub open spec fn spec_selection(&self, lib: Seq<Track>) -> Seq<usize> {
        if self.menu.selection == 0 {
            self.tracks@
        } else if self.menu.selection < self.menu.items@.len() {
            spec_line_ids(self.tracks@, lib, self.tag@, self.menu.items@[self.menu.selection as int]@, self.sep())
        } else {
            Seq::empty()
        }
    }

    /// The ids of the library songs that selecting the current line
    /// queues: on the first line ("<All>") every song of the menu still in
    /// the library, else those under the selected line.
    pub open spec fn spec_selected_ids(&self, lib: Seq<Track>) -> Seq<usize> {
        if self.menu.selection == 0 {
            spec_known_ids(self.tracks@, lib.len())
        } else {
            self.spec_selection(lib)
        }
    }

    /// The menu lines match the songs in `lib` and the first line is
    /// selected.
    pub open spec fn refreshed(&self, lib: Seq<Track>) -> bool {
        &&& self.menu.selection == 0
        &&& spec_items_of(items_view(self.menu.items@), spec_split_items(spec_raw_items(self.tracks@, lib, self.tag@), self.sep()))
    }

    /// Whether the tag value `tag_val` is `target`.
    pub fn tag_is(&self, tag_val: &str, target: &str) -> (r: bool)
        ensures
            r == spec_tag_is(tag_val@, target@, self.sep()),
    {
        match &self.multitag_separator {
            Some(sep) => {
                let pieces = split_str(tag_val, sep.as_str());
                contains_string(&pieces, target)
            },
            None => str_eq(tag_val, target),
        }
    }

    fn line_matches(&self, t: &Track, line: &str) -> (r: bool)
        ensures
            r == spec_line_matches(*t, self.tag@, line@, self.sep()),
    {
        let v = get_tag(t, self.tag.as_str());
        if str_eq(line, "<Empty>") {
            v.is_none()
        } else {
            match v {
                Some(x) => self.tag_is(x.as_str(), line),
                None => false,
            }
        }
    }

    fn line_ids(&self, library: &Vec<Track>, line: &str) -> (r: Vec<usize>)
        ensures
            r@ == spec_line_ids(self.tracks@, library@, self.tag@, line@, self.sep()),
    {
        let mut r: Vec<usize> = Vec::new();
        let mut i: usize = 0;
        while i < self.tracks.len()
            invariant
                i <= self.tracks@.len(),
                r@ == spec_line_ids(self.tracks@.subrange(0, i as int), library@, self.tag@, line@, self.sep()),
            decreases self.tracks@.len() - i,
        {
            let id = self.tracks[i];
            proof {
                assert(self.tracks@.subrange(0, i + 1).drop_last() =~= self.tracks@.subrange(0, i as int));
            }
            if id < library.len() && self.line_matches(&library[id], line) {
                r.push(id);
            }
            i = i + 1;
        }
        assert(self.tracks@.subrange(0, i as int) =~= self.tracks@);
        r
    }

    /// The ids the menu selects.
    pub fn selection(&self, library: &Vec<Track>) -> (r: Vec<usize>)
        ensures
            r@ == self.spec_selection(library@),
    {
        if self.menu.selection == 0 {
            copy_usizes(&self.tracks)
        } else {
            match self.menu.selection() {
                Some(line) => self.line_ids(library, line.as_str()),
                None => Vec::new(),
            }
        }
    }

    /// The library songs under the selected line.
    pub fn selected_tracks(&self, library: &Vec<Track>) -> (r: Vec<Track>)
        ensures
            r@.len() == self.spec_selected_ids(library@).len(),
            forall|i: int| 0 <= i < r@.len() ==> (#[trigger] r@[i]).spec_view() == library@[self.spec_selected_ids(library@)[i] as int].spec_view(),
    {
        let ids = if self.menu.selection == 0 {
            known_ids(&self.tracks, library.len())
        } else {
            proof {
                lemma_line_ids_valid(self.tracks@, library@, self.tag@, if self.menu.selection < self.menu.items@.len() {
                    self.menu.items@[self.menu.selection as int]@
                } else {
                    Seq::empty()
                }, self.sep());
            }
            self.selection(library)
        };
        let mut r: Vec<Track> = Vec::new();
        let mut i: usize = 0;
        while i < ids.len()
            invariant
                ids@ == self.spec_selected_ids(library@),
                forall|k: int| 0 <= k < ids@.len() ==> (#[trigger] ids@[k]) < library@.len(),
                i <= ids@.len(),
                r@.len() == i,
                forall|k: int| 0 <= k < i ==> (#[trigger] r@[k]).spec_view() == library@[ids@[k] as int].spec_view(),
            decreases ids@.len() - i,
        {
            r.push(library[ids[i]].copy());
            i = i + 1;
        }
        r
    }

    /// Fills the menu lines from the songs' tag values, cut at the
    /// separator, sorted and without repeats, after "<All>"; selects the
    /// first line.
    pub fn set_menu_items(&mut self, library: &Vec<Track>)
        ensures
            final(self).refreshed(library@),
            final(self).tracks == old(self).tracks,
            final(self).tag == old(self).tag,
            final(self).parent == old(self).parent,
            final(self).multitag_separator == old(self).multitag_separator,
            crate::menu::same_look(old(self).menu, final(self).menu),
    {
        let mut raw: Vec<String> = Vec::new();
        let mut i: usize = 0;
        while i < self.tracks.len()
            invariant
                i <= self.tracks@.len(),
                strings_view(raw@) == spec_raw_items(self.tracks@.subrange(0, i as int), library@, self.tag@),
            decreases self.tracks@.len() - i,
        {
            let id = self.tracks[i];
            proof {
                assert(self.tracks@.subrange(0, i + 1).drop_last() =~= self.tracks@.subrange(0, i as int));
            }
            if id < library.len() {
                let v = match get_tag(&library[id], self.tag.as_str()) {
                    Some(v) => v.clone(),
                    None => "<Empty>".to_string(),
                };
                let ghost before = strings_view(raw@);
                raw.push(v);
                assert(strings_view(raw@) =~= before.push(v@));
            }
            i = i + 1;
        }
        assert(self.tracks@.subrange(0, i as int) =~= self.tracks@);
        let ghost src = spec_split_items(strings_view(raw@), self.sep());
        let finals = match &self.multitag_separator {
            Some(sep) => {
                let mut f: Vec<String> = Vec::new();
                let mut k: usize = 0;
                while k < raw.len()
                    invariant
                        k <= raw@.len(),
                        self.sep() == Some(sep@),
                        strings_view(f@) == spec_split_items(strings_view(raw@).subrange(0, k as int), self.sep()),
                    decreases raw@.len() - k,
                {
                    let item = &raw[k];
                    let ghost before = strings_view(f@);
                    proof {
                        let sub = strings_view(raw@).subrange(0, k + 1);
                        assert(sub.drop_last() =~= strings_view(raw@).subrange(0, k as int));
                        assert(sub.last() == item@);
                    }
                    if contains_str(item.as_str(), sep.as_str()) {
                        let mut pieces = split_str(item.as_str(), sep.as_str());
                        let ghost pv = strings_view(pieces@);
                        f.append(&mut pieces);
                        assert(strings_view(f@) =~= before + pv);
                    } else {
                        f.push(item.clone());
                        assert(strings_view(f@) =~= before + seq![item@]);
                    }
                    k = k + 1;
                }
                assert(strings_view(raw@).subrange(0, raw@.len() as int) =~= strings_view(raw@));
                f
            },
            None => raw,
        };
        let mut sorted = sort_dedup(&finals);
        let mut items: Vec<String> = Vec::new();
        items.push("<All>".to_string());
        let ghost sv = strings_view(sorted@);
        items.append(&mut sorted);
        proof {
            assert(items_view(items@) =~= seq!["<All>"@] + sv);
            assert(items_view(items@).drop_first() =~= sv);
        }
        self.menu.items = items;
        self.menu.selection = 0;
    }

    /// Whether handling `e` can be computed.
    pub fn accepts(&self, state: &GlobalState, e: &ComponentEvent) -> (r: bool)
        ensures
            r == self.can_handle(*state, *e),
    {
        move_ok(&self.menu, e) && styles_fit(state, &self.parent, e)
    }

    /// What handling `e` needs.
    pub open spec fn can_handle(self, state: GlobalState, e: ComponentEvent) -> bool {
        &&& spec_move_ok(self.menu, e)
        &&& e matches ComponentEvent::StyleMenuUpdated(n, styles) ==> (self.parent.spec_parent() == Some(n@)
            ==> (state.style_tree matches Some(t) ==> forall|i: int| 0 <= i < styles@.len()
            ==> (#[trigger] styles@[i]) < t.spec_styles().len()))
    }

    /// What handling `e` does: `new` is the component after it and `out`
    /// the events it sends.
    pub open spec fn handled(self, new: Self, state: GlobalState, e: ComponentEvent, out: Seq<Event>) -> bool {
        &&& new.menu.name == self.menu.name
        &&& new.tag == self.tag
        &&& new.parent == self.parent
        &&& new.multitag_separator == self.multitag_separator
        &&& match spec_move(items_view(self.menu.items@), self.menu.selection, e) {
            Some(s) => {
                &&& crate::menu::same_but_selection(self.menu, new.menu)
                &&& new.menu.selection == s
                &&& new.tracks == self.tracks
                &&& out.len() == 2
                &&& is_tag_update(out[0], self.menu.name@, new.spec_selection(state.library@))
                &&& is_redraw(out[1], self.menu.name@)
            },
            None => match e {
                ComponentEvent::Select => new == self && out.len() == 1 && (out[0] matches Event::ToMpd(
                    MpdEvent::AddToQueue(ts),
                ) && ts@.len() == self.spec_selected_ids(state.library@).len() && forall|i: int|
                    0 <= i < ts@.len() ==> (#[trigger] ts@[i]).spec_view() == state.library@[self.spec_selected_ids(state.library@)[i] as int].spec_view()),
                ComponentEvent::OpenTags => new == self && out.len() == 1 && (out[0] matches Event::ToApp(
                    AppEvent::TagUI(ids),
                ) && ids@ == self.spec_selection(state.library@)),
                ComponentEvent::StyleMenuUpdated(n, styles) => if self.parent.spec_parent() == Some(n@)
                    && state.style_tree is Some {
                    &&& new.tracks@ == spec_ids_where(
                        state.library@,
                        state.library@.len(),
                        |t: Track| spec_in_genres(t, state.style_tree->0, styles@),
                    )
                    &&& new.refreshed(state.library@)
                    &&& crate::menu::same_look(self.menu, new.menu)
                    &&& out.len() == 2
                    &&& is_tag_update(out[0], self.menu.name@, new.spec_selection(state.library@))
                    &&& is_redraw(out[1], self.menu.name@)
                } else {
                    new == self && out.len() == 0
                },
                ComponentEvent::TagMenuUpdated(n, ids) => if self.parent.spec_parent() == Some(n@) {
                    &&& new.tracks@ == ids@
                    &&& new.refreshed(state.library@)
                    &&& crate::menu::same_look(self.menu, new.menu)
                    &&& out.len() == 2
                    &&& is_tag_update(out[0], self.menu.name@, new.spec_selection(state.library@))
                    &&& is_redraw(out[1], self.menu.name@)
                } else {
                    new == self && out.len() == 0
                },
                ComponentEvent::Database => if self.parent.spec_parent() is None {
                    &&& new.tracks@ == Seq::new(state.library@.len(), |i: int| i as usize)
                    &&& new.refreshed(state.library@)
                    &&& crate::menu::same_look(self.menu, new.menu)
                    &&& out.len() == 2
                    &&& is_tag_update(out[0], self.menu.name@, new.spec_selection(state.library@))
                    &&& is_redraw(out[1], self.menu.name@)
                } else {
                    new == self && out.len() == 0
                },
                ComponentEvent::LostMpdConnection => {
                    &&& new.tracks@.len() == 0
                    &&& new.refreshed(Seq::empty())
                    &&& crate::menu::same_look(self.menu, new.menu)
                    &&& out.len() == 2
                    &&& is_tag_update(out[0], self.menu.name@, Seq::empty())
                    &&& is_redraw(out[1], self.menu.name@)
                },
                _ => new == self && out.len() == 0,
            },
        }
    }

    /// Reacts to an event and returns the events to send. Genre ids from a
    /// parent genre menu must be in the genre tree.
    pub fn handle(&mut self, state: &GlobalState, e: &ComponentEvent) -> (out: Vec<Event>)
        requires
            old(self).can_handle(*state, *e),
        ensures
            old(self).handled(*final(self), *state, *e, out@),
    {
        let mut out: Vec<Event> = Vec::new();
        if menu_move(&mut self.menu, e) {
            out.push(self.update_event(&state.library));
            out.push(redraw(self.menu.name.as_str()));
            return out;
        }
        match e {
            ComponentEvent::Select => {
                out.push(Event::ToMpd(MpdEvent::AddToQueue(self.selected_tracks(&state.library))));
            },
            ComponentEvent::OpenTags => {
                out.push(Event::ToApp(AppEvent::TagUI(self.selection(&state.library))));
            },
            ComponentEvent::StyleMenuUpdated(origin, styles) => {
                if self.parent.is(origin.as_str()) {
                    match &state.style_tree {
                        Some(tree) => {
                            self.tracks = genre_ids(&state.library, tree, styles);
                            self.set_menu_items(&state.library);
                            out.push(self.update_event(&state.library));
                            out.push(redraw(self.menu.name.as_str()));
                        },
                        None => {},
                    }
                }
            },
            ComponentEvent::TagMenuUpdated(origin, ids) => {
                if self.parent.is(origin.as_str()) {
                    self.tracks = copy_usizes(ids);
                    self.set_menu_items(&state.library);
                    out.push(self.update_event(&state.library));
                    out.push(redraw(self.menu.name.as_str()));
                }
            },
            ComponentEvent::Database => {
                if self.parent.is_none() {
                    let mut all: Vec<usize> = Vec::new();
                    let mut i: usize = 0;
                    while i < state.library.len()
                        invariant
                            i <= state.library@.len(),
                            all@ == Seq::new(i as nat, |k: int| k as usize),
                        decreases state.library@.len() - i,
                    {
                        all.push(i);
                        i = i + 1;
                        assert(all@ =~= Seq::new(i as nat, |k: int| k as usize));
                    }
                    self.tracks = all;
                    self.set_menu_items(&state.library);
                    out.push(self.update_event(&state.library));
                    out.push(redraw(self.menu.name.as_str()));
                }
            },
            ComponentEvent::LostMpdConnection => {
                let empty: Vec<Track> = Vec::new();
                self.tracks = Vec::new();
                self.set_menu_items(&empty);
                out.push(self.update_event(&empty));
                out.push(redraw(self.menu.name.as_str()));
            },
            _ => {},
        }
        out
    }

    /// The event telling every component what the menu now selects.
    fn update_event(&self, library: &Vec<Track>) -> (e: Event)
        ensures
            is_tag_update(e, self.menu.name@, self.spec_selection(library@)),
    {
        Event::ToAllComponents(ComponentEvent::TagMenuUpdated(self.menu.name.clone(), self.selection(library)))
    }
}

/// The ids of the library songs whose genre is the name of one of the
/// genres `styles`.
pub fn genre_ids(library: &Vec<Track>, tree: &StyleTree, styles: &Vec<usize>) -> (r: Vec<usize>)
    requires
        forall|i: int| 0 <= i < styles@.len() ==> (#[trigger] styles@[i]) < tree.spec_styles().len(),
    ensures
        r@ == spec_ids_where(library@, library@.len(), |t: Track| spec_in_genres(t, *tree, styles@)),
{
    let mut names: Vec<&str> = Vec::new();
    let mut j: usize = 0;
    while j < styles.len()
        invariant
            forall|i: int| 0 <= i < styles@.len() ==> (#[trigger] styles@[i]) < tree.spec_styles().len(),
            j <= styles@.len(),
            names@.len() == j,
            forall|k: int| 0 <= k < j ==> (#[trigger] names@[k])@ == tree.spec_styles()[styles@[k] as int].name,
        decreases styles@.len() - j,
    {
        names.push(tree.name(styles[j]));
        j = j + 1;
    }
    let mut r: Vec<usize> = Vec::new();
    let mut i: usize = 0;
    while i < library.len()
        invariant
            names@.len() == styles@.len(),
            forall|k: int| 0 <= k < styles@.len() ==> (#[trigger] names@[k])@ == tree.spec_styles()[styles@[k] as int].name,
            i <= library@.len(),
            r@ == spec_ids_where(library@, i as nat, |t: Track| spec_in_genres(t, *tree, styles@)),
        decreases library@.len() - i,
    {
        let found = match get_tag(&library[i], "Genre") {
            Some(g) => {
                let mut k: usize = 0;
                let mut hit = false;
                while k < names.len() && !hit
                    invariant
                        names@.len() == styles@.len(),
                        forall|m: int| 0 <= m < styles@.len() ==> (#[trigger] names@[m])@ == tree.spec_styles()[styles@[m] as int].name,
                        k <= names@.len(),
                        hit ==> exists|m: int| 0 <= m < styles@.len() && tree.spec_styles()[#[trigger] styles@[m] as int].name == g@,
                        !hit ==> forall|m: int| 0 <= m < k ==> tree.spec_styles()[#[trigger] styles@[m] as int].name != g@,
                    decreases names@.len() - k + if hit { 0int } else { 1int },
                {
                    if str_eq(names[k], g.as_str()) {
                        assert(tree.spec_styles()[styles@[k as int] as int].name == g@);
                        hit = true;
                    } else {
                        k = k + 1;
                    }
                }
                hit
            },
            None => false,
        };
        assert(found == spec_in_genres(library@[i as int], *tree, styles@));
        if found {
            r.push(i);
        }
        i = i + 1;
    }
    r
}

/// A copy of a list of ids.
pub fn copy_usizes(v: &Vec<usize>) -> (r: Vec<usize>)
    ensures
        r@ == v@,
{
    let mut r: Vec<usize> = Vec::new();
    let mut i: usize = 0;
    while i < v.len()
        invariant
            i <= v@.len(),
            r@ == v@.subrange(0, i as int),
        decreases v@.len() - i,
    {
        r.push(v[i]);
        i = i + 1;
        assert(r@ =~= v@.subrange(0, i as int));
    }
    assert(r@ =~= v@);
    r
}

proof fn lemma_line_ids_valid(ids: Seq<usize>, lib: Seq<Track>, tag: Seq<char>, line: Seq<char>, sep: Option<Seq<char>>)
    ensures
        forall|k: int| 0 <= k < spec_line_ids(ids, lib, tag, line, sep).len() ==> (#[trigger] spec_line_ids(ids, lib, tag, line, sep)[k]) < lib.len(),
    decreases ids.len(),
{
    if ids.len() > 0 {
        lemma_line_ids_valid(ids.drop_last(), lib, tag, line, sep);
        let rest = spec_line_ids(ids.drop_last(), lib, tag, line, sep);
        let all = spec_line_ids(ids, lib, tag, line, sep);
        assert forall|k: int| 0 <= k < all.len() implies (#[trigger] all[k]) < lib.len() by {
            if k < rest.len() {
                assert(all[k] == rest[k]);
            }
        }
    }
}

impl TagMenu {
    /// Draws the menu `w` by `h` from (`x`, `y`).
    pub fn draw(&self, x: u16, y: u16, w: u16, h: u16, focus: bool) -> (r: Vec<crate::paint::Paint>)
        requires
            self.menu.can_draw(y, h),
        ensures
            crate::paint::paints_view(r@) == crate::menu::spec_menu_draw(self.menu, x, y, w, h, focus),
    {
        self.menu.draw(x, y, w, h, focus)
    }
}

} // verus!
