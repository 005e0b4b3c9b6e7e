//! Menu components over songs: the play queue, a list of songs, and the
//! stored playlists.
use vstd::prelude::*;

use crate::align::Align;
use crate::color::Color;
use crate::components::simple::{is_redraw, redraw};
use crate::event::{AppEvent, ComponentEvent, Event, MpdEvent};
use crate::menu::{
    body_top, fresh_menu, items_view, menu_color, push_title, spec_first_visible, spec_item_lines, spec_menu_draw, spec_next,
    spec_prev, spec_search, spec_search_prev, title_rows, Menu, Parent,
};
use crate::paint::{pad_to_width, paints_view, repeat_char, repeated, spec_unicode_pad, Paint, PaintView};
use crate::styles::{spec_leaves, StyleTree, StyleView};
use crate::text::str_eq;
use crate::track::{copy_tracks, opt_view, track_eq, tracks_view, Playlist, Track};
use crate::GlobalState;

verus! {

/// Where a movement event puts the selection of a menu with `items`
/// selected at `sel`; `None` for events that do not move it.
pub open spec fn spec_move(items: Seq<Seq<char>>, sel: usize, e: ComponentEvent) -> Option<int> {
    match e {
        ComponentEvent::Next => Some(spec_next(items.len() as int, sel as int)),
        ComponentEvent::Prev => Some(spec_prev(items.len() as int, sel as int)),
        ComponentEvent::GoToTop => Some(0),
        ComponentEvent::GoToBottom => Some(items.len() - 1),
        ComponentEvent::GoTo(i) => Some(if i < items.len() { i as int } else { sel as int }),
        ComponentEvent::Search(s) => Some(spec_search(items, sel as int, s@)),
        ComponentEvent::SearchPrev(s) => Some(spec_search_prev(items, sel as int, s@)),
        _ => None,
    }
}

/// A movement can be computed: no move to the bottom of an empty menu, no
/// step past the largest index, no backward search from past the end.
pub open spec fn spec_move_ok(m: Menu, e: ComponentEvent) -> bool {
    &&& e is GoToBottom ==> m.items@.len() > 0
    &&& (e is Next || e is Search) ==> m.selection < usize::MAX
    &&& e is SearchPrev ==> m.selection <= m.items@.len()
}

/// Whether a movement can be computed on `m`.
pub fn move_ok(m: &Menu, e: &ComponentEvent) -> (r: bool)
    ensures
        r == spec_move_ok(*m, *e),
{
    match e {
        ComponentEvent::GoToBottom => m.items.len() > 0,
        ComponentEvent::Next | ComponentEvent::Search(_) => m.selection < usize::MAX,
        ComponentEvent::SearchPrev(_) => m.selection <= m.items.len(),
        _ => true,
    }
}

/// Whether every id of `ids` is a genre of `tree`.
pub fn ids_in_tree(ids: &Vec<usize>, tree: &StyleTree) -> (r: bool)
    ensures
        r == forall|i: int| 0 <= i < ids@.len() ==> (#[trigger] ids@[i]) < tree.spec_styles().len(),
{
    let n = tree.len();
    let mut i: usize = 0;
    while i < ids.len()
        invariant
            n == tree.spec_styles().len(),
            i <= ids@.len(),
            forall|j: int| 0 <= j < i ==> (#[trigger] ids@[j]) < n,
        decreases ids@.len() - i,
    {
        if ids[i] >= n {
            return false;
        }
        i = i + 1;
    }
    true
}

/// Whether the genre ids of a genre menu update for `parent` fit the
/// genre tree of `state`.
pub fn styles_fit(state: &GlobalState, parent: &Parent, e: &ComponentEvent) -> (r: bool)
    ensures
        r == (e matches ComponentEvent::StyleMenuUpdated(n, styles) ==> (parent.spec_parent() == Some(n@)
            ==> (state.style_tree matches Some(t) ==> forall|i: int| 0 <= i < styles@.len()
            ==> (#[trigger] styles@[i]) < t.spec_styles().len()))),
{
    match e {
        ComponentEvent::StyleMenuUpdated(n, styles) => {
            if parent.is(n.as_str()) {
                match &state.style_tree {
                    Some(t) => ids_in_tree(styles, t),
                    None => true,
                }
            } else {
                true
            }
        },
        _ => true,
    }
}

/// Applies a movement event to a menu; returns whether `e` was one.
pub fn menu_move(m: &mut Menu, e: &ComponentEvent) -> (moved: bool)
    requires
        spec_move_ok(*old(m), *e),
    ensures
        crate::menu::same_but_selection(*old(m), *final(m)),
        moved == spec_move(items_view(old(m).items@), old(m).selection, *e) is Some,
        match spec_move(items_view(old(m).items@), old(m).selection, *e) {
            Some(s) => final(m).selection == s,
            None => final(m).selection == old(m).selection,
        },
{
    match e {
        ComponentEvent::Next => { m.next(); true },
        ComponentEvent::Prev => { m.prev(); true },
        ComponentEvent::GoToTop => { m.to_top(); true },
        ComponentEvent::GoToBottom => { m.to_bottom(); true },
        ComponentEvent::GoTo(i) => { m.to(*i); true },
        ComponentEvent::Search(s) => { m.search(s.as_str()); true },
        ComponentEvent::SearchPrev(s) => { m.search_prev(s.as_str()); true },
        _ => false,
    }
}

/// `b` is `a` with other lines, if any: the same name, selection,
/// colours, title and alignments.
pub open spec fn same_but_items(a: Menu, b: Menu) -> bool {
    &&& b.name == a.name
    &&& b.selection == a.selection
    &&& b.color == a.color
    &&& b.focus_color == a.focus_color
    &&& b.title == a.title
    &&& b.title_alignment == a.title_alignment
    &&& b.menu_alignment == a.menu_alignment
}

/// What a menu of songs shows for a song: its title, or "<Empty>".
pub open spec fn spec_title_item(t: Track) -> Seq<char> {
    match opt_view(t.title) {
        Some(s) => s,
        None => "<Empty>"@,
    }
}

/// The menu lines for `tracks`.
pub fn titles_of(tracks: &Vec<Track>) -> (r: Vec<String>)
    ensures
        r@.len() == tracks@.len(),
        forall|i: int| 0 <= i < tracks@.len() ==> (#[trigger] r@[i])@ == spec_title_item(tracks@[i]),
{
    let mut r: Vec<String> = Vec::new();
    let mut i: usize = 0;
    while i < tracks.len()
        invariant
            i <= tracks@.len(),
            r@.len() == i,
            forall|k: int| 0 <= k < i ==> (#[trigger] r@[k])@ == spec_title_item(tracks@[k]),
        decreases tracks@.len() - i,
    {
        let t = match &tracks[i].title {
            Some(title) => title.clone(),
            None => "<Empty>".to_string(),
        };
        r.push(t);
        i = i + 1;
    }
    r
}

/// The ids among `ids` that are in a library of `n` songs, in order.
pub open spec fn spec_valid_ids(ids: Seq<usize>, n: int) -> Seq<usize>
    decreases ids.len(),
{
    if ids.len() == 0 {
        Seq::empty()
    } else {
        let rest = spec_valid_ids(ids.drop_last(), n);
        if ids.last() < n { rest.push(ids.last()) } else { rest }
    }
}

/// The library songs with the ids among `ids` that are in the library,
/// in order, with those ids.
pub fn library_tracks(library: &Vec<Track>, ids: &Vec<usize>) -> (r: (Vec<usize>, Vec<Track>))
    ensures
        r.0@ == spec_valid_ids(ids@, library@.len() as int),
        r.1@.len() == r.0@.len(),
        forall|i: int| 0 <= i < r.0@.len() ==> (#[trigger] r.1@[i]).spec_view() == library@[r.0@[i] as int].spec_view(),
{
    let mut kept: Vec<usize> = Vec::new();
    let mut tracks: Vec<Track> = Vec::new();
    let mut i: usize = 0;
    while i < ids.len()
        invariant
            i <= ids@.len(),
            kept@ == spec_valid_ids(ids@.subrange(0, i as int), library@.len() as int),
            tracks@.len() == kept@.len(),
            forall|k: int| 0 <= k < kept@.len() ==> (#[trigger] tracks@[k]).spec_view() == library@[kept@[k] as int].spec_view(),
            forall|k: int| 0 <= k < kept@.len() ==> (#[trigger] kept@[k]) < library@.len(),
        decreases ids@.len() - i,
    {
        let id = ids[i];
        proof {
            assert(ids@.subrange(0, i + 1).drop_last() =~= ids@.subrange(0, i as int));
        }
        if id < library.len() {
            kept.push(id);
            tracks.push(library[id].copy());
        }
        i = i + 1;
    }
    assert(ids@.subrange(0, i as int) =~= ids@);
    (kept, tracks)
}

/// The play queue.
#[derive(Debug, PartialEq)]
pub struct Queue {
    /// The queued songs, in queue order.
    pub tracks: Vec<Track>,
    /// Their ids in the library.
    pub ids: Vec<usize>,
    pub menu: Menu,
    /// The song now playing, if it is in the library.
    pub now_playing: Option<Track>,
}

impl Queue {
    pub fn new(name: &str, color: Color, focus_color: Color, title: Option<String>, title_alignment: Align, menu_alignment: Align) -> (q: Queue)
        ensures
            fresh_menu(q.menu, name@, color, focus_color, title, title_alignment, menu_alignment),
            q.menu.items@.len() == 0,
            q.tracks@.len() == 0,
            q.ids@.len() == 0,
            q.now_playing is None,
    {
        Queue {
            tracks: Vec::new(),
            ids: Vec::new(),
            now_playing: None,
            menu: Menu {
                title,
                name: name.to_string(),
                focus_color,
                color,
                selection: 0,
                items: Vec::new(),
                title_alignment,
                menu_alignment,
            },
        }
    }

    /// The queue's lines are its songs' titles.
    pub open spec fn wf(&self) -> bool {
        &&& self.menu.items@.len() == self.tracks@.len()
        &&& self.ids@.len() == self.tracks@.len()
        &&& forall|i: int| 0 <= i < self.tracks@.len() ==> (#[trigger] self.menu.items@[i])@ == spec_title_item(self.tracks@[i])
    }

    /// Whether handling `e` can be computed.
    pub fn accepts(&self, state: &GlobalState, e: &ComponentEvent) -> (r: bool)
        requires
            self.wf(),
        ensures
            r == self.can_handle(*state, *e),
    {
        move_ok(&self.menu, e)
    }

    /// What handling `e` needs.
    pub open spec fn can_handle(self, state: GlobalState, e: ComponentEvent) -> bool {
        &&& self.wf()
        &&& spec_move_ok(self.menu, e)
    }

    /// What handling `e` does: `new` is the component after it and `out`
    /// the events it sends.
    pub open spec fn handled(self, new: Self, state: GlobalState, e: ComponentEvent, out: Seq<Event>) -> bool {
        &&& new.wf()
        &&& new.menu.name == self.menu.name
        &&& match spec_move(items_view(self.menu.items@), self.menu.selection, e) {
            Some(s) => {
                &&& crate::menu::same_but_selection(self.menu, new.menu)
                &&& new.menu.selection == s
                &&& new.tracks == self.tracks
                &&& new.ids == self.ids
                &&& new.now_playing == self.now_playing
                &&& out.len() == 1 && is_redraw(out[0], self.menu.name@)
            },
            None => match e {
                ComponentEvent::Queue(ids) => {
                    &&& same_but_items(self.menu, new.menu)
                    &&& new.now_playing == self.now_playing
                    &&& new.ids@ == spec_valid_ids(ids@, state.library@.len() as int)
                    &&& forall|i: int| 0 <= i < new.ids@.len() ==> (#[trigger] new.tracks@[i]).spec_view()
                        == state.library@[new.ids@[i] as int].spec_view()
                    &&& out.len() == 1 && is_redraw(out[0], self.menu.name@)
                },
                ComponentEvent::NowPlaying(id) => {
                    &&& new.menu == self.menu
                    &&& new.tracks == self.tracks
                    &&& new.ids == self.ids
                    &&& match id {
                        Some(i) => if i < state.library@.len() {
                            new.now_playing matches Some(t) && t.spec_view() == state.library@[i as int].spec_view()
                        } else {
                            new.now_playing is None
                        },
                        None => new.now_playing is None,
                    }
                    &&& out.len() == 1 && is_redraw(out[0], self.menu.name@)
                },
                ComponentEvent::Select => new == self && if self.menu.selection < self.tracks@.len() {
                    out.len() == 1 && (out[0] matches Event::ToMpd(MpdEvent::PlayAt(t)) && t.spec_view()
                        == self.tracks@[self.menu.selection as int].spec_view())
                } else {
                    out.len() == 0
                },
                ComponentEvent::OpenTags => new == self && out.len() == 1
                    && (out[0] matches Event::ToApp(AppEvent::TagUI(ids)) && ids@ == (if self.menu.selection
                    < self.ids@.len() {
                    seq![self.ids@[self.menu.selection as int]]
                } else {
                    Seq::<usize>::empty()
                })),
                ComponentEvent::LostMpdConnection => {
                    &&& same_but_items(self.menu, new.menu)
                    &&& new.tracks@.len() == 0
                    &&& new.now_playing is None
                    &&& out.len() == 1 && is_redraw(out[0], self.menu.name@)
                },
                _ => new == self && out.len() == 0,
            },
        }
    }

    /// Reacts to an event and returns the events to send.
    pub fn handle(&mut self, state: &GlobalState, e: &ComponentEvent) -> (out: Vec<Event>)
        requires
            old(self).can_handle(*state, *e),
        ensures
            old(self).handled(*final(self), *state, *e, out@),
    {
        let mut out: Vec<Event> = Vec::new();
        if menu_move(&mut self.menu, e) {
            out.push(redraw(self.menu.name.as_str()));
            return out;
        }
        match e {
            ComponentEvent::Queue(q) => {
                let (ids, tracks) = library_tracks(&state.library, q);
                self.menu.items = titles_of(&tracks);
                self.ids = ids;
                self.tracks = tracks;
                out.push(redraw(self.menu.name.as_str()));
            },
            ComponentEvent::NowPlaying(id) => {
                self.now_playing = match id {
                    Some(i) => if *i < state.library.len() {
                        Some(state.library[*i].copy())
                    } else {
                        None
                    },
                    None => None,
                };
                out.push(redraw(self.menu.name.as_str()));
            },
            ComponentEvent::Select => {
                if self.menu.selection < self.tracks.len() {
                    out.push(Event::ToMpd(MpdEvent::PlayAt(self.tracks[self.menu.selection].copy())));
                }
            },
            ComponentEvent::OpenTags => {
                let mut ids: Vec<usize> = Vec::new();
                if self.menu.selection < self.ids.len() {
                    ids.push(self.ids[self.menu.selection]);
                }
                proof {
                    if old(self).menu.selection < old(self).ids@.len() {
                        assert(ids@ =~= seq![old(self).ids@[old(self).menu.selection as int]]);
                    } else {
                        assert(ids@ =~= Seq::<usize>::empty());
                    }
                }
                out.push(Event::ToApp(AppEvent::TagUI(ids)));
            },
            ComponentEvent::LostMpdConnection => {
                self.now_playing = None;
                self.tracks = Vec::new();
                self.ids = Vec::new();
                self.menu.items = Vec::new();
                out.push(redraw(self.menu.name.as_str()));
            },
            _ => {},
        }
        out
    }
}

/// The ids, in order, of the first `n` library songs that satisfy `f`.
pub open spec fn spec_ids_where(lib: Seq<Track>, n: nat, f: spec_fn(Track) -> bool) -> Seq<usize>
    decreases n,
{
    if n == 0 || n > lib.len() {
        Seq::empty()
    } else {
        let rest = spec_ids_where(lib, (n - 1) as nat, f);
        if f(lib[n - 1]) { rest.push((n - 1) as usize) } else { rest }
    }
}

/// Song `t` has the file of one of `files`.
pub open spec fn file_in(t: Track, files: Seq<Track>) -> bool {
    exists|i: int| 0 <= i < files.len() && t.file@ == (#[trigger] files[i]).file@
}

/// Song `t` equals one of `ts` in file, title, tags and position.
pub open spec fn track_in(t: Track, ts: Seq<Track>) -> bool {
    exists|i: int| 0 <= i < ts.len() && t.spec_view() == (#[trigger] ts[i]).spec_view()
}

/// Lists of songs with equal plain values hold the same files.
proof fn lemma_file_in_view(t: Track, a: Seq<Track>, b: Seq<Track>)
    requires
        tracks_view(a) == tracks_view(b),
    ensures
        file_in(t, a) == file_in(t, b),
{
    assert(a.len() == tracks_view(a).len() && b.len() == tracks_view(b).len());
    if file_in(t, a) {
        let i = choose|i: int| 0 <= i < a.len() && t.file@ == (#[trigger] a[i]).file@;
        assert(tracks_view(a)[i] == tracks_view(b)[i]);
        assert(t.file@ == b[i].file@);
    }
    if file_in(t, b) {
        let i = choose|i: int| 0 <= i < b.len() && t.file@ == (#[trigger] b[i]).file@;
        assert(tracks_view(a)[i] == tracks_view(b)[i]);
        assert(t.file@ == a[i].file@);
    }
}

/// Whether some song of `ts` has the file of `t`.
fn has_file(ts: &Vec<Track>, t: &Track) -> (r: bool)
    ensures
        r == file_in(*t, ts@),
{
    let mut i: usize = 0;
    while i < ts.len()
        invariant
            i <= ts@.len(),
            forall|k: int| 0 <= k < i ==> t.file@ != (#[trigger] ts@[k]).file@,
        decreases ts@.len() - i,
    {
        if str_eq(ts[i].file.as_str(), t.file.as_str()) {
            return true;
        }
        i = i + 1;
    }
    false
}

/// Whether some song of `ts` equals `t`.
fn has_track(ts: &Vec<Track>, t: &Track) -> (r: bool)
    ensures
        r == track_in(*t, ts@),
{
    let mut i: usize = 0;
    while i < ts.len()
        invariant
            i <= ts@.len(),
            forall|k: int| 0 <= k < i ==> t.spec_view() != (#[trigger] ts@[k]).spec_view(),
        decreases ts@.len() - i,
    {
        if track_eq(&ts[i], t) {
            return true;
        }
        i = i + 1;
    }
    false
}

/// The ids of the library songs that have the file of one of `ts`.
pub fn ids_with_files(library: &Vec<Track>, ts: &Vec<Track>) -> (r: Vec<usize>)
    ensures
        r@ == spec_ids_where(library@, library@.len(), |t: Track| file_in(t, ts@)),
{
    let mut r: Vec<usize> = Vec::new();
    let mut i: usize = 0;
    while i < library.len()
        invariant
            i <= library@.len(),
            r@ == spec_ids_where(library@, i as nat, |t: Track| file_in(t, ts@)),
        decreases library@.len() - i,
    {
        if has_file(ts, &library[i]) {
            r.push(i);
        }
        i = i + 1;
    }
    r
}

/// The ids of the library songs that equal one of `ts`.
pub fn ids_of_tracks(library: &Vec<Track>, ts: &Vec<Track>) -> (r: Vec<usize>)
    ensures
        r@ == spec_ids_where(library@, library@.len(), |t: Track| track_in(t, ts@)),
{
    let mut r: Vec<usize> = Vec::new();
    let mut i: usize = 0;
    while i < library.len()
        invariant
            i <= library@.len(),
            r@ == spec_ids_where(library@, i as nat, |t: Track| track_in(t, ts@)),
        decreases library@.len() - i,
    {
        if has_track(ts, &library[i]) {
            r.push(i);
        }
        i = i + 1;
    }
    r
}

/// The leaf genres under each of the genres `styles`, in turn.
pub open spec fn spec_style_leaves(s: Seq<StyleView>, styles: Seq<usize>) -> Seq<Seq<char>>
    decreases styles.len(),
{
    if styles.len() == 0 {
        Seq::empty()
    } else {
        spec_style_leaves(s, styles.drop_last()) + spec_leaves(s, styles.last() as int)
    }
}

/// The songs of each genre of `genres`, in turn.
pub open spec fn spec_genres_tracks(tree: StyleTree, genres: Seq<Seq<char>>) -> Seq<Track>
    decreases genres.len(),
{
    if genres.len() == 0 {
        Seq::empty()
    } else {
        spec_genres_tracks(tree, genres.drop_last()) + tree.spec_bucket(Some(genres.last()))
    }
}

/// The songs of every leaf genre under the genres `styles`.
pub open spec fn spec_style_tracks(tree: StyleTree, styles: Seq<usize>) -> Seq<Track> {
    spec_genres_tracks(tree, spec_style_leaves(tree.spec_styles(), styles))
}

/// The names of the leaf genres under the genres `styles`, in turn.
pub fn style_leaves<'a>(tree: &'a StyleTree, styles: &Vec<usize>) -> (r: Vec<&'a str>)
    requires
        forall|i: int| 0 <= i < styles@.len() ==> (#[trigger] styles@[i]) < tree.spec_styles().len(),
    ensures
        r@.map_values(|s: &str| s@) == spec_style_leaves(tree.spec_styles(), styles@),
{
    let mut r: Vec<&str> = Vec::new();
    let mut k: usize = 0;
    while k < styles.len()
        invariant
            forall|i: int| 0 <= i < styles@.len() ==> (#[trigger] styles@[i]) < tree.spec_styles().len(),
            k <= styles@.len(),
            r@.map_values(|s: &str| s@) == spec_style_leaves(tree.spec_styles(), styles@.subrange(0, k as int)),
        decreases styles@.len() - k,
    {
        let mut sub = tree.leaf_names(styles[k]);
        let ghost before = r@;
        let ghost subv = sub@;
        r.append(&mut sub);
        proof {
            let ids = styles@.subrange(0, k + 1);
            assert(ids.drop_last() =~= styles@.subrange(0, k as int));
            assert(ids.last() == styles@[k as int]);
            assert(r@.map_values(|s: &str| s@) =~= before.map_values(|s: &str| s@) + subv.map_values(|s: &str| s@));
        }
        k = k + 1;
    }
    assert(styles@.subrange(0, styles@.len() as int) =~= styles@);
    r
}

/// The songs of every leaf genre under the genres `styles`, genre by genre.
pub fn style_tracks(tree: &StyleTree, styles: &Vec<usize>) -> (r: Vec<Track>)
    requires
        forall|i: int| 0 <= i < styles@.len() ==> (#[trigger] styles@[i]) < tree.spec_styles().len(),
    ensures
        tracks_view(r@) == tracks_view(spec_style_tracks(*tree, styles@)),
{
    let genres = style_leaves(tree, styles);
    let ghost gs = genres@.map_values(|s: &str| s@);
    let mut r: Vec<Track> = Vec::new();
    let mut k: usize = 0;
    while k < genres.len()
        invariant
            gs == genres@.map_values(|s: &str| s@),
            k <= genres@.len(),
            tracks_view(r@) == tracks_view(spec_genres_tracks(*tree, gs.subrange(0, k as int))),
        decreases genres@.len() - k,
    {
        let key: Option<String> = Some(genres[k].to_string());
        let ghost before = r@;
        proof {
            let sub = gs.subrange(0, k + 1);
            assert(sub.drop_last() =~= gs.subrange(0, k as int));
            assert(sub.last() == genres@[k as int]@);
        }
        match tree.tracks(&key) {
            Some(v) => {
                let mut c = copy_tracks(v);
                let ghost cv = c@;
                r.append(&mut c);
                assert(tracks_view(r@) =~= tracks_view(before) + tracks_view(cv));
                assert(tracks_view(spec_genres_tracks(*tree, gs.subrange(0, k + 1))) =~= tracks_view(
                    spec_genres_tracks(*tree, gs.subrange(0, k as int)),
                ) + tracks_view(v@));
            },
            None => {
                assert(spec_genres_tracks(*tree, gs.subrange(0, k + 1)) =~= spec_genres_tracks(
                    *tree,
                    gs.subrange(0, k as int),
                ));
            },
        }
        k = k + 1;
    }
    assert(gs.subrange(0, genres@.len() as int) =~= gs);
    r
}

/// A list of songs that follows another menu (its parent).
#[derive(Debug, PartialEq)]
pub struct TrackMenu {
    pub parent: Parent,
    pub menu: Menu,
    pub tracks: Vec<Track>,
}

/// The songs a song menu selects: the one under the selection, if any.
pub open spec fn spec_selected(tracks: Seq<Track>, sel: usize) -> Seq<Track> {
    if sel < tracks.len() { seq![tracks[sel as int]] } else { Seq::empty() }
}

impl TrackMenu {
    pub fn new(name: &str, color: Color, focus_color: Color, title: Option<String>, title_alignment: Align, menu_alignment: Align, parent: Option<String>) -> (m: TrackMenu)
        ensures
            fresh_menu(m.menu, name@, color, focus_color, title, title_alignment, menu_alignment),
            m.menu.items@.len() == 0,
            m.tracks@.len() == 0,
            m.parent.spec_parent() == opt_view(parent),
    {
        TrackMenu {
            parent: Parent::new(parent),
            tracks: Vec::new(),
            menu: Menu {
                name: name.to_string(),
                title,
                title_alignment,
                menu_alignment,
                color,
                focus_color,
                selection: 0,
                items: Vec::new(),
            },
        }
    }

    /// The menu's lines are its songs' titles.
    pub open spec fn wf(&self) -> bool {
        &&& self.menu.items@.len() == self.tracks@.len()
        &&& forall|i: int| 0 <= i < self.tracks@.len() ==> (#[trigger] self.menu.items@[i])@ == spec_title_item(self.tracks@[i])
    }

    /// The song under the selection, as a list of zero or one songs.
    fn selected_tracks(&self) -> (r: Vec<Track>)
        ensures
            tracks_view(r@) == tracks_view(spec_selected(self.tracks@, self.menu.selection)),
    {
        let mut r: Vec<Track> = Vec::new();
        if self.menu.selection < self.tracks.len() {
            r.push(self.tracks[self.menu.selection].copy());
            assert(tracks_view(r@) =~= tracks_view(spec_selected(self.tracks@, self.menu.selection)));
        } else {
            assert(tracks_view(r@) =~= tracks_view(spec_selected(self.tracks@, self.menu.selection)));
        }
        r
    }

    fn set_tracks(&mut self, tracks: Vec<Track>)
        ensures
            final(self).wf(),
            final(self).tracks == tracks,
            final(self).parent == old(self).parent,
            same_but_items(old(self).menu, final(self).menu),
    {
        self.menu.items = titles_of(&tracks);
        self.tracks = tracks;
    }

    /// Whether handling `e` can be computed.
    pub fn accepts(&self, state: &GlobalState, e: &ComponentEvent) -> (r: bool)
        requires
            self.wf(),
        ensures
            r == self.can_handle(*state, *e),
    {
        move_ok(&self.menu, e) && styles_fit(state, &self.parent, e)
    }

    /// What handling `e` needs.
    pub open spec fn can_handle(self, state: GlobalState, e: ComponentEvent) -> bool {
        &&& self.wf()
        &&& spec_move_ok(self.menu, e)
        &&& e matches ComponentEvent::StyleMenuUpdated(n, styles) ==> (self.parent.spec_parent() == Some(n@)
            ==> (state.style_tree matches Some(t) ==> forall|i: int| 0 <= i < styles@.len()
            ==> (#[trigger] styles@[i]) < t.spec_styles().len()))
    }

    /// What handling `e` does: `new` is the component after it and `out`
    /// the events it sends.
    pub open spec fn handled(self, new: Self, state: GlobalState, e: ComponentEvent, out: Seq<Event>) -> bool {
        &&& new.wf()
        &&& new.menu.name == self.menu.name
        &&& new.parent == self.parent
        &&& match spec_move(items_view(self.menu.items@), self.menu.selection, e) {
            Some(s) => {
                &&& crate::menu::same_but_selection(self.menu, new.menu)
                &&& new.menu.selection == s
                &&& new.tracks == self.tracks
                &&& out.len() == 1 && is_redraw(out[0], self.menu.name@)
            },
            None => match e {
                ComponentEvent::Select => new == self && out.len() == 1
                    && (out[0] matches Event::ToMpd(MpdEvent::AddToQueue(ts)) && tracks_view(ts@) == tracks_view(
                    spec_selected(self.tracks@, self.menu.selection),
                )),
                ComponentEvent::Start => new == self && if self.menu.selection < self.tracks@.len() {
                    out.len() == 1 && (out[0] matches Event::ToMpd(MpdEvent::PlayAt(t)) && t.spec_view()
                        == self.tracks@[self.menu.selection as int].spec_view())
                } else {
                    out.len() == 0
                },
                ComponentEvent::OpenTags => new == self && out.len() == 1
                    && (out[0] matches Event::ToApp(AppEvent::TagUI(ids)) && ids@ == spec_ids_where(
                    state.library@,
                    state.library@.len(),
                    |t: Track| file_in(t, spec_selected(self.tracks@, self.menu.selection)),
                )),
                ComponentEvent::LostMpdConnection => same_but_items(self.menu, new.menu) && new.tracks@.len() == 0
                    && out.len() == 1 && is_redraw(out[0], self.menu.name@),
                ComponentEvent::PlaylistMenuUpdated(n, ids) | ComponentEvent::TagMenuUpdated(n, ids) => if self.parent.spec_parent() == Some(n@) {
                    &&& same_but_items(self.menu, new.menu)
                    &&& new.tracks@.len() == spec_valid_ids(ids@, state.library@.len() as int).len()
                    &&& forall|i: int| 0 <= i < new.tracks@.len() ==> (#[trigger] new.tracks@[i]).spec_view()
                        == state.library@[spec_valid_ids(ids@, state.library@.len() as int)[i] as int].spec_view()
                    &&& out.len() == 1 && is_redraw(out[0], self.menu.name@)
                } else {
                    new == self && out.len() == 0
                },
                ComponentEvent::StyleMenuUpdated(n, styles) => if self.parent.spec_parent() == Some(n@)
                    && state.style_tree is Some {
                    &&& same_but_items(self.menu, new.menu)
                    &&& tracks_view(new.tracks@) == tracks_view(spec_style_tracks(state.style_tree->0, styles@))
                    &&& out.len() == 1 && is_redraw(out[0], self.menu.name@)
                } else {
                    new == self && out.len() == 0
                },
                _ => new == self && out.len() == 0,
            },
        }
    }

    /// Reacts to an event and returns the events to send. Genre ids from a
    /// parent genre menu must be in the genre tree.
    pub fn handle(&mut self, state: &GlobalState, e: &ComponentEvent) -> (out: Vec<Event>)
        requires
            old(self).can_handle(*state, *e),
        ensures
            old(self).handled(*final(self), *state, *e, out@),
    {
        let mut out: Vec<Event> = Vec::new();
        if menu_move(&mut self.menu, e) {
            out.push(redraw(self.menu.name.as_str()));
            return out;
        }
        match e {
            ComponentEvent::OpenTags => {
                let sel = self.selected_tracks();
                let ids = ids_with_files(&state.library, &sel);
                proof {
                    let a = |t: Track| file_in(t, sel@);
                    let b = |t: Track| file_in(t, spec_selected(old(self).tracks@, old(self).menu.selection));
                    assert forall|t: Track| #[trigger] a(t) == b(t) by {
                        lemma_file_in_view(t, sel@, spec_selected(old(self).tracks@, old(self).menu.selection));
                    }
                    assert(a =~= b);
                }
                out.push(Event::ToApp(AppEvent::TagUI(ids)));
            },
            ComponentEvent::Select => {
                out.push(Event::ToMpd(MpdEvent::AddToQueue(self.selected_tracks())));
            },
            ComponentEvent::Start => {
                if self.menu.selection < self.tracks.len() {
                    out.push(Event::ToMpd(MpdEvent::PlayAt(self.tracks[self.menu.selection].copy())));
                }
            },
            ComponentEvent::LostMpdConnection => {
                self.set_tracks(Vec::new());
                out.push(redraw(self.menu.name.as_str()));
            },
            ComponentEvent::PlaylistMenuUpdated(name, ids) | ComponentEvent::TagMenuUpdated(name, ids) => {
                if self.parent.is(name.as_str()) {
                    let (_kept, tracks) = library_tracks(&state.library, ids);
                    self.set_tracks(tracks);
                    out.push(redraw(self.menu.name.as_str()));
                }
            },
            ComponentEvent::StyleMenuUpdated(name, styles) => {
                if self.parent.is(name.as_str()) {
                    match &state.style_tree {
                        Some(tree) => {
                            let tracks = style_tracks(tree, styles);
                            self.set_tracks(tracks);
                            out.push(redraw(self.menu.name.as_str()));
                        },
                        None => {},
                    }
                }
            },
            _ => {},
        }
        out
    }
}

/// Playlists as plain values: name and songs.
pub open spec fn playlists_view(pls: Seq<Playlist>) -> Seq<(Seq<char>, Seq<(Seq<char>, Option<Seq<char>>, Seq<(Seq<char>, Seq<char>)>, Option<u32>)>)> {
    pls.map_values(|p: Playlist| (p.name@, tracks_view(p.tracks@)))
}

/// A copy of a list of playlists.
pub fn copy_playlists(pls: &Vec<Playlist>) -> (r: Vec<Playlist>)
    ensures
        playlists_view(r@) == playlists_view(pls@),
{
    let mut r: Vec<Playlist> = Vec::new();
    let mut i: usize = 0;
    while i < pls.len()
        invariant
            i <= pls@.len(),
            r@.len() == i,
            forall|j: int| 0 <= j < i ==> (#[trigger] r@[j]).name@ == pls@[j].name@ && tracks_view(r@[j].tracks@)
                == tracks_view(pls@[j].tracks@),
        decreases pls@.len() - i,
    {
        r.push(Playlist { name: pls[i].name.clone(), tracks: copy_tracks(&pls[i].tracks) });
        i = i + 1;
    }
    assert(playlists_view(r@) =~= playlists_view(pls@));
    r
}

/// The songs of the playlist under the selection; none past the end.
pub open spec fn spec_playlist_tracks(pls: Seq<Playlist>, sel: usize) -> Seq<Track> {
    if sel < pls.len() { pls[sel as int].tracks@ } else { Seq::empty() }
}

/// `e` tells every component that the playlist menu `name`, showing `pls`
/// with `sel` selected, now selects the library songs equal to a song of
/// the selected playlist.
pub open spec fn is_playlist_update(e: Event, name: Seq<char>, library: Seq<Track>, pls: Seq<Playlist>, sel: usize) -> bool {
    e matches Event::ToAllComponents(ComponentEvent::PlaylistMenuUpdated(n, ids)) && n@ == name && ids@
        == spec_ids_where(library, library.len(), |t: Track| track_in(t, spec_playlist_tracks(pls, sel)))
}

/// The menu of stored playlists.
#[derive(Debug, PartialEq)]
pub struct PlaylistMenu {
    pub menu: Menu,
    pub playlists: Vec<Playlist>,
}

impl PlaylistMenu {
    pub fn new(name: &str, color: Color, focus_color: Color, title: Option<String>, title_alignment: Align, menu_alignment: Align) -> (m: PlaylistMenu)
        ensures
            fresh_menu(m.menu, name@, color, focus_color, title, title_alignment, menu_alignment),
            m.menu.items@.len() == 0,
            m.playlists@.len() == 0,
    {
        PlaylistMenu {
            playlists: Vec::new(),
            menu: Menu {
                title,
                name: name.to_string(),
                color,
                focus_color,
                selection: 0,
                items: Vec::new(),
                title_alignment,
                menu_alignment,
            },
        }
    }

    /// The menu's lines are the playlists' names.
    pub open spec fn wf(&self) -> bool {
        &&& self.menu.items@.len() == self.playlists@.len()
        &&& forall|i: int| 0 <= i < self.playlists@.len() ==> (#[trigger] self.menu.items@[i])@ == self.playlists@[i].name@
    }

    fn set_playlists(&mut self, playlists: Vec<Playlist>)
        ensures
            final(self).wf(),
            final(self).playlists == playlists,
            same_but_items(old(self).menu, final(self).menu),
    {
        let mut items: Vec<String> = Vec::new();
        let mut i: usize = 0;
        while i < playlists.len()
            invariant
                i <= playlists@.len(),
                items@.len() == i,
                forall|j: int| 0 <= j < i ==> (#[trigger] items@[j])@ == playlists@[j].name@,
            decreases playlists@.len() - i,
        {
            items.push(playlists[i].name.clone());
            i = i + 1;
        }
        self.menu.items = items;
        self.playlists = playlists;
    }

    /// The event telling every component which library songs the selected
    /// playlist holds.
    fn update_event(&self, library: &Vec<Track>) -> (e: Event)
        ensures
            is_playlist_update(e, self.menu.name@, library@, self.playlists@, self.menu.selection),
    {
        let empty: Vec<Track> = Vec::new();
        let ids = if self.menu.selection < self.playlists.len() {
            ids_of_tracks(library, &self.playlists[self.menu.selection].tracks)
        } else {
            ids_of_tracks(library, &empty)
        };
        proof {
            let f = |t: Track| track_in(t, spec_playlist_tracks(self.playlists@, self.menu.selection));
            if self.menu.selection < self.playlists@.len() {
                let g = |t: Track| track_in(t, self.playlists@[self.menu.selection as int].tracks@);
                assert(f =~= g);
            } else {
                let g = |t: Track| track_in(t, empty@);
                assert(f =~= g);
            }
        }
        Event::ToAllComponents(ComponentEvent::PlaylistMenuUpdated(self.menu.name.clone(), ids))
    }

    /// Whether handling `e` can be computed.
    pub fn accepts(&self, state: &GlobalState, e: &ComponentEvent) -> (r: bool)
        requires
            self.wf(),
        ensures
            r == self.can_handle(*state, *e),
    {
        let sel_ok = match e {
            ComponentEvent::OpenTags | ComponentEvent::Select => self.menu.selection < self.playlists.len(),
            _ => true,
        };
        move_ok(&self.menu, e) && sel_ok
    }

    /// What handling `e` needs.
    pub open spec fn can_handle(self, state: GlobalState, e: ComponentEvent) -> bool {
        &&& self.wf()
        &&& spec_move_ok(self.menu, e)
        &&& (e is OpenTags || e is Select) ==> self.menu.selection < self.playlists@.len()
    }

    /// What handling `e` does: `new` is the component after it and `out`
    /// the events it sends.
    pub open spec fn handled(self, new: Self, state: GlobalState, e: ComponentEvent, out: Seq<Event>) -> bool {
        &&& new.wf()
        &&& new.menu.name == self.menu.name
        &&& match spec_move(items_view(self.menu.items@), self.menu.selection, e) {
            Some(s) => crate::menu::same_but_selection(self.menu, new.menu) && new.menu.selection == s
                && new.playlists == self.playlists
                && out.len() == 2 && is_playlist_update(out[0], self.menu.name@, state.library@,
                self.playlists@, new.menu.selection) && is_redraw(out[1], self.menu.name@),
            None => match e {
                ComponentEvent::OpenTags => new == self && out.len() == 1
                    && (out[0] matches Event::ToApp(AppEvent::TagUI(ids)) && ids@ == spec_ids_where(
                    state.library@,
                    state.library@.len(),
                    |t: Track| file_in(t, self.playlists@[self.menu.selection as int].tracks@),
                )),
                ComponentEvent::Select => new == self && out.len() == 1
                    && (out[0] matches Event::ToMpd(MpdEvent::AddToQueue(ts)) && tracks_view(ts@) == tracks_view(
                    self.playlists@[self.menu.selection as int].tracks@,
                )),
                ComponentEvent::Playlist(pls) => {
                    &&& playlists_view(new.playlists@) == playlists_view(pls@)
                    &&& same_but_items(self.menu, new.menu)
                    &&& out.len() == 2
                    &&& is_playlist_update(out[0], self.menu.name@, state.library@, new.playlists@,
                        new.menu.selection)
                    &&& is_redraw(out[1], self.menu.name@)
                },
                ComponentEvent::LostMpdConnection => {
                    &&& new.playlists@.len() == 0
                    &&& same_but_items(self.menu, new.menu)
                    &&& out.len() == 2
                    &&& is_playlist_update(out[0], self.menu.name@, state.library@, new.playlists@,
                        new.menu.selection)
                    &&& is_redraw(out[1], self.menu.name@)
                },
                _ => new == self && out.len() == 0,
            },
        }
    }

    /// Reacts to an event and returns the events to send. Opening the tags
    /// of, or queueing, the selected playlist needs one to be selected.
    pub fn handle(&mut self, state: &GlobalState, e: &ComponentEvent) -> (out: Vec<Event>)
        requires
            old(self).can_handle(*state, *e),
        ensures
            old(self).handled(*final(self), *state, *e, out@),
    {
        let mut out: Vec<Event> = Vec::new();
        if menu_move(&mut self.menu, e) {
            out.push(self.update_event(&state.library));
            out.push(redraw(self.menu.name.as_str()));
            return out;
        }
        match e {
            ComponentEvent::OpenTags => {
                let ids = ids_with_files(&state.library, &self.playlists[self.menu.selection].tracks);
                out.push(Event::ToApp(AppEvent::TagUI(ids)));
            },
            ComponentEvent::Select => {
                let ts = copy_tracks(&self.playlists[self.menu.selection].tracks);
                out.push(Event::ToMpd(MpdEvent::AddToQueue(ts)));
            },
            ComponentEvent::Playlist(pls) => {
                self.set_playlists(copy_playlists(pls));
                out.push(self.update_event(&state.library));
                out.push(redraw(self.menu.name.as_str()));
            },
            ComponentEvent::LostMpdConnection => {
                self.set_playlists(Vec::new());
                out.push(self.update_event(&state.library));
                out.push(redraw(self.menu.name.as_str()));
            },
            _ => {},
        }
        out
    }
}

/// Whether row `i` of the queue holds the song now playing.
pub open spec fn is_now_playing(q: Queue, i: int) -> bool {
    &&& q.now_playing matches Some(np)
    &&& 0 <= i < q.tracks@.len()
    &&& q.tracks@[i].spec_view() == np.spec_view()
}

/// The row `line` of the queue, showing song `i` (or blank, past the
/// end): the selection inverted, the song now playing in bold.
pub open spec fn queue_row(q: Queue, x: u16, line: int, i: int, w: u16, focus: bool) -> Seq<PaintView> {
    if 0 <= i < q.menu.items@.len() {
        (if q.menu.selection == i { seq![PaintView::Invert] } else { Seq::empty() })
            + (if is_now_playing(q, i) { seq![PaintView::Bold] } else { Seq::empty() })
            + seq![
                PaintView::Fg(menu_color(q.menu, focus)),
                PaintView::At(x, line as u16),
                PaintView::Text(spec_unicode_pad(q.menu.items@[i]@, w, q.menu.menu_alignment)),
                PaintView::Reset,
            ]
    } else {
        seq![PaintView::At(x, line as u16), PaintView::Text(repeated(' ', w as nat))]
    }
}

/// `n` rows of the queue from row `line` down, the first showing song `i`.
pub open spec fn queue_rows(q: Queue, x: u16, line: int, n: nat, i: int, w: u16, focus: bool) -> Seq<PaintView>
    decreases n,
{
    if n == 0 {
        Seq::empty()
    } else {
        queue_rows(q, x, line, (n - 1) as nat, i, w, focus) + queue_row(q, x, line + n - 1, i + n - 1, w, focus)
    }
}

/// The queue drawn `w` by `h` from (`x`, `y`).
pub open spec fn spec_queue_draw(q: Queue, x: u16, y: u16, w: u16, h: u16, focus: bool) -> Seq<PaintView> {
    let m = q.menu;
    let first = spec_first_visible(m.items@.len() as int, m.selection as int, spec_item_lines(m.title is Some, h as int));
    title_rows(m, x, y, w, focus) + queue_rows(q, x, body_top(m, y), (y + h - body_top(m, y)) as nat, first, w, focus)
        + seq![PaintView::Reset]
}

impl Queue {
    /// Appends the row `line`, showing song `i`.
    fn push_row(&self, out: &mut Vec<Paint>, x: u16, line: u16, i: usize, w: u16, focus: bool)
        ensures
            paints_view(final(out)@) == paints_view(old(out)@) + queue_row(*self, x, line as int, i as int, w, focus),
    {
        let ghost before = out@;
        if i < self.menu.items.len() {
            let s = pad_to_width(self.menu.items[i].as_str(), w, self.menu.menu_alignment);
            if self.menu.selection == i {
                out.push(Paint::Invert);
            }
            let ghost inverted = out@;
            let playing = match &self.now_playing {
                Some(np) => i < self.tracks.len() && track_eq(&self.tracks[i], np),
                None => false,
            };
            if playing {
                out.push(Paint::Bold);
            }
            let ghost bolded = out@;
            out.push(Paint::Fg(self.menu.color(focus)));
            out.push(Paint::At(x, line));
            out.push(Paint::Text(s));
            out.push(Paint::Reset);
            assert(paints_view(inverted) =~= paints_view(before) + (if self.menu.selection == i {
                seq![PaintView::Invert]
            } else {
                Seq::empty()
            }));
            assert(paints_view(bolded) =~= paints_view(inverted) + (if is_now_playing(*self, i as int) {
                seq![PaintView::Bold]
            } else {
                Seq::empty()
            }));
            assert(paints_view(out@) =~= paints_view(bolded) + seq![
                PaintView::Fg(menu_color(self.menu, focus)),
                PaintView::At(x, line),
                PaintView::Text(s@),
                PaintView::Reset,
            ]);
        } else {
            out.push(Paint::At(x, line));
            out.push(Paint::Text(repeat_char(' ', w as usize)));
        }
        assert(paints_view(out@) =~= paints_view(before) + queue_row(*self, x, line as int, i as int, w, focus));
    }

    /// Draws the queue `w` by `h` from (`x`, `y`). There must be at least
    /// one row for songs below the title.
    pub fn draw(&self, x: u16, y: u16, w: u16, h: u16, focus: bool) -> (r: Vec<Paint>)
        requires
            spec_item_lines(self.menu.title is Some, h as int) >= 1,
            self.menu.selection <= i32::MAX,
            self.menu.items@.len() <= i32::MAX,
            y + h <= u16::MAX,
        ensures
            paints_view(r@) == spec_queue_draw(*self, x, y, w, h, focus),
    {
        let mut out: Vec<Paint> = Vec::new();
        let first = self.menu.first_visible(h);
        push_title(&mut out, &self.menu, x, y, w, focus);
        let top: u16 = if self.menu.title.is_some() { y + 2 } else { y };
        let ghost head = paints_view(out@);
        assert(first <= i32::MAX);
        let n: u16 = y + h - top;
        let mut k: u16 = 0;
        while k < n
            invariant
                k <= n,
                top as int == body_top(self.menu, y),
                n == y + h - top,
                y + h <= u16::MAX,
                first <= i32::MAX,
                paints_view(out@) == head + queue_rows(*self, x, top as int, k as nat, first as int, w, focus),
            decreases n - k,
        {
            let ghost before = out@;
            let line = top + k;
            let i = first + k as usize;
            self.push_row(&mut out, x, line, i, w, focus);
            k = k + 1;
            assert(paints_view(out@) =~= paints_view(before) + queue_row(*self, x, top + k - 1, first + k - 1, w, focus));
        }
        let ghost body = out@;
        out.push(Paint::Reset);
        assert(paints_view(out@) =~= paints_view(body) + seq![PaintView::Reset]);
        assert(paints_view(out@) =~= spec_queue_draw(*self, x, y, w, h, focus));
        out
    }
}

impl TrackMenu {
    /// Draws the menu `w` by `h` from (`x`, `y`).
    pub fn draw(&self, x: u16, y: u16, w: u16, h: u16, focus: bool) -> (r: Vec<Paint>)
        requires
            spec_item_lines(self.menu.title is Some, h as int) >= 1,
            self.menu.selection <= i32::MAX,
            self.menu.items@.len() <= i32::MAX,
            y + h <= u16::MAX,
        ensures
            paints_view(r@) == spec_menu_draw(self.menu, x, y, w, h, focus),
    {
        self.menu.draw(x, y, w, h, focus)
    }
}

impl PlaylistMenu {
    /// Draws the menu `w` by `h` from (`x`, `y`).
    pub fn draw(&self, x: u16, y: u16, w: u16, h: u16, focus: bool) -> (r: Vec<Paint>)
        requires
            spec_item_lines(self.menu.title is Some, h as int) >= 1,
            self.menu.selection <= i32::MAX,
            self.menu.items@.len() <= i32::MAX,
            y + h <= u16::MAX,
        ensures
            paints_view(r@) == spec_menu_draw(self.menu, x, y, w, h, focus),
    {
        self.menu.draw(x, y, w, h, focus)
    }
}

} // verus!
