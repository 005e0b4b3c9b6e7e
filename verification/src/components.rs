//! The components a screen is built of, and the table that holds them
//! by name.
use vstd::prelude::*;

pub mod menus;
pub mod simple;
pub mod style_menu;
pub mod tag_editor;
pub mod tag_menu;

use crate::event::{ComponentEvent, Event};
use crate::menu::spec_menu_draw;
use crate::paint::{column, paints_view, repeated, spec_border, Paint, PaintView};
use crate::splitter::{spec_splitter_draw, HorizontalSplitter, Panel, VerticalSplitter};
use crate::align::Align;
use crate::color::Color;
use crate::menu::{fresh_menu, items_view};
use crate::track::{opt_view, Track};
use crate::text::byte_len;
use crate::splitter::{spec_moved, MoveFocusResult, Splitters};
use crate::GlobalState;
use menus::{PlaylistMenu, Queue, TrackMenu};
use simple::{EmptySpace, ErrorBox, PlaceHolder, TagDisplay, TitleDisplay};
use style_menu::StyleMenu;
use tag_editor::TagEditor;
use tag_menu::TagMenu;

verus! {

/// Any component.
#[derive(Debug, PartialEq)]
pub enum Components {
    PlaceHolder(PlaceHolder),
    TagEditor(TagEditor),
    EmptySpace(EmptySpace),
    ErrorBox(ErrorBox),
    TitleDisplay(TitleDisplay),
    TagDisplay(TagDisplay),
    Queue(Queue),
    PlaylistMenu(PlaylistMenu),
    TrackMenu(TrackMenu),
    TagMenu(TagMenu),
    StyleMenu(StyleMenu),
    Splitter(Splitters),
}

impl Components {
    /// The component's name.
    pub open spec fn spec_name(self) -> Seq<char> {
        match self {
            Components::PlaceHolder(c) => c.name@,
            Components::TagEditor(c) => c.spec_name(),
            Components::EmptySpace(c) => c.name@,
            Components::ErrorBox(_) => "Error"@,
            Components::TitleDisplay(c) => c.name@,
            Components::TagDisplay(c) => c.name@,
            Components::Queue(c) => c.menu.name@,
            Components::PlaylistMenu(c) => c.menu.name@,
            Components::TrackMenu(c) => c.menu.name@,
            Components::TagMenu(c) => c.menu.name@,
            Components::StyleMenu(c) => c.menu.name@,
            Components::Splitter(c) => c.spec_inner().spec_name(),
        }
    }

    pub fn name(&self) -> (r: &str)
        ensures
            r@ == self.spec_name(),
    {
        match self {
            Components::PlaceHolder(c) => c.name.as_str(),
            Components::TagEditor(c) => c.name(),
            Components::EmptySpace(c) => c.name.as_str(),
            Components::ErrorBox(c) => c.name(),
            Components::TitleDisplay(c) => c.name.as_str(),
            Components::TagDisplay(c) => c.name.as_str(),
            Components::Queue(c) => c.menu.name.as_str(),
            Components::PlaylistMenu(c) => c.menu.name.as_str(),
            Components::TrackMenu(c) => c.menu.name.as_str(),
            Components::TagMenu(c) => c.menu.name.as_str(),
            Components::StyleMenu(c) => c.menu.name.as_str(),
            Components::Splitter(c) => c.name(),
        }
    }

    /// The shape the component keeps between events.
    pub open spec fn wf(self) -> bool {
        match self {
            Components::TagEditor(c) => c.wf(),
            Components::Queue(c) => c.wf(),
            Components::PlaylistMenu(c) => c.wf(),
            Components::TrackMenu(c) => c.wf(),
            Components::StyleMenu(c) => c.wf(),
            _ => true,
        }
    }

    /// What handling `e` needs.
    pub open spec fn can_handle(self, state: GlobalState, e: ComponentEvent) -> bool {
        match self {
            Components::TagEditor(c) => c.can_handle(e),
            Components::TitleDisplay(c) => c.can_handle(state, e),
            Components::TagDisplay(c) => c.can_handle(state, e),
            Components::Queue(c) => c.can_handle(state, e),
            Components::PlaylistMenu(c) => c.can_handle(state, e),
            Components::TrackMenu(c) => c.can_handle(state, e),
            Components::TagMenu(c) => c.can_handle(state, e),
            Components::StyleMenu(c) => c.can_handle(state, e),
            Components::Splitter(c) => c.can_handle(e),
            _ => true,
        }
    }

    /// What handling `e` does: the component keeps its kind and changes as
    /// its own contract says (a splitter passes drawing on to its panels);
    /// the others are left as they are and send nothing (drawing is done by
    /// the caller, with `draw`).
    pub open spec fn handled(self, new: Self, state: GlobalState, e: ComponentEvent, out: Seq<Event>) -> bool {
        match self {
            Components::TagEditor(c) => new matches Components::TagEditor(d) && c.handled(d, e, out),
            Components::TitleDisplay(c) => new matches Components::TitleDisplay(d) && c.handled(d, state, e, out),
            Components::TagDisplay(c) => new matches Components::TagDisplay(d) && c.handled(d, state, e, out),
            Components::Queue(c) => new matches Components::Queue(d) && c.handled(d, state, e, out),
            Components::PlaylistMenu(c) => new matches Components::PlaylistMenu(d) && c.handled(d, state, e, out),
            Components::TrackMenu(c) => new matches Components::TrackMenu(d) && c.handled(d, state, e, out),
            Components::TagMenu(c) => new matches Components::TagMenu(d) && c.handled(d, state, e, out),
            Components::StyleMenu(c) => new matches Components::StyleMenu(d) && c.handled(d, state, e, out),
            Components::Splitter(c) => new matches Components::Splitter(d) && c.handled(d, e, out),
            _ => new == self && out.len() == 0,
        }
    }

    /// Whether handling `e` can be computed.
    pub fn accepts(&self, state: &GlobalState, e: &ComponentEvent) -> (r: bool)
        requires
            self.wf(),
        ensures
            r == self.can_handle(*state, *e),
    {
        match self {
            Components::TagEditor(c) => c.accepts(e),
            Components::TitleDisplay(c) => c.accepts(state, e),
            Components::TagDisplay(c) => c.accepts(state, e),
            Components::Queue(c) => c.accepts(state, e),
            Components::PlaylistMenu(c) => c.accepts(state, e),
            Components::TrackMenu(c) => c.accepts(state, e),
            Components::TagMenu(c) => c.accepts(state, e),
            Components::StyleMenu(c) => c.accepts(state, e),
            Components::Splitter(c) => c.accepts(e),
            _ => true,
        }
    }

    /// Reacts to an event and returns the events to send.
    pub fn handle(&mut self, state: &GlobalState, e: &ComponentEvent) -> (out: Vec<Event>)
        requires
            old(self).can_handle(*state, *e),
        ensures
            old(self).handled(*final(self), *state, *e, out@),
    {
        match self {
            Components::TagEditor(c) => c.handle(e),
            Components::TitleDisplay(c) => c.handle(state, e),
            Components::TagDisplay(c) => c.handle(state, e),
            Components::Queue(c) => c.handle(state, e),
            Components::PlaylistMenu(c) => c.handle(state, e),
            Components::TrackMenu(c) => c.handle(state, e),
            Components::TagMenu(c) => c.handle(state, e),
            Components::StyleMenu(c) => c.handle(state, e),
            Components::Splitter(c) => c.handle(e),
            _ => Vec::new(),
        }
    }
}

/// The names of the components of a table, in the order they were added.
pub open spec fn keys_of(entries: Seq<(String, Components)>) -> Seq<Seq<char>> {
    entries.map_values(|e: (String, Components)| e.0@)
}

/// The table as a map from name to component.
pub open spec fn map_of(entries: Seq<(String, Components)>) -> Map<Seq<char>, Components>
    decreases entries.len(),
{
    if entries.len() == 0 {
        Map::empty()
    } else {
        map_of(entries.drop_last()).insert(entries.last().0@, entries.last().1)
    }
}

proof fn lemma_map_of(entries: Seq<(String, Components)>)
    requires
        keys_of(entries).no_duplicates(),
    ensures
        forall|k: Seq<char>| #[trigger] map_of(entries).contains_key(k) <==> keys_of(entries).contains(k),
        forall|i: int| 0 <= i < entries.len() ==> map_of(entries)[#[trigger] entries[i].0@] == entries[i].1,
    decreases entries.len(),
{
    if entries.len() > 0 {
        let rest = entries.drop_last();
        assert(keys_of(rest) =~= keys_of(entries).drop_last());
        lemma_map_of(rest);
        let n = entries.len() - 1;
        assert forall|k: Seq<char>| #[trigger] map_of(entries).contains_key(k) <==> keys_of(entries).contains(k) by {
            assert(map_of(rest).contains_key(k) <==> keys_of(rest).contains(k));
            assert(map_of(entries).contains_key(k) <==> (map_of(rest).contains_key(k) || k == entries[n].0@));
            if keys_of(entries).contains(k) {
                let j = choose|j: int| 0 <= j < keys_of(entries).len() && keys_of(entries)[j] == k;
                if j < n {
                    assert(keys_of(rest)[j] == k);
                }
            }
            if keys_of(rest).contains(k) {
                let j = choose|j: int| 0 <= j < keys_of(rest).len() && keys_of(rest)[j] == k;
                assert(keys_of(entries)[j] == k);
            }
            assert(keys_of(entries)[n] == entries[n].0@);
        }
        assert forall|i: int| 0 <= i < entries.len() implies map_of(entries)[#[trigger] entries[i].0@] == entries[i].1 by {
            if i < n {
                assert(rest[i] == entries[i]);
                assert(keys_of(entries)[i] != keys_of(entries)[n]);
            }
        }
    }
}

/// The components of a screen, by name; no name occurs twice.
pub struct ComponentMap {
    entries: Vec<(String, Components)>,
}

impl ComponentMap {
    #[verifier::type_invariant]
    closed spec fn unique_names(&self) -> bool {
        keys_of(self.entries@).no_duplicates()
    }

    /// The names, in the order the components were added.
    pub closed spec fn spec_keys(&self) -> Seq<Seq<char>> {
        keys_of(self.entries@)
    }

    /// The components by name.
    pub closed spec fn spec_map(&self) -> Map<Seq<char>, Components> {
        map_of(self.entries@)
    }

    /// An empty table.
    pub fn new() -> (m: ComponentMap)
        ensures
            m.spec_map() == Map::<Seq<char>, Components>::empty(),
            m.spec_keys().len() == 0,
    {
        let m = ComponentMap { entries: Vec::new() };
        assert(m.spec_keys() =~= Seq::<Seq<char>>::empty());
        m
    }

    /// The number of components.
    pub fn len(&self) -> (n: usize)
        ensures
            n == self.spec_keys().len(),
    {
        self.entries.len()
    }

    /// The name of the `i`-th component added.
    pub fn key_at(&self, i: usize) -> (r: &str)
        requires
            i < self.spec_keys().len(),
        ensures
            r@ == self.spec_keys()[i as int],
    {
        self.entries[i].0.as_str()
    }

    fn index_of(&self, key: &str) -> (r: Option<usize>)
        ensures
            match r {
                Some(i) => i < self.spec_keys().len() && self.spec_keys()[i as int] == key@,
                None => !self.spec_keys().contains(key@),
            },
    {
        let mut i: usize = 0;
        while i < self.entries.len()
            invariant
                i <= self.entries@.len(),
                forall|j: int| 0 <= j < i ==> self.entries@[j].0@ != key@,
            decreases self.entries@.len() - i,
        {
            if crate::text::str_eq(self.entries[i].0.as_str(), key) {
                assert(self.spec_keys()[i as int] == key@);
                return Some(i);
            }
            i = i + 1;
        }
        assert(!self.spec_keys().contains(key@)) by {
            if self.spec_keys().contains(key@) {
                let j = choose|j: int| 0 <= j < self.spec_keys().len() && self.spec_keys()[j] == key@;
                assert(self.entries@[j].0@ == key@);
            }
        }
        None
    }

    /// The component named `key`, if any.
    pub fn get(&self, key: &str) -> (r: Option<&Components>)
        ensures
            match r {
                Some(c) => self.spec_map().contains_key(key@) && self.spec_map()[key@] == *c,
                None => !self.spec_map().contains_key(key@),
            },
    {
        proof {
            use_type_invariant(self);
            lemma_map_of(self.entries@);
        }
        match self.index_of(key) {
            Some(i) => {
                assert(self.entries@[i as int].0@ == key@);
                Some(&self.entries[i].1)
            },
            None => None,
        }
    }

    /// Adds `c` under `key`, replacing any component of that name; a new
    /// name goes last.
    pub fn insert(&mut self, key: String, c: Components)
        ensures
            final(self).spec_map() == old(self).spec_map().insert(key@, c),
            old(self).spec_keys().contains(key@) ==> final(self).spec_keys() == old(self).spec_keys(),
            !old(self).spec_keys().contains(key@) ==> final(self).spec_keys() == old(self).spec_keys().push(key@),
            final(self).spec_keys().no_duplicates(),
            forall|k: Seq<char>| #[trigger] final(self).spec_map().contains_key(k) <==> final(self).spec_keys().contains(k),
    {
        proof {
            use_type_invariant(&*self);
            lemma_map_of(self.entries@);
        }
        let ghost old_entries = self.entries@;
        match self.index_of(key.as_str()) {
            Some(i) => {
                let ghost k = key@;
                let mut entries = Vec::new();
                std::mem::swap(&mut entries, &mut self.entries);
                entries.set(i, (key, c));
                proof {
                    assert(keys_of(entries@) =~= keys_of(old_entries));
                    lemma_map_of(entries@);
                    assert forall|x: Seq<char>| #[trigger] map_of(entries@).contains_key(x) <==> map_of(old_entries).insert(k, c).contains_key(x) by {}
                    assert forall|x: Seq<char>| map_of(entries@).contains_key(x) implies map_of(entries@)[x] == map_of(old_entries).insert(k, c)[x] by {
                        let j = choose|j: int| 0 <= j < keys_of(entries@).len() && keys_of(entries@)[j] == x;
                        assert(entries@[j].0@ == x);
                        if j != i {
                            assert(entries@[j] == old_entries[j]);
                        }
                    }
                    assert(map_of(entries@) =~= map_of(old_entries).insert(k, c));
                }
                self.entries = entries;
                proof {
                    use_type_invariant(&*self);
                    lemma_map_of(self.entries@);
                }
            },
            None => {
                let ghost k = key@;
                let mut entries = Vec::new();
                std::mem::swap(&mut entries, &mut self.entries);
                entries.push((key, c));
                proof {
                    assert(keys_of(entries@) =~= keys_of(old_entries).push(k));
                    assert(entries@.drop_last() =~= old_entries);
                }
                self.entries = entries;
                proof {
                    use_type_invariant(&*self);
                    lemma_map_of(self.entries@);
                }
            },
        }
    }

    /// Lets the component named `key` handle `e`; nothing happens when
    /// there is none.
    pub fn handle(&mut self, key: &str, state: &GlobalState, e: &ComponentEvent) -> (out: Vec<Event>)
        requires
            old(self).spec_map().contains_key(key@) ==> old(self).spec_map()[key@].can_handle(*state, *e),
        ensures
            handled_at(*old(self), *final(self), key@, *state, *e, out@),
    {
        proof {
            use_type_invariant(&*self);
            lemma_map_of(self.entries@);
        }
        let ghost old_entries = self.entries@;
        match self.index_of(key) {
            Some(i) => {
                let mut entries = Vec::new();
                std::mem::swap(&mut entries, &mut self.entries);
                assert(entries@[i as int].0@ == key@);
                let out = entries[i].1.handle(state, e);
                proof {
                    assert(keys_of(entries@) =~= keys_of(old_entries));
                    lemma_map_of(entries@);
                    let k = key@;
                    let c = entries@[i as int].1;
                    assert forall|x: Seq<char>| #[trigger] map_of(entries@).contains_key(x) <==> map_of(old_entries).insert(k, c).contains_key(x) by {}
                    assert forall|x: Seq<char>| map_of(entries@).contains_key(x) implies map_of(entries@)[x] == map_of(old_entries).insert(k, c)[x] by {
                        let j = choose|j: int| 0 <= j < keys_of(entries@).len() && keys_of(entries@)[j] == x;
                        assert(entries@[j].0@ == x);
                        if j != i {
                            assert(entries@[j] == old_entries[j]);
                        }
                    }
                    assert(map_of(entries@) =~= map_of(old_entries).insert(k, c));
                }
                self.entries = entries;
                out
            },
            None => Vec::new(),
        }
    }
}

/// `new` is `old` after the component named `key`, if there is one, has
/// handled `e` and sent `out`; nothing changes when there is none.
pub open spec fn handled_at(
    old: ComponentMap,
    new: ComponentMap,
    key: Seq<char>,
    state: GlobalState,
    e: ComponentEvent,
    out: Seq<Event>,
) -> bool {
    &&& new.spec_keys() == old.spec_keys()
    &&& if old.spec_map().contains_key(key) {
        &&& new.spec_map() == old.spec_map().insert(key, new.spec_map()[key])
        &&& old.spec_map()[key].handled(new.spec_map()[key], state, e, out)
    } else {
        new.spec_map() == old.spec_map() && out.len() == 0
    }
}

/// `new` is `old` after every component has handled `e`, in the order
/// they were added, and `out` what they sent, in that order.
pub open spec fn handled_all(old: ComponentMap, new: ComponentMap, state: GlobalState, e: ComponentEvent, out: Seq<Event>) -> bool {
    &&& new.spec_keys() == old.spec_keys()
    &&& forall|k: Seq<char>| #[trigger] new.spec_map().contains_key(k) <==> new.spec_keys().contains(k)
    &&& forall|k: Seq<char>| #[trigger] new.spec_map().contains_key(k) <==> old.spec_map().contains_key(k)
    &&& exists|outs: Seq<Seq<Event>>| {
        &&& outs.len() == old.spec_keys().len()
        &&& out == concat_events(outs)
        &&& forall|i: int| 0 <= i < outs.len() ==> old.spec_map()[#[trigger] old.spec_keys()[i]].handled(
            new.spec_map()[old.spec_keys()[i]], state, e, outs[i])
    }
}

/// The events of each list in turn.
pub open spec fn concat_events(outs: Seq<Seq<Event>>) -> Seq<Event>
    decreases outs.len(),
{
    if outs.len() == 0 {
        Seq::empty()
    } else {
        concat_events(outs.drop_last()) + outs.last()
    }
}

impl ComponentMap {
    /// Lets every component handle `e`, in the order they were added, and
    /// returns what they send, in that order.
    pub fn handle_all(&mut self, state: &GlobalState, e: &ComponentEvent) -> (out: Vec<Event>)
        requires
            forall|k: Seq<char>| #[trigger] old(self).spec_map().contains_key(k) ==> old(self).spec_map()[k].can_handle(*state, *e),
        ensures
            handled_all(*old(self), *final(self), *state, *e, out@),
    {
        proof {
            use_type_invariant(&*self);
            lemma_map_of(self.entries@);
        }
        let ghost old_entries = self.entries@;
        assert forall|j: int| 0 <= j < old_entries.len() implies (#[trigger] old_entries[j]).1.can_handle(*state, *e) by {
            assert(keys_of(old_entries)[j] == old_entries[j].0@);
            assert(old(self).spec_map().contains_key(old_entries[j].0@));
            assert(old(self).spec_map()[old_entries[j].0@] == old_entries[j].1);
        }
        let mut entries = Vec::new();
        std::mem::swap(&mut entries, &mut self.entries);
        let mut out: Vec<Event> = Vec::new();
        let ghost mut outs: Seq<Seq<Event>> = Seq::empty();
        let mut i: usize = 0;
        while i < entries.len()
            invariant
                keys_of(old_entries).no_duplicates(),
                entries@.len() == old_entries.len(),
                keys_of(entries@) == keys_of(old_entries),
                i <= entries@.len(),
                outs.len() == i,
                out@ == concat_events(outs),
                forall|j: int| 0 <= j < old_entries.len() ==> (#[trigger] old_entries[j]).1.can_handle(*state, *e),
                forall|j: int| i <= j < entries@.len() ==> #[trigger] entries@[j] == old_entries[j],
                forall|j: int| 0 <= j < i ==> old_entries[j].1.handled((#[trigger] entries@[j]).1, *state, *e, outs[j]),
            decreases entries@.len() - i,
        {
            let ghost before = entries@;
            let mut piece = entries[i].1.handle(state, e);
            proof {
                assert forall|j: int| 0 <= j < entries@.len() implies #[trigger] entries@[j] == (if j == i { entries@[j] } else { before[j] }) by {}
                assert(keys_of(entries@) =~= keys_of(before));
                assert(outs.push(piece@).drop_last() =~= outs);
                outs = outs.push(piece@);
            }
            out.append(&mut piece);
            i = i + 1;
        }
        proof {
            lemma_map_of(entries@);
            assert forall|k: Seq<char>| #[trigger] map_of(entries@).contains_key(k) <==> map_of(old_entries).contains_key(k) by {}
            assert forall|j: int| 0 <= j < outs.len() implies map_of(old_entries)[#[trigger] keys_of(old_entries)[j]].handled(
                map_of(entries@)[keys_of(old_entries)[j]], *state, *e, outs[j]) by {
                assert(keys_of(old_entries)[j] == old_entries[j].0@);
                assert(keys_of(entries@)[j] == entries@[j].0@);
            }
        }
        self.entries = entries;
        out
    }
}

/// Whether the splitter `s` can move its focus forward (or back).
pub open spec fn can_move(s: Splitters, forward: bool) -> bool {
    if forward {
        s.spec_inner().spec_sel() + 1 < s.spec_inner().spec_panels().len()
    } else {
        (s.spec_inner().spec_sel() as i32) >= 1
    }
}

/// Moving back can be computed: the focus index, taken as an `i32`, is not
/// the smallest `i32`.
pub open spec fn prev_ok(s: Splitters) -> bool {
    (s.spec_inner().spec_sel() as i32) != i32::MIN
}

impl ComponentMap {
    /// Moves the focus of the splitter named `key` forward (or back).
    /// `None` when there is no splitter of that name.
    pub fn move_focus(&mut self, key: &str, forward: bool) -> (r: Option<MoveFocusResult>)
        requires
            !forward ==> (old(self).spec_map().contains_key(key@) && old(self).spec_map()[key@] is Splitter ==> prev_ok(
                old(self).spec_map()[key@]->Splitter_0,
            )),
        ensures
            final(self).spec_keys() == old(self).spec_keys(),
            if old(self).spec_map().contains_key(key@) && old(self).spec_map()[key@] is Splitter {
                let s = old(self).spec_map()[key@]->Splitter_0;
                &&& r is Some
                &&& r == Some(MoveFocusResult::Fail) ==> final(self).spec_map() == old(self).spec_map()
                &&& final(self).spec_map().contains_key(key@)
                &&& final(self).spec_map()[key@] is Splitter
                &&& final(self).spec_map() == old(self).spec_map().insert(key@, final(self).spec_map()[key@])
                &&& spec_moved(s, final(self).spec_map()[key@]->Splitter_0, can_move(s, forward), if forward {
                    1int
                } else {
                    -1int
                }, r->0)
            } else {
                r is None && final(self).spec_map() == old(self).spec_map()
            },
    {
        proof {
            use_type_invariant(&*self);
            lemma_map_of(self.entries@);
        }
        let ghost old_entries = self.entries@;
        match self.index_of(key) {
            Some(i) => {
                let mut entries = Vec::new();
                std::mem::swap(&mut entries, &mut self.entries);
                assert(entries@[i as int].0@ == key@);
                let r = match &mut entries[i].1 {
                    Components::Splitter(s) => {
                        if forward {
                            Some(s.next())
                        } else {
                            Some(s.prev())
                        }
                    },
                    _ => None,
                };
                proof {
                    assert(keys_of(entries@) =~= keys_of(old_entries));
                    lemma_map_of(entries@);
                    let k = key@;
                    let c = entries@[i as int].1;
                    assert forall|x: Seq<char>| #[trigger] map_of(entries@).contains_key(x) <==> map_of(old_entries).insert(k, c).contains_key(x) by {}
                    assert forall|x: Seq<char>| map_of(entries@).contains_key(x) implies map_of(entries@)[x] == map_of(old_entries).insert(k, c)[x] by {
                        let j = choose|j: int| 0 <= j < keys_of(entries@).len() && keys_of(entries@)[j] == x;
                        assert(entries@[j].0@ == x);
                        if j != i {
                            assert(entries@[j] == old_entries[j]);
                        }
                    }
                    assert(map_of(entries@) =~= map_of(old_entries).insert(k, c));
                    if !(old_entries[i as int].1 is Splitter) {
                        assert(map_of(old_entries).insert(k, c) =~= map_of(old_entries));
                    }
                }
                self.entries = entries;
                r
            },
            None => None,
        }
    }
}

impl ComponentMap {
    /// Every component keeps its shape.
    pub open spec fn all_wf(&self) -> bool {
        forall|k: Seq<char>| #[trigger] self.spec_map().contains_key(k) ==> self.spec_map()[k].wf()
    }

    /// Whether the component named `key`, if any, can handle `e`.
    pub fn accepts_at(&self, key: &str, state: &GlobalState, e: &ComponentEvent) -> (r: bool)
        requires
            self.all_wf(),
        ensures
            r == (self.spec_map().contains_key(key@) ==> self.spec_map()[key@].can_handle(*state, *e)),
    {
        match self.get(key) {
            Some(c) => c.accepts(state, e),
            None => true,
        }
    }

    /// Whether every component can handle `e`.
    pub fn accepts_all(&self, state: &GlobalState, e: &ComponentEvent) -> (r: bool)
        requires
            self.all_wf(),
        ensures
            r == forall|k: Seq<char>| #[trigger] self.spec_map().contains_key(k) ==> self.spec_map()[k].can_handle(*state, *e),
    {
        proof {
            use_type_invariant(self);
            lemma_map_of(self.entries@);
        }
        let mut i: usize = 0;
        while i < self.entries.len()
            invariant
                self.all_wf(),
                keys_of(self.entries@).no_duplicates(),
                i <= self.entries@.len(),
                forall|j: int| 0 <= j < i ==> (#[trigger] self.entries@[j]).1.can_handle(*state, *e),
            decreases self.entries@.len() - i,
        {
            proof {
                lemma_map_of(self.entries@);
                assert(keys_of(self.entries@)[i as int] == self.entries@[i as int].0@);
                assert(self.spec_map().contains_key(self.entries@[i as int].0@));
                assert(self.spec_map()[self.entries@[i as int].0@] == self.entries@[i as int].1);
            }
            if !self.entries[i].1.accepts(state, e) {
                return false;
            }
            i = i + 1;
        }
        proof {
            lemma_map_of(self.entries@);
        }
        assert forall|k: Seq<char>| #[trigger] self.spec_map().contains_key(k) implies self.spec_map()[k].can_handle(*state, *e) by {
            let j = choose|j: int| 0 <= j < keys_of(self.entries@).len() && keys_of(self.entries@)[j] == k;
            assert(self.entries@[j].0@ == k);
        }
        true
    }
}

/// A component that has handled an event keeps its shape.
pub proof fn lemma_handled_wf(c: Components, new: Components, state: GlobalState, e: ComponentEvent, out: Seq<Event>)
    requires
        c.wf(),
        c.handled(new, state, e, out),
    ensures
        new.wf(),
{
}

impl Components {
    /// The byte lengths of the texts a component cuts fit in a `usize`, as
    /// those of strings in memory do.
    pub open spec fn sizes_fit(self) -> bool {
        match self {
            Components::TagEditor(c) => c.sizes_fit(),
            Components::TagDisplay(c) => byte_len(c.contents@) <= usize::MAX,
            _ => true,
        }
    }

    /// Whether the component can be drawn `w` by `h` from (`x`, `y`)
    /// without a computation leaving its range or a cut splitting a
    /// character.
    pub open spec fn can_draw(self, x: u16, y: u16, w: u16, h: u16) -> bool {
        match self {
            Components::PlaceHolder(_) => w >= 2 && 1 <= x + w <= u16::MAX && 1 <= y + h <= u16::MAX,
            Components::TagEditor(c) => c.can_draw(x, y, w, h),
            Components::EmptySpace(_) => y + h <= u16::MAX,
            Components::ErrorBox(_) => w >= 2 && 1 <= x + w <= u16::MAX && 1 <= y + h <= u16::MAX && x + 1 <= u16::MAX
                && y + 1 <= u16::MAX,
            Components::TitleDisplay(_) => true,
            Components::TagDisplay(c) => simple::fits(c.align, c.contents@, w),
            Components::Queue(c) => c.menu.can_draw(y, h),
            Components::PlaylistMenu(c) => c.menu.can_draw(y, h),
            Components::TrackMenu(c) => c.menu.can_draw(y, h),
            Components::TagMenu(c) => c.menu.can_draw(y, h),
            Components::StyleMenu(c) => c.menu.can_draw(y, h),
            Components::Splitter(c) => spec_splitter_draw(c, x, y, w, h) is Some,
        }
    }

    /// What the component draws `w` by `h` from (`x`, `y`), focused or not.
    pub open spec fn spec_draw(self, x: u16, y: u16, w: u16, h: u16, focus: bool) -> Seq<PaintView> {
        match self {
            Components::PlaceHolder(c) => seq![PaintView::Fg(c.color), PaintView::Text(seq!['\n'])] + spec_border(x, y, w, h),
            Components::TagEditor(c) => c.spec_draw(x, y, w, h),
            Components::EmptySpace(_) => column(x, y as int, h as nat, repeated(' ', w as nat)),
            Components::ErrorBox(_) => seq![PaintView::Fg(crate::color::Color::Red)] + spec_border(x, y, w, h) + seq![
                PaintView::At((x + 1) as u16, (y + 1) as u16),
                PaintView::Text(simple::error_label(w)),
                PaintView::Fg(crate::color::Color::Reset),
            ],
            Components::TitleDisplay(c) => seq![
                PaintView::Fg(c.color),
                PaintView::At(x, y),
                PaintView::Text(crate::paint::spec_unicode_pad(c.contents@, w, c.alignment)),
                PaintView::Fg(crate::color::Color::Reset),
            ],
            Components::TagDisplay(c) => seq![
                PaintView::Fg(c.color),
                PaintView::At(x, y),
                PaintView::Text(crate::align::spaces(c.align.spec_offset(byte_len(c.contents@) as usize, w) as nat)),
                PaintView::Text(simple::cropped(c.align, c.contents@, w)),
                PaintView::Text(crate::align::spaces(c.align.spec_pad_right(byte_len(c.contents@) as usize, w) as nat)),
                PaintView::Fg(crate::color::Color::Reset),
            ],
            Components::Queue(c) => menus::spec_queue_draw(c, x, y, w, h, focus),
            Components::PlaylistMenu(c) => spec_menu_draw(c.menu, x, y, w, h, focus),
            Components::TrackMenu(c) => spec_menu_draw(c.menu, x, y, w, h, focus),
            Components::TagMenu(c) => spec_menu_draw(c.menu, x, y, w, h, focus),
            Components::StyleMenu(c) => spec_menu_draw(c.menu, x, y, w, h, focus),
            Components::Splitter(c) => spec_splitter_draw(c, x, y, w, h)->0,
        }
    }

    /// Draws the component `w` by `h` from (`x`, `y`); `focus` says whether
    /// it has the focus. `None` where it cannot be drawn there.
    pub fn draw(&self, x: u16, y: u16, w: u16, h: u16, focus: bool) -> (r: Option<Vec<Paint>>)
        requires
            self.wf(),
            self.sizes_fit(),
        ensures
            r is Some <==> self.can_draw(x, y, w, h),
            r matches Some(v) ==> paints_view(v@) == self.spec_draw(x, y, w, h, focus),
    {
        match self {
            Components::PlaceHolder(c) => {
                if w >= 2 && x as u32 + w as u32 >= 1 && x as u32 + w as u32 <= u16::MAX as u32 && y as u32 + h as u32 >= 1
                    && y as u32 + h as u32 <= u16::MAX as u32 {
                    Some(c.draw(x, y, w, h))
                } else {
                    None
                }
            },
            Components::TagEditor(c) => if c.drawable(x, y, w, h) {
                Some(c.draw(x, y, w, h))
            } else {
                None
            },
            Components::EmptySpace(c) => if y as u32 + h as u32 <= u16::MAX as u32 {
                Some(c.draw(x, y, w, h))
            } else {
                None
            },
            Components::ErrorBox(c) => {
                if w >= 2 && x as u32 + w as u32 >= 1 && x as u32 + w as u32 <= u16::MAX as u32 && y as u32 + h as u32 >= 1
                    && y as u32 + h as u32 <= u16::MAX as u32 && x < u16::MAX && y < u16::MAX {
                    Some(c.draw(x, y, w, h))
                } else {
                    None
                }
            },
            Components::TitleDisplay(c) => Some(c.draw(x, y, w)),
            Components::TagDisplay(c) => if c.drawable(w) {
                Some(c.draw(x, y, w))
            } else {
                None
            },
            Components::Queue(c) => if c.menu.drawable(y, h) {
                Some(c.draw(x, y, w, h, focus))
            } else {
                None
            },
            Components::PlaylistMenu(c) => if c.menu.drawable(y, h) {
                Some(c.draw(x, y, w, h, focus))
            } else {
                None
            },
            Components::TrackMenu(c) => if c.menu.drawable(y, h) {
                Some(c.draw(x, y, w, h, focus))
            } else {
                None
            },
            Components::TagMenu(c) => if c.menu.drawable(y, h) {
                Some(c.draw(x, y, w, h, focus))
            } else {
                None
            },
            Components::StyleMenu(c) => if c.menu.drawable(y, h) {
                Some(c.draw(x, y, w, h, focus))
            } else {
                None
            },
            Components::Splitter(c) => c.draw(x, y, w, h),
        }
    }
}

impl ComponentMap {
    /// The byte lengths of every component's texts fit in a `usize`.
    pub open spec fn sizes_fit(&self) -> bool {
        forall|k: Seq<char>| #[trigger] self.spec_map().contains_key(k) ==> self.spec_map()[k].sizes_fit()
    }

    /// Draws the component named `key` `w` by `h` from (`x`, `y`), with the
    /// focus colors when `focus` is its name. Nothing is drawn when there
    /// is no such component; `None` when it cannot be drawn there.
    pub fn draw(&self, key: &str, x: u16, y: u16, w: u16, h: u16, focus: &str) -> (r: Option<Vec<Paint>>)
        requires
            self.all_wf(),
            self.sizes_fit(),
        ensures
            match self.spec_map().get(key@) {
                None => r matches Some(v) && v@.len() == 0,
                Some(c) => (r is Some <==> c.can_draw(x, y, w, h)) && (r matches Some(v) ==> paints_view(v@)
                    == c.spec_draw(x, y, w, h, focus@ == c.spec_name())),
            },
    {
        match self.get(key) {
            Some(c) => {
                let f = crate::text::str_eq(focus, c.name());
                c.draw(x, y, w, h, f)
            },
            None => Some(Vec::new()),
        }
    }
}

impl EmptySpace {
    /// A new blank space, as a component.
    pub fn enumed(name: &str) -> (c: Components)
        ensures
            c matches Components::EmptySpace(e) && e.name@ == name@,
    {
        Components::EmptySpace(EmptySpace::new(name))
    }
}

impl ErrorBox {
    /// A new error box, as a component.
    pub fn enumed() -> (c: Components)
        ensures
            c is ErrorBox,
    {
        Components::ErrorBox(ErrorBox::new())
    }
}

impl PlaceHolder {
    /// A new placeholder, as a component.
    pub fn enumed(name: &str, color: Color) -> (c: Components)
        ensures
            c matches Components::PlaceHolder(p) && p.name@ == name@ && p.color == color,
    {
        Components::PlaceHolder(PlaceHolder::new(name, color))
    }
}

impl TitleDisplay {
    /// A new display of the title now playing, as a component.
    pub fn enumed(name: &str, color: Color, alignment: Align) -> (c: Components)
        ensures
            c matches Components::TitleDisplay(t) && t.name@ == name@ && t.contents@.len() == 0 && t.color == color
                && t.alignment == alignment,
    {
        Components::TitleDisplay(TitleDisplay::new(name, color, alignment))
    }
}

impl TagDisplay {
    /// A new display of a tag of the song now playing, as a component.
    pub fn enumed(name: &str, color: Color, align: Align, tag: &str) -> (c: Components)
        ensures
            c matches Components::TagDisplay(t) && t.name@ == name@ && t.tag@ == tag@ && t.contents@.len() == 0
                && t.color == color && t.align == align,
    {
        Components::TagDisplay(TagDisplay::new(name, color, align, tag))
    }
}

impl TagEditor {
    /// A new tag editor for `songs`, as a component.
    pub fn enumed(name: &str, color: Color, songs: Vec<Track>) -> (c: Components)
        ensures
            c matches Components::TagEditor(e) && e.wf() && e.spec_name() == name@ && e.spec_songs() == songs@
                && e.spec_sel() == Some(0usize),
    {
        Components::TagEditor(TagEditor::new(name, color, songs))
    }
}

impl Queue {
    /// A new, empty queue, as a component.
    pub fn enumed(
        name: &str,
        color: Color,
        focus_color: Color,
        title: Option<String>,
        title_alignment: Align,
        menu_alignment: Align,
    ) -> (c: Components)
        ensures
            c matches Components::Queue(q) && fresh_menu(q.menu, name@, color, focus_color, title, title_alignment, menu_alignment)
                && q.menu.items@.len() == 0 && q.tracks@.len() == 0 && q.ids@.len() == 0 && q.now_playing is None,
    {
        Components::Queue(Queue::new(name, color, focus_color, title, title_alignment, menu_alignment))
    }
}

impl PlaylistMenu {
    /// A new, empty menu of playlists, as a component.
    pub fn enumed(
        name: &str,
        color: Color,
        focus_color: Color,
        title: Option<String>,
        title_alignment: Align,
        menu_alignment: Align,
    ) -> (c: Components)
        ensures
            c matches Components::PlaylistMenu(m) && fresh_menu(m.menu, name@, color, focus_color, title, title_alignment, menu_alignment)
                && m.menu.items@.len() == 0 && m.playlists@.len() == 0,
    {
        Components::PlaylistMenu(PlaylistMenu::new(name, color, focus_color, title, title_alignment, menu_alignment))
    }
}

impl TrackMenu {
    /// A new, empty menu of songs following `parent`, as a component.
    pub fn enumed(
        name: &str,
        color: Color,
        focus_color: Color,
        title: Option<String>,
        title_alignment: Align,
        menu_alignment: Align,
        parent: Option<String>,
    ) -> (c: Components)
        ensures
            c matches Components::TrackMenu(m) && fresh_menu(m.menu, name@, color, focus_color, title, title_alignment, menu_alignment)
                && m.menu.items@.len() == 0 && m.tracks@.len() == 0 && m.parent.spec_parent() == opt_view(parent),
    {
        Components::TrackMenu(TrackMenu::new(name, color, focus_color, title, title_alignment, menu_alignment, parent))
    }
}

impl StyleMenu {
    /// A new menu of genres following `parent`, as a component.
    pub fn enumed(
        name: &str,
        color: Color,
        focus_color: Color,
        title: Option<String>,
        title_alignment: Align,
        menu_alignment: Align,
        parent: Option<String>,
    ) -> (c: Components)
        ensures
            c matches Components::StyleMenu(m) && m.wf() && fresh_menu(m.menu, name@, color, focus_color, title, title_alignment, menu_alignment)
                && m.color == color && items_view(m.menu.items@) == seq!["<All>"@] && m.styles@.len() == 0
                && m.parent.spec_parent() == opt_view(parent),
    {
        Components::StyleMenu(StyleMenu::new(name, color, focus_color, title, title_alignment, menu_alignment, parent))
    }
}

impl TagMenu {
    /// A new, empty menu of the values of tag `tag`, as a component.
    pub fn enumed(
        name: &str,
        color: Color,
        focus_color: Color,
        title: Option<String>,
        title_alignment: Align,
        menu_alignment: Align,
        tag: &str,
        multitag_separator: Option<String>,
        parent: Option<String>,
    ) -> (c: Components)
        ensures
            c matches Components::TagMenu(m) && fresh_menu(m.menu, name@, color, focus_color, title, title_alignment, menu_alignment)
                && m.tag@ == tag@ && m.multitag_separator == multitag_separator && m.parent.spec_parent() == opt_view(parent)
                && m.menu.items@.len() == 0 && m.tracks@.len() == 0,
    {
        Components::TagMenu(
            TagMenu::new(name, color, focus_color, title, title_alignment, menu_alignment, tag, multitag_separator, parent),
        )
    }
}

impl HorizontalSplitter {
    /// A new splitter of panels side by side, as a component.
    pub fn enumed(name: &str, draw_borders: bool, panels: Vec<Panel>) -> (c: Components)
        ensures
            c matches Components::Splitter(Splitters::HorizontalSplitter(s)) && s.splitter.spec_name() == name@
                && s.splitter.spec_panels() == panels@ && s.splitter.spec_sel() == 0 && s.splitter.spec_borders() == draw_borders,
    {
        Components::Splitter(Splitters::HorizontalSplitter(HorizontalSplitter::new(name, draw_borders, panels)))
    }
}

impl VerticalSplitter {
    /// A new splitter of stacked panels, as a component.
    pub fn enumed(name: &str, draw_borders: bool, panels: Vec<Panel>) -> (c: Components)
        ensures
            c matches Components::Splitter(Splitters::VerticalSplitter(s)) && s.splitter.spec_name() == name@
                && s.splitter.spec_panels() == panels@ && s.splitter.spec_sel() == 0 && s.splitter.spec_borders() == draw_borders,
    {
        Components::Splitter(Splitters::VerticalSplitter(VerticalSplitter::new(name, draw_borders, panels)))
    }
}

} // verus!
