//! The running client: what each event does to the screen, the components,
//! the command line and the shared state, which events it sends on, and
//! what it asks of the world outside (the player, the tagger, the
//! terminal).
use vstd::prelude::*;

use crate::color::Color;
use crate::command_line::{CommandLine, Mode};
use crate::components::menus::{file_in, ids_with_files, spec_ids_where};
use crate::components::tag_editor::{spec_editor_tags, spec_tag_val, TagEditor};
use crate::components::{handled_all, handled_at, lemma_handled_wf, ComponentMap, Components};
use crate::event::{spec_bindable_to, AppEvent, ComponentEvent, CommandLineEvent, Event, MpdEvent, ScreenEvent, TaggerEvent};
use crate::layout::{lemma_loaded_wf, load, root_inserts, spec_json_read, applied};
use crate::screen::{chain_ends, chain_ends_within, chain_finite, focus_moved, shows_within, spec_focus, spec_focus_stack, spec_shows, Screen};
use crate::components::prev_ok;
use crate::styles::{lemma_genre_tracks_view, spec_genre_tracks};
use crate::track::{copy_tracks, track_eq, tracks_view, Track};
use crate::GlobalState;

verus! {

/// What the caller does for a step, besides sending on its events.
#[derive(Debug)]
pub enum Action {
    /// Leave the application.
    Quit,
    /// Clear the terminal.
    ClearScreen,
    /// Send this to the thread that talks to the player.
    ToMpd(MpdEvent),
    /// Send this to the thread that writes tags.
    ToTagger(TaggerEvent),
}

/// The outcome of handling one event.
pub struct Step {
    /// Events to send on, in order.
    pub events: Vec<Event>,
    /// Work for the caller, if any.
    pub action: Option<Action>,
}

/// The index of the first of the first `n` library songs whose plain
/// values are `v`.
pub open spec fn spec_index_of(lib: Seq<Track>, v: (Seq<char>, Option<Seq<char>>, Seq<(Seq<char>, Seq<char>)>, Option<u32>), n: nat) -> Option<usize>
    decreases n,
{
    if n == 0 || n > lib.len() {
        None
    } else {
        match spec_index_of(lib, v, (n - 1) as nat) {
            Some(i) => Some(i),
            None => if lib[n - 1].spec_view() == v { Some((n - 1) as usize) } else { None },
        }
    }
}

proof fn lemma_index_of_mono(lib: Seq<Track>, v: (Seq<char>, Option<Seq<char>>, Seq<(Seq<char>, Seq<char>)>, Option<u32>), n: nat, m: nat)
    requires
        n <= m <= lib.len(),
        spec_index_of(lib, v, n) is Some,
    ensures
        spec_index_of(lib, v, m) == spec_index_of(lib, v, n),
    decreases m - n,
{
    if n < m {
        lemma_index_of_mono(lib, v, n, (m - 1) as nat);
    }
}

/// The index of the first library song equal to `t`.
pub fn index_of(lib: &Vec<Track>, t: &Track) -> (r: Option<usize>)
    ensures
        r == spec_index_of(lib@, t.spec_view(), lib@.len()),
{
    let mut i: usize = 0;
    while i < lib.len()
        invariant
            i <= lib@.len(),
            spec_index_of(lib@, t.spec_view(), i as nat) is None,
        decreases lib@.len() - i,
    {
        if track_eq(&lib[i], t) {
            proof {
                lemma_index_of_mono(lib@, t.spec_view(), (i + 1) as nat, lib@.len());
            }
            return Some(i);
        }
        i = i + 1;
    }
    None
}

/// The client's state.
pub struct Client {
    pub state: GlobalState,
    pub components: ComponentMap,
    pub screen: Screen,
    pub command_line: CommandLine,
    /// The screen to go back to when the tag editor is left.
    pub last_screen: Option<String>,
}

/// `e` asks the screen's root component to draw itself on the whole
/// terminal but its last line, naming the focused component; or, with no
/// such component, to clear the terminal.
pub open spec fn is_draw_screen(e: Event, c: Client, size: (u16, u16)) -> bool {
    let m = c.components.spec_map();
    if m.contains_key(c.screen.name@) {
        e matches Event::ToComponent(n, ComponentEvent::Draw(x, y, w, h, f)) && n@ == c.screen.name@ && x == 1 && y == 1
            && w == size.0 && h == size.1 - 1 && f@ == spec_focus(m, c.screen.name@)
    } else {
        e == Event::ToApp(AppEvent::ClearScreen)
    }
}

impl Client {
    /// The command line's bindings are unique and every component keeps
    /// its shape.
    pub open spec fn wf(&self) -> bool {
        &&& self.command_line.wf()
        &&& self.components.all_wf()
    }

    /// Everything but the components is as in `other`.
    pub open spec fn same_but_components(&self, other: Client) -> bool {
        &&& self.state == other.state
        &&& self.screen == other.screen
        &&& self.command_line == other.command_line
        &&& self.last_screen == other.last_screen
    }

    /// Everything but the command line is as in `other`.
    pub open spec fn same_but_command_line(&self, other: Client) -> bool {
        &&& self.state == other.state
        &&& self.screen == other.screen
        &&& self.components == other.components
        &&& self.last_screen == other.last_screen
    }

    /// A client showing the screen "Default", with the components of the
    /// layout file text `layout` (none when there is no such text or it is
    /// not JSON), no library or genre tree yet, and a fresh command line.
    pub fn new(layout: Option<&str>) -> (c: Client)
        ensures
            c.wf(),
            c.state.style_tree is None,
            c.state.library@.len() == 0,
            c.screen.name@ == "Default"@,
            c.last_screen is None,
            c.command_line.keybinds@.len() == 0,
            match layout {
                Some(t) => match spec_json_read(t@) {
                    Some(v) => applied(Map::empty(), c.components.spec_map(), root_inserts(v)),
                    None => c.components.spec_map() == Map::<Seq<char>, Components>::empty(),
                },
                None => c.components.spec_map() == Map::<Seq<char>, Components>::empty(),
            },
    {
        let components = match layout {
            Some(t) => match load(t) {
                Some(m) => {
                    proof {
                        let v = spec_json_read(t@)->0;
                        lemma_loaded_wf(m.spec_map(), root_inserts(v));
                    }
                    m
                },
                None => ComponentMap::new(),
            },
            None => ComponentMap::new(),
        };
        Client {
            state: GlobalState::new(),
            components,
            screen: Screen::new("Default"),
            command_line: CommandLine::new(),
            last_screen: None,
        }
    }

    /// The event that draws the current screen on a terminal of `size`.
    fn draw_screen_event(&self, size: (u16, u16)) -> (e: Event)
        requires
            size.1 >= 1,
            self.components.spec_map().contains_key(self.screen.name@) ==> chain_finite(
                self.components.spec_map(),
                self.screen.name@,
            ),
        ensures
            is_draw_screen(e, *self, size),
    {
        match self.components.get(self.screen.name()) {
            Some(_) => Event::ToComponent(
                self.screen.name.clone(),
                ComponentEvent::Draw(1, 1, size.0, size.1 - 1, self.screen.focus(&self.components)),
            ),
            None => Event::ToApp(AppEvent::ClearScreen),
        }
    }
}

/// A one-event list.
fn one(e: Event) -> (r: Vec<Event>)
    ensures
        r@ == seq![e],
{
    let mut r: Vec<Event> = Vec::new();
    r.push(e);
    assert(r@ =~= seq![e]);
    r
}

/// A step that only sends `events`.
fn send(events: Vec<Event>) -> (s: Step)
    ensures
        s.events == events,
        s.action is None,
{
    Step { events, action: None }
}

/// Every id of `ids` is a song of a library of `n` songs.
pub open spec fn ids_valid(ids: Seq<usize>, n: int) -> bool {
    forall|i: int| 0 <= i < ids.len() ==> (#[trigger] ids[i]) < n
}

/// The name the tag editor is kept under.
pub open spec fn editor_key() -> Seq<char> {
    "TagEditor"@
}

/// `c` is a fresh tag editor named "TagEditor", drawn in cyan, for songs
/// with the plain values of the library songs `ids`.
pub open spec fn is_fresh_editor(c: Components, lib: Seq<Track>, ids: Seq<usize>) -> bool {
    &&& c matches Components::TagEditor(ed)
    &&& ed.wf()
    &&& ed.spec_name() == editor_key()
    &&& ed.spec_color() == Color::Cyan
    &&& ed.spec_focus() == 0
    &&& ed.spec_sel() == Some(0usize)
    &&& tracks_view(ed.spec_songs()) == tracks_view(Seq::new(ids.len(), |i: int| lib[ids[i] as int]))
    &&& forall|i: int| 0 <= i < 9 ==> #[trigger] ed.spec_tags()[i].1 == spec_tag_val(spec_editor_tags()[i], ed.spec_songs())
}

impl Client {
    /// What handling the application event `e` needs: a terminal with a
    /// line for the command line, and focus that does not run in a circle,
    /// to draw the screen.
    pub open spec fn accepts_app(self, e: AppEvent, size: (u16, u16)) -> bool {
        e is DrawScreen ==> size.1 >= 1 && (self.components.spec_map().contains_key(self.screen.name@) ==> chain_finite(
            self.components.spec_map(),
            self.screen.name@,
        ))
    }

    /// What handling the application event `e` does: `new` is the client
    /// after it and `out` the step.
    pub open spec fn app_stepped(self, e: AppEvent, size: (u16, u16), new: Client, out: Step) -> bool {
        let lib = self.state.library@;
        match e {
            AppEvent::Quit => new == self && out.events@.len() == 0 && out.action == Some(Action::Quit),
            AppEvent::ClearScreen => new == self && out.events@.len() == 0 && out.action == Some(Action::ClearScreen),
            AppEvent::Queue(songs) => new == self && out.action is None && out.events@.len() == 1 && (out.events@[0] matches Event::ToAllComponents(
                ComponentEvent::Queue(ids),
            ) && ids@ == spec_ids_where(lib, lib.len(), |t: Track| file_in(t, songs@))),
            AppEvent::NowPlaying(song) => new == self && out.action is None && out.events@ == seq![
                Event::ToAllComponents(
                    ComponentEvent::NowPlaying(
                        match song {
                            Some(t) => spec_index_of(lib, t.spec_view(), lib.len()),
                            None => None,
                        },
                    ),
                ),
            ],
            AppEvent::Error(msg) => new == self && out.action is None && out.events@ == seq![
                Event::ToCommandLine(CommandLineEvent::Echo(msg)),
            ],
            AppEvent::DrawScreen => new == self && out.action is None && out.events@.len() == 1 && is_draw_screen(
                out.events@[0],
                self,
                size,
            ),
            AppEvent::LostMpdConnection => {
                &&& new.state.library@.len() == 0
                &&& new.state.style_tree == self.state.style_tree
                &&& new.components == self.components && new.screen == self.screen && new.command_line
                    == self.command_line && new.last_screen == self.last_screen
                &&& out.action is None
                &&& out.events@ == seq![Event::ToAllComponents(ComponentEvent::LostMpdConnection)]
            },
            AppEvent::Database(tracks) => {
                &&& new.state.library == tracks
                &&& match self.state.style_tree {
                    None => new.state.style_tree is None,
                    Some(t) => new.state.style_tree matches Some(t2) && t2.spec_styles() == t.spec_styles()
                        && forall|key: Option<Seq<char>>| tracks_view(#[trigger] t2.spec_bucket(key)) == tracks_view(
                        spec_genre_tracks(tracks@, key),
                    ),
                }
                &&& self.command_line.echoed(new.command_line, "Updating Database..."@)
                &&& new.components == self.components && new.screen == self.screen && new.last_screen == self.last_screen
                &&& out.action is None
                &&& out.events@ == seq![Event::ToAllComponents(ComponentEvent::Database)]
            },
            AppEvent::SwitchScreen(name) => {
                &&& new.screen.name == name
                &&& new.state == self.state && new.components == self.components && new.command_line == self.command_line
                    && new.last_screen == self.last_screen
                &&& out.action is None
                &&& out.events@ == seq![Event::ToApp(AppEvent::DrawScreen)]
            },
            AppEvent::StyleTreeLoaded(tree) => {
                &&& new.state.style_tree == tree
                &&& new.state.library == self.state.library
                &&& new.components == self.components && new.screen == self.screen && new.command_line
                    == self.command_line && new.last_screen == self.last_screen
                &&& out.action is None
                &&& out.events@ == seq![Event::ToAllComponents(ComponentEvent::UpdateRootStyleMenu)]
            },
            AppEvent::Back => {
                &&& new.last_screen is None
                &&& new.state == self.state && new.components == self.components && new.screen == self.screen
                    && new.command_line == self.command_line
                &&& out.action is None
                &&& match self.last_screen {
                    Some(n) => out.events@ == seq![Event::ToApp(AppEvent::SwitchScreen(n))],
                    None => out.events@.len() == 0,
                }
            },
            AppEvent::TagUI(ids) => if ids_valid(ids@, lib.len() as int) {
                &&& new.components.spec_map().contains_key(editor_key())
                &&& new.components.spec_map() == self.components.spec_map().insert(editor_key(), new.components.spec_map()[editor_key()])
                &&& is_fresh_editor(new.components.spec_map()[editor_key()], lib, ids@)
                &&& new.last_screen == Some(self.screen.name)
                &&& new.state == self.state && new.screen == self.screen && new.command_line == self.command_line
                &&& out.action is None
                &&& out.events@.len() == 1 && (out.events@[0] matches Event::ToApp(AppEvent::SwitchScreen(n)) && n@
                    == editor_key())
            } else {
                new == self && out.action is None && out.events@.len() == 1 && (out.events@[0] matches Event::ToApp(
                    AppEvent::Error(m),
                ) && m@ == "Requst for TagUI contains outdated ids"@)
            },
            AppEvent::Resize => new == self && out.action is None && out.events@ == seq![Event::ToApp(AppEvent::DrawScreen)],
        }
    }

    /// Handles an application event.
    pub fn app_event(&mut self, e: AppEvent, size: (u16, u16)) -> (out: Step)
        requires
            old(self).wf(),
            old(self).accepts_app(e, size),
        ensures
            final(self).wf(),
            old(self).app_stepped(e, size, *final(self), out),
    {
        match e {
            AppEvent::Quit => Step { events: Vec::new(), action: Some(Action::Quit) },
            AppEvent::ClearScreen => Step { events: Vec::new(), action: Some(Action::ClearScreen) },
            AppEvent::Queue(songs) => {
                let ids = ids_with_files(&self.state.library, &songs);
                send(one(Event::ToAllComponents(ComponentEvent::Queue(ids))))
            },
            AppEvent::NowPlaying(song) => {
                let id = match &song {
                    Some(t) => index_of(&self.state.library, t),
                    None => None,
                };
                send(one(Event::ToAllComponents(ComponentEvent::NowPlaying(id))))
            },
            AppEvent::Error(msg) => send(one(Event::ToCommandLine(CommandLineEvent::Echo(msg)))),
            AppEvent::DrawScreen => send(one(self.draw_screen_event(size))),
            AppEvent::LostMpdConnection => {
                self.state.library = Vec::new();
                send(one(Event::ToAllComponents(ComponentEvent::LostMpdConnection)))
            },
            AppEvent::Database(tracks) => {
                self.command_line.echo("Updating Database...".to_string());
                let copy = copy_tracks(&tracks);
                let mut tree = None;
                std::mem::swap(&mut tree, &mut self.state.style_tree);
                match tree {
                    Some(mut t) => {
                        let ghost before = t.spec_styles();
                        t.set_tracks(copy);
                        proof {
                            assert forall|key: Option<Seq<char>>| tracks_view(#[trigger] t.spec_bucket(key)) == tracks_view(
                                spec_genre_tracks(tracks@, key),
                            ) by {
                                lemma_genre_tracks_view(copy@, tracks@, key);
                            }
                        }
                        self.state.style_tree = Some(t);
                    },
                    None => {},
                }
                self.state.library = tracks;
                send(one(Event::ToAllComponents(ComponentEvent::Database)))
            },
            AppEvent::SwitchScreen(name) => {
                self.screen.name = name;
                send(one(Event::ToApp(AppEvent::DrawScreen)))
            },
            AppEvent::StyleTreeLoaded(tree) => {
                self.state.style_tree = tree;
                send(one(Event::ToAllComponents(ComponentEvent::UpdateRootStyleMenu)))
            },
            AppEvent::Back => {
                let mut last = None;
                std::mem::swap(&mut last, &mut self.last_screen);
                match last {
                    Some(n) => send(one(Event::ToApp(AppEvent::SwitchScreen(n)))),
                    None => send(Vec::new()),
                }
            },
            AppEvent::TagUI(ids) => {
                let n = self.state.library.len();
                let mut ok = true;
                let mut i: usize = 0;
                while i < ids.len()
                    invariant
                        n == self.state.library@.len(),
                        i <= ids@.len(),
                        ok == forall|j: int| 0 <= j < i ==> (#[trigger] ids@[j]) < n,
                    decreases ids@.len() - i,
                {
                    if ids[i] >= n {
                        ok = false;
                    }
                    i = i + 1;
                }
                if !ok {
                    return send(one(Event::err("Requst for TagUI contains outdated ids".to_string())));
                }
                let mut songs: Vec<Track> = Vec::new();
                let mut k: usize = 0;
                while k < ids.len()
                    invariant
                        n == self.state.library@.len(),
                        forall|j: int| 0 <= j < ids@.len() ==> (#[trigger] ids@[j]) < n,
                        k <= ids@.len(),
                        songs@.len() == k,
                        forall|j: int| 0 <= j < k ==> (#[trigger] songs@[j]).spec_view() == self.state.library@[ids@[j] as int].spec_view(),
                    decreases ids@.len() - k,
                {
                    songs.push(self.state.library[ids[k]].copy());
                    k = k + 1;
                }
                proof {
                    assert(tracks_view(songs@) =~= tracks_view(Seq::new(ids@.len(), |j: int| self.state.library@[ids@[j] as int])));
                }
                let ed = TagEditor::new("TagEditor", Color::Cyan, songs);
                let c = Components::TagEditor(ed);
                proof {
                    reveal_strlit("TagEditor");
                }
                self.components.insert("TagEditor".to_string(), c);
                self.last_screen = Some(self.screen.name.clone());
                send(one(Event::ToApp(AppEvent::SwitchScreen("TagEditor".to_string()))))
            },
            AppEvent::Resize => send(one(Event::ToApp(AppEvent::DrawScreen))),
        }
    }
}

/// Moving focus keeps every component's shape.
proof fn lemma_moved_wf(
    old: Map<Seq<char>, Components>,
    new: Map<Seq<char>, Components>,
    chain: Seq<Seq<char>>,
    forward: bool,
)
    requires
        forall|k: Seq<char>| #[trigger] old.contains_key(k) ==> old[k].wf(),
        focus_moved(old, new, chain, forward),
    ensures
        forall|k: Seq<char>| #[trigger] new.contains_key(k) ==> new[k].wf(),
    decreases chain.len(),
{
    if chain.len() > 0 {
        let k = chain.last();
        if old.contains_key(k) && old[k] is Splitter && !crate::components::can_move(old[k]->Splitter_0, forward) {
            lemma_moved_wf(old, new, chain.drop_last(), forward);
        }
    }
}

/// A component table after one component handled an event keeps every
/// component's shape.
proof fn lemma_handled_at_wf(old: ComponentMap, new: ComponentMap, key: Seq<char>, state: GlobalState, e: ComponentEvent, out: Seq<Event>)
    requires
        old.all_wf(),
        handled_at(old, new, key, state, e, out),
    ensures
        new.all_wf(),
{
    if old.spec_map().contains_key(key) {
        lemma_handled_wf(old.spec_map()[key], new.spec_map()[key], state, e, out);
    }
}

/// A component table after every component handled an event keeps every
/// component's shape.
proof fn lemma_handled_all_wf(old: ComponentMap, new: ComponentMap, state: GlobalState, e: ComponentEvent, out: Seq<Event>)
    requires
        old.all_wf(),
        handled_all(old, new, state, e, out),
    ensures
        new.all_wf(),
{
    let outs = choose|outs: Seq<Seq<Event>>| {
        &&& outs.len() == old.spec_keys().len()
        &&& out == crate::components::concat_events(outs)
        &&& forall|i: int| 0 <= i < outs.len() ==> old.spec_map()[#[trigger] old.spec_keys()[i]].handled(
            new.spec_map()[old.spec_keys()[i]], state, e, outs[i])
    };
    assert forall|k: Seq<char>| #[trigger] new.spec_map().contains_key(k) implies new.spec_map()[k].wf() by {
        let i = choose|i: int| 0 <= i < new.spec_keys().len() && new.spec_keys()[i] == k;
        assert(old.spec_keys()[i] == k);
        lemma_handled_wf(old.spec_map()[k], new.spec_map()[k], state, e, outs[i]);
    }
}

impl Client {
    /// What handling `e` needs: what the components, the command line or
    /// the screen that handle it need.
    pub open spec fn accepts(self, e: Event, size: (u16, u16)) -> bool {
        let m = self.components.spec_map();
        let name = self.screen.name@;
        match e {
            Event::ToComponent(n, ce) => m.contains_key(n@) ==> m[n@].can_handle(self.state, ce),
            Event::ToAllComponents(ce) => forall|k: Seq<char>| #[trigger] m.contains_key(k) ==> m[k].can_handle(self.state, ce),
            Event::ToFocus(ce) => chain_finite(m, name) && (m.contains_key(spec_focus(m, name)) ==> m[spec_focus(
                m,
                name,
            )].can_handle(self.state, ce)),
            Event::ToScreen(ScreenEvent::FocusNext) => chain_finite(m, name),
            Event::ToScreen(ScreenEvent::FocusPrev) => chain_finite(m, name) && forall|i: int|
                0 <= i < spec_focus_stack(m, name).len() ==> {
                    let k = #[trigger] spec_focus_stack(m, name)[i];
                    m.contains_key(k) && m[k] is Splitter ==> prev_ok(m[k]->Splitter_0)
                },
            Event::ToScreen(ScreenEvent::NeedsRedraw(n)) => exists|f: nat| spec_shows(m, name, n@, f) is Some,
            Event::ToApp(ae) => self.accepts_app(ae, size),
            Event::ToCommandLine(ce) => self.command_line.can_handle(ce, size),
            _ => true,
        }
    }

    /// What handling `e` does: `new` is the client after it and `out` the
    /// step.
    pub open spec fn stepped(self, e: Event, size: (u16, u16), new: Client, out: Step) -> bool {
        let m = self.components.spec_map();
        let name = self.screen.name@;
        match e {
            Event::BindKey(keys, b) => new.same_but_command_line(self) && self.command_line.bound(
                new.command_line,
                keys@,
                spec_bindable_to(b),
            ) && out.events@.len() == 0 && out.action is None,
            Event::Confirm { prompt, on_yes, on_no, is_default_yes } => {
                &&& new.same_but_command_line(self)
                &&& new.command_line.same_but_mode(self.command_line)
                &&& new.command_line.mode == (Mode::Confirm { prompt, on_yes, on_no, is_default_yes })
                &&& out.events@.len() == 0 && out.action is None
            },
            Event::Dummy => new == self && out.events@.len() == 0 && out.action is None,
            Event::ToAllComponents(ce) => {
                &&& new.same_but_components(self)
                &&& out.action is None
                &&& if ce is Database {
                    &&& out.events@.len() > 0
                    &&& handled_all(self.components, new.components, self.state, ce, out.events@.drop_last())
                    &&& out.events@.last() matches Event::ToCommandLine(CommandLineEvent::Echo(t)) && t@ == "Update Finished!"@
                } else {
                    handled_all(self.components, new.components, self.state, ce, out.events@)
                }
            },
            Event::ToApp(ae) => self.app_stepped(ae, size, new, out),
            Event::ToCommandLine(ce) => new.same_but_command_line(self) && self.command_line.handled(
                new.command_line,
                ce,
                size,
                out.events@,
            ) && out.action is None,
            Event::ToComponent(n, ce) => new.same_but_components(self) && handled_at(
                self.components,
                new.components,
                n@,
                self.state,
                ce,
                out.events@,
            ) && out.action is None,
            Event::ToFocus(ce) => new.same_but_components(self) && handled_at(
                self.components,
                new.components,
                spec_focus(m, name),
                self.state,
                ce,
                out.events@,
            ) && out.action is None,
            Event::ToMpd(me) => new == self && out.events@.len() == 0 && out.action == Some(Action::ToMpd(me)),
            Event::ToScreen(se) => match se {
                ScreenEvent::FocusNext => {
                    &&& new.same_but_components(self)
                    &&& new.components.spec_keys() == self.components.spec_keys()
                    &&& focus_moved(m, new.components.spec_map(), spec_focus_stack(m, name), true)
                    &&& out.events@ == seq![Event::ToApp(AppEvent::DrawScreen)] && out.action is None
                },
                ScreenEvent::FocusPrev => {
                    &&& new.same_but_components(self)
                    &&& new.components.spec_keys() == self.components.spec_keys()
                    &&& focus_moved(m, new.components.spec_map(), spec_focus_stack(m, name), false)
                    &&& out.events@ == seq![Event::ToApp(AppEvent::DrawScreen)] && out.action is None
                },
                ScreenEvent::NeedsRedraw(n) => {
                    &&& new == self
                    &&& out.action is None
                    &&& if spec_shows(m, name, n@, choose|f: nat| spec_shows(m, name, n@, f) is Some)->0 {
                        out.events@ == seq![Event::ToApp(AppEvent::DrawScreen)]
                    } else {
                        out.events@.len() == 0
                    }
                },
            },
            Event::ToTagger(te) => new == self && out.events@.len() == 0 && out.action == Some(Action::ToTagger(te)),
        }
    }

    /// Handles one event; `size` is the terminal's width and height.
    pub fn step(&mut self, e: Event, size: (u16, u16)) -> (out: Step)
        requires
            old(self).wf(),
            old(self).accepts(e, size),
        ensures
            final(self).wf(),
            old(self).stepped(e, size, *final(self), out),
    {
        match e {
            Event::BindKey(keys, b) => {
                self.command_line.bind(keys, b.to_event());
                send(Vec::new())
            },
            Event::Confirm { prompt, on_yes, on_no, is_default_yes } => {
                self.command_line.confirm_mode(prompt, on_yes, on_no, is_default_yes);
                send(Vec::new())
            },
            Event::Dummy => send(Vec::new()),
            Event::ToAllComponents(ce) => {
                let ghost old_components = self.components;
                let mut events = self.components.handle_all(&self.state, &ce);
                proof {
                    lemma_handled_all_wf(old_components, self.components, self.state, ce, events@);
                }
                match ce {
                    ComponentEvent::Database => {
                        let ghost before = events@;
                        events.push(Event::ToCommandLine(CommandLineEvent::Echo("Update Finished!".to_string())));
                        assert(events@.drop_last() =~= before);
                    },
                    _ => {},
                }
                send(events)
            },
            Event::ToApp(ae) => self.app_event(ae, size),
            Event::ToCommandLine(ce) => send(self.command_line.handle(&ce, size)),
            Event::ToComponent(n, ce) => {
                let ghost old_components = self.components;
                let events = self.components.handle(n.as_str(), &self.state, &ce);
                proof {
                    lemma_handled_at_wf(old_components, self.components, n@, self.state, ce, events@);
                }
                send(events)
            },
            Event::ToFocus(ce) => {
                let f = self.screen.focus(&self.components);
                let ghost old_components = self.components;
                let events = self.components.handle(f.as_str(), &self.state, &ce);
                proof {
                    lemma_handled_at_wf(old_components, self.components, f@, self.state, ce, events@);
                }
                send(events)
            },
            Event::ToMpd(me) => Step { events: Vec::new(), action: Some(Action::ToMpd(me)) },
            Event::ToScreen(se) => match se {
                ScreenEvent::FocusNext => {
                    let ghost old_map = self.components.spec_map();
                    self.screen.focus_next(&mut self.components);
                    proof {
                        lemma_moved_wf(old_map, self.components.spec_map(), spec_focus_stack(old_map, self.screen.name@), true);
                    }
                    send(one(Event::ToApp(AppEvent::DrawScreen)))
                },
                ScreenEvent::FocusPrev => {
                    let ghost old_map = self.components.spec_map();
                    self.screen.focus_prev(&mut self.components);
                    proof {
                        lemma_moved_wf(old_map, self.components.spec_map(), spec_focus_stack(old_map, self.screen.name@), false);
                    }
                    send(one(Event::ToApp(AppEvent::DrawScreen)))
                },
                ScreenEvent::NeedsRedraw(n) => {
                    if self.screen.contains(n.as_str(), &self.components) {
                        send(one(Event::ToApp(AppEvent::DrawScreen)))
                    } else {
                        send(Vec::new())
                    }
                },
            },
            Event::ToTagger(te) => Step { events: Vec::new(), action: Some(Action::ToTagger(te)) },
        }
    }
}

impl Client {
    /// `accepts`, with focus and nesting followed for at most `fuel`
    /// steps.
    pub open spec fn accepts_within(self, e: Event, size: (u16, u16), fuel: nat) -> bool {
        let m = self.components.spec_map();
        let name = self.screen.name@;
        match e {
            Event::ToFocus(ce) => chain_ends(m, name, fuel) && (m.contains_key(spec_focus(m, name)) ==> m[spec_focus(
                m,
                name,
            )].can_handle(self.state, ce)),
            Event::ToScreen(ScreenEvent::FocusNext) => chain_ends(m, name, fuel),
            Event::ToScreen(ScreenEvent::FocusPrev) => chain_ends(m, name, fuel) && forall|i: int|
                0 <= i < spec_focus_stack(m, name).len() ==> {
                    let k = #[trigger] spec_focus_stack(m, name)[i];
                    m.contains_key(k) && m[k] is Splitter ==> prev_ok(m[k]->Splitter_0)
                },
            Event::ToScreen(ScreenEvent::NeedsRedraw(n)) => spec_shows(m, name, n@, fuel) is Some,
            Event::ToApp(AppEvent::DrawScreen) => size.1 >= 1 && (m.contains_key(name) ==> chain_ends(m, name, fuel)),
            _ => self.accepts(e, size),
        }
    }

    /// Whether `e` can be handled, following focus and nesting for as many
    /// steps as there are components (splitters that hold or focus each
    /// other in a circle would be followed forever).
    pub fn can_step(&self, e: &Event, size: (u16, u16)) -> (r: bool)
        requires
            self.wf(),
        ensures
            r == self.accepts_within(*e, size, self.components.spec_keys().len()),
            r ==> self.accepts(*e, size),
    {
        let fuel = self.components.len();
        let ghost m = self.components.spec_map();
        let ghost name = self.screen.name@;
        match e {
            Event::ToComponent(n, ce) => self.components.accepts_at(n.as_str(), &self.state, ce),
            Event::ToAllComponents(ce) => self.components.accepts_all(&self.state, ce),
            Event::ToFocus(ce) => {
                if !chain_ends_within(&self.components, self.screen.name(), fuel) {
                    return false;
                }
                let f = self.screen.focus(&self.components);
                self.components.accepts_at(f.as_str(), &self.state, ce)
            },
            Event::ToScreen(ScreenEvent::FocusNext) => chain_ends_within(&self.components, self.screen.name(), fuel),
            Event::ToScreen(ScreenEvent::FocusPrev) => {
                if !chain_ends_within(&self.components, self.screen.name(), fuel) {
                    return false;
                }
                self.prev_ok_along()
            },
            Event::ToScreen(ScreenEvent::NeedsRedraw(n)) => shows_within(&self.components, self.screen.name(), n.as_str(), fuel),
            Event::ToApp(AppEvent::DrawScreen) => {
                if size.1 < 1 {
                    return false;
                }
                match self.components.get(self.screen.name()) {
                    Some(_) => chain_ends_within(&self.components, self.screen.name(), fuel),
                    None => true,
                }
            },
            Event::ToCommandLine(ce) => self.command_line.accepts(ce, size),
            _ => true,
        }
    }

    /// Whether every splitter along the focus chain can move its focus
    /// back.
    fn prev_ok_along(&self) -> (r: bool)
        requires
            chain_finite(self.components.spec_map(), self.screen.name@),
        ensures
            r == forall|i: int| 0 <= i < spec_focus_stack(self.components.spec_map(), self.screen.name@).len() ==> {
                let k = #[trigger] spec_focus_stack(self.components.spec_map(), self.screen.name@)[i];
                self.components.spec_map().contains_key(k) && self.components.spec_map()[k] is Splitter ==> prev_ok(
                    self.components.spec_map()[k]->Splitter_0,
                )
            },
    {
        let ghost m = self.components.spec_map();
        let ghost stack = spec_focus_stack(m, self.screen.name@);
        let keys = crate::screen::focus_stack(self.screen.name(), &self.components);
        let mut i: usize = 0;
        while i < keys.len()
            invariant
                m == self.components.spec_map(),
                stack == spec_focus_stack(m, self.screen.name@),
                crate::text::strings_view(keys@) == stack,
                i <= keys@.len(),
                forall|j: int| 0 <= j < i ==> {
                    let k = #[trigger] stack[j];
                    m.contains_key(k) && m[k] is Splitter ==> prev_ok(m[k]->Splitter_0)
                },
            decreases keys@.len() - i,
        {
            assert(stack[i as int] == keys@[i as int]@);
            match self.components.get(keys[i].as_str()) {
                Some(Components::Splitter(s)) => {
                    let sel = s.focus_index();
                    if #[verifier::truncate] (sel as i32) == i32::MIN {
                        proof {
                            let k = stack[i as int];
                            assert(m.contains_key(k) && m[k] == Components::Splitter(*s));
                            assert(!prev_ok(m[k]->Splitter_0));
                        }
                        return false;
                    }
                },
                _ => {},
            }
            i = i + 1;
        }
        true
    }
}

/// Opening the tag editor and leaving it again comes back to the screen it
/// was opened from: after the editor is opened on songs of the library and
/// shown, going back switches to the screen that was shown before.
pub proof fn law_tag_editor_returns(
    c0: Client,
    ids: Vec<usize>,
    c1: Client,
    o1: Step,
    n: String,
    c2: Client,
    o2: Step,
    c3: Client,
    o3: Step,
    size: (u16, u16),
)
    requires
        ids_valid(ids@, c0.state.library@.len() as int),
        c0.app_stepped(AppEvent::TagUI(ids), size, c1, o1),
        o1.events@[0] == Event::ToApp(AppEvent::SwitchScreen(n)),
        c1.app_stepped(AppEvent::SwitchScreen(n), size, c2, o2),
        c2.app_stepped(AppEvent::Back, size, c3, o3),
    ensures
        c2.screen.name@ == editor_key(),
        o3.events@ == seq![Event::ToApp(AppEvent::SwitchScreen(c0.screen.name))],
        c3.last_screen is None,
{
}

} // verus!
