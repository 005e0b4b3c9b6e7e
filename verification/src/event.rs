//! Events: the messages that the parts of the client send each other,
//! sorted by where they go.
use vstd::prelude::*;

use crate::color::Color;
use crate::keys::Key;
use crate::styles::StyleTree;
use crate::components::menus::{copy_playlists, playlists_view};
use crate::track::{copy_opt, copy_tracks, opt_view, tracks_view, MpdStatus, Playlist, Track};
use crate::text::strings_view;

verus! {

/// Events for the main application loop.
#[derive(Debug)]
pub enum AppEvent {
    /// Leave the tag editor and go back to the screen shown before it.
    Back,
    /// Clear the terminal.
    ClearScreen,
    /// The library database changed; carries the whole library.
    Database(Vec<Track>),
    /// Draw the current screen.
    DrawScreen,
    /// An error happened; it is shown in the status line.
    Error(String),
    /// The connection to the player was lost.
    LostMpdConnection,
    /// The song now playing changed.
    NowPlaying(Option<Track>),
    /// The play queue changed.
    Queue(Vec<Track>),
    /// Leave the application.
    Quit,
    /// The terminal was resized.
    Resize,
    /// The genre tree finished loading (`None`: it could not be read).
    StyleTreeLoaded(Option<StyleTree>),
    /// Show the screen with this name.
    SwitchScreen(String),
    /// Open the tag editor on the library songs with these indices.
    TagUI(Vec<usize>),
}

/// Events for the current screen.
#[derive(Debug, Clone)]
pub enum ScreenEvent {
    /// Move focus to the next component.
    FocusNext,
    /// Move focus to the previous component.
    FocusPrev,
    /// The component with this name needs to be drawn again.
    NeedsRedraw(String),
}

/// Events for components. Song ids are indices into the library.
#[derive(Debug)]
pub enum ComponentEvent {
    /// The library changed.
    Database,
    /// Delete the selected item.
    Delete,
    /// Draw at column, row, width, height; the last field names the
    /// focused component.
    Draw(u16, u16, u16, u16, String),
    /// Move the selection to this line.
    GoTo(usize),
    /// Move the selection to the last line.
    GoToBottom,
    /// Move the selection to the first line.
    GoToTop,
    /// The connection to the player was lost.
    LostMpdConnection,
    /// Open the tag editor on the selection.
    OpenTags,
    /// Move to the next item.
    Next,
    /// The song now playing is the library song with this id.
    NowPlaying(Option<usize>),
    /// The stored playlists changed.
    Playlist(Vec<Playlist>),
    /// A playlist menu (named) now selects these songs.
    PlaylistMenuUpdated(String, Vec<usize>),
    /// Move to the previous item.
    Prev,
    /// The play queue now holds these songs.
    Queue(Vec<usize>),
    /// Text that the command line was asked for.
    ReturnText(String),
    /// Move to the next item that holds this text, ignoring case.
    Search(String),
    /// Move to the previous item that holds this text, ignoring case.
    SearchPrev(String),
    /// Act on the selection.
    Select,
    /// Start playing from the selection.
    Start,
    /// A genre menu (named) now selects these genres.
    StyleMenuUpdated(String, Vec<usize>),
    /// A tag menu (named) now selects these songs.
    TagMenuUpdated(String, Vec<usize>),
    /// The genre tree changed; genre menus without a parent reload it.
    UpdateRootStyleMenu,
}

/// Instructions for the thread that talks to the player.
#[derive(Debug)]
pub enum MpdEvent {
    AddToQueue(Vec<Track>),
    /// Queue every song of these genres.
    AddStyleToQueue(Vec<String>),
    ClearQueue,
    Consume,
    Delete(Track),
    Next,
    PlayAt(Track),
    Prev,
    Random,
    Repeat,
    SetVolume(i8),
    Single,
    TogglePause,
    Update,
}

/// Events for the command line.
#[derive(Debug)]
pub enum CommandLineEvent {
    /// Show text in the status line.
    Echo(String),
    /// A key was pressed.
    Input(Key),
    /// The player's status changed.
    MpdStatus(MpdStatus),
    /// Repeat the last search forwards.
    NextSearch,
    /// Repeat the last search backwards.
    PrevSearch,
    /// Ask the user for text: prompt and optional initial text.
    RequestText(String, Option<String>),
    /// Set the color of the command line.
    SetColor(Color),
    /// A line of the startup file (number, text) is not a valid command.
    SbrcError(usize, String),
    /// No startup file was found.
    SbrcNotFound,
    VolumeDown(i8),
    VolumeMv(i8),
    VolumeUp(i8),
}

/// Instructions for the thread that writes tags into files.
#[derive(Debug)]
pub enum TaggerEvent {
    MusicDir(String),
    /// Tag these songs with these (tag, value) pairs; `None` removes a tag.
    Tag(Vec<Track>, Vec<(String, Option<String>)>),
    TempDir(String),
}

/// A message, by destination.
#[derive(Debug)]
pub enum Event {
    /// Bind a key sequence to an event.
    BindKey(Vec<Key>, BindableEvent),
    /// Ask the user yes or no, then send one of two events.
    Confirm {
        prompt: String,
        on_yes: Option<ConfirmableEvent>,
        on_no: Option<ConfirmableEvent>,
        is_default_yes: bool,
    },
    /// Does nothing.
    Dummy,
    ToAllComponents(ComponentEvent),
    ToApp(AppEvent),
    ToCommandLine(CommandLineEvent),
    ToComponent(String, ComponentEvent),
    ToFocus(ComponentEvent),
    ToMpd(MpdEvent),
    ToScreen(ScreenEvent),
    ToTagger(TaggerEvent),
}

/// The events that a key can be bound to: all but key bindings themselves
/// and tagging instructions.
#[derive(Debug)]
pub enum BindableEvent {
    ToApp(AppEvent),
    ToScreen(ScreenEvent),
    ToAllComponents(ComponentEvent),
    ToFocus(ComponentEvent),
    ToMpd(MpdEvent),
    ToCommandLine(CommandLineEvent),
    ToComponent(String, ComponentEvent),
    Confirm {
        prompt: String,
        on_yes: Option<ConfirmableEvent>,
        on_no: Option<ConfirmableEvent>,
        is_default_yes: bool,
    },
    Dummy,
}

/// The events that a yes/no question can send: the bindable ones but
/// another question.
#[derive(Debug)]
pub enum ConfirmableEvent {
    Dummy,
    ToAllComponents(ComponentEvent),
    ToApp(AppEvent),
    ToCommandLine(CommandLineEvent),
    ToComponent(String, ComponentEvent),
    ToFocus(ComponentEvent),
    ToMpd(MpdEvent),
    ToScreen(ScreenEvent),
}

impl Event {
    /// An error message for the application.
    pub fn err(msg: String) -> (e: Event)
        ensures
            e == Event::ToApp(AppEvent::Error(msg)),
    {
        Event::ToApp(AppEvent::Error(msg))
    }
}

/// The bindable form of an event; `None` for key bindings and tagging.
pub open spec fn spec_bindable_from(e: Event) -> Option<BindableEvent> {
    match e {
        Event::ToApp(x) => Some(BindableEvent::ToApp(x)),
        Event::ToScreen(x) => Some(BindableEvent::ToScreen(x)),
        Event::ToAllComponents(x) => Some(BindableEvent::ToAllComponents(x)),
        Event::ToFocus(x) => Some(BindableEvent::ToFocus(x)),
        Event::ToMpd(x) => Some(BindableEvent::ToMpd(x)),
        Event::ToCommandLine(x) => Some(BindableEvent::ToCommandLine(x)),
        Event::ToComponent(s, x) => Some(BindableEvent::ToComponent(s, x)),
        Event::Confirm { prompt, on_yes, on_no, is_default_yes } => Some(
            BindableEvent::Confirm { prompt, on_yes, on_no, is_default_yes },
        ),
        Event::Dummy => Some(BindableEvent::Dummy),
        _ => None,
    }
}

/// The event that a bindable event stands for.
pub open spec fn spec_bindable_to(b: BindableEvent) -> Event {
    match b {
        BindableEvent::ToApp(x) => Event::ToApp(x),
        BindableEvent::ToScreen(x) => Event::ToScreen(x),
        BindableEvent::ToAllComponents(x) => Event::ToAllComponents(x),
        BindableEvent::ToFocus(x) => Event::ToFocus(x),
        BindableEvent::ToMpd(x) => Event::ToMpd(x),
        BindableEvent::ToCommandLine(x) => Event::ToCommandLine(x),
        BindableEvent::ToComponent(s, x) => Event::ToComponent(s, x),
        BindableEvent::Confirm { prompt, on_yes, on_no, is_default_yes } => Event::Confirm {
            prompt,
            on_yes,
            on_no,
            is_default_yes,
        },
        BindableEvent::Dummy => Event::Dummy,
    }
}

/// The confirmable form of an event; `None` for questions, key bindings and
/// tagging.
pub open spec fn spec_confirmable_from(e: Event) -> Option<ConfirmableEvent> {
    match e {
        Event::ToApp(x) => Some(ConfirmableEvent::ToApp(x)),
        Event::ToScreen(x) => Some(ConfirmableEvent::ToScreen(x)),
        Event::ToAllComponents(x) => Some(ConfirmableEvent::ToAllComponents(x)),
        Event::ToFocus(x) => Some(ConfirmableEvent::ToFocus(x)),
        Event::ToMpd(x) => Some(ConfirmableEvent::ToMpd(x)),
        Event::ToCommandLine(x) => Some(ConfirmableEvent::ToCommandLine(x)),
        Event::ToComponent(s, x) => Some(ConfirmableEvent::ToComponent(s, x)),
        Event::Dummy => Some(ConfirmableEvent::Dummy),
        _ => None,
    }
}

/// The event that a confirmable event stands for.
pub open spec fn spec_confirmable_to(c: ConfirmableEvent) -> Event {
    match c {
        ConfirmableEvent::ToApp(x) => Event::ToApp(x),
        ConfirmableEvent::ToScreen(x) => Event::ToScreen(x),
        ConfirmableEvent::ToAllComponents(x) => Event::ToAllComponents(x),
        ConfirmableEvent::ToFocus(x) => Event::ToFocus(x),
        ConfirmableEvent::ToMpd(x) => Event::ToMpd(x),
        ConfirmableEvent::ToCommandLine(x) => Event::ToCommandLine(x),
        ConfirmableEvent::ToComponent(s, x) => Event::ToComponent(s, x),
        ConfirmableEvent::Dummy => Event::Dummy,
    }
}

impl BindableEvent {
    /// The bindable form of `e`; `None` for key bindings and tagging.
    pub fn from_event(e: Event) -> (r: Option<BindableEvent>)
        ensures
            r == spec_bindable_from(e),
    {
        match e {
            Event::ToApp(x) => Some(BindableEvent::ToApp(x)),
            Event::ToScreen(x) => Some(BindableEvent::ToScreen(x)),
            Event::ToAllComponents(x) => Some(BindableEvent::ToAllComponents(x)),
            Event::ToFocus(x) => Some(BindableEvent::ToFocus(x)),
            Event::ToMpd(x) => Some(BindableEvent::ToMpd(x)),
            Event::ToCommandLine(x) => Some(BindableEvent::ToCommandLine(x)),
            Event::ToComponent(s, x) => Some(BindableEvent::ToComponent(s, x)),
            Event::Confirm { prompt, on_yes, on_no, is_default_yes } => Some(
                BindableEvent::Confirm { prompt, on_yes, on_no, is_default_yes },
            ),
            Event::Dummy => Some(BindableEvent::Dummy),
            _ => None,
        }
    }

    /// The event this stands for.
    pub fn to_event(self) -> (r: Event)
        ensures
            r == spec_bindable_to(self),
    {
        match self {
            BindableEvent::ToApp(x) => Event::ToApp(x),
            BindableEvent::ToScreen(x) => Event::ToScreen(x),
            BindableEvent::ToAllComponents(x) => Event::ToAllComponents(x),
            BindableEvent::ToFocus(x) => Event::ToFocus(x),
            BindableEvent::ToMpd(x) => Event::ToMpd(x),
            BindableEvent::ToCommandLine(x) => Event::ToCommandLine(x),
            BindableEvent::ToComponent(s, x) => Event::ToComponent(s, x),
            BindableEvent::Confirm { prompt, on_yes, on_no, is_default_yes } => Event::Confirm {
                prompt,
                on_yes,
                on_no,
                is_default_yes,
            },
            BindableEvent::Dummy => Event::Dummy,
        }
    }
}

impl ConfirmableEvent {
    /// The confirmable form of `e`; `None` for questions, key bindings and
    /// tagging.
    pub fn from_event(e: Event) -> (r: Option<ConfirmableEvent>)
        ensures
            r == spec_confirmable_from(e),
    {
        match e {
            Event::ToApp(x) => Some(ConfirmableEvent::ToApp(x)),
            Event::ToScreen(x) => Some(ConfirmableEvent::ToScreen(x)),
            Event::ToAllComponents(x) => Some(ConfirmableEvent::ToAllComponents(x)),
            Event::ToFocus(x) => Some(ConfirmableEvent::ToFocus(x)),
            Event::ToMpd(x) => Some(ConfirmableEvent::ToMpd(x)),
            Event::ToCommandLine(x) => Some(ConfirmableEvent::ToCommandLine(x)),
            Event::ToComponent(s, x) => Some(ConfirmableEvent::ToComponent(s, x)),
            Event::Dummy => Some(ConfirmableEvent::Dummy),
            _ => None,
        }
    }

    /// The event this stands for.
    pub fn to_event(self) -> (r: Event)
        ensures
            r == spec_confirmable_to(self),
    {
        match self {
            ConfirmableEvent::ToApp(x) => Event::ToApp(x),
            ConfirmableEvent::ToScreen(x) => Event::ToScreen(x),
            ConfirmableEvent::ToAllComponents(x) => Event::ToAllComponents(x),
            ConfirmableEvent::ToFocus(x) => Event::ToFocus(x),
            ConfirmableEvent::ToMpd(x) => Event::ToMpd(x),
            ConfirmableEvent::ToCommandLine(x) => Event::ToCommandLine(x),
            ConfirmableEvent::ToComponent(s, x) => Event::ToComponent(s, x),
            ConfirmableEvent::Dummy => Event::Dummy,
        }
    }
}

/// Turning an event into its bindable form and back gives the same event,
/// and every bindable event comes from exactly the event it stands for.
pub proof fn law_bindable_round_trip(e: Event, b: BindableEvent)
    ensures
        spec_bindable_from(e) == Some(b) ==> spec_bindable_to(b) == e,
        spec_bindable_from(spec_bindable_to(b)) == Some(b),
{
}

/// Turning an event into its confirmable form and back gives the same
/// event, and every confirmable event comes from the event it stands for.
pub proof fn law_confirmable_round_trip(e: Event, c: ConfirmableEvent)
    ensures
        spec_confirmable_from(e) == Some(c) ==> spec_confirmable_to(c) == e,
        spec_confirmable_from(spec_confirmable_to(c)) == Some(c),
{
}

/// Every event that a question can send can also be bound to a key, and
/// the key binding stands for the same event.
pub proof fn law_confirmable_is_bindable(c: ConfirmableEvent)
    ensures
        spec_bindable_from(spec_confirmable_to(c)) is Some,
        spec_bindable_to(spec_bindable_from(spec_confirmable_to(c))->0) == spec_confirmable_to(c),
{
}

/// A list of (tag, value) pairs as plain values.
pub open spec fn pairs_view(p: Seq<(String, Option<String>)>) -> Seq<(Seq<char>, Option<Seq<char>>)> {
    p.map_values(|x: (String, Option<String>)| (x.0@, opt_view(x.1)))
}

/// An optional song as plain values.
pub open spec fn opt_track_view(t: Option<Track>) -> Option<(Seq<char>, Option<Seq<char>>, Seq<(Seq<char>, Seq<char>)>, Option<u32>)> {
    match t {
        Some(t) => Some(t.spec_view()),
        None => None,
    }
}

/// Two optional genre trees hold the same genres and songs.
pub open spec fn same_tree(a: Option<StyleTree>, b: Option<StyleTree>) -> bool {
    match (a, b) {
        (None, None) => true,
        (Some(x), Some(y)) => x.spec_styles() == y.spec_styles() && x.spec_bucket_keys() == y.spec_bucket_keys()
            && forall|k: Option<Seq<char>>| tracks_view(#[trigger] x.spec_bucket(k)) == tracks_view(y.spec_bucket(k)),
        _ => false,
    }
}

/// Two application events carry the same values (lists compared by what
/// they hold).
pub open spec fn same_app(a: AppEvent, b: AppEvent) -> bool {
    match (a, b) {
        (AppEvent::Database(x), AppEvent::Database(y)) => tracks_view(x@) == tracks_view(y@),
        (AppEvent::NowPlaying(x), AppEvent::NowPlaying(y)) => opt_track_view(x) == opt_track_view(y),
        (AppEvent::Queue(x), AppEvent::Queue(y)) => tracks_view(x@) == tracks_view(y@),
        (AppEvent::StyleTreeLoaded(x), AppEvent::StyleTreeLoaded(y)) => same_tree(x, y),
        (AppEvent::TagUI(x), AppEvent::TagUI(y)) => x@ == y@,
        _ => a == b,
    }
}

/// Two component events carry the same values.
pub open spec fn same_component(a: ComponentEvent, b: ComponentEvent) -> bool {
    match (a, b) {
        (ComponentEvent::Playlist(x), ComponentEvent::Playlist(y)) => playlists_view(x@) == playlists_view(y@),
        (ComponentEvent::PlaylistMenuUpdated(n, x), ComponentEvent::PlaylistMenuUpdated(m, y)) => n == m && x@ == y@,
        (ComponentEvent::Queue(x), ComponentEvent::Queue(y)) => x@ == y@,
        (ComponentEvent::StyleMenuUpdated(n, x), ComponentEvent::StyleMenuUpdated(m, y)) => n == m && x@ == y@,
        (ComponentEvent::TagMenuUpdated(n, x), ComponentEvent::TagMenuUpdated(m, y)) => n == m && x@ == y@,
        _ => a == b,
    }
}

/// Two player events carry the same values.
pub open spec fn same_mpd(a: MpdEvent, b: MpdEvent) -> bool {
    match (a, b) {
        (MpdEvent::AddToQueue(x), MpdEvent::AddToQueue(y)) => tracks_view(x@) == tracks_view(y@),
        (MpdEvent::AddStyleToQueue(x), MpdEvent::AddStyleToQueue(y)) => strings_view(x@) == strings_view(y@),
        (MpdEvent::Delete(x), MpdEvent::Delete(y)) => x.spec_view() == y.spec_view(),
        (MpdEvent::PlayAt(x), MpdEvent::PlayAt(y)) => x.spec_view() == y.spec_view(),
        _ => a == b,
    }
}

/// Two tagging events carry the same values.
pub open spec fn same_tagger(a: TaggerEvent, b: TaggerEvent) -> bool {
    match (a, b) {
        (TaggerEvent::Tag(x, p), TaggerEvent::Tag(y, q)) => tracks_view(x@) == tracks_view(y@) && pairs_view(p@)
            == pairs_view(q@),
        _ => a == b,
    }
}

/// Two confirmable events carry the same values.
pub open spec fn same_confirmable(a: ConfirmableEvent, b: ConfirmableEvent) -> bool {
    match (a, b) {
        (ConfirmableEvent::Dummy, ConfirmableEvent::Dummy) => true,
        (ConfirmableEvent::ToAllComponents(x), ConfirmableEvent::ToAllComponents(y)) => same_component(x, y),
        (ConfirmableEvent::ToApp(x), ConfirmableEvent::ToApp(y)) => same_app(x, y),
        (ConfirmableEvent::ToCommandLine(x), ConfirmableEvent::ToCommandLine(y)) => x == y,
        (ConfirmableEvent::ToComponent(n, x), ConfirmableEvent::ToComponent(m, y)) => n == m && same_component(x, y),
        (ConfirmableEvent::ToFocus(x), ConfirmableEvent::ToFocus(y)) => same_component(x, y),
        (ConfirmableEvent::ToMpd(x), ConfirmableEvent::ToMpd(y)) => same_mpd(x, y),
        (ConfirmableEvent::ToScreen(x), ConfirmableEvent::ToScreen(y)) => x == y,
        _ => false,
    }
}

/// Two optional confirmable events carry the same values.
pub open spec fn same_opt_confirmable(a: Option<ConfirmableEvent>, b: Option<ConfirmableEvent>) -> bool {
    match (a, b) {
        (None, None) => true,
        (Some(x), Some(y)) => same_confirmable(x, y),
        _ => false,
    }
}

/// Two bindable events carry the same values.
pub open spec fn same_bindable(a: BindableEvent, b: BindableEvent) -> bool {
    match (a, b) {
        (BindableEvent::Dummy, BindableEvent::Dummy) => true,
        (BindableEvent::ToAllComponents(x), BindableEvent::ToAllComponents(y)) => same_component(x, y),
        (BindableEvent::ToApp(x), BindableEvent::ToApp(y)) => same_app(x, y),
        (BindableEvent::ToCommandLine(x), BindableEvent::ToCommandLine(y)) => x == y,
        (BindableEvent::ToComponent(n, x), BindableEvent::ToComponent(m, y)) => n == m && same_component(x, y),
        (BindableEvent::ToFocus(x), BindableEvent::ToFocus(y)) => same_component(x, y),
        (BindableEvent::ToMpd(x), BindableEvent::ToMpd(y)) => same_mpd(x, y),
        (BindableEvent::ToScreen(x), BindableEvent::ToScreen(y)) => x == y,
        (
            BindableEvent::Confirm { prompt: p, on_yes: y1, on_no: n1, is_default_yes: d1 },
            BindableEvent::Confirm { prompt: q, on_yes: y2, on_no: n2, is_default_yes: d2 },
        ) => p == q && same_opt_confirmable(y1, y2) && same_opt_confirmable(n1, n2) && d1 == d2,
        _ => false,
    }
}

/// Two events carry the same values: equal, but that lists (and songs,
/// playlists and genre trees) are compared by what they hold.
pub open spec fn same_event(a: Event, b: Event) -> bool {
    match (a, b) {
        (Event::BindKey(k1, x), Event::BindKey(k2, y)) => k1@ == k2@ && same_bindable(x, y),
        (
            Event::Confirm { prompt: p, on_yes: y1, on_no: n1, is_default_yes: d1 },
            Event::Confirm { prompt: q, on_yes: y2, on_no: n2, is_default_yes: d2 },
        ) => p == q && same_opt_confirmable(y1, y2) && same_opt_confirmable(n1, n2) && d1 == d2,
        (Event::Dummy, Event::Dummy) => true,
        (Event::ToAllComponents(x), Event::ToAllComponents(y)) => same_component(x, y),
        (Event::ToApp(x), Event::ToApp(y)) => same_app(x, y),
        (Event::ToCommandLine(x), Event::ToCommandLine(y)) => x == y,
        (Event::ToComponent(n, x), Event::ToComponent(m, y)) => n == m && same_component(x, y),
        (Event::ToFocus(x), Event::ToFocus(y)) => same_component(x, y),
        (Event::ToMpd(x), Event::ToMpd(y)) => same_mpd(x, y),
        (Event::ToScreen(x), Event::ToScreen(y)) => x == y,
        (Event::ToTagger(x), Event::ToTagger(y)) => same_tagger(x, y),
        _ => false,
    }
}

fn copy_string(s: &String) -> (r: String)
    ensures
        r == *s,
{
    s.clone()
}

fn copy_opt_string(s: &Option<String>) -> (r: Option<String>)
    ensures
        r == *s,
{
    match s {
        Some(x) => Some(x.clone()),
        None => None,
    }
}

fn copy_ids(v: &Vec<usize>) -> (r: Vec<usize>)
    ensures
        r@ == v@,
{
    crate::components::tag_menu::copy_usizes(v)
}

fn copy_keys(v: &Vec<Key>) -> (r: Vec<Key>)
    ensures
        r@ == v@,
{
    let mut r: Vec<Key> = Vec::new();
    let mut i: usize = 0;
    while i < v.len()
        invariant
            i <= v@.len(),
            r@ == v@.subrange(0, i as int),
        decreases v@.len() - i,
    {
        r.push(v[i]);
        i = i + 1;
        assert(r@ =~= v@.subrange(0, i as int));
    }
    assert(r@ =~= v@);
    r
}

fn copy_strings(v: &Vec<String>) -> (r: Vec<String>)
    ensures
        strings_view(r@) == strings_view(v@),
{
    let mut r: Vec<String> = Vec::new();
    let mut i: usize = 0;
    while i < v.len()
        invariant
            i <= v@.len(),
            r@.len() == i,
            forall|j: int| 0 <= j < i ==> (#[trigger] r@[j])@ == v@[j]@,
        decreases v@.len() - i,
    {
        r.push(v[i].clone());
        i = i + 1;
    }
    assert(strings_view(r@) =~= strings_view(v@));
    r
}

fn copy_pairs(v: &Vec<(String, Option<String>)>) -> (r: Vec<(String, Option<String>)>)
    ensures
        pairs_view(r@) == pairs_view(v@),
{
    let mut r: Vec<(String, Option<String>)> = Vec::new();
    let mut i: usize = 0;
    while i < v.len()
        invariant
            i <= v@.len(),
            r@.len() == i,
            forall|j: int| 0 <= j < i ==> (#[trigger] r@[j]) == v@[j],
        decreases v@.len() - i,
    {
        r.push((v[i].0.clone(), copy_opt_string(&v[i].1)));
        i = i + 1;
    }
    assert(pairs_view(r@) =~= pairs_view(v@));
    r
}

impl AppEvent {
    /// A copy of the event.
    pub fn copy(&self) -> (r: AppEvent)
        ensures
            same_app(*self, r),
    {
        match self {
            AppEvent::Back => AppEvent::Back,
            AppEvent::ClearScreen => AppEvent::ClearScreen,
            AppEvent::Database(x) => AppEvent::Database(copy_tracks(x)),
            AppEvent::DrawScreen => AppEvent::DrawScreen,
            AppEvent::Error(s) => AppEvent::Error(copy_string(s)),
            AppEvent::LostMpdConnection => AppEvent::LostMpdConnection,
            AppEvent::NowPlaying(t) => AppEvent::NowPlaying(
                match t {
                    Some(t) => Some(t.copy()),
                    None => None,
                },
            ),
            AppEvent::Queue(x) => AppEvent::Queue(copy_tracks(x)),
            AppEvent::Quit => AppEvent::Quit,
            AppEvent::Resize => AppEvent::Resize,
            AppEvent::StyleTreeLoaded(t) => AppEvent::StyleTreeLoaded(
                match t {
                    Some(t) => Some(t.copy()),
                    None => None,
                },
            ),
            AppEvent::SwitchScreen(s) => AppEvent::SwitchScreen(copy_string(s)),
            AppEvent::TagUI(x) => AppEvent::TagUI(copy_ids(x)),
        }
    }
}

impl ScreenEvent {
    /// A copy of the event.
    pub fn copy(&self) -> (r: ScreenEvent)
        ensures
            r == *self,
    {
        match self {
            ScreenEvent::FocusNext => ScreenEvent::FocusNext,
            ScreenEvent::FocusPrev => ScreenEvent::FocusPrev,
            ScreenEvent::NeedsRedraw(s) => ScreenEvent::NeedsRedraw(copy_string(s)),
        }
    }
}

impl ComponentEvent {
    /// A copy of the event.
    pub fn copy(&self) -> (r: ComponentEvent)
        ensures
            same_component(*self, r),
    {
        match self {
            ComponentEvent::Database => ComponentEvent::Database,
            ComponentEvent::Delete => ComponentEvent::Delete,
            ComponentEvent::Draw(x, y, w, h, f) => ComponentEvent::Draw(*x, *y, *w, *h, copy_string(f)),
            ComponentEvent::GoTo(i) => ComponentEvent::GoTo(*i),
            ComponentEvent::GoToBottom => ComponentEvent::GoToBottom,
            ComponentEvent::GoToTop => ComponentEvent::GoToTop,
            ComponentEvent::LostMpdConnection => ComponentEvent::LostMpdConnection,
            ComponentEvent::OpenTags => ComponentEvent::OpenTags,
            ComponentEvent::Next => ComponentEvent::Next,
            ComponentEvent::NowPlaying(i) => ComponentEvent::NowPlaying(*i),
            ComponentEvent::Playlist(p) => ComponentEvent::Playlist(copy_playlists(p)),
            ComponentEvent::PlaylistMenuUpdated(n, x) => ComponentEvent::PlaylistMenuUpdated(copy_string(n), copy_ids(x)),
            ComponentEvent::Prev => ComponentEvent::Prev,
            ComponentEvent::Queue(x) => ComponentEvent::Queue(copy_ids(x)),
            ComponentEvent::ReturnText(s) => ComponentEvent::ReturnText(copy_string(s)),
            ComponentEvent::Search(s) => ComponentEvent::Search(copy_string(s)),
            ComponentEvent::SearchPrev(s) => ComponentEvent::SearchPrev(copy_string(s)),
            ComponentEvent::Select => ComponentEvent::Select,
            ComponentEvent::Start => ComponentEvent::Start,
            ComponentEvent::StyleMenuUpdated(n, x) => ComponentEvent::StyleMenuUpdated(copy_string(n), copy_ids(x)),
            ComponentEvent::TagMenuUpdated(n, x) => ComponentEvent::TagMenuUpdated(copy_string(n), copy_ids(x)),
            ComponentEvent::UpdateRootStyleMenu => ComponentEvent::UpdateRootStyleMenu,
        }
    }
}

impl MpdEvent {
    /// A copy of the event.
    pub fn copy(&self) -> (r: MpdEvent)
        ensures
            same_mpd(*self, r),
    {
        match self {
            MpdEvent::AddToQueue(x) => MpdEvent::AddToQueue(copy_tracks(x)),
            MpdEvent::AddStyleToQueue(x) => MpdEvent::AddStyleToQueue(copy_strings(x)),
            MpdEvent::ClearQueue => MpdEvent::ClearQueue,
            MpdEvent::Consume => MpdEvent::Consume,
            MpdEvent::Delete(t) => MpdEvent::Delete(t.copy()),
            MpdEvent::Next => MpdEvent::Next,
            MpdEvent::PlayAt(t) => MpdEvent::PlayAt(t.copy()),
            MpdEvent::Prev => MpdEvent::Prev,
            MpdEvent::Random => MpdEvent::Random,
            MpdEvent::Repeat => MpdEvent::Repeat,
            MpdEvent::SetVolume(v) => MpdEvent::SetVolume(*v),
            MpdEvent::Single => MpdEvent::Single,
            MpdEvent::TogglePause => MpdEvent::TogglePause,
            MpdEvent::Update => MpdEvent::Update,
        }
    }
}

impl CommandLineEvent {
    /// A copy of the event.
    pub fn copy(&self) -> (r: CommandLineEvent)
        ensures
            r == *self,
    {
        match self {
            CommandLineEvent::Echo(s) => CommandLineEvent::Echo(copy_string(s)),
            CommandLineEvent::Input(k) => CommandLineEvent::Input(*k),
            CommandLineEvent::MpdStatus(st) => CommandLineEvent::MpdStatus(*st),
            CommandLineEvent::NextSearch => CommandLineEvent::NextSearch,
            CommandLineEvent::PrevSearch => CommandLineEvent::PrevSearch,
            CommandLineEvent::RequestText(p, t) => CommandLineEvent::RequestText(copy_string(p), copy_opt_string(t)),
            CommandLineEvent::SetColor(c) => CommandLineEvent::SetColor(*c),
            CommandLineEvent::SbrcError(n, s) => CommandLineEvent::SbrcError(*n, copy_string(s)),
            CommandLineEvent::SbrcNotFound => CommandLineEvent::SbrcNotFound,
            CommandLineEvent::VolumeDown(v) => CommandLineEvent::VolumeDown(*v),
            CommandLineEvent::VolumeMv(v) => CommandLineEvent::VolumeMv(*v),
            CommandLineEvent::VolumeUp(v) => CommandLineEvent::VolumeUp(*v),
        }
    }
}

impl TaggerEvent {
    /// A copy of the event.
    pub fn copy(&self) -> (r: TaggerEvent)
        ensures
            same_tagger(*self, r),
    {
        match self {
            TaggerEvent::MusicDir(s) => TaggerEvent::MusicDir(copy_string(s)),
            TaggerEvent::Tag(x, p) => TaggerEvent::Tag(copy_tracks(x), copy_pairs(p)),
            TaggerEvent::TempDir(s) => TaggerEvent::TempDir(copy_string(s)),
        }
    }
}

impl ConfirmableEvent {
    /// A copy of the event.
    pub fn copy(&self) -> (r: ConfirmableEvent)
        ensures
            same_confirmable(*self, r),
    {
        match self {
            ConfirmableEvent::Dummy => ConfirmableEvent::Dummy,
            ConfirmableEvent::ToAllComponents(x) => ConfirmableEvent::ToAllComponents(x.copy()),
            ConfirmableEvent::ToApp(x) => ConfirmableEvent::ToApp(x.copy()),
            ConfirmableEvent::ToCommandLine(x) => ConfirmableEvent::ToCommandLine(x.copy()),
            ConfirmableEvent::ToComponent(n, x) => ConfirmableEvent::ToComponent(copy_string(n), x.copy()),
            ConfirmableEvent::ToFocus(x) => ConfirmableEvent::ToFocus(x.copy()),
            ConfirmableEvent::ToMpd(x) => ConfirmableEvent::ToMpd(x.copy()),
            ConfirmableEvent::ToScreen(x) => ConfirmableEvent::ToScreen(x.copy()),
        }
    }
}

fn copy_opt_confirmable(c: &Option<ConfirmableEvent>) -> (r: Option<ConfirmableEvent>)
    ensures
        same_opt_confirmable(*c, r),
{
    match c {
        Some(x) => Some(x.copy()),
        None => None,
    }
}

impl BindableEvent {
    /// A copy of the event.
    pub fn copy(&self) -> (r: BindableEvent)
        ensures
            same_bindable(*self, r),
    {
        match self {
            BindableEvent::Dummy => BindableEvent::Dummy,
            BindableEvent::ToAllComponents(x) => BindableEvent::ToAllComponents(x.copy()),
            BindableEvent::ToApp(x) => BindableEvent::ToApp(x.copy()),
            BindableEvent::ToCommandLine(x) => BindableEvent::ToCommandLine(x.copy()),
            BindableEvent::ToComponent(n, x) => BindableEvent::ToComponent(copy_string(n), x.copy()),
            BindableEvent::ToFocus(x) => BindableEvent::ToFocus(x.copy()),
            BindableEvent::ToMpd(x) => BindableEvent::ToMpd(x.copy()),
            BindableEvent::ToScreen(x) => BindableEvent::ToScreen(x.copy()),
            BindableEvent::Confirm { prompt, on_yes, on_no, is_default_yes } => BindableEvent::Confirm {
                prompt: copy_string(prompt),
                on_yes: copy_opt_confirmable(on_yes),
                on_no: copy_opt_confirmable(on_no),
                is_default_yes: *is_default_yes,
            },
        }
    }
}

impl Event {
    /// A copy of the event.
    pub fn copy(&self) -> (r: Event)
        ensures
            same_event(*self, r),
    {
        match self {
            Event::BindKey(k, b) => Event::BindKey(copy_keys(k), b.copy()),
            Event::Confirm { prompt, on_yes, on_no, is_default_yes } => Event::Confirm {
                prompt: copy_string(prompt),
                on_yes: copy_opt_confirmable(on_yes),
                on_no: copy_opt_confirmable(on_no),
                is_default_yes: *is_default_yes,
            },
            Event::Dummy => Event::Dummy,
            Event::ToAllComponents(x) => Event::ToAllComponents(x.copy()),
            Event::ToApp(x) => Event::ToApp(x.copy()),
            Event::ToCommandLine(x) => Event::ToCommandLine(x.copy()),
            Event::ToComponent(n, x) => Event::ToComponent(copy_string(n), x.copy()),
            Event::ToFocus(x) => Event::ToFocus(x.copy()),
            Event::ToMpd(x) => Event::ToMpd(x.copy()),
            Event::ToScreen(x) => Event::ToScreen(x.copy()),
            Event::ToTagger(x) => Event::ToTagger(x.copy()),
        }
    }
}

} // verus!
