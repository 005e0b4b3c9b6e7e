//! How events are written out for people: the text the command line
//! echoes after running a command ("Ran: ..."), built the way the events'
//! debug formatting writes them.
use vstd::prelude::*;

use crate::command::{spec_event_is, Command};
use crate::event::{AppEvent, BindableEvent, CommandLineEvent, ComponentEvent, Event, MpdEvent, ScreenEvent};
use crate::keys::Key;
use crate::text::{concat, decimal, signed_decimal, spec_decimal, spec_signed_decimal};

verus! {

/// What std's `{:?}` writes for a string: the string in double quotes,
/// with quotes, backslashes and unprintable characters escaped. Which
/// characters count as printable comes from Unicode tables, so it is
/// named here and not written out.
pub uninterp spec fn spec_debug_str(s: Seq<char>) -> Seq<char>;

/// What std's `{:?}` writes for a character: the character in single
/// quotes, escaped as for strings.
pub uninterp spec fn spec_debug_char(c: char) -> Seq<char>;

/// `s` as std's `{:?}` writes it.
#[verifier::external_body]
fn debug_str(s: &str) -> (r: String)
    ensures
        r@ == spec_debug_str(s@),
{
    format!("{:?}", s)
}

/// `c` as std's `{:?}` writes it.
#[verifier::external_body]
fn debug_char(c: char) -> (r: String)
    ensures
        r@ == spec_debug_char(c),
{
    format!("{:?}", c)
}

/// `n` in decimal.
pub open spec fn num(n: nat) -> Seq<char> {
    spec_decimal(n)
}

/// `name(inner)`.
pub open spec fn call(name: Seq<char>, inner: Seq<char>) -> Seq<char> {
    name + "("@ + inner + ")"@
}

/// A count followed by a word, as in "3 songs".
pub open spec fn counted(n: nat, what: Seq<char>) -> Seq<char> {
    num(n) + " "@ + what
}

/// The text of a component event.
pub open spec fn spec_component_text(e: ComponentEvent) -> Seq<char> {
    match e {
        ComponentEvent::NowPlaying(i) => call("ComponentEvent::NowPlaying"@, match i {
            Some(n) => call("Some"@, num(n as nat)),
            None => "None"@,
        }),
        ComponentEvent::ReturnText(s) => call("ComponentEvent::ReturnText"@, spec_debug_str(s@)),
        ComponentEvent::Queue(ids) => call("ComponentEvent::Queue"@, counted(ids@.len(), "ids"@)),
        ComponentEvent::Playlist(pl) => call("ComponentEvent::Playlist"@, counted(pl@.len(), "playlists"@)),
        ComponentEvent::Database => "ComponentEvent::Database"@,
        ComponentEvent::PlaylistMenuUpdated(t, ids) => call("ComponentEvent::PlaylistMenuUpdated"@, t@ + ", "@ + counted(ids@.len(), "songs"@)),
        ComponentEvent::TagMenuUpdated(t, ids) => call("ComponentEvent::TagMenuUpdated"@, t@ + ", "@ + counted(ids@.len(), "songs"@)),
        ComponentEvent::UpdateRootStyleMenu => "ComponentEvent::UpdateRootStyleMenu"@,
        ComponentEvent::StyleMenuUpdated(t, ids) => call("ComponentEvent::StyleMenuUpdated"@, t@ + ", "@ + num(ids@.len())),
        ComponentEvent::LostMpdConnection => "ComponentEvent::LostMpdConnection"@,
        ComponentEvent::Delete => "ComponentEvent::Delete"@,
        ComponentEvent::Draw(x, y, w, h, f) => call(
            "ComponentEvent::Draw"@,
            num(x as nat) + ", "@ + num(y as nat) + ", "@ + num(w as nat) + ", "@ + num(h as nat) + ", "@ + f@,
        ),
        ComponentEvent::Next => "ComponentEvent::Next"@,
        ComponentEvent::OpenTags => "ComponentEvent::OpenTags"@,
        ComponentEvent::Prev => "ComponentEvent::Prev"@,
        ComponentEvent::Select => "ComponentEvent::Select"@,
        ComponentEvent::Start => "ComponentEvent::Start"@,
        ComponentEvent::GoTo(i) => call("ComponentEvent::GoTo"@, num(i as nat)),
        ComponentEvent::GoToTop => "ComponentEvent::GoToTop"@,
        ComponentEvent::GoToBottom => "ComponentEvent::GoToBottom"@,
        ComponentEvent::Search(s) => call("ComponentEvent::Search"@, s@),
        ComponentEvent::SearchPrev(s) => call("ComponentEvent::SearchPrev"@, s@),
    }
}

/// An app event whose text is known here: all but the song now
/// playing, which is written with the song's own debug formatting.
pub open spec fn app_describable(e: AppEvent) -> bool {
    !(e is NowPlaying)
}

/// The text of an app event.
pub open spec fn spec_app_text(e: AppEvent) -> Seq<char> {
    match e {
        AppEvent::Resize => "AppEvent::Resize"@,
        AppEvent::Back => "AppEvent::Back"@,
        AppEvent::TagUI(ids) => call("AppEvent::TagUI"@, counted(ids@.len(), "songs"@)),
        AppEvent::Error(s) => call("AppEvent::Error"@, spec_debug_str(s@)),
        AppEvent::DrawScreen => "AppEvent::DrawScreen"@,
        AppEvent::StyleTreeLoaded(_) => "AppEvent::StyleTreeLoaded"@,
        AppEvent::SwitchScreen(s) => call("AppEvent::SwitchScreen"@, spec_debug_str(s@)),
        AppEvent::Database(songs) => call("AppEvent::Database"@, counted(songs@.len(), "songs"@)),
        AppEvent::LostMpdConnection => "AppEvent::LostMpdConnection"@,
        AppEvent::Quit => "AppEvent::Quit"@,
        AppEvent::ClearScreen => "AppEvent::ClearScreen"@,
        AppEvent::Queue(songs) => call("AppEvent::Queue"@, counted(songs@.len(), "songs"@)),
        AppEvent::NowPlaying(_) => "AppEvent::NowPlaying"@,
    }
}

/// A player event whose text is known here: all but those that carry one
/// song, which is written with the song's own debug formatting.
pub open spec fn mpd_describable(e: MpdEvent) -> bool {
    !(e is Delete) && !(e is PlayAt)
}

/// The text of a player event.
pub open spec fn spec_mpd_text(e: MpdEvent) -> Seq<char> {
    match e {
        MpdEvent::TogglePause => "MpdEvent::TogglePause"@,
        MpdEvent::Update => "MpdEvent::Update"@,
        MpdEvent::ClearQueue => "MpdEvent::ClearQueue"@,
        MpdEvent::AddToQueue(songs) => call("MpdEvent::AddToQueue"@, counted(songs@.len(), "songs"@)),
        MpdEvent::AddStyleToQueue(styles) => call("MpdEvent::AddStyleToQueue"@, counted(styles@.len(), "styles"@)),
        MpdEvent::Repeat => "MpdEvent::Repeat"@,
        MpdEvent::Random => "MpdEvent::Random"@,
        MpdEvent::Single => "MpdEvent::Single"@,
        MpdEvent::Consume => "MpdEvent::Consume"@,
        MpdEvent::Next => "MpdEvent::Next"@,
        MpdEvent::Prev => "MpdEvent::Prev"@,
        MpdEvent::SetVolume(v) => call("MpdEvent::SetVolume"@, spec_signed_decimal(v as int)),
        MpdEvent::Delete(_) => "MpdEvent::Delete"@,
        MpdEvent::PlayAt(_) => "MpdEvent::PlayAt"@,
    }
}

/// The text of a screen event.
pub open spec fn spec_screen_text(e: ScreenEvent) -> Seq<char> {
    match e {
        ScreenEvent::FocusNext => "FocusNext"@,
        ScreenEvent::FocusPrev => "FocusPrev"@,
        ScreenEvent::NeedsRedraw(n) => call("NeedsRedraw"@, spec_debug_str(n@)),
    }
}

/// The text of a key.
pub open spec fn spec_key_text(k: Key) -> Seq<char> {
    match k {
        Key::Backspace => "Backspace"@,
        Key::Left => "Left"@,
        Key::Right => "Right"@,
        Key::Up => "Up"@,
        Key::Down => "Down"@,
        Key::Home => "Home"@,
        Key::End => "End"@,
        Key::PageUp => "PageUp"@,
        Key::PageDown => "PageDown"@,
        Key::BackTab => "BackTab"@,
        Key::Delete => "Delete"@,
        Key::Insert => "Insert"@,
        Key::F(n) => call("F"@, num(n as nat)),
        Key::Char(c) => call("Char"@, spec_debug_char(c)),
        Key::Alt(c) => call("Alt"@, spec_debug_char(c)),
        Key::Ctrl(c) => call("Ctrl"@, spec_debug_char(c)),
        Key::Null => "Null"@,
        Key::Esc => "Esc"@,
        Key::Other => "Other"@,
    }
}

/// The texts of `keys`, separated by ", ".
pub open spec fn spec_keys_text(keys: Seq<Key>) -> Seq<char>
    decreases keys.len(),
{
    if keys.len() == 0 {
        Seq::empty()
    } else if keys.len() == 1 {
        spec_key_text(keys[0])
    } else {
        spec_keys_text(keys.drop_last()) + ", "@ + spec_key_text(keys.last())
    }
}

/// An event, other than a key binding, whose text is known here: the
/// kinds of events that commands send.
pub open spec fn plain_describable(e: Event) -> bool {
    match e {
        Event::ToCommandLine(c) => c is Echo || c is PrevSearch || c is NextSearch,
        Event::ToApp(a) => app_describable(a),
        Event::ToMpd(m) => mpd_describable(m),
        Event::ToComponent(_, _) | Event::ToFocus(_) | Event::ToAllComponents(_) | Event::ToScreen(_) | Event::Dummy => true,
        _ => false,
    }
}

/// An event whose text is known here: a plain one, or a key binding to one.
pub open spec fn describable(e: Event) -> bool {
    match e {
        Event::BindKey(_, b) => plain_describable(crate::event::spec_bindable_to(b)),
        _ => plain_describable(e),
    }
}

/// The text of an event of one of the plain kinds.
pub open spec fn spec_plain_text(e: Event) -> Seq<char> {
    match e {
        Event::ToCommandLine(CommandLineEvent::Echo(s)) => call("ToCommandLine"@, call("Echo"@, spec_debug_str(s@))),
        Event::ToCommandLine(CommandLineEvent::PrevSearch) => call("ToCommandLine"@, "PrevSearch"@),
        Event::ToCommandLine(_) => call("ToCommandLine"@, "NextSearch"@),
        Event::ToApp(a) => call("ToApp"@, spec_app_text(a)),
        Event::ToMpd(m) => call("ToMpd"@, spec_mpd_text(m)),
        Event::ToComponent(n, c) => call("ToComponent"@, spec_debug_str(n@) + ", "@ + spec_component_text(c)),
        Event::ToFocus(c) => call("ToFocus"@, spec_component_text(c)),
        Event::ToAllComponents(c) => call("ToAllComponents"@, spec_component_text(c)),
        Event::ToScreen(s) => call("ToScreen"@, spec_screen_text(s)),
        _ => "Dummy"@,
    }
}

/// The text of an event: a key binding is written with its keys and the
/// text of the event it binds.
pub open spec fn spec_event_text(e: Event) -> Seq<char> {
    match e {
        Event::BindKey(keys, b) => call(
            "BindKey"@,
            "["@ + spec_keys_text(keys@) + "], "@ + spec_plain_text(crate::event::spec_bindable_to(b)),
        ),
        _ => spec_plain_text(e),
    }
}

/// `name(inner)`.
fn wrap(name: &str, inner: &str) -> (r: String)
    ensures
        r@ == call(name@, inner@),
{
    let a = concat(name, "(");
    let b = concat(a.as_str(), inner);
    concat(b.as_str(), ")")
}

/// `n` and a word, as in "3 songs".
fn count(n: usize, what: &str) -> (r: String)
    ensures
        r@ == counted(n as nat, what@),
{
    let d = decimal(n as u64);
    let a = concat(d.as_str(), " ");
    concat(a.as_str(), what)
}

/// `a, b`.
fn pair(a: &str, b: &str) -> (r: String)
    ensures
        r@ == a@ + ", "@ + b@,
{
    let x = concat(a, ", ");
    concat(x.as_str(), b)
}

impl ComponentEvent {
    /// The event's text.
    pub fn describe(&self) -> (r: String)
        ensures
            r@ == spec_component_text(*self),
    {
        let body: String;
        let name: &str;
        match self {
            ComponentEvent::NowPlaying(i) => {
                name = "ComponentEvent::NowPlaying";
                body = match i {
                    Some(n) => wrap("Some", decimal(*n as u64).as_str()),
                    None => "None".to_string(),
                };
            },
            ComponentEvent::ReturnText(s) => {
                name = "ComponentEvent::ReturnText";
                body = debug_str(s.as_str());
            },
            ComponentEvent::Queue(ids) => {
                name = "ComponentEvent::Queue";
                body = count(ids.len(), "ids");
            },
            ComponentEvent::Playlist(pl) => {
                name = "ComponentEvent::Playlist";
                body = count(pl.len(), "playlists");
            },
            ComponentEvent::Database => {
                return "ComponentEvent::Database".to_string();
            },
            ComponentEvent::PlaylistMenuUpdated(t, ids) => {
                name = "ComponentEvent::PlaylistMenuUpdated";
                body = pair(t.as_str(), count(ids.len(), "songs").as_str());
            },
            ComponentEvent::TagMenuUpdated(t, ids) => {
                name = "ComponentEvent::TagMenuUpdated";
                body = pair(t.as_str(), count(ids.len(), "songs").as_str());
            },
            ComponentEvent::UpdateRootStyleMenu => {
                return "ComponentEvent::UpdateRootStyleMenu".to_string();
            },
            ComponentEvent::StyleMenuUpdated(t, ids) => {
                name = "ComponentEvent::StyleMenuUpdated";
                body = pair(t.as_str(), decimal(ids.len() as u64).as_str());
            },
            ComponentEvent::LostMpdConnection => {
                return "ComponentEvent::LostMpdConnection".to_string();
            },
            ComponentEvent::Delete => {
                return "ComponentEvent::Delete".to_string();
            },
            ComponentEvent::Draw(x, y, w, h, f) => {
                name = "ComponentEvent::Draw";
                let a = pair(decimal(*x as u64).as_str(), decimal(*y as u64).as_str());
                let b = pair(a.as_str(), decimal(*w as u64).as_str());
                let c = pair(b.as_str(), decimal(*h as u64).as_str());
                body = pair(c.as_str(), f.as_str());
            },
            ComponentEvent::Next => {
                return "ComponentEvent::Next".to_string();
            },
            ComponentEvent::OpenTags => {
                return "ComponentEvent::OpenTags".to_string();
            },
            ComponentEvent::Prev => {
                return "ComponentEvent::Prev".to_string();
            },
            ComponentEvent::Select => {
                return "ComponentEvent::Select".to_string();
            },
            ComponentEvent::Start => {
                return "ComponentEvent::Start".to_string();
            },
            ComponentEvent::GoTo(i) => {
                name = "ComponentEvent::GoTo";
                body = decimal(*i as u64);
            },
            ComponentEvent::GoToTop => {
                return "ComponentEvent::GoToTop".to_string();
            },
            ComponentEvent::GoToBottom => {
                return "ComponentEvent::GoToBottom".to_string();
            },
            ComponentEvent::Search(s) => {
                name = "ComponentEvent::Search";
                body = s.clone();
            },
            ComponentEvent::SearchPrev(s) => {
                name = "ComponentEvent::SearchPrev";
                body = s.clone();
            },
        }
        wrap(name, body.as_str())
    }
}

impl AppEvent {
    /// The event's text; the song now playing is not written here.
    pub fn describe(&self) -> (r: String)
        requires
            app_describable(*self),
        ensures
            r@ == spec_app_text(*self),
    {
        match self {
            AppEvent::Resize => "AppEvent::Resize".to_string(),
            AppEvent::Back => "AppEvent::Back".to_string(),
            AppEvent::TagUI(ids) => wrap("AppEvent::TagUI", count(ids.len(), "songs").as_str()),
            AppEvent::Error(s) => wrap("AppEvent::Error", debug_str(s.as_str()).as_str()),
            AppEvent::DrawScreen => "AppEvent::DrawScreen".to_string(),
            AppEvent::StyleTreeLoaded(_) => "AppEvent::StyleTreeLoaded".to_string(),
            AppEvent::SwitchScreen(s) => wrap("AppEvent::SwitchScreen", debug_str(s.as_str()).as_str()),
            AppEvent::Database(songs) => wrap("AppEvent::Database", count(songs.len(), "songs").as_str()),
            AppEvent::LostMpdConnection => "AppEvent::LostMpdConnection".to_string(),
            AppEvent::Quit => "AppEvent::Quit".to_string(),
            AppEvent::ClearScreen => "AppEvent::ClearScreen".to_string(),
            AppEvent::Queue(songs) => wrap("AppEvent::Queue", count(songs.len(), "songs").as_str()),
            AppEvent::NowPlaying(_) => "AppEvent::NowPlaying".to_string(),
        }
    }
}

impl MpdEvent {
    /// The event's text; events that carry one song are not written here.
    pub fn describe(&self) -> (r: String)
        requires
            mpd_describable(*self),
        ensures
            r@ == spec_mpd_text(*self),
    {
        match self {
            MpdEvent::TogglePause => "MpdEvent::TogglePause".to_string(),
            MpdEvent::Update => "MpdEvent::Update".to_string(),
            MpdEvent::ClearQueue => "MpdEvent::ClearQueue".to_string(),
            MpdEvent::AddToQueue(songs) => wrap("MpdEvent::AddToQueue", count(songs.len(), "songs").as_str()),
            MpdEvent::AddStyleToQueue(styles) => wrap("MpdEvent::AddStyleToQueue", count(styles.len(), "styles").as_str()),
            MpdEvent::Repeat => "MpdEvent::Repeat".to_string(),
            MpdEvent::Random => "MpdEvent::Random".to_string(),
            MpdEvent::Single => "MpdEvent::Single".to_string(),
            MpdEvent::Consume => "MpdEvent::Consume".to_string(),
            MpdEvent::Next => "MpdEvent::Next".to_string(),
            MpdEvent::Prev => "MpdEvent::Prev".to_string(),
            MpdEvent::SetVolume(v) => wrap("MpdEvent::SetVolume", signed_decimal(*v).as_str()),
            MpdEvent::Delete(_) => "MpdEvent::Delete".to_string(),
            MpdEvent::PlayAt(_) => "MpdEvent::PlayAt".to_string(),
        }
    }
}

impl ScreenEvent {
    /// The event's text.
    pub fn describe(&self) -> (r: String)
        ensures
            r@ == spec_screen_text(*self),
    {
        match self {
            ScreenEvent::FocusNext => "FocusNext".to_string(),
            ScreenEvent::FocusPrev => "FocusPrev".to_string(),
            ScreenEvent::NeedsRedraw(n) => wrap("NeedsRedraw", debug_str(n.as_str()).as_str()),
        }
    }
}

impl Key {
    /// The key's text.
    pub fn describe(&self) -> (r: String)
        ensures
            r@ == spec_key_text(*self),
    {
        match self {
            Key::Backspace => "Backspace".to_string(),
            Key::Left => "Left".to_string(),
            Key::Right => "Right".to_string(),
            Key::Up => "Up".to_string(),
            Key::Down => "Down".to_string(),
            Key::Home => "Home".to_string(),
            Key::End => "End".to_string(),
            Key::PageUp => "PageUp".to_string(),
            Key::PageDown => "PageDown".to_string(),
            Key::BackTab => "BackTab".to_string(),
            Key::Delete => "Delete".to_string(),
            Key::Insert => "Insert".to_string(),
            Key::F(n) => wrap("F", decimal(*n as u64).as_str()),
            Key::Char(c) => wrap("Char", debug_char(*c).as_str()),
            Key::Alt(c) => wrap("Alt", debug_char(*c).as_str()),
            Key::Ctrl(c) => wrap("Ctrl", debug_char(*c).as_str()),
            Key::Null => "Null".to_string(),
            Key::Esc => "Esc".to_string(),
            Key::Other => "Other".to_string(),
        }
    }
}

/// The texts of `keys`, separated by ", ".
fn keys_text(keys: &Vec<Key>) -> (r: String)
    ensures
        r@ == spec_keys_text(keys@),
{
    let mut r = String::new();
    let mut i: usize = 0;
    while i < keys.len()
        invariant
            i <= keys@.len(),
            r@ == spec_keys_text(keys@.subrange(0, i as int)),
        decreases keys@.len() - i,
    {
        assert(keys@.subrange(0, i + 1).drop_last() =~= keys@.subrange(0, i as int));
        let k = keys[i].describe();
        if i == 0 {
            r = k;
        } else {
            r = pair(r.as_str(), k.as_str());
        }
        i = i + 1;
    }
    assert(keys@.subrange(0, i as int) =~= keys@);
    r
}

/// The text of an event of one of the plain kinds.
fn plain_text(e: &Event) -> (r: String)
    requires
        plain_describable(*e),
    ensures
        r@ == spec_plain_text(*e),
{
    match e {
        Event::ToCommandLine(CommandLineEvent::Echo(s)) => wrap(
            "ToCommandLine",
            wrap("Echo", debug_str(s.as_str()).as_str()).as_str(),
        ),
        Event::ToCommandLine(CommandLineEvent::PrevSearch) => wrap("ToCommandLine", "PrevSearch"),
        Event::ToCommandLine(_) => wrap("ToCommandLine", "NextSearch"),
        Event::ToApp(a) => wrap("ToApp", a.describe().as_str()),
        Event::ToMpd(m) => wrap("ToMpd", m.describe().as_str()),
        Event::ToComponent(n, c) => wrap("ToComponent", pair(debug_str(n.as_str()).as_str(), c.describe().as_str()).as_str()),
        Event::ToFocus(c) => wrap("ToFocus", c.describe().as_str()),
        Event::ToAllComponents(c) => wrap("ToAllComponents", c.describe().as_str()),
        Event::ToScreen(s) => wrap("ToScreen", s.describe().as_str()),
        _ => "Dummy".to_string(),
    }
}

/// The text of the event a binding sends.
fn bindable_text(b: &BindableEvent) -> (r: String)
    requires
        plain_describable(crate::event::spec_bindable_to(*b)),
    ensures
        r@ == spec_plain_text(crate::event::spec_bindable_to(*b)),
{
    match b {
        BindableEvent::ToCommandLine(CommandLineEvent::Echo(s)) => wrap(
            "ToCommandLine",
            wrap("Echo", debug_str(s.as_str()).as_str()).as_str(),
        ),
        BindableEvent::ToCommandLine(CommandLineEvent::PrevSearch) => wrap("ToCommandLine", "PrevSearch"),
        BindableEvent::ToCommandLine(_) => wrap("ToCommandLine", "NextSearch"),
        BindableEvent::ToApp(a) => wrap("ToApp", a.describe().as_str()),
        BindableEvent::ToMpd(m) => wrap("ToMpd", m.describe().as_str()),
        BindableEvent::ToComponent(n, c) => wrap(
            "ToComponent",
            pair(debug_str(n.as_str()).as_str(), c.describe().as_str()).as_str(),
        ),
        BindableEvent::ToFocus(c) => wrap("ToFocus", c.describe().as_str()),
        BindableEvent::ToAllComponents(c) => wrap("ToAllComponents", c.describe().as_str()),
        BindableEvent::ToScreen(s) => wrap("ToScreen", s.describe().as_str()),
        _ => "Dummy".to_string(),
    }
}

impl Event {
    /// The event's text, as the command line echoes it after running a
    /// command; defined for the kinds of events that commands send.
    pub fn describe(&self) -> (r: String)
        requires
            describable(*self),
        ensures
            r@ == spec_event_text(*self),
    {
        match self {
            Event::BindKey(keys, b) => {
                let k = keys_text(keys);
                let a = concat("[", k.as_str());
                let c = concat(a.as_str(), "], ");
                let d = concat(c.as_str(), bindable_text(b).as_str());
                wrap("BindKey", d.as_str())
            },
            _ => plain_text(self),
        }
    }
}

/// Every event that a command sends has a text here.
pub proof fn lemma_command_describable(e: Event, c: Command)
    requires
        spec_event_is(e, c),
    ensures
        describable(e),
    decreases c,
{
    match c {
        Command::Bind(keys, inner) => {
            match e {
                Event::BindKey(k, b) => {
                    lemma_command_describable(crate::event::spec_bindable_to(b), *inner);
                },
                _ => {},
            }
        },
        _ => {},
    }
}

} // verus!
