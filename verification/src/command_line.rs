//! The command line at the bottom of the screen: key bindings, typed
//! commands and searches, questions, text requested by components, and
//! the player's status.
use vstd::prelude::*;
use vstd::string::StringSliceAdditionalSpecFns;

use crate::color::Color;
use crate::paint::{paints_view, Paint, PaintView};
use crate::command::{needs_height, parse_line, spec_event_is, spec_needs_height, spec_parse, spec_result_is, Command};
use crate::event::{
    same_event, spec_confirmable_to, CommandLineEvent, ComponentEvent, ConfirmableEvent, Event, MpdEvent,
};
use crate::keys::Key;
use crate::text::{
    concat, decimal, push_char, signed_decimal, spec_decimal, spec_signed_decimal, spec_split, string_of_range,
    chars_of,
};
use crate::track::{opt_view, MpdStatus};

verus! {

/// What the command line is doing.
#[derive(Debug)]
pub enum Mode {
    /// Waiting for key bindings; shows `text`; `keys` were typed so far.
    TUI { text: String, keys: Vec<Key> },
    /// Reading a command after ':'.
    Command { text: String },
    /// Reading a search after '/'.
    Search { text: String },
    /// Reading text that a component asked for.
    GetText { prompt: String, text: String },
    /// Asking yes or no.
    Confirm {
        prompt: String,
        on_yes: Option<ConfirmableEvent>,
        on_no: Option<ConfirmableEvent>,
        is_default_yes: bool,
    },
}

/// `m` waits for key bindings, shows `text` and holds the keys `keys`.
pub open spec fn is_tui(m: Mode, text: Seq<char>, keys: Seq<Key>) -> bool {
    m matches Mode::TUI { text: t, keys: k } && t@ == text && k@ == keys
}

/// `m` reads the same kind of text as `like` (a command or a search) and
/// holds `t`.
pub open spec fn typing_with(m: Mode, like: Mode, t: Seq<char>) -> bool {
    match like {
        Mode::Search { .. } => m matches Mode::Search { text } && text@ == t,
        Mode::Command { .. } => m matches Mode::Command { text } && text@ == t,
        _ => false,
    }
}

/// Two key sequences agree on every position that both have.
pub open spec fn prefix_agree(a: Seq<Key>, b: Seq<Key>) -> bool {
    forall|i: int| 0 <= i < a.len() && i < b.len() ==> a[i] == b[i]
}

/// The key sequences of the bindings, in order.
pub open spec fn binds_keys(b: Seq<(Vec<Key>, Event)>) -> Seq<Seq<Key>> {
    b.map_values(|p: (Vec<Key>, Event)| p.0@)
}

/// The text after a backspace: the last character removed, if any.
pub open spec fn spec_backspace(t: Seq<char>) -> Seq<char> {
    if t.len() > 0 { t.drop_last() } else { t }
}

/// The status line for a player status: the flags repeat, random, single
/// and consume ('-' when off), then the volume.
pub open spec fn spec_statusline(st: MpdStatus) -> Seq<char> {
    seq!['['] + seq![if st.repeat { 'r' } else { '-' }] + seq![if st.random { 'z' } else { '-' }] + seq![
        if st.single { 's' } else { '-' }
    ] + seq![if st.consume { 'c' } else { '-' }] + "] Vol: "@ + spec_signed_decimal(st.volume as int) + "%"@
}

/// The volume after moving by `amount`, kept within 0 to 100.
pub open spec fn spec_volume(volume: i8, amount: i8) -> i8 {
    let v = volume + amount;
    if v < 0 {
        0
    } else if v > 100 {
        100
    } else {
        v as i8
    }
}

/// A text with one more character.
fn pushed(t: &String, c: char) -> (r: String)
    ensures
        r@ == t@.push(c),
{
    let mut r = t.clone();
    push_char(&mut r, c);
    r
}

/// A text without its last character, if any.
fn backspaced(t: &String) -> (r: String)
    ensures
        r@ == spec_backspace(t@),
{
    let v = chars_of(t.as_str());
    if v.len() == 0 {
        t.clone()
    } else {
        string_of_range(v.as_slice(), 0, v.len() - 1)
    }
}

/// Whether two key sequences agree on every position both have.
fn agree(a: &Vec<Key>, b: &Vec<Key>) -> (r: bool)
    ensures
        r == prefix_agree(a@, b@),
{
    let mut i: usize = 0;
    while i < a.len() && i < b.len()
        invariant
            i <= a@.len(),
            forall|j: int| 0 <= j < i && j < b@.len() ==> a@[j] == b@[j],
        decreases a@.len() - i,
    {
        if a[i] != b[i] {
            return false;
        }
        i = i + 1;
    }
    true
}

/// Whether two key sequences are equal.
fn keys_eq(a: &Vec<Key>, b: &Vec<Key>) -> (r: bool)
    ensures
        r == (a@ == b@),
{
    if a.len() != b.len() {
        return false;
    }
    let r = agree(a, b);
    if r {
        assert(a@ =~= b@);
    }
    r
}

/// The command line.
pub struct CommandLine {
    pub mode: Mode,
    /// The player's status, shown at the right.
    pub statusline: String,
    /// Key sequences and the events they send; no sequence occurs twice.
    pub keybinds: Vec<(Vec<Key>, Event)>,
    pub color: Color,
    /// The last text searched for.
    pub last_search: Option<String>,
    /// The player's volume, -1 when unknown.
    pub volume: i8,
}

impl CommandLine {
    /// Key bindings are unique.
    pub open spec fn wf(&self) -> bool {
        binds_keys(self.keybinds@).no_duplicates()
    }

    /// Everything but the mode is as in `other`.
    pub open spec fn same_but_mode(&self, other: CommandLine) -> bool {
        &&& self.statusline == other.statusline
        &&& self.keybinds == other.keybinds
        &&& self.color == other.color
        &&& self.last_search == other.last_search
        &&& self.volume == other.volume
    }

    /// Waiting for keys, nothing typed, no bindings, the default color, no
    /// search yet and an unknown volume.
    pub fn new() -> (c: CommandLine)
        ensures
            c.wf(),
            is_tui(c.mode, Seq::empty(), Seq::empty()),
            c.statusline@ == "[----] Vol: %"@,
            c.keybinds@.len() == 0,
            c.color == Color::Reset,
            c.last_search is None,
            c.volume == -1,
    {
        let c = CommandLine {
            mode: Mode::TUI { text: String::new(), keys: Vec::new() },
            statusline: "[----] Vol: %".to_string(),
            keybinds: Vec::new(),
            color: Color::Reset,
            last_search: None,
            volume: -1,
        };
        assert(binds_keys(c.keybinds@) =~= Seq::<Seq<Key>>::empty());
        c
    }

    pub fn set_color(&mut self, color: Color)
        ensures
            final(self).color == color,
            final(self).mode == old(self).mode,
            final(self).statusline == old(self).statusline,
            final(self).keybinds == old(self).keybinds,
            final(self).last_search == old(self).last_search,
            final(self).volume == old(self).volume,
    {
        self.color = color;
    }

    /// Shows `new_text` while waiting for keys; does nothing otherwise.
    pub fn echo(&mut self, new_text: String)
        ensures
            final(self).same_but_mode(*old(self)),
            match old(self).mode {
                Mode::TUI { text, keys } => is_tui(final(self).mode, new_text@, keys@),
                _ => final(self).mode == old(self).mode,
            },
    {
        let mut m = Mode::TUI { text: String::new(), keys: Vec::new() };
        std::mem::swap(&mut m, &mut self.mode);
        self.mode = match m {
            Mode::TUI { text: _, keys } => Mode::TUI { text: new_text, keys },
            other => other,
        };
    }

    /// Waits for keys again, with nothing typed.
    pub fn tui_mode(&mut self)
        ensures
            final(self).same_but_mode(*old(self)),
            is_tui(final(self).mode, Seq::empty(), Seq::empty()),
    {
        self.mode = Mode::TUI { text: String::new(), keys: Vec::new() };
    }

    /// Reads a command.
    pub fn command_mode(&mut self)
        ensures
            final(self).same_but_mode(*old(self)),
            final(self).mode matches Mode::Command { text } && text@.len() == 0,
    {
        self.mode = Mode::Command { text: String::new() };
    }

    /// Reads a search.
    pub fn search_mode(&mut self)
        ensures
            final(self).same_but_mode(*old(self)),
            final(self).mode matches Mode::Search { text } && text@.len() == 0,
    {
        self.mode = Mode::Search { text: String::new() };
    }

    /// Reads text for a component, starting from `placeholder` if given.
    pub fn get_text_mode(&mut self, prompt: String, placeholder: Option<String>)
        ensures
            final(self).same_but_mode(*old(self)),
            final(self).mode matches Mode::GetText { prompt: p, text } && p == prompt && text@ == match opt_view(
                placeholder,
            ) {
                Some(t) => t,
                None => Seq::<char>::empty(),
            },
    {
        let text = match placeholder {
            Some(t) => t,
            None => String::new(),
        };
        self.mode = Mode::GetText { prompt, text };
    }

    /// Asks yes or no.
    pub fn confirm_mode(
        &mut self,
        prompt: String,
        on_yes: Option<ConfirmableEvent>,
        on_no: Option<ConfirmableEvent>,
        is_default_yes: bool,
    )
        ensures
            final(self).same_but_mode(*old(self)),
            final(self).mode == (Mode::Confirm { prompt, on_yes, on_no, is_default_yes }),
    {
        self.mode = Mode::Confirm { prompt, on_yes, on_no, is_default_yes };
    }

    /// Searches forward again for the last search, if any.
    pub fn next_search(&self) -> (out: Vec<Event>)
        ensures
            match self.last_search {
                Some(s) => out@.len() == 1 && out@[0] == Event::ToFocus(ComponentEvent::Search(s)),
                None => out@.len() == 0,
            },
    {
        let mut out: Vec<Event> = Vec::new();
        match &self.last_search {
            Some(s) => out.push(Event::ToFocus(ComponentEvent::Search(s.clone()))),
            None => {},
        }
        out
    }

    /// Searches backward for the last search, if any.
    pub fn prev_search(&self) -> (out: Vec<Event>)
        ensures
            match self.last_search {
                Some(s) => out@.len() == 1 && out@[0] == Event::ToFocus(ComponentEvent::SearchPrev(s)),
                None => out@.len() == 0,
            },
    {
        let mut out: Vec<Event> = Vec::new();
        match &self.last_search {
            Some(s) => out.push(Event::ToFocus(ComponentEvent::SearchPrev(s.clone()))),
            None => {},
        }
        out
    }

    /// Asks the player to move the volume by `amount`, kept within 0 to
    /// 100. The sum must fit in an `i8`.
    pub fn vol_mv(&self, amount: i8) -> (out: Vec<Event>)
        requires
            i8::MIN <= self.volume + amount <= i8::MAX,
        ensures
            out@.len() == 1,
            out@[0] == Event::ToMpd(MpdEvent::SetVolume(spec_volume(self.volume, amount))),
    {
        let v = self.volume + amount;
        let new_vol: i8 = if v < 0 {
            0
        } else if v > 100 {
            100
        } else {
            v
        };
        let mut out: Vec<Event> = Vec::new();
        out.push(Event::ToMpd(MpdEvent::SetVolume(new_vol)));
        out
    }

    /// The index of the binding of `keys`, if any.
    fn find_bind(&self, keys: &Vec<Key>) -> (r: Option<usize>)
        ensures
            match r {
                Some(i) => i < self.keybinds@.len() && self.keybinds@[i as int].0@ == keys@,
                None => !binds_keys(self.keybinds@).contains(keys@),
            },
    {
        let mut i: usize = 0;
        while i < self.keybinds.len()
            invariant
                i <= self.keybinds@.len(),
                forall|j: int| 0 <= j < i ==> self.keybinds@[j].0@ != keys@,
            decreases self.keybinds@.len() - i,
        {
            if keys_eq(&self.keybinds[i].0, keys) {
                return Some(i);
            }
            i = i + 1;
        }
        assert(!binds_keys(self.keybinds@).contains(keys@)) by {
            if binds_keys(self.keybinds@).contains(keys@) {
                let j = choose|j: int| 0 <= j < binds_keys(self.keybinds@).len() && binds_keys(self.keybinds@)[j] == keys@;
                assert(self.keybinds@[j].0@ == keys@);
            }
        }
        None
    }

    /// Whether some binding agrees with `keys` on every position both have.
    fn has_match(&self, keys: &Vec<Key>) -> (r: bool)
        ensures
            r == exists|j: int| 0 <= j < self.keybinds@.len() && prefix_agree(keys@, (#[trigger] self.keybinds@[j]).0@),
    {
        let mut i: usize = 0;
        while i < self.keybinds.len()
            invariant
                i <= self.keybinds@.len(),
                forall|j: int| 0 <= j < i ==> !prefix_agree(keys@, (#[trigger] self.keybinds@[j]).0@),
            decreases self.keybinds@.len() - i,
        {
            if agree(keys, &self.keybinds[i].0) {
                assert(prefix_agree(keys@, self.keybinds@[i as int].0@));
                return true;
            }
            i = i + 1;
        }
        false
    }

    /// `new` is this command line with `keys` bound to `e`: the binding
    /// replaces one of the same keys, or comes last; the rest stays.
    pub open spec fn bound(self, new: CommandLine, keys: Seq<Key>, e: Event) -> bool {
        &&& new.wf()
        &&& new.mode == self.mode
        &&& new.statusline == self.statusline
        &&& new.color == self.color
        &&& new.last_search == self.last_search
        &&& new.volume == self.volume
        &&& binds_keys(self.keybinds@).contains(keys) ==> binds_keys(new.keybinds@) == binds_keys(self.keybinds@)
        &&& !binds_keys(self.keybinds@).contains(keys) ==> binds_keys(new.keybinds@) == binds_keys(self.keybinds@).push(keys)
        &&& forall|i: int| 0 <= i < new.keybinds@.len() ==> (#[trigger] new.keybinds@[i]).0@ == keys ==> new.keybinds@[i].1 == e
        &&& forall|i: int| 0 <= i < new.keybinds@.len() ==> (#[trigger] new.keybinds@[i]).0@ != keys ==> new.keybinds@[i]
            == self.keybinds@[i]
    }

    /// Binds `keys` to `e`, replacing an earlier binding of the same keys.
    pub fn bind(&mut self, keys: Vec<Key>, e: Event)
        requires
            old(self).wf(),
        ensures
            old(self).bound(*final(self), keys@, e),
    {
        let ghost old_binds = self.keybinds@;
        let ghost k = keys@;
        match self.find_bind(&keys) {
            Some(i) => {
                assert(binds_keys(old_binds)[i as int] == k);
                self.keybinds.set(i, (keys, e));
                assert(binds_keys(self.keybinds@) =~= binds_keys(old_binds));
                assert forall|j: int| 0 <= j < self.keybinds@.len() && j != i implies (#[trigger] self.keybinds@[j]).0@ != k by {
                    assert(binds_keys(old_binds)[j] != binds_keys(old_binds)[i as int]);
                }
            },
            None => {
                self.keybinds.push((keys, e));
                assert(binds_keys(self.keybinds@) =~= binds_keys(old_binds).push(k));
                assert forall|j: int| 0 <= j < old_binds.len() implies (#[trigger] old_binds[j]).0@ != k by {
                    assert(binds_keys(old_binds)[j] == old_binds[j].0@);
                }
            },
        }
    }

    /// What running the typed text does: a command is read and sent (an
    /// `echo` is shown instead), a search is remembered and sent to the
    /// focused component, requested text is returned to it; the command
    /// line then waits for keys again.
    pub open spec fn spec_ran(self, new: CommandLine, size: (u16, u16), out: Seq<Event>) -> bool {
        &&& new.statusline == self.statusline
        &&& new.keybinds == self.keybinds
        &&& new.color == self.color
        &&& new.volume == self.volume
        &&& match self.mode {
            Mode::Command { text } => {
                &&& new.last_search == self.last_search
                &&& match spec_parse(spec_split(text@, ' '), size) {
                    Some(Command::Echo(s)) => is_tui(new.mode, s, Seq::empty()) && out.len() == 0,
                    Some(c) => {
                        &&& is_tui(new.mode, Seq::empty(), Seq::empty())
                        &&& out.len() == 2
                        &&& spec_event_is(out[0], c)
                        &&& out[1] matches Event::ToCommandLine(CommandLineEvent::Echo(t)) && t@ == "Ran: "@
                            + crate::describe::spec_event_text(out[0])
                    },
                    None => {
                        &&& is_tui(new.mode, Seq::empty(), Seq::empty())
                        &&& out.len() == 1
                        &&& out[0] matches Event::ToCommandLine(CommandLineEvent::Echo(t)) && t@ == "Invalid Command '"@
                            + text@ + "'"@
                    },
                }
            },
            Mode::Search { text } => {
                &&& new.last_search == Some(text)
                &&& is_tui(new.mode, Seq::empty(), Seq::empty())
                &&& out == seq![Event::ToFocus(ComponentEvent::Search(text))]
            },
            Mode::GetText { prompt, text } => {
                &&& new.last_search == self.last_search
                &&& is_tui(new.mode, Seq::empty(), Seq::empty())
                &&& out == seq![Event::ToFocus(ComponentEvent::ReturnText(text))]
            },
            _ => false,
        }
    }

    /// Runs what was typed. There is something to run only while reading a
    /// command, a search or requested text.
    pub fn run(&mut self, size: (u16, u16)) -> (out: Vec<Event>)
        requires
            old(self).mode is Command || old(self).mode is Search || old(self).mode is GetText,
            old(self).mode matches Mode::Command { text } ==> (spec_needs_height(spec_split(text@, ' ')) ==> size.1 >= 1),
        ensures
            old(self).spec_ran(*final(self), size, out@),
    {
        let mut m = Mode::TUI { text: String::new(), keys: Vec::new() };
        std::mem::swap(&mut m, &mut self.mode);
        let mut out: Vec<Event> = Vec::new();
        match m {
            Mode::Command { text } => {
                match parse_line(text.as_str(), size) {
                    Some(e) => match e {
                        Event::ToCommandLine(CommandLineEvent::Echo(s)) => {
                            self.echo(s);
                        },
                        e => {
                            proof {
                                crate::describe::lemma_command_describable(e, spec_parse(spec_split(text@, ' '), size)->0);
                            }
                            let d = e.describe();
                            let t = concat("Ran: ", d.as_str());
                            out.push(e);
                            out.push(Event::ToCommandLine(CommandLineEvent::Echo(t)));
                        },
                    },
                    None => {
                        let a = concat("Invalid Command '", text.as_str());
                        let t = concat(a.as_str(), "'");
                        out.push(Event::ToCommandLine(CommandLineEvent::Echo(t)));
                    },
                }
            },
            Mode::Search { text } => {
                self.last_search = Some(text.clone());
                out.push(Event::ToFocus(ComponentEvent::Search(text)));
            },
            Mode::GetText { prompt: _, text } => {
                out.push(Event::ToFocus(ComponentEvent::ReturnText(text)));
            },
            _ => {},
        }
        proof {
            if out@.len() == 1 {
                assert(out@ =~= seq![out@[0]]);
            }
        }
        out
    }

    /// What a key press while waiting for keys does: ':' starts a command,
    /// '/' a search, escape forgets the keys typed; another key is added to
    /// them, and when they make up a binding its event is sent and they are
    /// forgotten, when no binding starts with them they are forgotten too.
    pub open spec fn spec_tui_key(self, keys: Seq<Key>, key: Key, new: CommandLine, out: Seq<Event>) -> bool {
        &&& new.same_but_mode(self)
        &&& match key {
            Key::Char(':') => new.mode matches Mode::Command { text } && text@.len() == 0 && out.len() == 0,
            Key::Char('/') => new.mode matches Mode::Search { text } && text@.len() == 0 && out.len() == 0,
            Key::Esc => is_tui(new.mode, Seq::empty(), Seq::empty()) && out.len() == 0,
            _ => {
                let ks = keys.push(key);
                if binds_keys(self.keybinds@).contains(ks) {
                    &&& is_tui(new.mode, Seq::empty(), Seq::empty())
                    &&& out.len() == 1
                    &&& exists|j: int| 0 <= j < self.keybinds@.len() && (#[trigger] self.keybinds@[j]).0@ == ks
                        && same_event(self.keybinds@[j].1, out[0])
                } else if exists|j: int| 0 <= j < self.keybinds@.len() && prefix_agree(ks, (#[trigger] self.keybinds@[j]).0@) {
                    is_tui(new.mode, Seq::empty(), ks) && out.len() == 0
                } else {
                    is_tui(new.mode, Seq::empty(), Seq::empty()) && out.len() == 0
                }
            },
        }
    }

    /// What a key press while asking yes or no does: return takes the
    /// default answer, 'y' or 'n' the one typed, escape none; the event of
    /// the answer, if there is one, is sent, and the command line waits for
    /// keys again. Other keys do nothing.
    pub open spec fn spec_confirm_key(
        self,
        on_yes: Option<ConfirmableEvent>,
        on_no: Option<ConfirmableEvent>,
        is_default_yes: bool,
        key: Key,
        new: CommandLine,
        out: Seq<Event>,
    ) -> bool {
        let answer = if key == Key::Char('\n') {
            if on_yes is Some && is_default_yes {
                on_yes
            } else if on_no is Some && !is_default_yes {
                on_no
            } else {
                None
            }
        } else if key == Key::Char('y') || key == Key::Char('Y') {
            on_yes
        } else if key == Key::Char('n') || key == Key::Char('N') {
            on_no
        } else {
            None
        };
        &&& new.same_but_mode(self)
        &&& if key == Key::Char('\n') || key == Key::Esc || key == Key::Char('y') || key == Key::Char('Y') || key
            == Key::Char('n') || key == Key::Char('N') {
            &&& is_tui(new.mode, Seq::empty(), Seq::empty())
            &&& match answer {
                Some(a) => out == seq![spec_confirmable_to(a)],
                None => out.len() == 0,
            }
        } else {
            new.mode == self.mode && out.len() == 0
        }
    }

    /// What a key press does, in each mode.
    pub open spec fn spec_input(self, key: Key, size: (u16, u16), new: CommandLine, out: Seq<Event>) -> bool {
        match self.mode {
            Mode::TUI { text, keys } => self.spec_tui_key(keys@, key, new, out),
            Mode::GetText { prompt, text } => match key {
                Key::Char('\n') => self.spec_ran(new, size, out),
                Key::Esc => new.same_but_mode(self) && is_tui(new.mode, Seq::empty(), Seq::empty())
                    && out.len() == 0,
                Key::Backspace => new.same_but_mode(self) && out.len() == 0 && (new.mode matches Mode::GetText { prompt: p, text: t } && p == prompt && t@ == spec_backspace(text@)),
                Key::Char(c) => new.same_but_mode(self) && out.len() == 0 && (new.mode matches Mode::GetText { prompt: p, text: t } && p == prompt && t@ == text@.push(c)),
                _ => new == self && out.len() == 0,
            },
            Mode::Search { text } | Mode::Command { text } => match key {
                Key::Char('\n') => self.spec_ran(new, size, out),
                Key::Esc => new.same_but_mode(self) && is_tui(new.mode, Seq::empty(), Seq::empty())
                    && out.len() == 0,
                Key::Backspace => new.same_but_mode(self) && out.len() == 0 && if text@.len() == 0 {
                    is_tui(new.mode, Seq::empty(), Seq::empty())
                } else {
                    typing_with(new.mode, self.mode, text@.drop_last())
                },
                Key::Char(c) => new.same_but_mode(self) && out.len() == 0 && typing_with(
                    new.mode,
                    self.mode,
                    text@.push(c),
                ),
                _ => new == self && out.len() == 0,
            },
            Mode::Confirm { prompt, on_yes, on_no, is_default_yes } => self.spec_confirm_key(
                on_yes,
                on_no,
                is_default_yes,
                key,
                new,
                out,
            ),
        }
    }

    /// Reacts to a key press; `size` is the terminal's width and height,
    /// which a typed `draw` command reads.
    pub fn input(&mut self, key: &Key, size: (u16, u16)) -> (out: Vec<Event>)
        requires
            old(self).wf(),
            *key == Key::Char('\n') ==> (old(self).mode matches Mode::Command { text } ==> (spec_needs_height(
                spec_split(text@, ' '),
            ) ==> size.1 >= 1)),
        ensures
            final(self).wf(),
            old(self).spec_input(*key, size, *final(self), out@),
    {
        let mut m = Mode::TUI { text: String::new(), keys: Vec::new() };
        std::mem::swap(&mut m, &mut self.mode);
        let mut out: Vec<Event> = Vec::new();
        match m {
            Mode::TUI { text: _, mut keys } => match *key {
                Key::Char(':') => {
                    self.mode = Mode::Command { text: String::new() };
                },
                Key::Char('/') => {
                    self.mode = Mode::Search { text: String::new() };
                },
                Key::Esc => {},
                k => {
                    keys.push(k);
                    match self.find_bind(&keys) {
                        Some(i) => {
                            let e = self.keybinds[i].1.copy();
                            out.push(e);
                            assert(binds_keys(self.keybinds@)[i as int] == keys@);
                        },
                        None => {
                            if self.has_match(&keys) {
                                self.mode = Mode::TUI { text: String::new(), keys };
                            }
                        },
                    }
                },
            },
            Mode::GetText { prompt, text } => match *key {
                Key::Char('\n') => {
                    self.mode = Mode::GetText { prompt, text };
                    out = self.run(size);
                },
                Key::Esc => {},
                Key::Backspace => {
                    self.mode = Mode::GetText { prompt, text: backspaced(&text) };
                },
                Key::Char(c) => {
                    self.mode = Mode::GetText { prompt, text: pushed(&text, c) };
                },
                _ => {
                    self.mode = Mode::GetText { prompt, text };
                },
            },
            Mode::Search { text } => match *key {
                Key::Char('\n') => {
                    self.mode = Mode::Search { text };
                    out = self.run(size);
                },
                Key::Esc => {},
                Key::Backspace => {
                    if text.as_str().is_empty() {
                    } else {
                        self.mode = Mode::Search { text: backspaced(&text) };
                    }
                },
                Key::Char(c) => {
                    self.mode = Mode::Search { text: pushed(&text, c) };
                },
                _ => {
                    self.mode = Mode::Search { text };
                },
            },
            Mode::Command { text } => match *key {
                Key::Char('\n') => {
                    self.mode = Mode::Command { text };
                    out = self.run(size);
                },
                Key::Esc => {},
                Key::Backspace => {
                    if text.as_str().is_empty() {
                    } else {
                        self.mode = Mode::Command { text: backspaced(&text) };
                    }
                },
                Key::Char(c) => {
                    self.mode = Mode::Command { text: pushed(&text, c) };
                },
                _ => {
                    self.mode = Mode::Command { text };
                },
            },
            Mode::Confirm { prompt, on_yes, on_no, is_default_yes } => {
                if *key == Key::Char('\n') {
                    if on_yes.is_some() && is_default_yes {
                        out.push(on_yes.unwrap().to_event());
                    } else if on_no.is_some() && !is_default_yes {
                        out.push(on_no.unwrap().to_event());
                    }
                } else if *key == Key::Esc {
                } else if *key == Key::Char('y') || *key == Key::Char('Y') {
                    match on_yes {
                        Some(a) => out.push(a.to_event()),
                        None => {},
                    }
                } else if *key == Key::Char('n') || *key == Key::Char('N') {
                    match on_no {
                        Some(a) => out.push(a.to_event()),
                        None => {},
                    }
                } else {
                    self.mode = Mode::Confirm { prompt, on_yes, on_no, is_default_yes };
                }
                proof {
                    if out@.len() == 1 {
                        assert(out@ =~= seq![out@[0]]);
                    }
                }
            },
        }
        out
    }

    /// `new` is this command line showing `t`, when waiting for keys.
    pub open spec fn echoed(self, new: CommandLine, t: Seq<char>) -> bool {
        &&& new.same_but_mode(self)
        &&& match self.mode {
            Mode::TUI { text, keys } => is_tui(new.mode, t, keys@),
            _ => new.mode == self.mode,
        }
    }

    /// What handling `e` needs: what a key press needs, and a volume that
    /// stays within `i8` when moved.
    pub open spec fn can_handle(self, e: CommandLineEvent, size: (u16, u16)) -> bool {
        &&& self.wf()
        &&& match e {
            CommandLineEvent::Input(key) => key == Key::Char('\n') ==> (self.mode matches Mode::Command { text } ==> (
            spec_needs_height(spec_split(text@, ' ')) ==> size.1 >= 1)),
            CommandLineEvent::VolumeMv(by) => i8::MIN <= self.volume + by <= i8::MAX,
            CommandLineEvent::VolumeUp(by) => i8::MIN <= self.volume + (if by < 0 { 0 } else { by }) <= i8::MAX,
            CommandLineEvent::VolumeDown(by) => i8::MIN <= self.volume - (if by < 0 { 0 } else { by }) <= i8::MAX,
            _ => true,
        }
    }

    /// Whether handling `e` can be computed.
    pub fn accepts(&self, e: &CommandLineEvent, size: (u16, u16)) -> (r: bool)
        requires
            self.wf(),
        ensures
            r == self.can_handle(*e, size),
    {
        match e {
            CommandLineEvent::Input(key) => {
                if *key == Key::Char('\n') {
                    match &self.mode {
                        Mode::Command { text } => size.1 >= 1 || !needs_height(text.as_str()),
                        _ => true,
                    }
                } else {
                    true
                }
            },
            CommandLineEvent::VolumeMv(by) => {
                let v = self.volume as i16 + *by as i16;
                -128 <= v && v <= 127
            },
            CommandLineEvent::VolumeUp(by) => {
                let b: i16 = if *by < 0 { 0 } else { *by as i16 };
                let v = self.volume as i16 + b;
                -128 <= v && v <= 127
            },
            CommandLineEvent::VolumeDown(by) => {
                let b: i16 = if *by < 0 { 0 } else { *by as i16 };
                let v = self.volume as i16 - b;
                -128 <= v && v <= 127
            },
            _ => true,
        }
    }

    /// What handling `e` does: `new` is the command line after it and
    /// `out` the events it sends.
    pub open spec fn handled(self, new: CommandLine, e: CommandLineEvent, size: (u16, u16), out: Seq<Event>) -> bool {
        &&& new.wf()
        &&& match e {
            CommandLineEvent::Echo(s) => self.echoed(new, s@) && out.len() == 0,
            CommandLineEvent::SetColor(c) => new.color == c && new.mode == self.mode && new.statusline == self.statusline
                && new.keybinds == self.keybinds && new.last_search == self.last_search && new.volume == self.volume
                && out.len() == 0,
            CommandLineEvent::RequestText(prompt, placeholder) => {
                &&& new.same_but_mode(self)
                &&& new.mode matches Mode::GetText { prompt: p, text } && p == prompt && text@ == match opt_view(
                    placeholder,
                ) {
                    Some(t) => t,
                    None => Seq::<char>::empty(),
                }
                &&& out.len() == 0
            },
            CommandLineEvent::NextSearch => new == self && match self.last_search {
                Some(s) => out == seq![Event::ToFocus(ComponentEvent::Search(s))],
                None => out.len() == 0,
            },
            CommandLineEvent::PrevSearch => new == self && match self.last_search {
                Some(s) => out == seq![Event::ToFocus(ComponentEvent::SearchPrev(s))],
                None => out.len() == 0,
            },
            CommandLineEvent::SbrcError(line, msg) => self.echoed(
                new,
                "sbrc: Invalid command at line "@ + spec_decimal(line as nat) + " '"@ + msg@ + "'"@,
            ) && out.len() == 0,
            CommandLineEvent::Input(key) => self.spec_input(key, size, new, out),
            CommandLineEvent::SbrcNotFound => self.echoed(new, "Sbrc not found. :q to quit."@) && out.len() == 0,
            CommandLineEvent::MpdStatus(st) => {
                &&& new.statusline@ == spec_statusline(st)
                &&& new.volume == st.volume
                &&& new.mode == self.mode && new.keybinds == self.keybinds && new.color == self.color
                &&& new.last_search == self.last_search
                &&& out.len() == 0
            },
            CommandLineEvent::VolumeMv(by) => new == self && out == seq![
                Event::ToMpd(MpdEvent::SetVolume(spec_volume(self.volume, by))),
            ],
            CommandLineEvent::VolumeUp(by) => new == self && out == seq![
                Event::ToMpd(MpdEvent::SetVolume(spec_volume(self.volume, if by < 0 { 0 } else { by }))),
            ],
            CommandLineEvent::VolumeDown(by) => new == self && out == seq![
                Event::ToMpd(MpdEvent::SetVolume(spec_volume(self.volume, (-(if by < 0 { 0 } else { by })) as i8))),
            ],
        }
    }

    /// Reacts to an event for the command line; `size` is the terminal's
    /// width and height.
    pub fn handle(&mut self, e: &CommandLineEvent, size: (u16, u16)) -> (out: Vec<Event>)
        requires
            old(self).can_handle(*e, size),
        ensures
            old(self).handled(*final(self), *e, size, out@),
    {
        match e {
            CommandLineEvent::Echo(s) => {
                self.echo(s.clone());
                Vec::new()
            },
            CommandLineEvent::SetColor(c) => {
                self.color = *c;
                Vec::new()
            },
            CommandLineEvent::RequestText(prompt, placeholder) => {
                let ph = match placeholder {
                    Some(p) => Some(p.clone()),
                    None => None,
                };
                self.get_text_mode(prompt.clone(), ph);
                Vec::new()
            },
            CommandLineEvent::NextSearch => {
                let out = self.next_search();
                proof {
                    if out@.len() == 1 {
                        assert(out@ =~= seq![out@[0]]);
                    }
                }
                out
            },
            CommandLineEvent::PrevSearch => {
                let out = self.prev_search();
                proof {
                    if out@.len() == 1 {
                        assert(out@ =~= seq![out@[0]]);
                    }
                }
                out
            },
            CommandLineEvent::SbrcError(line, msg) => {
                let n = decimal(*line as u64);
                let a = concat("sbrc: Invalid command at line ", n.as_str());
                let b = concat(a.as_str(), " '");
                let c = concat(b.as_str(), msg.as_str());
                let d = concat(c.as_str(), "'");
                self.echo(d);
                Vec::new()
            },
            CommandLineEvent::Input(key) => self.input(key, size),
            CommandLineEvent::SbrcNotFound => {
                self.echo("Sbrc not found. :q to quit.".to_string());
                Vec::new()
            },
            CommandLineEvent::MpdStatus(status) => {
                self.statusline = statusline_of(status);
                self.volume = status.volume;
                Vec::new()
            },
            CommandLineEvent::VolumeMv(by) => {
                let out = self.vol_mv(*by);
                assert(out@ =~= seq![out@[0]]);
                out
            },
            CommandLineEvent::VolumeUp(by) => {
                let out = self.vol_mv(if *by < 0 { 0 } else { *by });
                assert(out@ =~= seq![out@[0]]);
                out
            },
            CommandLineEvent::VolumeDown(by) => {
                let b: i8 = if *by < 0 { 0 } else { *by };
                let out = self.vol_mv(-b);
                assert(out@ =~= seq![out@[0]]);
                out
            },
        }
    }
}

/// The status line for a player status.
pub fn statusline_of(st: &MpdStatus) -> (r: String)
    ensures
        r@ == spec_statusline(*st),
{
    let mut r = String::new();
    push_char(&mut r, '[');
    push_char(&mut r, if st.repeat { 'r' } else { '-' });
    push_char(&mut r, if st.random { 'z' } else { '-' });
    push_char(&mut r, if st.single { 's' } else { '-' });
    push_char(&mut r, if st.consume { 'c' } else { '-' });
    let a = concat(r.as_str(), "] Vol: ");
    let v = signed_decimal(st.volume);
    let b = concat(a.as_str(), v.as_str());
    let c = concat(b.as_str(), "%");
    assert(c@ =~= spec_statusline(*st));
    c
}

/// Reads one line of the startup file: the event it sends, or `Err` when
/// it is not a valid command.
pub fn run_headless(cmd: &str, size: (u16, u16)) -> (r: Result<Event, ()>)
    requires
        spec_needs_height(spec_split(cmd@, ' ')) ==> size.1 >= 1,
    ensures
        match r {
            Ok(e) => spec_result_is(Some(e), spec_parse(spec_split(cmd@, ' '), size)),
            Err(_) => spec_parse(spec_split(cmd@, ' '), size) is None,
        },
{
    match parse_line(cmd, size) {
        Some(e) => Ok(e),
        None => Err(()),
    }
}

/// What the command line shows at the left in mode `m`: the echoed text,
/// the text typed after ':' or '/' or after a prompt with a cursor, or a
/// question with its default answer in capitals.
pub open spec fn spec_line_text(m: Mode) -> Seq<char> {
    match m {
        Mode::TUI { text, keys: _ } => text@,
        Mode::Command { text } => ":"@ + text@ + "\u{1fb70}"@,
        Mode::Search { text } => "/"@ + text@ + "\u{1fb70}"@,
        Mode::GetText { prompt, text } => prompt@ + ": "@ + text@ + "\u{1fb70}"@,
        Mode::Confirm { prompt, on_yes: _, on_no: _, is_default_yes } => prompt@ + " ("@ + (if is_default_yes {
            "Y/n"@
        } else {
            "y/N"@
        }) + ")"@,
    }
}

impl CommandLine {
    /// The text shown at the left of the command line.
    pub fn line_text(&self) -> (r: String)
        ensures
            r@ == spec_line_text(self.mode),
    {
        match &self.mode {
            Mode::TUI { text, keys: _ } => text.clone(),
            Mode::Command { text } => {
                let a = concat(":", text.as_str());
                concat(a.as_str(), "\u{1fb70}")
            },
            Mode::Search { text } => {
                let a = concat("/", text.as_str());
                concat(a.as_str(), "\u{1fb70}")
            },
            Mode::GetText { prompt, text } => {
                let a = concat(prompt.as_str(), ": ");
                let b = concat(a.as_str(), text.as_str());
                concat(b.as_str(), "\u{1fb70}")
            },
            Mode::Confirm { prompt, on_yes: _, on_no: _, is_default_yes } => {
                let a = concat(prompt.as_str(), " (");
                let b = concat(a.as_str(), if *is_default_yes { "Y/n" } else { "y/N" });
                concat(b.as_str(), ")")
            },
        }
    }
}

/// Escape, in any mode, goes back to waiting for keys with nothing typed
/// and sends nothing; the rest of the command line stays.
pub proof fn law_escape_resets(c: CommandLine, size: (u16, u16), new: CommandLine, out: Seq<Event>)
    requires
        c.spec_input(Key::Esc, size, new, out),
    ensures
        is_tui(new.mode, Seq::empty(), Seq::empty()),
        new.same_but_mode(c),
        out.len() == 0,
{
}

/// While typing a command, a search or requested text, a character and
/// then a backspace give back the text typed before.
pub proof fn law_type_then_backspace(
    c: CommandLine,
    ch: char,
    size: (u16, u16),
    mid: CommandLine,
    out1: Seq<Event>,
    new: CommandLine,
    out2: Seq<Event>,
)
    requires
        c.mode is Command || c.mode is Search || c.mode is GetText,
        ch != '\n',
        c.spec_input(Key::Char(ch), size, mid, out1),
        mid.spec_input(Key::Backspace, size, new, out2),
    ensures
        new.mode == c.mode || (c.mode matches Mode::GetText { prompt, text } && new.mode matches Mode::GetText {
            prompt: p,
            text: t,
        } && p == prompt && t@ == text@) || (c.mode matches Mode::Command { text } && new.mode matches Mode::Command {
            text: t,
        } && t@ == text@) || (c.mode matches Mode::Search { text } && new.mode matches Mode::Search { text: t } && t@
            == text@),
        new.same_but_mode(c),
        out1.len() == 0,
        out2.len() == 0,
{
    match c.mode {
        Mode::GetText { prompt, text } => {
            assert(text@.push(ch).drop_last() =~= text@);
        },
        Mode::Command { text } => {
            assert(text@.push(ch).drop_last() =~= text@);
        },
        Mode::Search { text } => {
            assert(text@.push(ch).drop_last() =~= text@);
        },
        _ => {},
    }
}

impl CommandLine {
    /// Draws the command line on the bottom row of a terminal `w` columns
    /// wide and `h` rows high: the text of the mode at the left, the
    /// status at the right (placed by its length in bytes, which must not
    /// exceed `w` once taken as a `u16`).
    pub fn draw(&self, w: u16, h: u16) -> (r: Vec<Paint>)
        requires
            crate::text::byte_len(self.statusline@) <= usize::MAX,
            (crate::text::byte_len(self.statusline@) as u16) <= w,
        ensures
            paints_view(r@) == seq![
                PaintView::Fg(self.color),
                PaintView::At(1, h),
                PaintView::ClearLine,
                PaintView::Text(spec_line_text(self.mode)),
                PaintView::At((w - (crate::text::byte_len(self.statusline@) as u16)) as u16, h),
                PaintView::Text(self.statusline@),
            ],
    {
        let sl = self.statusline.as_str();
        proof {
            assert(sl.spec_bytes() == vstd::utf8::encode_utf8(sl@));
        }
        let n = #[verifier::truncate] (sl.len() as u16);
        let mut out: Vec<Paint> = Vec::new();
        out.push(Paint::Fg(self.color));
        out.push(Paint::At(1, h));
        out.push(Paint::ClearLine);
        out.push(Paint::Text(self.line_text()));
        out.push(Paint::At(w - n, h));
        out.push(Paint::Text(self.statusline.clone()));
        assert(paints_view(out@) =~= seq![
            PaintView::Fg(self.color),
            PaintView::At(1, h),
            PaintView::ClearLine,
            PaintView::Text(spec_line_text(self.mode)),
            PaintView::At((w - (crate::text::byte_len(self.statusline@) as u16)) as u16, h),
            PaintView::Text(self.statusline@),
        ]);
        out
    }
}

/// `keys` is bound to `e`.
pub open spec fn binds_to(cl: CommandLine, keys: Seq<Key>, e: Event) -> bool {
    &&& binds_keys(cl.keybinds@).contains(keys)
    &&& forall|j: int| 0 <= j < cl.keybinds@.len() && (#[trigger] cl.keybinds@[j]).0@ == keys ==> cl.keybinds@[j].1 == e
}

/// Typing a bound key sequence while waiting for keys: each key but the
/// last waits with the keys typed so far, and the last sends the bound
/// event and starts over, provided no shorter start of the sequence is
/// bound itself and no key of it opens the command or search line or is
/// escape.
pub proof fn law_binding_fires(cl: CommandLine, keys: Seq<Key>, e: Event, i: int, next: CommandLine, out: Seq<Event>)
    requires
        binds_to(cl, keys, e),
        forall|p: int| 0 < p < keys.len() ==> !binds_keys(cl.keybinds@).contains(#[trigger] keys.take(p)),
        0 <= i < keys.len(),
        keys[i] != Key::Char(':') && keys[i] != Key::Char('/') && keys[i] != Key::Esc,
        cl.spec_tui_key(keys.take(i), keys[i], next, out),
    ensures
        i + 1 < keys.len() ==> is_tui(next.mode, Seq::empty(), keys.take(i + 1)) && out.len() == 0,
        i + 1 == keys.len() ==> is_tui(next.mode, Seq::empty(), Seq::empty()) && out.len() == 1 && same_event(e, out[0]),
{
    let ks = keys.take(i).push(keys[i]);
    assert(ks =~= keys.take(i + 1));
    let j0 = choose|j: int| 0 <= j < binds_keys(cl.keybinds@).len() && binds_keys(cl.keybinds@)[j] == keys;
    assert(cl.keybinds@[j0].0@ == keys);
    if i + 1 < keys.len() {
        assert(!binds_keys(cl.keybinds@).contains(keys.take(i + 1)));
        assert(prefix_agree(ks, cl.keybinds@[j0].0@));
    } else {
        assert(ks =~= keys);
        let j = choose|j: int| 0 <= j < cl.keybinds@.len() && (#[trigger] cl.keybinds@[j]).0@ == ks && same_event(
            cl.keybinds@[j].1,
            out[0],
        );
        assert(cl.keybinds@[j].1 == e);
    }
}

} // verus!
