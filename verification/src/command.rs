//! The commands of the in-application command line and of the startup
//! file (`echo`, `bind gg top`, `goto 3`, ...), read into events.
use vstd::prelude::*;

use crate::event::{
    spec_bindable_to, AppEvent, BindableEvent, CommandLineEvent, ComponentEvent, Event, MpdEvent,
    ScreenEvent,
};
use crate::keys::{spec_str_to_keys, str_to_keys, Key};
use crate::text::{
    concat, owned, parse_unsigned, spec_join, spec_parse_unsigned, spec_split, spec_to_lowercase, split_on, str_eq,
    to_lowercase,
};

verus! {

/// What a command line asks for, as plain values.
pub enum Command {
    Echo(Seq<char>),
    /// Component, column, row, width, height, focused component.
    Draw(Seq<char>, u16, u16, u16, u16, Seq<char>),
    Quit,
    SwitchScreen(Seq<char>),
    FocusNext,
    FocusPrev,
    Down,
    Up,
    Select,
    Start,
    Next,
    Prev,
    GoToTop,
    GoToBottom,
    Search(Seq<char>),
    PrevSearch,
    NextSearch,
    GoTo(usize),
    TogglePause,
    ClearQueue,
    Random,
    Bind(Seq<Key>, Box<Command>),
}

/// The words of a command line as character sequences.
pub open spec fn words_view(cmd: Seq<&str>) -> Seq<Seq<char>> {
    cmd.map_values(|s: &str| s@)
}

/// Word `i`, lowercased.
pub open spec fn spec_word_lower(words: Seq<Seq<char>>, i: int) -> Option<Seq<char>> {
    if 0 <= i < words.len() { Some(spec_to_lowercase(words[i])) } else { None }
}

/// Word `i` read as a `usize`.
pub open spec fn spec_word_usize(words: Seq<Seq<char>>, i: int) -> Option<usize> {
    if 0 <= i < words.len() {
        match spec_parse_unsigned(words[i]) {
            Some(v) => if v <= usize::MAX { Some(v as usize) } else { None },
            None => None,
        }
    } else {
        None
    }
}

/// Word `i` read as a flag: absent is `None`, "0" and "false" (in any
/// case) are false, anything else is true.
pub open spec fn spec_word_bool(words: Seq<Seq<char>>, i: int) -> Option<bool> {
    if 0 <= i < words.len() {
        let l = spec_to_lowercase(words[i]);
        Some(!(l == "0"@ || l == "false"@))
    } else {
        None
    }
}

/// A `draw` command: component in word 1, then column, row, width and
/// height (defaults 1, 1, and the terminal's width and height less the
/// command line), then the focused component (default "<None>").
pub open spec fn spec_draw(words: Seq<Seq<char>>, size: (u16, u16)) -> Option<Command> {
    if words.len() > 1 {
        let max_h = size.1 - 1;
        let x = match spec_word_usize(words, 2) { Some(v) => v, None => 1 };
        let y = match spec_word_usize(words, 3) { Some(v) => v, None => 1 };
        let w = match spec_word_usize(words, 4) { Some(v) => v, None => size.0 as usize };
        let h = match spec_word_usize(words, 5) { Some(v) => v, None => max_h as usize };
        let focus = if words.len() > 6 { words[6] } else { "<None>"@ };
        Some(Command::Draw(words[1], x as u16, y as u16, w as u16, h as u16, focus))
    } else {
        None
    }
}

/// The command that `words` write, if any; `size` is the terminal's width
/// and height.
pub open spec fn spec_parse(words: Seq<Seq<char>>, size: (u16, u16)) -> Option<Command>
    decreases words.len(), 1int,
{
    if words.len() == 0 {
        None
    } else {
        spec_parse_with(spec_to_lowercase(words[0]), words, size)
    }
}

/// The command that `words` write, given their first word lowercased.
pub open spec fn spec_parse_with(first: Seq<char>, words: Seq<Seq<char>>, size: (u16, u16)) -> Option<Command>
    decreases words.len(), 0int,
{
    if first == "echo"@ {
        if words.len() > 1 { Some(Command::Echo(spec_join(words.skip(1), " "@))) } else { None }
    } else if first == "draw"@ {
        spec_draw(words, size)
    } else if first == "quit"@ || first == "q"@ || first == "exit"@ {
        Some(Command::Quit)
    } else if first == "switchscreen"@ || first == "screen"@ {
        if words.len() > 1 { Some(Command::SwitchScreen(words[1])) } else { None }
    } else if first == "focusnext"@ {
        Some(Command::FocusNext)
    } else if first == "focusprev"@ {
        Some(Command::FocusPrev)
    } else if first == "down"@ {
        Some(Command::Down)
    } else if first == "up"@ {
        Some(Command::Up)
    } else if first == "select"@ {
        Some(Command::Select)
    } else if first == "start"@ {
        Some(Command::Start)
    } else if first == "next"@ {
        Some(Command::Next)
    } else if first == "prev"@ {
        Some(Command::Prev)
    } else if first == "top"@ || first == "gotop"@ || first == "gototop"@ || first == "totop"@ {
        Some(Command::GoToTop)
    } else if first == "bottom"@ || first == "gobottom"@ || first == "gotobottom"@ || first == "tobottom"@
        || first == "bot"@ || first == "gobot"@ || first == "gotobot"@ || first == "tobot"@ {
        Some(Command::GoToBottom)
    } else if first == "search"@ || first == "s"@ {
        match spec_word_lower(words, 1) {
            Some(s) => Some(Command::Search(s)),
            None => None,
        }
    } else if first == "prevsearch"@ {
        Some(Command::PrevSearch)
    } else if first == "nextsearch"@ {
        Some(Command::NextSearch)
    } else if first == "goto"@ || first == "go"@ || first == "g"@ || first == "to"@ {
        match spec_word_usize(words, 1) {
            Some(n) => Some(Command::GoTo(n)),
            None => None,
        }
    } else if first == "togglepause"@ || first == "pause"@ || first == "toggle"@ {
        Some(Command::TogglePause)
    } else if first == "clear"@ || first == "clearqueue"@ {
        Some(Command::ClearQueue)
    } else if first == "random"@ {
        Some(Command::Random)
    } else if first == "bind"@ || first == "bindkey"@ {
        if words.len() > 1 {
            match spec_parse(words.skip(2), size) {
                Some(inner) => match inner {
                    Command::Bind(_, _) => None,
                    _ => Some(Command::Bind(spec_str_to_keys(words[1]), Box::new(inner))),
                },
                None => None,
            }
        } else {
            None
        }
    } else {
        None
    }
}

/// Whether reading `words` computes the terminal's height less one (a
/// `draw` with a component, possibly inside key bindings).
pub open spec fn spec_needs_height(words: Seq<Seq<char>>) -> bool
    decreases words.len(),
{
    if words.len() > 1 {
        let first = spec_to_lowercase(words[0]);
        if first == "draw"@ {
            true
        } else if first == "bind"@ || first == "bindkey"@ {
            spec_needs_height(words.skip(2))
        } else {
            false
        }
    } else {
        false
    }
}

/// Event `e` is the one that command `c` sends.
pub open spec fn spec_event_is(e: Event, c: Command) -> bool
    decreases c,
{
    match c {
        Command::Echo(s) => e matches Event::ToCommandLine(CommandLineEvent::Echo(t)) && t@ == s,
        Command::Draw(comp, x, y, w, h, f) => e matches Event::ToComponent(n, ComponentEvent::Draw(x2, y2, w2, h2, f2))
            && n@ == comp && x2 == x && y2 == y && w2 == w && h2 == h && f2@ == f,
        Command::Quit => e matches Event::ToApp(AppEvent::Quit),
        Command::SwitchScreen(s) => e matches Event::ToApp(AppEvent::SwitchScreen(t)) && t@ == s,
        Command::FocusNext => e matches Event::ToScreen(ScreenEvent::FocusNext),
        Command::FocusPrev => e matches Event::ToScreen(ScreenEvent::FocusPrev),
        Command::Down => e matches Event::ToFocus(ComponentEvent::Next),
        Command::Up => e matches Event::ToFocus(ComponentEvent::Prev),
        Command::Select => e matches Event::ToFocus(ComponentEvent::Select),
        Command::Start => e matches Event::ToFocus(ComponentEvent::Start),
        Command::Next => e matches Event::ToFocus(ComponentEvent::Next),
        Command::Prev => e matches Event::ToFocus(ComponentEvent::Prev),
        Command::GoToTop => e matches Event::ToFocus(ComponentEvent::GoToTop),
        Command::GoToBottom => e matches Event::ToFocus(ComponentEvent::GoToBottom),
        Command::Search(s) => e matches Event::ToFocus(ComponentEvent::Search(t)) && t@ == s,
        Command::PrevSearch => e matches Event::ToCommandLine(CommandLineEvent::PrevSearch),
        Command::NextSearch => e matches Event::ToCommandLine(CommandLineEvent::NextSearch),
        Command::GoTo(n) => e matches Event::ToFocus(ComponentEvent::GoTo(m)) && m == n,
        Command::TogglePause => e matches Event::ToMpd(MpdEvent::TogglePause),
        Command::ClearQueue => e matches Event::ToMpd(MpdEvent::ClearQueue),
        Command::Random => e matches Event::ToMpd(MpdEvent::Random),
        Command::Bind(keys, inner) => match e {
            Event::BindKey(k, b) => k@ == keys && spec_event_is(spec_bindable_to(b), *inner),
            _ => false,
        },
    }
}

/// `r` is what reading a command line gives when it writes `c`.
pub open spec fn spec_result_is(r: Option<Event>, c: Option<Command>) -> bool {
    match c {
        None => r is None,
        Some(c) => r matches Some(e) && spec_event_is(e, c),
    }
}

/// What each command without arguments asks for, by its name (in lower
/// case), as the README lists them.
pub open spec fn plain_command_event(name: Seq<char>) -> Option<Event> {
    if name == "quit"@ || name == "q"@ || name == "exit"@ {
        Some(Event::ToApp(AppEvent::Quit))
    } else if name == "focusnext"@ {
        Some(Event::ToScreen(ScreenEvent::FocusNext))
    } else if name == "focusprev"@ {
        Some(Event::ToScreen(ScreenEvent::FocusPrev))
    } else if name == "down"@ || name == "next"@ {
        Some(Event::ToFocus(ComponentEvent::Next))
    } else if name == "up"@ || name == "prev"@ {
        Some(Event::ToFocus(ComponentEvent::Prev))
    } else if name == "select"@ {
        Some(Event::ToFocus(ComponentEvent::Select))
    } else if name == "start"@ {
        Some(Event::ToFocus(ComponentEvent::Start))
    } else if name == "top"@ || name == "gotop"@ || name == "gototop"@ || name == "totop"@ {
        Some(Event::ToFocus(ComponentEvent::GoToTop))
    } else if name == "bottom"@ || name == "gobottom"@ || name == "gotobottom"@ || name == "tobottom"@ || name == "bot"@ || name == "gobot"@ || name == "gotobot"@ || name == "tobot"@ {
        Some(Event::ToFocus(ComponentEvent::GoToBottom))
    } else if name == "prevsearch"@ {
        Some(Event::ToCommandLine(CommandLineEvent::PrevSearch))
    } else if name == "nextsearch"@ {
        Some(Event::ToCommandLine(CommandLineEvent::NextSearch))
    } else if name == "togglepause"@ || name == "pause"@ || name == "toggle"@ {
        Some(Event::ToMpd(MpdEvent::TogglePause))
    } else if name == "clear"@ || name == "clearqueue"@ {
        Some(Event::ToMpd(MpdEvent::ClearQueue))
    } else if name == "random"@ {
        Some(Event::ToMpd(MpdEvent::Random))
    } else {
        None
    }
}

/// The literal names of commands, spelled out.
proof fn lemma_command_names()
    ensures
        "echo"@ =~= seq!['e', 'c', 'h', 'o'] && "echo"@.len() == 4,
        "draw"@ =~= seq!['d', 'r', 'a', 'w'] && "draw"@.len() == 4,
        "quit"@ =~= seq!['q', 'u', 'i', 't'] && "quit"@.len() == 4,
        "q"@ =~= seq!['q'] && "q"@.len() == 1,
        "exit"@ =~= seq!['e', 'x', 'i', 't'] && "exit"@.len() == 4,
        "switchscreen"@ =~= seq!['s', 'w', 'i', 't', 'c', 'h', 's', 'c', 'r', 'e', 'e', 'n'] && "switchscreen"@.len() == 12,
        "screen"@ =~= seq!['s', 'c', 'r', 'e', 'e', 'n'] && "screen"@.len() == 6,
        "focusnext"@ =~= seq!['f', 'o', 'c', 'u', 's', 'n', 'e', 'x', 't'] && "focusnext"@.len() == 9,
        "focusprev"@ =~= seq!['f', 'o', 'c', 'u', 's', 'p', 'r', 'e', 'v'] && "focusprev"@.len() == 9,
        "down"@ =~= seq!['d', 'o', 'w', 'n'] && "down"@.len() == 4,
        "up"@ =~= seq!['u', 'p'] && "up"@.len() == 2,
        "select"@ =~= seq!['s', 'e', 'l', 'e', 'c', 't'] && "select"@.len() == 6,
        "start"@ =~= seq!['s', 't', 'a', 'r', 't'] && "start"@.len() == 5,
        "next"@ =~= seq!['n', 'e', 'x', 't'] && "next"@.len() == 4,
        "prev"@ =~= seq!['p', 'r', 'e', 'v'] && "prev"@.len() == 4,
        "top"@ =~= seq!['t', 'o', 'p'] && "top"@.len() == 3,
        "gotop"@ =~= seq!['g', 'o', 't', 'o', 'p'] && "gotop"@.len() == 5,
        "gototop"@ =~= seq!['g', 'o', 't', 'o', 't', 'o', 'p'] && "gototop"@.len() == 7,
        "totop"@ =~= seq!['t', 'o', 't', 'o', 'p'] && "totop"@.len() == 5,
        "bottom"@ =~= seq!['b', 'o', 't', 't', 'o', 'm'] && "bottom"@.len() == 6,
        "gobottom"@ =~= seq!['g', 'o', 'b', 'o', 't', 't', 'o', 'm'] && "gobottom"@.len() == 8,
        "gotobottom"@ =~= seq!['g', 'o', 't', 'o', 'b', 'o', 't', 't', 'o', 'm'] && "gotobottom"@.len() == 10,
        "tobottom"@ =~= seq!['t', 'o', 'b', 'o', 't', 't', 'o', 'm'] && "tobottom"@.len() == 8,
        "bot"@ =~= seq!['b', 'o', 't'] && "bot"@.len() == 3,
        "gobot"@ =~= seq!['g', 'o', 'b', 'o', 't'] && "gobot"@.len() == 5,
        "gotobot"@ =~= seq!['g', 'o', 't', 'o', 'b', 'o', 't'] && "gotobot"@.len() == 7,
        "tobot"@ =~= seq!['t', 'o', 'b', 'o', 't'] && "tobot"@.len() == 5,
        "search"@ =~= seq!['s', 'e', 'a', 'r', 'c', 'h'] && "search"@.len() == 6,
        "s"@ =~= seq!['s'] && "s"@.len() == 1,
        "prevsearch"@ =~= seq!['p', 'r', 'e', 'v', 's', 'e', 'a', 'r', 'c', 'h'] && "prevsearch"@.len() == 10,
        "nextsearch"@ =~= seq!['n', 'e', 'x', 't', 's', 'e', 'a', 'r', 'c', 'h'] && "nextsearch"@.len() == 10,
        "goto"@ =~= seq!['g', 'o', 't', 'o'] && "goto"@.len() == 4,
        "go"@ =~= seq!['g', 'o'] && "go"@.len() == 2,
        "g"@ =~= seq!['g'] && "g"@.len() == 1,
        "to"@ =~= seq!['t', 'o'] && "to"@.len() == 2,
        "togglepause"@ =~= seq!['t', 'o', 'g', 'g', 'l', 'e', 'p', 'a', 'u', 's', 'e'] && "togglepause"@.len() == 11,
        "pause"@ =~= seq!['p', 'a', 'u', 's', 'e'] && "pause"@.len() == 5,
        "toggle"@ =~= seq!['t', 'o', 'g', 'g', 'l', 'e'] && "toggle"@.len() == 6,
        "clear"@ =~= seq!['c', 'l', 'e', 'a', 'r'] && "clear"@.len() == 5,
        "clearqueue"@ =~= seq!['c', 'l', 'e', 'a', 'r', 'q', 'u', 'e', 'u', 'e'] && "clearqueue"@.len() == 10,
        "random"@ =~= seq!['r', 'a', 'n', 'd', 'o', 'm'] && "random"@.len() == 6,
        "bind"@ =~= seq!['b', 'i', 'n', 'd'] && "bind"@.len() == 4,
        "bindkey"@ =~= seq!['b', 'i', 'n', 'd', 'k', 'e', 'y'] && "bindkey"@.len() == 7,
{
    reveal_strlit("echo");
    reveal_strlit("draw");
    reveal_strlit("quit");
    reveal_strlit("q");
    reveal_strlit("exit");
    reveal_strlit("switchscreen");
    reveal_strlit("screen");
    reveal_strlit("focusnext");
    reveal_strlit("focusprev");
    reveal_strlit("down");
    reveal_strlit("up");
    reveal_strlit("select");
    reveal_strlit("start");
    reveal_strlit("next");
    reveal_strlit("prev");
    reveal_strlit("top");
    reveal_strlit("gotop");
    reveal_strlit("gototop");
    reveal_strlit("totop");
    reveal_strlit("bottom");
    reveal_strlit("gobottom");
    reveal_strlit("gotobottom");
    reveal_strlit("tobottom");
    reveal_strlit("bot");
    reveal_strlit("gobot");
    reveal_strlit("gotobot");
    reveal_strlit("tobot");
    reveal_strlit("search");
    reveal_strlit("s");
    reveal_strlit("prevsearch");
    reveal_strlit("nextsearch");
    reveal_strlit("goto");
    reveal_strlit("go");
    reveal_strlit("g");
    reveal_strlit("to");
    reveal_strlit("togglepause");
    reveal_strlit("pause");
    reveal_strlit("toggle");
    reveal_strlit("clear");
    reveal_strlit("clearqueue");
    reveal_strlit("random");
    reveal_strlit("bind");
    reveal_strlit("bindkey");
}

/// A command line whose first word names a command without arguments, in
/// any case and with any words after it, sends that command's event.
pub proof fn law_plain_commands(words: Seq<Seq<char>>, size: (u16, u16), r: Option<Event>)
    requires
        words.len() >= 1,
        plain_command_event(spec_to_lowercase(words[0])) is Some,
        spec_result_is(r, spec_parse(words, size)),
    ensures
        r == plain_command_event(spec_to_lowercase(words[0])),
{
    lemma_command_names();
    let f = spec_to_lowercase(words[0]);
    if f == "quit"@ || f == "q"@ || f == "exit"@ {
        assert(spec_parse(words, size) == Some(Command::Quit));
    }
    if f == "focusnext"@ {
        assert(spec_parse(words, size) == Some(Command::FocusNext));
    }
    if f == "focusprev"@ {
        assert(spec_parse(words, size) == Some(Command::FocusPrev));
    }
    if f == "down"@ {
        assert(spec_parse(words, size) == Some(Command::Down));
    }
    if f == "next"@ {
        assert(spec_parse(words, size) == Some(Command::Next));
    }
    if f == "up"@ {
        assert(spec_parse(words, size) == Some(Command::Up));
    }
    if f == "prev"@ {
        assert(spec_parse(words, size) == Some(Command::Prev));
    }
    if f == "select"@ {
        assert(spec_parse(words, size) == Some(Command::Select));
    }
    if f == "start"@ {
        assert(spec_parse(words, size) == Some(Command::Start));
    }
    if f == "top"@ || f == "gotop"@ || f == "gototop"@ || f == "totop"@ {
        assert(spec_parse(words, size) == Some(Command::GoToTop));
    }
    if f == "bottom"@ || f == "gobottom"@ || f == "gotobottom"@ || f == "tobottom"@ || f == "bot"@ || f == "gobot"@ || f == "gotobot"@ || f == "tobot"@ {
        assert(spec_parse(words, size) == Some(Command::GoToBottom));
    }
    if f == "prevsearch"@ {
        assert(spec_parse(words, size) == Some(Command::PrevSearch));
    }
    if f == "nextsearch"@ {
        assert(spec_parse(words, size) == Some(Command::NextSearch));
    }
    if f == "togglepause"@ || f == "pause"@ || f == "toggle"@ {
        assert(spec_parse(words, size) == Some(Command::TogglePause));
    }
    if f == "clear"@ || f == "clearqueue"@ {
        assert(spec_parse(words, size) == Some(Command::ClearQueue));
    }
    if f == "random"@ {
        assert(spec_parse(words, size) == Some(Command::Random));
    }
}

/// `echo` shows the rest of the line, its words joined by single spaces,
/// and needs at least one word.
pub proof fn law_echo(words: Seq<Seq<char>>, size: (u16, u16), r: Option<Event>)
    requires
        words.len() >= 1,
        spec_to_lowercase(words[0]) == "echo"@,
        spec_result_is(r, spec_parse(words, size)),
    ensures
        words.len() == 1 ==> r is None,
        words.len() > 1 ==> (r matches Some(Event::ToCommandLine(CommandLineEvent::Echo(m)))
            && m@ == spec_join(words.skip(1), " "@)),
{
    lemma_command_names();
}

/// Word `i`, lowercased.
pub fn get_lowercase(cmd: &Vec<&str>, i: usize) -> (r: Option<String>)
    ensures
        match r {
            Some(s) => spec_word_lower(words_view(cmd@), i as int) == Some(s@),
            None => spec_word_lower(words_view(cmd@), i as int) is None,
        },
{
    if i < cmd.len() {
        Some(to_lowercase(cmd[i]))
    } else {
        None
    }
}

/// Word `i` read as a `usize`.
pub fn get_usize(cmd: &Vec<&str>, i: usize) -> (r: Option<usize>)
    ensures
        r == spec_word_usize(words_view(cmd@), i as int),
{
    if i < cmd.len() {
        match parse_unsigned(cmd[i], usize::MAX as u64) {
            Some(v) => Some(v as usize),
            None => None,
        }
    } else {
        None
    }
}

/// Word `i` read as a flag.
pub fn _get_boolean(cmd: &Vec<&str>, i: usize) -> (r: Option<bool>)
    ensures
        r == spec_word_bool(words_view(cmd@), i as int),
{
    if i < cmd.len() {
        let l = to_lowercase(cmd[i]);
        Some(!(str_eq(l.as_str(), "0") || str_eq(l.as_str(), "false")))
    } else {
        None
    }
}

/// The words of `cmd` from word `from` on, joined with single spaces.
fn words_from(cmd: &Vec<&str>, from: usize) -> (r: String)
    requires
        from <= cmd@.len(),
    ensures
        r@ == spec_join(words_view(cmd@).skip(from as int), " "@),
{
    let ghost v = words_view(cmd@).skip(from as int);
    let mut r = String::new();
    let mut i: usize = from;
    while i < cmd.len()
        invariant
            from <= i <= cmd@.len(),
            v == words_view(cmd@).skip(from as int),
            r@ == spec_join(v.subrange(0, i - from), " "@),
        decreases cmd@.len() - i,
    {
        assert(v.subrange(0, i + 1 - from).drop_last() =~= v.subrange(0, i - from));
        assert(v[i - from] == cmd@[i as int]@);
        if i > from {
            r = concat(r.as_str(), " ");
        }
        r = concat(r.as_str(), cmd[i]);
        i = i + 1;
        if i == from + 1 {
            assert(r@ =~= v.subrange(0, 1)[0]);
        }
    }
    assert(v.subrange(0, i - from) =~= v);
    r
}

/// Reads a `draw` command.
fn draw(cmd: &Vec<&str>, size: (u16, u16)) -> (r: Option<Event>)
    requires
        cmd@.len() > 1 ==> size.1 >= 1,
    ensures
        spec_result_is(r, spec_draw(words_view(cmd@), size)),
{
    if cmd.len() > 1 {
        let component = cmd[1];
        let (max_w, max_h) = size;
        let max_h = max_h - 1;
        let x = match get_usize(cmd, 2) { Some(v) => v, None => 1 } as u16;
        let y = match get_usize(cmd, 3) { Some(v) => v, None => 1 } as u16;
        let w = match get_usize(cmd, 4) { Some(v) => v, None => max_w as usize } as u16;
        let h = match get_usize(cmd, 5) { Some(v) => v, None => max_h as usize } as u16;
        let focus = if cmd.len() > 6 {
            owned(cmd[6])
        } else {
            owned("<None>")
        };
        Some(Event::ToComponent(owned(component), ComponentEvent::Draw(x, y, w, h, focus)))
    } else {
        None
    }
}

/// Reads the command that the words of `cmd` write; `size` is the
/// terminal's width and height. `None` for an unknown command or missing
/// or bad arguments.
pub fn parse(cmd: &Vec<&str>, size: (u16, u16)) -> (r: Option<Event>)
    requires
        spec_needs_height(words_view(cmd@)) ==> size.1 >= 1,
    ensures
        spec_result_is(r, spec_parse(words_view(cmd@), size)),
    decreases cmd@.len(), 1int,
{
    match get_lowercase(cmd, 0) {
        Some(first) => parse_command(first.as_str(), cmd, size),
        None => None,
    }
}

/// Reads the command that `cmd` writes, given its first word lowercased.
pub fn parse_command(first: &str, cmd: &Vec<&str>, size: (u16, u16)) -> (r: Option<Event>)
    requires
        cmd@.len() > 0,
        first@ == spec_to_lowercase(words_view(cmd@)[0]),
        spec_needs_height(words_view(cmd@)) ==> size.1 >= 1,
    ensures
        spec_result_is(r, spec_parse_with(first@, words_view(cmd@), size)),
    decreases cmd@.len(), 0int,
{
    let ghost words = words_view(cmd@);
    if str_eq(first, "echo") {
        if cmd.len() > 1 {
            Some(Event::ToCommandLine(CommandLineEvent::Echo(words_from(cmd, 1))))
        } else {
            None
        }
    } else if str_eq(first, "draw") {
        draw(cmd, size)
    } else if str_eq(first, "quit") || str_eq(first, "q") || str_eq(first, "exit") {
        Some(Event::ToApp(AppEvent::Quit))
    } else if str_eq(first, "switchscreen") || str_eq(first, "screen") {
        if cmd.len() > 1 {
            Some(Event::ToApp(AppEvent::SwitchScreen(owned(cmd[1]))))
        } else {
            None
        }
    } else if str_eq(first, "focusnext") {
        Some(Event::ToScreen(ScreenEvent::FocusNext))
    } else if str_eq(first, "focusprev") {
        Some(Event::ToScreen(ScreenEvent::FocusPrev))
    } else if str_eq(first, "down") {
        Some(Event::ToFocus(ComponentEvent::Next))
    } else if str_eq(first, "up") {
        Some(Event::ToFocus(ComponentEvent::Prev))
    } else if str_eq(first, "select") {
        Some(Event::ToFocus(ComponentEvent::Select))
    } else if str_eq(first, "start") {
        Some(Event::ToFocus(ComponentEvent::Start))
    } else if str_eq(first, "next") {
        Some(Event::ToFocus(ComponentEvent::Next))
    } else if str_eq(first, "prev") {
        Some(Event::ToFocus(ComponentEvent::Prev))
    } else if str_eq(first, "top") || str_eq(first, "gotop") || str_eq(first, "gototop") || str_eq(first, "totop") {
        Some(Event::ToFocus(ComponentEvent::GoToTop))
    } else if str_eq(first, "bottom") || str_eq(first, "gobottom") || str_eq(first, "gotobottom")
        || str_eq(first, "tobottom") || str_eq(first, "bot") || str_eq(first, "gobot")
        || str_eq(first, "gotobot") || str_eq(first, "tobot") {
        Some(Event::ToFocus(ComponentEvent::GoToBottom))
    } else if str_eq(first, "search") || str_eq(first, "s") {
        match get_lowercase(cmd, 1) {
            Some(s) => Some(Event::ToFocus(ComponentEvent::Search(s))),
            None => None,
        }
    } else if str_eq(first, "prevsearch") {
        Some(Event::ToCommandLine(CommandLineEvent::PrevSearch))
    } else if str_eq(first, "nextsearch") {
        Some(Event::ToCommandLine(CommandLineEvent::NextSearch))
    } else if str_eq(first, "goto") || str_eq(first, "go") || str_eq(first, "g") || str_eq(first, "to") {
        match get_usize(cmd, 1) {
            Some(num) => Some(Event::ToFocus(ComponentEvent::GoTo(num))),
            None => None,
        }
    } else if str_eq(first, "togglepause") || str_eq(first, "pause") || str_eq(first, "toggle") {
        Some(Event::ToMpd(MpdEvent::TogglePause))
    } else if str_eq(first, "clear") || str_eq(first, "clearqueue") {
        Some(Event::ToMpd(MpdEvent::ClearQueue))
    } else if str_eq(first, "random") {
        Some(Event::ToMpd(MpdEvent::Random))
    } else if str_eq(first, "bind") || str_eq(first, "bindkey") {
        if cmd.len() > 1 {
            let keybind = str_to_keys(cmd[1]);
            let mut rest: Vec<&str> = Vec::new();
            let mut i: usize = 2;
            while i < cmd.len()
                invariant
                    2 <= i <= cmd@.len(),
                    rest@ == cmd@.subrange(2, i as int),
                decreases cmd@.len() - i,
            {
                rest.push(cmd[i]);
                i = i + 1;
                assert(rest@ =~= cmd@.subrange(2, i as int));
            }
            assert(words_view(rest@) =~= words.skip(2));
            match parse(&rest, size) {
                Some(e) => match BindableEvent::from_event(e) {
                    Some(b) => Some(Event::BindKey(keybind, b)),
                    None => None,
                },
                None => None,
            }
        } else {
            None
        }
    } else {
        None
    }
}

/// Reads a command written as one line of words separated by single
/// spaces.
pub fn parse_line(line: &str, size: (u16, u16)) -> (r: Option<Event>)
    requires
        spec_needs_height(spec_split(line@, ' ')) ==> size.1 >= 1,
    ensures
        spec_result_is(r, spec_parse(spec_split(line@, ' '), size)),
{
    let words = split_on(line, ' ');
    let mut refs: Vec<&str> = Vec::new();
    let mut i: usize = 0;
    while i < words.len()
        invariant
            i <= words@.len(),
            refs@.len() == i,
            words_view(refs@) == words@.map_values(|p: String| p@).subrange(0, i as int),
        decreases words@.len() - i,
    {
        let w = words[i].as_str();
        assert(w@ == words@.map_values(|p: String| p@)[i as int]);
        let ghost before = refs@;
        refs.push(w);
        i = i + 1;
        assert forall|k: int| 0 <= k < i implies #[trigger] words_view(refs@)[k] == words@.map_values(|p: String| p@).subrange(0, i as int)[k] by {
            if k < i - 1 {
                assert(refs@[k] == before[k]);
                assert(words_view(before)[k] == words@.map_values(|p: String| p@).subrange(0, i - 1)[k]);
            }
        }
        assert(words_view(refs@) =~= words@.map_values(|p: String| p@).subrange(0, i as int));
    }
    assert(words@.map_values(|p: String| p@).subrange(0, words@.len() as int) =~= words@.map_values(|p: String| p@));
    parse(&refs, size)
}

/// Whether reading the words `w[from..]` computes the terminal's height
/// less one.
fn needs_height_from(w: &Vec<String>, from: usize) -> (r: bool)
    requires
        from <= w@.len(),
    ensures
        r == spec_needs_height(w@.map_values(|p: String| p@).skip(from as int)),
    decreases w@.len() - from,
{
    let ghost words = w@.map_values(|p: String| p@).skip(from as int);
    if w.len() - from > 1 {
        let first = to_lowercase(w[from].as_str());
        assert(words[0] == w@[from as int]@);
        if str_eq(first.as_str(), "draw") {
            true
        } else if str_eq(first.as_str(), "bind") || str_eq(first.as_str(), "bindkey") {
            assert(words.skip(2) =~= w@.map_values(|p: String| p@).skip(from + 2));
            needs_height_from(w, from + 2)
        } else {
            false
        }
    } else {
        false
    }
}

/// Whether reading the command line `line` computes the terminal's height
/// less one.
pub fn needs_height(line: &str) -> (r: bool)
    ensures
        r == spec_needs_height(spec_split(line@, ' ')),
{
    let w = split_on(line, ' ');
    assert(w@.map_values(|p: String| p@).skip(0) =~= spec_split(line@, ' '));
    needs_height_from(&w, 0)
}

} // verus!
