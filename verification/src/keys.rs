//! Keys as the terminal reports them, and the notation that key bindings
//! are written in (`gg`, `<space>`, `a<enter>`).
use vstd::prelude::*;

use crate::text::str_eq;

verus! {

/// A key press. `Char` carries printable characters as well as `'\n'` for
/// the return key; `Other` stands for the keys that nothing here reads.
#[derive(Debug, Clone, Copy, PartialEq, Eq, Structural)]
pub enum Key {
    Backspace,
    Left,
    Right,
    Up,
    Down,
    Home,
    End,
    PageUp,
    PageDown,
    BackTab,
    Delete,
    Insert,
    F(u8),
    Char(char),
    Alt(char),
    Ctrl(char),
    Null,
    Esc,
    Other,
}

/// The key that a complete `<name>` symbol stands for.
pub open spec fn spec_symbol_key(sym: Seq<char>) -> Option<Key> {
    if sym == "<space>"@ {
        Some(Key::Char(' '))
    } else if sym == "<return>"@ || sym == "<enter>"@ {
        Some(Key::Char('\n'))
    } else {
        None
    }
}

/// The key that a complete `<name>` symbol stands for.
pub fn symbol_key(sym: &str) -> (r: Option<Key>)
    ensures
        r == spec_symbol_key(sym@),
{
    if str_eq(sym, "<space>") {
        Some(Key::Char(' '))
    } else if str_eq(sym, "<return>") || str_eq(sym, "<enter>") {
        Some(Key::Char('\n'))
    } else {
        None
    }
}

/// The key that types character `c`.
pub open spec fn char_key(c: char) -> Key {
    Key::Char(c)
}

/// Each character of `s` as a `Key::Char`.
pub open spec fn spec_char_keys(s: Seq<char>) -> Seq<Key> {
    Seq::new(s.len(), |i: int| char_key(s[i]))
}

/// One step of reading binding notation: the keys read so far and the
/// symbol being collected, after character `c`.
pub open spec fn spec_keys_step(keys: Seq<Key>, sym: Seq<char>, c: char) -> (Seq<Key>, Seq<char>) {
    if sym.len() > 0 {
        let sym2 = sym.push(c);
        if c == '>' {
            match spec_symbol_key(sym2) {
                Some(k) => (keys.push(k), Seq::empty()),
                None => (keys + spec_char_keys(sym2), Seq::empty()),
            }
        } else {
            (keys, sym2)
        }
    } else if c == '<' {
        (keys, seq!['<'])
    } else {
        (keys.push(Key::Char(c)), sym)
    }
}

/// The state after reading the first `n` characters of `s`.
pub open spec fn spec_keys_scan(s: Seq<char>, n: nat) -> (Seq<Key>, Seq<char>)
    decreases n,
{
    if n == 0 || n > s.len() {
        (Seq::empty(), Seq::empty())
    } else {
        let prev = spec_keys_scan(s, (n - 1) as nat);
        spec_keys_step(prev.0, prev.1, s[n - 1])
    }
}

/// The keys that binding notation `s` stands for. A `<...>` symbol that
/// is not known stands for its characters; one left open at the end is
/// dropped.
pub open spec fn spec_str_to_keys(s: Seq<char>) -> Seq<Key> {
    spec_keys_scan(s, s.len()).0
}

/// Each character of `s` as a `Key::Char`.
fn char_keys(s: &Vec<char>) -> (keys: Vec<Key>)
    ensures
        keys@ == spec_char_keys(s@),
{
    let mut keys: Vec<Key> = Vec::new();
    let mut j: usize = 0;
    while j < s.len()
        invariant
            j <= s@.len(),
            keys@ == spec_char_keys(s@.subrange(0, j as int)),
        decreases s@.len() - j,
    {
        let c = s[j];
        let k = Key::Char(c);
        assert(k == char_key(c));
        keys.push(k);
        j = j + 1;
        let ghost sub = s@.subrange(0, j as int);
        assert forall|i: int| 0 <= i < j implies keys@[i] == spec_char_keys(sub)[i] by {
            if i < j - 1 {
                assert(sub[i] == s@.subrange(0, j - 1)[i]);
            }
        }
        assert(keys@ =~= spec_char_keys(sub));
    }
    assert(s@.subrange(0, s@.len() as int) =~= s@);
    keys
}

/// Reads key binding notation.
pub fn str_to_keys(s: &str) -> (r: Vec<Key>)
    ensures
        r@ == spec_str_to_keys(s@),
{
    let chars = crate::text::chars_of(s);
    let mut ret: Vec<Key> = Vec::new();
    let mut sym: Vec<char> = Vec::new();
    let mut i: usize = 0;
    while i < chars.len()
        invariant
            chars@ == s@,
            i <= chars@.len(),
            (ret@, sym@) == spec_keys_scan(s@, i as nat),
        decreases chars@.len() - i,
    {
        let c = chars[i];
        let ghost prev = (ret@, sym@);
        if sym.len() > 0 {
            sym.push(c);
            if c == '>' {
                let sym_str = crate::text::string_of(sym.as_slice());
                match symbol_key(sym_str.as_str()) {
                    Some(k) => ret.push(k),
                    None => {
                        let mut more = char_keys(&sym);
                        ret.append(&mut more);
                    },
                }
                sym.clear();
            }
        } else if c == '<' {
            sym.push(c);
            assert(sym@ =~= seq!['<']);
        } else {
            ret.push(Key::Char(c));
        }
        i = i + 1;
        assert(s@.subrange(0, i as int).len() == i);
        assert((ret@, sym@) == spec_keys_step(prev.0, prev.1, s@[i - 1]));
    }
    ret
}

} // verus!
