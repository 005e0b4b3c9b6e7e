//! Horizontal alignment of a line of text inside a field of fixed width.
use vstd::prelude::*;
use vstd::string::StringSliceAdditionalSpecFns;
use vstd::utf8::encode_utf8;

verus! {

/// Where a line of text sits inside its field.
#[derive(Debug, Clone, Copy, PartialEq, Eq, Structural)]
pub enum Align {
    Left,
    Center,
    Right,
}

/// `n` spaces.
pub open spec fn spaces(n: nat) -> Seq<char> {
    Seq::new(n, |i: int| ' ')
}

/// A string of `n` spaces.
pub fn repeat_space(n: usize) -> (r: String)
    ensures
        r@ == spaces(n as nat),
{
    let mut r = String::new();
    let mut i: usize = 0;
    while i < n
        invariant
            i <= n,
            r@ == spaces(i as nat),
        decreases n - i,
    {
        crate::text::push_char(&mut r, ' ');
        i = i + 1;
        assert(r@ =~= spaces(i as nat));
    }
    r
}

impl Align {
    /// Column offset, from the field's left edge, at which text of width
    /// `real_w` starts in a field of width `max_w` (the width taken as an `i32`).
    pub open spec fn spec_offset(self, real_w: usize, max_w: u16) -> int {
        match self {
            Align::Left => 0,
            Align::Center => {
                let ret = max_w as int / 2 - real_w as int / 2;
                if max_w % 2 == 0 { ret } else { ret - 1 }
            },
            Align::Right => max_w as int - real_w as int,
        }
    }

    /// Number of spaces written after text of width `real_w`.
    pub open spec fn spec_pad_right(self, real_w: usize, max_w: u16) -> int {
        match self {
            Align::Left => {
                let d = max_w as int - real_w as int;
                if d < 0 { 0 } else { d }
            },
            Align::Center => {
                let ret = max_w as int / 2 - real_w as int / 2;
                if max_w % 2 == 0 { ret } else { ret + 1 }
            },
            Align::Right => 0,
        }
    }

    /// Offset at which text of width `real_w` starts in a field of width
    /// `max_w`. The width is converted to an `i32`, so it must fit in one.
    pub fn offset(&self, real_w: usize, max_w: u16) -> (r: i32)
        requires
            real_w <= i32::MAX,
        ensures
            r as int == self.spec_offset(real_w, max_w),
    {
        let w = real_w as i32;
        match self {
            Align::Left => 0,
            Align::Center => {
                let ret = (max_w as i32 / 2) - (w / 2);
                if max_w % 2 == 0 {
                    ret
                } else {
                    ret - 1
                }
            },
            Align::Right => max_w as i32 - w,
        }
    }

    /// The spaces written before text of width `real_w` in a field of
    /// width `max_w`. A negative count of spaces cannot be made, so it is
    /// left out by the precondition.
    pub fn pad_left(&self, real_w: usize, max_w: u16) -> (r: String)
        requires
            real_w <= i32::MAX,
            self.spec_offset(real_w, max_w) >= 0,
        ensures
            r@ == spaces(self.spec_offset(real_w, max_w) as nat),
    {
        let amount = self.offset(real_w, max_w);
        repeat_space(amount as usize)
    }

    /// The spaces written after text of width `real_w` in a field of
    /// width `max_w`.
    pub fn pad_right(&self, real_w: usize, max_w: u16) -> (r: String)
        requires
            real_w <= i32::MAX,
            self.spec_pad_right(real_w, max_w) >= 0,
        ensures
            r@ == spaces(self.spec_pad_right(real_w, max_w) as nat),
    {
        let w = real_w as i32;
        let amount: i32 = match self {
            Align::Left => {
                let d = max_w as i32 - w;
                if d < 0 { 0 } else { d }
            },
            Align::Center => {
                let ret = (max_w as i32 / 2) - (w / 2);
                if max_w % 2 == 0 {
                    ret
                } else {
                    ret + 1
                }
            },
            Align::Right => 0,
        };
        repeat_space(amount as usize)
    }

    /// Cuts `s` to fit a field of width `max_w`, counted in bytes as
    /// `str::len` counts. Left keeps the first `max_w` bytes (which must end
    /// on a character boundary); Center keeps `s` whole, and Right drops the
    /// first `max_w - len` characters; both require that `s` is no longer
    /// than the field, as the subtraction `max_w - len` does.
    pub fn crop(&self, s: &str, max_w: u16) -> (r: String)
        requires
            encode_utf8(s@).len() <= usize::MAX,
            *self == Align::Left ==> (max_w as int >= encode_utf8(s@).len()
                || vstd::utf8::is_char_boundary(encode_utf8(s@), max_w as int)),
            *self != Align::Left ==> encode_utf8(s@).len() <= max_w as int,
        ensures
            *self == Align::Left ==> (if max_w as int >= encode_utf8(s@).len() {
                r@ == s@
            } else {
                encode_utf8(r@) == encode_utf8(s@).subrange(0, max_w as int)
            }),
            *self == Align::Center ==> r@ == s@,
            *self == Align::Right ==> r@ == front_skip(s@, (max_w as int - encode_utf8(s@).len()) as nat),
    {
        let w = max_w as usize;
        match self {
            Align::Left => {
                if w >= s.len() {
                    s.to_string()
                } else {
                    let (a, _b) = s.split_at(w);
                    let r = a.to_string();
                    assert(encode_utf8(r@) == a.spec_bytes());
                    r
                }
            },
            Align::Center => s.to_string(),
            Align::Right => front_truncate(s, w - s.len()).to_string(),
        }
    }
}

/// `s` without its first `pos` characters (empty when it has fewer).
pub open spec fn front_skip(s: Seq<char>, pos: nat) -> Seq<char> {
    if pos < s.len() { s.subrange(pos as int, s.len() as int) } else { Seq::empty() }
}

/// `s` without its first `pos` characters; empty when `s` has no more
/// than `pos` characters.
pub fn front_truncate(s: &str, pos: usize) -> (r: &str)
    ensures
        r@ == front_skip(s@, pos as nat),
{
    let n = s.unicode_len();
    if pos < n {
        s.substring_char(pos, n)
    } else {
        proof {
            reveal_strlit("");
        }
        ""
    }
}

} // verus!
