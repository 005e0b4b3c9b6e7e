//! Small verified helpers on strings, seen as sequences of `char`.
use vstd::prelude::*;
use vstd::string::StringSliceAdditionalSpecFns;
use vstd::utf8::{decode_utf8, encode_utf8, encode_utf8_decode_utf8, is_char_boundary};

verus! {

/// `a` and `b` hold the same characters.
pub fn str_eq(a: &str, b: &str) -> (r: bool)
    ensures
        r == (a@ == b@),
{
    let n = a.unicode_len();
    let m = b.unicode_len();
    if n != m {
        return false;
    }
    let mut i: usize = 0;
    while i < n
        invariant
            n == a@.len(),
            m == b@.len(),
            n == m,
            i <= n,
            forall|j: int| 0 <= j < i ==> a@[j] == b@[j],
        decreases n - i,
    {
        if a.get_char(i) != b.get_char(i) {
            return false;
        }
        i = i + 1;
    }
    assert(a@ =~= b@);
    true
}

/// The characters of `s`, in order.
pub fn chars_of(s: &str) -> (v: Vec<char>)
    ensures
        v@ == s@,
{
    let n = s.unicode_len();
    let mut v: Vec<char> = Vec::new();
    let mut i: usize = 0;
    while i < n
        invariant
            n == s@.len(),
            i <= n,
            v@ == s@.subrange(0, i as int),
        decreases n - i,
    {
        v.push(s.get_char(i));
        i = i + 1;
        assert(v@ =~= s@.subrange(0, i as int));
    }
    assert(s@.subrange(0, n as int) =~= s@);
    v
}

/// Appends one character to a `String` (std's `String::push`).
#[verifier::external_body]
pub(crate) fn push_char(s: &mut String, c: char)
    ensures
        final(s)@ == old(s)@.push(c),
{
    s.push(c);
}

/// A `String` holding the characters of `v`.
pub fn string_of(v: &[char]) -> (s: String)
    ensures
        s@ == v@,
{
    let mut s = String::new();
    let mut i: usize = 0;
    while i < v.len()
        invariant
            i <= v@.len(),
            s@ == v@.subrange(0, i as int),
        decreases v@.len() - i,
    {
        push_char(&mut s, v[i]);
        i = i + 1;
        assert(s@ =~= v@.subrange(0, i as int));
    }
    assert(v@.subrange(0, v@.len() as int) =~= v@);
    s
}

/// A `String` holding the characters of `v` from `from` (inclusive) to
/// `to` (exclusive).
pub fn string_of_range(v: &[char], from: usize, to: usize) -> (s: String)
    requires
        from <= to <= v@.len(),
    ensures
        s@ == v@.subrange(from as int, to as int),
{
    let mut s = String::new();
    let mut i: usize = from;
    while i < to
        invariant
            from <= i <= to <= v@.len(),
            s@ == v@.subrange(from as int, i as int),
        decreases to - i,
    {
        push_char(&mut s, v[i]);
        i = i + 1;
        assert(s@ =~= v@.subrange(from as int, i as int));
    }
    s
}

/// `s` cut at every occurrence of `sep`, as std's `str::split` with a
/// character pattern cuts it: `n` separators give `n + 1` pieces, empty
/// ones included.
pub open spec fn spec_split(s: Seq<char>, sep: char) -> Seq<Seq<char>>
    decreases s.len(),
{
    if s.len() == 0 {
        seq![Seq::empty()]
    } else {
        let prev = spec_split(s.drop_last(), sep);
        if s.last() == sep {
            prev.push(Seq::empty())
        } else {
            prev.update(prev.len() - 1, prev.last().push(s.last()))
        }
    }
}

proof fn lemma_split_nonempty(s: Seq<char>, sep: char)
    ensures
        spec_split(s, sep).len() >= 1,
    decreases s.len(),
{
    if s.len() > 0 {
        lemma_split_nonempty(s.drop_last(), sep);
    }
}

/// Cuts `s` at every `sep`.
pub fn split_on(s: &str, sep: char) -> (r: Vec<String>)
    ensures
        r@.map_values(|p: String| p@) == spec_split(s@, sep),
{
    let chars = chars_of(s);
    let mut pieces: Vec<String> = Vec::new();
    let mut cur = String::new();
    let mut i: usize = 0;
    assert(s@.subrange(0, 0) =~= Seq::<char>::empty());
    while i < chars.len()
        invariant
            chars@ == s@,
            i <= chars@.len(),
            pieces@.map_values(|p: String| p@).push(cur@) == spec_split(s@.subrange(0, i as int), sep),
        decreases chars@.len() - i,
    {
        let c = chars[i];
        let ghost prefix = s@.subrange(0, i as int);
        let ghost before = pieces@.map_values(|p: String| p@).push(cur@);
        proof {
            lemma_split_nonempty(prefix, sep);
        }
        if c == sep {
            let mut done = String::new();
            std::mem::swap(&mut cur, &mut done);
            pieces.push(done);
        } else {
            push_char(&mut cur, c);
        }
        i = i + 1;
        proof {
            let next = s@.subrange(0, i as int);
            assert(next.drop_last() =~= prefix);
            assert(next.last() == c);
            assert(pieces@.map_values(|p: String| p@).push(cur@) =~= spec_split(next, sep));
        }
    }
    pieces.push(cur);
    assert(s@.subrange(0, s@.len() as int) =~= s@);
    assert(pieces@.map_values(|p: String| p@) =~= spec_split(s@, sep));
    pieces
}

/// The value of a run of decimal digits.
pub open spec fn spec_digits_value(d: Seq<char>) -> nat
    decreases d.len(),
{
    if d.len() == 0 {
        0
    } else {
        spec_digits_value(d.drop_last()) * 10 + (d.last() as nat - '0' as nat) as nat
    }
}

/// Every character of `d` is an ASCII decimal digit.
pub open spec fn all_digits(d: Seq<char>) -> bool {
    forall|i: int| 0 <= i < d.len() ==> '0' <= #[trigger] d[i] <= '9'
}

/// The digits std's unsigned `from_str` reads: the text after a leading
/// `'+'`, or the whole text. A lone `"+"` has no digits.
pub open spec fn spec_unsigned_digits(s: Seq<char>) -> Seq<char> {
    if s.len() > 0 && s[0] == '+' { s.drop_first() } else { s }
}

/// The number an unsigned `from_str` reads from `s`, before the check
/// against the type's maximum: an optional `'+'` and then one or more ASCII
/// digits, nothing else.
pub open spec fn spec_parse_unsigned(s: Seq<char>) -> Option<nat> {
    let d = spec_unsigned_digits(s);
    if d.len() > 0 && all_digits(d) { Some(spec_digits_value(d)) } else { None }
}

/// Reads an unsigned decimal number no greater than `max` as std's
/// `from_str` for unsigned integers reads it (`None` on an empty text, a
/// stray character or overflow).
pub fn parse_unsigned(s: &str, max: u64) -> (r: Option<u64>)
    ensures
        match spec_parse_unsigned(s@) {
            Some(v) => if v <= max { r == Some(v as u64) } else { r is None },
            None => r is None,
        },
{
    let chars = chars_of(s);
    let start: usize = if chars.len() > 0 && chars[0] == '+' { 1 } else { 0 };
    let ghost d = spec_unsigned_digits(s@);
    assert(d =~= chars@.subrange(start as int, chars@.len() as int));
    if start >= chars.len() {
        assert(d.len() == 0);
        return None;
    }
    let mut v: u64 = 0;
    let mut i: usize = start;
    let mut overflow = false;
    assert(chars@.subrange(start as int, start as int) =~= Seq::<char>::empty());
    while i < chars.len()
        invariant
            chars@ == s@,
            start <= i <= chars@.len(),
            d == chars@.subrange(start as int, chars@.len() as int),
            d == spec_unsigned_digits(s@),
            all_digits(chars@.subrange(start as int, i as int)),
            !overflow ==> v as nat == spec_digits_value(chars@.subrange(start as int, i as int)) && v <= max,
            overflow ==> spec_digits_value(chars@.subrange(start as int, i as int)) > max,
        decreases chars@.len() - i,
    {
        let c = chars[i];
        let ghost pre = chars@.subrange(start as int, i as int);
        let ghost next = chars@.subrange(start as int, i + 1);
        assert(next.drop_last() =~= pre);
        assert(next.last() == c);
        if !('0' <= c && c <= '9') {
            assert(!all_digits(d)) by {
                assert(d[i - start] == c);
            }
            return None;
        }
        let digit = (c as u32 - '0' as u32) as u64;
        if !overflow {
            if digit > max || v > (max - digit) / 10 {
                overflow = true;
                assert(spec_digits_value(next) > max) by (nonlinear_arith)
                    requires
                        spec_digits_value(next) == v * 10 + digit,
                        digit > max || v > (max - digit) / 10,
                        v >= 0,
                {
                }
            } else {
                assert(v * 10 + digit <= max) by (nonlinear_arith)
                    requires
                        v <= (max - digit) / 10,
                        digit <= max,
                {
                }
                v = v * 10 + digit;
            }
        } else {
            assert(spec_digits_value(next) >= spec_digits_value(pre)) by (nonlinear_arith)
                requires
                    spec_digits_value(next) == spec_digits_value(pre) * 10 + digit,
            {
            }
        }
        i = i + 1;
        assert(all_digits(next)) by {
            assert forall|k: int| 0 <= k < next.len() implies '0' <= #[trigger] next[k] <= '9' by {
                if k < pre.len() {
                    assert(next[k] == pre[k]);
                }
            }
        }
    }
    if overflow {
        None
    } else {
        Some(v)
    }
}

/// `needle` occurs in `hay` at position `i`.
pub open spec fn occurs_at(hay: Seq<char>, needle: Seq<char>, i: int) -> bool {
    0 <= i && i + needle.len() <= hay.len() && hay.subrange(i, i + needle.len()) == needle
}

/// `needle` occurs somewhere in `hay` (the empty text occurs everywhere).
pub open spec fn spec_contains(hay: Seq<char>, needle: Seq<char>) -> bool {
    exists|i: int| occurs_at(hay, needle, i)
}

/// Whether `n` occurs in `h` at position `i`.
fn occurs_at_exec(h: &Vec<char>, n: &Vec<char>, i: usize) -> (r: bool)
    requires
        i + n@.len() <= h@.len(),
    ensures
        r == occurs_at(h@, n@, i as int),
{
    let hl = h.len();
    let mut k: usize = 0;
    while k < n.len()
        invariant
            hl == h@.len(),
            i + n@.len() <= h@.len(),
            k <= n@.len(),
            forall|m: int| 0 <= m < k ==> h@[i + m] == n@[m],
        decreases n@.len() - k,
    {
        if h[i + k] != n[k] {
            assert(h@.subrange(i as int, i + n@.len())[k as int] != n@[k as int]);
            return false;
        }
        k = k + 1;
    }
    assert(h@.subrange(i as int, i + n@.len()) =~= n@);
    true
}

/// Whether `needle` occurs in `hay`.
pub fn contains_str(hay: &str, needle: &str) -> (r: bool)
    ensures
        r == spec_contains(hay@, needle@),
{
    let h = chars_of(hay);
    let n = chars_of(needle);
    if n.len() > h.len() {
        assert forall|i: int| !occurs_at(hay@, needle@, i) by {}
        return false;
    }
    if n.len() == 0 {
        assert(occurs_at(hay@, needle@, 0)) by {
            assert(hay@.subrange(0, 0) =~= needle@);
        }
        return true;
    }
    let hl = h.len();
    let mut i: usize = 0;
    while i <= h.len() - n.len()
        invariant
            hl == h@.len(),
            h@ == hay@,
            n@ == needle@,
            0 < n@.len() <= h@.len(),
            i <= h@.len() - n@.len() + 1,
            forall|j: int| 0 <= j < i ==> !occurs_at(hay@, needle@, j),
        decreases h@.len() - i,
    {
        if occurs_at_exec(&h, &n, i) {
            return true;
        }
        i = i + 1;
    }
    assert forall|j: int| !occurs_at(hay@, needle@, j) by {
        if 0 <= j && j < i {
        }
    }
    false
}

/// The first position at or after `from` where `needle` occurs in `hay`,
/// or -1.
pub open spec fn spec_find_from(hay: Seq<char>, needle: Seq<char>, from: int) -> int
    decreases hay.len() + 1 - from,
{
    if from < 0 || from + needle.len() > hay.len() {
        -1
    } else if occurs_at(hay, needle, from) {
        from
    } else {
        spec_find_from(hay, needle, from + 1)
    }
}

pub proof fn lemma_find_from(hay: Seq<char>, needle: Seq<char>, from: int)
    requires
        0 <= from,
    ensures
        spec_find_from(hay, needle, from) == -1 ==> forall|j: int| from <= j ==> !#[trigger] occurs_at(hay, needle, j),
        spec_find_from(hay, needle, from) != -1 ==> {
            let r = spec_find_from(hay, needle, from);
            &&& from <= r
            &&& occurs_at(hay, needle, r)
            &&& forall|j: int| from <= j < r ==> !#[trigger] occurs_at(hay, needle, j)
        },
    decreases hay.len() + 1 - from,
{
    if from + needle.len() <= hay.len() && !occurs_at(hay, needle, from) {
        lemma_find_from(hay, needle, from + 1);
    }
}

/// The pieces between the occurrences of a nonempty `sep` in `s`, from
/// position `from` on: matches are taken leftmost first and do not
/// overlap.
pub open spec fn spec_split_str_from(s: Seq<char>, sep: Seq<char>, from: int) -> Seq<Seq<char>>
    decreases s.len() - from,
{
    if sep.len() == 0 || from < 0 || from > s.len() {
        Seq::empty()
    } else {
        let i = spec_find_from(s, sep, from);
        if i < from || i + sep.len() > s.len() {
            seq![s.subrange(from, s.len() as int)]
        } else {
            seq![s.subrange(from, i)] + spec_split_str_from(s, sep, i + sep.len())
        }
    }
}

/// `s` cut at every occurrence of `sep`, as std's `str::split` with a
/// string pattern cuts it. An empty `sep` cuts before and after every
/// character, so the pieces are an empty one, each character, and
/// another empty one.
pub open spec fn spec_split_str(s: Seq<char>, sep: Seq<char>) -> Seq<Seq<char>> {
    if sep.len() == 0 {
        seq![Seq::<char>::empty()] + Seq::new(s.len(), |i: int| seq![s[i]]) + seq![Seq::<char>::empty()]
    } else {
        spec_split_str_from(s, sep, 0)
    }
}

/// Cuts `s` at every occurrence of `sep`.
pub fn split_str(s: &str, sep: &str) -> (r: Vec<String>)
    ensures
        r@.map_values(|p: String| p@) == spec_split_str(s@, sep@),
{
    let h = chars_of(s);
    let n = chars_of(sep);
    let mut pieces: Vec<String> = Vec::new();
    if n.len() == 0 {
        pieces.push(String::new());
        let mut i: usize = 0;
        while i < h.len()
            invariant
                h@ == s@,
                i <= h@.len(),
                pieces@.len() == i + 1,
                pieces@[0]@ == Seq::<char>::empty(),
                forall|k: int| 1 <= k <= i ==> (#[trigger] pieces@[k])@ == seq![s@[k - 1]],
            decreases h@.len() - i,
        {
            let mut p = String::new();
            push_char(&mut p, h[i]);
            assert(p@ =~= seq![s@[i as int]]);
            pieces.push(p);
            i = i + 1;
        }
        pieces.push(String::new());
        assert(pieces@.map_values(|p: String| p@) =~= spec_split_str(s@, sep@));
        return pieces;
    }
    let mut from: usize = 0;
    let mut i: usize = 0;
    while n.len() <= h.len() && i <= h.len() - n.len()
        invariant
            h@ == s@,
            n@ == sep@,
            n@.len() > 0,
            from <= i <= h@.len(),
            spec_find_from(s@, sep@, from as int) == spec_find_from(s@, sep@, i as int),
            pieces@.map_values(|p: String| p@) + spec_split_str_from(s@, sep@, from as int) == spec_split_str(s@, sep@),
        decreases h@.len() - i,
    {
        if occurs_at_exec(&h, &n, i) {
            proof {
                lemma_find_from(s@, sep@, from as int);
            }
            let piece = string_of_range(h.as_slice(), from, i);
            let ghost before = pieces@.map_values(|p: String| p@);
            pieces.push(piece);
            assert(pieces@.map_values(|p: String| p@) =~= before.push(piece@));
            assert(before.push(piece@) + spec_split_str_from(s@, sep@, i + n@.len()) =~= before + (seq![piece@]
                + spec_split_str_from(s@, sep@, i + n@.len())));
            from = i + n.len();
            i = from;
        } else {
            i = i + 1;
        }
    }
    assert(spec_find_from(s@, sep@, i as int) == -1);
    proof {
        lemma_find_from(s@, sep@, from as int);
    }
    let piece = string_of_range(h.as_slice(), from, h.len());
    let ghost before = pieces@.map_values(|p: String| p@);
    pieces.push(piece);
    assert(pieces@.map_values(|p: String| p@) =~= before + seq![piece@]);
    pieces
}

/// Whether `needle` occurs in `hay` when both are lowercased.
pub open spec fn spec_contains_lower(hay: Seq<char>, needle: Seq<char>) -> bool {
    spec_contains(spec_to_lowercase(hay), spec_to_lowercase(needle))
}

/// Whether `needle` occurs in `hay`, ignoring case.
pub fn contains_ignore_case(hay: &str, needle: &str) -> (r: bool)
    ensures
        r == spec_contains_lower(hay@, needle@),
{
    let h = to_lowercase(hay);
    let n = to_lowercase(needle);
    contains_str(h.as_str(), n.as_str())
}

/// A fresh `String` with the characters of `s`.
pub fn owned(s: &str) -> (r: String)
    ensures
        r@ == s@,
{
    s.to_string()
}

/// What std's `str::to_lowercase` gives for a string: the Unicode
/// lowercase mapping of every character, as a function of the input alone.
pub uninterp spec fn spec_to_lowercase(s: Seq<char>) -> Seq<char>;

/// std's `str::to_lowercase`. Its result is named, not stated: the Unicode
/// case tables are not written out here.
#[verifier::external_body]
pub(crate) fn to_lowercase(s: &str) -> (r: String)
    ensures
        r@ == spec_to_lowercase(s@),
{
    s.to_lowercase()
}

/// `a` sorts before `b` when both are compared from position `k` on:
/// the first differing character decides, and a text that ends first
/// sorts first.
pub open spec fn spec_lt_from(a: Seq<char>, b: Seq<char>, k: int) -> bool
    decreases a.len() - k,
{
    if k >= a.len() {
        k < b.len()
    } else if k >= b.len() {
        false
    } else if a[k] < b[k] {
        true
    } else if a[k] > b[k] {
        false
    } else {
        spec_lt_from(a, b, k + 1)
    }
}

/// `a` sorts before `b` in the order std gives strings. std compares the
/// UTF-8 bytes, and UTF-8 keeps the order of the characters, so this is
/// the order of the character sequences.
pub open spec fn spec_str_lt(a: Seq<char>, b: Seq<char>) -> bool {
    spec_lt_from(a, b, 0)
}

proof fn lemma_lt_irreflexive(a: Seq<char>, k: int)
    requires
        0 <= k,
    ensures
        !spec_lt_from(a, a, k),
    decreases a.len() - k,
{
    if k < a.len() {
        lemma_lt_irreflexive(a, k + 1);
    }
}

proof fn lemma_lt_asymmetric(a: Seq<char>, b: Seq<char>, k: int)
    requires
        0 <= k,
        spec_lt_from(a, b, k),
    ensures
        !spec_lt_from(b, a, k),
    decreases a.len() - k,
{
    if k < a.len() && k < b.len() && a[k] == b[k] {
        lemma_lt_asymmetric(a, b, k + 1);
    }
}

proof fn lemma_lt_transitive(a: Seq<char>, b: Seq<char>, c: Seq<char>, k: int)
    requires
        0 <= k,
        spec_lt_from(a, b, k),
        spec_lt_from(b, c, k),
    ensures
        spec_lt_from(a, c, k),
    decreases a.len() - k,
{
    if k < a.len() && k < b.len() && k < c.len() && a[k] == b[k] && b[k] == c[k] {
        lemma_lt_transitive(a, b, c, k + 1);
    }
}

proof fn lemma_lt_total_from(a: Seq<char>, b: Seq<char>, k: int)
    requires
        0 <= k <= a.len(),
        k <= b.len(),
        a.subrange(0, k) == b.subrange(0, k),
        a != b,
    ensures
        spec_lt_from(a, b, k) || spec_lt_from(b, a, k),
    decreases a.len() - k,
{
    if k == a.len() && k == b.len() {
        assert(a =~= a.subrange(0, k));
        assert(b =~= b.subrange(0, k));
    } else if k < a.len() && k < b.len() && a[k] == b[k] {
        assert(a.subrange(0, k + 1) =~= a.subrange(0, k).push(a[k]));
        assert(b.subrange(0, k + 1) =~= b.subrange(0, k).push(b[k]));
        lemma_lt_total_from(a, b, k + 1);
    }
}

/// The order of strings is a strict total order.
pub proof fn law_str_order(a: Seq<char>, b: Seq<char>, c: Seq<char>)
    ensures
        !spec_str_lt(a, a),
        spec_str_lt(a, b) ==> !spec_str_lt(b, a),
        a != b ==> spec_str_lt(a, b) || spec_str_lt(b, a),
        spec_str_lt(a, b) && spec_str_lt(b, c) ==> spec_str_lt(a, c),
{
    lemma_lt_irreflexive(a, 0);
    if spec_str_lt(a, b) {
        lemma_lt_asymmetric(a, b, 0);
        if spec_str_lt(b, c) {
            lemma_lt_transitive(a, b, c, 0);
        }
    }
    if a != b {
        assert(a.subrange(0, 0) =~= b.subrange(0, 0));
        lemma_lt_total_from(a, b, 0);
    }
}

/// Whether `a` sorts before `b`.
pub fn str_lt(a: &str, b: &str) -> (r: bool)
    ensures
        r == spec_str_lt(a@, b@),
{
    let x = chars_of(a);
    let y = chars_of(b);
    let mut k: usize = 0;
    while k < x.len() && k < y.len() && x[k] == y[k]
        invariant
            x@ == a@,
            y@ == b@,
            k <= x@.len(),
            k <= y@.len(),
            spec_str_lt(a@, b@) == spec_lt_from(a@, b@, k as int),
        decreases x@.len() - k,
    {
        k = k + 1;
    }
    if k >= x.len() {
        k < y.len()
    } else if k >= y.len() {
        false
    } else {
        x[k] < y[k]
    }
}

/// Every string of `s` sorts before the ones after it.
pub open spec fn strictly_sorted(s: Seq<Seq<char>>) -> bool {
    forall|i: int, j: int| 0 <= i < j < s.len() ==> spec_str_lt(#[trigger] s[i], #[trigger] s[j])
}

proof fn lemma_insert_sorted(s: Seq<Seq<char>>, p: int, x: Seq<char>)
    requires
        strictly_sorted(s),
        0 <= p <= s.len(),
        forall|q: int| 0 <= q < p ==> spec_str_lt(#[trigger] s[q], x),
        p < s.len() ==> spec_str_lt(x, s[p]),
    ensures
        strictly_sorted(s.insert(p, x)),
{
    let t = s.insert(p, x);
    assert forall|i: int, j: int| 0 <= i < j < t.len() implies spec_str_lt(#[trigger] t[i], #[trigger] t[j]) by {
        if i < p && j > p {
            assert(t[i] == s[i] && t[j] == s[j - 1]);
        } else if i == p && j > p {
            if j - 1 > p {
                assert(spec_str_lt(s[p], s[j - 1]));
                law_str_order(x, s[p], s[j - 1]);
            }
        } else if i > p {
            assert(t[i] == s[i - 1] && t[j] == s[j - 1]);
        }
    }
}

proof fn lemma_contains_push(s: Seq<Seq<char>>, x: Seq<char>, y: Seq<char>)
    ensures
        s.push(x).contains(y) <==> s.contains(y) || y == x,
{
    let t = s.push(x);
    if t.contains(y) {
        let k = choose|k: int| 0 <= k < t.len() && t[k] == y;
        if k < s.len() {
            assert(s[k] == y);
        }
    }
    if s.contains(y) {
        let k = choose|k: int| 0 <= k < s.len() && s[k] == y;
        assert(t[k] == y);
    }
    if y == x {
        assert(t[s.len() as int] == y);
    }
}

proof fn lemma_contains_insert(s: Seq<Seq<char>>, p: int, x: Seq<char>, y: Seq<char>)
    requires
        0 <= p <= s.len(),
    ensures
        s.insert(p, x).contains(y) <==> s.contains(y) || y == x,
{
    let t = s.insert(p, x);
    if t.contains(y) {
        let k = choose|k: int| 0 <= k < t.len() && t[k] == y;
        if k < p {
            assert(s[k] == y);
        } else if k > p {
            assert(s[k - 1] == y);
        }
    }
    if s.contains(y) {
        let k = choose|k: int| 0 <= k < s.len() && s[k] == y;
        if k < p {
            assert(t[k] == y);
        } else {
            assert(t[k + 1] == y);
        }
    }
    if y == x {
        assert(t[p] == y);
    }
}

/// A list of strings as character sequences.
pub open spec fn strings_view(s: Seq<String>) -> Seq<Seq<char>> {
    s.map_values(|p: String| p@)
}

/// The distinct strings of `items`, in order: what std's `sort` followed
/// by `dedup` leaves.
pub fn sort_dedup(items: &Vec<String>) -> (r: Vec<String>)
    ensures
        strictly_sorted(strings_view(r@)),
        forall|x: Seq<char>| #[trigger] strings_view(r@).contains(x) <==> strings_view(items@).contains(x),
{
    let ghost iv = strings_view(items@);
    let mut r: Vec<String> = Vec::new();
    let mut i: usize = 0;
    while i < items.len()
        invariant
            iv == strings_view(items@),
            i <= items@.len(),
            strictly_sorted(strings_view(r@)),
            forall|x: Seq<char>| #[trigger] strings_view(r@).contains(x) <==> iv.subrange(0, i as int).contains(x),
        decreases items@.len() - i,
    {
        let ghost rv = strings_view(r@);
        let x = &items[i];
        let mut p: usize = 0;
        while p < r.len() && str_lt(r[p].as_str(), x.as_str())
            invariant
                rv == strings_view(r@),
                p <= rv.len(),
                forall|q: int| 0 <= q < p ==> spec_str_lt(#[trigger] rv[q], x@),
            decreases rv.len() - p,
        {
            p = p + 1;
        }
        let present = p < r.len() && str_eq(r[p].as_str(), x.as_str());
        if !present {
            proof {
                if p < rv.len() {
                    law_str_order(rv[p as int], x@, x@);
                    law_str_order(x@, rv[p as int], x@);
                }
                lemma_insert_sorted(rv, p as int, x@);
            }
            r.insert(p, x.clone());
            assert(strings_view(r@) =~= rv.insert(p as int, x@));
        }
        proof {
            let pre = iv.subrange(0, i as int);
            let next = iv.subrange(0, i + 1);
            assert(next =~= pre.push(x@));
            assert forall|y: Seq<char>| #[trigger] strings_view(r@).contains(y) <==> next.contains(y) by {
                lemma_contains_push(pre, x@, y);
                assert(rv.contains(y) <==> pre.contains(y));
                if !present {
                    lemma_contains_insert(rv, p as int, x@, y);
                } else if y == x@ {
                    assert(rv[p as int] == y);
                }
            }
        }
        i = i + 1;
    }
    assert(iv.subrange(0, items@.len() as int) =~= iv);
    r
}

/// Whether one of `v` holds the characters of `x`.
pub fn contains_string(v: &Vec<String>, x: &str) -> (r: bool)
    ensures
        r == strings_view(v@).contains(x@),
{
    let mut i: usize = 0;
    while i < v.len()
        invariant
            i <= v@.len(),
            forall|k: int| 0 <= k < i ==> v@[k]@ != x@,
        decreases v@.len() - i,
    {
        if str_eq(v[i].as_str(), x) {
            assert(strings_view(v@)[i as int] == x@);
            return true;
        }
        i = i + 1;
    }
    assert(!strings_view(v@).contains(x@)) by {
        if strings_view(v@).contains(x@) {
            let k = choose|k: int| 0 <= k < strings_view(v@).len() && strings_view(v@)[k] == x@;
            assert(v@[k]@ == x@);
        }
    }
    false
}

/// `items` joined with `sep` between them.
pub open spec fn spec_join(items: Seq<Seq<char>>, sep: Seq<char>) -> Seq<char>
    decreases items.len(),
{
    if items.len() == 0 {
        Seq::empty()
    } else if items.len() == 1 {
        items[0]
    } else {
        spec_join(items.drop_last(), sep) + sep + items.last()
    }
}

/// `a` followed by `b`.
pub fn concat(a: &str, b: &str) -> (r: String)
    ensures
        r@ == a@ + b@,
{
    let mut r = a.to_string();
    let n = b.unicode_len();
    let mut i: usize = 0;
    while i < n
        invariant
            n == b@.len(),
            i <= n,
            r@ == a@ + b@.subrange(0, i as int),
        decreases n - i,
    {
        push_char(&mut r, b.get_char(i));
        i = i + 1;
        assert(r@ =~= a@ + b@.subrange(0, i as int));
    }
    assert(b@.subrange(0, n as int) =~= b@);
    r
}

/// The character of the decimal digit `d`.
pub open spec fn spec_digit(d: nat) -> char {
    if d == 0 { '0' } else if d == 1 { '1' } else if d == 2 { '2' } else if d == 3 { '3' } else if d == 4 {
        '4'
    } else if d == 5 { '5' } else if d == 6 { '6' } else if d == 7 { '7' } else if d == 8 { '8' } else { '9' }
}

/// `n` written in decimal, without leading zeros.
pub open spec fn spec_decimal(n: nat) -> Seq<char>
    decreases n,
{
    if n < 10 {
        seq![spec_digit(n)]
    } else {
        spec_decimal(n / 10).push(spec_digit(n % 10))
    }
}

/// `n` written in decimal, with a leading '-' when negative.
pub open spec fn spec_signed_decimal(n: int) -> Seq<char> {
    if n < 0 {
        seq!['-'] + spec_decimal((-n) as nat)
    } else {
        spec_decimal(n as nat)
    }
}

fn digit(d: u64) -> (c: char)
    requires
        d < 10,
    ensures
        c == spec_digit(d as nat),
{
    if d == 0 { '0' } else if d == 1 { '1' } else if d == 2 { '2' } else if d == 3 { '3' } else if d == 4 {
        '4'
    } else if d == 5 { '5' } else if d == 6 { '6' } else if d == 7 { '7' } else if d == 8 { '8' } else { '9' }
}

/// `n` written in decimal.
pub fn decimal(n: u64) -> (r: String)
    ensures
        r@ == spec_decimal(n as nat),
    decreases n,
{
    if n < 10 {
        let mut r = String::new();
        push_char(&mut r, digit(n));
        assert(r@ =~= seq![spec_digit(n as nat)]);
        r
    } else {
        let mut r = decimal(n / 10);
        push_char(&mut r, digit(n % 10));
        r
    }
}

/// `n` written in decimal, with a leading '-' when negative.
pub fn signed_decimal(n: i8) -> (r: String)
    ensures
        r@ == spec_signed_decimal(n as int),
{
    if n < 0 {
        let m: u64 = if n == -128 { 128 } else { (-n) as u64 };
        let d = decimal(m);
        proof {
            reveal_strlit("-");
        }
        assert("-"@ =~= seq!['-']);
        concat("-", d.as_str())
    } else {
        decimal(n as u64)
    }
}

/// The length of `s` in bytes, as `str::len` counts it.
pub open spec fn byte_len(s: Seq<char>) -> int {
    encode_utf8(s).len() as int
}

/// `s` cut to its first `n` bytes, as `String::truncate` cuts it; `s`
/// itself when it is no longer.
pub open spec fn cut_bytes(s: Seq<char>, n: int) -> Seq<char> {
    if byte_len(s) <= n { s } else { decode_utf8(encode_utf8(s).subrange(0, n)) }
}

/// Whether `String::truncate` can cut `s` at byte `n` without panicking.
pub open spec fn can_cut(s: Seq<char>, n: int) -> bool {
    byte_len(s) <= n || is_char_boundary(encode_utf8(s), n)
}

/// `s` cut to its first `n` bytes (`String::truncate`).
pub fn cut(s: &str, n: usize) -> (r: String)
    requires
        can_cut(s@, n as int),
        byte_len(s@) <= usize::MAX,
    ensures
        r@ == cut_bytes(s@, n as int),
        byte_len(r@) == if byte_len(s@) <= n { byte_len(s@) } else { n as int },
{
    proof {
        assert(s.spec_bytes() == encode_utf8(s@));
    }
    if n >= s.len() {
        s.to_owned()
    } else {
        let (a, _b) = s.split_at(n);
        let r = a.to_owned();
        proof {
            assert(encode_utf8(r@) == a.spec_bytes());
            encode_utf8_decode_utf8(r@);
            assert(encode_utf8(r@) == encode_utf8(s@).subrange(0, n as int));
            assert(r@ == decode_utf8(encode_utf8(s@).subrange(0, n as int)));
        }
        r
    }
}

/// Whether `String::truncate` can cut `s` at byte `n`.
pub fn cuttable(s: &str, n: usize) -> (r: bool)
    requires
        byte_len(s@) <= usize::MAX,
    ensures
        r == can_cut(s@, n as int),
{
    proof {
        assert(s.spec_bytes() == encode_utf8(s@));
    }
    n >= s.len() || s.is_char_boundary(n)
}

} // verus!
