//! The genre tree: genres and their subgenres, read from an indented
//! list where each tab is one level deeper.
use vstd::prelude::*;

use crate::text::str_eq;
use crate::track::{get_tag, opt_ref_view, opt_str_eq, opt_view, spec_tag, tags_view, Track};

verus! {

/// One genre of the tree.
#[derive(Debug, PartialEq)]
pub struct Style {
    name: String,
    depth: usize,
    children: Vec<usize>,
}

/// A genre tree. Genre 0 is the root, named "Base", at depth 0; every
/// other genre has a parent with a smaller index and is one level deeper.
/// It also holds the library's songs sorted into buckets by genre tag.
#[derive(Debug, PartialEq)]
pub struct StyleTree {
    styles: Vec<Style>,
    tracks: Vec<(Option<String>, Vec<Track>)>,
}

/// A genre as plain values: name, depth, children.
pub struct StyleView {
    pub name: Seq<char>,
    pub depth: nat,
    pub children: Seq<usize>,
}

impl Style {
    /// The genre as plain values.
    pub closed spec fn spec_view(&self) -> StyleView {
        StyleView { name: self.name@, depth: self.depth as nat, children: self.children@ }
    }

    /// A genre named `name` at depth `depth`, with no subgenres yet.
    pub fn new(name: &str, depth: usize) -> (s: Style)
        ensures
            s.spec_view() == (StyleView { name: name@, depth: depth as nat, children: Seq::empty() }),
    {
        let s = Style { name: name.to_string(), depth, children: Vec::new() };
        assert(s.children@ =~= Seq::<usize>::empty());
        s
    }
}

/// The genres of a tree as plain values.
pub open spec fn styles_view(styles: Seq<Style>) -> Seq<StyleView> {
    Seq::new(styles.len(), |i: int| styles[i].spec_view())
}

/// The shape every genre tree keeps: a root named "Base" at depth 0, and
/// children that come after their parent and are one level deeper.
pub open spec fn wf_styles(s: Seq<StyleView>) -> bool {
    &&& s.len() > 0
    &&& s[0].name == "Base"@
    &&& s[0].depth == 0
    &&& forall|i: int| 0 <= i < s.len() ==> #[trigger] s[i].depth <= i
    &&& forall|i: int, j: int|
        0 <= i < s.len() && 0 <= j < s[i].children.len() ==> {
            let c = #[trigger] s[i].children[j] as int;
            &&& i < c < s.len()
            &&& s[c].depth == s[i].depth + 1
        }
}

/// The names of the genres without subgenres under genre `id` (itself,
/// when it has none), left to right.
pub open spec fn spec_leaves(s: Seq<StyleView>, id: int) -> Seq<Seq<char>>
    decreases s.len() - id, 0int,
{
    if 0 <= id < s.len() {
        if s[id].children.len() == 0 {
            seq![s[id].name]
        } else {
            spec_leaves_list(s, s[id].children, id + 1)
        }
    } else {
        Seq::empty()
    }
}

/// The leaves under each of `ids` in turn; an id that is not above `lo`
/// or not in the tree contributes nothing.
pub open spec fn spec_leaves_list(s: Seq<StyleView>, ids: Seq<usize>, lo: int) -> Seq<Seq<char>>
    decreases s.len() - lo, ids.len(),
{
    if ids.len() == 0 || lo < 0 || lo > s.len() {
        Seq::empty()
    } else {
        let last = ids.last() as int;
        let rest = spec_leaves_list(s, ids.drop_last(), lo);
        if lo <= last < s.len() {
            rest + spec_leaves(s, last)
        } else {
            rest
        }
    }
}


/// Number of tabs a line starts with.
pub open spec fn spec_line_tabs(line: Seq<char>) -> nat
    decreases line.len(),
{
    if line.len() > 0 && line[0] == '\t' { 1 + spec_line_tabs(line.drop_first()) } else { 0 }
}

/// The genre name on a line: the line after its leading tabs, or the whole
/// line when it holds nothing but tabs.
pub open spec fn spec_line_name(line: Seq<char>) -> Seq<char> {
    let t = spec_line_tabs(line);
    if t < line.len() { line.subrange(t as int, line.len() as int) } else { line }
}

/// Reading one more line: the path of open genres is cut to as many entries
/// as the line has tabs, the new genre becomes a child of the last genre
/// left on the path (the root when none is), one level deeper than it, and
/// is put on the path.
pub open spec fn spec_tree_step(s: Seq<StyleView>, stack: Seq<usize>, line: Seq<char>) -> (Seq<StyleView>, Seq<usize>) {
    let t = spec_line_tabs(line);
    let kept = if stack.len() > t { stack.subrange(0, t as int) } else { stack };
    let parent = if kept.len() > 0 { kept.last() as int } else { 0 };
    let new_id = s.len();
    let p = s[parent];
    let s2 = s.update(parent, StyleView { name: p.name, depth: p.depth, children: p.children.push(new_id as usize) });
    (s2.push(StyleView { name: spec_line_name(line), depth: p.depth + 1, children: Seq::empty() }), kept.push(new_id as usize))
}

/// The genres and the open path after the first `n` lines.
pub open spec fn spec_tree_scan(lines: Seq<Seq<char>>, n: nat) -> (Seq<StyleView>, Seq<usize>)
    decreases n,
{
    if n == 0 || n > lines.len() {
        (seq![StyleView { name: "Base"@, depth: 0, children: Seq::empty() }], Seq::empty())
    } else {
        let prev = spec_tree_scan(lines, (n - 1) as nat);
        spec_tree_step(prev.0, prev.1, lines[n - 1])
    }
}

/// The last genre before `below` at depth `d` (the root when there is
/// none).
pub open spec fn spec_last_at(s: Seq<StyleView>, below: int, d: nat) -> int
    decreases below,
{
    if below <= 0 {
        0
    } else if s[below - 1].depth == d {
        below - 1
    } else {
        spec_last_at(s, below - 1, d)
    }
}

/// The parent of genre `i`: the last genre before it one level up.
pub open spec fn spec_parent_of(s: Seq<StyleView>, i: int) -> int {
    spec_last_at(s, i, (s[i].depth - 1) as nat)
}

/// The genres among the first `m` whose parent is `j`, in file order.
pub open spec fn spec_kids(s: Seq<StyleView>, j: int, m: int) -> Seq<usize>
    decreases m,
{
    if m <= 1 {
        Seq::empty()
    } else {
        let rest = spec_kids(s, j, m - 1);
        if spec_parent_of(s, m - 1) == j { rest.push((m - 1) as usize) } else { rest }
    }
}

/// The genre tree `s` read from `lines`: the root, then one genre per
/// line with the line's name, as deep as the line's tabs say but at most
/// one level below the genre before it; each genre's children are the
/// later genres whose parent it is, in file order.
pub open spec fn tree_of_lines(lines: Seq<Seq<char>>, s: Seq<StyleView>) -> bool {
    &&& s.len() == lines.len() + 1
    &&& s[0].name == "Base"@
    &&& s[0].depth == 0
    &&& forall|k: int| 0 <= k < lines.len() ==> {
        &&& #[trigger] s[k + 1].name == spec_line_name(lines[k])
        &&& s[k + 1].depth == (if spec_line_tabs(lines[k]) < s[k].depth { spec_line_tabs(lines[k]) } else { s[k].depth }) + 1
    }
    &&& forall|j: int| 0 <= j < s.len() ==> #[trigger] s[j].children == spec_kids(s, j, s.len() as int)
}

/// The stack of the scan: entry `i` is the last genre at depth `i + 1`,
/// and the path is as deep as the last genre.
pub open spec fn scan_inv(lines: Seq<Seq<char>>, n: nat, s: Seq<StyleView>, stack: Seq<usize>) -> bool {
    &&& tree_of_lines(lines.subrange(0, n as int), s)
    &&& forall|i: int| 1 <= i < s.len() ==> #[trigger] s[i].depth >= 1
    &&& stack.len() == s[n as int].depth
    &&& forall|i: int| 0 <= i < stack.len() ==> {
        &&& #[trigger] stack[i] as int == spec_last_at(s, s.len() as int, (i + 1) as nat)
        &&& (stack[i] as int) < s.len()
        &&& s[stack[i] as int].depth == i + 1
    }
}

/// `spec_last_at` reads only depths, and lands below `below`.
proof fn lemma_last_at_depths(a: Seq<StyleView>, b: Seq<StyleView>, below: int, d: nat)
    requires
        below <= a.len(),
        below <= b.len(),
        forall|i: int| 0 <= i < below ==> #[trigger] a[i].depth == b[i].depth,
    ensures
        spec_last_at(a, below, d) == spec_last_at(b, below, d),
        below >= 1 ==> 0 <= spec_last_at(a, below, d) < below,
    decreases below,
{
    if below > 0 {
        lemma_last_at_depths(a, b, below - 1, d);
    }
}

/// The root is the only genre at depth 0.
proof fn lemma_last_at_root(s: Seq<StyleView>, below: int)
    requires
        1 <= below <= s.len(),
        s[0].depth == 0,
        forall|i: int| 1 <= i < s.len() ==> #[trigger] s[i].depth >= 1,
    ensures
        spec_last_at(s, below, 0) == 0,
    decreases below,
{
    if below > 1 {
        assert(s[below - 1].depth >= 1);
        lemma_last_at_root(s, below - 1);
    }
}

/// Children lists depend only on depths, and name only earlier genres'
/// later genres.
proof fn lemma_kids_depths(a: Seq<StyleView>, b: Seq<StyleView>, j: int, m: int)
    requires
        m <= a.len(),
        m <= b.len(),
        forall|i: int| 0 <= i < m ==> #[trigger] a[i].depth == b[i].depth,
    ensures
        spec_kids(a, j, m) == spec_kids(b, j, m),
    decreases m,
{
    if m > 1 {
        lemma_kids_depths(a, b, j, m - 1);
        lemma_last_at_depths(a, b, m - 1, (a[m - 1].depth - 1) as nat);
    }
}

/// No genre at or after `m` has children among the first `m`.
proof fn lemma_kids_empty(s: Seq<StyleView>, j: int, m: int)
    requires
        m <= j + 1,
        m <= s.len(),
    ensures
        spec_kids(s, j, m) == Seq::<usize>::empty(),
    decreases m,
{
    if m > 1 {
        lemma_kids_empty(s, j, m - 1);
        lemma_last_at_depths(s, s, m - 1, (s[m - 1].depth - 1) as nat);
    }
}

/// The scan keeps its stack in step with the tree it builds.
proof fn lemma_scan_inv(lines: Seq<Seq<char>>, n: nat)
    requires
        n <= lines.len(),
        lines.len() < usize::MAX,
    ensures
        scan_inv(lines, n, spec_tree_scan(lines, n).0, spec_tree_scan(lines, n).1),
    decreases n,
{
    let (s, stack) = spec_tree_scan(lines, n);
    if n == 0 {
        assert(lines.subrange(0, 0).len() == 0);
        assert(spec_kids(s, 0, 1) == Seq::<usize>::empty());
        assert(tree_of_lines(lines.subrange(0, 0), s));
    } else {
        let m = (n - 1) as nat;
        lemma_scan_inv(lines, m);
        let (s0, st0) = spec_tree_scan(lines, m);
        let line = lines[m as int];
        let t = spec_line_tabs(line);
        let kept = if st0.len() > t { st0.subrange(0, t as int) } else { st0 };
        let parent = if kept.len() > 0 { kept.last() as int } else { 0 };
        let new_id = s0.len() as int;
        let p = s0[parent];
        let s1 = s0.update(parent, StyleView { name: p.name, depth: p.depth, children: p.children.push(new_id as usize) });
        assert(s == s1.push(StyleView { name: spec_line_name(line), depth: p.depth + 1, children: Seq::empty() }));
        assert(stack == kept.push(new_id as usize));
        let d = kept.len() + 1;
        assert(new_id == n);
        // Depth of the new genre.
        if kept.len() > 0 {
            assert(s0[kept.last() as int].depth == kept.len());
        } else {
            assert(p.depth == 0);
        }
        assert(p.depth + 1 == d);
        assert forall|i: int| 0 <= i < n implies #[trigger] s[i].depth == s0[i].depth by {}
        // The parent found by the stack is the last genre one level up.
        lemma_last_at_depths(s, s0, n as int, (d - 1) as nat);
        if kept.len() > 0 {
            assert(kept.last() == st0[kept.len() - 1]);
        } else {
            lemma_last_at_root(s0, n as int);
        }
        assert(spec_parent_of(s, n as int) == parent);
        let lp = lines.subrange(0, n as int);
        let lm = lines.subrange(0, m as int);
        assert forall|k: int| 0 <= k < lp.len() implies {
            &&& #[trigger] s[k + 1].name == spec_line_name(lp[k])
            &&& s[k + 1].depth == (if spec_line_tabs(lp[k]) < s[k].depth { spec_line_tabs(lp[k]) } else { s[k].depth }) + 1
        } by {
            if k < m {
                assert(lp[k] == lm[k]);
                assert(s0[k + 1].name == spec_line_name(lm[k]));
            } else {
                assert(lp[k] == line);
            }
        }
        assert forall|j: int| 0 <= j < s.len() implies #[trigger] s[j].children == spec_kids(s, j, s.len() as int) by {
            lemma_kids_depths(s, s0, j, n as int);
            if j < n {
                assert(s0[j].children == spec_kids(s0, j, n as int));
            } else {
                lemma_kids_empty(s, j, n as int);
            }
        }
        assert forall|i: int| 0 <= i < stack.len() implies {
            &&& #[trigger] stack[i] as int == spec_last_at(s, s.len() as int, (i + 1) as nat)
            &&& (stack[i] as int) < s.len()
            &&& s[stack[i] as int].depth == i + 1
        } by {
            assert(s[n as int].depth == d);
            if i < kept.len() {
                assert(stack[i] == st0[i]);
                lemma_last_at_depths(s, s0, n as int, (i + 1) as nat);
                assert(spec_last_at(s, (n + 1) as int, (i + 1) as nat) == spec_last_at(s, n as int, (i + 1) as nat));
                assert(s[stack[i] as int].depth == s0[st0[i] as int].depth);
            } else {
                assert(stack[i] == n);
                assert(spec_last_at(s, (n + 1) as int, (i + 1) as nat) == n);
            }
        }
        assert forall|i: int| 1 <= i < s.len() implies #[trigger] s[i].depth >= 1 by {}
        assert(s.len() == lp.len() + 1);
        assert(s[0].name == "Base"@);
        assert(s[0].depth == 0);
        assert(tree_of_lines(lp, s));
        assert(stack.len() == s[n as int].depth);
    }
}

/// A genre file is read into its tree: each line gives one genre, named by
/// the line past its tabs and as deep as its tabs say, but at most one
/// level below the genre before it; the genre is a child of the last
/// earlier genre one level up (the root for the top level), and children
/// come in file order. (Genre ids are `usize`s, so the file has fewer
/// lines than that type counts.)
pub proof fn law_tree_from_lines(lines: Seq<Seq<char>>)
    requires
        lines.len() < usize::MAX,
    ensures
        tree_of_lines(lines, spec_tree_scan(lines, lines.len()).0),
{
    lemma_scan_inv(lines, lines.len());
    assert(lines.subrange(0, lines.len() as int) =~= lines);
}

/// Counts the tabs that `line` starts with, and finds where its name starts.
fn line_tabs(line: &Vec<char>) -> (r: usize)
    ensures
        r == spec_line_tabs(line@),
{
    let mut i: usize = 0;
    assert(line@.subrange(0, line@.len() as int) =~= line@);
    while i < line.len() && line[i] == '\t'
        invariant
            i <= line@.len(),
            forall|j: int| 0 <= j < i ==> line@[j] == '\t',
            spec_line_tabs(line@) == i + spec_line_tabs(line@.subrange(i as int, line@.len() as int)),
        decreases line@.len() - i,
    {
        let ghost rest = line@.subrange(i as int, line@.len() as int);
        assert(rest.drop_first() =~= line@.subrange(i + 1, line@.len() as int));
        i = i + 1;
    }
    let ghost rest = line@.subrange(i as int, line@.len() as int);
    assert(rest.len() == 0 || rest[0] != '\t');
    i
}

proof fn lemma_tabs_start(line: Seq<char>)
    ensures
        spec_line_tabs(line) <= line.len(),
    decreases line.len(),
{
    if line.len() > 0 && line[0] == '\t' {
        lemma_tabs_start(line.drop_first());
    }
}

/// The genre tag of a song, if it has one.
pub open spec fn spec_genre(t: Track) -> Option<Seq<char>> {
    spec_tag(tags_view(t.tags@), "Genre"@)
}

/// The songs of `ts` whose genre tag is `key` (`None`: songs without one),
/// in order.
pub open spec fn spec_genre_tracks(ts: Seq<Track>, key: Option<Seq<char>>) -> Seq<Track>
    decreases ts.len(),
{
    if ts.len() == 0 {
        Seq::empty()
    } else {
        let rest = spec_genre_tracks(ts.drop_last(), key);
        if spec_genre(ts.last()) == key { rest.push(ts.last()) } else { rest }
    }
}

/// The songs of the bucket for `key` among `buckets`: those of the first
/// bucket with that key, or none.
pub open spec fn spec_bucket_in(buckets: Seq<(Option<String>, Vec<Track>)>, key: Option<Seq<char>>) -> Seq<Track>
    decreases buckets.len(),
{
    if buckets.len() == 0 {
        Seq::empty()
    } else if opt_view(buckets[0].0) == key {
        buckets[0].1@
    } else {
        spec_bucket_in(buckets.drop_first(), key)
    }
}

/// No two buckets share a genre key.
pub open spec fn unique_keys(buckets: Seq<(Option<String>, Vec<Track>)>) -> bool {
    forall|a: int, b: int| 0 <= a < b < buckets.len() ==> opt_view(#[trigger] buckets[a].0) != opt_view(#[trigger] buckets[b].0)
}

/// The buckets sort the songs `p` by genre: one bucket per genre that
/// occurs, none empty, each holding exactly that genre's songs in order.
pub open spec fn sorts(buckets: Seq<(Option<String>, Vec<Track>)>, p: Seq<Track>) -> bool {
    &&& unique_keys(buckets)
    &&& forall|a: int| 0 <= a < buckets.len() ==> (#[trigger] buckets[a]).1@.len() > 0
    &&& forall|a: int| 0 <= a < buckets.len() ==> (#[trigger] buckets[a]).1@ == spec_genre_tracks(p, opt_view(buckets[a].0))
    &&& forall|key: Option<Seq<char>>|
        (forall|a: int| 0 <= a < buckets.len() ==> opt_view(#[trigger] buckets[a].0) != key) ==>
        #[trigger] spec_genre_tracks(p, key) == Seq::<Track>::empty()
}

proof fn lemma_genre_push(p: Seq<Track>, t: Track, k: Option<Seq<char>>)
    ensures
        spec_genre_tracks(p.push(t), k) == (if spec_genre(t) == k {
            spec_genre_tracks(p, k).push(t)
        } else {
            spec_genre_tracks(p, k)
        }),
{
    assert(p.push(t).drop_last() =~= p);
}

/// Adding song `t` to the bucket at `j`, whose key is its genre.
proof fn lemma_sorts_add(old_b: Seq<(Option<String>, Vec<Track>)>, new_b: Seq<(Option<String>, Vec<Track>)>, p: Seq<Track>, t: Track, j: int)
    requires
        sorts(old_b, p),
        0 <= j < old_b.len(),
        opt_view(old_b[j].0) == spec_genre(t),
        new_b.len() == old_b.len(),
        new_b[j].0 == old_b[j].0,
        new_b[j].1@ == old_b[j].1@.push(t),
        forall|a: int| 0 <= a < old_b.len() && a != j ==> new_b[a] == old_b[a],
    ensures
        sorts(new_b, p.push(t)),
{
    assert forall|k: Option<Seq<char>>| #[trigger] spec_genre_tracks(p.push(t), k) == (if spec_genre(t) == k {
        spec_genre_tracks(p, k).push(t)
    } else {
        spec_genre_tracks(p, k)
    }) by {
        lemma_genre_push(p, t, k);
    }
    assert forall|a: int, b: int| 0 <= a < b < new_b.len() implies opt_view(#[trigger] new_b[a].0) != opt_view(#[trigger] new_b[b].0) by {
        assert(new_b[a].0 == old_b[a].0);
        assert(new_b[b].0 == old_b[b].0);
    }
    assert forall|a: int| 0 <= a < new_b.len() implies (#[trigger] new_b[a]).1@ == spec_genre_tracks(p.push(t), opt_view(new_b[a].0)) by {
        if a != j {
            assert(new_b[a] == old_b[a]);
        }
    }
    assert forall|key: Option<Seq<char>>|
        (forall|a: int| 0 <= a < new_b.len() ==> opt_view(#[trigger] new_b[a].0) != key) implies
        #[trigger] spec_genre_tracks(p.push(t), key) == Seq::<Track>::empty() by {
        assert(opt_view(new_b[j].0) != key);
        assert forall|a: int| 0 <= a < old_b.len() implies opt_view(#[trigger] old_b[a].0) != key by {
            assert(old_b[a].0 == new_b[a].0);
        }
    }
}

/// Adding song `t` in a new bucket, when no bucket has its genre.
proof fn lemma_sorts_new(old_b: Seq<(Option<String>, Vec<Track>)>, p: Seq<Track>, t: Track, key: Option<String>, b: Vec<Track>)
    requires
        sorts(old_b, p),
        opt_view(key) == spec_genre(t),
        forall|a: int| 0 <= a < old_b.len() ==> opt_view(#[trigger] old_b[a].0) != opt_view(key),
        b@ == seq![t],
    ensures
        sorts(old_b.push((key, b)), p.push(t)),
{
    let new_b = old_b.push((key, b));
    assert forall|k: Option<Seq<char>>| #[trigger] spec_genre_tracks(p.push(t), k) == (if spec_genre(t) == k {
        spec_genre_tracks(p, k).push(t)
    } else {
        spec_genre_tracks(p, k)
    }) by {
        lemma_genre_push(p, t, k);
    }
    assert(spec_genre_tracks(p, opt_view(key)) == Seq::<Track>::empty());
    assert(b@ =~= Seq::<Track>::empty().push(t));
    assert forall|a: int, c: int| 0 <= a < c < new_b.len() implies opt_view(#[trigger] new_b[a].0) != opt_view(#[trigger] new_b[c].0) by {
        if c == old_b.len() {
            assert(new_b[a] == old_b[a]);
        } else {
            assert(new_b[a] == old_b[a]);
            assert(new_b[c] == old_b[c]);
        }
    }
    assert forall|a: int| 0 <= a < new_b.len() implies (#[trigger] new_b[a]).1@.len() > 0 by {
        if a < old_b.len() {
            assert(new_b[a] == old_b[a]);
        }
    }
    assert forall|a: int| 0 <= a < new_b.len() implies (#[trigger] new_b[a]).1@ == spec_genre_tracks(p.push(t), opt_view(new_b[a].0)) by {
        if a < old_b.len() {
            assert(new_b[a] == old_b[a]);
        }
    }
    assert forall|k2: Option<Seq<char>>|
        (forall|a: int| 0 <= a < new_b.len() ==> opt_view(#[trigger] new_b[a].0) != k2) implies
        #[trigger] spec_genre_tracks(p.push(t), k2) == Seq::<Track>::empty() by {
        assert(opt_view(new_b[old_b.len() as int].0) != k2);
        assert forall|a: int| 0 <= a < old_b.len() implies opt_view(#[trigger] old_b[a].0) != k2 by {
            assert(old_b[a] == new_b[a]);
        }
    }
}

/// The index of the bucket whose key is `key`, if any.
fn find_bucket(buckets: &Vec<(Option<String>, Vec<Track>)>, key: &Option<String>) -> (r: Option<usize>)
    ensures
        match r {
            Some(j) => j < buckets@.len() && opt_view(buckets@[j as int].0) == opt_view(*key),
            None => forall|a: int| 0 <= a < buckets@.len() ==> opt_view(#[trigger] buckets@[a].0) != opt_view(*key),
        },
{
    let mut j: usize = 0;
    while j < buckets.len()
        invariant
            j <= buckets@.len(),
            forall|a: int| 0 <= a < j ==> opt_view(#[trigger] buckets@[a].0) != opt_view(*key),
        decreases buckets@.len() - j,
    {
        if opt_str_eq(&buckets[j].0, key) {
            return Some(j);
        }
        j = j + 1;
    }
    None
}

proof fn lemma_bucket_in_index(buckets: Seq<(Option<String>, Vec<Track>)>, j: int)
    requires
        0 <= j < buckets.len(),
        unique_keys(buckets),
    ensures
        spec_bucket_in(buckets, opt_view(buckets[j].0)) == buckets[j].1@,
    decreases j,
{
    if j > 0 {
        assert(opt_view(buckets[0].0) != opt_view(buckets[j].0));
        assert(unique_keys(buckets.drop_first())) by {
            assert forall|a: int, b: int| 0 <= a < b < buckets.drop_first().len() implies
                opt_view(#[trigger] buckets.drop_first()[a].0) != opt_view(#[trigger] buckets.drop_first()[b].0) by {
                assert(buckets.drop_first()[a] == buckets[a + 1]);
                assert(buckets.drop_first()[b] == buckets[b + 1]);
            }
        }
        lemma_bucket_in_index(buckets.drop_first(), j - 1);
    }
}

proof fn lemma_bucket_in_absent(buckets: Seq<(Option<String>, Vec<Track>)>, key: Option<Seq<char>>)
    requires
        forall|a: int| 0 <= a < buckets.len() ==> opt_view(#[trigger] buckets[a].0) != key,
    ensures
        spec_bucket_in(buckets, key) == Seq::<Track>::empty(),
    decreases buckets.len(),
{
    if buckets.len() > 0 {
        assert(opt_view(buckets[0].0) != key);
        lemma_bucket_in_absent(buckets.drop_first(), key);
    }
}

impl StyleTree {
    /// The genres as plain values.
    pub closed spec fn spec_styles(&self) -> Seq<StyleView> {
        styles_view(self.styles@)
    }

    /// The genre keys of the song buckets, in order of first appearance.
    pub closed spec fn spec_bucket_keys(&self) -> Seq<Option<Seq<char>>> {
        self.tracks@.map_values(|b: (Option<String>, Vec<Track>)| opt_view(b.0))
    }

    /// Each genre key has at most one bucket, and no bucket is empty.
    pub closed spec fn wf_buckets(&self) -> bool {
        &&& unique_keys(self.tracks@)
        &&& forall|a: int| 0 <= a < self.tracks@.len() ==> (#[trigger] self.tracks@[a]).1@.len() > 0
    }

    /// The tree keeps its shape; every tree does.
    #[verifier::type_invariant]
    pub open spec fn wf(&self) -> bool {
        &&& wf_styles(self.spec_styles())
        &&& self.spec_styles().len() < usize::MAX
        &&& self.wf_buckets()
    }

    /// A tree with the root genre only and no songs.
    pub fn new() -> (t: StyleTree)
        ensures
            t.spec_styles() == seq![StyleView { name: "Base"@, depth: 0, children: Seq::empty() }],
            t.spec_bucket_keys().len() == 0,
    {
        let mut styles = Vec::new();
        styles.push(Style::new("Base", 0));
        assert(styles_view(styles@)[0] == styles@[0].spec_view());
        assert(styles_view(styles@) =~= seq![StyleView { name: "Base"@, depth: 0, children: Seq::empty() }]);
        StyleTree { styles, tracks: Vec::new() }
    }

    /// Reads a genre tree from the lines of a genre file.
    pub fn load_tree_from_lines(lines: &Vec<String>) -> (t: StyleTree)
        requires
            lines@.len() + 1 < usize::MAX,
        ensures
            t.spec_styles() == spec_tree_scan(lines@.map_values(|l: String| l@), lines@.len()).0,
            tree_of_lines(lines@.map_values(|l: String| l@), t.spec_styles()),
            t.spec_styles().len() == lines@.len() + 1,
            t.spec_bucket_keys().len() == 0,
    {
        let ghost lv = lines@.map_values(|l: String| l@);
        let mut styles: Vec<Style> = Vec::new();
        styles.push(Style::new("Base", 0));
        assert(styles_view(styles@) =~= seq![StyleView { name: "Base"@, depth: 0, children: Seq::empty() }]);
        let mut stack: Vec<usize> = Vec::new();
        let mut k: usize = 0;
        while k < lines.len()
            invariant
                lv == lines@.map_values(|l: String| l@),
                lines@.len() + 1 < usize::MAX,
                k <= lines@.len(),
                wf_styles(styles_view(styles@)),
                styles_view(styles@).len() == k + 1,
                (styles_view(styles@), stack@) == spec_tree_scan(lv, k as nat),
                forall|j: int| 0 <= j < stack@.len() ==> (#[trigger] stack@[j] as int) < styles_view(styles@).len(),
            decreases lines@.len() - k,
        {
            let chars = crate::text::chars_of(lines[k].as_str());
            assert(chars@ == lv[k as int]);
            let tabs = line_tabs(&chars);
            let ghost old_stack = stack@;
            while stack.len() > tabs
                invariant
                    stack@.len() <= old_stack.len(),
                    stack@ == old_stack.subrange(0, stack@.len() as int),
                    old_stack.len() > tabs ==> stack@.len() >= tabs,
                    old_stack.len() <= tabs ==> stack@ == old_stack,
                    forall|j: int| 0 <= j < stack@.len() ==> (#[trigger] stack@[j] as int) < styles_view(styles@).len(),
                decreases stack@.len(),
            {
                stack.pop();
            }
            proof {
                if old_stack.len() > tabs {
                    assert(stack@ =~= old_stack.subrange(0, tabs as int));
                } else {
                    assert(stack@ =~= old_stack);
                }
            }
            let ghost s0 = styles_view(styles@);
            let parent = match stack.last() {
                Some(p) => *p,
                None => 0,
            };
            let parent_depth = styles[parent].depth;
            assert(styles_view(styles@)[parent as int] == styles@[parent as int].spec_view());
            assert(styles_view(styles@)[parent as int].depth <= parent);
            assert(parent_depth < usize::MAX);
            let new_id = styles.len();
            let name_start = if tabs < chars.len() { tabs } else { 0 };
            let name = crate::text::string_of_range(chars.as_slice(), name_start, chars.len());
            proof {
                lemma_tabs_start(chars@);
                assert(name@ == spec_line_name(lv[k as int]));
            }
            let ghost old_styles = styles@;
            styles[parent].children.push(new_id);
            styles.push(Style { name, depth: parent_depth + 1, children: Vec::new() });
            let ghost kept = stack@;
            stack.push(new_id);
            proof {
                let p = s0[parent as int];
                let s1 = s0.update(parent as int, StyleView { name: p.name, depth: p.depth, children: p.children.push(new_id) });
                let s2 = s1.push(StyleView { name: name@, depth: p.depth + 1, children: Seq::empty() });
                assert(s0 == styles_view(old_styles));
                assert(styles_view(styles@) =~= s2) by {
                    assert forall|i: int| 0 <= i < s2.len() implies #[trigger] styles_view(styles@)[i] == s2[i] by {
                        if i < s0.len() && i != parent {
                            assert(styles@[i] == old_styles[i]);
                        }
                    }
                }
                assert(wf_styles(s2)) by {
                    assert forall|i: int, j: int|
                        0 <= i < s2.len() && 0 <= j < s2[i].children.len() implies {
                            let c = #[trigger] s2[i].children[j] as int;
                            &&& i < c < s2.len()
                            &&& s2[c].depth == s2[i].depth + 1
                        } by {
                        if i < s0.len() && !(i == parent && j == s0[i].children.len()) {
                            assert(s2[i].children[j] == s0[i].children[j]);
                        }
                    }
                }
            }
            k = k + 1;
            proof {
                assert(lv.len() == lines@.len());
            }
        }
        proof {
            law_tree_from_lines(lv);
        }
        StyleTree { styles, tracks: Vec::new() }
    }

    /// The songs whose genre tag is `key` (`None`: songs without one), in
    /// the order `set_tracks` was given them; empty when there are none.
    pub closed spec fn spec_bucket(&self, key: Option<Seq<char>>) -> Seq<Track> {
        spec_bucket_in(self.tracks@, key)
    }

    /// Sorts the library's songs into buckets by genre tag, replacing any
    /// earlier sorting.
    pub fn set_tracks(&mut self, tracks: Vec<Track>)
        ensures
            final(self).spec_styles() == old(self).spec_styles(),
            forall|key: Option<Seq<char>>| #[trigger] final(self).spec_bucket(key) == spec_genre_tracks(tracks@, key),
    {
        proof {
            use_type_invariant(&*self);
        }
        let ghost all = tracks@;
        let mut rev: Vec<Track> = Vec::new();
        let mut src = tracks;
        assert(src@ + rev@.reverse() =~= all);
        while src.len() > 0
            invariant
                src@ + rev@.reverse() == all,
            decreases src@.len(),
        {
            let ghost before_src = src@;
            let ghost before_rev = rev@;
            let t = src.pop().unwrap();
            rev.push(t);
            assert(rev@.reverse() =~= seq![t] + before_rev.reverse());
            assert(before_src =~= src@.push(t));
            assert(src@ + rev@.reverse() =~= all);
        }
        let mut buckets: Vec<(Option<String>, Vec<Track>)> = Vec::new();
        let ghost mut done: int = 0;
        assert(all.subrange(0, 0) =~= Seq::<Track>::empty());
        assert(rev@.reverse() =~= all);
        while rev.len() > 0
            invariant
                0 <= done <= all.len(),
                all.subrange(0, done) + rev@.reverse() == all,
                sorts(buckets@, all.subrange(0, done)),
            decreases rev@.len(),
        {
            let ghost before_rev = rev@;
            let ghost p = all.subrange(0, done);
            let t = rev.pop().unwrap();
            proof {
                assert(before_rev.reverse() =~= seq![t] + rev@.reverse());
                assert(all[done] == t) by {
                    assert((p + before_rev.reverse())[done] == t);
                }
            }
            let key: Option<String> = match get_tag(&t, "Genre") {
                Some(g) => Some(g.clone()),
                None => None,
            };
            assert(opt_view(key) == spec_genre(t));
            let ghost old_buckets = buckets@;
            match find_bucket(&buckets, &key) {
                Some(j) => {
                    buckets[j].1.push(t);
                    proof {
                        lemma_sorts_add(old_buckets, buckets@, p, t, j as int);
                    }
                },
                None => {
                    let mut b: Vec<Track> = Vec::new();
                    b.push(t);
                    proof {
                        assert(b@ =~= seq![t]);
                        lemma_sorts_new(old_buckets, p, t, key, b);
                    }
                    buckets.push((key, b));
                },
            }
            proof {
                done = done + 1;
                assert(all.subrange(0, done) =~= p.push(t));
                assert(all.subrange(0, done) + rev@.reverse() =~= all);
            }
        }
        proof {
            assert(rev@.reverse() =~= Seq::<Track>::empty());
            assert(all.subrange(0, done) =~= all);
        }
        self.tracks = buckets;
        proof {
            assert forall|key: Option<Seq<char>>| #[trigger] self.spec_bucket(key) == spec_genre_tracks(all, key) by {
                if exists|a: int| 0 <= a < buckets@.len() && opt_view(#[trigger] buckets@[a].0) == key {
                    let a = choose|a: int| 0 <= a < buckets@.len() && opt_view(#[trigger] buckets@[a].0) == key;
                    lemma_bucket_in_index(buckets@, a);
                } else {
                    lemma_bucket_in_absent(buckets@, key);
                }
            }
        }
    }

    /// The songs whose genre tag is `key`; `None` when no song has it.
    pub fn tracks(&self, key: &Option<String>) -> (r: Option<&Vec<Track>>)
        ensures
            match r {
                Some(v) => v@ == self.spec_bucket(opt_view(*key)) && v@.len() > 0,
                None => self.spec_bucket(opt_view(*key)).len() == 0,
            },
    {
        proof {
            use_type_invariant(self);
        }
        match find_bucket(&self.tracks, key) {
            Some(j) => {
                proof {
                    lemma_bucket_in_index(self.tracks@, j as int);
                }
                Some(&self.tracks[j].1)
            },
            None => {
                proof {
                    lemma_bucket_in_absent(self.tracks@, opt_view(*key));
                }
                None
            },
        }
    }

    /// Number of genres, the root included.
    pub fn len(&self) -> (n: usize)
        ensures
            n == self.spec_styles().len(),
    {
        self.styles.len()
    }

    /// Name of genre `id`.
    pub fn name(&self, id: usize) -> (r: &str)
        requires
            id < self.spec_styles().len(),
        ensures
            r@ == self.spec_styles()[id as int].name,
    {
        self.styles[id].name.as_str()
    }

    /// Depth of genre `id` (the root is at depth 0).
    pub fn depth(&self, id: usize) -> (r: usize)
        requires
            id < self.spec_styles().len(),
        ensures
            r == self.spec_styles()[id as int].depth,
    {
        self.styles[id].depth
    }

    /// Subgenres of genre `id`, in the order they were read.
    pub fn children(&self, id: usize) -> (r: Vec<usize>)
        requires
            id < self.spec_styles().len(),
        ensures
            r@ == self.spec_styles()[id as int].children,
    {
        self.styles[id].children.clone()
    }

    /// Names of the genres without subgenres under genre `id`, left to right.
    pub fn leaf_names(&self, id: usize) -> (r: Vec<&str>)
        requires
            id < self.spec_styles().len(),
        ensures
            r@.map_values(|s: &str| s@) == spec_leaves(self.spec_styles(), id as int),
        decreases self.spec_styles().len() - id,
    {
        proof {
            use_type_invariant(self);
        }
        let ghost s = self.spec_styles();
        let children = &self.styles[id].children;
        assert(s[id as int] == self.styles@[id as int].spec_view());
        if children.len() == 0 {
            let mut ret = Vec::new();
            ret.push(self.styles[id].name.as_str());
            assert(ret@.map_values(|s: &str| s@) =~= seq![s[id as int].name]);
            return ret;
        }
        let mut ret: Vec<&str> = Vec::new();
        let mut k: usize = 0;
        assert(children@.subrange(0, 0) =~= Seq::<usize>::empty());
        while k < children.len()
            invariant
                self.wf(),
                s == self.spec_styles(),
                id < s.len(),
                children@ == s[id as int].children,
                k <= children@.len(),
                ret@.map_values(|s: &str| s@) == spec_leaves_list(s, children@.subrange(0, k as int), id + 1),
            decreases children@.len() - k,
        {
            let c = children[k];
            assert(s[id as int].children[k as int] == c);
            let mut sub = self.leaf_names(c);
            let ghost before = ret@;
            let ghost subv = sub@;
            ret.append(&mut sub);
            k = k + 1;
            let ghost ids = children@.subrange(0, k as int);
            assert(ids.drop_last() =~= children@.subrange(0, k - 1));
            assert(ids.last() == c);
            assert(ret@.map_values(|s: &str| s@) =~= before.map_values(|s: &str| s@) + subv.map_values(|s: &str| s@));
        }
        assert(children@.subrange(0, children@.len() as int) =~= children@);
        ret
    }
}

/// The buckets as plain values: genre key and songs.
pub open spec fn buckets_view(b: Seq<(Option<String>, Vec<Track>)>) -> Seq<(Option<Seq<char>>, Seq<(Seq<char>, Option<Seq<char>>, Seq<(Seq<char>, Seq<char>)>, Option<u32>)>)> {
    b.map_values(|p: (Option<String>, Vec<Track>)| (opt_view(p.0), crate::track::tracks_view(p.1@)))
}

proof fn lemma_bucket_in_view(b1: Seq<(Option<String>, Vec<Track>)>, b2: Seq<(Option<String>, Vec<Track>)>, key: Option<Seq<char>>)
    requires
        buckets_view(b1) == buckets_view(b2),
    ensures
        crate::track::tracks_view(spec_bucket_in(b1, key)) == crate::track::tracks_view(spec_bucket_in(b2, key)),
    decreases b1.len(),
{
    assert(b1.len() == buckets_view(b1).len() && b2.len() == buckets_view(b2).len());
    if b1.len() > 0 {
        assert(buckets_view(b1)[0] == buckets_view(b2)[0]);
        assert(buckets_view(b1.drop_first()) =~= buckets_view(b1).drop_first());
        assert(buckets_view(b2.drop_first()) =~= buckets_view(b2).drop_first());
        lemma_bucket_in_view(b1.drop_first(), b2.drop_first(), key);
    }
}

impl StyleTree {
    /// A copy of the tree: the same genres, and songs with the same plain
    /// values in every bucket.
    pub fn copy(&self) -> (r: StyleTree)
        ensures
            r.spec_styles() == self.spec_styles(),
            r.spec_bucket_keys() == self.spec_bucket_keys(),
            forall|key: Option<Seq<char>>| crate::track::tracks_view(#[trigger] r.spec_bucket(key))
                == crate::track::tracks_view(self.spec_bucket(key)),
    {
        proof {
            use_type_invariant(self);
        }
        let mut styles: Vec<Style> = Vec::new();
        let mut i: usize = 0;
        while i < self.styles.len()
            invariant
                i <= self.styles@.len(),
                styles@.len() == i,
                forall|j: int| 0 <= j < i ==> (#[trigger] styles@[j]).spec_view() == self.styles@[j].spec_view(),
            decreases self.styles@.len() - i,
        {
            let st = &self.styles[i];
            styles.push(Style { name: st.name.clone(), depth: st.depth, children: crate::components::tag_menu::copy_usizes(&st.children) });
            i = i + 1;
        }
        assert(styles_view(styles@) =~= styles_view(self.styles@));
        let mut buckets: Vec<(Option<String>, Vec<Track>)> = Vec::new();
        let mut k: usize = 0;
        while k < self.tracks.len()
            invariant
                k <= self.tracks@.len(),
                buckets@.len() == k,
                forall|j: int| 0 <= j < k ==> opt_view((#[trigger] buckets@[j]).0) == opt_view(self.tracks@[j].0)
                    && crate::track::tracks_view(buckets@[j].1@) == crate::track::tracks_view(self.tracks@[j].1@),
            decreases self.tracks@.len() - k,
        {
            let b = &self.tracks[k];
            buckets.push((crate::track::copy_opt(&b.0), crate::track::copy_tracks(&b.1)));
            k = k + 1;
        }
        proof {
            assert(buckets_view(buckets@) =~= buckets_view(self.tracks@));
            assert forall|a: int, b: int| 0 <= a < b < buckets@.len() implies opt_view(#[trigger] buckets@[a].0) != opt_view(#[trigger] buckets@[b].0) by {
                assert(opt_view(self.tracks@[a].0) != opt_view(self.tracks@[b].0));
            }
            assert forall|a: int| 0 <= a < buckets@.len() implies (#[trigger] buckets@[a]).1@.len() > 0 by {
                assert(self.tracks@[a].1@.len() > 0);
                assert(crate::track::tracks_view(buckets@[a].1@).len() == buckets@[a].1@.len());
                assert(crate::track::tracks_view(self.tracks@[a].1@).len() == self.tracks@[a].1@.len());
            }
        }
        let r = StyleTree { styles, tracks: buckets };
        proof {
            assert(r.spec_bucket_keys() =~= self.spec_bucket_keys());
            assert forall|key: Option<Seq<char>>| crate::track::tracks_view(#[trigger] r.spec_bucket(key))
                == crate::track::tracks_view(self.spec_bucket(key)) by {
                lemma_bucket_in_view(r.tracks@, self.tracks@, key);
            }
        }
        r
    }
}

/// Lists of songs with the same plain values sort into buckets with the
/// same plain values.
pub proof fn lemma_genre_tracks_view(a: Seq<Track>, b: Seq<Track>, key: Option<Seq<char>>)
    requires
        crate::track::tracks_view(a) == crate::track::tracks_view(b),
    ensures
        crate::track::tracks_view(spec_genre_tracks(a, key)) == crate::track::tracks_view(spec_genre_tracks(b, key)),
    decreases a.len(),
{
    assert(a.len() == crate::track::tracks_view(a).len() && b.len() == crate::track::tracks_view(b).len());
    if a.len() > 0 {
        assert(crate::track::tracks_view(a.drop_last()) =~= crate::track::tracks_view(a).drop_last());
        assert(crate::track::tracks_view(b.drop_last()) =~= crate::track::tracks_view(b).drop_last());
        lemma_genre_tracks_view(a.drop_last(), b.drop_last(), key);
        assert(crate::track::tracks_view(a)[a.len() - 1] == crate::track::tracks_view(b)[b.len() - 1]);
        assert(spec_genre(a.last()) == spec_genre(b.last()));
        let ra = spec_genre_tracks(a.drop_last(), key);
        let rb = spec_genre_tracks(b.drop_last(), key);
        if spec_genre(a.last()) == key {
            assert(crate::track::tracks_view(ra.push(a.last())) =~= crate::track::tracks_view(ra).push(a.last().spec_view()));
            assert(crate::track::tracks_view(rb.push(b.last())) =~= crate::track::tracks_view(rb).push(b.last().spec_view()));
        }
    }
}

} // verus!
