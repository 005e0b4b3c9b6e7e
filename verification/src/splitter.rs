//! Splitters: components that divide their area among child components,
//! side by side (horizontal) or stacked (vertical), and keep one of them
//! focused.
use vstd::prelude::*;

use crate::event::{ComponentEvent, Event};
use crate::text::str_eq;
use crate::paint::{
    border, bottom_border, horizontal_line, paints_view, right_border, spec_border, spec_bottom_border, spec_horizontal_line,
    spec_right_border, spec_vertical_line, vertical_line, Paint, PaintView,
};

verus! {

/// The outcome of moving focus inside a splitter.
#[derive(Debug, Clone, Copy, PartialEq, Eq, Structural)]
pub enum MoveFocusResult {
    Success,
    Fail,
}

/// How much of a splitter's inner area a panel takes.
#[derive(Debug, Clone, Copy, PartialEq, Eq, Structural)]
pub enum Size {
    /// This percentage of the inner width (or height), rounded down.
    Percent(u8),
    /// This many columns (or rows).
    Absolute(u16),
    /// What is left.
    Remainder,
}

/// A part of a splitter: its size and the name of the component in it.
#[derive(Debug, PartialEq)]
pub struct Panel {
    size: Size,
    key: String,
}

impl Panel {
    pub fn new(size: Size, key: String) -> (p: Panel)
        ensures
            p.spec_size() == size,
            p.spec_key() == key@,
    {
        Panel { size, key }
    }

    pub closed spec fn spec_size(&self) -> Size {
        self.size
    }

    pub closed spec fn spec_key(&self) -> Seq<char> {
        self.key@
    }

    /// The panel's size.
    pub fn size(&self) -> (s: Size)
        ensures
            s == self.spec_size(),
    {
        self.size
    }

    /// The name of the component in the panel.
    pub fn key(&self) -> (k: &str)
        ensures
            k@ == self.spec_key(),
    {
        self.key.as_str()
    }
}

/// A rectangle of the terminal: column, row, width, height.
pub type Rect = (u16, u16, u16, u16);

/// The names of the components in `panels`.
pub open spec fn panel_keys(panels: Seq<Panel>) -> Seq<Seq<char>> {
    panels.map_values(|p: Panel| p.spec_key())
}

/// The sizes of `panels`.
pub open spec fn panel_sizes(panels: Seq<Panel>) -> Seq<Size> {
    panels.map_values(|p: Panel| p.spec_size())
}

/// `a + b`, if it fits in a `u16`.
pub open spec fn add16(a: int, b: int) -> Option<u16> {
    if 0 <= a + b <= u16::MAX { Some((a + b) as u16) } else { None }
}

/// `a - b`, if it fits in a `u16`.
pub open spec fn sub16(a: int, b: int) -> Option<u16> {
    if 0 <= a - b <= u16::MAX { Some((a - b) as u16) } else { None }
}

/// The inner area of a splitter drawn at `x, y, w, h`: one cell less on
/// each side when it has borders. `None` when the area is too small.
pub open spec fn spec_inner(x: u16, y: u16, w: u16, h: u16, borders: bool) -> Option<Rect> {
    if !borders {
        Some((x, y, w, h))
    } else {
        match (add16(x as int, 1), add16(y as int, 1), sub16(w as int, 2), sub16(h as int, 2)) {
            (Some(a), Some(b), Some(c), Some(d)) => Some((a, b, c, d)),
            _ => None,
        }
    }
}

/// The width a panel of size `s` gets in a horizontal splitter, given the
/// inner width, the outer width and the current column.
pub open spec fn spec_h_width(s: Size, inner_w: u16, w: u16, cur_x: u16, borders: bool) -> Option<u16> {
    match s {
        Size::Percent(p) => match add16(inner_w as int * p as int, 0) {
            Some(m) => Some((m / 100) as u16),
            None => None,
        },
        Size::Absolute(a) => Some(a),
        Size::Remainder => if borders { sub16(w as int, cur_x as int) } else {
            match sub16(w as int, cur_x as int) {
                Some(d) => add16(d as int, 1),
                None => None,
            }
        },
    }
}

/// The height a panel of size `s` gets in a vertical splitter, given the
/// inner height and the current row.
pub open spec fn spec_v_height(s: Size, inner_h: u16, cur_y: u16) -> Option<u16> {
    match s {
        Size::Percent(p) => match add16(inner_h as int * p as int, 0) {
            Some(m) => Some((m / 100) as u16),
            None => None,
        },
        Size::Absolute(a) => Some(a),
        Size::Remainder => match sub16(inner_h as int, cur_y as int) {
            Some(d) => add16(d as int, 1),
            None => None,
        },
    }
}

/// The areas of the first `k` panels of a horizontal splitter, left to
/// right, and the column after them; `None` when a computation leaves the
/// range of `u16`.
pub open spec fn spec_h_scan(sizes: Seq<Size>, k: nat, inner: Rect, w: u16, borders: bool) -> Option<(u16, Seq<Rect>)>
    decreases k,
{
    if k == 0 {
        Some((inner.0, Seq::empty()))
    } else {
        match spec_h_scan(sizes, (k - 1) as nat, inner, w, borders) {
            None => None,
            Some((cur, rects)) => match spec_h_width(sizes[k - 1], inner.2, w, cur, borders) {
                None => None,
                Some(pw) => match add16(cur as int, pw as int) {
                    None => None,
                    Some(next) => if borders && k - 1 != sizes.len() - 1 {
                        match add16(next as int, 1) {
                            None => None,
                            Some(n2) => Some((n2, rects.push((cur, inner.1, pw, inner.3)))),
                        }
                    } else {
                        Some((next, rects.push((cur, inner.1, pw, inner.3))))
                    },
                },
            },
        }
    }
}

/// The same for a vertical splitter, top to bottom.
pub open spec fn spec_v_scan(sizes: Seq<Size>, k: nat, inner: Rect, borders: bool) -> Option<(u16, Seq<Rect>)>
    decreases k,
{
    if k == 0 {
        Some((inner.1, Seq::empty()))
    } else {
        match spec_v_scan(sizes, (k - 1) as nat, inner, borders) {
            None => None,
            Some((cur, rects)) => match spec_v_height(sizes[k - 1], inner.3, cur) {
                None => None,
                Some(ph) => match add16(cur as int, ph as int) {
                    None => None,
                    Some(next) => if borders && k - 1 != sizes.len() - 1 {
                        match add16(next as int, 1) {
                            None => None,
                            Some(n2) => Some((n2, rects.push((inner.0, cur, inner.2, ph)))),
                        }
                    } else {
                        Some((next, rects.push((inner.0, cur, inner.2, ph))))
                    },
                },
            },
        }
    }
}

/// Where the panels of a horizontal splitter drawn at `x, y, w, h` go.
/// `None` when there are no panels or the arithmetic leaves `u16`.
pub open spec fn spec_h_layout(sizes: Seq<Size>, x: u16, y: u16, w: u16, h: u16, borders: bool) -> Option<Seq<Rect>> {
    if sizes.len() == 0 {
        None
    } else {
        match spec_inner(x, y, w, h, borders) {
            None => None,
            Some(inner) => match spec_h_scan(sizes, sizes.len(), inner, w, borders) {
                None => None,
                Some((_, rects)) => Some(rects),
            },
        }
    }
}

/// Where the panels of a vertical splitter drawn at `x, y, w, h` go.
pub open spec fn spec_v_layout(sizes: Seq<Size>, x: u16, y: u16, w: u16, h: u16, borders: bool) -> Option<Seq<Rect>> {
    if sizes.len() == 0 {
        None
    } else {
        match spec_inner(x, y, w, h, borders) {
            None => None,
            Some(inner) => match spec_v_scan(sizes, sizes.len(), inner, borders) {
                None => None,
                Some((_, rects)) => Some(rects),
            },
        }
    }
}

/// The rows, heights, column and width of the first `k` panels of a
/// vertical scan: each panel spans the inner width, a percentage panel
/// is that share of the inner height and a fixed one its own height,
/// each starts where the one above ends (one row lower between borders),
/// and none of this depends on the inner width.
proof fn lemma_v_scan_shape(sizes: Seq<Size>, k: nat, inner: Rect, inner2: Rect, borders: bool)
    requires
        k <= sizes.len(),
        inner2.0 == inner.0,
        inner2.1 == inner.1,
        inner2.3 == inner.3,
    ensures
        (spec_v_scan(sizes, k, inner, borders) is Some) == (spec_v_scan(sizes, k, inner2, borders) is Some),
        spec_v_scan(sizes, k, inner, borders) matches Some((cur, rects)) ==> {
            &&& rects.len() == k
            &&& spec_v_scan(sizes, k, inner2, borders) matches Some((cur2, rects2)) && cur2 == cur
                && rects2.len() == k
                && (forall|i: int| 0 <= i < k ==> #[trigger] rects2[i].1 == rects[i].1 && rects2[i].3 == rects[i].3)
            &&& forall|i: int| 0 <= i < k ==> #[trigger] rects[i].0 == inner.0 && rects[i].2 == inner.2
            &&& forall|i: int| 0 <= i < k ==> (#[trigger] sizes[i] matches Size::Percent(p) ==> rects[i].3 == inner.3 * p / 100)
            &&& forall|i: int| 0 <= i < k ==> (#[trigger] sizes[i] matches Size::Absolute(a) ==> rects[i].3 == a)
            &&& k > 0 ==> rects[0].1 == inner.1
            &&& forall|i: int| 0 <= i < k - 1 ==> #[trigger] rects[i + 1].1 == rects[i].1 + rects[i].3 + (if borders { 1int } else { 0int })
            &&& k == 0 ==> cur == inner.1
            &&& k > 0 ==> cur == rects[k - 1].1 + rects[k - 1].3 + (if borders && k - 1 != sizes.len() - 1 { 1int } else { 0int })
        },
    decreases k,
{
    if k > 0 {
        lemma_v_scan_shape(sizes, (k - 1) as nat, inner, inner2, borders);
        if let Some((c0, r0)) = spec_v_scan(sizes, (k - 1) as nat, inner, borders) {
            let (_, r02) = spec_v_scan(sizes, (k - 1) as nat, inner2, borders)->0;
            assert(spec_v_height(sizes[k - 1], inner.3, c0) == spec_v_height(sizes[k - 1], inner2.3, c0));
            if let Some(ph) = spec_v_height(sizes[k - 1], inner.3, c0) {
                if add16(c0 as int, ph as int) is Some && spec_v_scan(sizes, k, inner, borders) is Some {
                    let (cur, rects) = spec_v_scan(sizes, k, inner, borders)->0;
                    let (cur2, rects2) = spec_v_scan(sizes, k, inner2, borders)->0;
                    assert(rects == r0.push((inner.0, c0, inner.2, ph)));
                    assert(rects2 == r02.push((inner2.0, c0, inner2.2, ph)));
                    assert(cur2 == cur);
                    assert forall|i: int| 0 <= i < k implies #[trigger] rects2[i].1 == rects[i].1 && rects2[i].3 == rects[i].3 by {
                        if i < k - 1 {
                            assert(rects[i] == r0[i]);
                            assert(rects2[i] == r02[i]);
                        }
                    }
                    assert forall|i: int| 0 <= i < k implies #[trigger] rects[i].0 == inner.0 && rects[i].2 == inner.2 by {
                        if i < k - 1 {
                            assert(rects[i] == r0[i]);
                        }
                    }
                    assert forall|i: int| 0 <= i < k implies (#[trigger] sizes[i] matches Size::Percent(p) ==> rects[i].3 == inner.3 * p / 100) by {
                        if i < k - 1 {
                            assert(rects[i] == r0[i]);
                        }
                    }
                    assert forall|i: int| 0 <= i < k implies (#[trigger] sizes[i] matches Size::Absolute(a) ==> rects[i].3 == a) by {
                        if i < k - 1 {
                            assert(rects[i] == r0[i]);
                        }
                    }
                    assert forall|i: int| 0 <= i < k - 1 implies #[trigger] rects[i + 1].1 == rects[i].1 + rects[i].3 + (if borders { 1int } else { 0int }) by {
                        assert(rects[i] == r0[i]);
                        if i + 1 < k - 1 {
                            assert(rects[i + 1] == r0[i + 1]);
                        } else {
                            assert(i == k - 2);
                        }
                    }
                    if k == 1 {
                        assert(rects[0].1 == c0);
                    } else {
                        assert(rects[0] == r0[0]);
                    }
                }
            }
        }
    }
}

/// How a vertical splitter lays out its panels, over any sizes, place and
/// borders: every panel spans the inner width, a `Percent(p)` panel is
/// `p` percent of the inner height (rounded down) and an `Absolute(a)` one
/// `a` rows high; the first starts at the inner top and each next one
/// right below the last (a row lower between borders). The rows and
/// heights do not depend on the splitter's width.
pub proof fn law_v_layout(sizes: Seq<Size>, x: u16, y: u16, w: u16, w2: u16, h: u16, borders: bool)
    ensures
        spec_v_layout(sizes, x, y, w, h, borders) matches Some(rects) ==> {
            let inner = spec_inner(x, y, w, h, borders)->0;
            &&& rects.len() == sizes.len()
            &&& forall|i: int| 0 <= i < rects.len() ==> #[trigger] rects[i].0 == inner.0 && rects[i].2 == inner.2
            &&& forall|i: int| 0 <= i < rects.len() ==> (#[trigger] sizes[i] matches Size::Percent(p) ==> rects[i].3 == inner.3 * p / 100)
            &&& forall|i: int| 0 <= i < rects.len() ==> (#[trigger] sizes[i] matches Size::Absolute(a) ==> rects[i].3 == a)
            &&& rects[0].1 == inner.1
            &&& forall|i: int| 0 <= i < rects.len() - 1 ==> #[trigger] rects[i + 1].1 == rects[i].1 + rects[i].3 + (if borders { 1int } else { 0int })
            &&& spec_inner(x, y, w2, h, borders) is Some ==> (spec_v_layout(sizes, x, y, w2, h, borders) matches Some(rects2)
                && rects2.len() == rects.len()
                && forall|i: int| 0 <= i < rects.len() ==> #[trigger] rects2[i].1 == rects[i].1 && rects2[i].3 == rects[i].3)
        },
{
    if sizes.len() > 0 {
        if let Some(inner) = spec_inner(x, y, w, h, borders) {
            match spec_inner(x, y, w2, h, borders) {
                Some(inner2) => lemma_v_scan_shape(sizes, sizes.len(), inner, inner2, borders),
                None => lemma_v_scan_shape(sizes, sizes.len(), inner, inner, borders),
            }
        }
    }
}

/// Once a horizontal scan fails, it stays failed.
proof fn lemma_h_scan_none(sizes: Seq<Size>, k: nat, n: nat, inner: Rect, w: u16, borders: bool)
    requires
        k <= n,
        spec_h_scan(sizes, k, inner, w, borders) is None,
    ensures
        spec_h_scan(sizes, n, inner, w, borders) is None,
    decreases n - k,
{
    if k < n {
        lemma_h_scan_none(sizes, k, (n - 1) as nat, inner, w, borders);
    }
}

/// Once a vertical scan fails, it stays failed.
proof fn lemma_v_scan_none(sizes: Seq<Size>, k: nat, n: nat, inner: Rect, borders: bool)
    requires
        k <= n,
        spec_v_scan(sizes, k, inner, borders) is None,
    ensures
        spec_v_scan(sizes, n, inner, borders) is None,
    decreases n - k,
{
    if k < n {
        lemma_v_scan_none(sizes, k, (n - 1) as nat, inner, borders);
    }
}

fn checked_add16(a: u16, b: u16) -> (r: Option<u16>)
    ensures
        r == add16(a as int, b as int),
{
    if a as u32 + b as u32 <= u16::MAX as u32 {
        Some(a + b)
    } else {
        None
    }
}

fn checked_sub16(a: u16, b: u16) -> (r: Option<u16>)
    ensures
        r == sub16(a as int, b as int),
{
    if a >= b {
        Some(a - b)
    } else {
        None
    }
}

fn inner_area(x: u16, y: u16, w: u16, h: u16, borders: bool) -> (r: Option<Rect>)
    ensures
        r == spec_inner(x, y, w, h, borders),
{
    if !borders {
        Some((x, y, w, h))
    } else {
        match (checked_add16(x, 1), checked_add16(y, 1), checked_sub16(w, 2), checked_sub16(h, 2)) {
            (Some(a), Some(b), Some(c), Some(d)) => Some((a, b, c, d)),
            _ => None,
        }
    }
}

fn percent_of(total: u16, p: u8) -> (r: Option<u16>)
    ensures
        r == (match add16(total as int * p as int, 0) {
            Some(m) => Some((m / 100) as u16),
            None => None,
        }),
{
    assert(total as u32 * p as u32 <= 65535 * 255) by (nonlinear_arith)
        requires
            total <= 65535,
            p <= 255,
    {
    }
    let m: u32 = total as u32 * p as u32;
    if m <= u16::MAX as u32 {
        Some((m / 100) as u16)
    } else {
        None
    }
}

/// The splitting and focus logic shared by both orientations.
#[derive(Debug, PartialEq)]
pub struct VectorSplitter {
    name: String,
    panels: Vec<Panel>,
    sel: usize,
    draw_borders: bool,
}

impl VectorSplitter {
    pub closed spec fn spec_name(&self) -> Seq<char> {
        self.name@
    }

    pub closed spec fn spec_panels(&self) -> Seq<Panel> {
        self.panels@
    }

    /// Index of the focused panel.
    pub closed spec fn spec_sel(&self) -> usize {
        self.sel
    }

    pub closed spec fn spec_borders(&self) -> bool {
        self.draw_borders
    }

    /// The name of the component in the focused panel, if there is one.
    pub open spec fn spec_focus(&self) -> Option<Seq<char>> {
        if self.spec_sel() < self.spec_panels().len() {
            Some(self.spec_panels()[self.spec_sel() as int].spec_key())
        } else {
            None
        }
    }

    fn new(name: &str, draw_borders: bool, panels: Vec<Panel>) -> (s: VectorSplitter)
        ensures
            s.spec_name() == name@,
            s.spec_panels() == panels@,
            s.spec_sel() == 0,
            s.spec_borders() == draw_borders,
    {
        VectorSplitter { draw_borders, name: name.to_string(), sel: 0, panels }
    }

    pub fn name(&self) -> (r: &str)
        ensures
            r@ == self.spec_name(),
    {
        self.name.as_str()
    }

    /// Whether a panel holds the component named `key`.
    pub fn contains(&self, key: &str) -> (r: bool)
        ensures
            r == panel_keys(self.spec_panels()).contains(key@),
    {
        let mut i: usize = 0;
        while i < self.panels.len()
            invariant
                i <= self.panels@.len(),
                forall|j: int| 0 <= j < i ==> (#[trigger] panel_keys(self.panels@)[j]) != key@,
            decreases self.panels@.len() - i,
        {
            if str_eq(self.panels[i].key.as_str(), key) {
                assert(panel_keys(self.panels@)[i as int] == key@);
                return true;
            }
            i = i + 1;
        }
        false
    }

    /// The names of the components in the panels, in order.
    pub fn children(&self) -> (r: Vec<&str>)
        ensures
            r@.map_values(|s: &str| s@) == panel_keys(self.spec_panels()),
    {
        let mut r: Vec<&str> = Vec::new();
        let mut i: usize = 0;
        while i < self.panels.len()
            invariant
                i <= self.panels@.len(),
                r@.len() == i,
                forall|j: int| 0 <= j < i ==> (#[trigger] r@[j])@ == panel_keys(self.panels@)[j],
            decreases self.panels@.len() - i,
        {
            r.push(self.panels[i].key.as_str());
            i = i + 1;
        }
        assert(r@.map_values(|s: &str| s@) =~= panel_keys(self.panels@));
        r
    }

    /// The index of the focused panel.
    pub fn sel(&self) -> (r: usize)
        ensures
            r == self.spec_sel(),
    {
        self.sel
    }

    /// The name of the component in the focused panel.
    pub fn focus(&self) -> (r: Option<&str>)
        ensures
            match r {
                Some(k) => self.spec_focus() == Some(k@),
                None => self.spec_focus() is None,
            },
    {
        if self.sel < self.panels.len() {
            Some(self.panels[self.sel].key.as_str())
        } else {
            None
        }
    }

    /// Focuses the next panel; fails at the last one.
    pub fn next(&mut self) -> (r: MoveFocusResult)
        ensures
            final(self).spec_name() == old(self).spec_name(),
            final(self).spec_panels() == old(self).spec_panels(),
            final(self).spec_borders() == old(self).spec_borders(),
            old(self).spec_sel() + 1 < old(self).spec_panels().len() ==> r == MoveFocusResult::Success
                && final(self).spec_sel() == old(self).spec_sel() + 1,
            !(old(self).spec_sel() + 1 < old(self).spec_panels().len()) ==> r == MoveFocusResult::Fail
                && final(self).spec_sel() == old(self).spec_sel(),
            r == MoveFocusResult::Fail ==> *final(self) == *old(self),
    {
        if self.sel < self.panels.len() && self.sel + 1 < self.panels.len() {
            self.sel = self.sel + 1;
            MoveFocusResult::Success
        } else {
            MoveFocusResult::Fail
        }
    }

    /// Focuses the previous panel; fails at the first one. The focus index
    /// is taken as an `i32`.
    pub fn prev(&mut self) -> (r: MoveFocusResult)
        requires
            (old(self).spec_sel() as i32) != i32::MIN,
        ensures
            final(self).spec_name() == old(self).spec_name(),
            final(self).spec_panels() == old(self).spec_panels(),
            final(self).spec_borders() == old(self).spec_borders(),
            (old(self).spec_sel() as i32) >= 1 ==> r == MoveFocusResult::Success
                && final(self).spec_sel() == old(self).spec_sel() - 1,
            !((old(self).spec_sel() as i32) >= 1) ==> r == MoveFocusResult::Fail
                && final(self).spec_sel() == old(self).spec_sel(),
            r == MoveFocusResult::Fail ==> *final(self) == *old(self),
    {
        let v = self.sel as i32;
        if v - 1 >= 0 {
            assert(self.sel != 0);
            self.sel = self.sel - 1;
            MoveFocusResult::Success
        } else {
            MoveFocusResult::Fail
        }
    }

    fn sizes(&self) -> (r: Vec<Size>)
        ensures
            r@ == panel_sizes(self.spec_panels()),
    {
        let mut r: Vec<Size> = Vec::new();
        let mut i: usize = 0;
        while i < self.panels.len()
            invariant
                i <= self.panels@.len(),
                r@ == panel_sizes(self.panels@).subrange(0, i as int),
            decreases self.panels@.len() - i,
        {
            r.push(self.panels[i].size);
            i = i + 1;
            assert(r@ =~= panel_sizes(self.panels@).subrange(0, i as int));
        }
        assert(panel_sizes(self.panels@).subrange(0, i as int) =~= panel_sizes(self.panels@));
        r
    }
}

/// The areas of the panels of a horizontal splitter.
fn h_layout(sizes: &Vec<Size>, x: u16, y: u16, w: u16, h: u16, borders: bool) -> (r: Option<Vec<Rect>>)
    ensures
        match r {
            Some(v) => spec_h_layout(sizes@, x, y, w, h, borders) == Some(v@),
            None => spec_h_layout(sizes@, x, y, w, h, borders) is None,
        },
{
    if sizes.len() == 0 {
        return None;
    }
    let inner = match inner_area(x, y, w, h, borders) {
        Some(a) => a,
        None => return None,
    };
    let last = sizes.len() - 1;
    let mut rects: Vec<Rect> = Vec::new();
    let mut cur = inner.0;
    let mut i: usize = 0;
    while i < sizes.len()
        invariant
            last == sizes@.len() - 1,
            i <= sizes@.len(),
            spec_inner(x, y, w, h, borders) == Some(inner),
            spec_h_scan(sizes@, i as nat, inner, w, borders) == Some((cur, rects@)),
        decreases sizes@.len() - i,
    {
        let pw = match sizes[i] {
            Size::Percent(p) => percent_of(inner.2, p),
            Size::Absolute(a) => Some(a),
            Size::Remainder => if borders {
                checked_sub16(w, cur)
            } else {
                match checked_sub16(w, cur) {
                    Some(d) => checked_add16(d, 1),
                    None => None,
                }
            },
        };
        assert(pw == spec_h_width(sizes@[i as int], inner.2, w, cur, borders));
        let pw = match pw {
            Some(v) => v,
            None => {
                proof {
                    lemma_h_scan_none(sizes@, (i + 1) as nat, sizes@.len(), inner, w, borders);
                }
                return None;
            },
        };
        let next = match checked_add16(cur, pw) {
            Some(v) => v,
            None => {
                proof {
                    lemma_h_scan_none(sizes@, (i + 1) as nat, sizes@.len(), inner, w, borders);
                }
                return None;
            },
        };
        rects.push((cur, inner.1, pw, inner.3));
        if borders && i != last {
            cur = match checked_add16(next, 1) {
                Some(v) => v,
                None => {
                    proof {
                        lemma_h_scan_none(sizes@, (i + 1) as nat, sizes@.len(), inner, w, borders);
                    }
                    return None;
                },
            };
        } else {
            cur = next;
        }
        i = i + 1;
    }
    Some(rects)
}

/// The areas of the panels of a vertical splitter.
fn v_layout(sizes: &Vec<Size>, x: u16, y: u16, w: u16, h: u16, borders: bool) -> (r: Option<Vec<Rect>>)
    ensures
        match r {
            Some(v) => spec_v_layout(sizes@, x, y, w, h, borders) == Some(v@),
            None => spec_v_layout(sizes@, x, y, w, h, borders) is None,
        },
{
    if sizes.len() == 0 {
        return None;
    }
    let inner = match inner_area(x, y, w, h, borders) {
        Some(a) => a,
        None => return None,
    };
    let last = sizes.len() - 1;
    let mut rects: Vec<Rect> = Vec::new();
    let mut cur = inner.1;
    let mut i: usize = 0;
    while i < sizes.len()
        invariant
            last == sizes@.len() - 1,
            i <= sizes@.len(),
            spec_inner(x, y, w, h, borders) == Some(inner),
            spec_v_scan(sizes@, i as nat, inner, borders) == Some((cur, rects@)),
        decreases sizes@.len() - i,
    {
        let ph = match sizes[i] {
            Size::Percent(p) => percent_of(inner.3, p),
            Size::Absolute(a) => Some(a),
            Size::Remainder => match checked_sub16(inner.3, cur) {
                Some(d) => checked_add16(d, 1),
                None => None,
            },
        };
        assert(ph == spec_v_height(sizes@[i as int], inner.3, cur));
        let ph = match ph {
            Some(v) => v,
            None => {
                proof {
                    lemma_v_scan_none(sizes@, (i + 1) as nat, sizes@.len(), inner, borders);
                }
                return None;
            },
        };
        let next = match checked_add16(cur, ph) {
            Some(v) => v,
            None => {
                proof {
                    lemma_v_scan_none(sizes@, (i + 1) as nat, sizes@.len(), inner, borders);
                }
                return None;
            },
        };
        rects.push((inner.0, cur, inner.2, ph));
        if borders && i != last {
            cur = match checked_add16(next, 1) {
                Some(v) => v,
                None => {
                    proof {
                        lemma_v_scan_none(sizes@, (i + 1) as nat, sizes@.len(), inner, borders);
                    }
                    return None;
                },
            };
        } else {
            cur = next;
        }
        i = i + 1;
    }
    Some(rects)
}

/// Panels side by side, left to right.
#[derive(Debug, PartialEq)]
pub struct HorizontalSplitter {
    pub splitter: VectorSplitter,
}

/// Panels stacked, top to bottom.
#[derive(Debug, PartialEq)]
pub struct VerticalSplitter {
    pub splitter: VectorSplitter,
}

impl HorizontalSplitter {
    /// A splitter named `name` whose first panel has the focus.
    pub fn new(name: &str, draw_borders: bool, panels: Vec<Panel>) -> (s: HorizontalSplitter)
        ensures
            s.splitter.spec_name() == name@,
            s.splitter.spec_panels() == panels@,
            s.splitter.spec_sel() == 0,
            s.splitter.spec_borders() == draw_borders,
    {
        HorizontalSplitter { splitter: VectorSplitter::new(name, draw_borders, panels) }
    }

    /// Where each panel goes when the splitter is drawn at `x, y, w, h`, in
    /// panel order. `None` when there are no panels or a value falls
    /// outside `u16`.
    pub fn layout(&self, x: u16, y: u16, w: u16, h: u16) -> (r: Option<Vec<Rect>>)
        ensures
            match r {
                Some(v) => spec_h_layout(panel_sizes(self.splitter.spec_panels()), x, y, w, h,
                    self.splitter.spec_borders()) == Some(v@),
                None => spec_h_layout(panel_sizes(self.splitter.spec_panels()), x, y, w, h,
                    self.splitter.spec_borders()) is None,
            },
    {
        let sizes = self.splitter.sizes();
        h_layout(&sizes, x, y, w, h, self.splitter.draw_borders)
    }
}

impl VerticalSplitter {
    /// A splitter named `name` whose first panel has the focus.
    pub fn new(name: &str, draw_borders: bool, panels: Vec<Panel>) -> (s: VerticalSplitter)
        ensures
            s.splitter.spec_name() == name@,
            s.splitter.spec_panels() == panels@,
            s.splitter.spec_sel() == 0,
            s.splitter.spec_borders() == draw_borders,
    {
        VerticalSplitter { splitter: VectorSplitter::new(name, draw_borders, panels) }
    }

    /// Where each panel goes when the splitter is drawn at `x, y, w, h`, in
    /// panel order. `None` when a value falls outside `u16`.
    pub fn layout(&self, x: u16, y: u16, w: u16, h: u16) -> (r: Option<Vec<Rect>>)
        ensures
            match r {
                Some(v) => spec_v_layout(panel_sizes(self.splitter.spec_panels()), x, y, w, h,
                    self.splitter.spec_borders()) == Some(v@),
                None => spec_v_layout(panel_sizes(self.splitter.spec_panels()), x, y, w, h,
                    self.splitter.spec_borders()) is None,
            },
    {
        let sizes = self.splitter.sizes();
        v_layout(&sizes, x, y, w, h, self.splitter.draw_borders)
    }
}

/// Either kind of splitter.
#[derive(Debug, PartialEq)]
pub enum Splitters {
    VerticalSplitter(VerticalSplitter),
    HorizontalSplitter(HorizontalSplitter),
}

impl Splitters {
    /// The shared state of the splitter.
    pub open spec fn spec_inner(&self) -> VectorSplitter {
        match self {
            Splitters::VerticalSplitter(s) => s.splitter,
            Splitters::HorizontalSplitter(s) => s.splitter,
        }
    }

    pub fn name(&self) -> (r: &str)
        ensures
            r@ == self.spec_inner().spec_name(),
    {
        match self {
            Splitters::VerticalSplitter(c) => c.splitter.name(),
            Splitters::HorizontalSplitter(c) => c.splitter.name(),
        }
    }

    pub fn focus(&self) -> (r: Option<&str>)
        ensures
            match r {
                Some(k) => self.spec_inner().spec_focus() == Some(k@),
                None => self.spec_inner().spec_focus() is None,
            },
    {
        match self {
            Splitters::VerticalSplitter(c) => c.splitter.focus(),
            Splitters::HorizontalSplitter(c) => c.splitter.focus(),
        }
    }

    /// The index of the focused panel.
    pub fn focus_index(&self) -> (r: usize)
        ensures
            r == self.spec_inner().spec_sel(),
    {
        match self {
            Splitters::VerticalSplitter(c) => c.splitter.sel(),
            Splitters::HorizontalSplitter(c) => c.splitter.sel(),
        }
    }

    pub fn contains(&self, key: &str) -> (r: bool)
        ensures
            r == panel_keys(self.spec_inner().spec_panels()).contains(key@),
    {
        match self {
            Splitters::VerticalSplitter(c) => c.splitter.contains(key),
            Splitters::HorizontalSplitter(c) => c.splitter.contains(key),
        }
    }

    pub fn children(&self) -> (r: Vec<&str>)
        ensures
            r@.map_values(|s: &str| s@) == panel_keys(self.spec_inner().spec_panels()),
    {
        match self {
            Splitters::VerticalSplitter(c) => c.splitter.children(),
            Splitters::HorizontalSplitter(c) => c.splitter.children(),
        }
    }

    /// Focuses the next panel; fails at the last one.
    pub fn next(&mut self) -> (r: MoveFocusResult)
        ensures
            spec_moved(*old(self), *final(self), old(self).spec_inner().spec_sel() + 1 < old(
                self,
            ).spec_inner().spec_panels().len(), 1, r),
            r == MoveFocusResult::Fail ==> *final(self) == *old(self),
    {
        match self {
            Splitters::VerticalSplitter(c) => c.splitter.next(),
            Splitters::HorizontalSplitter(c) => c.splitter.next(),
        }
    }

    /// Focuses the previous panel; fails at the first one.
    pub fn prev(&mut self) -> (r: MoveFocusResult)
        requires
            (old(self).spec_inner().spec_sel() as i32) != i32::MIN,
        ensures
            spec_moved(*old(self), *final(self), (old(self).spec_inner().spec_sel() as i32) >= 1, -1, r),
            r == MoveFocusResult::Fail ==> *final(self) == *old(self),
    {
        match self {
            Splitters::VerticalSplitter(c) => c.splitter.prev(),
            Splitters::HorizontalSplitter(c) => c.splitter.prev(),
        }
    }
}

/// A splitter after a focus move that succeeds exactly when `can` holds:
/// same kind, name, panels and borders, focus moved by `by` on success and
/// unchanged on failure.
pub open spec fn spec_moved(a: Splitters, b: Splitters, can: bool, by: int, r: MoveFocusResult) -> bool {
    &&& (a is VerticalSplitter <==> b is VerticalSplitter)
    &&& b.spec_inner().spec_name() == a.spec_inner().spec_name()
    &&& b.spec_inner().spec_panels() == a.spec_inner().spec_panels()
    &&& b.spec_inner().spec_borders() == a.spec_inner().spec_borders()
    &&& if can {
        r == MoveFocusResult::Success && b.spec_inner().spec_sel() == a.spec_inner().spec_sel() + by
    } else {
        r == MoveFocusResult::Fail && b.spec_inner().spec_sel() == a.spec_inner().spec_sel()
    }
}

/// The operations of a splitter.
pub trait Splitter {
    /// Whether moving the focus back can be computed (the focus index, taken
    /// as an `i32`, is not the smallest `i32`).
    spec fn prev_allowed(&self) -> bool;

    /// The name of the component in the focused panel.
    fn focus(&self) -> Option<&str>;

    /// Focuses the next panel.
    fn next(&mut self) -> MoveFocusResult;

    /// Focuses the previous panel.
    fn prev(&mut self) -> MoveFocusResult
        requires
            old(self).prev_allowed(),
    ;

    /// Whether a panel holds the component named `key`.
    fn contains(&self, key: &str) -> bool;

    /// The names of the components in the panels.
    fn children(&self) -> Vec<&str>;
}

impl Splitter for Splitters {
    open spec fn prev_allowed(&self) -> bool {
        (self.spec_inner().spec_sel() as i32) != i32::MIN
    }

    fn focus(&self) -> (r: Option<&str>)
        ensures
            match r {
                Some(k) => self.spec_inner().spec_focus() == Some(k@),
                None => self.spec_inner().spec_focus() is None,
            },
    {
        Splitters::focus(self)
    }

    fn next(&mut self) -> (r: MoveFocusResult)
        ensures
            spec_moved(*old(self), *final(self), old(self).spec_inner().spec_sel() + 1 < old(
                self,
            ).spec_inner().spec_panels().len(), 1, r),
    {
        Splitters::next(self)
    }

    fn prev(&mut self) -> (r: MoveFocusResult)
        ensures
            spec_moved(*old(self), *final(self), (old(self).spec_inner().spec_sel() as i32) >= 1, -1, r),
    {
        Splitters::prev(self)
    }

    fn contains(&self, key: &str) -> (r: bool)
        ensures
            r == panel_keys(self.spec_inner().spec_panels()).contains(key@),
    {
        Splitters::contains(self, key)
    }

    fn children(&self) -> (r: Vec<&str>)
        ensures
            r@.map_values(|s: &str| s@) == panel_keys(self.spec_inner().spec_panels()),
    {
        Splitters::children(self)
    }
}

/// The height of a panel of size `s` as a vertical splitter draws its
/// dividing lines: like the layout, except that without borders the rest
/// of the height is not counted from one.
pub open spec fn spec_v_draw_height(s: Size, inner_h: u16, cur_y: u16, borders: bool) -> Option<u16> {
    match s {
        Size::Remainder => match sub16(inner_h as int, cur_y as int) {
            Some(d) => if borders { add16(d as int, 1) } else { Some(d) },
            None => None,
        },
        _ => spec_v_height(s, inner_h, cur_y),
    }
}

/// The width of a panel of size `s` as a horizontal splitter draws its
/// dividing lines: the rest is counted from the outer width.
pub open spec fn spec_h_draw_width(s: Size, inner_w: u16, w: u16, cur_x: u16) -> Option<u16> {
    match s {
        Size::Remainder => match sub16(w as int, cur_x as int) {
            Some(d) => add16(d as int, 1),
            None => None,
        },
        _ => spec_h_width(s, inner_w, w, cur_x, true),
    }
}

/// The dividing lines of the first `k` panels of a vertical splitter and
/// the row after them; `None` when a computation leaves `u16`.
pub open spec fn spec_v_lines(sizes: Seq<Size>, k: nat, x: u16, w: u16, inner_h: u16, start: u16, borders: bool) -> Option<
    (u16, Seq<PaintView>),
>
    decreases k,
{
    if k == 0 {
        Some((start, Seq::empty()))
    } else {
        match spec_v_lines(sizes, (k - 1) as nat, x, w, inner_h, start, borders) {
            None => None,
            Some((cur, ops)) => match spec_v_draw_height(sizes[k - 1], inner_h, cur, borders) {
                None => None,
                Some(ph) => match add16(cur as int, ph as int) {
                    None => None,
                    Some(next) => if borders && k - 1 != sizes.len() - 1 {
                        if 1 <= x + w <= u16::MAX && next + 1 <= u16::MAX {
                            Some(((next + 1) as u16, ops + spec_horizontal_line(x, next, w)))
                        } else {
                            None
                        }
                    } else {
                        Some((next, ops))
                    },
                },
            },
        }
    }
}

/// The dividing lines of the first `k` panels of a horizontal splitter
/// and the column after them.
pub open spec fn spec_h_lines(sizes: Seq<Size>, k: nat, y: u16, w: u16, h: u16, inner_w: u16, start: u16, borders: bool) -> Option<
    (u16, Seq<PaintView>),
>
    decreases k,
{
    if k == 0 {
        Some((start, Seq::empty()))
    } else {
        match spec_h_lines(sizes, (k - 1) as nat, y, w, h, inner_w, start, borders) {
            None => None,
            Some((cur, ops)) => match spec_h_draw_width(sizes[k - 1], inner_w, w, cur) {
                None => None,
                Some(pw) => match add16(cur as int, pw as int) {
                    None => None,
                    Some(next) => if borders && k - 1 != sizes.len() - 1 {
                        if 1 <= y + h <= u16::MAX && next + 1 <= u16::MAX {
                            Some(((next + 1) as u16, ops + spec_vertical_line(next, y, h)))
                        } else {
                            None
                        }
                    } else {
                        Some((next, ops))
                    },
                },
            },
        }
    }
}

/// Whether the box of a splitter with borders can be drawn.
pub open spec fn box_fits(x: u16, y: u16, w: u16, h: u16) -> bool {
    w >= 2 && h >= 2 && 1 <= x + w <= u16::MAX && 1 <= y + h <= u16::MAX
}

/// What a vertical splitter draws `w` by `h` from (`x`, `y`): with
/// borders, its box, the lines between its panels and its bottom edge;
/// without, nothing. `None` when there are no panels or the arithmetic
/// leaves `u16`.
pub open spec fn spec_v_draw(sizes: Seq<Size>, x: u16, y: u16, w: u16, h: u16, borders: bool) -> Option<Seq<PaintView>> {
    if borders && !box_fits(x, y, w, h) {
        None
    } else if sizes.len() == 0 {
        None
    } else {
        let (start, inner_h) = if borders { ((y + 1) as u16, (h - 2) as u16) } else { (y, h) };
        match spec_v_lines(sizes, sizes.len(), x, w, inner_h, start, borders) {
            None => None,
            Some((_, lines)) => if borders {
                Some(spec_border(x, y, w, h) + lines + spec_bottom_border(x, (y + h - 1) as u16, w))
            } else {
                Some(lines)
            },
        }
    }
}

/// What a horizontal splitter draws: with borders, its box, the lines
/// between its panels and its right edge.
pub open spec fn spec_h_draw(sizes: Seq<Size>, x: u16, y: u16, w: u16, h: u16, borders: bool) -> Option<Seq<PaintView>> {
    if borders && !box_fits(x, y, w, h) {
        None
    } else if sizes.len() == 0 {
        None
    } else {
        let (start, inner_w) = if borders { ((x + 1) as u16, (w - 2) as u16) } else { (x, w) };
        match spec_h_lines(sizes, sizes.len(), y, w, h, inner_w, start, borders) {
            None => None,
            Some((_, lines)) => if borders {
                Some(spec_border(x, y, w, h) + lines + spec_right_border((x + w - 1) as u16, y, h))
            } else {
                Some(lines)
            },
        }
    }
}

proof fn lemma_v_lines_none(sizes: Seq<Size>, k: nat, n: nat, x: u16, w: u16, inner_h: u16, start: u16, borders: bool)
    requires
        k <= n,
        spec_v_lines(sizes, k, x, w, inner_h, start, borders) is None,
    ensures
        spec_v_lines(sizes, n, x, w, inner_h, start, borders) is None,
    decreases n - k,
{
    if k < n {
        lemma_v_lines_none(sizes, k, (n - 1) as nat, x, w, inner_h, start, borders);
    }
}

proof fn lemma_h_lines_none(sizes: Seq<Size>, k: nat, n: nat, y: u16, w: u16, h: u16, inner_w: u16, start: u16, borders: bool)
    requires
        k <= n,
        spec_h_lines(sizes, k, y, w, h, inner_w, start, borders) is None,
    ensures
        spec_h_lines(sizes, n, y, w, h, inner_w, start, borders) is None,
    decreases n - k,
{
    if k < n {
        lemma_h_lines_none(sizes, k, (n - 1) as nat, y, w, h, inner_w, start, borders);
    }
}

/// The dividing lines of a vertical splitter.
fn v_lines(sizes: &Vec<Size>, x: u16, w: u16, inner_h: u16, start: u16, borders: bool) -> (r: Option<Vec<Paint>>)
    requires
        sizes@.len() >= 1,
    ensures
        match r {
            Some(v) => spec_v_lines(sizes@, sizes@.len(), x, w, inner_h, start, borders) matches Some((_, ops))
                && paints_view(v@) == ops,
            None => spec_v_lines(sizes@, sizes@.len(), x, w, inner_h, start, borders) is None,
        },
{
    let last = sizes.len() - 1;
    let mut out: Vec<Paint> = Vec::new();
    let mut cur = start;
    let mut i: usize = 0;
    while i < sizes.len()
        invariant
            last == sizes@.len() - 1,
            i <= sizes@.len(),
            spec_v_lines(sizes@, i as nat, x, w, inner_h, start, borders) == Some((cur, paints_view(out@))),
        decreases sizes@.len() - i,
    {
        let ph = match sizes[i] {
            Size::Percent(p) => percent_of(inner_h, p),
            Size::Absolute(a) => Some(a),
            Size::Remainder => match checked_sub16(inner_h, cur) {
                Some(d) => if borders { checked_add16(d, 1) } else { Some(d) },
                None => None,
            },
        };
        assert(ph == spec_v_draw_height(sizes@[i as int], inner_h, cur, borders));
        let next = match ph {
            Some(v) => checked_add16(cur, v),
            None => None,
        };
        let next = match next {
            Some(v) => v,
            None => {
                proof {
                    lemma_v_lines_none(sizes@, (i + 1) as nat, sizes@.len(), x, w, inner_h, start, borders);
                }
                return None;
            },
        };
        if borders && i != last {
            if x as u32 + w as u32 == 0 || x as u32 + w as u32 > u16::MAX as u32 || next == u16::MAX {
                proof {
                    lemma_v_lines_none(sizes@, (i + 1) as nat, sizes@.len(), x, w, inner_h, start, borders);
                }
                return None;
            }
            horizontal_line(&mut out, x, next, w);
            cur = next + 1;
        } else {
            cur = next;
        }
        i = i + 1;
    }
    Some(out)
}

/// The dividing lines of a horizontal splitter.
fn h_lines(sizes: &Vec<Size>, y: u16, w: u16, h: u16, inner_w: u16, start: u16, borders: bool) -> (r: Option<Vec<Paint>>)
    requires
        sizes@.len() >= 1,
    ensures
        match r {
            Some(v) => spec_h_lines(sizes@, sizes@.len(), y, w, h, inner_w, start, borders) matches Some((_, ops))
                && paints_view(v@) == ops,
            None => spec_h_lines(sizes@, sizes@.len(), y, w, h, inner_w, start, borders) is None,
        },
{
    let last = sizes.len() - 1;
    let mut out: Vec<Paint> = Vec::new();
    let mut cur = start;
    let mut i: usize = 0;
    while i < sizes.len()
        invariant
            last == sizes@.len() - 1,
            i <= sizes@.len(),
            spec_h_lines(sizes@, i as nat, y, w, h, inner_w, start, borders) == Some((cur, paints_view(out@))),
        decreases sizes@.len() - i,
    {
        let pw = match sizes[i] {
            Size::Percent(p) => percent_of(inner_w, p),
            Size::Absolute(a) => Some(a),
            Size::Remainder => match checked_sub16(w, cur) {
                Some(d) => checked_add16(d, 1),
                None => None,
            },
        };
        assert(pw == spec_h_draw_width(sizes@[i as int], inner_w, w, cur));
        let next = match pw {
            Some(v) => checked_add16(cur, v),
            None => None,
        };
        let next = match next {
            Some(v) => v,
            None => {
                proof {
                    lemma_h_lines_none(sizes@, (i + 1) as nat, sizes@.len(), y, w, h, inner_w, start, borders);
                }
                return None;
            },
        };
        if borders && i != last {
            if y as u32 + h as u32 == 0 || y as u32 + h as u32 > u16::MAX as u32 || next == u16::MAX {
                proof {
                    lemma_h_lines_none(sizes@, (i + 1) as nat, sizes@.len(), y, w, h, inner_w, start, borders);
                }
                return None;
            }
            vertical_line(&mut out, next, y, h);
            cur = next + 1;
        } else {
            cur = next;
        }
        i = i + 1;
    }
    Some(out)
}

impl VerticalSplitter {
    /// Draws the splitter's own lines `w` by `h` from (`x`, `y`); its panels
    /// draw themselves. `None` where the arithmetic leaves `u16`.
    pub fn draw(&self, x: u16, y: u16, w: u16, h: u16) -> (r: Option<Vec<Paint>>)
        ensures
            match r {
                Some(v) => spec_v_draw(panel_sizes(self.splitter.spec_panels()), x, y, w, h, self.splitter.spec_borders())
                    == Some(paints_view(v@)),
                None => spec_v_draw(panel_sizes(self.splitter.spec_panels()), x, y, w, h, self.splitter.spec_borders())
                    is None,
            },
    {
        let borders = self.splitter.draw_borders;
        let box_ok = w >= 2 && h >= 2 && x as u32 + w as u32 >= 1 && x as u32 + w as u32 <= u16::MAX as u32
            && y as u32 + h as u32 >= 1 && y as u32 + h as u32 <= u16::MAX as u32;
        if borders && !box_ok {
            return None;
        }
        let sizes = self.splitter.sizes();
        if sizes.len() == 0 {
            return None;
        }
        let (start, inner_h) = if borders { (y + 1, h - 2) } else { (y, h) };
        let lines = match v_lines(&sizes, x, w, inner_h, start, borders) {
            Some(v) => v,
            None => return None,
        };
        if borders {
            let mut out = border(x, y, w, h);
            let ghost framed = out@;
            let mut lines = lines;
            let ghost lv = lines@;
            out.append(&mut lines);
            let ghost lined = out@;
            bottom_border(&mut out, x, y + h - 1, w);
            assert(paints_view(lined) =~= paints_view(framed) + paints_view(lv));
            Some(out)
        } else {
            Some(lines)
        }
    }
}

impl HorizontalSplitter {
    /// Draws the splitter's own lines `w` by `h` from (`x`, `y`); its panels
    /// draw themselves. `None` where the arithmetic leaves `u16`.
    pub fn draw(&self, x: u16, y: u16, w: u16, h: u16) -> (r: Option<Vec<Paint>>)
        ensures
            match r {
                Some(v) => spec_h_draw(panel_sizes(self.splitter.spec_panels()), x, y, w, h, self.splitter.spec_borders())
                    == Some(paints_view(v@)),
                None => spec_h_draw(panel_sizes(self.splitter.spec_panels()), x, y, w, h, self.splitter.spec_borders())
                    is None,
            },
    {
        let borders = self.splitter.draw_borders;
        let box_ok = w >= 2 && h >= 2 && x as u32 + w as u32 >= 1 && x as u32 + w as u32 <= u16::MAX as u32
            && y as u32 + h as u32 >= 1 && y as u32 + h as u32 <= u16::MAX as u32;
        if borders && !box_ok {
            return None;
        }
        let sizes = self.splitter.sizes();
        if sizes.len() == 0 {
            return None;
        }
        let (start, inner_w) = if borders { (x + 1, w - 2) } else { (x, w) };
        let lines = match h_lines(&sizes, y, w, h, inner_w, start, borders) {
            Some(v) => v,
            None => return None,
        };
        if borders {
            let mut out = border(x, y, w, h);
            let ghost framed = out@;
            let mut lines = lines;
            let ghost lv = lines@;
            out.append(&mut lines);
            let ghost lined = out@;
            right_border(&mut out, x + w - 1, y, h);
            assert(paints_view(lined) =~= paints_view(framed) + paints_view(lv));
            Some(out)
        } else {
            Some(lines)
        }
    }
}

impl Splitters {
    /// Draws the splitter's own lines.
    pub fn draw(&self, x: u16, y: u16, w: u16, h: u16) -> (r: Option<Vec<Paint>>)
        ensures
            match r {
                Some(v) => spec_splitter_draw(*self, x, y, w, h) == Some(paints_view(v@)),
                None => spec_splitter_draw(*self, x, y, w, h) is None,
            },
    {
        match self {
            Splitters::VerticalSplitter(c) => c.draw(x, y, w, h),
            Splitters::HorizontalSplitter(c) => c.draw(x, y, w, h),
        }
    }
}

/// What a splitter of either kind draws.
pub open spec fn spec_splitter_draw(s: Splitters, x: u16, y: u16, w: u16, h: u16) -> Option<Seq<PaintView>> {
    match s {
        Splitters::VerticalSplitter(c) => spec_v_draw(
            panel_sizes(c.splitter.spec_panels()),
            x,
            y,
            w,
            h,
            c.splitter.spec_borders(),
        ),
        Splitters::HorizontalSplitter(c) => spec_h_draw(
            panel_sizes(c.splitter.spec_panels()),
            x,
            y,
            w,
            h,
            c.splitter.spec_borders(),
        ),
    }
}

/// Moving a splitter's focus forward and then back again, when the first
/// move succeeds, succeeds too and gives back the splitter it started from.
pub proof fn law_splitter_next_then_prev(a: Splitters, b: Splitters, c: Splitters, r1: MoveFocusResult, r2: MoveFocusResult)
    requires
        a.spec_inner().spec_sel() + 1 <= i32::MAX,
        spec_moved(a, b, a.spec_inner().spec_sel() + 1 < a.spec_inner().spec_panels().len(), 1, r1),
        r1 == MoveFocusResult::Success,
        spec_moved(b, c, (b.spec_inner().spec_sel() as i32) >= 1, -1, r2),
    ensures
        r2 == MoveFocusResult::Success,
        a is VerticalSplitter <==> c is VerticalSplitter,
        c.spec_inner().spec_name() == a.spec_inner().spec_name(),
        c.spec_inner().spec_panels() == a.spec_inner().spec_panels(),
        c.spec_inner().spec_borders() == a.spec_inner().spec_borders(),
        c.spec_inner().spec_sel() == a.spec_inner().spec_sel(),
{
    assert(b.spec_inner().spec_sel() == a.spec_inner().spec_sel() + 1);
    assert((b.spec_inner().spec_sel() as i32) as int == b.spec_inner().spec_sel());
}

/// A horizontal scan gives one area per panel scanned.
proof fn lemma_h_scan_len(sizes: Seq<Size>, k: nat, inner: Rect, w: u16, borders: bool)
    ensures
        spec_h_scan(sizes, k, inner, w, borders) matches Some((_, rects)) ==> rects.len() == k,
    decreases k,
{
    if k > 0 {
        lemma_h_scan_len(sizes, (k - 1) as nat, inner, w, borders);
    }
}

/// A vertical scan gives one area per panel scanned.
proof fn lemma_v_scan_len(sizes: Seq<Size>, k: nat, inner: Rect, borders: bool)
    ensures
        spec_v_scan(sizes, k, inner, borders) matches Some((_, rects)) ==> rects.len() == k,
    decreases k,
{
    if k > 0 {
        lemma_v_scan_len(sizes, (k - 1) as nat, inner, borders);
    }
}

impl Splitters {
    /// Where the panels go when the splitter is drawn at `x, y, w, h`.
    pub open spec fn spec_layout(&self, x: u16, y: u16, w: u16, h: u16) -> Option<Seq<Rect>> {
        match self {
            Splitters::VerticalSplitter(c) => spec_v_layout(
                panel_sizes(c.splitter.spec_panels()),
                x,
                y,
                w,
                h,
                c.splitter.spec_borders(),
            ),
            Splitters::HorizontalSplitter(c) => spec_h_layout(
                panel_sizes(c.splitter.spec_panels()),
                x,
                y,
                w,
                h,
                c.splitter.spec_borders(),
            ),
        }
    }

    /// Where the panels go when the splitter is drawn at `x, y, w, h`, one
    /// area per panel; `None` where the arithmetic leaves `u16`.
    pub fn layout(&self, x: u16, y: u16, w: u16, h: u16) -> (r: Option<Vec<Rect>>)
        ensures
            match r {
                Some(v) => self.spec_layout(x, y, w, h) == Some(v@) && v@.len() == self.spec_inner().spec_panels().len(),
                None => self.spec_layout(x, y, w, h) is None,
            },
    {
        proof {
            let inner = self.spec_inner();
            let sizes = panel_sizes(inner.spec_panels());
            match spec_inner(x, y, w, h, inner.spec_borders()) {
                Some(a) => {
                    lemma_h_scan_len(sizes, sizes.len(), a, w, inner.spec_borders());
                    lemma_v_scan_len(sizes, sizes.len(), a, inner.spec_borders());
                },
                None => {},
            }
        }
        match self {
            Splitters::VerticalSplitter(c) => c.layout(x, y, w, h),
            Splitters::HorizontalSplitter(c) => c.layout(x, y, w, h),
        }
    }

    /// What handling `e` needs: a drawing request must give every panel an
    /// area.
    pub open spec fn can_handle(&self, e: ComponentEvent) -> bool {
        e matches ComponentEvent::Draw(x, y, w, h, _) ==> self.spec_layout(x, y, w, h) is Some
    }

    /// What handling `e` does: a drawing request asks each panel, in
    /// order, to draw itself in its area, naming the same focused
    /// component; other events are ignored. The splitter does not change.
    pub open spec fn handled(&self, new: Self, e: ComponentEvent, out: Seq<Event>) -> bool {
        &&& new == *self
        &&& match e {
            ComponentEvent::Draw(x, y, w, h, f) => {
                let rects = self.spec_layout(x, y, w, h)->0;
                let keys = panel_keys(self.spec_inner().spec_panels());
                &&& out.len() == keys.len()
                &&& forall|i: int|
                    0 <= i < out.len() ==> (#[trigger] out[i] matches Event::ToComponent(k, ComponentEvent::Draw(
                        a,
                        b,
                        c,
                        d,
                        g,
                    )) && k@ == keys[i] && (a, b, c, d) == rects[i] && g@ == f@)
            },
            _ => out.len() == 0,
        }
    }

    /// Whether handling `e` can be computed.
    pub fn accepts(&self, e: &ComponentEvent) -> (r: bool)
        ensures
            r == self.can_handle(*e),
    {
        match e {
            ComponentEvent::Draw(x, y, w, h, _) => self.layout(*x, *y, *w, *h).is_some(),
            _ => true,
        }
    }

    /// Handles an event: a drawing request is passed on to the panels.
    pub fn handle(&self, e: &ComponentEvent) -> (out: Vec<Event>)
        requires
            self.can_handle(*e),
        ensures
            self.handled(*self, *e, out@),
    {
        let mut out: Vec<Event> = Vec::new();
        match e {
            ComponentEvent::Draw(x, y, w, h, f) => {
                let rects = match self.layout(*x, *y, *w, *h) {
                    Some(v) => v,
                    None => return out,
                };
                let keys = self.children();
                let ghost kv = panel_keys(self.spec_inner().spec_panels());
                assert(keys@.len() == kv.len()) by {
                    assert(keys@.map_values(|s: &str| s@).len() == keys@.len());
                }
                let mut i: usize = 0;
                while i < keys.len()
                    invariant
                        i <= keys@.len(),
                        keys@.map_values(|s: &str| s@) == kv,
                        keys@.len() == kv.len(),
                        rects@.len() == kv.len(),
                        self.spec_layout(*x, *y, *w, *h) == Some(rects@),
                        out@.len() == i,
                        forall|j: int|
                            0 <= j < i ==> (#[trigger] out@[j] matches Event::ToComponent(k, ComponentEvent::Draw(
                                a,
                                b,
                                c,
                                d,
                                g,
                            )) && k@ == kv[j] && (a, b, c, d) == rects@[j] && g@ == f@),
                    decreases keys@.len() - i,
                {
                    assert(keys@.map_values(|s: &str| s@)[i as int] == keys@[i as int]@);
                    let (a, b, c, d) = rects[i];
                    out.push(Event::ToComponent(keys[i].to_string(), ComponentEvent::Draw(a, b, c, d, f.clone())));
                    i = i + 1;
                }
            },
            _ => {},
        }
        out
    }
}

} // verus!
