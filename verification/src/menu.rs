//! The scrolling menu that most components are built on, and the link
//! from a menu to the menu it follows.
use vstd::prelude::*;

use crate::align::Align;
use crate::color::Color;
use crate::paint::{pad_to_width, paints_view, repeat_char, repeated, spec_unicode_pad, Paint, PaintView};
use crate::text::{contains_ignore_case, spec_contains_lower, str_eq};

verus! {

/// A list of items with one of them selected.
#[derive(Debug, PartialEq)]
pub struct Menu {
    pub name: String,
    /// Index of the selected item.
    pub selection: usize,
    pub items: Vec<String>,
    pub color: Color,
    pub focus_color: Color,
    pub title: Option<String>,
    pub title_alignment: Align,
    pub menu_alignment: Align,
}

/// The items of a menu as character sequences.
pub open spec fn items_view(items: Seq<String>) -> Seq<Seq<char>> {
    items.map_values(|s: String| s@)
}

/// Where a forward search for `s` from `sel` lands: the first item after
/// `sel` holding `s` (ignoring case), or `sel` when none does.
pub open spec fn spec_search(items: Seq<Seq<char>>, sel: int, s: Seq<char>) -> int {
    if exists|j: int| sel < j < items.len() && spec_contains_lower(items[j], s) {
        choose|j: int|
            sel < j < items.len() && spec_contains_lower(items[j], s) && forall|k: int|
                sel < k < j ==> !spec_contains_lower(items[k], s)
    } else {
        sel
    }
}

/// Where a backward search for `s` from `sel` lands: the last item before
/// `sel` holding `s` (ignoring case), or `sel` when none does.
pub open spec fn spec_search_prev(items: Seq<Seq<char>>, sel: int, s: Seq<char>) -> int {
    if exists|j: int| 0 <= j < sel && spec_contains_lower(items[j], s) {
        choose|j: int|
            0 <= j < sel && spec_contains_lower(items[j], s) && forall|k: int|
                j < k < sel ==> !spec_contains_lower(items[k], s)
    } else {
        sel
    }
}

/// The selection after moving down: the next item, wrapping to the top.
pub open spec fn spec_next(len: int, sel: int) -> int {
    if len == 0 { 0 } else if sel + 1 >= len { 0 } else { sel + 1 }
}

/// The selection after moving up: the previous item, wrapping to the bottom.
pub open spec fn spec_prev(len: int, sel: int) -> int {
    if len == 0 { 0 } else if sel <= 0 { len - 1 } else { sel - 1 }
}

/// The number of item lines of a menu drawn `h` lines high (a title takes two).
pub open spec fn spec_item_lines(has_title: bool, h: int) -> int {
    if has_title { h - 2 } else { h }
}

/// The index of the first item drawn, so that the selection stays near the
/// middle of `lines` lines where it can.
pub open spec fn spec_first_visible(len: int, sel: int, lines: int) -> int {
    let center = if lines % 2 == 0 { lines / 2 - 1 } else { lines / 2 };
    if sel <= center {
        0
    } else if sel >= len - center {
        if len - lines > 0 { len - lines } else { 0 }
    } else {
        sel - center
    }
}

/// `m` is a new menu with these settings: the first line selected.
pub open spec fn fresh_menu(
    m: Menu,
    name: Seq<char>,
    color: Color,
    focus_color: Color,
    title: Option<String>,
    title_alignment: Align,
    menu_alignment: Align,
) -> bool {
    &&& m.name@ == name
    &&& m.color == color
    &&& m.focus_color == focus_color
    &&& m.title == title
    &&& m.title_alignment == title_alignment
    &&& m.menu_alignment == menu_alignment
    &&& m.selection == 0
}

/// `b` looks like `a`: the same name, colours, title and alignments.
pub open spec fn same_look(a: Menu, b: Menu) -> bool {
    &&& b.name == a.name
    &&& b.color == a.color
    &&& b.focus_color == a.focus_color
    &&& b.title == a.title
    &&& b.title_alignment == a.title_alignment
    &&& b.menu_alignment == a.menu_alignment
}

/// `b` differs from `a` in the selection at most.
pub open spec fn same_but_selection(a: Menu, b: Menu) -> bool {
    &&& b.name == a.name
    &&& b.items == a.items
    &&& b.color == a.color
    &&& b.focus_color == a.focus_color
    &&& b.title == a.title
    &&& b.title_alignment == a.title_alignment
    &&& b.menu_alignment == a.menu_alignment
}

impl Menu {
    /// The color to draw with, focused or not.
    pub fn color(&self, focus: bool) -> (c: Color)
        ensures
            c == (if focus { self.focus_color } else { self.color }),
    {
        if focus {
            self.focus_color
        } else {
            self.color
        }
    }

    /// The selected item, if the selection is on an item.
    pub fn selection(&self) -> (r: Option<&String>)
        ensures
            match r {
                Some(s) => self.selection < self.items@.len() && *s == self.items@[self.selection as int],
                None => self.selection >= self.items@.len(),
            },
    {
        if self.selection < self.items.len() {
            Some(&self.items[self.selection])
        } else {
            None
        }
    }

    /// Selects the first item.
    pub fn to_top(&mut self)
        ensures
            final(self).selection == 0,
            same_but_selection(*old(self), *final(self)),
    {
        self.selection = 0;
    }

    /// Selects the last item. An empty menu has no last item.
    pub fn to_bottom(&mut self)
        requires
            old(self).items@.len() > 0,
        ensures
            final(self).selection == old(self).items@.len() - 1,
            same_but_selection(*old(self), *final(self)),
    {
        self.selection = self.items.len() - 1;
    }

    /// Selects item `i` if there is one; otherwise nothing changes.
    pub fn to(&mut self, i: usize)
        ensures
            final(self).selection == (if i < old(self).items@.len() { i } else { old(self).selection }),
            same_but_selection(*old(self), *final(self)),
    {
        if i < self.items.len() {
            self.selection = i;
        }
    }

    /// Moves the selection forward to the next item that holds `s`,
    /// ignoring case; stays put when none does.
    pub fn search(&mut self, s: &str)
        requires
            old(self).selection < usize::MAX,
        ensures
            final(self).selection == spec_search(items_view(old(self).items@), old(self).selection as int, s@),
            same_but_selection(*old(self), *final(self)),
    {
        let ghost iv = items_view(self.items@);
        let mut j: usize = self.selection + 1;
        while j < self.items.len()
            invariant
                *self == *old(self),
                iv == items_view(self.items@),
                self.selection < j,
                forall|k: int| self.selection < k < j ==> !spec_contains_lower(#[trigger] iv[k], s@),
            decreases self.items@.len() - j,
        {
            if contains_ignore_case(self.items[j].as_str(), s) {
                assert(iv[j as int] == self.items@[j as int]@);
                assert(exists|jj: int| self.selection < jj < iv.len() && spec_contains_lower(iv[jj], s@));
                let ghost c = spec_search(iv, self.selection as int, s@);
                assert(c == j) by {
                    if c < j {
                        assert(!spec_contains_lower(iv[c], s@));
                    } else if c > j {
                        assert(!spec_contains_lower(iv[j as int], s@));
                    }
                }
                self.selection = j;
                return;
            }
            assert(iv[j as int] == self.items@[j as int]@);
            j = j + 1;
        }
    }

    /// Moves the selection back to the previous item that holds `s`,
    /// ignoring case; stays put when none does. The selection must not be
    /// past the end.
    pub fn search_prev(&mut self, s: &str)
        requires
            old(self).selection <= old(self).items@.len(),
        ensures
            final(self).selection == spec_search_prev(items_view(old(self).items@), old(self).selection as int, s@),
            same_but_selection(*old(self), *final(self)),
    {
        let ghost iv = items_view(self.items@);
        let mut j: usize = self.selection;
        while j > 0
            invariant
                *self == *old(self),
                iv == items_view(self.items@),
                j <= self.selection <= self.items@.len(),
                forall|k: int| j <= k < self.selection ==> !spec_contains_lower(#[trigger] iv[k], s@),
            decreases j,
        {
            let i = j - 1;
            assert(iv[i as int] == self.items@[i as int]@);
            if contains_ignore_case(self.items[i].as_str(), s) {
                assert(exists|jj: int| 0 <= jj < self.selection && spec_contains_lower(iv[jj], s@));
                let ghost c = spec_search_prev(iv, self.selection as int, s@);
                assert(c == i) by {
                    if c > i {
                        assert(!spec_contains_lower(iv[c], s@));
                    } else if c < i {
                        assert(!spec_contains_lower(iv[i as int], s@));
                    }
                }
                self.selection = i;
                return;
            }
            j = i;
        }
    }

    /// Selects the next item, from the last going round to the first.
    pub fn next(&mut self)
        requires
            old(self).selection < usize::MAX,
        ensures
            final(self).selection == spec_next(old(self).items@.len() as int, old(self).selection as int),
            same_but_selection(*old(self), *final(self)),
    {
        self.selection = if self.items.len() == 0 {
            0
        } else if self.selection + 1 >= self.items.len() {
            0
        } else {
            self.selection + 1
        };
    }

    /// Selects the previous item, from the first going round to the last.
    pub fn prev(&mut self)
        ensures
            final(self).selection == spec_prev(old(self).items@.len() as int, old(self).selection as int),
            same_but_selection(*old(self), *final(self)),
    {
        self.selection = if self.items.len() == 0 {
            0
        } else if self.selection <= 0 {
            self.items.len() - 1
        } else {
            self.selection - 1
        };
    }

    /// The index of the first item to draw in a menu `h` lines high. There
    /// must be at least one line for items, and the selection and the
    /// number of items must fit in an `i32`.
    pub fn first_visible(&self, h: u16) -> (r: usize)
        requires
            spec_item_lines(self.title is Some, h as int) >= 1,
            self.selection <= i32::MAX,
            self.items@.len() <= i32::MAX,
        ensures
            r == spec_first_visible(self.items@.len() as int, self.selection as int,
                spec_item_lines(self.title is Some, h as int)),
    {
        let h = match self.title {
            Some(_) => h - 2,
            None => h,
        };
        let mut center = h / 2;
        if h % 2 == 0 {
            center = center - 1;
        }
        if self.selection <= center as usize {
            0
        } else if self.selection as i32 >= self.items.len() as i32 - center as i32 {
            let d = self.items.len() as i32 - h as i32;
            if d > 0 { d as usize } else { 0 }
        } else {
            self.selection - center as usize
        }
    }
}

/// Moving down then up from an item of a menu comes back to it.
pub proof fn law_next_then_prev(len: int, sel: int)
    requires
        0 <= sel < len,
    ensures
        spec_prev(len, spec_next(len, sel)) == sel,
        spec_next(len, spec_prev(len, sel)) == sel,
{
}

/// Moving down or up from an item of a menu lands on an item.
pub proof fn law_moves_stay_in_menu(len: int, sel: int)
    requires
        0 <= sel < len,
    ensures
        0 <= spec_next(len, sel) < len,
        0 <= spec_prev(len, sel) < len,
{
}

/// Scanning up from `j`, with no match between `sel` and `j`, finds the
/// first match after `sel`.
proof fn lemma_first_match(items: Seq<Seq<char>>, sel: int, s: Seq<char>, j: int)
    requires
        sel < j,
        forall|k: int| sel < k < j ==> !spec_contains_lower(items[k], s),
        exists|m: int| j <= m < items.len() && spec_contains_lower(items[m], s),
    ensures
        exists|m: int|
            sel < m < items.len() && spec_contains_lower(items[m], s) && forall|k: int|
                sel < k < m ==> !spec_contains_lower(items[k], s),
    decreases items.len() - j,
{
    if !spec_contains_lower(items[j], s) {
        lemma_first_match(items, sel, s, j + 1);
    }
}

/// Scanning down from `j`, with no match between `j` and `sel`, finds the
/// last match before `sel`.
proof fn lemma_last_match(items: Seq<Seq<char>>, sel: int, s: Seq<char>, j: int)
    requires
        j < sel,
        forall|k: int| j < k < sel ==> !spec_contains_lower(items[k], s),
        exists|m: int| 0 <= m <= j && spec_contains_lower(items[m], s),
    ensures
        exists|m: int|
            0 <= m < sel && spec_contains_lower(items[m], s) && forall|k: int|
                m < k < sel ==> !spec_contains_lower(items[k], s),
    decreases j,
{
    if !spec_contains_lower(items[j], s) {
        lemma_last_match(items, sel, s, j - 1);
    }
}

/// A search lands on an item holding the text, or stays put when no item
/// in that direction holds it.
pub proof fn law_search_lands_on_match(items: Seq<Seq<char>>, sel: int, s: Seq<char>)
    ensures
        spec_search(items, sel, s) == sel || (sel < spec_search(items, sel, s) < items.len()
            && spec_contains_lower(items[spec_search(items, sel, s)], s)),
        spec_search_prev(items, sel, s) == sel || (0 <= spec_search_prev(items, sel, s) < sel
            && spec_contains_lower(items[spec_search_prev(items, sel, s)], s)),
{
    if exists|j: int| sel < j < items.len() && spec_contains_lower(items[j], s) {
        lemma_first_match(items, sel, s, sel + 1);
    }
    if exists|j: int| 0 <= j < sel && spec_contains_lower(items[j], s) {
        lemma_last_match(items, sel, s, sel - 1);
    }
}

/// The selected item is always among the lines drawn.
pub proof fn law_selection_visible(len: int, sel: int, lines: int)
    requires
        0 <= sel < len,
        lines >= 1,
    ensures
        0 <= spec_first_visible(len, sel, lines) <= sel,
        sel < spec_first_visible(len, sel, lines) + lines,
{
}

/// Whether a component follows another one (its parent).
#[derive(Debug, PartialEq)]
pub struct Parent {
    parent: Option<String>,
}

impl Parent {
    /// The name of the parent, if any.
    pub closed spec fn spec_parent(&self) -> Option<Seq<char>> {
        crate::track::opt_view(self.parent)
    }

    pub fn new(parent: Option<String>) -> (p: Parent)
        ensures
            p.spec_parent() == crate::track::opt_view(parent),
    {
        Parent { parent }
    }

    /// Whether the parent is named `target`.
    pub fn is(&self, target: &str) -> (r: bool)
        ensures
            r == (self.spec_parent() == Some(target@)),
    {
        match &self.parent {
            Some(parent) => str_eq(parent.as_str(), target),
            None => false,
        }
    }

    /// Whether there is no parent.
    pub fn is_none(&self) -> (r: bool)
        ensures
            r == (self.spec_parent() is None),
    {
        match &self.parent {
            Some(_) => false,
            None => true,
        }
    }
}

/// The color of a menu, focused or not.
pub open spec fn menu_color(m: Menu, focus: bool) -> Color {
    if focus { m.focus_color } else { m.color }
}

/// The title lines of a menu drawn from (`x`, `y`) `w` wide: the title
/// and a rule under it, when there is a title.
pub open spec fn title_rows(m: Menu, x: u16, y: u16, w: u16, focus: bool) -> Seq<PaintView> {
    match m.title {
        Some(t) => seq![
            PaintView::Fg(menu_color(m, focus)),
            PaintView::At(x, y),
            PaintView::Text(spec_unicode_pad(t@, w, m.title_alignment)),
            PaintView::At(x, (y + 1) as u16),
            PaintView::Text(repeated('─', w as nat)),
            PaintView::Reset,
        ],
        None => Seq::empty(),
    }
}

/// The row `line` of a menu, showing item `i` (or nothing, past the end).
pub open spec fn menu_row(m: Menu, x: u16, line: int, i: int, w: u16, focus: bool) -> Seq<PaintView> {
    if 0 <= i < m.items@.len() {
        let s = spec_unicode_pad(m.items@[i]@, w, m.menu_alignment);
        if m.selection == i {
            seq![
                PaintView::Invert,
                PaintView::At(x, line as u16),
                PaintView::Text(s),
                PaintView::Reset,
                PaintView::Fg(menu_color(m, focus)),
            ]
        } else {
            seq![PaintView::At(x, line as u16), PaintView::Text(s)]
        }
    } else {
        seq![PaintView::At(x, line as u16), PaintView::Text(spec_unicode_pad(seq![' '], w, m.menu_alignment))]
    }
}

/// `n` rows of a menu from row `line` down, the first showing item `i`.
pub open spec fn menu_rows(m: Menu, x: u16, line: int, n: nat, i: int, w: u16, focus: bool) -> Seq<PaintView>
    decreases n,
{
    if n == 0 {
        Seq::empty()
    } else {
        menu_rows(m, x, line, (n - 1) as nat, i, w, focus) + menu_row(m, x, line + n - 1, i + n - 1, w, focus)
    }
}

/// The first row under the title, if any.
pub open spec fn body_top(m: Menu, y: u16) -> int {
    if m.title is Some { y + 2 } else { y as int }
}

/// A menu drawn `w` by `h` from (`x`, `y`): the title, then as many
/// items as fit, scrolled so the selection shows, the selection inverted.
pub open spec fn spec_menu_draw(m: Menu, x: u16, y: u16, w: u16, h: u16, focus: bool) -> Seq<PaintView> {
    let first = spec_first_visible(m.items@.len() as int, m.selection as int, spec_item_lines(m.title is Some, h as int));
    title_rows(m, x, y, w, focus) + seq![PaintView::Fg(menu_color(m, focus))]
        + menu_rows(m, x, body_top(m, y), (y + h - body_top(m, y)) as nat, first, w, focus) + seq![PaintView::Reset]
}

/// Appends the title lines of `m`.
pub fn push_title(out: &mut Vec<Paint>, m: &Menu, x: u16, y: u16, w: u16, focus: bool)
    requires
        m.title is Some ==> y + 1 <= u16::MAX,
    ensures
        paints_view(final(out)@) == paints_view(old(out)@) + title_rows(*m, x, y, w, focus),
{
    let ghost before = out@;
    match &m.title {
        Some(t) => {
            out.push(Paint::Fg(m.color(focus)));
            out.push(Paint::At(x, y));
            out.push(Paint::Text(pad_to_width(t.as_str(), w, m.title_alignment)));
            out.push(Paint::At(x, y + 1));
            out.push(Paint::Text(repeat_char('─', w as usize)));
            out.push(Paint::Reset);
        },
        None => {},
    }
    assert(paints_view(out@) =~= paints_view(before) + title_rows(*m, x, y, w, focus));
}

impl Menu {
    /// Draws the menu `w` by `h` from (`x`, `y`). There must be at least
    /// one row for items below the title.
    pub fn draw(&self, x: u16, y: u16, w: u16, h: u16, focus: bool) -> (r: Vec<Paint>)
        requires
            spec_item_lines(self.title is Some, h as int) >= 1,
            self.selection <= i32::MAX,
            self.items@.len() <= i32::MAX,
            y + h <= u16::MAX,
        ensures
            paints_view(r@) == spec_menu_draw(*self, x, y, w, h, focus),
    {
        let mut out: Vec<Paint> = Vec::new();
        let first = self.first_visible(h);
        push_title(&mut out, self, x, y, w, focus);
        let top: u16 = if self.title.is_some() { y + 2 } else { y };
        let ghost titled = out@;
        out.push(Paint::Fg(self.color(focus)));
        assert(paints_view(out@) =~= title_rows(*self, x, y, w, focus) + seq![PaintView::Fg(menu_color(*self, focus))]) by {
            assert(paints_view(out@) =~= paints_view(titled) + seq![PaintView::Fg(menu_color(*self, focus))]);
        }
        let ghost head = paints_view(out@);
        assert(first <= i32::MAX);
        let n: u16 = y + h - top;
        let mut k: u16 = 0;
        while k < n
            invariant
                k <= n,
                top as int == body_top(*self, y),
                n == y + h - top,
                y + h <= u16::MAX,
                first <= i32::MAX,
                paints_view(out@) == head + menu_rows(*self, x, top as int, k as nat, first as int, w, focus),
            decreases n - k,
        {
            let ghost before = out@;
            let line = top + k;
            let i = first + k as usize;
            if i < self.items.len() {
                let s = pad_to_width(self.items[i].as_str(), w, self.menu_alignment);
                if self.selection == i {
                    out.push(Paint::Invert);
                    out.push(Paint::At(x, line));
                    out.push(Paint::Text(s));
                    out.push(Paint::Reset);
                    out.push(Paint::Fg(self.color(focus)));
                    assert(menu_row(*self, x, line as int, i as int, w, focus) =~= paints_view(out@).subrange(before.len() as int, out@.len() as int));
                } else {
                    out.push(Paint::At(x, line));
                    out.push(Paint::Text(s));
                    assert(menu_row(*self, x, line as int, i as int, w, focus) =~= paints_view(out@).subrange(before.len() as int, out@.len() as int));
                }
            } else {
                out.push(Paint::At(x, line));
                out.push(Paint::Text(pad_to_width(" ", w, self.menu_alignment)));
                proof {
                    reveal_strlit(" ");
                    assert(" "@ =~= seq![' ']);
                }
                assert(menu_row(*self, x, line as int, i as int, w, focus) =~= paints_view(out@).subrange(before.len() as int, out@.len() as int));
            }
            k = k + 1;
            assert(paints_view(out@) =~= paints_view(before) + menu_row(*self, x, top + k - 1, first + k - 1, w, focus));
        }
        let ghost body = out@;
        out.push(Paint::Reset);
        assert(paints_view(out@) =~= paints_view(body) + seq![PaintView::Reset]);
        assert(paints_view(out@) =~= spec_menu_draw(*self, x, y, w, h, focus));
        out
    }
}

impl Menu {
    /// Whether the menu can be drawn `h` rows high from row `y`: there is
    /// a row for items below the title, and the numbers stay in range.
    pub open spec fn can_draw(&self, y: u16, h: u16) -> bool {
        &&& spec_item_lines(self.title is Some, h as int) >= 1
        &&& self.selection <= i32::MAX
        &&& self.items@.len() <= i32::MAX
        &&& y + h <= u16::MAX
    }

    /// Whether the menu can be drawn `h` rows high from row `y`.
    pub fn drawable(&self, y: u16, h: u16) -> (r: bool)
        ensures
            r == self.can_draw(y, h),
    {
        let lines_ok = match self.title {
            Some(_) => h >= 3,
            None => h >= 1,
        };
        lines_ok && self.selection <= i32::MAX as usize && self.items.len() <= i32::MAX as usize && y as u32 + h as u32
            <= u16::MAX as u32
    }
}

} // verus!
