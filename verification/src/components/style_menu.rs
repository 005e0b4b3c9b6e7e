//! A menu of genres: the subgenres of the genres that its parent menu
//! selects, or of the root genre.
use vstd::prelude::*;

use crate::align::Align;
use crate::color::Color;
use crate::components::menus::{ids_in_tree, menu_move, move_ok, spec_move, spec_move_ok, spec_style_leaves, style_leaves, styles_fit};
use crate::components::simple::{is_redraw, redraw};
use crate::event::{ComponentEvent, Event, MpdEvent};
use crate::menu::{fresh_menu, items_view, Menu, Parent};
use crate::styles::{StyleTree, StyleView};
use crate::text::strings_view;
use crate::track::opt_view;
use crate::GlobalState;

verus! {

/// The subgenres of each of the genres `ids`, in turn.
pub open spec fn spec_children_of(s: Seq<StyleView>, ids: Seq<usize>) -> Seq<usize>
    decreases ids.len(),
{
    if ids.len() == 0 {
        Seq::empty()
    } else {
        spec_children_of(s, ids.drop_last()) + s[ids.last() as int].children
    }
}

/// The names of the genres `ids`.
pub open spec fn spec_names(s: Seq<StyleView>, ids: Seq<usize>) -> Seq<Seq<char>> {
    Seq::new(ids.len(), |i: int| s[ids[i] as int].name)
}

/// `e` tells every component that the genre menu `name` now selects the
/// genres `ids`.
pub open spec fn is_style_update(e: Event, name: Seq<char>, ids: Seq<usize>) -> bool {
    e matches Event::ToAllComponents(ComponentEvent::StyleMenuUpdated(n, v)) && n@ == name && v@ == ids
}

/// A menu of genres, with an entry for all of them first.
#[derive(Debug, PartialEq)]
pub struct StyleMenu {
    pub parent: Parent,
    pub menu: Menu,
    /// The genres listed after the first line.
    pub styles: Vec<usize>,
    pub color: Color,
}

impl StyleMenu {
    pub fn new(
        name: &str,
        color: Color,
        focus_color: Color,
        title: Option<String>,
        title_alignment: Align,
        menu_alignment: Align,
        parent: Option<String>,
    ) -> (m: StyleMenu)
        ensures
            m.wf(),
            fresh_menu(m.menu, name@, color, focus_color, title, title_alignment, menu_alignment),
            m.color == color,
            items_view(m.menu.items@) == seq!["<All>"@],
            m.styles@.len() == 0,
            m.parent.spec_parent() == opt_view(parent),
    {
        let mut items: Vec<String> = Vec::new();
        items.push("<All>".to_string());
        assert(items_view(items@) =~= seq!["<All>"@]);
        StyleMenu {
            parent: Parent::new(parent),
            styles: Vec::new(),
            color,
            menu: Menu {
                name: name.to_string(),
                title,
                title_alignment,
                menu_alignment,
                color,
                focus_color,
                selection: 0,
                items,
            },
        }
    }

    /// One line per genre, after the first.
    pub open spec fn wf(&self) -> bool {
        self.menu.items@.len() == self.styles@.len() + 1
    }

    /// The genres the menu selects: all of them on the first line, else
    /// the one under the selection.
    pub open spec fn spec_selection(&self) -> Seq<usize> {
        if self.menu.selection == 0 {
            self.styles@
        } else if self.menu.selection - 1 < self.styles@.len() {
            seq![self.styles@[self.menu.selection - 1]]
        } else {
            Seq::empty()
        }
    }

    /// The lines name the genres and the first line is selected.
    pub open spec fn refreshed(&self, tree: StyleTree) -> bool {
        &&& self.menu.selection == 0
        &&& items_view(self.menu.items@) == seq!["<All>"@] + spec_names(tree.spec_styles(), self.styles@)
    }

    /// The genres the menu selects.
    pub fn selection(&self) -> (r: Vec<usize>)
        ensures
            r@ == self.spec_selection(),
    {
        if self.menu.selection == 0 {
            crate::components::tag_menu::copy_usizes(&self.styles)
        } else {
            let mut r: Vec<usize> = Vec::new();
            if self.menu.selection - 1 < self.styles.len() {
                r.push(self.styles[self.menu.selection - 1]);
                assert(r@ =~= seq![self.styles@[self.menu.selection - 1]]);
            }
            r
        }
    }

    /// The names of the leaf genres under the selected genres.
    pub fn selection_leaf_names(&self, tree: &StyleTree) -> (r: Vec<String>)
        requires
            forall|i: int| 0 <= i < self.spec_selection().len() ==> (#[trigger] self.spec_selection()[i]) < tree.spec_styles().len(),
        ensures
            strings_view(r@) == spec_style_leaves(tree.spec_styles(), self.spec_selection()),
    {
        let sel = self.selection();
        let leaves = style_leaves(tree, &sel);
        let mut r: Vec<String> = Vec::new();
        let mut i: usize = 0;
        while i < leaves.len()
            invariant
                i <= leaves@.len(),
                r@.len() == i,
                forall|k: int| 0 <= k < i ==> (#[trigger] r@[k])@ == leaves@[k]@,
            decreases leaves@.len() - i,
        {
            r.push(leaves[i].to_string());
            i = i + 1;
        }
        assert(strings_view(r@) =~= leaves@.map_values(|s: &str| s@));
        r
    }

    /// Lists the subgenres of the genres `styles` and selects the first line.
    fn set_items(&mut self, tree: &StyleTree, styles: &Vec<usize>)
        requires
            forall|i: int| 0 <= i < styles@.len() ==> (#[trigger] styles@[i]) < tree.spec_styles().len(),
        ensures
            final(self).wf(),
            final(self).styles@ == spec_children_of(tree.spec_styles(), styles@),
            final(self).refreshed(*tree),
            crate::menu::same_look(old(self).menu, final(self).menu),
            final(self).parent == old(self).parent,
    {
        proof {
            use_type_invariant(tree);
        }
        let ghost s = tree.spec_styles();
        let mut kids: Vec<usize> = Vec::new();
        let mut k: usize = 0;
        while k < styles.len()
            invariant
                s == tree.spec_styles(),
                crate::styles::wf_styles(s),
                forall|i: int| 0 <= i < styles@.len() ==> (#[trigger] styles@[i]) < s.len(),
                k <= styles@.len(),
                kids@ == spec_children_of(s, styles@.subrange(0, k as int)),
                forall|i: int| 0 <= i < kids@.len() ==> (#[trigger] kids@[i]) < s.len(),
            decreases styles@.len() - k,
        {
            let mut c = tree.children(styles[k]);
            let ghost before = kids@;
            let ghost cv = c@;
            proof {
                let sub = styles@.subrange(0, k + 1);
                assert(sub.drop_last() =~= styles@.subrange(0, k as int));
                assert(sub.last() == styles@[k as int]);
                assert forall|j: int| 0 <= j < cv.len() implies (#[trigger] cv[j]) < s.len() by {
                    assert(s[styles@[k as int] as int].children[j] == cv[j]);
                }
            }
            kids.append(&mut c);
            assert(kids@ =~= before + cv);
            k = k + 1;
        }
        assert(styles@.subrange(0, styles@.len() as int) =~= styles@);
        self.styles = kids;
        self.update_menu_items(tree);
    }

    fn update_menu_items(&mut self, tree: &StyleTree)
        requires
            forall|i: int| 0 <= i < old(self).styles@.len() ==> (#[trigger] old(self).styles@[i]) < tree.spec_styles().len(),
        ensures
            final(self).wf(),
            final(self).styles == old(self).styles,
            final(self).refreshed(*tree),
            crate::menu::same_look(old(self).menu, final(self).menu),
            final(self).parent == old(self).parent,
    {
        let mut items: Vec<String> = Vec::new();
        items.push("<All>".to_string());
        let mut i: usize = 0;
        while i < self.styles.len()
            invariant
                forall|j: int| 0 <= j < self.styles@.len() ==> (#[trigger] self.styles@[j]) < tree.spec_styles().len(),
                i <= self.styles@.len(),
                items@.len() == i + 1,
                items@[0]@ == "<All>"@,
                forall|j: int| 1 <= j <= i ==> (#[trigger] items@[j])@ == tree.spec_styles()[self.styles@[j - 1] as int].name,
            decreases self.styles@.len() - i,
        {
            items.push(tree.name(self.styles[i]).to_string());
            i = i + 1;
        }
        assert(items_view(items@) =~= seq!["<All>"@] + spec_names(tree.spec_styles(), self.styles@));
        self.menu.selection = 0;
        self.menu.items = items;
    }

    /// The event telling every component which genres the menu selects.
    fn update_event(&self) -> (e: Event)
        ensures
            is_style_update(e, self.menu.name@, self.spec_selection()),
    {
        Event::ToAllComponents(ComponentEvent::StyleMenuUpdated(self.menu.name.clone(), self.selection()))
    }

    /// Whether handling `e` can be computed.
    pub fn accepts(&self, state: &GlobalState, e: &ComponentEvent) -> (r: bool)
        requires
            self.wf(),
        ensures
            r == self.can_handle(*state, *e),
    {
        let select_ok = match e {
            ComponentEvent::Select => match &state.style_tree {
                Some(t) => {
                    let sel = self.selection();
                    ids_in_tree(&sel, t)
                },
                None => true,
            },
            _ => true,
        };
        move_ok(&self.menu, e) && select_ok && styles_fit(state, &self.parent, e)
    }

    /// What handling `e` needs.
    pub open spec fn can_handle(self, state: GlobalState, e: ComponentEvent) -> bool {
        &&& self.wf()
        &&& spec_move_ok(self.menu, e)
        &&& e is Select ==> (state.style_tree matches Some(t) ==> forall|i: int| 0 <= i < self.spec_selection().len()
            ==> (#[trigger] self.spec_selection()[i]) < t.spec_styles().len())
        &&& e matches ComponentEvent::StyleMenuUpdated(n, styles) ==> (self.parent.spec_parent() == Some(n@)
            ==> (state.style_tree matches Some(t) ==> forall|i: int| 0 <= i < styles@.len()
            ==> (#[trigger] styles@[i]) < t.spec_styles().len()))
    }

    /// What handling `e` does: `new` is the component after it and `out`
    /// the events it sends.
    pub open spec fn handled(self, new: Self, state: GlobalState, e: ComponentEvent, out: Seq<Event>) -> bool {
        &&& new.wf()
        &&& new.menu.name == self.menu.name
        &&& new.parent == self.parent
        &&& match spec_move(items_view(self.menu.items@), self.menu.selection, e) {
            Some(s) => {
                &&& crate::menu::same_but_selection(self.menu, new.menu)
                &&& new.menu.selection == s
                &&& new.styles == self.styles
                &&& out.len() == 2
                &&& is_style_update(out[0], self.menu.name@, new.spec_selection())
                &&& is_redraw(out[1], self.menu.name@)
            },
            None => match e {
                ComponentEvent::Select => new == self && match state.style_tree {
                    Some(t) => out.len() == 1 && (out[0] matches Event::ToMpd(MpdEvent::AddStyleToQueue(names))
                        && strings_view(names@) == spec_style_leaves(t.spec_styles(), self.spec_selection())),
                    None => out.len() == 0,
                },
                ComponentEvent::UpdateRootStyleMenu => if self.parent.spec_parent() is None
                    && state.style_tree is Some {
                    &&& new.styles@ == state.style_tree->0.spec_styles()[0].children
                    &&& new.refreshed(state.style_tree->0)
                    &&& crate::menu::same_look(self.menu, new.menu)
                    &&& out.len() == 2
                    &&& is_style_update(out[0], self.menu.name@, new.spec_selection())
                    &&& is_redraw(out[1], self.menu.name@)
                } else {
                    new == self && out.len() == 0
                },
                ComponentEvent::StyleMenuUpdated(n, styles) => if self.parent.spec_parent() == Some(n@)
                    && state.style_tree is Some {
                    &&& new.styles@ == spec_children_of(state.style_tree->0.spec_styles(), styles@)
                    &&& new.refreshed(state.style_tree->0)
                    &&& crate::menu::same_look(self.menu, new.menu)
                    &&& out.len() == 2
                    &&& is_style_update(out[0], self.menu.name@, new.spec_selection())
                    &&& is_redraw(out[1], self.menu.name@)
                } else {
                    new == self && out.len() == 0
                },
                ComponentEvent::Database => {
                    &&& new == self
                    &&& out.len() == 2
                    &&& is_style_update(out[0], self.menu.name@, self.spec_selection())
                    &&& is_redraw(out[1], self.menu.name@)
                },
                _ => new == self && out.len() == 0,
            },
        }
    }

    /// Reacts to an event and returns the events to send. The genres the
    /// menu holds, and those a parent menu sends, must be in the genre tree.
    pub fn handle(&mut self, state: &GlobalState, e: &ComponentEvent) -> (out: Vec<Event>)
        requires
            old(self).can_handle(*state, *e),
        ensures
            old(self).handled(*final(self), *state, *e, out@),
    {
        let mut out: Vec<Event> = Vec::new();
        if menu_move(&mut self.menu, e) {
            out.push(self.update_event());
            out.push(redraw(self.menu.name.as_str()));
            return out;
        }
        match e {
            ComponentEvent::Select => {
                match &state.style_tree {
                    Some(tree) => {
                        out.push(Event::ToMpd(MpdEvent::AddStyleToQueue(self.selection_leaf_names(tree))));
                    },
                    None => {},
                }
            },
            ComponentEvent::UpdateRootStyleMenu => {
                if self.parent.is_none() {
                    match &state.style_tree {
                        Some(tree) => {
                            proof {
                                use_type_invariant(tree);
                            }
                            let mut root: Vec<usize> = Vec::new();
                            root.push(0);
                            self.set_items(tree, &root);
                            proof {
                                assert(root@.drop_last() =~= Seq::<usize>::empty());
                                assert(root@.last() == 0);
                                assert(spec_children_of(tree.spec_styles(), root@.drop_last()) == Seq::<usize>::empty());
                                assert(spec_children_of(tree.spec_styles(), root@) =~= tree.spec_styles()[0].children);
                            }
                            out.push(self.update_event());
                            out.push(redraw(self.menu.name.as_str()));
                        },
                        None => {},
                    }
                }
            },
            ComponentEvent::StyleMenuUpdated(origin, styles) => {
                if self.parent.is(origin.as_str()) {
                    match &state.style_tree {
                        Some(tree) => {
                            self.set_items(tree, styles);
                            out.push(self.update_event());
                            out.push(redraw(self.menu.name.as_str()));
                        },
                        None => {},
                    }
                }
            },
            ComponentEvent::Database => {
                out.push(self.update_event());
                out.push(redraw(self.menu.name.as_str()));
            },
            _ => {},
        }
        out
    }
}

impl StyleMenu {
    /// Draws the menu `w` by `h` from (`x`, `y`).
    pub fn draw(&self, x: u16, y: u16, w: u16, h: u16, focus: bool) -> (r: Vec<crate::paint::Paint>)
        requires
            self.menu.can_draw(y, h),
        ensures
            crate::paint::paints_view(r@) == crate::menu::spec_menu_draw(self.menu, x, y, w, h, focus),
    {
        self.menu.draw(x, y, w, h, focus)
    }
}

} // verus!
