//! The screen shown: the name of the component at its root, and how
//! focus runs down through nested splitters.
use vstd::prelude::*;

use crate::components::{can_move, prev_ok, ComponentMap, Components};
use crate::splitter::{panel_keys, spec_moved, MoveFocusResult};
use crate::text::{str_eq, strings_view};
use crate::splitter::Splitters;

verus! {

/// Where focus goes on from the component named `key`: when it is a
/// splitter whose focused panel holds a splitter, the name of that
/// splitter.
pub open spec fn focus_step(m: Map<Seq<char>, Components>, key: Seq<char>) -> Option<Seq<char>> {
    if m.contains_key(key) && m[key] is Splitter {
        match m[key]->Splitter_0.spec_inner().spec_focus() {
            Some(f) => if m.contains_key(f) && m[f] is Splitter {
                Some(m[f]->Splitter_0.spec_inner().spec_name())
            } else {
                None
            },
            None => None,
        }
    } else {
        None
    }
}

/// Following focus from `key` stops within `fuel` steps.
pub open spec fn chain_ends(m: Map<Seq<char>, Components>, key: Seq<char>, fuel: nat) -> bool
    decreases fuel,
{
    match focus_step(m, key) {
        None => true,
        Some(k) => fuel > 0 && chain_ends(m, k, (fuel - 1) as nat),
    }
}

/// The names met following focus from `key`, at most `fuel` steps.
pub open spec fn focus_chain(m: Map<Seq<char>, Components>, key: Seq<char>, fuel: nat) -> Seq<Seq<char>>
    decreases fuel,
{
    match focus_step(m, key) {
        Some(k) => if fuel > 0 {
            seq![key] + focus_chain(m, k, (fuel - 1) as nat)
        } else {
            seq![key]
        },
        None => seq![key],
    }
}

/// Following focus from `key` stops: the splitters do not focus each
/// other in a circle.
pub open spec fn chain_finite(m: Map<Seq<char>, Components>, key: Seq<char>) -> bool {
    exists|n: nat| chain_ends(m, key, n)
}

/// The names met following focus from `key` until it stops.
pub open spec fn spec_focus_stack(m: Map<Seq<char>, Components>, key: Seq<char>) -> Seq<Seq<char>> {
    focus_chain(m, key, choose|n: nat| chain_ends(m, key, n))
}

/// The name of the focused component: the focused panel of the last
/// splitter of the chain (the splitter itself when it has no panel), or
/// the last name of the chain when that is no splitter.
pub open spec fn spec_focus(m: Map<Seq<char>, Components>, root: Seq<char>) -> Seq<char> {
    let key = spec_focus_stack(m, root).last();
    if m.contains_key(key) && m[key] is Splitter {
        match m[key]->Splitter_0.spec_inner().spec_focus() {
            Some(f) => f,
            None => m[key]->Splitter_0.spec_inner().spec_name(),
        }
    } else {
        key
    }
}

/// Moving focus along `chain` from its end: the last splitter that can
/// move does, those after it stay; a name that is no splitter stops the
/// search.
pub open spec fn focus_moved(
    old: Map<Seq<char>, Components>,
    new: Map<Seq<char>, Components>,
    chain: Seq<Seq<char>>,
    forward: bool,
) -> bool
    decreases chain.len(),
{
    if chain.len() == 0 {
        new == old
    } else {
        let k = chain.last();
        if old.contains_key(k) && old[k] is Splitter {
            let s = old[k]->Splitter_0;
            if can_move(s, forward) {
                &&& new.contains_key(k)
                &&& new[k] is Splitter
                &&& new == old.insert(k, new[k])
                &&& spec_moved(s, new[k]->Splitter_0, true, if forward { 1int } else { -1int }, MoveFocusResult::Success)
            } else {
                focus_moved(old, new, chain.drop_last(), forward)
            }
        } else {
            new == old
        }
    }
}

/// Whether `key` names the component `c` or, for a splitter, a component
/// nested in it; `None` when the search runs out of `fuel` levels.
pub open spec fn spec_nested(m: Map<Seq<char>, Components>, c: Components, key: Seq<char>, fuel: nat) -> Option<bool>
    decreases fuel, 0nat, 0nat,
{
    match c {
        Components::Splitter(s) => if s.spec_inner().spec_name() == key {
            Some(true)
        } else if fuel == 0 {
            None
        } else {
            spec_nested_in(m, panel_keys(s.spec_inner().spec_panels()), key, (fuel - 1) as nat)
        },
        _ => Some(c.spec_name() == key),
    }
}

/// Whether `key` names a component nested in one of the components
/// named `children`, searched in order.
pub open spec fn spec_nested_in(m: Map<Seq<char>, Components>, children: Seq<Seq<char>>, key: Seq<char>, fuel: nat) -> Option<bool>
    decreases fuel, 1nat, children.len(),
{
    if children.len() == 0 {
        Some(false)
    } else {
        let first = children[0];
        let r = if m.contains_key(first) {
            spec_nested(m, m[first], key, fuel)
        } else {
            Some(false)
        };
        match r {
            Some(true) => Some(true),
            Some(false) => spec_nested_in(m, children.drop_first(), key, fuel),
            None => None,
        }
    }
}

/// The screen named `name` shows the component named `key`: it is the
/// screen's own name, or names the component at the root or one nested
/// in it, searched with `fuel` levels.
pub open spec fn spec_shows(m: Map<Seq<char>, Components>, name: Seq<char>, key: Seq<char>, fuel: nat) -> Option<bool> {
    if name == key {
        Some(true)
    } else if m.contains_key(name) {
        spec_nested(m, m[name], key, fuel)
    } else {
        Some(false)
    }
}

/// A focus chain that ends within some bound is the same with any larger
/// bound.
pub proof fn law_chain_bound(m: Map<Seq<char>, Components>, key: Seq<char>, f1: nat, f2: nat)
    requires
        f1 <= f2,
        chain_ends(m, key, f1),
    ensures
        chain_ends(m, key, f2),
        focus_chain(m, key, f2) == focus_chain(m, key, f1),
    decreases f1,
{
    if let Some(k) = focus_step(m, key) {
        law_chain_bound(m, k, (f1 - 1) as nat, (f2 - 1) as nat);
    }
}

proof fn lemma_chain_nonempty(m: Map<Seq<char>, Components>, key: Seq<char>, fuel: nat)
    ensures
        focus_chain(m, key, fuel).len() >= 1,
{
}

/// The name of the splitter focus goes on to from `key`, if any.
fn focus_step_exec(components: &ComponentMap, key: &str) -> (r: Option<String>)
    ensures
        match r {
            Some(k) => focus_step(components.spec_map(), key@) == Some(k@),
            None => focus_step(components.spec_map(), key@) is None,
        },
{
    match components.get(key) {
        Some(Components::Splitter(s)) => match s.focus() {
            Some(f) => match components.get(f) {
                Some(Components::Splitter(s2)) => Some(s2.name().to_string()),
                _ => None,
            },
            None => None,
        },
        _ => None,
    }
}

/// The names met following focus from `root`, root first.
pub fn focus_stack(root: &str, components: &ComponentMap) -> (r: Vec<String>)
    requires
        chain_finite(components.spec_map(), root@),
    ensures
        strings_view(r@) == spec_focus_stack(components.spec_map(), root@),
{
    construct_focus_stack(root, components)
}

/// The names met following focus from `root`, root first.
fn construct_focus_stack(root: &str, components: &ComponentMap) -> (r: Vec<String>)
    requires
        chain_finite(components.spec_map(), root@),
    ensures
        strings_view(r@) == spec_focus_stack(components.spec_map(), root@),
{
    let ghost m = components.spec_map();
    let ghost n = choose|n: nat| chain_ends(m, root@, n);
    let ghost full = focus_chain(m, root@, n);
    let mut stack: Vec<String> = Vec::new();
    let mut cur = root.to_string();
    stack.push(root.to_string());
    let ghost mut fuel: nat = n;
    let mut next = focus_step_exec(components, root);
    assert(strings_view(stack@).drop_last() =~= Seq::<Seq<char>>::empty());
    assert(Seq::<Seq<char>>::empty() + focus_chain(m, root@, n) =~= full);
    while next.is_some()
        invariant
            m == components.spec_map(),
            full == focus_chain(m, root@, n),
            chain_ends(m, cur@, fuel),
            stack@.len() > 0,
            strings_view(stack@).last() == cur@,
            strings_view(stack@).drop_last() + focus_chain(m, cur@, fuel) == full,
            match next {
                Some(k) => focus_step(m, cur@) == Some(k@),
                None => focus_step(m, cur@) is None,
            },
        decreases fuel,
    {
        let k = next.unwrap();
        let ghost before = strings_view(stack@);
        proof {
            assert(focus_chain(m, cur@, fuel) == seq![cur@] + focus_chain(m, k@, (fuel - 1) as nat));
            assert(before =~= before.drop_last().push(cur@));
            fuel = (fuel - 1) as nat;
        }
        stack.push(k.clone());
        assert(strings_view(stack@) =~= before.push(k@));
        assert(strings_view(stack@).drop_last() + focus_chain(m, k@, fuel) =~= before.drop_last() + (seq![cur@]
            + focus_chain(m, k@, fuel)));
        next = focus_step_exec(components, k.as_str());
        cur = k;
    }
    assert(focus_chain(m, cur@, fuel) == seq![cur@]);
    assert(strings_view(stack@) =~= strings_view(stack@).drop_last() + seq![cur@]);
    stack
}

/// Whether `key` names `c` or a component nested in it.
fn nested(c: &Components, key: &str, components: &ComponentMap, Ghost(fuel): Ghost<nat>) -> (r: bool)
    requires
        spec_nested(components.spec_map(), *c, key@, fuel) is Some,
    ensures
        r == spec_nested(components.spec_map(), *c, key@, fuel)->0,
    decreases fuel,
{
    let ghost m = components.spec_map();
    match c {
        Components::Splitter(s) => {
            if str_eq(s.name(), key) {
                return true;
            }
            let children = s.children();
            let ghost kids = panel_keys(s.spec_inner().spec_panels());
            let ghost f = (fuel - 1) as nat;
            let mut i: usize = 0;
            assert(kids.subrange(0, kids.len() as int) =~= kids);
            while i < children.len()
                invariant
                    m == components.spec_map(),
                    fuel > 0,
                    f == fuel - 1,
                    kids == children@.map_values(|s: &str| s@),
                    i <= kids.len(),
                    spec_nested(m, *c, key@, fuel) == spec_nested_in(m, kids.subrange(i as int, kids.len() as int), key@, f),
                    spec_nested(m, *c, key@, fuel) is Some,
                decreases children@.len() - i,
            {
                let child = children[i];
                let ghost sub = kids.subrange(i as int, kids.len() as int);
                assert(sub[0] == child@);
                assert(sub.drop_first() =~= kids.subrange(i + 1, kids.len() as int));
                match components.get(child) {
                    Some(comp) => {
                        if nested(comp, key, components, Ghost(f)) {
                            return true;
                        }
                    },
                    None => {},
                }
                i = i + 1;
            }
            false
        },
        _ => str_eq(c.name(), key),
    }
}

/// A search that finishes with some bound gives the same answer with any
/// larger one.
pub proof fn law_nested_bound(m: Map<Seq<char>, Components>, c: Components, key: Seq<char>, f1: nat, f2: nat)
    requires
        f1 <= f2,
        spec_nested(m, c, key, f1) is Some,
    ensures
        spec_nested(m, c, key, f2) == spec_nested(m, c, key, f1),
    decreases f1, 0nat, 0nat,
{
    if let Components::Splitter(s) = c {
        if s.spec_inner().spec_name() != key {
            lemma_nested_in_bound(m, panel_keys(s.spec_inner().spec_panels()), key, (f1 - 1) as nat, (f2 - 1) as nat);
        }
    }
}

proof fn lemma_nested_in_bound(m: Map<Seq<char>, Components>, children: Seq<Seq<char>>, key: Seq<char>, f1: nat, f2: nat)
    requires
        f1 <= f2,
        spec_nested_in(m, children, key, f1) is Some,
    ensures
        spec_nested_in(m, children, key, f2) == spec_nested_in(m, children, key, f1),
    decreases f1, 1nat, children.len(),
{
    if children.len() > 0 {
        let first = children[0];
        if m.contains_key(first) {
            law_nested_bound(m, m[first], key, f1, f2);
        }
        let r = if m.contains_key(first) { spec_nested(m, m[first], key, f1) } else { Some(false) };
        if r == Some(false) {
            lemma_nested_in_bound(m, children.drop_first(), key, f1, f2);
        }
    }
}

/// The screen shown, by the name of its root component.
pub struct Screen {
    pub name: String,
}

impl Screen {
    pub fn new(name: &str) -> (s: Screen)
        ensures
            s.name@ == name@,
    {
        Screen { name: name.to_string() }
    }

    pub fn name(&self) -> (r: &str)
        ensures
            r@ == self.name@,
    {
        self.name.as_str()
    }

    /// Shows the screen rooted at the component named `name`.
    pub fn set(&mut self, name: &str)
        ensures
            final(self).name@ == name@,
    {
        self.name = name.to_string();
    }

    /// Whether the screen shows the component named `key`. The splitters
    /// must not hold each other in a circle along the search.
    pub fn contains(&self, key: &str, components: &ComponentMap) -> (r: bool)
        requires
            exists|n: nat| spec_shows(components.spec_map(), self.name@, key@, n) is Some,
        ensures
            r == spec_shows(components.spec_map(), self.name@, key@, choose|n: nat| spec_shows(components.spec_map(), self.name@, key@, n) is Some)->0,
    {
        let ghost n = choose|n: nat| spec_shows(components.spec_map(), self.name@, key@, n) is Some;
        if str_eq(self.name.as_str(), key) {
            true
        } else {
            match components.get(self.name.as_str()) {
                Some(c) => nested(c, key, components, Ghost(n)),
                None => false,
            }
        }
    }

    /// The name of the focused component. The splitters must not focus
    /// each other in a circle.
    pub fn focus(&self, components: &ComponentMap) -> (r: String)
        requires
            chain_finite(components.spec_map(), self.name@),
        ensures
            r@ == spec_focus(components.spec_map(), self.name@),
    {
        let stack = construct_focus_stack(self.name.as_str(), components);
        proof {
            lemma_chain_nonempty(components.spec_map(), self.name@, choose|n: nat| chain_ends(components.spec_map(), self.name@, n));
            assert(strings_view(stack@).len() == stack@.len());
        }
        let key = &stack[stack.len() - 1];
        assert(key@ == spec_focus_stack(components.spec_map(), self.name@).last());
        match components.get(key.as_str()) {
            Some(Components::Splitter(s)) => match s.focus() {
                Some(f) => f.to_string(),
                None => s.name().to_string(),
            },
            _ => key.clone(),
        }
    }

    /// Moves focus forward in the deepest splitter of the chain that can
    /// move it.
    pub fn focus_next(&self, components: &mut ComponentMap)
        requires
            chain_finite(old(components).spec_map(), self.name@),
        ensures
            final(components).spec_keys() == old(components).spec_keys(),
            focus_moved(old(components).spec_map(), final(components).spec_map(), spec_focus_stack(
                old(components).spec_map(),
                self.name@,
            ), true),
    {
        let stack = construct_focus_stack(self.name.as_str(), components);
        move_along(&stack, components, true);
    }

    /// Moves focus back in the deepest splitter of the chain that can move
    /// it. The focus index of each splitter of the chain, taken as an
    /// `i32`, must not be the smallest `i32`.
    pub fn focus_prev(&self, components: &mut ComponentMap)
        requires
            chain_finite(old(components).spec_map(), self.name@),
            forall|i: int| 0 <= i < spec_focus_stack(old(components).spec_map(), self.name@).len() ==> {
                let k = #[trigger] spec_focus_stack(old(components).spec_map(), self.name@)[i];
                old(components).spec_map().contains_key(k) && old(components).spec_map()[k] is Splitter ==> prev_ok(
                    old(components).spec_map()[k]->Splitter_0,
                )
            },
        ensures
            final(components).spec_keys() == old(components).spec_keys(),
            focus_moved(old(components).spec_map(), final(components).spec_map(), spec_focus_stack(
                old(components).spec_map(),
                self.name@,
            ), false),
    {
        let stack = construct_focus_stack(self.name.as_str(), components);
        assert forall|i: int| 0 <= i < stack@.len() implies {
            let k = (#[trigger] stack@[i])@;
            old(components).spec_map().contains_key(k) && old(components).spec_map()[k] is Splitter ==> prev_ok(
                old(components).spec_map()[k]->Splitter_0,
            )
        } by {
            assert(strings_view(stack@)[i] == stack@[i]@);
        }
        move_along(&stack, components, false);
    }
}

proof fn lemma_skip_failed(
    old: Map<Seq<char>, Components>,
    new: Map<Seq<char>, Components>,
    chain: Seq<Seq<char>>,
    i: int,
    forward: bool,
)
    requires
        0 <= i <= chain.len(),
        forall|j: int| i <= j < chain.len() ==> {
            let k = #[trigger] chain[j];
            old.contains_key(k) && old[k] is Splitter && !can_move(old[k]->Splitter_0, forward)
        },
    ensures
        focus_moved(old, new, chain, forward) == focus_moved(old, new, chain.subrange(0, i), forward),
    decreases chain.len() - i,
{
    if i < chain.len() {
        let d = chain.drop_last();
        assert forall|j: int| i <= j < d.len() implies {
            let k = #[trigger] d[j];
            old.contains_key(k) && old[k] is Splitter && !can_move(old[k]->Splitter_0, forward)
        } by {
            assert(d[j] == chain[j]);
        }
        lemma_skip_failed(old, new, d, i, forward);
        assert(d.subrange(0, i) =~= chain.subrange(0, i));
        assert(chain[chain.len() - 1] == chain.last());
    } else {
        assert(chain.subrange(0, i) =~= chain);
    }
}

/// Walks `stack` from its end, moving focus in each splitter until one
/// succeeds; a name that is no splitter ends the walk.
fn move_along(stack: &Vec<String>, components: &mut ComponentMap, forward: bool)
    requires
        !forward ==> forall|i: int| 0 <= i < stack@.len() ==> {
            let k = (#[trigger] stack@[i])@;
            old(components).spec_map().contains_key(k) && old(components).spec_map()[k] is Splitter ==> prev_ok(
                old(components).spec_map()[k]->Splitter_0,
            )
        },
    ensures
        final(components).spec_keys() == old(components).spec_keys(),
        focus_moved(old(components).spec_map(), final(components).spec_map(), strings_view(stack@), forward),
{
    let ghost m = components.spec_map();
    let ghost chain = strings_view(stack@);
    let mut i: usize = stack.len();
    while i > 0
        invariant
            chain == strings_view(stack@),
            i <= stack@.len(),
            components.spec_map() == m,
            components.spec_keys() == old(components).spec_keys(),
            m == old(components).spec_map(),
            !forward ==> forall|j: int| 0 <= j < stack@.len() ==> {
                let k = (#[trigger] stack@[j])@;
                m.contains_key(k) && m[k] is Splitter ==> prev_ok(m[k]->Splitter_0)
            },
            forall|j: int| i <= j < chain.len() ==> {
                let k = #[trigger] chain[j];
                m.contains_key(k) && m[k] is Splitter && !can_move(m[k]->Splitter_0, forward)
            },
        decreases i,
    {
        let ghost k = stack@[i - 1]@;
        assert(chain[i - 1] == k);
        assert(!forward ==> (m.contains_key(k) && m[k] is Splitter ==> prev_ok(m[k]->Splitter_0)));
        match components.move_focus(stack[i - 1].as_str(), forward) {
            Some(MoveFocusResult::Fail) => {
                i = i - 1;
            },
            Some(MoveFocusResult::Success) => {
                proof {
                    let pre = chain.subrange(0, i as int);
                    assert(pre.last() == k);
                    assert(pre.drop_last() =~= chain.subrange(0, i - 1));
                    lemma_skip_failed(m, components.spec_map(), chain, i as int, forward);
                }
                return;
            },
            None => {
                proof {
                    let pre = chain.subrange(0, i as int);
                    assert(pre.last() == k);
                    lemma_skip_failed(m, components.spec_map(), chain, i as int, forward);
                }
                return;
            },
        }
    }
    proof {
        lemma_skip_failed(m, m, chain, 0, forward);
    }
}

/// Whether following focus from `root` stops within `fuel` steps.
pub fn chain_ends_within(components: &ComponentMap, root: &str, fuel: usize) -> (r: bool)
    ensures
        r == chain_ends(components.spec_map(), root@, fuel as nat),
{
    let ghost m = components.spec_map();
    let mut cur = root.to_string();
    let mut f: usize = fuel;
    loop
        invariant
            m == components.spec_map(),
            chain_ends(m, root@, fuel as nat) == chain_ends(m, cur@, f as nat),
        decreases f,
    {
        match focus_step_exec(components, cur.as_str()) {
            None => {
                return true;
            },
            Some(k) => {
                if f == 0 {
                    return false;
                }
                f = f - 1;
                cur = k;
            },
        }
    }
}

/// Whether the search for `key` in the screen named `name` finishes
/// within `fuel` levels.
pub fn shows_within(components: &ComponentMap, name: &str, key: &str, fuel: usize) -> (r: bool)
    ensures
        r == spec_shows(components.spec_map(), name@, key@, fuel as nat) is Some,
{
    if str_eq(name, key) {
        true
    } else {
        match components.get(name) {
            Some(c) => nested_ends(c, key, components, fuel),
            None => true,
        }
    }
}

/// Whether the search for `key` in `c` finishes within `fuel` levels.
fn nested_ends(c: &Components, key: &str, components: &ComponentMap, fuel: usize) -> (r: bool)
    ensures
        r == spec_nested(components.spec_map(), *c, key@, fuel as nat) is Some,
    decreases fuel,
{
    let ghost m = components.spec_map();
    match c {
        Components::Splitter(s) => {
            if str_eq(s.name(), key) {
                return true;
            }
            if fuel == 0 {
                return false;
            }
            let children = s.children();
            let ghost kids = panel_keys(s.spec_inner().spec_panels());
            let ghost f = (fuel - 1) as nat;
            let mut i: usize = 0;
            assert(kids.subrange(0, kids.len() as int) =~= kids);
            while i < children.len()
                invariant
                    m == components.spec_map(),
                    fuel > 0,
                    f == fuel - 1,
                    kids == children@.map_values(|s: &str| s@),
                    i <= kids.len(),
                    spec_nested(m, *c, key@, fuel as nat) == spec_nested_in(m, kids.subrange(i as int, kids.len() as int), key@, f),
                decreases children@.len() - i,
            {
                let child = children[i];
                let ghost sub = kids.subrange(i as int, kids.len() as int);
                assert(sub[0] == child@);
                assert(sub.drop_first() =~= kids.subrange(i + 1, kids.len() as int));
                match components.get(child) {
                    Some(comp) => {
                        if !nested_ends(comp, key, components, fuel - 1) {
                            return false;
                        }
                        if nested(comp, key, components, Ghost(f)) {
                            return true;
                        }
                    },
                    None => {},
                }
                i = i + 1;
            }
            true
        },
        _ => true,
    }
}

} // verus!
