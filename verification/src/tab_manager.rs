//! The open request tabs: which files have a tab, their labels, and which
//! tab is in front.

use vstd::prelude::*;
use crate::text::owned;

verus! {

/// One tab: the id of the file-tree node it shows, its label and the
/// method it was opened with.
pub type TabView = (usize, Seq<char>, Seq<char>);

/// The abstract state of the tab strip.
pub struct TabManagerView {
    pub tabs: Seq<TabView>,
    pub active: Option<usize>,
}

/// Whether some tab shows node `id`.
pub open spec fn holds_id(tabs: Seq<TabView>, id: usize) -> bool {
    exists|i: int| 0 <= i < tabs.len() && #[trigger] tabs[i].0 == id
}

/// The position of the tab that shows node `id`.
pub open spec fn index_of_id(tabs: Seq<TabView>, id: usize) -> int {
    choose|i: int| 0 <= i < tabs.len() && #[trigger] tabs[i].0 == id
}

/// No node has two tabs; a tab is in front exactly when there is one, and
/// the front tab is one of them.
pub open spec fn tabs_wf(s: TabManagerView) -> bool {
    &&& forall|i: int, j: int| 0 <= i < j < s.tabs.len() ==> #[trigger] s.tabs[i].0 != #[trigger] s.tabs[j].0
    &&& (s.active is None <==> s.tabs.len() == 0)
    &&& (s.active matches Some(a) ==> holds_id(s.tabs, a))
}

/// The state after the tab of node `id` is asked for: an open tab comes to
/// the front; otherwise a new tab is appended and comes to the front.
pub open spec fn activate_spec(s: TabManagerView, id: usize, name: Seq<char>, method: Seq<char>) -> TabManagerView {
    if holds_id(s.tabs, id) {
        TabManagerView { active: Some(id), ..s }
    } else {
        TabManagerView { tabs: s.tabs.push((id, name, method)), active: Some(id) }
    }
}

/// The state after the tab of node `id` is closed: its tab goes, and the
/// first remaining tab, if any, comes to the front.
pub open spec fn close_spec(s: TabManagerView, id: usize) -> TabManagerView {
    let tabs = if holds_id(s.tabs, id) {
        s.tabs.remove(index_of_id(s.tabs, id))
    } else {
        s.tabs
    };
    TabManagerView {
        tabs,
        active: if tabs.len() == 0 {
            None
        } else {
            Some(tabs[0].0)
        },
    }
}

/// A tab in the strip.
pub struct Tab {
    pub node_id: usize,
    pub name: String,
    pub method: String,
}

/// The open tabs, in the order they were opened. They are kept in a list,
/// not a hash map keyed by node: the strip addresses tabs by position
/// (`select_index`, `selected_index`, `tab_ids`), and a hash map's walking
/// order is left open, so a position would name no particular tab.
pub struct TabManager {
    tabs: Vec<Tab>,
    active: Option<usize>,
}

/// The abstract content of a list of tabs.
pub open spec fn tabs_view(v: Seq<Tab>) -> Seq<TabView> {
    v.map_values(|t: Tab| (t.node_id, t.name@, t.method@))
}

impl View for TabManager {
    type V = TabManagerView;

    closed spec fn view(&self) -> TabManagerView {
        TabManagerView { tabs: tabs_view(self.tabs@), active: self.active }
    }
}

impl TabManager {
    #[verifier::type_invariant]
    closed spec fn inv(&self) -> bool {
        tabs_wf(self@)
    }

    /// No tabs.
    pub fn new() -> (r: Self)
        ensures
            r@.tabs.len() == 0,
            r@.active is None,
            tabs_wf(r@),
    {
        let r = TabManager { tabs: Vec::new(), active: None };
        assert(tabs_view(r.tabs@).len() == 0);
        r
    }

    /// The position of the tab of node `id`, if it has one.
    fn position(&self, id: usize) -> (r: Option<usize>)
        ensures
            match r {
                Some(i) => i < self@.tabs.len() && self@.tabs[i as int].0 == id,
                None => !holds_id(self@.tabs, id),
            },
    {
        let mut i: usize = 0;
        while i < self.tabs.len()
            invariant
                i <= self.tabs@.len(),
                forall|j: int| 0 <= j < i ==> self.tabs@[j].node_id != id,
            decreases self.tabs@.len() - i,
        {
            if self.tabs[i].node_id == id {
                assert(tabs_view(self.tabs@)[i as int].0 == id);
                return Some(i);
            }
            i += 1;
        }
        proof {
            if holds_id(self@.tabs, id) {
                let k = choose|k: int| 0 <= k < self@.tabs.len() && #[trigger] self@.tabs[k].0 == id;
                assert(self.tabs@[k].node_id == id);
            }
        }
        None
    }

    /// Whether any tab is open.
    pub fn has_tabs(&self) -> (r: bool)
        ensures
            r == (self@.active is Some),
            r == (self@.tabs.len() > 0),
    {
        proof { use_type_invariant(self); }
        self.active.is_some()
    }

    /// The node whose tab is in front.
    pub fn active_tab_id(&self) -> (r: Option<usize>)
        ensures
            r == self@.active,
    {
        self.active
    }

    /// The nodes that have tabs, in tab order.
    pub fn tab_ids(&self) -> (r: Vec<usize>)
        ensures
            r@.len() == self@.tabs.len(),
            forall|i: int| 0 <= i < r@.len() ==> r@[i] == #[trigger] self@.tabs[i].0,
    {
        let mut r: Vec<usize> = Vec::new();
        let mut i: usize = 0;
        while i < self.tabs.len()
            invariant
                i <= self.tabs@.len(),
                r@.len() == i,
                forall|j: int| 0 <= j < i ==> r@[j] == self.tabs@[j].node_id,
            decreases self.tabs@.len() - i,
        {
            r.push(self.tabs[i].node_id);
            i += 1;
        }
        r
    }

    /// The label of the tab of node `id`, if it has one.
    pub fn tab_name(&self, id: usize) -> (r: Option<String>)
        ensures
            match r {
                Some(n) => holds_id(self@.tabs, id) && exists|i: int|
                    0 <= i < self@.tabs.len() && #[trigger] self@.tabs[i].0 == id && self@.tabs[i].1 == n@,
                None => !holds_id(self@.tabs, id),
            },
    {
        match self.position(id) {
            Some(i) => {
                let n = owned(self.tabs[i].name.as_str());
                assert(self@.tabs[i as int].1 == n@);
                Some(n)
            },
            None => None,
        }
    }

    /// Brings the tab of node `id` to the front, opening one labelled `name`
    /// for `method` when the node has none; says whether a tab was opened,
    /// in which case the caller fills it from the file.
    pub fn activate_tab(&mut self, id: usize, name: String, method: String) -> (opened: bool)
        ensures
            final(self)@ == activate_spec(old(self)@, id, name@, method@),
            opened == !holds_id(old(self)@.tabs, id),
            tabs_wf(final(self)@),
    {
        proof { use_type_invariant(&*self); }
        match self.position(id) {
            Some(_) => {
                self.active = Some(id);
                proof { use_type_invariant(&*self); }
                false
            },
            None => {
                let ghost before = self.tabs@;
                let mut cur = TabManager::new();
                std::mem::swap(&mut cur, self);
                let TabManager { tabs: mut tabs, active: _ } = cur;
                tabs.push(Tab { node_id: id, name, method });
                let ghost nv = tabs_view(tabs@);
                proof {
                    assert(nv =~= tabs_view(before).push((id, name@, method@)));
                    assert(nv[nv.len() - 1].0 == id);
                    assert forall|i: int, j: int| 0 <= i < j < nv.len() implies #[trigger] nv[i].0 != #[trigger] nv[j].0 by {
                        if j == nv.len() - 1 {
                            assert(tabs_view(before)[i].0 == nv[i].0);
                        }
                    }
                }
                *self = TabManager { tabs, active: Some(id) };
                true
            },
        }
    }

    /// Opens a fresh `Untitled` tab for `GET` under the new key `id` and
    /// brings it to the front; a tab already under that key is replaced.
    pub fn add_untitled(&mut self, id: usize)
        ensures
            final(self)@.active == Some(id),
            holds_id(old(self)@.tabs, id) ==> final(self)@.tabs == old(self)@.tabs.update(
                index_of_id(old(self)@.tabs, id),
                (id, "Untitled"@, "GET"@),
            ),
            !holds_id(old(self)@.tabs, id) ==> final(self)@.tabs == old(self)@.tabs.push(
                (id, "Untitled"@, "GET"@),
            ),
            tabs_wf(final(self)@),
    {
        proof { use_type_invariant(&*self); }
        match self.position(id) {
            Some(i) => {
                let ghost before = self.tabs@;
                let mut cur = TabManager::new();
                std::mem::swap(&mut cur, self);
                let TabManager { tabs: mut tabs, active: _ } = cur;
                tabs.set(i, Tab { node_id: id, name: owned("Untitled"), method: owned("GET") });
                let ghost nv = tabs_view(tabs@);
                proof {
                    let k = index_of_id(tabs_view(before), id);
                    assert(k == i as int);
                    assert(nv =~= tabs_view(before).update(i as int, (id, "Untitled"@, "GET"@)));
                    assert(nv[i as int].0 == id);
                }
                *self = TabManager { tabs, active: Some(id) };
            },
            None => {
                self.activate_tab(id, owned("Untitled"), owned("GET"));
            },
        }
    }

    /// Relabels the tab of node `id`; a node without a tab changes nothing.
    pub fn rename_tab(&mut self, id: usize, new_name: String)
        ensures
            holds_id(old(self)@.tabs, id) ==> final(self)@ == (TabManagerView {
                tabs: old(self)@.tabs.update(
                    index_of_id(old(self)@.tabs, id),
                    (id, new_name@, old(self)@.tabs[index_of_id(old(self)@.tabs, id)].2),
                ),
                ..old(self)@
            }),
            !holds_id(old(self)@.tabs, id) ==> final(self)@ == old(self)@,
            tabs_wf(final(self)@),
    {
        proof { use_type_invariant(&*self); }
        if let Some(i) = self.position(id) {
            let ghost before = self.tabs@;
            let mut cur = TabManager::new();
            std::mem::swap(&mut cur, self);
            let TabManager { tabs: mut tabs, active } = cur;
            let method = owned(tabs[i].method.as_str());
            tabs.set(i, Tab { node_id: id, name: new_name, method });
            let ghost nv = tabs_view(tabs@);
            proof {
                let k = index_of_id(tabs_view(before), id);
                assert(k == i as int);
                assert(nv =~= tabs_view(before).update(i as int, (id, new_name@, tabs_view(before)[i as int].2)));
                assert(nv[i as int].0 == id);
                if let Some(a) = active {
                    let w = choose|w: int| 0 <= w < tabs_view(before).len() && #[trigger] tabs_view(before)[w].0 == a;
                    assert(nv[w].0 == a);
                }
            }
            *self = TabManager { tabs, active };
        }
    }

    /// Closes the tab of node `id`; the first remaining tab, if any, comes
    /// to the front.
    pub fn close_tab(&mut self, id: usize)
        ensures
            final(self)@ == close_spec(old(self)@, id),
            tabs_wf(final(self)@),
    {
        proof { use_type_invariant(&*self); }
        let ghost before = self.tabs@;
        let mut cur = TabManager::new();
        std::mem::swap(&mut cur, self);
        let TabManager { tabs: mut tabs, active: _ } = cur;
        match position_in(&tabs, id) {
            Some(i) => {
                tabs.remove(i);
                proof {
                    let k = index_of_id(tabs_view(before), id);
                    assert(k == i as int);
                    assert(tabs_view(tabs@) =~= tabs_view(before).remove(i as int));
                }
            },
            None => {},
        }
        let ghost nv = tabs_view(tabs@);
        let active = if tabs.len() == 0 {
            None
        } else {
            Some(tabs[0].node_id)
        };
        proof {
            if tabs@.len() > 0 {
                assert(nv[0].0 == tabs@[0].node_id);
            }
        }
        *self = TabManager { tabs, active };
    }

    /// Brings the tab at position `ix` of the strip to the front and gives
    /// its node; a position past the end changes nothing.
    pub fn select_index(&mut self, ix: usize) -> (r: Option<usize>)
        ensures
            ix < old(self)@.tabs.len() ==> r == Some(old(self)@.tabs[ix as int].0) && final(self)@ == (TabManagerView {
                active: Some(old(self)@.tabs[ix as int].0),
                ..old(self)@
            }),
            ix >= old(self)@.tabs.len() ==> r is None && final(self)@ == old(self)@,
            tabs_wf(final(self)@),
    {
        proof { use_type_invariant(&*self); }
        if ix < self.tabs.len() {
            let id = self.tabs[ix].node_id;
            proof {
                assert(tabs_view(self.tabs@)[ix as int].0 == id);
            }
            self.active = Some(id);
            proof { use_type_invariant(&*self); }
            Some(id)
        } else {
            None
        }
    }

    /// The position of the front tab in the strip, or 0 when no tab is open.
    pub fn selected_index(&self) -> (r: usize)
        ensures
            match self@.active {
                Some(a) => r < self@.tabs.len() && self@.tabs[r as int].0 == a,
                None => r == 0,
            },
    {
        proof { use_type_invariant(self); }
        match self.active {
            Some(a) => match self.position(a) {
                Some(i) => i,
                None => 0,
            },
            None => 0,
        }
    }
}

/// The position of the tab of node `id` in `tabs`.
fn position_in(tabs: &Vec<Tab>, id: usize) -> (r: Option<usize>)
    ensures
        match r {
            Some(i) => i < tabs@.len() && tabs_view(tabs@)[i as int].0 == id,
            None => !holds_id(tabs_view(tabs@), id),
        },
{
    let mut i: usize = 0;
    while i < tabs.len()
        invariant
            i <= tabs@.len(),
            forall|j: int| 0 <= j < i ==> tabs@[j].node_id != id,
        decreases tabs@.len() - i,
    {
        if tabs[i].node_id == id {
            return Some(i);
        }
        i += 1;
    }
    proof {
        if holds_id(tabs_view(tabs@), id) {
            let k = choose|k: int| 0 <= k < tabs_view(tabs@).len() && #[trigger] tabs_view(tabs@)[k].0 == id;
            assert(tabs@[k].node_id == id);
        }
    }
    None
}

/// Closing the tab that was just opened for a node without one gives the
/// strip back its tabs.
pub proof fn law_close_undoes_open(s: TabManagerView, id: usize, name: Seq<char>, method: Seq<char>)
    requires
        tabs_wf(s),
        !holds_id(s.tabs, id),
    ensures
        close_spec(activate_spec(s, id, name, method), id).tabs == s.tabs,
{
    let t = s.tabs.push((id, name, method));
    assert(t[s.tabs.len() as int].0 == id);
    assert(holds_id(t, id));
    let k = index_of_id(t, id);
    if k != s.tabs.len() as int {
        assert(s.tabs[k].0 == id);
    }
    assert(t.remove(s.tabs.len() as int) =~= s.tabs);
}

/// Asking again for a tab that is in front changes nothing.
pub proof fn law_activate_idempotent(s: TabManagerView, id: usize, name: Seq<char>, method: Seq<char>)
    ensures
        activate_spec(activate_spec(s, id, name, method), id, name, method) == activate_spec(s, id, name, method),
{
    let t = s.tabs.push((id, name, method));
    assert(t[s.tabs.len() as int].0 == id);
}


/// Closing the tab of node `id` removes exactly that tab: afterwards no tab
/// shows `id`, and the other tabs stay, in their order; closing a node
/// without a tab keeps every tab. The first remaining tab, if any, is in
/// front.
pub proof fn law_close_removes_that_tab(s: TabManagerView, id: usize)
    requires
        tabs_wf(s),
    ensures
        !holds_id(close_spec(s, id).tabs, id),
        holds_id(s.tabs, id) ==> exists|k: int|
            0 <= k < s.tabs.len() && s.tabs[k].0 == id && close_spec(s, id).tabs == s.tabs.remove(k),
        !holds_id(s.tabs, id) ==> close_spec(s, id).tabs == s.tabs,
        close_spec(s, id).tabs.len() == 0 ==> close_spec(s, id).active is None,
        close_spec(s, id).tabs.len() > 0 ==> close_spec(s, id).active == Some(close_spec(s, id).tabs[0].0),
{
    let t = close_spec(s, id).tabs;
    if holds_id(s.tabs, id) {
        let k = index_of_id(s.tabs, id);
        assert(0 <= k < s.tabs.len() && s.tabs[k].0 == id);
        if holds_id(t, id) {
            let j = choose|j: int| 0 <= j < t.len() && #[trigger] t[j].0 == id;
            if j < k {
                assert(t[j] == s.tabs[j]);
            } else {
                assert(t[j] == s.tabs[j + 1]);
            }
        }
    }
}

} // verus!
