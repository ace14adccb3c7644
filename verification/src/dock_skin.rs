//! Decisions of the dock skin: which drags and drops the policy accepts,
//! and what a tab strip shows for a group of tabs.

use vstd::prelude::*;
use crate::text::str_eq;

verus! {

/// Panel name of the invisible keep-alive tab that keeps an emptied center
/// group alive; strips never show it.
pub const KEEP_ALIVE_NAME: &'static str = "empty-tab";

/// Drag-and-drop switches. A veto for cross-group drops, when the host
/// installs one, is passed to [`DndPolicy::accepts`].
#[derive(Clone, Copy, Debug, PartialEq, Eq, Structural)]
pub struct DndPolicy {
    /// Master switch: without it there are no drag sources or drop targets.
    pub enabled: bool,
    /// Accept drops whose source group differs from the target strip.
    pub allow_cross_group: bool,
    /// Allow content-edge drops that split groups.
    pub allow_split: bool,
}

impl DndPolicy {
    /// Reordering inside a strip only.
    pub fn reorder_only() -> (r: Self)
        ensures
            r == (DndPolicy { enabled: true, allow_cross_group: false, allow_split: false }),
    {
        DndPolicy { enabled: true, allow_cross_group: false, allow_split: false }
    }

    /// No drag and drop at all.
    pub fn disabled() -> (r: Self)
        ensures
            r == (DndPolicy { enabled: false, allow_cross_group: false, allow_split: false }),
    {
        DndPolicy { enabled: false, allow_cross_group: false, allow_split: false }
    }

    /// Every kind of drop.
    pub fn permissive() -> (r: Self)
        ensures
            r == (DndPolicy { enabled: true, allow_cross_group: true, allow_split: true }),
    {
        DndPolicy { enabled: true, allow_cross_group: true, allow_split: true }
    }

    /// The default policy: reordering only.
    pub fn default_policy() -> (r: Self)
        ensures
            r == (DndPolicy { enabled: true, allow_cross_group: false, allow_split: false }),
    {
        Self::reorder_only()
    }

    /// Whether a drop from group `source` onto strip `target` is accepted:
    /// never when disabled, always within one strip, across groups only
    /// when allowed and not vetoed by `can_drop`.
    pub fn accepts<F: Fn(u64, u64) -> bool>(&self, source: u64, target: u64, can_drop: Option<F>) -> (r: bool)
        requires
            can_drop matches Some(f) ==> call_requires(f, (source, target)),
        ensures
            !self.enabled ==> !r,
            self.enabled && source == target ==> r,
            self.enabled && source != target && !self.allow_cross_group ==> !r,
            self.enabled && source != target && self.allow_cross_group ==> match can_drop {
                None => r,
                Some(f) => call_ensures(f, (source, target), r),
            },
    {
        if !self.enabled {
            return false;
        }
        if source == target {
            return true;
        }
        if !self.allow_cross_group {
            return false;
        }
        match can_drop {
            Some(f) => f(source, target),
            None => true,
        }
    }

    /// The dock area is locked against content drops exactly when splits are off.
    pub fn area_locked(&self) -> (r: bool)
        ensures
            r == !self.allow_split,
    {
        !self.allow_split
    }

    /// Moving a panel is refused only for a split while splits are off.
    pub fn move_allowed(&self, is_split: bool) -> (r: bool)
        ensures
            r == !(is_split && !self.allow_split),
    {
        !(is_split && !self.allow_split)
    }

    /// Split handles are painted only when splits are allowed.
    pub fn split_handle_shown(&self) -> (r: bool)
        ensures
            r == self.allow_split,
    {
        self.allow_split
    }

    /// A drop indicator is drawn when drag and drop is on, except for a
    /// split preview while splits are off.
    pub fn drop_indicator_shown(&self, is_split: bool) -> (r: bool)
        ensures
            r == (self.enabled && !(is_split && !self.allow_split)),
    {
        self.enabled && !(is_split && !self.allow_split)
    }
}

/// Options of the tab strip that its decisions depend on.
#[derive(Clone, Copy, Debug)]
pub struct SkinOptions {
    pub show_add_tab: bool,
    pub show_close: bool,
    pub dnd: DndPolicy,
}

impl SkinOptions {
    /// The default options: `[+]` and close buttons shown, reordering only.
    pub fn default_options() -> (r: Self)
        ensures
            r.show_add_tab && r.show_close,
            r.dnd == (DndPolicy { enabled: true, allow_cross_group: false, allow_split: false }),
    {
        SkinOptions { show_add_tab: true, show_close: true, dnd: DndPolicy::reorder_only() }
    }
}

/// What the strip needs to know of one panel of a group.
#[derive(Clone, Debug)]
pub struct TabPanel {
    pub name: String,
    pub closable: bool,
}

/// One tab of the strip: the panel's index in the group, and how it is drawn.
#[derive(Clone, Copy, Debug, PartialEq, Eq, Structural)]
pub struct TabPlan {
    pub index: usize,
    pub selected: bool,
    pub show_close: bool,
    pub draggable: bool,
}

/// What a strip shows: its tabs, the position of the selected one among
/// them, and whether the `[+]` button ends it.
#[derive(Clone, Debug)]
pub struct TabBarPlan {
    pub tabs: Vec<TabPlan>,
    pub selected_pos: Option<usize>,
    pub add_button: bool,
}

/// The panel name of the keep-alive tab.
pub open spec fn keep_alive_name() -> Seq<char> {
    seq!['e', 'm', 'p', 't', 'y', '-', 't', 'a', 'b']
}

/// The indices of the panels a strip shows: all but the keep-alive one.
pub open spec fn visible_indices(names: Seq<Seq<char>>) -> Seq<int>
    decreases names.len(),
{
    if names.len() == 0 {
        Seq::empty()
    } else {
        let v = visible_indices(names.drop_last());
        if names.last() != keep_alive_name() {
            v.push(names.len() - 1)
        } else {
            v
        }
    }
}

/// A group of one panel that cannot be closed and is not the keep-alive
/// tab: a fixed panel, shown without a strip.
pub open spec fn locked_single_spec(names: Seq<Seq<char>>, closable: Seq<bool>) -> bool {
    names.len() == 1 && !closable[0] && names[0] != keep_alive_name()
}

/// The names of a group's panels.
pub open spec fn panel_names(panels: Seq<TabPanel>) -> Seq<Seq<char>> {
    panels.map_values(|p: TabPanel| p.name@)
}

/// The closability of a group's panels.
pub open spec fn panel_closable(panels: Seq<TabPanel>) -> Seq<bool> {
    panels.map_values(|p: TabPanel| p.closable)
}

/// The plan of the tab at visible position `k`.
pub open spec fn tab_plan_spec(
    panels: Seq<TabPanel>,
    active: int,
    group_closable: bool,
    options: SkinOptions,
    k: int,
) -> TabPlan {
    let vis = visible_indices(panel_names(panels));
    let ix = vis[k];
    TabPlan {
        index: ix as usize,
        selected: ix == active,
        show_close: options.show_close && panels[ix].closable && (group_closable || panels.len()
            > vis.len()),
        draggable: options.dnd.enabled,
    }
}

/// Plans the tab strip of a group; `None` for a locked single panel, which
/// is shown without a strip. `host_suffix` tells whether the host put its
/// own element at the end of the strip, `add_tab_set` whether an add-tab
/// action is installed.
pub fn plan_tab_bar(
    panels: &Vec<TabPanel>,
    active: usize,
    group_closable: bool,
    options: SkinOptions,
    host_suffix: bool,
    add_tab_set: bool,
) -> (r: Option<TabBarPlan>)
    ensures
        locked_single_spec(panel_names(panels@), panel_closable(panels@)) <==> r is None,
        r matches Some(plan) ==> {
            let vis = visible_indices(panel_names(panels@));
            &&& plan.tabs@.len() == vis.len()
            &&& forall|k: int|
                0 <= k < vis.len() ==> #[trigger] plan.tabs@[k] == tab_plan_spec(
                    panels@,
                    active as int,
                    group_closable,
                    options,
                    k,
                )
            &&& match plan.selected_pos {
                Some(p) => p < vis.len() && vis[p as int] == active && forall|k: int|
                    0 <= k < p ==> vis[k] != active,
                None => forall|k: int| 0 <= k < vis.len() ==> vis[k] != active,
            }
            &&& plan.add_button == (!host_suffix && options.show_add_tab && add_tab_set)
        },
{
    proof {
        reveal_strlit("empty-tab");
        assert(KEEP_ALIVE_NAME@ =~= keep_alive_name());
    }
    let ghost names = panel_names(panels@);
    if panels.len() == 1 && !panels[0].closable && !str_eq(panels[0].name.as_str(), KEEP_ALIVE_NAME) {
        assert(names[0] == panels@[0].name@);
        return None;
    }
    assert(panels@.len() == 1 ==> names[0] == panels@[0].name@ && panel_closable(panels@)[0] == panels@[0].closable);
    // the positions of the real tabs
    let mut visible: Vec<usize> = Vec::new();
    let mut i: usize = 0;
    assert(names.take(0) =~= Seq::<Seq<char>>::empty());
    while i < panels.len()
        invariant
            i <= panels@.len(),
            names == panel_names(panels@),
            KEEP_ALIVE_NAME@ == keep_alive_name(),
            visible@.len() == visible_indices(names.take(i as int)).len(),
            forall|k: int| 0 <= k < visible@.len() ==> visible@[k] == visible_indices(names.take(i as int))[k],
            forall|k: int| 0 <= k < visible@.len() ==> visible@[k] < i,
        decreases panels@.len() - i,
    {
        assert(names.take(i + 1).drop_last() =~= names.take(i as int));
        assert(names.take(i + 1).last() == panels@[i as int].name@);
        if !str_eq(panels[i].name.as_str(), KEEP_ALIVE_NAME) {
            visible.push(i);
        }
        i += 1;
    }
    assert(names.take(panels@.len() as int) =~= names);
    let ghost vis = visible_indices(names);
    let count = visible.len();
    let mut tabs: Vec<TabPlan> = Vec::new();
    let mut selected_pos: Option<usize> = None;
    let mut k: usize = 0;
    while k < count
        invariant
            k <= count,
            count == visible@.len(),
            vis.len() == count,
            vis == visible_indices(panel_names(panels@)),
            forall|m: int| 0 <= m < count ==> visible@[m] == vis[m],
            forall|m: int| 0 <= m < count ==> visible@[m] < panels@.len(),
            tabs@.len() == k,
            forall|m: int|
                0 <= m < k ==> #[trigger] tabs@[m] == tab_plan_spec(
                    panels@,
                    active as int,
                    group_closable,
                    options,
                    m,
                ),
            match selected_pos {
                Some(p) => p < k && vis[p as int] == active && forall|m: int|
                    0 <= m < p ==> vis[m] != active,
                None => forall|m: int| 0 <= m < k ==> vis[m] != active,
            },
        decreases count - k,
    {
        let ix = visible[k];
        let selected = ix == active;
        if selected && selected_pos.is_none() {
            selected_pos = Some(k);
        }
        let show_close = options.show_close && panels[ix].closable && (group_closable
            || panels.len() > count);
        tabs.push(TabPlan { index: ix, selected, show_close, draggable: options.dnd.enabled });
        k += 1;
    }
    let add_button = !host_suffix && options.show_add_tab && add_tab_set;
    Some(TabBarPlan { tabs, selected_pos, add_button })
}

} // verus!
