//! Layout state of the dock shell: fixed panels in a left and a right side
//! slot, which of them is shown, and the bottom aux panel.
//!
//! Each side shows at most one panel (a radio): showing a panel closes its
//! side-mates, and toggling the shown panel hides it. The views themselves
//! belong to the host, which finds them by panel id.

use vstd::prelude::*;
use crate::text::{owned, str_eq};

verus! {

/// Which side slot a fixed panel lives in.
#[derive(Clone, Copy, Debug, PartialEq, Eq, Structural)]
pub enum Side {
    Left,
    Right,
}

impl Side {
    /// The opposite side.
    pub fn other(self) -> (r: Side)
        ensures
            r != self,
    {
        match self {
            Side::Left => Side::Right,
            Side::Right => Side::Left,
        }
    }

    /// One-letter name of the side, as the side-switch buttons show it.
    pub fn short(self) -> (r: &'static str)
        ensures
            r@ == match self {
                Side::Left => "L"@,
                Side::Right => "R"@,
            },
    {
        match self {
            Side::Left => "L",
            Side::Right => "R",
        }
    }
}

/// A fixed panel of a side slot: its id, its label and whether it is open.
#[derive(Debug)]
pub struct FixedPanel {
    pub id: String,
    pub label: String,
    pub open: bool,
}

/// The abstract content of a fixed panel.
#[verifier::ext_equal]
pub struct PanelView {
    pub id: Seq<char>,
    pub label: Seq<char>,
    pub open: bool,
}

impl View for FixedPanel {
    type V = PanelView;

    open spec fn view(&self) -> PanelView {
        PanelView { id: self.id@, label: self.label@, open: self.open }
    }
}

impl FixedPanel {
    /// A new panel; it starts open.
    pub fn new(id: &str, label: &str) -> (r: Self)
        ensures
            r@ == (PanelView { id: id@, label: label@, open: true }),
    {
        FixedPanel { id: owned(id), label: owned(label), open: true }
    }

    /// The panel id.
    pub fn id(&self) -> (r: &String)
        ensures
            r@ == self.id@,
    {
        &self.id
    }

    /// A copy of the panel.
    pub fn copy(&self) -> (r: Self)
        ensures
            r@ == self@,
    {
        FixedPanel { id: self.id.clone(), label: self.label.clone(), open: self.open }
    }
}

/// The abstract content of a list of panels.
pub open spec fn panels_view(v: Seq<FixedPanel>) -> Seq<PanelView> {
    v.map_values(|p: FixedPanel| p@)
}

/// What the toggle widgets show of a panel.
#[derive(Debug)]
pub struct FixedPanelInfo {
    pub id: String,
    pub label: String,
    pub open: bool,
    pub active: bool,
}

/// The abstract content of a panel snapshot.
#[verifier::ext_equal]
pub struct InfoView {
    pub id: Seq<char>,
    pub label: Seq<char>,
    pub open: bool,
    pub active: bool,
}

/// The abstract content of a list of panel snapshots.
pub open spec fn infos_view(v: Seq<FixedPanelInfo>) -> Seq<InfoView> {
    v.map_values(
        |i: FixedPanelInfo| InfoView { id: i.id@, label: i.label@, open: i.open, active: i.active },
    )
}

/// The bottom aux panel: its id, label and visibility.
#[derive(Debug)]
pub struct AuxSlot {
    pub id: String,
    pub label: String,
    pub visible: bool,
}

/// The abstract content of the aux panel.
pub struct AuxView {
    pub id: Seq<char>,
    pub label: Seq<char>,
    pub visible: bool,
}

/// The abstract content of the shell layout.
#[verifier::ext_equal]
pub struct ShellView {
    pub left: Seq<PanelView>,
    pub right: Seq<PanelView>,
    pub active_left: Option<Seq<char>>,
    pub active_right: Option<Seq<char>>,
    pub aux: Option<AuxView>,
}

/// The panels of one side.
pub open spec fn slot_of(s: ShellView, side: Side) -> Seq<PanelView> {
    match side {
        Side::Left => s.left,
        Side::Right => s.right,
    }
}

/// The stored shown panel of one side.
pub open spec fn active_of(s: ShellView, side: Side) -> Option<Seq<char>> {
    match side {
        Side::Left => s.active_left,
        Side::Right => s.active_right,
    }
}

/// The layout with the panels of one side replaced.
pub open spec fn with_slot(s: ShellView, side: Side, slot: Seq<PanelView>) -> ShellView {
    match side {
        Side::Left => ShellView { left: slot, ..s },
        Side::Right => ShellView { right: slot, ..s },
    }
}

/// The layout with the stored shown panel of one side replaced.
pub open spec fn with_active(s: ShellView, side: Side, a: Option<Seq<char>>) -> ShellView {
    match side {
        Side::Left => ShellView { active_left: a, ..s },
        Side::Right => ShellView { active_right: a, ..s },
    }
}

/// Index of the first panel with id `id`, or -1.
pub open spec fn find_id(slot: Seq<PanelView>, id: Seq<char>) -> int
    decreases slot.len(),
{
    if slot.len() == 0 {
        -1
    } else if slot[0].id == id {
        0
    } else {
        let r = find_id(slot.drop_first(), id);
        if r < 0 {
            -1
        } else {
            r + 1
        }
    }
}

/// What `find_id` gives: the first match, or -1 when nothing matches.
pub proof fn lemma_find_id(slot: Seq<PanelView>, id: Seq<char>)
    ensures
        -1 <= find_id(slot, id) < slot.len(),
        find_id(slot, id) >= 0 ==> slot[find_id(slot, id)].id == id,
        forall|j: int| 0 <= j < find_id(slot, id) ==> slot[j].id != id,
        find_id(slot, id) < 0 ==> forall|j: int| 0 <= j < slot.len() ==> slot[j].id != id,
    decreases slot.len(),
{
    if slot.len() > 0 && slot[0].id != id {
        lemma_find_id(slot.drop_first(), id);
        assert forall|j: int| 0 <= j < find_id(slot, id) implies slot[j].id != id by {
            if j > 0 {
                assert(slot[j] == slot.drop_first()[j - 1]);
            }
        }
        if find_id(slot, id) < 0 {
            assert forall|j: int| 0 <= j < slot.len() implies slot[j].id != id by {
                if j > 0 {
                    assert(slot[j] == slot.drop_first()[j - 1]);
                }
            }
        }
    }
}

/// The panels with only those called `id` open.
pub open spec fn radio(slot: Seq<PanelView>, id: Seq<char>) -> Seq<PanelView> {
    Seq::new(slot.len(), |i: int| PanelView { open: slot[i].id == id, ..slot[i] })
}

/// The layout with `id` shown on `side`: its side-mates close and it becomes
/// the side's stored shown panel.
pub open spec fn show_only_spec(s: ShellView, side: Side, id: Seq<char>) -> ShellView {
    with_active(with_slot(s, side, radio(slot_of(s, side), id)), side, Some(id))
}

/// The side that holds a panel called `id`, the left one first.
pub open spec fn side_of_spec(s: ShellView, id: Seq<char>) -> Option<Side> {
    if find_id(s.left, id) >= 0 {
        Some(Side::Left)
    } else if find_id(s.right, id) >= 0 {
        Some(Side::Right)
    } else {
        None
    }
}

/// Some side holds a panel called `id`.
pub open spec fn has_panel_spec(s: ShellView, id: Seq<char>) -> bool {
    side_of_spec(s, id) is Some
}

/// Some panel called `id` is open.
pub open spec fn is_open_spec(s: ShellView, id: Seq<char>) -> bool {
    (exists|i: int| 0 <= i < s.left.len() && s.left[i].id == id && s.left[i].open) || (exists|i: int|
        0 <= i < s.right.len() && s.right[i].id == id && s.right[i].open)
}

/// Panel ids are distinct on each side, and each side has at most one open panel.
pub open spec fn slot_wf(slot: Seq<PanelView>) -> bool {
    forall|i: int, j: int|
        0 <= i < slot.len() && 0 <= j < slot.len() && i != j ==> slot[i].id != slot[j].id && !(
        slot[i].open && slot[j].open)
}

/// The invariant of the layout: both sides are well formed.
pub open spec fn shell_wf(s: ShellView) -> bool {
    slot_wf(s.left) && slot_wf(s.right)
}

/// The layout after plugging `p` into `side`: it replaces the side's panel
/// with the same id, or is appended; an open panel then takes over its side.
pub open spec fn set_panel_spec(s: ShellView, side: Side, p: PanelView) -> ShellView {
    let slot = slot_of(s, side);
    let i = find_id(slot, p.id);
    let slot2 = if i >= 0 {
        slot.update(i, p)
    } else {
        slot.push(p)
    };
    let s2 = with_slot(s, side, slot2);
    if p.open {
        show_only_spec(s2, side, p.id)
    } else {
        s2
    }
}

/// The panel that taking `id` out removes: the first with that id on the
/// left, else the first on the right.
pub open spec fn taken_spec(s: ShellView, id: Seq<char>) -> Option<PanelView> {
    let i = find_id(s.left, id);
    let j = find_id(s.right, id);
    if i >= 0 {
        Some(s.left[i])
    } else if j >= 0 {
        Some(s.right[j])
    } else {
        None
    }
}

/// The layout after taking `id` out.
pub open spec fn take_spec(s: ShellView, id: Seq<char>) -> ShellView {
    let i = find_id(s.left, id);
    let j = find_id(s.right, id);
    if i >= 0 {
        ShellView { left: s.left.remove(i), ..s }
    } else if j >= 0 {
        ShellView { right: s.right.remove(j), ..s }
    } else {
        s
    }
}

/// The layout after removing `id`: the panel is taken out and no side keeps
/// it as its stored shown panel.
pub open spec fn remove_panel_spec(s: ShellView, id: Seq<char>) -> ShellView {
    let t = take_spec(s, id);
    ShellView {
        active_left: if t.active_left == Some(id) {
            None
        } else {
            t.active_left
        },
        active_right: if t.active_right == Some(id) {
            None
        } else {
            t.active_right
        },
        ..t
    }
}

/// The layout with the first panel called `id` closed (left side first).
pub open spec fn close_spec(s: ShellView, id: Seq<char>) -> ShellView {
    let i = find_id(s.left, id);
    let j = find_id(s.right, id);
    if i >= 0 {
        ShellView { left: s.left.update(i, PanelView { open: false, ..s.left[i] }), ..s }
    } else if j >= 0 {
        ShellView { right: s.right.update(j, PanelView { open: false, ..s.right[j] }), ..s }
    } else {
        s
    }
}

/// The layout after opening (showing it on its side) or closing `id`.
pub open spec fn set_panel_open_spec(s: ShellView, id: Seq<char>, open: bool) -> ShellView {
    if open {
        match side_of_spec(s, id) {
            Some(side) => show_only_spec(s, side, id),
            None => s,
        }
    } else {
        close_spec(s, id)
    }
}

/// The layout after moving `id` to `side`: an open panel takes over the
/// new side; a closed one is parked there.
pub open spec fn set_panel_side_spec(s: ShellView, id: Seq<char>, side: Side) -> ShellView {
    match taken_spec(s, id) {
        None => s,
        Some(p) => {
            let s1 = take_spec(s, id);
            let slot = slot_of(s1, side);
            let s2 = if find_id(slot, p.id) < 0 {
                with_slot(s1, side, slot.push(p))
            } else {
                s1
            };
            if p.open {
                show_only_spec(s2, side, p.id)
            } else {
                s2
            }
        },
    }
}

/// `id` is the shown panel of its side: stored as shown there, and open.
pub open spec fn shown_spec(s: ShellView, id: Seq<char>) -> bool {
    match side_of_spec(s, id) {
        Some(side) => active_of(s, side) == Some(id) && is_open_spec(s, id),
        None => false,
    }
}

/// The layout after the footer toggle of `id`: the shown panel is hidden,
/// any other is shown.
pub open spec fn toggle_spec(s: ShellView, id: Seq<char>) -> ShellView {
    match side_of_spec(s, id) {
        None => s,
        Some(side) => if shown_spec(s, id) {
            close_spec(s, id)
        } else {
            show_only_spec(s, side, id)
        },
    }
}

/// The layout with the two sides exchanged.
pub open spec fn swap_spec(s: ShellView) -> ShellView {
    ShellView {
        left: s.right,
        right: s.left,
        active_left: s.active_right,
        active_right: s.active_left,
        aux: s.aux,
    }
}

/// Id of the first open panel.
pub open spec fn first_open(slot: Seq<PanelView>) -> Option<Seq<char>>
    decreases slot.len(),
{
    if slot.len() == 0 {
        None
    } else if slot[0].open {
        Some(slot[0].id)
    } else {
        first_open(slot.drop_first())
    }
}

/// The panel a side displays: the stored one if it is still open there,
/// else the first open panel.
pub open spec fn resolve_spec(slot: Seq<PanelView>, stored: Option<Seq<char>>) -> Option<Seq<char>> {
    match stored {
        Some(id) => if exists|i: int| 0 <= i < slot.len() && slot[i].id == id && slot[i].open {
            Some(id)
        } else {
            first_open(slot)
        },
        None => first_open(slot),
    }
}

/// The snapshots of one side's panels.
pub open spec fn side_panels_spec(s: ShellView, side: Side) -> Seq<InfoView> {
    let slot = slot_of(s, side);
    let active = resolve_spec(slot, active_of(s, side));
    Seq::new(
        slot.len(),
        |i: int|
            InfoView {
                id: slot[i].id,
                label: slot[i].label,
                open: slot[i].open,
                active: active == Some(slot[i].id),
            },
    )
}

/// Index of the first panel called `id`.
fn find_in(slot: &Vec<FixedPanel>, id: &str) -> (r: Option<usize>)
    ensures
        match r {
            Some(i) => i < slot@.len() && i == find_id(panels_view(slot@), id@),
            None => find_id(panels_view(slot@), id@) == -1,
        },
{
    let ghost pv = panels_view(slot@);
    proof {
        lemma_find_id(pv, id@);
    }
    let mut i: usize = 0;
    while i < slot.len()
        invariant
            i <= slot@.len(),
            pv == panels_view(slot@),
            pv.len() == slot@.len(),
            forall|j: int| 0 <= j < i ==> pv[j].id != id@,
            -1 <= find_id(pv, id@) < pv.len(),
            find_id(pv, id@) >= 0 ==> pv[find_id(pv, id@)].id == id@,
            forall|j: int| 0 <= j < find_id(pv, id@) ==> pv[j].id != id@,
            find_id(pv, id@) < 0 ==> forall|j: int| 0 <= j < pv.len() ==> pv[j].id != id@,
        decreases slot@.len() - i,
    {
        assert(pv[i as int] == slot@[i as int]@);
        if str_eq(slot[i].id.as_str(), id) {
            return Some(i);
        }
        i += 1;
    }
    None
}

/// Opens the panels called `id` and closes the others.
fn radio_slot(slot: &mut Vec<FixedPanel>, id: &str)
    ensures
        panels_view(final(slot)@) == radio(panels_view(old(slot)@), id@),
{
    let ghost orig = panels_view(slot@);
    let mut i: usize = 0;
    assert forall|j: int| 0 <= j < slot@.len() implies #[trigger] slot@[j]@ == orig[j] by {}
    while i < slot.len()
        invariant
            i <= slot@.len(),
            slot@.len() == orig.len(),
            forall|j: int| 0 <= j < i ==> #[trigger] slot@[j]@ == radio(orig, id@)[j],
            forall|j: int| i <= j < slot@.len() ==> #[trigger] slot@[j]@ == orig[j],
        decreases slot@.len() - i,
    {
        let mut p = slot[i].copy();
        p.open = str_eq(p.id.as_str(), id);
        slot.set(i, p);
        i += 1;
    }
    assert(panels_view(slot@) =~= radio(orig, id@));
}

/// Some panel called `id` is open.
fn open_in(slot: &Vec<FixedPanel>, id: &str) -> (r: bool)
    ensures
        r == exists|i: int| 0 <= i < slot@.len() && slot@[i].id@ == id@ && slot@[i].open,
{
    let mut i: usize = 0;
    while i < slot.len()
        invariant
            i <= slot@.len(),
            forall|j: int| 0 <= j < i ==> !(slot@[j].id@ == id@ && slot@[j].open),
        decreases slot@.len() - i,
    {
        if slot[i].open && str_eq(slot[i].id.as_str(), id) {
            return true;
        }
        i += 1;
    }
    false
}

/// The layout of the dock shell: the panels of both sides, the stored
/// shown panel of each side, and the aux panel. Its operations may pass
/// through states that are not well formed; `DockShell` keeps it well
/// formed between operations.
#[derive(Debug)]
struct DockLayout {
    left: Vec<FixedPanel>,
    right: Vec<FixedPanel>,
    active_left: Option<String>,
    active_right: Option<String>,
    aux: Option<AuxSlot>,
}

impl View for DockLayout {
    type V = ShellView;

    closed spec fn view(&self) -> ShellView {
        ShellView {
            left: panels_view(self.left@),
            right: panels_view(self.right@),
            active_left: crate::model::opt_view(self.active_left),
            active_right: crate::model::opt_view(self.active_right),
            aux: match self.aux {
                Some(a) => Some(AuxView { id: a.id@, label: a.label@, visible: a.visible }),
                None => None,
            },
        }
    }
}

/// The empty layout.
pub open spec fn empty_shell() -> ShellView {
    ShellView {
        left: Seq::empty(),
        right: Seq::empty(),
        active_left: None,
        active_right: None,
        aux: None,
    }
}

impl DockLayout {
    /// An empty layout: no panels, nothing shown, no aux panel.
    pub fn new() -> (r: Self)
        ensures
            r@ == empty_shell(),
    {
        let r = DockLayout {
            left: Vec::new(),
            right: Vec::new(),
            active_left: None,
            active_right: None,
            aux: None,
        };
        assert(r@ =~= empty_shell());
        r
    }

    /// Shows `id` on `side`, closing every other panel there.
    fn show_only(&mut self, side: Side, id: &str)
        ensures
            final(self)@ == show_only_spec(old(self)@, side, id@),
    {
        let ghost s0 = self@;
        match side {
            Side::Left => {
                radio_slot(&mut self.left, id);
                self.active_left = Some(owned(id));
            },
            Side::Right => {
                radio_slot(&mut self.right, id);
                self.active_right = Some(owned(id));
            },
        }
        assert(self@ =~= show_only_spec(s0, side, id@));
    }

    /// Plugs `panel` into `side`, replacing the side's panel with the same
    /// id; an open panel takes over its side.
    pub fn set_panel(&mut self, side: Side, panel: FixedPanel)
        ensures
            final(self)@ == set_panel_spec(old(self)@, side, panel@),
    {
        let ghost s0 = self@;
        let open = panel.open;
        let pid = panel.id.clone();
        let ghost pv = panel@;
        match side {
            Side::Left => {
                let ghost before = self.left@;
                match find_in(&self.left, pid.as_str()) {
                    Some(ix) => {
                        self.left.set(ix, panel);
                        assert(panels_view(self.left@) =~= panels_view(before).update(ix as int, pv));
                    },
                    None => {
                        self.left.push(panel);
                        assert(panels_view(self.left@) =~= panels_view(before).push(pv));
                    },
                }
            },
            Side::Right => {
                let ghost before = self.right@;
                match find_in(&self.right, pid.as_str()) {
                    Some(ix) => {
                        self.right.set(ix, panel);
                        assert(panels_view(self.right@) =~= panels_view(before).update(ix as int, pv));
                    },
                    None => {
                        self.right.push(panel);
                        assert(panels_view(self.right@) =~= panels_view(before).push(pv));
                    },
                }
            },
        }
        let ghost s2 = self@;
        assert(s2 =~= ({
            let slot = slot_of(s0, side);
            let i = find_id(slot, pv.id);
            with_slot(s0, side, if i >= 0 { slot.update(i, pv) } else { slot.push(pv) })
        }));
        if open {
            self.show_only(side, pid.as_str());
        }
    }

    /// Another name for [`Self::set_panel`].
    pub fn plug_panel(&mut self, side: Side, panel: FixedPanel)
        ensures
            final(self)@ == set_panel_spec(old(self)@, side, panel@),
    {
        self.set_panel(side, panel);
    }

    /// Takes the first panel called `id` out, looking on the left first.
    fn take_panel(&mut self, id: &str) -> (r: Option<FixedPanel>)
        ensures
            final(self)@ == take_spec(old(self)@, id@),
            match r {
                Some(p) => taken_spec(old(self)@, id@) == Some(p@),
                None => taken_spec(old(self)@, id@) is None,
            },
    {
        let ghost s0 = self@;
        if let Some(ix) = find_in(&self.left, id) {
            let ghost before = self.left@;
            let p = self.left.remove(ix);
            assert(panels_view(self.left@) =~= panels_view(before).remove(ix as int));
            assert(self@ =~= take_spec(s0, id@));
            return Some(p);
        }
        if let Some(ix) = find_in(&self.right, id) {
            let ghost before = self.right@;
            let p = self.right.remove(ix);
            assert(panels_view(self.right@) =~= panels_view(before).remove(ix as int));
            assert(self@ =~= take_spec(s0, id@));
            return Some(p);
        }
        None
    }

    /// The side holding a panel called `id`, the left one first.
    fn side_of(&self, id: &str) -> (r: Option<Side>)
        ensures
            r == side_of_spec(self@, id@),
    {
        if find_in(&self.left, id).is_some() {
            Some(Side::Left)
        } else if find_in(&self.right, id).is_some() {
            Some(Side::Right)
        } else {
            None
        }
    }

    /// Removes the panel called `id`; no side keeps it as its shown panel.
    pub fn remove_panel(&mut self, id: &str)
        ensures
            final(self)@ == remove_panel_spec(old(self)@, id@),
    {
        let ghost s0 = self@;
        let _ = self.take_panel(id);
        let clear_left = match &self.active_left {
            Some(a) => str_eq(a.as_str(), id),
            None => false,
        };
        if clear_left {
            self.active_left = None;
        }
        let clear_right = match &self.active_right {
            Some(a) => str_eq(a.as_str(), id),
            None => false,
        };
        if clear_right {
            self.active_right = None;
        }
        assert(self@ =~= remove_panel_spec(s0, id@));
    }

    /// Another name for [`Self::remove_panel`].
    pub fn unplug_panel(&mut self, id: &str)
        ensures
            final(self)@ == remove_panel_spec(old(self)@, id@),
    {
        self.remove_panel(id);
    }

    /// Some side holds a panel called `id`.
    pub fn has_panel(&self, id: &str) -> (r: bool)
        ensures
            r == has_panel_spec(self@, id@),
    {
        self.side_of(id).is_some()
    }

    /// Some panel called `id` is open.
    pub fn is_panel_open(&self, id: &str) -> (r: bool)
        ensures
            r == is_open_spec(self@, id@),
    {
        let l = open_in(&self.left, id);
        let r = open_in(&self.right, id);
        proof {
            let s = self@;
            if l {
                let i = choose|i: int| 0 <= i < self.left@.len() && self.left@[i].id@ == id@ && self.left@[i].open;
                assert(s.left[i] == self.left@[i]@);
            }
            if r {
                let i = choose|i: int| 0 <= i < self.right@.len() && self.right@[i].id@ == id@ && self.right@[i].open;
                assert(s.right[i] == self.right@[i]@);
            }
            if is_open_spec(s, id@) {
                if exists|i: int| 0 <= i < s.left.len() && s.left[i].id == id@ && s.left[i].open {
                    let i = choose|i: int| 0 <= i < s.left.len() && s.left[i].id == id@ && s.left[i].open;
                    assert(s.left[i] == self.left@[i]@);
                } else {
                    let i = choose|i: int| 0 <= i < s.right.len() && s.right[i].id == id@ && s.right[i].open;
                    assert(s.right[i] == self.right@[i]@);
                }
            }
        }
        l || r
    }

    /// Closes the first panel called `id`, looking on the left first.
    fn close_panel(&mut self, id: &str)
        ensures
            final(self)@ == close_spec(old(self)@, id@),
    {
        let ghost s0 = self@;
        if let Some(ix) = find_in(&self.left, id) {
            let ghost before = self.left@;
            let mut p = self.left[ix].copy();
            p.open = false;
            self.left.set(ix, p);
            assert(panels_view(self.left@) =~= panels_view(before).update(
                ix as int,
                PanelView { open: false, ..panels_view(before)[ix as int] },
            ));
            assert(self@ =~= close_spec(s0, id@));
            return;
        }
        if let Some(ix) = find_in(&self.right, id) {
            let ghost before = self.right@;
            let mut p = self.right[ix].copy();
            p.open = false;
            self.right.set(ix, p);
            assert(panels_view(self.right@) =~= panels_view(before).update(
                ix as int,
                PanelView { open: false, ..panels_view(before)[ix as int] },
            ));
            assert(self@ =~= close_spec(s0, id@));
            return;
        }
    }

    /// Opens `id`, showing it on its side, or closes it.
    pub fn set_panel_open(&mut self, id: &str, open: bool)
        ensures
            final(self)@ == set_panel_open_spec(old(self)@, id@, open),
    {
        if open {
            match self.side_of(id) {
                Some(side) => self.show_only(side, id),
                None => {},
            }
        } else {
            self.close_panel(id);
        }
    }

    /// Removes every panel of `side`; nothing is shown there.
    pub fn clear_side(&mut self, side: Side)
        ensures
            final(self)@ == with_active(with_slot(old(self)@, side, Seq::empty()), side, None),
    {
        let ghost s0 = self@;
        match side {
            Side::Left => {
                self.left = Vec::new();
                self.active_left = None;
            },
            Side::Right => {
                self.right = Vec::new();
                self.active_right = None;
            },
        }
        assert(self@ =~= with_active(with_slot(s0, side, Seq::empty()), side, None));
    }

    /// Removes every panel and the aux panel.
    pub fn clear_all_panels(&mut self)
        ensures
            final(self)@ == empty_shell(),
    {
        self.left = Vec::new();
        self.right = Vec::new();
        self.active_left = None;
        self.active_right = None;
        self.aux = None;
        assert(self@ =~= empty_shell());
    }

    /// Moves the panel called `id` to `side`; an open panel takes over its
    /// new side, a closed one is parked there.
    pub fn set_panel_side(&mut self, id: &str, side: Side)
        ensures
            final(self)@ == set_panel_side_spec(old(self)@, id@, side),
    {
        let ghost s0 = self@;
        let panel = match self.take_panel(id) {
            Some(p) => p,
            None => return,
        };
        let open = panel.open;
        let pid = panel.id.clone();
        let ghost pv = panel@;
        let ghost s1 = self@;
        match side {
            Side::Left => {
                if find_in(&self.left, pid.as_str()).is_none() {
                    let ghost before = self.left@;
                    self.left.push(panel);
                    assert(panels_view(self.left@) =~= panels_view(before).push(pv));
                }
            },
            Side::Right => {
                if find_in(&self.right, pid.as_str()).is_none() {
                    let ghost before = self.right@;
                    self.right.push(panel);
                    assert(panels_view(self.right@) =~= panels_view(before).push(pv));
                }
            },
        }
        assert(self@ =~= ({
            let slot = slot_of(s1, side);
            if find_id(slot, pv.id) < 0 {
                with_slot(s1, side, slot.push(pv))
            } else {
                s1
            }
        }));
        if open {
            self.show_only(side, pid.as_str());
        }
    }

    /// The stored shown panel of `side`.
    pub fn active_panel_id(&self, side: Side) -> (r: Option<String>)
        ensures
            crate::model::opt_view(r) == active_of(self@, side),
    {
        match side {
            Side::Left => self.active_left.clone(),
            Side::Right => self.active_right.clone(),
        }
    }

    /// The footer toggle: hides `id` when it is its side's shown panel,
    /// otherwise shows it.
    pub fn toggle_panel(&mut self, id: &str)
        ensures
            final(self)@ == toggle_spec(old(self)@, id@),
    {
        match self.side_of(id) {
            None => {},
            Some(side) => {
                let stored = self.active_panel_id(side);
                let is_active = match &stored {
                    Some(a) => str_eq(a.as_str(), id),
                    None => false,
                };
                let shown = is_active && self.is_panel_open(id);
                if shown {
                    self.set_panel_open(id, false);
                } else {
                    self.show_only(side, id);
                }
            },
        }
    }

    /// Shows `id` on its side: it opens and its side-mates close.
    pub fn activate_panel(&mut self, id: &str)
        ensures
            final(self)@ == set_panel_open_spec(old(self)@, id@, true),
    {
        self.set_panel_open(id, true);
    }

    /// Exchanges the two sides, with their shown panels.
    pub fn swap_sides(&mut self)
        ensures
            final(self)@ == swap_spec(old(self)@),
    {
        let ghost s0 = self@;
        std::mem::swap(&mut self.left, &mut self.right);
        std::mem::swap(&mut self.active_left, &mut self.active_right);
        assert(self@ =~= swap_spec(s0));
    }

    /// The panel a side displays: the stored one when it is still open in
    /// `slot`, else the first open panel.
    pub fn resolve_active_id(slot: &Vec<FixedPanel>, stored: Option<&String>) -> (r: Option<String>)
        ensures
            crate::model::opt_view(r) == resolve_spec(
                panels_view(slot@),
                match stored {
                    Some(s) => Some(s@),
                    None => None,
                },
            ),
    {
        let ghost pv = panels_view(slot@);
        if let Some(id) = stored {
            let found = open_in(slot, id.as_str());
            proof {
                if found {
                    let i = choose|i: int| 0 <= i < slot@.len() && slot@[i].id@ == id@ && slot@[i].open;
                    assert(pv[i] == slot@[i]@);
                }
                if exists|i: int| 0 <= i < pv.len() && pv[i].id == id@ && pv[i].open {
                    let i = choose|i: int| 0 <= i < pv.len() && pv[i].id == id@ && pv[i].open;
                    assert(pv[i] == slot@[i]@);
                }
            }
            if found {
                return Some(id.clone());
            }
        }
        first_open_in(slot)
    }

    /// Snapshots of the panels of `side`, marking the one it displays.
    pub fn side_panels(&self, side: Side) -> (r: Vec<FixedPanelInfo>)
        ensures
            infos_view(r@) == side_panels_spec(self@, side),
    {
        let slot = match side {
            Side::Left => &self.left,
            Side::Right => &self.right,
        };
        let stored = match side {
            Side::Left => self.active_left.as_ref(),
            Side::Right => self.active_right.as_ref(),
        };
        let active = Self::resolve_active_id(slot, stored);
        let ghost target = side_panels_spec(self@, side);
        let mut r: Vec<FixedPanelInfo> = Vec::new();
        let mut i: usize = 0;
        assert(slot_of(self@, side) == panels_view(slot@));
        while i < slot.len()
            invariant
                i <= slot@.len(),
                target.len() == slot@.len(),
                target == side_panels_spec(self@, side),
                slot_of(self@, side) == panels_view(slot@),
                crate::model::opt_view(active) == resolve_spec(slot_of(self@, side), active_of(self@, side)),
                infos_view(r@) == target.take(i as int),
            decreases slot@.len() - i,
        {
            let is_active = match &active {
                Some(a) => str_eq(a.as_str(), slot[i].id.as_str()),
                None => false,
            };
            let ghost before = r@;
            r.push(
                FixedPanelInfo {
                    id: slot[i].id.clone(),
                    label: slot[i].label.clone(),
                    open: slot[i].open,
                    active: is_active,
                },
            );
            assert(panels_view(slot@)[i as int] == slot@[i as int]@);
            assert(infos_view(r@) =~= infos_view(before).push(target[i as int]));
            assert(target.take(i + 1) =~= target.take(i as int).push(target[i as int]));
            i += 1;
        }
        assert(target.take(slot@.len() as int) =~= target);
        r
    }

    /// Plugs an aux panel under `id` and `label`, visible; without a view
    /// (`mounted` false) the aux panel is removed instead.
    pub fn set_aux_named(&mut self, id: &str, label: &str, mounted: bool)
        ensures
            final(self)@ == (ShellView {
                aux: if mounted {
                    Some(AuxView { id: id@, label: label@, visible: true })
                } else {
                    None
                },
                ..old(self)@
            }),
    {
        let ghost s0 = self@;
        self.aux = if mounted {
            Some(AuxSlot { id: owned(id), label: owned(label), visible: true })
        } else {
            None
        };
        assert(self@ =~= (ShellView {
            aux: if mounted {
                Some(AuxView { id: id@, label: label@, visible: true })
            } else {
                None
            },
            ..s0
        }));
    }

    /// Plugs the aux panel under the id `aux` and the label `Aux`.
    pub fn set_aux(&mut self, mounted: bool)
        ensures
            final(self)@ == (ShellView {
                aux: if mounted {
                    Some(AuxView { id: "aux"@, label: "Aux"@, visible: true })
                } else {
                    None
                },
                ..old(self)@
            }),
    {
        self.set_aux_named("aux", "Aux", mounted);
    }

    /// Removes the aux panel.
    pub fn clear_aux(&mut self)
        ensures
            final(self)@ == (ShellView { aux: None, ..old(self)@ }),
    {
        let ghost s0 = self@;
        self.aux = None;
        assert(self@ =~= (ShellView { aux: None, ..s0 }));
    }

    /// Another name for [`Self::clear_aux`].
    pub fn remove_aux(&mut self)
        ensures
            final(self)@ == (ShellView { aux: None, ..old(self)@ }),
    {
        self.clear_aux();
    }

    /// Id, label and visibility of the aux panel, if one is plugged in.
    pub fn aux_info(&self) -> (r: Option<(String, String, bool)>)
        ensures
            match r {
                Some((id, label, visible)) => self@.aux == Some(
                    AuxView { id: id@, label: label@, visible },
                ),
                None => self@.aux is None,
            },
    {
        match &self.aux {
            Some(a) => Some((a.id.clone(), a.label.clone(), a.visible)),
            None => None,
        }
    }

    /// Shows a hidden aux panel, hides a visible one.
    pub fn toggle_aux(&mut self)
        ensures
            final(self)@ == toggle_aux_spec(old(self)@),
    {
        let ghost s0 = self@;
        match &mut self.aux {
            Some(a) => {
                a.visible = !a.visible;
            },
            None => {},
        }
        assert(self@ =~= toggle_aux_spec(s0));
    }

    /// An aux panel is plugged in and visible.
    pub fn aux_visible(&self) -> (r: bool)
        ensures
            r == (self@.aux matches Some(a) && a.visible),
    {
        match &self.aux {
            Some(a) => a.visible,
            None => false,
        }
    }
}

/// Every panel of a layout is well formed: the empty layout is.
proof fn lemma_empty_wf()
    ensures
        shell_wf(empty_shell()),
{
}

/// The dock shell: the panels of both sides, the panel each side shows, and
/// the aux panel. Panel ids are distinct on each side and each side has at
/// most one open panel, at all times.
#[derive(Debug)]
pub struct DockShell {
    layout: DockLayout,
}

impl View for DockShell {
    type V = ShellView;

    closed spec fn view(&self) -> ShellView {
        self.layout@
    }
}

impl DockShell {
    #[verifier::type_invariant]
    closed spec fn inv(&self) -> bool {
        shell_wf(self.layout@)
    }

    /// Takes the layout out for an operation, leaving an empty one behind.
    fn take_layout(&mut self) -> (r: DockLayout)
        ensures
            r@ == old(self)@,
            shell_wf(r@),
    {
        proof {
            use_type_invariant(&*self);
            lemma_empty_wf();
        }
        let mut l = DockLayout::new();
        std::mem::swap(&mut l, &mut self.layout);
        l
    }

    /// Puts a well-formed layout back.
    fn put_layout(&mut self, l: DockLayout)
        requires
            shell_wf(l@),
        ensures
            final(self)@ == l@,
    {
        self.layout = l;
    }

    /// An empty layout: no panels, nothing shown, no aux panel.
    pub fn new() -> (r: Self)
        ensures
            r@ == empty_shell(),
    {
        proof {
            lemma_empty_wf();
        }
        DockShell { layout: DockLayout::new() }
    }

    /// Plugs `panel` into `side`, replacing the side's panel with the same
    /// id; an open panel takes over its side.
    pub fn set_panel(&mut self, side: Side, panel: FixedPanel)
        ensures
            final(self)@ == set_panel_spec(old(self)@, side, panel@),
            shell_wf(final(self)@),
    {
        let mut l = self.take_layout();
        let ghost s0 = l@;
        let ghost pv = panel@;
        l.set_panel(side, panel);
        proof {
            law_operations_keep_wf(s0, side, pv, pv.id, true);
        }
        self.put_layout(l);
    }

    /// Another name for [`Self::set_panel`].
    pub fn plug_panel(&mut self, side: Side, panel: FixedPanel)
        ensures
            final(self)@ == set_panel_spec(old(self)@, side, panel@),
            shell_wf(final(self)@),
    {
        self.set_panel(side, panel);
    }

    /// Removes the panel called `id`; no side keeps it as its shown panel.
    pub fn remove_panel(&mut self, id: &str)
        ensures
            final(self)@ == remove_panel_spec(old(self)@, id@),
            shell_wf(final(self)@),
    {
        let mut l = self.take_layout();
        let ghost s0 = l@;
        l.remove_panel(id);
        proof {
            law_operations_keep_wf(s0, Side::Left, PanelView { id: id@, label: id@, open: false }, id@, true);
        }
        self.put_layout(l);
    }

    /// Another name for [`Self::remove_panel`].
    pub fn unplug_panel(&mut self, id: &str)
        ensures
            final(self)@ == remove_panel_spec(old(self)@, id@),
            shell_wf(final(self)@),
    {
        self.remove_panel(id);
    }

    /// Some side holds a panel called `id`.
    pub fn has_panel(&self, id: &str) -> (r: bool)
        ensures
            r == has_panel_spec(self@, id@),
    {
        self.layout.has_panel(id)
    }

    /// Some panel called `id` is open.
    pub fn is_panel_open(&self, id: &str) -> (r: bool)
        ensures
            r == is_open_spec(self@, id@),
    {
        self.layout.is_panel_open(id)
    }

    /// Opens `id`, showing it on its side, or closes it.
    pub fn set_panel_open(&mut self, id: &str, open: bool)
        ensures
            final(self)@ == set_panel_open_spec(old(self)@, id@, open),
            shell_wf(final(self)@),
    {
        let mut l = self.take_layout();
        let ghost s0 = l@;
        l.set_panel_open(id, open);
        proof {
            law_operations_keep_wf(s0, Side::Left, PanelView { id: id@, label: id@, open: false }, id@, open);
        }
        self.put_layout(l);
    }

    /// Removes every panel of `side`; nothing is shown there.
    pub fn clear_side(&mut self, side: Side)
        ensures
            final(self)@ == with_active(with_slot(old(self)@, side, Seq::empty()), side, None),
            shell_wf(final(self)@),
    {
        let mut l = self.take_layout();
        let ghost s0 = l@;
        l.clear_side(side);
        proof {
            law_operations_keep_wf(s0, side, PanelView { id: Seq::empty(), label: Seq::empty(), open: false }, Seq::empty(), true);
        }
        self.put_layout(l);
    }

    /// Removes every panel and the aux panel.
    pub fn clear_all_panels(&mut self)
        ensures
            final(self)@ == empty_shell(),
            shell_wf(final(self)@),
    {
        let mut l = self.take_layout();
        l.clear_all_panels();
        proof {
            lemma_empty_wf();
        }
        self.put_layout(l);
    }

    /// Moves the panel called `id` to `side`; an open panel takes over its
    /// new side, a closed one is parked there.
    pub fn set_panel_side(&mut self, id: &str, side: Side)
        ensures
            final(self)@ == set_panel_side_spec(old(self)@, id@, side),
            shell_wf(final(self)@),
    {
        let mut l = self.take_layout();
        let ghost s0 = l@;
        l.set_panel_side(id, side);
        proof {
            law_operations_keep_wf(s0, side, PanelView { id: id@, label: id@, open: false }, id@, true);
        }
        self.put_layout(l);
    }

    /// The stored shown panel of `side`.
    pub fn active_panel_id(&self, side: Side) -> (r: Option<String>)
        ensures
            crate::model::opt_view(r) == active_of(self@, side),
    {
        self.layout.active_panel_id(side)
    }

    /// The footer toggle: hides `id` when it is its side's shown panel,
    /// otherwise shows it.
    pub fn toggle_panel(&mut self, id: &str)
        ensures
            final(self)@ == toggle_spec(old(self)@, id@),
            shell_wf(final(self)@),
    {
        let mut l = self.take_layout();
        let ghost s0 = l@;
        l.toggle_panel(id);
        proof {
            law_operations_keep_wf(s0, Side::Left, PanelView { id: id@, label: id@, open: false }, id@, true);
        }
        self.put_layout(l);
    }

    /// Shows `id` on its side: it opens and its side-mates close.
    pub fn activate_panel(&mut self, id: &str)
        ensures
            final(self)@ == set_panel_open_spec(old(self)@, id@, true),
            shell_wf(final(self)@),
    {
        self.set_panel_open(id, true);
    }

    /// Exchanges the two sides, with their shown panels.
    pub fn swap_sides(&mut self)
        ensures
            final(self)@ == swap_spec(old(self)@),
            shell_wf(final(self)@),
    {
        let mut l = self.take_layout();
        let ghost s0 = l@;
        l.swap_sides();
        proof {
            law_operations_keep_wf(s0, Side::Left, PanelView { id: Seq::empty(), label: Seq::empty(), open: false }, Seq::empty(), true);
        }
        self.put_layout(l);
    }

    /// The panel a side displays: the stored one when it is still open in
    /// `slot`, else the first open panel.
    pub fn resolve_active_id(slot: &Vec<FixedPanel>, stored: Option<&String>) -> (r: Option<String>)
        ensures
            crate::model::opt_view(r) == resolve_spec(
                panels_view(slot@),
                match stored {
                    Some(s) => Some(s@),
                    None => None,
                },
            ),
    {
        DockLayout::resolve_active_id(slot, stored)
    }

    /// Snapshots of the panels of `side`, marking the one it displays: at
    /// most one is open, only an open one is marked, at most one is marked,
    /// and one is whenever any is open.
    pub fn side_panels(&self, side: Side) -> (r: Vec<FixedPanelInfo>)
        ensures
            infos_view(r@) == side_panels_spec(self@, side),
            one_shown(infos_view(r@)),
    {
        proof {
            use_type_invariant(self);
            law_side_panels_radio(self@, side);
        }
        self.layout.side_panels(side)
    }

    /// Plugs an aux panel under `id` and `label`, visible; without a view
    /// (`mounted` false) the aux panel is removed instead.
    pub fn set_aux_named(&mut self, id: &str, label: &str, mounted: bool)
        ensures
            final(self)@ == (ShellView {
                aux: if mounted {
                    Some(AuxView { id: id@, label: label@, visible: true })
                } else {
                    None
                },
                ..old(self)@
            }),
    {
        let mut l = self.take_layout();
        l.set_aux_named(id, label, mounted);
        self.put_layout(l);
    }

    /// Plugs the aux panel under the id `aux` and the label `Aux`.
    pub fn set_aux(&mut self, mounted: bool)
        ensures
            final(self)@ == (ShellView {
                aux: if mounted {
                    Some(AuxView { id: "aux"@, label: "Aux"@, visible: true })
                } else {
                    None
                },
                ..old(self)@
            }),
    {
        let mut l = self.take_layout();
        l.set_aux(mounted);
        self.put_layout(l);
    }

    /// Removes the aux panel.
    pub fn clear_aux(&mut self)
        ensures
            final(self)@ == (ShellView { aux: None, ..old(self)@ }),
    {
        let mut l = self.take_layout();
        l.clear_aux();
        self.put_layout(l);
    }

    /// Another name for [`Self::clear_aux`].
    pub fn remove_aux(&mut self)
        ensures
            final(self)@ == (ShellView { aux: None, ..old(self)@ }),
    {
        self.clear_aux();
    }

    /// Id, label and visibility of the aux panel, if one is plugged in.
    pub fn aux_info(&self) -> (r: Option<(String, String, bool)>)
        ensures
            match r {
                Some((id, label, visible)) => self@.aux == Some(
                    AuxView { id: id@, label: label@, visible },
                ),
                None => self@.aux is None,
            },
    {
        self.layout.aux_info()
    }

    /// Shows a hidden aux panel, hides a visible one.
    pub fn toggle_aux(&mut self)
        ensures
            final(self)@ == toggle_aux_spec(old(self)@),
    {
        let mut l = self.take_layout();
        l.toggle_aux();
        self.put_layout(l);
    }

    /// An aux panel is plugged in and visible.
    pub fn aux_visible(&self) -> (r: bool)
        ensures
            r == (self@.aux matches Some(a) && a.visible),
    {
        self.layout.aux_visible()
    }
}

/// The layout with the aux panel's visibility flipped, when there is one.
pub open spec fn toggle_aux_spec(s: ShellView) -> ShellView {
    match s.aux {
        Some(a) => ShellView { aux: Some(AuxView { visible: !a.visible, ..a }), ..s },
        None => s,
    }
}

/// Id of the first open panel of `slot`.
fn first_open_in(slot: &Vec<FixedPanel>) -> (r: Option<String>)
    ensures
        crate::model::opt_view(r) == first_open(panels_view(slot@)),
{
    let ghost pv = panels_view(slot@);
    let mut i: usize = 0;
    assert(pv.skip(0) =~= pv);
    while i < slot.len()
        invariant
            i <= slot@.len(),
            pv == panels_view(slot@),
            first_open(pv.skip(i as int)) == first_open(pv),
        decreases slot@.len() - i,
    {
        assert(pv.skip(i as int)[0] == slot@[i as int]@);
        assert(pv.skip(i as int).drop_first() =~= pv.skip(i + 1));
        if slot[i].open {
            return Some(slot[i].id.clone());
        }
        i += 1;
    }
    assert(pv.skip(i as int).len() == 0);
    None
}

/// Swapping the sides twice gives the layout back.
pub proof fn law_swap_twice(s: ShellView)
    ensures
        swap_spec(swap_spec(s)) == s,
{
    assert(swap_spec(swap_spec(s)) =~= s);
}

/// Toggling the aux panel twice gives the layout back.
pub proof fn law_toggle_aux_twice(s: ShellView)
    ensures
        toggle_aux_spec(toggle_aux_spec(s)) == s,
{
    assert(toggle_aux_spec(toggle_aux_spec(s)) =~= s);
}

/// Panel ids on a side are distinct.
pub open spec fn ids_distinct(slot: Seq<PanelView>) -> bool {
    forall|i: int, j: int| 0 <= i < slot.len() && 0 <= j < slot.len() && i != j ==> slot[i].id != slot[j].id
}

/// With distinct ids, showing one panel leaves exactly that panel open.
proof fn lemma_radio_wf(slot: Seq<PanelView>, id: Seq<char>)
    requires
        ids_distinct(slot),
    ensures
        slot_wf(radio(slot, id)),
        forall|i: int| 0 <= i < slot.len() ==> (#[trigger] radio(slot, id)[i]).id == slot[i].id,
{
}

/// A well-formed side whose panel `i` is replaced by one with the same id,
/// closed or the only open one, stays well formed.
proof fn lemma_update_wf(slot: Seq<PanelView>, i: int, p: PanelView)
    requires
        slot_wf(slot),
        0 <= i < slot.len(),
        p.id == slot[i].id,
        !p.open,
    ensures
        slot_wf(slot.update(i, p)),
{
}

/// Appending a closed panel with a new id keeps a side well formed.
proof fn lemma_push_wf(slot: Seq<PanelView>, p: PanelView)
    requires
        slot_wf(slot),
        find_id(slot, p.id) < 0,
        !p.open,
    ensures
        slot_wf(slot.push(p)),
{
    lemma_find_id(slot, p.id);
}

/// Removing a panel keeps a side well formed.
proof fn lemma_remove_wf(slot: Seq<PanelView>, i: int)
    requires
        slot_wf(slot),
        0 <= i < slot.len(),
    ensures
        slot_wf(slot.remove(i)),
{
    let r = slot.remove(i);
    assert forall|a: int, b: int| 0 <= a < r.len() && 0 <= b < r.len() && a != b implies r[a].id
        != r[b].id && !(r[a].open && r[b].open) by {
        let a2 = if a < i { a } else { a + 1 };
        let b2 = if b < i { b } else { b + 1 };
        assert(r[a] == slot[a2]);
        assert(r[b] == slot[b2]);
    }
}

/// Showing a panel on a side keeps the layout well formed.
proof fn lemma_show_only_wf(s: ShellView, side: Side, id: Seq<char>)
    requires
        shell_wf(s),
    ensures
        shell_wf(show_only_spec(s, side, id)),
        forall|i: int|
            0 <= i < slot_of(s, side).len() ==> (#[trigger] slot_of(show_only_spec(s, side, id), side)[i]).id
                == slot_of(s, side)[i].id,
{
    lemma_radio_wf(slot_of(s, side), id);
}

/// Every operation on the layout keeps it well formed: panel ids stay
/// distinct on each side, and each side keeps at most one open panel.
pub proof fn law_operations_keep_wf(s: ShellView, side: Side, p: PanelView, id: Seq<char>, open: bool)
    requires
        shell_wf(s),
    ensures
        shell_wf(set_panel_spec(s, side, p)),
        shell_wf(remove_panel_spec(s, id)),
        shell_wf(set_panel_open_spec(s, id, open)),
        shell_wf(set_panel_side_spec(s, id, side)),
        shell_wf(toggle_spec(s, id)),
        shell_wf(swap_spec(s)),
        shell_wf(with_active(with_slot(s, side, Seq::empty()), side, None)),
        shell_wf(empty_shell()),
{
    lemma_find_id(s.left, id);
    lemma_find_id(s.right, id);
    // plugging a panel
    let slot = slot_of(s, side);
    let i = find_id(slot, p.id);
    lemma_find_id(slot, p.id);
    let closed = PanelView { open: false, ..p };
    if i >= 0 {
        lemma_update_wf(slot, i, closed);
        assert(slot_wf(slot.update(i, p)) || p.open);
    } else {
        lemma_push_wf(slot, closed);
        assert(slot_wf(slot.push(p)) || p.open);
    }
    let slot2 = if i >= 0 {
        slot.update(i, p)
    } else {
        slot.push(p)
    };
    let s2 = with_slot(s, side, slot2);
    if p.open {
        assert(ids_distinct(slot2)) by {
            if i < 0 {
                assert forall|a: int, b: int|
                    0 <= a < slot2.len() && 0 <= b < slot2.len() && a != b implies slot2[a].id
                    != slot2[b].id by {
                    if a == slot.len() as int {
                        assert(slot[b].id != p.id);
                    } else if b == slot.len() as int {
                        assert(slot[a].id != p.id);
                    }
                }
            }
        }
        assert(shell_wf(s2) || slot_of(s2, side) == slot2);
        lemma_radio_wf(slot2, p.id);
        assert(shell_wf(show_only_spec(s2, side, p.id)));
    } else {
        assert(shell_wf(s2));
    }
    // removing a panel
    if find_id(s.left, id) >= 0 {
        lemma_remove_wf(s.left, find_id(s.left, id));
    } else if find_id(s.right, id) >= 0 {
        lemma_remove_wf(s.right, find_id(s.right, id));
    }
    let t = take_spec(s, id);
    assert(shell_wf(t));
    // opening or closing a panel
    if find_id(s.left, id) >= 0 {
        let k = find_id(s.left, id);
        lemma_update_wf(s.left, k, PanelView { open: false, ..s.left[k] });
    } else if find_id(s.right, id) >= 0 {
        let k = find_id(s.right, id);
        lemma_update_wf(s.right, k, PanelView { open: false, ..s.right[k] });
    }
    assert(shell_wf(close_spec(s, id)));
    lemma_show_only_wf(s, Side::Left, id);
    lemma_show_only_wf(s, Side::Right, id);
    // moving a panel to a side
    match taken_spec(s, id) {
        None => {},
        Some(q) => {
            let slot1 = slot_of(t, side);
            lemma_find_id(slot1, q.id);
            let s3 = if find_id(slot1, q.id) < 0 {
                with_slot(t, side, slot1.push(q))
            } else {
                t
            };
            if find_id(slot1, q.id) < 0 {
                lemma_push_wf(slot1, PanelView { open: false, ..q });
                assert(ids_distinct(slot1.push(q))) by {
                    let sp = slot1.push(q);
                    assert forall|a: int, b: int|
                        0 <= a < sp.len() && 0 <= b < sp.len() && a != b implies sp[a].id != sp[b].id by {
                        if a == slot1.len() as int {
                            assert(slot1[b].id != q.id);
                        } else if b == slot1.len() as int {
                            assert(slot1[a].id != q.id);
                        }
                    }
                }
            }
            assert(ids_distinct(slot_of(s3, side)));
            if q.open {
                lemma_radio_wf(slot_of(s3, side), q.id);
                assert(shell_wf(show_only_spec(s3, side, q.id)));
            } else {
                assert(shell_wf(s3));
            }
        },
    }
}

/// What `first_open` gives: an open panel's id, or `None` when none is open.
proof fn lemma_first_open(slot: Seq<PanelView>)
    ensures
        first_open(slot) matches Some(x) ==> exists|i: int| 0 <= i < slot.len() && slot[i].open && slot[i].id == x,
        first_open(slot) is None ==> forall|i: int| 0 <= i < slot.len() ==> !(#[trigger] slot[i]).open,
    decreases slot.len(),
{
    if slot.len() > 0 && !slot[0].open {
        lemma_first_open(slot.drop_first());
        if let Some(x) = first_open(slot) {
            let i = choose|i: int| 0 <= i < slot.drop_first().len() && slot.drop_first()[i].open && slot.drop_first()[i].id == x;
            assert(slot[i + 1] == slot.drop_first()[i]);
        } else {
            assert forall|i: int| 0 <= i < slot.len() implies !(#[trigger] slot[i]).open by {
                if i > 0 {
                    assert(slot[i] == slot.drop_first()[i - 1]);
                }
            }
        }
    }
}

/// The panel a side displays is open there, and one is displayed whenever
/// any panel there is open.
proof fn lemma_resolve(slot: Seq<PanelView>, stored: Option<Seq<char>>)
    ensures
        resolve_spec(slot, stored) matches Some(x) ==> exists|i: int| 0 <= i < slot.len() && slot[i].open && slot[i].id == x,
        resolve_spec(slot, stored) is None ==> forall|i: int| 0 <= i < slot.len() ==> !(#[trigger] slot[i]).open,
{
    lemma_first_open(slot);
}

/// The snapshots of a side show one panel at a time: at most one is open,
/// only an open one is marked as displayed, at most one is so marked, and
/// one is whenever any is open.
pub open spec fn one_shown(v: Seq<InfoView>) -> bool {
    &&& forall|i: int, j: int|
        0 <= i < v.len() && 0 <= j < v.len() && i != j ==> !(#[trigger] v[i].open && #[trigger] v[j].open)
    &&& forall|i: int| 0 <= i < v.len() && (#[trigger] v[i]).active ==> v[i].open
    &&& forall|i: int, j: int|
        0 <= i < v.len() && 0 <= j < v.len() && i != j ==> !(#[trigger] v[i].active && #[trigger] v[j].active)
    &&& (exists|i: int| 0 <= i < v.len() && v[i].open) <==> (exists|i: int| 0 <= i < v.len() && v[i].active)
}

/// What the toggle widgets of a side report: at most one panel is open,
/// only an open panel is marked as displayed, at most one is so marked, and
/// one is whenever a panel is open.
pub proof fn law_side_panels_radio(s: ShellView, side: Side)
    requires
        shell_wf(s),
    ensures
        one_shown(side_panels_spec(s, side)),
{
    let slot = slot_of(s, side);
    let a = resolve_spec(slot, active_of(s, side));
    let v = side_panels_spec(s, side);
    lemma_resolve(slot, active_of(s, side));
    assert forall|i: int| 0 <= i < v.len() && (#[trigger] v[i]).active implies v[i].open by {
        let x = a->0;
        let j = choose|j: int| 0 <= j < slot.len() && slot[j].open && slot[j].id == x;
        assert(slot[i].id == x);
        if i != j {
            assert(slot[i].id != slot[j].id);
        }
    }
    assert forall|i: int, j: int|
        0 <= i < v.len() && 0 <= j < v.len() && i != j implies !(#[trigger] v[i].active && #[trigger] v[j].active) by {
        if v[i].active && v[j].active {
            assert(slot[i].id != slot[j].id);
        }
    }
    if exists|i: int| 0 <= i < v.len() && v[i].open {
        let i = choose|i: int| 0 <= i < v.len() && v[i].open;
        assert(slot[i].open);
        let x = a->0;
        let j = choose|j: int| 0 <= j < slot.len() && slot[j].open && slot[j].id == x;
        assert(v[j].active);
    }
}

/// Each open panel is its side's stored shown panel.
pub open spec fn open_is_active(s: ShellView) -> bool {
    &&& forall|i: int| 0 <= i < s.left.len() && (#[trigger] s.left[i]).open ==> s.active_left == Some(s.left[i].id)
    &&& forall|i: int| 0 <= i < s.right.len() && (#[trigger] s.right[i]).open ==> s.active_right == Some(s.right[i].id)
}

/// Two slots with the same ids, position by position, find ids alike.
proof fn lemma_find_id_same_ids(a: Seq<PanelView>, b: Seq<PanelView>, id: Seq<char>)
    requires
        a.len() == b.len(),
        forall|i: int| 0 <= i < a.len() ==> (#[trigger] a[i]).id == b[i].id,
    ensures
        find_id(a, id) == find_id(b, id),
{
    lemma_find_id(a, id);
    lemma_find_id(b, id);
    let fa = find_id(a, id);
    let fb = find_id(b, id);
    if fa >= 0 && fb >= 0 {
        if fa < fb {
            assert(b[fa].id == id);
        } else if fb < fa {
            assert(a[fb].id == id);
        }
    } else if fa >= 0 {
        assert(b[fa].id == id);
    } else if fb >= 0 {
        assert(a[fb].id == id);
    }
}

/// Toggling a panel twice leaves it as open or closed as it was and makes
/// it its side's stored shown panel; the other side is untouched. This
/// holds where the panel is on one side only and every open panel is its
/// side's stored shown one. Operations can leave a panel open without being
/// stored as shown (removing a panel whose id also sits open on the other
/// side clears that side's stored choice), and there two toggles close it.
pub proof fn law_toggle_twice(s: ShellView, id: Seq<char>)
    requires
        shell_wf(s),
        open_is_active(s),
        has_panel_spec(s, id),
        find_id(slot_of(s, side_of_spec(s, id)->0.other_spec()), id) < 0,
    ensures
        ({
            let side = side_of_spec(s, id)->0;
            let t = toggle_spec(toggle_spec(s, id), id);
            &&& is_open_spec(t, id) == is_open_spec(s, id)
            &&& active_of(t, side) == Some(id)
            &&& slot_of(t, side.other_spec()) == slot_of(s, side.other_spec())
            &&& active_of(t, side.other_spec()) == active_of(s, side.other_spec())
        }),
{
    let side = side_of_spec(s, id)->0;
    let other = side.other_spec();
    let slot = slot_of(s, side);
    lemma_find_id(s.left, id);
    lemma_find_id(s.right, id);
    lemma_find_id(slot, id);
    lemma_find_id(slot_of(s, other), id);
    let k = find_id(slot, id);
    assert(0 <= k < slot.len() && slot[k].id == id);
    // the panel is only at position k of its side
    assert(forall|i: int| 0 <= i < slot.len() && i != k ==> slot[i].id != id);
    assert(forall|i: int| 0 <= i < slot_of(s, other).len() ==> slot_of(s, other)[i].id != id);
    let t1 = toggle_spec(s, id);
    let t = toggle_spec(t1, id);
    if shown_spec(s, id) {
        // the first toggle closes it
        assert(is_open_spec(s, id));
        assert(slot[k].open);
        let c = close_spec(s, id);
        assert(t1 == c);
        assert(slot_of(c, side) == slot.update(k, PanelView { open: false, ..slot[k] }));
        assert(slot_of(c, other) == slot_of(s, other));
        lemma_find_id_same_ids(slot_of(c, side), slot, id);
        lemma_find_id(slot_of(c, side), id);
        assert(side_of_spec(c, id) == Some(side));
        assert(!is_open_spec(c, id)) by {
            if exists|i: int| 0 <= i < c.left.len() && c.left[i].id == id && c.left[i].open {
                let i = choose|i: int| 0 <= i < c.left.len() && c.left[i].id == id && c.left[i].open;
                if side == Side::Left {
                    assert(i == k);
                } else {
                    assert(c.left[i] == slot_of(s, other)[i]);
                }
            }
            if exists|i: int| 0 <= i < c.right.len() && c.right[i].id == id && c.right[i].open {
                let i = choose|i: int| 0 <= i < c.right.len() && c.right[i].id == id && c.right[i].open;
                if side == Side::Right {
                    assert(i == k);
                } else {
                    assert(c.right[i] == slot_of(s, other)[i]);
                }
            }
        }
        // the second shows it again
        let sh = show_only_spec(c, side, id);
        assert(t == sh);
        assert(slot_of(sh, side)[k].open);
        assert(is_open_spec(t, id)) by {
            if side == Side::Left {
                assert(t.left[k].id == id && t.left[k].open);
            } else {
                assert(t.right[k].id == id && t.right[k].open);
            }
        }
    } else {
        // closed before: an open panel would be the shown one
        assert(!slot[k].open) by {
            if slot[k].open {
                assert(active_of(s, side) == Some(id));
                if side == Side::Left {
                    assert(s.left[k].id == id && s.left[k].open);
                } else {
                    assert(s.right[k].id == id && s.right[k].open);
                }
            }
        }
        assert(!is_open_spec(s, id)) by {
            if exists|i: int| 0 <= i < s.left.len() && s.left[i].id == id && s.left[i].open {
                let i = choose|i: int| 0 <= i < s.left.len() && s.left[i].id == id && s.left[i].open;
                if side == Side::Left {
                    assert(i == k);
                } else {
                    assert(s.left[i] == slot_of(s, other)[i]);
                }
            }
            if exists|i: int| 0 <= i < s.right.len() && s.right[i].id == id && s.right[i].open {
                let i = choose|i: int| 0 <= i < s.right.len() && s.right[i].id == id && s.right[i].open;
                if side == Side::Right {
                    assert(i == k);
                } else {
                    assert(s.right[i] == slot_of(s, other)[i]);
                }
            }
        }
        // the first toggle shows it
        let sh = show_only_spec(s, side, id);
        assert(t1 == sh);
        lemma_radio_wf(slot, id);
        lemma_find_id_same_ids(slot_of(sh, side), slot, id);
        lemma_find_id(slot_of(sh, side), id);
        assert(side_of_spec(sh, id) == Some(side));
        assert(slot_of(sh, side)[k].open);
        assert(is_open_spec(sh, id)) by {
            if side == Side::Left {
                assert(sh.left[k].id == id && sh.left[k].open);
            } else {
                assert(sh.right[k].id == id && sh.right[k].open);
            }
        }
        assert(shown_spec(sh, id));
        // the second closes it
        let c = close_spec(sh, id);
        assert(t == c);
        assert(slot_of(c, side) == slot_of(sh, side).update(k, PanelView { open: false, ..slot_of(sh, side)[k] }));
        assert(!is_open_spec(c, id)) by {
            if exists|i: int| 0 <= i < c.left.len() && c.left[i].id == id && c.left[i].open {
                let i = choose|i: int| 0 <= i < c.left.len() && c.left[i].id == id && c.left[i].open;
                if side == Side::Left {
                    assert(i == k);
                } else {
                    assert(c.left[i] == slot_of(s, other)[i]);
                }
            }
            if exists|i: int| 0 <= i < c.right.len() && c.right[i].id == id && c.right[i].open {
                let i = choose|i: int| 0 <= i < c.right.len() && c.right[i].id == id && c.right[i].open;
                if side == Side::Right {
                    assert(i == k);
                } else {
                    assert(c.right[i] == slot_of(s, other)[i]);
                }
            }
        }
    }
}

/// Showing a panel that a side holds makes it the side's only open panel
/// and the one the side displays; the other side is untouched.
pub proof fn law_show_only_is_radio(s: ShellView, side: Side, id: Seq<char>)
    requires
        find_id(slot_of(s, side), id) >= 0,
    ensures
        ({
            let s2 = show_only_spec(s, side, id);
            &&& forall|i: int|
                0 <= i < slot_of(s2, side).len() ==> ((#[trigger] slot_of(s2, side)[i]).open
                    <==> slot_of(s2, side)[i].id == id)
            &&& resolve_spec(slot_of(s2, side), active_of(s2, side)) == Some(id)
            &&& slot_of(s2, side.other_spec()) == slot_of(s, side.other_spec())
            &&& active_of(s2, side.other_spec()) == active_of(s, side.other_spec())
        }),
{
    let slot = slot_of(s, side);
    lemma_find_id(slot, id);
    let k = find_id(slot, id);
    let s2 = show_only_spec(s, side, id);
    assert(slot_of(s2, side)[k].id == id && slot_of(s2, side)[k].open);
}

/// The toggle of a side's shown panel hides it there; the toggle of any
/// other panel a side holds makes it the shown panel of that side.
pub proof fn law_toggle(s: ShellView, id: Seq<char>)
    requires
        has_panel_spec(s, id),
        shell_wf(s),
    ensures
        shown_spec(s, id) ==> ({
            let side = side_of_spec(s, id)->0;
            forall|i: int|
                0 <= i < slot_of(toggle_spec(s, id), side).len() && #[trigger] slot_of(
                    toggle_spec(s, id),
                    side,
                )[i].id == id ==> !slot_of(toggle_spec(s, id), side)[i].open
        }),
        !shown_spec(s, id) ==> shown_spec(toggle_spec(s, id), id),
{
    lemma_find_id(s.left, id);
    lemma_find_id(s.right, id);
    let side = side_of_spec(s, id)->0;
    let t = toggle_spec(s, id);
    if shown_spec(s, id) {
        let slot = slot_of(s, side);
        let k = find_id(slot, id);
        assert forall|i: int|
            0 <= i < slot_of(t, side).len() && #[trigger] slot_of(t, side)[i].id == id implies !slot_of(
            t,
            side,
        )[i].open by {
            if i != k {
                assert(slot[i].id != slot[k].id);
            }
        }
    } else {
        let slot = slot_of(s, side);
        let k = find_id(slot, id);
        let s2 = show_only_spec(s, side, id);
        lemma_find_id(slot_of(s2, side), id);
        assert(slot_of(s2, side)[k].id == id);
        assert(find_id(slot_of(s2, side), id) >= 0);
        if side == Side::Right {
            assert(s2.left == s.left);
        }
        assert(side_of_spec(s2, id) == Some(side));
        match side {
            Side::Left => assert(s2.left[k].open),
            Side::Right => assert(s2.right[k].open),
        }
        assert(is_open_spec(s2, id));
    }
}

impl Side {
    /// The opposite side, in specifications.
    pub open spec fn other_spec(self) -> Side {
        match self {
            Side::Left => Side::Right,
            Side::Right => Side::Left,
        }
    }
}


/// A button of the dock's toggle row.
pub enum DockButton {
    TogglePanel { id: String, label: String, toggled: bool },
    MoveToSide { id: String, label: String, to: Side },
    SwapSides,
    ToggleAux { id: String, label: String, toggled: bool },
}

/// The abstract content of a toggle-row button.
pub enum DockButtonView {
    TogglePanel { id: Seq<char>, label: Seq<char>, toggled: bool },
    MoveToSide { id: Seq<char>, label: Seq<char>, to: Side },
    SwapSides,
    ToggleAux { id: Seq<char>, label: Seq<char>, toggled: bool },
}

impl View for DockButton {
    type V = DockButtonView;

    open spec fn view(&self) -> DockButtonView {
        match self {
            DockButton::TogglePanel { id, label, toggled } => DockButtonView::TogglePanel {
                id: id@,
                label: label@,
                toggled: *toggled,
            },
            DockButton::MoveToSide { id, label, to } => DockButtonView::MoveToSide { id: id@, label: label@, to: *to },
            DockButton::SwapSides => DockButtonView::SwapSides,
            DockButton::ToggleAux { id, label, toggled } => DockButtonView::ToggleAux {
                id: id@,
                label: label@,
                toggled: *toggled,
            },
        }
    }
}

/// The abstract content of a row of buttons.
pub open spec fn buttons_view(v: Seq<DockButton>) -> Seq<DockButtonView> {
    v.map_values(|b: DockButton| b@)
}

/// The one-letter name of a side.
pub open spec fn side_letter(side: Side) -> Seq<char> {
    match side {
        Side::Left => "L"@,
        Side::Right => "R"@,
    }
}

/// The buttons of one side: for each panel, its toggle (lit when open) and
/// a button, lettered with the side, that moves it to the other side.
pub open spec fn side_buttons(v: Seq<InfoView>, side: Side) -> Seq<DockButtonView> {
    Seq::new(
        2 * v.len(),
        |k: int|
            if k % 2 == 0 {
                DockButtonView::TogglePanel { id: v[k / 2].id, label: v[k / 2].label, toggled: v[k / 2].open }
            } else {
                DockButtonView::MoveToSide { id: v[k / 2].id, label: side_letter(side), to: side.other_spec() }
            },
    )
}

/// The toggle row: the buttons of the left side, then of the right side,
/// the swap button, and the aux toggle when an aux panel is plugged in.
pub open spec fn dock_buttons_spec(s: ShellView) -> Seq<DockButtonView> {
    side_buttons(side_panels_spec(s, Side::Left), Side::Left) + side_buttons(
        side_panels_spec(s, Side::Right),
        Side::Right,
    ) + seq![DockButtonView::SwapSides] + match s.aux {
        Some(a) => seq![DockButtonView::ToggleAux { id: a.id, label: a.label, toggled: a.visible }],
        None => Seq::empty(),
    }
}

/// Appends the buttons of one side's panels.
fn push_side_buttons(r: &mut Vec<DockButton>, infos: &Vec<FixedPanelInfo>, side: Side)
    ensures
        buttons_view(final(r)@) == buttons_view(old(r)@) + side_buttons(infos_view(infos@), side),
{
    let ghost r0 = buttons_view(r@);
    let ghost sb = side_buttons(infos_view(infos@), side);
    let mut i: usize = 0;
    assert(sb.take(0) =~= Seq::<DockButtonView>::empty());
    assert(buttons_view(r@) =~= r0 + sb.take(0));
    while i < infos.len()
        invariant
            i <= infos@.len(),
            sb == side_buttons(infos_view(infos@), side),
            sb.len() == 2 * infos@.len(),
            buttons_view(r@) == r0 + sb.take(2 * i),
        decreases infos@.len() - i,
    {
        let ghost before = buttons_view(r@);
        let info = &infos[i];
        r.push(DockButton::TogglePanel { id: owned(info.id.as_str()), label: owned(info.label.as_str()), toggled: info.open });
        let to = side.other();
        r.push(DockButton::MoveToSide { id: owned(info.id.as_str()), label: owned(side.short()), to });
        proof {
            let k = 2 * i as int;
            assert(k % 2 == 0 && k / 2 == i);
            assert((k + 1) % 2 == 1 && (k + 1) / 2 == i);
            assert(infos_view(infos@)[i as int].id == info.id@);
            assert(to == side.other_spec());
            assert(buttons_view(r@) =~= before.push(sb[k]).push(sb[k + 1]));
            assert(sb.take(k + 2) =~= sb.take(k).push(sb[k]).push(sb[k + 1]));
        }
        i += 1;
    }
    assert(sb.take((2 * infos@.len()) as int) =~= sb);
}

/// The buttons of the dock's toggle row, in order.
pub fn dock_toggles(shell: &DockShell) -> (r: Vec<DockButton>)
    ensures
        buttons_view(r@) == dock_buttons_spec(shell@),
{
    let mut r: Vec<DockButton> = Vec::new();
    assert(buttons_view(r@) =~= Seq::<DockButtonView>::empty());
    let left = shell.side_panels(Side::Left);
    push_side_buttons(&mut r, &left, Side::Left);
    let right = shell.side_panels(Side::Right);
    push_side_buttons(&mut r, &right, Side::Right);
    let ghost before = buttons_view(r@);
    r.push(DockButton::SwapSides);
    assert(buttons_view(r@) =~= before.push(DockButtonView::SwapSides));
    let ghost before2 = buttons_view(r@);
    match shell.aux_info() {
        Some((id, label, visible)) => {
            r.push(DockButton::ToggleAux { id, label, toggled: visible });
            assert(buttons_view(r@) =~= before2.push(DockButtonView::ToggleAux { id: id@, label: label@, toggled: visible }));
        },
        None => {},
    }
    assert(buttons_view(r@) =~= dock_buttons_spec(shell@));
    r
}


/// Moving a panel that the layout holds keeps it in the layout, on the side
/// it was moved to: afterwards that side holds a panel with its id. When
/// the side held none before, the moved panel itself is what lands there:
/// a closed panel arrives unchanged (parked, still closed) and an open one
/// arrives open. A panel the layout does not hold changes nothing.
pub proof fn law_move_keeps_panel(s: ShellView, id: Seq<char>, side: Side)
    ensures
        !has_panel_spec(s, id) ==> set_panel_side_spec(s, id, side) == s,
        has_panel_spec(s, id) ==> has_panel_spec(set_panel_side_spec(s, id, side), id),
        has_panel_spec(s, id) ==> find_id(slot_of(set_panel_side_spec(s, id, side), side), id) >= 0,
        ({
            let t = set_panel_side_spec(s, id, side);
            let slot1 = slot_of(take_spec(s, id), side);
            has_panel_spec(s, id) && find_id(slot1, id) < 0 ==> {
                let p = taken_spec(s, id)->0;
                let k = find_id(slot_of(t, side), id);
                &&& k == slot1.len()
                &&& slot_of(t, side)[k].id == p.id
                &&& slot_of(t, side)[k].label == p.label
                &&& slot_of(t, side)[k].open == p.open
            }
        }),
{
    lemma_find_id(s.left, id);
    lemma_find_id(s.right, id);
    if has_panel_spec(s, id) {
        let p = taken_spec(s, id)->0;
        assert(p.id == id);
        let s1 = take_spec(s, id);
        let slot = slot_of(s1, side);
        lemma_find_id(slot, id);
        let s2 = if find_id(slot, id) < 0 {
            with_slot(s1, side, slot.push(p))
        } else {
            s1
        };
        let slot2 = slot_of(s2, side);
        lemma_find_id(slot2, id);
        if find_id(slot, id) < 0 {
            assert(slot2 == slot.push(p));
            assert(slot2[slot.len() as int].id == id);
            assert(find_id(slot2, id) == slot.len() as int);
        }
        assert(find_id(slot2, id) >= 0);
        let t = set_panel_side_spec(s, id, side);
        if p.open {
            let sh = show_only_spec(s2, side, id);
            assert(t == sh);
            assert forall|i: int| 0 <= i < slot2.len() implies (#[trigger] slot_of(sh, side)[i]).id == slot2[i].id by {}
            lemma_find_id_same_ids(slot_of(sh, side), slot2, id);
        } else {
            assert(t == s2);
        }
        lemma_find_id(slot_of(t, side), id);
        let k = find_id(slot_of(t, side), id);
        assert(slot_of(t, side)[k].id == id);
        match side {
            Side::Left => assert(find_id(t.left, id) >= 0),
            Side::Right => {
                lemma_find_id(t.left, id);
                assert(find_id(t.right, id) >= 0);
            },
        }
    }
}

} // verus!
