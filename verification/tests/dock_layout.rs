use arc_client::dock::{DockButton, DockShell, FixedPanel, Side, dock_toggles};
use arc_client::dock_skin::{DndPolicy, SkinOptions, TabPanel, plan_tab_bar};

fn open_ids(shell: &DockShell, side: Side) -> Vec<String> {
    shell.side_panels(side).into_iter().filter(|i| i.open).map(|i| i.id).collect()
}

fn shell_with_panels() -> DockShell {
    let mut s = DockShell::new();
    s.set_panel(Side::Left, FixedPanel::new("files", "Files"));
    s.set_panel(Side::Left, FixedPanel::new("envs", "Environments"));
    s.set_panel(Side::Right, FixedPanel::new("outline", "Outline"));
    s
}

#[test]
fn sides() {
    assert_eq!(Side::Left.other(), Side::Right);
    assert_eq!(Side::Right.other(), Side::Left);
    assert_eq!(Side::Left.short(), "L");
    assert_eq!(Side::Right.short(), "R");
}

#[test]
fn showing_a_panel_closes_its_side_mates() {
    let s = shell_with_panels();
    assert_eq!(open_ids(&s, Side::Left), vec!["envs"]);
    assert_eq!(s.active_panel_id(Side::Left).as_deref(), Some("envs"));
    let infos = s.side_panels(Side::Left);
    assert_eq!(infos.len(), 2);
    assert!(!infos[0].active && infos[1].active);
    assert_eq!(open_ids(&s, Side::Right), vec!["outline"]);
}

#[test]
fn toggle_hides_shown_and_shows_others() {
    let mut s = shell_with_panels();
    s.toggle_panel("files");
    assert_eq!(open_ids(&s, Side::Left), vec!["files"]);
    s.toggle_panel("files");
    assert!(open_ids(&s, Side::Left).is_empty());
    assert!(!s.is_panel_open("files"));
    assert!(s.side_panels(Side::Left).iter().all(|i| !i.active));
    s.toggle_panel("files");
    assert!(s.is_panel_open("files"));
    s.toggle_panel("nothing");
    assert_eq!(open_ids(&s, Side::Left), vec!["files"]);
}

#[test]
fn closed_panels_park_and_replace() {
    let mut s = shell_with_panels();
    let mut p = FixedPanel::new("files", "Files v2");
    p.open = false;
    s.set_panel(Side::Left, p);
    let infos = s.side_panels(Side::Left);
    assert_eq!(infos[0].label, "Files v2");
    assert_eq!(open_ids(&s, Side::Left), vec!["envs"]);
    s.set_panel_open("envs", false);
    assert!(open_ids(&s, Side::Left).is_empty());
    s.activate_panel("files");
    assert_eq!(open_ids(&s, Side::Left), vec!["files"]);
}

#[test]
fn moving_swapping_and_removing() {
    let mut s = shell_with_panels();
    s.set_panel_side("envs", Side::Right);
    assert!(!s.has_panel("nothing"));
    assert_eq!(open_ids(&s, Side::Right), vec!["envs"]);
    assert_eq!(s.side_panels(Side::Left).len(), 1);
    s.swap_sides();
    assert_eq!(s.side_panels(Side::Left).len(), 2);
    assert_eq!(s.active_panel_id(Side::Left).as_deref(), Some("envs"));
    s.swap_sides();
    assert_eq!(s.side_panels(Side::Right).len(), 2);
    s.remove_panel("envs");
    assert!(!s.has_panel("envs"));
    assert_eq!(s.active_panel_id(Side::Right), None);
    // showing `envs` had closed `outline`, so nothing is displayed there now
    assert!(open_ids(&s, Side::Right).is_empty());
    assert!(!s.side_panels(Side::Right)[0].active);
    s.activate_panel("outline");
    assert!(s.side_panels(Side::Right)[0].active);
    s.clear_side(Side::Right);
    assert!(s.side_panels(Side::Right).is_empty());
    s.clear_all_panels();
    assert!(!s.has_panel("files"));
}

#[test]
fn aux_panel() {
    let mut s = DockShell::new();
    assert!(!s.aux_visible());
    s.set_aux(true);
    assert_eq!(s.aux_info(), Some(("aux".to_string(), "Aux".to_string(), true)));
    s.toggle_aux();
    assert!(!s.aux_visible());
    s.toggle_aux();
    assert!(s.aux_visible());
    s.set_aux_named("resp", "Response", true);
    assert_eq!(s.aux_info(), Some(("resp".to_string(), "Response".to_string(), true)));
    s.set_aux_named("resp", "Response", false);
    assert_eq!(s.aux_info(), None);
    s.set_aux(true);
    s.clear_aux();
    assert_eq!(s.aux_info(), None);
}

#[test]
fn resolves_the_displayed_panel() {
    let mut a = FixedPanel::new("a", "A");
    a.open = false;
    let slot = vec![a, FixedPanel::new("b", "B")];
    assert_eq!(DockShell::resolve_active_id(&slot, Some(&"a".to_string())).as_deref(), Some("b"));
    assert_eq!(DockShell::resolve_active_id(&slot, Some(&"b".to_string())).as_deref(), Some("b"));
    assert_eq!(DockShell::resolve_active_id(&slot, None).as_deref(), Some("b"));
    assert_eq!(DockShell::resolve_active_id(&vec![], None), None);
}

#[test]
fn drop_policy() {
    let veto = |a: u64, b: u64| a + b != 7;
    let reorder = DndPolicy::reorder_only();
    assert!(reorder.accepts(1, 1, None::<fn(u64, u64) -> bool>));
    assert!(!reorder.accepts(1, 2, None::<fn(u64, u64) -> bool>));
    assert!(!DndPolicy::disabled().accepts(1, 1, None::<fn(u64, u64) -> bool>));
    let open = DndPolicy::permissive();
    assert!(open.accepts(1, 2, None::<fn(u64, u64) -> bool>));
    assert!(!open.accepts(3, 4, Some(veto)));
    assert!(open.accepts(3, 5, Some(veto)));
    assert!(reorder.area_locked() && !open.area_locked());
    assert!(!reorder.move_allowed(true) && reorder.move_allowed(false));
    assert!(!reorder.drop_indicator_shown(true) && reorder.drop_indicator_shown(false));
    assert!(!DndPolicy::disabled().drop_indicator_shown(false));
    assert!(open.split_handle_shown());
    assert_eq!(DndPolicy::default_policy(), reorder);
}

fn panel(name: &str, closable: bool) -> TabPanel {
    TabPanel { name: name.into(), closable }
}

#[test]
fn tab_strip_plans() {
    let opts = SkinOptions::default_options();
    // a locked single panel gets no strip
    assert!(plan_tab_bar(&vec![panel("files", false)], 0, false, opts, false, true).is_none());
    // the keep-alive tab is never shown but keeps the last tab closable
    let panels = vec![panel("empty-tab", false), panel("req", true), panel("env", true)];
    let plan = plan_tab_bar(&panels, 2, false, opts, false, true).unwrap();
    assert_eq!(plan.tabs.len(), 2);
    assert_eq!(plan.tabs[0].index, 1);
    assert_eq!(plan.tabs[1].index, 2);
    assert!(plan.tabs[1].selected && !plan.tabs[0].selected);
    assert!(plan.tabs[0].show_close && plan.tabs[1].show_close);
    assert_eq!(plan.selected_pos, Some(1));
    assert!(plan.add_button);
    // without the keep-alive tab the last group's tabs cannot be closed
    let panels = vec![panel("req", true)];
    let plan = plan_tab_bar(&panels, 0, false, opts, true, true).unwrap();
    assert!(!plan.tabs[0].show_close);
    assert!(!plan.add_button);
    let plan = plan_tab_bar(&vec![panel("empty-tab", false)], 0, false, opts, false, false).unwrap();
    assert!(plan.tabs.is_empty());
    assert_eq!(plan.selected_pos, None);
    assert!(!plan.add_button);
}

#[test]
fn toggling_twice_restores_open_state_and_shows_the_panel() {
    let mut s = shell_with_panels();
    let was_open = s.is_panel_open("files");
    s.toggle_panel("files");
    s.toggle_panel("files");
    assert_eq!(s.is_panel_open("files"), was_open);
    assert_eq!(s.active_panel_id(Side::Left).as_deref(), Some("files"));
    let envs_open = s.is_panel_open("envs");
    s.toggle_panel("envs");
    s.toggle_panel("envs");
    assert_eq!(s.is_panel_open("envs"), envs_open);
    assert_eq!(open_ids(&s, Side::Right), vec!["outline"]);
}

#[test]
fn side_panels_mark_one_displayed_open_panel() {
    let s = shell_with_panels();
    for side in [Side::Left, Side::Right] {
        let v = s.side_panels(side);
        let open = v.iter().filter(|i| i.open).count();
        let active = v.iter().filter(|i| i.active).count();
        assert!(open <= 1);
        assert_eq!(active, if v.iter().any(|i| i.open) { 1 } else { 0 });
        assert!(v.iter().all(|i| !i.active || i.open));
    }
}

#[test]
fn toggle_row_lists_panels_swap_and_aux() {
    let mut s = shell_with_panels();
    s.set_aux_named("response", "Response", true);
    let b = dock_toggles(&s);
    assert_eq!(b.len(), 8);
    assert!(matches!(&b[0], DockButton::TogglePanel { id, label, toggled } if id == "files" && label == "Files" && !*toggled));
    assert!(matches!(&b[1], DockButton::MoveToSide { id, label, to } if id == "files" && label == "L" && *to == Side::Right));
    assert!(matches!(&b[2], DockButton::TogglePanel { id, toggled, .. } if id == "envs" && *toggled));
    assert!(matches!(&b[5], DockButton::MoveToSide { id, label, to } if id == "outline" && label == "R" && *to == Side::Left));
    assert!(matches!(&b[6], DockButton::SwapSides));
    assert!(matches!(&b[7], DockButton::ToggleAux { id, toggled, .. } if id == "response" && *toggled));
    s.clear_aux();
    assert_eq!(dock_toggles(&s).len(), 7);
}

#[test]
fn toggling_twice_closes_a_panel_open_without_being_shown() {
    let mut s = DockShell::new();
    s.set_panel(Side::Left, FixedPanel { id: "x".into(), label: "X".into(), open: false });
    s.set_panel(Side::Right, FixedPanel::new("x", "X"));
    s.remove_panel("x");
    assert!(s.is_panel_open("x"));
    assert_eq!(s.active_panel_id(Side::Right), None);
    s.toggle_panel("x");
    s.toggle_panel("x");
    assert!(!s.is_panel_open("x"));
    assert_eq!(s.active_panel_id(Side::Right).as_deref(), Some("x"));
}
