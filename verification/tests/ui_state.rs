use arc_client::footer::{Footer, SidebarDock};
use arc_client::icons::IconName;
use arc_client::panel_icons::IconName as PanelIcon;

#[test]
fn icon_paths_use_kebab_case() {
    assert_eq!(IconName::ArrowDown.path(), "icons/arrow-down.svg");
    assert_eq!(IconName::X.as_ref(), "x");
    assert_eq!(IconName::Undo2.as_ref(), "undo2");
    assert_eq!(IconName::SlidersHorizontal.path(), "icons/sliders-horizontal.svg");
    assert_eq!(PanelIcon::WindowRestore.path(), "icons/window-restore.svg");
}

#[test]
fn footer_setters_report_changes() {
    let mut f = Footer::new();
    assert!(!f.file_panel_open() && !f.env_panel_open() && !f.response_open());
    assert_eq!(f.file_panel_dock(), SidebarDock::Left);
    assert_eq!(f.env_panel_dock(), SidebarDock::Right);
    assert!(f.set_file_panel_collapsed(false));
    assert!(!f.set_file_panel_collapsed(false));
    assert!(f.file_panel_open());
    assert!(f.set_env_panel_dock(SidebarDock::Left));
    assert!(!f.set_env_panel_dock(SidebarDock::Left));
    assert!(!f.show_response_toggle());
    assert!(f.set_show_toggle(true));
    assert!(f.show_response_toggle());
    assert!(f.set_response_collapsed(false) && f.response_open());
    assert!(f.set_env_panel_collapsed(false) && f.env_panel_open());
    assert!(f.set_file_panel_dock(SidebarDock::Right));
}
