use std::collections::HashMap;

use arc_client::model::row_from_fields;
use arc_client::order::{sort_names, str_lt};
use arc_client::project_tree::{
    DirTree, Node, WalkEntry, add_walked, display_name, entered_name, folder_target,
    insert_child_sorted, new_file_node, new_folder_node, remove_node_from_tree, rename_node,
    renamed_path, root_node, skipped_dir, target_id, update_node_method, copied_path, relative_path,
    MenuEntry, context_menu_entries,
};
use arc_client::tags::{TagColor, method_tag_color, status_label, status_tag_color};
use arc_client::themes::{PreviewGuard, get_themes, sort_themes, theme_at, theme_items, theme_sort_key};
use arc_client::workspace_list::{filtered_names, items_count, visible_workspace_dirs};

fn s(v: &[&str]) -> Vec<String> {
    v.iter().map(|x| x.to_string()).collect()
}

fn sample_tree() -> HashMap<usize, Node> {
    let mut nodes = HashMap::new();
    nodes.insert(1, root_node(1, "ws", "/ws", vec![2, 3]));
    nodes.insert(2, new_folder_node(2, "api", "/ws/api".into()));
    nodes.insert(3, new_file_node(3, "zeta", "/ws/zeta.json".into()));
    nodes
}

#[test]
fn string_order() {
    assert!(str_lt("abc", "abd"));
    assert!(str_lt("ab", "abc"));
    assert!(!str_lt("b", "abc"));
    assert!(!str_lt("same", "same"));
    assert!(str_lt("Z", "a"));
    assert_eq!(sort_names(s(&["beta", "Alpha", "alpha", "a"])), s(&["Alpha", "a", "alpha", "beta"]));
}

#[test]
fn theme_ordering() {
    assert_eq!(theme_sort_key("One Dark"), (5, String::new()));
    assert_eq!(theme_sort_key("Nord"), (11, "Nord".to_string()));
    let sorted = sort_themes(s(&["Nord", "One Light", "Ayu Dark", "Catppuccin", "Gruvbox Dark"]));
    assert_eq!(sorted, s(&["Ayu Dark", "Gruvbox Dark", "One Light", "Catppuccin", "Nord"]));
    let listed = get_themes(s(&["Default Dark", "One Dark", "Default Light", "Ayu Mirage"]));
    assert_eq!(listed, vec![("Ayu Mirage".to_string(), "Ayu Mirage".to_string()), ("One Dark".to_string(), "One Dark".to_string())]);
    let items = theme_items(&s(&["A", "B"]), "B");
    assert_eq!(items, vec![("A".to_string(), false), ("B".to_string(), true)]);
    assert_eq!(theme_at(&s(&["A"]), 0).as_deref(), Some("A"));
    assert_eq!(theme_at(&s(&["A"]), 1), None);
}

#[test]
fn preview_waits_for_a_settled_query() {
    let mut g = PreviewGuard::new();
    assert!(g.on_select("", 0));
    assert!(!g.on_select("gr", 1));
    assert_eq!(g.index, None);
    assert!(g.on_select("gr", 2));
    assert_eq!(g.index, Some(2));
}

#[test]
fn tag_colors() {
    assert_eq!(method_tag_color("GET"), TagColor::Green);
    assert_eq!(method_tag_color("DELETE"), TagColor::Red);
    assert_eq!(method_tag_color("get"), TagColor::Neutral);
    assert_eq!(status_tag_color(204), TagColor::Green);
    assert_eq!(status_tag_color(302), TagColor::Yellow);
    assert_eq!(status_tag_color(0), TagColor::Red);
    assert_eq!(status_label(404, "Not Found"), "404 Not Found");
    assert_eq!(status_label(0, "Error"), "0 Error");
}

#[test]
fn tree_edits() {
    let mut nodes = sample_tree();
    nodes.insert(4, new_file_node(4, "login", "/ws/login.json".into()));
    insert_child_sorted(&mut nodes, 1, 4);
    assert_eq!(nodes[&1].children, vec![2, 4, 3]);
    nodes.insert(5, new_file_node(5, "zz", "/ws/zz.json".into()));
    insert_child_sorted(&mut nodes, 1, 5);
    assert_eq!(nodes[&1].children, vec![2, 4, 3, 5]);
    assert!(update_node_method(&mut nodes, 4, "POST"));
    assert_eq!(nodes[&4].method, "POST");
    assert!(!update_node_method(&mut nodes, 99, "POST"));
    remove_node_from_tree(&mut nodes, 4);
    assert!(!nodes.contains_key(&4));
    assert_eq!(nodes[&1].children, vec![2, 3, 5]);
    assert!(rename_node(&mut nodes, 3, "omega.json", "/ws/omega.json"));
    assert_eq!(nodes[&3].name, "omega");
    assert_eq!(nodes[&3].path, "/ws/omega.json");
}

#[test]
fn targets() {
    let nodes = sample_tree();
    assert_eq!(folder_target(&nodes, Some(2)), Some(2));
    assert_eq!(folder_target(&nodes, Some(3)), Some(1));
    assert_eq!(folder_target(&nodes, Some(42)), None);
    assert_eq!(folder_target(&nodes, None), None);
    assert_eq!(target_id(Some(3), Some(2)), Some(3));
    assert_eq!(target_id(None, Some(2)), Some(2));
}

#[test]
fn names_and_paths() {
    assert_eq!(entered_name("  new file \t"), Some("new file".to_string()));
    assert_eq!(entered_name("   "), None);
    assert_eq!(display_name("login.json"), "login");
    assert_eq!(display_name("notes.txt"), "notes.txt");
    assert_eq!(display_name(".json"), "");
    assert_eq!(renamed_path("/ws/api/login.json", "auth.json"), "/ws/api/auth.json");
    assert_eq!(renamed_path("login.json", "x"), "/x");
    assert!(skipped_dir("node_modules") && skipped_dir(".arc") && !skipped_dir("src"));
}

#[test]
fn walking_builds_the_tree() {
    let mut tree = DirTree { root_ids: vec![], nodes: HashMap::new() };
    let mut known = Vec::new();
    let entry = |id: usize, path: &str, parent: &str, name: &str, is_file: bool| WalkEntry {
        id,
        path: path.into(),
        parent: Some(parent.into()),
        name: name.into(),
        is_file,
        method: if is_file { "GET".into() } else { "ignored".into() },
    };
    add_walked(&mut tree, &mut known, entry(10, "/ws/api", "/ws", "api", false));
    add_walked(&mut tree, &mut known, entry(11, "/ws/api/login.json", "/ws/api", "login.json", true));
    add_walked(&mut tree, &mut known, entry(12, "/ws/readme.md", "/ws", "readme.md", true));
    assert_eq!(tree.root_ids, vec![10, 12]);
    assert_eq!(tree.nodes[&10].children, vec![11]);
    assert_eq!(tree.nodes[&10].method, "");
    assert_eq!(tree.nodes[&11].name, "login");
    assert_eq!(tree.nodes[&11].method, "GET");
    assert_eq!(known.len(), 3);
}

#[test]
fn workspace_search() {
    let names = s(&["Alpha", "beta", "GAMMA"]);
    assert_eq!(filtered_names(&names, "a"), s(&["Alpha", "beta", "GAMMA"]));
    assert_eq!(filtered_names(&names, "MM"), s(&["GAMMA"]));
    assert_eq!(filtered_names(&names, ""), names);
    assert!(filtered_names(&names, "zz").is_empty());
    assert_eq!(items_count(&names, "be"), 3);
}

#[test]
fn rows_from_request_files() {
    let r = row_from_fields(Some("k"), None, None);
    assert_eq!((r.key.as_str(), r.value.as_str(), r.active), ("k", "", true));
    let r = row_from_fields(None, Some("v"), Some(false));
    assert_eq!((r.key.as_str(), r.value.as_str(), r.active), ("", "v", false));
}

#[test]
fn theme_order_does_not_depend_on_registry_order() {
    let a = get_themes(s(&["Zenburn", "One Light", "Default Dark", "Ayu Dark", "Monokai", "Gruvbox Dark"]));
    let b = get_themes(s(&["Monokai", "Gruvbox Dark", "Ayu Dark", "One Light", "Default Dark", "Zenburn"]));
    assert_eq!(a, b);
    let names: Vec<String> = a.into_iter().map(|(n, _)| n).collect();
    assert_eq!(names, s(&["Ayu Dark", "Gruvbox Dark", "One Light", "Monokai", "Zenburn"]));
}

#[test]
fn name_order_does_not_depend_on_input_order() {
    assert_eq!(sort_names(s(&["b", "a", "c", "a"])), sort_names(s(&["a", "c", "a", "b"])));
}

#[test]
fn relative_paths_strip_whole_components() {
    assert_eq!(relative_path("/w/api/users.json", "/w"), "api/users.json");
    assert_eq!(relative_path("/w/api/users.json", "/w/"), "api/users.json");
    assert_eq!(relative_path("/wx/a.json", "/w"), "/wx/a.json");
    assert_eq!(relative_path("/other/a.json", "/w"), "/other/a.json");
    assert_eq!(relative_path("/w", "/w"), "");
}

#[test]
fn copied_path_uses_target_then_active_node() {
    let mut nodes = std::collections::HashMap::new();
    nodes.insert(1, new_file_node(1, "users.json", "/w/api/users.json".to_string()));
    nodes.insert(2, new_file_node(2, "login.json", "/w/login.json".to_string()));
    assert_eq!(copied_path(&nodes, Some(1), Some(2), "/w", false), Some("/w/api/users.json".to_string()));
    assert_eq!(copied_path(&nodes, Some(1), Some(2), "/w", true), Some("api/users.json".to_string()));
    assert_eq!(copied_path(&nodes, None, Some(2), "/w", true), Some("login.json".to_string()));
    assert_eq!(copied_path(&nodes, None, None, "/w", true), None);
    assert_eq!(copied_path(&nodes, Some(9), Some(2), "/w", false), None);
}

#[test]
fn workspace_dirs_hide_dot_names_and_sort() {
    assert_eq!(visible_workspace_dirs(s(&["beta", ".git", "alpha", ".arc", "gamma"])), s(&["alpha", "beta", "gamma"]));
    assert!(visible_workspace_dirs(s(&[".x"])).is_empty());
}

#[test]
fn context_menu_depends_on_kind_and_root() {
    let mut nodes = std::collections::HashMap::new();
    nodes.insert(1, new_file_node(1, "a.json", "/w/a.json".to_string()));
    nodes.insert(2, root_node(2, "w", "/w", vec![1]));
    use_menu(&nodes);
}

fn use_menu(nodes: &std::collections::HashMap<usize, Node>) {
    assert_eq!(
        context_menu_entries(nodes, 1, Some(2)),
        vec![
            MenuEntry::StressTest,
            MenuEntry::CopyAsCode,
            MenuEntry::Separator,
            MenuEntry::CopyPath,
            MenuEntry::CopyRelativePath,
            MenuEntry::Separator,
            MenuEntry::Rename,
            MenuEntry::Trash,
            MenuEntry::Delete,
        ]
    );
    assert_eq!(
        context_menu_entries(nodes, 2, Some(2)),
        vec![
            MenuEntry::CreateFile,
            MenuEntry::CreateFolder,
            MenuEntry::Separator,
            MenuEntry::CopyPath,
            MenuEntry::CopyRelativePath,
            MenuEntry::Separator,
        ]
    );
    assert_eq!(context_menu_entries(nodes, 9, None).len(), 9);
}
