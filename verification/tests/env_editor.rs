use arc_client::env_file::{EnvData, Environment};
use arc_client::env_store::{EnvPanel, read_env_names};
use arc_client::env_store::{EnvPlayground, EnvironmentStore, decimal_string, delete_env, kvs_eq, variables_of};
use arc_client::model::KeyValue;

fn kv(k: &str, v: &str, active: bool) -> KeyValue {
    KeyValue { key: k.into(), value: v.into(), active }
}

#[test]
fn store_starts_with_local_and_production() {
    let s = EnvironmentStore::new();
    let names: Vec<String> = s.names();
    assert_eq!(names, vec!["Local", "Production"]);
    assert_eq!(s.active().unwrap().name, "Local");
    assert_eq!(s.selected_row(), 0);
    assert_eq!(s.resolve("{{base_url}}/users?k={{api_key}}"), "http://localhost:3000/users?k=dev-key-123");
}

#[test]
fn resolve_replaces_in_order_and_skips_inactive() {
    let mut s = EnvironmentStore::new();
    s.environments[0].variables = vec![kv("a", "{{b}}", true), kv("b", "2", true), kv("c", "3", false)];
    assert_eq!(s.resolve("{{a}}-{{c}}-{{ a }}"), "2-{{c}}-{{ a }}");
    s.active_name = None;
    assert_eq!(s.resolve("{{a}}"), "{{a}}");
}

#[test]
fn selecting_adding_and_deleting() {
    let mut s = EnvironmentStore::new();
    assert!(s.select("Production"));
    assert_eq!(s.selected_row(), 1);
    assert!(!s.select("Staging"));
    assert_eq!(s.active_name.as_deref(), Some("Production"));
    s.add_environment();
    assert_eq!(s.names(), vec!["Local", "Production", "Environment 3"]);
    assert_eq!(s.active_name.as_deref(), Some("Environment 3"));
    assert!(s.delete_active());
    assert_eq!(s.names(), vec!["Local", "Production"]);
    assert_eq!(s.active_name.as_deref(), Some("Local"));
    assert!(s.delete_active());
    assert!(!s.delete_active());
    assert_eq!(s.names(), vec!["Production"]);
    s.load(vec![]);
    assert_eq!(s.names(), vec!["Production"]);
    s.load(vec![Environment { name: "A".into(), variables: vec![] }]);
    assert_eq!(s.active_name.as_deref(), Some("A"));
    assert_eq!(decimal_string(1205).into_iter().collect::<String>(), "1205");
}

#[test]
fn editor_tracks_unsaved_changes() {
    let mut e = EnvPlayground::new("dev", vec![kv("a", "1", true)]);
    assert!(!e.is_dirty());
    e.add_variable();
    assert!(e.is_dirty());
    e.remove_variable(1);
    assert!(!e.is_dirty());
    e.set_variable_active(0, false);
    assert!(e.is_dirty());
    e.set_variable_active(0, true);
    assert!(!e.is_dirty());
    e.edit_variable(0, "a", "2");
    assert!(e.is_dirty());
    e.remove_variable(9);
    assert!(e.is_dirty());
    let mut envs = vec![
        Environment { name: "dev".into(), variables: vec![] },
        Environment { name: "prod".into(), variables: vec![kv("x", "y", true)] },
    ];
    e.save(&mut envs);
    assert!(!e.is_dirty());
    assert!(kvs_eq(&envs[0].variables, &vec![kv("a", "2", true)]));
    assert_eq!(envs[1].variables.len(), 1);
    assert!(kvs_eq(&e.current_content(), &vec![kv("a", "2", true)]));
}

#[test]
fn editor_renames() {
    let mut e = EnvPlayground::new("dev", vec![]);
    e.enable_editing();
    assert!(e.editing());
    e.set_name_text("stage");
    assert_eq!(e.commit_name(), Some(("dev".to_string(), "stage".to_string())));
    assert!(!e.editing());
    assert_eq!(e.commit_name(), None);
    e.enable_editing();
    e.set_name_text("other");
    e.disable_editing();
    assert_eq!(e.name(), "stage");
}

#[test]
fn environment_lists() {
    let envs = vec![
        Environment { name: "a".into(), variables: vec![kv("k", "v", true)] },
        Environment { name: "b".into(), variables: vec![] },
        Environment { name: "a".into(), variables: vec![] },
    ];
    assert_eq!(variables_of(&envs, "a").len(), 1);
    assert!(variables_of(&envs, "zzz").is_empty());
    let left = delete_env(&envs, "a");
    assert_eq!(left.len(), 1);
    assert_eq!(left[0].name, "b");
}

#[test]
fn env_panel_lists_copies_and_deletes() {
    let envs = vec![
        Environment { name: "Local".into(), variables: vec![kv("a", "1", true)] },
        Environment { name: "Prod".into(), variables: vec![kv("b", "2", false)] },
    ];
    assert_eq!(read_env_names(&envs), vec!["Local", "Prod"]);
    let mut p = EnvPanel::new(&envs);
    assert!(!p.is_empty());
    assert_eq!(p.env_names(), vec!["Local", "Prod"]);
    assert!(p.handle_copy_env(&envs).is_none());
    p.set_context_target("Prod".into());
    let copied = p.handle_copy_env(&envs).unwrap();
    assert_eq!(copied.len(), 1);
    assert_eq!(copied[0].key, "b");
    assert!(p.handle_copy_env(&envs).is_none());
    p.set_context_target("Gone".into());
    assert!(p.handle_copy_env(&envs).unwrap().is_empty());

    let mut data = EnvData { active_environment: Some("Prod".into()), environments: envs };
    assert_eq!(p.handle_delete_env(&mut data), None);
    p.set_context_target("Prod".into());
    assert_eq!(p.handle_delete_env(&mut data), Some("Prod".to_string()));
    assert_eq!(p.env_names(), vec!["Local"]);
    assert_eq!(data.active_environment, Some("Local".to_string()));
    p.set_context_target("Local".into());
    p.handle_delete_env(&mut data);
    assert!(p.is_empty());
    assert_eq!(data.active_environment, Some("local".to_string()));
    p.refresh(&vec![Environment { name: "X".into(), variables: vec![] }]);
    assert_eq!(p.env_names(), vec!["X"]);
}
