use arc_client::model::AuthType;
use arc_client::paths::{
    ConfigFileSystem, config_dir, config_dir_in, environments_path, folder_path, join_path,
    last_workspace, request_file_path, settings_file_path, workspace_dir, workspace_path,
};
use arc_client::request_file::{
    auth_from_fields, auth_type_at, auth_type_label, auth_type_named, auth_type_row,
    body_type_label, body_type_language, body_type_or_default, body_type_row, default_body_row,
    new_request_file, request_method,
};

#[test]
fn joins_paths_like_pathbuf() {
    assert_eq!(join_path("/a", "b"), "/a/b");
    assert_eq!(join_path("/a/", "b"), "/a/b");
    assert_eq!(join_path("", "b"), "b");
    assert_eq!(join_path("/a", "/etc"), "/etc");
    assert_eq!(config_dir_in(None), "./.arc");
    assert_eq!(config_dir_in(Some("/home/u/.config".into())), "/home/u/.config/.arc");
}

#[test]
fn application_files_live_in_the_config_dir() {
    let dir = config_dir();
    assert!(dir.ends_with("/.arc"));
    assert_eq!(settings_file_path(), format!("{dir}/settings.json"));
    assert_eq!(environments_path(), format!("{dir}/environments.json"));
    assert_eq!(workspace_path(), format!("{dir}/workspace.json"));
    assert_eq!(workspace_dir("demo"), format!("{dir}/demo"));
    assert_eq!(ConfigFileSystem::config_dir(), dir);
    assert_eq!(ConfigFileSystem::settings_path(), format!("{dir}/settings.json"));
    assert_eq!(ConfigFileSystem::workspace_path(), format!("{dir}/workspace.json"));
    assert_eq!(ConfigFileSystem::workspace_dir("w"), format!("{dir}/w"));
}

#[test]
fn new_item_paths() {
    assert_eq!(folder_path("api", "/ws"), "/ws/api");
    assert_eq!(request_file_path("login", "/ws/api"), "/ws/api/login.json");
}

#[test]
fn reopens_complete_workspaces_only() {
    assert_eq!(
        last_workspace(Some("w".into()), Some("/p".into())),
        Some(("w".to_string(), "/p".to_string()))
    );
    assert_eq!(last_workspace(Some("".into()), Some("/p".into())), None);
    assert_eq!(last_workspace(Some("w".into()), None), None);
    assert_eq!(ConfigFileSystem::read_workspace_config(None, Some("/p".into())), None);
}

#[test]
fn new_request_file_defaults() {
    let f = new_request_file("login");
    assert_eq!(f.name, "login");
    assert_eq!(f.url, "");
    assert_eq!(f.method, "GET");
    assert!(f.params.is_empty() && f.headers.is_empty());
    assert_eq!(f.auth.auth_type, AuthType::NoAuth);
    assert_eq!(f.body.body_type, "JSON");
    assert_eq!(f.body.body, "");
}

#[test]
fn request_method_is_upper_case() {
    assert_eq!(request_method(Some("post")), "POST");
    assert_eq!(request_method(Some("Patch")), "PATCH");
    assert_eq!(request_method(None), "");
}

#[test]
fn auth_scheme_mapping() {
    assert_eq!(auth_type_at(Some(1)), AuthType::Bearer);
    assert_eq!(auth_type_at(Some(2)), AuthType::Basic);
    assert_eq!(auth_type_at(Some(7)), AuthType::NoAuth);
    assert_eq!(auth_type_at(None), AuthType::NoAuth);
    assert_eq!(auth_type_row(AuthType::Basic), 2);
    assert_eq!(auth_type_label(AuthType::NoAuth), "No Auth");
    assert_eq!(auth_type_label(AuthType::Basic), "Basic Auth");
    assert_eq!(auth_type_named(Some("Bearer")), AuthType::Bearer);
    assert_eq!(auth_type_named(Some("bearer")), AuthType::NoAuth);
    let a = auth_from_fields(Some("Basic"), Some("u"), None, Some("t"));
    assert_eq!(a.auth_type, AuthType::Basic);
    assert_eq!(a.username, "u");
    assert_eq!(a.password, "");
    assert_eq!(a.token, "t");
}

#[test]
fn body_type_rows() {
    assert_eq!(body_type_row("HTML"), 2);
    assert_eq!(body_type_row("Text"), 0);
    assert_eq!(body_type_row("XML"), 1);
    assert_eq!(body_type_label(1), "JSON");
    assert_eq!(body_type_language(2), "html");
    assert_eq!(body_type_language(default_body_row()), "json");
    assert_eq!(body_type_or_default(None), "JSON");
    assert_eq!(body_type_or_default(Some("Text".into())), "Text");
}
