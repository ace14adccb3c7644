use arc_client::env_file::{
    EnvData, Environment, Workspace, active_env_variables, default_data, delete, env_file_path,
    interpolate_url, lookup, read_active, rename, save_active, set_current_workspace,
};
use arc_client::env_fs::EnvFileSystem;
use arc_client::model::KeyValue;

fn kv(k: &str, v: &str, active: bool) -> KeyValue {
    KeyValue { key: k.into(), value: v.into(), active }
}

fn env(name: &str, vars: Vec<KeyValue>) -> Environment {
    Environment { name: name.into(), variables: vars }
}

fn names(d: &EnvData) -> Vec<String> {
    d.environments.iter().map(|e| e.name.clone()).collect()
}

fn sample() -> EnvData {
    EnvData {
        active_environment: Some("dev".into()),
        environments: vec![
            env("dev", vec![kv("base", "http://localhost:3000", true), kv("token", "t1", true), kv("off", "x", false)]),
            env("prod", vec![kv("base", "https://api.io", true)]),
        ],
    }
}

#[test]
fn default_file_content() {
    let d = default_data();
    assert_eq!(d.active_environment.as_deref(), Some("local"));
    assert_eq!(names(&d), vec!["local", "production"]);
    assert!(d.environments.iter().all(|e| e.variables.is_empty()));
}

#[test]
fn active_name_falls_back_to_local() {
    let mut d = sample();
    assert_eq!(read_active(&d), "dev");
    d.active_environment = None;
    assert_eq!(read_active(&d), "local");
    save_active(&mut d, "prod");
    assert_eq!(read_active(&d), "prod");
}

#[test]
fn workspace_paths() {
    let mut ws = Workspace { path: String::new() };
    assert_eq!(env_file_path(&ws), None);
    set_current_workspace(&mut ws, "/home/me/proj");
    assert_eq!(env_file_path(&ws).as_deref(), Some("/home/me/proj/.arc/environments.json"));
    set_current_workspace(&mut ws, "/home/me/proj/");
    assert_eq!(env_file_path(&ws).as_deref(), Some("/home/me/proj/.arc/environments.json"));
}

#[test]
fn delete_moves_active_to_first_remaining() {
    let mut d = sample();
    delete(&mut d, "dev");
    assert_eq!(names(&d), vec!["prod"]);
    assert_eq!(d.active_environment.as_deref(), Some("prod"));
    delete(&mut d, "prod");
    assert!(d.environments.is_empty());
    assert_eq!(d.active_environment.as_deref(), Some("local"));
    let mut d = sample();
    delete(&mut d, "prod");
    assert_eq!(names(&d), vec!["dev"]);
    assert_eq!(d.active_environment.as_deref(), Some("dev"));
}

#[test]
fn rename_follows_active() {
    let mut d = sample();
    rename(&mut d, "dev", "development");
    assert_eq!(names(&d), vec!["development", "prod"]);
    assert_eq!(d.active_environment.as_deref(), Some("development"));
    assert_eq!(d.environments[0].variables.len(), 3);
    rename(&mut d, "prod", "production");
    assert_eq!(d.active_environment.as_deref(), Some("development"));
    rename(&mut d, "missing", "x");
    assert_eq!(names(&d), vec!["development", "production"]);
}

#[test]
fn active_variables_and_lookup() {
    let mut d = sample();
    d.environments[0].variables.push(kv("base", "http://override", true));
    let vars = active_env_variables(&d);
    assert_eq!(vars.len(), 3);
    let key: Vec<char> = "base".chars().collect();
    assert_eq!(lookup(&vars, &key).as_deref(), Some("http://override"));
    let key: Vec<char> = "off".chars().collect();
    assert_eq!(lookup(&vars, &key), None);
    d.active_environment = Some("nowhere".into());
    assert!(active_env_variables(&d).is_empty());
}

#[test]
fn interpolates_urls() {
    let d = sample();
    assert_eq!(interpolate_url(&d, "{{base}}/users"), "http://localhost:3000/users");
    assert_eq!(interpolate_url(&d, "{{ base }}/u?t={{token}}"), "http://localhost:3000/u?t=t1");
    assert_eq!(interpolate_url(&d, "{{missing}}/x"), "{{missing}}/x");
    assert_eq!(interpolate_url(&d, "{{ off }}"), "{{off}}");
    assert_eq!(interpolate_url(&d, "plain {single}"), "plain {single}");
    // a single closing brace ends the key and takes the next character with it
    assert_eq!(interpolate_url(&d, "{{base}x/y"), "http://localhost:3000/y");
    // an unclosed placeholder runs to the end
    assert_eq!(interpolate_url(&d, "a{{base"), "ahttp://localhost:3000");
}

#[test]
fn no_variables_means_no_interpolation() {
    let mut d = sample();
    d.active_environment = Some("empty".into());
    d.environments.push(env("empty", vec![kv("a", "1", false)]));
    assert_eq!(interpolate_url(&d, "{{a}}/{{ b }}"), "{{a}}/{{ b }}");
}

#[test]
fn env_file_system_fallbacks() {
    let mut d = sample();
    d.active_environment = None;
    assert_eq!(EnvFileSystem::read_active_environment(&d), "Local");
    EnvFileSystem::delete_environment(&mut d, "Local");
    assert_eq!(d.active_environment.as_deref(), Some("dev"));
    let mut d = sample();
    EnvFileSystem::rename_environment(&mut d, "dev", "stage");
    assert_eq!(EnvFileSystem::read_active_environment(&d), "stage");
    let parsed = EnvFileSystem::parse(None);
    assert_eq!(names(&parsed), vec!["local", "production"]);
}

#[test]
fn validates_active_environment() {
    let mut d = sample();
    assert_eq!(EnvFileSystem::validate_active_environment(&mut d), "dev");
    d.active_environment = Some("gone".into());
    assert_eq!(EnvFileSystem::validate_active_environment(&mut d), "dev");
    assert_eq!(d.active_environment.as_deref(), Some("dev"));
    let mut empty = EnvData { active_environment: None, environments: vec![] };
    assert_eq!(EnvFileSystem::validate_active_environment(&mut empty), "Local");
    assert_eq!(EnvFileSystem::validate_active_environment(&mut empty), "Local");
    assert_eq!(empty.active_environment.as_deref(), Some("Local"));
}

#[test]
fn env_file_system_workspace() {
    let mut fs = EnvFileSystem::new();
    assert_eq!(fs.workspace_env_path(), None);
    assert_eq!(fs.init_workspace(""), None);
    assert_eq!(fs.init_workspace("/w").as_deref(), Some("/w/.arc/environments.json"));
    fs.set_current_workspace("/v");
    assert_eq!(fs.workspace_env_path().as_deref(), Some("/v/.arc/environments.json"));
}
