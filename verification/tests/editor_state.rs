use arc_client::curl::CurlRequest;
use arc_client::http::error_response;
use arc_client::model::{Auth, AuthType, Body, FileContent, KeyValue};
use arc_client::playground::{
    body_text, content_eq, content_from_import, copy_content, Headers, request_from_content, QueryParams, RequestPlayground, ResponsePanel,
};
use arc_client::request::AuthPayload;
use arc_client::request_file::new_request_file;
use arc_client::tab_manager::TabManager;

fn kv(k: &str, v: &str, active: bool) -> KeyValue {
    KeyValue { key: k.into(), value: v.into(), active }
}

fn triples(rows: &[KeyValue]) -> Vec<(String, String, bool)> {
    rows.iter().map(|r| (r.key.clone(), r.value.clone(), r.active)).collect()
}

fn sample() -> FileContent {
    FileContent {
        name: "users".into(),
        url: "https://api.test/users".into(),
        method: "POST".into(),
        params: vec![kv("page", "1", true), kv("debug", "1", false)],
        headers: vec![kv("Accept", "application/json", true), kv("X-Off", "x", false)],
        auth: Auth {
            auth_type: AuthType::Bearer,
            username: "u".into(),
            password: "p".into(),
            token: "tok".into(),
        },
        body: Body { body_type: "JSON".into(), body: "{\"a\":1}".into() },
    }
}

#[test]
fn row_table_edits() {
    let mut t = QueryParams::new();
    assert!(t.rows().is_empty());
    t.add_row();
    assert_eq!(triples(&t.rows()), vec![("".to_string(), "".to_string(), true)]);
    t.edit_row(0, "page", "2");
    t.add_row();
    t.edit_row(1, "q", "rust");
    t.set_row_active(1, false);
    assert_eq!(
        triples(&t.rows()),
        vec![("page".to_string(), "2".to_string(), true), ("q".to_string(), "rust".to_string(), false)]
    );
    assert_eq!(t.active_params(), vec![("page".to_string(), "2".to_string())]);
    t.set_row_active(5, false);
    t.edit_row(9, "x", "y");
    t.remove_row(7);
    assert_eq!(t.rows().len(), 2);
    t.remove_row(0);
    assert_eq!(triples(&t.rows()), vec![("q".to_string(), "rust".to_string(), false)]);
}

#[test]
fn row_table_add_then_remove_last_restores() {
    let mut t = QueryParams::new();
    t.load_from_json(Some(vec![kv("a", "1", true), kv("b", "2", false)]));
    let before = triples(&t.rows());
    t.add_row();
    t.remove_row(2);
    assert_eq!(triples(&t.rows()), before);
}

#[test]
fn row_table_load_keeps_rows_without_list() {
    let mut t = QueryParams::new();
    t.load_from_json(Some(vec![kv("a", "1", true)]));
    t.load_from_json(None);
    assert_eq!(triples(&t.rows()), vec![("a".to_string(), "1".to_string(), true)]);
    t.load_from_json(Some(vec![]));
    assert!(t.rows().is_empty());
}

#[test]
fn content_equality_sees_every_field() {
    let a = sample();
    let b = copy_content(&a);
    assert!(content_eq(&a, &b));
    let mut c = copy_content(&a);
    c.headers[1].active = true;
    assert!(!content_eq(&a, &c));
    let mut d = copy_content(&a);
    d.auth.auth_type = AuthType::Basic;
    assert!(!content_eq(&a, &d));
    let mut e = copy_content(&a);
    e.body.body_type = "Text".into();
    assert!(!content_eq(&a, &e));
}

#[test]
fn request_from_content_sends_active_rows_and_auth() {
    let r = request_from_content(&sample());
    assert_eq!(r.method, "POST");
    assert_eq!(r.url, "https://api.test/users");
    assert_eq!(r.query_params, vec![("page".to_string(), "1".to_string())]);
    assert_eq!(r.headers, vec![("Accept".to_string(), "application/json".to_string())]);
    assert_eq!(r.body, "{\"a\":1}");
    assert!(matches!(r.auth, AuthPayload::Bearer { ref token } if token == "tok"));

    let mut basic = sample();
    basic.auth.auth_type = AuthType::Basic;
    let r = request_from_content(&basic);
    assert!(matches!(r.auth, AuthPayload::Basic { ref username, ref password } if username == "u" && password == "p"));

    let mut none = sample();
    none.auth.auth_type = AuthType::NoAuth;
    assert!(matches!(request_from_content(&none).auth, AuthPayload::NoAuth));
}

#[test]
fn draft_tracks_unsaved_changes() {
    let mut d = RequestPlayground::new(new_request_file(""));
    assert_eq!(d.tab_name(), "Untitled");
    assert_eq!(d.path(), None);
    assert!(!d.is_dirty());

    let current = d.current_content(
        "https://x.test".into(),
        "GET".into(),
        vec![],
        vec![],
        Auth { auth_type: AuthType::NoAuth, username: "".into(), password: "".into(), token: "".into() },
        Body { body_type: "JSON".into(), body: "".into() },
    );
    assert_eq!(current.name, "");
    d.evaluate_dirty(&current);
    assert!(d.is_dirty());

    d.save(copy_content(&current), true);
    assert!(!d.is_dirty());
    d.evaluate_dirty(&current);
    assert!(!d.is_dirty());

    d.mark_dirty(true);
    assert!(d.is_dirty());
    d.load(sample());
    assert!(!d.is_dirty());
    assert_eq!(d.snapshot().method, "POST");
}

#[test]
fn draft_rename_retargets_the_file() {
    let mut d = RequestPlayground::new(sample());
    d.set_path("/w/users.json".into());
    d.rename_file("people.json", "/w/people.json".into());
    assert_eq!(d.tab_name(), "people");
    assert_eq!(d.snapshot().name, "people");
    assert_eq!(d.path(), Some("/w/people.json".to_string()));
    d.rename_file("notes", "/w/notes".into());
    assert_eq!(d.tab_name(), "notes");
}

#[test]
fn draft_stored_method_and_tabs() {
    let mut d = RequestPlayground::new(sample());
    assert_eq!(d.stored_method(true, "PUT"), "PUT");
    assert_eq!(d.stored_method(false, "PUT"), "POST");
    assert_eq!(d.selected_tab(), 0);
    d.select_tab(2);
    assert_eq!(d.selected_tab(), 2);
    d.set_tab_name("Other".into());
    assert_eq!(d.tab_name(), "Other");
}

#[test]
fn draft_pending_request_can_be_cancelled() {
    let rt = tokio::runtime::Runtime::new().unwrap();
    let handle = rt.spawn(std::future::pending::<()>());
    let mut d = RequestPlayground::new(sample());
    assert!(!d.is_sending());
    d.set_pending(handle.abort_handle());
    assert!(d.is_sending());
    d.cancel_pending();
    assert!(!d.is_sending());
    let joined = rt.block_on(handle);
    assert!(joined.unwrap_err().is_cancelled());
    d.clear_pending();
    assert!(!d.is_sending());
}

#[test]
fn tab_manager_open_close_select() {
    let mut t = TabManager::new();
    assert!(!t.has_tabs());
    assert_eq!(t.selected_index(), 0);
    assert!(t.activate_tab(7, "users".into(), "GET".into()));
    assert!(t.activate_tab(3, "login".into(), "POST".into()));
    assert!(!t.activate_tab(7, "ignored".into(), "PUT".into()));
    assert_eq!(t.active_tab_id(), Some(7));
    assert_eq!(t.tab_ids(), vec![7, 3]);
    assert_eq!(t.selected_index(), 0);
    assert_eq!(t.tab_name(7), Some("users".to_string()));

    t.rename_tab(3, "sign-in".into());
    assert_eq!(t.tab_name(3), Some("sign-in".to_string()));
    t.rename_tab(99, "nothing".into());
    assert_eq!(t.tab_ids(), vec![7, 3]);

    assert_eq!(t.select_index(1), Some(3));
    assert_eq!(t.active_tab_id(), Some(3));
    assert_eq!(t.select_index(5), None);
    assert_eq!(t.active_tab_id(), Some(3));

    t.close_tab(3);
    assert_eq!(t.tab_ids(), vec![7]);
    assert_eq!(t.active_tab_id(), Some(7));
    t.close_tab(7);
    assert!(!t.has_tabs());
    assert_eq!(t.active_tab_id(), None);
}

#[test]
fn tab_manager_close_undoes_open_and_untitled() {
    let mut t = TabManager::new();
    t.activate_tab(1, "a".into(), "GET".into());
    t.activate_tab(2, "b".into(), "GET".into());
    let before = t.tab_ids();
    t.activate_tab(9, "c".into(), "GET".into());
    t.close_tab(9);
    assert_eq!(t.tab_ids(), before);
    assert_eq!(t.active_tab_id(), Some(1));

    t.add_untitled(40);
    assert_eq!(t.active_tab_id(), Some(40));
    assert_eq!(t.tab_name(40), Some("Untitled".to_string()));
    t.add_untitled(1);
    assert_eq!(t.tab_ids(), vec![1, 2, 40]);
    assert_eq!(t.tab_name(1), Some("Untitled".to_string()));
    assert_eq!(t.active_tab_id(), Some(1));
}

#[test]
fn body_text_pretty_prints_json_only() {
    assert_eq!(body_text("{\"a\":1,\"b\":[true]}"), "{\n  \"a\": 1,\n  \"b\": [\n    true\n  ]\n}");
    assert_eq!(body_text("plain text"), "plain text");
    assert_eq!(body_text("{\"a\":"), "{\"a\":");
    assert_eq!(body_text(""), "");
}

#[test]
fn response_pane_shows_responses() {
    let mut p = ResponsePanel::new();
    assert!(!p.is_shown());
    assert!(p.response().is_none());
    p.toggle();
    assert!(p.is_shown());
    p.toggle();
    assert!(!p.is_shown());
    p.open();
    assert!(p.is_shown());
    p.select_tab(1);
    p.toggle();
    let mut r = error_response("boom");
    r.body.body = "[1,2]".into();
    p.set_response(r);
    assert!(p.is_shown());
    assert_eq!(p.selected_tab(), 1);
    assert_eq!(p.body(), "[\n  1,\n  2\n]");
    assert_eq!(p.response().unwrap().status_code, 0);
}

#[test]
fn curl_import_loads_into_the_editor() {
    let import = CurlRequest::parse("curl -X PUT 'https://a.test/x?k=v' -H 'Accept: text/plain' -d 'hi'").unwrap();
    let c = content_from_import("draft", &import);
    assert_eq!(c.name, "draft");
    assert_eq!(c.method, "PUT");
    assert_eq!(c.url, "https://a.test/x");
    assert_eq!(triples(&c.params), vec![("k".to_string(), "v".to_string(), true)]);
    assert_eq!(triples(&c.headers), vec![("Accept".to_string(), "text/plain".to_string(), true)]);
    assert_eq!(c.body.body, "hi");
    assert_eq!(c.body.body_type, "Text");

    let odd = CurlRequest::parse("curl -X FOO https://a.test").unwrap();
    assert_eq!(content_from_import("", &odd).method, "GET");
}

#[test]
fn headers_table_edits() {
    let mut h = Headers::new();
    h.add_row();
    h.edit_row(0, "Accept", "*/*");
    h.add_row();
    h.edit_row(1, "X-Debug", "1");
    h.set_row_active(1, false);
    assert_eq!(h.active_headers(), vec![("Accept".to_string(), "*/*".to_string())]);
    h.remove_row(0);
    assert_eq!(triples(&h.rows()), vec![("X-Debug".to_string(), "1".to_string(), false)]);
    h.load_from_json(None);
    assert_eq!(h.rows().len(), 1);
    h.load_from_json(Some(vec![kv("A", "b", true)]));
    assert_eq!(triples(&h.rows()), vec![("A".to_string(), "b".to_string(), true)]);
}

#[test]
fn failed_save_keeps_the_editor_dirty() {
    let mut d = RequestPlayground::new(sample());
    d.mark_dirty(true);
    d.save(new_request_file("other"), false);
    assert!(d.is_dirty());
    assert_eq!(d.snapshot().name, "users");
    d.save(new_request_file("other"), true);
    assert!(!d.is_dirty());
    assert_eq!(d.snapshot().name, "other");
}

#[test]
fn send_request_opens_the_response_panel() {
    let d = RequestPlayground::new(sample());
    let mut panel = ResponsePanel::new();
    let r = d.send_request(&sample(), &mut panel);
    assert!(panel.is_shown());
    assert_eq!(r.method, "POST");
    assert_eq!(r.query_params, vec![("page".to_string(), "1".to_string())]);
}

#[test]
fn auth_and_body_accessors() {
    let c = sample();
    assert_eq!(c.auth.auth_type(), AuthType::Bearer);
    assert_eq!(c.auth.basic_auth_values(), ("u".to_string(), "p".to_string()));
    assert_eq!(c.auth.bearer_auth_value(), "tok");
    assert_eq!(c.body.value(), "{\"a\":1}");
    assert_eq!(c.body.body_type(), "JSON");
}
