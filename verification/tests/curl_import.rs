use arc_client::curl::{CurlError, CurlRequest};
use arc_client::model::AuthType;

fn pairs(v: &[(&str, &str)]) -> Vec<(String, String)> {
    v.iter().map(|(k, x)| (k.to_string(), x.to_string())).collect()
}

#[test]
fn detects_curl_commands() {
    assert!(CurlRequest::is_curl_command("  curl https://x.io"));
    assert!(CurlRequest::is_curl_command("curl -X GET a"));
    assert!(!CurlRequest::is_curl_command("curly braces"));
    assert!(!CurlRequest::is_curl_command("wget https://x.io"));
    assert!(!CurlRequest::is_curl_command("curl"));
}

#[test]
fn tokenizes_quotes_escapes_and_continuations() {
    let words = CurlRequest::tokenize("curl 'a b' \"c\\\"d\" e\\ f \\\n  g");
    assert_eq!(words, vec!["curl", "a b", "c\"d", "e f", "g"]);
    let words = CurlRequest::tokenize("curl \"x\\ny\"");
    assert_eq!(words, vec!["curl", "x\ny"]);
    assert!(CurlRequest::tokenize("   ").is_empty());
}

#[test]
fn parses_bearer_query_and_json_body() {
    let cmd = "curl -X post 'https://api.example.com/users?page=2&q' -H 'Content-Type: application/json' -H 'Authorization: Bearer abc123' -d '{\"name\":\"x\"}'";
    let r = CurlRequest::parse(cmd).unwrap();
    assert_eq!(r.url, "https://api.example.com/users");
    assert_eq!(r.method, "POST");
    assert_eq!(r.params, pairs(&[("page", "2"), ("q", "")]));
    assert_eq!(r.headers, pairs(&[("Content-Type", "application/json")]));
    assert_eq!(r.auth_type, AuthType::Bearer);
    assert_eq!(r.token, "abc123");
    assert_eq!(r.body_type, "JSON");
    assert_eq!(r.body, "{\"name\":\"x\"}");
}

#[test]
fn parses_json_flag_and_basic_user() {
    let r = CurlRequest::parse("curl --json '{\"a\":1}' -u user:pass https://x.io").unwrap();
    assert_eq!(r.url, "https://x.io");
    assert_eq!(r.method, "POST");
    assert_eq!(r.headers, pairs(&[("Content-Type", "application/json")]));
    assert_eq!(r.auth_type, AuthType::Basic);
    assert_eq!(r.username, "user");
    assert_eq!(r.password, "pass");
    assert_eq!(r.body_type, "JSON");
    assert_eq!(r.body, "{\"a\":1}");
}

#[test]
fn get_flag_moves_urlencoded_data_to_query() {
    let r = CurlRequest::parse("curl -G --data-urlencode 'q=hello world' https://s.io/search").unwrap();
    assert_eq!(r.method, "GET");
    assert_eq!(r.params, pairs(&[("q", "hello world")]));
    assert_eq!(r.body, "");
    assert_eq!(r.body_type, "Text");
    assert_eq!(r.auth_type, AuthType::NoAuth);
}

#[test]
fn joins_data_and_cookies() {
    let r = CurlRequest::parse("curl -d a=1 --data b=2 -b x=1 -b y=2 https://c.io").unwrap();
    assert_eq!(r.body, "a=1&b=2");
    assert_eq!(r.method, "POST");
    assert_eq!(r.headers, pairs(&[("Cookie", "x=1; y=2")]));
    assert_eq!(r.body_type, "Text");
}

#[test]
fn skips_flags_with_values() {
    let r = CurlRequest::parse("curl --max-time 5 https://t.io").unwrap();
    assert_eq!(r.url, "https://t.io");
    let r = CurlRequest::parse("curl --max-time -v https://t.io").unwrap();
    assert_eq!(r.url, "https://t.io");
    let r = CurlRequest::parse("curl --url https://u.io extra").unwrap();
    assert_eq!(r.url, "https://u.io");
}

#[test]
fn reports_each_error() {
    assert_eq!(CurlRequest::parse("wget https://x.io").err(), Some(CurlError::NotCurl));
    assert_eq!(CurlRequest::parse("").err(), Some(CurlError::NotCurl));
    assert_eq!(CurlRequest::parse("curl -X").err(), Some(CurlError::MissingValue));
    assert_eq!(CurlRequest::parse("curl -v").err(), Some(CurlError::NoUrl));
}

#[test]
fn small_helpers() {
    assert_eq!(CurlRequest::split_kv("a=b=c"), ("a".to_string(), "b=c".to_string()));
    assert_eq!(CurlRequest::split_kv("flag"), ("flag".to_string(), String::new()));
    assert!(CurlRequest::takes_value("--proxy"));
    assert!(!CurlRequest::takes_value("-v"));
    let mut h = pairs(&[("COOKIE", "a=1")]);
    CurlRequest::push_cookie(&mut h, "b=2".to_string());
    assert_eq!(h, pairs(&[("COOKIE", "a=1; b=2")]));
    let mut h = pairs(&[("content-type", "text/plain")]);
    CurlRequest::upsert_ct(&mut h, "application/json");
    assert_eq!(h, pairs(&[("content-type", "text/plain")]));
    let mut h = Vec::new();
    CurlRequest::upsert_ct(&mut h, "application/json");
    assert_eq!(h, pairs(&[("Content-Type", "application/json")]));
    let args: Vec<String> = vec!["curl".into(), "-X".into()];
    let mut i = 1usize;
    assert_eq!(CurlRequest::next(&args, &mut i).err(), Some(CurlError::MissingValue));
}

#[test]
fn detected_commands_are_never_refused_as_not_curl() {
    for c in ["curl ", "  curl -X", "\tcurl --url", "curl https://a.test", "curl   -H 'A: b'"] {
        assert!(CurlRequest::is_curl_command(c));
        assert!(!matches!(CurlRequest::parse(c), Err(CurlError::NotCurl)));
    }
    assert!(matches!(CurlRequest::parse("  curl -X"), Err(CurlError::MissingValue)));
    assert!(matches!(CurlRequest::parse("curl -H 'A: b'"), Err(CurlError::NoUrl)));
}
