use arc_client::env_file::{EnvData, Environment};
use arc_client::http::{
    RequestError, RequestStats, active_rows, auth_payload, build_response, error_response,
    header_text, method_at, method_row, prepare_request, prepare_request_as_written, request_stats, selected_method,
    status_text,
};
use arc_client::model::{AuthType, KeyValue};
use arc_client::request::{AuthPayload, HttpRequest};

fn data() -> EnvData {
    EnvData {
        active_environment: Some("dev".into()),
        environments: vec![Environment {
            name: "dev".into(),
            variables: vec![
                KeyValue { key: "host".into(), value: "api.io".into(), active: true },
                KeyValue { key: "tok".into(), value: "s3cret".into(), active: true },
                KeyValue { key: "bad".into(), value: "a\nb".into(), active: true },
            ],
        }],
    }
}

#[test]
fn refuses_invalid_methods() {
    let r = HttpRequest::new("GE T", "https://x.io");
    assert_eq!(prepare_request(&data(), &r).err(), Some(RequestError::InvalidMethod));
    let r = HttpRequest::new("", "https://x.io");
    assert_eq!(prepare_request(&data(), &r).err(), Some(RequestError::InvalidMethod));
    let r = HttpRequest::new("PURGE", "https://x.io");
    assert!(prepare_request(&data(), &r).is_ok());
}

#[test]
fn interpolates_everything_sent() {
    let r = HttpRequest::new("POST", "https://{{host}}/v1")
        .query("key", "{{tok}}")
        .header("X-Token", "{{tok}}")
        .body("{\"t\":\"{{tok}}\"}")
        .auth(AuthPayload::Bearer { token: "{{tok}}".into() });
    let p = prepare_request(&data(), &r).unwrap();
    assert_eq!(p.method, "POST");
    assert_eq!(p.url, "https://api.io/v1");
    assert_eq!(p.body.as_deref(), Some("{\"t\":\"s3cret\"}"));
    assert_eq!(p.headers, vec![("x-token".to_string(), "s3cret".to_string())]);
    assert_eq!(p.query, Some(vec![("key".to_string(), "s3cret".to_string())]));
    match p.auth {
        AuthPayload::Bearer { token } => assert_eq!(token, "s3cret"),
        _ => panic!("expected bearer credentials"),
    }
}

#[test]
fn filters_and_merges_headers() {
    let r = HttpRequest::new("GET", "https://x.io")
        .header("Accept", "text/plain")
        .header("bad name", "x")
        .header("X-Bad", "{{bad}}")
        .header("ACCEPT", "application/json")
        .header("X-Tab", "a\tb");
    let p = prepare_request(&data(), &r).unwrap();
    assert_eq!(
        p.headers,
        vec![
            ("accept".to_string(), "application/json".to_string()),
            ("x-tab".to_string(), "a\tb".to_string()),
        ]
    );
    assert_eq!(p.body, None);
    assert_eq!(p.query, None);
}

#[test]
fn request_sizes() {
    let headers = vec![("Accept".to_string(), "*/*".to_string()), ("é".to_string(), "x".to_string())];
    let stats = request_stats(&headers, "héllo").unwrap();
    assert_eq!(stats, RequestStats { header_size: 6 + 2 + 3 + 2 + 2 + 2 + 1 + 2, body_size: 6, size: 20 + 6 });
}

#[test]
fn response_assembly() {
    let headers = vec![
        ("content-type".to_string(), b"text/plain".to_vec()),
        ("x-bin".to_string(), vec![0xff, 0x41]),
    ];
    let request = RequestStats { header_size: 1, body_size: 2, size: 3 };
    let r = build_response(200, headers, vec![("sid".into(), "1".into())], b"hi \xc3\xa9".to_vec(), request, std::time::Duration::from_millis(5)).unwrap();
    assert_eq!(r.status_code, 200);
    assert_eq!(r.status_text, "OK");
    assert_eq!(r.headers.headers, vec![
        ("content-type".to_string(), "text/plain".to_string()),
        ("x-bin".to_string(), String::new()),
    ]);
    // "HTTP/1.1 200 OK\r\n" is 17 bytes, the headers 12+2+10+2 and 5+2+2+2, then the blank line
    assert_eq!(r.headers.response_size, 17 + 26 + 11 + 2);
    assert_eq!(r.body.body, "hi é");
    assert_eq!(r.body.response_size, 5);
    assert_eq!(r.response_size, 56 + 5);
    assert_eq!(r.request, request);
    assert_eq!(r.cookies, vec![("sid".to_string(), "1".to_string())]);
    assert_eq!(r.duration, std::time::Duration::from_millis(5));
    let r = build_response(599, vec![], vec![], b"\xff".to_vec(), request, std::time::Duration::ZERO).unwrap();
    assert_eq!(r.status_text, "Unknown");
    assert_eq!(r.body.body, "\u{fffd}");
}

#[test]
fn status_texts() {
    assert_eq!(status_text(404), "Not Found");
    assert_eq!(status_text(42), "Unknown");
}

#[test]
fn header_values_as_text() {
    assert_eq!(header_text(b"a\tb"), "a\tb");
    assert_eq!(header_text(&[0xc3, 0xa9]), "");
    assert_eq!(header_text(b"x\x7f"), "");
}

#[test]
fn failure_response() {
    let r = error_response("connection refused");
    assert_eq!(r.status_code, 0);
    assert_eq!(r.status_text, "Error");
    assert_eq!(r.body.body, "Error: connection refused");
    assert_eq!(r.response_size, 0);
    assert!(r.headers.headers.is_empty());
    assert_eq!(r.duration, std::time::Duration::ZERO);
}

#[test]
fn method_menu() {
    assert_eq!(method_at(0), "GET");
    assert_eq!(method_at(6), "OPTIONS");
    assert_eq!(method_row("DELETE"), 4);
    assert_eq!(method_row("delete"), 0);
    assert_eq!(selected_method(None), "GET");
    assert_eq!(selected_method(Some("PUT".into())), "PUT");
}

#[test]
fn credentials_and_rows() {
    match auth_payload(AuthType::Basic, "u".into(), "p".into(), "t".into()) {
        AuthPayload::Basic { username, password } => assert_eq!((username.as_str(), password.as_str()), ("u", "p")),
        _ => panic!("expected basic credentials"),
    }
    assert!(matches!(auth_payload(AuthType::NoAuth, "u".into(), "p".into(), "t".into()), AuthPayload::NoAuth));
    let rows = vec![
        KeyValue { key: "a".into(), value: "1".into(), active: true },
        KeyValue { key: "b".into(), value: "2".into(), active: false },
    ];
    assert_eq!(active_rows(&rows), vec![("a".to_string(), "1".to_string())]);
}

#[test]
fn as_written_requests_keep_placeholders() {
    let r = HttpRequest::new("POST", "{{base}}/x")
        .header("X-Key", "{{ key }}")
        .query("q", "{{q}}")
        .body("{{body}}")
        .auth(AuthPayload::Bearer { token: "{{t}}".into() });
    let p = prepare_request_as_written(&r).unwrap();
    assert_eq!(p.url, "{{base}}/x");
    assert_eq!(p.headers, vec![("x-key".to_string(), "{{ key }}".to_string())]);
    assert_eq!(p.query, Some(vec![("q".to_string(), "{{q}}".to_string())]));
    assert_eq!(p.body.as_deref(), Some("{{body}}"));
    assert!(matches!(p.auth, AuthPayload::Bearer { ref token } if token == "{{t}}"));
    assert_eq!(prepare_request_as_written(&HttpRequest::new("BAD METHOD", "u")).err(), Some(RequestError::InvalidMethod));
    assert_eq!(prepare_request_as_written(&HttpRequest::new("GET", "u")).unwrap().body, None);
}
