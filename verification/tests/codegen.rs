use arc_client::codegen::CodeScreen;
use arc_client::request::{AuthPayload, HttpRequest};

fn sample() -> HttpRequest {
    HttpRequest::new("GET", "https://a.io")
        .query("q", "a b")
        .header("Accept", "*/*")
        .auth(AuthPayload::Bearer { token: "t".to_string() })
}

#[test]
fn encodes_urls() {
    assert_eq!(CodeScreen::url_encode("a b/c~é"), "a%20b%2Fc~%C3%A9");
    assert_eq!(CodeScreen::full_url(&HttpRequest::new("GET", "")), "http://localhost");
    let r = HttpRequest::new("GET", "https://x.io?a=1").query("b", "2");
    assert_eq!(CodeScreen::full_url(&r), "https://x.io?a=1&b=2");
    assert_eq!(CodeScreen::full_url(&sample()), "https://a.io?q=a%20b");
}

#[test]
fn escapes() {
    assert_eq!(CodeScreen::esc_shell("it's"), "it'\\''s");
    assert_eq!(CodeScreen::esc_dq("a\"b\\c\nd\re"), "a\\\"b\\\\c\\nd\\re");
    assert_eq!(CodeScreen::esc_rust("\"\\"), "\\\"\\\\");
    assert!(CodeScreen::is_json("  [1]"));
    assert!(CodeScreen::is_json("{}"));
    assert!(!CodeScreen::is_json("x"));
    assert!(!CodeScreen::is_json(""));
}

#[test]
fn curl_snippet() {
    assert_eq!(
        CodeScreen::to_curl(&sample()),
        "curl -X GET \"https://a.io?q=a%20b\" \\\n  -H \"Accept: */*\" \\\n  -H \"Authorization: Bearer t\""
    );
    let r = HttpRequest::new("POST", "https://b.io")
        .auth(AuthPayload::Basic { username: "u".into(), password: "p".into() })
        .body("it's");
    assert_eq!(
        CodeScreen::to_curl(&r),
        "curl -X POST \"https://b.io\" \\\n  -u \"u:p\" \\\n  --data-raw 'it'\\''s'"
    );
}

#[test]
fn fetch_and_axios_snippets() {
    assert_eq!(
        CodeScreen::to_fetch(&sample()),
        "fetch(\"https://a.io?q=a%20b\", {\n  method: \"GET\",\n  headers: {\n    \"Accept\": \"*/*\",\n    \"Authorization\": \"Bearer t\",\n  },\n});"
    );
    assert_eq!(
        CodeScreen::to_axios(&sample()),
        "axios({\n  method: \"get\",\n  url: \"https://a.io?q=a%20b\",\n  headers: {\n    \"Accept\": \"*/*\",\n    \"Authorization\": \"Bearer t\",\n  }\n});"
    );
    let r = HttpRequest::new("POST", "https://b.io").body(" {\"a\":1} ");
    assert_eq!(
        CodeScreen::to_axios(&r),
        "axios({\n  method: \"post\",\n  url: \"https://b.io\",\n  data: {\"a\":1}\n});"
    );
    assert_eq!(
        CodeScreen::to_fetch(&HttpRequest::new("GET", "https://b.io")),
        "fetch(\"https://b.io\", {\n  method: \"GET\",\n});"
    );
}

#[test]
fn python_snippet() {
    assert_eq!(
        CodeScreen::to_python(&sample()),
        "import requests\n\nurl = \"https://a.io?q=a%20b\"\nheaders = {\n    \"Accept\": \"*/*\",\n    \"Authorization\": \"Bearer t\",\n}\nresponse = requests.request(\"GET\", url, headers=headers)\nprint(response.status_code)\nprint(response.text)\n"
    );
    let r = HttpRequest::new("POST", "https://b.io")
        .auth(AuthPayload::Basic { username: "u".into(), password: "p".into() })
        .body("x=1");
    assert_eq!(
        CodeScreen::to_python(&r),
        "import requests\n\nurl = \"https://b.io\"\nheaders = {}\ndata = \"x=1\"\nresponse = requests.request(\"POST\", url, headers=headers, data=data, auth=(\"u\", \"p\"))\nprint(response.status_code)\nprint(response.text)\n"
    );
}

#[test]
fn rust_snippet() {
    assert_eq!(
        CodeScreen::to_rust(&sample()),
        "let client = reqwest::blocking::Client::new();\nlet res = client.get(\"https://a.io?q=a%20b\")\n    .header(\"Accept\", \"*/*\")\n    .bearer_auth(\"t\")\n    .send()?;\nprintln!(\"{}\", res.text()?);\n"
    );
    let r = HttpRequest::new("purge", "https://b.io");
    assert_eq!(
        CodeScreen::to_rust(&r),
        "let client = reqwest::blocking::Client::new();\nlet res = client.request(reqwest::Method::from_bytes(b\"PURGE\").unwrap(), \"https://b.io\")\n    .send()?;\nprintln!(\"{}\", res.text()?);\n"
    );
}

#[test]
fn code_screen_selection() {
    let mut screen = CodeScreen::new_with_request(&sample());
    assert_eq!(screen.current_code(), CodeScreen::to_curl(&sample()));
    assert_eq!(screen.select_label("Python"), Some(3));
    assert_eq!(screen.current_code(), CodeScreen::to_python(&sample()));
    assert_eq!(screen.select_label("Go"), None);
    assert_eq!(screen.current_code(), CodeScreen::to_python(&sample()));
    assert_eq!(CodeScreen::lang_label(0), "cURL");
    assert_eq!(CodeScreen::lang_language(2), "javascript");
    assert_eq!(CodeScreen::generate_all(&sample()).len(), 5);
    let fh = CodeScreen::fetch_headers(&sample());
    assert_eq!(fh, vec!["    \"Accept\": \"*/*\",", "    \"Authorization\": \"Bearer t\","]);
}
