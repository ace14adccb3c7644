//! Code snippets for a request: cURL, Fetch, Axios, Python `requests` and
//! Rust `reqwest`.

use vstd::prelude::*;
use crate::request::{AuthPayload, AuthView, HttpRequest, HttpRequestView};
use crate::text::{join_seq, trim_seq, trim_start_seq, unicode_lower, unicode_upper};
use vstd::utf8::encode_utf8;

verus! {

// ------------------------------------------------------------------ escapes

/// Upper-case hexadecimal digit of a value below 16.
pub open spec fn hex_digit(n: u8) -> char {
    if n < 10 {
        ((n + 48) as u8) as char
    } else {
        ((n + 55) as u8) as char
    }
}

/// Bytes that percent-encoding keeps as they are.
pub open spec fn is_unreserved(b: u8) -> bool {
    ||| 0x41 <= b <= 0x5A
    ||| 0x61 <= b <= 0x7A
    ||| 0x30 <= b <= 0x39
    ||| b == 0x2D
    ||| b == 0x5F
    ||| b == 0x2E
    ||| b == 0x7E
}

/// Percent-encoding of one byte.
pub open spec fn encode_byte(b: u8) -> Seq<char> {
    if is_unreserved(b) {
        seq![b as char]
    } else if b == 0x20 {
        seq!['%', '2', '0']
    } else {
        seq!['%', hex_digit(b / 16), hex_digit(b % 16)]
    }
}

/// Percent-encoding of a byte string.
pub open spec fn encode_bytes(bs: Seq<u8>) -> Seq<char>
    decreases bs.len(),
{
    if bs.len() == 0 {
        Seq::empty()
    } else {
        encode_bytes(bs.drop_last()) + encode_byte(bs.last())
    }
}

/// Percent-encoding of the UTF-8 bytes of a text.
pub open spec fn url_encode_spec(s: Seq<char>) -> Seq<char> {
    encode_bytes(encode_utf8(s))
}

/// Double-quoted-string escape of one character.
pub open spec fn dq_escape(c: char) -> Seq<char> {
    if c == '\\' {
        seq!['\\', '\\']
    } else if c == '"' {
        seq!['\\', '"']
    } else if c == '\n' {
        seq!['\\', 'n']
    } else if c == '\r' {
        seq!['\\', 'r']
    } else {
        seq![c]
    }
}

/// Double-quoted-string escape of a text: backslash, quote, newline and
/// carriage return are written as backslash sequences.
pub open spec fn esc_dq_spec(s: Seq<char>) -> Seq<char>
    decreases s.len(),
{
    if s.len() == 0 {
        Seq::empty()
    } else {
        esc_dq_spec(s.drop_last()) + dq_escape(s.last())
    }
}

/// Single-quoted shell escape of one character.
pub open spec fn shell_escape(c: char) -> Seq<char> {
    if c == '\'' {
        seq!['\'', '\\', '\'', '\'']
    } else {
        seq![c]
    }
}

/// Single-quoted shell escape of a text: each `'` becomes `'\''`.
pub open spec fn esc_shell_spec(s: Seq<char>) -> Seq<char>
    decreases s.len(),
{
    if s.len() == 0 {
        Seq::empty()
    } else {
        esc_shell_spec(s.drop_last()) + shell_escape(s.last())
    }
}

/// A body is JSON when its first non-blank character opens an object or array.
pub open spec fn is_json_spec(body: Seq<char>) -> bool {
    let t = trim_start_seq(body);
    t.len() > 0 && (t[0] == '{' || t[0] == '[')
}

// ------------------------------------------------------------------ URL

/// One query parameter as `key=value`, both percent-encoded.
pub open spec fn query_pair_spec(p: (Seq<char>, Seq<char>)) -> Seq<char> {
    url_encode_spec(p.0) + seq!['='] + url_encode_spec(p.1)
}

/// The URL with the query parameters appended; an empty URL stands for
/// `http://localhost`.
pub open spec fn full_url_spec(req: HttpRequestView) -> Seq<char> {
    let base = if req.url.len() == 0 { "http://localhost"@ } else { req.url };
    if req.query_params.len() == 0 {
        base
    } else {
        let sep = if base.contains('?') { '&' } else { '?' };
        base + seq![sep] + join_seq(req.query_params.map_values(|p: (Seq<char>, Seq<char>)| query_pair_spec(p)), seq!['&'])
    }
}

// ------------------------------------------------------------------ snippets

/// A double-quoted string literal: quote, escaped text, quote.
pub open spec fn quoted(s: Seq<char>) -> Seq<char> {
    seq!['"'] + esc_dq_spec(s) + seq!['"']
}

/// The `-H` option of a cURL command for one header.
pub open spec fn curl_header_spec(h: (Seq<char>, Seq<char>)) -> Seq<char> {
    "-H \""@ + esc_dq_spec(h.0) + ": "@ + esc_dq_spec(h.1) + "\""@
}

/// The options of a cURL command, one per line.
pub open spec fn curl_parts_spec(req: HttpRequestView) -> Seq<Seq<char>> {
    let first = "curl -X "@ + req.method + " "@ + quoted(full_url_spec(req));
    let heads = req.headers.map_values(|h: (Seq<char>, Seq<char>)| curl_header_spec(h));
    let auth = match req.auth {
        AuthView::NoAuth => Seq::<Seq<char>>::empty(),
        AuthView::Basic { username, password } => seq![
            "-u \""@ + esc_dq_spec(username) + ":"@ + esc_dq_spec(password) + "\""@,
        ],
        AuthView::Bearer { token } => seq!["-H \"Authorization: Bearer "@ + esc_dq_spec(token) + "\""@],
    };
    let body = if req.body.len() == 0 {
        Seq::<Seq<char>>::empty()
    } else {
        seq!["--data-raw '"@ + esc_shell_spec(req.body) + "'"@]
    };
    seq![first] + heads + auth + body
}

/// The cURL command for a request.
pub open spec fn to_curl_spec(req: HttpRequestView) -> Seq<char> {
    join_seq(curl_parts_spec(req), " \\\n  "@)
}

/// One header line of a JavaScript object literal.
pub open spec fn js_header_spec(h: (Seq<char>, Seq<char>)) -> Seq<char> {
    "    "@ + quoted(h.0) + ": "@ + quoted(h.1) + ","@
}

/// The header lines of the Fetch and Axios snippets.
pub open spec fn fetch_headers_spec(req: HttpRequestView) -> Seq<Seq<char>> {
    let heads = req.headers.map_values(|h: (Seq<char>, Seq<char>)| js_header_spec(h));
    match req.auth {
        AuthView::NoAuth => heads,
        AuthView::Basic { username, password } => heads.push(
            "    \"Authorization\": \"Basic \" + btoa(\""@ + esc_dq_spec(username) + ":"@
                + esc_dq_spec(password) + "\"),"@,
        ),
        AuthView::Bearer { token } => heads.push(
            "    \"Authorization\": \"Bearer "@ + esc_dq_spec(token) + "\","@,
        ),
    }
}

/// The Fetch snippet.
pub open spec fn to_fetch_spec(req: HttpRequestView) -> Seq<char> {
    let head = "fetch("@ + quoted(full_url_spec(req)) + ", {\n  method: \""@ + req.method + "\","@;
    let hs = fetch_headers_spec(req);
    let with_headers = if hs.len() == 0 {
        head
    } else {
        head + "\n  headers: {\n"@ + join_seq(hs, "\n"@) + "\n  },"@
    };
    let with_body = if req.body.len() == 0 {
        with_headers
    } else {
        with_headers + "\n  body: "@ + quoted(req.body) + ","@
    };
    with_body + "\n});"@
}

/// The Axios snippet, given the lowercased method.
pub open spec fn axios_snippet_spec(req: HttpRequestView, lower_method: Seq<char>) -> Seq<char> {
    let head = "axios({\n  method: \""@ + lower_method + "\",\n  url: "@ + quoted(full_url_spec(req));
    let hs = fetch_headers_spec(req);
    let with_headers = if hs.len() == 0 {
        head
    } else {
        head + ",\n  headers: {\n"@ + join_seq(hs, "\n"@) + "\n  }"@
    };
    let with_auth = match req.auth {
        AuthView::Basic { username, password } => with_headers + ",\n  auth: {\n    username: "@
            + quoted(username) + ",\n    password: "@ + quoted(password) + ",\n  }"@,
        _ => with_headers,
    };
    let with_body = if req.body.len() == 0 {
        with_auth
    } else if is_json_spec(req.body) {
        with_auth + ",\n  data: "@ + trim_seq(req.body)
    } else {
        with_auth + ",\n  data: "@ + quoted(req.body)
    };
    with_body + "\n});"@
}

/// The Axios snippet.
pub open spec fn to_axios_spec(req: HttpRequestView) -> Seq<char> {
    axios_snippet_spec(req, unicode_lower(req.method))
}

/// One header line of a Python dict literal.
pub open spec fn py_header_spec(h: (Seq<char>, Seq<char>)) -> Seq<char> {
    "    "@ + quoted(h.0) + ": "@ + quoted(h.1) + ",\n"@
}

/// The header lines of the Python dict literal.
pub open spec fn py_header_lines(hs: Seq<(Seq<char>, Seq<char>)>) -> Seq<char>
    decreases hs.len(),
{
    if hs.len() == 0 {
        Seq::empty()
    } else {
        py_header_lines(hs.drop_last()) + py_header_spec(hs.last())
    }
}

/// The `headers = ...` block of the Python snippet.
pub open spec fn py_headers_block_spec(req: HttpRequestView) -> Seq<char> {
    if req.headers.len() == 0 && !(req.auth is Bearer) {
        "headers = {}\n"@
    } else {
        let bearer = match req.auth {
            AuthView::Bearer { token } => "    \"Authorization\": \"Bearer "@ + esc_dq_spec(token) + "\",\n"@,
            _ => Seq::<char>::empty(),
        };
        "headers = {\n"@ + py_header_lines(req.headers) + bearer + "}\n"@
    }
}

/// The payload line of the Python snippet (empty without a body).
pub open spec fn py_payload_spec(req: HttpRequestView) -> Seq<char> {
    if req.body.len() == 0 {
        Seq::<char>::empty()
    } else if is_json_spec(req.body) {
        "payload = "@ + trim_seq(req.body) + "\n"@
    } else {
        "data = "@ + quoted(req.body) + "\n"@
    }
}

/// The `requests.request(..)` call of the Python snippet.
pub open spec fn py_call_spec(req: HttpRequestView) -> Seq<char> {
    let call0 = "response = requests.request(\""@ + req.method + "\", url, headers=headers"@;
    let call1 = if req.body.len() == 0 {
        call0
    } else if is_json_spec(req.body) {
        call0 + ", json=payload"@
    } else {
        call0 + ", data=data"@
    };
    let call2 = match req.auth {
        AuthView::Basic { username, password } => call1 + ", auth=("@ + quoted(username) + ", "@
            + quoted(password) + ")"@,
        _ => call1,
    };
    call2 + ")"@
}

/// The Python `requests` snippet.
pub open spec fn to_python_spec(req: HttpRequestView) -> Seq<char> {
    "import requests\n\n"@ + "url = "@ + quoted(full_url_spec(req)) + "\n"@ + py_headers_block_spec(req)
        + py_payload_spec(req) + py_call_spec(req) + "\nprint(response.status_code)\nprint(response.text)\n"@
}

/// The `reqwest` call that starts the Rust snippet, given the uppercased method.
pub open spec fn rust_start_spec(upper_method: Seq<char>, url: Seq<char>) -> Seq<char> {
    let lit = seq!['"'] + url + seq!['"'];
    if upper_method == "GET"@ {
        "client.get("@ + lit + ")"@
    } else if upper_method == "POST"@ {
        "client.post("@ + lit + ")"@
    } else if upper_method == "PUT"@ {
        "client.put("@ + lit + ")"@
    } else if upper_method == "PATCH"@ {
        "client.patch("@ + lit + ")"@
    } else if upper_method == "DELETE"@ {
        "client.delete("@ + lit + ")"@
    } else if upper_method == "HEAD"@ {
        "client.head("@ + lit + ")"@
    } else {
        "client.request(reqwest::Method::from_bytes(b\""@ + upper_method + "\").unwrap(), "@ + lit
            + ")"@
    }
}

/// One `.header(..)` line of the Rust snippet.
pub open spec fn rust_header_spec(h: (Seq<char>, Seq<char>)) -> Seq<char> {
    "    .header("@ + quoted(h.0) + ", "@ + quoted(h.1) + ")\n"@
}

/// The `.header(..)` lines of the Rust snippet.
pub open spec fn rust_header_lines(hs: Seq<(Seq<char>, Seq<char>)>) -> Seq<char>
    decreases hs.len(),
{
    if hs.len() == 0 {
        Seq::empty()
    } else {
        rust_header_lines(hs.drop_last()) + rust_header_spec(hs.last())
    }
}

/// The credential line of the Rust snippet (empty without credentials).
pub open spec fn rust_auth_spec(auth: AuthView) -> Seq<char> {
    match auth {
        AuthView::NoAuth => Seq::<char>::empty(),
        AuthView::Basic { username, password } => "    .basic_auth("@ + quoted(username)
            + ", Some("@ + quoted(password) + "))\n"@,
        AuthView::Bearer { token } => "    .bearer_auth("@ + quoted(token) + ")\n"@,
    }
}

/// The body line of the Rust snippet (empty without a body).
pub open spec fn rust_body_spec(body: Seq<char>) -> Seq<char> {
    if body.len() == 0 {
        Seq::<char>::empty()
    } else {
        "    .body("@ + quoted(body) + ")\n"@
    }
}

/// The Rust snippet, given the uppercased method.
pub open spec fn rust_snippet_spec(req: HttpRequestView, upper_method: Seq<char>) -> Seq<char> {
    "let client = reqwest::blocking::Client::new();\n"@ + "let res = "@ + rust_start_spec(
        upper_method,
        esc_dq_spec(full_url_spec(req)),
    ) + "\n"@ + rust_header_lines(req.headers) + rust_auth_spec(req.auth) + rust_body_spec(req.body)
        + "    .send()?;\nprintln!(\"{}\", res.text()?);\n"@
}

/// The Rust snippet.
pub open spec fn to_rust_spec(req: HttpRequestView) -> Seq<char> {
    rust_snippet_spec(req, unicode_upper(req.method))
}

} // verus!

verus! {

/// Upper-case hexadecimal digit.
fn hex_char(n: u8) -> (c: char)
    requires
        n < 16,
    ensures
        c == hex_digit(n),
{
    if n < 10 {
        (n + 48) as char
    } else {
        (n + 55) as char
    }
}

/// Appends the double-quoted-string escape of `s`.
fn push_esc_dq(out: &mut Vec<char>, s: &str)
    ensures
        final(out)@ == old(out)@ + esc_dq_spec(s@),
{
    let cs = crate::text::chars_of(s);
    let mut i: usize = 0;
    assert(cs@.take(0) =~= Seq::<char>::empty());
    assert(out@ =~= old(out)@ + esc_dq_spec(cs@.take(0)));
    while i < cs.len()
        invariant
            i <= cs@.len(),
            cs@ == s@,
            out@ == old(out)@ + esc_dq_spec(cs@.take(i as int)),
        decreases cs@.len() - i,
    {
        let c = cs[i];
        assert(cs@.take(i + 1).drop_last() =~= cs@.take(i as int));
        assert(cs@.take(i + 1).last() == c);
        let ghost before = out@;
        if c == '\\' {
            out.push('\\');
            out.push('\\');
        } else if c == '"' {
            out.push('\\');
            out.push('"');
        } else if c == '\n' {
            out.push('\\');
            out.push('n');
        } else if c == '\r' {
            out.push('\\');
            out.push('r');
        } else {
            out.push(c);
        }
        assert(out@ =~= before + dq_escape(c));
        i += 1;
    }
    assert(cs@.take(cs@.len() as int) =~= cs@);
}

/// Appends `"`, the escape of `s`, `"`.
fn push_quoted(out: &mut Vec<char>, s: &str)
    ensures
        final(out)@ == old(out)@ + quoted(s@),
{
    out.push('"');
    push_esc_dq(out, s);
    out.push('"');
    assert(out@ =~= old(out)@ + quoted(s@));
}

/// Appends the percent-encoding of the UTF-8 bytes of `s`.
fn push_url_encoded(out: &mut Vec<char>, s: &str)
    ensures
        final(out)@ == old(out)@ + url_encode_spec(s@),
{
    let bytes = s.as_bytes();
    let ghost bs = encode_utf8(s@);
    assert(bytes@ == bs);
    let mut i: usize = 0;
    assert(bs.take(0) =~= Seq::<u8>::empty());
    assert(out@ =~= old(out)@ + encode_bytes(bs.take(0)));
    while i < bytes.len()
        invariant
            i <= bs.len(),
            bytes@ == bs,
            out@ == old(out)@ + encode_bytes(bs.take(i as int)),
        decreases bs.len() - i,
    {
        let b = bytes[i];
        assert(bs.take(i + 1).drop_last() =~= bs.take(i as int));
        assert(bs.take(i + 1).last() == b);
        let ghost before = out@;
        if (0x41 <= b && b <= 0x5A) || (0x61 <= b && b <= 0x7A) || (0x30 <= b && b <= 0x39) || b
            == 0x2D || b == 0x5F || b == 0x2E || b == 0x7E {
            out.push(b as char);
        } else if b == 0x20 {
            out.push('%');
            out.push('2');
            out.push('0');
        } else {
            out.push('%');
            out.push(hex_char(b / 16));
            out.push(hex_char(b % 16));
        }
        assert(out@ =~= before + encode_byte(b));
        i += 1;
    }
    assert(bs.take(bs.len() as int) =~= bs);
}

/// Appends the shell escape of `s`.
fn push_esc_shell(out: &mut Vec<char>, s: &str)
    ensures
        final(out)@ == old(out)@ + esc_shell_spec(s@),
{
    let cs = crate::text::chars_of(s);
    let mut i: usize = 0;
    assert(cs@.take(0) =~= Seq::<char>::empty());
    assert(out@ =~= old(out)@ + esc_shell_spec(cs@.take(0)));
    while i < cs.len()
        invariant
            i <= cs@.len(),
            cs@ == s@,
            out@ == old(out)@ + esc_shell_spec(cs@.take(i as int)),
        decreases cs@.len() - i,
    {
        let c = cs[i];
        assert(cs@.take(i + 1).drop_last() =~= cs@.take(i as int));
        assert(cs@.take(i + 1).last() == c);
        let ghost before = out@;
        if c == '\'' {
            out.push('\'');
            out.push('\\');
            out.push('\'');
            out.push('\'');
        } else {
            out.push(c);
        }
        assert(out@ =~= before + shell_escape(c));
        i += 1;
    }
    assert(cs@.take(cs@.len() as int) =~= cs@);
}

/// Code snippets for a request, in the five languages of the picker.
pub struct CodeScreen {
    codes: Vec<String>,
    selected: usize,
}

/// Number of snippet languages.
pub open spec fn lang_count() -> nat {
    5
}

/// Picker label of a snippet language.
pub open spec fn lang_label_spec(i: int) -> Seq<char> {
    if i == 0 {
        "cURL"@
    } else if i == 1 {
        "Fetch"@
    } else if i == 2 {
        "Axios"@
    } else if i == 3 {
        "Python"@
    } else {
        "Rust"@
    }
}

/// Highlighter language of a snippet language.
pub open spec fn lang_language_spec(i: int) -> Seq<char> {
    if i == 0 {
        "bash"@
    } else if i == 1 || i == 2 {
        "javascript"@
    } else if i == 3 {
        "python"@
    } else {
        "rust"@
    }
}

} // verus!

verus! {

impl CodeScreen {
    /// Percent-encoding of the UTF-8 bytes of `s` (unreserved bytes kept).
    pub fn url_encode(s: &str) -> (r: String)
        ensures
            r@ == url_encode_spec(s@),
    {
        let mut out: Vec<char> = Vec::new();
        push_url_encoded(&mut out, s);
        assert(out@ =~= url_encode_spec(s@));
        crate::text::string_of(out.as_slice())
    }

    /// The URL with its query parameters appended.
    fn full_url_chars(req: &HttpRequest) -> (r: Vec<char>)
        ensures
            r@ == full_url_spec(req@),
    {
        let mut out: Vec<char> = if req.url.as_str().is_empty() {
            crate::text::chars_of("http://localhost")
        } else {
            crate::text::chars_of(req.url.as_str())
        };
        let ghost base = out@;
        if req.query_params.len() == 0 {
            return out;
        }
        let sep = if crate::text::contains_char(out.as_slice(), '?') {
            '&'
        } else {
            '?'
        };
        out.push(sep);
        let ghost qv = req@.query_params;
        let ghost mapped = qv.map_values(|p: (Seq<char>, Seq<char>)| query_pair_spec(p));
        let mut i: usize = 0;
        assert(mapped.take(0) =~= Seq::<Seq<char>>::empty());
        assert(out@ =~= base + seq![sep] + join_seq(mapped.take(0), seq!['&']));
        while i < req.query_params.len()
            invariant
                i <= req.query_params@.len(),
                qv == req@.query_params,
                mapped == qv.map_values(|p: (Seq<char>, Seq<char>)| query_pair_spec(p)),
                out@ == base + seq![sep] + join_seq(mapped.take(i as int), seq!['&']),
            decreases req.query_params@.len() - i,
        {
            proof {
                crate::text::lemma_join_step(mapped, seq!['&'], i as int);
            }
            let ghost before = out@;
            if i > 0 {
                out.push('&');
            }
            push_url_encoded(&mut out, req.query_params[i].0.as_str());
            out.push('=');
            push_url_encoded(&mut out, req.query_params[i].1.as_str());
            assert(mapped[i as int] == query_pair_spec(qv[i as int]));
            if i > 0 {
                assert(out@ =~= before + seq!['&'] + mapped[i as int]);
            } else {
                assert(out@ =~= before + mapped[i as int]);
            }
            i += 1;
        }
        assert(mapped.take(req.query_params@.len() as int) =~= mapped);
        out
    }

    /// The URL with its query parameters appended; an empty URL stands for
    /// `http://localhost`.
    pub fn full_url(req: &HttpRequest) -> (r: String)
        ensures
            r@ == full_url_spec(req@),
    {
        let out = Self::full_url_chars(req);
        crate::text::string_of(out.as_slice())
    }

    /// Whether a body reads as JSON (first non-blank character `{` or `[`).
    pub fn is_json(body: &str) -> (r: bool)
        ensures
            r == is_json_spec(body@),
    {
        let cs = crate::text::chars_of(body);
        let t = crate::text::trim_start(cs.as_slice());
        t.len() > 0 && (t[0] == '{' || t[0] == '[')
    }

    /// Escape for a single-quoted shell string.
    pub fn esc_shell(s: &str) -> (r: String)
        ensures
            r@ == esc_shell_spec(s@),
    {
        let mut out: Vec<char> = Vec::new();
        push_esc_shell(&mut out, s);
        assert(out@ =~= esc_shell_spec(s@));
        crate::text::string_of(out.as_slice())
    }

    /// Escape for a double-quoted JavaScript or Python string.
    pub fn esc_dq(s: &str) -> (r: String)
        ensures
            r@ == esc_dq_spec(s@),
    {
        let mut out: Vec<char> = Vec::new();
        push_esc_dq(&mut out, s);
        assert(out@ =~= esc_dq_spec(s@));
        crate::text::string_of(out.as_slice())
    }

    /// Escape for a Rust string literal.
    pub fn esc_rust(s: &str) -> (r: String)
        ensures
            r@ == esc_dq_spec(s@),
    {
        Self::esc_dq(s)
    }
}

} // verus!

verus! {

impl CodeScreen {
    /// The lines of the cURL command.
    fn curl_parts(req: &HttpRequest) -> (r: Vec<Vec<char>>)
        ensures
            crate::text::vecs_view(r@) == curl_parts_spec(req@),
    {
        let mut parts: Vec<Vec<char>> = Vec::new();
        let mut first: Vec<char> = Vec::new();
        crate::text::push_str(&mut first, "curl -X ");
        crate::text::push_str(&mut first, req.method.as_str());
        crate::text::push_str(&mut first, " ");
        let url = Self::full_url(req);
        push_quoted(&mut first, url.as_str());
        assert(first@ =~= "curl -X "@ + req@.method + " "@ + quoted(full_url_spec(req@)));
        parts.push(first);
        let ghost hv = req@.headers;
        let ghost heads = hv.map_values(|h: (Seq<char>, Seq<char>)| curl_header_spec(h));
        let ghost first_v = parts@[0]@;
        assert(crate::text::vecs_view(parts@) =~= seq![first_v] + heads.take(0));
        let mut i: usize = 0;
        while i < req.headers.len()
            invariant
                i <= req.headers@.len(),
                hv == req@.headers,
                heads == hv.map_values(|h: (Seq<char>, Seq<char>)| curl_header_spec(h)),
                crate::text::vecs_view(parts@) == seq![first_v] + heads.take(i as int),
            decreases req.headers@.len() - i,
        {
            let mut line: Vec<char> = Vec::new();
            crate::text::push_str(&mut line, "-H \"");
            push_esc_dq(&mut line, req.headers[i].0.as_str());
            crate::text::push_str(&mut line, ": ");
            push_esc_dq(&mut line, req.headers[i].1.as_str());
            crate::text::push_str(&mut line, "\"");
            assert(line@ =~= curl_header_spec(hv[i as int]));
            let ghost before = parts@;
            parts.push(line);
            assert(heads.take(i + 1) =~= heads.take(i as int).push(heads[i as int]));
            assert(crate::text::vecs_view(parts@) =~= crate::text::vecs_view(before).push(line@));
            i += 1;
        }
        assert(heads.take(req.headers@.len() as int) =~= heads);
        let ghost after_heads = crate::text::vecs_view(parts@);
        match &req.auth {
            AuthPayload::NoAuth => {},
            AuthPayload::Basic { username, password } => {
                let mut line: Vec<char> = Vec::new();
                crate::text::push_str(&mut line, "-u \"");
                push_esc_dq(&mut line, username.as_str());
                crate::text::push_str(&mut line, ":");
                push_esc_dq(&mut line, password.as_str());
                crate::text::push_str(&mut line, "\"");
                parts.push(line);
            },
            AuthPayload::Bearer { token } => {
                let mut line: Vec<char> = Vec::new();
                crate::text::push_str(&mut line, "-H \"Authorization: Bearer ");
                push_esc_dq(&mut line, token.as_str());
                crate::text::push_str(&mut line, "\"");
                parts.push(line);
            },
        }
        let ghost auth_v = match req@.auth {
            AuthView::NoAuth => Seq::<Seq<char>>::empty(),
            AuthView::Basic { username, password } => seq![
                "-u \""@ + esc_dq_spec(username) + ":"@ + esc_dq_spec(password) + "\""@,
            ],
            AuthView::Bearer { token } => seq![
                "-H \"Authorization: Bearer "@ + esc_dq_spec(token) + "\""@,
            ],
        };
        assert(crate::text::vecs_view(parts@) =~= after_heads + auth_v);
        let ghost after_auth = crate::text::vecs_view(parts@);
        if !req.body.as_str().is_empty() {
            let mut line: Vec<char> = Vec::new();
            crate::text::push_str(&mut line, "--data-raw '");
            push_esc_shell(&mut line, req.body.as_str());
            crate::text::push_str(&mut line, "'");
            parts.push(line);
            assert(crate::text::vecs_view(parts@) =~= after_auth + seq![
                "--data-raw '"@ + esc_shell_spec(req@.body) + "'"@,
            ]);
        } else {
            assert(crate::text::vecs_view(parts@) =~= after_auth + Seq::<Seq<char>>::empty());
        }
        parts
    }

    /// The cURL command for a request.
    pub fn to_curl(req: &HttpRequest) -> (r: String)
        ensures
            r@ == to_curl_spec(req@),
    {
        let parts = Self::curl_parts(req);
        let out = crate::text::join_chars(&parts, " \\\n  ");
        crate::text::string_of(out.as_slice())
    }

    /// The header lines of the Fetch and Axios snippets.
    fn fetch_header_lines(req: &HttpRequest) -> (r: Vec<Vec<char>>)
        ensures
            crate::text::vecs_view(r@) == fetch_headers_spec(req@),
    {
        let mut lines: Vec<Vec<char>> = Vec::new();
        let ghost hv = req@.headers;
        let ghost heads = hv.map_values(|h: (Seq<char>, Seq<char>)| js_header_spec(h));
        assert(crate::text::vecs_view(lines@) =~= heads.take(0));
        let mut i: usize = 0;
        while i < req.headers.len()
            invariant
                i <= req.headers@.len(),
                hv == req@.headers,
                heads == hv.map_values(|h: (Seq<char>, Seq<char>)| js_header_spec(h)),
                crate::text::vecs_view(lines@) == heads.take(i as int),
            decreases req.headers@.len() - i,
        {
            let mut line: Vec<char> = Vec::new();
            crate::text::push_str(&mut line, "    ");
            push_quoted(&mut line, req.headers[i].0.as_str());
            crate::text::push_str(&mut line, ": ");
            push_quoted(&mut line, req.headers[i].1.as_str());
            crate::text::push_str(&mut line, ",");
            assert(line@ =~= js_header_spec(hv[i as int]));
            let ghost before = lines@;
            lines.push(line);
            assert(heads.take(i + 1) =~= heads.take(i as int).push(heads[i as int]));
            assert(crate::text::vecs_view(lines@) =~= crate::text::vecs_view(before).push(line@));
            i += 1;
        }
        assert(heads.take(req.headers@.len() as int) =~= heads);
        let ghost before = lines@;
        match &req.auth {
            AuthPayload::NoAuth => {},
            AuthPayload::Basic { username, password } => {
                let mut line: Vec<char> = Vec::new();
                crate::text::push_str(&mut line, "    \"Authorization\": \"Basic \" + btoa(\"");
                push_esc_dq(&mut line, username.as_str());
                crate::text::push_str(&mut line, ":");
                push_esc_dq(&mut line, password.as_str());
                crate::text::push_str(&mut line, "\"),");
                lines.push(line);
                assert(crate::text::vecs_view(lines@) =~= crate::text::vecs_view(before).push(line@));
            },
            AuthPayload::Bearer { token } => {
                let mut line: Vec<char> = Vec::new();
                crate::text::push_str(&mut line, "    \"Authorization\": \"Bearer ");
                push_esc_dq(&mut line, token.as_str());
                crate::text::push_str(&mut line, "\",");
                lines.push(line);
                assert(crate::text::vecs_view(lines@) =~= crate::text::vecs_view(before).push(line@));
            },
        }
        lines
    }

    /// The header lines of the Fetch and Axios snippets.
    pub fn fetch_headers(req: &HttpRequest) -> (r: Vec<String>)
        ensures
            crate::model::strs_view(r@) == fetch_headers_spec(req@),
    {
        let lines = Self::fetch_header_lines(req);
        let mut out: Vec<String> = Vec::new();
        let mut i: usize = 0;
        while i < lines.len()
            invariant
                i <= lines@.len(),
                crate::model::strs_view(out@) == crate::text::vecs_view(lines@).take(i as int),
            decreases lines@.len() - i,
        {
            let ghost before = out@;
            let s = crate::text::string_of(lines[i].as_slice());
            assert(s@ == lines@[i as int]@);
            out.push(s);
            assert(crate::text::vecs_view(lines@).take(i + 1) =~= crate::text::vecs_view(lines@).take(
                i as int,
            ).push(lines@[i as int]@));
            assert(crate::model::strs_view(out@) =~= crate::model::strs_view(before).push(s@));
            assert(crate::model::strs_view(out@) =~= crate::text::vecs_view(lines@).take(i + 1));
            i += 1;
        }
        assert(crate::text::vecs_view(lines@).take(lines@.len() as int) =~= crate::text::vecs_view(lines@));
        out
    }

    /// The Fetch snippet.
    pub fn to_fetch(req: &HttpRequest) -> (r: String)
        ensures
            r@ == to_fetch_spec(req@),
    {
        let mut out: Vec<char> = Vec::new();
        let url = Self::full_url(req);
        crate::text::push_str(&mut out, "fetch(");
        push_quoted(&mut out, url.as_str());
        crate::text::push_str(&mut out, ", {\n  method: \"");
        crate::text::push_str(&mut out, req.method.as_str());
        crate::text::push_str(&mut out, "\",");
        let ghost head = out@;
        assert(head =~= "fetch("@ + quoted(full_url_spec(req@)) + ", {\n  method: \""@ + req@.method + "\","@);
        let lines = Self::fetch_header_lines(req);
        if lines.len() > 0 {
            crate::text::push_str(&mut out, "\n  headers: {\n");
            let joined = crate::text::join_chars(&lines, "\n");
            crate::text::push_all(&mut out, joined.as_slice());
            crate::text::push_str(&mut out, "\n  },");
        }
        let ghost with_headers = out@;
        if !req.body.as_str().is_empty() {
            crate::text::push_str(&mut out, "\n  body: ");
            push_quoted(&mut out, req.body.as_str());
            crate::text::push_str(&mut out, ",");
        }
        crate::text::push_str(&mut out, "\n});");
        assert(out@ =~= to_fetch_spec(req@));
        crate::text::string_of(out.as_slice())
    }

    /// The Axios snippet, given the lowercased method.
    pub fn axios_snippet(req: &HttpRequest, lower_method: &str) -> (r: String)
        ensures
            r@ == axios_snippet_spec(req@, lower_method@),
    {
        let mut out: Vec<char> = Vec::new();
        let url = Self::full_url(req);
        crate::text::push_str(&mut out, "axios({\n  method: \"");
        crate::text::push_str(&mut out, lower_method);
        crate::text::push_str(&mut out, "\",\n  url: ");
        push_quoted(&mut out, url.as_str());
        let lines = Self::fetch_header_lines(req);
        if lines.len() > 0 {
            crate::text::push_str(&mut out, ",\n  headers: {\n");
            let joined = crate::text::join_chars(&lines, "\n");
            crate::text::push_all(&mut out, joined.as_slice());
            crate::text::push_str(&mut out, "\n  }");
        }
        match &req.auth {
            AuthPayload::Basic { username, password } => {
                crate::text::push_str(&mut out, ",\n  auth: {\n    username: ");
                push_quoted(&mut out, username.as_str());
                crate::text::push_str(&mut out, ",\n    password: ");
                push_quoted(&mut out, password.as_str());
                crate::text::push_str(&mut out, ",\n  }");
            },
            _ => {},
        }
        if !req.body.as_str().is_empty() {
            if Self::is_json(req.body.as_str()) {
                crate::text::push_str(&mut out, ",\n  data: ");
                let bc = crate::text::chars_of(req.body.as_str());
                let t = crate::text::trim(bc.as_slice());
                crate::text::push_all(&mut out, t.as_slice());
            } else {
                crate::text::push_str(&mut out, ",\n  data: ");
                push_quoted(&mut out, req.body.as_str());
            }
        }
        crate::text::push_str(&mut out, "\n});");
        assert(out@ =~= axios_snippet_spec(req@, lower_method@));
        crate::text::string_of(out.as_slice())
    }

    /// The Axios snippet.
    pub fn to_axios(req: &HttpRequest) -> (r: String)
        ensures
            r@ == to_axios_spec(req@),
    {
        let lower = crate::text::to_lowercase(req.method.as_str());
        Self::axios_snippet(req, lower.as_str())
    }
}

} // verus!

verus! {

impl CodeScreen {
    /// Appends the `headers = ...` block of the Python snippet.
    fn push_py_headers(out: &mut Vec<char>, req: &HttpRequest)
        ensures
            final(out)@ == old(out)@ + py_headers_block_spec(req@),
    {
        let is_bearer = match &req.auth {
            AuthPayload::Bearer { .. } => true,
            _ => false,
        };
        if req.headers.len() == 0 && !is_bearer {
            crate::text::push_str(out, "headers = {}\n");
            return;
        }
        crate::text::push_str(out, "headers = {\n");
        let ghost hv = req@.headers;
        let ghost open_v = out@;
        let mut i: usize = 0;
        assert(hv.take(0) =~= Seq::<(Seq<char>, Seq<char>)>::empty());
        assert(out@ =~= open_v + py_header_lines(hv.take(0)));
        while i < req.headers.len()
            invariant
                i <= req.headers@.len(),
                hv == req@.headers,
                out@ == open_v + py_header_lines(hv.take(i as int)),
            decreases req.headers@.len() - i,
        {
            let ghost before = out@;
            crate::text::push_str(out, "    ");
            push_quoted(out, req.headers[i].0.as_str());
            crate::text::push_str(out, ": ");
            push_quoted(out, req.headers[i].1.as_str());
            crate::text::push_str(out, ",\n");
            assert(hv.take(i + 1).drop_last() =~= hv.take(i as int));
            assert(out@ =~= before + py_header_spec(hv[i as int]));
            i += 1;
        }
        assert(hv.take(req.headers@.len() as int) =~= hv);
        let ghost lines = out@;
        match &req.auth {
            AuthPayload::Bearer { token } => {
                crate::text::push_str(out, "    \"Authorization\": \"Bearer ");
                push_esc_dq(out, token.as_str());
                crate::text::push_str(out, "\",\n");
            },
            _ => {},
        }
        crate::text::push_str(out, "}\n");
        assert(out@ =~= old(out)@ + py_headers_block_spec(req@));
    }

    /// Appends the payload line of the Python snippet.
    fn push_py_payload(out: &mut Vec<char>, req: &HttpRequest)
        ensures
            final(out)@ == old(out)@ + py_payload_spec(req@),
    {
        if !req.body.as_str().is_empty() {
            if Self::is_json(req.body.as_str()) {
                crate::text::push_str(out, "payload = ");
                let bc = crate::text::chars_of(req.body.as_str());
                let t = crate::text::trim(bc.as_slice());
                crate::text::push_all(out, t.as_slice());
                crate::text::push_str(out, "\n");
            } else {
                crate::text::push_str(out, "data = ");
                push_quoted(out, req.body.as_str());
                crate::text::push_str(out, "\n");
            }
        }
        assert(out@ =~= old(out)@ + py_payload_spec(req@));
    }

    /// Appends the `requests.request(..)` call of the Python snippet.
    fn push_py_call(out: &mut Vec<char>, req: &HttpRequest)
        ensures
            final(out)@ == old(out)@ + py_call_spec(req@),
    {
        crate::text::push_str(out, "response = requests.request(\"");
        crate::text::push_str(out, req.method.as_str());
        crate::text::push_str(out, "\", url, headers=headers");
        if !req.body.as_str().is_empty() {
            if Self::is_json(req.body.as_str()) {
                crate::text::push_str(out, ", json=payload");
            } else {
                crate::text::push_str(out, ", data=data");
            }
        }
        match &req.auth {
            AuthPayload::Basic { username, password } => {
                crate::text::push_str(out, ", auth=(");
                push_quoted(out, username.as_str());
                crate::text::push_str(out, ", ");
                push_quoted(out, password.as_str());
                crate::text::push_str(out, ")");
            },
            _ => {},
        }
        crate::text::push_str(out, ")");
        assert(out@ =~= old(out)@ + py_call_spec(req@));
    }

    /// The Python `requests` snippet.
    pub fn to_python(req: &HttpRequest) -> (r: String)
        ensures
            r@ == to_python_spec(req@),
    {
        let mut out: Vec<char> = Vec::new();
        let url = Self::full_url(req);
        crate::text::push_str(&mut out, "import requests\n\n");
        crate::text::push_str(&mut out, "url = ");
        push_quoted(&mut out, url.as_str());
        crate::text::push_str(&mut out, "\n");
        Self::push_py_headers(&mut out, req);
        Self::push_py_payload(&mut out, req);
        Self::push_py_call(&mut out, req);
        crate::text::push_str(&mut out, "\nprint(response.status_code)\nprint(response.text)\n");
        assert(out@ =~= to_python_spec(req@));
        crate::text::string_of(out.as_slice())
    }

    /// The `reqwest` call that starts the Rust snippet.
    fn push_rust_start(out: &mut Vec<char>, upper_method: &str, url: &[char])
        ensures
            final(out)@ == old(out)@ + rust_start_spec(upper_method@, url@),
    {
        let m = upper_method;
        if crate::text::str_eq(m, "GET") {
            crate::text::push_str(out, "client.get(");
        } else if crate::text::str_eq(m, "POST") {
            crate::text::push_str(out, "client.post(");
        } else if crate::text::str_eq(m, "PUT") {
            crate::text::push_str(out, "client.put(");
        } else if crate::text::str_eq(m, "PATCH") {
            crate::text::push_str(out, "client.patch(");
        } else if crate::text::str_eq(m, "DELETE") {
            crate::text::push_str(out, "client.delete(");
        } else if crate::text::str_eq(m, "HEAD") {
            crate::text::push_str(out, "client.head(");
        } else {
            crate::text::push_str(out, "client.request(reqwest::Method::from_bytes(b\"");
            crate::text::push_str(out, m);
            crate::text::push_str(out, "\").unwrap(), ");
        }
        out.push('"');
        crate::text::push_all(out, url);
        out.push('"');
        crate::text::push_str(out, ")");
        assert(out@ =~= old(out)@ + rust_start_spec(upper_method@, url@));
    }

    /// The Rust snippet, given the uppercased method.
    pub fn rust_snippet(req: &HttpRequest, upper_method: &str) -> (r: String)
        ensures
            r@ == rust_snippet_spec(req@, upper_method@),
    {
        let full = Self::full_url(req);
        let mut url: Vec<char> = Vec::new();
        push_esc_dq(&mut url, full.as_str());
        assert(url@ =~= esc_dq_spec(full_url_spec(req@)));
        let mut out: Vec<char> = Vec::new();
        crate::text::push_str(&mut out, "let client = reqwest::blocking::Client::new();\n");
        crate::text::push_str(&mut out, "let res = ");
        let ghost s0 = out@;
        assert(s0 =~= "let client = reqwest::blocking::Client::new();\n"@ + "let res = "@);
        Self::push_rust_start(&mut out, upper_method, url.as_slice());
        assert(out@ == s0 + rust_start_spec(upper_method@, esc_dq_spec(full_url_spec(req@))));
        crate::text::push_str(&mut out, "\n");
        assert(out@ =~= s0 + rust_start_spec(upper_method@, esc_dq_spec(full_url_spec(req@))) + "\n"@);
        let ghost hv = req@.headers;
        let ghost open_v = out@;
        let mut i: usize = 0;
        assert(hv.take(0) =~= Seq::<(Seq<char>, Seq<char>)>::empty());
        assert(out@ =~= open_v + rust_header_lines(hv.take(0)));
        while i < req.headers.len()
            invariant
                i <= req.headers@.len(),
                hv == req@.headers,
                out@ == open_v + rust_header_lines(hv.take(i as int)),
            decreases req.headers@.len() - i,
        {
            let ghost before = out@;
            crate::text::push_str(&mut out, "    .header(");
            push_quoted(&mut out, req.headers[i].0.as_str());
            crate::text::push_str(&mut out, ", ");
            push_quoted(&mut out, req.headers[i].1.as_str());
            crate::text::push_str(&mut out, ")\n");
            assert(hv.take(i + 1).drop_last() =~= hv.take(i as int));
            assert(out@ =~= before + rust_header_spec(hv[i as int]));
            i += 1;
        }
        assert(hv.take(req.headers@.len() as int) =~= hv);
        let ghost after_headers = out@;
        match &req.auth {
            AuthPayload::NoAuth => {},
            AuthPayload::Basic { username, password } => {
                crate::text::push_str(&mut out, "    .basic_auth(");
                push_quoted(&mut out, username.as_str());
                crate::text::push_str(&mut out, ", Some(");
                push_quoted(&mut out, password.as_str());
                crate::text::push_str(&mut out, "))\n");
            },
            AuthPayload::Bearer { token } => {
                crate::text::push_str(&mut out, "    .bearer_auth(");
                push_quoted(&mut out, token.as_str());
                crate::text::push_str(&mut out, ")\n");
            },
        }
        assert(out@ =~= after_headers + rust_auth_spec(req@.auth));
        let ghost after_auth = out@;
        if !req.body.as_str().is_empty() {
            crate::text::push_str(&mut out, "    .body(");
            push_quoted(&mut out, req.body.as_str());
            crate::text::push_str(&mut out, ")\n");
        }
        assert(out@ =~= after_auth + rust_body_spec(req@.body));
        crate::text::push_str(&mut out, "    .send()?;\nprintln!(\"{}\", res.text()?);\n");
        assert(out@ =~= rust_snippet_spec(req@, upper_method@));
        crate::text::string_of(out.as_slice())
    }

    /// The Rust `reqwest` snippet.
    pub fn to_rust(req: &HttpRequest) -> (r: String)
        ensures
            r@ == to_rust_spec(req@),
    {
        let upper = crate::text::to_uppercase(req.method.as_str());
        Self::rust_snippet(req, upper.as_str())
    }

    /// All five snippets, in picker order.
    pub fn generate_all(req: &HttpRequest) -> (r: Vec<String>)
        ensures
            r@.len() == lang_count(),
            r@[0]@ == to_curl_spec(req@),
            r@[1]@ == to_fetch_spec(req@),
            r@[2]@ == to_axios_spec(req@),
            r@[3]@ == to_python_spec(req@),
            r@[4]@ == to_rust_spec(req@),
    {
        let mut r: Vec<String> = Vec::new();
        r.push(Self::to_curl(req));
        r.push(Self::to_fetch(req));
        r.push(Self::to_axios(req));
        r.push(Self::to_python(req));
        r.push(Self::to_rust(req));
        r
    }

    /// The snippets for a request, the first language selected.
    pub fn new_with_request(req: &HttpRequest) -> (r: Self)
        ensures
            r.codes().len() == lang_count(),
            r.codes()[0]@ == to_curl_spec(req@),
            r.codes()[1]@ == to_fetch_spec(req@),
            r.codes()[2]@ == to_axios_spec(req@),
            r.codes()[3]@ == to_python_spec(req@),
            r.codes()[4]@ == to_rust_spec(req@),
            r.selected() == 0,
    {
        CodeScreen { codes: Self::generate_all(req), selected: 0 }
    }

    /// The generated snippets.
    pub closed spec fn codes(&self) -> Seq<String> {
        self.codes@
    }

    /// The index of the selected language.
    pub closed spec fn selected(&self) -> nat {
        self.selected as nat
    }

    /// The snippet of the selected language, empty when there is none.
    pub fn current_code(&self) -> (r: String)
        ensures
            r@ == if self.selected() < self.codes().len() {
                self.codes()[self.selected() as int]@
            } else {
                Seq::empty()
            },
    {
        if self.selected < self.codes.len() {
            self.codes[self.selected].clone()
        } else {
            String::new()
        }
    }

    /// Picker label of language `i` (`i` below 5).
    pub fn lang_label(i: usize) -> (r: &'static str)
        requires
            i < lang_count(),
        ensures
            r@ == lang_label_spec(i as int),
    {
        if i == 0 {
            "cURL"
        } else if i == 1 {
            "Fetch"
        } else if i == 2 {
            "Axios"
        } else if i == 3 {
            "Python"
        } else {
            "Rust"
        }
    }

    /// Highlighter language of language `i` (`i` below 5).
    pub fn lang_language(i: usize) -> (r: &'static str)
        requires
            i < lang_count(),
        ensures
            r@ == lang_language_spec(i as int),
    {
        if i == 0 {
            "bash"
        } else if i == 1 || i == 2 {
            "javascript"
        } else if i == 3 {
            "python"
        } else {
            "rust"
        }
    }

    /// Selects the language whose picker label is `label`; returns its
    /// index, or `None` (selection unchanged) for an unknown label.
    pub fn select_label(&mut self, label: &str) -> (r: Option<usize>)
        ensures
            final(self).codes() == old(self).codes(),
            match r {
                Some(i) => i < lang_count() && lang_label_spec(i as int) == label@
                    && (forall|j: int| 0 <= j < i ==> lang_label_spec(j) != label@)
                    && final(self).selected() == i,
                None => (forall|j: int| 0 <= j < lang_count() ==> lang_label_spec(j) != label@)
                    && final(self).selected() == old(self).selected(),
            },
    {
        let mut i: usize = 0;
        while i < 5
            invariant
                i <= 5,
                self.codes@ == old(self).codes@,
                self.selected == old(self).selected,
                forall|j: int| 0 <= j < i ==> lang_label_spec(j) != label@,
            decreases 5 - i,
        {
            if crate::text::str_eq(Self::lang_label(i), label) {
                self.selected = i;
                return Some(i);
            }
            i += 1;
        }
        None
    }
}

} // verus!

verus! {

/// `p` appears in `s` from position `i` on.
pub open spec fn piece_at(s: Seq<char>, p: Seq<char>, i: int) -> bool {
    0 <= i && i + p.len() <= s.len() && s.subrange(i, i + p.len()) == p
}

/// `p` appears in `s` as a contiguous piece.
pub open spec fn has_piece(s: Seq<char>, p: Seq<char>) -> bool {
    exists|i: int| #[trigger] piece_at(s, p, i)
}

/// A piece between two others appears in their concatenation.
proof fn lemma_piece_in_middle(a: Seq<char>, p: Seq<char>, b: Seq<char>)
    ensures
        has_piece(a + p + b, p),
{
    let s = a + p + b;
    let i = a.len() as int;
    assert(s.subrange(i, i + p.len()) =~= p);
    assert(piece_at(s, p, i));
}

/// Every snippet carries the request's body when it has one: cURL passes
/// it to `--data-raw` (shell-escaped), Fetch sets `body:` to it, Axios sets
/// `data:` to it (the JSON text itself when it is JSON), Python assigns it to
/// `payload` (JSON) or `data`, and Rust passes it to `.body(..)`.
pub proof fn law_snippets_carry_the_body(req: HttpRequestView)
    requires
        req.body.len() > 0,
    ensures
        has_piece(to_curl_spec(req), "--data-raw '"@ + esc_shell_spec(req.body) + "'"@),
        has_piece(to_fetch_spec(req), "\n  body: "@ + quoted(req.body) + ","@),
        is_json_spec(req.body) ==> has_piece(to_axios_spec(req), ",\n  data: "@ + trim_seq(req.body)),
        !is_json_spec(req.body) ==> has_piece(to_axios_spec(req), ",\n  data: "@ + quoted(req.body)),
        is_json_spec(req.body) ==> has_piece(to_python_spec(req), "payload = "@ + trim_seq(req.body) + "\n"@),
        !is_json_spec(req.body) ==> has_piece(to_python_spec(req), "data = "@ + quoted(req.body) + "\n"@),
        has_piece(to_rust_spec(req), "    .body("@ + quoted(req.body) + ")\n"@),
{
    // cURL: the body option is the last of the joined parts
    let parts = curl_parts_spec(req);
    let bp = "--data-raw '"@ + esc_shell_spec(req.body) + "'"@;
    assert(parts.len() >= 2);
    assert(parts.last() == bp);
    let sep = " \\\n  "@;
    lemma_piece_in_middle(join_seq(parts.drop_last(), sep) + sep, bp, Seq::empty());
    assert(join_seq(parts.drop_last(), sep) + sep + bp + Seq::<char>::empty() =~= to_curl_spec(req));
    // Fetch
    let fp = "\n  body: "@ + quoted(req.body) + ","@;
    let head = "fetch("@ + quoted(full_url_spec(req)) + ", {\n  method: \""@ + req.method + "\","@;
    let hs = fetch_headers_spec(req);
    let wh = if hs.len() == 0 {
        head
    } else {
        head + "\n  headers: {\n"@ + join_seq(hs, "\n"@) + "\n  },"@
    };
    lemma_piece_in_middle(wh, fp, "\n});"@);
    assert(wh + fp + "\n});"@ =~= to_fetch_spec(req));
    // Axios
    let lm = unicode_lower(req.method);
    let ahead = "axios({\n  method: \""@ + lm + "\",\n  url: "@ + quoted(full_url_spec(req));
    let awh = if hs.len() == 0 {
        ahead
    } else {
        ahead + ",\n  headers: {\n"@ + join_seq(hs, "\n"@) + "\n  }"@
    };
    let wa = match req.auth {
        AuthView::Basic { username, password } => awh + ",\n  auth: {\n    username: "@ + quoted(username)
            + ",\n    password: "@ + quoted(password) + ",\n  }"@,
        _ => awh,
    };
    if is_json_spec(req.body) {
        let ap = ",\n  data: "@ + trim_seq(req.body);
        lemma_piece_in_middle(wa, ap, "\n});"@);
        assert(wa + ap + "\n});"@ =~= to_axios_spec(req));
    } else {
        let ap = ",\n  data: "@ + quoted(req.body);
        lemma_piece_in_middle(wa, ap, "\n});"@);
        assert(wa + ap + "\n});"@ =~= to_axios_spec(req));
    }
    // Python: the payload line sits between the headers block and the call
    let pa = "import requests\n\n"@ + "url = "@ + quoted(full_url_spec(req)) + "\n"@ + py_headers_block_spec(req);
    let pb = py_call_spec(req) + "\nprint(response.status_code)\nprint(response.text)\n"@;
    lemma_piece_in_middle(pa, py_payload_spec(req), pb);
    assert(pa + py_payload_spec(req) + pb =~= to_python_spec(req));
    // Rust: the body line sits between the credential line and `.send()`
    let ra = "let client = reqwest::blocking::Client::new();\n"@ + "let res = "@ + rust_start_spec(
        unicode_upper(req.method),
        esc_dq_spec(full_url_spec(req)),
    ) + "\n"@ + rust_header_lines(req.headers) + rust_auth_spec(req.auth);
    let rb = "    .send()?;\nprintln!(\"{}\", res.text()?);\n"@;
    lemma_piece_in_middle(ra, rust_body_spec(req.body), rb);
    assert(ra + rust_body_spec(req.body) + rb =~= to_rust_spec(req));
}

} // verus!
