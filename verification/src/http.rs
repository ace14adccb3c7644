//! Preparing a request for the HTTP client and assembling what comes back:
//! placeholder interpolation, which headers the client accepts, and the
//! sizes reported for the request and the response.

use vstd::prelude::*;
use crate::env_file::{EnvData, active_vars, enabled_pairs, interpolate_spec, interpolate_url};
use crate::model::{AuthType, KeyValue, kv_view, kvs_view, pairs_view};
use crate::request::{AuthPayload, AuthView, HttpRequest};
use crate::text::{ascii_lower, chars_eq, owned, string_of, to_ascii_lower};

verus! {

/// A token character of HTTP: the characters allowed in methods and header names.
pub open spec fn is_tchar(c: char) -> bool {
    ||| ('0' <= c <= '9')
    ||| ('a' <= c <= 'z')
    ||| ('A' <= c <= 'Z')
    ||| c == '!' || c == '#' || c == '$' || c == '%' || c == '&' || c == '\'' || c == '*'
    ||| c == '+' || c == '-' || c == '.' || c == '^' || c == '_' || c == '`' || c == '|'
    ||| c == '~'
}

/// A method the HTTP client accepts: a nonempty string of token characters.
pub open spec fn method_token(m: Seq<char>) -> bool {
    m.len() > 0 && forall|i: int| 0 <= i < m.len() ==> is_tchar(#[trigger] m[i])
}

/// A header name the HTTP client accepts: 1 to 65535 token characters.
pub open spec fn header_name_ok(k: Seq<char>) -> bool {
    1 <= k.len() <= 65535 && forall|i: int| 0 <= i < k.len() ==> is_tchar(#[trigger] k[i])
}

/// A header value the HTTP client accepts: no control character but tab.
pub open spec fn header_value_ok(v: Seq<char>) -> bool {
    forall|i: int|
        0 <= i < v.len() ==> ((#[trigger] v[i]) as u32 >= 32 && v[i] as u32 != 127) || v[i] == '\t'
}

/// `s` with ASCII letters in lower case.
pub open spec fn ascii_lower_seq(s: Seq<char>) -> Seq<char> {
    s.map_values(|c: char| ascii_lower(c))
}

/// Calls `reqwest::Method::from_bytes` on the method's bytes. The http
/// crate accepts exactly the nonempty byte strings of token characters; a
/// non-ASCII character encodes to bytes that are not token characters.
#[verifier::external_body]
fn method_accepts(m: &str) -> (ok: bool)
    ensures
        ok == method_token(m@),
{
    reqwest::Method::from_bytes(m.as_bytes()).is_ok()
}

/// Calls `reqwest::header::HeaderName::from_bytes` on the name's bytes and
/// returns the name it makes. The http crate accepts 1 to 65535 bytes of
/// token characters and stores them with ASCII letters lowered.
#[verifier::external_body]
fn header_name(k: &str) -> (r: Option<String>)
    ensures
        match r {
            Some(n) => header_name_ok(k@) && n@ == ascii_lower_seq(k@),
            None => !header_name_ok(k@),
        },
{
    reqwest::header::HeaderName::from_bytes(k.as_bytes()).ok().map(|n| n.as_str().to_string())
}

/// Calls `reqwest::header::HeaderValue::from_str`. The http crate refuses
/// exactly the values with a byte below 32 other than tab, or byte 127.
#[verifier::external_body]
fn header_value_accepts(v: &str) -> (ok: bool)
    ensures
        ok == header_value_ok(v@),
{
    reqwest::header::HeaderValue::from_str(v).is_ok()
}

/// The headers after inserting `name: value`: it replaces the value of the
/// header with that name, in place, or comes last.
pub open spec fn insert_header(
    hs: Seq<(Seq<char>, Seq<char>)>,
    name: Seq<char>,
    value: Seq<char>,
) -> Seq<(Seq<char>, Seq<char>)> {
    let i = header_index(hs, name);
    if i >= 0 {
        hs.update(i, (name, value))
    } else {
        hs.push((name, value))
    }
}

/// Index of the header called `name`, or -1.
pub open spec fn header_index(hs: Seq<(Seq<char>, Seq<char>)>, name: Seq<char>) -> int
    decreases hs.len(),
{
    if hs.len() == 0 {
        -1
    } else if hs.last().0 == name {
        hs.len() - 1
    } else {
        header_index(hs.drop_last(), name)
    }
}

/// The headers a request sends: each raw header whose name is accepted and
/// whose interpolated value is accepted is inserted, under its lowered name.
pub open spec fn sent_headers(
    pairs: Seq<(Seq<char>, Seq<char>)>,
    raw: Seq<(Seq<char>, Seq<char>)>,
) -> Seq<(Seq<char>, Seq<char>)>
    decreases raw.len(),
{
    if raw.len() == 0 {
        Seq::empty()
    } else {
        let prev = sent_headers(pairs, raw.drop_last());
        let k = raw.last().0;
        let v = interpolate_spec(pairs, raw.last().1);
        if header_name_ok(k) && header_value_ok(v) {
            insert_header(prev, ascii_lower_seq(k), v)
        } else {
            prev
        }
    }
}

/// The credentials with their fields interpolated.
pub open spec fn sent_auth(pairs: Seq<(Seq<char>, Seq<char>)>, a: AuthView) -> AuthView {
    match a {
        AuthView::NoAuth => AuthView::NoAuth,
        AuthView::Basic { username, password } => AuthView::Basic {
            username: interpolate_spec(pairs, username),
            password: interpolate_spec(pairs, password),
        },
        AuthView::Bearer { token } => AuthView::Bearer { token: interpolate_spec(pairs, token) },
    }
}

/// The query parameters with their values interpolated.
pub open spec fn sent_query(
    pairs: Seq<(Seq<char>, Seq<char>)>,
    raw: Seq<(Seq<char>, Seq<char>)>,
) -> Seq<(Seq<char>, Seq<char>)> {
    Seq::new(raw.len(), |i: int| (raw[i].0, interpolate_spec(pairs, raw[i].1)))
}

/// Why a request could not be prepared.
#[derive(Clone, Copy, Debug, PartialEq, Eq, Structural)]
pub enum RequestError {
    /// The method is not a valid HTTP method.
    InvalidMethod,
}

/// What the HTTP client is asked to send.
#[derive(Clone, Debug)]
pub struct PreparedRequest {
    pub method: String,
    pub url: String,
    pub auth: AuthPayload,
    /// The body, when the request has one.
    pub body: Option<String>,
    pub headers: Vec<(String, String)>,
    /// The query parameters, when the request has any.
    pub query: Option<Vec<(String, String)>>,
}

/// Index of the header called `name` among `hs`.
fn find_header(hs: &Vec<(String, String)>, name: &[char]) -> (r: Option<usize>)
    ensures
        match r {
            Some(i) => i < hs@.len() && i == header_index(pairs_view(hs@), name@),
            None => header_index(pairs_view(hs@), name@) == -1,
        },
{
    let ghost hv = pairs_view(hs@);
    let mut i: usize = hs.len();
    assert(hv.take(i as int) =~= hv);
    while i > 0
        invariant
            i <= hs@.len(),
            hv == pairs_view(hs@),
            header_index(hv.take(i as int), name@) == header_index(hv, name@),
        decreases i,
    {
        assert(hv.take(i as int).drop_last() =~= hv.take(i - 1));
        assert(hv.take(i as int).last() == (hs@[i - 1].0@, hs@[i - 1].1@));
        let key = crate::text::chars_of(hs[i - 1].0.as_str());
        if chars_eq(key.as_slice(), name) {
            return Some(i - 1);
        }
        i -= 1;
    }
    assert(hv.take(0).len() == 0);
    None
}

/// `s` with ASCII letters lowered.
fn lower_ascii(s: &str) -> (r: Vec<char>)
    ensures
        r@ == ascii_lower_seq(s@),
{
    let cs = crate::text::chars_of(s);
    let mut r: Vec<char> = Vec::new();
    let mut i: usize = 0;
    while i < cs.len()
        invariant
            i <= cs@.len(),
            cs@ == s@,
            r@ == ascii_lower_seq(s@).take(i as int),
        decreases cs@.len() - i,
    {
        r.push(to_ascii_lower(cs[i]));
        assert(ascii_lower_seq(s@).take(i + 1) =~= ascii_lower_seq(s@).take(i as int).push(
            ascii_lower(s@[i as int]),
        ));
        i += 1;
    }
    assert(ascii_lower_seq(s@).take(cs@.len() as int) =~= ascii_lower_seq(s@));
    r
}

/// Prepares `request` for sending, interpolating the active environment's
/// variables into the URL, the credentials, the body, the header values and
/// the query values. Headers the client refuses are left out; a header
/// name that comes again replaces the earlier value.
pub fn prepare_request(data: &EnvData, request: &HttpRequest) -> (r: Result<PreparedRequest, RequestError>)
    ensures
        ({
            let pairs = enabled_pairs(active_vars(data@));
            match r {
                Err(e) => e == RequestError::InvalidMethod && !method_token(request@.method),
                Ok(p) => {
                    &&& method_token(request@.method)
                    &&& p.method@ == request@.method
                    &&& p.url@ == interpolate_spec(pairs, request@.url)
                    &&& p.auth@ == sent_auth(pairs, request@.auth)
                    &&& match p.body {
                        Some(b) => request@.body.len() > 0 && b@ == interpolate_spec(pairs, request@.body),
                        None => request@.body.len() == 0,
                    }
                    &&& pairs_view(p.headers@) == sent_headers(pairs, request@.headers)
                    &&& match p.query {
                        Some(q) => request@.query_params.len() > 0 && pairs_view(q@) == sent_query(
                            pairs,
                            request@.query_params,
                        ),
                        None => request@.query_params.len() == 0,
                    }
                },
            }
        }),
{
    let ghost pairs = enabled_pairs(active_vars(data@));
    if !method_accepts(request.method.as_str()) {
        return Err(RequestError::InvalidMethod);
    }
    let url = interpolate_url(data, request.url.as_str());
    let auth = match &request.auth {
        AuthPayload::NoAuth => AuthPayload::NoAuth,
        AuthPayload::Basic { username, password } => AuthPayload::Basic {
            username: interpolate_url(data, username.as_str()),
            password: interpolate_url(data, password.as_str()),
        },
        AuthPayload::Bearer { token } => AuthPayload::Bearer {
            token: interpolate_url(data, token.as_str()),
        },
    };
    let body = if request.body.as_str().is_empty() {
        None
    } else {
        Some(interpolate_url(data, request.body.as_str()))
    };
    // headers, in order, with insert-or-replace by lowered name
    let ghost raw = pairs_view(request.headers@);
    let mut headers: Vec<(String, String)> = Vec::new();
    let mut i: usize = 0;
    assert(raw.take(0) =~= Seq::<(Seq<char>, Seq<char>)>::empty());
    assert(pairs_view(headers@) =~= Seq::<(Seq<char>, Seq<char>)>::empty());
    while i < request.headers.len()
        invariant
            i <= request.headers@.len(),
            raw == pairs_view(request.headers@),
            pairs == enabled_pairs(active_vars(data@)),
            pairs_view(headers@) == sent_headers(pairs, raw.take(i as int)),
        decreases request.headers@.len() - i,
    {
        assert(raw.take(i + 1).drop_last() =~= raw.take(i as int));
        assert(raw.take(i + 1).last() == raw[i as int]);
        let key = &request.headers[i].0;
        let value = interpolate_url(data, request.headers[i].1.as_str());
        match header_name(key.as_str()) {
            Some(name) => {
                if header_value_accepts(value.as_str()) {
                    let lowered = lower_ascii(key.as_str());
                    assert(lowered@ == name@);
                    let ghost before = pairs_view(headers@);
                    match find_header(&headers, lowered.as_slice()) {
                        Some(ix) => {
                            headers.set(ix, (name, value));
                            assert(pairs_view(headers@) =~= before.update(
                                ix as int,
                                (ascii_lower_seq(key@), value@),
                            ));
                        },
                        None => {
                            headers.push((name, value));
                            assert(pairs_view(headers@) =~= before.push(
                                (ascii_lower_seq(key@), value@),
                            ));
                        },
                    }
                }
            },
            None => {},
        }
        i += 1;
    }
    assert(raw.take(request.headers@.len() as int) =~= raw);
    // query parameters
    let query = if request.query_params.len() == 0 {
        None
    } else {
        let ghost rq = pairs_view(request.query_params@);
        let mut q: Vec<(String, String)> = Vec::new();
        let mut j: usize = 0;
        while j < request.query_params.len()
            invariant
                j <= request.query_params@.len(),
                rq == pairs_view(request.query_params@),
                pairs == enabled_pairs(active_vars(data@)),
                pairs_view(q@) == sent_query(pairs, rq).take(j as int),
            decreases request.query_params@.len() - j,
        {
            let ghost before = pairs_view(q@);
            q.push(
                (
                    request.query_params[j].0.clone(),
                    interpolate_url(data, request.query_params[j].1.as_str()),
                ),
            );
            assert(pairs_view(q@) =~= before.push(sent_query(pairs, rq)[j as int]));
            assert(sent_query(pairs, rq).take(j + 1) =~= sent_query(pairs, rq).take(j as int).push(
                sent_query(pairs, rq)[j as int],
            ));
            j += 1;
        }
        assert(sent_query(pairs, rq).take(rq.len() as int) =~= sent_query(pairs, rq));
        Some(q)
    };
    Ok(
        PreparedRequest {
            method: request.method.clone(),
            url,
            auth,
            body,
            headers,
            query,
        },
    )
}

/// Prepares `request` for sending as written, with no variables filled
/// in. Headers the client refuses are left out; a header name that comes
/// again replaces the earlier value.
pub fn prepare_request_as_written(request: &HttpRequest) -> (r: Result<PreparedRequest, RequestError>)
    ensures
        match r {
            Err(e) => e == RequestError::InvalidMethod && !method_token(request@.method),
            Ok(p) => {
                &&& method_token(request@.method)
                &&& p.method@ == request@.method
                &&& p.url@ == request@.url
                &&& p.auth@ == request@.auth
                &&& match p.body {
                    Some(b) => request@.body.len() > 0 && b@ == request@.body,
                    None => request@.body.len() == 0,
                }
                &&& pairs_view(p.headers@) == sent_headers(Seq::empty(), request@.headers)
                &&& match p.query {
                    Some(q) => request@.query_params.len() > 0 && pairs_view(q@) == request@.query_params,
                    None => request@.query_params.len() == 0,
                }
            },
        },
{
    let none = EnvData { active_environment: None, environments: Vec::new() };
    proof {
        assert(none@.environments.len() == 0);
        assert(enabled_pairs(active_vars(none@)) =~= Seq::<(Seq<char>, Seq<char>)>::empty());
    }
    let r = prepare_request(&none, request);
    proof {
        let e = Seq::<(Seq<char>, Seq<char>)>::empty();
        assert(sent_query(e, request@.query_params) =~= request@.query_params);
        match request@.auth {
            AuthView::NoAuth => {},
            AuthView::Basic { username, password } => {},
            AuthView::Bearer { token } => {},
        }
        assert(sent_auth(e, request@.auth) == request@.auth);
    }
    r
}

/// Sizes of the request as sent, in bytes.
#[derive(Clone, Copy, Debug, PartialEq, Eq, Structural)]
pub struct RequestStats {
    pub header_size: usize,
    pub body_size: usize,
    pub size: usize,
}

/// The response headers with their size in bytes (status line included).
#[derive(Clone, Debug)]
pub struct ResponseHeaders {
    pub headers: Vec<(String, String)>,
    pub response_size: usize,
}

/// The response body as text, with its size in bytes.
#[derive(Clone, Debug)]
pub struct ResponseBody {
    pub body: String,
    pub response_size: usize,
}

/// A response as the response panel shows it.
#[derive(Debug)]
pub struct Response {
    pub status_code: u16,
    pub status_text: String,
    pub headers: ResponseHeaders,
    pub body: ResponseBody,
    pub cookies: Vec<(String, String)>,
    pub request: RequestStats,
    pub response_size: usize,
    pub duration: std::time::Duration,
}

/// Number of bytes of `s` in UTF-8, as `str::len` reports it.
pub open spec fn utf8_len(s: Seq<char>) -> int {
    (vstd::utf8::encode_utf8(s).len() as usize) as int
}

/// Size of a list of headers written as `name: value\r\n` lines.
pub open spec fn header_bytes(hs: Seq<(Seq<char>, Seq<char>)>) -> int
    decreases hs.len(),
{
    if hs.len() == 0 {
        0
    } else {
        header_bytes(hs.drop_last()) + utf8_len(hs.last().0) + 2 + utf8_len(hs.last().1) + 2
    }
}

/// The sizes of a request with these headers and this body, or `None`
/// when they do not fit in a `usize`.
pub open spec fn request_stats_spec(hs: Seq<(Seq<char>, Seq<char>)>, body: Seq<char>) -> Option<(int, int, int)> {
    let h = header_bytes(hs);
    let b = utf8_len(body);
    if h + b <= usize::MAX {
        Some((h, b, h + b))
    } else {
        None
    }
}

/// The sizes reported for a request: its headers, its body and their sum;
/// `None` when the sum does not fit in a `usize`.
pub fn request_stats(headers: &Vec<(String, String)>, body: &str) -> (r: Option<RequestStats>)
    ensures
        match request_stats_spec(pairs_view(headers@), body@) {
            Some((h, b, t)) => r == Some(RequestStats { header_size: h as usize, body_size: b as usize, size: t as usize }),
            None => r is None,
        },
{
    let ghost hv = pairs_view(headers@);
    let mut total: usize = 0;
    let mut i: usize = 0;
    let body_size = body.len();
    proof {
        lemma_header_bytes_prefix(hv, 0);
        assert(hv.take(0).len() == 0);
    }
    while i < headers.len()
        invariant
            i <= headers@.len(),
            hv == pairs_view(headers@),
            total == header_bytes(hv.take(i as int)),
            body_size == utf8_len(body@),
            header_bytes(hv.take(i as int)) <= header_bytes(hv),
        decreases headers@.len() - i,
    {
        proof {
            lemma_header_bytes_prefix(hv, i + 1);
        }
        assert(hv.take(i + 1).drop_last() =~= hv.take(i as int));
        assert(hv.take(i + 1).last() == (headers@[i as int].0@, headers@[i as int].1@));
        let k = headers[i].0.as_str().len();
        let v = headers[i].1.as_str().len();
        let step = k as u128 + 2 + v as u128 + 2;
        if total as u128 + step > usize::MAX as u128 {
            proof {
                lemma_header_bytes_prefix(hv, i + 1);
            }
            return None;
        }
        total = total + k + 2 + v + 2;
        i += 1;
        proof {
            lemma_header_bytes_prefix(hv, i as int);
        }
    }
    assert(hv.take(headers@.len() as int) =~= hv);
    if total > usize::MAX - body_size {
        return None;
    }
    Some(RequestStats { header_size: total, body_size, size: total + body_size })
}

/// Header sizes grow along the list.
proof fn lemma_header_bytes_prefix(hs: Seq<(Seq<char>, Seq<char>)>, n: int)
    requires
        0 <= n <= hs.len(),
    ensures
        header_bytes(hs.take(n)) <= header_bytes(hs),
        0 <= header_bytes(hs.take(n)),
    decreases hs.len() - n,
{
    if n < hs.len() {
        lemma_header_bytes_prefix(hs, n + 1);
        assert(hs.take(n + 1).drop_last() =~= hs.take(n));
        lemma_header_bytes_nonneg(hs.take(n));
    } else {
        assert(hs.take(n) =~= hs);
        lemma_header_bytes_nonneg(hs);
    }
}

/// Header sizes are not negative.
proof fn lemma_header_bytes_nonneg(hs: Seq<(Seq<char>, Seq<char>)>)
    ensures
        0 <= header_bytes(hs),
    decreases hs.len(),
{
    if hs.len() > 0 {
        lemma_header_bytes_nonneg(hs.drop_last());
    }
}

/// The reason phrase the http crate gives for a status code.
pub uninterp spec fn canonical_reason(code: u16) -> Option<Seq<char>>;

/// Calls `StatusCode::canonical_reason` of the http crate (through
/// `reqwest`) for `code`. Its table of phrases is named, not written out;
/// codes outside 100..=999 are not status codes and have none.
#[verifier::external_body]
fn status_reason(code: u16) -> (r: Option<&'static str>)
    ensures
        match r {
            Some(t) => canonical_reason(code) == Some(t@),
            None => canonical_reason(code) is None,
        },
        (code < 100 || code > 999) ==> r is None,
{
    reqwest::StatusCode::from_u16(code).ok().and_then(|s| s.canonical_reason())
}

/// The status text shown for a code: its reason phrase, or `Unknown`.
pub open spec fn status_text_spec(code: u16) -> Seq<char> {
    match canonical_reason(code) {
        Some(t) => t,
        None => "Unknown"@,
    }
}

/// The status text shown for a code.
pub fn status_text(code: u16) -> (r: String)
    ensures
        r@ == status_text_spec(code),
{
    match status_reason(code) {
        Some(t) => owned(t),
        None => owned("Unknown"),
    }
}

/// What `String::from_utf8_lossy` makes of some bytes.
pub uninterp spec fn lossy_text(bytes: Seq<u8>) -> Seq<char>;

/// Calls `String::from_utf8_lossy`: valid UTF-8 is decoded unchanged; the
/// replacement of invalid sequences is named, not written out.
#[verifier::external_body]
fn utf8_lossy(bytes: &[u8]) -> (r: String)
    ensures
        r@ == lossy_text(bytes@),
        vstd::utf8::valid_utf8(bytes@) ==> r@ == vstd::utf8::decode_utf8(bytes@),
{
    String::from_utf8_lossy(bytes).into_owned()
}

/// A byte a header value can show as text: visible ASCII or tab.
pub open spec fn visible_ascii(b: u8) -> bool {
    (32 <= b && b < 127) || b == 9
}

/// The text of a header value: its characters when every byte is visible
/// ASCII, else empty (what `HeaderValue::to_str` allows, with empty text
/// for a refusal).
pub open spec fn header_text_spec(bytes: Seq<u8>) -> Seq<char> {
    if forall|i: int| 0 <= i < bytes.len() ==> visible_ascii(#[trigger] bytes[i]) {
        bytes.map_values(|b: u8| b as char)
    } else {
        Seq::empty()
    }
}

/// The text of a header value.
pub fn header_text(bytes: &[u8]) -> (r: String)
    ensures
        r@ == header_text_spec(bytes@),
{
    let mut out: Vec<char> = Vec::new();
    let mut i: usize = 0;
    while i < bytes.len()
        invariant
            i <= bytes@.len(),
            forall|j: int| 0 <= j < i ==> visible_ascii(#[trigger] bytes@[j]),
            out@ == bytes@.take(i as int).map_values(|b: u8| b as char),
        decreases bytes@.len() - i,
    {
        let b = bytes[i];
        if !((32 <= b && b < 127) || b == 9) {
            return String::new();
        }
        out.push(b as char);
        assert(bytes@.take(i + 1).map_values(|b: u8| b as char) =~= bytes@.take(i as int).map_values(
            |b: u8| b as char,
        ).push(b as char));
        i += 1;
    }
    assert(bytes@.take(bytes@.len() as int) =~= bytes@);
    string_of(out.as_slice())
}

/// Number of decimal digits of `n`.
pub open spec fn decimal_len(n: nat) -> nat
    decreases n,
{
    if n < 10 {
        1
    } else {
        1 + decimal_len(n / 10)
    }
}

/// Number of decimal digits of a status code.
fn code_digits(code: u16) -> (r: usize)
    ensures
        r == decimal_len(code as nat),
        1 <= r <= 5,
{
    proof {
        reveal_with_fuel(decimal_len, 5);
    }
    if code < 10 {
        1
    } else if code < 100 {
        2
    } else if code < 1000 {
        3
    } else if code < 10000 {
        4
    } else {
        5
    }
}

/// Size of the response headers as received: name, `: `, value bytes and
/// line end for each.
pub open spec fn response_header_bytes(hs: Seq<(Seq<char>, Seq<u8>)>) -> int
    decreases hs.len(),
{
    if hs.len() == 0 {
        0
    } else {
        response_header_bytes(hs.drop_last()) + utf8_len(hs.last().0) + 2 + hs.last().1.len() + 2
    }
}

/// Size of the status line `HTTP/1.1 <code> <text>\r\n`.
pub open spec fn status_line_len(code: u16, text: Seq<char>) -> int {
    9 + decimal_len(code as nat) + 1 + utf8_len(text) + 2
}

/// The names of received headers with the bytes of their values.
pub open spec fn raw_headers_view(v: Seq<(String, Vec<u8>)>) -> Seq<(Seq<char>, Seq<u8>)> {
    v.map_values(|p: (String, Vec<u8>)| (p.0@, p.1@))
}

/// The received headers as shown: each name with the text of its value.
pub open spec fn shown_headers(hs: Seq<(Seq<char>, Seq<u8>)>) -> Seq<(Seq<char>, Seq<char>)> {
    Seq::new(hs.len(), |i: int| (hs[i].0, header_text_spec(hs[i].1)))
}

/// Assembles the response of a request from what the server sent: status
/// code, headers (names and value bytes), cookies and body bytes. `None`
/// when the sizes do not fit in a `usize`.
pub fn build_response(
    status_code: u16,
    raw_headers: Vec<(String, Vec<u8>)>,
    cookies: Vec<(String, String)>,
    body_bytes: Vec<u8>,
    request: RequestStats,
    duration: std::time::Duration,
) -> (r: Option<Response>)
    ensures
        ({
            let hs = raw_headers_view(raw_headers@);
            let text = status_text_spec(status_code);
            let header_size = status_line_len(status_code, text) + response_header_bytes(hs) + 2;
            let total = header_size + body_bytes@.len();
            match r {
                None => total > usize::MAX,
                Some(resp) => {
                    &&& total <= usize::MAX
                    &&& resp.status_code == status_code
                    &&& resp.status_text@ == text
                    &&& pairs_view(resp.headers.headers@) == shown_headers(hs)
                    &&& resp.headers.response_size == header_size
                    &&& resp.body.body@ == lossy_text(body_bytes@)
                    &&& (vstd::utf8::valid_utf8(body_bytes@) ==> resp.body.body@
                        == vstd::utf8::decode_utf8(body_bytes@))
                    &&& resp.body.response_size == body_bytes@.len()
                    &&& pairs_view(resp.cookies@) == pairs_view(cookies@)
                    &&& resp.request == request
                    &&& resp.response_size == total
                    &&& resp.duration == duration
                },
            }
        }),
{
    let ghost hs = raw_headers_view(raw_headers@);
    let status_text = status_text(status_code);
    let text_len = status_text.as_str().len();
    let digits = code_digits(status_code);
    let body_size = body_bytes.len();
    proof {
        lemma_response_header_bytes_prefix(hs, 0);
        assert(hs.take(0).len() == 0);
    }
    // the status line, the blank line after the headers, then each header
    if text_len > usize::MAX - 14 - digits {
        return None;
    }
    let mut acc: usize = 9 + digits + 1 + text_len + 2 + 2;
    let ghost fixed = acc as int;
    let mut shown: Vec<(String, String)> = Vec::new();
    let mut i: usize = 0;
    while i < raw_headers.len()
        invariant
            i <= raw_headers@.len(),
            hs == raw_headers_view(raw_headers@),
            acc == fixed + response_header_bytes(hs.take(i as int)),
            fixed == status_line_len(status_code, status_text_spec(status_code)) + 2,
            body_size == body_bytes@.len(),
            0 <= response_header_bytes(hs.take(i as int)) <= response_header_bytes(hs),
            pairs_view(shown@) == shown_headers(hs).take(i as int),
        decreases raw_headers@.len() - i,
    {
        proof {
            lemma_response_header_bytes_prefix(hs, i + 1);
        }
        assert(hs.take(i + 1).drop_last() =~= hs.take(i as int));
        assert(hs.take(i + 1).last() == (raw_headers@[i as int].0@, raw_headers@[i as int].1@));
        let k = raw_headers[i].0.as_str().len();
        let v = raw_headers[i].1.len();
        if k > usize::MAX - acc || v > usize::MAX - acc - k || 4 > usize::MAX - acc - k - v {
            return None;
        }
        acc = acc + k + 2 + v + 2;
        let ghost before = pairs_view(shown@);
        shown.push((raw_headers[i].0.clone(), header_text(raw_headers[i].1.as_slice())));
        assert(pairs_view(shown@) =~= before.push(shown_headers(hs)[i as int]));
        assert(shown_headers(hs).take(i + 1) =~= shown_headers(hs).take(i as int).push(
            shown_headers(hs)[i as int],
        ));
        i += 1;
    }
    assert(hs.take(raw_headers@.len() as int) =~= hs);
    assert(shown_headers(hs).take(raw_headers@.len() as int) =~= shown_headers(hs));
    if body_size > usize::MAX - acc {
        return None;
    }
    let header_size = acc;

    let body = utf8_lossy(body_bytes.as_slice());
    Some(
        Response {
            status_code,
            status_text,
            headers: ResponseHeaders { headers: shown, response_size: header_size },
            body: ResponseBody { body, response_size: body_size },
            cookies,
            request,
            response_size: header_size + body_size,
            duration,
        },
    )
}

/// Received header sizes grow along the list.
proof fn lemma_response_header_bytes_prefix(hs: Seq<(Seq<char>, Seq<u8>)>, n: int)
    requires
        0 <= n <= hs.len(),
    ensures
        response_header_bytes(hs.take(n)) <= response_header_bytes(hs),
        0 <= response_header_bytes(hs.take(n)),
    decreases hs.len() - n,
{
    if n < hs.len() {
        lemma_response_header_bytes_prefix(hs, n + 1);
        assert(hs.take(n + 1).drop_last() =~= hs.take(n));
        lemma_response_header_bytes_nonneg(hs.take(n));
    } else {
        assert(hs.take(n) =~= hs);
        lemma_response_header_bytes_nonneg(hs);
    }
}

/// Received header sizes are not negative.
proof fn lemma_response_header_bytes_nonneg(hs: Seq<(Seq<char>, Seq<u8>)>)
    ensures
        0 <= response_header_bytes(hs),
    decreases hs.len(),
{
    if hs.len() > 0 {
        lemma_response_header_bytes_nonneg(hs.drop_last());
    }
}

/// Returns `Duration::ZERO`. The duration type is opaque here, so nothing
/// is stated of it.
#[verifier::external_body]
fn zero_duration() -> (r: std::time::Duration) {
    std::time::Duration::ZERO
}

/// The response shown when a request fails: status 0, text `Error`, no
/// headers or cookies, all sizes zero, and the body `Error: <message>`.
pub fn error_response(message: &str) -> (r: Response)
    ensures
        r.status_code == 0,
        r.status_text@ == "Error"@,
        r.headers.headers@.len() == 0,
        r.headers.response_size == 0,
        r.body.body@ == "Error: "@ + message@,
        r.body.response_size == 0,
        r.cookies@.len() == 0,
        r.request == (RequestStats { header_size: 0, body_size: 0, size: 0 }),
        r.response_size == 0,
{
    let mut text = crate::text::chars_of("Error: ");
    crate::text::push_str(&mut text, message);
    Response {
        status_code: 0,
        status_text: owned("Error"),
        headers: ResponseHeaders { headers: Vec::new(), response_size: 0 },
        body: ResponseBody { body: string_of(text.as_slice()), response_size: 0 },
        cookies: Vec::new(),
        request: RequestStats { header_size: 0, body_size: 0, size: 0 },
        response_size: 0,
        duration: zero_duration(),
    }
}

/// Number of methods in the method menu.
pub const METHOD_COUNT: usize = 7;

/// The method in row `row` of the method menu: `GET`, `POST`, `PUT`,
/// `PATCH`, `DELETE`, `HEAD`, `OPTIONS`.
pub open spec fn method_at_spec(row: int) -> Seq<char> {
    if row == 0 {
        "GET"@
    } else if row == 1 {
        "POST"@
    } else if row == 2 {
        "PUT"@
    } else if row == 3 {
        "PATCH"@
    } else if row == 4 {
        "DELETE"@
    } else if row == 5 {
        "HEAD"@
    } else {
        "OPTIONS"@
    }
}

/// The method in a row of the method menu.
pub fn method_at(row: usize) -> (r: &'static str)
    requires
        row < METHOD_COUNT,
    ensures
        r@ == method_at_spec(row as int),
{
    if row == 0 {
        "GET"
    } else if row == 1 {
        "POST"
    } else if row == 2 {
        "PUT"
    } else if row == 3 {
        "PATCH"
    } else if row == 4 {
        "DELETE"
    } else if row == 5 {
        "HEAD"
    } else {
        "OPTIONS"
    }
}

/// The row of `method` in the method menu, or the `GET` row for a method
/// the menu does not list.
pub fn method_row(method: &str) -> (r: usize)
    ensures
        r < METHOD_COUNT,
        (exists|k: int| 0 <= k < 7 && method_at_spec(k) == method@) ==> method_at_spec(r as int)
            == method@ && forall|k: int| 0 <= k < r ==> method_at_spec(k) != method@,
        (forall|k: int| 0 <= k < 7 ==> method_at_spec(k) != method@) ==> r == 0,
{
    let mut row: usize = 0;
    while row < METHOD_COUNT
        invariant
            row <= 7,
            forall|k: int| 0 <= k < row ==> method_at_spec(k) != method@,
        decreases 7 - row,
    {
        if crate::text::str_eq(method_at(row), method) {
            return row;
        }
        row += 1;
    }
    0
}

/// The method to send: the selected one, or `GET`.
pub fn selected_method(selected: Option<String>) -> (r: String)
    ensures
        r@ == match selected {
            Some(m) => m@,
            None => "GET"@,
        },
{
    match selected {
        Some(m) => m,
        None => owned("GET"),
    }
}

/// The credentials sent for the chosen scheme and the editor's fields.
pub fn auth_payload(t: AuthType, username: String, password: String, token: String) -> (r: AuthPayload)
    ensures
        r@ == match t {
            AuthType::NoAuth => AuthView::NoAuth,
            AuthType::Basic => AuthView::Basic { username: username@, password: password@ },
            AuthType::Bearer => AuthView::Bearer { token: token@ },
        },
{
    match t {
        AuthType::NoAuth => AuthPayload::NoAuth,
        AuthType::Basic => AuthPayload::Basic { username, password },
        AuthType::Bearer => AuthPayload::Bearer { token },
    }
}

/// The key/value pairs of the switched-on rows, in order.
pub fn active_rows(rows: &Vec<KeyValue>) -> (r: Vec<(String, String)>)
    ensures
        pairs_view(r@) == enabled_pairs(kvs_view(rows@)),
{
    let ghost vv = kvs_view(rows@);
    let mut r: Vec<(String, String)> = Vec::new();
    let mut i: usize = 0;
    assert(vv.take(0) =~= Seq::<crate::env_file::VarView>::empty());
    assert(pairs_view(r@) =~= Seq::<(Seq<char>, Seq<char>)>::empty());
    while i < rows.len()
        invariant
            i <= rows@.len(),
            vv == kvs_view(rows@),
            pairs_view(r@) == enabled_pairs(vv.take(i as int)),
        decreases rows@.len() - i,
    {
        let ghost before = r@;
        assert(vv.take(i + 1).drop_last() =~= vv.take(i as int));
        assert(vv.take(i + 1).last() == kv_view(rows@[i as int]));
        if rows[i].active {
            r.push((rows[i].key.clone(), rows[i].value.clone()));
            assert(pairs_view(r@) =~= pairs_view(before).push((rows@[i as int].key@, rows@[i as int].value@)));
        }
        i += 1;
    }
    assert(vv.take(rows@.len() as int) =~= vv);
    r
}

} // verus!
