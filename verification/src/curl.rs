//! Importing a request from a `curl` command line.
//!
//! The command is split into words the way a shell would (quotes, backslash
//! escapes, line continuations), then the flags that carry request data are
//! read left to right. Flags that take a value and are not understood are
//! skipped together with their value.

use vstd::prelude::*;
use crate::model::{AuthType, opt_view, pairs_view, strs_view};
use crate::text::{
    find_char, is_ws, join_seq, replace_seq, split_once_seq, split_seq, starts_with_seq,
    trim_seq, trim_start_seq, eq_ignore_case_seq, unicode_upper, all_ascii, ascii_upper,
};

verus! {

/// Why a command could not be imported.
#[derive(Clone, Copy, Debug, PartialEq, Eq, Structural)]
pub enum CurlError {
    /// The first word is not `curl`.
    NotCurl,
    /// A flag that needs a value is the last word.
    MissingValue,
    /// No URL was given.
    NoUrl,
}

/// A request read from a curl command.
#[derive(Clone, Debug)]
pub struct CurlImport {
    pub url: String,
    pub method: String,
    pub params: Vec<(String, String)>,
    pub headers: Vec<(String, String)>,
    pub auth_type: AuthType,
    pub username: String,
    pub password: String,
    pub token: String,
    pub body_type: String,
    pub body: String,
}

/// The abstract content of an imported request.
pub struct CurlImportView {
    pub url: Seq<char>,
    pub method: Seq<char>,
    pub params: Seq<(Seq<char>, Seq<char>)>,
    pub headers: Seq<(Seq<char>, Seq<char>)>,
    pub auth_type: AuthType,
    pub username: Seq<char>,
    pub password: Seq<char>,
    pub token: Seq<char>,
    pub body_type: Seq<char>,
    pub body: Seq<char>,
}

impl View for CurlImport {
    type V = CurlImportView;

    open spec fn view(&self) -> CurlImportView {
        CurlImportView {
            url: self.url@,
            method: self.method@,
            params: pairs_view(self.params@),
            headers: pairs_view(self.headers@),
            auth_type: self.auth_type,
            username: self.username@,
            password: self.password@,
            token: self.token@,
            body_type: self.body_type@,
            body: self.body@,
        }
    }
}

/// What the flags read so far have set.
pub struct CurlScan {
    pub url: Seq<char>,
    pub method: Option<Seq<char>>,
    pub data: Seq<Seq<char>>,
    pub headers: Seq<(Seq<char>, Seq<char>)>,
    pub query: Seq<(Seq<char>, Seq<char>)>,
    pub user: Option<(Seq<char>, Seq<char>)>,
    pub bearer: Option<Seq<char>>,
    pub is_get: bool,
    pub json_ct: bool,
}

/// Nothing read yet.
pub open spec fn scan_init() -> CurlScan {
    CurlScan {
        url: Seq::empty(),
        method: None,
        data: Seq::empty(),
        headers: Seq::empty(),
        query: Seq::empty(),
        user: None,
        bearer: None,
        is_get: false,
        json_ct: false,
    }
}

// ------------------------------------------------------------------ words

/// Backslash-newline line continuations (CRLF or LF) replaced by a space.
pub open spec fn flatten_seq(s: Seq<char>) -> Seq<char> {
    replace_seq(replace_seq(s, seq!['\\', '\r', '\n'], seq![' ']), seq!['\\', '\n'], seq![' '])
}

/// The character that a backslash escape inside quotes stands for.
pub open spec fn quoted_escape(n: char) -> char {
    if n == 'n' {
        '\n'
    } else if n == 't' {
        '\t'
    } else {
        n
    }
}

/// `out` with `cur` appended when `cur` is not empty.
pub open spec fn flush(out: Seq<Seq<char>>, cur: Seq<char>) -> Seq<Seq<char>> {
    if cur.len() > 0 {
        out.push(cur)
    } else {
        out
    }
}

/// Word splitting from position `i`, inside quote `q` (if any), with the
/// word `cur` in progress and the finished words `out`.
pub open spec fn words_from(
    s: Seq<char>,
    i: int,
    q: Option<char>,
    cur: Seq<char>,
    out: Seq<Seq<char>>,
) -> Seq<Seq<char>>
    decreases s.len() - i,
{
    if i < 0 || i >= s.len() {
        flush(out, cur)
    } else {
        let c = s[i];
        match q {
            None => {
                if c == '\'' || c == '"' {
                    words_from(s, i + 1, Some(c), cur, out)
                } else if is_ws(c) {
                    words_from(s, i + 1, None, Seq::empty(), flush(out, cur))
                } else if c == '\\' {
                    if i + 1 < s.len() {
                        words_from(s, i + 2, None, cur.push(s[i + 1]), out)
                    } else {
                        words_from(s, i + 1, None, cur, out)
                    }
                } else {
                    words_from(s, i + 1, None, cur.push(c), out)
                }
            },
            Some(x) => {
                if c == x {
                    words_from(s, i + 1, None, cur, out)
                } else if c == '\\' {
                    if i + 1 < s.len() {
                        words_from(s, i + 2, q, cur.push(quoted_escape(s[i + 1])), out)
                    } else {
                        words_from(s, i + 1, q, cur, out)
                    }
                } else {
                    words_from(s, i + 1, q, cur.push(c), out)
                }
            },
        }
    }
}

/// The words of a command line.
pub open spec fn words_spec(s: Seq<char>) -> Seq<Seq<char>> {
    words_from(flatten_seq(s), 0, None, Seq::empty(), Seq::empty())
}

// ------------------------------------------------------------------ flags

/// Flags whose value is skipped along with them.
pub open spec fn takes_value_spec(f: Seq<char>) -> bool {
    ||| f == "--connect-timeout"@
    ||| f == "--max-time"@
    ||| f == "--retry"@
    ||| f == "-m"@
    ||| f == "--proxy"@
    ||| f == "-x"@
    ||| f == "-U"@
    ||| f == "--cert"@
    ||| f == "-E"@
}

/// `key=value` split at the first `=`; without one the whole text is the key.
pub open spec fn split_kv_spec(s: Seq<char>) -> (Seq<char>, Seq<char>) {
    match split_once_seq(s, '=') {
        Some((k, v)) => (k, v),
        None => (s, Seq::empty()),
    }
}

/// Index of the first pair whose key equals `key` up to ASCII case, or -1.
pub open spec fn find_key(h: Seq<(Seq<char>, Seq<char>)>, key: Seq<char>) -> int
    decreases h.len(),
{
    if h.len() == 0 {
        -1
    } else if eq_ignore_case_seq(h[0].0, key) {
        0
    } else {
        let r = find_key(h.drop_first(), key);
        if r < 0 {
            -1
        } else {
            r + 1
        }
    }
}

/// A cookie joins the first `Cookie` header, or starts one.
pub open spec fn push_cookie_spec(h: Seq<(Seq<char>, Seq<char>)>, c: Seq<char>) -> Seq<
    (Seq<char>, Seq<char>),
> {
    let i = find_key(h, "cookie"@);
    if i < 0 {
        h.push(("Cookie"@, c))
    } else {
        h.update(i, (h[i].0, h[i].1 + "; "@ + c))
    }
}

/// A `Content-Type` header is added unless one is present.
pub open spec fn upsert_ct_spec(h: Seq<(Seq<char>, Seq<char>)>, v: Seq<char>) -> Seq<
    (Seq<char>, Seq<char>),
> {
    if find_key(h, "content-type"@) < 0 {
        h.push(("Content-Type"@, v))
    } else {
        h
    }
}

/// The effect of a `-H` value.
pub open spec fn header_step(st: CurlScan, h: Seq<char>) -> CurlScan {
    match split_once_seq(h, ':') {
        Some((k0, v0)) => {
            let k = trim_seq(k0);
            let v = trim_seq(v0);
            if eq_ignore_case_seq(k, "authorization"@) && starts_with_seq(v, "Bearer "@) {
                CurlScan { bearer: Some(v.skip(7)), ..st }
            } else {
                CurlScan { headers: st.headers.push((k, v)), ..st }
            }
        },
        None => st,
    }
}

/// The effect of a `--data-urlencode` value.
pub open spec fn urlencode_step(st: CurlScan, d0: Seq<char>) -> CurlScan {
    let d = if d0.len() > 0 && d0[0] == '=' {
        d0.drop_first()
    } else {
        d0
    };
    if st.is_get {
        CurlScan { query: st.query.push(split_kv_spec(d)), ..st }
    } else {
        CurlScan { data: st.data.push(d), ..st }
    }
}

/// The effect of a `-u` value.
pub open spec fn user_step(st: CurlScan, u: Seq<char>) -> CurlScan {
    match split_once_seq(u, ':') {
        Some((a, b)) => CurlScan { user: Some((a, b)), ..st },
        None => CurlScan { user: Some((u, Seq::empty())), ..st },
    }
}

/// Reading the word at `i` (not the first): how many following words it
/// consumes, and what it sets.
pub open spec fn scan_step(args: Seq<Seq<char>>, i: int, st: CurlScan) -> Result<
    (nat, CurlScan),
    CurlError,
> {
    let a = args[i];
    let has_next = i + 1 < args.len();
    let n = args[i + 1];
    if a == "-X"@ || a == "--request"@ {
        if has_next { Ok((1, CurlScan { method: Some(n), ..st })) } else { Err(CurlError::MissingValue) }
    } else if a == "--url"@ {
        if has_next { Ok((1, CurlScan { url: n, ..st })) } else { Err(CurlError::MissingValue) }
    } else if a == "-H"@ || a == "--header"@ {
        if has_next { Ok((1, header_step(st, n))) } else { Err(CurlError::MissingValue) }
    } else if a == "-d"@ || a == "--data"@ || a == "--data-raw"@ || a == "--data-binary"@ || a
        == "--data-ascii"@ {
        if has_next { Ok((1, CurlScan { data: st.data.push(n), ..st })) } else { Err(CurlError::MissingValue) }
    } else if a == "--json"@ {
        if has_next {
            Ok((1, CurlScan { json_ct: true, data: st.data.push(n), ..st }))
        } else {
            Err(CurlError::MissingValue)
        }
    } else if a == "--data-urlencode"@ {
        if has_next { Ok((1, urlencode_step(st, n))) } else { Err(CurlError::MissingValue) }
    } else if a == "-u"@ || a == "--user"@ {
        if has_next { Ok((1, user_step(st, n))) } else { Err(CurlError::MissingValue) }
    } else if a == "--oauth2-bearer"@ {
        if has_next { Ok((1, CurlScan { bearer: Some(n), ..st })) } else { Err(CurlError::MissingValue) }
    } else if a == "-b"@ || a == "--cookie"@ {
        if has_next {
            Ok((1, CurlScan { headers: push_cookie_spec(st.headers, n), ..st }))
        } else {
            Err(CurlError::MissingValue)
        }
    } else if a == "-G"@ || a == "--get"@ {
        Ok((0, CurlScan { is_get: true, ..st }))
    } else if a.len() > 0 && a[0] == '-' {
        if takes_value_spec(a) && !(has_next && n.len() > 0 && n[0] == '-') {
            Ok((1, st))
        } else {
            Ok((0, st))
        }
    } else if st.url.len() == 0 {
        Ok((0, CurlScan { url: a, ..st }))
    } else {
        Ok((0, st))
    }
}

/// Reading the words from `i` to the end.
pub open spec fn scan_from(args: Seq<Seq<char>>, i: int, st: CurlScan) -> Result<CurlScan, CurlError>
    decreases (if i < args.len() { args.len() - i } else { 0 }),
{
    if i < 0 || i >= args.len() {
        Ok(st)
    } else {
        match scan_step(args, i, st) {
            Err(e) => Err(e),
            Ok((k, st2)) => scan_from(args, i + k + 1, st2),
        }
    }
}

/// The request that the scanned flags describe (method not yet uppercased).
pub open spec fn finish_spec(st: CurlScan) -> Result<CurlImportView, CurlError> {
    if st.url.len() == 0 {
        Err(CurlError::NoUrl)
    } else {
        let url = match split_once_seq(st.url, '?') {
            Some((base, _)) => base,
            None => st.url,
        };
        let query = match split_once_seq(st.url, '?') {
            Some((_, qs)) => st.query + split_seq(qs, '&').map_values(|p: Seq<char>| split_kv_spec(p)),
            None => st.query,
        };
        let body = join_seq(st.data, "&"@);
        let method = match st.method {
            Some(m) => m,
            None => if body.len() == 0 { "GET"@ } else { "POST"@ },
        };
        let headers = if st.json_ct {
            upsert_ct_spec(st.headers, "application/json"@)
        } else {
            st.headers
        };
        let t = trim_start_seq(body);
        let body_type = if t.len() > 0 && t[0] == '{' { "JSON"@ } else { "Text"@ };
        let (auth_type, username, password, token) = match st.user {
            Some((u, p)) => (AuthType::Basic, u, p, Seq::<char>::empty()),
            None => match st.bearer {
                Some(t) => (AuthType::Bearer, Seq::<char>::empty(), Seq::<char>::empty(), t),
                None => (AuthType::NoAuth, Seq::<char>::empty(), Seq::<char>::empty(), Seq::<char>::empty()),
            },
        };
        Ok(CurlImportView {
            url,
            method,
            params: query,
            headers,
            auth_type,
            username,
            password,
            token,
            body_type,
            body,
        })
    }
}

/// The request that the words of a command describe (method as written).
pub open spec fn parse_args_spec(args: Seq<Seq<char>>) -> Result<CurlImportView, CurlError> {
    if args.len() == 0 || args[0] != "curl"@ {
        Err(CurlError::NotCurl)
    } else {
        match scan_from(args, 1, scan_init()) {
            Err(e) => Err(e),
            Ok(st) => finish_spec(st),
        }
    }
}

/// The request that a command line describes, method uppercased.
pub open spec fn parse_spec(command: Seq<char>) -> Result<CurlImportView, CurlError> {
    match parse_args_spec(words_spec(command)) {
        Err(e) => Err(e),
        Ok(v) => Ok(CurlImportView { method: unicode_upper(v.method), ..v }),
    }
}

} // verus!

verus! {

/// Importer of curl command lines.
pub struct CurlRequest;

/// Pairs that start with `key` (up to ASCII case): `find_key` is the first.
pub proof fn lemma_find_key(h: Seq<(Seq<char>, Seq<char>)>, key: Seq<char>)
    ensures
        -1 <= find_key(h, key) < h.len(),
        find_key(h, key) >= 0 ==> eq_ignore_case_seq(h[find_key(h, key)].0, key),
        forall|j: int| 0 <= j < find_key(h, key) ==> !eq_ignore_case_seq(#[trigger] h[j].0, key),
        find_key(h, key) < 0 ==> forall|j: int|
            0 <= j < h.len() ==> !eq_ignore_case_seq(#[trigger] h[j].0, key),
    decreases h.len(),
{
    if h.len() > 0 && !eq_ignore_case_seq(h[0].0, key) {
        lemma_find_key(h.drop_first(), key);
        assert forall|j: int| 0 <= j < find_key(h, key) implies !eq_ignore_case_seq(
            #[trigger] h[j].0,
            key,
        ) by {
            if j > 0 {
                assert(h[j] == h.drop_first()[j - 1]);
            }
        }
        if find_key(h, key) < 0 {
            assert forall|j: int| 0 <= j < h.len() implies !eq_ignore_case_seq(
                #[trigger] h[j].0,
                key,
            ) by {
                if j > 0 {
                    assert(h[j] == h.drop_first()[j - 1]);
                }
            }
        }
    }
}

/// Index of the first pair whose key equals `key` up to ASCII case.
fn find_key_index(h: &Vec<(String, String)>, key: &str) -> (r: Option<usize>)
    ensures
        match r {
            Some(i) => i < h@.len() && find_key(pairs_view(h@), key@) == i,
            None => find_key(pairs_view(h@), key@) == -1,
        },
{
    let ghost hv = pairs_view(h@);
    proof {
        lemma_find_key(hv, key@);
    }
    let mut i: usize = 0;
    while i < h.len()
        invariant
            i <= h@.len(),
            hv == pairs_view(h@),
            -1 <= find_key(hv, key@) < hv.len(),
            find_key(hv, key@) >= 0 ==> eq_ignore_case_seq(hv[find_key(hv, key@)].0, key@),
            forall|j: int| 0 <= j < find_key(hv, key@) ==> !eq_ignore_case_seq(#[trigger] hv[j].0, key@),
            find_key(hv, key@) < 0 ==> forall|j: int|
                0 <= j < hv.len() ==> !eq_ignore_case_seq(#[trigger] hv[j].0, key@),
            forall|j: int| 0 <= j < i ==> !eq_ignore_case_seq(#[trigger] hv[j].0, key@),
        decreases h@.len() - i,
    {
        let k = crate::text::chars_of(h[i].0.as_str());
        if crate::text::eq_ignore_ascii_case_str(k.as_slice(), key) {
            assert(eq_ignore_case_seq(hv[i as int].0, key@));
            return Some(i);
        }
        assert(!eq_ignore_case_seq(hv[i as int].0, key@));
        i += 1;
    }
    None
}

/// Appends a pair of strings, keeping the pair views in step.
fn push_pair(v: &mut Vec<(String, String)>, a: String, b: String)
    ensures
        pairs_view(final(v)@) == pairs_view(old(v)@).push((a@, b@)),
{
    v.push((a, b));
    assert(pairs_view(v@) =~= pairs_view(old(v)@).push((a@, b@)));
}

/// Appends a string, keeping the string views in step.
fn push_string(v: &mut Vec<String>, s: String)
    ensures
        strs_view(final(v)@) == strs_view(old(v)@).push(s@),
{
    v.push(s);
    assert(strs_view(v@) =~= strs_view(old(v)@).push(s@));
}

/// The exec state of the flag scan.
struct ScanState {
    url: String,
    method: Option<String>,
    data: Vec<String>,
    headers: Vec<(String, String)>,
    query: Vec<(String, String)>,
    user: Option<(String, String)>,
    bearer: Option<String>,
    is_get: bool,
    json_ct: bool,
}

impl View for ScanState {
    type V = CurlScan;

    closed spec fn view(&self) -> CurlScan {
        CurlScan {
            url: self.url@,
            method: opt_view(self.method),
            data: strs_view(self.data@),
            headers: pairs_view(self.headers@),
            query: pairs_view(self.query@),
            user: match self.user {
                Some((a, b)) => Some((a@, b@)),
                None => None,
            },
            bearer: opt_view(self.bearer),
            is_get: self.is_get,
            json_ct: self.json_ct,
        }
    }
}

impl CurlRequest {
    /// Whether a text looks like a curl command (`curl ` after leading whitespace).
    pub fn is_curl_command(command: &str) -> (r: bool)
        ensures
            r == starts_with_seq(trim_start_seq(command@), "curl "@),
    {
        let cs = crate::text::chars_of(command);
        let t = crate::text::trim_start(cs.as_slice());
        crate::text::starts_with_str(t.as_slice(), "curl ")
    }

    /// Splits a command line into words, honouring quotes, backslash escapes
    /// and backslash-newline continuations.
    pub fn tokenize(s: &str) -> (r: Vec<String>)
        ensures
            strs_view(r@) == words_spec(s@),
    {
        let cs = crate::text::chars_of(s);
        let crlf = vec!['\\', '\r', '\n'];
        let lf = vec!['\\', '\n'];
        let space = vec![' '];
        let f1 = crate::text::replace_all(cs.as_slice(), crlf.as_slice(), space.as_slice());
        let flat = crate::text::replace_all(f1.as_slice(), lf.as_slice(), space.as_slice());
        assert(crlf@ == seq!['\\', '\r', '\n']);
        assert(lf@ == seq!['\\', '\n']);
        assert(space@ == seq![' ']);
        assert(flat@ == flatten_seq(s@));
        let mut out: Vec<String> = Vec::new();
        let mut cur: Vec<char> = Vec::new();
        let mut q: Option<char> = None;
        let mut i: usize = 0;
        assert(strs_view(out@) =~= Seq::<Seq<char>>::empty());
        while i < flat.len()
            invariant
                i <= flat@.len(),
                words_from(flat@, i as int, q, cur@, strs_view(out@)) == words_spec(s@),
            decreases flat@.len() - i,
        {
            let c = flat[i];
            match q {
                None => {
                    if c == '\'' || c == '"' {
                        q = Some(c);
                        i += 1;
                    } else if crate::text::is_whitespace(c) {
                        if cur.len() > 0 {
                            push_string(&mut out, crate::text::string_of(cur.as_slice()));
                        }
                        cur = Vec::new();
                        i += 1;
                    } else if c == '\\' {
                        if i + 1 < flat.len() {
                            cur.push(flat[i + 1]);
                            i += 2;
                        } else {
                            i += 1;
                        }
                    } else {
                        cur.push(c);
                        i += 1;
                    }
                },
                Some(x) => {
                    if c == x {
                        q = None;
                        i += 1;
                    } else if c == '\\' {
                        if i + 1 < flat.len() {
                            let n = flat[i + 1];
                            let e = if n == 'n' {
                                '\n'
                            } else if n == 't' {
                                '\t'
                            } else {
                                n
                            };
                            cur.push(e);
                            i += 2;
                        } else {
                            i += 1;
                        }
                    } else {
                        cur.push(c);
                        i += 1;
                    }
                },
            }
        }
        if cur.len() > 0 {
            push_string(&mut out, crate::text::string_of(cur.as_slice()));
        }
        out
    }

    /// Moves to the next word and returns it.
    pub fn next(a: &[String], i: &mut usize) -> (r: Result<String, CurlError>)
        requires
            *old(i) < usize::MAX,
        ensures
            *final(i) == *old(i) + 1,
            match r {
                Ok(s) => *final(i) < a@.len() && s@ == a@[*final(i) as int]@,
                Err(e) => e == CurlError::MissingValue && *final(i) >= a@.len(),
            },
    {
        *i += 1;
        if *i < a.len() {
            Ok(a[*i].clone())
        } else {
            Err(CurlError::MissingValue)
        }
    }

    /// `key=value` split at the first `=`.
    pub fn split_kv(s: &str) -> (r: (String, String))
        ensures
            (r.0@, r.1@) == split_kv_spec(s@),
    {
        let cs = crate::text::chars_of(s);
        match crate::text::split_once(cs.as_slice(), '=') {
            Some((k, v)) => (crate::text::string_of(k.as_slice()), crate::text::string_of(v.as_slice())),
            None => (crate::text::owned(s), String::new()),
        }
    }

    /// Flags that are skipped together with their value.
    pub fn takes_value(f: &str) -> (r: bool)
        ensures
            r == takes_value_spec(f@),
    {
        crate::text::str_eq(f, "--connect-timeout") || crate::text::str_eq(f, "--max-time")
            || crate::text::str_eq(f, "--retry") || crate::text::str_eq(f, "-m")
            || crate::text::str_eq(f, "--proxy") || crate::text::str_eq(f, "-x")
            || crate::text::str_eq(f, "-U") || crate::text::str_eq(f, "--cert")
            || crate::text::str_eq(f, "-E")
    }

    /// Adds a cookie: it joins the first `Cookie` header, or starts one.
    pub fn push_cookie(h: &mut Vec<(String, String)>, c: String)
        ensures
            pairs_view(final(h)@) == push_cookie_spec(pairs_view(old(h)@), c@),
    {
        match find_key_index(h, "cookie") {
            Some(i) => {
                let k = h[i].0.clone();
                let mut v = h[i].1.clone();
                v.append("; ");
                v.append(c.as_str());
                h.set(i, (k, v));
                assert(pairs_view(h@) =~= pairs_view(old(h)@).update(
                    i as int,
                    (pairs_view(old(h)@)[i as int].0, pairs_view(old(h)@)[i as int].1 + "; "@ + c@),
                ));
            },
            None => {
                push_pair(h, crate::text::owned("Cookie"), c);
            },
        }
    }

    /// Adds a `Content-Type` header unless one is present.
    pub fn upsert_ct(h: &mut Vec<(String, String)>, v: &str)
        ensures
            pairs_view(final(h)@) == upsert_ct_spec(pairs_view(old(h)@), v@),
    {
        if find_key_index(h, "content-type").is_none() {
            push_pair(h, crate::text::owned("Content-Type"), crate::text::owned(v));
        }
    }
}

} // verus!

verus! {

impl CurlRequest {
    /// The effect of a `-H` value on the scan.
    fn scan_header(st: &mut ScanState, h: &str)
        ensures
            final(st)@ == header_step(old(st)@, h@),
    {
        let hc = crate::text::chars_of(h);
        match crate::text::split_once(hc.as_slice(), ':') {
            Some((k0, v0)) => {
                let k = crate::text::trim(k0.as_slice());
                let v = crate::text::trim(v0.as_slice());
                if crate::text::eq_ignore_ascii_case_str(k.as_slice(), "authorization")
                    && crate::text::starts_with_str(v.as_slice(), "Bearer ") {
                    proof {
                        reveal_strlit("Bearer ");
                    }
                    let t = crate::text::slice_chars(v.as_slice(), 7, v.len());
                    assert(t@ == v@.skip(7));
                    st.bearer = Some(crate::text::string_of(t.as_slice()));
                } else {
                    push_pair(
                        &mut st.headers,
                        crate::text::string_of(k.as_slice()),
                        crate::text::string_of(v.as_slice()),
                    );
                }
            },
            None => {},
        }
    }

    /// The effect of a `--data-urlencode` value on the scan.
    fn scan_urlencode(st: &mut ScanState, d0: &str)
        ensures
            final(st)@ == urlencode_step(old(st)@, d0@),
    {
        let dc = crate::text::chars_of(d0);
        let d = if dc.len() > 0 && dc[0] == '=' {
            let t = crate::text::slice_chars(dc.as_slice(), 1, dc.len());
            assert(t@ == dc@.drop_first());
            crate::text::string_of(t.as_slice())
        } else {
            crate::text::owned(d0)
        };
        if st.is_get {
            let (k, v) = Self::split_kv(d.as_str());
            push_pair(&mut st.query, k, v);
        } else {
            push_string(&mut st.data, d);
        }
    }

    /// The effect of a `-u` value on the scan.
    fn scan_user(st: &mut ScanState, u: &str)
        ensures
            final(st)@ == user_step(old(st)@, u@),
    {
        let uc = crate::text::chars_of(u);
        match crate::text::split_once(uc.as_slice(), ':') {
            Some((a, b)) => {
                st.user = Some((crate::text::string_of(a.as_slice()), crate::text::string_of(b.as_slice())));
            },
            None => {
                st.user = Some((crate::text::owned(u), String::new()));
            },
        }
    }

    /// Reads the word at `i`; returns how many following words it consumed.
    fn scan_word(args: &Vec<String>, i: usize, st: &mut ScanState) -> (r: Result<usize, CurlError>)
        requires
            i < args@.len(),
        ensures
            match scan_step(strs_view(args@), i as int, old(st)@) {
                Ok((k, s2)) => r matches Ok(k2) && k2 == k && final(st)@ == s2,
                Err(e) => r == Err::<usize, CurlError>(e),
            },
    {
        let ghost av = strs_view(args@);
        assert(av[i as int] == args@[i as int]@);
        let a = args[i].as_str();
        let has_next = i < args.len() - 1;
        if has_next {
            assert(av[i + 1] == args@[i + 1]@);
        }
        if crate::text::str_eq(a, "-X") || crate::text::str_eq(a, "--request") {
            if !has_next {
                return Err(CurlError::MissingValue);
            }
            st.method = Some(args[i + 1].clone());
            Ok(1)
        } else if crate::text::str_eq(a, "--url") {
            if !has_next {
                return Err(CurlError::MissingValue);
            }
            st.url = args[i + 1].clone();
            Ok(1)
        } else if crate::text::str_eq(a, "-H") || crate::text::str_eq(a, "--header") {
            if !has_next {
                return Err(CurlError::MissingValue);
            }
            Self::scan_header(st, args[i + 1].as_str());
            Ok(1)
        } else if crate::text::str_eq(a, "-d") || crate::text::str_eq(a, "--data")
            || crate::text::str_eq(a, "--data-raw") || crate::text::str_eq(a, "--data-binary")
            || crate::text::str_eq(a, "--data-ascii") {
            if !has_next {
                return Err(CurlError::MissingValue);
            }
            push_string(&mut st.data, args[i + 1].clone());
            Ok(1)
        } else if crate::text::str_eq(a, "--json") {
            if !has_next {
                return Err(CurlError::MissingValue);
            }
            st.json_ct = true;
            push_string(&mut st.data, args[i + 1].clone());
            Ok(1)
        } else if crate::text::str_eq(a, "--data-urlencode") {
            if !has_next {
                return Err(CurlError::MissingValue);
            }
            Self::scan_urlencode(st, args[i + 1].as_str());
            Ok(1)
        } else if crate::text::str_eq(a, "-u") || crate::text::str_eq(a, "--user") {
            if !has_next {
                return Err(CurlError::MissingValue);
            }
            Self::scan_user(st, args[i + 1].as_str());
            Ok(1)
        } else if crate::text::str_eq(a, "--oauth2-bearer") {
            if !has_next {
                return Err(CurlError::MissingValue);
            }
            st.bearer = Some(args[i + 1].clone());
            Ok(1)
        } else if crate::text::str_eq(a, "-b") || crate::text::str_eq(a, "--cookie") {
            if !has_next {
                return Err(CurlError::MissingValue);
            }
            Self::push_cookie(&mut st.headers, args[i + 1].clone());
            Ok(1)
        } else if crate::text::str_eq(a, "-G") || crate::text::str_eq(a, "--get") {
            st.is_get = true;
            Ok(0)
        } else {
            let ac = crate::text::chars_of(a);
            if ac.len() > 0 && ac[0] == '-' {
                let next_is_flag = if has_next {
                    let nc = crate::text::chars_of(args[i + 1].as_str());
                    nc.len() > 0 && nc[0] == '-'
                } else {
                    false
                };
                if Self::takes_value(a) && !next_is_flag {
                    Ok(1)
                } else {
                    Ok(0)
                }
            } else if st.url.as_str().is_empty() {
                st.url = args[i].clone();
                Ok(0)
            } else {
                Ok(0)
            }
        }
    }
}

} // verus!

verus! {

impl CurlRequest {
    /// Turns the scanned flags into the imported request (method as written).
    fn finish(st: ScanState) -> (r: Result<CurlImport, CurlError>)
        ensures
            match finish_spec(st@) {
                Ok(v) => r matches Ok(x) && x@ == v,
                Err(e) => r == Err::<CurlImport, CurlError>(e),
            },
    {
        if st.url.as_str().is_empty() {
            return Err(CurlError::NoUrl);
        }
        let ScanState { url, method, data, headers, query, user, bearer, is_get: _, json_ct } = st;
        let uc = crate::text::chars_of(url.as_str());
        let mut query = query;
        let url = match crate::text::split_once(uc.as_slice(), '?') {
            Some((base, qs)) => {
                let parts = crate::text::split_all(qs.as_slice(), '&');
                let ghost q0 = pairs_view(query@);
                let ghost pv = crate::text::vecs_view(parts@);
                let mut j: usize = 0;
                while j < parts.len()
                    invariant
                        j <= parts@.len(),
                        pv == crate::text::vecs_view(parts@),
                        pairs_view(query@) == q0 + pv.take(j as int).map_values(
                            |p: Seq<char>| split_kv_spec(p),
                        ),
                    decreases parts@.len() - j,
                {
                    let piece = crate::text::string_of(parts[j].as_slice());
                    let (k, v) = Self::split_kv(piece.as_str());
                    push_pair(&mut query, k, v);
                    assert(pv.take(j + 1).map_values(|p: Seq<char>| split_kv_spec(p))
                        =~= pv.take(j as int).map_values(|p: Seq<char>| split_kv_spec(p)).push(
                        split_kv_spec(pv[j as int]),
                    ));
                    j += 1;
                }
                assert(pv.take(parts@.len() as int) =~= pv);
                crate::text::string_of(base.as_slice())
            },
            None => url,
        };
        let body = crate::text::join_strings(&data, "&");
        let method = match method {
            Some(m) => m,
            None => if body.as_str().is_empty() {
                crate::text::owned("GET")
            } else {
                crate::text::owned("POST")
            },
        };
        let mut headers = headers;
        if json_ct {
            Self::upsert_ct(&mut headers, "application/json");
        }
        let bc = crate::text::chars_of(body.as_str());
        let t = crate::text::trim_start(bc.as_slice());
        let body_type = if t.len() > 0 && t[0] == '{' {
            crate::text::owned("JSON")
        } else {
            crate::text::owned("Text")
        };
        let (auth_type, username, password, token) = match user {
            Some((u, p)) => (AuthType::Basic, u, p, String::new()),
            None => match bearer {
                Some(t) => (AuthType::Bearer, String::new(), String::new(), t),
                None => (AuthType::NoAuth, String::new(), String::new(), String::new()),
            },
        };
        Ok(CurlImport {
            url,
            method,
            params: query,
            headers,
            auth_type,
            username,
            password,
            token,
            body_type,
            body,
        })
    }

    /// Reads the words of a curl command into a request; the method is kept
    /// as written.
    pub fn parse_args(args: &Vec<String>) -> (r: Result<CurlImport, CurlError>)
        ensures
            match parse_args_spec(strs_view(args@)) {
                Ok(v) => r matches Ok(x) && x@ == v,
                Err(e) => r == Err::<CurlImport, CurlError>(e),
            },
    {
        let ghost av = strs_view(args@);
        if args.len() == 0 || !crate::text::str_eq(args[0].as_str(), "curl") {
            return Err(CurlError::NotCurl);
        }
        assert(av[0] == args@[0]@);
        let mut st = ScanState {
            url: String::new(),
            method: None,
            data: Vec::new(),
            headers: Vec::new(),
            query: Vec::new(),
            user: None,
            bearer: None,
            is_get: false,
            json_ct: false,
        };
        assert(st@.data =~= Seq::<Seq<char>>::empty());
        assert(st@.headers =~= Seq::<(Seq<char>, Seq<char>)>::empty());
        assert(st@.query =~= Seq::<(Seq<char>, Seq<char>)>::empty());
        assert(st@ == scan_init());
        let mut i: usize = 1;
        while i < args.len()
            invariant
                1 <= i,
                av == strs_view(args@),
                av.len() > 0,
                av[0] == "curl"@,
                scan_from(av, i as int, st@) == scan_from(av, 1, scan_init()),
            decreases args@.len() - i,
        {
            let ghost old_st = st@;
            assert(scan_from(av, i as int, old_st) == match scan_step(av, i as int, old_st) {
                Err(e) => Err(e),
                Ok((k, s2)) => scan_from(av, i + k + 1, s2),
            });
            match Self::scan_word(args, i, &mut st) {
                Ok(k) => {
                    if k >= args.len() - i {
                        assert(scan_from(av, i + k + 1, st@) == Ok::<CurlScan, CurlError>(st@));
                        i = args.len();
                    } else {
                        i = i + k + 1;
                    }
                },
                Err(e) => {
                    assert(scan_step(av, i as int, old_st) is Err);
                    assert(scan_from(av, 1, scan_init()) == Err::<CurlScan, CurlError>(e));
                    return Err(e);
                },
            }
        }
        Self::finish(st)
    }

    /// Imports a curl command line as a request; the method is uppercased.
    pub fn parse(command: &str) -> (r: Result<CurlImport, CurlError>)
        ensures
            match parse_spec(command@) {
                Ok(v) => r matches Ok(x) && x@ == v,
                Err(e) => r == Err::<CurlImport, CurlError>(e),
            },
            match parse_args_spec(words_spec(command@)) {
                Ok(v) => all_ascii(v.method) ==> (r matches Ok(x) && x.method@ == v.method.map_values(
                    |c: char| ascii_upper(c),
                )),
                Err(_) => true,
            },
    {
        let args = Self::tokenize(command);
        match Self::parse_args(&args) {
            Ok(mut x) => {
                x.method = crate::text::to_uppercase(x.method.as_str());
                Ok(x)
            },
            Err(e) => Err(e),
        }
    }
}

} // verus!

verus! {

/// Replacing a pattern that starts with a character `p` does not contain
/// leaves `p` in front, unchanged.
proof fn lemma_replace_keeps_prefix(p: Seq<char>, r: Seq<char>, pat: Seq<char>, rep: Seq<char>)
    requires
        pat.len() > 0,
        forall|j: int| 0 <= j < p.len() ==> p[j] != pat[0],
    ensures
        replace_seq(p + r, pat, rep) == p + replace_seq(r, pat, rep),
    decreases p.len(),
{
    if p.len() == 0 {
        assert(p + r =~= r);
        assert(p + replace_seq(r, pat, rep) =~= replace_seq(r, pat, rep));
    } else {
        let s = p + r;
        if s.len() < pat.len() {
            assert(r.len() < pat.len());
        } else {
            assert(s.take(pat.len() as int)[0] == p[0]);
            assert(s.drop_first() =~= p.drop_first() + r);
            lemma_replace_keeps_prefix(p.drop_first(), r, pat, rep);
            assert(seq![p[0]] + (p.drop_first() + replace_seq(r, pat, rep)) =~= p + replace_seq(r, pat, rep));
        }
    }
}

/// Leading whitespace and what `trim_start_seq` keeps of the rest.
proof fn lemma_trim_start_split(s: Seq<char>) -> (k: int)
    ensures
        0 <= k <= s.len(),
        trim_start_seq(s) == s.skip(k),
        forall|j: int| 0 <= j < k ==> is_ws(#[trigger] s[j]),
    decreases s.len(),
{
    if s.len() > 0 && is_ws(s[0]) {
        let k1 = lemma_trim_start_split(s.drop_first());
        assert(s.drop_first().skip(k1) =~= s.skip(k1 + 1));
        assert forall|j: int| 0 <= j < k1 + 1 implies is_ws(#[trigger] s[j]) by {
            if j > 0 {
                assert(s[j] == s.drop_first()[j - 1]);
            }
        }
        k1 + 1
    } else {
        assert(s.skip(0) =~= s);
        0
    }
}

/// The words found from `i` on begin with the words finished so far.
proof fn lemma_words_keep_done(s: Seq<char>, i: int, q: Option<char>, cur: Seq<char>, out: Seq<Seq<char>>)
    ensures
        words_from(s, i, q, cur, out).len() >= out.len(),
        forall|j: int| 0 <= j < out.len() ==> #[trigger] words_from(s, i, q, cur, out)[j] == out[j],
    decreases s.len() - i,
{
    if i < 0 || i >= s.len() {
    } else {
        let c = s[i];
        match q {
            None => {
                if c == '\'' || c == '"' {
                    lemma_words_keep_done(s, i + 1, Some(c), cur, out);
                } else if is_ws(c) {
                    lemma_words_keep_done(s, i + 1, None, Seq::empty(), flush(out, cur));
                } else if c == '\\' {
                    if i + 1 < s.len() {
                        lemma_words_keep_done(s, i + 2, None, cur.push(s[i + 1]), out);
                    } else {
                        lemma_words_keep_done(s, i + 1, None, cur, out);
                    }
                } else {
                    lemma_words_keep_done(s, i + 1, None, cur.push(c), out);
                }
            },
            Some(x) => {
                if c == x {
                    lemma_words_keep_done(s, i + 1, None, cur, out);
                } else if c == '\\' {
                    if i + 1 < s.len() {
                        lemma_words_keep_done(s, i + 2, q, cur.push(quoted_escape(s[i + 1])), out);
                    } else {
                        lemma_words_keep_done(s, i + 1, q, cur, out);
                    }
                } else {
                    lemma_words_keep_done(s, i + 1, q, cur.push(c), out);
                }
            },
        }
    }
}

/// Whitespace before the first word is skipped.
proof fn lemma_words_skip_ws(s: Seq<char>, i: int, n: int)
    requires
        0 <= i <= n <= s.len(),
        forall|j: int| i <= j < n ==> is_ws(#[trigger] s[j]),
    ensures
        words_from(s, i, None, Seq::empty(), Seq::empty()) == words_from(s, n, None, Seq::empty(), Seq::empty()),
    decreases n - i,
{
    if i < n {
        assert(is_ws(s[i]));
        assert(flush(Seq::<Seq<char>>::empty(), Seq::<char>::empty()) == Seq::<Seq<char>>::empty());
        lemma_words_skip_ws(s, i + 1, n);
    }
}

/// Scanning the flags fails only for a missing value.
proof fn lemma_scan_error(args: Seq<Seq<char>>, i: int, st: CurlScan)
    ensures
        scan_from(args, i, st) is Err ==> scan_from(args, i, st)->Err_0 == CurlError::MissingValue,
    decreases (if i < args.len() { args.len() - i } else { 0 }),
{
    if 0 <= i < args.len() {
        match scan_step(args, i, st) {
            Err(e) => {},
            Ok((k, st2)) => lemma_scan_error(args, i + k + 1, st2),
        }
    }
}

/// A command that the curl detector accepts (`curl ` after leading
/// whitespace) is never refused as "not a curl command": it imports, or
/// fails only for a flag without its value or a missing URL.
pub proof fn law_detected_command_is_curl(command: Seq<char>)
    requires
        starts_with_seq(trim_start_seq(command), "curl "@),
    ensures
        parse_spec(command) != Err::<CurlImportView, CurlError>(CurlError::NotCurl),
{
    reveal_strlit("curl ");
    reveal_strlit("curl");
    let k = lemma_trim_start_split(command);
    let n = k + 5;
    assert(command.skip(k).subrange(0, 5) == "curl "@);
    let p = command.take(n);
    let r = command.skip(n);
    assert(command =~= p + r);
    assert forall|j: int| 0 <= j < p.len() implies p[j] != '\\' by {
        if j < k {
            assert(is_ws(command[j]));
        } else {
            assert(p[j] == command.skip(k).subrange(0, 5)[j - k]);
        }
    }
    let pat1 = seq!['\\', '\r', '\n'];
    let pat2 = seq!['\\', '\n'];
    lemma_replace_keeps_prefix(p, r, pat1, seq![' ']);
    let r1 = replace_seq(r, pat1, seq![' ']);
    lemma_replace_keeps_prefix(p, r1, pat2, seq![' ']);
    let f = flatten_seq(command);
    assert(f == p + replace_seq(r1, pat2, seq![' ']));
    assert forall|j: int| 0 <= j < n implies #[trigger] f[j] == command[j] by {
        assert(f[j] == p[j]);
    }
    assert forall|j: int| 0 <= j < k implies is_ws(#[trigger] f[j]) by {
        assert(f[j] == command[j]);
    }
    lemma_words_skip_ws(f, 0, k);
    assert(f[k] == 'c' && f[k + 1] == 'u' && f[k + 2] == 'r' && f[k + 3] == 'l' && f[k + 4] == ' ') by {
        assert(f[k] == command[k] && command[k] == command.skip(k).subrange(0, 5)[0]);
        assert(f[k + 1] == command[k + 1] && command[k + 1] == command.skip(k).subrange(0, 5)[1]);
        assert(f[k + 2] == command[k + 2] && command[k + 2] == command.skip(k).subrange(0, 5)[2]);
        assert(f[k + 3] == command[k + 3] && command[k + 3] == command.skip(k).subrange(0, 5)[3]);
        assert(f[k + 4] == command[k + 4] && command[k + 4] == command.skip(k).subrange(0, 5)[4]);
    }
    let e = Seq::<char>::empty();
    let none = Seq::<Seq<char>>::empty();
    let w = "curl"@;
    assert(e.push('c').push('u').push('r').push('l') =~= w);
    assert(flush(none, w) == seq![w]);
    assert(f.len() >= n);
    let c1 = e.push('c');
    let c2 = c1.push('u');
    let c3 = c2.push('r');
    let c4 = c3.push('l');
    assert(!is_ws('c') && !is_ws('u') && !is_ws('r') && !is_ws('l') && is_ws(' '));
    assert(words_from(f, k, None, e, none) == words_from(f, k + 1, None, c1, none));
    assert(words_from(f, k + 1, None, c1, none) == words_from(f, k + 2, None, c2, none));
    assert(words_from(f, k + 2, None, c2, none) == words_from(f, k + 3, None, c3, none));
    assert(words_from(f, k + 3, None, c3, none) == words_from(f, k + 4, None, c4, none));
    assert(words_from(f, k + 4, None, c4, none) == words_from(f, n, None, e, flush(none, c4)));
    assert(words_from(f, k, None, e, none) == words_from(f, n, None, e, seq![w]));
    lemma_words_keep_done(f, n, None, e, seq![w]);
    let words = words_spec(command);
    assert(words.len() > 0 && words[0] == w);
    lemma_scan_error(words, 1, scan_init());
}

} // verus!

verus! {

/// Every header of `a` is still in `b`, at its place and under its name,
/// with its value unless it is the `Cookie` header, which later cookies
/// extend; `b` may have more headers after them.
pub open spec fn headers_kept(a: Seq<(Seq<char>, Seq<char>)>, b: Seq<(Seq<char>, Seq<char>)>) -> bool {
    &&& a.len() <= b.len()
    &&& forall|j: int|
        0 <= j < a.len() ==> (#[trigger] b[j]).0 == a[j].0 && (!eq_ignore_case_seq(a[j].0, "cookie"@)
            ==> b[j].1 == a[j].1)
}

/// Keeping headers is transitive.
proof fn lemma_headers_kept_trans(
    a: Seq<(Seq<char>, Seq<char>)>,
    b: Seq<(Seq<char>, Seq<char>)>,
    c: Seq<(Seq<char>, Seq<char>)>,
)
    requires
        headers_kept(a, b),
        headers_kept(b, c),
    ensures
        headers_kept(a, c),
{
    assert forall|j: int| 0 <= j < a.len() implies (#[trigger] c[j]).0 == a[j].0 && (!eq_ignore_case_seq(
        a[j].0,
        "cookie"@,
    ) ==> c[j].1 == a[j].1) by {
        assert(b[j].0 == a[j].0);
        assert(c[j].0 == b[j].0);
    }
}

/// Reading one word of the command keeps every header read so far.
proof fn lemma_step_keeps_headers(args: Seq<Seq<char>>, i: int, st: CurlScan)
    requires
        0 <= i < args.len(),
    ensures
        scan_step(args, i, st) matches Ok((k, st2)) ==> headers_kept(st.headers, st2.headers),
{
    let h = st.headers;
    assert(headers_kept(h, h));
    let n = args[i + 1];
    match split_once_seq(n, ':') {
        Some((k0, v0)) => {
            let k = trim_seq(k0);
            let v = trim_seq(v0);
            assert(headers_kept(h, h.push((k, v)))) by {
                assert forall|j: int| 0 <= j < h.len() implies (#[trigger] h.push((k, v))[j]) == h[j] by {}
            }
        },
        None => {},
    }
    lemma_find_key(h, "cookie"@);
    let c = find_key(h, "cookie"@);
    assert(headers_kept(h, push_cookie_spec(h, n))) by {
        if c < 0 {
            assert forall|j: int| 0 <= j < h.len() implies (#[trigger] push_cookie_spec(h, n)[j]) == h[j] by {}
        } else {
            assert(eq_ignore_case_seq(h[c].0, "cookie"@));
        }
    }
}

/// Reading the rest of the command keeps every header read so far.
pub proof fn law_scan_keeps_headers(args: Seq<Seq<char>>, i: int, st: CurlScan)
    ensures
        scan_from(args, i, st) matches Ok(r) ==> headers_kept(st.headers, r.headers),
    decreases (if i < args.len() { args.len() - i } else { 0 }),
{
    if i < 0 || i >= args.len() {
        assert(headers_kept(st.headers, st.headers));
    } else {
        lemma_step_keeps_headers(args, i, st);
        match scan_step(args, i, st) {
            Err(e) => {},
            Ok((k, st2)) => {
                law_scan_keeps_headers(args, i + k + 1, st2);
                if let Ok(r) = scan_from(args, i + k + 1, st2) {
                    lemma_headers_kept_trans(st.headers, st2.headers, r.headers);
                }
            },
        }
    }
}

/// A `-H name: value` flag read at position `i` of the command puts the
/// trimmed header into the imported request right after the headers read
/// before it, keeping all of those; the value stays as given unless the
/// header is `Cookie`, which later cookies extend. (A header
/// `Authorization: Bearer ..` becomes the bearer token instead.)
pub proof fn law_header_flag_is_imported(
    args: Seq<Seq<char>>,
    i: int,
    st: CurlScan,
    k0: Seq<char>,
    v0: Seq<char>,
)
    requires
        0 <= i,
        i + 1 < args.len(),
        args[i] == "-H"@ || args[i] == "--header"@,
        split_once_seq(args[i + 1], ':') == Some((k0, v0)),
        !(eq_ignore_case_seq(trim_seq(k0), "authorization"@) && starts_with_seq(trim_seq(v0), "Bearer "@)),
    ensures
        scan_from(args, i, st) matches Ok(r) ==> {
            let n = st.headers.len() as int;
            &&& headers_kept(st.headers, r.headers)
            &&& n < r.headers.len()
            &&& r.headers[n].0 == trim_seq(k0)
            &&& !eq_ignore_case_seq(trim_seq(k0), "cookie"@) ==> r.headers[n].1 == trim_seq(v0)
        },
{
    reveal_strlit("-H");
    reveal_strlit("--header");
    reveal_strlit("-X");
    reveal_strlit("--request");
    reveal_strlit("--url");
    let a = args[i];
    assert(a != "-X"@ && a != "--request"@ && a != "--url"@) by {
        if a == "-H"@ {
            assert(a.len() == 2 && a[1] == 'H');
        } else {
            assert(a.len() == 8 && a[2] == 'h');
        }
    }
    let st2 = header_step(st, args[i + 1]);
    assert(scan_step(args, i, st) == Ok::<(nat, CurlScan), CurlError>((1, st2)));
    let h = st.headers;
    let k = trim_seq(k0);
    let v = trim_seq(v0);
    assert(st2.headers == h.push((k, v)));
    assert(headers_kept(h, st2.headers)) by {
        assert forall|j: int| 0 <= j < h.len() implies (#[trigger] st2.headers[j]) == h[j] by {}
    }
    law_scan_keeps_headers(args, i + 2, st2);
    if let Ok(r) = scan_from(args, i, st) {
        assert(scan_from(args, i, st) == scan_from(args, i + 2, st2));
        lemma_headers_kept_trans(h, st2.headers, r.headers);
        assert(r.headers[h.len() as int] == st2.headers[h.len() as int] || eq_ignore_case_seq(k, "cookie"@));
        assert(r.headers[h.len() as int].0 == st2.headers[h.len() as int].0);
    }
}

/// The imported request has every header the flags gave, at its place and
/// with its value; `--json` only adds a `Content-Type` header after them.
pub proof fn law_import_keeps_scanned_headers(st: CurlScan)
    ensures
        finish_spec(st) matches Ok(v) ==> v.headers.len() >= st.headers.len() && forall|j: int|
            0 <= j < st.headers.len() ==> #[trigger] v.headers[j] == st.headers[j],
{
}

} // verus!
