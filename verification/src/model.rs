//! The request-file model: what a saved request holds.

use vstd::prelude::*;

verus! {

/// One key/value row (a query parameter, a header or a variable).
#[derive(Clone, Debug)]
pub struct KeyValue {
    pub key: String,
    pub value: String,
    pub active: bool,
}

/// The abstract content of a row.
pub open spec fn kv_view(kv: KeyValue) -> (Seq<char>, Seq<char>, bool) {
    (kv.key@, kv.value@, kv.active)
}

/// The abstract content of a list of rows.
pub open spec fn kvs_view(v: Seq<KeyValue>) -> Seq<(Seq<char>, Seq<char>, bool)> {
    v.map_values(|kv: KeyValue| kv_view(kv))
}

/// Authentication scheme of a request.
#[derive(Clone, Copy, Debug, PartialEq, Eq, Structural)]
pub enum AuthType {
    NoAuth,
    Bearer,
    Basic,
}

/// Authentication section of a request file.
#[derive(Clone, Debug)]
pub struct Auth {
    pub auth_type: AuthType,
    pub username: String,
    pub password: String,
    pub token: String,
}

/// Body section of a request file.
#[derive(Clone, Debug)]
pub struct Body {
    pub body_type: String,
    pub body: String,
}

impl Auth {
    /// The authentication scheme.
    pub fn auth_type(&self) -> (r: AuthType)
        ensures
            r == self.auth_type,
    {
        self.auth_type
    }

    /// The user name and password of basic authentication.
    pub fn basic_auth_values(&self) -> (r: (String, String))
        ensures
            r.0@ == self.username@,
            r.1@ == self.password@,
    {
        (self.username.as_str().to_owned(), self.password.as_str().to_owned())
    }

    /// The token of bearer authentication.
    pub fn bearer_auth_value(&self) -> (r: String)
        ensures
            r@ == self.token@,
    {
        self.token.as_str().to_owned()
    }
}

impl Body {
    /// The body text.
    pub fn value(&self) -> (r: String)
        ensures
            r@ == self.body@,
    {
        self.body.as_str().to_owned()
    }

    /// The kind of body: `JSON`, `Text` and so on.
    pub fn body_type(&self) -> (r: String)
        ensures
            r@ == self.body_type@,
    {
        self.body_type.as_str().to_owned()
    }
}

/// A saved request.
#[derive(Clone, Debug)]
pub struct FileContent {
    pub name: String,
    pub url: String,
    pub method: String,
    pub params: Vec<KeyValue>,
    pub headers: Vec<KeyValue>,
    pub auth: Auth,
    pub body: Body,
}

/// The abstract content of a saved request.
pub struct ContentView {
    pub name: Seq<char>,
    pub url: Seq<char>,
    pub method: Seq<char>,
    pub params: Seq<(Seq<char>, Seq<char>, bool)>,
    pub headers: Seq<(Seq<char>, Seq<char>, bool)>,
    pub auth: (AuthType, Seq<char>, Seq<char>, Seq<char>),
    pub body: (Seq<char>, Seq<char>),
}

impl View for FileContent {
    type V = ContentView;

    open spec fn view(&self) -> ContentView {
        ContentView {
            name: self.name@,
            url: self.url@,
            method: self.method@,
            params: kvs_view(self.params@),
            headers: kvs_view(self.headers@),
            auth: (self.auth.auth_type, self.auth.username@, self.auth.password@, self.auth.token@),
            body: (self.body.body_type@, self.body.body@),
        }
    }
}

/// The views of a list of strings.
pub open spec fn strs_view(v: Seq<String>) -> Seq<Seq<char>> {
    v.map_values(|s: String| s@)
}

/// The views of a list of string pairs.
pub open spec fn pairs_view(v: Seq<(String, String)>) -> Seq<(Seq<char>, Seq<char>)> {
    v.map_values(|p: (String, String)| (p.0@, p.1@))
}

/// The view of an optional string.
pub open spec fn opt_view(o: Option<String>) -> Option<Seq<char>> {
    match o {
        Some(s) => Some(s@),
        None => None,
    }
}

/// A copy of a row.
pub fn copy_kv(kv: &KeyValue) -> (r: KeyValue)
    ensures
        kv_view(r) == kv_view(*kv),
{
    KeyValue { key: kv.key.clone(), value: kv.value.clone(), active: kv.active }
}

/// A copy of a list of rows.
pub fn copy_kvs(v: &Vec<KeyValue>) -> (r: Vec<KeyValue>)
    ensures
        kvs_view(r@) == kvs_view(v@),
{
    let mut r: Vec<KeyValue> = Vec::new();
    let mut i: usize = 0;
    while i < v.len()
        invariant
            i <= v@.len(),
            kvs_view(r@) == kvs_view(v@).take(i as int),
        decreases v@.len() - i,
    {
        let ghost before = r@;
        r.push(copy_kv(&v[i]));
        assert(kvs_view(r@) =~= kvs_view(before).push(kv_view(v@[i as int])));
        assert(kvs_view(v@).take(i + 1) =~= kvs_view(v@).take(i as int).push(kv_view(v@[i as int])));
        i += 1;
    }
    assert(kvs_view(v@).take(v@.len() as int) =~= kvs_view(v@));
    r
}

/// A row read from a request file: a missing key or value is empty, a
/// missing flag means switched on.
pub fn row_from_fields(key: Option<&str>, value: Option<&str>, active: Option<bool>) -> (r: KeyValue)
    ensures
        r.key@ == match key {
            Some(k) => k@,
            None => Seq::empty(),
        },
        r.value@ == match value {
            Some(v) => v@,
            None => Seq::empty(),
        },
        r.active == match active {
            Some(a) => a,
            None => true,
        },
{
    KeyValue {
        key: match key {
            Some(k) => k.to_owned(),
            None => String::new(),
        },
        value: match value {
            Some(v) => v.to_owned(),
            None => String::new(),
        },
        active: match active {
            Some(a) => a,
            None => true,
        },
    }
}

} // verus!
