//! The saved request file: its default content, and how its fields are read
//! back into the editor (authentication scheme, body type, method).

use vstd::prelude::*;
use crate::model::{Auth, AuthType, Body, FileContent};
use crate::text::{all_ascii, ascii_upper, owned, str_eq, to_uppercase, unicode_upper};

verus! {

/// The scheme chosen in the authentication menu, whose rows are
/// `No Auth`, `Bearer` and `Basic Auth`.
pub open spec fn auth_type_at_spec(row: Option<usize>) -> AuthType {
    match row {
        Some(1) => AuthType::Bearer,
        Some(2) => AuthType::Basic,
        _ => AuthType::NoAuth,
    }
}

/// The scheme of the chosen menu row; no row or an unknown one means no authentication.
pub fn auth_type_at(row: Option<usize>) -> (r: AuthType)
    ensures
        r == auth_type_at_spec(row),
{
    match row {
        Some(1) => AuthType::Bearer,
        Some(2) => AuthType::Basic,
        _ => AuthType::NoAuth,
    }
}

/// The menu row of a scheme.
pub fn auth_type_row(t: AuthType) -> (r: usize)
    ensures
        r == match t {
            AuthType::NoAuth => 0usize,
            AuthType::Bearer => 1usize,
            AuthType::Basic => 2usize,
        },
        auth_type_at_spec(Some(r)) == t,
{
    match t {
        AuthType::NoAuth => 0,
        AuthType::Bearer => 1,
        AuthType::Basic => 2,
    }
}

/// The menu label of a scheme.
pub fn auth_type_label(t: AuthType) -> (r: &'static str)
    ensures
        r@ == match t {
            AuthType::NoAuth => "No Auth"@,
            AuthType::Bearer => "Bearer"@,
            AuthType::Basic => "Basic Auth"@,
        },
{
    match t {
        AuthType::NoAuth => "No Auth",
        AuthType::Bearer => "Bearer",
        AuthType::Basic => "Basic Auth",
    }
}

/// The scheme stored in a request file under `auth_type`: `Bearer`, `Basic`,
/// and anything else, or nothing, meaning no authentication.
pub open spec fn auth_type_named_spec(name: Option<Seq<char>>) -> AuthType {
    match name {
        Some(n) => if n == "Bearer"@ {
            AuthType::Bearer
        } else if n == "Basic"@ {
            AuthType::Basic
        } else {
            AuthType::NoAuth
        },
        None => AuthType::NoAuth,
    }
}

/// The scheme stored in a request file.
pub fn auth_type_named(name: Option<&str>) -> (r: AuthType)
    ensures
        r == auth_type_named_spec(match name {
            Some(n) => Some(n@),
            None => None,
        }),
{
    match name {
        Some(n) => if str_eq(n, "Bearer") {
            AuthType::Bearer
        } else if str_eq(n, "Basic") {
            AuthType::Basic
        } else {
            AuthType::NoAuth
        },
        None => AuthType::NoAuth,
    }
}

/// The authentication section read from a request file: missing strings are empty.
pub fn auth_from_fields(
    auth_type: Option<&str>,
    username: Option<&str>,
    password: Option<&str>,
    token: Option<&str>,
) -> (r: Auth)
    ensures
        r.auth_type == auth_type_named_spec(match auth_type {
            Some(n) => Some(n@),
            None => None,
        }),
        r.username@ == match username {
            Some(u) => u@,
            None => Seq::empty(),
        },
        r.password@ == match password {
            Some(p) => p@,
            None => Seq::empty(),
        },
        r.token@ == match token {
            Some(t) => t@,
            None => Seq::empty(),
        },
{
    Auth {
        auth_type: auth_type_named(auth_type),
        username: match username {
            Some(u) => owned(u),
            None => String::new(),
        },
        password: match password {
            Some(p) => owned(p),
            None => String::new(),
        },
        token: match token {
            Some(t) => owned(t),
            None => String::new(),
        },
    }
}

/// Number of body types: `Text`, `JSON` and `HTML`.
pub const BODY_TYPE_COUNT: usize = 3;

/// The label of the body type in menu row `row`.
pub open spec fn body_type_label_spec(row: int) -> Seq<char> {
    if row == 0 {
        "Text"@
    } else if row == 1 {
        "JSON"@
    } else {
        "HTML"@
    }
}

/// The editor language of the body type in menu row `row`.
pub open spec fn body_type_language_spec(row: int) -> Seq<char> {
    if row == 0 {
        "text"@
    } else if row == 1 {
        "json"@
    } else {
        "html"@
    }
}

/// The label of a body type row.
pub fn body_type_label(row: usize) -> (r: &'static str)
    requires
        row < BODY_TYPE_COUNT,
    ensures
        r@ == body_type_label_spec(row as int),
{
    if row == 0 {
        "Text"
    } else if row == 1 {
        "JSON"
    } else {
        "HTML"
    }
}

/// The editor language of a body type row.
pub fn body_type_language(row: usize) -> (r: &'static str)
    requires
        row < BODY_TYPE_COUNT,
    ensures
        r@ == body_type_language_spec(row as int),
{
    if row == 0 {
        "text"
    } else if row == 1 {
        "json"
    } else {
        "html"
    }
}

/// The row of the body type labelled `label`, or the `JSON` row for an
/// unknown label.
pub fn body_type_row(label: &str) -> (r: usize)
    ensures
        r < BODY_TYPE_COUNT,
        (exists|k: int| 0 <= k < 3 && body_type_label_spec(k) == label@) ==> body_type_label_spec(r as int) == label@,
        (forall|k: int| 0 <= k < 3 ==> body_type_label_spec(k) != label@) ==> r == 1,
{
    let mut row: usize = 0;
    while row < BODY_TYPE_COUNT
        invariant
            row <= 3,
            forall|k: int| 0 <= k < row ==> body_type_label_spec(k) != label@,
        decreases 3 - row,
    {
        if str_eq(body_type_label(row), label) {
            return row;
        }
        row += 1;
    }
    1
}

/// The row of the `json` language, the initial choice of the body editor.
pub fn default_body_row() -> (r: usize)
    ensures
        r < BODY_TYPE_COUNT,
        body_type_language_spec(r as int) == "json"@,
{
    1
}

/// The label of the selected body type, `JSON` when nothing is selected.
pub fn body_type_or_default(selected: Option<String>) -> (r: String)
    ensures
        r@ == match selected {
            Some(s) => s@,
            None => "JSON"@,
        },
{
    match selected {
        Some(s) => s,
        None => owned("JSON"),
    }
}

/// The content of a new request file called `name`: a `GET` request with an
/// empty URL, no parameters or headers, no authentication and an empty JSON body.
pub fn new_request_file(name: &str) -> (r: FileContent)
    ensures
        r.name@ == name@,
        r.url@.len() == 0,
        r.method@ == "GET"@,
        r.params@.len() == 0,
        r.headers@.len() == 0,
        r.auth.auth_type == AuthType::NoAuth,
        r.auth.username@.len() == 0,
        r.auth.password@.len() == 0,
        r.auth.token@.len() == 0,
        r.body.body_type@ == "JSON"@,
        r.body.body@.len() == 0,
{
    FileContent {
        name: owned(name),
        url: String::new(),
        method: owned("GET"),
        params: Vec::new(),
        headers: Vec::new(),
        auth: Auth {
            auth_type: AuthType::NoAuth,
            username: String::new(),
            password: String::new(),
            token: String::new(),
        },
        body: Body { body_type: owned("JSON"), body: String::new() },
    }
}

/// The method shown for a request file: its `method` string in upper case,
/// or empty when the file could not be read or has no such string.
pub fn request_method(method: Option<&str>) -> (r: String)
    ensures
        r@ == match method {
            Some(m) => unicode_upper(m@),
            None => Seq::empty(),
        },
        match method {
            Some(m) => all_ascii(m@) ==> r@ == m@.map_values(|c: char| ascii_upper(c)),
            None => true,
        },
{
    match method {
        Some(m) => to_uppercase(m),
        None => String::new(),
    }
}

} // verus!
