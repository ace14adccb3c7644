//! The request editor's state: its key/value tables, its saved snapshot,
//! the dirty flag that compares the two, and the request it sends.

use vstd::prelude::*;
use crate::env_file::{enabled_pairs, VarView};
use crate::env_store::kvs_eq;
use crate::curl::CurlImport;
use crate::http::{active_rows, auth_payload, method_at, method_at_spec, method_row, Response};
use crate::model::{
    copy_kvs, kv_view, kvs_view, opt_view, pairs_view, Auth, AuthType, Body, ContentView,
    FileContent, KeyValue,
};
use crate::project_tree::{display_name, display_name_spec};
use crate::request::{AuthView, HttpRequest, HttpRequestView};
use crate::text::{owned, str_eq};

verus! {

// ---------------------------------------------------------------------------
// Key/value tables (query parameters and headers)
// ---------------------------------------------------------------------------

/// The rows after a new empty, switched-on row is appended.
pub open spec fn add_row_spec(rows: Seq<VarView>) -> Seq<VarView> {
    rows.push((Seq::empty(), Seq::empty(), true))
}

/// The rows after row `ix` is removed; out of range, nothing changes.
pub open spec fn remove_row_spec(rows: Seq<VarView>, ix: int) -> Seq<VarView> {
    if 0 <= ix < rows.len() {
        rows.remove(ix)
    } else {
        rows
    }
}

/// The rows after row `ix` is switched on or off; out of range, nothing changes.
pub open spec fn set_active_spec(rows: Seq<VarView>, ix: int, active: bool) -> Seq<VarView> {
    if 0 <= ix < rows.len() {
        rows.update(ix, (rows[ix].0, rows[ix].1, active))
    } else {
        rows
    }
}

/// The rows after the key and value of row `ix` are edited; out of range,
/// nothing changes.
pub open spec fn edit_row_spec(rows: Seq<VarView>, ix: int, key: Seq<char>, value: Seq<char>) -> Seq<VarView> {
    if 0 <= ix < rows.len() {
        rows.update(ix, (key, value, rows[ix].2))
    } else {
        rows
    }
}

/// Appends an empty, switched-on row.
fn push_empty_row(rows: &mut Vec<KeyValue>)
    ensures
        kvs_view(final(rows)@) == add_row_spec(kvs_view(old(rows)@)),
{
    let ghost before = rows@;
    rows.push(KeyValue { key: String::new(), value: String::new(), active: true });
    proof {
        assert(kv_view(rows@.last()) == (Seq::<char>::empty(), Seq::<char>::empty(), true));
        assert(kvs_view(rows@) =~= add_row_spec(kvs_view(before)));
    }
}

/// Removes row `ix`, if there is one.
fn remove_row_at(rows: &mut Vec<KeyValue>, ix: usize)
    ensures
        kvs_view(final(rows)@) == remove_row_spec(kvs_view(old(rows)@), ix as int),
{
    if ix < rows.len() {
        let ghost before = rows@;
        rows.remove(ix);
        assert(kvs_view(rows@) =~= kvs_view(before).remove(ix as int));
    }
}

/// Switches row `ix` on or off, if there is one.
fn set_active_at(rows: &mut Vec<KeyValue>, ix: usize, active: bool)
    ensures
        kvs_view(final(rows)@) == set_active_spec(kvs_view(old(rows)@), ix as int, active),
{
    if ix < rows.len() {
        let ghost before = rows@;
        let key = owned(rows[ix].key.as_str());
        let value = owned(rows[ix].value.as_str());
        rows.set(ix, KeyValue { key, value, active });
        assert(kvs_view(rows@) =~= set_active_spec(kvs_view(before), ix as int, active));
    }
}

/// Replaces the key and value of row `ix`, if there is one.
fn edit_row_at(rows: &mut Vec<KeyValue>, ix: usize, key: &str, value: &str)
    ensures
        kvs_view(final(rows)@) == edit_row_spec(kvs_view(old(rows)@), ix as int, key@, value@),
{
    if ix < rows.len() {
        let ghost before = rows@;
        let active = rows[ix].active;
        rows.set(ix, KeyValue { key: owned(key), value: owned(value), active });
        assert(kvs_view(rows@) =~= edit_row_spec(kvs_view(before), ix as int, key@, value@));
    }
}

/// The query parameters of a request: an editable table of key/value rows,
/// each of which can be switched off.
pub struct QueryParams {
    rows: Vec<KeyValue>,
}

impl View for QueryParams {
    type V = Seq<VarView>;

    closed spec fn view(&self) -> Seq<VarView> {
        kvs_view(self.rows@)
    }
}

impl QueryParams {
    /// A table without rows.
    pub fn new() -> (r: Self)
        ensures
            r@ == Seq::<VarView>::empty(),
    {
        let r = QueryParams { rows: Vec::new() };
        assert(r@ =~= Seq::<VarView>::empty());
        r
    }

    /// The rows, in order.
    pub fn rows(&self) -> (r: Vec<KeyValue>)
        ensures
            kvs_view(r@) == self@,
    {
        copy_kvs(&self.rows)
    }

    /// The key/value pairs of the switched-on rows, in order: what is sent.
    pub fn active_params(&self) -> (r: Vec<(String, String)>)
        ensures
            pairs_view(r@) == enabled_pairs(self@),
    {
        active_rows(&self.rows)
    }

    /// Appends an empty, switched-on row.
    pub fn add_row(&mut self)
        ensures
            final(self)@ == add_row_spec(old(self)@),
    {
        push_empty_row(&mut self.rows);
    }

    /// Removes row `ix`; an index out of range changes nothing.
    pub fn remove_row(&mut self, ix: usize)
        ensures
            final(self)@ == remove_row_spec(old(self)@, ix as int),
    {
        remove_row_at(&mut self.rows, ix);
    }

    /// Switches row `ix` on or off; an index out of range changes nothing.
    pub fn set_row_active(&mut self, ix: usize, active: bool)
        ensures
            final(self)@ == set_active_spec(old(self)@, ix as int, active),
    {
        set_active_at(&mut self.rows, ix, active);
    }

    /// Replaces the key and value of row `ix`, keeping its switch; an index
    /// out of range changes nothing.
    pub fn edit_row(&mut self, ix: usize, key: &str, value: &str)
        ensures
            final(self)@ == edit_row_spec(old(self)@, ix as int, key@, value@),
    {
        edit_row_at(&mut self.rows, ix, key, value);
    }

    /// Takes the rows of the request file's `params` list, when the file has
    /// one; without one the table keeps its rows.
    pub fn load_from_json(&mut self, rows: Option<Vec<KeyValue>>)
        ensures
            final(self)@ == match rows {
                Some(v) => kvs_view(v@),
                None => old(self)@,
            },
    {
        if let Some(v) = rows {
            self.rows = v;
        }
    }
}

/// The headers of a request: an editable table of key/value rows, each of
/// which can be switched off.
pub struct Headers {
    rows: Vec<KeyValue>,
}

impl View for Headers {
    type V = Seq<VarView>;

    closed spec fn view(&self) -> Seq<VarView> {
        kvs_view(self.rows@)
    }
}

impl Headers {
    /// A table without rows.
    pub fn new() -> (r: Self)
        ensures
            r@ == Seq::<VarView>::empty(),
    {
        let r = Headers { rows: Vec::new() };
        assert(r@ =~= Seq::<VarView>::empty());
        r
    }

    /// The rows, in order.
    pub fn rows(&self) -> (r: Vec<KeyValue>)
        ensures
            kvs_view(r@) == self@,
    {
        copy_kvs(&self.rows)
    }

    /// The name/value pairs of the switched-on headers, in order: what is sent.
    pub fn active_headers(&self) -> (r: Vec<(String, String)>)
        ensures
            pairs_view(r@) == enabled_pairs(self@),
    {
        active_rows(&self.rows)
    }

    /// Appends an empty, switched-on row.
    pub fn add_row(&mut self)
        ensures
            final(self)@ == add_row_spec(old(self)@),
    {
        push_empty_row(&mut self.rows);
    }

    /// Removes row `ix`; an index out of range changes nothing.
    pub fn remove_row(&mut self, ix: usize)
        ensures
            final(self)@ == remove_row_spec(old(self)@, ix as int),
    {
        remove_row_at(&mut self.rows, ix);
    }

    /// Switches row `ix` on or off; an index out of range changes nothing.
    pub fn set_row_active(&mut self, ix: usize, active: bool)
        ensures
            final(self)@ == set_active_spec(old(self)@, ix as int, active),
    {
        set_active_at(&mut self.rows, ix, active);
    }

    /// Replaces the name and value of row `ix`, keeping its switch; an index
    /// out of range changes nothing.
    pub fn edit_row(&mut self, ix: usize, key: &str, value: &str)
        ensures
            final(self)@ == edit_row_spec(old(self)@, ix as int, key@, value@),
    {
        edit_row_at(&mut self.rows, ix, key, value);
    }

    /// Takes the rows of the request file's `headers` list, when the file
    /// has one; without one the table keeps its rows.
    pub fn load_from_json(&mut self, rows: Option<Vec<KeyValue>>)
        ensures
            final(self)@ == match rows {
                Some(v) => kvs_view(v@),
                None => old(self)@,
            },
    {
        if let Some(v) = rows {
            self.rows = v;
        }
    }
}

/// Appending an empty row and then removing the last row gives the table
/// back unchanged.
pub proof fn law_add_then_remove_last(rows: Seq<VarView>)
    ensures
        remove_row_spec(add_row_spec(rows), rows.len() as int) == rows,
{
    assert(add_row_spec(rows).remove(rows.len() as int) =~= rows);
}

/// Switching a row on or off, or editing it, keeps the number of rows and
/// every other row.
pub proof fn law_row_edits_are_local(rows: Seq<VarView>, ix: int, active: bool, key: Seq<char>, value: Seq<char>)
    ensures
        set_active_spec(rows, ix, active).len() == rows.len(),
        edit_row_spec(rows, ix, key, value).len() == rows.len(),
        forall|j: int| 0 <= j < rows.len() && j != ix ==> #[trigger] set_active_spec(rows, ix, active)[j] == rows[j],
        forall|j: int| 0 <= j < rows.len() && j != ix ==> #[trigger] edit_row_spec(rows, ix, key, value)[j] == rows[j],
{
}

// ---------------------------------------------------------------------------
// Saved content
// ---------------------------------------------------------------------------

/// A copy of a saved request.
pub fn copy_content(c: &FileContent) -> (r: FileContent)
    ensures
        r@ == c@,
{
    FileContent {
        name: owned(c.name.as_str()),
        url: owned(c.url.as_str()),
        method: owned(c.method.as_str()),
        params: copy_kvs(&c.params),
        headers: copy_kvs(&c.headers),
        auth: Auth {
            auth_type: c.auth.auth_type,
            username: owned(c.auth.username.as_str()),
            password: owned(c.auth.password.as_str()),
            token: owned(c.auth.token.as_str()),
        },
        body: Body {
            body_type: owned(c.body.body_type.as_str()),
            body: owned(c.body.body.as_str()),
        },
    }
}

/// Whether two saved requests hold the same content.
pub fn content_eq(a: &FileContent, b: &FileContent) -> (r: bool)
    ensures
        r == (a@ == b@),
{
    let same = str_eq(a.name.as_str(), b.name.as_str())
        && str_eq(a.url.as_str(), b.url.as_str())
        && str_eq(a.method.as_str(), b.method.as_str())
        && kvs_eq(&a.params, &b.params)
        && kvs_eq(&a.headers, &b.headers)
        && a.auth.auth_type == b.auth.auth_type
        && str_eq(a.auth.username.as_str(), b.auth.username.as_str())
        && str_eq(a.auth.password.as_str(), b.auth.password.as_str())
        && str_eq(a.auth.token.as_str(), b.auth.token.as_str())
        && str_eq(a.body.body_type.as_str(), b.body.body_type.as_str())
        && str_eq(a.body.body.as_str(), b.body.body.as_str());
    proof {
        if !same && a@ == b@ {
            assert(a@.params == b@.params);
            assert(a@.headers == b@.headers);
            assert(a@.auth == b@.auth);
            assert(a@.body == b@.body);
        }
    }
    same
}

/// The credentials that a request with these auth settings carries.
pub open spec fn auth_sent(auth: (AuthType, Seq<char>, Seq<char>, Seq<char>)) -> AuthView {
    match auth.0 {
        AuthType::NoAuth => AuthView::NoAuth,
        AuthType::Basic => AuthView::Basic { username: auth.1, password: auth.2 },
        AuthType::Bearer => AuthView::Bearer { token: auth.3 },
    }
}

/// The request sent for a saved request: its method and URL, the
/// switched-on parameters and headers, its body text and its credentials.
pub open spec fn request_for(c: ContentView) -> HttpRequestView {
    HttpRequestView {
        url: c.url,
        method: c.method,
        query_params: enabled_pairs(c.params),
        headers: enabled_pairs(c.headers),
        body: c.body.1,
        auth: auth_sent(c.auth),
    }
}

/// Builds the request to send from the editor's current content.
pub fn request_from_content(content: &FileContent) -> (r: HttpRequest)
    ensures
        r@ == request_for(content@),
{
    let queries = active_rows(&content.params);
    let headers = active_rows(&content.headers);
    let auth = auth_payload(
        content.auth.auth_type,
        owned(content.auth.username.as_str()),
        owned(content.auth.password.as_str()),
        owned(content.auth.token.as_str()),
    );
    HttpRequest::new(content.method.as_str(), content.url.as_str())
        .headers(headers)
        .queries(queries)
        .body(content.body.body.as_str())
        .auth(auth)
}

/// The method the editor shows for `m`: `m` itself when the method menu
/// lists it, else `GET`.
pub open spec fn menu_method(m: Seq<char>) -> Seq<char> {
    if exists|k: int| 0 <= k < 7 && method_at_spec(k) == m {
        m
    } else {
        "GET"@
    }
}

/// Switched-on rows for the given pairs.
pub open spec fn rows_from_pairs(p: Seq<(Seq<char>, Seq<char>)>) -> Seq<VarView> {
    p.map_values(|q: (Seq<char>, Seq<char>)| (q.0, q.1, true))
}

/// One switched-on row per pair, in order.
fn rows_of_pairs(pairs: &Vec<(String, String)>) -> (r: Vec<KeyValue>)
    ensures
        kvs_view(r@) == rows_from_pairs(pairs_view(pairs@)),
{
    let mut r: Vec<KeyValue> = Vec::new();
    let mut i: usize = 0;
    while i < pairs.len()
        invariant
            i <= pairs@.len(),
            kvs_view(r@) == rows_from_pairs(pairs_view(pairs@)).take(i as int),
        decreases pairs@.len() - i,
    {
        let ghost before = r@;
        r.push(KeyValue { key: owned(pairs[i].0.as_str()), value: owned(pairs[i].1.as_str()), active: true });
        assert(kvs_view(r@) =~= kvs_view(before).push((pairs@[i as int].0@, pairs@[i as int].1@, true)));
        assert(rows_from_pairs(pairs_view(pairs@)).take(i + 1) =~= rows_from_pairs(pairs_view(pairs@)).take(
            i as int,
        ).push((pairs@[i as int].0@, pairs@[i as int].1@, true)));
        i += 1;
    }
    assert(rows_from_pairs(pairs_view(pairs@)).take(pairs@.len() as int) =~= rows_from_pairs(pairs_view(pairs@)));
    r
}

/// What the editor holds after an imported curl command is loaded into it:
/// the command's URL, its method when the method menu lists it (else
/// `GET`), its parameters and headers as switched-on rows, its credentials
/// and its body; the name is the editor's own.
pub fn content_from_import(name: &str, import: &CurlImport) -> (r: FileContent)
    ensures
        r@ == (ContentView {
            name: name@,
            url: import@.url,
            method: menu_method(import@.method),
            params: rows_from_pairs(import@.params),
            headers: rows_from_pairs(import@.headers),
            auth: (import@.auth_type, import@.username, import@.password, import@.token),
            body: (import@.body_type, import@.body),
        }),
{
    let row = method_row(import.method.as_str());
    let method = owned(method_at(row));
    proof {
        if !(exists|k: int| 0 <= k < 7 && method_at_spec(k) == import@.method) {
            assert(row == 0);
        }
    }
    FileContent {
        name: owned(name),
        url: owned(import.url.as_str()),
        method,
        params: rows_of_pairs(&import.params),
        headers: rows_of_pairs(&import.headers),
        auth: Auth {
            auth_type: import.auth_type,
            username: owned(import.username.as_str()),
            password: owned(import.password.as_str()),
            token: owned(import.token.as_str()),
        },
        body: Body { body_type: owned(import.body_type.as_str()), body: owned(import.body.as_str()) },
    }
}

// ---------------------------------------------------------------------------
// The editor of one request
// ---------------------------------------------------------------------------

/// The abstract state of a request editor.
pub struct DraftView {
    pub path: Option<Seq<char>>,
    pub tab_name: Seq<char>,
    pub selected_config: nat,
    pub dirty: bool,
    pub sending: bool,
    pub snapshot: ContentView,
}

/// tokio's handle for cancelling a spawned task, carried through unopened.
#[verifier::external_type_specification]
#[verifier::external_body]
pub struct ExAbortHandle(tokio::task::AbortHandle);

/// Calls `tokio::task::AbortHandle::abort`, which asks the runtime to
/// cancel the task; it returns nothing, and whether the task was still
/// running is not reported.
#[verifier::external_body]
fn abort_task(handle: &tokio::task::AbortHandle) {
    handle.abort();
}

/// The bookkeeping of one open request: the file it belongs to, its tab
/// label, the content as last saved or loaded, and whether the editor's
/// content differs from it.
pub struct RequestPlayground {
    path: Option<String>,
    tab_name: String,
    selected_config: usize,
    dirty: bool,
    pending: Option<tokio::task::AbortHandle>,
    snapshot: FileContent,
}

impl View for RequestPlayground {
    type V = DraftView;

    closed spec fn view(&self) -> DraftView {
        DraftView {
            path: opt_view(self.path),
            tab_name: self.tab_name@,
            selected_config: self.selected_config as nat,
            dirty: self.dirty,
            sending: self.pending is Some,
            snapshot: self.snapshot@,
        }
    }
}

/// The state after the editor's content is compared with the snapshot.
pub open spec fn evaluated(d: DraftView, current: ContentView) -> DraftView {
    DraftView { dirty: current != d.snapshot, ..d }
}

/// The state after `current` was written to the file or loaded from it.
pub open spec fn settled(d: DraftView, current: ContentView) -> DraftView {
    DraftView { snapshot: current, dirty: false, ..d }
}

/// The state after the file was renamed to `name` at `path`.
pub open spec fn renamed(d: DraftView, name: Seq<char>, path: Seq<char>) -> DraftView {
    DraftView {
        tab_name: display_name_spec(name),
        path: Some(path),
        snapshot: ContentView { name: display_name_spec(name), ..d.snapshot },
        ..d
    }
}

impl RequestPlayground {
    /// A fresh editor for an unsaved request whose widgets hold `initial`.
    pub fn new(initial: FileContent) -> (r: Self)
        ensures
            r@ == (DraftView {
                path: None,
                tab_name: "Untitled"@,
                selected_config: 0,
                dirty: false,
                sending: false,
                snapshot: initial@,
            }),
    {
        RequestPlayground {
            path: None,
            tab_name: owned("Untitled"),
            selected_config: 0,
            dirty: false,
            pending: None,
            snapshot: initial,
        }
    }

    /// The file this request is saved to, if any.
    pub fn path(&self) -> (r: Option<String>)
        ensures
            opt_view(r) == self@.path,
    {
        match &self.path {
            Some(p) => Some(owned(p.as_str())),
            None => None,
        }
    }

    /// Points the editor at another file.
    pub fn set_path(&mut self, path: String)
        ensures
            final(self)@ == (DraftView { path: Some(path@), ..old(self)@ }),
    {
        self.path = Some(path);
    }

    /// The label of the request's tab.
    pub fn tab_name(&self) -> (r: String)
        ensures
            r@ == self@.tab_name,
    {
        owned(self.tab_name.as_str())
    }

    /// Sets the label of the request's tab.
    pub fn set_tab_name(&mut self, name: String)
        ensures
            final(self)@ == (DraftView { tab_name: name@, ..old(self)@ }),
    {
        if !str_eq(self.tab_name.as_str(), name.as_str()) {
            self.tab_name = name;
        }
    }

    /// Sets the unsaved-changes flag.
    pub fn mark_dirty(&mut self, status: bool)
        ensures
            final(self)@ == (DraftView { dirty: status, ..old(self)@ }),
    {
        self.dirty = status;
    }

    /// Whether the editor holds changes that are not saved.
    pub fn is_dirty(&self) -> (r: bool)
        ensures
            r == self@.dirty,
    {
        self.dirty
    }

    /// Which of the request's configuration tabs is shown.
    pub fn selected_tab(&self) -> (r: usize)
        ensures
            r == self@.selected_config,
    {
        self.selected_config
    }

    /// Shows configuration tab `ix`.
    pub fn select_tab(&mut self, ix: usize)
        ensures
            final(self)@ == (DraftView { selected_config: ix as nat, ..old(self)@ }),
    {
        self.selected_config = ix;
    }

    /// Whether a request is on its way.
    pub fn is_sending(&self) -> (r: bool)
        ensures
            r == self@.sending,
    {
        self.pending.is_some()
    }

    /// Keeps the handle of the request that was just sent.
    pub fn set_pending(&mut self, handle: tokio::task::AbortHandle)
        ensures
            final(self)@ == (DraftView { sending: true, ..old(self)@ }),
    {
        self.pending = Some(handle);
    }

    /// Forgets the handle once the request has finished.
    pub fn clear_pending(&mut self)
        ensures
            final(self)@ == (DraftView { sending: false, ..old(self)@ }),
    {
        self.pending = None;
    }

    /// Cancels the request on its way, if any, by handing its handle to
    /// tokio's `abort`. That the runtime then stops the task is tokio's
    /// doing and is not verified here; the contract says only that the
    /// editor no longer counts a request as on its way.
    pub fn cancel_pending(&mut self)
        ensures
            final(self)@ == (DraftView { sending: false, ..old(self)@ }),
    {
        if let Some(handle) = self.pending.take() {
            abort_task(&handle);
        }
    }

    /// The content as last saved or loaded.
    pub fn snapshot(&self) -> (r: FileContent)
        ensures
            r@ == self@.snapshot,
    {
        copy_content(&self.snapshot)
    }

    /// The editor's current content, from its fields; the name is the saved
    /// one, since the editor has no field for it.
    pub fn current_content(
        &self,
        url: String,
        method: String,
        params: Vec<KeyValue>,
        headers: Vec<KeyValue>,
        auth: Auth,
        body: Body,
    ) -> (r: FileContent)
        ensures
            r@ == (ContentView {
                name: self@.snapshot.name,
                url: url@,
                method: method@,
                params: kvs_view(params@),
                headers: kvs_view(headers@),
                auth: (auth.auth_type, auth.username@, auth.password@, auth.token@),
                body: (body.body_type@, body.body@),
            }),
    {
        FileContent { name: owned(self.snapshot.name.as_str()), url, method, params, headers, auth, body }
    }

    /// Compares the editor's current content with the snapshot and records
    /// whether they differ.
    pub fn evaluate_dirty(&mut self, current: &FileContent)
        ensures
            final(self)@ == evaluated(old(self)@, current@),
    {
        let same = content_eq(current, &self.snapshot);
        self.dirty = !same;
    }

    /// The method recorded for the file tree: the editor's method when
    /// changes are saved on close, else the method as last saved.
    pub fn stored_method(&self, save_on_close: bool, current_method: &str) -> (r: String)
        ensures
            r@ == if save_on_close {
                current_method@
            } else {
                self@.snapshot.method
            },
    {
        if save_on_close {
            owned(current_method)
        } else {
            owned(self.snapshot.method.as_str())
        }
    }

    /// Records the outcome of writing `current` to the request's file: once
    /// written it becomes the snapshot and the editor is clean; a failed
    /// write changes nothing.
    pub fn save(&mut self, current: FileContent, written: bool)
        ensures
            written ==> final(self)@ == settled(old(self)@, current@),
            !written ==> final(self)@ == old(self)@,
    {
        if written {
            self.snapshot = current;
            self.dirty = false;
        }
    }

    /// Records that the editor was filled from a file and now holds
    /// `current`: it becomes the snapshot and the editor is clean.
    pub fn load(&mut self, current: FileContent)
        ensures
            final(self)@ == settled(old(self)@, current@),
    {
        self.snapshot = current;
        self.dirty = false;
    }

    /// Sends the editor's current content: the response pane opens, and the
    /// request to put on the wire is given back.
    pub fn send_request(&self, current: &FileContent, panel: &mut ResponsePanel) -> (r: HttpRequest)
        ensures
            r@ == request_for(current@),
            final(panel)@ == (PaneView { show: true, ..old(panel)@ }),
    {
        panel.open();
        request_from_content(current)
    }

    /// Follows a rename of the request's file: the tab label and the saved
    /// name become `name` without a `.json` suffix, and later saves go to
    /// `path`.
    pub fn rename_file(&mut self, name: &str, path: String)
        ensures
            final(self)@ == renamed(old(self)@, name@, path@),
    {
        let clean = display_name(name);
        self.tab_name = owned(clean.as_str());
        self.snapshot.name = clean;
        self.path = Some(path);
    }
}

/// Once content has been saved or loaded, comparing the same content again
/// finds nothing unsaved; any other content is unsaved.
pub proof fn law_saved_is_clean(d: DraftView, saved: ContentView, current: ContentView)
    ensures
        !evaluated(settled(d, saved), saved).dirty,
        evaluated(settled(d, saved), current).dirty <==> current != saved,
{
}

/// After a rename, a save goes to the new file and writes the new name, and
/// the rename alone leaves the unsaved-changes flag as it was.
pub proof fn law_rename_retargets_save(d: DraftView, name: Seq<char>, path: Seq<char>)
    ensures
        renamed(d, name, path).path == Some(path),
        renamed(d, name, path).snapshot.name == renamed(d, name, path).tab_name,
        renamed(d, name, path).dirty == d.dirty,
{
}


// ---------------------------------------------------------------------------
// The response pane
// ---------------------------------------------------------------------------

/// Whether `serde_json` accepts `text` as one JSON document.
pub uninterp spec fn json_accepts(text: Seq<char>) -> bool;

/// The text of two calls in a row: `serde_json::from_str::<serde_json::Value>`
/// parses `text`, and `serde_json::to_string_pretty` writes the parsed
/// document back. Both depend on their input alone, so this is a function
/// of the text alone.
pub uninterp spec fn json_pretty(text: Seq<char>) -> Seq<char>;

/// Parses `text` with `serde_json::from_str::<serde_json::Value>` and writes
/// the document back with `serde_json::to_string_pretty`: `None` exactly
/// where the parser refuses the text. Printing a parsed `Value` cannot fail,
/// as its object keys are strings. The parser's grammar and the printer's
/// layout are named, not written out.
#[verifier::external_body]
fn pretty_json_text(text: &str) -> (r: Option<String>)
    ensures
        r is Some <==> json_accepts(text@),
        r matches Some(p) ==> p@ == json_pretty(text@),
{
    serde_json::from_str::<serde_json::Value>(text).ok().and_then(|v| serde_json::to_string_pretty(&v).ok())
}

/// The text shown for a response body: re-indented when it is a JSON
/// document, otherwise exactly as received.
pub fn body_text(raw: &str) -> (r: String)
    ensures
        json_accepts(raw@) ==> r@ == json_pretty(raw@),
        !json_accepts(raw@) ==> r@ == raw@,
{
    match pretty_json_text(raw) {
        Some(p) => p,
        None => owned(raw),
    }
}

/// The abstract state of the response pane.
pub struct PaneView {
    pub show: bool,
    pub selected_config: nat,
    pub data: Option<Response>,
    pub body: Seq<char>,
}

/// The pane under a request that shows the last response.
pub struct ResponsePanel {
    show: bool,
    selected_config: usize,
    data: Option<Response>,
    body: String,
}

impl View for ResponsePanel {
    type V = PaneView;

    closed spec fn view(&self) -> PaneView {
        PaneView {
            show: self.show,
            selected_config: self.selected_config as nat,
            data: self.data,
            body: self.body@,
        }
    }
}

impl ResponsePanel {
    /// A hidden pane without a response.
    pub fn new() -> (r: Self)
        ensures
            r@ == (PaneView { show: false, selected_config: 0, data: None, body: Seq::empty() }),
    {
        let r = ResponsePanel { show: false, selected_config: 0, data: None, body: String::new() };
        assert(r@.body =~= Seq::<char>::empty());
        r
    }

    /// Whether the pane is shown.
    pub fn is_shown(&self) -> (r: bool)
        ensures
            r == self@.show,
    {
        self.show
    }

    /// Shows a hidden pane and hides a shown one.
    pub fn toggle(&mut self)
        ensures
            final(self)@ == (PaneView { show: !old(self)@.show, ..old(self)@ }),
    {
        self.show = !self.show;
    }

    /// Shows the pane.
    pub fn open(&mut self)
        ensures
            final(self)@ == (PaneView { show: true, ..old(self)@ }),
    {
        self.show = true;
    }

    /// Which of the pane's tabs is shown.
    pub fn selected_tab(&self) -> (r: usize)
        ensures
            r == self@.selected_config,
    {
        self.selected_config
    }

    /// Shows tab `ix` of the pane.
    pub fn select_tab(&mut self, ix: usize)
        ensures
            final(self)@ == (PaneView { selected_config: ix as nat, ..old(self)@ }),
    {
        self.selected_config = ix;
    }

    /// Shows `response`, with its body re-indented when it is JSON.
    pub fn set_response(&mut self, response: Response)
        ensures
            final(self)@.show,
            final(self)@.data == Some(response),
            final(self)@.selected_config == old(self)@.selected_config,
            json_accepts(response.body.body@) ==> final(self)@.body == json_pretty(response.body.body@),
            !json_accepts(response.body.body@) ==> final(self)@.body == response.body.body@,
    {
        let text = body_text(response.body.body.as_str());
        self.body = text;
        self.data = Some(response);
        self.show = true;
    }

    /// The response shown, if any.
    pub fn response(&self) -> (r: Option<&Response>)
        ensures
            match r {
                Some(x) => self@.data == Some(*x),
                None => self@.data is None,
            },
    {
        self.data.as_ref()
    }

    /// The body text shown.
    pub fn body(&self) -> (r: String)
        ensures
            r@ == self@.body,
    {
        owned(self.body.as_str())
    }
}

} // verus!
