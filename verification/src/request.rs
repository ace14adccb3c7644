//! The request that the code generators and the HTTP client work on.

use vstd::prelude::*;
use crate::model::pairs_view;

verus! {

/// Credentials attached to a request.
#[derive(Clone, Debug)]
pub enum AuthPayload {
    NoAuth,
    Basic { username: String, password: String },
    Bearer { token: String },
}

/// The abstract content of the credentials.
pub enum AuthView {
    NoAuth,
    Basic { username: Seq<char>, password: Seq<char> },
    Bearer { token: Seq<char> },
}

impl View for AuthPayload {
    type V = AuthView;

    open spec fn view(&self) -> AuthView {
        match self {
            AuthPayload::NoAuth => AuthView::NoAuth,
            AuthPayload::Basic { username, password } => AuthView::Basic {
                username: username@,
                password: password@,
            },
            AuthPayload::Bearer { token } => AuthView::Bearer { token: token@ },
        }
    }
}

/// A request as the editor describes it.
#[derive(Clone, Debug)]
pub struct HttpRequest {
    pub url: String,
    pub method: String,
    pub query_params: Vec<(String, String)>,
    pub headers: Vec<(String, String)>,
    pub body: String,
    pub auth: AuthPayload,
}

/// The abstract content of a request.
pub struct HttpRequestView {
    pub url: Seq<char>,
    pub method: Seq<char>,
    pub query_params: Seq<(Seq<char>, Seq<char>)>,
    pub headers: Seq<(Seq<char>, Seq<char>)>,
    pub body: Seq<char>,
    pub auth: AuthView,
}

impl View for HttpRequest {
    type V = HttpRequestView;

    open spec fn view(&self) -> HttpRequestView {
        HttpRequestView {
            url: self.url@,
            method: self.method@,
            query_params: pairs_view(self.query_params@),
            headers: pairs_view(self.headers@),
            body: self.body@,
            auth: self.auth@,
        }
    }
}

impl HttpRequest {
    /// A request with the given method and URL and nothing else.
    pub fn new(method: &str, url: &str) -> (r: Self)
        ensures
            r@.url == url@,
            r@.method == method@,
            r@.query_params.len() == 0,
            r@.headers.len() == 0,
            r@.body.len() == 0,
            r@.auth == AuthView::NoAuth,
    {
        let r = HttpRequest {
            url: crate::text::owned(url),
            method: crate::text::owned(method),
            query_params: Vec::new(),
            headers: Vec::new(),
            body: String::new(),
            auth: AuthPayload::NoAuth,
        };
        assert(r@.query_params.len() == 0);
        assert(r@.headers.len() == 0);
        r
    }

    /// The same request with another method.
    pub fn method(self, method: &str) -> (r: Self)
        ensures
            r@ == (HttpRequestView { method: method@, ..self@ }),
    {
        HttpRequest { method: crate::text::owned(method), ..self }
    }

    /// The same request with another URL.
    pub fn url(self, url: &str) -> (r: Self)
        ensures
            r@ == (HttpRequestView { url: url@, ..self@ }),
    {
        HttpRequest { url: crate::text::owned(url), ..self }
    }

    /// The same request with one more header.
    pub fn header(self, key: &str, value: &str) -> (r: Self)
        ensures
            r@ == (HttpRequestView { headers: self@.headers.push((key@, value@)), ..self@ }),
    {
        let mut s = self;
        let ghost before = s.headers@;
        s.headers.push((crate::text::owned(key), crate::text::owned(value)));
        assert(pairs_view(s.headers@) =~= pairs_view(before).push((key@, value@)));
        s
    }

    /// The same request with all headers replaced.
    pub fn headers(self, headers: Vec<(String, String)>) -> (r: Self)
        ensures
            r@ == (HttpRequestView { headers: pairs_view(headers@), ..self@ }),
    {
        HttpRequest { headers, ..self }
    }

    /// The same request with one more query parameter.
    pub fn query(self, key: &str, value: &str) -> (r: Self)
        ensures
            r@ == (HttpRequestView {
                query_params: self@.query_params.push((key@, value@)),
                ..self@
            }),
    {
        let mut s = self;
        let ghost before = s.query_params@;
        s.query_params.push((crate::text::owned(key), crate::text::owned(value)));
        assert(pairs_view(s.query_params@) =~= pairs_view(before).push((key@, value@)));
        s
    }

    /// The same request with all query parameters replaced.
    pub fn queries(self, params: Vec<(String, String)>) -> (r: Self)
        ensures
            r@ == (HttpRequestView { query_params: pairs_view(params@), ..self@ }),
    {
        HttpRequest { query_params: params, ..self }
    }

    /// The same request with another body.
    pub fn body(self, body: &str) -> (r: Self)
        ensures
            r@ == (HttpRequestView { body: body@, ..self@ }),
    {
        HttpRequest { body: crate::text::owned(body), ..self }
    }

    /// The same request with other credentials.
    pub fn auth(self, auth: AuthPayload) -> (r: Self)
        ensures
            r@ == (HttpRequestView { auth: auth@, ..self@ }),
    {
        HttpRequest { auth, ..self }
    }
}

} // verus!
