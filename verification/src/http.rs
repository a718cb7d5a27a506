//! Requests to other services, as values.

use crate::json::Json;
use crate::json::JsonView;
use crate::text::copy_text;
use vstd::prelude::*;

verus! {

/// The method of a request.
#[derive(Clone, Copy, Debug, PartialEq, Eq, Structural)]
pub enum Method {
    Get,
    Post,
}

/// What a request carries.
#[derive(Debug)]
pub enum Body {
    Empty,
    Json(Json),
    Form(Vec<(String, String)>),
}

/// What a request carries, mathematically.
pub enum BodyView {
    Empty,
    Json(JsonView),
    Form(Seq<(Seq<char>, Seq<char>)>),
}

/// A request.
#[derive(Debug)]
pub struct Request {
    pub method: Method,
    pub url: String,
    /// The token of the header `Authorization: Bearer`.
    pub bearer: Option<String>,
    /// Further headers, as names and values.
    pub headers: Vec<(String, String)>,
    pub body: Body,
}

/// A request, mathematically.
pub struct RequestView {
    pub method: Method,
    pub url: Seq<char>,
    pub bearer: Option<Seq<char>>,
    pub headers: Seq<(Seq<char>, Seq<char>)>,
    pub body: BodyView,
}

/// The texts of a list of pairs.
pub open spec fn pair_texts(pairs: Seq<(String, String)>) -> Seq<(Seq<char>, Seq<char>)> {
    pairs.map_values(|p: (String, String)| (p.0@, p.1@))
}

/// The text of an optional string.
pub open spec fn option_text(s: Option<String>) -> Option<Seq<char>> {
    match s {
        Some(s) => Some(s@),
        None => None,
    }
}

impl View for Body {
    type V = BodyView;

    open spec fn view(&self) -> BodyView {
        match self {
            Body::Empty => BodyView::Empty,
            Body::Json(j) => BodyView::Json(j@),
            Body::Form(pairs) => BodyView::Form(pair_texts(pairs@)),
        }
    }
}

impl View for Request {
    type V = RequestView;

    open spec fn view(&self) -> RequestView {
        RequestView {
            method: self.method,
            url: self.url@,
            bearer: option_text(self.bearer),
            headers: pair_texts(self.headers@),
            body: self.body@,
        }
    }
}

/// A status code that reports success.
pub open spec fn is_success(status: u16) -> bool {
    200 <= status < 300
}

/// Whether a status code reports success.
pub fn succeeded(status: u16) -> (r: bool)
    ensures
        r == is_success(status),
{
    200 <= status && status < 300
}

/// No pairs.
pub fn no_pairs() -> (r: Vec<(String, String)>)
    ensures
        pair_texts(r@) == Seq::<(Seq<char>, Seq<char>)>::empty(),
{
    let r: Vec<(String, String)> = Vec::new();
    assert(pair_texts(r@) =~= Seq::empty());
    r
}

/// One more pair.
pub fn with_pair(pairs: Vec<(String, String)>, name: &str, value: &str) -> (r: Vec<
    (String, String),
>)
    ensures
        pair_texts(r@) == pair_texts(pairs@).push((name@, value@)),
{
    let mut r = pairs;
    let ghost before = r@;
    r.push((copy_text(name), copy_text(value)));
    assert(pair_texts(r@) =~= pair_texts(before).push((name@, value@)));
    r
}

// ------------------------------------------------------------------------ laws

/// Success is reported by the status codes that start with a 2.
pub proof fn success_is_reported_by_its_hundred(status: u16)
    ensures
        is_success(status) <==> status / 100 == 2,
{
}

/// A request shows each of its parts.
pub proof fn requests_show_their_parts(r: Request, j: Json, pairs: Vec<(String, String)>)
    ensures
        r@.method == r.method,
        r@.url == r.url@,
        r.bearer matches Some(token) ==> r@.bearer == Some(token@),
        r.bearer is None ==> r@.bearer is None,
        r@.headers == r.headers@.map_values(|p: (String, String)| (p.0@, p.1@)),
        r@.body == r.body@,
        Body::Empty@ == BodyView::Empty,
        Body::Json(j)@ == BodyView::Json(j@),
        Body::Form(pairs)@ == BodyView::Form(
            pairs@.map_values(|p: (String, String)| (p.0@, p.1@)),
        ),
{
}

} // verus!
