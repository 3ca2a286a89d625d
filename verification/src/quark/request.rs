//! Requests as values: what is to be sent, for whoever sends it.

use crate::json::{json_bytes, json_contents};
use vstd::prelude::*;

verus! {

// ---------------------------------------------------------------------------
// Types
// ---------------------------------------------------------------------------

/// The kind of a request.
#[derive(Clone, Copy, Debug, PartialEq, Eq, Structural)]
pub enum Method {
    Get,
    Post,
    Put,
}

/// The value of one field of a JSON body.
#[derive(Debug)]
pub enum FieldValue {
    Null,
    Flag(bool),
    Signed(i64),
    Unsigned(u64),
    Text(String),
    Texts(Vec<String>),
    Json(serde_json::Value),
}

/// What a request carries.
#[derive(Debug)]
pub enum Body {
    Empty,
    /// The fields of a JSON object.
    Fields(Vec<(String, FieldValue)>),
    Text(String),
    Bytes(Vec<u8>),
}

/// A request.
#[derive(Debug)]
pub struct Request {
    pub method: Method,
    pub url: String,
    pub query: Vec<(String, String)>,
    pub headers: Vec<(String, String)>,
    pub body: Body,
}

/// A [`FieldValue`] as a mathematical value. A JSON value counts by the bytes
/// that are sent for it.
pub enum FieldView {
    Null,
    Flag(bool),
    Signed(int),
    Unsigned(nat),
    Text(Seq<char>),
    Texts(Seq<Seq<char>>),
    Json(Seq<u8>),
}

/// A [`Body`] as a mathematical value.
pub enum BodyView {
    Empty,
    Fields(Seq<(Seq<char>, FieldView)>),
    Text(Seq<char>),
    Bytes(Seq<u8>),
}

/// A [`Request`] as a mathematical value.
pub struct RequestView {
    pub method: Method,
    pub url: Seq<char>,
    pub query: Seq<(Seq<char>, Seq<char>)>,
    pub headers: Seq<(Seq<char>, Seq<char>)>,
    pub body: BodyView,
}

impl View for FieldValue {
    type V = FieldView;

    open spec fn view(&self) -> FieldView {
        match *self {
            FieldValue::Null => FieldView::Null,
            FieldValue::Flag(b) => FieldView::Flag(b),
            FieldValue::Signed(i) => FieldView::Signed(i as int),
            FieldValue::Unsigned(n) => FieldView::Unsigned(n as nat),
            FieldValue::Text(s) => FieldView::Text(s@),
            FieldValue::Texts(list) => FieldView::Texts(crate::text::texts(list@)),
            FieldValue::Json(v) => FieldView::Json(json_bytes(json_contents(v))),
        }
    }
}

/// Pairs of strings as pairs of sequences.
pub open spec fn pairs(list: Seq<(String, String)>) -> Seq<(Seq<char>, Seq<char>)> {
    list.map_values(|p: (String, String)| (p.0@, p.1@))
}

/// Named fields with their values viewed.
pub open spec fn fields(list: Seq<(String, FieldValue)>) -> Seq<(Seq<char>, FieldView)> {
    list.map_values(|p: (String, FieldValue)| (p.0@, p.1@))
}

impl View for Body {
    type V = BodyView;

    open spec fn view(&self) -> BodyView {
        match *self {
            Body::Empty => BodyView::Empty,
            Body::Fields(list) => BodyView::Fields(fields(list@)),
            Body::Text(s) => BodyView::Text(s@),
            Body::Bytes(b) => BodyView::Bytes(b@),
        }
    }
}

impl View for Request {
    type V = RequestView;

    open spec fn view(&self) -> RequestView {
        RequestView {
            method: self.method,
            url: self.url@,
            query: pairs(self.query@),
            headers: pairs(self.headers@),
            body: self.body@,
        }
    }
}

// ---------------------------------------------------------------------------
// Building
// ---------------------------------------------------------------------------

/// Appends a pair.
pub fn add_pair(list: &mut Vec<(String, String)>, name: &str, value: &str)
    ensures
        pairs(final(list)@) == pairs(old(list)@).push((name@, value@)),
{
    let ghost before = list@;
    let pair = (name.to_owned(), value.to_owned());
    list.push(pair);
    assert(pairs(list@) =~= pairs(before).push((name@, value@)));
}

/// Appends a field.
pub fn add_field(list: &mut Vec<(String, FieldValue)>, name: &str, value: FieldValue)
    ensures
        fields(final(list)@) == fields(old(list)@).push((name@, value@)),
{
    let ghost before = list@;
    let field = (name.to_owned(), value);
    list.push(field);
    assert(fields(list@) =~= fields(before).push((name@, value@)));
}

/// Appends a field that holds a text.
pub fn add_text(list: &mut Vec<(String, FieldValue)>, name: &str, value: &str)
    ensures
        fields(final(list)@) == fields(old(list)@).push((name@, FieldView::Text(value@))),
{
    add_field(list, name, FieldValue::Text(value.to_owned()));
}

/// Appends a field that holds a list of one text.
pub fn add_single(list: &mut Vec<(String, FieldValue)>, name: &str, value: &str)
    ensures
        fields(final(list)@) == fields(old(list)@).push((name@, FieldView::Texts(seq![value@]))),
{
    let mut texts: Vec<String> = Vec::new();
    texts.push(value.to_owned());
    assert(crate::text::texts(texts@) =~= seq![value@]);
    add_field(list, name, FieldValue::Texts(texts));
}

/// Appends a field that holds a number, or nothing.
pub fn add_optional(list: &mut Vec<(String, FieldValue)>, name: &str, value: Option<i64>)
    ensures
        fields(final(list)@) == fields(old(list)@).push((name@, optional_field(value))),
{
    match value {
        Some(n) => add_field(list, name, FieldValue::Signed(n)),
        None => add_field(list, name, FieldValue::Null),
    }
}

/// A number, or nothing.
pub open spec fn optional_field(value: Option<i64>) -> FieldView {
    match value {
        Some(n) => FieldView::Signed(n as int),
        None => FieldView::Null,
    }
}

/// The headers of every request to the drive.
pub open spec fn drive_headers(cookie: Seq<char>) -> Seq<(Seq<char>, Seq<char>)> {
    seq![("Cookie"@, cookie), ("Referer"@, "https://pan.quark.cn/"@)]
}

/// The headers of every request to the drive.
pub fn drive_header_list(cookie: &str) -> (r: Vec<(String, String)>)
    ensures
        pairs(r@) == drive_headers(cookie@),
{
    let mut headers: Vec<(String, String)> = Vec::new();
    assert(pairs(headers@) =~= Seq::empty());
    add_pair(&mut headers, "Cookie", cookie);
    add_pair(&mut headers, "Referer", "https://pan.quark.cn/");
    assert(pairs(headers@) =~= drive_headers(cookie@));
    headers
}

/// The query that tells the server which client is asking.
pub open spec fn client_query() -> Seq<(Seq<char>, Seq<char>)> {
    seq![("pr"@, "ucpro"@), ("fr"@, "pc"@), ("uc_param_str"@, ""@)]
}

/// The query that tells the server which client is asking.
pub fn client_query_list() -> (r: Vec<(String, String)>)
    ensures
        pairs(r@) == client_query(),
{
    let mut query: Vec<(String, String)> = Vec::new();
    assert(pairs(query@) =~= Seq::empty());
    add_pair(&mut query, "pr", "ucpro");
    add_pair(&mut query, "fr", "pc");
    add_pair(&mut query, "uc_param_str", "");
    assert(pairs(query@) =~= client_query());
    query
}

/// A request that posts the fields of a JSON object to the drive.
pub open spec fn drive_post(
    url: Seq<char>,
    cookie: Seq<char>,
    body: Seq<(Seq<char>, FieldView)>,
) -> RequestView {
    RequestView {
        method: Method::Post,
        url,
        query: client_query(),
        headers: drive_headers(cookie),
        body: BodyView::Fields(body),
    }
}

/// A request that posts the fields of a JSON object to the drive.
pub fn post_to_drive(url: &str, cookie: &str, body: Vec<(String, FieldValue)>) -> (r: Request)
    ensures
        r@ == drive_post(url@, cookie@, fields(body@)),
{
    Request {
        method: Method::Post,
        url: url.to_owned(),
        query: client_query_list(),
        headers: drive_header_list(cookie),
        body: Body::Fields(body),
    }
}

} // verus!
