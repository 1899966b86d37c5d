//! Replies to HTTP requests, as plain values: a status code and a body.

use vstd::prelude::*;

use crate::text::push_char;

verus! {

/// 201: the URL was stored.
pub const CREATED: u16 = 201;

/// 204: nothing to send back.
pub const NO_CONTENT: u16 = 204;

/// 301: the resource is at the given location, for good.
pub const MOVED_PERMANENTLY: u16 = 301;

/// 308: the resource is at the given location, for good, by the same method.
pub const PERMANENT_REDIRECT: u16 = 308;

/// 400: the request is malformed.
pub const BAD_REQUEST: u16 = 400;

/// 404: nothing is stored there.
pub const NOT_FOUND: u16 = 404;

/// 500: something went wrong on the server's side.
pub const INTERNAL_SERVER_ERROR: u16 = 500;

/// What a reply carries besides its status.
#[derive(Debug)]
pub enum Body {
    /// Nothing.
    Empty,
    /// A JSON string that holds this text.
    Json(String),
    /// A `Location` header with this URI.
    Location(String),
}

/// A reply to a request.
#[derive(Debug)]
pub struct Reply {
    pub status: u16,
    pub body: Body,
}

/// Whether `r` has status `status` and, as its body, a JSON string holding `text`.
pub open spec fn is_json_reply(r: Reply, status: u16, text: Seq<char>) -> bool {
    &&& r.status == status
    &&& r.body matches Body::Json(m) && m@ == text
}

/// Whether `r` has status `status` and no body.
pub open spec fn is_empty_reply(r: Reply, status: u16) -> bool {
    &&& r.status == status
    &&& r.body is Empty
}

/// A reply with a JSON string holding `text`.
pub fn json_reply(status: u16, text: &str) -> (r: Reply)
    ensures
        is_json_reply(r, status, text@),
{
    Reply { status, body: Body::Json(String::from_str(text)) }
}

/// A reply with no body.
pub fn empty_reply(status: u16) -> (r: Reply)
    ensures
        is_empty_reply(r, status),
{
    Reply { status, body: Body::Empty }
}

/// The text of the reply to a slug with the character `c`, which is no digit:
/// `Slug contained invalid char of: '<c>'`.
pub open spec fn invalid_char_message(c: char) -> Seq<char> {
    "Slug contained invalid char of: '"@.push(c) + "'"@
}

/// The reply to a slug with the character `c`, which is no digit: 400, with
/// `invalid_char_message(c)`.
pub fn invalid_char_reply(c: char) -> (r: Reply)
    ensures
        is_json_reply(r, BAD_REQUEST, invalid_char_message(c)),
{
    let mut text = String::from_str("Slug contained invalid char of: '");
    push_char(&mut text, c);
    text.append("'");
    Reply { status: BAD_REQUEST, body: Body::Json(text) }
}

} // verus!
