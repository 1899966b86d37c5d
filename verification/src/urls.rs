//! What the web server answers about short URLs. Each handler takes its
//! decisions here; the caller runs the queries between them and sends the reply.
//!
//! `GET /<slug>` redirects to the URL stored under the slug's key; `POST /` with
//! a URL stores it and answers with its slug.

use vstd::prelude::*;

use crate::actions::QueryError;
use crate::base62::{digits_of, parse, text_of, Base62, Error};
use crate::reply::{
    invalid_char_message, invalid_char_reply, is_json_reply, json_reply, Body, Reply,
    BAD_REQUEST, CREATED, INTERNAL_SERVER_ERROR, NOT_FOUND, PERMANENT_REDIRECT,
};
use crate::uri::{accepts_uri, parse_uri, uri_text};

verus! {

/// What the reply to a slug that is no base-62 number says.
pub open spec fn slug_error_message(e: Error) -> Seq<char> {
    match e {
        Error::IsEmpty => "Slug cannot be empty."@,
        Error::InvalidChar(c) => invalid_char_message(c),
    }
}

/// What the reply to a failure on the server's side says.
pub open spec fn internal_error_message() -> Seq<char> {
    "An internal server error was encountered."@
}

/// The reply to a slug that is no base-62 number: 400, saying why.
pub fn reject_slug(e: Error) -> (r: Reply)
    ensures
        is_json_reply(r, BAD_REQUEST, slug_error_message(e)),
{
    match e {
        Error::IsEmpty => json_reply(BAD_REQUEST, "Slug cannot be empty."),
        Error::InvalidChar(c) => invalid_char_reply(c),
    }
}

/// The first step of `GET /<slug>`: the key the slug names, read as it comes (not
/// trimmed), or the reply to a slug that names none.
pub fn handle_get_slug(slug: &str) -> (r: Result<Base62, Reply>)
    ensures
        match parse(slug@) {
            Ok(d) => r matches Ok(k) && k@ == d,
            Err(e) => r matches Err(rep) && is_json_reply(rep, BAD_REQUEST, slug_error_message(e)),
        },
{
    match Base62::try_from(slug) {
        Ok(key) => Ok(key),
        Err(e) => Err(reject_slug(e)),
    }
}

/// The last step of `GET /<slug>`: what the lookup of the key found becomes the
/// reply. A missing row is 404, any other failure 500; the stored string is a
/// permanent redirection (308) to the URI it parses as, written back as text,
/// where it parses as a URI, else 500.
pub fn handle_get_found<E>(found: Result<String, QueryError<E>>) -> (r: Reply)
    ensures
        match found {
            Ok(raw) => if accepts_uri(raw@) {
                r.status == PERMANENT_REDIRECT && (r.body matches Body::Location(t) && t@ == uri_text(raw@))
            } else {
                is_json_reply(r, INTERNAL_SERVER_ERROR, internal_error_message())
            },
            Err(QueryError::RowNotFound) => is_json_reply(r, NOT_FOUND, "No clue what this is?"@),
            Err(QueryError::Sql(_)) => is_json_reply(
                r,
                INTERNAL_SERVER_ERROR,
                internal_error_message(),
            ),
        },
{
    match found {
        Ok(raw_url) => match parse_uri(&raw_url) {
            Some(uri) => Reply { status: PERMANENT_REDIRECT, body: Body::Location(uri) },
            None => json_reply(INTERNAL_SERVER_ERROR, "An internal server error was encountered."),
        },
        Err(QueryError::RowNotFound) => json_reply(NOT_FOUND, "No clue what this is?"),
        Err(QueryError::Sql(_)) => json_reply(
            INTERNAL_SERVER_ERROR,
            "An internal server error was encountered.",
        ),
    }
}

/// The first step of `POST /`: the URI the URL parses as, written back as text
/// (what is stored), or 400 where it is none.
pub fn handle_post_url(url: &String) -> (r: Result<String, Reply>)
    ensures
        r is Ok <==> accepts_uri(url@),
        r matches Ok(t) ==> t@ == uri_text(url@),
        r matches Err(rep) ==> is_json_reply(rep, BAD_REQUEST, "URL is invalid."@),
{
    match parse_uri(url) {
        Some(uri) => Ok(uri),
        None => Err(json_reply(BAD_REQUEST, "URL is invalid.")),
    }
}

/// The last step of `POST /`: the key the URL was stored under becomes the reply,
/// 201 with its slug; a failed query is 500.
pub fn handle_post_inserted<E>(inserted: Result<u64, E>) -> (r: Reply)
    ensures
        match inserted {
            Ok(key) => is_json_reply(r, CREATED, text_of(digits_of(key as nat))),
            Err(_) => is_json_reply(r, INTERNAL_SERVER_ERROR, internal_error_message()),
        },
{
    match inserted {
        Ok(key) => {
            let base62 = Base62::from(key);
            Reply { status: CREATED, body: Body::Json(base62.to_string()) }
        },
        Err(_) => json_reply(INTERNAL_SERVER_ERROR, "An internal server error was encountered."),
    }
}

} // verus!
