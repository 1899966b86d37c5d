//! What the URL service answers: `GET /health-check`, `GET /<slug>` and `POST /`.
//! Each handler takes its decisions here; the caller runs the queries between
//! them and sends the reply.

use vstd::prelude::*;

use crate::actions::QueryError;
use crate::base62::{digits_of, parse, text_of, Base62};
use crate::reply::{
    empty_reply, is_empty_reply, is_json_reply, json_reply, Body, Reply, BAD_REQUEST, CREATED,
    INTERNAL_SERVER_ERROR, MOVED_PERMANENTLY, NOT_FOUND, NO_CONTENT,
};
use crate::uri::{accepts_uri, parse_uri, uri_text};
use crate::urls::{reject_slug, slug_error_message};

verus! {

/// `GET /health-check`: 204, with nothing else.
pub fn health_check() -> (r: Reply)
    ensures
        is_empty_reply(r, NO_CONTENT),
{
    empty_reply(NO_CONTENT)
}

/// The first step of `GET /<slug>`: the key the slug names, read as it comes, or
/// the reply to a slug that names none (400, saying why).
pub fn handle_get_url_slug(slug: &str) -> (r: Result<Base62, Reply>)
    ensures
        match parse(slug@) {
            Ok(d) => r matches Ok(k) && k@ == d,
            Err(e) => r matches Err(rep) && is_json_reply(rep, BAD_REQUEST, slug_error_message(e)),
        },
{
    match Base62::try_from(slug) {
        Ok(key) => Ok(key),
        Err(e) => Err(reject_slug(e)),
    }
}

/// The last step of `GET /<slug>`: what the lookup of the key found becomes the
/// reply. A missing row is 404, any other failure 500, both empty; the stored
/// string is a redirection (301) to the URI it parses as, written back as text,
/// where it parses as a URI, else 500.
pub fn handle_get_url_found<E>(found: Result<String, QueryError<E>>) -> (r: Reply)
    ensures
        match found {
            Ok(raw) => if accepts_uri(raw@) {
                r.status == MOVED_PERMANENTLY && (r.body matches Body::Location(t) && t@ == uri_text(raw@))
            } else {
                is_empty_reply(r, INTERNAL_SERVER_ERROR)
            },
            Err(QueryError::RowNotFound) => is_empty_reply(r, NOT_FOUND),
            Err(QueryError::Sql(_)) => is_empty_reply(r, INTERNAL_SERVER_ERROR),
        },
{
    match found {
        Ok(raw_url) => match parse_uri(&raw_url) {
            Some(uri) => Reply { status: MOVED_PERMANENTLY, body: Body::Location(uri) },
            None => empty_reply(INTERNAL_SERVER_ERROR),
        },
        Err(QueryError::RowNotFound) => empty_reply(NOT_FOUND),
        Err(QueryError::Sql(_)) => empty_reply(INTERNAL_SERVER_ERROR),
    }
}

/// The first step of `POST /`: the URI the URL parses as, written back as text
/// (what is stored), or 400 where it is none.
pub fn handle_post_url_uri(url: &String) -> (r: Result<String, Reply>)
    ensures
        r is Ok <==> accepts_uri(url@),
        r matches Ok(t) ==> t@ == uri_text(url@),
        r matches Err(rep) ==> is_json_reply(rep, BAD_REQUEST, "URL is invalid"@),
{
    match parse_uri(url) {
        Some(uri) => Ok(uri),
        None => Err(json_reply(BAD_REQUEST, "URL is invalid")),
    }
}

/// The last step of `POST /`: the key the URL was stored under becomes the reply,
/// 201 with its slug; a failed query is 500, empty.
pub fn handle_post_url_inserted<E>(inserted: Result<u64, E>) -> (r: Reply)
    ensures
        match inserted {
            Ok(key) => is_json_reply(r, CREATED, text_of(digits_of(key as nat))),
            Err(_) => is_empty_reply(r, INTERNAL_SERVER_ERROR),
        },
{
    match inserted {
        Ok(key) => {
            let base62 = Base62::from(key);
            Reply { status: CREATED, body: Body::Json(base62.to_string()) }
        },
        Err(_) => empty_reply(INTERNAL_SERVER_ERROR),
    }
}

} // verus!
