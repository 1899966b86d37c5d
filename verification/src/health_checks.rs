//! What the web server answers under `/health-checks`.

use vstd::prelude::*;

use crate::reply::{empty_reply, is_empty_reply, Reply, INTERNAL_SERVER_ERROR, NO_CONTENT};

verus! {

/// `GET /health-checks/`: 204.
pub fn handle_get() -> (r: Reply)
    ensures
        is_empty_reply(r, NO_CONTENT),
{
    empty_reply(NO_CONTENT)
}

/// `GET /health-checks/databases`, once the database was asked for its version:
/// 204 where it gave one, 500 where it gave none or the query failed.
pub fn handle_get_database<E>(version: Result<Option<String>, E>) -> (r: Reply)
    ensures
        match version {
            Ok(Some(_)) => is_empty_reply(r, NO_CONTENT),
            _ => is_empty_reply(r, INTERNAL_SERVER_ERROR),
        },
{
    match version {
        Ok(Some(_)) => empty_reply(NO_CONTENT),
        _ => empty_reply(INTERNAL_SERVER_ERROR),
    }
}

} // verus!
