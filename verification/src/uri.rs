//! URIs, as the `http` crate parses and writes them.

use http::Uri;
use vstd::prelude::*;

verus! {

/// Whether `Uri::try_from` of the `http` crate accepts the string `s`.
pub uninterp spec fn accepts_uri(s: Seq<char>) -> bool;

/// What the `Uri` that `Uri::try_from` of the `http` crate makes of `s` writes
/// (its `Display`): scheme, authority, path and query, as parsed.
pub uninterp spec fn uri_text(s: Seq<char>) -> Seq<char>;

/// `<Uri as TryFrom<&String>>::try_from` of the `http` crate, and the `Display` of
/// the `Uri` it gives: parses `raw` as a URI and writes it back, or fails. Both are
/// functions of the string alone; which strings are accepted is named
/// `accepts_uri`, and the text written is named `uri_text`. Neither is described
/// further: in particular, that `uri_text` parses again to itself is not stated.
#[verifier::external_body]
pub(crate) fn parse_uri(raw: &String) -> (r: Option<String>)
    ensures
        r is Some <==> accepts_uri(raw@),
        r matches Some(t) ==> t@ == uri_text(raw@),
{
    match Uri::try_from(raw) {
        Ok(uri) => Some(uri.to_string()),
        Err(_) => None,
    }
}

} // verus!
