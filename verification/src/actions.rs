//! The decisions of looking up and storing URLs: what a slug names, and what the
//! answers of the database become. The queries themselves are the caller's.

use vstd::prelude::*;

use crate::base62::{
    digits_in, digits_of, fits_in_u64, is_digit_char, law_digits_in, law_number_round_trip,
    law_number_text_round_trip, lemma_symbol_round_trip, parse, text_of, value_of, Base62, Digit,
    Error,
};
use crate::text::{lemma_trimmed_empty, lemma_trimmed_unchanged, trim, trimmed};
use crate::uri::{accepts_uri, parse_uri, uri_text};

verus! {

/// How a query for one row failed.
#[derive(Debug)]
pub enum QueryError<E> {
    /// The query found no row.
    RowNotFound,
    /// Anything else went wrong.
    Sql(E),
}

/// Why a URL could not be looked up.
#[derive(Debug)]
pub enum GetUrlError<E> {
    /// The slug holds nothing but white space.
    SlugIsEmpty,
    /// The slug, trimmed, holds this character, which is no base-62 digit.
    SlugContaintsInvalidChar(char),
    /// No URL is stored under the slug's key.
    UrlNotFound,
    /// What is stored under the key is no URL.
    InvalidUrl(String),
    /// The database failed.
    SqlError(E),
}

/// Why a URL could not be stored.
#[derive(Debug)]
pub enum PostUrlError<E> {
    /// The string is no URL.
    InvalidUrl,
    /// The database failed.
    SqlError(E),
}

impl<E> From<E> for PostUrlError<E> {
    /// A failure of the database.
    fn from(e: E) -> (r: PostUrlError<E>)
        ensures
            r matches PostUrlError::SqlError(e2) && e2 == e,
    {
        PostUrlError::SqlError(e)
    }
}

impl<E> vstd::std_specs::convert::FromSpecImpl<E> for PostUrlError<E> {
    open spec fn obeys_from_spec() -> bool {
        true
    }

    open spec fn from_spec(v: E) -> PostUrlError<E> {
        PostUrlError::SqlError(v)
    }
}

/// What a slug names: the digits of the slug without the white space at its ends.
pub open spec fn slug_key(slug: Seq<char>) -> Result<Seq<Digit>, Option<char>> {
    let t = trimmed(slug);
    if t.len() == 0 {
        Err(None)
    } else {
        match digits_in(t) {
            Ok(d) => Ok(d),
            Err(Error::InvalidChar(c)) => Err(Some(c)),
            Err(Error::IsEmpty) => Err(None),
        }
    }
}

/// The first step of getting a URL: the key that `slug` names. The slug is trimmed;
/// then `SlugIsEmpty` where nothing is left, `SlugContaintsInvalidChar` with the
/// first character that is no digit, or the key. The lookup takes the key's
/// number, which `Base62::checked_to_u64` gives where the key fits in a `u64`.
pub fn get_url_key<E>(slug: &str) -> (r: Result<Base62, GetUrlError<E>>)
    ensures
        match slug_key(slug@) {
            Ok(d) => r matches Ok(k) && k@ == d,
            Err(None) => r matches Err(GetUrlError::SlugIsEmpty),
            Err(Some(c)) => r matches Err(GetUrlError::SlugContaintsInvalidChar(c2)) && c2 == c,
        },
{
    let trimmed_slug = trim(slug);
    proof {
        lemma_trimmed_empty(slug@);
        lemma_trimmed_empty(trimmed_slug@);
    }
    if trimmed_slug.is_empty() {
        Err(GetUrlError::SlugIsEmpty)
    } else {
        match Base62::try_from(trimmed_slug) {
            Ok(key) => Ok(key),
            Err(Error::InvalidChar(c)) => Err(GetUrlError::SlugContaintsInvalidChar(c)),
            Err(Error::IsEmpty) => Err(GetUrlError::SlugIsEmpty),
        }
    }
}

/// The last step of getting a URL: what the lookup of the key found. A missing row
/// is `UrlNotFound`, another failure `SqlError`; the stored string gives the URI it
/// parses as, written back as text, or `InvalidUrl` with the string where it is none.
pub fn get_url_found<E>(found: Result<String, QueryError<E>>) -> (r: Result<String, GetUrlError<E>>)
    ensures
        match found {
            Ok(raw) => if accepts_uri(raw@) {
                r matches Ok(t) && t@ == uri_text(raw@)
            } else {
                r matches Err(GetUrlError::InvalidUrl(s)) && s@ == raw@
            },
            Err(QueryError::RowNotFound) => r matches Err(GetUrlError::UrlNotFound),
            Err(QueryError::Sql(e)) => r matches Err(GetUrlError::SqlError(e2)) && e2 == e,
        },
{
    match found {
        Ok(raw_url) => match parse_uri(&raw_url) {
            Some(uri) => Ok(uri),
            None => Err(GetUrlError::InvalidUrl(raw_url)),
        },
        Err(QueryError::RowNotFound) => Err(GetUrlError::UrlNotFound),
        Err(QueryError::Sql(e)) => Err(GetUrlError::SqlError(e)),
    }
}

/// The first step of storing a URL: the URI that `url` parses as, written back as
/// text (what is stored), or `InvalidUrl` where it is none.
pub fn post_url_uri<E>(url: &String) -> (r: Result<String, PostUrlError<E>>)
    ensures
        r is Ok <==> accepts_uri(url@),
        r matches Ok(t) ==> t@ == uri_text(url@),
        r is Err ==> r matches Err(PostUrlError::InvalidUrl),
{
    match parse_uri(url) {
        Some(uri) => Ok(uri),
        None => Err(PostUrlError::InvalidUrl),
    }
}

/// The last step of storing a URL: the key it was stored under, in base 62, or
/// `SqlError` where the database failed.
pub fn post_url_key<E>(inserted: Result<u64, E>) -> (r: Result<Base62, PostUrlError<E>>)
    ensures
        match inserted {
            Ok(key) => r matches Ok(b) && b@ == digits_of(key as nat),
            Err(e) => r matches Err(PostUrlError::SqlError(e2)) && e2 == e,
        },
{
    match inserted {
        Ok(key) => Ok(Base62::from(key)),
        Err(e) => Err(PostUrlError::from(e)),
    }
}

/// The slug of a stored key names that key again: a key above 0, written in base
/// 62, reads back as its digits, whether the reader trims the slug first or not, and
/// those digits give the key back as a `u64`. (Key 0 is written as the empty
/// string, which names no key.)
pub proof fn law_slug_round_trip(key: u64)
    requires
        key > 0,
    ensures
        parse(text_of(digits_of(key as nat))) == Ok::<Seq<Digit>, Error>(digits_of(key as nat)),
        slug_key(text_of(digits_of(key as nat))) == Ok::<Seq<Digit>, Option<char>>(
            digits_of(key as nat),
        ),
        fits_in_u64(digits_of(key as nat)),
        value_of(digits_of(key as nat)) == key,
{
    let d = digits_of(key as nat);
    let t = text_of(d);
    law_number_text_round_trip(key);
    law_number_round_trip(key);
    lemma_symbol_round_trip(d[0]);
    lemma_symbol_round_trip(d.last());
    assert(t[0] == d[0].symbol());
    assert(t.last() == d.last().symbol());
    lemma_trimmed_unchanged(t);
}

/// A slug names a key only when all of it, trimmed, is digits: nothing left after
/// trimming names none (`Err(None)`); a key's digits are written exactly as the
/// trimmed slug; and where the trimmed slug holds a character that is none of
/// `0-9`, `a-z`, `A-Z`, the first such character is the one reported.
pub proof fn law_slug_key(slug: Seq<char>)
    ensures
        ({
            let t = trimmed(slug);
            &&& slug_key(slug) == Err::<Seq<Digit>, Option<char>>(None) <==> t.len() == 0
            &&& slug_key(slug) matches Ok(d) ==> text_of(d) == t && d.len() > 0
            &&& (t.len() > 0 && forall|i: int| 0 <= i < t.len() ==> #[trigger] is_digit_char(t[i]))
                ==> slug_key(slug) is Ok
            &&& slug_key(slug) matches Err(Some(c)) ==> exists|j: int|
                0 <= j < t.len() && t[j] == c && !is_digit_char(c) && forall|k: int|
                    0 <= k < j ==> #[trigger] is_digit_char(t[k])
            &&& (exists|j: int| 0 <= j < t.len() && !is_digit_char(#[trigger] t[j]))
                ==> slug_key(slug) matches Err(Some(_))
        }),
{
    let t = trimmed(slug);
    law_digits_in(t);
    if let Err(e) = digits_in(t) {
        assert(e is InvalidChar);
    }
    if let Ok(d) = digits_in(t) {
        assert(text_of(d).len() == d.len());
    }
}

} // verus!
