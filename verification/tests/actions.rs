use shortest_url::actions::{
    get_url_found, get_url_key, post_url_key, post_url_uri, GetUrlError, PostUrlError, QueryError,
};
use shortest_url::base62::{Base62, Digit};

#[test]
fn trims_the_slug_before_reading_it() {
    let key = get_url_key::<()>("  aZ \n").unwrap();
    assert_eq!(key, Base62(vec![Digit::Digita, Digit::DigitZ]));
    assert_eq!(key.checked_to_u64(), Some(10 + 61 * 62));
}

#[test]
fn an_empty_slug_names_no_key() {
    assert!(matches!(get_url_key::<()>(""), Err(GetUrlError::SlugIsEmpty)));
    assert!(matches!(get_url_key::<()>(" \t "), Err(GetUrlError::SlugIsEmpty)));
}

#[test]
fn a_slug_with_a_stray_character_names_no_key() {
    assert!(matches!(
        get_url_key::<()>("@#(0a)"),
        Err(GetUrlError::SlugContaintsInvalidChar('@'))
    ));
    assert!(matches!(
        get_url_key::<()>(" ab cd "),
        Err(GetUrlError::SlugContaintsInvalidChar(' '))
    ));
}

#[test]
fn what_the_lookup_found() {
    let found: Result<String, QueryError<&str>> = Ok(String::from("https://www.rust-lang.org/"));
    let uri = get_url_found(found).unwrap();
    assert_eq!(uri, "https://www.rust-lang.org/");

    // The URI is written back as the parser reads it: the scheme in lower case,
    // the fragment gone.
    let found: Result<String, QueryError<&str>> = Ok(String::from("HTTPS://example.com/a?b#c"));
    assert_eq!(get_url_found(found).unwrap(), "https://example.com/a?b");

    let missing: Result<String, QueryError<&str>> = Err(QueryError::RowNotFound);
    assert!(matches!(get_url_found(missing), Err(GetUrlError::UrlNotFound)));

    let failed: Result<String, QueryError<&str>> = Err(QueryError::Sql("down"));
    assert!(matches!(get_url_found(failed), Err(GetUrlError::SqlError("down"))));

    let stored: Result<String, QueryError<&str>> = Ok(String::from("not a url"));
    match get_url_found(stored) {
        Err(GetUrlError::InvalidUrl(raw)) => assert_eq!(raw, "not a url"),
        other => panic!("unexpected {:?}", other),
    }
}

#[test]
fn posting_checks_the_url() {
    assert_eq!(
        post_url_uri::<()>(&String::from("https://haskell.pl-a.net/")).unwrap(),
        "https://haskell.pl-a.net/"
    );
    assert_eq!(post_url_uri::<()>(&String::from("HTTP://x.org/p#f")).unwrap(), "http://x.org/p");
    assert!(matches!(
        post_url_uri::<()>(&String::from("not a url")),
        Err(PostUrlError::InvalidUrl)
    ));
    assert!(matches!(post_url_uri::<()>(&String::new()), Err(PostUrlError::InvalidUrl)));
}

#[test]
fn posting_answers_with_the_key_in_base_62() {
    let key = post_url_key::<()>(Ok(3844)).unwrap();
    assert_eq!(key.to_string(), "001");
    assert!(matches!(post_url_key(Err::<u64, u8>(7)), Err(PostUrlError::SqlError(7))));
    assert!(matches!(PostUrlError::from(3u8), PostUrlError::SqlError(3)));
}
