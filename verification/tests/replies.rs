use shortest_url::actions::QueryError;
use shortest_url::base62::Base62;
use shortest_url::reply::{Body, Reply};
use shortest_url::{health_checks, routes, urls};

fn json(reply: &Reply) -> Option<&str> {
    match &reply.body {
        Body::Json(text) => Some(text.as_str()),
        _ => None,
    }
}

fn location(reply: &Reply) -> Option<String> {
    match &reply.body {
        Body::Location(uri) => Some(uri.clone()),
        _ => None,
    }
}

#[test]
fn web_server_rejects_bad_slugs() {
    let empty = urls::handle_get_slug("").unwrap_err();
    assert_eq!(empty.status, 400);
    assert_eq!(json(&empty), Some("Slug cannot be empty."));

    let invalid = urls::handle_get_slug("@#(0a)").unwrap_err();
    assert_eq!(invalid.status, 400);
    assert_eq!(json(&invalid), Some("Slug contained invalid char of: '@'"));

    assert_eq!(urls::handle_get_slug("aabbcc").unwrap(), Base62::try_from("aabbcc").unwrap());
}

#[test]
fn web_server_answers_lookups() {
    let found = urls::handle_get_found::<()>(Ok(String::from("https://www.rust-lang.org/")));
    assert_eq!(found.status, 308);
    assert_eq!(location(&found).as_deref(), Some("https://www.rust-lang.org/"));

    let missing = urls::handle_get_found::<()>(Err(QueryError::RowNotFound));
    assert_eq!(missing.status, 404);
    assert_eq!(json(&missing), Some("No clue what this is?"));

    let failed = urls::handle_get_found(Err(QueryError::Sql(1)));
    assert_eq!(failed.status, 500);
    assert_eq!(json(&failed), Some("An internal server error was encountered."));

    let bad = urls::handle_get_found::<()>(Ok(String::from("not a url")));
    assert_eq!(bad.status, 500);
    assert_eq!(json(&bad), Some("An internal server error was encountered."));
}

#[test]
fn web_server_answers_posts() {
    assert_eq!(
        urls::handle_post_url(&String::from("https://www.rust-lang.org/")).unwrap(),
        "https://www.rust-lang.org/"
    );
    let invalid = urls::handle_post_url(&String::from("not a url")).unwrap_err();
    assert_eq!(invalid.status, 400);
    assert_eq!(json(&invalid), Some("URL is invalid."));

    let created = urls::handle_post_inserted::<()>(Ok(62));
    assert_eq!(created.status, 201);
    assert_eq!(json(&created), Some("01"));

    let failed = urls::handle_post_inserted(Err("down"));
    assert_eq!(failed.status, 500);
    assert_eq!(json(&failed), Some("An internal server error was encountered."));
}

#[test]
fn url_service_answers_gets() {
    let invalid = routes::handle_get_url_slug("@#(0a)").unwrap_err();
    assert_eq!(invalid.status, 400);
    assert_eq!(json(&invalid), Some("Slug contained invalid char of: '@'"));

    let missing = routes::handle_get_url_found::<()>(Err(QueryError::RowNotFound));
    assert_eq!(missing.status, 404);
    assert!(matches!(missing.body, Body::Empty));

    let failed = routes::handle_get_url_found(Err(QueryError::Sql(2)));
    assert_eq!(failed.status, 500);
    assert!(matches!(failed.body, Body::Empty));

    let found = routes::handle_get_url_found::<()>(Ok(String::from("https://www.rust-lang.org/")));
    assert_eq!(found.status, 301);
    assert_eq!(location(&found).as_deref(), Some("https://www.rust-lang.org/"));
}

#[test]
fn url_service_answers_posts() {
    let invalid = routes::handle_post_url_uri(&String::from("not a url")).unwrap_err();
    assert_eq!(invalid.status, 400);
    assert_eq!(json(&invalid), Some("URL is invalid"));

    let created = routes::handle_post_url_inserted::<()>(Ok(123_456_789));
    assert_eq!(created.status, 201);
    assert_eq!(json(&created), Some("xK0m8"));

    let failed = routes::handle_post_url_inserted(Err(()));
    assert_eq!(failed.status, 500);
    assert!(matches!(failed.body, Body::Empty));
}

#[test]
fn a_posted_slug_leads_back_to_its_key() {
    for key in [1u64, 61, 62, 3843, 3844, 1_000_000, u64::MAX] {
        let created = urls::handle_post_inserted::<()>(Ok(key));
        let slug = json(&created).unwrap().to_string();
        let parsed = urls::handle_get_slug(&slug).unwrap();
        assert_eq!(parsed.checked_to_u64(), Some(key));
        let parsed = routes::handle_get_url_slug(&slug).unwrap();
        assert_eq!(parsed.to_u64(), key);
    }
}

#[test]
fn health_checks_answer() {
    let reply = routes::health_check();
    assert_eq!(reply.status, 204);
    assert!(matches!(reply.body, Body::Empty));
    assert_eq!(health_checks::handle_get().status, 204);
    assert_eq!(health_checks::handle_get_database::<()>(Ok(Some(String::from("PostgreSQL 15")))).status, 204);
    assert_eq!(health_checks::handle_get_database::<()>(Ok(None)).status, 500);
    assert_eq!(health_checks::handle_get_database(Err(())).status, 500);
}
