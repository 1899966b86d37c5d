//! The service's scenarios, with the database's answers written in by hand.

use shortest_url::actions::QueryError;
use shortest_url::reply::Body;
use shortest_url::routes;

fn created_slug(key: u64) -> String {
    let reply = routes::handle_post_url_inserted::<()>(Ok(key));
    assert_eq!(reply.status, 201);
    match reply.body {
        Body::Json(slug) => slug,
        other => panic!("unexpected body {:?}", other),
    }
}

#[test]
fn posting_url_and_requesting_returns_the_same_url() {
    let url = String::from("https://www.rust-lang.org/");
    let stored = routes::handle_post_url_uri(&url).unwrap();
    assert_eq!(stored, url);
    let key = 17u64;
    let slug = created_slug(key);

    let requested = routes::handle_get_url_slug(&slug).unwrap();
    assert_eq!(requested.to_u64(), key);

    let reply = routes::handle_get_url_found::<()>(Ok(stored));
    assert_eq!(reply.status, 301);
    match reply.body {
        Body::Location(location) => assert_eq!(location, url),
        other => panic!("unexpected body {:?}", other),
    }
}

#[test]
fn posting_the_same_url_twice_creates_the_same_slug() {
    // The same URL is stored as the same text, so the database finds it again and
    // gives it the same key; the same key has the same slug.
    let url = String::from("https://haskell.pl-a.net/");
    let first = routes::handle_post_url_uri(&url).unwrap();
    let second = routes::handle_post_url_uri(&url).unwrap();
    assert_eq!(first, second);
    assert_eq!(created_slug(4242), created_slug(4242));
}

#[test]
fn requesting_a_slug_that_doesnt_exist_gives_a_404() {
    let key = routes::handle_get_url_slug("aabbcc").unwrap();
    assert_eq!(key.to_u64(), 11_173_574_538);
    let reply = routes::handle_get_url_found::<()>(Err(QueryError::RowNotFound));
    assert_eq!(reply.status, 404);
}

#[test]
fn requesting_an_invalid_slug_gives_a_400() {
    let reply = routes::handle_get_url_slug("@#(0a)").unwrap_err();
    assert_eq!(reply.status, 400);
}

#[test]
fn posting_url_an_invalid_url_gives_a_400() {
    let reply = routes::handle_post_url_uri(&String::from("not a url")).unwrap_err();
    assert_eq!(reply.status, 400);
}

#[test]
fn health_check_works() {
    let reply = routes::health_check();
    assert_eq!(reply.status, 204);
    assert!(matches!(reply.body, Body::Empty));
}
