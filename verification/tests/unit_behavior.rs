//! Direct checks of the smaller pieces: the header map, the CORS cache,
//! and URL handling.

use fetch_core::cors_cache::{CacheRequestDetails, CORSCache};
use fetch_core::headers::Headers;
use fetch_core::request::{Method, Origin};
use fetch_core::urls::{parse_url, Url, UrlOrigin};

fn plain_url(host: &str, path: &str) -> Url {
    Url {
        scheme: "http".to_string(),
        username: String::new(),
        password: None,
        host: host.to_string(),
        port: None,
        path: path.to_string(),
        query: None,
        fragment: None,
    }
}

#[test]
fn header_names_match_without_regard_to_case() {
    let mut h = Headers::new();
    h.set("Content-Type", "text/plain");
    assert!(h.has("content-type"));
    assert!(h.has("CONTENT-TYPE"));
    assert_eq!(h.get_cloned("content-TYPE").as_deref(), Some("text/plain"));
    h.remove("CONTENT-type");
    assert!(!h.has("content-type"));
}

#[test]
fn a_set_replaces_the_earlier_value() {
    let mut h = Headers::new();
    h.set("cache-control", "no-store");
    h.set("Cache-Control", "max-age=0");
    assert_eq!(h.get_cloned("cache-control").as_deref(), Some("max-age=0"));
    assert_eq!(h.len(), 1);
}

fn details(host: &str) -> CacheRequestDetails {
    let u = plain_url(host, "/x");
    let origin = u.origin();
    CacheRequestDetails { origin: Origin::Origin(origin), destination: u, credentials: false }
}

#[test]
fn the_cors_cache_honors_its_expiry_strictly() {
    let mut cache = CORSCache::new();
    let d = details("a.example");
    cache.match_method_and_update(&d, &Method::Post, 60, 100);
    assert!(cache.match_method(&d, &Method::Post, 100));
    assert!(cache.match_method(&d, &Method::Post, 159));
    assert!(!cache.match_method(&d, &Method::Post, 160));
    assert!(!cache.match_method(&d, &Method::Get, 100));
    assert!(!cache.match_method(&details("b.example"), &Method::Post, 100));
}

#[test]
fn a_zero_max_age_entry_is_expired_at_its_own_instant() {
    let mut cache = CORSCache::new();
    let d = details("a.example");
    cache.match_header_and_update(&d, "X-Custom", 0, 50);
    assert!(!cache.match_header(&d, "x-custom", 50));
    assert!(cache.match_header(&d, "x-custom", 49));
}

#[test]
fn cached_header_names_ignore_case() {
    let mut cache = CORSCache::new();
    let d = details("a.example");
    cache.match_header_and_update(&d, "X-Custom", 600, 0);
    assert!(cache.match_header(&d, "x-custom", 10));
    assert!(cache.match_header(&d, "X-CUSTOM", 10));
}

#[test]
fn purging_by_url_forgets_the_approvals() {
    let mut cache = CORSCache::new();
    let d = details("a.example");
    cache.match_method_and_update(&d, &Method::Post, 600, 0);
    let u = plain_url("a.example", "/x");
    cache.purge(&u);
    assert!(!cache.match_method(&d, &Method::Post, 1));
}

#[test]
fn urls_serialize_back_to_their_text() {
    let u = parse_url("http://user:pw@h.example:8080/p?q=1#frag").unwrap();
    assert_eq!(u.serialize(), "http://user:pw@h.example:8080/p?q=1#frag");
    let v = parse_url("data:text/plain,hi").unwrap();
    assert_eq!(v.scheme, "data");
    assert_eq!(v.path, "text/plain,hi");
}

#[test]
fn origins_serialize_without_their_default_port() {
    let u = plain_url("a.example", "/");
    match u.origin() {
        o @ UrlOrigin::Tuple { .. } => {
            assert_eq!(fetch_core::urls::origin_ascii_serialization(&o), "http://a.example");
        },
        UrlOrigin::Opaque => panic!("an http URL has a tuple origin"),
    }
    let mut with_port = plain_url("a.example", "/");
    with_port.port = Some(8080);
    assert_eq!(
        fetch_core::urls::origin_ascii_serialization(&with_port.origin()),
        "http://a.example:8080"
    );
}
