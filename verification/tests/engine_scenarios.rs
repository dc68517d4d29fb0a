//! End-to-end scenarios for the fetch engine over a scripted wire.

use fetch_core::cors_cache::CORSCache;
use fetch_core::headers::{Header, Headers};
use fetch_core::methods::{fetch, fetch_with_cors_cache};
use fetch_core::request::{
    CacheMode, CredentialsMode, Method, Origin, RedirectMode, Referer, Request, RequestMode,
};
use fetch_core::response::{Response, ResponseBody, ResponseType};
use fetch_core::urls::{Url, UrlOrigin};
use fetch_core::wire::{Wire, WireReply, WireResponse};

fn url(scheme: &str, host: &str, path: &str) -> Url {
    Url {
        scheme: scheme.to_string(),
        username: String::new(),
        password: None,
        host: host.to_string(),
        port: None,
        path: path.to_string(),
        query: None,
        fragment: None,
    }
}

fn headers(list: &[(&str, &str)]) -> Headers {
    let mut items = Vec::new();
    for (n, v) in list {
        items.push(Header { name: n.to_string(), value: v.to_string() });
    }
    Headers { items }
}

fn reply(status: u16, hdrs: &[(&str, &str)], body: &[u8]) -> WireReply {
    WireReply::Success(WireResponse { status, headers: headers(hdrs), body: body.to_vec() })
}

fn request_on(u: Url) -> Request {
    let origin = u.origin();
    let mut r = Request::new(u, Some(Origin::Origin(origin)), false);
    r.referer = Referer::NoReferer;
    r
}

fn wire(replies: Vec<WireReply>) -> Wire {
    Wire::new(replies, Vec::new())
}

fn header_value(h: &Headers, name: &str) -> Option<String> {
    h.get_cloned(name)
}

#[test]
fn about_blank_is_a_synthetic_basic_page() {
    let mut req = request_on(url("about", "", "blank"));
    let mut w = wire(vec![]);
    let resp = fetch(&mut req, &mut w);
    assert_eq!(resp.response_type, ResponseType::Basic);
    assert_eq!(resp.status, Some(200));
    assert_eq!(
        header_value(&resp.headers, "content-type").as_deref(),
        Some("text/html; charset=utf-8")
    );
    match &resp.body {
        ResponseBody::Done(b) => assert!(b.is_empty()),
        _ => panic!("body must be complete and empty"),
    }
    assert_eq!(w.sent.len(), 0);
}

#[test]
fn data_url_decodes_percent_escapes() {
    let mut req = request_on(url("data", "", "text/plain,Hello%20World"));
    req.same_origin_data = true;
    let mut w = wire(vec![]);
    let resp = fetch(&mut req, &mut w);
    assert_eq!(resp.response_type, ResponseType::Basic);
    assert_eq!(resp.status, Some(200));
    assert_eq!(header_value(&resp.headers, "content-type").as_deref(), Some("text/plain"));
    match &resp.body {
        ResponseBody::Done(b) => assert_eq!(b.as_slice(), b"Hello World"),
        _ => panic!("body must be complete"),
    }
}

#[test]
fn data_url_decodes_base64() {
    let mut req = request_on(url("data", "", "text/plain;base64,SGVsbG8="));
    req.same_origin_data = true;
    let mut w = wire(vec![]);
    let resp = fetch(&mut req, &mut w);
    assert_eq!(resp.status, Some(200));
    match &resp.body {
        ResponseBody::Done(b) => assert_eq!(b.as_slice(), b"Hello"),
        _ => panic!("body must be complete"),
    }
}

#[test]
fn data_url_without_comma_is_a_network_error() {
    let mut req = request_on(url("data", "", "text/plain"));
    req.same_origin_data = true;
    let mut w = wire(vec![]);
    let resp = fetch(&mut req, &mut w);
    assert_eq!(resp.response_type, ResponseType::Error);
}

#[test]
fn data_url_with_non_get_method_is_a_network_error() {
    let mut req = request_on(url("data", "", "text/plain,x"));
    req.same_origin_data = true;
    req.method = Method::Post;
    let mut w = wire(vec![]);
    let resp = fetch(&mut req, &mut w);
    assert_eq!(resp.response_type, ResponseType::Error);
}

#[test]
fn unknown_scheme_is_a_network_error() {
    let mut req = request_on(url("gopher", "g.example", "/"));
    let mut w = wire(vec![]);
    let resp = fetch(&mut req, &mut w);
    assert_eq!(resp.response_type, ResponseType::Error);
}

fn cross_origin_request(u: Url) -> Request {
    let other = UrlOrigin::Tuple {
        scheme: "http".to_string(),
        host: "b.example".to_string(),
        port: 80,
    };
    let mut r = Request::new(u, Some(Origin::Origin(other)), false);
    r.referer = Referer::NoReferer;
    r.mode = RequestMode::CORSMode;
    r
}

#[test]
fn cors_check_rejects_a_mismatched_allow_origin() {
    let mut req = cross_origin_request(url("http", "a.example", "/x"));
    let mut w = wire(vec![reply(
        200,
        &[("Access-Control-Allow-Origin", "https://b.example")],
        b"secret",
    )]);
    let resp = fetch(&mut req, &mut w);
    assert_eq!(resp.response_type, ResponseType::Error);
}

#[test]
fn cors_check_accepts_the_matching_origin() {
    let mut req = cross_origin_request(url("http", "a.example", "/x"));
    let mut w = wire(vec![reply(
        200,
        &[("Access-Control-Allow-Origin", "http://b.example")],
        b"shared",
    )]);
    let resp = fetch(&mut req, &mut w);
    assert_eq!(resp.response_type, ResponseType::CORS);
    assert_eq!(resp.status, Some(200));
}

#[test]
fn cors_check_accepts_the_wildcard_without_credentials() {
    let mut req = cross_origin_request(url("http", "a.example", "/x"));
    let mut w = wire(vec![reply(200, &[("Access-Control-Allow-Origin", "*")], b"ok")]);
    let resp = fetch(&mut req, &mut w);
    assert_eq!(resp.response_type, ResponseType::CORS);
}

#[test]
fn cors_check_rejects_the_wildcard_with_credentials() {
    let mut req = cross_origin_request(url("http", "a.example", "/x"));
    req.credentials_mode = CredentialsMode::Include;
    let mut w = wire(vec![reply(200, &[("Access-Control-Allow-Origin", "*")], b"ok")]);
    let resp = fetch(&mut req, &mut w);
    assert_eq!(resp.response_type, ResponseType::Error);
}

#[test]
fn preflight_probes_then_sends_and_caches_the_approval() {
    let mut cache = CORSCache::new();
    let mut req = cross_origin_request(url("http", "a.example", "/x"));
    req.method = Method::Post;
    req.use_cors_preflight = true;
    req.headers = headers(&[("X-Custom", "1")]);
    let mut w = wire(vec![
        reply(
            204,
            &[
                ("Access-Control-Allow-Origin", "http://b.example"),
                ("Access-Control-Allow-Methods", "POST"),
                ("Access-Control-Allow-Headers", "X-Custom"),
                ("Access-Control-Max-Age", "600"),
            ],
            b"",
        ),
        reply(200, &[("Access-Control-Allow-Origin", "http://b.example")], b"made it"),
    ]);
    let resp = fetch_with_cors_cache(&mut req, &mut cache, &mut w, 5);
    assert_eq!(resp.response_type, ResponseType::CORS);
    assert_eq!(w.sent.len(), 2);
    assert_eq!(w.sent[0].method.as_token(), "OPTIONS");
    assert_eq!(
        header_value(&w.sent[0].headers, "access-control-request-method").as_deref(),
        Some("POST")
    );
    assert_eq!(
        header_value(&w.sent[0].headers, "access-control-request-headers").as_deref(),
        Some("x-custom")
    );
    assert_eq!(w.sent[1].method.as_token(), "POST");

    // A second identical request within the max-age performs no OPTIONS
    // round-trip at all.
    let mut req2 = cross_origin_request(url("http", "a.example", "/x"));
    req2.method = Method::Post;
    req2.use_cors_preflight = true;
    req2.headers = headers(&[("X-Custom", "1")]);
    let mut w2 = wire(vec![reply(
        200,
        &[("Access-Control-Allow-Origin", "http://b.example")],
        b"again",
    )]);
    let resp2 = fetch_with_cors_cache(&mut req2, &mut cache, &mut w2, 300);
    assert_eq!(resp2.response_type, ResponseType::CORS);
    assert_eq!(w2.sent.len(), 1);
    assert_eq!(w2.sent[0].method.as_token(), "POST");

    // Past the max-age the approval has expired and the probe returns.
    let mut req3 = cross_origin_request(url("http", "a.example", "/x"));
    req3.method = Method::Post;
    req3.use_cors_preflight = true;
    req3.headers = headers(&[("X-Custom", "1")]);
    let mut w3 = wire(vec![
        reply(
            204,
            &[
                ("Access-Control-Allow-Origin", "http://b.example"),
                ("Access-Control-Allow-Methods", "POST"),
                ("Access-Control-Allow-Headers", "X-Custom"),
            ],
            b"",
        ),
        reply(200, &[("Access-Control-Allow-Origin", "http://b.example")], b"late"),
    ]);
    let resp3 = fetch_with_cors_cache(&mut req3, &mut cache, &mut w3, 700);
    assert_eq!(resp3.response_type, ResponseType::CORS);
    assert_eq!(w3.sent.len(), 2);
    assert_eq!(w3.sent[0].method.as_token(), "OPTIONS");
}

#[test]
fn a_zero_max_age_expires_at_once() {
    let mut cache = CORSCache::new();
    let preflight_answer = [
        ("Access-Control-Allow-Origin", "http://b.example"),
        ("Access-Control-Allow-Methods", "POST"),
        ("Access-Control-Max-Age", "0"),
    ];
    let mut req = cross_origin_request(url("http", "a.example", "/x"));
    req.method = Method::Post;
    req.use_cors_preflight = true;
    let mut w = wire(vec![
        reply(204, &preflight_answer, b""),
        reply(200, &[("Access-Control-Allow-Origin", "http://b.example")], b"one"),
    ]);
    let resp = fetch_with_cors_cache(&mut req, &mut cache, &mut w, 10);
    assert_eq!(resp.response_type, ResponseType::CORS);

    // The very next identical request needs a preflight again.
    let mut req2 = cross_origin_request(url("http", "a.example", "/x"));
    req2.method = Method::Post;
    req2.use_cors_preflight = true;
    let mut w2 = wire(vec![
        reply(204, &preflight_answer, b""),
        reply(200, &[("Access-Control-Allow-Origin", "http://b.example")], b"two"),
    ]);
    let resp2 = fetch_with_cors_cache(&mut req2, &mut cache, &mut w2, 10);
    assert_eq!(resp2.response_type, ResponseType::CORS);
    assert_eq!(w2.sent.len(), 2);
    assert_eq!(w2.sent[0].method.as_token(), "OPTIONS");
}

fn redirect_to(location: &str) -> WireReply {
    reply(302, &[("Location", location)], b"")
}

#[test]
fn a_found_redirect_rewrites_post_to_get() {
    let mut req = request_on(url("http", "a.example", "/"));
    req.method = Method::Post;
    req.body = Some(b"payload".to_vec());
    let mut w = wire(vec![redirect_to("/login"), reply(200, &[], b"welcome")]);
    let resp = fetch(&mut req, &mut w);
    assert_eq!(resp.response_type, ResponseType::Basic);
    assert_eq!(resp.status, Some(200));
    assert!(matches!(req.method, Method::Get));
    assert!(req.body.is_none());
    assert_eq!(req.url_list.len(), 2);
    assert_eq!(req.url_list[1].path, "/login");
    assert_eq!(req.redirect_count, 1);
    assert_eq!(w.sent.len(), 2);
}

#[test]
fn a_see_other_redirect_also_rewrites_to_get() {
    let mut req = request_on(url("http", "a.example", "/"));
    req.method = Method::Put;
    req.body = Some(b"payload".to_vec());
    let mut w = wire(vec![reply(303, &[("Location", "/done")], b""), reply(200, &[], b"ok")]);
    let resp = fetch(&mut req, &mut w);
    assert_eq!(resp.status, Some(200));
    assert!(matches!(req.method, Method::Get));
    assert!(req.body.is_none());
}

#[test]
fn the_twentieth_redirect_succeeds_and_the_twenty_first_fails() {
    let mut replies: Vec<WireReply> = Vec::new();
    for _ in 0..20 {
        replies.push(redirect_to("/next"));
    }
    replies.push(reply(200, &[], b"deep"));
    let mut req = request_on(url("http", "a.example", "/"));
    let mut w = wire(replies);
    let resp = fetch(&mut req, &mut w);
    assert_eq!(resp.response_type, ResponseType::Basic);
    assert_eq!(resp.status, Some(200));
    assert_eq!(req.redirect_count, 20);

    let mut replies2: Vec<WireReply> = Vec::new();
    for _ in 0..21 {
        replies2.push(redirect_to("/next"));
    }
    replies2.push(reply(200, &[], b"too deep"));
    let mut req2 = request_on(url("http", "a.example", "/"));
    let mut w2 = wire(replies2);
    let resp2 = fetch(&mut req2, &mut w2);
    assert_eq!(resp2.response_type, ResponseType::Error);
    assert!(req2.redirect_count <= 20);
    // the twenty-first hop was refused before any network work
    assert_eq!(w2.sent.len(), 21);
}

#[test]
fn manual_redirect_mode_yields_an_opaque_redirect() {
    let mut req = request_on(url("http", "a.example", "/"));
    req.redirect_mode = RedirectMode::Manual;
    let mut w = wire(vec![redirect_to("/elsewhere")]);
    let resp = fetch(&mut req, &mut w);
    assert_eq!(resp.response_type, ResponseType::OpaqueRedirect);
    assert_eq!(resp.status, None);
    assert_eq!(w.sent.len(), 1);
}

#[test]
fn error_redirect_mode_yields_a_network_error() {
    let mut req = request_on(url("http", "a.example", "/"));
    req.redirect_mode = RedirectMode::Error;
    let mut w = wire(vec![redirect_to("/elsewhere")]);
    let resp = fetch(&mut req, &mut w);
    assert_eq!(resp.response_type, ResponseType::Error);
}

#[test]
fn head_and_null_body_statuses_surface_an_empty_body() {
    let mut req = request_on(url("http", "a.example", "/"));
    req.method = Method::Head;
    let mut w = wire(vec![reply(200, &[], b"should be hidden")]);
    let resp = fetch(&mut req, &mut w);
    assert!(matches!(resp.actual_response().body, ResponseBody::Empty));

    let mut req2 = request_on(url("http", "a.example", "/"));
    let mut w2 = wire(vec![reply(204, &[], b"also hidden")]);
    let resp2 = fetch(&mut req2, &mut w2);
    assert!(matches!(resp2.actual_response().body, ResponseBody::Empty));
}

#[test]
fn no_cors_mode_yields_an_opaque_response() {
    let u = url("http", "a.example", "/image");
    let mut req = Request::new(u, Some(Origin::Origin(UrlOrigin::Opaque)), false);
    req.referer = Referer::NoReferer;
    req.mode = RequestMode::NoCORS;
    let mut w = wire(vec![reply(200, &[("Content-Type", "image/png")], b"pixels")]);
    let resp = fetch(&mut req, &mut w);
    assert_eq!(resp.response_type, ResponseType::Opaque);
    assert_eq!(resp.status, None);
    assert!(matches!(resp.body, ResponseBody::Empty));
    // the unfiltered response is still inside for the engine's own use
    assert_eq!(resp.actual_response().status, Some(200));
}

#[test]
fn reload_cache_mode_sends_pragma_and_cache_control() {
    let mut req = request_on(url("http", "a.example", "/"));
    req.cache_mode = CacheMode::Reload;
    let mut w = wire(vec![reply(200, &[], b"fresh")]);
    let _ = fetch(&mut req, &mut w);
    assert_eq!(header_value(&w.sent[0].headers, "pragma").as_deref(), Some("no-cache"));
    assert_eq!(header_value(&w.sent[0].headers, "cache-control").as_deref(), Some("no-cache"));
}

#[test]
fn no_cache_mode_always_sends_max_age_zero_when_unset() {
    let mut req = request_on(url("http", "a.example", "/"));
    req.cache_mode = CacheMode::NoCache;
    let mut w = wire(vec![reply(200, &[], b"a")]);
    let _ = fetch(&mut req, &mut w);
    assert_eq!(header_value(&w.sent[0].headers, "cache-control").as_deref(), Some("max-age=0"));

    // Setting a Cache-Control of one's own is honored...
    req.headers.set("cache-control", "no-transform");
    let mut w2 = wire(vec![reply(200, &[], b"b")]);
    let _ = fetch(&mut req, &mut w2);
    assert_eq!(
        header_value(&w2.sent[0].headers, "cache-control").as_deref(),
        Some("no-transform")
    );

    // ... and unsetting it brings max-age=0 back on the wire.
    req.headers.remove("cache-control");
    let mut w3 = wire(vec![reply(200, &[], b"c")]);
    let _ = fetch(&mut req, &mut w3);
    assert_eq!(header_value(&w3.sent[0].headers, "cache-control").as_deref(), Some("max-age=0"));
}

#[test]
fn accept_language_defaults_to_en_us_and_is_otherwise_kept() {
    let mut req = request_on(url("http", "a.example", "/"));
    let mut w = wire(vec![reply(200, &[], b"")]);
    let _ = fetch(&mut req, &mut w);
    assert_eq!(header_value(&req.headers, "accept-language").as_deref(), Some("en-US"));
    assert_eq!(header_value(&w.sent[0].headers, "accept-language").as_deref(), Some("en-US"));
    assert_eq!(header_value(&w.sent[0].headers, "accept").as_deref(), Some("*/*"));
    assert_eq!(header_value(&w.sent[0].headers, "user-agent").as_deref(), Some("Servo"));

    let mut req2 = request_on(url("http", "a.example", "/"));
    req2.headers.set("Accept-Language", "fr");
    let mut w2 = wire(vec![reply(200, &[], b"")]);
    let _ = fetch(&mut req2, &mut w2);
    assert_eq!(header_value(&w2.sent[0].headers, "accept-language").as_deref(), Some("fr"));
}

#[test]
fn a_401_retry_carries_the_url_credentials() {
    let mut u = url("http", "a.example", "/private");
    u.username = "user".to_string();
    u.password = Some("pw".to_string());
    let mut req = request_on(u);
    req.credentials_mode = CredentialsMode::Include;
    req.use_url_credentials = true;
    let mut w = wire(vec![reply(401, &[], b""), reply(200, &[], b"in")]);
    let resp = fetch(&mut req, &mut w);
    assert_eq!(resp.status, Some(200));
    assert_eq!(w.sent.len(), 2);
    assert_eq!(header_value(&w.sent[0].headers, "authorization"), None);
    assert_eq!(
        header_value(&w.sent[1].headers, "authorization").as_deref(),
        Some("Basic dXNlcjpwdw==")
    );
}

#[test]
fn a_file_fetch_reads_the_scripted_file_and_guesses_its_type() {
    let mut req = request_on(url("file", "", "/notes/readme.txt"));
    req.same_origin_data = true;
    let mut w = Wire::new(Vec::new(), vec![Some(b"hello file".to_vec())]);
    let resp = fetch(&mut req, &mut w);
    assert_eq!(resp.response_type, ResponseType::Basic);
    assert_eq!(w.file_sent.len(), 1);
    assert_eq!(w.file_sent[0], "/notes/readme.txt");
    assert_eq!(header_value(&resp.headers, "content-type").as_deref(), Some("text/plain"));
    match &resp.body {
        ResponseBody::Done(b) => assert_eq!(b.as_slice(), b"hello file"),
        _ => panic!("body must be complete"),
    }

    let mut req2 = request_on(url("file", "", "/gone.txt"));
    req2.same_origin_data = true;
    let mut w2 = Wire::new(Vec::new(), vec![None]);
    let resp2 = fetch(&mut req2, &mut w2);
    assert_eq!(resp2.response_type, ResponseType::Error);
}

#[test]
fn a_connection_failure_collapses_to_a_network_error() {
    let mut req = request_on(url("http", "a.example", "/"));
    let mut w = wire(vec![WireReply::Failure]);
    let resp = fetch(&mut req, &mut w);
    assert_eq!(resp.response_type, ResponseType::Error);
    assert_eq!(resp.status, None);
}

#[test]
fn same_origin_mode_refuses_cross_origin_urls() {
    let mut req = cross_origin_request(url("http", "a.example", "/x"));
    req.mode = RequestMode::SameOrigin;
    let mut w = wire(vec![]);
    let resp = fetch(&mut req, &mut w);
    assert_eq!(resp.response_type, ResponseType::Error);
    assert_eq!(w.sent.len(), 0);
}

#[test]
fn responses_are_projected_through_a_basic_filter() {
    let mut req = request_on(url("http", "a.example", "/"));
    let mut w = wire(vec![reply(
        200,
        &[("Set-Cookie", "sid=1"), ("Content-Type", "text/plain")],
        b"hi",
    )]);
    let resp = fetch(&mut req, &mut w);
    assert_eq!(resp.response_type, ResponseType::Basic);
    assert_eq!(header_value(&resp.headers, "set-cookie"), None);
    assert_eq!(header_value(&resp.headers, "content-type").as_deref(), Some("text/plain"));
    // the unfiltered response still holds the hidden header
    assert_eq!(
        header_value(&resp.actual_response().headers, "set-cookie").as_deref(),
        Some("sid=1")
    );
}

#[test]
fn cors_filtering_keeps_only_the_safelisted_headers() {
    let mut req = cross_origin_request(url("http", "a.example", "/x"));
    let mut w = wire(vec![reply(
        200,
        &[
            ("Access-Control-Allow-Origin", "*"),
            ("Content-Type", "text/plain"),
            ("X-Secret", "42"),
        ],
        b"ok",
    )]);
    let resp = fetch(&mut req, &mut w);
    assert_eq!(resp.response_type, ResponseType::CORS);
    assert_eq!(header_value(&resp.headers, "content-type").as_deref(), Some("text/plain"));
    assert_eq!(header_value(&resp.headers, "x-secret"), None);
}

#[test]
fn responses_parse_urls_for_the_caller() {
    let u = fetch_core::urls::parse_url("http://user:pw@h.example:8080/p?q=1#frag").unwrap();
    assert_eq!(u.scheme, "http");
    assert_eq!(u.username, "user");
    assert_eq!(u.password.as_deref(), Some("pw"));
    assert_eq!(u.host, "h.example");
    assert_eq!(u.port, Some(8080));
    assert_eq!(u.path, "/p");
    assert_eq!(u.query.as_deref(), Some("q=1"));
    assert_eq!(u.fragment.as_deref(), Some("frag"));
    let _ = Response::network_error();
}

#[test]
fn a_data_url_with_broken_base64_is_a_network_error() {
    let mut req = request_on(url("data", "", "text/plain;base64,@@@@"));
    req.same_origin_data = true;
    let mut w = wire(vec![]);
    let resp = fetch(&mut req, &mut w);
    assert_eq!(resp.response_type, ResponseType::Error);
}

#[test]
fn content_length_and_referer_are_synthesized() {
    let mut req = request_on(url("http", "a.example", "/submit"));
    req.method = Method::Post;
    req.body = Some(b"abcde".to_vec());
    req.referer = Referer::RefererUrl(url("http", "a.example", "/form"));
    let mut w = wire(vec![reply(200, &[], b"")]);
    let _ = fetch(&mut req, &mut w);
    assert_eq!(header_value(&w.sent[0].headers, "content-length").as_deref(), Some("5"));
    assert_eq!(
        header_value(&w.sent[0].headers, "referer").as_deref(),
        Some("http://a.example/form")
    );
}

#[test]
fn base64_data_urls_forgive_ascii_whitespace() {
    let mut req = request_on(url("data", "", "text/plain;base64,SGVs bG8="));
    req.same_origin_data = true;
    let mut w = wire(vec![]);
    let resp = fetch(&mut req, &mut w);
    assert_eq!(resp.status, Some(200));
    match &resp.body {
        ResponseBody::Done(b) => assert_eq!(b.as_slice(), b"Hello"),
        _ => panic!("body must be complete"),
    }
}

#[test]
fn file_paths_are_percent_decoded_before_the_read() {
    let mut req = request_on(url("file", "", "/my%20notes/readme.txt"));
    req.same_origin_data = true;
    let mut w = Wire::new(Vec::new(), vec![Some(b"decoded".to_vec())]);
    let resp = fetch(&mut req, &mut w);
    assert_eq!(resp.status, Some(200));
    assert_eq!(w.file_sent.len(), 1);
    assert_eq!(w.file_sent[0], "/my notes/readme.txt");
    match &resp.body {
        ResponseBody::Done(b) => assert_eq!(b.as_slice(), b"decoded"),
        _ => panic!("body must be complete"),
    }
}

#[test]
fn a_caller_set_user_agent_and_cache_control_reach_the_wire_unchanged() {
    let mut req = request_on(url("http", "a.example", "/"));
    req.cache_mode = CacheMode::Reload;
    req.headers.set("User-Agent", "probe/1.0");
    req.headers.set("Cache-Control", "only-if-cached");
    let mut w = wire(vec![reply(200, &[], b"")]);
    let _ = fetch(&mut req, &mut w);
    assert_eq!(header_value(&w.sent[0].headers, "user-agent").as_deref(), Some("probe/1.0"));
    assert_eq!(
        header_value(&w.sent[0].headers, "cache-control").as_deref(),
        Some("only-if-cached")
    );
    assert_eq!(header_value(&w.sent[0].headers, "pragma").as_deref(), Some("no-cache"));
}
