//! The fetch engine: entry, main fetch, basic fetch, HTTP fetch with
//! redirects and authentication retries, the network-or-cache layer, and
//! CORS preflight and checking.

use vstd::prelude::*;
use crate::cors_cache::{
    cache_has_header, cache_has_method, CacheRequestDetails, CORSCache, sat_add64,
};
use crate::data_url::{data_decode, decode_data_url};
use crate::headers::{
    hkey, hm_has, hm_set, hm_value, lemma_hm_value_set, Headers,
};
use crate::outside::{base64_encode, base64_encode_of, guess_mime_type, mime_guess_of};
use crate::request::{
    method_tok, CacheMode, CredentialsMode, Method, Origin, RedirectMode, Referer, Request,
    RequestMode, ResponseTainting, Window,
};
use crate::response::{
    body_bytes, Response, ResponseBody, ResponseType, TerminationReason,
};
use crate::strutil::{
    lower_seq, str_eq, str_eq_ci, u64_to_dec, dec_str,
};
use crate::urls::{
    same_origin, url_origin, url_ser, Url, UrlModel, UrlOrigin,
};
use crate::wire::{Wire, WirePlan, WireReply};

verus! {

/// The user agent this engine reports.
pub fn global_user_agent() -> (r: String)
    ensures
        r@ == "Servo"@,
{
    "Servo".to_owned()
}

/// Whether a URL carries credentials: a non-empty username or any password.
pub open spec fn url_has_credentials(u: UrlModel) -> bool {
    u.username.len() > 0 || u.password is Some
}

pub fn has_credentials(url: &Url) -> (r: bool)
    ensures
        r == url_has_credentials(url.model()),
{
    !url.username.as_str().is_empty() || match &url.password {
        Some(_) => true,
        None => false,
    }
}

/// The conditional headers whose presence disables the HTTP cache.
pub open spec fn no_store_from_headers(m: Seq<(Seq<char>, Seq<char>)>) -> bool {
    hm_has(m, "if-modified-since"@) || hm_has(m, "if-none-match"@) || hm_has(
        m,
        "if-unmodified-since"@,
    ) || hm_has(m, "if-match"@) || hm_has(m, "if-range"@)
}

pub fn is_no_store_cache(headers: &Headers) -> (r: bool)
    ensures
        r == no_store_from_headers(headers.model()),
{
    headers.has("if-modified-since") || headers.has("if-none-match") || headers.has(
        "if-unmodified-since",
    ) || headers.has("if-match") || headers.has("if-range")
}

/// The simple methods, which never force a preflight.
pub open spec fn simple_method(m: Method) -> bool {
    m is Get || m is Head || m is Post
}

pub fn is_simple_method(m: &Method) -> (r: bool)
    ensures
        r == simple_method(*m),
{
    match m {
        Method::Get => true,
        Method::Head => true,
        Method::Post => true,
        _ => false,
    }
}

/// Where the first semicolon stands, or the length when there is none.
pub open spec fn find_semi(s: Seq<char>) -> int
    decreases s.len(),
{
    if s.len() == 0 {
        0
    } else if s[0] == ';' {
        0
    } else {
        1 + find_semi(s.drop_first())
    }
}


/// The simple Content-Type values: the MIME before any parameters must be
/// one of three forms.
pub open spec fn simple_content_type(value: Seq<char>) -> bool {
    lower_seq(value.subrange(0, find_semi(value))) == lower_seq("text/plain"@) || lower_seq(
        value.subrange(0, find_semi(value)),
    ) == lower_seq("application/x-www-form-urlencoded"@) || lower_seq(
        value.subrange(0, find_semi(value)),
    ) == lower_seq("multipart/form-data"@)
}

/// The simple headers, which never force a preflight.
pub open spec fn simple_header(name: Seq<char>, value: Seq<char>) -> bool {
    hkey(name) == hkey("accept"@) || hkey(name) == hkey("accept-language"@) || hkey(name) == hkey(
        "content-language"@,
    ) || (hkey(name) == hkey("content-type"@) && simple_content_type(value))
}

pub fn is_simple_header(name: &str, value: &str) -> (r: bool)
    ensures
        r == simple_header(name@, value@),
{
    if str_eq_ci(name, "accept") || str_eq_ci(name, "accept-language") || str_eq_ci(
        name,
        "content-language",
    ) {
        return true;
    }
    if !str_eq_ci(name, "content-type") {
        return false;
    }
    let len = value.unicode_len();
    let mut j: usize = 0;
    proof {
        assert(value@.skip(0) =~= value@);
    }
    while j < len && value.get_char(j) != ';'
        invariant
            len == value@.len(),
            j <= len,
            find_semi(value@) == j + find_semi(value@.skip(j as int)),
        decreases len - j,
    {
        let ghost pre = value@.skip(j as int);
        proof {
            assert(pre[0] == value@[j as int]);
            assert(pre.drop_first() =~= value@.skip(j + 1));
        }
        j = j + 1;
    }
    proof {
        if j == len {
            assert(value@.skip(len as int) =~= Seq::<char>::empty());
        }
        assert(find_semi(value@) == j);
    }
    let essence = value.substring_char(0, j);
    proof {
        assert(essence@ =~= value@.subrange(0, find_semi(value@)));
    }
    str_eq_ci(essence, "text/plain") || str_eq_ci(essence, "application/x-www-form-urlencoded")
        || str_eq_ci(essence, "multipart/form-data")
}

/// A notional HTTP cache entry would be revalidated here; none exists yet.
pub fn response_needs_revalidation(_response: &Response) -> (r: bool)
    ensures
        r == false,
{
    false
}

/// The statuses that must not carry a body.
pub open spec fn null_body_status(s: Option<u16>) -> bool {
    match s {
        Some(c) => c == 101 || c == 204 || c == 205 || c == 304,
        None => false,
    }
}

pub fn is_null_body_status(status: &Option<u16>) -> (r: bool)
    ensures
        r == null_body_status(*status),
{
    match status {
        Some(c) => *c == 101 || *c == 204 || *c == 205 || *c == 304,
        None => false,
    }
}

/// The redirect statuses.
pub open spec fn is_redirect_status(s: u16) -> bool {
    s == 301 || s == 302 || s == 303 || s == 307 || s == 308
}

/// What every algorithm assumes of the request it is handed.
pub open spec fn request_ok(r: Request) -> bool {
    r.url_list@.len() >= 1 && !(r.referer is Client) && (r.origin is Origin) && r.redirect_count
        <= 20
}

/// How one wire state follows from another: same script, submissions only
/// appended, scripted replies only consumed.
pub open spec fn wire_extended(w0: Wire, w1: Wire) -> bool {
    w1.replies@ == w0.replies@ && w1.file_replies@ == w0.file_replies@ && w0.sent@.is_prefix_of(
        w1.sent@,
    ) && w1.remaining() <= w0.remaining() && w0.file_sent@.len() <= w1.file_sent@.len()
}


/// A header value the caller set under this name is kept: on the request
/// itself, and on every submission that is not a preflight.
pub open spec fn header_kept(
    h0: Seq<(Seq<char>, Seq<char>)>,
    h1: Seq<(Seq<char>, Seq<char>)>,
    w0: Wire,
    w1: Wire,
    name: Seq<char>,
) -> bool {
    hm_has(h0, name) ==> (hm_value(h1, name) == hm_value(h0, name) && forall|j: int|
        w0.sent@.len() <= j < w1.sent@.len() ==> (hm_has(
            (#[trigger] w1.sent@[j]).headers.model(),
            "access-control-request-method"@,
        ) || hm_value(w1.sent@[j].headers.model(), name) == hm_value(h0, name)))
}

/// The caller's Accept and Accept-Language are never replaced.
pub open spec fn caller_headers_kept(
    h0: Seq<(Seq<char>, Seq<char>)>,
    h1: Seq<(Seq<char>, Seq<char>)>,
    w0: Wire,
    w1: Wire,
) -> bool {
    header_kept(h0, h1, w0, w1, "accept-language"@) && header_kept(h0, h1, w0, w1, "accept"@)
}


/// The default Accept header, by what the request is for.
pub open spec fn default_accept(req: Request) -> Seq<char> {
    if req.is_navigation_request {
        "text/html, application/xhtml+xml, application/xml;q=0.9, */*;q=0.8"@
    } else if req.type_ is Image {
        "image/png, image/svg+xml, image/*;q=0.8, */*;q=0.5"@
    } else if req.type_ is Style {
        "text/css, */*;q=0.1"@
    } else {
        "*/*"@
    }
}

/// The tainting-to-filter mapping of main fetch.
pub open spec fn taint_type(t: ResponseTainting) -> ResponseType {
    match t {
        ResponseTainting::Basic => ResponseType::Basic,
        ResponseTainting::CORSTainting => ResponseType::CORS,
        ResponseTainting::Opaque => ResponseType::Opaque,
    }
}

/// The shape every raw (unfiltered) sub-result has: plain, an error, or an
/// opaque-redirect wrapper that only a Manual redirect mode produces.
pub open spec fn raw_result_ok(r: Response, manual: bool) -> bool {
    r.response_type is Default || r.response_type is Error || (r.response_type is OpaqueRedirect
        && manual)
}

/// The value an Authorization header gets from URL credentials.
pub open spec fn basic_userinfo(u: UrlModel) -> Seq<char> {
    u.username + (match u.password {
        Some(p) => seq![':'] + p,
        None => Seq::<char>::empty(),
    })
}

/// Relates the response of the network layer to the scripted reply it
/// consumed: a success is copied out; a failure, or a script that has run
/// dry, leaves a bodiless response marked fatally terminated.
pub open spec fn wire_answer(w0: Wire, r: Response) -> bool {
    if w0.sent@.len() < w0.replies@.len() && w0.replies@[w0.sent@.len() as int] is Success {
        match w0.replies@[w0.sent@.len() as int] {
            WireReply::Success(w) => r.status == Some(w.status) && r.headers.model()
                == w.headers.model() && body_bytes(r.body) == Some(w.body@)
                && r.termination_reason is None,
            WireReply::Failure => false,
        }
    } else {
        r.status is None && r.termination_reason == Some(TerminationReason::Fatal)
            && r.headers.model() == Seq::<(Seq<char>, Seq<char>)>::empty() && r.body is Empty
    }
}

fn clone_opt_bytes(o: &Option<Vec<u8>>) -> (r: Option<Vec<u8>>)
    ensures
        match (r, *o) {
            (Some(a), Some(b)) => a@ == b@,
            (None, None) => true,
            _ => false,
        },
{
    match o {
        Some(v) => Some(crate::response::clone_bytes(v)),
        None => None,
    }
}

/// [HTTP network fetch](https://fetch.spec.whatwg.org/#http-network-fetch):
/// submits the request on the wire and builds a
/// response from what came back; a connection failure only marks the
/// termination reason, as the connector's caller sees it.
pub fn http_network_fetch(request: &Request, plan_headers: &Headers, wire: &mut Wire) -> (r:
    Response)
    requires
        request.url_list@.len() >= 1,
    ensures
        final(wire).replies@ == old(wire).replies@,
        final(wire).file_replies@ == old(wire).file_replies@,
        final(wire).file_sent@ == old(wire).file_sent@,
        final(wire).sent@.len() == old(wire).sent@.len() + 1,
        old(wire).sent@.is_prefix_of(final(wire).sent@),
        final(wire).sent@.last().url.model() == request.url_list@.last().model(),
        method_tok(final(wire).sent@.last().method) == method_tok(request.method),
        final(wire).sent@.last().headers.model() == plan_headers.model(),
        wire_answer(*old(wire), r),
        r.response_type is Default,
        r.return_internal,
        r.internal_response is None,
        crate::response::urls_model(r.url_list@) == crate::response::urls_model(
            request.url_list@,
        ),
        (old(wire).sent@.len() < old(wire).replies@.len() && old(wire).replies@[old(
            wire,
        ).sent@.len() as int] is Success) ==> (final(wire).remaining() < old(wire).remaining()
            && r.url is Some && (match r.url {
            Some(u) => u.model() == request.url_list@.last().model(),
            None => false,
        })),
        final(wire).remaining() <= old(wire).remaining(),
{
    let plan = WirePlan {
        url: request.current_url().clone(),
        method: request.method.clone(),
        headers: plan_headers.clone(),
        body: clone_opt_bytes(&request.body),
    };
    let mut response = Response::new();
    match wire.transmit(plan) {
        Some(w) => {
            response.url = Some(request.current_url().clone());
            response.status = Some(w.status);
            response.headers = w.headers;
            response.body = ResponseBody::Done(w.body);
        },
        None => {
            response.status = None;
            response.termination_reason = Some(TerminationReason::Fatal);
        },
    }
    response.url_list = crate::response::clone_urls(&request.url_list);
    proof {
        assert(old(wire).sent@.is_prefix_of(wire.sent@)) by {
            assert(old(wire).sent@ =~= wire.sent@.subrange(0, old(wire).sent@.len() as int));
        }
    }
    response
}

/// Header synthesis before the network: Content-Length, Referer,
/// User-Agent, the cache-mode rules, and URL-credential authorization.
#[verifier::loop_isolation(false)]
#[verifier::rlimit(100)]
pub fn synthesize_http_headers(
    headers: &mut Headers,
    cache_mode: &mut CacheMode,
    method: &Method,
    body: &Option<Vec<u8>>,
    referer: &Referer,
    current_url: &Url,
    credentials_flag: bool,
    authentication_fetch_flag: bool,
)
    requires
        !(referer is Client),
    ensures
        *final(cache_mode) == (if *old(cache_mode) is Default && no_store_from_headers(
            old(headers).model(),
        ) {
            CacheMode::NoStore
        } else {
            *old(cache_mode)
        }),
        (*old(cache_mode) is NoCache && !hm_has(old(headers).model(), "cache-control"@))
            ==> hm_value(final(headers).model(), "cache-control"@) == Some("max-age=0"@),
        *old(cache_mode) is Reload ==> ((!hm_has(old(headers).model(), "pragma"@) ==> hm_value(
            final(headers).model(),
            "pragma"@,
        ) == Some("no-cache"@)) && (!hm_has(old(headers).model(), "cache-control"@) ==> hm_value(
            final(headers).model(),
            "cache-control"@,
        ) == Some("no-cache"@))),
        hm_value(final(headers).model(), "accept-language"@) == hm_value(
            old(headers).model(),
            "accept-language"@,
        ),
        hm_value(final(headers).model(), "accept"@) == hm_value(old(headers).model(), "accept"@),
        hm_value(final(headers).model(), "access-control-request-method"@) == hm_value(
            old(headers).model(),
            "access-control-request-method"@,
        ),
        hm_value(final(headers).model(), "access-control-request-headers"@) == hm_value(
            old(headers).model(),
            "access-control-request-headers"@,
        ),
        !hm_has(old(headers).model(), "user-agent"@) ==> hm_value(
            final(headers).model(),
            "user-agent"@,
        ) == Some("Servo"@),
        hm_has(old(headers).model(), "user-agent"@) ==> hm_value(
            final(headers).model(),
            "user-agent"@,
        ) == hm_value(old(headers).model(), "user-agent"@),
        hm_has(old(headers).model(), "pragma"@) ==> hm_value(final(headers).model(), "pragma"@)
            == hm_value(old(headers).model(), "pragma"@),
        hm_has(old(headers).model(), "cache-control"@) ==> hm_value(
            final(headers).model(),
            "cache-control"@,
        ) == hm_value(old(headers).model(), "cache-control"@),
        hm_has(old(headers).model(), "authorization"@) ==> hm_value(
            final(headers).model(),
            "authorization"@,
        ) == hm_value(old(headers).model(), "authorization"@),
        !credentials_flag ==> hm_value(final(headers).model(), "authorization"@) == hm_value(
            old(headers).model(),
            "authorization"@,
        ),
        (match body {
            Some(_) => true,
            None => !(method is Head || method is Post || method is Put) ==> hm_value(
                final(headers).model(),
                "content-length"@,
            ) == hm_value(old(headers).model(), "content-length"@),
        }),
        (match body {
            Some(b) => hm_value(final(headers).model(), "content-length"@) == Some(
                dec_str(b@.len() as nat),
            ),
            None => (method is Head || method is Post || method is Put)
                ==> hm_value(final(headers).model(), "content-length"@) == Some(dec_str(0nat)),
        }),
        (match referer {
            Referer::NoReferer => hm_value(final(headers).model(), "referer"@) == Some(
                Seq::<char>::empty(),
            ),
            Referer::RefererUrl(u) => hm_value(final(headers).model(), "referer"@) == Some(
                url_ser(u.model()),
            ),
            Referer::Client => true,
        }),
        (credentials_flag && !hm_has(old(headers).model(), "authorization"@)
            && authentication_fetch_flag && url_has_credentials(current_url.model()))
            ==> hm_value(final(headers).model(), "authorization"@) == Some(
            "Basic "@ + base64_encode_of(basic_userinfo(current_url.model())),
        ),
{
    proof {
        reveal_strlit("accept-language");
        reveal_strlit("access-control-request-method");
        reveal_strlit("access-control-request-headers");
        reveal_strlit("content-length");
        reveal_strlit("referer");
        reveal_strlit("user-agent");
        reveal_strlit("cache-control");
        reveal_strlit("pragma");
        reveal_strlit("authorization");
        reveal_strlit("accept");
        assert(hkey("accept"@).len() == 6);
        assert(hkey("accept-language"@).len() == 15);
        assert(hkey("accept"@) != hkey("pragma"@)) by {
            assert(hkey("accept"@)[0] == 'a');
            assert(hkey("pragma"@)[0] == 'p');
        }
        assert(hkey("access-control-request-method"@).len() == 29);
        assert(hkey("access-control-request-headers"@).len() == 30);
        assert(hkey("content-length"@).len() == 14);
        assert(hkey("referer"@).len() == 7);
        assert(hkey("user-agent"@).len() == 10);
        assert(hkey("cache-control"@).len() == 13);
        assert(hkey("pragma"@).len() == 6);
        assert(hkey("authorization"@).len() == 13);
        assert(hkey("authorization"@) != hkey("cache-control"@)) by {
            assert(hkey("authorization"@)[0] == 'a');
            assert(hkey("cache-control"@)[0] == 'c');
        }
    }
    // The cache-disabling conditional headers are the caller's; read them
    // before anything is synthesized.
    let upgrade_to_no_store = matches!(*cache_mode, CacheMode::Default) && is_no_store_cache(
        headers,
    );
    // Content-Length
    match body {
        Some(b) => {
            let v = u64_to_dec(b.len() as u64);
            let ghost before = headers.model();
            headers.set("content-length", v.as_str());
            proof {
                lemma_set_all(before, "content-length"@, v@);
            }
        },
        None => {
            match method {
                Method::Head | Method::Post | Method::Put => {
                    let v = u64_to_dec(0);
                    let ghost before = headers.model();
                    headers.set("content-length", v.as_str());
                    proof {
                        lemma_set_all(before, "content-length"@, v@);
                    }
                },
                _ => {},
            }
        },
    }
    // Referer
    match referer {
        Referer::NoReferer => {
            let ghost before = headers.model();
            headers.set("referer", "");
            proof {
                lemma_set_all(before, "referer"@, ""@);
                reveal_strlit("");
                assert(""@ =~= Seq::<char>::empty());
            }
        },
        Referer::RefererUrl(u) => {
            let v = u.serialize();
            let ghost before = headers.model();
            headers.set("referer", v.as_str());
            proof {
                lemma_set_all(before, "referer"@, v@);
            }
        },
        Referer::Client => {
            // excluded by the precondition: a referrer must be resolved
            // before fetching
        },
    }
    // User-Agent
    if !headers.has("user-agent") {
        let ua = global_user_agent();
        let ghost before = headers.model();
        headers.set("user-agent", ua.as_str());
        proof {
            lemma_set_all(before, "user-agent"@, ua@);
        }
    }
    // Cache-mode rules
    match *cache_mode {
        CacheMode::Default => {
            if upgrade_to_no_store {
                *cache_mode = CacheMode::NoStore;
            }
        },
        CacheMode::NoCache => {
            if !headers.has("cache-control") {
                let ghost before = headers.model();
                headers.set("cache-control", "max-age=0");
                proof {
                    lemma_set_all(before, "cache-control"@, "max-age=0"@);
                }
            }
        },
        CacheMode::Reload => {
            if !headers.has("pragma") {
                let ghost before = headers.model();
                headers.set("pragma", "no-cache");
                proof {
                    lemma_set_all(before, "pragma"@, "no-cache"@);
                }
            }
            if !headers.has("cache-control") {
                let ghost before = headers.model();
                headers.set("cache-control", "no-cache");
                proof {
                    lemma_set_all(before, "cache-control"@, "no-cache"@);
                }
            }
        },
        _ => {},
    }
    // Authorization from URL credentials
    if credentials_flag && !headers.has("authorization") {
        if authentication_fetch_flag && has_credentials(current_url) {
            let mut userinfo = current_url.username.clone();
            match &current_url.password {
                Some(p) => {
                    crate::strutil::push_char(&mut userinfo, ':');
                    userinfo.append(p.as_str());
                },
                None => {},
            }
            proof {
                assert(userinfo@ =~= basic_userinfo(current_url.model()));
            }
            let encoded = base64_encode(userinfo.as_str());
            let mut value = String::new();
            value.append("Basic ");
            value.append(encoded.as_str());
            proof {
                assert(value@ =~= "Basic "@ + base64_encode_of(
                    basic_userinfo(current_url.model()),
                ));
            }
            let ghost before = headers.model();
            headers.set("authorization", value.as_str());
            proof {
                lemma_set_all(before, "authorization"@, value@);
            }
        }
    }
}

/// One set, read back for each header name the synthesis contract speaks
/// of.
proof fn lemma_set_all(m: Seq<(Seq<char>, Seq<char>)>, n: Seq<char>, v: Seq<char>)
    ensures
        hm_value(hm_set(m, n, v), n) == Some(v),
        hm_value(hm_set(m, n, v), "accept-language"@) == (if hkey("accept-language"@) == hkey(n) {
            Some(v)
        } else {
            hm_value(m, "accept-language"@)
        }),
        hm_value(hm_set(m, n, v), "accept"@) == (if hkey("accept"@) == hkey(n) {
            Some(v)
        } else {
            hm_value(m, "accept"@)
        }),
        hm_value(hm_set(m, n, v), "access-control-request-method"@) == (if hkey(
            "access-control-request-method"@,
        ) == hkey(n) {
            Some(v)
        } else {
            hm_value(m, "access-control-request-method"@)
        }),
        hm_value(hm_set(m, n, v), "access-control-request-headers"@) == (if hkey(
            "access-control-request-headers"@,
        ) == hkey(n) {
            Some(v)
        } else {
            hm_value(m, "access-control-request-headers"@)
        }),
        hm_value(hm_set(m, n, v), "content-length"@) == (if hkey("content-length"@) == hkey(n) {
            Some(v)
        } else {
            hm_value(m, "content-length"@)
        }),
        hm_value(hm_set(m, n, v), "referer"@) == (if hkey("referer"@) == hkey(n) {
            Some(v)
        } else {
            hm_value(m, "referer"@)
        }),
        hm_value(hm_set(m, n, v), "user-agent"@) == (if hkey("user-agent"@) == hkey(n) {
            Some(v)
        } else {
            hm_value(m, "user-agent"@)
        }),
        hm_value(hm_set(m, n, v), "cache-control"@) == (if hkey("cache-control"@) == hkey(n) {
            Some(v)
        } else {
            hm_value(m, "cache-control"@)
        }),
        hm_value(hm_set(m, n, v), "pragma"@) == (if hkey("pragma"@) == hkey(n) {
            Some(v)
        } else {
            hm_value(m, "pragma"@)
        }),
        hm_value(hm_set(m, n, v), "authorization"@) == (if hkey("authorization"@) == hkey(n) {
            Some(v)
        } else {
            hm_value(m, "authorization"@)
        }),
{
    lemma_hm_value_set(m, n, v, n);
    lemma_hm_value_set(m, n, v, "accept-language"@);
    lemma_hm_value_set(m, n, v, "accept"@);
    lemma_hm_value_set(m, n, v, "access-control-request-method"@);
    lemma_hm_value_set(m, n, v, "access-control-request-headers"@);
    lemma_hm_value_set(m, n, v, "content-length"@);
    lemma_hm_value_set(m, n, v, "referer"@);
    lemma_hm_value_set(m, n, v, "user-agent"@);
    lemma_hm_value_set(m, n, v, "cache-control"@);
    lemma_hm_value_set(m, n, v, "pragma"@);
    lemma_hm_value_set(m, n, v, "authorization"@);
}

/// [HTTP network-or-cache fetch](https://fetch.spec.whatwg.org/#http-network-or-cache-fetch):
/// synthesizes the wire headers — on a clone
/// when redirects are followed, so later hops start from the caller's
/// headers — consults the (notional, always empty) HTTP cache, and falls
/// through to the network.
pub fn http_network_or_cache_fetch(
    request: &mut Request,
    wire: &mut Wire,
    credentials_flag: bool,
    authentication_fetch_flag: bool,
) -> (r: Response)
    requires
        request_ok(*old(request)),
    ensures
        request_ok(*final(request)),
        final(request).url_list@ == old(request).url_list@,
        final(request).redirect_count == old(request).redirect_count,
        final(request).method == old(request).method,
        final(request).body == old(request).body,
        final(request).origin == old(request).origin,
        final(request).referer == old(request).referer,
        final(request).mode == old(request).mode,
        final(request).credentials_mode == old(request).credentials_mode,
        final(request).redirect_mode == old(request).redirect_mode,
        final(request).response_tainting == old(request).response_tainting,
        final(request).use_cors_preflight == old(request).use_cors_preflight,
        final(request).same_origin_data == old(request).same_origin_data,
        final(request).local_urls_only == old(request).local_urls_only,
        final(request).unsafe_request == old(request).unsafe_request,
        final(request).synchronous == old(request).synchronous,
        hm_value(final(request).headers.model(), "accept-language"@) == hm_value(
            old(request).headers.model(),
            "accept-language"@,
        ),
        final(wire).replies@ == old(wire).replies@,
        final(wire).file_replies@ == old(wire).file_replies@,
        final(wire).file_sent@ == old(wire).file_sent@,
        final(wire).sent@.len() == old(wire).sent@.len() + 1,
        old(wire).sent@.is_prefix_of(final(wire).sent@),
        final(wire).remaining() <= old(wire).remaining(),
        method_tok(final(wire).sent@.last().method) == method_tok(old(request).method),
        final(wire).sent@.last().url.model() == old(request).url_list@.last().model(),
        hm_value(final(wire).sent@.last().headers.model(), "accept-language"@) == hm_value(
            old(request).headers.model(),
            "accept-language"@,
        ),
        hm_value(final(wire).sent@.last().headers.model(), "accept"@) == hm_value(
            old(request).headers.model(),
            "accept"@,
        ),
        hm_value(final(request).headers.model(), "accept"@) == hm_value(
            old(request).headers.model(),
            "accept"@,
        ),
        hm_value(final(wire).sent@.last().headers.model(), "access-control-request-method"@)
            == hm_value(old(request).headers.model(), "access-control-request-method"@),
        hm_value(final(wire).sent@.last().headers.model(), "access-control-request-headers"@)
            == hm_value(old(request).headers.model(), "access-control-request-headers"@),
        (old(request).cache_mode is NoCache && !hm_has(
            old(request).headers.model(),
            "cache-control"@,
        )) ==> hm_value(final(wire).sent@.last().headers.model(), "cache-control"@) == Some(
            "max-age=0"@,
        ),
        old(request).cache_mode is Reload ==> ((!hm_has(old(request).headers.model(), "pragma"@)
            ==> hm_value(final(wire).sent@.last().headers.model(), "pragma"@) == Some(
            "no-cache"@,
        )) && (!hm_has(old(request).headers.model(), "cache-control"@) ==> hm_value(
            final(wire).sent@.last().headers.model(),
            "cache-control"@,
        ) == Some("no-cache"@))),
        (credentials_flag && !hm_has(old(request).headers.model(), "authorization"@)
            && authentication_fetch_flag && url_has_credentials(
            old(request).url_list@.last().model(),
        )) ==> hm_value(final(wire).sent@.last().headers.model(), "authorization"@) == Some(
            "Basic "@ + base64_encode_of(basic_userinfo(old(request).url_list@.last().model())),
        ),
        (match old(request).body {
            Some(b) => hm_value(final(wire).sent@.last().headers.model(), "content-length"@)
                == Some(dec_str(b@.len() as nat)),
            None => (old(request).method is Head || old(request).method is Post || old(
                request,
            ).method is Put) ==> hm_value(
                final(wire).sent@.last().headers.model(),
                "content-length"@,
            ) == Some(dec_str(0nat)),
        }),
        (match old(request).referer {
            Referer::NoReferer => hm_value(final(wire).sent@.last().headers.model(), "referer"@)
                == Some(Seq::<char>::empty()),
            Referer::RefererUrl(u) => hm_value(
                final(wire).sent@.last().headers.model(),
                "referer"@,
            ) == Some(url_ser(u.model())),
            Referer::Client => true,
        }),
        !hm_has(old(request).headers.model(), "user-agent"@) ==> hm_value(
            final(wire).sent@.last().headers.model(),
            "user-agent"@,
        ) == Some("Servo"@),
        hm_has(old(request).headers.model(), "user-agent"@) ==> hm_value(
            final(wire).sent@.last().headers.model(),
            "user-agent"@,
        ) == hm_value(old(request).headers.model(), "user-agent"@),
        hm_has(old(request).headers.model(), "pragma"@) ==> hm_value(
            final(wire).sent@.last().headers.model(),
            "pragma"@,
        ) == hm_value(old(request).headers.model(), "pragma"@),
        hm_has(old(request).headers.model(), "cache-control"@) ==> hm_value(
            final(wire).sent@.last().headers.model(),
            "cache-control"@,
        ) == hm_value(old(request).headers.model(), "cache-control"@),
        hm_has(old(request).headers.model(), "authorization"@) ==> hm_value(
            final(wire).sent@.last().headers.model(),
            "authorization"@,
        ) == hm_value(old(request).headers.model(), "authorization"@),
        !credentials_flag ==> hm_value(
            final(wire).sent@.last().headers.model(),
            "authorization"@,
        ) == hm_value(old(request).headers.model(), "authorization"@),
        (match old(request).body {
            Some(_) => true,
            None => !(old(request).method is Head || old(request).method is Post || old(
                request,
            ).method is Put) ==> hm_value(
                final(wire).sent@.last().headers.model(),
                "content-length"@,
            ) == hm_value(old(request).headers.model(), "content-length"@),
        }),
        // The cache-mode upgrade is observable when the request itself
        // carried the wire headers.
        !(old(request).redirect_mode is Follow) ==> final(request).cache_mode == (if old(
            request,
        ).cache_mode is Default && no_store_from_headers(old(request).headers.model()) {
            CacheMode::NoStore
        } else {
            old(request).cache_mode
        }),
        // With redirects followed, the wire headers live on a clone: the
        // caller's own headers and cache mode are untouched.
        old(request).redirect_mode is Follow ==> (final(request).headers.model() == old(
            request,
        ).headers.model() && final(request).cache_mode == old(request).cache_mode),
        wire_answer(*old(wire), r),
        r.response_type is Default,
        r.return_internal,
        r.internal_response is None,
        crate::response::urls_model(r.url_list@) == crate::response::urls_model(
            old(request).url_list@,
        ),
        (old(wire).sent@.len() < old(wire).replies@.len() && old(wire).replies@[old(
            wire,
        ).sent@.len() as int] is Success) ==> (final(wire).remaining() < old(wire).remaining()
            && (match r.url {
            Some(u) => u.model() == old(request).url_list@.last().model(),
            None => false,
        })),
        caller_headers_kept(old(request).headers.model(), final(request).headers.model(), *old(wire), *final(wire)),
{
    // A request without a window whose redirects are not followed is used
    // in place; otherwise the wire headers live on a clone, so that later
    // hops are synthesized afresh.
    let response;
    if !matches!(request.redirect_mode, RedirectMode::Follow) {
        let url = request.current_url().clone();
        synthesize_http_headers(
            &mut request.headers,
            &mut request.cache_mode,
            &request.method,
            &request.body,
            &request.referer,
            &url,
            credentials_flag,
            authentication_fetch_flag,
        );
        response = http_network_fetch(request, &request.headers, wire);
    } else {
        let mut plan_headers = request.headers.clone();
        let mut plan_cache_mode = request.cache_mode;
        let url = request.current_url().clone();
        synthesize_http_headers(
            &mut plan_headers,
            &mut plan_cache_mode,
            &request.method,
            &request.body,
            &request.referer,
            &url,
            credentials_flag,
            authentication_fetch_flag,
        );
        response = http_network_fetch(request, &plan_headers, wire);
    }
    // The notional HTTP cache holds no complete response, so the lookup
    // always falls through to the network, and a 304 has no stored answer
    // to merge with.
    response
}

/// The [CORS check](https://fetch.spec.whatwg.org/#concept-cors-check) over
/// a response's headers: a wildcard allow-origin passes
/// without credentials; otherwise the header must spell the request's own
/// origin, and credentialed requests also need Allow-Credentials.
pub open spec fn cors_check_spec(
    origin: Origin,
    credentials_mode: CredentialsMode,
    resp_headers: Seq<(Seq<char>, Seq<char>)>,
) -> bool {
    match hm_value(resp_headers, "access-control-allow-origin"@) {
        None => false,
        Some(v) => if !(credentials_mode is Include) && v == "*"@ {
            true
        } else if v == "*"@ || v == "null"@ {
            false
        } else {
            (match origin {
                Origin::Origin(o) => v == crate::urls::origin_ascii(o.model()),
                Origin::Client => false,
            }) && (credentials_mode is Include ==> hm_has(
                resp_headers,
                "access-control-allow-credentials"@,
            ))
        },
    }
}

/// CORS check.
pub fn cors_check(request: &Request, response: &Response) -> (r: Result<(), ()>)
    ensures
        r is Ok <==> cors_check_spec(
            request.origin,
            request.credentials_mode,
            response.headers.model(),
        ),
{
    let v = match response.headers.get_cloned("access-control-allow-origin") {
        Some(v) => v,
        None => {
            return Err(());
        },
    };
    let with_credentials = matches!(request.credentials_mode, CredentialsMode::Include);
    if !with_credentials && str_eq(v.as_str(), "*") {
        return Ok(());
    }
    if str_eq(v.as_str(), "*") || str_eq(v.as_str(), "null") {
        return Err(());
    }
    let origin_matches = match &request.origin {
        Origin::Origin(o) => {
            let ser = crate::urls::origin_ascii_serialization(o);
            str_eq(v.as_str(), ser.as_str())
        },
        Origin::Client => false,
    };
    if !origin_matches {
        return Err(());
    }
    if !with_credentials {
        return Ok(());
    }
    if response.headers.has("access-control-allow-credentials") {
        Ok(())
    } else {
        Err(())
    }
}

/// The key under which a request's preflight approvals are cached.
pub open spec fn preflight_details(req: Request) -> CacheRequestDetails {
    CacheRequestDetails {
        origin: req.origin,
        destination: req.url_list@.last(),
        credentials: req.credentials_mode is Include,
    }
}

/// The headers of the scripted reply the next submission would consume;
/// empty when it is a failure or the script has run dry.
pub open spec fn next_reply_headers(w0: Wire) -> Seq<(Seq<char>, Seq<char>)> {
    if w0.sent@.len() < w0.replies@.len() {
        match w0.replies@[w0.sent@.len() as int] {
            WireReply::Success(w) => w.headers.model(),
            WireReply::Failure => Seq::empty(),
        }
    } else {
        Seq::empty()
    }
}

/// The methods a preflight answer allows: the Allow-Methods token list,
/// with the triggering method taken as implied when the list is empty and
/// the caller forced the preflight.
pub open spec fn allowed_methods_of(req: Request, rh: Seq<(Seq<char>, Seq<char>)>) -> Seq<
    Seq<char>,
> {
    let toks = match hm_value(rh, "access-control-allow-methods"@) {
        Some(v) => crate::strutil::token_list(v),
        None => Seq::<Seq<char>>::empty(),
    };
    if toks.len() == 0 && req.use_cors_preflight {
        seq![method_tok(req.method)]
    } else {
        toks
    }
}

/// The header names a preflight answer allows.
pub open spec fn allowed_headers_of(rh: Seq<(Seq<char>, Seq<char>)>) -> Seq<Seq<char>> {
    match hm_value(rh, "access-control-allow-headers"@) {
        Some(v) => crate::strutil::token_list(v),
        None => Seq::<Seq<char>>::empty(),
    }
}

/// When a preflight answer grants the request: a successful exchange with
/// a 2xx status that passes the CORS check, allows the method (or it is
/// simple), and allows every non-simple request header.
pub open spec fn preflight_grants(req: Request, w0: Wire) -> bool {
    next_is_success(w0) && 200 <= next_status(w0) < 300 && cors_check_spec(
        req.origin,
        req.credentials_mode,
        next_reply_headers(w0),
    ) && (crate::strutil::toks_have(
        allowed_methods_of(req, next_reply_headers(w0)),
        method_tok(req.method),
    ) || simple_method(req.method)) && (forall|j: int|
        0 <= j < req.headers.model().len() ==> (simple_header(
            (#[trigger] req.headers.model()[j]).0,
            req.headers.model()[j].1,
        ) || crate::strutil::toks_have_ci(
            allowed_headers_of(next_reply_headers(w0)),
            req.headers.model()[j].0,
        )))
}

/// The max-age a preflight reply grants its approvals: the decimal value of
/// Access-Control-Max-Age, or zero when absent or malformed.
pub open spec fn preflight_max_age(rh: Seq<(Seq<char>, Seq<char>)>) -> u32 {
    match hm_value(rh, "access-control-max-age"@) {
        Some(v) => if crate::strutil::all_digits(v) && v.len() >= 1 && crate::strutil::dec_nat(v)
            <= u32::MAX {
            crate::strutil::dec_nat(v) as u32
        } else {
            0
        },
        None => 0,
    }
}

fn method_from_token(t: &str) -> (r: Method)
    ensures
        method_tok(r) == t@,
{
    Method::Extension(t.to_owned())
}

/// Byte order on character sequences: the first differing position
/// decides; a proper prefix comes first.
pub open spec fn lex_lt(a: Seq<char>, b: Seq<char>) -> bool
    decreases a.len(),
{
    if b.len() == 0 {
        false
    } else if a.len() == 0 {
        true
    } else if a[0] != b[0] {
        (a[0] as u32) < (b[0] as u32)
    } else {
        lex_lt(a.drop_first(), b.drop_first())
    }
}

fn string_lt(a: &str, b: &str) -> (r: bool)
    ensures
        r == lex_lt(a@, b@),
{
    let la = a.unicode_len();
    let lb = b.unicode_len();
    let mut i: usize = 0;
    proof {
        assert(a@.skip(0) =~= a@);
        assert(b@.skip(0) =~= b@);
    }
    while i < la && i < lb
        invariant
            la == a@.len(),
            lb == b@.len(),
            i <= la,
            i <= lb,
            lex_lt(a@, b@) == lex_lt(a@.skip(i as int), b@.skip(i as int)),
        decreases la - i,
    {
        let ghost pa = a@.skip(i as int);
        let ghost pb = b@.skip(i as int);
        proof {
            assert(pa[0] == a@[i as int]);
            assert(pb[0] == b@[i as int]);
            assert(pa.drop_first() =~= a@.skip(i + 1));
            assert(pb.drop_first() =~= b@.skip(i + 1));
        }
        let ca = a.get_char(i);
        let cb = b.get_char(i);
        if ca != cb {
            return (ca as u32) < (cb as u32);
        }
        i = i + 1;
    }
    proof {
        if i == la {
            assert(a@.skip(i as int) =~= Seq::<char>::empty());
        } else {
            assert(b@.skip(i as int) =~= Seq::<char>::empty());
        }
    }
    la < lb
}

/// The list with `x` put before its first member that does not come
/// earlier in byte order.
pub open spec fn sorted_insert(l: Seq<Seq<char>>, x: Seq<char>) -> Seq<Seq<char>>
    decreases l.len(),
{
    if l.len() == 0 {
        seq![x]
    } else if lex_lt(l[0], x) {
        seq![l[0]] + sorted_insert(l.drop_first(), x)
    } else {
        seq![x] + l
    }
}

proof fn lemma_sorted_insert_at(l: Seq<Seq<char>>, x: Seq<char>, i: int)
    requires
        0 <= i <= l.len(),
        forall|j: int| 0 <= j < i ==> lex_lt(#[trigger] l[j], x),
        i < l.len() ==> !lex_lt(l[i], x),
    ensures
        sorted_insert(l, x) == l.subrange(0, i) + seq![x] + l.subrange(i, l.len() as int),
    decreases i,
{
    if l.len() == 0 {
        assert(sorted_insert(l, x) =~= l.subrange(0, i) + seq![x] + l.subrange(
            i,
            l.len() as int,
        ));
    } else if i == 0 {
        assert(sorted_insert(l, x) =~= l.subrange(0, 0) + seq![x] + l.subrange(
            0,
            l.len() as int,
        ));
    } else {
        assert forall|j: int| 0 <= j < i - 1 implies lex_lt(#[trigger] l.drop_first()[j], x) by {
            assert(l.drop_first()[j] == l[j + 1]);
        }
        if i - 1 < l.drop_first().len() {
            assert(l.drop_first()[i - 1] == l[i]);
        }
        lemma_sorted_insert_at(l.drop_first(), x, i - 1);
        assert(seq![l[0]] + (l.drop_first().subrange(0, i - 1) + seq![x]
            + l.drop_first().subrange(i - 1, l.drop_first().len() as int)) =~= l.subrange(0, i)
            + seq![x] + l.subrange(i, l.len() as int));
    }
}

/// Inserts at the position byte order gives.
fn insert_sorted(v: &mut Vec<String>, s: String)
    ensures
        crate::strutil::views_of(final(v)@) == sorted_insert(
            crate::strutil::views_of(old(v)@),
            s@,
        ),
{
    let ghost l = crate::strutil::views_of(v@);
    let mut i: usize = 0;
    while i < v.len() && string_lt(v[i].as_str(), s.as_str())
        invariant
            i <= v@.len(),
            v@ == old(v)@,
            l == crate::strutil::views_of(v@),
            forall|j: int| 0 <= j < i ==> lex_lt(#[trigger] l[j], s@),
        decreases v@.len() - i,
    {
        i = i + 1;
    }
    proof {
        lemma_sorted_insert_at(l, s@, i as int);
    }
    v.insert(i, s);
    proof {
        assert(crate::strutil::views_of(v@) =~= l.subrange(0, i as int) + seq![s@] + l.subrange(
            i as int,
            l.len() as int,
        ));
    }
}

/// The case-insensitively sorted, lowercased names of the non-simple
/// headers, scanned front to back.
pub open spec fn acrh_names(m: Seq<(Seq<char>, Seq<char>)>, k: int) -> Seq<Seq<char>>
    decreases k,
{
    if k <= 0 {
        Seq::empty()
    } else if simple_header(m[k - 1].0, m[k - 1].1) {
        acrh_names(m, k - 1)
    } else {
        sorted_insert(acrh_names(m, k - 1), lower_seq(m[k - 1].0))
    }
}

/// Tokens joined by single commas.
pub open spec fn comma_join(l: Seq<Seq<char>>) -> Seq<char>
    decreases l.len(),
{
    if l.len() == 0 {
        Seq::empty()
    } else if l.len() == 1 {
        l[0]
    } else {
        comma_join(l.drop_last()) + seq![','] + l.last()
    }
}

/// The Access-Control-Request-Headers value a request's headers call for.
pub open spec fn acrh_value(m: Seq<(Seq<char>, Seq<char>)>) -> Seq<char> {
    comma_join(acrh_names(m, m.len() as int))
}


proof fn lemma_method_loop_step(
    c0: Seq<crate::cors_cache::CORSCacheEntry>,
    c1: Seq<crate::cors_cache::CORSCacheEntry>,
    details: CacheRequestDetails,
    methods: Seq<String>,
    mi: int,
    exp: u64,
)
    requires
        0 <= mi < methods.len(),
        forall|t: Seq<char>, n2: u64|
            (crate::strutil::strs_have(methods.subrange(0, mi), t) && n2 < exp)
                ==> cache_has_method(c0, details, t, n2),
        forall|n2: u64| n2 < exp ==> cache_has_method(c1, details, methods[mi]@, n2),
        forall|d2: CacheRequestDetails, t2: Seq<char>, n2: u64|
            (cache_has_method(c0, d2, t2, n2) && !(crate::cors_cache::details_match(d2, details)
                && t2 == methods[mi]@)) ==> cache_has_method(c1, d2, t2, n2),
    ensures
        forall|t: Seq<char>, n2: u64|
            (crate::strutil::strs_have(methods.subrange(0, mi + 1), t) && n2 < exp)
                ==> cache_has_method(c1, details, t, n2),
{
    assert forall|t: Seq<char>, n2: u64|
        (crate::strutil::strs_have(methods.subrange(0, mi + 1), t) && n2 < exp) implies
        cache_has_method(c1, details, t, n2) by {
        if t == methods[mi]@ {
        } else {
            let q = choose|q: int|
                0 <= q < mi + 1 && (#[trigger] methods.subrange(0, mi + 1)[q])@ == t;
            assert(methods.subrange(0, mi)[q]@ == t);
            assert(crate::strutil::strs_have(methods.subrange(0, mi), t));
            assert(cache_has_method(c0, details, t, n2));
        }
    }
}

proof fn lemma_header_loop_step(
    c0: Seq<crate::cors_cache::CORSCacheEntry>,
    c1: Seq<crate::cors_cache::CORSCacheEntry>,
    details: CacheRequestDetails,
    header_names: Seq<String>,
    hi: int,
    exp: u64,
)
    requires
        0 <= hi < header_names.len(),
        forall|t: Seq<char>, n2: u64|
            (crate::strutil::strs_have_ci(header_names.subrange(0, hi), t) && n2 < exp)
                ==> cache_has_header(c0, details, t, n2),
        forall|n2: u64| n2 < exp ==> cache_has_header(c1, details, header_names[hi]@, n2),
        forall|d2: CacheRequestDetails, t2: Seq<char>, n2: u64|
            (cache_has_header(c0, d2, t2, n2) && !(crate::cors_cache::details_match(d2, details)
                && lower_seq(t2) == lower_seq(header_names[hi]@))) ==> cache_has_header(
                c1,
                d2,
                t2,
                n2,
            ),
    ensures
        forall|t: Seq<char>, n2: u64|
            (crate::strutil::strs_have_ci(header_names.subrange(0, hi + 1), t) && n2 < exp)
                ==> cache_has_header(c1, details, t, n2),
{
    assert forall|t: Seq<char>, n2: u64|
        (crate::strutil::strs_have_ci(header_names.subrange(0, hi + 1), t) && n2 < exp) implies
        cache_has_header(c1, details, t, n2) by {
        if lower_seq(t) == lower_seq(header_names[hi]@) {
            lemma_ci_header_transfer(c1, details, header_names[hi]@, t, n2);
        } else {
            let q = choose|q: int|
                0 <= q < hi + 1 && lower_seq((#[trigger] header_names.subrange(0, hi + 1)[q])@)
                    == lower_seq(t);
            assert(q < hi);
            assert(lower_seq(header_names.subrange(0, hi)[q]@) == lower_seq(t));
            assert(crate::strutil::strs_have_ci(header_names.subrange(0, hi), t));
            assert(cache_has_header(c0, details, t, n2));
        }
    }
}

/// A header approval answers for every name with the same lowercase form.
proof fn lemma_ci_header_transfer(
    c: Seq<crate::cors_cache::CORSCacheEntry>,
    details: CacheRequestDetails,
    a: Seq<char>,
    b: Seq<char>,
    n2: u64,
)
    requires
        lower_seq(a) == lower_seq(b),
        cache_has_header(c, details, a, n2),
    ensures
        cache_has_header(c, details, b, n2),
{
    let j = choose|j: int|
        0 <= j < c.len() && crate::cors_cache::entry_key_header(c[j], details, a) && n2
            < c[j].expiry;
    assert(crate::cors_cache::entry_key_header(c[j], details, b));
}

proof fn lemma_preflight_population(
    c: Seq<crate::cors_cache::CORSCacheEntry>,
    details: CacheRequestDetails,
    req: Request,
    methods: Seq<String>,
    header_names: Seq<String>,
    exp: u64,
)
    requires
        crate::cors_cache::details_match(details, preflight_details(req)),
        !simple_method(req.method) ==> crate::strutil::strs_have(methods, method_tok(req.method)),
        forall|t: Seq<char>, n2: u64|
            (crate::strutil::strs_have(methods, t) && n2 < exp) ==> cache_has_method(
                c,
                details,
                t,
                n2,
            ),
        forall|t: Seq<char>, n2: u64|
            (crate::strutil::strs_have_ci(header_names, t) && n2 < exp) ==> cache_has_header(
                c,
                details,
                t,
                n2,
            ),
        forall|q: int|
            0 <= q < req.headers.model().len() ==> (simple_header(
                (#[trigger] req.headers.model()[q]).0,
                req.headers.model()[q].1,
            ) || crate::strutil::strs_have_ci(header_names, req.headers.model()[q].0)),
    ensures
        forall|n2: u64|
            (n2 < exp && !simple_method(req.method)) ==> cache_has_method(
                c,
                preflight_details(req),
                method_tok(req.method),
                n2,
            ),
        forall|q: int, n2: u64|
            (0 <= q < req.headers.model().len() && n2 < exp && !simple_header(
                req.headers.model()[q].0,
                req.headers.model()[q].1,
            )) ==> #[trigger] cache_has_header(
                c,
                preflight_details(req),
                req.headers.model()[q].0,
                n2,
            ),
{
    assert forall|n2: u64| (n2 < exp && !simple_method(req.method)) implies cache_has_method(
        c,
        preflight_details(req),
        method_tok(req.method),
        n2,
    ) by {
        assert(cache_has_method(c, details, method_tok(req.method), n2));
        crate::cors_cache::lemma_cache_has_equiv(
            c,
            details,
            preflight_details(req),
            method_tok(req.method),
            n2,
        );
    }
    assert forall|q: int, n2: u64|
        (0 <= q < req.headers.model().len() && n2 < exp && !simple_header(
            req.headers.model()[q].0,
            req.headers.model()[q].1,
        )) implies #[trigger] cache_has_header(
        c,
        preflight_details(req),
        req.headers.model()[q].0,
        n2,
    ) by {
        assert(crate::strutil::strs_have_ci(header_names, req.headers.model()[q].0));
        assert(cache_has_header(c, details, req.headers.model()[q].0, n2));
        crate::cors_cache::lemma_cache_has_equiv(
            c,
            details,
            preflight_details(req),
            req.headers.model()[q].0,
            n2,
        );
    }
}

/// [CORS preflight fetch](https://fetch.spec.whatwg.org/#cors-preflight-fetch):
/// sends the OPTIONS probe, and on a passing answer
/// records the approved methods and header names in the cache — all of
/// them, and only after the whole answer has been checked.
#[verifier::loop_isolation(false)]
#[verifier::rlimit(100)]
pub fn cors_preflight_fetch(request: &Request, cache: &mut CORSCache, wire: &mut Wire, now: u64) -> (r: Response)
    requires
        request_ok(*request),
    ensures
        final(wire).replies@ == old(wire).replies@,
        final(wire).file_replies@ == old(wire).file_replies@,
        final(wire).file_sent@ == old(wire).file_sent@,
        final(wire).sent@.len() == old(wire).sent@.len() + 1,
        old(wire).sent@.is_prefix_of(final(wire).sent@),
        final(wire).remaining() <= old(wire).remaining(),
        (old(wire).sent@.len() < old(wire).replies@.len() && old(wire).replies@[old(
            wire,
        ).sent@.len() as int] is Success) ==> final(wire).remaining() < old(wire).remaining(),
        method_tok(final(wire).sent@.last().method) == "OPTIONS"@,
        hm_value(final(wire).sent@.last().headers.model(), "access-control-request-method"@)
            == Some(method_tok(request.method)),
        hm_value(final(wire).sent@.last().headers.model(), "access-control-request-headers"@)
            == Some(acrh_value(request.headers.model())),
        r.response_type is Default || r.response_type is Error,
        r.is_network_error() ==> final(cache).entries@ == old(cache).entries@,
        // A granting answer is handed back whole; anything else is refused.
        preflight_grants(*request, *old(wire)) ==> (!r.is_network_error() && r.status == Some(
            next_status(*old(wire)),
        ) && r.headers.model() == next_reply_headers(*old(wire)) && r.response_type is Default
            && r.internal_response is None),
        !preflight_grants(*request, *old(wire)) ==> r.is_network_error(),
        // Every listed method and header name is recorded until expiry.
        !r.is_network_error() ==> (forall|t: Seq<char>, n2: u64|
            (crate::strutil::toks_have(
                allowed_methods_of(*request, next_reply_headers(*old(wire))),
                t,
            ) && n2 < sat_add64(now, preflight_max_age(next_reply_headers(*old(wire))) as u64))
                ==> #[trigger] cache_has_method(
                final(cache).entries@,
                preflight_details(*request),
                t,
                n2,
            )),
        !r.is_network_error() ==> (forall|t: Seq<char>, n2: u64|
            (crate::strutil::toks_have(allowed_headers_of(next_reply_headers(*old(wire))), t)
                && n2 < sat_add64(
                now,
                preflight_max_age(next_reply_headers(*old(wire))) as u64,
            )) ==> #[trigger] cache_has_header(
                final(cache).entries@,
                preflight_details(*request),
                t,
                n2,
            )),
        // No approval outlives the granted max-age: what was expired
        // before stays expired at and after the new expiry.
        !r.is_network_error() ==> (forall|t: Seq<char>, n2: u64|
            (n2 >= sat_add64(now, preflight_max_age(next_reply_headers(*old(wire))) as u64)
                && !cache_has_method(old(cache).entries@, preflight_details(*request), t, n2))
                ==> !#[trigger] cache_has_method(
                final(cache).entries@,
                preflight_details(*request),
                t,
                n2,
            )),
        !r.is_network_error() ==> (forall|t: Seq<char>, n2: u64|
            (n2 >= sat_add64(now, preflight_max_age(next_reply_headers(*old(wire))) as u64)
                && !cache_has_header(old(cache).entries@, preflight_details(*request), t, n2))
                ==> !#[trigger] cache_has_header(
                final(cache).entries@,
                preflight_details(*request),
                t,
                n2,
            )),
        !r.is_network_error() ==> (forall|n2: u64|
            (n2 < sat_add64(now, preflight_max_age(next_reply_headers(*old(wire))) as u64)
                && !simple_method(request.method)) ==> cache_has_method(
                final(cache).entries@,
                preflight_details(*request),
                method_tok(request.method),
                n2,
            )),
        !r.is_network_error() ==> (forall|q: int, n2: u64|
            (0 <= q < request.headers.model().len() && n2 < sat_add64(
                now,
                preflight_max_age(next_reply_headers(*old(wire))) as u64,
            ) && !simple_header(
                request.headers.model()[q].0,
                request.headers.model()[q].1,
            )) ==> #[trigger] cache_has_header(
                final(cache).entries@,
                preflight_details(*request),
                request.headers.model()[q].0,
                n2,
            )),
{
    // Step 1: a fresh request on the same URL, origin, and referrer.
    let mut preflight = Request::new(
        request.current_url().clone(),
        Some(request.origin.clone()),
        false,
    );
    preflight.method = Method::Options;
    preflight.initiator = request.initiator;
    preflight.type_ = request.type_;
    preflight.destination = request.destination;
    preflight.referer = request.referer.clone();
    // Step 2
    preflight.headers.set("access-control-request-method", request.method.as_token());
    proof {
        crate::headers::lemma_hm_value_set(
            Seq::empty(),
            "access-control-request-method"@,
            method_tok(request.method),
            "access-control-request-method"@,
        );
    }
    // Steps 3 to 5: the case-insensitively sorted, lowercased names of the
    // non-simple headers.
    let mut names: Vec<String> = Vec::new();
    let hcount = request.headers.len();
    proof {
        assert(crate::strutil::views_of(names@) =~= Seq::<Seq<char>>::empty());
    }
    let mut i: usize = 0;
    while i < hcount
        invariant
            hcount == request.headers.model().len(),
            i <= hcount,
            crate::strutil::views_of(names@) == acrh_names(request.headers.model(), i as int),
        decreases hcount - i,
    {
        let name = request.headers.name_at(i);
        let value = request.headers.value_at(i);
        if !is_simple_header(name.as_str(), value.as_str()) {
            let low = crate::strutil::to_lower(name.as_str());
            insert_sorted(&mut names, low);
        }
        i = i + 1;
    }
    let mut acrh = String::new();
    let ghost sorted = crate::strutil::views_of(names@);
    proof {
        assert(sorted.subrange(0, 0) =~= Seq::<Seq<char>>::empty());
    }
    let mut k: usize = 0;
    while k < names.len()
        invariant
            k <= names@.len(),
            sorted == crate::strutil::views_of(names@),
            acrh@ == comma_join(sorted.subrange(0, k as int)),
        decreases names@.len() - k,
    {
        if k > 0 {
            crate::strutil::push_char(&mut acrh, ',');
        }
        acrh.append(names[k].as_str());
        proof {
            let part = sorted.subrange(0, k + 1);
            assert(part.last() == sorted[k as int]);
            if k == 0 {
                assert(acrh@ =~= part[0]);
            } else {
                assert(part.drop_last() =~= sorted.subrange(0, k as int));
                assert(acrh@ =~= comma_join(part.drop_last()) + seq![','] + part.last());
            }
        }
        k = k + 1;
    }
    proof {
        assert(sorted.subrange(0, sorted.len() as int) =~= sorted);
        assert(acrh@ == acrh_value(request.headers.model()));
    }
    // Step 5
    let ghost pre_set = preflight.headers.model();
    preflight.headers.set("access-control-request-headers", acrh.as_str());
    proof {
        crate::headers::lemma_hm_value_set(
            pre_set,
            "access-control-request-headers"@,
            acrh@,
            "access-control-request-method"@,
        );
        crate::headers::lemma_hm_value_set(
            pre_set,
            "access-control-request-headers"@,
            acrh@,
            "access-control-request-headers"@,
        );
        reveal_strlit("access-control-request-method");
        reveal_strlit("access-control-request-headers");
        assert(hkey("access-control-request-method"@).len() == 29);
        assert(hkey("access-control-request-headers"@).len() == 30);
    }
    // Step 6
    let response = http_network_or_cache_fetch(&mut preflight, wire, false, false);
    // Step 7: a failed exchange has no status and cannot pass.
    let status_ok = match response.status {
        Some(s) => 200 <= s && s < 300,
        None => false,
    };
    let check = cors_check(request, &response);
    if check.is_ok() && status_ok {
        // Substeps 1 to 3: parse the allowed methods and header names.
        let methods_raw = match response.headers.get_cloned("access-control-allow-methods") {
            Some(v) => crate::strutil::split_tokens(v.as_str()),
            None => Vec::new(),
        };
        let header_names = match response.headers.get_cloned("access-control-allow-headers") {
            Some(v) => crate::strutil::split_tokens(v.as_str()),
            None => Vec::new(),
        };
        // Substep 4
        let methods = if methods_raw.len() == 0 && request.use_cors_preflight {
            let mut m: Vec<String> = Vec::new();
            m.push(request.method.as_token().to_owned());
            m
        } else {
            methods_raw
        };
        proof {
            assert(crate::strutil::views_of(methods@) =~= allowed_methods_of(
                *request,
                next_reply_headers(*old(wire)),
            ));
            assert(crate::strutil::views_of(header_names@) =~= allowed_headers_of(
                next_reply_headers(*old(wire)),
            ));
            crate::strutil::lemma_strs_toks(methods@, method_tok(request.method));
        }
        // Substep 5
        if !crate::strutil::vec_has_str(&methods, request.method.as_token()) && !is_simple_method(
            &request.method,
        ) {
            proof {
                assert(!preflight_grants(*request, *old(wire)));
            }
            return Response::network_error();
        }
        // Substep 6
        let mut j: usize = 0;
        while j < hcount
            invariant
                hcount == request.headers.model().len(),
                j <= hcount,
                forall|q: int|
                    0 <= q < j ==> (simple_header(
                        (#[trigger] request.headers.model()[q]).0,
                        request.headers.model()[q].1,
                    ) || crate::strutil::strs_have_ci(
                        header_names@,
                        request.headers.model()[q].0,
                    )),
            decreases hcount - j,
        {
            let name = request.headers.name_at(j);
            let value = request.headers.value_at(j);
            if !crate::strutil::vec_has_str_ci(&header_names, name.as_str()) && !is_simple_header(
                name.as_str(),
                value.as_str(),
            ) {
                proof {
                    crate::strutil::lemma_strs_toks(header_names@, request.headers.model()[j as int].0);
                    assert(!preflight_grants(*request, *old(wire)));
                }
                return Response::network_error();
            }
            j = j + 1;
        }
        proof {
            assert forall|q: int|
                0 <= q < request.headers.model().len() implies (simple_header(
                (#[trigger] request.headers.model()[q]).0,
                request.headers.model()[q].1,
            ) || crate::strutil::toks_have_ci(
                allowed_headers_of(next_reply_headers(*old(wire))),
                request.headers.model()[q].0,
            )) by {
                crate::strutil::lemma_strs_toks(header_names@, request.headers.model()[q].0);
            }
            assert(preflight_grants(*request, *old(wire)));
        }
        // Substeps 7 and 8
        let max_age: u32 = match response.headers.get("access-control-max-age") {
            Some(v) => match crate::strutil::parse_dec_u32(v.as_str()) {
                Some(n) => n,
                None => 0,
            },
            None => 0,
        };
        proof {
            assert(max_age == preflight_max_age(next_reply_headers(*old(wire))));
        }
        let ghost exp = sat_add64(now, max_age as u64);
        let ghost c_start = cache.entries@;
        // Substeps 11 to 14: record every approval, now that all checks
        // have passed.
        let details = CacheRequestDetails {
            origin: request.origin.clone(),
            destination: request.current_url().clone(),
            credentials: matches!(request.credentials_mode, CredentialsMode::Include),
        };
        proof {
            assert(crate::cors_cache::details_match(details, preflight_details(*request)));
        }
        let mut mi: usize = 0;
        while mi < methods.len()
            invariant
                exp == sat_add64(now, max_age as u64),
                mi <= methods@.len(),
                crate::cors_cache::details_match(details, preflight_details(*request)),
                forall|t: Seq<char>, n2: u64|
                    (crate::strutil::strs_have(methods@.subrange(0, mi as int), t) && n2 < exp)
                        ==> cache_has_method(cache.entries@, details, t, n2),
                forall|t: Seq<char>, n2: u64|
                    (n2 >= exp && !cache_has_method(c_start, details, t, n2))
                        ==> !#[trigger] cache_has_method(cache.entries@, details, t, n2),
                forall|t: Seq<char>, n2: u64|
                    (n2 >= exp && !cache_has_header(c_start, details, t, n2))
                        ==> !#[trigger] cache_has_header(cache.entries@, details, t, n2),
            decreases methods@.len() - mi,
        {
            let ghost c0 = cache.entries@;
            let m = method_from_token(methods[mi].as_str());
            cache.match_method_and_update(&details, &m, max_age, now);
            proof {
                lemma_method_loop_step(c0, cache.entries@, details, methods@, mi as int, exp);
                assert forall|t: Seq<char>, n2: u64|
                    (n2 >= exp && !cache_has_method(c_start, details, t, n2)) implies !#[trigger]
                cache_has_method(cache.entries@, details, t, n2) by {
                    assert(!cache_has_method(c0, details, t, n2));
                    if t == method_tok(m) {
                    } else {
                        assert(!(crate::cors_cache::details_match(details, details) && t
                            == method_tok(m)));
                    }
                }
            }
            mi = mi + 1;
        }
        proof {
            assert(methods@.subrange(0, methods@.len() as int) =~= methods@);
        }
        let mut hi: usize = 0;
        while hi < header_names.len()
            invariant
                exp == sat_add64(now, max_age as u64),
                hi <= header_names@.len(),
                crate::cors_cache::details_match(details, preflight_details(*request)),
                forall|t: Seq<char>, n2: u64|
                    (crate::strutil::strs_have(methods@, t) && n2 < exp) ==> cache_has_method(
                        cache.entries@,
                        details,
                        t,
                        n2,
                    ),
                forall|t: Seq<char>, n2: u64|
                    (crate::strutil::strs_have_ci(header_names@.subrange(0, hi as int), t) && n2
                        < exp) ==> cache_has_header(cache.entries@, details, t, n2),
                forall|t: Seq<char>, n2: u64|
                    (n2 >= exp && !cache_has_method(c_start, details, t, n2))
                        ==> !#[trigger] cache_has_method(cache.entries@, details, t, n2),
                forall|t: Seq<char>, n2: u64|
                    (n2 >= exp && !cache_has_header(c_start, details, t, n2))
                        ==> !#[trigger] cache_has_header(cache.entries@, details, t, n2),
            decreases header_names@.len() - hi,
        {
            let ghost c0 = cache.entries@;
            cache.match_header_and_update(&details, header_names[hi].as_str(), max_age, now);
            proof {
                lemma_header_loop_step(c0, cache.entries@, details, header_names@, hi as int, exp);
                assert forall|t: Seq<char>, n2: u64|
                    (n2 >= exp && !cache_has_header(c_start, details, t, n2)) implies !#[trigger]
                cache_has_header(cache.entries@, details, t, n2) by {
                    assert(!cache_has_header(c0, details, t, n2));
                    let ghost nm = header_names@[hi as int]@;
                    if lower_seq(t) == lower_seq(nm) {
                        crate::strutil::lemma_lower_idempotent(nm);
                        if cache_has_header(c0, details, lower_seq(nm), n2) {
                            lemma_ci_header_transfer(c0, details, lower_seq(nm), t, n2);
                        }
                        assert(!cache_has_header(c0, details, lower_seq(nm), n2));
                        if cache_has_header(cache.entries@, details, t, n2) {
                            lemma_ci_header_transfer(cache.entries@, details, t, lower_seq(nm), n2);
                        }
                    } else {
                        assert(!(crate::cors_cache::details_match(details, details) && lower_seq(
                            t,
                        ) == lower_seq(nm)));
                    }
                }
            }
            hi = hi + 1;
        }
        // Substep 15
        proof {
            assert(header_names@.subrange(0, header_names@.len() as int) =~= header_names@);
            assert(methods@.subrange(0, methods@.len() as int) =~= methods@);
            lemma_preflight_population(
                cache.entries@,
                details,
                *request,
                methods@,
                header_names@,
                exp,
            );
            assert forall|t: Seq<char>, n2: u64|
                (crate::strutil::toks_have(
                    allowed_methods_of(*request, next_reply_headers(*old(wire))),
                    t,
                ) && n2 < exp) implies #[trigger] cache_has_method(
                cache.entries@,
                preflight_details(*request),
                t,
                n2,
            ) by {
                crate::strutil::lemma_strs_toks(methods@, t);
                assert(cache_has_method(cache.entries@, details, t, n2));
                crate::cors_cache::lemma_cache_has_equiv(
                    cache.entries@,
                    details,
                    preflight_details(*request),
                    t,
                    n2,
                );
            }
            assert forall|t: Seq<char>, n2: u64|
                (crate::strutil::toks_have(allowed_headers_of(next_reply_headers(*old(wire))), t)
                    && n2 < exp) implies #[trigger] cache_has_header(
                cache.entries@,
                preflight_details(*request),
                t,
                n2,
            ) by {
                crate::strutil::lemma_strs_toks(header_names@, t);
                let i = choose|i: int| 0 <= i < header_names@.len() && header_names@[i]@ == t;
                assert(lower_seq(header_names@[i]@) == lower_seq(t));
                assert(crate::strutil::strs_have_ci(header_names@, t));
                assert(cache_has_header(cache.entries@, details, t, n2));
                crate::cors_cache::lemma_cache_has_equiv(
                    cache.entries@,
                    details,
                    preflight_details(*request),
                    t,
                    n2,
                );
            }
        }
        proof {
            assert forall|t: Seq<char>, n2: u64|
                (n2 >= exp && !cache_has_method(
                    old(cache).entries@,
                    preflight_details(*request),
                    t,
                    n2,
                )) implies !#[trigger] cache_has_method(
                cache.entries@,
                preflight_details(*request),
                t,
                n2,
            ) by {
                crate::cors_cache::lemma_cache_has_equiv(
                    c_start,
                    details,
                    preflight_details(*request),
                    t,
                    n2,
                );
                crate::cors_cache::lemma_cache_has_equiv(
                    cache.entries@,
                    details,
                    preflight_details(*request),
                    t,
                    n2,
                );
            }
            assert forall|t: Seq<char>, n2: u64|
                (n2 >= exp && !cache_has_header(
                    old(cache).entries@,
                    preflight_details(*request),
                    t,
                    n2,
                )) implies !#[trigger] cache_has_header(
                cache.entries@,
                preflight_details(*request),
                t,
                n2,
            ) by {
                crate::cors_cache::lemma_cache_has_equiv(
                    c_start,
                    details,
                    preflight_details(*request),
                    t,
                    n2,
                );
                crate::cors_cache::lemma_cache_has_equiv(
                    cache.entries@,
                    details,
                    preflight_details(*request),
                    t,
                    n2,
                );
            }
        }
        return response;
    }
    // Step 8
    Response::network_error()
}

/// The status of the scripted reply the next submission would consume; a
/// failure or a dry script reads as the bodiless 200 the network layer
/// builds then.
pub open spec fn next_status(w0: Wire) -> u16 {
    if w0.sent@.len() < w0.replies@.len() {
        match w0.replies@[w0.sent@.len() as int] {
            WireReply::Success(w) => w.status,
            WireReply::Failure => 0u16,
        }
    } else {
        0u16
    }
}

/// The headers of the scripted reply at a given position; empty for a
/// failure or past the script.
pub open spec fn reply_headers_at(w0: Wire, i: int) -> Seq<(Seq<char>, Seq<char>)> {
    if 0 <= i < w0.replies@.len() {
        match w0.replies@[i] {
            WireReply::Success(w) => w.headers.model(),
            WireReply::Failure => Seq::empty(),
        }
    } else {
        Seq::empty()
    }
}

pub open spec fn next_is_success(w0: Wire) -> bool {
    w0.sent@.len() < w0.replies@.len() && w0.replies@[w0.sent@.len() as int] is Success
}

/// The schemes a local-URLs-only request may use.
pub open spec fn local_scheme(s: Seq<char>) -> bool {
    s == "about"@ || s == "blob"@ || s == "data"@ || s == "filesystem"@
}

/// Whether the request's origin is the current URL's origin.
pub open spec fn request_same_origin(req: Request) -> bool {
    match req.origin {
        Origin::Origin(o) => same_origin(o.model(), url_origin(req.url_list@.last().model())),
        Origin::Client => false,
    }
}

/// The conditions under which main fetch hands the request to basic fetch
/// with its tainting left alone.
pub open spec fn basic_fetch_branch(req: Request, cors_flag: bool) -> bool {
    (request_same_origin(req) && !cors_flag) || (req.url_list@.last().model().scheme == "data"@
        && req.same_origin_data) || (req.url_list@.last().model().scheme == "file"@
        && req.same_origin_data) || req.url_list@.last().model().scheme == "about"@ || req.mode
        is Navigate
}

/// The conditions under which main fetch takes the no-CORS branch and sets
/// the tainting opaque.
pub open spec fn nocors_dispatch(req: Request, cors_flag: bool) -> bool {
    req.mode is NoCORS && !(req.local_urls_only && !local_scheme(
        req.url_list@.last().model().scheme,
    )) && !basic_fetch_branch(req, cors_flag)
}

/// Whether the CORS cache lets a preflighted request skip the probe: the
/// method and every header are either simple or remembered approvals.
pub open spec fn preflight_not_needed(req: Request, c: Seq<crate::cors_cache::CORSCacheEntry>, now: u64) -> bool {
    (cache_has_method(c, preflight_details(req), method_tok(req.method), now) || (simple_method(
        req.method,
    ) && !req.use_cors_preflight)) && (forall|j: int|
        0 <= j < req.headers.model().len() ==> (cache_has_header(
            c,
            preflight_details(req),
            (#[trigger] req.headers.model()[j]).0,
            now,
        ) || simple_header(req.headers.model()[j].0, req.headers.model()[j].1)))
}

/// Where a redirect response points: its Location, resolved against the
/// response's own URL.
pub open spec fn redirect_target(resp: Response) -> Option<UrlModel> {
    match hm_value(resp.actual().headers.model(), "location"@) {
        None => None,
        Some(loc) => match resp.actual().url {
            Some(b) => crate::urls::url_join_of(url_ser(b.model()), loc),
            None => None,
        },
    }
}

/// [HTTP redirect fetch](https://fetch.spec.whatwg.org/#http-redirect-fetch):
/// follows a redirect response, under the caps and
/// credential rules, and re-enters main fetch.
#[verifier::loop_isolation(false)]
#[verifier::rlimit(100)]
pub fn http_redirect_fetch(
    request: &mut Request,
    cache: &mut CORSCache,
    wire: &mut Wire,
    now: u64,
    response: Response,
    cors_flag: bool,
) -> (r: Response)
    requires
        request_ok(*old(request)),
        response.return_internal,
        (hm_value(response.actual().headers.model(), "location"@) is Some)
            ==> response.actual().url is Some,
        response.actual().status is Some,
        response.response_type is Default,
    ensures
        request_ok(*final(request)),
        wire_extended(*old(wire), *final(wire)),
        final(request).mode == old(request).mode,
        !(old(request).redirect_mode is Manual) ==> !(final(request).redirect_mode is Manual),
        (old(request).mode is NoCORS && old(request).response_tainting is Opaque) ==> final(request).response_tainting is Opaque,
        final(request).response_tainting is Basic ==> old(request).response_tainting is Basic,
        !old(request).same_origin_data ==> !final(request).same_origin_data,
        (old(request).origin matches Origin::Origin(UrlOrigin::Opaque)) ==> (final(request).origin matches Origin::Origin(UrlOrigin::Opaque)),
        caller_headers_kept(
            old(request).headers.model(),
            final(request).headers.model(),
            *old(wire),
            *final(wire),
        ),
        (old(request).method is Get ==> final(request).method is Get),
        (old(request).body is None ==> final(request).body is None),
        final(request).redirect_count >= old(request).redirect_count,
        final(request).url_list@.len() >= old(request).url_list@.len(),
        forall|j: int|
            0 <= j < old(request).url_list@.len() ==> (#[trigger] final(request).url_list@[j]).model()
                == old(request).url_list@[j].model(),

        raw_result_ok(r, old(request).redirect_mode is Manual),
        // A missing Location surfaces the response as it is.
        (hm_value(response.actual().headers.model(), "location"@) is None) ==> r == response,
        // An unresolvable Location is a network error.
        (hm_value(response.actual().headers.model(), "location"@) is Some && redirect_target(
            response,
        ) is None) ==> r.is_network_error(),
        // The redirect cap: past twenty hops, an error before any network
        // work.
        old(request).redirect_count >= 20 ==> final(wire).sent@ == old(wire).sent@,
        (old(request).redirect_count >= 20 && redirect_target(response) is Some)
            ==> r.is_network_error(),
        // A followed hop is recorded and counted.
        (match redirect_target(response) {
            Some(u) => (old(request).redirect_count < 20 && !(old(request).mode is CORSMode
                && !request_same_origin(*old(request)) && url_has_credentials(u)) && !(cors_flag
                && url_has_credentials(u))) ==> (final(request).redirect_count >= old(
                request,
            ).redirect_count + 1 && final(request).url_list@.len() > old(request).url_list@.len()
                && final(request).url_list@[old(request).url_list@.len() as int].model() == u),
            None => true,
        }),
        // Credentialed cross-origin redirects are refused.
        (match redirect_target(response) {
            Some(u) => (old(request).redirect_count < 20 && ((old(request).mode is CORSMode
                && !request_same_origin(*old(request)) && url_has_credentials(u)) || (cors_flag
                && url_has_credentials(u)))) ==> r.is_network_error(),
            None => true,
        }),
        // Surfacing, an unresolvable Location, and the cap leave the
        // request untouched.
        (hm_value(response.actual().headers.model(), "location"@) is None) ==> *final(request)
            == *old(request),
        (hm_value(response.actual().headers.model(), "location"@) is Some && redirect_target(
            response,
        ) is None) ==> *final(request) == *old(request),
        (old(request).redirect_count >= 20 && redirect_target(response) is Some) ==> *final(request) == *old(request),
        // A refused credentialed hop counts the attempt but appends
        // nothing and touches no wire.
        (match redirect_target(response) {
            Some(u) => (old(request).redirect_count < 20 && ((old(request).mode is CORSMode
                && !request_same_origin(*old(request)) && url_has_credentials(u)) || (cors_flag
                && url_has_credentials(u)))) ==> (final(request).url_list@ == old(
                request,
            ).url_list@ && final(request).method == old(request).method && final(request).body
                == old(request).body && final(request).origin == old(request).origin && final(request).redirect_count == old(request).redirect_count + 1 && !final(request).same_origin_data && final(wire).sent@ == old(wire).sent@),
            None => true,
        }),
        // A followed hop clears the same-origin-data grant, and under
        // CORS a cross-origin hop moves the request to a fresh opaque
        // origin before re-entering main fetch.
        (match redirect_target(response) {
            Some(u) => (old(request).redirect_count < 20 && !(old(request).mode is CORSMode
                && !request_same_origin(*old(request)) && url_has_credentials(u)) && !(cors_flag
                && url_has_credentials(u))) ==> (!final(request).same_origin_data && ((cors_flag
                && !request_same_origin(*old(request))) ==> (final(request).origin matches Origin::Origin(UrlOrigin::Opaque)))),
            None => true,
        }),
        // The followed hop continues the fetch: a same-origin http(s)
        // target answered by a plain success surfaces that answer.
        (match redirect_target(response) {
            Some(u) => (old(request).redirect_count < 20 && !(old(request).mode is CORSMode
                && !request_same_origin(*old(request)) && url_has_credentials(u)) && !(cors_flag
                && url_has_credentials(u)) && !cors_flag && !old(request).local_urls_only && (
            u.scheme == "http"@ || u.scheme == "https"@) && (match old(request).origin {
                Origin::Origin(o) => same_origin(o.model(), url_origin(u)),
                Origin::Client => false,
            }) && next_is_success(*old(wire)) && !is_redirect_status(next_status(*old(wire)))
                && next_status(*old(wire)) != 401 && next_status(*old(wire)) != 407) ==> (
            !r.is_network_error() && r.actual().status == Some(next_status(*old(wire)))
                && final(wire).sent@.len() == old(wire).sent@.len() + 1),
            None => true,
        }),
        // A 301 or 302 seen by a POST, and any 303, strips method and body.
        (match redirect_target(response) {
            Some(u) => ((match response.actual().status {
                Some(s) => ((s == 301 || s == 302) && old(request).method is Post) || s == 303,
                None => false,
            }) && old(request).redirect_count < 20 && !(old(request).mode is CORSMode
                && !request_same_origin(*old(request)) && url_has_credentials(u)) && !(cors_flag
                && url_has_credentials(u))) ==> (final(request).method is Get && final(request).body is None),
            None => true,
        }),
    decreases wire.remaining(), 4nat,
{
    // Steps 1 to 4: find and resolve the Location.
    let location = {
        let actual = response.actual_response();
        match actual.headers.get_cloned("location") {
            Some(l) => l,
            None => {
                return response;
            },
        }
    };
    let base = {
        let actual = response.actual_response();
        match &actual.url {
            Some(u) => u.serialize(),
            None => {
                // the precondition rules this out when a Location is present
                return Response::network_error();
            },
        }
    };
    // Steps 5 and 6
    let location_url = match crate::urls::join_url(base.as_str(), location.as_str()) {
        Some(u) => u,
        None => {
            return Response::network_error();
        },
    };
    // Step 7
    if request.redirect_count >= 20 {
        return Response::network_error();
    }
    // Step 8
    request.redirect_count = request.redirect_count + 1;
    // Step 9
    request.same_origin_data = false;
    let same_origin_now = match &request.origin {
        Origin::Origin(o) => {
            let cur = request.current_url().origin();
            crate::urls::origin_eq(o, &cur)
        },
        Origin::Client => false,
    };
    let creds = has_credentials(&location_url);
    // Step 10
    if matches!(request.mode, RequestMode::CORSMode) && !same_origin_now && creds {
        return Response::network_error();
    }
    // Step 11
    if cors_flag && creds {
        return Response::network_error();
    }
    // Step 12
    if cors_flag && !same_origin_now {
        request.origin = Origin::Origin(UrlOrigin::Opaque);
    }
    // Step 13
    let status_code = {
        let actual = response.actual_response();
        actual.status.unwrap()
    };
    if ((status_code == 301 || status_code == 302) && matches!(request.method, Method::Post))
        || status_code == 303 {
        request.method = Method::Get;
        request.body = None;
    }
    // Step 14
    let ghost pre_list = request.url_list@;
    request.url_list.push(location_url);
    proof {
        assert(request.url_list@.len() == pre_list.len() + 1);
        assert(forall|j: int| 0 <= j < pre_list.len() ==> request.url_list@[j] == pre_list[j]);
    }
    let ghost pushed = request.url_list@;
    // Step 15
    let r2 = main_fetch(request, cache, wire, now, cors_flag, true);
    proof {
        assert forall|j: int| 0 <= j < old(request).url_list@.len() implies (#[trigger] request.url_list@[j]).model()
            == old(request).url_list@[j].model() by {
            assert(request.url_list@[j].model() == pushed[j].model());
        }
        assert(request.url_list@[old(request).url_list@.len() as int].model() == pushed[old(
            request,
        ).url_list@.len() as int].model());
    }
    r2
}

/// [HTTP fetch](https://fetch.spec.whatwg.org/#http-fetch): preflights when
/// the cache does not excuse it, runs the
/// network-or-cache layer, applies the CORS check, and dispatches on the
/// status: follow or wrap redirects, retry on 401 and 407.
#[verifier::loop_isolation(false)]
#[verifier::rlimit(100)]
pub fn http_fetch(
    request: &mut Request,
    cache: &mut CORSCache,
    wire: &mut Wire,
    now: u64,
    cors_flag: bool,
    cors_preflight_flag: bool,
    authentication_fetch_flag: bool,
) -> (r: Response)
    requires
        request_ok(*old(request)),
    ensures
        request_ok(*final(request)),
        wire_extended(*old(wire), *final(wire)),
        final(request).mode == old(request).mode,
        !(old(request).redirect_mode is Manual) ==> !(final(request).redirect_mode is Manual),
        (old(request).mode is NoCORS && old(request).response_tainting is Opaque) ==> final(request).response_tainting is Opaque,
        final(request).response_tainting is Basic ==> old(request).response_tainting is Basic,
        !old(request).same_origin_data ==> !final(request).same_origin_data,
        (old(request).origin matches Origin::Origin(UrlOrigin::Opaque)) ==> (final(request).origin matches Origin::Origin(UrlOrigin::Opaque)),
        caller_headers_kept(
            old(request).headers.model(),
            final(request).headers.model(),
            *old(wire),
            *final(wire),
        ),
        (old(request).method is Get ==> final(request).method is Get),
        (old(request).body is None ==> final(request).body is None),
        final(request).redirect_count >= old(request).redirect_count,
        final(request).url_list@.len() >= old(request).url_list@.len(),
        forall|j: int|
            0 <= j < old(request).url_list@.len() ==> (#[trigger] final(request).url_list@[j]).model()
                == old(request).url_list@[j].model(),

        raw_result_ok(r, old(request).redirect_mode is Manual),
        // Something always goes on the wire: the probe, or the request.
        final(wire).sent@.len() >= old(wire).sent@.len() + 1,
        // A Manual redirect mode wraps a redirect answer as OpaqueRedirect.
        (old(request).redirect_mode is Manual && !cors_preflight_flag && next_is_success(
            *old(wire),
        ) && is_redirect_status(next_status(*old(wire))) && (cors_flag ==> cors_check_spec(
            old(request).origin,
            old(request).credentials_mode,
            next_reply_headers(*old(wire)),
        ))) ==> (r.response_type is OpaqueRedirect && r.actual().status == Some(
            next_status(*old(wire)),
        ) && r.actual().headers.model() == next_reply_headers(*old(wire)) && final(wire).sent@.len() == old(wire).sent@.len() + 1),
        // A failed CORS check is a network error.
        (cors_flag && !cors_preflight_flag && !cors_check_spec(
            old(request).origin,
            old(request).credentials_mode,
            next_reply_headers(*old(wire)),
        )) ==> r.is_network_error(),
        // With a triggered preflight, the CORS check still guards the real
        // exchange, one submission later.
        (cors_flag && cors_preflight_flag && !preflight_not_needed(
            *old(request),
            old(cache).entries@,
            now,
        ) && !cors_check_spec(
            old(request).origin,
            old(request).credentials_mode,
            reply_headers_at(*old(wire), old(wire).sent@.len() as int + 1),
        )) ==> r.is_network_error(),
        // A remembered approval skips the preflight: one submission, and it
        // carries the request's own method.
        (cors_preflight_flag && preflight_not_needed(*old(request), old(cache).entries@, now)
            && !is_redirect_status(next_status(*old(wire))) && next_status(*old(wire)) != 401
            && next_status(*old(wire)) != 407) ==> (final(wire).sent@.len() == old(
            wire,
        ).sent@.len() + 1 && method_tok(final(wire).sent@[old(wire).sent@.len() as int].method)
            == method_tok(old(request).method)),
        // A plain success is surfaced as it came.
        (!cors_preflight_flag && next_is_success(*old(wire)) && !is_redirect_status(
            next_status(*old(wire)),
        ) && next_status(*old(wire)) != 401 && next_status(*old(wire)) != 407 && (cors_flag
            ==> cors_check_spec(
            old(request).origin,
            old(request).credentials_mode,
            next_reply_headers(*old(wire)),
        ))) ==> (!r.is_network_error() && r.internal_response is None && r.status == Some(
            next_status(*old(wire)),
        ) && r.headers.model() == next_reply_headers(*old(wire)) && final(wire).sent@.len() == old(
            wire,
        ).sent@.len() + 1),
        // A 401 outside the single credentialed retry comes back as it is.
        (!cors_preflight_flag && next_is_success(*old(wire)) && next_status(*old(wire)) == 401
            && (cors_flag || !(old(request).credentials_mode is Include)) && (cors_flag
            ==> cors_check_spec(
            old(request).origin,
            old(request).credentials_mode,
            next_reply_headers(*old(wire)),
        ))) ==> (!r.is_network_error() && r.actual().status == Some(401u16)),
        // Under the authentication flag, a credentialed URL's Basic
        // authorization goes on the wire.
        (!cors_preflight_flag && authentication_fetch_flag && old(
            request,
        ).credentials_mode is Include && !hm_has(old(request).headers.model(), "authorization"@)
            && url_has_credentials(old(request).url_list@.last().model())) ==> (final(wire).sent@.len() > old(wire).sent@.len() && hm_value(
            final(wire).sent@[old(wire).sent@.len() as int].headers.model(),
            "authorization"@,
        ) == Some(
            "Basic "@ + base64_encode_of(basic_userinfo(old(request).url_list@.last().model())),
        )),
        // A first-party 401 is retried once with the URL's credentials.
        (!cors_preflight_flag && !cors_flag && next_is_success(*old(wire)) && next_status(
            *old(wire),
        ) == 401 && old(request).credentials_mode is Include && old(
            request,
        ).redirect_mode is Follow && !hm_has(old(request).headers.model(), "authorization"@)
            && url_has_credentials(old(request).url_list@.last().model())) ==> (final(wire).sent@.len() >= old(wire).sent@.len() + 2 && hm_value(
            final(wire).sent@[old(wire).sent@.len() as int + 1].headers.model(),
            "authorization"@,
        ) == Some(
            "Basic "@ + base64_encode_of(basic_userinfo(old(request).url_list@.last().model())),
        )),
        // An Error redirect mode refuses any redirect answer.
        (!cors_preflight_flag && next_is_success(*old(wire)) && is_redirect_status(
            next_status(*old(wire)),
        ) && old(request).redirect_mode is Error && (cors_flag ==> cors_check_spec(
            old(request).origin,
            old(request).credentials_mode,
            next_reply_headers(*old(wire)),
        ))) ==> (r.is_network_error() && final(wire).sent@.len() == old(wire).sent@.len() + 1),
        // A 407 answer is retried with unchanged flags: a further
        // submission follows the consumed exchange.
        (!cors_preflight_flag && next_is_success(*old(wire)) && next_status(*old(wire)) == 407
            && (cors_flag ==> cors_check_spec(
            old(request).origin,
            old(request).credentials_mode,
            next_reply_headers(*old(wire)),
        ))) ==> final(wire).sent@.len() >= old(wire).sent@.len() + 2,
    decreases wire.remaining(), 1nat,
{
    // The service worker hook is not implemented; a worker response would
    // be validated and adopted here, in this order.
    // Step 4, substep 1: preflight unless the cache excuses it.
    if cors_preflight_flag {
        let credentials = matches!(request.credentials_mode, CredentialsMode::Include);
        let details = CacheRequestDetails {
            origin: request.origin.clone(),
            destination: request.current_url().clone(),
            credentials,
        };
        proof {
            assert(crate::cors_cache::details_match(details, preflight_details(*request)));
        }
        let method_cache_match = cache.match_method(&details, &request.method, now);
        let method_mismatch = !method_cache_match && (!is_simple_method(&request.method)
            || request.use_cors_preflight);
        let mut header_mismatch = false;
        let hcount = request.headers.len();
        let mut i: usize = 0;
        while i < hcount
            invariant
                hcount == request.headers.model().len(),
                i <= hcount,
                crate::cors_cache::details_match(details, preflight_details(*request)),
                header_mismatch == !(forall|j: int|
                    0 <= j < i ==> (cache_has_header(
                        cache.entries@,
                        details,
                        (#[trigger] request.headers.model()[j]).0,
                        now,
                    ) || simple_header(
                        request.headers.model()[j].0,
                        request.headers.model()[j].1,
                    ))),
            decreases hcount - i,
        {
            let name = request.headers.name_at(i);
            let value = request.headers.value_at(i);
            let cached = cache.match_header(&details, name.as_str(), now);
            let simple = is_simple_header(name.as_str(), value.as_str());
            if !cached && !simple {
                header_mismatch = true;
            }
            i = i + 1;
        }
        proof {
            assert forall|j: int|
                0 <= j < request.headers.model().len() implies (cache_has_header(
                cache.entries@,
                details,
                (#[trigger] request.headers.model()[j]).0,
                now,
            ) == cache_has_header(
                cache.entries@,
                preflight_details(*request),
                request.headers.model()[j].0,
                now,
            )) by {
                crate::cors_cache::lemma_cache_has_equiv(
                    cache.entries@,
                    details,
                    preflight_details(*request),
                    request.headers.model()[j].0,
                    now,
                );
            }
            crate::cors_cache::lemma_cache_has_equiv(
                cache.entries@,
                details,
                preflight_details(*request),
                method_tok(request.method),
                now,
            );
            assert((method_mismatch || header_mismatch) == !preflight_not_needed(
                *request,
                cache.entries@,
                now,
            ));
        }
        // Sub-substeps 1 and 2
        if method_mismatch || header_mismatch {
            let preflight_result = cors_preflight_fetch(request, cache, wire, now);
            if matches!(preflight_result.response_type, ResponseType::Error) {
                return Response::network_error();
            }
        }
    }
    // Substep 2
    request.skip_service_worker = true;
    // Substep 3
    let credentials_flag = match request.credentials_mode {
        CredentialsMode::Include => true,
        CredentialsMode::CredentialsSameOrigin => matches!(
            request.response_tainting,
            ResponseTainting::Basic,
        ),
        CredentialsMode::Omit => false,
    };
    // Substep 4
    let fetch_result = http_network_or_cache_fetch(
        request,
        wire,
        credentials_flag,
        authentication_fetch_flag,
    );
    // Substep 5
    if cors_flag {
        let check = cors_check(request, &fetch_result);
        if check.is_err() {
            return Response::network_error();
        }
    }
    let mut response = fetch_result;
    response.return_internal = false;
    // Step 5: dispatch on the status. An exchange that never got one — the
    // connection could not be made — is a network error.
    let status_code = match response.status {
        Some(s) => s,
        None => {
            return Response::network_error();
        },
    };
    if status_code == 301 || status_code == 302 || status_code == 303 || status_code == 307
        || status_code == 308 {
        match request.redirect_mode {
            RedirectMode::Error => {
                return Response::network_error();
            },
            RedirectMode::Manual => {
                let filtered = response.to_filtered(ResponseType::OpaqueRedirect);
                return filtered;
            },
            RedirectMode::Follow => {
                response.return_internal = true;
                let r2 = http_redirect_fetch(request, cache, wire, now, response, cors_flag);
                return r2;
            },
        }
    }
    if status_code == 401 {
        // Step 1: only first-party credentialed requests retry.
        if cors_flag || !matches!(request.credentials_mode, CredentialsMode::Include) {
            response.return_internal = true;
            return response;
        }
        // Steps 2 and 3: a prompt for credentials would happen here.
        // Step 4
        let r2 = http_fetch(request, cache, wire, now, cors_flag, cors_preflight_flag, true);
        return r2;
    }
    if status_code == 407 {
        // A proxy-authentication prompt would happen here.
        let r2 = http_fetch(
            request,
            cache,
            wire,
            now,
            cors_flag,
            cors_preflight_flag,
            authentication_fetch_flag,
        );
        return r2;
    }
    response.return_internal = true;
    // Step 7
    response
}

/// [Basic fetch](https://fetch.spec.whatwg.org/#basic-fetch): dispatch on
/// the current URL's scheme.
#[verifier::loop_isolation(false)]
#[verifier::rlimit(100)]
pub fn basic_fetch(request: &mut Request, cache: &mut CORSCache, wire: &mut Wire, now: u64) -> (r:
    Response)
    requires
        request_ok(*old(request)),
    ensures
        request_ok(*final(request)),
        wire_extended(*old(wire), *final(wire)),
        final(request).mode == old(request).mode,
        !(old(request).redirect_mode is Manual) ==> !(final(request).redirect_mode is Manual),
        (old(request).mode is NoCORS && old(request).response_tainting is Opaque) ==> final(request).response_tainting is Opaque,
        final(request).response_tainting is Basic ==> old(request).response_tainting is Basic,
        !old(request).same_origin_data ==> !final(request).same_origin_data,
        (old(request).origin matches Origin::Origin(UrlOrigin::Opaque)) ==> (final(request).origin matches Origin::Origin(UrlOrigin::Opaque)),
        caller_headers_kept(
            old(request).headers.model(),
            final(request).headers.model(),
            *old(wire),
            *final(wire),
        ),
        (old(request).method is Get ==> final(request).method is Get),
        (old(request).body is None ==> final(request).body is None),
        final(request).redirect_count >= old(request).redirect_count,
        final(request).url_list@.len() >= old(request).url_list@.len(),
        forall|j: int|
            0 <= j < old(request).url_list@.len() ==> (#[trigger] final(request).url_list@[j]).model()
                == old(request).url_list@[j].model(),

        raw_result_ok(r, old(request).redirect_mode is Manual),
        // about:blank is a synthetic empty page.
        (old(request).url_list@.last().model().scheme == "about"@ && old(
            request,
        ).url_list@.last().model().path == "blank"@) ==> (r.status == Some(200u16) && hm_value(
            r.headers.model(),
            "content-type"@,
        ) == Some("text/html; charset=utf-8"@) && body_bytes(r.body) == Some(Seq::<u8>::empty())
            && r.response_type is Default && final(wire).sent@ == old(wire).sent@),
        // data: URLs decode in place, for GET only.
        old(request).url_list@.last().model().scheme == "data"@ ==> (match data_decode(
            old(request).url_list@.last().model(),
        ) {
            Some(p) => old(request).method is Get ==> (r.status == Some(200u16) && hm_value(
                r.headers.model(),
                "content-type"@,
            ) == Some(p.0) && body_bytes(r.body) == Some(p.1) && r.response_type is Default),
            None => r.is_network_error(),
        } && (!(old(request).method is Get) ==> r.is_network_error()) && final(wire).sent@ == old(
            wire,
        ).sent@),
        // file: URLs percent-decode their path, read the scripted file, and
        // type it by extension, for GET only.
        (old(request).url_list@.last().model().scheme == "file"@ && old(request).method is Get)
            ==> (match crate::data_url::path_decoded(old(request).url_list@.last().model().path) {
            None => r.is_network_error(),
            Some(p) => (if old(wire).file_sent@.len() < old(wire).file_replies@.len() && old(
                wire,
            ).file_replies@[old(wire).file_sent@.len() as int] is Some {
                (match old(wire).file_replies@[old(wire).file_sent@.len() as int] {
                    Some(b) => r.status == Some(200u16) && body_bytes(r.body) == Some(b@)
                        && hm_value(r.headers.model(), "content-type"@) == Some(mime_guess_of(p))
                        && r.response_type is Default && final(wire).file_sent@.last()@ == p,
                    None => false,
                })
            } else {
                r.is_network_error()
            }),
        }),
        (old(request).url_list@.last().model().scheme == "file"@ && !(old(
            request,
        ).method is Get)) ==> r.is_network_error(),
        // about: and data: never touch the request or the wire.
        (old(request).url_list@.last().model().scheme == "about"@ || old(
            request,
        ).url_list@.last().model().scheme == "data"@) ==> (*final(request) == *old(request)
            && final(wire).sent@ == old(wire).sent@),
        // about: anywhere but blank is an error.
        (old(request).url_list@.last().model().scheme == "about"@ && old(
            request,
        ).url_list@.last().model().path != "blank"@) ==> r.is_network_error(),
        // http(s): a plain success comes through.
        ((old(request).url_list@.last().model().scheme == "http"@ || old(
            request,
        ).url_list@.last().model().scheme == "https"@) && next_is_success(*old(wire))
            && !is_redirect_status(next_status(*old(wire))) && next_status(*old(wire)) != 401
            && next_status(*old(wire)) != 407) ==> (!r.is_network_error()
            && r.internal_response is None && r.status == Some(next_status(*old(wire)))
            && r.headers.model() == next_reply_headers(*old(wire)) && final(wire).sent@.len()
            == old(wire).sent@.len() + 1),
        // Every scheme outside about, data, file, http and https is an
        // error; blob: and ftp: stay unimplemented and collapse like the
        // rest.
        !(old(request).url_list@.last().model().scheme == "about"@ || old(
            request,
        ).url_list@.last().model().scheme == "data"@ || old(
            request,
        ).url_list@.last().model().scheme == "file"@ || old(
            request,
        ).url_list@.last().model().scheme == "http"@ || old(
            request,
        ).url_list@.last().model().scheme == "https"@) ==> r.is_network_error(),
    decreases wire.remaining(), 2nat,
{
    proof {
        reveal_strlit("about");
        reveal_strlit("blob");
        reveal_strlit("data");
        reveal_strlit("file");
        reveal_strlit("filesystem");
        reveal_strlit("http");
        reveal_strlit("https");
        assert("about"@.len() == 5 && "blob"@.len() == 4 && "data"@.len() == 4 && "file"@.len()
            == 4 && "filesystem"@.len() == 10 && "http"@.len() == 4 && "https"@.len() == 5);
        assert("about"@[0] == 'a' && "blob"@[0] == 'b' && "data"@[0] == 'd' && "file"@[0] == 'f'
            && "http"@[0] == 'h' && "https"@[0] == 'h');
    }
    let scheme = request.current_url().scheme.clone();
    if str_eq(scheme.as_str(), "about") {
        let is_blank = {
            let url = request.current_url();
            str_eq(url.path.as_str(), "blank")
        };
        if is_blank {
            let mut response = Response::new();
            response.headers.set("content-type", "text/html; charset=utf-8");
            proof {
                lemma_hm_value_set(
                    Seq::<(Seq<char>, Seq<char>)>::empty(),
                    "content-type"@,
                    "text/html; charset=utf-8"@,
                    "content-type"@,
                );
            }
            response.body = ResponseBody::Done(Vec::new());
            response
        } else {
            Response::network_error()
        }
    } else if str_eq(scheme.as_str(), "http") || str_eq(scheme.as_str(), "https") {
        http_fetch(request, cache, wire, now, false, false, false)
    } else if str_eq(scheme.as_str(), "data") {
        if matches!(request.method, Method::Get) {
            match decode_data_url(request.current_url()) {
                Some(p) => {
                    let (mime, bytes) = p;
                    let mut response = Response::new();
                    response.headers.set("content-type", mime.as_str());
                    proof {
                        lemma_hm_value_set(
                            Seq::<(Seq<char>, Seq<char>)>::empty(),
                            "content-type"@,
                            mime@,
                            "content-type"@,
                        );
                    }
                    response.body = ResponseBody::Done(bytes);
                    response
                },
                None => Response::network_error(),
            }
        } else {
            Response::network_error()
        }
    } else if str_eq(scheme.as_str(), "file") {
        if matches!(request.method, Method::Get) {
            let path = request.current_url().path.clone();
            let decoded = match crate::data_url::percent_decode_path(path.as_str()) {
                Some(p) => p,
                None => {
                    return Response::network_error();
                },
            };
            match wire.read_file(decoded.as_str()) {
                Some(bytes) => {
                    let mime = guess_mime_type(decoded.as_str());
                    let mut response = Response::new();
                    response.headers.set("content-type", mime.as_str());
                    proof {
                        lemma_hm_value_set(
                            Seq::<(Seq<char>, Seq<char>)>::empty(),
                            "content-type"@,
                            mime@,
                            "content-type"@,
                        );
                    }
                    response.body = ResponseBody::Done(bytes);
                    response
                },
                None => Response::network_error(),
            }
        } else {
            Response::network_error()
        }
    } else {
        // blob: and ftp: are unimplemented; with every other scheme they
        // collapse to the network-error sentinel.
        Response::network_error()
    }
}

/// [Main fetch](https://fetch.spec.whatwg.org/#concept-main-fetch): scheme
/// and origin dispatch, tainting, filtering, and the null-body rule.
#[verifier::loop_isolation(false)]
#[verifier::rlimit(100)]
pub fn main_fetch(
    request: &mut Request,
    cache: &mut CORSCache,
    wire: &mut Wire,
    now: u64,
    cors_flag: bool,
    recursive_flag: bool,
) -> (r: Response)
    requires
        request_ok(*old(request)),
    ensures
        request_ok(*final(request)),
        wire_extended(*old(wire), *final(wire)),
        final(request).mode == old(request).mode,
        !(old(request).redirect_mode is Manual) ==> !(final(request).redirect_mode is Manual),
        (old(request).mode is NoCORS && old(request).response_tainting is Opaque) ==> final(request).response_tainting is Opaque,
        final(request).response_tainting is Basic ==> old(request).response_tainting is Basic,
        !old(request).same_origin_data ==> !final(request).same_origin_data,
        (old(request).origin matches Origin::Origin(UrlOrigin::Opaque)) ==> (final(request).origin matches Origin::Origin(UrlOrigin::Opaque)),
        caller_headers_kept(
            old(request).headers.model(),
            final(request).headers.model(),
            *old(wire),
            *final(wire),
        ),
        (old(request).method is Get ==> final(request).method is Get),
        (old(request).body is None ==> final(request).body is None),
        final(request).redirect_count >= old(request).redirect_count,
        final(request).url_list@.len() >= old(request).url_list@.len(),
        forall|j: int|
            0 <= j < old(request).url_list@.len() ==> (#[trigger] final(request).url_list@[j]).model()
                == old(request).url_list@[j].model(),

        final(request).redirect_count <= 20,
        recursive_flag ==> raw_result_ok(r, old(request).redirect_mode is Manual),
        !recursive_flag ==> !(r.response_type is Default),
        !recursive_flag ==> (r.response_type is OpaqueRedirect ==> old(
            request,
        ).redirect_mode is Manual),
        // The filter follows the tainting.
        !recursive_flag ==> ((!(r.response_type is Error) && !(r.response_type is OpaqueRedirect))
            ==> r.response_type == taint_type(final(request).response_tainting)),
        // What a Basic or CORS projection shows is its response's own data,
        // with only the filtered headers hidden.
        !recursive_flag ==> ((r.response_type is Basic || r.response_type is CORS) ==> (r.status
            == r.actual().status && r.headers.model() == (if r.response_type is Basic {
            crate::response::basic_filtered_headers(r.actual().headers.model())
        } else {
            crate::response::hm_keep_cors(r.actual().headers.model())
        }) && crate::response::body_eq(r.body, r.actual().body))),
        // Null-body statuses, HEAD and CONNECT surface an empty body.
        !recursive_flag ==> ((!r.is_network_error() && (null_body_status(r.actual().status)
            || final(request).method is Head || final(request).method is Connect))
            ==> r.actual().body is Empty),
        // A no-CORS request ends opaque, or fails.
        (!recursive_flag && nocors_dispatch(*old(request), cors_flag) && !(old(
            request,
        ).redirect_mode is Manual)) ==> (r.response_type is Opaque || r.response_type is Error),
        // A local-URLs-only request outside the local schemes is refused
        // before any work.
        (old(request).local_urls_only && !local_scheme(old(request).url_list@.last().model().scheme))
            ==> (r.is_network_error() && final(wire).sent@ == old(wire).sent@),
        // A SameOrigin-mode request that is not same-origin is refused.
        (!(old(request).local_urls_only && !local_scheme(
            old(request).url_list@.last().model().scheme,
        )) && !basic_fetch_branch(*old(request), cors_flag) && old(request).mode is SameOrigin)
            ==> (r.is_network_error() && final(wire).sent@ == old(wire).sent@),
        // Outside http and https, only the basic schemes are served.
        (!(old(request).local_urls_only && !local_scheme(
            old(request).url_list@.last().model().scheme,
        )) && !basic_fetch_branch(*old(request), cors_flag) && !(old(request).mode is SameOrigin)
            && !(old(request).mode is NoCORS) && !(old(request).url_list@.last().model().scheme
            == "http"@ || old(request).url_list@.last().model().scheme == "https"@)) ==> (
        r.is_network_error() && final(wire).sent@ == old(wire).sent@),
        // about:blank surfaces through the Basic filter.
        (!recursive_flag && old(request).url_list@.last().model().scheme == "about"@ && old(
            request,
        ).url_list@.last().model().path == "blank"@ && old(request).response_tainting is Basic
            && old(request).method is Get) ==> (r.response_type is Basic && r.status == Some(
            200u16,
        ) && hm_value(r.headers.model(), "content-type"@) == Some("text/html; charset=utf-8"@)
            && body_bytes(r.body) == Some(Seq::<u8>::empty()) && final(wire).sent@ == old(
            wire,
        ).sent@),
        // data: URLs surface their decoded payload through the Basic filter.
        (!recursive_flag && old(request).url_list@.last().model().scheme == "data"@
            && basic_fetch_branch(*old(request), cors_flag) && old(
            request,
        ).response_tainting is Basic && old(request).method is Get) ==> (match data_decode(
            old(request).url_list@.last().model(),
        ) {
            Some(p) => r.response_type is Basic && r.status == Some(200u16) && hm_value(
                r.headers.model(),
                "content-type"@,
            ) == Some(p.0) && body_bytes(r.body) == Some(p.1) && final(wire).sent@ == old(
                wire,
            ).sent@,
            None => r.is_network_error(),
        }),
        // A plain http(s) success reaches the caller with its own status.
        (!(old(request).local_urls_only && !local_scheme(
            old(request).url_list@.last().model().scheme,
        )) && (old(request).url_list@.last().model().scheme == "http"@ || old(
            request,
        ).url_list@.last().model().scheme == "https"@) && next_is_success(*old(wire))
            && !is_redirect_status(next_status(*old(wire))) && next_status(*old(wire)) != 401
            && next_status(*old(wire)) != 407 && (basic_fetch_branch(*old(request), cors_flag)
            || old(request).mode is NoCORS || (!(old(request).mode is SameOrigin) && !old(
            request,
        ).use_cors_preflight && !old(request).unsafe_request && cors_check_spec(
            old(request).origin,
            old(request).credentials_mode,
            next_reply_headers(*old(wire)),
        )))) ==> (!r.is_network_error() && r.actual().status == Some(next_status(*old(wire)))
            && final(wire).sent@.len() == old(wire).sent@.len() + 1),
    decreases wire.remaining(), 3nat,
{
    proof {
        reveal_strlit("about");
        reveal_strlit("blob");
        reveal_strlit("data");
        reveal_strlit("file");
        reveal_strlit("filesystem");
        reveal_strlit("http");
        reveal_strlit("https");
        assert("about"@.len() == 5 && "blob"@.len() == 4 && "data"@.len() == 4 && "file"@.len()
            == 4 && "filesystem"@.len() == 10 && "http"@.len() == 4 && "https"@.len() == 5);
        assert("about"@[0] == 'a' && "blob"@[0] == 'b' && "data"@[0] == 'd' && "file"@[0] == 'f'
            && "http"@[0] == 'h' && "https"@[0] == 'h');
    }
    // Step 2
    let mut blocked = false;
    if request.local_urls_only {
        let url = request.current_url();
        if !(str_eq(url.scheme.as_str(), "about") || str_eq(url.scheme.as_str(), "blob")
            || str_eq(url.scheme.as_str(), "data") || str_eq(url.scheme.as_str(), "filesystem")) {
            blocked = true;
        }
    }
    // Step 9: choose the path.
    let mut response: Response;
    if blocked {
        response = Response::network_error();
    } else {
        let same_origin = match &request.origin {
            Origin::Origin(o) => {
                let cur = request.current_url().origin();
                crate::urls::origin_eq(o, &cur)
            },
            Origin::Client => false,
        };
        let scheme = request.current_url().scheme.clone();
        let scheme_is_data = str_eq(scheme.as_str(), "data");
        let scheme_is_file = str_eq(scheme.as_str(), "file");
        let scheme_is_about = str_eq(scheme.as_str(), "about");
        let scheme_is_http = str_eq(scheme.as_str(), "http") || str_eq(scheme.as_str(), "https");
        if (same_origin && !cors_flag) || (scheme_is_data && request.same_origin_data) || (
        scheme_is_file && request.same_origin_data) || scheme_is_about || matches!(
            request.mode,
            RequestMode::Navigate,
        ) {
            response = basic_fetch(request, cache, wire, now);
        } else if matches!(request.mode, RequestMode::SameOrigin) {
            response = Response::network_error();
        } else if matches!(request.mode, RequestMode::NoCORS) {
            request.response_tainting = ResponseTainting::Opaque;
            response = basic_fetch(request, cache, wire, now);
        } else if !scheme_is_http {
            response = Response::network_error();
        } else if request.use_cors_preflight || (request.unsafe_request && {
            let not_simple_method = !is_simple_method(&request.method);
            let mut any_not_simple = false;
            let hcount = request.headers.len();
            let mut i: usize = 0;
            while i < hcount
                invariant
                    hcount == request.headers.model().len(),
                    i <= hcount,
                decreases hcount - i,
            {
                let name = request.headers.name_at(i);
                let value = request.headers.value_at(i);
                if !is_simple_header(name.as_str(), value.as_str()) {
                    any_not_simple = true;
                }
                i = i + 1;
            }
            not_simple_method || any_not_simple
        }) {
            request.response_tainting = ResponseTainting::CORSTainting;
            request.redirect_mode = RedirectMode::Error;
            response = http_fetch(request, cache, wire, now, true, true, false);
            if response.is_network_error() {
                // evict the approvals this request had planted
                let url = request.current_url().clone();
                cache.purge(&url);
            }
        } else {
            request.response_tainting = ResponseTainting::CORSTainting;
            response = http_fetch(request, cache, wire, now, true, false, false);
        }
    }
    // Step 10
    if recursive_flag {
        return response;
    }
    // Step 11: filter a plain response by the tainting.
    if matches!(response.response_type, ResponseType::Default) {
        let filter_type = match request.response_tainting {
            ResponseTainting::Basic => ResponseType::Basic,
            ResponseTainting::CORSTainting => ResponseType::CORS,
            ResponseTainting::Opaque => ResponseType::Opaque,
        };
        response = response.to_filtered(filter_type);
    }
    // Step 14: a null-body status, or a bodiless method, hides the body.
    let is_error = response.is_network_error();
    let force_empty = if is_error {
        false
    } else {
        let status = {
            let actual = response.actual_response();
            actual.status
        };
        is_null_body_status(&status) || matches!(request.method, Method::Head) || matches!(
            request.method,
            Method::Connect,
        )
    };
    let ghost pre_force = response;
    if force_empty {
        // both the projection and the response behind it hide the body
        response.body = ResponseBody::Empty;
        if response.return_internal {
            let internal = response.internal_response;
            response.internal_response = match internal {
                Some(boxed) => {
                    let mut inner = *boxed;
                    inner.body = ResponseBody::Empty;
                    Some(Box::new(inner))
                },
                None => None,
            };
        }
    }
    proof {
        assert(response.actual().status == pre_force.actual().status);
        assert(response.actual().headers.model() == pre_force.actual().headers.model());
    }
    proof {
        crate::response::lemma_basic_filter_keeps_content_type(
            response.actual().headers.model(),
        );
    }
    // Step 16: the body is complete by construction, so the synchronous
    // wait has nothing left to do.
    response
}

/// The entry's header defaults: Accept by the request's kind, and
/// Accept-Language, each only when the caller set none.
fn apply_default_headers(request: &mut Request)
    requires
        request_ok(*old(request)),
    ensures
        request_ok(*final(request)),
        final(request).url_list@ == old(request).url_list@,
        final(request).method == old(request).method,
        final(request).mode == old(request).mode,
        final(request).origin == old(request).origin,
        final(request).referer == old(request).referer,
        final(request).body == old(request).body,
        final(request).response_tainting == old(request).response_tainting,
        final(request).redirect_mode == old(request).redirect_mode,
        final(request).redirect_count == old(request).redirect_count,
        final(request).credentials_mode == old(request).credentials_mode,
        final(request).cache_mode == old(request).cache_mode,
        final(request).local_urls_only == old(request).local_urls_only,
        final(request).same_origin_data == old(request).same_origin_data,
        final(request).use_cors_preflight == old(request).use_cors_preflight,
        final(request).unsafe_request == old(request).unsafe_request,
        final(request).synchronous == old(request).synchronous,
        final(request).is_navigation_request == old(request).is_navigation_request,
        final(request).type_ == old(request).type_,
        !hm_has(old(request).headers.model(), "accept-language"@) ==> hm_value(
            final(request).headers.model(),
            "accept-language"@,
        ) == Some("en-US"@),
        hm_has(old(request).headers.model(), "accept-language"@) ==> hm_value(
            final(request).headers.model(),
            "accept-language"@,
        ) == hm_value(old(request).headers.model(), "accept-language"@),
        !hm_has(old(request).headers.model(), "accept"@) ==> hm_value(
            final(request).headers.model(),
            "accept"@,
        ) == Some(default_accept(*old(request))),
        hm_has(old(request).headers.model(), "accept"@) ==> hm_value(
            final(request).headers.model(),
            "accept"@,
        ) == hm_value(old(request).headers.model(), "accept"@),
{
    // Step 1
    match request.window {
        Window::Client => {
            // the platform window would be attached here
        },
        Window::NoWindow => {
            request.window = Window::NoWindow;
        },
    }
    // Step 2: a client origin placeholder would be resolved here; the
    // precondition has the origin already set.
    // Step 3: the default Accept by request kind.
    if !request.headers.has("accept") {
        let value = if request.is_navigation_request {
            "text/html, application/xhtml+xml, application/xml;q=0.9, */*;q=0.8"
        } else if matches!(request.type_, crate::request::Type::Image) {
            "image/png, image/svg+xml, image/*;q=0.8, */*;q=0.5"
        } else if matches!(request.type_, crate::request::Type::Style) {
            "text/css, */*;q=0.1"
        } else {
            "*/*"
        };
        let ghost before = request.headers.model();
        request.headers.set("accept", value);
        proof {
            reveal_strlit("accept");
            reveal_strlit("accept-language");
            assert(hkey("accept"@).len() == 6);
            assert(hkey("accept-language"@).len() == 15);
            lemma_set_all(before, "accept"@, value@);
            lemma_hm_value_set(before, "accept"@, value@, "accept"@);
        }
    }
    // Step 4: the default Accept-Language.
    let had_al = request.headers.has("accept-language");
    if !had_al {
        let ghost before = request.headers.model();
        request.headers.set("accept-language", "en-US");
        proof {
            reveal_strlit("accept");
            reveal_strlit("accept-language");
            assert(hkey("accept"@).len() == 6);
            assert(hkey("accept-language"@).len() == 15);
            lemma_set_all(before, "accept-language"@, "en-US"@);
        }
    }
}

/// [Fetch](https://fetch.spec.whatwg.org/#concept-fetch) with an explicit
/// CORS cache and clock: sets the default Accept and Accept-Language, then
/// runs main fetch.
#[verifier::rlimit(100)]
pub fn fetch_with_cors_cache(
    request: &mut Request,
    cache: &mut CORSCache,
    wire: &mut Wire,
    now: u64,
) -> (r: Response)
    requires
        request_ok(*old(request)),
    ensures
        request_ok(*final(request)),
        wire_extended(*old(wire), *final(wire)),
        final(request).redirect_count <= 20,
        !(r.response_type is Default),
        r.response_type is OpaqueRedirect ==> old(request).redirect_mode is Manual,
        ((!(r.response_type is Error) && !(r.response_type is OpaqueRedirect))
            ==> r.response_type == taint_type(final(request).response_tainting)),
        ((!r.is_network_error() && (null_body_status(r.actual().status) || final(request).method is Head || final(request).method is Connect)) ==> r.actual().body is Empty),
        // A local-URLs-only request outside the local schemes is refused
        // before any work.
        (old(request).local_urls_only && !local_scheme(old(request).url_list@.last().model().scheme))
            ==> (r.is_network_error() && final(wire).sent@ == old(wire).sent@),
        // A SameOrigin-mode request that is not same-origin is refused.
        (!(old(request).local_urls_only && !local_scheme(
            old(request).url_list@.last().model().scheme,
        )) && !basic_fetch_branch(*old(request), false) && old(request).mode is SameOrigin) ==> (
        r.is_network_error() && final(wire).sent@ == old(wire).sent@),
        // Outside http and https, only the basic schemes are served.
        (!(old(request).local_urls_only && !local_scheme(
            old(request).url_list@.last().model().scheme,
        )) && !basic_fetch_branch(*old(request), false) && !(old(request).mode is SameOrigin)
            && !(old(request).mode is NoCORS) && !(old(request).url_list@.last().model().scheme
            == "http"@ || old(request).url_list@.last().model().scheme == "https"@)) ==> (
        r.is_network_error() && final(wire).sent@ == old(wire).sent@),
        // about:blank surfaces through the Basic filter.
        (old(request).url_list@.last().model().scheme == "about"@ && old(
            request,
        ).url_list@.last().model().path == "blank"@ && old(request).response_tainting is Basic
            && old(request).method is Get) ==> (r.response_type is Basic && r.status == Some(
            200u16,
        ) && hm_value(r.headers.model(), "content-type"@) == Some("text/html; charset=utf-8"@)
            && body_bytes(r.body) == Some(Seq::<u8>::empty()) && final(wire).sent@ == old(
            wire,
        ).sent@),
        // data: URLs surface their decoded payload through the Basic filter.
        (old(request).url_list@.last().model().scheme == "data"@ && basic_fetch_branch(
            *old(request),
            false,
        ) && old(request).response_tainting is Basic && old(request).method is Get) ==> (match
        data_decode(old(request).url_list@.last().model()) {
            Some(p) => r.response_type is Basic && r.status == Some(200u16) && hm_value(
                r.headers.model(),
                "content-type"@,
            ) == Some(p.0) && body_bytes(r.body) == Some(p.1) && final(wire).sent@ == old(
                wire,
            ).sent@,
            None => r.is_network_error(),
        }),
        // A plain http(s) success reaches the caller with its own status.
        (!(old(request).local_urls_only && !local_scheme(
            old(request).url_list@.last().model().scheme,
        )) && (old(request).url_list@.last().model().scheme == "http"@ || old(
            request,
        ).url_list@.last().model().scheme == "https"@) && next_is_success(*old(wire))
            && !is_redirect_status(next_status(*old(wire))) && next_status(*old(wire)) != 401
            && next_status(*old(wire)) != 407 && (basic_fetch_branch(*old(request), false) || old(
            request,
        ).mode is NoCORS || (!(old(request).mode is SameOrigin) && !old(
            request,
        ).use_cors_preflight && !old(request).unsafe_request && cors_check_spec(
            old(request).origin,
            old(request).credentials_mode,
            next_reply_headers(*old(wire)),
        )))) ==> (!r.is_network_error() && r.actual().status == Some(next_status(*old(wire)))
            && final(wire).sent@.len() == old(wire).sent@.len() + 1),
        // A caller that set no Accept-Language sends en-US everywhere.
        !hm_has(old(request).headers.model(), "accept-language"@) ==> (hm_value(
            final(request).headers.model(),
            "accept-language"@,
        ) == Some("en-US"@) && forall|j: int|
            old(wire).sent@.len() <= j < final(wire).sent@.len() ==> (hm_has(
                (#[trigger] final(wire).sent@[j]).headers.model(),
                "access-control-request-method"@,
            ) || hm_value(final(wire).sent@[j].headers.model(), "accept-language"@) == Some(
                "en-US"@,
            ))),
        // A caller that set no Accept sends the default for its kind.
        !hm_has(old(request).headers.model(), "accept"@) ==> (hm_value(
            final(request).headers.model(),
            "accept"@,
        ) == Some(default_accept(*old(request))) && forall|j: int|
            old(wire).sent@.len() <= j < final(wire).sent@.len() ==> (hm_has(
                (#[trigger] final(wire).sent@[j]).headers.model(),
                "access-control-request-method"@,
            ) || hm_value(final(wire).sent@[j].headers.model(), "accept"@) == Some(
                default_accept(*old(request)),
            ))),
        // One the caller set is kept, on the request and on the wire.
        caller_headers_kept(
            old(request).headers.model(),
            final(request).headers.model(),
            *old(wire),
            *final(wire),
        ),
{
    apply_default_headers(request);
    // Step 7
    main_fetch(request, cache, wire, now, false, false)
}

/// Fetch: a fresh CORS cache, the clock at zero.
pub fn fetch(request: &mut Request, wire: &mut Wire) -> (r: Response)
    requires
        request_ok(*old(request)),
    ensures
        request_ok(*final(request)),
        wire_extended(*old(wire), *final(wire)),
        final(request).redirect_count <= 20,
        !(r.response_type is Default),
        r.response_type is OpaqueRedirect ==> old(request).redirect_mode is Manual,
        ((!(r.response_type is Error) && !(r.response_type is OpaqueRedirect))
            ==> r.response_type == taint_type(final(request).response_tainting)),
        ((!r.is_network_error() && (null_body_status(r.actual().status) || final(request).method is Head || final(request).method is Connect)) ==> r.actual().body is Empty),
        // A local-URLs-only request outside the local schemes is refused
        // before any work.
        (old(request).local_urls_only && !local_scheme(old(request).url_list@.last().model().scheme))
            ==> (r.is_network_error() && final(wire).sent@ == old(wire).sent@),
        // A SameOrigin-mode request that is not same-origin is refused.
        (!(old(request).local_urls_only && !local_scheme(
            old(request).url_list@.last().model().scheme,
        )) && !basic_fetch_branch(*old(request), false) && old(request).mode is SameOrigin) ==> (
        r.is_network_error() && final(wire).sent@ == old(wire).sent@),
        // Outside http and https, only the basic schemes are served.
        (!(old(request).local_urls_only && !local_scheme(
            old(request).url_list@.last().model().scheme,
        )) && !basic_fetch_branch(*old(request), false) && !(old(request).mode is SameOrigin)
            && !(old(request).mode is NoCORS) && !(old(request).url_list@.last().model().scheme
            == "http"@ || old(request).url_list@.last().model().scheme == "https"@)) ==> (
        r.is_network_error() && final(wire).sent@ == old(wire).sent@),
        // about:blank surfaces through the Basic filter.
        (old(request).url_list@.last().model().scheme == "about"@ && old(
            request,
        ).url_list@.last().model().path == "blank"@ && old(request).response_tainting is Basic
            && old(request).method is Get) ==> (r.response_type is Basic && r.status == Some(
            200u16,
        ) && hm_value(r.headers.model(), "content-type"@) == Some("text/html; charset=utf-8"@)
            && body_bytes(r.body) == Some(Seq::<u8>::empty()) && final(wire).sent@ == old(
            wire,
        ).sent@),
        // data: URLs surface their decoded payload through the Basic filter.
        (old(request).url_list@.last().model().scheme == "data"@ && basic_fetch_branch(
            *old(request),
            false,
        ) && old(request).response_tainting is Basic && old(request).method is Get) ==> (match
        data_decode(old(request).url_list@.last().model()) {
            Some(p) => r.response_type is Basic && r.status == Some(200u16) && hm_value(
                r.headers.model(),
                "content-type"@,
            ) == Some(p.0) && body_bytes(r.body) == Some(p.1) && final(wire).sent@ == old(
                wire,
            ).sent@,
            None => r.is_network_error(),
        }),
        // A plain http(s) success reaches the caller with its own status.
        (!(old(request).local_urls_only && !local_scheme(
            old(request).url_list@.last().model().scheme,
        )) && (old(request).url_list@.last().model().scheme == "http"@ || old(
            request,
        ).url_list@.last().model().scheme == "https"@) && next_is_success(*old(wire))
            && !is_redirect_status(next_status(*old(wire))) && next_status(*old(wire)) != 401
            && next_status(*old(wire)) != 407 && (basic_fetch_branch(*old(request), false) || old(
            request,
        ).mode is NoCORS || (!(old(request).mode is SameOrigin) && !old(
            request,
        ).use_cors_preflight && !old(request).unsafe_request && cors_check_spec(
            old(request).origin,
            old(request).credentials_mode,
            next_reply_headers(*old(wire)),
        )))) ==> (!r.is_network_error() && r.actual().status == Some(next_status(*old(wire)))
            && final(wire).sent@.len() == old(wire).sent@.len() + 1),
        !hm_has(old(request).headers.model(), "accept-language"@) ==> hm_value(
            final(request).headers.model(),
            "accept-language"@,
        ) == Some("en-US"@),
        !hm_has(old(request).headers.model(), "accept"@) ==> hm_value(
            final(request).headers.model(),
            "accept"@,
        ) == Some(default_accept(*old(request))),
{
    let mut cache = CORSCache::new();
    fetch_with_cors_cache(request, &mut cache, wire, 0)
}

} // verus!
