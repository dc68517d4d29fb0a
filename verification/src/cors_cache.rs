//! The CORS preflight cache: which methods and header names a server has
//! approved for an (origin, URL, credentials) key, and until when.

use vstd::prelude::*;
use crate::request::{method_eq, method_tok, Method, Origin};
use crate::strutil::{str_eq, str_eq_ci, lower_seq};
use crate::urls::{Url, opt_view};

verus! {

/// An approved item: a method, or a header name (case-insensitive).
pub enum HeaderOrMethod {
    MethodData(Method),
    HeaderData(String),
}

/// One cache entry, valid strictly before its expiry instant.
pub struct CORSCacheEntry {
    pub origin: Origin,
    pub url: Url,
    pub credentials: bool,
    pub expiry: u64,
    pub header_or_method: HeaderOrMethod,
}

/// The key a lookup carries.
pub struct CacheRequestDetails {
    pub origin: Origin,
    pub destination: Url,
    pub credentials: bool,
}

/// Value equality of request origins: here two opaque origins do match,
/// as the cache stores the very origin value of the request.
pub open spec fn origins_equal(a: Origin, b: Origin) -> bool {
    match (a, b) {
        (Origin::Client, Origin::Client) => true,
        (Origin::Origin(x), Origin::Origin(y)) => x.model() == y.model(),
        _ => false,
    }
}

pub fn origins_eq(a: &Origin, b: &Origin) -> (r: bool)
    ensures
        r == origins_equal(*a, *b),
{
    match (a, b) {
        (Origin::Client, Origin::Client) => true,
        (Origin::Origin(x), Origin::Origin(y)) => crate::urls::origin_value_eq(x, y),
        _ => false,
    }
}

fn opt_str_eq(a: &Option<String>, b: &Option<String>) -> (r: bool)
    ensures
        r == (opt_view(*a) == opt_view(*b)),
{
    match (a, b) {
        (Some(x), Some(y)) => str_eq(x.as_str(), y.as_str()),
        (None, None) => true,
        _ => false,
    }
}

fn opt_u16_eq(a: &Option<u16>, b: &Option<u16>) -> (r: bool)
    ensures
        r == (*a == *b),
{
    match (a, b) {
        (Some(x), Some(y)) => *x == *y,
        (None, None) => true,
        _ => false,
    }
}

/// Byte equality of whole URLs.
pub fn url_eq(a: &Url, b: &Url) -> (r: bool)
    ensures
        r == (a.model() == b.model()),
{
    let r = str_eq(a.scheme.as_str(), b.scheme.as_str()) && str_eq(
        a.username.as_str(),
        b.username.as_str(),
    ) && opt_str_eq(&a.password, &b.password) && str_eq(a.host.as_str(), b.host.as_str())
        && opt_u16_eq(&a.port, &b.port) && str_eq(a.path.as_str(), b.path.as_str()) && opt_str_eq(
        &a.query,
        &b.query,
    ) && opt_str_eq(&a.fragment, &b.fragment);
    proof {
        if r {
            assert(a.model() == b.model());
        } else {
            assert(a.model() != b.model());
        }
    }
    r
}

/// Whether an entry carries this method approval under this key.
pub open spec fn entry_key_method(e: CORSCacheEntry, d: CacheRequestDetails, tok: Seq<char>) -> bool {
    origins_equal(e.origin, d.origin) && e.url.model() == d.destination.model() && e.credentials
        == d.credentials && (match e.header_or_method {
        HeaderOrMethod::MethodData(m) => method_tok(m) == tok,
        _ => false,
    })
}

/// Whether an entry carries this header-name approval under this key.
pub open spec fn entry_key_header(e: CORSCacheEntry, d: CacheRequestDetails, name: Seq<char>) -> bool {
    origins_equal(e.origin, d.origin) && e.url.model() == d.destination.model() && e.credentials
        == d.credentials && (match e.header_or_method {
        HeaderOrMethod::HeaderData(h) => lower_seq(h@) == lower_seq(name),
        _ => false,
    })
}

/// An unexpired method approval exists.
pub open spec fn cache_has_method(
    c: Seq<CORSCacheEntry>,
    d: CacheRequestDetails,
    tok: Seq<char>,
    now: u64,
) -> bool {
    exists|i: int| 0 <= i < c.len() && entry_key_method(c[i], d, tok) && now < c[i].expiry
}

/// An unexpired header-name approval exists.
pub open spec fn cache_has_header(
    c: Seq<CORSCacheEntry>,
    d: CacheRequestDetails,
    name: Seq<char>,
    now: u64,
) -> bool {
    exists|i: int| 0 <= i < c.len() && entry_key_header(c[i], d, name) && now < c[i].expiry
}

/// Addition that stops at the largest representable instant.
pub open spec fn sat_add64(a: u64, b: u64) -> u64 {
    if a + b <= u64::MAX {
        (a + b) as u64
    } else {
        u64::MAX
    }
}

fn sat_add_exec(a: u64, b: u64) -> (r: u64)
    ensures
        r == sat_add64(a, b),
{
    if a <= u64::MAX - b {
        a + b
    } else {
        u64::MAX
    }
}

fn clone_details_origin(d: &CacheRequestDetails) -> (r: Origin)
    ensures
        origins_equal(r, d.origin),
{
    d.origin.clone()
}

/// Whether two lookup keys name the same cache rows.
pub open spec fn details_match(a: CacheRequestDetails, b: CacheRequestDetails) -> bool {
    origins_equal(a.origin, b.origin) && a.destination.model() == b.destination.model()
        && a.credentials == b.credentials
}

/// Lookups cannot tell two equal keys apart.
pub proof fn lemma_cache_has_equiv(
    c: Seq<CORSCacheEntry>,
    d1: CacheRequestDetails,
    d2: CacheRequestDetails,
    t: Seq<char>,
    n: u64,
)
    requires
        details_match(d1, d2),
    ensures
        cache_has_method(c, d1, t, n) == cache_has_method(c, d2, t, n),
        cache_has_header(c, d1, t, n) == cache_has_header(c, d2, t, n),
{
    assert forall|i: int| 0 <= i < c.len() implies (entry_key_method(c[i], d1, t)
        == entry_key_method(c[i], d2, t)) && (entry_key_header(c[i], d1, t) == entry_key_header(
        c[i],
        d2,
        t,
    )) by {}
}

/// The CORS preflight cache.
pub struct CORSCache {
    pub entries: Vec<CORSCacheEntry>,
}

impl CORSCache {
    pub fn new() -> (r: CORSCache)
        ensures
            r.entries@.len() == 0,
    {
        CORSCache { entries: Vec::new() }
    }

    fn entry_matches_method(e: &CORSCacheEntry, d: &CacheRequestDetails, method: &Method) -> (r:
        bool)
        ensures
            r == entry_key_method(*e, *d, method_tok(*method)),
    {
        origins_eq(&e.origin, &d.origin) && url_eq(&e.url, &d.destination) && e.credentials
            == d.credentials && (match &e.header_or_method {
            HeaderOrMethod::MethodData(m) => method_eq(m, method),
            _ => false,
        })
    }

    fn entry_matches_header(e: &CORSCacheEntry, d: &CacheRequestDetails, name: &str) -> (r: bool)
        ensures
            r == entry_key_header(*e, *d, name@),
    {
        origins_eq(&e.origin, &d.origin) && url_eq(&e.url, &d.destination) && e.credentials
            == d.credentials && (match &e.header_or_method {
            HeaderOrMethod::HeaderData(h) => str_eq_ci(h.as_str(), name),
            _ => false,
        })
    }

    /// Whether the cache holds an unexpired approval of this method.
    pub fn match_method(&self, request: &CacheRequestDetails, method: &Method, now: u64) -> (r:
        bool)
        ensures
            r == cache_has_method(self.entries@, *request, method_tok(*method), now),
    {
        let mut i: usize = 0;
        while i < self.entries.len()
            invariant
                i <= self.entries@.len(),
                forall|j: int|
                    0 <= j < i ==> !(entry_key_method(
                        #[trigger] self.entries@[j],
                        *request,
                        method_tok(*method),
                    ) && now < self.entries@[j].expiry),
            decreases self.entries@.len() - i,
        {
            if Self::entry_matches_method(&self.entries[i], request, method) && now
                < self.entries[i].expiry {
                return true;
            }
            i = i + 1;
        }
        false
    }

    /// Whether the cache holds an unexpired approval of this header name.
    pub fn match_header(&self, request: &CacheRequestDetails, header_name: &str, now: u64) -> (r:
        bool)
        ensures
            r == cache_has_header(self.entries@, *request, header_name@, now),
    {
        let mut i: usize = 0;
        while i < self.entries.len()
            invariant
                i <= self.entries@.len(),
                forall|j: int|
                    0 <= j < i ==> !(entry_key_header(
                        #[trigger] self.entries@[j],
                        *request,
                        header_name@,
                    ) && now < self.entries@[j].expiry),
            decreases self.entries@.len() - i,
        {
            if Self::entry_matches_header(&self.entries[i], request, header_name) && now
                < self.entries[i].expiry {
                return true;
            }
            i = i + 1;
        }
        false
    }

    /// Refreshes the expiry of the matching method entry, or inserts one:
    /// afterwards the approval stands until `now + max_age`. Answers whether
    /// an unexpired approval already stood.
    #[verifier::loop_isolation(false)]
    pub fn match_method_and_update(
        &mut self,
        request: &CacheRequestDetails,
        method: &Method,
        max_age: u32,
        now: u64,
    ) -> (r: bool)
        ensures
            r == cache_has_method(old(self).entries@, *request, method_tok(*method), now),
            forall|n2: u64|
                n2 < sat_add64(now, max_age as u64) ==> cache_has_method(
                    final(self).entries@,
                    *request,
                    method_tok(*method),
                    n2,
                ),
            forall|d2: CacheRequestDetails, t2: Seq<char>, n2: u64|
                !(details_match(d2, *request) && t2 == method_tok(*method)) ==> (cache_has_method(
                    old(self).entries@,
                    d2,
                    t2,
                    n2,
                ) == cache_has_method(final(self).entries@, d2, t2, n2)),
            forall|d2: CacheRequestDetails, t2: Seq<char>, n2: u64|
                cache_has_header(old(self).entries@, d2, t2, n2) == cache_has_header(
                    final(self).entries@,
                    d2,
                    t2,
                    n2,
                ),
            forall|n2: u64|
                (n2 >= sat_add64(now, max_age as u64) && !cache_has_method(
                    old(self).entries@,
                    *request,
                    method_tok(*method),
                    n2,
                )) ==> !cache_has_method(
                    final(self).entries@,
                    *request,
                    method_tok(*method),
                    n2,
                ),
    {
        let ghost m0 = self.entries@;
        let r = self.match_method(request, method, now);
        proof {
            assert(r == cache_has_method(m0, *request, method_tok(*method), now));
        }
        let expiry = sat_add_exec(now, max_age as u64);
        let mut i: usize = 0;
        while i < self.entries.len()
            invariant
                i <= self.entries@.len(),
                expiry == sat_add64(now, max_age as u64),
                self.entries@ == m0,
                forall|j: int|
                    0 <= j < i ==> !entry_key_method(
                        #[trigger] self.entries@[j],
                        *request,
                        method_tok(*method),
                    ),
            decreases self.entries@.len() - i,
        {
            if Self::entry_matches_method(&self.entries[i], request, method) {
                let ghost e0 = self.entries@;
                let e = self.entries.remove(i);
                let updated = CORSCacheEntry {
                    origin: e.origin,
                    url: e.url,
                    credentials: e.credentials,
                    expiry,
                    header_or_method: e.header_or_method,
                };
                self.entries.insert(i, updated);
                proof {
                    assert(self.entries@ =~= e0.update(i as int, updated));
                    assert(e0 == m0);
                    assert forall|d2: CacheRequestDetails, t2: Seq<char>, n2: u64|
                        !(details_match(d2, *request) && t2 == method_tok(*method)) implies (
                    cache_has_method(m0, d2, t2, n2) == cache_has_method(
                        self.entries@,
                        d2,
                        t2,
                        n2,
                    )) by {
                        if cache_has_method(m0, d2, t2, n2) {
                            let j = choose|j: int|
                                0 <= j < m0.len() && entry_key_method(m0[j], d2, t2) && n2
                                    < m0[j].expiry;
                            assert(j != i);
                            assert(self.entries@[j] == m0[j]);
                        }
                        if cache_has_method(self.entries@, d2, t2, n2) {
                            let j = choose|j: int|
                                0 <= j < self.entries@.len() && entry_key_method(
                                    self.entries@[j],
                                    d2,
                                    t2,
                                ) && n2 < self.entries@[j].expiry;
                            assert(j != i);
                            assert(self.entries@[j] == m0[j]);
                        }
                    }
                    assert forall|d2: CacheRequestDetails, t2: Seq<char>, n2: u64|
                        cache_has_header(m0, d2, t2, n2) == cache_has_header(
                        self.entries@,
                        d2,
                        t2,
                        n2,
                    ) by {
                        if cache_has_header(m0, d2, t2, n2) {
                            let j = choose|j: int|
                                0 <= j < m0.len() && entry_key_header(m0[j], d2, t2) && n2
                                    < m0[j].expiry;
                            assert(j != i);
                            assert(self.entries@[j] == m0[j]);
                        }
                        if cache_has_header(self.entries@, d2, t2, n2) {
                            let j = choose|j: int|
                                0 <= j < self.entries@.len() && entry_key_header(
                                    self.entries@[j],
                                    d2,
                                    t2,
                                ) && n2 < self.entries@[j].expiry;
                            assert(j != i);
                            assert(self.entries@[j] == m0[j]);
                        }
                    }
                    assert forall|n2: u64|
                        (n2 >= expiry && !cache_has_method(m0, *request, method_tok(*method), n2))
                            implies !cache_has_method(
                        self.entries@,
                        *request,
                        method_tok(*method),
                        n2,
                    ) by {
                        if cache_has_method(self.entries@, *request, method_tok(*method), n2) {
                            let j = choose|j: int|
                                0 <= j < self.entries@.len() && entry_key_method(
                                    self.entries@[j],
                                    *request,
                                    method_tok(*method),
                                ) && n2 < self.entries@[j].expiry;
                            if j != i {
                                assert(self.entries@[j] == m0[j]);
                            }
                        }
                    }
                    assert forall|n2: u64|
                        n2 < sat_add64(now, max_age as u64) implies cache_has_method(
                        self.entries@,
                        *request,
                        method_tok(*method),
                        n2,
                    ) by {
                        assert(0 <= i < self.entries@.len() && entry_key_method(
                            self.entries@[i as int],
                            *request,
                            method_tok(*method),
                        ) && n2 < self.entries@[i as int].expiry);
                    }
                }
                return r;
            }
            i = i + 1;
        }
        let entry = CORSCacheEntry {
            origin: clone_details_origin(request),
            url: request.destination.clone(),
            credentials: request.credentials,
            expiry,
            header_or_method: HeaderOrMethod::MethodData(method.clone()),
        };
        self.entries.push(entry);
        proof {
            let k = self.entries@.len() - 1;
            assert forall|n2: u64|
                n2 < sat_add64(now, max_age as u64) implies cache_has_method(
                self.entries@,
                *request,
                method_tok(*method),
                n2,
            ) by {
                assert(0 <= k < self.entries@.len() && entry_key_method(
                    self.entries@[k],
                    *request,
                    method_tok(*method),
                ) && n2 < self.entries@[k].expiry);
            }
            assert forall|d2: CacheRequestDetails, t2: Seq<char>, n2: u64|
                cache_has_method(m0, d2, t2, n2) implies cache_has_method(
                self.entries@,
                d2,
                t2,
                n2,
            ) by {
                let j = choose|j: int|
                    0 <= j < m0.len() && entry_key_method(m0[j], d2, t2) && n2 < m0[j].expiry;
                assert(self.entries@[j] == m0[j]);
            }
            assert forall|d2: CacheRequestDetails, t2: Seq<char>, n2: u64|
                cache_has_header(m0, d2, t2, n2) == cache_has_header(
                self.entries@,
                d2,
                t2,
                n2,
            ) by {
                if cache_has_header(m0, d2, t2, n2) {
                    let j = choose|j: int|
                        0 <= j < m0.len() && entry_key_header(m0[j], d2, t2) && n2 < m0[j].expiry;
                    assert(self.entries@[j] == m0[j]);
                }
                if cache_has_header(self.entries@, d2, t2, n2) {
                    let j = choose|j: int|
                        0 <= j < self.entries@.len() && entry_key_header(self.entries@[j], d2, t2)
                            && n2 < self.entries@[j].expiry;
                    assert(j < m0.len() && self.entries@[j] == m0[j]);
                }
            }
            assert forall|n2: u64|
                (n2 >= expiry && !cache_has_method(m0, *request, method_tok(*method), n2))
                    implies !cache_has_method(self.entries@, *request, method_tok(*method), n2) by {
                if cache_has_method(self.entries@, *request, method_tok(*method), n2) {
                    let j = choose|j: int|
                        0 <= j < self.entries@.len() && entry_key_method(
                            self.entries@[j],
                            *request,
                            method_tok(*method),
                        ) && n2 < self.entries@[j].expiry;
                    if j < m0.len() {
                        assert(self.entries@[j] == m0[j]);
                    }
                }
            }
        }
        r
    }

    /// Refreshes the expiry of the matching header entry, or inserts one.
    #[verifier::loop_isolation(false)]
    pub fn match_header_and_update(
        &mut self,
        request: &CacheRequestDetails,
        header_name: &str,
        max_age: u32,
        now: u64,
    ) -> (r: bool)
        ensures
            r == cache_has_header(old(self).entries@, *request, header_name@, now),
            forall|n2: u64|
                n2 < sat_add64(now, max_age as u64) ==> cache_has_header(
                    final(self).entries@,
                    *request,
                    header_name@,
                    n2,
                ),
            forall|d2: CacheRequestDetails, t2: Seq<char>, n2: u64|
                !(details_match(d2, *request) && lower_seq(t2) == lower_seq(header_name@)) ==> (
                cache_has_header(old(self).entries@, d2, t2, n2) == cache_has_header(
                    final(self).entries@,
                    d2,
                    t2,
                    n2,
                )),
            forall|d2: CacheRequestDetails, t2: Seq<char>, n2: u64|
                cache_has_method(old(self).entries@, d2, t2, n2) == cache_has_method(
                    final(self).entries@,
                    d2,
                    t2,
                    n2,
                ),
            forall|n2: u64|
                (n2 >= sat_add64(now, max_age as u64) && !cache_has_header(
                    old(self).entries@,
                    *request,
                    lower_seq(header_name@),
                    n2,
                )) ==> !cache_has_header(
                    final(self).entries@,
                    *request,
                    lower_seq(header_name@),
                    n2,
                ),
    {
        let ghost m0 = self.entries@;
        let r = self.match_header(request, header_name, now);
        proof {
            assert(r == cache_has_header(m0, *request, header_name@, now));
        }
        let expiry = sat_add_exec(now, max_age as u64);
        let mut i: usize = 0;
        while i < self.entries.len()
            invariant
                i <= self.entries@.len(),
                expiry == sat_add64(now, max_age as u64),
                self.entries@ == m0,
                forall|j: int|
                    0 <= j < i ==> !entry_key_header(
                        #[trigger] self.entries@[j],
                        *request,
                        header_name@,
                    ),
            decreases self.entries@.len() - i,
        {
            if Self::entry_matches_header(&self.entries[i], request, header_name) {
                let ghost e0 = self.entries@;
                let e = self.entries.remove(i);
                let updated = CORSCacheEntry {
                    origin: e.origin,
                    url: e.url,
                    credentials: e.credentials,
                    expiry,
                    header_or_method: e.header_or_method,
                };
                self.entries.insert(i, updated);
                proof {
                    assert(self.entries@ =~= e0.update(i as int, updated));
                    assert(e0 == m0);
                    assert forall|d2: CacheRequestDetails, t2: Seq<char>, n2: u64|
                        !(details_match(d2, *request) && lower_seq(t2) == lower_seq(header_name@))
                            implies (cache_has_header(m0, d2, t2, n2) == cache_has_header(
                        self.entries@,
                        d2,
                        t2,
                        n2,
                    )) by {
                        if cache_has_header(m0, d2, t2, n2) {
                            let j = choose|j: int|
                                0 <= j < m0.len() && entry_key_header(m0[j], d2, t2) && n2
                                    < m0[j].expiry;
                            assert(j != i);
                            assert(self.entries@[j] == m0[j]);
                        }
                        if cache_has_header(self.entries@, d2, t2, n2) {
                            let j = choose|j: int|
                                0 <= j < self.entries@.len() && entry_key_header(
                                    self.entries@[j],
                                    d2,
                                    t2,
                                ) && n2 < self.entries@[j].expiry;
                            assert(j != i);
                            assert(self.entries@[j] == m0[j]);
                        }
                    }
                    assert forall|d2: CacheRequestDetails, t2: Seq<char>, n2: u64|
                        cache_has_method(m0, d2, t2, n2) == cache_has_method(
                        self.entries@,
                        d2,
                        t2,
                        n2,
                    ) by {
                        if cache_has_method(m0, d2, t2, n2) {
                            let j = choose|j: int|
                                0 <= j < m0.len() && entry_key_method(m0[j], d2, t2) && n2
                                    < m0[j].expiry;
                            assert(j != i);
                            assert(self.entries@[j] == m0[j]);
                        }
                        if cache_has_method(self.entries@, d2, t2, n2) {
                            let j = choose|j: int|
                                0 <= j < self.entries@.len() && entry_key_method(
                                    self.entries@[j],
                                    d2,
                                    t2,
                                ) && n2 < self.entries@[j].expiry;
                            assert(j != i);
                            assert(self.entries@[j] == m0[j]);
                        }
                    }
                    assert forall|n2: u64|
                        (n2 >= expiry && !cache_has_header(
                            m0,
                            *request,
                            lower_seq(header_name@),
                            n2,
                        )) implies !cache_has_header(
                        self.entries@,
                        *request,
                        lower_seq(header_name@),
                        n2,
                    ) by {
                        if cache_has_header(self.entries@, *request, lower_seq(header_name@), n2) {
                            let j = choose|j: int|
                                0 <= j < self.entries@.len() && entry_key_header(
                                    self.entries@[j],
                                    *request,
                                    lower_seq(header_name@),
                                ) && n2 < self.entries@[j].expiry;
                            if j != i {
                                assert(self.entries@[j] == m0[j]);
                            }
                        }
                    }
                    assert forall|n2: u64|
                        n2 < sat_add64(now, max_age as u64) implies cache_has_header(
                        self.entries@,
                        *request,
                        header_name@,
                        n2,
                    ) by {
                        assert(0 <= i < self.entries@.len() && entry_key_header(
                            self.entries@[i as int],
                            *request,
                            header_name@,
                        ) && n2 < self.entries@[i as int].expiry);
                    }
                }
                return r;
            }
            i = i + 1;
        }
        let entry = CORSCacheEntry {
            origin: clone_details_origin(request),
            url: request.destination.clone(),
            credentials: request.credentials,
            expiry,
            header_or_method: HeaderOrMethod::HeaderData(header_name.to_owned()),
        };
        self.entries.push(entry);
        proof {
            let k = self.entries@.len() - 1;
            assert forall|n2: u64|
                n2 < sat_add64(now, max_age as u64) implies cache_has_header(
                self.entries@,
                *request,
                header_name@,
                n2,
            ) by {
                assert(0 <= k < self.entries@.len() && entry_key_header(
                    self.entries@[k],
                    *request,
                    header_name@,
                ) && n2 < self.entries@[k].expiry);
            }
            assert forall|d2: CacheRequestDetails, t2: Seq<char>, n2: u64|
                cache_has_header(m0, d2, t2, n2) implies cache_has_header(
                self.entries@,
                d2,
                t2,
                n2,
            ) by {
                let j = choose|j: int|
                    0 <= j < m0.len() && entry_key_header(m0[j], d2, t2) && n2 < m0[j].expiry;
                assert(self.entries@[j] == m0[j]);
            }
            assert forall|d2: CacheRequestDetails, t2: Seq<char>, n2: u64|
                cache_has_method(m0, d2, t2, n2) == cache_has_method(
                self.entries@,
                d2,
                t2,
                n2,
            ) by {
                if cache_has_method(m0, d2, t2, n2) {
                    let j = choose|j: int|
                        0 <= j < m0.len() && entry_key_method(m0[j], d2, t2) && n2 < m0[j].expiry;
                    assert(self.entries@[j] == m0[j]);
                }
                if cache_has_method(self.entries@, d2, t2, n2) {
                    let j = choose|j: int|
                        0 <= j < self.entries@.len() && entry_key_method(self.entries@[j], d2, t2)
                            && n2 < self.entries@[j].expiry;
                    assert(j < m0.len() && self.entries@[j] == m0[j]);
                }
            }
            assert forall|n2: u64|
                (n2 >= expiry && !cache_has_header(m0, *request, lower_seq(header_name@), n2))
                    implies !cache_has_header(
                self.entries@,
                *request,
                lower_seq(header_name@),
                n2,
            ) by {
                if cache_has_header(self.entries@, *request, lower_seq(header_name@), n2) {
                    let j = choose|j: int|
                        0 <= j < self.entries@.len() && entry_key_header(
                            self.entries@[j],
                            *request,
                            lower_seq(header_name@),
                        ) && n2 < self.entries@[j].expiry;
                    if j < m0.len() {
                        assert(self.entries@[j] == m0[j]);
                    }
                }
            }
        }
        r
    }

    /// Drops every entry tied to the given destination URL.
    pub fn purge(&mut self, url: &Url)
        ensures
            forall|j: int|
                0 <= j < final(self).entries@.len() ==> (#[trigger] final(self).entries@[j]).url.model()
                    != url.model(),
    {
        let mut out: Vec<CORSCacheEntry> = Vec::new();
        while self.entries.len() > 0
            invariant
                forall|j: int|
                    0 <= j < out@.len() ==> (#[trigger] out@[j]).url.model() != url.model(),
            decreases self.entries@.len(),
        {
            let e = self.entries.remove(0);
            if !url_eq(&e.url, url) {
                out.push(e);
            }
        }
        self.entries = out;
    }
}

} // verus!
