//! Responses, network errors, and the filters that hide cross-origin data.

use vstd::prelude::*;
use crate::headers::{hkey, hm_remove, Headers};
use crate::urls::{Url, UrlModel};

verus! {

#[derive(Clone, Copy, PartialEq, Eq, Structural, Debug)]
pub enum ResponseType {
    Default,
    Basic,
    CORS,
    Opaque,
    OpaqueRedirect,
    Error,
}

#[derive(Clone, Copy, PartialEq, Eq, Structural, Debug)]
pub enum TerminationReason {
    EndOfStream,
    Fatal,
}

#[derive(Clone, Copy, PartialEq, Eq, Structural, Debug)]
pub enum HttpsState {
    Modern,
    Deprecated,
    NoHttps,
}

/// A response body: not yet started, arriving, or complete.
pub enum ResponseBody {
    Empty,
    Receiving(Vec<u8>),
    Done(Vec<u8>),
}

/// The bytes of a complete body.
pub open spec fn body_bytes(b: ResponseBody) -> Option<Seq<u8>> {
    match b {
        ResponseBody::Done(v) => Some(v@),
        _ => None,
    }
}

/// Whether two bodies are in the same state with the same bytes.
pub open spec fn body_eq(a: ResponseBody, b: ResponseBody) -> bool {
    match (a, b) {
        (ResponseBody::Empty, ResponseBody::Empty) => true,
        (ResponseBody::Receiving(x), ResponseBody::Receiving(y)) => x@ == y@,
        (ResponseBody::Done(x), ResponseBody::Done(y)) => x@ == y@,
        _ => false,
    }
}

pub fn clone_bytes(v: &Vec<u8>) -> (r: Vec<u8>)
    ensures
        r@ == v@,
{
    let mut out: Vec<u8> = Vec::new();
    let mut i: usize = 0;
    while i < v.len()
        invariant
            i <= v@.len(),
            out@.len() == i,
            forall|j: int| 0 <= j < i ==> out@[j] == v@[j],
        decreases v@.len() - i,
    {
        out.push(v[i]);
        i = i + 1;
    }
    proof {
        assert(out@ =~= v@);
    }
    out
}

pub fn clone_body(b: &ResponseBody) -> (r: ResponseBody)
    ensures
        body_eq(r, *b),
{
    match b {
        ResponseBody::Empty => ResponseBody::Empty,
        ResponseBody::Receiving(v) => ResponseBody::Receiving(clone_bytes(v)),
        ResponseBody::Done(v) => ResponseBody::Done(clone_bytes(v)),
    }
}

/// The models of a list of URLs.
pub open spec fn urls_model(s: Seq<Url>) -> Seq<UrlModel> {
    Seq::new(s.len(), |i: int| s[i].model())
}

pub fn clone_urls(v: &Vec<Url>) -> (r: Vec<Url>)
    ensures
        urls_model(r@) == urls_model(v@),
{
    let mut out: Vec<Url> = Vec::new();
    let mut i: usize = 0;
    while i < v.len()
        invariant
            i <= v@.len(),
            out@.len() == i,
            forall|j: int| 0 <= j < i ==> out@[j].model() == v@[j].model(),
        decreases v@.len() - i,
    {
        out.push(v[i].clone());
        i = i + 1;
    }
    proof {
        assert(urls_model(out@) =~= urls_model(v@));
    }
    out
}

fn clone_opt_url(o: &Option<Url>) -> (r: Option<Url>)
    ensures
        match (r, *o) {
            (Some(a), Some(b)) => a.model() == b.model(),
            (None, None) => true,
            _ => false,
        },
{
    match o {
        Some(u) => Some(u.clone()),
        None => None,
    }
}

/// A response. A filtered response keeps the unfiltered one in
/// `internal_response`; while `return_internal` holds, the algorithms read
/// through the filter.
pub struct Response {
    pub url: Option<Url>,
    pub status: Option<u16>,
    pub headers: Headers,
    pub body: ResponseBody,
    pub url_list: Vec<Url>,
    pub response_type: ResponseType,
    pub termination_reason: Option<TerminationReason>,
    pub https_state: HttpsState,
    pub internal_response: Option<Box<Response>>,
    pub return_internal: bool,
}

/// The header names a cross-origin filtered response may expose.
pub open spec fn cors_header_allowed(name: Seq<char>) -> bool {
    hkey(name) == hkey("cache-control"@) || hkey(name) == hkey("content-language"@) || hkey(name)
        == hkey("content-type"@) || hkey(name) == hkey("expires"@) || hkey(name) == hkey(
        "last-modified"@,
    ) || hkey(name) == hkey("pragma"@)
}

/// The headers kept by the CORS filter, in order.
pub open spec fn hm_keep_cors(m: Seq<(Seq<char>, Seq<char>)>) -> Seq<(Seq<char>, Seq<char>)>
    decreases m.len(),
{
    if m.len() == 0 {
        Seq::empty()
    } else if cors_header_allowed(m[0].0) {
        seq![m[0]] + hm_keep_cors(m.drop_first())
    } else {
        hm_keep_cors(m.drop_first())
    }
}

pub proof fn lemma_hm_keep_cors_push(m: Seq<(Seq<char>, Seq<char>)>, e: (Seq<char>, Seq<char>))
    ensures
        hm_keep_cors(m.push(e)) == (if cors_header_allowed(e.0) {
            hm_keep_cors(m).push(e)
        } else {
            hm_keep_cors(m)
        }),
    decreases m.len(),
{
    if m.len() == 0 {
        assert(m.push(e)[0] == e);
        assert(m.push(e).drop_first() =~= m);
        if cors_header_allowed(e.0) {
            assert(seq![e] + hm_keep_cors(m) =~= hm_keep_cors(m).push(e));
        }
    } else {
        assert(m.push(e).drop_first() =~= m.drop_first().push(e));
        lemma_hm_keep_cors_push(m.drop_first(), e);
        if cors_header_allowed(m[0].0) {
            if cors_header_allowed(e.0) {
                assert(seq![m[0]] + hm_keep_cors(m.drop_first()).push(e) =~= (seq![m[0]]
                    + hm_keep_cors(m.drop_first())).push(e));
            }
        }
    }
}

/// The headers of a Basic filtered response: cookie-setting headers hidden.
pub open spec fn basic_filtered_headers(m: Seq<(Seq<char>, Seq<char>)>) -> Seq<
    (Seq<char>, Seq<char>),
> {
    hm_remove(hm_remove(m, "set-cookie"@), "set-cookie2"@)
}

/// The Basic filter hides only the cookie-setting headers; Content-Type
/// answers as before.
pub proof fn lemma_basic_filter_keeps_content_type(m: Seq<(Seq<char>, Seq<char>)>)
    ensures
        crate::headers::hm_value(basic_filtered_headers(m), "content-type"@)
            == crate::headers::hm_value(m, "content-type"@),
{
    reveal_strlit("content-type");
    reveal_strlit("set-cookie");
    reveal_strlit("set-cookie2");
    assert(hkey("content-type"@).len() == 12);
    assert(hkey("set-cookie"@).len() == 10);
    assert(hkey("set-cookie2"@).len() == 11);
    crate::headers::lemma_hm_value_remove(m, "set-cookie"@, "content-type"@);
    crate::headers::lemma_hm_value_remove(hm_remove(m, "set-cookie"@), "set-cookie2"@, "content-type"@);
}

fn cors_filter_headers(h: &Headers) -> (r: Headers)
    ensures
        r.model() == hm_keep_cors(h.model()),
{
    let ghost m = h.model();
    let mut out = Headers::new();
    proof {
        assert(m.subrange(0, 0) =~= Seq::<(Seq<char>, Seq<char>)>::empty());
        assert(out.model() =~= hm_keep_cors(m.subrange(0, 0)));
    }
    let mut i: usize = 0;
    while i < h.len()
        invariant
            m == h.model(),
            i <= m.len(),
            out.model() == hm_keep_cors(m.subrange(0, i as int)),
        decreases m.len() - i,
    {
        let ghost pm = m.subrange(0, i as int);
        let name = h.name_at(i);
        let keep = crate::strutil::str_eq_ci(name.as_str(), "cache-control")
            || crate::strutil::str_eq_ci(name.as_str(), "content-language")
            || crate::strutil::str_eq_ci(name.as_str(), "content-type")
            || crate::strutil::str_eq_ci(name.as_str(), "expires")
            || crate::strutil::str_eq_ci(name.as_str(), "last-modified")
            || crate::strutil::str_eq_ci(name.as_str(), "pragma");
        if keep {
            let ghost oldout = out.model();
            let value = h.value_at(i).clone();
            let nm = name.clone();
            out.items.push(crate::headers::Header { name: nm, value });
            proof {
                lemma_hm_keep_cors_push(pm, m[i as int]);
                assert(m.subrange(0, i + 1) =~= pm.push(m[i as int]));
                assert(out.model() =~= oldout.push(m[i as int]));
            }
        } else {
            proof {
                lemma_hm_keep_cors_push(pm, m[i as int]);
                assert(m.subrange(0, i + 1) =~= pm.push(m[i as int]));
            }
        }
        i = i + 1;
    }
    proof {
        assert(m.subrange(0, m.len() as int) =~= m);
    }
    out
}

impl Response {
    /// A plain fresh response: status 200, nothing else set.
    pub fn new() -> (r: Response)
        ensures
            r.url is None,
            r.status == Some(200u16),
            r.headers.model() =~= Seq::<(Seq<char>, Seq<char>)>::empty(),
            r.body is Empty,
            r.url_list@.len() == 0,
            r.response_type is Default,
            r.termination_reason is None,
            r.https_state is NoHttps,
            r.internal_response is None,
            r.return_internal,
    {
        Response {
            url: None,
            status: Some(200),
            headers: Headers::new(),
            body: ResponseBody::Empty,
            url_list: Vec::new(),
            response_type: ResponseType::Default,
            termination_reason: None,
            https_state: HttpsState::NoHttps,
            internal_response: None,
            return_internal: true,
        }
    }

    /// The sentinel that every failure collapses to.
    pub fn network_error() -> (r: Response)
        ensures
            r.response_type is Error,
            r.status is None,
            r.url is None,
            r.headers.model() =~= Seq::<(Seq<char>, Seq<char>)>::empty(),
            r.body is Empty,
            r.url_list@.len() == 0,
            r.internal_response is None,
            r.return_internal,
    {
        Response {
            url: None,
            status: None,
            headers: Headers::new(),
            body: ResponseBody::Empty,
            url_list: Vec::new(),
            response_type: ResponseType::Error,
            termination_reason: None,
            https_state: HttpsState::NoHttps,
            internal_response: None,
            return_internal: true,
        }
    }

    pub open spec fn spec_is_network_error(&self) -> bool {
        self.response_type is Error
    }

    /// Whether this is the failure sentinel.
    #[verifier::when_used_as_spec(spec_is_network_error)]
    pub fn is_network_error(&self) -> (r: bool)
        ensures
            r == self.spec_is_network_error(),
    {
        matches!(self.response_type, ResponseType::Error)
    }

    /// The response the algorithms read: the internal one while the filter
    /// is set to hand it through, otherwise the response itself.
    pub open spec fn actual(self) -> Response {
        if self.return_internal {
            match self.internal_response {
                Some(b) => *b,
                None => self,
            }
        } else {
            self
        }
    }

    pub fn actual_response(&self) -> (r: &Response)
        ensures
            *r == self.actual(),
    {
        if self.return_internal {
            match &self.internal_response {
                Some(b) => &**b,
                None => self,
            }
        } else {
            self
        }
    }

    /// Wraps the response in a filter of the given kind. The unfiltered
    /// response is kept whole as the internal response; what the wrapper
    /// itself shows depends on the kind: Basic hides cookie-setting headers,
    /// CORS shows only the safelisted headers, Opaque and OpaqueRedirect
    /// hide nearly everything.
    pub fn to_filtered(self, filter_type: ResponseType) -> (r: Response)
        requires
            self.response_type is Default,
            filter_type is Basic || filter_type is CORS || filter_type is Opaque || filter_type
                is OpaqueRedirect,
        ensures
            r.response_type == filter_type,
            r.return_internal,
            r.actual() == self,
            filter_type is Basic ==> r.status == self.status && r.headers.model()
                == basic_filtered_headers(self.headers.model()) && body_eq(r.body, self.body),
            filter_type is CORS ==> r.status == self.status && r.headers.model() == hm_keep_cors(
                self.headers.model(),
            ) && body_eq(r.body, self.body),
            filter_type is Opaque ==> r.status is None && r.url is None && r.headers.model()
                =~= Seq::<(Seq<char>, Seq<char>)>::empty() && r.body is Empty,
            filter_type is OpaqueRedirect ==> r.status is None && opt_url_model(r.url)
                == opt_url_model(self.url) && r.headers.model() =~= Seq::<
                (Seq<char>, Seq<char>),
            >::empty() && r.body is Empty,
    {
        let url = clone_opt_url(&self.url);
        let url_list = clone_urls(&self.url_list);
        let https_state = self.https_state;
        let (status, headers, body, out_url, out_url_list) = match filter_type {
            ResponseType::Basic => {
                let mut h = self.headers.clone();
                h.remove("set-cookie");
                h.remove("set-cookie2");
                (self.status, h, clone_body(&self.body), url, url_list)
            },
            ResponseType::CORS => {
                let h = cors_filter_headers(&self.headers);
                (self.status, h, clone_body(&self.body), url, url_list)
            },
            ResponseType::OpaqueRedirect => {
                (None, Headers::new(), ResponseBody::Empty, url, Vec::new())
            },
            _ => (None, Headers::new(), ResponseBody::Empty, None, Vec::new()),
        };
        Response {
            url: out_url,
            status,
            headers,
            body,
            url_list: out_url_list,
            response_type: filter_type,
            termination_reason: None,
            https_state,
            internal_response: Some(Box::new(self)),
            return_internal: true,
        }
    }
}

/// The model of an optional URL.
pub open spec fn opt_url_model(o: Option<Url>) -> Option<UrlModel> {
    match o {
        Some(u) => Some(u.model()),
        None => None,
    }
}

} // verus!
