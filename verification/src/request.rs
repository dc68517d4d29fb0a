//! The request type of the fetch engine and the small enums it carries.

use vstd::prelude::*;
use crate::headers::Headers;
use crate::strutil::str_eq;
use crate::urls::{Url, UrlOrigin};

verus! {

/// An HTTP method. Comparisons are byte-exact on the token.
pub enum Method {
    Get,
    Head,
    Post,
    Put,
    Delete,
    Options,
    Trace,
    Connect,
    Patch,
    Extension(String),
}

/// The token of a method.
pub open spec fn method_tok(m: Method) -> Seq<char> {
    match m {
        Method::Get => "GET"@,
        Method::Head => "HEAD"@,
        Method::Post => "POST"@,
        Method::Put => "PUT"@,
        Method::Delete => "DELETE"@,
        Method::Options => "OPTIONS"@,
        Method::Trace => "TRACE"@,
        Method::Connect => "CONNECT"@,
        Method::Patch => "PATCH"@,
        Method::Extension(t) => t@,
    }
}

impl Method {
    pub fn as_token(&self) -> (r: &str)
        ensures
            r@ == method_tok(*self),
    {
        match self {
            Method::Get => "GET",
            Method::Head => "HEAD",
            Method::Post => "POST",
            Method::Put => "PUT",
            Method::Delete => "DELETE",
            Method::Options => "OPTIONS",
            Method::Trace => "TRACE",
            Method::Connect => "CONNECT",
            Method::Patch => "PATCH",
            Method::Extension(t) => t.as_str(),
        }
    }
}

impl Clone for Method {
    fn clone(&self) -> (r: Self)
        ensures
            r == *self,
    {
        match self {
            Method::Get => Method::Get,
            Method::Head => Method::Head,
            Method::Post => Method::Post,
            Method::Put => Method::Put,
            Method::Delete => Method::Delete,
            Method::Options => Method::Options,
            Method::Trace => Method::Trace,
            Method::Connect => Method::Connect,
            Method::Patch => Method::Patch,
            Method::Extension(t) => Method::Extension(t.clone()),
        }
    }
}

/// Byte-exact method equality, on the tokens.
pub fn method_eq(a: &Method, b: &Method) -> (r: bool)
    ensures
        r == (method_tok(*a) == method_tok(*b)),
{
    str_eq(a.as_token(), b.as_token())
}

/// The origin a request acts under.
pub enum Origin {
    Client,
    Origin(UrlOrigin),
}

impl Clone for Origin {
    fn clone(&self) -> (r: Self)
        ensures
            origin_field_model(r) == origin_field_model(*self),
    {
        match self {
            Origin::Client => Origin::Client,
            Origin::Origin(o) => Origin::Origin(o.clone()),
        }
    }
}

/// The request origin as a mathematical value: `None` for the client
/// placeholder, otherwise the origin's model.
pub open spec fn origin_field_model(o: Origin) -> Option<crate::urls::OriginModel> {
    match o {
        Origin::Client => None,
        Origin::Origin(u) => Some(u.model()),
    }
}

/// The request's referrer.
pub enum Referer {
    NoReferer,
    Client,
    RefererUrl(Url),
}

impl Clone for Referer {
    fn clone(&self) -> (r: Self)
        ensures
            referer_model(r) == referer_model(*self),
    {
        match self {
            Referer::NoReferer => Referer::NoReferer,
            Referer::Client => Referer::Client,
            Referer::RefererUrl(u) => Referer::RefererUrl(u.clone()),
        }
    }
}

pub open spec fn referer_model(r: Referer) -> Option<Option<crate::urls::UrlModel>> {
    match r {
        Referer::NoReferer => Some(None),
        Referer::Client => None,
        Referer::RefererUrl(u) => Some(Some(u.model())),
    }
}

#[derive(Clone, Copy, PartialEq, Eq, Structural, Debug)]
pub enum RequestMode {
    Navigate,
    SameOrigin,
    NoCORS,
    CORSMode,
}

#[derive(Clone, Copy, PartialEq, Eq, Structural, Debug)]
pub enum CredentialsMode {
    Omit,
    CredentialsSameOrigin,
    Include,
}

#[derive(Clone, Copy, PartialEq, Eq, Structural, Debug)]
pub enum CacheMode {
    Default,
    NoStore,
    Reload,
    NoCache,
    ForceCache,
    OnlyIfCached,
}

#[derive(Clone, Copy, PartialEq, Eq, Structural, Debug)]
pub enum RedirectMode {
    Follow,
    Error,
    Manual,
}

#[derive(Clone, Copy, PartialEq, Eq, Structural, Debug)]
pub enum ResponseTainting {
    Basic,
    CORSTainting,
    Opaque,
}

/// What kind of resource the request is for; informs the default Accept.
#[derive(Clone, Copy, PartialEq, Eq, Structural, Debug)]
pub enum Type {
    NoType,
    Audio,
    Font,
    Image,
    Script,
    Style,
    Track,
    Video,
}

#[derive(Clone, Copy, PartialEq, Eq, Structural, Debug)]
pub enum Destination {
    NoDestination,
    Document,
    Image,
    Script,
    Style,
    Worker,
}

#[derive(Clone, Copy, PartialEq, Eq, Structural, Debug)]
pub enum Initiator {
    NoInitiator,
    Download,
    ImageSet,
    Manifest,
    XSLT,
}

#[derive(Clone, Copy, PartialEq, Eq, Structural, Debug)]
pub enum Window {
    NoWindow,
    Client,
}

/// A request, shared by every layer of one fetch.
pub struct Request {
    pub method: Method,
    pub local_urls_only: bool,
    pub body: Option<Vec<u8>>,
    pub is_service_worker_global_scope: bool,
    pub window: Window,
    pub skip_service_worker: bool,
    pub initiator: Initiator,
    pub type_: Type,
    pub destination: Destination,
    pub origin: Origin,
    pub omit_origin_header: bool,
    pub referer: Referer,
    pub synchronous: bool,
    pub mode: RequestMode,
    pub use_cors_preflight: bool,
    pub credentials_mode: CredentialsMode,
    pub use_url_credentials: bool,
    pub cache_mode: CacheMode,
    pub redirect_mode: RedirectMode,
    pub url_list: Vec<Url>,
    pub redirect_count: u32,
    pub response_tainting: ResponseTainting,
    pub same_origin_data: bool,
    pub unsafe_request: bool,
    pub is_subresource_request: bool,
    pub is_navigation_request: bool,
    pub headers: Headers,
}

impl Request {
    /// A fresh request on a URL, with every other field at its default.
    pub fn new(url: Url, origin: Option<Origin>, is_service_worker_global_scope: bool) -> (r:
        Request)
        ensures
            r.url_list@ == seq![url],
            r.method is Get,
            r.headers.model() =~= Seq::<(Seq<char>, Seq<char>)>::empty(),
            r.body is None,
            r.origin == (match origin {
                Some(o) => o,
                None => Origin::Client,
            }),
            r.referer is Client,
            r.mode is NoCORS,
            r.credentials_mode is Omit,
            r.cache_mode is Default,
            r.redirect_mode is Follow,
            r.response_tainting is Basic,
            r.type_ is NoType,
            r.destination is NoDestination,
            r.initiator is NoInitiator,
            r.window is Client,
            r.redirect_count == 0,
            r.is_service_worker_global_scope == is_service_worker_global_scope,
            !r.local_urls_only,
            !r.skip_service_worker,
            !r.omit_origin_header,
            !r.synchronous,
            !r.use_cors_preflight,
            !r.use_url_credentials,
            !r.same_origin_data,
            !r.unsafe_request,
            !r.is_subresource_request,
            !r.is_navigation_request,
    {
        let mut url_list: Vec<Url> = Vec::new();
        url_list.push(url);
        proof {
            assert(url_list@ =~= seq![url_list@[0]]);
        }
        Request {
            method: Method::Get,
            local_urls_only: false,
            body: None,
            is_service_worker_global_scope,
            window: Window::Client,
            skip_service_worker: false,
            initiator: Initiator::NoInitiator,
            type_: Type::NoType,
            destination: Destination::NoDestination,
            origin: match origin {
                Some(o) => o,
                None => Origin::Client,
            },
            omit_origin_header: false,
            referer: Referer::Client,
            synchronous: false,
            mode: RequestMode::NoCORS,
            use_cors_preflight: false,
            credentials_mode: CredentialsMode::Omit,
            use_url_credentials: false,
            cache_mode: CacheMode::Default,
            redirect_mode: RedirectMode::Follow,
            url_list,
            redirect_count: 0,
            response_tainting: ResponseTainting::Basic,
            same_origin_data: false,
            unsafe_request: false,
            is_subresource_request: false,
            is_navigation_request: false,
            headers: Headers::new(),
        }
    }

    /// The URL currently being fetched: the last of the URL list.
    pub fn current_url(&self) -> (r: &Url)
        requires
            self.url_list@.len() >= 1,
        ensures
            *r == self.url_list@.last(),
    {
        &self.url_list[self.url_list.len() - 1]
    }
}

} // verus!
