//! Absolute URLs, their origins, and their serialization. Parsing and
//! reference resolution are the `url` crate's work, behind trusted wrappers.

use vstd::prelude::*;
use crate::strutil::{dec_str, str_eq, u64_to_dec, push_char};

verus! {

/// The parts of an absolute URL, as plain values.
pub struct Url {
    pub scheme: String,
    pub username: String,
    pub password: Option<String>,
    pub host: String,
    pub port: Option<u16>,
    pub path: String,
    pub query: Option<String>,
    pub fragment: Option<String>,
}

/// The mathematical image of a URL.
pub struct UrlModel {
    pub scheme: Seq<char>,
    pub username: Seq<char>,
    pub password: Option<Seq<char>>,
    pub host: Seq<char>,
    pub port: Option<u16>,
    pub path: Seq<char>,
    pub query: Option<Seq<char>>,
    pub fragment: Option<Seq<char>>,
}

pub open spec fn opt_view(o: Option<String>) -> Option<Seq<char>> {
    match o {
        Some(s) => Some(s@),
        None => None,
    }
}

impl Url {
    pub open spec fn model(self) -> UrlModel {
        UrlModel {
            scheme: self.scheme@,
            username: self.username@,
            password: opt_view(self.password),
            host: self.host@,
            port: self.port,
            path: self.path@,
            query: opt_view(self.query),
            fragment: opt_view(self.fragment),
        }
    }
}

fn clone_opt_string(o: &Option<String>) -> (r: Option<String>)
    ensures
        opt_view(r) == opt_view(*o),
{
    match o {
        Some(s) => Some(s.clone()),
        None => None,
    }
}

impl Clone for Url {
    fn clone(&self) -> (r: Self)
        ensures
            r.model() == self.model(),
    {
        Url {
            scheme: self.scheme.clone(),
            username: self.username.clone(),
            password: clone_opt_string(&self.password),
            host: self.host.clone(),
            port: self.port,
            path: self.path.clone(),
            query: clone_opt_string(&self.query),
            fragment: clone_opt_string(&self.fragment),
        }
    }
}

/// The default port of the schemes that have one.
pub open spec fn default_port(scheme: Seq<char>) -> Option<u16> {
    if scheme == "http"@ || scheme == "ws"@ {
        Some(80u16)
    } else if scheme == "https"@ || scheme == "wss"@ {
        Some(443u16)
    } else if scheme == "ftp"@ {
        Some(21u16)
    } else {
        None
    }
}

/// Whether a scheme's URLs carry an authority-based origin.
pub open spec fn has_tuple_origin(scheme: Seq<char>) -> bool {
    scheme == "http"@ || scheme == "https"@ || scheme == "ws"@ || scheme == "wss"@ || scheme
        == "ftp"@
}

/// An origin: `None` is an opaque origin, `Some` a (scheme, host, port) tuple.
pub type OriginModel = Option<(Seq<char>, Seq<char>, u16)>;

/// The origin of a URL: a tuple for the network schemes, opaque otherwise.
pub open spec fn url_origin(u: UrlModel) -> OriginModel {
    if has_tuple_origin(u.scheme) {
        Some(
            (
                u.scheme,
                u.host,
                match u.port {
                    Some(p) => p,
                    None => match default_port(u.scheme) {
                        Some(d) => d,
                        None => 0u16,
                    },
                },
            ),
        )
    } else {
        None
    }
}

/// A URL origin value: opaque, or a (scheme, host, port) tuple.
pub enum UrlOrigin {
    Opaque,
    Tuple { scheme: String, host: String, port: u16 },
}

impl UrlOrigin {
    pub open spec fn model(self) -> OriginModel {
        match self {
            UrlOrigin::Opaque => None,
            UrlOrigin::Tuple { scheme, host, port } => Some((scheme@, host@, port)),
        }
    }
}

impl Clone for UrlOrigin {
    fn clone(&self) -> (r: Self)
        ensures
            r.model() == self.model(),
    {
        match self {
            UrlOrigin::Opaque => UrlOrigin::Opaque,
            UrlOrigin::Tuple { scheme, host, port } => UrlOrigin::Tuple {
                scheme: scheme.clone(),
                host: host.clone(),
                port: *port,
            },
        }
    }
}

/// Whether two origins are the same: tuples equal field by field; an opaque
/// origin is the same as nothing, itself not excepted.
pub open spec fn same_origin(a: OriginModel, b: OriginModel) -> bool {
    match (a, b) {
        (Some(x), Some(y)) => x == y,
        _ => false,
    }
}

pub fn origin_eq(a: &UrlOrigin, b: &UrlOrigin) -> (r: bool)
    ensures
        r == same_origin(a.model(), b.model()),
{
    match (a, b) {
        (
            UrlOrigin::Tuple { scheme: s1, host: h1, port: p1 },
            UrlOrigin::Tuple { scheme: s2, host: h2, port: p2 },
        ) => str_eq(s1.as_str(), s2.as_str()) && str_eq(h1.as_str(), h2.as_str()) && *p1 == *p2,
        _ => false,
    }
}

/// Value equality of origins; unlike `same_origin`, two opaque values are
/// equal here.
pub fn origin_value_eq(a: &UrlOrigin, b: &UrlOrigin) -> (r: bool)
    ensures
        r == (a.model() == b.model()),
{
    match (a, b) {
        (UrlOrigin::Opaque, UrlOrigin::Opaque) => true,
        (
            UrlOrigin::Tuple { scheme: s1, host: h1, port: p1 },
            UrlOrigin::Tuple { scheme: s2, host: h2, port: p2 },
        ) => str_eq(s1.as_str(), s2.as_str()) && str_eq(h1.as_str(), h2.as_str()) && *p1 == *p2,
        _ => false,
    }
}

impl Url {
    /// The origin of this URL; opaque origins are fresh, so the returned
    /// value stands for one that equals no other.
    pub fn origin(&self) -> (r: UrlOrigin)
        ensures
            r.model() == url_origin(self.model()),
    {
        if str_eq(self.scheme.as_str(), "http") || str_eq(self.scheme.as_str(), "https") || str_eq(
            self.scheme.as_str(),
            "ws",
        ) || str_eq(self.scheme.as_str(), "wss") || str_eq(self.scheme.as_str(), "ftp") {
            let port: u16 = match self.port {
                Some(p) => p,
                None => {
                    if str_eq(self.scheme.as_str(), "http") || str_eq(self.scheme.as_str(), "ws") {
                        80
                    } else if str_eq(self.scheme.as_str(), "https") || str_eq(
                        self.scheme.as_str(),
                        "wss",
                    ) {
                        443
                    } else {
                        21
                    }
                },
            };
            UrlOrigin::Tuple { scheme: self.scheme.clone(), host: self.host.clone(), port }
        } else {
            UrlOrigin::Opaque
        }
    }
}

/// The ASCII serialization of an origin: opaque origins read "null"; a tuple
/// reads scheme://host, with the port when it is not the scheme's default.
pub open spec fn origin_ascii(o: OriginModel) -> Seq<char> {
    match o {
        None => seq!['n', 'u', 'l', 'l'],
        Some((s, h, p)) => s + seq![':', '/', '/'] + h + (if default_port(s) == Some(p) {
            Seq::<char>::empty()
        } else {
            seq![':'] + dec_str(p as nat)
        }),
    }
}

pub fn origin_ascii_serialization(o: &UrlOrigin) -> (r: String)
    ensures
        r@ == origin_ascii(o.model()),
{
    match o {
        UrlOrigin::Opaque => {
            let mut out = String::new();
            push_char(&mut out, 'n');
            push_char(&mut out, 'u');
            push_char(&mut out, 'l');
            push_char(&mut out, 'l');
            proof {
                assert(out@ =~= seq!['n', 'u', 'l', 'l']);
            }
            out
        },
        UrlOrigin::Tuple { scheme, host, port } => {
            let mut out = String::new();
            out.append(scheme.as_str());
            push_char(&mut out, ':');
            push_char(&mut out, '/');
            push_char(&mut out, '/');
            out.append(host.as_str());
            let is_default = if str_eq(scheme.as_str(), "http") || str_eq(scheme.as_str(), "ws") {
                *port == 80
            } else if str_eq(scheme.as_str(), "https") || str_eq(scheme.as_str(), "wss") {
                *port == 443
            } else if str_eq(scheme.as_str(), "ftp") {
                *port == 21
            } else {
                false
            };
            if !is_default {
                push_char(&mut out, ':');
                let p = u64_to_dec(*port as u64);
                out.append(p.as_str());
            }
            proof {
                assert(out@ =~= origin_ascii(o.model()));
            }
            out
        },
    }
}

/// The serialization of a URL from its parts: scheme, then the authority
/// when a host is present, then path, query and fragment.
pub open spec fn url_ser(u: UrlModel) -> Seq<char> {
    u.scheme + seq![':'] + (if u.host.len() > 0 {
        seq!['/', '/'] + (if u.username.len() > 0 || u.password is Some {
            u.username + (match u.password {
                Some(p) => seq![':'] + p,
                None => Seq::<char>::empty(),
            }) + seq!['@']
        } else {
            Seq::<char>::empty()
        }) + u.host + (match u.port {
            Some(p) => seq![':'] + dec_str(p as nat),
            None => Seq::<char>::empty(),
        })
    } else {
        Seq::<char>::empty()
    }) + u.path + (match u.query {
        Some(q) => seq!['?'] + q,
        None => Seq::<char>::empty(),
    }) + (match u.fragment {
        Some(f) => seq!['#'] + f,
        None => Seq::<char>::empty(),
    })
}

impl Url {
    /// Writes the URL back out as text.
    #[verifier::rlimit(100)]
    pub fn serialize(&self) -> (r: String)
        ensures
            r@ == url_ser(self.model()),
    {
        let mut out = String::new();
        out.append(self.scheme.as_str());
        push_char(&mut out, ':');
        if !self.host.as_str().is_empty() {
            push_char(&mut out, '/');
            push_char(&mut out, '/');
            let has_userinfo = !self.username.as_str().is_empty() || match &self.password {
                Some(_) => true,
                None => false,
            };
            if has_userinfo {
                out.append(self.username.as_str());
                match &self.password {
                    Some(p) => {
                        push_char(&mut out, ':');
                        out.append(p.as_str());
                    },
                    None => {},
                }
                push_char(&mut out, '@');
            }
            out.append(self.host.as_str());
            match self.port {
                Some(p) => {
                    push_char(&mut out, ':');
                    let d = u64_to_dec(p as u64);
                    out.append(d.as_str());
                },
                None => {},
            }
        }
        out.append(self.path.as_str());
        match &self.query {
            Some(q) => {
                push_char(&mut out, '?');
                out.append(q.as_str());
            },
            None => {},
        }
        match &self.fragment {
            Some(f) => {
                push_char(&mut out, '#');
                out.append(f.as_str());
            },
            None => {},
        }
        proof {
            assert(out@ =~= url_ser(self.model()));
        }
        out
    }
}

/// What the `url` crate's parser makes of a string, if anything.
pub uninterp spec fn url_parse_of(s: Seq<char>) -> Option<UrlModel>;

/// What the `url` crate makes of a reference resolved against a base.
pub uninterp spec fn url_join_of(base: Seq<char>, reference: Seq<char>) -> Option<UrlModel>;

/// Relies on url::Url::parse and its accessors: parses an absolute URL as
/// the WHATWG URL standard says and hands back its parts.
#[verifier::external_body]
pub fn parse_url(s: &str) -> (r: Option<Url>)
    ensures
        match r {
            Some(u) => url_parse_of(s@) == Some(u.model()),
            None => url_parse_of(s@) is None,
        },
{
    match url::Url::parse(s) {
        Ok(u) => Some(Url {
            scheme: u.scheme().to_string(), username: u.username().to_string(),
            password: u.password().map(|p| p.to_string()), host: u.host_str().unwrap_or("").to_string(),
            port: u.port(), path: u.path().to_string(),
            query: u.query().map(|q| q.to_string()), fragment: u.fragment().map(|f| f.to_string()),
        }),
        Err(_) => None,
    }
}

/// Relies on url::Url::parse and url::Url::join: resolves `location` against
/// the serialized absolute URL `base` and hands back the parts of the result.
#[verifier::external_body]
pub fn join_url(base: &str, location: &str) -> (r: Option<Url>)
    ensures
        match r {
            Some(u) => url_join_of(base@, location@) == Some(u.model()),
            None => url_join_of(base@, location@) is None,
        },
{
    let b = match url::Url::parse(base) {
        Ok(u) => u,
        Err(_) => return None,
    };
    let u = match b.join(location) {
        Ok(u) => u,
        Err(_) => return None,
    };
    Some(Url {
        scheme: u.scheme().to_string(), username: u.username().to_string(),
        password: u.password().map(|p| p.to_string()), host: u.host_str().unwrap_or("").to_string(),
        port: u.port(), path: u.path().to_string(),
        query: u.query().map(|q| q.to_string()), fragment: u.fragment().map(|f| f.to_string()),
    })
}

} // verus!
