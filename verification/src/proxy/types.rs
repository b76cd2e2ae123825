//! A proxy address (protocol, host, port) and its textual URL form.
use vstd::prelude::*;
use crate::text::{decimal, push_decimal};

verus! {

/// The protocols a proxy can speak.
#[derive(Debug, PartialEq, Eq, Structural)]
pub enum ProxyProtocol {
    Http,
    Https,
    Socks4,
    Socks5,
}

impl Clone for ProxyProtocol {
    fn clone(&self) -> (r: Self)
        ensures
            r == *self,
    {
        match self {
            ProxyProtocol::Http => ProxyProtocol::Http,
            ProxyProtocol::Https => ProxyProtocol::Https,
            ProxyProtocol::Socks4 => ProxyProtocol::Socks4,
            ProxyProtocol::Socks5 => ProxyProtocol::Socks5,
        }
    }
}

/// The URL scheme that names a protocol.
pub open spec fn scheme_name(p: ProxyProtocol) -> Seq<char> {
    match p {
        ProxyProtocol::Http => "http"@,
        ProxyProtocol::Https => "https"@,
        ProxyProtocol::Socks4 => "socks4"@,
        ProxyProtocol::Socks5 => "socks5"@,
    }
}

/// The protocol a URL scheme names, if it is one of the four supported.
pub open spec fn protocol_of_scheme(s: Seq<char>) -> Option<ProxyProtocol> {
    if s == "http"@ {
        Some(ProxyProtocol::Http)
    } else if s == "https"@ {
        Some(ProxyProtocol::Https)
    } else if s == "socks4"@ {
        Some(ProxyProtocol::Socks4)
    } else if s == "socks5"@ {
        Some(ProxyProtocol::Socks5)
    } else {
        None
    }
}

impl ProxyProtocol {
    /// The URL scheme of this protocol.
    pub fn scheme(&self) -> (r: &'static str)
        ensures
            r@ == scheme_name(*self),
    {
        match self {
            ProxyProtocol::Http => "http",
            ProxyProtocol::Https => "https",
            ProxyProtocol::Socks4 => "socks4",
            ProxyProtocol::Socks5 => "socks5",
        }
    }

    /// The protocol named by `scheme`, if it is one of the four supported.
    pub fn from_scheme(scheme: &String) -> (r: Option<ProxyProtocol>)
        ensures
            r == protocol_of_scheme(scheme@),
    {
        if *scheme == String::from_str("http") {
            Some(ProxyProtocol::Http)
        } else if *scheme == String::from_str("https") {
            Some(ProxyProtocol::Https)
        } else if *scheme == String::from_str("socks4") {
            Some(ProxyProtocol::Socks4)
        } else if *scheme == String::from_str("socks5") {
            Some(ProxyProtocol::Socks5)
        } else {
            None
        }
    }
}

/// Each protocol's scheme names that protocol again, so the scheme that a
/// proxy's textual form starts with is read back as the same protocol.
pub proof fn lemma_scheme_round_trip(p: ProxyProtocol)
    ensures
        protocol_of_scheme(scheme_name(p)) == Some(p),
{
    reveal_strlit("http");
    reveal_strlit("https");
    reveal_strlit("socks4");
    reveal_strlit("socks5");
    assert("http"@.len() == 4 && "https"@.len() == 5 && "socks4"@.len() == 6 && "socks5"@.len() == 6);
    assert("http"@[0] != "socks4"@[0] && "https"@[0] != "socks5"@[0] && "http"@[0] != "socks5"@[0]);
    assert("socks4"@[5] != "socks5"@[5]);
}

/// A proxy: the protocol it speaks and where it listens.
#[derive(Debug)]
pub struct Proxy {
    pub protocol: ProxyProtocol,
    pub host: String,
    pub port: u16,
}

/// A proxy as a mathematical value.
pub struct ProxyView {
    pub protocol: ProxyProtocol,
    pub host: Seq<char>,
    pub port: u16,
}

impl View for Proxy {
    type V = ProxyView;

    open spec fn view(&self) -> ProxyView {
        ProxyView { protocol: self.protocol, host: self.host@, port: self.port }
    }
}

impl Clone for Proxy {
    fn clone(&self) -> (r: Self)
        ensures
            r == *self,
    {
        Proxy { protocol: self.protocol.clone(), host: self.host.clone(), port: self.port }
    }
}

/// What the proxy logic reads of a parsed URL: its scheme, its host (if it
/// has one) and its port, explicit or the scheme's known default.
pub struct UrlParts {
    pub scheme: String,
    pub host: Option<String>,
    pub port: Option<u16>,
}

impl View for UrlParts {
    type V = (Seq<char>, Option<Seq<char>>, Option<u16>);

    open spec fn view(&self) -> (Seq<char>, Option<Seq<char>>, Option<u16>) {
        (
            self.scheme@,
            match self.host {
                Some(h) => Some(h@),
                None => None,
            },
            self.port,
        )
    }
}

/// The scheme, host and port (explicit or the scheme's known default) of the
/// URL that `url::Url::parse` makes of `s`, or `None` where it refuses `s`.
pub uninterp spec fn url_parts(s: Seq<char>) -> Option<(Seq<char>, Option<Seq<char>>, Option<u16>)>;

/// `url::Url::parse` on `s`, read out through `Url::scheme`, `Url::host_str`
/// and `Url::port_or_known_default`. Claimed: the result is `url_parts(s@)`,
/// a function of `s` alone; what that value is on a given text is not stated.
#[verifier::external_body]
pub(crate) fn parse_url(s: &str) -> (r: Option<UrlParts>)
    ensures
        r matches Some(p) ==> url_parts(s@) == Some(p@),
        r is None ==> url_parts(s@) is None,
{
    match url::Url::parse(s) {
        Ok(u) => Some(
            UrlParts {
                scheme: u.scheme().to_string(),
                host: u.host_str().map(String::from),
                port: u.port_or_known_default(),
            },
        ),
        Err(_) => None,
    }
}

/// Why a text is no proxy.
#[derive(Debug, Clone, Copy, PartialEq, Eq, Structural)]
pub enum ProxyParseError {
    /// The text is no URL.
    InvalidUrl,
    /// The URL's scheme is none of http, https, socks4, socks5.
    UnsupportedProtocol,
}

/// Whether a proxy can be built from the parts without a missing host or
/// port: that holds unless the scheme is supported and host or port is absent.
pub open spec fn parts_complete(parts: Option<(Seq<char>, Option<Seq<char>>, Option<u16>)>) -> bool {
    match parts {
        None => true,
        Some((scheme, host, port)) => protocol_of_scheme(scheme) is Some ==> (host is Some
            && port is Some),
    }
}

/// The proxy that URL parts describe, or why they describe none.
pub open spec fn proxy_from_parts(parts: Option<(Seq<char>, Option<Seq<char>>, Option<u16>)>) -> Result<ProxyView, ProxyParseError> {
    match parts {
        None => Err(ProxyParseError::InvalidUrl),
        Some((scheme, host, port)) => match protocol_of_scheme(scheme) {
            None => Err(ProxyParseError::UnsupportedProtocol),
            Some(protocol) => Ok(ProxyView { protocol, host: host->0, port: port->0 }),
        },
    }
}

/// A parse result as a mathematical value.
pub open spec fn proxy_result_view(r: Result<Proxy, ProxyParseError>) -> Result<ProxyView, ProxyParseError> {
    match r {
        Ok(p) => Ok(p@),
        Err(e) => Err(e),
    }
}

/// The textual form of a proxy: `scheme://host:port`.
pub open spec fn proxy_text(p: ProxyView) -> Seq<char> {
    scheme_name(p.protocol) + "://"@ + p.host + ":"@ + decimal(p.port as nat)
}

/// URL parts that carry a proxy's own scheme, host and port describe that
/// proxy again.
pub proof fn lemma_parts_round_trip(p: ProxyView)
    ensures
        parts_complete(Some((scheme_name(p.protocol), Some(p.host), Some(p.port)))),
        proxy_from_parts(Some((scheme_name(p.protocol), Some(p.host), Some(p.port)))) == Ok::<
            ProxyView,
            ProxyParseError,
        >(p),
{
    lemma_scheme_round_trip(p.protocol);
}

impl Proxy {
    /// The proxy that URL parts describe, or why they describe none.
    pub fn from_url_parts(parts: Option<UrlParts>) -> (r: Result<Proxy, ProxyParseError>)
        requires
            parts_complete(
                match parts {
                    Some(p) => Some(p@),
                    None => None,
                },
            ),
        ensures
            proxy_result_view(r) == proxy_from_parts(
                match parts {
                    Some(p) => Some(p@),
                    None => None,
                },
            ),
    {
        match parts {
            None => Err(ProxyParseError::InvalidUrl),
            Some(p) => match ProxyProtocol::from_scheme(&p.scheme) {
                None => Err(ProxyParseError::UnsupportedProtocol),
                Some(protocol) => {
                    let host = match p.host {
                        Some(h) => h,
                        None => String::new(),
                    };
                    let port = match p.port {
                        Some(n) => n,
                        None => 0,
                    };
                    Ok(Proxy { protocol, host, port })
                },
            },
        }
    }

    /// The proxy written as the URL `s`. Where `s` names a supported
    /// protocol, its URL must have a host and a port (see `parse`).
    pub fn from_str(s: &str) -> (r: Result<Proxy, ProxyParseError>)
        requires
            parts_complete(url_parts(s@)),
        ensures
            proxy_result_view(r) == proxy_from_parts(url_parts(s@)),
    {
        let parts = parse_url(s);
        Proxy::from_url_parts(parts)
    }

    /// The proxy written as the URL `s`, or `None` where `s` names a supported
    /// protocol in a URL without host or without port.
    pub fn parse(s: &str) -> (r: Option<Result<Proxy, ProxyParseError>>)
        ensures
            r is None <==> !parts_complete(url_parts(s@)),
            r matches Some(x) ==> proxy_result_view(x) == proxy_from_parts(url_parts(s@)),
    {
        let parts = parse_url(s);
        let complete = match &parts {
            None => true,
            Some(p) => match ProxyProtocol::from_scheme(&p.scheme) {
                None => true,
                Some(_) => p.host.is_some() && p.port.is_some(),
            },
        };
        if complete {
            Some(Proxy::from_url_parts(parts))
        } else {
            None
        }
    }

    /// The proxy written as `scheme://host:port`.
    pub fn to_string(&self) -> (r: String)
        ensures
            r@ == proxy_text(self@),
    {
        let mut r = String::from_str(self.protocol.scheme());
        r.append("://");
        r.append(self.host.as_str());
        r.append(":");
        push_decimal(&mut r, self.port);
        r
    }
}

} // verus!
