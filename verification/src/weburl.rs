//! Web addresses as plain values.
//!
//! Parsing and resolving addresses is the work of the `url` crate. The library keeps of a parsed
//! address the parts that its rules read.

use vstd::prelude::*;
use vstd::string::*;
use vstd::utf8::is_ascii_chars;

use crate::number::{decimal, push_decimal};
use crate::text::{
    after_last, after_last_separator, law_last_separator, lower, opt_view, str_eq, to_lower,
};

verus! {

/// The parts of a parsed address.
#[verifier::ext_equal]
pub struct UrlParts {
    /// The serialized address.
    pub href: Seq<char>,
    pub scheme: Seq<char>,
    /// The host, be it a domain or an address.
    pub host: Option<Seq<char>>,
    /// The host where it is a domain.
    pub domain: Option<Seq<char>>,
    /// The port where it is not the scheme's own.
    pub port: Option<u16>,
    pub path: Seq<char>,
    pub query: Option<Seq<char>>,
}

/// A parsed address.
pub struct WebUrl {
    pub href: String,
    pub scheme: String,
    pub host: Option<String>,
    pub domain: Option<String>,
    pub port: Option<u16>,
    pub path: String,
    pub query: Option<String>,
}

impl View for WebUrl {
    type V = UrlParts;

    open spec fn view(&self) -> UrlParts {
        UrlParts {
            href: self.href@,
            scheme: self.scheme@,
            host: opt_view(self.host),
            domain: opt_view(self.domain),
            port: self.port,
            path: self.path@,
            query: opt_view(self.query),
        }
    }
}

pub open spec fn url_result(r: Result<WebUrl, String>) -> Result<UrlParts, Seq<char>> {
    match r {
        Ok(u) => Ok(u@),
        Err(e) => Err(e@),
    }
}

/// What `url::Url::parse` makes of a text: the parts of the address, or the message of its error.
pub uninterp spec fn url_parsed(text: Seq<char>) -> Result<UrlParts, Seq<char>>;

/// What `url::Url::join` makes of a reference against the address that `base` denotes.
pub uninterp spec fn url_joined(base: Seq<char>, reference: Seq<char>) -> Result<
    UrlParts,
    Seq<char>,
>;

/// The path and the query of an address are percent-encoded and thereby ASCII.
pub open spec fn ascii_parts(u: UrlParts) -> bool {
    &&& is_ascii_chars(u.path)
    &&& u.query matches Some(q) ==> is_ascii_chars(q)
}

/// `url::Url::parse`, with the parts read off by `as_str`, `scheme`, `host_str`, `domain`, `port`,
/// `path` and `query`. The result has a name; of its parts it is said that `path` and `query` are
/// ASCII, as the documentation of these two functions states.
#[verifier::external_body]
pub(crate) fn parse_url(text: &str) -> (r: Result<WebUrl, String>)
    ensures
        url_result(r) == url_parsed(text@),
        r matches Ok(u) ==> ascii_parts(u@),
{
    let u = url::Url::parse(text).map_err(|e| e.to_string())?;
    Ok(WebUrl {
        href: u.as_str().to_string(),
        scheme: u.scheme().to_string(),
        host: u.host_str().map(str::to_string),
        domain: u.domain().map(str::to_string),
        port: u.port(),
        path: u.path().to_string(),
        query: u.query().map(str::to_string),
    })
}

/// `url::Url::join` on the address that `base` denotes, with the parts read off as in
/// `parse_url`. The result has a name.
#[verifier::external_body]
pub(crate) fn join_url(base: &str, reference: &str) -> (r: Result<WebUrl, String>)
    ensures
        url_result(r) == url_joined(base@, reference@),
        r matches Ok(u) ==> ascii_parts(u@),
{
    let u = url::Url::parse(base).and_then(|b| b.join(reference)).map_err(|e| e.to_string())?;
    Ok(WebUrl {
        href: u.as_str().to_string(),
        scheme: u.scheme().to_string(),
        host: u.host_str().map(str::to_string),
        domain: u.domain().map(str::to_string),
        port: u.port(),
        path: u.path().to_string(),
        query: u.query().map(str::to_string),
    })
}

impl WebUrl {
    /// Parses an address.
    pub fn parse(text: &str) -> (r: Result<WebUrl, String>)
        ensures
            url_result(r) == url_parsed(text@),
            r matches Ok(u) ==> ascii_parts(u@),
    {
        parse_url(text)
    }

    /// A copy of the address.
    pub fn copy(&self) -> (r: WebUrl)
        ensures
            r == *self,
    {
        WebUrl {
            href: self.href.clone(),
            scheme: self.scheme.clone(),
            host: self.host.clone(),
            domain: self.domain.clone(),
            port: self.port,
            path: self.path.clone(),
            query: self.query.clone(),
        }
    }
}

/// Whether the scheme is one of the web.
pub open spec fn is_web_scheme(scheme: Seq<char>) -> bool {
    scheme == "http"@ || scheme == "https"@
}

pub fn has_web_scheme(u: &WebUrl) -> (r: bool)
    ensures
        r == is_web_scheme(u@.scheme),
{
    str_eq(u.scheme.as_str(), "http") || str_eq(u.scheme.as_str(), "https")
}

/// The part of the path behind its last dot, in lower case.
pub open spec fn path_extension(path: Seq<char>) -> Seq<char> {
    lower(after_last(path, '.'))
}

pub fn path_extension_of(u: &WebUrl) -> (r: String)
    ensures
        r@ == path_extension(u@.path),
{
    to_lower(after_last_separator(u.path.as_str(), '.').as_str())
}

/// The host, followed by a colon and the port where there is one; `fallback` without a host.
pub open spec fn host_with_port(u: UrlParts, fallback: Seq<char>) -> Seq<char> {
    match (u.host, u.port) {
        (Some(host), Some(port)) => host + ":"@ + decimal(port as int),
        (Some(host), None) => host,
        (None, _) => fallback,
    }
}

pub fn url_host_with_port(u: &WebUrl, fallback: &str) -> (r: String)
    ensures
        r@ == host_with_port(u@, fallback@),
{
    match &u.host {
        Some(host) => match u.port {
            Some(port) => {
                let mut out: String = host.clone();
                out.append(":");
                push_decimal(&mut out, port as i64);
                out
            },
            None => host.clone(),
        },
        None => fallback.to_owned(),
    }
}

/// The host in lower case, or nothing.
pub open spec fn lower_host(u: UrlParts) -> Seq<char> {
    match u.host {
        Some(host) => lower(host),
        None => Seq::empty(),
    }
}

pub fn lower_host_of(u: &WebUrl) -> (r: String)
    ensures
        r@ == lower_host(u@),
{
    match &u.host {
        Some(host) => to_lower(host.as_str()),
        None => String::new(),
    }
}

/// The host of an address in texts: with the port where one is given.
pub proof fn law_hosts_with_ports(u: UrlParts, fallback: Seq<char>)
    ensures
        u.host matches Some(h) ==> u.port is None ==> host_with_port(u, fallback) == h,
        u.host matches Some(h) ==> u.port matches Some(p) ==> host_with_port(u, fallback) == h
            + ":"@ + decimal(p as int),
        u.host is None ==> host_with_port(u, fallback) == fallback,
        u.host matches Some(h) ==> lower_host(u) == lower(h),
        u.host is None ==> lower_host(u).len() == 0,
{
}

/// The schemes of the web, and the extension of a path: what stands behind its last dot.
pub proof fn law_web_addresses(scheme: Seq<char>, path: Seq<char>, extension: Seq<char>)
    ensures
        is_web_scheme(scheme) <==> scheme == "http"@ || scheme == "https"@,
        !extension.contains('.') ==> path_extension(path.push('.') + extension) == lower(extension),
{
    if !extension.contains('.') {
        law_last_separator(path, '.', extension);
    }
}

} // verus!
