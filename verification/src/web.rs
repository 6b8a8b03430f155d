//! Requests and replies: what a handler answers, and what it reads from the headers.

use vstd::prelude::*;
use vstd::string::*;

use crate::text::{
    before_first, before_separator, chars_of, contains, contains_text, eq_ignore_case, find_chars,
    find_from, in_class, law_find_from, lemma_run_until, lower, matches_at, opt_str, opt_view,
    run_until, seek_run, starts_with, starts_with_text, string_of, to_lower, trim, trim_text,
    CharClass,
};

verus! {

pub const OK: u16 = 200;

pub const BAD_REQUEST: u16 = 400;

pub const UNAUTHORIZED: u16 = 401;

pub const FORBIDDEN: u16 = 403;

pub const NOT_FOUND: u16 = 404;

pub const CONFLICT: u16 = 409;

pub const INTERNAL_SERVER_ERROR: u16 = 500;

pub const BAD_GATEWAY: u16 = 502;

pub const SERVICE_UNAVAILABLE: u16 = 503;

pub const GATEWAY_TIMEOUT: u16 = 504;

/// The answer to the question whether the service can be used: its status and its word.
pub fn readiness(database_answers: bool) -> (r: (u16, &'static str))
    ensures
        r.0 == (if database_answers {
            OK
        } else {
            SERVICE_UNAVAILABLE
        }),
        r.1@ == (if database_answers {
            "ready"@
        } else {
            "unavailable"@
        }),
{
    if database_answers {
        (OK, "ready")
    } else {
        (SERVICE_UNAVAILABLE, "unavailable")
    }
}

// ---------------------------------------------------------------------------
// Replies
// ---------------------------------------------------------------------------
/// An answer without a page of its own.
pub enum Reply {
    /// Send the browser to a path.
    Redirect(String),
    /// A status with an empty body.
    Status(u16),
    /// A status with a text.
    Text(u16, String),
}

#[verifier::ext_equal]
pub enum ReplyView {
    Redirect(Seq<char>),
    Status(u16),
    Text(u16, Seq<char>),
}

impl View for Reply {
    type V = ReplyView;

    open spec fn view(&self) -> ReplyView {
        match self {
            Reply::Redirect(path) => ReplyView::Redirect(path@),
            Reply::Status(code) => ReplyView::Status(*code),
            Reply::Text(code, text) => ReplyView::Text(*code, text@),
        }
    }
}

pub fn redirect(path: &str) -> (r: Reply)
    ensures
        r@ == ReplyView::Redirect(path@),
{
    Reply::Redirect(path.to_owned())
}

pub fn text_reply(status: u16, text: &str) -> (r: Reply)
    ensures
        r@ == ReplyView::Text(status, text@),
{
    Reply::Text(status, text.to_owned())
}

/// What a step of a handler decides: to answer, or to go on with a value.
pub enum Step<T> {
    Answer(Reply),
    Proceed(T),
}

pub open spec fn answers<T>(s: Step<T>, reply: ReplyView) -> bool {
    s matches Step::Answer(r) && r@ == reply
}

// ---------------------------------------------------------------------------
// The way back
// ---------------------------------------------------------------------------
/// The part of an address between its first and its second `://`.
pub open spec fn after_scheme(s: Seq<char>) -> Option<Seq<char>> {
    match find_from(s, "://"@, 0) {
        Some(i) => {
            let from = i + "://"@.len();
            let end = match find_from(s, "://"@, from) {
                Some(j) => j,
                None => s.len() as int,
            };
            Some(s.subrange(from, end))
        },
        None => None,
    }
}

/// The path of the page that a request came from, if it is one on a site.
pub open spec fn referer_path(referer: Option<Seq<char>>) -> Option<Seq<char>> {
    match referer {
        Some(s) => match after_scheme(s) {
            Some(tail) => {
                let i = run_until(tail, CharClass::Only('/'), 0);
                if i < tail.len() && !starts_with_text(tail.skip(i), "//"@) {
                    Some(tail.skip(i))
                } else {
                    None
                }
            },
            None => None,
        },
        None => None,
    }
}

fn after_scheme_of(s: &str) -> (r: Option<String>)
    ensures
        opt_view(r) == after_scheme(s@),
{
    let v: Vec<char> = chars_of(s);
    let p: Vec<char> = chars_of("://");
    match find_chars(&v, &p, 0) {
        Some(i) => {
            let from: usize = i + p.len();
            let end: usize = match find_chars(&v, &p, from) {
                Some(j) => j,
                None => v.len(),
            };
            Some(string_of(&v, from, end))
        },
        None => None,
    }
}

pub fn referer_path_of(referer: Option<&str>) -> (r: Option<String>)
    ensures
        opt_view(r) == referer_path(opt_str(referer)),
{
    match referer {
        Some(s) => match after_scheme_of(s) {
            Some(tail) => {
                let v: Vec<char> = chars_of(tail.as_str());
                let i: usize = seek_run(&v, CharClass::Only('/'), 0);
                if i >= v.len() {
                    return None;
                }
                let path: String = string_of(&v, i, v.len());
                assert(path@ =~= tail@.skip(i as int));
                if starts_with(path.as_str(), "//") {
                    None
                } else {
                    Some(path)
                }
            },
            None => None,
        },
        None => None,
    }
}

/// The path that a handler sends the browser back to.
pub open spec fn back_path(referer: Option<Seq<char>>, fallback: Seq<char>) -> Seq<char> {
    match referer_path(referer) {
        Some(path) => path,
        None => fallback,
    }
}

/// The page that a request came from, or the start page.
pub fn redirect_back_path(referer: Option<&str>) -> (r: String)
    ensures
        r@ == back_path(opt_str(referer), "/"@),
{
    match referer_path_of(referer) {
        Some(path) => path,
        None => "/".to_owned(),
    }
}

/// The way back stays on the site: the path begins with one slash, not with two.
pub proof fn law_back_path_is_local(referer: Option<Seq<char>>, fallback: Seq<char>)
    requires
        fallback.len() > 0,
        fallback[0] == '/',
        fallback.len() > 1 ==> fallback[1] != '/',
    ensures
        back_path(referer, fallback).len() > 0,
        back_path(referer, fallback)[0] == '/',
        back_path(referer, fallback).len() > 1 ==> back_path(referer, fallback)[1] != '/',
{
    if let Some(s) = referer {
        if let Some(tail) = after_scheme(s) {
            lemma_run_until(tail, CharClass::Only('/'), 0);
            let i = run_until(tail, CharClass::Only('/'), 0);
            if i < tail.len() {
                let path = tail.skip(i);
                assert(path[0] == tail[i]);
                reveal_strlit("//");
                if path.len() > 1 && path[1] == '/' {
                    assert(path.subrange(0, 2) =~= "//"@);
                    assert(starts_with_text(path, "//"@));
                }
            }
        }
    }
}

// ---------------------------------------------------------------------------
// Headers
// ---------------------------------------------------------------------------
/// Whether a request was made by a script, as its `X-Requested-With` header says.
pub fn is_fetch_request(requested_with: Option<&str>) -> (r: bool)
    ensures
        r == (opt_str(requested_with) matches Some(v) && lower(v) == lower("fetch"@)),
{
    match requested_with {
        Some(v) => eq_ignore_case(v, "fetch"),
        None => false,
    }
}

/// The scheme of a request behind a proxy: the first of the forwarded ones.
pub open spec fn scheme_of_request(forwarded: Option<Seq<char>>) -> Seq<char> {
    match forwarded {
        Some(v) => {
            let first = trim(before_first(v, ','));
            if first.len() > 0 {
                lower(first)
            } else {
                "http"@
            }
        },
        None => "http"@,
    }
}

pub fn request_scheme(forwarded_proto: Option<&str>) -> (r: String)
    ensures
        r@ == scheme_of_request(opt_str(forwarded_proto)),
{
    match forwarded_proto {
        Some(v) => {
            let head: String = before_separator(v, ',');
            let first: String = trim_text(head.as_str());
            if first.as_str().is_empty() {
                "http".to_owned()
            } else {
                to_lower(first.as_str())
            }
        },
        None => "http".to_owned(),
    }
}

/// The host of a request: the forwarded one, or else the one asked for. A forwarded header that is
/// there but not readable hides the other.
pub open spec fn host_of_request(
    has_forwarded: bool,
    forwarded: Option<Seq<char>>,
    host: Option<Seq<char>>,
) -> Option<Seq<char>> {
    match (if has_forwarded {
        forwarded
    } else {
        host
    }) {
        Some(v) => if trim(v).len() > 0 {
            Some(trim(v))
        } else {
            None
        },
        None => None,
    }
}

pub fn request_host(
    has_forwarded: bool,
    forwarded_host: Option<&str>,
    host: Option<&str>,
) -> (r: Option<String>)
    ensures
        opt_view(r) == host_of_request(has_forwarded, opt_str(forwarded_host), opt_str(host)),
{
    let chosen: Option<&str> = if has_forwarded {
        forwarded_host
    } else {
        host
    };
    match chosen {
        Some(v) => {
            let t: String = trim_text(v);
            if t.as_str().is_empty() {
                None
            } else {
                Some(t)
            }
        },
        None => None,
    }
}

/// Whether a request asks for a page for people rather than for a document for servers.
pub open spec fn wants_html(accept: Option<Seq<char>>) -> bool {
    match accept {
        Some(v) => {
            let n = lower(v);
            &&& contains_text(n, "text/html"@) || contains_text(n, "application/xhtml+xml"@)
                || contains_text(n, "*/*"@)
            &&& !contains_text(n, "application/activity+json"@)
            &&& !contains_text(n, "application/ld+json"@)
            &&& !contains_text(n, "application/jrd+json"@)
        },
        None => true,
    }
}

pub fn prefers_browser_html(accept: Option<&str>) -> (r: bool)
    ensures
        r == wants_html(opt_str(accept)),
{
    match accept {
        Some(v) => {
            let lowered: String = to_lower(v);
            let n: &str = lowered.as_str();
            let activity: bool = contains(n, "application/activity+json") || contains(
                n,
                "application/ld+json",
            ) || contains(n, "application/jrd+json");
            let html: bool = contains(n, "text/html") || contains(n, "application/xhtml+xml")
                || contains(n, "*/*");
            html && !activity
        },
        None => true,
    }
}

/// A request is sent back to the path of the page that it came from: what stands behind the host
/// in the address of that page.
pub proof fn law_requests_go_back(
    scheme: Seq<char>,
    host: Seq<char>,
    path: Seq<char>,
    fallback: Seq<char>,
)
    requires
        !scheme.contains(':'),
        !host.contains('/'),
        path.len() > 0,
        path[0] == '/',
        path.len() > 1 ==> path[1] != '/',
        !contains_text(host + path, "://"@),
    ensures
        back_path(Some(scheme + "://"@ + host + path), fallback) == path,
        back_path(None, fallback) == fallback,
{
    reveal_strlit("://");
    reveal_strlit("//");
    let mark = "://"@;
    let tail = host + path;
    let s = scheme + mark + host + path;
    assert(s =~= scheme + mark + tail);
    law_find_from(s, mark, 0);
    assert(s.subrange(scheme.len() as int, scheme.len() as int + 3) =~= mark);
    assert(matches_at(s, mark, scheme.len() as int));
    let i = find_from(s, mark, 0)->0;
    if i < scheme.len() {
        assert(s.subrange(i, i + 3)[0] == s[i]);
        assert(s[i] == scheme[i]);
        assert(scheme.contains(scheme[i]));
    }
    assert(i == scheme.len());
    let from = i + 3;
    law_find_from(s, mark, from);
    if let Some(j) = find_from(s, mark, from) {
        assert(tail.subrange(j - from, j - from + 3) =~= s.subrange(j, j + 3));
        assert(matches_at(tail, mark, j - from));
    }
    assert(s.subrange(from, s.len() as int) =~= tail);
    lemma_run_until(tail, CharClass::Only('/'), 0);
    let k = run_until(tail, CharClass::Only('/'), 0);
    if k < host.len() {
        assert(tail[k] == host[k]);
        assert(host.contains(host[k]));
    }
    if k > host.len() {
        assert(tail[host.len() as int] == path[0]);
        assert(!in_class(CharClass::Only('/'), tail[host.len() as int]));
    }
    assert(tail.skip(k) =~= path);
    if starts_with_text(path, "//"@) {
        assert(path.subrange(0, 2)[1] == path[1]);
    }
}

/// A forwarded host goes before the one that was asked for, and neither counts where it is blank.
pub proof fn law_request_hosts(forwarded: Option<Seq<char>>, host: Option<Seq<char>>)
    ensures
        forwarded matches Some(f) ==> trim(f).len() > 0 ==> host_of_request(true, forwarded, host)
            == Some(trim(f)),
        host matches Some(h) ==> trim(h).len() > 0 ==> host_of_request(false, forwarded, host)
            == Some(trim(h)),
        forwarded matches Some(f) ==> trim(f).len() == 0 ==> host_of_request(true, forwarded, host)
            is None,
        host_of_request(false, forwarded, None) is None,
        host_of_request(true, None, host) is None,
{
}

/// The scheme of a request is the first that was forwarded, in lower case, and plain without one.
pub proof fn law_request_schemes(first: Seq<char>, rest: Seq<char>)
    requires
        !first.contains(','),
        trim(first).len() > 0,
    ensures
        scheme_of_request(Some(first)) == lower(trim(first)),
        scheme_of_request(Some(first + ","@ + rest)) == lower(trim(first)),
        scheme_of_request(None) == "http"@,
{
    reveal_strlit(",");
    lemma_before_first(first, Seq::empty());
    assert(first + Seq::<char>::empty() =~= first);
    lemma_before_first(first, ","@ + rest);
    assert(first + ","@ + rest =~= first + (","@ + rest));
}

proof fn lemma_before_first(first: Seq<char>, rest: Seq<char>)
    requires
        !first.contains(','),
        rest.len() > 0 ==> rest[0] == ',',
    ensures
        before_first(first + rest, ',') == first,
{
    let s = first + rest;
    let k = CharClass::Only(',');
    lemma_run_until(s, k, 0);
    let n = run_until(s, k, 0);
    if n < first.len() {
        assert(s[n] == first[n]);
        assert(first.contains(first[n]));
    }
    if n > first.len() {
        assert(s[first.len() as int] == rest[0]);
        assert(!in_class(k, s[first.len() as int]));
    }
    assert(s.take(n) =~= first);
    assert(s.subrange(0, n) =~= first);
}

/// A browser gets a page; a server that asks for a document in one of the three notations for them
/// never does, whatever else it takes.
pub proof fn law_servers_get_documents(accept: Seq<char>)
    ensures
        contains_text(lower(accept), "application/activity+json"@) ==> !wants_html(Some(accept)),
        contains_text(lower(accept), "application/ld+json"@) ==> !wants_html(Some(accept)),
        contains_text(lower(accept), "application/jrd+json"@) ==> !wants_html(Some(accept)),
        wants_html(None),
        (contains_text(lower(accept), "text/html"@) || contains_text(
            lower(accept),
            "application/xhtml+xml"@,
        ) || contains_text(lower(accept), "*/*"@)) && !contains_text(
            lower(accept),
            "application/activity+json"@,
        ) && !contains_text(lower(accept), "application/ld+json"@) && !contains_text(
            lower(accept),
            "application/jrd+json"@,
        ) ==> wants_html(Some(accept)),
{
}

} // verus!
