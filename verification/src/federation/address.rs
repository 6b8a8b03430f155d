//! Who and where: handles of users, hosts of servers, and which servers are dealt with.

use vstd::prelude::*;
use vstd::string::*;

use crate::markup::{strip_html_tags, stripped};
use crate::posts::{cut_preview, truncate_preview};
use crate::profile::lemma_split_handle;
use crate::text::{
    before_first, before_separator, contains, contains_text, eq_ignore_case, in_class, is_white,
    law_trim, law_trim_fixed, law_trim_idempotent, lemma_run_until, lower, lower_char, opt_str,
    opt_view, run_until, split_once, split_once_of, starts_with, starts_with_text, str_eq,
    strip_prefix, strip_prefix_of, to_lower, trim, trim_text, CharClass,
};
use crate::web::{answers, text_reply, ReplyView, Step, BAD_REQUEST, NOT_FOUND};
use crate::weburl::{parse_url, url_parsed, WebUrl};

verus! {

/// The domain under which other servers know this one.
pub const CANONICAL_INSTAVOX_DOMAIN: &'static str = "instavox.social";

pub struct WebfingerQuery {
    pub resource: String,
}

// ---------------------------------------------------------------------------
// Handles
// ---------------------------------------------------------------------------
/// A text without a prefix, where it has it.
pub open spec fn without_prefix(s: Seq<char>, prefix: Seq<char>) -> Seq<char> {
    match strip_prefix_of(s, prefix) {
        Some(rest) => rest,
        None => s,
    }
}

fn strip_if_present(s: &str, prefix: &str) -> (r: String)
    ensures
        r@ == without_prefix(s@, prefix@),
{
    match strip_prefix(s, prefix) {
        Some(rest) => rest,
        None => s.to_owned(),
    }
}

/// The name and the domain of the user that a resource names, as in `acct:user@domain`.
pub open spec fn webfinger_parts(resource: Seq<char>) -> Option<(Seq<char>, Seq<char>)> {
    let t = without_prefix(without_prefix(trim(resource), "acct:"@), "@"@);
    match split_once_of(t, '@') {
        Some((name, domain)) => if trim(name).len() == 0 || trim(domain).len() == 0 {
            None
        } else {
            Some((trim(name), trim(domain)))
        },
        None => None,
    }
}

pub open spec fn pair_view(p: Option<(String, String)>) -> Option<(Seq<char>, Seq<char>)> {
    match p {
        Some(x) => Some((x.0@, x.1@)),
        None => None,
    }
}

pub fn parse_webfinger_resource(resource: &str) -> (r: Option<(String, String)>)
    ensures
        pair_view(r) == webfinger_parts(resource@),
{
    let trimmed: String = trim_text(resource);
    let account: String = strip_if_present(trimmed.as_str(), "acct:");
    let handle: String = strip_if_present(account.as_str(), "@");
    match split_once(handle.as_str(), '@') {
        Some((name, domain)) => {
            let name: String = trim_text(name.as_str());
            let domain: String = trim_text(domain.as_str());
            if name.as_str().is_empty() || domain.as_str().is_empty() {
                None
            } else {
                Some((name, domain))
            }
        },
        None => None,
    }
}

/// The remote user that a search term names.
pub open spec fn remote_handle(term: Seq<char>) -> Option<(Seq<char>, Seq<char>)> {
    match webfinger_parts(term) {
        Some((name, domain)) => if lower(domain) == lower(CANONICAL_INSTAVOX_DOMAIN@) {
            None
        } else {
            Some((name, domain))
        },
        None => None,
    }
}

pub fn parse_remote_search_handle(search_term: &str) -> (r: Option<(String, String)>)
    ensures
        pair_view(r) == remote_handle(search_term@),
{
    match parse_webfinger_resource(search_term) {
        Some((name, domain)) => {
            if eq_ignore_case(domain.as_str(), CANONICAL_INSTAVOX_DOMAIN) {
                None
            } else {
                Some((name, domain))
            }
        },
        None => None,
    }
}

/// The resource that stands for a user.
pub open spec fn account(name: Seq<char>, domain: Seq<char>) -> Seq<char> {
    "acct:"@ + name + "@"@ + domain
}

pub fn webfinger_subject(name: &str, domain: &str) -> (r: String)
    ensures
        r@ == account(name@, domain@),
{
    let mut out: String = "acct:".to_owned();
    out.append(name);
    out.append("@");
    out.append(domain);
    out
}

/// What the answer to a WebFinger request says of a user: the resource that stands for them, and
/// their address.
pub fn webfinger_document(name: &str, domain: &str, actor_id: &str) -> (r: Result<
    (String, WebUrl),
    String,
>)
    ensures
        match url_parsed(actor_id@) {
            Ok(u) => r matches Ok(d) && d.0@ == account(name@, domain@) && d.1@ == u,
            Err(e) => r matches Err(m) && m@ == e,
        },
{
    match parse_url(actor_id) {
        Ok(u) => Ok((webfinger_subject(name, domain), u)),
        Err(e) => Err(e),
    }
}

/// The resource of a user names the user.
pub proof fn law_account_round_trip(name: Seq<char>, domain: Seq<char>)
    requires
        trim(name) == name,
        name.len() > 0,
        !name.contains('@'),
        trim(domain) == domain,
        domain.len() > 0,
    ensures
        webfinger_parts(account(name, domain)) == Some((name, domain)),
{
    reveal_strlit("acct:");
    reveal_strlit("@");
    let a = account(name, domain);
    let h = name + "@"@ + domain;
    assert(trim(a) == a) by {
        law_trim(domain, CharClass::White);
        assert(a[0] == 'a');
        assert(a.last() == domain.last());
        law_trim_fixed(a, CharClass::White);
    }
    assert(a.take(5) =~= "acct:"@);
    assert(starts_with_text(a, "acct:"@));
    assert(a.skip(5) =~= h);
    assert(without_prefix(a, "acct:"@) == h);
    assert(name.contains(name[0]));
    assert(h[0] == name[0]);
    assert(!starts_with_text(h, "@"@)) by {
        if starts_with_text(h, "@"@) {
            assert(h[0] == "@"@[0]);
        }
    }
    lemma_split_handle(name, domain);
}

// ---------------------------------------------------------------------------
// Hosts
// ---------------------------------------------------------------------------
/// Whether a host is the domain of a resource, ports and upper and lower case aside.
pub open spec fn same_host(host: Seq<char>, domain: Seq<char>) -> bool {
    before_first(lower(host), ':') == before_first(lower(domain), ':')
}

pub fn host_matches_resource(host: &str, resource_domain: &str) -> (r: bool)
    ensures
        r == same_host(host@, resource_domain@),
{
    let host_lower: String = to_lower(host);
    let domain_lower: String = to_lower(resource_domain);
    if str_eq(host_lower.as_str(), domain_lower.as_str()) {
        return true;
    }
    let a: String = before_separator(host_lower.as_str(), ':');
    let b: String = before_separator(domain_lower.as_str(), ':');
    str_eq(a.as_str(), b.as_str())
}

/// The address of this server, as a request reached it.
pub fn request_base_url(scheme: &str, host: &str) -> (r: String)
    ensures
        r@ == scheme@ + "://"@ + host@,
{
    let mut out: String = scheme.to_owned();
    out.append("://");
    out.append(host);
    out
}

/// Whether a request may be answered over plain HTTP: it came that way, or the host is this
/// machine.
pub fn allows_http(scheme: &str, host: &str) -> (r: bool)
    ensures
        r == (scheme@ == "http"@ || starts_with_text(host@, "127.0.0.1"@) || starts_with_text(
            host@,
            "localhost"@,
        ) || starts_with_text(host@, "[::1]"@)),
{
    str_eq(scheme, "http") || starts_with(host, "127.0.0.1") || starts_with(host, "localhost")
        || starts_with(host, "[::1]")
}

/// What a WebFinger request asks for, where it can be answered here.
pub open spec fn webfinger_fault(host: Option<Seq<char>>, resource: Seq<char>) -> Option<
    ReplyView,
> {
    match host {
        None => Some(ReplyView::Text(BAD_REQUEST, "Missing host header"@)),
        Some(h) => match webfinger_parts(resource) {
            None => Some(
                ReplyView::Text(
                    BAD_REQUEST,
                    "Invalid webfinger resource, expected acct:user@domain"@,
                ),
            ),
            Some((_, domain)) => if same_host(h, domain) {
                None
            } else {
                Some(ReplyView::Text(NOT_FOUND, "Resource is not hosted here"@))
            },
        },
    }
}

/// Reads a WebFinger request: the name and the domain of the user it asks for.
pub fn read_webfinger(host: Option<&str>, query: &WebfingerQuery) -> (r: Step<(String, String)>)
    ensures
        match webfinger_fault(opt_str(host), query.resource@) {
            Some(reply) => answers(r, reply),
            None => r matches Step::Proceed(p) && webfinger_parts(query.resource@) == Some(
                (p.0@, p.1@),
            ),
        },
{
    match host {
        None => Step::Answer(text_reply(BAD_REQUEST, "Missing host header")),
        Some(h) => match parse_webfinger_resource(query.resource.as_str()) {
            None => Step::Answer(
                text_reply(BAD_REQUEST, "Invalid webfinger resource, expected acct:user@domain"),
            ),
            Some((name, domain)) => {
                if host_matches_resource(h, domain.as_str()) {
                    Step::Proceed((name, domain))
                } else {
                    Step::Answer(text_reply(NOT_FOUND, "Resource is not hosted here"))
                }
            },
        },
    }
}

// ---------------------------------------------------------------------------
// Servers
// ---------------------------------------------------------------------------
/// The software of a server, guessed from its host and the address of one of its users.
pub open spec fn instance_protocol(sample: Seq<char>, host: Seq<char>) -> Seq<char> {
    let h = lower(host) + " "@ + lower(sample);
    if contains_text(h, "threads.net"@) {
        "Threads"@
    } else if contains_text(h, "pixelfed"@) {
        "PixelFed"@
    } else if contains_text(h, "mastodon"@) {
        "Mastodon"@
    } else if contains_text(h, "pleroma"@) || contains_text(h, "akkoma"@) {
        "Pleroma/Akkoma"@
    } else if contains_text(h, "misskey"@) || contains_text(h, "calckey"@) || contains_text(
        h,
        "firefish"@,
    ) {
        "Misskey/Firefish"@
    } else if contains_text(h, "lemmy"@) {
        "Lemmy"@
    } else {
        "Other ActivityPub"@
    }
}

pub fn detect_instance_protocol(sample: &str, host: &str) -> (r: String)
    ensures
        r@ == instance_protocol(sample@, host@),
{
    let mut haystack: String = to_lower(host);
    haystack.append(" ");
    haystack.append(to_lower(sample).as_str());
    let h: &str = haystack.as_str();
    if contains(h, "threads.net") {
        "Threads".to_owned()
    } else if contains(h, "pixelfed") {
        "PixelFed".to_owned()
    } else if contains(h, "mastodon") {
        "Mastodon".to_owned()
    } else if contains(h, "pleroma") || contains(h, "akkoma") {
        "Pleroma/Akkoma".to_owned()
    } else if contains(h, "misskey") || contains(h, "calckey") || contains(h, "firefish") {
        "Misskey/Firefish".to_owned()
    } else if contains(h, "lemmy") {
        "Lemmy".to_owned()
    } else {
        "Other ActivityPub".to_owned()
    }
}

/// A server to be remembered.
pub struct DiscoveredInstance {
    pub host: String,
    pub protocol: String,
}

/// Which server is remembered for a host: not a blank one, nor this one.
pub fn discovered_instance(host: &str, sample: &str) -> (r: Option<DiscoveredInstance>)
    ensures
        ({
            let h = lower(trim(host@));
            if h.len() == 0 || h == CANONICAL_INSTAVOX_DOMAIN@ {
                r is None
            } else {
                r matches Some(i) && i.host@ == h && i.protocol@ == instance_protocol(sample@, h)
            }
        }),
{
    let trimmed: String = trim_text(host);
    let normalized: String = to_lower(trimmed.as_str());
    if normalized.as_str().is_empty() || str_eq(normalized.as_str(), CANONICAL_INSTAVOX_DOMAIN) {
        return None;
    }
    let protocol: String = detect_instance_protocol(sample, normalized.as_str());
    Some(DiscoveredInstance { host: normalized, protocol })
}

/// Whether nothing is taken from a server or a user of this status.
pub open spec fn restricted(status: Seq<char>) -> bool {
    status == "limited"@ || status == "ban"@
}

pub fn is_restricted(status: &str) -> (r: bool)
    ensures
        r == restricted(status@),
{
    str_eq(status, "limited") || str_eq(status, "ban")
}

/// The host whose status decides whether an address may be fetched, if one does.
pub fn host_to_verify(host: Option<&str>) -> (r: Option<String>)
    ensures
        opt_view(r) == match opt_str(host) {
            Some(h) => {
                let l = lower(trim(h));
                if l.len() == 0 || l == CANONICAL_INSTAVOX_DOMAIN@ {
                    None
                } else {
                    Some(l)
                }
            },
            None => None,
        },
{
    match host {
        Some(h) => {
            let trimmed: String = trim_text(h);
            let lowered: String = to_lower(trimmed.as_str());
            if lowered.as_str().is_empty() || str_eq(lowered.as_str(), CANONICAL_INSTAVOX_DOMAIN) {
                None
            } else {
                Some(lowered)
            }
        },
        None => None,
    }
}

pub open spec fn restriction_message(host: Seq<char>) -> Seq<char> {
    "instance "@ + host + " is restricted"@
}

/// Refuses a server whose status is restricted.
pub fn check_instance(host: &str, status: &str) -> (r: Result<(), String>)
    ensures
        r is Ok == !restricted(status@),
        r matches Err(e) ==> e@ == restriction_message(host@),
{
    if is_restricted(status) {
        let mut text: String = "instance ".to_owned();
        text.append(host);
        text.append(" is restricted");
        Err(text)
    } else {
        Ok(())
    }
}

// ---------------------------------------------------------------------------
// Previews
// ---------------------------------------------------------------------------
/// The start of a remote text, without its markup.
pub fn truncate_search_preview(value: &str, max_chars: usize) -> (r: String)
    ensures
        r@ == cut_preview(stripped(value@), max_chars as nat),
{
    let clean: String = strip_html_tags(value);
    truncate_preview(clean.as_str(), max_chars)
}

/// A user is named by `acct:user@domain`, by `@user@domain` or by `user@domain`.
pub proof fn law_account_forms(name: Seq<char>, domain: Seq<char>)
    requires
        trim(name) == name,
        name.len() > 0,
        !name.contains('@'),
        !name.contains(':'),
        trim(domain) == domain,
        domain.len() > 0,
    ensures
        webfinger_parts("@"@ + name + "@"@ + domain) == Some((name, domain)),
        webfinger_parts(name + "@"@ + domain) == Some((name, domain)),
        webfinger_parts("acct:@"@ + name + "@"@ + domain) == Some((name, domain)),
{
    reveal_strlit("@");
    reveal_strlit("acct:");
    reveal_strlit("acct:@");
    let bare = name + "@"@ + domain;
    let signed = "@"@ + name + "@"@ + domain;
    let full = "acct:@"@ + name + "@"@ + domain;
    lemma_split_account(name, domain);
    lemma_bare_account(name, domain);
    lemma_prefix_goes("@"@, bare);
    lemma_prefix_goes("acct:"@, signed);
    lemma_behind_trim(domain, name + "@"@);
    lemma_behind_trim(domain, "@"@ + name + "@"@);
    lemma_behind_trim(domain, "acct:@"@ + name + "@"@);
    assert(trim(name) == name);
    lemma_first_not_white(name);
    assert("@"@ + bare =~= signed);
    assert("acct:"@ + signed =~= full);
    law_trim_fixed(bare, CharClass::White);
    law_trim_fixed(signed, CharClass::White);
    law_trim_fixed(full, CharClass::White);
    assert(!starts_with_text(signed, "acct:"@)) by {
        if starts_with_text(signed, "acct:"@) {
            assert(signed.subrange(0, 5)[0] == 'a');
        }
    }
}

proof fn lemma_first_not_white(s: Seq<char>)
    requires
        trim(s) == s,
        s.len() > 0,
    ensures
        !is_white(s[0]),
        !is_white(s.last()),
{
    law_trim(s, CharClass::White);
}

proof fn lemma_behind_trim(domain: Seq<char>, before: Seq<char>)
    requires
        trim(domain) == domain,
        domain.len() > 0,
    ensures
        !is_white((before + domain).last()),
{
    lemma_first_not_white(domain);
}

proof fn lemma_prefix_goes(prefix: Seq<char>, rest: Seq<char>)
    ensures
        strip_prefix_of(prefix + rest, prefix) == Some(rest),
{
    assert((prefix + rest).subrange(0, prefix.len() as int) =~= prefix);
    assert((prefix + rest).skip(prefix.len() as int) =~= rest);
}

proof fn lemma_bare_account(name: Seq<char>, domain: Seq<char>)
    requires
        name.len() > 0,
        !name.contains('@'),
        !name.contains(':'),
    ensures
        !starts_with_text(name + "@"@ + domain, "acct:"@),
        !starts_with_text(name + "@"@ + domain, "@"@),
{
    reveal_strlit("@");
    reveal_strlit("acct:");
    let bare = name + "@"@ + domain;
    if starts_with_text(bare, "acct:"@) {
        let p = bare.subrange(0, 5);
        assert(p[0] == bare[0] && p[1] == bare[1] && p[2] == bare[2] && p[3] == bare[3] && p[4]
            == bare[4]);
        if name.len() > 4 {
            assert(bare[4] == name[4]);
        } else {
            assert(bare[name.len() as int] == '@');
        }
    }
    if starts_with_text(bare, "@"@) {
        assert(bare.subrange(0, 1)[0] == bare[0]);
        assert(bare[0] == name[0]);
    }
}

proof fn lemma_split_account(name: Seq<char>, domain: Seq<char>)
    requires
        !name.contains('@'),
    ensures
        split_once_of(name + "@"@ + domain, '@') == Some((name, domain)),
{
    reveal_strlit("@");
    let t = name + "@"@ + domain;
    let k = CharClass::Only('@');
    lemma_run_until(t, k, 0);
    let b = run_until(t, k, 0);
    assert(t[name.len() as int] == '@');
    if b < name.len() {
        assert(t[b] == name[b]);
    }
    if b > name.len() {
        assert(!in_class(k, t[name.len() as int]));
    }
    assert(t.take(b) =~= name);
    assert(t.skip(b + 1) =~= domain);
}

/// Space around a resource makes no difference, and what names a user holds a sign.
pub proof fn law_account_space(resource: Seq<char>)
    ensures
        webfinger_parts(trim(resource)) == webfinger_parts(resource),
        !trim(resource).contains('@') ==> webfinger_parts(resource) is None,
{
    law_trim_idempotent(resource, CharClass::White);
    let s = trim(resource);
    let t = without_prefix(without_prefix(s, "acct:"@), "@"@);
    if !s.contains('@') {
        let k = CharClass::Only('@');
        lemma_run_until(t, k, 0);
        let b = run_until(t, k, 0);
        if b < t.len() {
            let cut = s.len() - t.len();
            assert(t[b] == s[b + cut]);
        }
    }
}

/// The names and domains that resources give are not blank and have no space around them, and a
/// name holds no sign.
pub proof fn law_account_parts(resource: Seq<char>)
    ensures
        webfinger_parts(resource) matches Some((name, domain)) ==> name.len() > 0 && domain.len()
            > 0 && trim(name) == name && trim(domain) == domain && !name.contains('@'),
{
    if let Some((name, domain)) = webfinger_parts(resource) {
        let t = without_prefix(without_prefix(trim(resource), "acct:"@), "@"@);
        let k = CharClass::Only('@');
        lemma_run_until(t, k, 0);
        let b = run_until(t, k, 0);
        let raw = t.take(b);
        law_trim_idempotent(raw, CharClass::White);
        law_trim_idempotent(t.skip(b + 1), CharClass::White);
        law_trim(raw, CharClass::White);
        if name.contains('@') {
            let x = choose|x: int| 0 <= x < name.len() && name[x] == '@';
            let (i, j) = choose|i: int, j: int|
                #![trigger raw.subrange(i, j)]
                0 <= i <= j <= raw.len() && trim(raw) == raw.subrange(i, j);
            assert(name[x] == t[x + i]);
            assert(!in_class(k, t[x + i]));
        }
    }
}

/// A search term names a remote user where it names a user of another domain than this one, whatever
/// the case of the domain.
pub proof fn law_remote_handles(term: Seq<char>)
    ensures
        webfinger_parts(term) matches Some((name, domain)) ==> lower(domain) != "instavox.social"@
            ==> remote_handle(term) == Some((name, domain)),
        webfinger_parts(term) matches Some((name, domain)) ==> lower(domain) == "instavox.social"@
            ==> remote_handle(term) is None,
        webfinger_parts(term) is None ==> remote_handle(term) is None,
{
    reveal_strlit("instavox.social");
    assert(lower("instavox.social"@) =~= "instavox.social"@);
}

/// Hosts are compared without their ports, and upper and lower case makes no difference.
pub proof fn law_same_hosts(host: Seq<char>, port: Seq<char>, other: Seq<char>)
    requires
        !host.contains(':'),
        !other.contains(':'),
    ensures
        same_host(host, other) <==> lower(host) == lower(other),
        same_host(host + ":"@ + port, other) <==> lower(host) == lower(other),
        same_host(host, other + ":"@ + port) <==> lower(host) == lower(other),
{
    reveal_strlit(":");
    lemma_host_alone(host, Seq::empty());
    lemma_host_alone(other, Seq::empty());
    lemma_host_alone(host, ":"@ + port);
    lemma_host_alone(other, ":"@ + port);
    assert(host + Seq::<char>::empty() =~= host);
    assert(other + Seq::<char>::empty() =~= other);
    assert(host + (":"@ + port) =~= host + ":"@ + port);
    assert(other + (":"@ + port) =~= other + ":"@ + port);
}

proof fn lemma_host_alone(host: Seq<char>, rest: Seq<char>)
    requires
        !host.contains(':'),
        rest.len() > 0 ==> rest[0] == ':',
    ensures
        before_first(lower(host + rest), ':') == lower(host),
{
    let all = lower(host + rest);
    let k = CharClass::Only(':');
    lemma_run_until(all, k, 0);
    let b = run_until(all, k, 0);
    if b < host.len() {
        assert(all[b] == lower_char(host[b]));
        assert(host[b] != ':');
    }
    if b > host.len() {
        assert(all[host.len() as int] == lower_char(rest[0]));
        assert(!in_class(k, all[host.len() as int]));
    }
    assert(all.take(b) =~= lower(host));
}

/// A WebFinger request is answered for the users of the host that it is sent to, and for nobody
/// else; the answers to others are 400 without a host or a user, and 404 for other hosts.
pub proof fn law_webfinger_answers(host: Option<Seq<char>>, resource: Seq<char>)
    ensures
        webfinger_fault(host, resource) is None <==> (host matches Some(h) && webfinger_parts(
            resource,
        ) matches Some((_, domain)) && same_host(h, domain)),
        (webfinger_fault(host, resource) matches Some(ReplyView::Text(code, _)) && code == 400)
            <==> host is None || webfinger_parts(resource) is None,
        (webfinger_fault(host, resource) matches Some(ReplyView::Text(code, _)) && code == 404)
            <==> (host matches Some(h) && webfinger_parts(resource) matches Some((_, domain))
            && !same_host(h, domain)),
{
}

/// Whether the host of a server or the address of one of its users holds a word, whatever the case.
pub open spec fn bears(sample: Seq<char>, host: Seq<char>, word: Seq<char>) -> bool {
    contains_text(lower(host) + " "@ + lower(sample), word)
}

/// The software of a server goes by the first of the known names that it bears.
pub proof fn law_software_names(sample: Seq<char>, host: Seq<char>)
    ensures
        ({
            let p = instance_protocol(sample, host);
            let threads = bears(sample, host, "threads.net"@);
            let pixelfed = bears(sample, host, "pixelfed"@);
            let mastodon = bears(sample, host, "mastodon"@);
            let pleroma = bears(sample, host, "pleroma"@) || bears(sample, host, "akkoma"@);
            let misskey = bears(sample, host, "misskey"@) || bears(sample, host, "calckey"@)
                || bears(sample, host, "firefish"@);
            let lemmy = bears(sample, host, "lemmy"@);
            &&& threads ==> p == "Threads"@
            &&& !threads && pixelfed ==> p == "PixelFed"@
            &&& !threads && !pixelfed && mastodon ==> p == "Mastodon"@
            &&& !threads && !pixelfed && !mastodon && pleroma ==> p == "Pleroma/Akkoma"@
            &&& !threads && !pixelfed && !mastodon && !pleroma && misskey ==> p
                == "Misskey/Firefish"@
            &&& !threads && !pixelfed && !mastodon && !pleroma && !misskey && lemmy ==> p
                == "Lemmy"@
            &&& !threads && !pixelfed && !mastodon && !pleroma && !misskey && !lemmy ==> p
                == "Other ActivityPub"@
        }),
{
}

/// Nothing is taken from the limited and the banned, and all others are free.
pub proof fn law_restrictions(status: Seq<char>)
    ensures
        restricted("limited"@),
        restricted("ban"@),
        restricted(status) ==> status == "limited"@ || status == "ban"@,
{
}

} // verus!
