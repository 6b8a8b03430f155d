//! Addresses in federated documents.

use vstd::prelude::*;
use vstd::string::*;

use crate::number::{decimal, push_decimal};
use crate::ranking::{are_positions, lemma_next_position};
use crate::text::{
    ends_with, ends_with_text, in_class, law_lower_idempotent, law_trim_idempotent, lemma_run_start,
    lower, lower_char, opt_str, run_start, str_eq, to_lower, trim, trim_end_matches, trim_end_of,
    trim_text, views, CharClass,
};
use crate::weburl::{join_url, parse_url, url_joined, url_parsed, url_result, UrlParts, WebUrl};

verus! {

pub open spec fn opt_url(u: Option<WebUrl>) -> Option<UrlParts> {
    match u {
        Some(x) => Some(x@),
        None => None,
    }
}

pub open spec fn url_views(v: Seq<WebUrl>) -> Seq<UrlParts> {
    Seq::new(v.len(), |i: int| v[i]@)
}

/// What a text parses to, with the message before the parser's own where it does not parse.
pub open spec fn parsed_or(text: Seq<char>, message: Seq<char>) -> Result<UrlParts, Seq<char>> {
    match url_parsed(text) {
        Ok(u) => Ok(u),
        Err(e) => Err(message + e),
    }
}

/// Puts a message before an error of the parser.
pub fn explain(result: Result<WebUrl, String>, message: &str) -> (r: Result<WebUrl, String>)
    ensures
        match result {
            Ok(u) => r == Ok::<WebUrl, String>(u),
            Err(e) => r matches Err(m) && m@ == message@ + e@,
        },
{
    match result {
        Ok(u) => Ok(u),
        Err(e) => {
            let mut text: String = message.to_owned();
            text.append(e.as_str());
            Err(text)
        },
    }
}

pub fn parse_or(text: &str, message: &str) -> (r: Result<WebUrl, String>)
    ensures
        url_result(r) == parsed_or(text@, message@),
{
    explain(parse_url(text), message)
}

/// What a text that may be blank parses to.
pub open spec fn optional_url(text: Seq<char>, message: Seq<char>) -> Result<
    Option<UrlParts>,
    Seq<char>,
> {
    if trim(text).len() == 0 {
        Ok(None)
    } else {
        match parsed_or(text, message) {
            Ok(u) => Ok(Some(u)),
            Err(e) => Err(e),
        }
    }
}

pub open spec fn opt_url_result(r: Result<Option<WebUrl>, String>) -> Result<
    Option<UrlParts>,
    Seq<char>,
> {
    match r {
        Ok(u) => Ok(opt_url(u)),
        Err(e) => Err(e@),
    }
}

pub fn parse_optional(text: &str, message: &str) -> (r: Result<Option<WebUrl>, String>)
    ensures
        opt_url_result(r) == optional_url(text@, message@),
{
    if trim_text(text).as_str().is_empty() {
        return Ok(None);
    }
    match parse_or(text, message) {
        Ok(u) => Ok(Some(u)),
        Err(e) => Err(e),
    }
}

// ---------------------------------------------------------------------------
// Lists of addresses
// ---------------------------------------------------------------------------
/// The addresses that the first `n` texts parse to; the others are left out.
pub open spec fn parsed_texts(texts: Seq<Seq<char>>, n: int) -> Seq<UrlParts>
    decreases n,
{
    if n <= 0 || n > texts.len() {
        Seq::empty()
    } else {
        match url_parsed(texts[n - 1]) {
            Ok(u) => parsed_texts(texts, n - 1).push(u),
            Err(_) => parsed_texts(texts, n - 1),
        }
    }
}

/// The addresses among the texts.
pub fn parse_addresses(texts: &Vec<String>) -> (r: Vec<WebUrl>)
    ensures
        url_views(r@) == parsed_texts(views(texts@), texts.len() as int),
{
    let mut out: Vec<WebUrl> = Vec::new();
    let mut i: usize = 0;
    assert(url_views(out@) =~= parsed_texts(views(texts@), 0));
    while i < texts.len()
        invariant
            i <= texts.len(),
            url_views(out@) == parsed_texts(views(texts@), i as int),
        decreases texts.len() - i,
    {
        let ghost before = out@;
        assert(views(texts@)[i as int] == texts@[i as int]@);
        match parse_url(texts[i].as_str()) {
            Ok(u) => {
                out.push(u);
                assert(url_views(out@) =~= url_views(before).push(u@));
            },
            Err(_) => {},
        }
        i = i + 1;
    }
    out
}

pub open spec fn trimmed_texts(texts: Seq<String>) -> Seq<Seq<char>> {
    Seq::new(texts.len(), |i: int| trim(texts[i]@))
}

/// The inboxes among the texts, the space around them aside.
pub fn parse_inboxes(texts: &Vec<String>) -> (r: Vec<WebUrl>)
    ensures
        url_views(r@) == parsed_texts(trimmed_texts(texts@), texts.len() as int),
{
    let mut trimmed: Vec<String> = Vec::new();
    let mut i: usize = 0;
    while i < texts.len()
        invariant
            i <= texts.len(),
            trimmed.len() == i,
            forall|j: int| 0 <= j < i ==> (#[trigger] trimmed@[j])@ == trim(texts@[j]@),
        decreases texts.len() - i,
    {
        trimmed.push(trim_text(texts[i].as_str()));
        i = i + 1;
    }
    assert(views(trimmed@) =~= trimmed_texts(texts@));
    parse_addresses(&trimmed)
}

/// A list of addresses with an address of its own.
pub struct OrderedCollection {
    pub id: WebUrl,
    pub kind: String,
    pub total_items: usize,
    pub ordered_items: Vec<WebUrl>,
}

pub fn ordered_collection(id: WebUrl, items: Vec<WebUrl>) -> (r: OrderedCollection)
    ensures
        r.id == id,
        r.kind@ == "OrderedCollection"@,
        r.total_items == items.len(),
        r.ordered_items == items,
{
    OrderedCollection {
        id,
        kind: "OrderedCollection".to_owned(),
        total_items: items.len(),
        ordered_items: items,
    }
}

// ---------------------------------------------------------------------------
// Addresses below those of a user
// ---------------------------------------------------------------------------
/// The address of a collection of a user; that of the user where there is none.
pub open spec fn collection_parts(base: UrlParts, suffix: Seq<char>) -> UrlParts {
    match url_joined(base.href, suffix) {
        Ok(u) => u,
        Err(_) => base,
    }
}

/// Takes the result of resolving, or the base where it failed.
pub fn joined_or_base(joined: Result<WebUrl, String>, base: &WebUrl) -> (r: WebUrl)
    ensures
        r == match joined {
            Ok(u) => u,
            Err(_) => *base,
        },
{
    match joined {
        Ok(u) => u,
        Err(_) => base.copy(),
    }
}

pub fn collection_url_or_default(base: &WebUrl, suffix: &str) -> (r: WebUrl)
    ensures
        r@ == collection_parts(base@, suffix@),
{
    joined_or_base(join_url(base.href.as_str(), suffix), base)
}

/// The address of the followers of a user.
pub open spec fn followers_parts(actor: UrlParts) -> Result<UrlParts, Seq<char>> {
    match url_joined(actor.href, "followers"@) {
        Ok(u) => Ok(u),
        Err(e) => Err("invalid actor followers url: "@ + e),
    }
}

pub fn followers_url_from_actor(actor_id: &WebUrl) -> (r: Result<WebUrl, String>)
    ensures
        url_result(r) == followers_parts(actor_id@),
{
    explain(join_url(actor_id.href.as_str(), "followers"), "invalid actor followers url: ")
}

/// The text of the address of an activity that announces a new profile.
pub open spec fn profile_update_text(actor: UrlParts, micros: int) -> Seq<char> {
    trim_end_of(actor.href, CharClass::Only('/')) + "/activities/update/"@ + decimal(micros)
}

/// The address of an activity that announces a new profile, made at the given time.
pub fn profile_update_activity_url(actor_id: &WebUrl, now_micros: i64) -> (r: Result<
    WebUrl,
    String,
>)
    ensures
        url_result(r) == parsed_or(
            profile_update_text(actor_id@, now_micros as int),
            "invalid profile update activity url: "@,
        ),
{
    let mut text: String = trim_end_matches(actor_id.href.as_str(), CharClass::Only('/'));
    text.append("/activities/update/");
    push_decimal(&mut text, now_micros);
    parse_or(text.as_str(), "invalid profile update activity url: ")
}

/// The address of an activity that accepts a follower, made at the given time.
pub fn accept_activity_url(actor_id: &WebUrl, now_micros: i64) -> (r: Result<WebUrl, String>)
    ensures
        url_result(r) == parsed_or(
            actor_id@.href + "/accept/"@ + decimal(now_micros as int),
            "failed to build accept activity id: "@,
        ),
{
    let mut text: String = actor_id.href.clone();
    text.append("/accept/");
    push_decimal(&mut text, now_micros);
    parse_or(text.as_str(), "failed to build accept activity id: ")
}

pub open spec fn post_text(base: Seq<char>, middle: Seq<char>, post_id: int) -> Seq<char> {
    base + middle + decimal(post_id)
}

fn post_address(base: &str, middle: &str, post_id: i64) -> (r: String)
    ensures
        r@ == post_text(base@, middle@, post_id as int),
{
    let mut text: String = base.to_owned();
    text.append(middle);
    push_decimal(&mut text, post_id);
    text
}

/// The address under which other servers know a post.
pub fn post_note_url(base_url: &str, post_id: i64) -> (r: Result<WebUrl, String>)
    ensures
        url_result(r) == parsed_or(
            post_text(base_url@, "/ap/posts/"@, post_id as int),
            "invalid post activitypub url: "@,
        ),
{
    let text: String = post_address(base_url, "/ap/posts/", post_id);
    parse_or(text.as_str(), "invalid post activitypub url: ")
}

/// The address of the page of a post.
pub fn public_post_url(base_url: &str, post_id: i64) -> (r: Result<WebUrl, String>)
    ensures
        url_result(r) == parsed_or(
            post_text(base_url@, "/posts/"@, post_id as int),
            "invalid public post url: "@,
        ),
{
    let text: String = post_address(base_url, "/posts/", post_id);
    parse_or(text.as_str(), "invalid public post url: ")
}

/// The address of the activity that announces a post.
pub fn post_create_activity_url(base_url: &str, post_id: i64) -> (r: Result<WebUrl, String>)
    ensures
        url_result(r) == parsed_or(
            post_text(base_url@, "/ap/posts/"@, post_id as int) + "/activities/create"@,
            "invalid post create activity url: "@,
        ),
{
    let mut text: String = post_address(base_url, "/ap/posts/", post_id);
    text.append("/activities/create");
    parse_or(text.as_str(), "invalid post create activity url: ")
}

// ---------------------------------------------------------------------------
// Media
// ---------------------------------------------------------------------------
/// The address of an image: absolute as it is, or within the site.
pub open spec fn media_address(base: Seq<char>, value: Option<Seq<char>>) -> Option<UrlParts> {
    match value {
        Some(v) => {
            let raw = trim(v);
            if raw.len() == 0 {
                None
            } else {
                match url_parsed(raw) {
                    Ok(u) => Some(u),
                    Err(_) => match url_joined(base, raw) {
                        Ok(u) => Some(u),
                        Err(_) => None,
                    },
                }
            }
        },
        None => None,
    }
}

pub fn absolutize_media_url(base_url: &str, value: Option<&str>) -> (r: Option<WebUrl>)
    ensures
        opt_url(r) == media_address(base_url@, opt_str(value)),
{
    match value {
        Some(v) => {
            let raw: String = trim_text(v);
            if raw.as_str().is_empty() {
                return None;
            }
            match parse_url(raw.as_str()) {
                Ok(u) => Some(u),
                Err(_) => match join_url(base_url, raw.as_str()) {
                    Ok(u) => Some(u),
                    Err(_) => None,
                },
            }
        },
        None => None,
    }
}

/// The address of an image that a user has chosen, none for the default one.
pub open spec fn chosen_media(
    base: Seq<char>,
    value: Option<Seq<char>>,
    default: Seq<char>,
) -> Option<UrlParts> {
    match value {
        Some(v) => if trim(v).len() == 0 || trim(v) == default {
            None
        } else {
            media_address(base, Some(trim(v)))
        },
        None => None,
    }
}

pub fn non_default_local_media_url(
    base_url: &str,
    value: Option<&str>,
    default_value: &str,
) -> (r: Option<WebUrl>)
    ensures
        opt_url(r) == chosen_media(base_url@, opt_str(value), default_value@),
{
    match value {
        Some(v) => {
            let raw: String = trim_text(v);
            if raw.as_str().is_empty() || str_eq(raw.as_str(), default_value) {
                return None;
            }
            absolutize_media_url(base_url, Some(raw.as_str()))
        },
        None => None,
    }
}

/// The media type of an image, guessed from the end of its path.
pub open spec fn media_type(path: Seq<char>) -> Seq<char> {
    let p = lower(path);
    if ends_with_text(p, ".png"@) {
        "image/png"@
    } else if ends_with_text(p, ".gif"@) {
        "image/gif"@
    } else if ends_with_text(p, ".webp"@) {
        "image/webp"@
    } else if ends_with_text(p, ".avif"@) {
        "image/avif"@
    } else {
        "image/jpeg"@
    }
}

pub fn guess_media_type(url: &WebUrl) -> (r: &'static str)
    ensures
        r@ == media_type(url@.path),
{
    let path: String = to_lower(url.path.as_str());
    if ends_with(path.as_str(), ".png") {
        "image/png"
    } else if ends_with(path.as_str(), ".gif") {
        "image/gif"
    } else if ends_with(path.as_str(), ".webp") {
        "image/webp"
    } else if ends_with(path.as_str(), ".avif") {
        "image/avif"
    } else {
        "image/jpeg"
    }
}

// ---------------------------------------------------------------------------
// Domains
// ---------------------------------------------------------------------------
/// Whether two texts are addresses on one domain, or on hosts that are no domains.
pub open spec fn on_one_domain(a: Seq<char>, b: Seq<char>) -> bool {
    match (url_parsed(a), url_parsed(b)) {
        (Ok(x), Ok(y)) => x.domain == y.domain,
        _ => false,
    }
}

/// `activitypub_federation::protocol::verification::verify_domains_match` on the addresses that
/// two texts denote: it succeeds exactly where `Url::domain` gives the same for both. A text that
/// `Url::parse` refuses matches nothing.
#[verifier::external_body]
pub(crate) fn domains_match(a: &str, b: &str) -> (r: bool)
    ensures
        r == on_one_domain(a@, b@),
{
    match (url::Url::parse(a), url::Url::parse(b)) {
        (Ok(x), Ok(y)) => {
            activitypub_federation::protocol::verification::verify_domains_match(&x, &y).is_ok()
        },
        _ => false,
    }
}

/// Whether the document of a user comes from where it was expected: it names itself on that
/// domain, and its inbox on its own.
pub fn verify_person(id: &WebUrl, inbox: &WebUrl, expected: &WebUrl) -> (r: bool)
    ensures
        r == (on_one_domain(id@.href, expected@.href) && on_one_domain(inbox@.href, id@.href)),
{
    domains_match(id.href.as_str(), expected.href.as_str()) && domains_match(
        inbox.href.as_str(),
        id.href.as_str(),
    )
}

/// A document that passes lists an inbox on the domain that it was expected from.
pub proof fn law_verified_inbox_is_local(id: WebUrl, inbox: WebUrl, expected: WebUrl)
    requires
        on_one_domain(id@.href, expected@.href),
        on_one_domain(inbox@.href, id@.href),
    ensures
        on_one_domain(inbox@.href, expected@.href),
{
}

// ---------------------------------------------------------------------------
// Which addresses stand for what
// ---------------------------------------------------------------------------
proof fn lemma_parsed_texts(texts: Seq<Seq<char>>, n: int) -> (at: Seq<int>)
    requires
        0 <= n <= texts.len(),
    ensures
        are_positions(at, n),
        at.len() == parsed_texts(texts, n).len(),
        forall|k: int|
            0 <= k < at.len() ==> url_parsed(texts[#[trigger] at[k]]) == Ok::<UrlParts, Seq<char>>(
                parsed_texts(texts, n)[k],
            ),
        forall|i: int| 0 <= i < n && url_parsed(texts[i]) is Ok ==> #[trigger] at.contains(i),
    decreases n,
{
    if n == 0 {
        Seq::empty()
    } else {
        let before = lemma_parsed_texts(texts, n - 1);
        lemma_next_position(before, n - 1);
        if url_parsed(texts[n - 1]) is Ok {
            before.push(n - 1)
        } else {
            before
        }
    }
}

/// All the texts that denote addresses give them, in their order; the others give none.
pub proof fn law_all_addresses_are_kept(texts: Seq<Seq<char>>)
    ensures
        exists|at: Seq<int>|
            {
                &&& #[trigger] are_positions(at, texts.len() as int)
                &&& at.len() == parsed_texts(texts, texts.len() as int).len()
                &&& forall|k: int|
                    0 <= k < at.len() ==> url_parsed(texts[#[trigger] at[k]]) == Ok::<
                        UrlParts,
                        Seq<char>,
                    >(parsed_texts(texts, texts.len() as int)[k])
                &&& forall|i: int|
                    0 <= i < texts.len() && url_parsed(texts[i]) is Ok ==> #[trigger] at.contains(i)
            },
{
    let at = lemma_parsed_texts(texts, texts.len() as int);
    assert(are_positions(at, texts.len() as int));
}

/// A text that may be blank denotes nothing where it is, and else what it parses to.
pub proof fn law_optional_addresses(text: Seq<char>, message: Seq<char>)
    ensures
        trim(text).len() == 0 ==> optional_url(text, message) == Ok::<Option<UrlParts>, Seq<char>>(
            None,
        ),
        url_parsed(text) matches Ok(u) ==> trim(text).len() > 0 ==> optional_url(text, message)
            == Ok::<Option<UrlParts>, Seq<char>>(Some(u)),
        url_parsed(text) matches Err(e) ==> trim(text).len() > 0 ==> optional_url(text, message)
            == Err::<Option<UrlParts>, Seq<char>>(message + e),
{
}

/// An image that a user has chosen is shown from its own address or from within the site; the
/// default one and a blank one are not shown.
pub proof fn law_chosen_images(base: Seq<char>, value: Seq<char>, default: Seq<char>)
    ensures
        trim(value).len() == 0 || trim(value) == default ==> chosen_media(
            base,
            Some(value),
            default,
        ) is None,
        url_parsed(trim(value)) matches Ok(u) ==> trim(value).len() > 0 && trim(value) != default
            ==> chosen_media(base, Some(value), default) == Some(u),
        url_joined(base, trim(value)) matches Ok(u) ==> trim(value).len() > 0 && trim(value)
            != default && url_parsed(trim(value)) is Err ==> chosen_media(
            base,
            Some(value),
            default,
        ) == Some(u),
        chosen_media(base, None, default) is None,
{
    law_trim_idempotent(value, CharClass::White);
}

/// The kind of an image goes by the end of its path, whatever the case; those of no known end count
/// as photographs.
pub proof fn law_image_kinds(name: Seq<char>)
    ensures
        media_type(name + ".png"@) == "image/png"@,
        media_type(name + ".PNG"@) == "image/png"@,
        media_type(name + ".gif"@) == "image/gif"@,
        media_type(name + ".webp"@) == "image/webp"@,
        media_type(name + ".avif"@) == "image/avif"@,
        media_type(name + ".jpg"@) == "image/jpeg"@,
        media_type(lower(name)) == media_type(name),
{
    lemma_png(name);
    lemma_capital_png(name);
    lemma_gif(name);
    lemma_webp(name);
    lemma_avif(name);
    lemma_jpg(name);
    law_lower_idempotent(name);
}

proof fn lemma_png(name: Seq<char>)
    ensures
        media_type(name + ".png"@) == "image/png"@,
{
    reveal_strlit(".png");
    reveal_strlit(".gif");
    reveal_strlit(".webp");
    reveal_strlit(".avif");
    let p = lower(name + ".png"@);
    lemma_ends_alike(name, ".png"@);
    assert(lower(".png"@) =~= ".png"@);
    assert(ends_with_text(p, ".png"@));
}

proof fn lemma_capital_png(name: Seq<char>)
    ensures
        media_type(name + ".PNG"@) == "image/png"@,
{
    reveal_strlit(".PNG");
    reveal_strlit(".png");
    reveal_strlit(".gif");
    reveal_strlit(".webp");
    reveal_strlit(".avif");
    let p = lower(name + ".PNG"@);
    lemma_ends_alike(name, ".PNG"@);
    assert(lower(".PNG"@) =~= ".png"@);
    assert(ends_with_text(p, ".png"@));
}

proof fn lemma_gif(name: Seq<char>)
    ensures
        media_type(name + ".gif"@) == "image/gif"@,
{
    reveal_strlit(".gif");
    reveal_strlit(".png");
    reveal_strlit(".webp");
    reveal_strlit(".avif");
    let p = lower(name + ".gif"@);
    lemma_ends_alike(name, ".gif"@);
    assert(lower(".gif"@) =~= ".gif"@);
    assert(ends_with_text(p, ".gif"@));
    assert(!ends_with_text(p, ".png"@)) by {
        if ends_with_text(p, ".png"@) {
            assert(same_tail(".png"@, lower(".gif"@)));
            assert(".png"@[3] == 'g');
            assert(lower(".gif"@)[3] == 'f');
        }
    }
}

proof fn lemma_webp(name: Seq<char>)
    ensures
        media_type(name + ".webp"@) == "image/webp"@,
{
    reveal_strlit(".webp");
    reveal_strlit(".png");
    reveal_strlit(".gif");
    reveal_strlit(".avif");
    let p = lower(name + ".webp"@);
    lemma_ends_alike(name, ".webp"@);
    assert(lower(".webp"@) =~= ".webp"@);
    assert(ends_with_text(p, ".webp"@));
    assert(!ends_with_text(p, ".png"@)) by {
        if ends_with_text(p, ".png"@) {
            assert(same_tail(".png"@, lower(".webp"@)));
            assert(".png"@[3] == 'g');
            assert(lower(".webp"@)[4] == 'p');
        }
    }
    assert(!ends_with_text(p, ".gif"@)) by {
        if ends_with_text(p, ".gif"@) {
            assert(same_tail(".gif"@, lower(".webp"@)));
            assert(".gif"@[3] == 'f');
            assert(lower(".webp"@)[4] == 'p');
        }
    }
}

proof fn lemma_avif(name: Seq<char>)
    ensures
        media_type(name + ".avif"@) == "image/avif"@,
{
    reveal_strlit(".avif");
    reveal_strlit(".png");
    reveal_strlit(".gif");
    reveal_strlit(".webp");
    let p = lower(name + ".avif"@);
    lemma_ends_alike(name, ".avif"@);
    assert(lower(".avif"@) =~= ".avif"@);
    assert(ends_with_text(p, ".avif"@));
    assert(!ends_with_text(p, ".png"@)) by {
        if ends_with_text(p, ".png"@) {
            assert(same_tail(".png"@, lower(".avif"@)));
            assert(".png"@[3] == 'g');
            assert(lower(".avif"@)[4] == 'f');
        }
    }
    assert(!ends_with_text(p, ".gif"@)) by {
        if ends_with_text(p, ".gif"@) {
            assert(same_tail(".gif"@, lower(".avif"@)));
            assert(".gif"@[1] == 'g');
            assert(lower(".avif"@)[2] == 'v');
        }
    }
    assert(!ends_with_text(p, ".webp"@)) by {
        if ends_with_text(p, ".webp"@) {
            assert(same_tail(".webp"@, lower(".avif"@)));
            assert(".webp"@[4] == 'p');
            assert(lower(".avif"@)[4] == 'f');
        }
    }
}

proof fn lemma_jpg(name: Seq<char>)
    ensures
        media_type(name + ".jpg"@) == "image/jpeg"@,
{
    reveal_strlit(".jpg");
    reveal_strlit(".png");
    reveal_strlit(".gif");
    reveal_strlit(".webp");
    reveal_strlit(".avif");
    let p = lower(name + ".jpg"@);
    lemma_ends_alike(name, ".jpg"@);
    assert(!ends_with_text(p, ".png"@)) by {
        if ends_with_text(p, ".png"@) {
            assert(same_tail(".png"@, lower(".jpg"@)));
            assert(".png"@[2] == 'n');
            assert(lower(".jpg"@)[2] == 'p');
        }
    }
    assert(!ends_with_text(p, ".gif"@)) by {
        if ends_with_text(p, ".gif"@) {
            assert(same_tail(".gif"@, lower(".jpg"@)));
            assert(".gif"@[3] == 'f');
            assert(lower(".jpg"@)[3] == 'g');
        }
    }
    assert(!ends_with_text(p, ".webp"@)) by {
        if ends_with_text(p, ".webp"@) {
            assert(same_tail(".webp"@, lower(".jpg"@)));
            assert(".webp"@[4] == 'p');
            assert(lower(".jpg"@)[3] == 'g');
        }
    }
    assert(!ends_with_text(p, ".avif"@)) by {
        if ends_with_text(p, ".avif"@) {
            assert(same_tail(".avif"@, lower(".jpg"@)));
            assert(".avif"@[4] == 'f');
            assert(lower(".jpg"@)[3] == 'g');
        }
    }
}

spec fn same_tail(a: Seq<char>, b: Seq<char>) -> bool {
    &&& a[a.len() - 1] == b[b.len() - 1]
    &&& a[a.len() - 2] == b[b.len() - 2]
    &&& a[a.len() - 3] == b[b.len() - 3]
}

proof fn lemma_ends_alike(name: Seq<char>, ending: Seq<char>)
    requires
        ending.len() >= 3,
    ensures
        ends_with_text(lower(name + ending), lower(ending)),
        forall|e: Seq<char>|
            #![trigger ends_with_text(lower(name + ending), e)]
            e.len() >= 3 && ends_with_text(lower(name + ending), e) ==> same_tail(e, lower(ending)),
{
    let all = lower(name + ending);
    assert(all.subrange(name.len() as int, all.len() as int) =~= lower(ending));
    assert forall|e: Seq<char>|
        #![trigger ends_with_text(all, e)]
        e.len() >= 3 && ends_with_text(all, e) implies same_tail(e, lower(ending)) by {
        let from = all.len() - e.len();
        let part = all.subrange(from, from + e.len());
        assert(part[e.len() - 1] == all[all.len() - 1]);
        assert(part[e.len() - 2] == all[all.len() - 2]);
        assert(part[e.len() - 3] == all[all.len() - 3]);
    }
}

/// The address of an announcement stands below that of its user, whether or not the latter ends in
/// slashes.
pub proof fn law_announcement_addresses(actor: UrlParts, micros: int)
    ensures
        actor.href.len() > 0 && actor.href.last() != '/' ==> profile_update_text(actor, micros)
            == actor.href + "/activities/update/"@ + decimal(micros),
{
    let s = actor.href;
    let k = CharClass::Only('/');
    lemma_run_start(s, k, s.len() as int);
    if s.len() > 0 && s.last() != '/' {
        let b = run_start(s, k, s.len() as int);
        if b < s.len() {
            assert(in_class(k, s[s.len() - 1]));
        }
        assert(s.subrange(0, s.len() as int) =~= s);
    }
}

/// Two addresses are on one domain if and only if their domains are the same; a text that is no
/// address is on no domain.
pub proof fn law_one_domain(a: Seq<char>, b: Seq<char>)
    ensures
        url_parsed(a) matches Ok(x) ==> url_parsed(b) matches Ok(y) ==> (on_one_domain(a, b)
            <==> x.domain == y.domain),
        url_parsed(a) is Err || url_parsed(b) is Err ==> !on_one_domain(a, b),
{
}

/// Space around the texts of addresses does not count.
pub proof fn law_addresses_without_space(texts: Seq<String>, i: int)
    requires
        0 <= i < texts.len(),
    ensures
        trimmed_texts(texts).len() == texts.len(),
        trimmed_texts(texts)[i] == trim(texts[i]@),
{
}

} // verus!
