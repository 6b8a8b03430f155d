//! What arrives from other servers: which activities are taken, and what is stored of them.

use vstd::prelude::*;
use vstd::string::*;

use crate::page::DEFAULT_PROFILE_PHOTO_URL;
use super::activity::{UpdatePersonActivity, UpdatePostActivity};
use super::actor::{at_sign, host_of_text, icon_or_default, icon_or_default_photo, parsed_host};
use super::address::{
    is_restricted, parse_remote_search_handle, remote_handle, restricted, truncate_search_preview,
    CANONICAL_INSTAVOX_DOMAIN,
};
use super::note::ActivityPubNote;
use crate::markup::stripped;
use crate::posts::cut_preview;
use crate::profile::Loaded;
use crate::search::{like_pattern, SearchPostView};
use crate::text::{
    in_class, is_caseless, is_white, law_lower_idempotent, law_trim, law_trim_fixed, law_trim_lower,
    lemma_run_end, lemma_run_end_lower, lower, opt_view, run_end, str_eq, to_lower, trim,
    trim_start_matches, trim_start_of, trim_text, CharClass,
};
use crate::web::{text_reply, Reply, ReplyView, BAD_REQUEST, INTERNAL_SERVER_ERROR, NOT_FOUND};
use crate::weburl::{lower_host, lower_host_of, parse_url, UrlParts, WebUrl};

verus! {

pub const ACCEPTED: u16 = 202;

// ---------------------------------------------------------------------------
// Verification
// ---------------------------------------------------------------------------
/// Checks that a changed post is announced by its author.
pub fn verify_post_update(activity: &UpdatePostActivity) -> (r: Result<(), String>)
    ensures
        r is Ok == (activity.actor@.href == activity.object.attributed_to@.href),
        r matches Err(m) ==> m@ == "update actor does not match note author"@,
{
    if str_eq(activity.actor.href.as_str(), activity.object.attributed_to.href.as_str()) {
        Ok(())
    } else {
        Err("update actor does not match note author".to_owned())
    }
}

/// Checks that a changed profile is announced by its user.
pub fn verify_person_update(activity: &UpdatePersonActivity) -> (r: Result<(), String>)
    ensures
        r is Ok == (activity.actor@.href == activity.object.id@.href),
        r matches Err(m) ==> m@ == "update actor does not match person object id"@,
{
    if str_eq(activity.actor.href.as_str(), activity.object.id.href.as_str()) {
        Ok(())
    } else {
        Err("update actor does not match person object id".to_owned())
    }
}

// ---------------------------------------------------------------------------
// Posts
// ---------------------------------------------------------------------------
/// The host of a remote author whose posts are of interest: not a blank one, nor this one.
pub open spec fn foreign_host(actor: UrlParts) -> Option<Seq<char>> {
    let h = lower_host(actor);
    if h.len() == 0 || h == CANONICAL_INSTAVOX_DOMAIN@ {
        None
    } else {
        Some(h)
    }
}

pub fn foreign_host_of(actor: &WebUrl) -> (r: Option<String>)
    ensures
        opt_view(r) == foreign_host(actor@),
{
    let host: String = lower_host_of(actor);
    if host.as_str().is_empty() || str_eq(host.as_str(), CANONICAL_INSTAVOX_DOMAIN) {
        None
    } else {
        Some(host)
    }
}

/// Decides whether a post from elsewhere is of interest, and gives the host of its author: it has
/// to be announced by its author, and is of interest where it is public and from another server.
pub fn incoming_post_host(actor: &WebUrl, note: &ActivityPubNote, is_public: bool) -> (r: Result<
    Option<String>,
    String,
>)
    ensures
        if actor@.href != note.attributed_to@.href {
            r matches Err(m) && m@ == "post activity actor does not match note author"@
        } else {
            r matches Ok(host) && opt_view(host) == if is_public {
                foreign_host(actor@)
            } else {
                None
            }
        },
{
    if !str_eq(actor.href.as_str(), note.attributed_to.href.as_str()) {
        return Err("post activity actor does not match note author".to_owned());
    }
    if !is_public {
        return Ok(None);
    }
    Ok(foreign_host_of(actor))
}

/// Whether an author is known, and whether as a local user.
#[derive(Clone, Copy, PartialEq, Eq, Structural)]
pub enum KnownAuthor {
    Unknown,
    Local,
    Remote,
}

/// Whether a post or a profile from elsewhere is stored, by the status of its server and of its
/// user.
pub open spec fn is_taken(
    instance_status: Seq<char>,
    author: KnownAuthor,
    user_status: Seq<char>,
) -> bool {
    !restricted(instance_status) && author == KnownAuthor::Remote && !restricted(user_status)
}

pub fn may_store_post(instance_status: &str, author: KnownAuthor, user_status: &str) -> (r: bool)
    ensures
        r == is_taken(instance_status@, author, user_status@),
{
    if is_restricted(instance_status) {
        return false;
    }
    match author {
        KnownAuthor::Remote => !is_restricted(user_status),
        KnownAuthor::Local => false,
        KnownAuthor::Unknown => false,
    }
}

/// Nothing is stored of the posts of a server or a user that is limited or banned.
pub proof fn law_restricted_posts_are_not_stored(
    instance_status: Seq<char>,
    author: KnownAuthor,
    user_status: Seq<char>,
)
    requires
        instance_status == "limited"@ || instance_status == "ban"@ || user_status == "limited"@
            || user_status == "ban"@,
    ensures
        !is_taken(instance_status, author, user_status),
{
}

/// A post from elsewhere, as it is stored.
pub struct RemotePostRow {
    pub object_id: String,
    pub activity_id: String,
    pub actor_id: String,
    pub host: String,
    pub content: String,
    pub url: String,
    pub published_at: Option<i64>,
}

pub fn remote_post_row(activity_id: &WebUrl, actor: &WebUrl, note: &ActivityPubNote, host: String) -> (r:
    RemotePostRow)
    ensures
        r.object_id == note.id.href,
        r.activity_id == activity_id.href,
        r.actor_id == actor.href,
        r.host == host,
        r.content@ == trim(note.content@),
        r.url == note.url.href,
        r.published_at == note.published,
{
    RemotePostRow {
        object_id: note.id.href.clone(),
        activity_id: activity_id.href.clone(),
        actor_id: actor.href.clone(),
        host,
        content: trim_text(note.content.as_str()),
        url: note.url.href.clone(),
        published_at: note.published,
    }
}

// ---------------------------------------------------------------------------
// Profiles and followers
// ---------------------------------------------------------------------------
/// Decides whether a changed profile from elsewhere is of interest, and gives the host of its
/// user.
pub fn incoming_person_host(activity: &UpdatePersonActivity) -> (r: Result<Option<String>, String>)
    ensures
        if activity.actor@.href != activity.object.id@.href {
            r matches Err(m) && m@ == "update actor does not match person object id"@
        } else {
            r matches Ok(host) && opt_view(host) == foreign_host(activity.actor@)
        },
{
    match verify_person_update(activity) {
        Ok(_) => Ok(foreign_host_of(&activity.actor)),
        Err(e) => Err(e),
    }
}

pub fn may_store_person(instance_status: &str, user_status: &str) -> (r: bool)
    ensures
        r == (!restricted(instance_status@) && !restricted(user_status@)),
{
    !is_restricted(instance_status) && !is_restricted(user_status)
}

/// The local user whom a remote user wants to follow.
pub fn follow_target(local_user_id: Option<i32>) -> (r: Result<i32, String>)
    ensures
        match local_user_id {
            Some(id) => r == Ok::<i32, String>(id),
            None => r matches Err(m) && m@ == "follow target must be a local user"@,
        },
{
    match local_user_id {
        Some(id) => Ok(id),
        None => Err("follow target must be a local user".to_owned()),
    }
}

// ---------------------------------------------------------------------------
// Answers
// ---------------------------------------------------------------------------
/// How the processing of an incoming activity ended.
#[derive(Clone, Copy, PartialEq, Eq, Structural)]
pub enum InboxOutcome {
    NoHost,
    NoUser,
    ActorFailed,
    ConfigFailed,
    BadBody,
    BadPayload,
    BadActivity,
    NotProcessed,
    Processed,
}

pub open spec fn inbox_answer(o: InboxOutcome) -> ReplyView {
    match o {
        InboxOutcome::NoHost => ReplyView::Text(BAD_REQUEST, "Missing host header"@),
        InboxOutcome::NoUser => ReplyView::Text(NOT_FOUND, "User not found"@),
        InboxOutcome::ActorFailed => ReplyView::Text(
            INTERNAL_SERVER_ERROR,
            "Failed to load actor"@,
        ),
        InboxOutcome::ConfigFailed => ReplyView::Text(
            INTERNAL_SERVER_ERROR,
            "Failed to prepare federation config"@,
        ),
        InboxOutcome::BadBody => ReplyView::Text(BAD_REQUEST, "Invalid request body"@),
        InboxOutcome::BadPayload => ReplyView::Text(BAD_REQUEST, "Invalid ActivityPub payload"@),
        InboxOutcome::BadActivity => ReplyView::Text(
            BAD_REQUEST,
            "Invalid ActivityPub activity"@,
        ),
        InboxOutcome::NotProcessed => ReplyView::Text(
            BAD_REQUEST,
            "Failed to process ActivityPub activity"@,
        ),
        InboxOutcome::Processed => ReplyView::Status(ACCEPTED),
    }
}

pub fn inbox_reply(outcome: InboxOutcome) -> (r: Reply)
    ensures
        r@ == inbox_answer(outcome),
{
    match outcome {
        InboxOutcome::NoHost => text_reply(BAD_REQUEST, "Missing host header"),
        InboxOutcome::NoUser => text_reply(NOT_FOUND, "User not found"),
        InboxOutcome::ActorFailed => text_reply(INTERNAL_SERVER_ERROR, "Failed to load actor"),
        InboxOutcome::ConfigFailed => text_reply(
            INTERNAL_SERVER_ERROR,
            "Failed to prepare federation config",
        ),
        InboxOutcome::BadBody => text_reply(BAD_REQUEST, "Invalid request body"),
        InboxOutcome::BadPayload => text_reply(BAD_REQUEST, "Invalid ActivityPub payload"),
        InboxOutcome::BadActivity => text_reply(BAD_REQUEST, "Invalid ActivityPub activity"),
        InboxOutcome::NotProcessed => text_reply(
            BAD_REQUEST,
            "Failed to process ActivityPub activity",
        ),
        InboxOutcome::Processed => Reply::Status(ACCEPTED),
    }
}

// ---------------------------------------------------------------------------
// Searching what has arrived
// ---------------------------------------------------------------------------
/// How remote users are searched for: a pattern, and the user that the term names, if it does.
pub struct RemoteUserSearch {
    pub pattern: String,
    pub username: String,
    pub domain: String,
}

/// What remote users are searched for.
pub open spec fn remote_user_term(term: Seq<char>) -> Seq<char> {
    lower(trim_start_of(trim(term), CharClass::Only('@')))
}

/// Reads what remote users are searched for; nothing for a blank term.
pub fn remote_user_search(search_term: &str) -> (r: Option<RemoteUserSearch>)
    ensures
        r is Some == (remote_user_term(search_term@).len() > 0),
        r matches Some(s) ==> s.pattern@ == "%"@ + remote_user_term(search_term@) + "%"@
            && match remote_handle(search_term@) {
            Some((name, domain)) => s.username@ == name && s.domain@ == domain,
            None => s.username@ == ""@ && s.domain@ == ""@,
        },
{
    let trimmed: String = trim_text(search_term);
    let bare: String = trim_start_matches(trimmed.as_str(), CharClass::Only('@'));
    let term: String = to_lower(bare.as_str());
    if term.as_str().is_empty() {
        return None;
    }
    let pattern: String = like_pattern(term.as_str());
    match parse_remote_search_handle(search_term) {
        Some((username, domain)) => Some(RemoteUserSearch { pattern, username, domain }),
        None => Some(
            RemoteUserSearch { pattern, username: "".to_owned(), domain: "".to_owned() },
        ),
    }
}

/// The pattern by which remote posts are searched for; none for a blank term.
pub fn remote_post_pattern(search_term: &str) -> (r: Option<String>)
    ensures
        opt_view(r) == if lower(trim(search_term@)).len() == 0 {
            None
        } else {
            Some("%"@ + lower(trim(search_term@)) + "%"@)
        },
{
    let trimmed: String = trim_text(search_term);
    let term: String = to_lower(trimmed.as_str());
    if term.as_str().is_empty() {
        None
    } else {
        Some(like_pattern(term.as_str()))
    }
}

/// A stored remote post with its author.
pub struct RemotePostSearchRow {
    pub object_id: String,
    pub post_url: String,
    pub content: String,
    pub created_at: String,
    pub actor_id: String,
    pub preferred_username: String,
    pub display_name: String,
    pub icon_url: String,
}

pub const REMOTE_POST_PREVIEW_CHARS: usize = 220;

/// The first text where it is not blank, else the second.
pub open spec fn nonblank_or(a: Seq<char>, b: Seq<char>) -> Seq<char> {
    if trim(a).len() == 0 {
        b
    } else {
        a
    }
}

/// Whether search results show a remote post.
pub open spec fn is_remote_post_view(v: SearchPostView, row: RemotePostSearchRow, host: Seq<char>) -> bool {
    &&& v.author_username@ == nonblank_or(row.display_name@, row.preferred_username@)
    &&& v.author_handle@ == "@"@ + at_sign(row.preferred_username@, host)
    &&& v.author_profile_url@ == "/user/"@ + at_sign(row.preferred_username@, host)
    &&& v.author_profile_photo_url@ == icon_or_default(row.icon_url@)
    &&& v.author_profile_photo_style@ == ""@
    &&& v.body_preview@ == cut_preview(
        stripped(nonblank_or(row.content@, row.post_url@)),
        REMOTE_POST_PREVIEW_CHARS as nat,
    )
    &&& v.created_at == row.created_at
    &&& v.post_url@ == nonblank_or(row.post_url@, row.object_id@)
    &&& v.is_remote
}

fn pick_nonblank(a: String, b: String) -> (r: String)
    ensures
        r@ == nonblank_or(a@, b@),
{
    if trim_text(a.as_str()).as_str().is_empty() {
        b
    } else {
        a
    }
}

/// A remote post in search results, given the host of its author.
pub fn remote_post_result(row: RemotePostSearchRow, host: &str) -> (r: SearchPostView)
    ensures
        is_remote_post_view(r, row, host@),
{
    let mut at: String = row.preferred_username.clone();
    at.append("@");
    at.append(host);
    let mut author_handle: String = "@".to_owned();
    author_handle.append(at.as_str());
    let mut author_profile_url: String = "/user/".to_owned();
    author_profile_url.append(at.as_str());
    let text: String = pick_nonblank(row.content, row.post_url.clone());
    let body_preview: String = truncate_search_preview(text.as_str(), REMOTE_POST_PREVIEW_CHARS);
    SearchPostView {
        author_username: pick_nonblank(row.display_name, row.preferred_username),
        author_handle,
        author_profile_url,
        author_profile_photo_url: icon_or_default_photo(row.icon_url),
        author_profile_photo_style: "".to_owned(),
        body_preview,
        created_at: row.created_at,
        post_url: pick_nonblank(row.post_url, row.object_id),
        is_remote: true,
    }
}

/// A remote post in search results, where the address of its author has a host.
pub fn search_remote_post(row: RemotePostSearchRow) -> (r: Option<SearchPostView>)
    ensures
        r is Some == (host_of_text(row.actor_id@).len() > 0),
        r matches Some(v) ==> is_remote_post_view(v, row, host_of_text(row.actor_id@)),
{
    let host: String = parsed_host(parse_url(row.actor_id.as_str()));
    if host.as_str().is_empty() {
        return None;
    }
    Some(remote_post_result(row, host.as_str()))
}

/// The answer of an inbox: 202 for what was processed, 404 for an unknown user, 500 for faults of
/// this server, and 400 for faults of the request.
pub proof fn law_inbox_answers(o: InboxOutcome)
    ensures
        inbox_answer(o) == ReplyView::Status(202) <==> o is Processed,
        (inbox_answer(o) matches ReplyView::Text(code, _) && code == 404) <==> o is NoUser,
        (inbox_answer(o) matches ReplyView::Text(code, _) && code == 500) <==> o is ActorFailed || o
            is ConfigFailed,
        (inbox_answer(o) matches ReplyView::Text(code, _) && code == 400) <==> o is NoHost || o
            is BadBody || o is BadPayload || o is BadActivity || o is NotProcessed,
{
}

/// Each fault has a message of its own.
pub proof fn law_inbox_messages_differ(a: InboxOutcome, b: InboxOutcome)
    requires
        inbox_answer(a) == inbox_answer(b),
    ensures
        a == b,
{
    reveal_strlit("Missing host header");
    reveal_strlit("User not found");
    reveal_strlit("Failed to load actor");
    reveal_strlit("Failed to prepare federation config");
    reveal_strlit("Invalid request body");
    reveal_strlit("Invalid ActivityPub payload");
    reveal_strlit("Invalid ActivityPub activity");
    reveal_strlit("Failed to process ActivityPub activity");
    assert("Missing host header"@.len() == 19);
    assert("Invalid request body"@.len() == 20);
    assert("Invalid ActivityPub payload"@.len() == 27);
    assert("Invalid ActivityPub activity"@.len() == 28);
    assert("Failed to process ActivityPub activity"@.len() == 38);
    assert("Failed to load actor"@.len() == 20);
    assert("Failed to prepare federation config"@.len() == 35);
}

/// What a remote user of a server writes is stored, unless the status of either is limited or
/// banned; what anybody else writes is not.
pub proof fn law_what_is_stored(
    instance_status: Seq<char>,
    author: KnownAuthor,
    user_status: Seq<char>,
)
    ensures
        is_taken(instance_status, author, user_status) <==> author is Remote && instance_status
            != "limited"@ && instance_status != "ban"@ && user_status != "limited"@ && user_status
            != "ban"@,
{
}

/// The posts of other hosts are of interest, by their host in lower case; those of this site are
/// not.
pub proof fn law_foreign_hosts(actor: UrlParts)
    ensures
        actor.host matches Some(h) ==> h.len() > 0 ==> lower(h) != "instavox.social"@
            ==> foreign_host(actor) == Some(lower(h)),
        actor.host matches Some(h) ==> lower(h) == "instavox.social"@ ==> foreign_host(actor)
            is None,
        actor.host matches Some(h) ==> h.len() == 0 ==> foreign_host(actor) is None,
        actor.host is None ==> foreign_host(actor) is None,
{
}

/// Remote users are searched for without the sign before their name, whatever the case.
pub proof fn law_remote_user_terms(term: Seq<char>)
    requires
        trim(term) == term,
    ensures
        term.len() > 0 && term[0] != '@' ==> remote_user_term(term) == lower(term),
        term.len() > 0 ==> remote_user_term("@"@ + term) == remote_user_term(term),
        remote_user_term(lower(term)) == remote_user_term(term),
{
    let k = CharClass::Only('@');
    if term.len() > 0 {
        lemma_one_more_sign(term);
        if term[0] != '@' {
            assert(run_end(term, k, 0) == 0);
            assert(term.subrange(0, term.len() as int) =~= term);
        }
    }
    lemma_term_lower(term);
}

proof fn lemma_term_lower(term: Seq<char>)
    ensures
        remote_user_term(lower(term)) == remote_user_term(term),
{
    let k = CharClass::Only('@');
    let t = trim(term);
    law_trim_lower(term);
    lemma_sign_is_caseless();
    lemma_run_end_lower(t, k, 0);
    lemma_run_end(t, k, 0);
    assert(trim_start_of(lower(t), k) =~= lower(trim_start_of(t, k)));
    law_lower_idempotent(trim_start_of(t, k));
}

proof fn lemma_one_more_sign(term: Seq<char>)
    requires
        trim(term) == term,
        term.len() > 0,
    ensures
        trim("@"@ + term) == "@"@ + term,
        trim_start_of("@"@ + term, CharClass::Only('@')) == trim_start_of(
            term,
            CharClass::Only('@'),
        ),
{
    reveal_strlit("@");
    let k = CharClass::Only('@');
    let more = "@"@ + term;
    assert(!is_white(term.last())) by {
        law_trim(term, CharClass::White);
    }
    assert(more.last() == term.last());
    assert(more[0] == '@');
    law_trim_fixed(more, CharClass::White);
    lemma_run_end(term, k, 0);
    lemma_run_end(more, k, 0);
    let a = run_end(term, k, 0);
    let b = run_end(more, k, 0);
    assert(b == a + 1) by {
        if b < a + 1 {
            assert(more[b] != '@');
            if b > 0 {
                assert(more[b] == term[b - 1]);
                assert(in_class(k, term[b - 1]));
            }
        }
        if b > a + 1 {
            assert(more[a + 1] == term[a]);
            assert(in_class(k, more[a + 1]));
        }
    }
    assert(more.subrange(b, more.len() as int) =~= term.subrange(a, term.len() as int));
}

proof fn lemma_sign_is_caseless()
    ensures
        is_caseless(CharClass::Only('@')),
{
}

/// Search results show a remote post by its words, cut off at their limit, under the name, the
/// address and the picture of its author; blank ones give way to the link, the user name and the
/// default picture.
pub proof fn law_remote_posts_are_shown(
    v: SearchPostView,
    row: RemotePostSearchRow,
    host: Seq<char>,
)
    requires
        is_remote_post_view(v, row, host),
    ensures
        trim(row.display_name@).len() > 0 ==> v.author_username@ == row.display_name@,
        trim(row.display_name@).len() == 0 ==> v.author_username@ == row.preferred_username@,
        v.author_handle@ == "@"@ + row.preferred_username@ + "@"@ + host,
        v.author_profile_url@ == "/user/"@ + row.preferred_username@ + "@"@ + host,
        trim(row.icon_url@).len() > 0 ==> v.author_profile_photo_url@ == row.icon_url@,
        trim(row.icon_url@).len() == 0 ==> v.author_profile_photo_url@
            == DEFAULT_PROFILE_PHOTO_URL@,
        v.author_profile_photo_style@.len() == 0,
        trim(row.content@).len() > 0 && stripped(row.content@).len() <= 220 ==> v.body_preview@
            == stripped(row.content@),
        trim(row.content@).len() == 0 && stripped(row.post_url@).len() <= 220 ==> v.body_preview@
            == stripped(row.post_url@),
        trim(row.post_url@).len() > 0 ==> v.post_url@ == row.post_url@,
        trim(row.post_url@).len() == 0 ==> v.post_url@ == row.object_id@,
        v.created_at == row.created_at,
        v.is_remote,
{
    reveal_strlit("");
    let p = row.preferred_username@;
    assert("@"@ + (p + "@"@ + host) =~= "@"@ + p + "@"@ + host);
    assert("/user/"@ + (p + "@"@ + host) =~= "/user/"@ + p + "@"@ + host);
}

} // verus!
