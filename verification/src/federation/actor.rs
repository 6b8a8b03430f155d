//! Users as other servers see them.

use vstd::prelude::*;
use vstd::string::*;

use super::address::{is_restricted, restricted, CANONICAL_INSTAVOX_DOMAIN};
use super::json::{
    extract_remote_icon_url, icon_address, json_string, law_nested_texts, member, member_text,
    nested_json_string, nested_text, JsonValue,
};
use super::links::{
    chosen_media, collection_parts, collection_url_or_default, guess_media_type, media_type,
    non_default_local_media_url, opt_url, optional_url, parse_optional, parse_or, parsed_or,
};
use crate::auth::ActorKeypair;
use crate::encoding::{component_encoded, encode_component, law_encoding_is_injective};
use crate::moderation::{discovery_status, normalize_discovery_status};
use crate::page::{DEFAULT_BACKGROUND_PHOTO_URL, DEFAULT_PROFILE_PHOTO_URL};
use crate::profile::{local_user_profile_path, profile_path};
use crate::search::SearchUserView;
use crate::text::{
    eq_ignore_case, is_white, law_trim, law_trim_fixed, law_trim_idempotent, lemma_trim_around,
    lower, opt_str, opt_view, str_eq, trim, trim_text, CharClass,
};
use crate::weburl::{
    host_with_port, lower_host, lower_host_of, parse_url, url_host_with_port, url_joined,
    url_parsed, UrlParts, WebUrl,
};

verus! {

// ---------------------------------------------------------------------------
// Names
// ---------------------------------------------------------------------------
/// The name under which other servers show a user: the preferred one, or the parts of the full
/// name that are public.
pub open spec fn shown_name(
    preferred: Seq<char>,
    mode: Seq<char>,
    first: Seq<char>,
    first_public: bool,
    last: Seq<char>,
    last_public: bool,
) -> Seq<char> {
    let f = if first_public {
        trim(first)
    } else {
        ""@
    };
    let l = if last_public {
        trim(last)
    } else {
        ""@
    };
    let full = trim(f + " "@ + l);
    if lower(trim(mode)) == lower("preferred_username"@) || full.len() == 0 {
        preferred
    } else {
        full
    }
}

pub fn actor_display_name(
    preferred_username: &str,
    display_name_mode: &str,
    first_name: &str,
    first_name_public: bool,
    last_name: &str,
    last_name_public: bool,
) -> (r: String)
    ensures
        r@ == shown_name(
            preferred_username@,
            display_name_mode@,
            first_name@,
            first_name_public,
            last_name@,
            last_name_public,
        ),
{
    let mode: String = trim_text(display_name_mode);
    if eq_ignore_case(mode.as_str(), "preferred_username") {
        return preferred_username.to_owned();
    }
    let mut names: String = if first_name_public {
        trim_text(first_name)
    } else {
        "".to_owned()
    };
    names.append(" ");
    if last_name_public {
        names.append(trim_text(last_name).as_str());
    } else {
        names.append("");
    }
    let full: String = trim_text(names.as_str());
    if full.as_str().is_empty() {
        preferred_username.to_owned()
    } else {
        full
    }
}

/// Other servers learn nothing of a private name: it makes no difference to the name they show.
pub proof fn law_private_names_are_not_federated(
    preferred: Seq<char>,
    mode: Seq<char>,
    first: Seq<char>,
    other_first: Seq<char>,
    last: Seq<char>,
    other_last: Seq<char>,
    public: bool,
)
    ensures
        shown_name(preferred, mode, first, false, last, public) == shown_name(
            preferred,
            mode,
            other_first,
            false,
            last,
            public,
        ),
        shown_name(preferred, mode, first, public, last, false) == shown_name(
            preferred,
            mode,
            first,
            public,
            other_last,
            false,
        ),
{
}

// ---------------------------------------------------------------------------
// Addresses and keys of local users
// ---------------------------------------------------------------------------
/// What a local user is known by to other servers.
pub struct UserActivityPubData {
    pub public_key_pem: String,
    pub private_key_pem: Option<String>,
    pub actor_id: String,
    pub inbox: String,
    pub outbox: String,
    pub followers: String,
    pub following: String,
}

/// The address of a local user.
pub open spec fn actor_address(base: Seq<char>, preferred_username: Seq<char>) -> Seq<char> {
    base + "/ap/users/"@ + component_encoded(preferred_username)
}

/// Whether the data holds the addresses of a user, and no keys.
pub open spec fn has_actor_urls(
    d: UserActivityPubData,
    base: Seq<char>,
    preferred_username: Seq<char>,
) -> bool {
    let id = actor_address(base, preferred_username);
    &&& d.actor_id@ == id
    &&& d.inbox@ == id + "/inbox"@
    &&& d.outbox@ == id + "/outbox"@
    &&& d.followers@ == id + "/followers"@
    &&& d.following@ == id + "/following"@
}

fn below(actor_id: &String, part: &str) -> (r: String)
    ensures
        r@ == actor_id@ + part@,
{
    let mut out: String = actor_id.clone();
    out.append(part);
    out
}

pub fn build_actor_url_strings(base_url: &str, preferred_username: &str) -> (r: UserActivityPubData)
    ensures
        has_actor_urls(r, base_url@, preferred_username@),
        r.public_key_pem@ == ""@,
        r.private_key_pem is None,
{
    let encoded: String = encode_component(preferred_username);
    let mut actor_id: String = base_url.to_owned();
    actor_id.append("/ap/users/");
    actor_id.append(encoded.as_str());
    UserActivityPubData {
        inbox: below(&actor_id, "/inbox"),
        outbox: below(&actor_id, "/outbox"),
        followers: below(&actor_id, "/followers"),
        following: below(&actor_id, "/following"),
        actor_id,
        public_key_pem: "".to_owned(),
        private_key_pem: None,
    }
}

/// Users with different names have different addresses.
pub proof fn law_actor_addresses_are_distinct(base: Seq<char>, a: Seq<char>, b: Seq<char>)
    requires
        actor_address(base, a) == actor_address(base, b),
    ensures
        a == b,
{
    let n = (base + "/ap/users/"@).len() as int;
    assert(component_encoded(a) =~= actor_address(base, a).skip(n));
    assert(component_encoded(b) =~= actor_address(base, b).skip(n));
    law_encoding_is_injective(a, b);
}

/// What is stored of the addresses and the keys of a local user.
pub struct StoredActor {
    pub ap_id: Option<String>,
    pub ap_inbox: Option<String>,
    pub ap_outbox: Option<String>,
    pub ap_public_key: Option<String>,
    pub ap_private_key: Option<String>,
}

/// Whether something is stored that is not blank.
pub open spec fn is_filled(o: Option<Seq<char>>) -> bool {
    o is Some && trim(o->0).len() > 0
}

fn has_text(o: &Option<String>) -> (r: bool)
    ensures
        r == is_filled(opt_view(*o)),
{
    match o {
        Some(s) => !trim_text(s.as_str()).as_str().is_empty(),
        None => false,
    }
}

pub open spec fn has_keys(s: StoredActor) -> bool {
    is_filled(opt_view(s.ap_public_key)) && is_filled(opt_view(s.ap_private_key))
}

pub open spec fn has_addresses(s: StoredActor) -> bool {
    is_filled(opt_view(s.ap_id)) && is_filled(opt_view(s.ap_inbox)) && is_filled(
        opt_view(s.ap_outbox),
    )
}

/// Whether the data holds the addresses of a user: the stored ones where all are stored.
pub open spec fn keeps_addresses(
    d: UserActivityPubData,
    base: Seq<char>,
    preferred_username: Seq<char>,
    s: StoredActor,
) -> bool {
    let id = actor_address(base, preferred_username);
    &&& if has_addresses(s) {
        &&& Some(d.actor_id@) == opt_view(s.ap_id)
        &&& Some(d.inbox@) == opt_view(s.ap_inbox)
        &&& Some(d.outbox@) == opt_view(s.ap_outbox)
    } else {
        &&& d.actor_id@ == id
        &&& d.inbox@ == id + "/inbox"@
        &&& d.outbox@ == id + "/outbox"@
    }
    &&& d.followers@ == id + "/followers"@
    &&& d.following@ == id + "/following"@
}

fn text_of(o: &Option<String>) -> (r: String)
    ensures
        *o matches Some(s) ==> r == s,
{
    match o {
        Some(s) => s.clone(),
        None => String::new(),
    }
}

/// The keys that are stored for a user, if both are.
pub fn stored_keys(stored: &StoredActor) -> (r: Option<ActorKeypair>)
    ensures
        r is Some == has_keys(*stored),
        r matches Some(k) ==> Some(k.public_key) == stored.ap_public_key && Some(k.private_key)
            == stored.ap_private_key,
{
    if has_text(&stored.ap_public_key) && has_text(&stored.ap_private_key) {
        Some(
            ActorKeypair {
                public_key: text_of(&stored.ap_public_key),
                private_key: text_of(&stored.ap_private_key),
            },
        )
    } else {
        None
    }
}

/// Puts together what a local user is known by, with the given keys.
pub fn complete_actor_data(
    preferred_username: &str,
    base_url: &str,
    stored: &StoredActor,
    keys: ActorKeypair,
) -> (r: UserActivityPubData)
    ensures
        keeps_addresses(r, base_url@, preferred_username@, *stored),
        r.public_key_pem == keys.public_key,
        r.private_key_pem == Some(keys.private_key),
{
    let mut data: UserActivityPubData = build_actor_url_strings(base_url, preferred_username);
    if has_text(&stored.ap_id) && has_text(&stored.ap_inbox) && has_text(&stored.ap_outbox) {
        data.actor_id = text_of(&stored.ap_id);
        data.inbox = text_of(&stored.ap_inbox);
        data.outbox = text_of(&stored.ap_outbox);
    }
    data.public_key_pem = keys.public_key;
    data.private_key_pem = Some(keys.private_key);
    data
}

/// `activitypub_federation::http_signatures::generate_actor_keypair`: a new pair of keys, or the
/// message of an error. Nothing is said of the keys, which are random.
#[verifier::external_body]
fn new_actor_keypair() -> (r: Result<ActorKeypair, String>) {
    let pair = activitypub_federation::http_signatures::generate_actor_keypair()
        .map_err(|e| e.to_string())?;
    Ok(ActorKeypair { public_key: pair.public_key, private_key: pair.private_key })
}

/// What a local user is known by: stored addresses and keys are kept, and what is missing is made.
pub fn ensure_user_activitypub_data(
    preferred_username: &str,
    base_url: &str,
    stored: &StoredActor,
) -> (r: Result<UserActivityPubData, String>)
    ensures
        has_keys(*stored) ==> r is Ok,
        r matches Ok(d) ==> {
            &&& keeps_addresses(d, base_url@, preferred_username@, *stored)
            &&& d.private_key_pem is Some
            &&& has_keys(*stored) ==> Some(d.public_key_pem) == stored.ap_public_key
                && d.private_key_pem == stored.ap_private_key
        },
{
    let keys: ActorKeypair = match stored_keys(stored) {
        Some(k) => k,
        None => match new_actor_keypair() {
            Ok(k) => k,
            Err(e) => {
                return Err(e);
            },
        },
    };
    Ok(complete_actor_data(preferred_username, base_url, stored, keys))
}

// ---------------------------------------------------------------------------
// Users of either kind
// ---------------------------------------------------------------------------
/// A user who takes part in federation; times are microseconds since the epoch.
pub struct FederatedPersonActor {
    pub local_user_id: Option<i32>,
    pub preferred_username: String,
    pub display_name: String,
    pub summary: String,
    pub created_at: Option<i64>,
    pub actor_id: WebUrl,
    pub inbox: WebUrl,
    pub outbox: Option<WebUrl>,
    pub followers: Option<WebUrl>,
    pub following: Option<WebUrl>,
    pub public_key_pem: String,
    pub private_key_pem: Option<String>,
    pub shared_inbox: Option<WebUrl>,
    pub icon_url: Option<WebUrl>,
    pub image_url: Option<WebUrl>,
    pub last_refreshed_at: Option<i64>,
}

/// A stored local user.
pub struct LocalActorRow {
    pub user_id: i32,
    pub preferred_username: String,
    pub federation_display_name_mode: String,
    pub first_name: String,
    pub first_name_public: bool,
    pub last_name: String,
    pub last_name_public: bool,
    pub bio_description: Option<String>,
    pub profile_photo_url: Option<String>,
    pub background_photo_url: Option<String>,
    pub created_at: Option<i64>,
    pub stored: StoredActor,
}

/// The addresses of a local user.
pub struct LocalActorUrls {
    pub actor_id: WebUrl,
    pub inbox: WebUrl,
    pub outbox: WebUrl,
    pub followers: WebUrl,
    pub following: WebUrl,
}

/// What is wrong with the addresses of a local user: the first that does not parse.
pub open spec fn local_urls_fault(d: UserActivityPubData) -> Option<Seq<char>> {
    match parsed_or(d.actor_id@, "invalid local actor id: "@) {
        Err(e) => Some(e),
        Ok(_) => match parsed_or(d.inbox@, "invalid local inbox: "@) {
            Err(e) => Some(e),
            Ok(_) => match parsed_or(d.outbox@, "invalid local outbox: "@) {
                Err(e) => Some(e),
                Ok(_) => match parsed_or(d.followers@, "invalid local followers url: "@) {
                    Err(e) => Some(e),
                    Ok(_) => match parsed_or(d.following@, "invalid local following url: "@) {
                        Err(e) => Some(e),
                        Ok(_) => None,
                    },
                },
            },
        },
    }
}

/// Parses the addresses of a local user.
pub fn parse_local_urls(data: &UserActivityPubData) -> (r: Result<LocalActorUrls, String>)
    ensures
        match local_urls_fault(*data) {
            Some(e) => r matches Err(m) && m@ == e,
            None => r matches Ok(u) && Ok::<UrlParts, Seq<char>>(u.actor_id@) == url_parsed(
                data.actor_id@,
            ) && Ok::<UrlParts, Seq<char>>(u.inbox@) == url_parsed(data.inbox@) && Ok::<
                UrlParts,
                Seq<char>,
            >(u.outbox@) == url_parsed(data.outbox@) && Ok::<UrlParts, Seq<char>>(u.followers@)
                == url_parsed(data.followers@) && Ok::<UrlParts, Seq<char>>(u.following@)
                == url_parsed(data.following@),
        },
{
    let actor_id: WebUrl = match parse_or(data.actor_id.as_str(), "invalid local actor id: ") {
        Ok(u) => u,
        Err(e) => {
            return Err(e);
        },
    };
    let inbox: WebUrl = match parse_or(data.inbox.as_str(), "invalid local inbox: ") {
        Ok(u) => u,
        Err(e) => {
            return Err(e);
        },
    };
    let outbox: WebUrl = match parse_or(data.outbox.as_str(), "invalid local outbox: ") {
        Ok(u) => u,
        Err(e) => {
            return Err(e);
        },
    };
    let followers: WebUrl = match parse_or(
        data.followers.as_str(),
        "invalid local followers url: ",
    ) {
        Ok(u) => u,
        Err(e) => {
            return Err(e);
        },
    };
    let following: WebUrl = match parse_or(
        data.following.as_str(),
        "invalid local following url: ",
    ) {
        Ok(u) => u,
        Err(e) => {
            return Err(e);
        },
    };
    Ok(LocalActorUrls { actor_id, inbox, outbox, followers, following })
}

pub open spec fn text_or_none(o: Option<Seq<char>>) -> Seq<char> {
    match o {
        Some(s) => s,
        None => ""@,
    }
}

/// Whether an actor is that of a stored local user.
pub open spec fn is_local_actor(
    a: FederatedPersonActor,
    row: LocalActorRow,
    urls: LocalActorUrls,
    now: i64,
) -> bool {
    &&& a.local_user_id == Some(row.user_id)
    &&& a.preferred_username == row.preferred_username
    &&& a.display_name@ == shown_name(
        row.preferred_username@,
        row.federation_display_name_mode@,
        row.first_name@,
        row.first_name_public,
        row.last_name@,
        row.last_name_public,
    )
    &&& a.summary@ == trim(text_or_none(opt_view(row.bio_description)))
    &&& a.created_at == row.created_at
    &&& a.actor_id == urls.actor_id
    &&& a.inbox == urls.inbox
    &&& a.outbox == Some(urls.outbox)
    &&& a.followers == Some(urls.followers)
    &&& a.following == Some(urls.following)
    &&& a.shared_inbox is None
    &&& a.last_refreshed_at == Some(now)
}

/// Puts together a local user from what is stored, parsed addresses, keys and images.
pub fn local_actor(
    row: LocalActorRow,
    urls: LocalActorUrls,
    public_key_pem: String,
    private_key_pem: Option<String>,
    icon_url: Option<WebUrl>,
    image_url: Option<WebUrl>,
    now: i64,
) -> (r: FederatedPersonActor)
    ensures
        is_local_actor(r, row, urls, now),
        r.public_key_pem == public_key_pem,
        r.private_key_pem == private_key_pem,
        r.icon_url == icon_url,
        r.image_url == image_url,
{
    let display_name: String = actor_display_name(
        row.preferred_username.as_str(),
        row.federation_display_name_mode.as_str(),
        row.first_name.as_str(),
        row.first_name_public,
        row.last_name.as_str(),
        row.last_name_public,
    );
    let bio: &str = match &row.bio_description {
        Some(s) => s.as_str(),
        None => "",
    };
    let summary: String = trim_text(bio);
    FederatedPersonActor {
        local_user_id: Some(row.user_id),
        preferred_username: row.preferred_username,
        display_name,
        summary,
        created_at: row.created_at,
        actor_id: urls.actor_id,
        inbox: urls.inbox,
        outbox: Some(urls.outbox),
        followers: Some(urls.followers),
        following: Some(urls.following),
        public_key_pem,
        private_key_pem,
        shared_inbox: None,
        icon_url,
        image_url,
        last_refreshed_at: Some(now),
    }
}

fn borrowed(o: &Option<String>) -> (r: Option<&str>)
    ensures
        opt_str(r) == opt_view(*o),
{
    match o {
        Some(s) => Some(s.as_str()),
        None => None,
    }
}

/// A local user, from what is stored and what they are known by.
pub fn local_actor_from_row(
    row: LocalActorRow,
    data: UserActivityPubData,
    base_url: &str,
    now: i64,
) -> (r: Result<FederatedPersonActor, String>)
    ensures
        match local_urls_fault(data) {
            Some(e) => r matches Err(m) && m@ == e,
            None => r matches Ok(a) && a.local_user_id == Some(row.user_id) && Ok::<
                UrlParts,
                Seq<char>,
            >(a.actor_id@) == url_parsed(data.actor_id@) && a.public_key_pem == data.public_key_pem
                && a.private_key_pem == data.private_key_pem && opt_url(a.icon_url)
                == chosen_media(
                base_url@,
                opt_view(row.profile_photo_url),
                DEFAULT_PROFILE_PHOTO_URL@,
            ) && opt_url(a.image_url) == chosen_media(
                base_url@,
                opt_view(row.background_photo_url),
                DEFAULT_BACKGROUND_PHOTO_URL@,
            ) && exists|urls: LocalActorUrls|
                #[trigger] is_local_actor(a, row, urls, now) && Ok::<UrlParts, Seq<char>>(
                    urls.inbox@,
                ) == url_parsed(data.inbox@) && Ok::<UrlParts, Seq<char>>(urls.outbox@)
                    == url_parsed(data.outbox@) && Ok::<UrlParts, Seq<char>>(urls.followers@)
                    == url_parsed(data.followers@) && Ok::<UrlParts, Seq<char>>(urls.following@)
                    == url_parsed(data.following@),
        },
{
    let urls: LocalActorUrls = match parse_local_urls(&data) {
        Ok(u) => u,
        Err(e) => {
            return Err(e);
        },
    };
    let icon_url: Option<WebUrl> = non_default_local_media_url(
        base_url,
        borrowed(&row.profile_photo_url),
        DEFAULT_PROFILE_PHOTO_URL,
    );
    let image_url: Option<WebUrl> = non_default_local_media_url(
        base_url,
        borrowed(&row.background_photo_url),
        DEFAULT_BACKGROUND_PHOTO_URL,
    );
    Ok(
        local_actor(
            row,
            urls,
            data.public_key_pem,
            data.private_key_pem,
            icon_url,
            image_url,
            now,
        ),
    )
}

/// A stored remote user.
pub struct RemoteActorRow {
    pub actor_id: String,
    pub host: String,
    pub preferred_username: String,
    pub display_name: String,
    pub summary: String,
    pub inbox_url: String,
    pub shared_inbox_url: String,
    pub outbox_url: String,
    pub followers_url: String,
    pub following_url: String,
    pub public_key_pem: String,
    pub icon_url: String,
    pub status: String,
    pub discovered_at: Option<i64>,
    pub last_refreshed_at: Option<i64>,
}

/// The addresses of a remote user.
pub struct RemoteActorUrls {
    pub actor_id: WebUrl,
    pub inbox: WebUrl,
    pub outbox: Option<WebUrl>,
    pub followers: Option<WebUrl>,
    pub following: Option<WebUrl>,
    pub shared_inbox: Option<WebUrl>,
    pub icon_url: Option<WebUrl>,
}

/// What is wrong with the addresses of a remote user: the first that is needed or given, and does
/// not parse.
pub open spec fn remote_urls_fault(row: RemoteActorRow) -> Option<Seq<char>> {
    match parsed_or(row.actor_id@, "invalid remote actor id: "@) {
        Err(e) => Some(e),
        Ok(_) => match parsed_or(row.inbox_url@, "invalid remote inbox: "@) {
            Err(e) => Some(e),
            Ok(_) => match optional_url(row.outbox_url@, "invalid remote outbox: "@) {
                Err(e) => Some(e),
                Ok(_) => match optional_url(row.followers_url@, "invalid remote followers: "@) {
                    Err(e) => Some(e),
                    Ok(_) => match optional_url(row.following_url@, "invalid remote following: "@) {
                        Err(e) => Some(e),
                        Ok(_) => match optional_url(
                            row.shared_inbox_url@,
                            "invalid remote shared inbox: "@,
                        ) {
                            Err(e) => Some(e),
                            Ok(_) => match optional_url(
                                row.icon_url@,
                                "invalid remote icon url: "@,
                            ) {
                                Err(e) => Some(e),
                                Ok(_) => None,
                            },
                        },
                    },
                },
            },
        },
    }
}

/// What a text that may be blank denotes, whatever the message for one that denotes nothing.
pub open spec fn optional_parts(text: Seq<char>) -> Option<UrlParts> {
    if trim(text).len() == 0 {
        None
    } else {
        match url_parsed(text) {
            Ok(u) => Some(u),
            Err(_) => None,
        }
    }
}

/// Whether the addresses are those of a stored remote user.
pub open spec fn are_remote_urls(u: RemoteActorUrls, row: RemoteActorRow) -> bool {
    &&& Ok::<UrlParts, Seq<char>>(u.actor_id@) == url_parsed(row.actor_id@)
    &&& Ok::<UrlParts, Seq<char>>(u.inbox@) == url_parsed(row.inbox_url@)
    &&& opt_url(u.outbox) == optional_parts(row.outbox_url@)
    &&& opt_url(u.followers) == optional_parts(row.followers_url@)
    &&& opt_url(u.following) == optional_parts(row.following_url@)
    &&& opt_url(u.shared_inbox) == optional_parts(row.shared_inbox_url@)
    &&& opt_url(u.icon_url) == optional_parts(row.icon_url@)
}

/// Parses the addresses of a remote user.
pub fn parse_remote_urls(row: &RemoteActorRow) -> (r: Result<RemoteActorUrls, String>)
    ensures
        match remote_urls_fault(*row) {
            Some(e) => r matches Err(m) && m@ == e,
            None => r matches Ok(u) && are_remote_urls(u, *row),
        },
{
    let actor_id: WebUrl = match parse_or(row.actor_id.as_str(), "invalid remote actor id: ") {
        Ok(u) => u,
        Err(e) => {
            return Err(e);
        },
    };
    let inbox: WebUrl = match parse_or(row.inbox_url.as_str(), "invalid remote inbox: ") {
        Ok(u) => u,
        Err(e) => {
            return Err(e);
        },
    };
    let outbox: Option<WebUrl> = match parse_optional(
        row.outbox_url.as_str(),
        "invalid remote outbox: ",
    ) {
        Ok(u) => u,
        Err(e) => {
            return Err(e);
        },
    };
    let followers: Option<WebUrl> = match parse_optional(
        row.followers_url.as_str(),
        "invalid remote followers: ",
    ) {
        Ok(u) => u,
        Err(e) => {
            return Err(e);
        },
    };
    let following: Option<WebUrl> = match parse_optional(
        row.following_url.as_str(),
        "invalid remote following: ",
    ) {
        Ok(u) => u,
        Err(e) => {
            return Err(e);
        },
    };
    let shared_inbox: Option<WebUrl> = match parse_optional(
        row.shared_inbox_url.as_str(),
        "invalid remote shared inbox: ",
    ) {
        Ok(u) => u,
        Err(e) => {
            return Err(e);
        },
    };
    let icon_url: Option<WebUrl> = match parse_optional(
        row.icon_url.as_str(),
        "invalid remote icon url: ",
    ) {
        Ok(u) => u,
        Err(e) => {
            return Err(e);
        },
    };
    Ok(
        RemoteActorUrls { actor_id, inbox, outbox, followers, following, shared_inbox, icon_url },
    )
}

/// Whether an actor is that of a stored remote user.
pub open spec fn is_remote_actor(
    a: FederatedPersonActor,
    row: RemoteActorRow,
    urls: RemoteActorUrls,
) -> bool {
    &&& a.local_user_id is None
    &&& a.preferred_username == row.preferred_username
    &&& a.display_name == row.display_name
    &&& a.summary == row.summary
    &&& a.created_at is None
    &&& a.actor_id == urls.actor_id
    &&& a.inbox == urls.inbox
    &&& a.outbox == urls.outbox
    &&& a.followers == urls.followers
    &&& a.following == urls.following
    &&& a.public_key_pem == row.public_key_pem
    &&& a.private_key_pem is None
    &&& a.shared_inbox == urls.shared_inbox
    &&& a.icon_url == urls.icon_url
    &&& a.image_url is None
    &&& a.last_refreshed_at == if row.last_refreshed_at is Some {
        row.last_refreshed_at
    } else {
        row.discovered_at
    }
}

/// Puts together a remote user from what is stored and parsed addresses.
pub fn remote_actor(row: RemoteActorRow, urls: RemoteActorUrls) -> (r: FederatedPersonActor)
    ensures
        is_remote_actor(r, row, urls),
{
    let refreshed: Option<i64> = match row.last_refreshed_at {
        Some(t) => Some(t),
        None => row.discovered_at,
    };
    FederatedPersonActor {
        local_user_id: None,
        preferred_username: row.preferred_username,
        display_name: row.display_name,
        summary: row.summary,
        created_at: None,
        actor_id: urls.actor_id,
        inbox: urls.inbox,
        outbox: urls.outbox,
        followers: urls.followers,
        following: urls.following,
        public_key_pem: row.public_key_pem,
        private_key_pem: None,
        shared_inbox: urls.shared_inbox,
        icon_url: urls.icon_url,
        image_url: None,
        last_refreshed_at: refreshed,
    }
}

/// A remote user, from what is stored.
pub fn remote_actor_from_row(row: RemoteActorRow) -> (r: Result<FederatedPersonActor, String>)
    ensures
        match remote_urls_fault(row) {
            Some(e) => r matches Err(m) && m@ == e,
            None => r matches Ok(a) && exists|urls: RemoteActorUrls|
                are_remote_urls(urls, row) && #[trigger] is_remote_actor(a, row, urls),
        },
{
    match parse_remote_urls(&row) {
        Ok(urls) => Ok(remote_actor(row, urls)),
        Err(e) => Err(e),
    }
}

/// A stored remote user, but for one who is banned or whose server is.
pub fn usable_remote_row(instance_status: &str, row: Option<RemoteActorRow>) -> (r: Option<
    RemoteActorRow,
>)
    ensures
        r == match row {
            Some(x) => if instance_status@ == "ban"@ || discovery_status(x.status@) == "ban"@ {
                None
            } else {
                Some(x)
            },
            None => None,
        },
{
    match row {
        Some(x) => {
            let status: String = normalize_discovery_status(x.status.as_str());
            if str_eq(instance_status, "ban") || str_eq(status.as_str(), "ban") {
                None
            } else {
                Some(x)
            }
        },
        None => None,
    }
}

// ---------------------------------------------------------------------------
// The document of a user
// ---------------------------------------------------------------------------
pub struct ActivityPubImage {
    pub kind: String,
    pub media_type: String,
    pub url: WebUrl,
}

pub struct ActivityPubEndpoints {
    pub shared_inbox: Option<WebUrl>,
}

pub struct PersonKey {
    pub id: String,
    pub owner: WebUrl,
    pub public_key_pem: String,
}

/// The document by which a user is presented to other servers.
pub struct ActivityPubPerson {
    pub id: WebUrl,
    pub preferred_username: String,
    pub name: String,
    pub summary: String,
    pub inbox: WebUrl,
    pub outbox: WebUrl,
    pub followers: WebUrl,
    pub following: WebUrl,
    pub url: WebUrl,
    pub discoverable: bool,
    pub manually_approves_followers: bool,
    pub published: Option<i64>,
    pub public_key: PersonKey,
    pub icon: Option<ActivityPubImage>,
    pub image: Option<ActivityPubImage>,
    pub endpoints: Option<ActivityPubEndpoints>,
}

/// The path of a local profile under the canonical domain.
pub fn local_profile_path(username: &str) -> (r: String)
    ensures
        r@ == profile_path(username@, CANONICAL_INSTAVOX_DOMAIN@),
{
    local_user_profile_path(username, CANONICAL_INSTAVOX_DOMAIN)
}

/// The text of the address of the profile page of a local user.
pub open spec fn profile_url_text(actor: UrlParts, username: Seq<char>) -> Seq<char> {
    actor.scheme + "://"@ + host_with_port(actor, CANONICAL_INSTAVOX_DOMAIN@) + profile_path(
        username,
        CANONICAL_INSTAVOX_DOMAIN@,
    )
}

/// The address of the profile page of a local user.
pub open spec fn profile_url(actor: UrlParts, username: Seq<char>) -> UrlParts {
    match url_parsed(profile_url_text(actor, username)) {
        Ok(u) => u,
        Err(_) => actor,
    }
}

pub fn local_profile_url_from_actor(actor_id: &WebUrl, username: &str) -> (r: WebUrl)
    ensures
        r@ == profile_url(actor_id@, username@),
{
    let mut text: String = actor_id.scheme.clone();
    text.append("://");
    text.append(url_host_with_port(actor_id, CANONICAL_INSTAVOX_DOMAIN).as_str());
    text.append(local_profile_path(username).as_str());
    match parse_url(text.as_str()) {
        Ok(u) => u,
        Err(_) => actor_id.copy(),
    }
}

pub open spec fn shows_image(i: Option<ActivityPubImage>, url: Option<WebUrl>) -> bool {
    match url {
        Some(u) => i matches Some(x) && x.kind@ == "Image"@ && x.media_type@ == media_type(u@.path)
            && x.url == u,
        None => i is None,
    }
}

fn image_of(url: &Option<WebUrl>) -> (r: Option<ActivityPubImage>)
    ensures
        shows_image(r, *url),
{
    match url {
        Some(u) => Some(
            ActivityPubImage {
                kind: "Image".to_owned(),
                media_type: guess_media_type(u).to_owned(),
                url: u.copy(),
            },
        ),
        None => None,
    }
}

pub open spec fn collection_of(
    own: Option<WebUrl>,
    actor: UrlParts,
    suffix: Seq<char>,
) -> UrlParts {
    match own {
        Some(u) => u@,
        None => collection_parts(actor, suffix),
    }
}

/// The address of a collection of a user: their own, or the default below their address.
pub fn own_collection(own: &Option<WebUrl>, actor_id: &WebUrl, suffix: &str) -> (r: WebUrl)
    ensures
        r@ == collection_of(*own, actor_id@, suffix@),
        *own matches Some(u) ==> r == u,
{
    match own {
        Some(u) => u.copy(),
        None => collection_url_or_default(actor_id, suffix),
    }
}

/// Whether a document presents a user.
pub open spec fn presents(p: ActivityPubPerson, a: FederatedPersonActor) -> bool {
    &&& p.id == a.actor_id
    &&& p.preferred_username == a.preferred_username
    &&& p.name == a.display_name
    &&& p.summary == a.summary
    &&& p.inbox == a.inbox
    &&& p.outbox@ == collection_of(a.outbox, a.actor_id@, "outbox"@)
    &&& p.followers@ == collection_of(a.followers, a.actor_id@, "followers"@)
    &&& p.following@ == collection_of(a.following, a.actor_id@, "following"@)
    &&& p.url@ == if a.local_user_id is Some {
        profile_url(a.actor_id@, a.preferred_username@)
    } else {
        a.actor_id@
    }
    &&& p.discoverable
    &&& !p.manually_approves_followers
    &&& p.published == a.created_at
    &&& p.public_key.id@ == a.actor_id@.href + "#main-key"@
    &&& p.public_key.owner == a.actor_id
    &&& p.public_key.public_key_pem == a.public_key_pem
    &&& shows_image(p.icon, a.icon_url)
    &&& shows_image(p.image, a.image_url)
    &&& match a.shared_inbox {
        Some(u) => p.endpoints matches Some(e) && e.shared_inbox == Some(u),
        None => p.endpoints is None,
    }
}

impl FederatedPersonActor {
    /// The document that presents the user; the private key is not part of it.
    pub fn to_person(&self) -> (r: ActivityPubPerson)
        ensures
            presents(r, *self),
    {
        let url: WebUrl = match self.local_user_id {
            Some(_) => local_profile_url_from_actor(
                &self.actor_id,
                self.preferred_username.as_str(),
            ),
            None => self.actor_id.copy(),
        };
        let mut key_id: String = self.actor_id.href.clone();
        key_id.append("#main-key");
        let endpoints: Option<ActivityPubEndpoints> = match &self.shared_inbox {
            Some(u) => Some(ActivityPubEndpoints { shared_inbox: Some(u.copy()) }),
            None => None,
        };
        ActivityPubPerson {
            id: self.actor_id.copy(),
            preferred_username: self.preferred_username.clone(),
            name: self.display_name.clone(),
            summary: self.summary.clone(),
            inbox: self.inbox.copy(),
            outbox: own_collection(&self.outbox, &self.actor_id, "outbox"),
            followers: own_collection(&self.followers, &self.actor_id, "followers"),
            following: own_collection(&self.following, &self.actor_id, "following"),
            url,
            discoverable: true,
            manually_approves_followers: false,
            published: self.created_at,
            public_key: PersonKey {
                id: key_id,
                owner: self.actor_id.copy(),
                public_key_pem: self.public_key_pem.clone(),
            },
            icon: image_of(&self.icon_url),
            image: image_of(&self.image_url),
            endpoints,
        }
    }
}

/// Whether a row stores the document of a remote user.
pub open spec fn stores_person(row: RemoteActorRow, p: ActivityPubPerson, now: i64) -> bool {
    &&& row.actor_id == p.id.href
    &&& row.host@ == lower_host(p.id@)
    &&& row.preferred_username == p.preferred_username
    &&& row.display_name == p.name
    &&& row.summary == p.summary
    &&& row.inbox_url == p.inbox.href
    &&& row.shared_inbox_url@ == match p.endpoints {
        Some(e) => match e.shared_inbox {
            Some(u) => u@.href,
            None => ""@,
        },
        None => ""@,
    }
    &&& row.outbox_url == p.outbox.href
    &&& row.followers_url == p.followers.href
    &&& row.following_url == p.following.href
    &&& row.public_key_pem == p.public_key.public_key_pem
    &&& row.icon_url@ == match p.icon {
        Some(i) => i.url@.href,
        None => ""@,
    }
    &&& row.status@ == "discovered"@
    &&& row.discovered_at == Some(now)
    &&& row.last_refreshed_at == Some(now)
}

/// The row for the document of a remote user.
pub fn remote_row_from_person(person: ActivityPubPerson, now: i64) -> (r: RemoteActorRow)
    ensures
        stores_person(r, person, now),
{
    let host: String = lower_host_of(&person.id);
    let shared_inbox_url: String = match person.endpoints {
        Some(e) => match e.shared_inbox {
            Some(u) => u.href,
            None => "".to_owned(),
        },
        None => "".to_owned(),
    };
    let icon_url: String = match person.icon {
        Some(i) => i.url.href,
        None => "".to_owned(),
    };
    RemoteActorRow {
        actor_id: person.id.href,
        host,
        preferred_username: person.preferred_username,
        display_name: person.name,
        summary: person.summary,
        inbox_url: person.inbox.href,
        shared_inbox_url,
        outbox_url: person.outbox.href,
        followers_url: person.followers.href,
        following_url: person.following.href,
        public_key_pem: person.public_key.public_key_pem,
        icon_url,
        status: "discovered".to_owned(),
        discovered_at: Some(now),
        last_refreshed_at: Some(now),
    }
}

/// The names and the summary of a row as they are written: without the space around them.
pub fn trimmed_row_texts(row: &RemoteActorRow) -> (r: (String, String, String))
    ensures
        r.0@ == trim(row.preferred_username@),
        r.1@ == trim(row.display_name@),
        r.2@ == trim(row.summary@),
{
    (
        trim_text(row.preferred_username.as_str()),
        trim_text(row.display_name.as_str()),
        trim_text(row.summary.as_str()),
    )
}

// ---------------------------------------------------------------------------
// Documents of remote users
// ---------------------------------------------------------------------------
/// The address and the host of a remote user.
pub struct RemoteIdentity {
    pub actor_id: String,
    pub host: String,
}

/// The address that a document gives to its user, or the one that it was fetched from.
pub open spec fn remote_id(fetched_from: Seq<char>, value: JsonValue) -> Seq<char> {
    match member_text(value, "id"@) {
        Some(id) => id,
        None => fetched_from,
    }
}

/// The host of an address, empty where it has none.
pub open spec fn host_of_text(text: Seq<char>) -> Seq<char> {
    match url_parsed(text) {
        Ok(u) => lower_host(u),
        Err(_) => Seq::empty(),
    }
}

/// The host of a parsed address, empty where there is none.
pub fn parsed_host(parsed: Result<WebUrl, String>) -> (r: String)
    ensures
        r@ == match parsed {
            Ok(u) => lower_host(u@),
            Err(_) => Seq::empty(),
        },
{
    match parsed {
        Ok(u) => lower_host_of(&u),
        Err(_) => String::new(),
    }
}

/// Reads who a document is about.
pub fn remote_identity(actor_url: &str, value: &JsonValue) -> (r: Result<RemoteIdentity, String>)
    ensures
        ({
            let id = remote_id(actor_url@, *value);
            if host_of_text(id).len() == 0 {
                r matches Err(m) && m@ == "remote actor has no valid host"@
            } else {
                r matches Ok(i) && i.actor_id@ == id && i.host@ == host_of_text(id)
            }
        }),
{
    let actor_id: String = match json_string(value, "id") {
        Some(id) => id,
        None => actor_url.to_owned(),
    };
    let host: String = parsed_host(parse_url(actor_id.as_str()));
    if host.as_str().is_empty() {
        return Err("remote actor has no valid host".to_owned());
    }
    Ok(RemoteIdentity { actor_id, host })
}

/// Refuses a remote user who is banned.
pub fn check_remote_user(actor_id: &str, status: &str) -> (r: Result<(), String>)
    ensures
        r is Ok == (status@ != "ban"@),
        r matches Err(m) ==> m@ == "remote user "@ + actor_id@ + " is banned"@,
{
    if str_eq(status, "ban") {
        let mut text: String = "remote user ".to_owned();
        text.append(actor_id);
        text.append(" is banned");
        Err(text)
    } else {
        Ok(())
    }
}

pub open spec fn either(a: Option<Seq<char>>, b: Option<Seq<char>>) -> Seq<char> {
    match a {
        Some(s) => s,
        None => text_or_none(b),
    }
}

fn either_text(a: Option<String>, b: Option<String>) -> (r: String)
    ensures
        r@ == either(opt_view(a), opt_view(b)),
{
    match a {
        Some(s) => s,
        None => match b {
            Some(s) => s,
            None => "".to_owned(),
        },
    }
}

pub open spec fn remote_username(value: JsonValue) -> Seq<char> {
    either(
        member_text(value, "preferredUsername"@),
        member_text(value, "preferred_username"@),
    )
}

/// Whether a row holds what a document says of a remote user.
pub open spec fn reads_document(row: RemoteActorRow, value: JsonValue) -> bool {
    &&& row.preferred_username@ == remote_username(value)
    &&& row.display_name@ == either(member_text(value, "name"@), Some(remote_username(value)))
    &&& row.summary@ == text_or_none(member_text(value, "summary"@))
    &&& row.inbox_url@ == text_or_none(member_text(value, "inbox"@))
    &&& row.shared_inbox_url@ == either(
        nested_text(value, seq!["endpoints", "sharedInbox"]),
        nested_text(value, seq!["endpoints", "shared_inbox"]),
    )
    &&& row.outbox_url@ == text_or_none(member_text(value, "outbox"@))
    &&& row.followers_url@ == text_or_none(member_text(value, "followers"@))
    &&& row.following_url@ == text_or_none(member_text(value, "following"@))
    &&& row.public_key_pem@ == either(
        nested_text(value, seq!["publicKey", "publicKeyPem"]),
        nested_text(value, seq!["public_key", "public_key_pem"]),
    )
    &&& row.icon_url@ == icon_address(value)
}

fn nested_of(value: &JsonValue, outer: &'static str, inner: &'static str) -> (r: Option<String>)
    ensures
        opt_view(r) == nested_text(*value, seq![outer, inner]),
{
    let path: [&str; 2] = [outer, inner];
    assert(path@ =~= seq![outer, inner]);
    nested_json_string(value, &path)
}

/// Reads the document of a remote user, which has to give a name and an inbox.
pub fn read_remote_actor(
    identity: RemoteIdentity,
    value: &JsonValue,
    status: &str,
    now: i64,
) -> (r: Result<RemoteActorRow, String>)
    ensures
        if remote_username(*value).len() == 0 || member_text(*value, "inbox"@) is None {
            r matches Err(m) && m@ == "remote actor is missing required user discovery fields"@
        } else {
            r matches Ok(row) && row.actor_id == identity.actor_id && row.host == identity.host
                && reads_document(row, *value) && row.status@ == status@ && row.discovered_at
                == Some(now) && row.last_refreshed_at == Some(now)
        },
{
    let preferred_username: String = either_text(
        json_string(value, "preferredUsername"),
        json_string(value, "preferred_username"),
    );
    let inbox_url: String = match json_string(value, "inbox") {
        Some(s) => s,
        None => {
            return Err("remote actor is missing required user discovery fields".to_owned());
        },
    };
    if preferred_username.as_str().is_empty() {
        return Err("remote actor is missing required user discovery fields".to_owned());
    }
    let display_name: String = either_text(
        json_string(value, "name"),
        Some(preferred_username.clone()),
    );
    Ok(
        RemoteActorRow {
            actor_id: identity.actor_id,
            host: identity.host,
            preferred_username,
            display_name,
            summary: either_text(json_string(value, "summary"), None),
            inbox_url,
            shared_inbox_url: either_text(
                nested_of(value, "endpoints", "sharedInbox"),
                nested_of(value, "endpoints", "shared_inbox"),
            ),
            outbox_url: either_text(json_string(value, "outbox"), None),
            followers_url: either_text(json_string(value, "followers"), None),
            following_url: either_text(json_string(value, "following"), None),
            public_key_pem: either_text(
                nested_of(value, "publicKey", "publicKeyPem"),
                nested_of(value, "public_key", "public_key_pem"),
            ),
            icon_url: extract_remote_icon_url(value),
            status: status.to_owned(),
            discovered_at: Some(now),
            last_refreshed_at: Some(now),
        },
    )
}

// ---------------------------------------------------------------------------
// Remote users in search results
// ---------------------------------------------------------------------------
pub struct RemoteSearchUser {
    pub preferred_username: String,
    pub profile_photo_url: String,
    pub profile_photo_style: String,
    pub profile_url: String,
    pub handle: String,
    pub is_remote: bool,
}

/// The name of a remote user in search results.
pub open spec fn result_name(display_name: Seq<char>, preferred: Seq<char>) -> Seq<char> {
    if trim(display_name).len() == 0 {
        preferred
    } else {
        trim(display_name)
    }
}

pub open spec fn icon_or_default(icon: Seq<char>) -> Seq<char> {
    if trim(icon).len() == 0 {
        DEFAULT_PROFILE_PHOTO_URL@
    } else {
        icon
    }
}

pub fn icon_or_default_photo(icon: String) -> (r: String)
    ensures
        r@ == icon_or_default(icon@),
{
    if trim_text(icon.as_str()).as_str().is_empty() {
        DEFAULT_PROFILE_PHOTO_URL.to_owned()
    } else {
        icon
    }
}

pub open spec fn at_sign(username: Seq<char>, domain: Seq<char>) -> Seq<char> {
    username + "@"@ + domain
}

pub fn map_remote_search_user(row: RemoteActorRow, username: &str, domain: &str) -> (r:
    RemoteSearchUser)
    ensures
        r.preferred_username@ == result_name(row.display_name@, row.preferred_username@),
        r.profile_photo_url@ == icon_or_default(row.icon_url@),
        r.profile_photo_style@ == ""@,
        r.profile_url@ == "/user/"@ + at_sign(trim(username@), trim(domain@)),
        r.handle@ == "@"@ + at_sign(username@, domain@),
        r.is_remote,
{
    let display_name: String = trim_text(row.display_name.as_str());
    let name: String = if display_name.as_str().is_empty() {
        row.preferred_username
    } else {
        display_name
    };
    let mut profile_url: String = "/user/".to_owned();
    profile_url.append(trim_text(username).as_str());
    profile_url.append("@");
    profile_url.append(trim_text(domain).as_str());
    let mut handle: String = "@".to_owned();
    handle.append(username);
    handle.append("@");
    handle.append(domain);
    proof {
        assert(profile_url@ =~= "/user/"@ + at_sign(trim(username@), trim(domain@)));
        assert(handle@ =~= "@"@ + at_sign(username@, domain@));
    }
    RemoteSearchUser {
        preferred_username: name,
        profile_photo_url: icon_or_default_photo(row.icon_url),
        profile_photo_style: "".to_owned(),
        profile_url,
        handle,
        is_remote: true,
    }
}

/// Whether search results show a remote user.
pub open spec fn is_remote_view(
    v: SearchUserView,
    row: RemoteActorRow,
    username: Seq<char>,
    domain: Seq<char>,
) -> bool {
    &&& v.preferred_username@ == result_name(row.display_name@, row.preferred_username@)
    &&& v.profile_photo_url@ == icon_or_default(row.icon_url@)
    &&& v.profile_photo_style@ == ""@
    &&& v.profile_url@ == "/user/"@ + at_sign(trim(username), trim(domain))
    &&& v.handle@ == "@"@ + at_sign(username, domain)
    &&& v.is_remote
}

pub fn remote_result(row: RemoteActorRow, username: &str, domain: &str) -> (r: SearchUserView)
    ensures
        is_remote_view(r, row, username@, domain@),
{
    let user: RemoteSearchUser = map_remote_search_user(row, username, domain);
    SearchUserView {
        preferred_username: user.preferred_username,
        profile_photo_url: user.profile_photo_url,
        profile_photo_style: user.profile_photo_style,
        profile_url: user.profile_url,
        handle: user.handle,
        is_remote: user.is_remote,
    }
}

/// A stored remote user in search results, where the name and the host are known.
pub fn map_remote_search_view(row: RemoteActorRow) -> (r: Option<SearchUserView>)
    ensures
        r is Some == (trim(row.preferred_username@).len() > 0 && trim(row.host@).len() > 0),
        r matches Some(v) ==> is_remote_view(
            v,
            row,
            trim(row.preferred_username@),
            trim(row.host@),
        ),
{
    let username: String = trim_text(row.preferred_username.as_str());
    let domain: String = trim_text(row.host.as_str());
    if username.as_str().is_empty() || domain.as_str().is_empty() {
        return None;
    }
    Some(remote_result(row, username.as_str(), domain.as_str()))
}

/// A known remote user in search results, but for one who is limited or banned.
pub fn cached_search_result(row: RemoteActorRow) -> (r: Option<SearchUserView>)
    ensures
        r is Some == (!restricted(discovery_status(row.status@)) && trim(
            row.preferred_username@,
        ).len() > 0 && trim(row.host@).len() > 0),
        r matches Some(v) ==> is_remote_view(
            v,
            row,
            trim(row.preferred_username@),
            trim(row.host@),
        ),
{
    let status: String = normalize_discovery_status(row.status.as_str());
    if is_restricted(status.as_str()) {
        return None;
    }
    map_remote_search_view(row)
}

/// A remote user in search results whose stored name or host is blank, shown as searched for.
pub fn searched_result(row: RemoteActorRow, actor_url: String, username: &str, domain: &str) -> (r:
    SearchUserView)
    ensures
        if trim(row.preferred_username@).len() > 0 && trim(row.host@).len() > 0 {
            is_remote_view(r, row, trim(row.preferred_username@), trim(row.host@))
        } else {
            &&& r.preferred_username@ == username@
            &&& r.profile_photo_url@ == DEFAULT_PROFILE_PHOTO_URL@
            &&& r.profile_photo_style@ == ""@
            &&& r.profile_url@ == "/user/"@ + at_sign(trim(username@), trim(domain@))
            &&& r.handle@ == "@"@ + at_sign(username@, domain@)
            &&& r.is_remote
        },
{
    match map_remote_search_view(row) {
        Some(v) => v,
        None => {
            let bare: RemoteActorRow = RemoteActorRow {
                actor_id: actor_url,
                host: domain.to_owned(),
                preferred_username: username.to_owned(),
                display_name: "".to_owned(),
                summary: "".to_owned(),
                inbox_url: "".to_owned(),
                shared_inbox_url: "".to_owned(),
                outbox_url: "".to_owned(),
                followers_url: "".to_owned(),
                following_url: "".to_owned(),
                public_key_pem: "".to_owned(),
                icon_url: "".to_owned(),
                status: "discovered".to_owned(),
                discovered_at: None,
                last_refreshed_at: None,
            };
            proof {
                reveal_strlit("");
                assert(trim(""@) =~= Seq::<char>::empty());
            }
            remote_result(bare, username, domain)
        },
    }
}

/// The address at which the server of a remote user is asked for them.
pub fn webfinger_request_url(username: &str, domain: &str) -> (r: String)
    ensures
        r@ == "https://"@ + domain@ + "/.well-known/webfinger?resource=acct:"@
            + component_encoded(username@) + "@"@ + component_encoded(domain@),
{
    let mut url: String = "https://".to_owned();
    url.append(domain);
    url.append("/.well-known/webfinger?resource=acct:");
    url.append(encode_component(username).as_str());
    url.append("@");
    url.append(encode_component(domain).as_str());
    url
}

// ---------------------------------------------------------------------------
// What other servers see
// ---------------------------------------------------------------------------
proof fn lemma_name_alone(s: Seq<char>)
    ensures
        trim(""@ + " "@ + trim(s)) == trim(s),
        trim(trim(s) + " "@ + ""@) == trim(s),
{
    reveal_strlit("");
    reveal_strlit(" ");
    let t = trim(s);
    law_trim_idempotent(s, CharClass::White);
    lemma_trim_around(" "@, t, ""@);
    lemma_trim_around(""@, t, " "@);
    assert(""@ + " "@ + t =~= " "@ + t + ""@);
    assert(t + " "@ + ""@ =~= ""@ + t + " "@);
}

/// The name under which other servers show a user whose names are to be shown: the public ones of
/// the first and the last name, and the preferred one where neither is public or there are none.
pub proof fn law_federated_names(
    preferred: Seq<char>,
    mode: Seq<char>,
    first: Seq<char>,
    last: Seq<char>,
)
    requires
        lower(trim(mode)) != "preferred_username"@,
        trim(first) == first,
        first.len() > 0,
        trim(last) == last,
        last.len() > 0,
    ensures
        shown_name(preferred, mode, first, true, last, true) == first + " "@ + last,
        shown_name(preferred, mode, first, true, last, false) == first,
        shown_name(preferred, mode, first, false, last, true) == last,
        shown_name(preferred, mode, first, false, last, false) == preferred,
{
    reveal_strlit("");
    reveal_strlit(" ");
    reveal_strlit("preferred_username");
    assert(lower("preferred_username"@) =~= "preferred_username"@);
    lemma_name_alone(first);
    lemma_name_alone(last);
    lemma_no_names();
    let full = first + " "@ + last;
    lemma_ends_not_white(first);
    lemma_ends_not_white(last);
    assert(full[0] == first[0] && full.last() == last.last());
    law_trim_fixed(full, CharClass::White);
}

proof fn lemma_ends_not_white(s: Seq<char>)
    requires
        trim(s) == s,
        s.len() > 0,
    ensures
        !is_white(s[0]),
        !is_white(s.last()),
{
    law_trim(s, CharClass::White);
}

proof fn lemma_no_names()
    ensures
        trim(""@ + " "@ + ""@).len() == 0,
{
    reveal_strlit("");
    reveal_strlit(" ");
    let e = Seq::<char>::empty();
    law_trim_fixed(e, CharClass::White);
    lemma_trim_around(" "@, e, ""@);
    assert(""@ + " "@ + ""@ =~= " "@ + e + ""@);
}

/// A user who prefers the user name is shown under it, whatever the other names.
pub proof fn law_preferred_names(
    preferred: Seq<char>,
    mode: Seq<char>,
    first: Seq<char>,
    first_public: bool,
    last: Seq<char>,
    last_public: bool,
)
    requires
        lower(trim(mode)) == "preferred_username"@,
    ensures
        shown_name(preferred, mode, first, first_public, last, last_public) == preferred,
{
    reveal_strlit("preferred_username");
    assert(lower("preferred_username"@) =~= "preferred_username"@);
}

/// The addresses of a new user stand below that of the user.
pub proof fn law_new_addresses(d: UserActivityPubData, base: Seq<char>, username: Seq<char>)
    requires
        has_actor_urls(d, base, username),
    ensures
        d.actor_id@ == base + "/ap/users/"@ + component_encoded(username),
        d.inbox@ == d.actor_id@ + "/inbox"@,
        d.outbox@ == d.actor_id@ + "/outbox"@,
        d.followers@ == d.actor_id@ + "/followers"@,
        d.following@ == d.actor_id@ + "/following"@,
{
}

/// A user keeps the addresses that are stored, if all three are; one that is missing or blank has
/// all of them made anew.
pub proof fn law_stored_addresses_stay(
    d: UserActivityPubData,
    base: Seq<char>,
    username: Seq<char>,
    s: StoredActor,
)
    requires
        keeps_addresses(d, base, username, s),
    ensures
        ({
            let id = base + "/ap/users/"@ + component_encoded(username);
            let whole = (s.ap_id matches Some(a) && trim(a@).len() > 0) && (s.ap_inbox matches Some(
                b,
            ) && trim(b@).len() > 0) && (s.ap_outbox matches Some(c) && trim(c@).len() > 0);
            &&& s.ap_id matches Some(a) ==> whole ==> d.actor_id@ == a@
            &&& s.ap_inbox matches Some(b) ==> whole ==> d.inbox@ == b@
            &&& s.ap_outbox matches Some(c) ==> whole ==> d.outbox@ == c@
            &&& !whole ==> d.actor_id@ == id && d.inbox@ == id + "/inbox"@ && d.outbox@ == id
                + "/outbox"@
            &&& d.followers@ == id + "/followers"@ && d.following@ == id + "/following"@
        }),
{
}

/// The keys of a user count as stored only if both are, and neither is blank.
pub proof fn law_stored_keys(s: StoredActor)
    ensures
        has_keys(s) <==> (s.ap_public_key matches Some(a) && trim(a@).len() > 0) && (
        s.ap_private_key matches Some(b) && trim(b@).len() > 0),
{
}

/// A local user is presented under what is stored: the name to be shown, the description, the
/// addresses.
pub proof fn law_local_users_are_presented(
    p: ActivityPubPerson,
    a: FederatedPersonActor,
    row: LocalActorRow,
    urls: LocalActorUrls,
    now: i64,
)
    requires
        is_local_actor(a, row, urls, now),
        presents(p, a),
    ensures
        p.id == urls.actor_id,
        p.inbox == urls.inbox,
        p.outbox@ == urls.outbox@,
        p.followers@ == urls.followers@,
        p.following@ == urls.following@,
        p.preferred_username == row.preferred_username,
        lower(trim(row.federation_display_name_mode@)) == "preferred_username"@ ==> p.name@
            == row.preferred_username@,
        row.bio_description matches Some(bio) ==> p.summary@ == trim(bio@),
        row.bio_description is None ==> p.summary@.len() == 0,
        p.published == row.created_at,
        p.public_key.id@ == urls.actor_id@.href + "#main-key"@,
        p.public_key.owner == urls.actor_id,
        p.public_key.public_key_pem == a.public_key_pem,
        p.endpoints is None,
        p.discoverable,
        !p.manually_approves_followers,
        a.icon_url is None ==> p.icon is None,
        a.icon_url matches Some(u) ==> p.icon matches Some(i) && i.url == u && i.kind@ == "Image"@
            && i.media_type@ == media_type(u@.path),
        a.image_url is None ==> p.image is None,
        a.image_url matches Some(u) ==> p.image matches Some(i) && i.url == u && i.kind@
            == "Image"@ && i.media_type@ == media_type(u@.path),
{
    reveal_strlit("");
    reveal_strlit("preferred_username");
    assert(lower("preferred_username"@) =~= "preferred_username"@);
    if row.bio_description is None {
        law_trim_fixed(""@, CharClass::White);
    }
}

/// A remote user who is stored, and read and presented again, is the same: with the same address,
/// names, description, boxes, collections, key and picture.
pub proof fn law_remote_users_come_back(
    p: ActivityPubPerson,
    row: RemoteActorRow,
    urls: RemoteActorUrls,
    a: FederatedPersonActor,
    q: ActivityPubPerson,
    now: i64,
)
    requires
        stores_person(row, p, now),
        are_remote_urls(urls, row),
        is_remote_actor(a, row, urls),
        presents(q, a),
        is_sound(p.id@),
        is_sound(p.inbox@),
        is_sound(p.outbox@),
        is_sound(p.followers@),
        is_sound(p.following@),
        p.icon matches Some(i) ==> is_sound(i.url@),
        p.endpoints matches Some(e) ==> e.shared_inbox matches Some(u) ==> is_sound(u@),
    ensures
        q.id@ == p.id@,
        q.preferred_username == p.preferred_username,
        q.name == p.name,
        q.summary == p.summary,
        q.inbox@ == p.inbox@,
        q.outbox@ == p.outbox@,
        q.followers@ == p.followers@,
        q.following@ == p.following@,
        q.public_key.public_key_pem == p.public_key.public_key_pem,
        p.icon matches Some(i) ==> q.icon matches Some(j) && j.url@ == i.url@,
        p.icon is None ==> q.icon is None,
        p.endpoints matches Some(e) ==> e.shared_inbox matches Some(u) ==> q.endpoints matches Some(
            f,
        ) && f.shared_inbox matches Some(v) && v@ == u@,
        p.endpoints is None ==> q.endpoints is None,
        a.last_refreshed_at == Some(now),
        a.local_user_id is None,
        a.private_key_pem is None,
{
    reveal_strlit("");
    law_trim_fixed(""@, CharClass::White);
}

/// Whether an address is what its own text denotes, and not blank.
pub open spec fn is_sound(u: UrlParts) -> bool {
    url_parsed(u.href) == Ok::<UrlParts, Seq<char>>(u) && trim(u.href).len() > 0
}

/// The addresses of a user are found at fault if and only if one of the needed ones, or one of the
/// others that is given, is none.
pub proof fn law_faulty_addresses(d: UserActivityPubData, row: RemoteActorRow)
    ensures
        local_urls_fault(d) is None <==> url_parsed(d.actor_id@) is Ok && url_parsed(d.inbox@) is Ok
            && url_parsed(d.outbox@) is Ok && url_parsed(d.followers@) is Ok && url_parsed(
            d.following@,
        ) is Ok,
        remote_urls_fault(row) is None <==> url_parsed(row.actor_id@) is Ok && url_parsed(
            row.inbox_url@,
        ) is Ok && is_blank_or_address(row.outbox_url@) && is_blank_or_address(row.followers_url@)
            && is_blank_or_address(row.following_url@) && is_blank_or_address(row.shared_inbox_url@)
            && is_blank_or_address(row.icon_url@),
{
}

/// Whether a text is blank or an address.
pub open spec fn is_blank_or_address(text: Seq<char>) -> bool {
    trim(text).len() == 0 || url_parsed(text) is Ok
}

/// What a document says of a user is stored: the texts of its members, under either spelling where
/// there are two.
pub proof fn law_documents_are_read(row: RemoteActorRow, value: JsonValue)
    requires
        reads_document(row, value),
    ensures
        member_text(value, "preferredUsername"@) matches Some(x) ==> row.preferred_username@ == x,
        member_text(value, "preferred_username"@) matches Some(x) ==> member_text(
            value,
            "preferredUsername"@,
        ) is None ==> row.preferred_username@ == x,
        member_text(value, "name"@) matches Some(x) ==> row.display_name@ == x,
        member_text(value, "name"@) is None ==> row.display_name@ == row.preferred_username@,
        member_text(value, "summary"@) matches Some(x) ==> row.summary@ == x,
        member_text(value, "inbox"@) matches Some(x) ==> row.inbox_url@ == x,
        member_text(value, "outbox"@) matches Some(x) ==> row.outbox_url@ == x,
        member_text(value, "followers"@) matches Some(x) ==> row.followers_url@ == x,
        member_text(value, "following"@) matches Some(x) ==> row.following_url@ == x,
        member_text(value, "summary"@) is None ==> row.summary@.len() == 0,
        member_text(value, "outbox"@) is None ==> row.outbox_url@.len() == 0,
        member_text(value, "followers"@) is None ==> row.followers_url@.len() == 0,
        member_text(value, "following"@) is None ==> row.following_url@.len() == 0,
        member(value, "icon"@) matches Some(JsonValue::Text(s)) ==> row.icon_url@ == trim(s@),
{
    reveal_strlit("");
}

/// The inbox of a server and the key of a user stand one level down in a document.
pub proof fn law_nested_parts_are_read(row: RemoteActorRow, value: JsonValue)
    requires
        reads_document(row, value),
    ensures
        member(value, "publicKey"@) matches Some(k) ==> member_text(k, "publicKeyPem"@) matches Some(
            x,
        ) ==> row.public_key_pem@ == x,
        member(value, "public_key"@) matches Some(k) ==> member_text(k, "public_key_pem"@) matches
        Some(x) ==> member(value, "publicKey"@) is None ==> row.public_key_pem@ == x,
        member(value, "endpoints"@) matches Some(e) ==> member_text(e, "sharedInbox"@) matches Some(
            x,
        ) ==> row.shared_inbox_url@ == x,
        member(value, "endpoints"@) matches Some(e) ==> member_text(e, "shared_inbox"@) matches Some(
            x,
        ) ==> member_text(e, "sharedInbox"@) is None ==> row.shared_inbox_url@ == x,
        member(value, "endpoints"@) is None ==> row.shared_inbox_url@.len() == 0,
{
    reveal_strlit("");
    law_nested_texts(value, "publicKey", "publicKeyPem");
    law_nested_texts(value, "public_key", "public_key_pem");
    law_nested_texts(value, "endpoints", "sharedInbox");
    law_nested_texts(value, "endpoints", "shared_inbox");
}

/// A user goes by the address that the document gives, and else by the one that it was fetched from.
pub proof fn law_remote_addresses(fetched_from: Seq<char>, value: JsonValue)
    ensures
        member_text(value, "id"@) matches Some(id) ==> remote_id(fetched_from, value) == id,
        member_text(value, "id"@) is None ==> remote_id(fetched_from, value) == fetched_from,
{
}

/// Search results show a remote user under the name that is not blank, with the own picture where
/// there is one.
pub proof fn law_remote_users_are_shown(
    v: SearchUserView,
    row: RemoteActorRow,
    username: Seq<char>,
    domain: Seq<char>,
)
    requires
        is_remote_view(v, row, username, domain),
    ensures
        trim(row.display_name@).len() > 0 ==> v.preferred_username@ == trim(row.display_name@),
        trim(row.display_name@).len() == 0 ==> v.preferred_username@ == row.preferred_username@,
        trim(row.icon_url@).len() > 0 ==> v.profile_photo_url@ == row.icon_url@,
        trim(row.icon_url@).len() == 0 ==> v.profile_photo_url@ == DEFAULT_PROFILE_PHOTO_URL@,
        v.profile_photo_style@.len() == 0,
        v.profile_url@ == "/user/"@ + trim(username) + "@"@ + trim(domain),
        v.handle@ == "@"@ + username + "@"@ + domain,
        v.is_remote,
{
    reveal_strlit("");
    assert("@"@ + (username + "@"@ + domain) =~= "@"@ + username + "@"@ + domain);
    assert("/user/"@ + (trim(username) + "@"@ + trim(domain)) =~= "/user/"@ + trim(username) + "@"@
        + trim(domain));
}

/// The boxes and collections of a user whose addresses are not given stand below that of the user;
/// the page of a local user is that of the profile.
pub proof fn law_default_addresses(p: ActivityPubPerson, a: FederatedPersonActor)
    requires
        presents(p, a),
    ensures
        url_joined(a.actor_id@.href, "outbox"@) matches Ok(u) ==> a.outbox is None ==> p.outbox@ == u,
        url_joined(a.actor_id@.href, "followers"@) matches Ok(u) ==> a.followers is None
            ==> p.followers@ == u,
        url_joined(a.actor_id@.href, "following"@) matches Ok(u) ==> a.following is None
            ==> p.following@ == u,
        a.local_user_id is None ==> p.url@ == a.actor_id@,
        url_parsed(
            a.actor_id@.scheme + "://"@ + host_with_port(a.actor_id@, "instavox.social"@)
                + profile_path(a.preferred_username@, "instavox.social"@),
        ) matches Ok(u) ==> a.local_user_id is Some ==> p.url@ == u,
{
}

/// The host of an address is that which it parses to, in lower case.
pub proof fn law_hosts_of_texts(text: Seq<char>)
    ensures
        url_parsed(text) matches Ok(u) ==> u.host matches Some(h) ==> host_of_text(text) == lower(
            h,
        ),
        url_parsed(text) matches Ok(u) ==> u.host is None ==> host_of_text(text).len() == 0,
        url_parsed(text) is Err ==> host_of_text(text).len() == 0,
{
}

} // verus!
