//! Profiles: their addresses, who is looked up, and what of a profile its visitors see.

use std::collections::BTreeSet;
use vstd::prelude::*;
use vstd::string::*;

use crate::encoding::{encode_form_text, form_encoded, law_encoding_is_injective};
use crate::friends::{
    IncomingFriendRequestView, OutgoingFriendRequestView, PendingFriendRequest, RelationshipLists,
    RelationshipUser,
};
use crate::notifications::HeaderNotificationView;
use crate::number::{parse_i64, parse_integer};
use crate::page::{PageHeader, DEFAULT_BACKGROUND_PHOTO_URL, DEFAULT_PROFILE_PHOTO_URL};
use crate::posts::IndexPostView;
use crate::ranking::{
    in_order, law_sorted_in_order, law_sorted_keeps_entries, lemma_next_position,
    sort_ranked, sorted, Ranked,
};
use crate::text::{
    eq_ignore_case, is_before, is_white, law_pieces, law_text_order, law_text_order_transitive,
    law_trim, law_trim_fixed, law_trim_idempotent, lemma_run_until, lower, opt_str, opt_view,
    run_end, run_until, split_once, split_once_of, str_eq, text_before, to_lower, trim,
    trim_start_matches, trim_start_of, trim_text, CharClass,
};
use crate::web::{back_path, redirect, referer_path_of, Reply, ReplyView};

verus! {

broadcast use vstd::laws_cmp::group_laws_cmp;

pub const MODERATOR_TEAM_USERNAME: &'static str = "instavox-team";

// ---------------------------------------------------------------------------
// Addresses
// ---------------------------------------------------------------------------
/// The domain of the profiles of this site: the configured one, or the default.
pub fn local_profile_domain(configured: Option<&str>) -> (r: String)
    ensures
        r@ == match opt_str(configured) {
            Some(domain) => domain,
            None => "instavox.social"@,
        },
{
    match configured {
        Some(domain) => domain.to_owned(),
        None => "instavox.social".to_owned(),
    }
}

/// The address of this site: the configured one, or that of the domain.
pub fn public_base_url(configured: Option<&str>, local_domain: &str) -> (r: String)
    ensures
        r@ == match opt_str(configured) {
            Some(url) => url,
            None => "https://"@ + local_domain@,
        },
{
    match configured {
        Some(url) => url.to_owned(),
        None => {
            let mut out: String = "https://".to_owned();
            out.append(local_domain);
            out
        },
    }
}

/// Whether a domain is that of this site, upper and lower case alike.
pub fn local_profile_domain_matches(candidate: &str, local_domain: &str) -> (r: bool)
    ensures
        r == (lower(candidate@) == lower(local_domain@)),
{
    eq_ignore_case(candidate, local_domain)
}

/// The path of a local profile.
pub open spec fn profile_path(username: Seq<char>, domain: Seq<char>) -> Seq<char> {
    "/user/"@ + trim(username) + "@"@ + domain
}

pub fn local_user_profile_path(username: &str, local_domain: &str) -> (r: String)
    ensures
        r@ == profile_path(username@, local_domain@),
{
    let mut out: String = "/user/".to_owned();
    out.append(trim_text(username).as_str());
    out.append("@");
    out.append(local_domain);
    out
}

/// The page that a request came from, or the settings.
pub fn redirect_back_path(referer: Option<&str>) -> (r: String)
    ensures
        r@ == back_path(opt_str(referer), "/settings"@),
{
    match referer_path_of(referer) {
        Some(path) => path,
        None => "/settings".to_owned(),
    }
}

/// The address under which other servers know a local user.
pub open spec fn local_actor_id(username: Seq<char>, base: Seq<char>) -> Seq<char> {
    base + "/ap/users/"@ + form_encoded(username)
}

/// The addresses under which other servers reach a local user: the user, inbox and outbox.
pub fn build_local_actor_urls(username: &str, base_url: &str) -> (r: (String, String, String))
    ensures
        r.0@ == local_actor_id(username@, base_url@),
        r.1@ == local_actor_id(username@, base_url@) + "/inbox"@,
        r.2@ == local_actor_id(username@, base_url@) + "/outbox"@,
{
    let encoded: String = encode_form_text(username);
    let mut actor_id: String = base_url.to_owned();
    actor_id.append("/ap/users/");
    actor_id.append(encoded.as_str());
    let mut inbox: String = actor_id.clone();
    inbox.append("/inbox");
    let mut outbox: String = actor_id.clone();
    outbox.append("/outbox");
    (actor_id, inbox, outbox)
}

/// Two local users never share an address.
pub proof fn law_actor_ids_are_distinct(a: Seq<char>, b: Seq<char>, base: Seq<char>)
    requires
        local_actor_id(a, base) == local_actor_id(b, base),
    ensures
        a == b,
{
    let n = (base + "/ap/users/"@).len() as int;
    assert(form_encoded(a) =~= local_actor_id(a, base).skip(n));
    assert(form_encoded(b) =~= local_actor_id(b, base).skip(n));
    law_encoding_is_injective(a, b);
}

// ---------------------------------------------------------------------------
// Who is meant
// ---------------------------------------------------------------------------
/// The local user that a text names: a bare name, or a name at the domain of this site.
pub open spec fn local_username(raw: Seq<char>, domain: Seq<char>) -> Option<Seq<char>> {
    let t = trim(raw);
    if t.len() == 0 {
        None
    } else {
        match split_once_of(t, '@') {
            Some((name, host)) => {
                if trim(name).len() == 0 || trim(host).len() == 0 || lower(trim(host)) != lower(
                    domain,
                ) {
                    None
                } else {
                    Some(trim(name))
                }
            },
            None => Some(t),
        }
    }
}

pub fn parse_local_username_lookup(raw: &str, local_domain: &str) -> (r: Option<String>)
    ensures
        opt_view(r) == local_username(raw@, local_domain@),
{
    let lookup: String = trim_text(raw);
    if lookup.as_str().is_empty() {
        return None;
    }
    match split_once(lookup.as_str(), '@') {
        Some((name, host)) => {
            let name: String = trim_text(name.as_str());
            let host: String = trim_text(host.as_str());
            if name.as_str().is_empty() || host.as_str().is_empty()
                || !local_profile_domain_matches(host.as_str(), local_domain) {
                None
            } else {
                Some(name)
            }
        },
        None => Some(lookup),
    }
}

pub proof fn lemma_split_handle(name: Seq<char>, domain: Seq<char>)
    requires
        !name.contains('@'),
    ensures
        split_once_of(name + "@"@ + domain, '@') == Some((name, domain)),
{
    reveal_strlit("@");
    let t = name + "@"@ + domain;
    lemma_run_until(t, CharClass::Only('@'), 0);
    let b = run_until(t, CharClass::Only('@'), 0);
    assert(t[name.len() as int] == '@');
    assert forall|i: int| 0 <= i < name.len() implies t[i] != '@' by {
        assert(name.contains(name[i]));
    }
    assert(b == name.len());
    assert(t.take(b) =~= name);
    assert(t.skip(b + 1) =~= domain);
}

/// The path of a profile names the user whose profile it is, where the name holds no `@`.
pub proof fn law_profile_path_round_trip(username: Seq<char>, domain: Seq<char>)
    requires
        trim(username).len() > 0,
        !trim(username).contains('@'),
        trim(domain) == domain,
        domain.len() > 0,
    ensures
        local_username(profile_path(username, domain).skip("/user/"@.len() as int), domain)
            == Some(trim(username)),
{
    let name = trim(username);
    let t = name + "@"@ + domain;
    assert(profile_path(username, domain).skip("/user/"@.len() as int) =~= t);
    assert(trim(t) == t) by {
        law_trim(username, CharClass::White);
        law_trim(domain, CharClass::White);
        assert(t[0] == name[0]);
        assert(t.last() == domain.last());
        law_trim_fixed(t, CharClass::White);
    }
    lemma_split_handle(name, domain);
    law_trim_idempotent(username, CharClass::White);
}

/// Which local profile a page asks for.
pub enum ProfileLookup {
    Nobody,
    Username(String),
    PublicId(i64),
}

/// Whether a lookup is the one that the address of a page asks for.
pub open spec fn is_profile_lookup(l: ProfileLookup, raw: Seq<char>, domain: Seq<char>) -> bool {
    let t = trim(raw);
    match split_once_of(t, '@') {
        Some(_) => match local_username(raw, domain) {
            Some(name) => l matches ProfileLookup::Username(n) && n@ == name,
            None => l is Nobody,
        },
        None => match parse_integer(t, i64::MIN as int, i64::MAX as int) {
            Some(id) => l matches ProfileLookup::PublicId(n) && n == id,
            None => if t.len() == 0 {
                l is Nobody
            } else {
                l matches ProfileLookup::Username(n) && n@ == t
            },
        },
    }
}

/// Reads which local profile a page asks for.
pub fn read_profile_lookup(raw: &str, local_domain: &str) -> (r: ProfileLookup)
    ensures
        is_profile_lookup(r, raw@, local_domain@),
{
    let lookup: String = trim_text(raw);
    match split_once(lookup.as_str(), '@') {
        Some(_) => match parse_local_username_lookup(raw, local_domain) {
            Some(name) => ProfileLookup::Username(name),
            None => ProfileLookup::Nobody,
        },
        None => match parse_i64(lookup.as_str()) {
            Some(id) => ProfileLookup::PublicId(id),
            None => if lookup.as_str().is_empty() {
                ProfileLookup::Nobody
            } else {
                ProfileLookup::Username(lookup)
            },
        },
    }
}

/// The name and the domain of the remote user that the address of a page asks for.
pub open spec fn remote_lookup(raw: Seq<char>, domain: Seq<char>) -> Option<
    (Seq<char>, Seq<char>),
> {
    match split_once_of(trim(raw), '@') {
        Some((name, host)) => {
            let n = trim_start_of(trim(name), CharClass::Only('@'));
            let h = trim(host);
            if n.len() == 0 || h.len() == 0 || lower(h) == lower(domain) {
                None
            } else {
                Some((n, lower(h)))
            }
        },
        None => None,
    }
}

/// Reads which remote profile a page asks for.
pub fn read_remote_lookup(raw: &str, local_domain: &str) -> (r: Option<(String, String)>)
    ensures
        r is Some == remote_lookup(raw@, local_domain@) is Some,
        r matches Some(p) ==> remote_lookup(raw@, local_domain@) == Some((p.0@, p.1@)),
{
    let lookup: String = trim_text(raw);
    match split_once(lookup.as_str(), '@') {
        Some((name, host)) => {
            let trimmed: String = trim_text(name.as_str());
            let name: String = trim_start_matches(trimmed.as_str(), CharClass::Only('@'));
            let host: String = trim_text(host.as_str());
            if name.as_str().is_empty() || host.as_str().is_empty()
                || local_profile_domain_matches(host.as_str(), local_domain) {
                None
            } else {
                let lowered: String = to_lower(host.as_str());
                Some((name, lowered))
            }
        },
        None => None,
    }
}

/// A page asks for a local or for a remote profile, never for both.
pub proof fn law_lookup_is_local_or_remote(l: ProfileLookup, raw: Seq<char>, domain: Seq<char>)
    requires
        is_profile_lookup(l, raw, domain),
        remote_lookup(raw, domain) is Some,
    ensures
        l is Nobody,
{
}

/// Where a user is sent who asks for their own profile.
pub fn user_redirect(
    logged_in: bool,
    session_username: &str,
    stored_username: Option<&str>,
    local_domain: &str,
) -> (r: Reply)
    ensures
        r@ == ReplyView::Redirect(
            if !logged_in {
                "/login"@
            } else if trim(session_username@).len() > 0 {
                profile_path(session_username@, local_domain@)
            } else {
                match opt_str(stored_username) {
                    Some(name) => profile_path(name, local_domain@),
                    None => "/login"@,
                }
            },
        ),
{
    if !logged_in {
        return redirect("/login");
    }
    if !trim_text(session_username).as_str().is_empty() {
        return Reply::Redirect(local_user_profile_path(session_username, local_domain));
    }
    match stored_username {
        Some(name) => Reply::Redirect(local_user_profile_path(name, local_domain)),
        None => redirect("/login"),
    }
}

// ---------------------------------------------------------------------------
// The profile that a page shows
// ---------------------------------------------------------------------------
/// A stored local profile.
pub struct ProfileUser {
    pub id: i32,
    pub public_id: i64,
    pub profile_photo_url: String,
    pub profile_photo_style: String,
    pub background_photo_url: String,
    pub background_photo_style: String,
    pub username: String,
    pub birthday: String,
    pub birthday_public: bool,
    pub created_at: String,
    pub first_name: String,
    pub first_name_public: bool,
    pub last_name: String,
    pub last_name_public: bool,
    pub email: String,
    pub bio_description: String,
}

/// A stored remote profile.
pub struct RemoteProfileUserRow {
    pub actor_id: String,
    pub preferred_username: String,
    pub display_name: String,
    pub summary: String,
    pub icon_url: String,
    pub host: String,
}

/// What a query for one row gave.
pub enum Loaded<T> {
    Found(T),
    Missing,
    Failed,
}

/// The profile that a page is about.
pub struct ViewedProfile {
    pub found: bool,
    pub id: i32,
    pub public_id: i64,
    pub photo_url: String,
    pub photo_style: String,
    pub background_photo_url: String,
    pub background_photo_style: String,
    pub username: String,
    pub birthday: String,
    pub birthday_public: bool,
    pub created_at: String,
    pub first_name: String,
    pub first_name_public: bool,
    pub last_name: String,
    pub last_name_public: bool,
    pub email: String,
    pub bio_description: String,
    pub is_remote: bool,
    pub remote_url: String,
}

pub open spec fn views_local(v: ViewedProfile, p: ProfileUser) -> bool {
    &&& v.found
    &&& v.id == p.id
    &&& v.public_id == p.public_id
    &&& v.photo_url == p.profile_photo_url
    &&& v.photo_style == p.profile_photo_style
    &&& v.background_photo_url == p.background_photo_url
    &&& v.background_photo_style == p.background_photo_style
    &&& v.username == p.username
    &&& v.birthday == p.birthday
    &&& v.birthday_public == p.birthday_public
    &&& v.created_at == p.created_at
    &&& v.first_name == p.first_name
    &&& v.first_name_public == p.first_name_public
    &&& v.last_name == p.last_name
    &&& v.last_name_public == p.last_name_public
    &&& v.email == p.email
    &&& v.bio_description == p.bio_description
    &&& !v.is_remote
    &&& v.remote_url@ == ""@
}

pub open spec fn views_remote(v: ViewedProfile, p: RemoteProfileUserRow) -> bool {
    &&& v.found
    &&& v.id == 0
    &&& v.public_id == 0
    &&& v.photo_url == p.icon_url
    &&& v.photo_style@ == ""@
    &&& v.background_photo_url@ == DEFAULT_BACKGROUND_PHOTO_URL@
    &&& v.background_photo_style@ == ""@
    &&& v.username@ == trim(p.preferred_username@) + "@"@ + trim(p.host@)
    &&& v.birthday@ == ""@
    &&& !v.birthday_public
    &&& v.created_at@ == ""@
    &&& v.first_name == p.display_name
    &&& v.first_name_public
    &&& v.last_name@ == ""@
    &&& !v.last_name_public
    &&& v.email@ == ""@
    &&& v.bio_description == p.summary
    &&& v.is_remote
    &&& v.remote_url == p.actor_id
}

pub open spec fn views_nobody(v: ViewedProfile) -> bool {
    &&& !v.found
    &&& v.id == 0
    &&& v.public_id == 0
    &&& v.photo_url@ == DEFAULT_PROFILE_PHOTO_URL@
    &&& v.photo_style@ == ""@
    &&& v.background_photo_url@ == DEFAULT_BACKGROUND_PHOTO_URL@
    &&& v.background_photo_style@ == ""@
    &&& v.username@ == ""@
    &&& v.birthday@ == ""@
    &&& !v.birthday_public
    &&& v.created_at@ == ""@
    &&& v.first_name@ == ""@
    &&& !v.first_name_public
    &&& v.last_name@ == ""@
    &&& !v.last_name_public
    &&& v.email@ == ""@
    &&& v.bio_description@ == ""@
    &&& !v.is_remote
    &&& v.remote_url@ == ""@
}

fn no_profile() -> (r: ViewedProfile)
    ensures
        views_nobody(r),
{
    ViewedProfile {
        found: false,
        id: 0,
        public_id: 0,
        photo_url: DEFAULT_PROFILE_PHOTO_URL.to_owned(),
        photo_style: "".to_owned(),
        background_photo_url: DEFAULT_BACKGROUND_PHOTO_URL.to_owned(),
        background_photo_style: "".to_owned(),
        username: "".to_owned(),
        birthday: "".to_owned(),
        birthday_public: false,
        created_at: "".to_owned(),
        first_name: "".to_owned(),
        first_name_public: false,
        last_name: "".to_owned(),
        last_name_public: false,
        email: "".to_owned(),
        bio_description: "".to_owned(),
        is_remote: false,
        remote_url: "".to_owned(),
    }
}

/// Picks the profile that a page is about: a local one before a remote one.
pub fn resolve_profile(
    local: Loaded<ProfileUser>,
    remote: Loaded<RemoteProfileUserRow>,
) -> (r: ViewedProfile)
    ensures
        match (local, remote) {
            (Loaded::Found(p), _) => views_local(r, p),
            (Loaded::Missing, Loaded::Found(p)) => views_remote(r, p),
            _ => views_nobody(r),
        },
{
    match local {
        Loaded::Found(p) => ViewedProfile {
            found: true,
            id: p.id,
            public_id: p.public_id,
            photo_url: p.profile_photo_url,
            photo_style: p.profile_photo_style,
            background_photo_url: p.background_photo_url,
            background_photo_style: p.background_photo_style,
            username: p.username,
            birthday: p.birthday,
            birthday_public: p.birthday_public,
            created_at: p.created_at,
            first_name: p.first_name,
            first_name_public: p.first_name_public,
            last_name: p.last_name,
            last_name_public: p.last_name_public,
            email: p.email,
            bio_description: p.bio_description,
            is_remote: false,
            remote_url: "".to_owned(),
        },
        Loaded::Missing => match remote {
            Loaded::Found(p) => {
                let mut handle: String = trim_text(p.preferred_username.as_str());
                handle.append("@");
                handle.append(trim_text(p.host.as_str()).as_str());
                ViewedProfile {
                    found: true,
                    id: 0,
                    public_id: 0,
                    photo_url: p.icon_url,
                    photo_style: "".to_owned(),
                    background_photo_url: DEFAULT_BACKGROUND_PHOTO_URL.to_owned(),
                    background_photo_style: "".to_owned(),
                    username: handle,
                    birthday: "".to_owned(),
                    birthday_public: false,
                    created_at: "".to_owned(),
                    first_name: p.display_name,
                    first_name_public: true,
                    last_name: "".to_owned(),
                    last_name_public: false,
                    email: "".to_owned(),
                    bio_description: p.summary,
                    is_remote: true,
                    remote_url: p.actor_id,
                }
            },
            Loaded::Missing => no_profile(),
            Loaded::Failed => no_profile(),
        },
        Loaded::Failed => no_profile(),
    }
}

// ---------------------------------------------------------------------------
// The friends that a page shows
// ---------------------------------------------------------------------------
/// A friend of the user of a profile; a user who became one twice has two rows.
pub struct ProfileFriendRow {
    pub user_id: i32,
    pub public_id: i64,
    pub username: String,
    pub profile_photo_url: String,
    pub profile_photo_style: String,
}

pub struct ProfileFriendView {
    pub public_id: i64,
    pub username: String,
    pub profile_photo_url: String,
    pub profile_photo_style: String,
}

impl Ranked for ProfileFriendView {
    /// Friends stand by name, upper and lower case alike, then by public number.
    open spec fn ranks_before(&self, other: &Self) -> bool {
        let a = lower(self.username@);
        let b = lower(other.username@);
        text_before(a, b) || (a == b && self.public_id < other.public_id)
    }

    fn is_ranked_before(&self, other: &Self) -> (r: bool) {
        let a: String = to_lower(self.username.as_str());
        let b: String = to_lower(other.username.as_str());
        if is_before(a.as_str(), b.as_str()) {
            return true;
        }
        str_eq(a.as_str(), b.as_str()) && self.public_id < other.public_id
    }
}

pub open spec fn has_friend_row(rows: Seq<ProfileFriendRow>, user_id: i32) -> bool {
    exists|i: int| 0 <= i < rows.len() && (#[trigger] rows[i]).user_id == user_id
}

/// Of the first `n` rows the first one for each user.
pub open spec fn first_rows(rows: Seq<ProfileFriendRow>, n: int) -> Seq<ProfileFriendRow>
    decreases n,
{
    if n <= 0 || n > rows.len() {
        Seq::empty()
    } else if has_friend_row(rows.take(n - 1), rows[n - 1].user_id) {
        first_rows(rows, n - 1)
    } else {
        first_rows(rows, n - 1).push(rows[n - 1])
    }
}

pub open spec fn friend_view(row: ProfileFriendRow) -> ProfileFriendView {
    ProfileFriendView {
        public_id: row.public_id,
        username: row.username,
        profile_photo_url: row.profile_photo_url,
        profile_photo_style: row.profile_photo_style,
    }
}

pub open spec fn friend_views(rows: Seq<ProfileFriendRow>) -> Seq<ProfileFriendView> {
    rows.map_values(|row: ProfileFriendRow| friend_view(row))
}

/// The friends that a profile shows: each user once, sorted by name.
pub fn list_profile_friends(rows: &Vec<ProfileFriendRow>) -> (r: Vec<ProfileFriendView>)
    ensures
        r@ == sorted(friend_views(first_rows(rows@, rows.len() as int))),
{
    let mut seen: BTreeSet<i32> = BTreeSet::new();
    let mut friends: Vec<ProfileFriendView> = Vec::new();
    let mut i: usize = 0;
    assert(friends@ =~= friend_views(first_rows(rows@, 0)));
    while i < rows.len()
        invariant
            i <= rows.len(),
            forall|id: i32| #[trigger] seen@.contains(id) == has_friend_row(rows@.take(i as int), id),
            friends@ == friend_views(first_rows(rows@, i as int)),
        decreases rows.len() - i,
    {
        let row: &ProfileFriendRow = &rows[i];
        let known: bool = seen.contains(&row.user_id);
        let ghost before = rows@.take(i as int);
        let ghost after = rows@.take(i + 1);
        let ghost kept = first_rows(rows@, i as int);
        proof {
            assert(after =~= before.push(rows@[i as int]));
            assert forall|id: i32|
                has_friend_row(after, id) == (has_friend_row(before, id) || id == row.user_id) by {
                if has_friend_row(before, id) {
                    let k = choose|k: int| 0 <= k < before.len() && (#[trigger] before[k]).user_id == id;
                    assert(after[k].user_id == id);
                }
                if id == row.user_id {
                    assert(after[i as int].user_id == id);
                }
                if has_friend_row(after, id) {
                    let k = choose|k: int| 0 <= k < after.len() && (#[trigger] after[k]).user_id == id;
                    if k < i {
                        assert(before[k].user_id == id);
                    }
                }
            }
        }
        if !known {
            seen.insert(row.user_id);
            friends.push(
                ProfileFriendView {
                    public_id: row.public_id,
                    username: row.username.clone(),
                    profile_photo_url: row.profile_photo_url.clone(),
                    profile_photo_style: row.profile_photo_style.clone(),
                },
            );
            assert(friend_views(kept.push(rows@[i as int])) =~= friend_views(kept).push(
                friend_view(rows@[i as int]),
            ));
        }
        i = i + 1;
    }
    assert(rows@.take(rows.len() as int) =~= rows@);
    sort_ranked(friends)
}

/// A profile shows no friend twice.
pub proof fn law_friends_are_distinct(rows: Seq<ProfileFriendRow>, n: int)
    requires
        0 <= n <= rows.len(),
    ensures
        forall|i: int, j: int|
            #![trigger first_rows(rows, n)[i], first_rows(rows, n)[j]]
            0 <= i < j < first_rows(rows, n).len() ==> first_rows(rows, n)[i].user_id
                != first_rows(rows, n)[j].user_id,
        forall|i: int|
            0 <= i < first_rows(rows, n).len() ==> has_friend_row(
                rows.take(n),
                (#[trigger] first_rows(rows, n)[i]).user_id,
            ),
    decreases n,
{
    if n > 0 {
        law_friends_are_distinct(rows, n - 1);
        let before = first_rows(rows, n - 1);
        let now = first_rows(rows, n);
        assert forall|i: int| 0 <= i < now.len() implies has_friend_row(
            rows.take(n),
            (#[trigger] now[i]).user_id,
        ) by {
            if i < before.len() {
                assert(has_friend_row(rows.take(n - 1), before[i].user_id));
                let k = choose|k: int|
                    0 <= k < rows.take(n - 1).len() && (#[trigger] rows.take(n - 1)[k]).user_id
                        == before[i].user_id;
                assert(rows.take(n)[k] == rows.take(n - 1)[k]);
            } else {
                assert(rows.take(n)[n - 1].user_id == now[i].user_id);
            }
        }
        assert forall|i: int, j: int|
            #![trigger now[i], now[j]]
            0 <= i < j < now.len() implies now[i].user_id != now[j].user_id by {
            if j == before.len() {
                assert(has_friend_row(rows.take(n - 1), before[i].user_id));
            }
        }
    }
}

/// A profile shows its friends in order of their names.
pub proof fn law_friends_are_in_order(rows: Seq<ProfileFriendRow>)
    ensures
        in_order(sorted(friend_views(first_rows(rows, rows.len() as int)))),
{
    assert forall|a: ProfileFriendView, b: ProfileFriendView| #[trigger]
        a.ranks_before(&b) implies !b.ranks_before(&a) by {
        law_text_order(lower(a.username@), lower(b.username@));
    }
    assert forall|a: ProfileFriendView, b: ProfileFriendView, c: ProfileFriendView|
        #![trigger a.ranks_before(&b), b.ranks_before(&c)]
        !a.ranks_before(&b) && !b.ranks_before(&c) implies !a.ranks_before(&c) by {
        let (x, y, z) = (lower(a.username@), lower(b.username@), lower(c.username@));
        law_text_order(x, y);
        law_text_order(y, z);
        law_text_order(x, z);
        if text_before(y, x) && text_before(z, y) {
            law_text_order_transitive(z, y, x);
        }
    }
    let views = friend_views(first_rows(rows, rows.len() as int));
    law_sorted_in_order(views, views.len() as int);
}

// ---------------------------------------------------------------------------
// The page of a profile
// ---------------------------------------------------------------------------
/// An image that a user has uploaded.
pub struct UploadedUserImageView {
    pub upload_id: i64,
    pub media_type: String,
    pub file_url: String,
    pub created_at: String,
}

pub struct UserTemplate {
    pub title: String,
    pub id: i64,
    pub user_id: i32,
    pub is_moderator: bool,
    pub local_profile_domain: String,
    pub username: String,
    pub profile_found: bool,
    pub profile_id: i32,
    pub profile_public_id: i64,
    pub profile_photo_url: String,
    pub profile_photo_style: String,
    pub viewed_profile_photo_url: String,
    pub viewed_profile_photo_style: String,
    pub profile_background_photo_url: String,
    pub profile_background_photo_style: String,
    pub profile_username: String,
    pub profile_display_name: String,
    pub has_visible_profile_name: bool,
    pub profile_birthday: String,
    pub can_view_profile_birthday: bool,
    pub profile_created_at: String,
    pub profile_first_name: String,
    pub profile_last_name: String,
    pub profile_email: String,
    pub profile_bio_description: String,
    pub is_instavox_team_profile: bool,
    pub is_remote_profile: bool,
    pub remote_profile_url: String,
    pub pending_requests: Vec<PendingFriendRequest>,
    pub incoming_requests: Vec<IncomingFriendRequestView>,
    pub outgoing_requests: Vec<OutgoingFriendRequestView>,
    pub friendships: Vec<RelationshipUser>,
    pub blocked_users: Vec<RelationshipUser>,
    pub has_friendship_with_profile: bool,
    pub has_incoming_request_from_profile: bool,
    pub incoming_request_id_for_profile: i32,
    pub has_outgoing_request_to_profile: bool,
    pub has_following_profile: bool,
    pub has_blocked_profile: bool,
    pub is_own_profile: bool,
    pub profile_posts: Vec<IndexPostView>,
    pub profile_friends: Vec<ProfileFriendView>,
    pub profile_uploaded_images: Vec<UploadedUserImageView>,
    pub unread_notifications_count: i64,
    pub notifications: Vec<HeaderNotificationView>,
}

/// What a visitor sees of a private or public part of a profile.
pub open spec fn visible_part(own: bool, public: bool, value: Seq<char>) -> Seq<char> {
    if own || public {
        value
    } else {
        ""@
    }
}

/// The name above a profile, made of the names that the visitor sees.
pub open spec fn display_name(first_name: Seq<char>, last_name: Seq<char>) -> Seq<char> {
    trim(trim(first_name) + " "@ + trim(last_name))
}

fn visible(own: bool, public: bool, value: String) -> (r: String)
    ensures
        r@ == visible_part(own, public, value@),
{
    if own || public {
        value
    } else {
        "".to_owned()
    }
}

pub open spec fn has_user(users: Seq<RelationshipUser>, user_id: i32) -> bool {
    exists|i: int| 0 <= i < users.len() && (#[trigger] users[i]).user_id == user_id
}

fn is_among(users: &Vec<RelationshipUser>, user_id: i32) -> (r: bool)
    ensures
        r == has_user(users@, user_id),
{
    let mut i: usize = 0;
    while i < users.len()
        invariant
            i <= users.len(),
            forall|j: int| 0 <= j < i ==> (#[trigger] users@[j]).user_id != user_id,
        decreases users.len() - i,
    {
        if users[i].user_id == user_id {
            assert(users@[i as int].user_id == user_id);
            return true;
        }
        i = i + 1;
    }
    false
}

pub open spec fn has_request_to(requests: Seq<OutgoingFriendRequestView>, user_id: i32) -> bool {
    exists|i: int| 0 <= i < requests.len() && (#[trigger] requests[i]).receiver_id == user_id
}

fn is_requested(requests: &Vec<OutgoingFriendRequestView>, user_id: i32) -> (r: bool)
    ensures
        r == has_request_to(requests@, user_id),
{
    let mut i: usize = 0;
    while i < requests.len()
        invariant
            i <= requests.len(),
            forall|j: int| 0 <= j < i ==> (#[trigger] requests@[j]).receiver_id != user_id,
        decreases requests.len() - i,
    {
        if requests[i].receiver_id == user_id {
            assert(requests@[i as int].receiver_id == user_id);
            return true;
        }
        i = i + 1;
    }
    false
}

/// The number of the first request from position `i` on that the user sent, or zero.
pub open spec fn request_from(
    requests: Seq<IncomingFriendRequestView>,
    user_id: i32,
    i: int,
) -> i32
    decreases requests.len() - i,
{
    if i < 0 || i >= requests.len() {
        0
    } else if requests[i].sender_id == user_id {
        requests[i].request_id
    } else {
        request_from(requests, user_id, i + 1)
    }
}

fn first_request_from(requests: &Vec<IncomingFriendRequestView>, user_id: i32) -> (r: i32)
    ensures
        r == request_from(requests@, user_id, 0),
{
    let mut i: usize = 0;
    while i < requests.len()
        invariant
            i <= requests.len(),
            request_from(requests@, user_id, i as int) == request_from(requests@, user_id, 0),
        decreases requests.len() - i,
    {
        if requests[i].sender_id == user_id {
            return requests[i].request_id;
        }
        i = i + 1;
    }
    0
}

/// Whether it has to be looked up that a visitor follows the user of a profile.
pub fn may_follow_profile(current_user_id: Option<i32>, profile: &ViewedProfile) -> (r: bool)
    ensures
        r == (current_user_id is Some && profile.found && current_user_id != Some(profile.id)),
{
    match current_user_id {
        Some(id) => profile.found && id != profile.id,
        None => false,
    }
}

/// Whether a profile is that of the visitor.
pub open spec fn is_own(visitor_public_id: i64, profile: ViewedProfile) -> bool {
    profile.found && visitor_public_id != 0 && visitor_public_id == profile.public_id
}

/// What the page says of the profile itself.
pub open spec fn shows_profile(r: UserTemplate, visitor: i64, p: ViewedProfile) -> bool {
    let own = is_own(visitor, p);
    let first = visible_part(own, p.first_name_public, p.first_name@);
    let last = visible_part(own, p.last_name_public, p.last_name@);
    &&& r.title@ == if p.found {
        "@"@ + p.username@ + " on Instavox"@
    } else {
        "User not found - Instavox"@
    }
    &&& r.profile_found == p.found
    &&& r.profile_id == p.id
    &&& r.profile_public_id == p.public_id
    &&& r.viewed_profile_photo_url == p.photo_url
    &&& r.viewed_profile_photo_style == p.photo_style
    &&& r.profile_background_photo_url == p.background_photo_url
    &&& r.profile_background_photo_style == p.background_photo_style
    &&& r.profile_username == p.username
    &&& r.is_own_profile == own
    &&& r.can_view_profile_birthday == (own || p.birthday_public)
    &&& r.profile_birthday@ == visible_part(own, p.birthday_public, p.birthday@)
    &&& r.profile_first_name@ == first
    &&& r.profile_last_name@ == last
    &&& r.profile_display_name@ == display_name(first, last)
    &&& r.has_visible_profile_name == (display_name(first, last).len() > 0)
    &&& r.profile_created_at == p.created_at
    &&& r.profile_email == p.email
    &&& r.profile_bio_description == p.bio_description
    &&& r.is_instavox_team_profile == (p.found && !p.is_remote && lower(p.username@) == lower(
        MODERATOR_TEAM_USERNAME@,
    ))
    &&& r.is_remote_profile == p.is_remote
    &&& r.remote_profile_url == p.remote_url
}

/// What the page says of the relationships between the visitor and the user of the profile.
pub open spec fn shows_relationships(r: UserTemplate, id: i32, lists: RelationshipLists) -> bool {
    &&& r.pending_requests == lists.pending_requests
    &&& r.incoming_requests == lists.incoming_requests
    &&& r.outgoing_requests == lists.outgoing_requests
    &&& r.friendships == lists.friendships
    &&& r.blocked_users == lists.blocked_users
    &&& r.has_friendship_with_profile == has_user(lists.friendships@, id)
    &&& r.incoming_request_id_for_profile == request_from(lists.incoming_requests@, id, 0)
    &&& r.has_incoming_request_from_profile == (request_from(lists.incoming_requests@, id, 0) != 0)
    &&& r.has_outgoing_request_to_profile == has_request_to(lists.outgoing_requests@, id)
    &&& r.has_blocked_profile == has_user(lists.blocked_users@, id)
}

/// The page of a profile.
pub fn user_page(
    header: PageHeader,
    profile: ViewedProfile,
    lists: RelationshipLists,
    has_following_profile: bool,
    profile_posts: Vec<IndexPostView>,
    profile_friends: Vec<ProfileFriendView>,
    profile_uploaded_images: Vec<UploadedUserImageView>,
) -> (r: UserTemplate)
    ensures
        r.id == header.id,
        r.user_id == header.user_id,
        r.is_moderator == header.is_moderator,
        r.local_profile_domain == header.local_profile_domain,
        r.username == header.username,
        r.profile_photo_url == header.profile_photo_url,
        r.profile_photo_style == header.profile_photo_style,
        r.unread_notifications_count == header.unread_notifications_count,
        r.notifications == header.notifications,
        shows_profile(r, header.id, profile),
        shows_relationships(r, profile.id, lists),
        r.has_following_profile == has_following_profile,
        r.profile_posts == profile_posts,
        r.profile_friends == profile_friends,
        r.profile_uploaded_images == profile_uploaded_images,
{
    let own: bool = profile.found && header.id != 0 && header.id == profile.public_id;
    let title: String = if profile.found {
        let mut t: String = "@".to_owned();
        t.append(profile.username.as_str());
        t.append(" on Instavox");
        t
    } else {
        "User not found - Instavox".to_owned()
    };
    let is_team: bool = profile.found && !profile.is_remote && eq_ignore_case(
        profile.username.as_str(),
        MODERATOR_TEAM_USERNAME,
    );
    let can_view_birthday: bool = own || profile.birthday_public;
    let birthday: String = visible(own, profile.birthday_public, profile.birthday);
    let first_name: String = visible(own, profile.first_name_public, profile.first_name);
    let last_name: String = visible(own, profile.last_name_public, profile.last_name);
    let mut names: String = trim_text(first_name.as_str());
    names.append(" ");
    names.append(trim_text(last_name.as_str()).as_str());
    let name: String = trim_text(names.as_str());
    let has_name: bool = !name.as_str().is_empty();
    let has_friendship: bool = is_among(&lists.friendships, profile.id);
    let incoming_request_id: i32 = first_request_from(&lists.incoming_requests, profile.id);
    let has_outgoing: bool = is_requested(&lists.outgoing_requests, profile.id);
    let has_blocked: bool = is_among(&lists.blocked_users, profile.id);
    UserTemplate {
        title,
        id: header.id,
        user_id: header.user_id,
        is_moderator: header.is_moderator,
        local_profile_domain: header.local_profile_domain,
        username: header.username,
        profile_found: profile.found,
        profile_id: profile.id,
        profile_public_id: profile.public_id,
        profile_photo_url: header.profile_photo_url,
        profile_photo_style: header.profile_photo_style,
        viewed_profile_photo_url: profile.photo_url,
        viewed_profile_photo_style: profile.photo_style,
        profile_background_photo_url: profile.background_photo_url,
        profile_background_photo_style: profile.background_photo_style,
        profile_username: profile.username,
        profile_display_name: name,
        has_visible_profile_name: has_name,
        profile_birthday: birthday,
        can_view_profile_birthday: can_view_birthday,
        profile_created_at: profile.created_at,
        profile_first_name: first_name,
        profile_last_name: last_name,
        profile_email: profile.email,
        profile_bio_description: profile.bio_description,
        is_instavox_team_profile: is_team,
        is_remote_profile: profile.is_remote,
        remote_profile_url: profile.remote_url,
        pending_requests: lists.pending_requests,
        incoming_requests: lists.incoming_requests,
        outgoing_requests: lists.outgoing_requests,
        friendships: lists.friendships,
        blocked_users: lists.blocked_users,
        has_friendship_with_profile: has_friendship,
        has_incoming_request_from_profile: incoming_request_id != 0,
        incoming_request_id_for_profile: incoming_request_id,
        has_outgoing_request_to_profile: has_outgoing,
        has_following_profile,
        has_blocked_profile: has_blocked,
        is_own_profile: own,
        profile_posts,
        profile_friends,
        profile_uploaded_images,
        unread_notifications_count: header.unread_notifications_count,
        notifications: header.notifications,
    }
}

/// A visitor sees nothing of the names and the birthday that a profile keeps private.
pub proof fn law_private_parts_stay_hidden(r: UserTemplate, visitor: i64, p: ViewedProfile)
    requires
        shows_profile(r, visitor, p),
        !is_own(visitor, p),
    ensures
        !p.birthday_public ==> r.profile_birthday@ == ""@,
        !p.first_name_public ==> r.profile_first_name@ == ""@ && r.profile_display_name@
            == display_name(""@, r.profile_last_name@),
        !p.last_name_public ==> r.profile_last_name@ == ""@ && r.profile_display_name@
            == display_name(r.profile_first_name@, ""@),
        !p.first_name_public && !p.last_name_public ==> !r.has_visible_profile_name,
{
    reveal_strlit("");
    reveal_strlit(" ");
    let e = Seq::<char>::empty();
    assert(""@ =~= e);
    assert(trim(e) =~= e);
    let s = e + " "@ + e;
    assert(s =~= seq![' ']);
    reveal_with_fuel(run_end, 3);
    assert(run_end(s, CharClass::White, 0) == 1);
    assert(trim(s) =~= e);
}

// ---------------------------------------------------------------------------
// The page of a profile
// ---------------------------------------------------------------------------
/// The owner of a profile sees their names and their birthday, and every visitor sees those that
/// are public.
pub proof fn law_profile_page_shows_what_is_stored(
    r: UserTemplate,
    visitor: i64,
    v: ViewedProfile,
    p: ProfileUser,
)
    requires
        views_local(v, p),
        shows_profile(r, visitor, v),
    ensures
        ({
            let own = visitor != 0 && visitor == p.public_id;
            &&& r.is_own_profile == own
            &&& own || p.birthday_public ==> r.profile_birthday@ == p.birthday@
            &&& own || p.first_name_public ==> r.profile_first_name@ == p.first_name@
            &&& own || p.last_name_public ==> r.profile_last_name@ == p.last_name@
            &&& !own && !p.birthday_public ==> r.profile_birthday@.len() == 0
                && !r.can_view_profile_birthday
            &&& !own && !p.first_name_public ==> r.profile_first_name@.len() == 0
            &&& !own && !p.last_name_public ==> r.profile_last_name@.len() == 0
            &&& r.profile_found
            &&& r.profile_id == p.id
            &&& r.profile_public_id == p.public_id
            &&& r.profile_username == p.username
            &&& r.profile_bio_description == p.bio_description
            &&& r.viewed_profile_photo_url == p.profile_photo_url
            &&& r.viewed_profile_photo_style == p.profile_photo_style
            &&& r.profile_background_photo_url == p.background_photo_url
            &&& r.profile_background_photo_style == p.background_photo_style
            &&& r.profile_created_at == p.created_at
            &&& !r.is_remote_profile
        }),
{
    reveal_strlit("");
}

/// The name above a profile is made of both names with a space between them, or of the one that is
/// seen.
pub proof fn law_profile_names(first: Seq<char>, last: Seq<char>)
    ensures
        trim(first).len() > 0 && trim(last).len() > 0 ==> display_name(first, last) == trim(first)
            + " "@ + trim(last),
        trim(first).len() == 0 && trim(last).len() == 0 ==> display_name(first, last).len() == 0,
{
    reveal_strlit(" ");
    let k = CharClass::White;
    law_trim(first, k);
    law_trim(last, k);
    let whole = trim(first) + " "@ + trim(last);
    if trim(first).len() > 0 && trim(last).len() > 0 {
        assert(whole[0] == trim(first)[0]);
        assert(whole.last() == trim(last).last());
        law_trim_fixed(whole, k);
    }
    if trim(first).len() == 0 && trim(last).len() == 0 {
        law_trim(whole, k);
        assert(whole =~= " "@);
        if trim(whole).len() > 0 {
            let (i, j) = choose|i: int, j: int|
                #![trigger whole.subrange(i, j)]
                0 <= i <= j <= whole.len() && trim(whole) == whole.subrange(i, j);
            assert(trim(whole)[0] == ' ');
        }
    }
}

/// What a page says of the relationships of the visitor to a profile is what the lists say.
pub proof fn law_profile_relationships(r: UserTemplate, id: i32, lists: RelationshipLists)
    requires
        shows_relationships(r, id, lists),
    ensures
        r.has_friendship_with_profile <==> exists|i: int|
            0 <= i < lists.friendships.len() && (#[trigger] lists.friendships[i]).user_id == id,
        r.has_blocked_profile <==> exists|i: int|
            0 <= i < lists.blocked_users.len() && (#[trigger] lists.blocked_users[i]).user_id == id,
        r.has_outgoing_request_to_profile <==> exists|i: int|
            0 <= i < lists.outgoing_requests.len() && (
            #[trigger] lists.outgoing_requests[i]).receiver_id == id,
        (forall|i: int|
            0 <= i < lists.incoming_requests.len() ==> (
            #[trigger] lists.incoming_requests[i]).sender_id != id)
            ==> !r.has_incoming_request_from_profile && r.incoming_request_id_for_profile == 0,
        forall|i: int|
            0 <= i < lists.incoming_requests.len() && (
            #[trigger] lists.incoming_requests[i]).sender_id == id && (forall|j: int|
                0 <= j < i ==> (#[trigger] lists.incoming_requests[j]).sender_id != id)
                ==> r.incoming_request_id_for_profile == lists.incoming_requests[i].request_id,
{
    lemma_request_from(lists.incoming_requests@, id, 0);
    if exists|i: int|
        0 <= i < lists.friendships.len() && (#[trigger] lists.friendships[i]).user_id == id {
        let i = choose|i: int|
            0 <= i < lists.friendships.len() && (#[trigger] lists.friendships[i]).user_id == id;
        assert(lists.friendships@[i].user_id == id);
    }
    if exists|i: int|
        0 <= i < lists.blocked_users.len() && (#[trigger] lists.blocked_users[i]).user_id == id {
        let i = choose|i: int|
            0 <= i < lists.blocked_users.len() && (#[trigger] lists.blocked_users[i]).user_id == id;
        assert(lists.blocked_users@[i].user_id == id);
    }
    if exists|i: int|
        0 <= i < lists.outgoing_requests.len() && (#[trigger] lists.outgoing_requests[i]).receiver_id
            == id {
        let i = choose|i: int|
            0 <= i < lists.outgoing_requests.len() && (
            #[trigger] lists.outgoing_requests[i]).receiver_id == id;
        assert(lists.outgoing_requests@[i].receiver_id == id);
    }
}

proof fn lemma_request_from(requests: Seq<IncomingFriendRequestView>, id: i32, i: int)
    requires
        0 <= i <= requests.len(),
    ensures
        (forall|k: int| i <= k < requests.len() ==> (#[trigger] requests[k]).sender_id != id)
            ==> request_from(requests, id, i) == 0,
        forall|k: int|
            i <= k < requests.len() && (#[trigger] requests[k]).sender_id == id && (forall|j: int|
                i <= j < k ==> (#[trigger] requests[j]).sender_id != id) ==> request_from(
                requests,
                id,
                i,
            ) == requests[k].request_id,
    decreases requests.len() - i,
{
    if i < requests.len() && requests[i].sender_id != id {
        lemma_request_from(requests, id, i + 1);
    }
    if i < requests.len() && requests[i].sender_id == id {
        assert forall|k: int|
            i <= k < requests.len() && (#[trigger] requests[k]).sender_id == id && (forall|j: int|
                i <= j < k ==> (#[trigger] requests[j]).sender_id != id) implies request_from(
            requests,
            id,
            i,
        ) == requests[k].request_id by {
            if k > i {
                assert(requests[i].sender_id != id);
            }
        }
    }
}

/// The first row of each user is one of the rows, and each user has one.
proof fn lemma_first_rows(rows: Seq<ProfileFriendRow>, n: int)
    requires
        0 <= n <= rows.len(),
    ensures
        forall|k: int| 0 <= k < first_rows(rows, n).len() ==> rows.contains(
            #[trigger] first_rows(rows, n)[k],
        ),
        forall|i: int|
            0 <= i < n ==> has_friend_row(first_rows(rows, n), (#[trigger] rows[i]).user_id),
    decreases n,
{
    if n > 0 {
        lemma_first_rows(rows, n - 1);
        let before = first_rows(rows, n - 1);
        let all = first_rows(rows, n);
        let id = rows[n - 1].user_id;
        if has_friend_row(rows.take(n - 1), id) {
            let j = choose|j: int|
                0 <= j < rows.take(n - 1).len() && (#[trigger] rows.take(n - 1)[j]).user_id == id;
            assert(rows[j].user_id == id);
            assert(has_friend_row(before, rows[j].user_id));
        } else {
            assert(all[before.len() as int].user_id == id);
            assert forall|i: int| 0 <= i < n implies has_friend_row(
                all,
                (#[trigger] rows[i]).user_id,
            ) by {
                if i < n - 1 {
                    let x = rows[i].user_id;
                    assert(has_friend_row(before, x));
                    let k = choose|k: int|
                        0 <= k < before.len() && (#[trigger] before[k]).user_id == x;
                    assert(all[k] == before[k]);
                }
            }
            assert(rows.contains(rows[n - 1]));
        }
    }
}

/// Whether one of the rows of a user is shown.
pub open spec fn shows_friend(
    r: Seq<ProfileFriendView>,
    rows: Seq<ProfileFriendRow>,
    user_id: i32,
) -> bool {
    exists|k: int, j: int|
        0 <= k < r.len() && 0 <= j < rows.len() && rows[j].user_id == user_id && is_view_of(
            #[trigger] r[k],
            #[trigger] rows[j],
        )
}

/// Whether a friend is shown by one of the rows.
pub open spec fn is_view_of_one(v: ProfileFriendView, rows: Seq<ProfileFriendRow>) -> bool {
    exists|j: int| 0 <= j < rows.len() && is_view_of(v, #[trigger] rows[j])
}

/// A profile shows every friend, each by one of the rows that are stored of them, and nobody else.
pub proof fn law_all_friends_are_shown(rows: Seq<ProfileFriendRow>)
    ensures
        ({
            let r = sorted(friend_views(first_rows(rows, rows.len() as int)));
            &&& forall|i: int|
                0 <= i < rows.len() ==> shows_friend(r, rows, (#[trigger] rows[i]).user_id)
            &&& forall|k: int| 0 <= k < r.len() ==> is_view_of_one(#[trigger] r[k], rows)
        }),
{
    let first = first_rows(rows, rows.len() as int);
    let listed = friend_views(first);
    let r = sorted(listed);
    lemma_first_rows(rows, rows.len() as int);
    law_sorted_keeps_entries(listed, listed.len() as int);
    assert(listed.take(listed.len() as int) =~= listed);
    listed.to_multiset_ensures();
    r.to_multiset_ensures();
    assert forall|i: int| 0 <= i < rows.len() implies shows_friend(
        r,
        rows,
        (#[trigger] rows[i]).user_id,
    ) by {
        let id = rows[i].user_id;
        assert(has_friend_row(first, id));
        let m = choose|m: int| 0 <= m < first.len() && (#[trigger] first[m]).user_id == id;
        assert(rows.contains(first[m]));
        let j = choose|j: int| 0 <= j < rows.len() && rows[j] == first[m];
        let x = listed[m];
        assert(listed.contains(x));
        assert(listed.to_multiset().count(x) > 0);
        assert(r.contains(x));
        let k = choose|k: int| 0 <= k < r.len() && r[k] == x;
        assert(is_view_of(r[k], rows[j]));
    }
    assert forall|k: int| 0 <= k < r.len() implies is_view_of_one(#[trigger] r[k], rows) by {
        let x = r[k];
        assert(r.contains(x));
        assert(r.to_multiset().count(x) > 0);
        assert(listed.contains(x));
        let m = choose|m: int| 0 <= m < listed.len() && listed[m] == x;
        assert(rows.contains(first[m]));
        let j = choose|j: int| 0 <= j < rows.len() && rows[j] == first[m];
        assert(is_view_of(x, rows[j]));
    }
}

/// Whether a friend is shown as a row says.
pub open spec fn is_view_of(v: ProfileFriendView, row: ProfileFriendRow) -> bool {
    &&& v.public_id == row.public_id
    &&& v.username == row.username
    &&& v.profile_photo_url == row.profile_photo_url
    &&& v.profile_photo_style == row.profile_photo_style
}

/// The friends of a profile stand by their names in lower case, and those of one name by number.
pub proof fn law_friends_stand_by_name(rows: Seq<ProfileFriendRow>, i: int, j: int)
    requires
        0 <= i < j < sorted(friend_views(first_rows(rows, rows.len() as int))).len(),
    ensures
        ({
            let r = sorted(friend_views(first_rows(rows, rows.len() as int)));
            let a = lower(r[i].username@);
            let b = lower(r[j].username@);
            !text_before(b, a) && (a == b ==> r[i].public_id <= r[j].public_id)
        }),
{
    law_friends_are_in_order(rows);
}

/// A bare text asks for the local user of that name, or of that public number where it is one.
pub proof fn law_bare_lookups(l: ProfileLookup, raw: Seq<char>, domain: Seq<char>)
    requires
        is_profile_lookup(l, raw, domain),
        split_once_of(trim(raw), '@') is None,
        trim(raw).len() > 0,
    ensures
        match parse_integer(trim(raw), i64::MIN as int, i64::MAX as int) {
            Some(id) => l matches ProfileLookup::PublicId(n) && n == id,
            None => l matches ProfileLookup::Username(n) && n@ == trim(raw),
        },
        local_username(raw, domain) == Some(trim(raw)),
        remote_lookup(raw, domain) is None,
{
}

/// A remote user is viewed as their server presents them, and somebody unknown as nobody.
pub proof fn law_remote_profiles(v: ViewedProfile, p: RemoteProfileUserRow, nobody: ViewedProfile)
    requires
        views_remote(v, p),
        views_nobody(nobody),
    ensures
        v.found && v.is_remote && v.id == 0 && v.public_id == 0,
        v.username@ == trim(p.preferred_username@) + "@"@ + trim(p.host@),
        v.first_name == p.display_name && v.first_name_public && !v.last_name_public
            && !v.birthday_public,
        v.photo_url == p.icon_url && v.bio_description == p.summary && v.remote_url == p.actor_id,
        v.email@.len() == 0 && v.birthday@.len() == 0 && v.last_name@.len() == 0,
        !nobody.found && !nobody.is_remote && nobody.id == 0 && nobody.public_id == 0,
        nobody.username@.len() == 0 && nobody.email@.len() == 0 && nobody.first_name@.len() == 0
            && nobody.last_name@.len() == 0 && nobody.birthday@.len() == 0
            && nobody.bio_description@.len() == 0 && nobody.remote_url@.len() == 0,
        !nobody.first_name_public && !nobody.last_name_public && !nobody.birthday_public,
{
    reveal_strlit("");
}

/// A handle of this site, whatever the case of the domain, looks for the local user of that name;
/// one of another site for the remote user.
pub proof fn law_handle_lookups(
    l: ProfileLookup,
    name: Seq<char>,
    host: Seq<char>,
    domain: Seq<char>,
)
    requires
        trim(name) == name,
        name.len() > 0,
        !name.contains('@'),
        trim(host) == host,
        host.len() > 0,
        is_profile_lookup(l, name.push('@') + host, domain),
    ensures
        lower(host) == lower(domain) ==> (l matches ProfileLookup::Username(n) && n@ == name),
        lower(host) == lower(domain) ==> local_username(name.push('@') + host, domain) == Some(
            name,
        ) && remote_lookup(name.push('@') + host, domain) is None,
        lower(host) != lower(domain) ==> l is Nobody && local_username(
            name.push('@') + host,
            domain,
        ) is None && remote_lookup(name.push('@') + host, domain) == Some((name, lower(host))),
{
    let t = name.push('@') + host;
    let k = CharClass::Only('@');
    assert(!is_white(name[0])) by {
        law_trim(name, CharClass::White);
    }
    assert(!is_white(host.last())) by {
        law_trim(host, CharClass::White);
    }
    assert(t[0] == name[0] && t.last() == host.last());
    law_trim_fixed(t, CharClass::White);
    law_pieces(name, '@', host);
    assert(name.contains(name[0]));
    assert(run_end(name, k, 0) == 0);
    assert(name.subrange(0, name.len() as int) =~= name);
}

/// A page is headed by the name of its user; it shows the address and the site of the profile, and
/// knows the page of the team.
pub proof fn law_profile_page_heads(r: UserTemplate, visitor: i64, p: ViewedProfile)
    requires
        shows_profile(r, visitor, p),
    ensures
        p.found ==> r.title@ == "@"@ + p.username@ + " on Instavox"@,
        !p.found ==> r.title@ == "User not found - Instavox"@,
        r.profile_found == p.found,
        r.profile_email == p.email,
        r.is_remote_profile == p.is_remote && r.remote_profile_url == p.remote_url,
        r.is_instavox_team_profile <==> p.found && !p.is_remote && lower(p.username@) == lower(
            MODERATOR_TEAM_USERNAME@,
        ),
        r.has_visible_profile_name <==> r.profile_display_name@.len() > 0,
        r.profile_display_name@ == display_name(r.profile_first_name@, r.profile_last_name@),
{
}

} // verus!
