//! Searching for users and posts.

use vstd::prelude::*;
use vstd::string::*;

use crate::markup::{join_with_spaces, join_words};
use crate::notifications::HeaderNotificationView;
use crate::number::{decimal, push_decimal};
use crate::page::PageHeader;
use crate::posts::{build_post_preview, post_preview};
use crate::profile::{local_profile_domain_matches, local_user_profile_path, profile_path};
use crate::text::{
    eq_ignore_case, is_white, law_pieces, law_trim, law_trim_fixed, lower, run_end, run_until,
    split_once, split_once_of, split_words, take_chars, trim, trim_start_matches, trim_start_of,
    trim_text, truncate_chars, words, words_from, CharClass,
};

verus! {

pub const SEARCH_TERM_MAX_CHARS: usize = 80;

pub const SEARCH_USERS_LIMIT: i64 = 30;

pub const SEARCH_POSTS_LIMIT: i64 = 40;

pub const SEARCH_COMMUNITIES_LIMIT: i64 = 40;

pub const SEARCH_POST_BODY_PREVIEW_CHARS: usize = 220;

pub struct SearchTemplate {
    pub title: String,
    pub id: i64,
    pub user_id: i32,
    pub is_moderator: bool,
    pub local_profile_domain: String,
    pub username: String,
    pub profile_photo_url: String,
    pub profile_photo_style: String,
    pub unread_notifications_count: i64,
    pub notifications: Vec<HeaderNotificationView>,
    pub searched: bool,
    pub search_term: String,
    pub users: Vec<SearchUserView>,
    pub posts: Vec<SearchPostView>,
}

pub struct SearchQuery {
    pub search: Option<String>,
}

pub struct SearchUserRow {
    pub username: String,
    pub preferred_username: String,
    pub profile_photo_url: String,
    pub profile_photo_style: String,
}

pub struct SearchPostRow {
    pub post_id: i64,
    pub author_username: String,
    pub author_profile_photo_url: String,
    pub author_profile_photo_style: String,
    pub body: String,
    pub link_url: String,
    pub first_image_url: String,
    pub created_at: String,
}

pub struct SearchUserView {
    pub preferred_username: String,
    pub profile_photo_url: String,
    pub profile_photo_style: String,
    pub profile_url: String,
    pub handle: String,
    pub is_remote: bool,
}

pub struct SearchPostView {
    pub author_username: String,
    pub author_handle: String,
    pub author_profile_url: String,
    pub author_profile_photo_url: String,
    pub author_profile_photo_style: String,
    pub body_preview: String,
    pub created_at: String,
    pub post_url: String,
    pub is_remote: bool,
}

// ---------------------------------------------------------------------------
// The term
// ---------------------------------------------------------------------------
/// What is searched for: the words of the text, with one space between them, cut off at the limit.
pub open spec fn search_term(raw: Seq<char>) -> Seq<char> {
    take_chars(join_words(words(raw)), SEARCH_TERM_MAX_CHARS as nat)
}

pub fn normalize_search_term(raw: &str) -> (r: String)
    ensures
        r@ == search_term(raw@),
        r@.len() <= SEARCH_TERM_MAX_CHARS,
{
    let collapsed: String = join_with_spaces(&split_words(raw));
    truncate_chars(collapsed.as_str(), SEARCH_TERM_MAX_CHARS)
}

proof fn lemma_words_are_not_empty(s: Seq<char>, i: int)
    ensures
        forall|k: int| 0 <= k < words_from(s, i).len() ==> (#[trigger] words_from(s, i)[k]).len() > 0,
    decreases s.len() - i,
{
    let a = run_end(s, CharClass::White, i);
    let b = run_until(s, CharClass::White, a);
    if !(i < 0 || a < i || a >= s.len() || b <= a || b > s.len()) {
        lemma_words_are_not_empty(s, b);
        assert(words_from(s, i) == seq![s.subrange(a, b)] + words_from(s, b));
    }
}

proof fn lemma_join_is_not_empty(w: Seq<Seq<char>>)
    requires
        w.len() > 0,
        w[0].len() > 0,
    ensures
        join_words(w).len() > 0,
    decreases w.len(),
{
    if w.len() > 1 {
        lemma_join_is_not_empty(w.drop_last());
    }
}

/// A search takes place exactly where the text holds a word.
pub proof fn law_search_needs_a_word(raw: Seq<char>)
    ensures
        (search_term(raw).len() > 0) == (words(raw).len() > 0),
{
    lemma_words_are_not_empty(raw, 0);
    if words(raw).len() > 0 {
        lemma_join_is_not_empty(words(raw));
    }
}

/// The terms by which local users are searched for.
pub struct UserSearchTerms {
    /// What a name has to hold.
    pub plain: String,
    /// What a name with its domain has to hold.
    pub handle: String,
}

/// The name that no local user has, searched for where the term names another domain.
pub const NO_LOCAL_USER: &'static str = "__instavox_no_local_user_match__";

/// What is searched for in names, and in names with their domain.
pub open spec fn user_terms(term: Seq<char>, domain: Seq<char>) -> (Seq<char>, Seq<char>) {
    let t = trim_start_of(trim(term), CharClass::Only('@'));
    match split_once_of(t, '@') {
        Some((name, host)) => if lower(host) == lower(domain) {
            (trim(name), t)
        } else {
            (NO_LOCAL_USER@, t)
        },
        None => (t, t),
    }
}

pub fn search_user_terms(term: &str, local_domain: &str) -> (r: UserSearchTerms)
    ensures
        (r.plain@, r.handle@) == user_terms(term@, local_domain@),
{
    let trimmed: String = trim_text(term);
    let normalized: String = trim_start_matches(trimmed.as_str(), CharClass::Only('@'));
    match split_once(normalized.as_str(), '@') {
        Some((name, host)) => {
            if local_profile_domain_matches(host.as_str(), local_domain) {
                UserSearchTerms { plain: trim_text(name.as_str()), handle: normalized }
            } else {
                UserSearchTerms { plain: NO_LOCAL_USER.to_owned(), handle: normalized }
            }
        },
        None => UserSearchTerms { plain: normalized.clone(), handle: normalized },
    }
}

/// The pattern for texts that hold a term.
pub fn like_pattern(term: &str) -> (r: String)
    ensures
        r@ == "%"@ + term@ + "%"@,
{
    let mut out: String = "%".to_owned();
    out.append(term);
    out.append("%");
    out
}

// ---------------------------------------------------------------------------
// Users
// ---------------------------------------------------------------------------
/// The handle of a local user.
pub open spec fn local_handle(username: Seq<char>, domain: Seq<char>) -> Seq<char> {
    "@"@ + username + "@"@ + domain
}

pub fn local_user_handle(username: &str, local_domain: &str) -> (r: String)
    ensures
        r@ == local_handle(username@, local_domain@),
{
    let mut out: String = "@".to_owned();
    out.append(username);
    out.append("@");
    out.append(local_domain);
    out
}

pub open spec fn is_local_user_view(v: SearchUserView, row: SearchUserRow, domain: Seq<char>) -> bool {
    &&& v.preferred_username == row.preferred_username
    &&& v.profile_photo_url == row.profile_photo_url
    &&& v.profile_photo_style == row.profile_photo_style
    &&& v.profile_url@ == profile_path(row.username@, domain)
    &&& v.handle@ == local_handle(row.username@, domain)
    &&& !v.is_remote
}

/// A local user in the results.
pub fn local_search_user(row: SearchUserRow, local_domain: &str) -> (r: SearchUserView)
    ensures
        is_local_user_view(r, row, local_domain@),
{
    SearchUserView {
        profile_url: local_user_profile_path(row.username.as_str(), local_domain),
        handle: local_user_handle(row.username.as_str(), local_domain),
        preferred_username: row.preferred_username,
        profile_photo_url: row.profile_photo_url,
        profile_photo_style: row.profile_photo_style,
        is_remote: false,
    }
}

/// Whether one of the users has the handle, upper and lower case alike.
pub open spec fn has_handle(users: Seq<SearchUserView>, handle: Seq<char>) -> bool {
    exists|i: int| 0 <= i < users.len() && lower((#[trigger] users[i]).handle@) == lower(handle)
}

fn handle_is_present(users: &Vec<SearchUserView>, handle: &str) -> (r: bool)
    ensures
        r == has_handle(users@, handle@),
{
    let mut i: usize = 0;
    while i < users.len()
        invariant
            i <= users.len(),
            forall|j: int| 0 <= j < i ==> lower((#[trigger] users@[j]).handle@) != lower(handle@),
        decreases users.len() - i,
    {
        if eq_ignore_case(users[i].handle.as_str(), handle) {
            assert(lower(users@[i as int].handle@) == lower(handle@));
            return true;
        }
        i = i + 1;
    }
    false
}

/// The users, followed by those of the first `n` others whose handle is not yet among them.
pub open spec fn with_others(
    users: Seq<SearchUserView>,
    others: Seq<SearchUserView>,
    n: int,
) -> Seq<SearchUserView>
    decreases n,
{
    if n <= 0 || n > others.len() {
        users
    } else {
        let before = with_others(users, others, n - 1);
        if has_handle(before, others[n - 1].handle@) {
            before
        } else {
            before.push(others[n - 1])
        }
    }
}

/// The users that a search gives: local ones, known remote ones behind them, and the remote one
/// that the term names in front, each handle once.
pub open spec fn found_users(
    local: Seq<SearchUserView>,
    known: Seq<SearchUserView>,
    exact: Option<SearchUserView>,
) -> Seq<SearchUserView> {
    let users = with_others(local, known, known.len() as int);
    match exact {
        Some(u) => if has_handle(users, u.handle@) {
            users
        } else {
            users.insert(0, u)
        },
        None => users,
    }
}

pub fn merge_search_users(
    local: Vec<SearchUserView>,
    known: Vec<SearchUserView>,
    exact: Option<SearchUserView>,
) -> (r: Vec<SearchUserView>)
    ensures
        r@ == found_users(local@, known@, exact),
{
    let ghost others = known@;
    let ghost mut n: int = 0;
    let mut users: Vec<SearchUserView> = local;
    let mut rest: Vec<SearchUserView> = known;
    assert(others.skip(0) =~= others);
    while rest.len() > 0
        invariant
            0 <= n <= others.len(),
            rest@ == others.skip(n),
            users@ == with_others(local@, others, n),
        decreases rest.len(),
    {
        assert(rest@[0] == others[n]);
        let user: SearchUserView = rest.remove(0);
        if !handle_is_present(&users, user.handle.as_str()) {
            users.push(user);
        }
        proof {
            assert(rest@ =~= others.skip(n + 1));
            n = n + 1;
        }
    }
    match exact {
        Some(user) => {
            if !handle_is_present(&users, user.handle.as_str()) {
                users.insert(0, user);
            }
        },
        None => {},
    }
    users
}

/// Whether no handle occurs twice.
pub open spec fn handles_are_distinct(users: Seq<SearchUserView>) -> bool {
    forall|i: int, j: int|
        #![trigger users[i], users[j]]
        0 <= i < j < users.len() ==> lower(users[i].handle@) != lower(users[j].handle@)
}

proof fn lemma_others_are_distinct(
    users: Seq<SearchUserView>,
    others: Seq<SearchUserView>,
    n: int,
)
    requires
        handles_are_distinct(users),
    ensures
        handles_are_distinct(with_others(users, others, n)),
    decreases n,
{
    if 0 < n <= others.len() {
        lemma_others_are_distinct(users, others, n - 1);
        let before = with_others(users, others, n - 1);
        let now = with_others(users, others, n);
        assert forall|i: int, j: int|
            #![trigger now[i], now[j]]
            0 <= i < j < now.len() implies lower(now[i].handle@) != lower(now[j].handle@) by {
            if j == before.len() {
                assert(lower(before[i].handle@) != lower(now[j].handle@));
            } else {
                assert(now[i] == before[i] && now[j] == before[j]);
            }
        }
    }
}

/// A search gives each user once.
pub proof fn law_found_users_are_distinct(
    local: Seq<SearchUserView>,
    known: Seq<SearchUserView>,
    exact: Option<SearchUserView>,
)
    requires
        handles_are_distinct(local),
    ensures
        handles_are_distinct(found_users(local, known, exact)),
{
    lemma_others_are_distinct(local, known, known.len() as int);
    let users = with_others(local, known, known.len() as int);
    let all = found_users(local, known, exact);
    if exact is Some && !has_handle(users, (exact->0).handle@) {
        assert forall|i: int, j: int|
            #![trigger all[i], all[j]]
            0 <= i < j < all.len() implies lower(all[i].handle@) != lower(all[j].handle@) by {
            assert(all[j] == users[j - 1]);
            if i > 0 {
                assert(all[i] == users[i - 1]);
            }
        }
    }
}

proof fn lemma_others_keep_users(users: Seq<SearchUserView>, others: Seq<SearchUserView>, n: int)
    ensures
        users.is_prefix_of(with_others(users, others, n)),
    decreases n,
{
    if 0 < n <= others.len() {
        lemma_others_keep_users(users, others, n - 1);
    }
}

/// A search gives all the local users that it found.
pub proof fn law_found_users_keep_local(
    local: Seq<SearchUserView>,
    known: Seq<SearchUserView>,
    exact: Option<SearchUserView>,
    i: int,
)
    requires
        0 <= i < local.len(),
    ensures
        found_users(local, known, exact).contains(local[i]),
{
    lemma_others_keep_users(local, known, known.len() as int);
    let users = with_others(local, known, known.len() as int);
    let all = found_users(local, known, exact);
    assert(users[i] == local[i]);
    assert(all == users || all[i + 1] == users[i]);
}

// ---------------------------------------------------------------------------
// Posts
// ---------------------------------------------------------------------------
pub open spec fn is_local_post_view(v: SearchPostView, row: SearchPostRow, domain: Seq<char>) -> bool {
    &&& v.author_username == row.author_username
    &&& v.author_handle@ == local_handle(row.author_username@, domain)
    &&& v.author_profile_url@ == profile_path(row.author_username@, domain)
    &&& v.author_profile_photo_url == row.author_profile_photo_url
    &&& v.author_profile_photo_style == row.author_profile_photo_style
    &&& v.body_preview@ == post_preview(
        row.body@,
        row.link_url@,
        row.first_image_url@,
        SEARCH_POST_BODY_PREVIEW_CHARS as nat,
    )
    &&& v.created_at == row.created_at
    &&& v.post_url@ == "/posts/"@ + decimal(row.post_id as int)
    &&& !v.is_remote
}

/// A local post in the results.
pub fn local_search_post(row: SearchPostRow, local_domain: &str) -> (r: SearchPostView)
    ensures
        is_local_post_view(r, row, local_domain@),
{
    let mut post_url: String = "/posts/".to_owned();
    push_decimal(&mut post_url, row.post_id);
    SearchPostView {
        author_handle: local_user_handle(row.author_username.as_str(), local_domain),
        author_profile_url: local_user_profile_path(row.author_username.as_str(), local_domain),
        author_username: row.author_username,
        author_profile_photo_url: row.author_profile_photo_url,
        author_profile_photo_style: row.author_profile_photo_style,
        body_preview: build_post_preview(
            row.body.as_str(),
            row.link_url.as_str(),
            row.first_image_url.as_str(),
            SEARCH_POST_BODY_PREVIEW_CHARS,
        ),
        created_at: row.created_at,
        post_url,
        is_remote: false,
    }
}

// ---------------------------------------------------------------------------
// The page
// ---------------------------------------------------------------------------
/// What the address of the search page asks for.
pub fn requested_term(query: &SearchQuery) -> (r: String)
    ensures
        r@ == match query.search {
            Some(raw) => search_term(raw@),
            None => ""@,
        },
{
    match &query.search {
        Some(raw) => normalize_search_term(raw.as_str()),
        None => "".to_owned(),
    }
}

/// The search page; without a term it shows no results.
pub fn search_page(
    header: PageHeader,
    term: String,
    users: Vec<SearchUserView>,
    local_posts: Vec<SearchPostView>,
    remote_posts: Vec<SearchPostView>,
) -> (r: SearchTemplate)
    ensures
        r.title@ == "Search"@,
        r.id == header.id,
        r.user_id == header.user_id,
        r.is_moderator == header.is_moderator,
        r.local_profile_domain == header.local_profile_domain,
        r.username == header.username,
        r.profile_photo_url == header.profile_photo_url,
        r.profile_photo_style == header.profile_photo_style,
        r.unread_notifications_count == header.unread_notifications_count,
        r.notifications == header.notifications,
        r.search_term == term,
        r.searched == (term@.len() > 0),
        r.searched ==> r.users == users && r.posts@ == local_posts@ + remote_posts@,
        !r.searched ==> r.users.len() == 0 && r.posts.len() == 0,
{
    let searched: bool = !term.as_str().is_empty();
    let mut posts: Vec<SearchPostView> = Vec::new();
    let mut shown: Vec<SearchUserView> = Vec::new();
    if searched {
        let mut remote: Vec<SearchPostView> = remote_posts;
        posts = local_posts;
        posts.append(&mut remote);
        shown = users;
    }
    SearchTemplate {
        title: "Search".to_owned(),
        id: header.id,
        user_id: header.user_id,
        is_moderator: header.is_moderator,
        local_profile_domain: header.local_profile_domain,
        username: header.username,
        profile_photo_url: header.profile_photo_url,
        profile_photo_style: header.profile_photo_style,
        unread_notifications_count: header.unread_notifications_count,
        notifications: header.notifications,
        searched,
        search_term: term,
        users: shown,
        posts,
    }
}

proof fn lemma_with_others(users: Seq<SearchUserView>, others: Seq<SearchUserView>, n: int)
    requires
        0 <= n <= others.len(),
    ensures
        users.is_prefix_of(with_others(users, others, n)),
        forall|i: int|
            0 <= i < n ==> has_handle(
                with_others(users, others, n),
                (#[trigger] others[i]).handle@,
            ),
        forall|k: int|
            users.len() <= k < with_others(users, others, n).len() ==> others.contains(
                #[trigger] with_others(users, others, n)[k],
            ),
    decreases n,
{
    if n > 0 {
        lemma_with_others(users, others, n - 1);
        let before = with_others(users, others, n - 1);
        let all = with_others(users, others, n);
        assert(before.is_prefix_of(all));
        assert forall|i: int| 0 <= i < n implies has_handle(all, (#[trigger] others[i]).handle@) by {
            if i < n - 1 || has_handle(before, others[n - 1].handle@) {
                assert(has_handle(before, others[i].handle@));
                let k = choose|k: int|
                    0 <= k < before.len() && lower((#[trigger] before[k]).handle@) == lower(
                        others[i].handle@,
                    );
                assert(all[k] == before[k]);
            } else {
                assert(all[before.len() as int] == others[i]);
            }
        }
        assert forall|k: int| users.len() <= k < all.len() implies others.contains(
            #[trigger] all[k],
        ) by {
            if k < before.len() {
                assert(all[k] == before[k]);
            } else {
                assert(others[n - 1] == all[k]);
            }
        }
    }
}

/// Nobody who was found is left out: each known remote user and the one that the term names are
/// among the results, by their handle or by that of a user found before.
pub proof fn law_found_users_leave_nobody_out(
    local: Seq<SearchUserView>,
    known: Seq<SearchUserView>,
    exact: Option<SearchUserView>,
    i: int,
)
    ensures
        0 <= i < known.len() ==> has_handle(found_users(local, known, exact), known[i].handle@),
        exact matches Some(u) ==> has_handle(found_users(local, known, exact), u.handle@),
{
    let users = with_others(local, known, known.len() as int);
    let all = found_users(local, known, exact);
    lemma_with_others(local, known, known.len() as int);
    if 0 <= i < known.len() {
        assert(has_handle(users, known[i].handle@));
        let k = choose|k: int|
            0 <= k < users.len() && lower((#[trigger] users[k]).handle@) == lower(
                known[i].handle@,
            );
        if all.len() == users.len() {
            assert(all[k] == users[k]);
        } else {
            assert(all[k + 1] == users[k]);
        }
    }
    if let Some(u) = exact {
        if !has_handle(users, u.handle@) {
            assert(all[0] == u);
        }
    }
}

/// Nobody is made up: each result was found here, is a known remote user, or is the one that the
/// term names. The one that the term names comes first where they are new; the local users keep
/// their order, before the known remote ones.
pub proof fn law_found_users_come_from_the_searches(
    local: Seq<SearchUserView>,
    known: Seq<SearchUserView>,
    exact: Option<SearchUserView>,
)
    ensures
        ({
            let all = found_users(local, known, exact);
            let start: int = if exact is Some && all.len() > 0 && all[0] == exact->0 && !has_handle(
                with_others(local, known, known.len() as int),
                (exact->0).handle@,
            ) {
                1
            } else {
                0
            };
            &&& all.len() >= start + local.len()
            &&& forall|k: int| 0 <= k < local.len() ==> #[trigger] all[start + k] == local[k]
            &&& forall|k: int|
                start + local.len() <= k < all.len() ==> known.contains(#[trigger] all[k])
        }),
{
    let users = with_others(local, known, known.len() as int);
    let all = found_users(local, known, exact);
    lemma_with_others(local, known, known.len() as int);
    if exact is Some && !has_handle(users, (exact->0).handle@) {
        assert(all == users.insert(0, exact->0));
        assert forall|k: int| 0 <= k < local.len() implies #[trigger] all[1 + k] == local[k] by {
            assert(all[1 + k] == users[k]);
        }
        assert forall|k: int| 1 + local.len() <= k < all.len() implies known.contains(
            #[trigger] all[k],
        ) by {
            assert(all[k] == users[k - 1]);
        }
    }
}

/// What is searched for is never longer than 80 characters, and begins with the first word.
pub proof fn law_search_term_is_short(raw: Seq<char>)
    ensures
        search_term(raw).len() <= 80,
        search_term(raw).is_prefix_of(join_words(words(raw))),
        join_words(words(raw)).len() <= 80 ==> search_term(raw) == join_words(words(raw)),
{
}

/// A search by name looks for it in names and in handles alike; the sign before it does not count.
pub proof fn law_name_searches(name: Seq<char>, domain: Seq<char>)
    requires
        trim(name) == name,
        name.len() > 0,
        !name.contains('@'),
    ensures
        user_terms(name, domain) == (name, name),
        user_terms("@"@ + name, domain) == (name, name),
{
    reveal_strlit("@");
    lemma_sign_goes(name);
    law_pieces(name, '@', Seq::empty());
}

/// A search by handle looks for the name on this site; one of another site finds nobody here by
/// name.
pub proof fn law_handle_searches(name: Seq<char>, host: Seq<char>, domain: Seq<char>)
    requires
        trim(name) == name,
        name.len() > 0,
        !name.contains('@'),
        trim(host) == host,
        host.len() > 0,
    ensures
        lower(host) == lower(domain) ==> user_terms(name.push('@') + host, domain) == (
            name,
            name.push('@') + host,
        ),
        lower(host) != lower(domain) ==> user_terms(name.push('@') + host, domain) == (
            "__instavox_no_local_user_match__"@,
            name.push('@') + host,
        ),
{
    let t = name.push('@') + host;
    assert(!is_white(name[0])) by {
        law_trim(name, CharClass::White);
    }
    assert(!is_white(host.last())) by {
        law_trim(host, CharClass::White);
    }
    assert(t[0] == name[0] && t.last() == host.last());
    law_trim_fixed(t, CharClass::White);
    lemma_no_sign_first(t);
    law_pieces(name, '@', host);
}

proof fn lemma_no_sign_first(t: Seq<char>)
    requires
        t.len() > 0,
        t[0] != '@',
    ensures
        trim_start_of(t, CharClass::Only('@')) == t,
{
    assert(run_end(t, CharClass::Only('@'), 0) == 0);
    assert(t.subrange(0, t.len() as int) =~= t);
}

proof fn lemma_sign_goes(name: Seq<char>)
    requires
        trim(name) == name,
        name.len() > 0,
        !name.contains('@'),
    ensures
        trim_start_of(name, CharClass::Only('@')) == name,
        trim("@"@ + name) == "@"@ + name,
        trim_start_of("@"@ + name, CharClass::Only('@')) == name,
{
    reveal_strlit("@");
    let k = CharClass::Only('@');
    let t = "@"@ + name;
    assert(name.contains(name[0]));
    lemma_no_sign_first(name);
    assert(!is_white(name.last())) by {
        law_trim(name, CharClass::White);
    }
    assert(t[0] == '@' && t.last() == name.last() && t[1] == name[0]);
    law_trim_fixed(t, CharClass::White);
    assert(run_end(t, k, 1) == 1);
    assert(run_end(t, k, 0) == 1);
    assert(t.subrange(1, t.len() as int) =~= name);
}

/// Search results show local users and posts as they are stored, under handles and addresses of
/// this site.
pub proof fn law_local_results(
    u: SearchUserView,
    user: SearchUserRow,
    p: SearchPostView,
    post: SearchPostRow,
    domain: Seq<char>,
)
    requires
        is_local_user_view(u, user, domain),
        is_local_post_view(p, post, domain),
    ensures
        u.preferred_username == user.preferred_username,
        u.profile_photo_url == user.profile_photo_url && u.profile_photo_style
            == user.profile_photo_style,
        u.handle@ == "@"@ + user.username@ + "@"@ + domain,
        u.profile_url@ == profile_path(user.username@, domain),
        !u.is_remote,
        p.author_username == post.author_username && p.created_at == post.created_at,
        p.author_handle@ == "@"@ + post.author_username@ + "@"@ + domain,
        p.author_profile_url@ == profile_path(post.author_username@, domain),
        p.author_profile_photo_url == post.author_profile_photo_url,
        p.author_profile_photo_style == post.author_profile_photo_style,
        p.post_url@ == "/posts/"@ + decimal(post.post_id as int),
        p.body_preview@ == post_preview(post.body@, post.link_url@, post.first_image_url@, 220),
        !p.is_remote,
{
}

} // verus!
