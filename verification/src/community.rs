//! Communities: their pages, who may do what in them, and their addresses.

use std::collections::BTreeSet;
use vstd::prelude::*;
use vstd::string::*;

use crate::notifications::HeaderNotificationView;
use crate::number::{decimal, law_decimal_round_trip, push_decimal};
use crate::page::{PageHeader, DEFAULT_PROFILE_PHOTO_URL};
use crate::posts::IndexPostView;
use crate::ranking::{are_positions, lemma_next_position};
use crate::text::{
    chars_of, eq_ignore_case, is_alnum, is_alnum_char, law_trim_fixed, lower, lower_char,
    lower_of_char, opt_str, opt_view, str_eq, string_of, take_chars, to_lower, trim, trim_matches,
    trim_of, trim_text, truncate_chars, CharClass,
};
use crate::uploads::{crop_style, crop_style_from_form, SelectUploadedImageForm};
use crate::visibility::{POST_VISIBILITY_PRIVATE, POST_VISIBILITY_PUBLIC};
use crate::web::{answers, redirect, Reply, ReplyView, Step, FORBIDDEN, NOT_FOUND};

verus! {

broadcast use vstd::laws_cmp::group_laws_cmp;

pub const MAX_COMMUNITY_NAME_CHARS: usize = 120;

pub const MAX_COMMUNITY_SLUG_CHARS: usize = 80;

pub const MAX_COMMUNITY_DESCRIPTION_CHARS: usize = 1200;

pub const MAX_COMMUNITY_RULE_TITLE_CHARS: usize = 140;

pub const MAX_COMMUNITY_RULE_BODY_CHARS: usize = 2000;

pub struct CommunitiesQuery {
    pub sort: Option<String>,
    pub create_status: Option<String>,
}

pub struct CommunitiesTemplate {
    pub title: String,
    pub id: i64,
    pub user_id: i32,
    pub is_moderator: bool,
    pub local_profile_domain: String,
    pub username: String,
    pub profile_photo_url: String,
    pub profile_photo_style: String,
    pub unread_notifications_count: i64,
    pub notifications: Vec<HeaderNotificationView>,
    pub create_message: String,
    pub create_success: bool,
    pub joined_communities: Vec<CommunityPageView>,
    pub communities: Vec<CommunityPageView>,
}

pub struct CommunityTemplate {
    pub title: String,
    pub id: i64,
    pub user_id: i32,
    pub is_moderator: bool,
    pub local_profile_domain: String,
    pub username: String,
    pub profile_photo_url: String,
    pub profile_photo_style: String,
    pub unread_notifications_count: i64,
    pub notifications: Vec<HeaderNotificationView>,
    pub active_sort: String,
    pub community_rules: Vec<CommunityRuleView>,
    pub community_moderators: Vec<CommunityModeratorView>,
    pub found: bool,
    pub can_manage: bool,
    pub can_team_moderate: bool,
    pub is_member: bool,
    pub can_quit: bool,
    pub can_join: bool,
    pub is_ignored: bool,
    pub can_view_posts: bool,
    pub can_create_post: bool,
    pub posts: Vec<IndexPostView>,
    pub community: CommunityPageView,
}

pub struct CommunitySettingsTemplate {
    pub title: String,
    pub id: i64,
    pub user_id: i32,
    pub is_moderator: bool,
    pub local_profile_domain: String,
    pub username: String,
    pub profile_photo_url: String,
    pub profile_photo_style: String,
    pub unread_notifications_count: i64,
    pub notifications: Vec<HeaderNotificationView>,
    pub found: bool,
    pub can_manage: bool,
    pub manage_message: String,
    pub manage_success: bool,
    pub uploaded_profile_images: Vec<String>,
    pub community_rules: Vec<CommunityRuleView>,
    pub community_moderators: Vec<CommunityModeratorView>,
    pub moderator_candidates: Vec<CommunityModeratorView>,
    pub community: CommunityPageView,
}

pub struct CommunityPageView {
    pub community_id: i64,
    pub slug: String,
    pub name: String,
    pub description: String,
    pub visibility: String,
    pub member_count: i64,
    pub post_count: i64,
    pub profile_photo_url: String,
    pub profile_photo_style: String,
    pub owner_user_id: i32,
    pub owner_username: String,
    pub created_at: String,
}

/// A stored community, whose owner may be gone.
pub struct CommunitySearchRow {
    pub community_id: i64,
    pub slug: String,
    pub name: String,
    pub description: String,
    pub visibility: String,
    pub member_count: i64,
    pub post_count: i64,
    pub profile_photo_url: String,
    pub profile_photo_style: String,
    pub owner_user_id: Option<i32>,
    pub owner_username: String,
    pub created_at: String,
}

pub struct CreateCommunityForm {
    pub name: String,
    pub slug: Option<String>,
    pub description: Option<String>,
}

pub struct CommunityRuleView {
    pub rule_id: i64,
    pub title: String,
    pub body: String,
    pub sort_order: i32,
}

pub struct AddCommunityRuleForm {
    pub title: String,
    pub body: Option<String>,
    pub sort_order: Option<i32>,
}

pub struct UpdateCommunityRuleForm {
    pub title: String,
    pub body: Option<String>,
    pub sort_order: Option<i32>,
}

pub struct AddCommunityModeratorForm {
    pub moderator_lookup: String,
}

pub struct UpdateCommunityForm {
    pub name: String,
    pub description: Option<String>,
}

pub struct CommunityDetailQuery {
    pub status: Option<String>,
    pub sort: Option<String>,
}

pub struct CommunityModeratorView {
    pub user_id: i32,
    pub username: String,
    pub preferred_username: String,
    pub profile_photo_url: String,
    pub profile_photo_style: String,
    pub is_owner: bool,
}

// ---------------------------------------------------------------------------
// Slugs
// ---------------------------------------------------------------------------
/// The order of posts or communities that a text asks for.
pub open spec fn community_sort(raw: Option<Seq<char>>) -> Seq<char> {
    match raw {
        Some(s) => if lower(trim(s)) == "new"@ {
            "new"@
        } else if lower(trim(s)) == "top"@ {
            "top"@
        } else {
            "hot"@
        },
        None => "hot"@,
    }
}

pub fn normalize_community_sort(raw: Option<&str>) -> (r: &'static str)
    ensures
        r@ == community_sort(opt_str(raw)),
{
    match raw {
        Some(s) => {
            let trimmed: String = trim_text(s);
            let lowered: String = to_lower(trimmed.as_str());
            if str_eq(lowered.as_str(), "new") {
                "new"
            } else if str_eq(lowered.as_str(), "top") {
                "top"
            } else {
                "hot"
            }
        },
        None => "hot",
    }
}

/// The slug in an address, without the slashes around it.
pub fn normalize_community_slug(raw: &str) -> (r: String)
    ensures
        r@ == trim_of(trim(raw@), CharClass::Only('/')),
{
    let trimmed: String = trim_text(raw);
    trim_matches(trimmed.as_str(), CharClass::Only('/'))
}

pub open spec fn is_slug_separator(c: char) -> bool {
    c == '-' || c == '_' || c == ' ' || c == '.'
}

/// A slug after one more character: letters and digits are kept, separators become a dash
/// between them, and everything else is left out.
pub open spec fn slug_step(slug: Seq<char>, c: char) -> Seq<char> {
    let l = lower_char(c);
    if is_alnum(l) {
        slug.push(l)
    } else if is_slug_separator(l) && slug.len() > 0 && slug.last() != '-' {
        slug.push('-')
    } else {
        slug
    }
}

pub open spec fn slug_run(s: Seq<char>, n: int) -> Seq<char>
    decreases n,
{
    if n <= 0 || n > s.len() {
        Seq::empty()
    } else {
        slug_step(slug_run(s, n - 1), s[n - 1])
    }
}

/// A slug without the dash at its end.
pub open spec fn without_last_dash(slug: Seq<char>) -> Seq<char> {
    if slug.len() > 0 && slug.last() == '-' {
        slug.drop_last()
    } else {
        slug
    }
}

/// The slug made of a text.
pub open spec fn slugified(raw: Seq<char>) -> Seq<char> {
    take_chars(
        without_last_dash(slug_run(raw, raw.len() as int)),
        MAX_COMMUNITY_SLUG_CHARS as nat,
    )
}

pub open spec fn is_slug_char(c: char) -> bool {
    is_digit_or_lower(c) || c == '-'
}

pub open spec fn is_digit_or_lower(c: char) -> bool {
    '0' <= c <= '9' || 'a' <= c <= 'z'
}

/// Whether a text is a run of letters and digits with single dashes between them.
pub open spec fn is_slug(s: Seq<char>) -> bool {
    &&& forall|i: int| 0 <= i < s.len() ==> is_slug_char(#[trigger] s[i])
    &&& s.len() > 0 ==> s[0] != '-'
    &&& forall|i: int, j: int|
        #![trigger s[i], s[j]]
        0 <= i && j == i + 1 && j < s.len() ==> !(s[i] == '-' && s[j] == '-')
}

proof fn lemma_slug_run(s: Seq<char>, n: int)
    ensures
        is_slug(slug_run(s, n)),
    decreases n,
{
    if 0 < n <= s.len() {
        lemma_slug_run(s, n - 1);
        let before = slug_run(s, n - 1);
        let now = slug_run(s, n);
        let l = lower_char(s[n - 1]);
        assert(now == before || now == before.push(l) || now == before.push('-'));
        if now != before {
            assert(now[before.len() as int] == l || now[before.len() as int] == '-');
            assert(is_alnum(l) ==> is_digit_or_lower(l));
            assert forall|i: int| 0 <= i < now.len() implies is_slug_char(#[trigger] now[i]) by {
                if i < before.len() {
                    assert(now[i] == before[i]);
                }
            }
            assert forall|i: int, j: int|
                #![trigger now[i], now[j]]
                0 <= i && j == i + 1 && j < now.len() implies !(now[i] == '-' && now[j] == '-') by {
                if j < before.len() {
                    assert(now[i] == before[i] && now[j] == before[j]);
                } else {
                    assert(now[i] == before.last());
                }
            }
        }
    }
}

pub fn slugify_community_value(raw: &str) -> (r: String)
    ensures
        r@ == slugified(raw@),
{
    let v: Vec<char> = chars_of(raw);
    let mut slug: Vec<char> = Vec::new();
    let mut i: usize = 0;
    while i < v.len()
        invariant
            i <= v.len(),
            v@ == raw@,
            slug@ == slug_run(raw@, i as int),
        decreases v.len() - i,
    {
        let l: char = lower_of_char(v[i]);
        if is_alnum_char(l) {
            slug.push(l);
        } else if (l == '-' || l == '_' || l == ' ' || l == '.') && slug.len() > 0 && slug[slug.len()
            - 1] != '-' {
            slug.push('-');
        }
        i = i + 1;
    }
    let mut end: usize = slug.len();
    if end > 0 && slug[end - 1] == '-' {
        end = end - 1;
    }
    let out: String = string_of(&slug, 0, end);
    assert(out@ =~= without_last_dash(slug@));
    truncate_chars(out.as_str(), MAX_COMMUNITY_SLUG_CHARS)
}

/// A slug is made of lower-case letters and digits, with single dashes inside, and is no longer
/// than the limit; only one that was cut off at the limit can end in a dash.
pub proof fn law_slug_is_clean(raw: Seq<char>)
    ensures
        is_slug(slugified(raw)),
        slugified(raw).len() <= MAX_COMMUNITY_SLUG_CHARS,
        0 < slugified(raw).len() < MAX_COMMUNITY_SLUG_CHARS ==> slugified(raw).last() != '-',
{
    let run = slug_run(raw, raw.len() as int);
    lemma_slug_run(raw, raw.len() as int);
    let bare = without_last_dash(run);
    let cut = slugified(raw);
    assert forall|i: int| 0 <= i < cut.len() implies #[trigger] cut[i] == run[i] by {}
    if run.len() > 1 && run.last() == '-' {
        assert(run[run.len() - 2] != '-');
    }
}

/// A slug to try for a new community: the base, or the base with a number.
pub open spec fn slug_candidate(base: Seq<char>, attempt: int) -> Seq<char> {
    if attempt <= 1 {
        base
    } else {
        base + "-"@ + decimal(attempt)
    }
}

/// The last number that is tried.
pub const LAST_SLUG_ATTEMPT: u32 = 9999;

/// The search for a slug that no community has yet.
pub struct SlugSearch {
    pub base: String,
    pub attempt: u32,
}

/// What a slug for a new community is made of: the slug asked for, or else the name.
pub open spec fn slug_base(requested: Seq<char>, name: Seq<char>) -> Option<Seq<char>> {
    if slugified(requested).len() > 0 {
        Some(slugified(requested))
    } else if slugified(name).len() > 0 {
        Some(slugified(name))
    } else {
        None
    }
}

impl SlugSearch {
    /// Starts with the base itself.
    pub fn start(requested_slug: &str, fallback_name: &str) -> (r: Option<SlugSearch>)
        ensures
            r is Some == slug_base(requested_slug@, fallback_name@) is Some,
            r matches Some(s) ==> Some(s.base@) == slug_base(requested_slug@, fallback_name@)
                && s.attempt == 1,
    {
        let mut base: String = slugify_community_value(requested_slug);
        if base.as_str().is_empty() {
            base = slugify_community_value(fallback_name);
        }
        if base.as_str().is_empty() {
            None
        } else {
            Some(SlugSearch { base, attempt: 1 })
        }
    }

    /// The slug to try now.
    pub fn candidate(&self) -> (r: String)
        ensures
            r@ == slug_candidate(self.base@, self.attempt as int),
    {
        if self.attempt <= 1 {
            return self.base.clone();
        }
        let mut out: String = self.base.clone();
        out.append("-");
        push_decimal(&mut out, self.attempt as i64);
        out
    }

    /// Goes on to the next slug, if there is one left to try.
    pub fn next(self) -> (r: Option<SlugSearch>)
        ensures
            r is Some == (self.attempt < LAST_SLUG_ATTEMPT),
            r matches Some(s) ==> s.base == self.base && s.attempt == self.attempt + 1,
    {
        if self.attempt < LAST_SLUG_ATTEMPT {
            Some(SlugSearch { base: self.base, attempt: self.attempt + 1 })
        } else {
            None
        }
    }
}

/// No slug is tried twice.
pub proof fn law_slug_candidates_are_distinct(base: Seq<char>, a: int, b: int)
    requires
        1 <= a < b <= LAST_SLUG_ATTEMPT,
    ensures
        slug_candidate(base, a) != slug_candidate(base, b),
{
    reveal_strlit("-");
    if a == 1 {
        assert(slug_candidate(base, b).len() > base.len());
    } else {
        let n = (base + "-"@).len() as int;
        assert(decimal(a) =~= slug_candidate(base, a).skip(n));
        assert(decimal(b) =~= slug_candidate(base, b).skip(n));
        law_decimal_round_trip(a, 0, 10000);
        law_decimal_round_trip(b, 0, 10000);
    }
}

// ---------------------------------------------------------------------------
// Views
// ---------------------------------------------------------------------------
pub open spec fn community_view(row: CommunitySearchRow) -> CommunityPageView {
    CommunityPageView {
        community_id: row.community_id,
        slug: row.slug,
        name: row.name,
        description: row.description,
        visibility: row.visibility,
        member_count: row.member_count,
        post_count: row.post_count,
        profile_photo_url: row.profile_photo_url,
        profile_photo_style: row.profile_photo_style,
        owner_user_id: match row.owner_user_id {
            Some(id) => id,
            None => 0,
        },
        owner_username: row.owner_username,
        created_at: row.created_at,
    }
}

pub fn map_community_row_to_view(row: CommunitySearchRow) -> (r: CommunityPageView)
    ensures
        r == community_view(row),
{
    CommunityPageView {
        community_id: row.community_id,
        slug: row.slug,
        name: row.name,
        description: row.description,
        visibility: row.visibility,
        member_count: row.member_count,
        post_count: row.post_count,
        profile_photo_url: row.profile_photo_url,
        profile_photo_style: row.profile_photo_style,
        owner_user_id: match row.owner_user_id {
            Some(id) => id,
            None => 0,
        },
        owner_username: row.owner_username,
        created_at: row.created_at,
    }
}

/// Whether a view stands for a community that does not exist.
pub open spec fn is_empty_community(v: CommunityPageView, slug: Seq<char>) -> bool {
    &&& v.community_id == 0
    &&& v.slug@ == trim_of(trim(slug), CharClass::Only('/'))
    &&& v.name@ == ""@
    &&& v.description@ == ""@
    &&& v.visibility@ == POST_VISIBILITY_PUBLIC@
    &&& v.member_count == 0
    &&& v.post_count == 0
    &&& v.profile_photo_url@ == DEFAULT_PROFILE_PHOTO_URL@
    &&& v.profile_photo_style@ == ""@
    &&& v.owner_user_id == 0
    &&& v.owner_username@ == ""@
    &&& v.created_at@ == ""@
}

pub fn empty_community_page_view(slug: &str) -> (r: CommunityPageView)
    ensures
        is_empty_community(r, slug@),
{
    CommunityPageView {
        community_id: 0,
        slug: normalize_community_slug(slug),
        name: "".to_owned(),
        description: "".to_owned(),
        visibility: POST_VISIBILITY_PUBLIC.to_owned(),
        member_count: 0,
        post_count: 0,
        profile_photo_url: DEFAULT_PROFILE_PHOTO_URL.to_owned(),
        profile_photo_style: "".to_owned(),
        owner_user_id: 0,
        owner_username: "".to_owned(),
        created_at: "".to_owned(),
    }
}

// ---------------------------------------------------------------------------
// Outcomes
// ---------------------------------------------------------------------------
/// What can become of a form on the settings page of a community.
#[derive(Clone, Copy, PartialEq, Eq, Structural)]
pub enum Outcome {
    Created,
    Updated,
    PhotoUploaded,
    PhotoSelected,
    PhotoReset,
    RuleAdded,
    RuleUpdated,
    RuleDeleted,
    ModeratorAdded,
    ModeratorRemoved,
    Forbidden,
    NameRequired,
    RuleTitleRequired,
    RuleFailed,
    ModeratorNotFound,
    ModeratorAlreadyExists,
    ModeratorAddFailed,
    ModeratorRemoveFailed,
    ModeratorOwnerProtected,
    ImageNotOwned,
    UpdateFailed,
    PhotoUploadFailed,
    PhotoSelectFailed,
    PhotoResetFailed,
    DeleteFailed,
}

pub open spec fn status_of(o: Outcome) -> Seq<char> {
    match o {
        Outcome::Created => "created"@,
        Outcome::Updated => "updated"@,
        Outcome::PhotoUploaded => "photo_uploaded"@,
        Outcome::PhotoSelected => "photo_selected"@,
        Outcome::PhotoReset => "photo_reset"@,
        Outcome::RuleAdded => "rule_added"@,
        Outcome::RuleUpdated => "rule_updated"@,
        Outcome::RuleDeleted => "rule_deleted"@,
        Outcome::ModeratorAdded => "moderator_added"@,
        Outcome::ModeratorRemoved => "moderator_removed"@,
        Outcome::Forbidden => "forbidden"@,
        Outcome::NameRequired => "name_required"@,
        Outcome::RuleTitleRequired => "rule_title_required"@,
        Outcome::RuleFailed => "rule_failed"@,
        Outcome::ModeratorNotFound => "moderator_not_found"@,
        Outcome::ModeratorAlreadyExists => "moderator_already_exists"@,
        Outcome::ModeratorAddFailed => "moderator_add_failed"@,
        Outcome::ModeratorRemoveFailed => "moderator_remove_failed"@,
        Outcome::ModeratorOwnerProtected => "moderator_owner_protected"@,
        Outcome::ImageNotOwned => "image_not_owned"@,
        Outcome::UpdateFailed => "update_failed"@,
        Outcome::PhotoUploadFailed => "photo_upload_failed"@,
        Outcome::PhotoSelectFailed => "photo_select_failed"@,
        Outcome::PhotoResetFailed => "photo_reset_failed"@,
        Outcome::DeleteFailed => "delete_failed"@,
    }
}

fn status_name(o: Outcome) -> (r: &'static str)
    ensures
        r@ == status_of(o),
{
    match o {
        Outcome::Created => "created",
        Outcome::Updated => "updated",
        Outcome::PhotoUploaded => "photo_uploaded",
        Outcome::PhotoSelected => "photo_selected",
        Outcome::PhotoReset => "photo_reset",
        Outcome::RuleAdded => "rule_added",
        Outcome::RuleUpdated => "rule_updated",
        Outcome::RuleDeleted => "rule_deleted",
        Outcome::ModeratorAdded => "moderator_added",
        Outcome::ModeratorRemoved => "moderator_removed",
        Outcome::Forbidden => "forbidden",
        Outcome::NameRequired => "name_required",
        Outcome::RuleTitleRequired => "rule_title_required",
        Outcome::RuleFailed => "rule_failed",
        Outcome::ModeratorNotFound => "moderator_not_found",
        Outcome::ModeratorAlreadyExists => "moderator_already_exists",
        Outcome::ModeratorAddFailed => "moderator_add_failed",
        Outcome::ModeratorRemoveFailed => "moderator_remove_failed",
        Outcome::ModeratorOwnerProtected => "moderator_owner_protected",
        Outcome::ImageNotOwned => "image_not_owned",
        Outcome::UpdateFailed => "update_failed",
        Outcome::PhotoUploadFailed => "photo_upload_failed",
        Outcome::PhotoSelectFailed => "photo_select_failed",
        Outcome::PhotoResetFailed => "photo_reset_failed",
        Outcome::DeleteFailed => "delete_failed",
    }
}

/// The address of the page of a community.
pub open spec fn community_path(slug: Seq<char>) -> Seq<char> {
    "/community/"@ + slug
}

/// The address of the settings page of a community that reports an outcome.
pub open spec fn outcome_path(slug: Seq<char>, o: Outcome) -> Seq<char> {
    "/community/"@ + slug + "/settings?status="@ + status_of(o)
}

/// Sends the browser to the page of a community.
pub fn to_community(slug: &str) -> (r: Reply)
    ensures
        r@ == ReplyView::Redirect(community_path(slug@)),
{
    let mut path: String = "/community/".to_owned();
    path.append(slug);
    Reply::Redirect(path)
}

/// Sends the browser to the settings page of a community, which reports the outcome.
pub fn report(slug: &str, o: Outcome) -> (r: Reply)
    ensures
        r@ == ReplyView::Redirect(outcome_path(slug@, o)),
{
    let mut path: String = "/community/".to_owned();
    path.append(slug);
    path.append("/settings?status=");
    path.append(status_name(o));
    Reply::Redirect(path)
}

/// What the settings page says of a status in its address, and whether it is good news.
pub open spec fn manage_feedback(status: Seq<char>) -> (Seq<char>, bool) {
    if status == "created"@ {
        ("Community page created."@, true)
    } else if status == "updated"@ {
        ("Community updated."@, true)
    } else if status == "photo_uploaded"@ {
        ("Community photo uploaded."@, true)
    } else if status == "photo_selected"@ {
        ("Community photo updated."@, true)
    } else if status == "photo_reset"@ {
        ("Community photo reset to default."@, true)
    } else if status == "rule_added"@ {
        ("Community rule added."@, true)
    } else if status == "rule_updated"@ {
        ("Community rule updated."@, true)
    } else if status == "rule_deleted"@ {
        ("Community rule deleted."@, true)
    } else if status == "moderator_added"@ {
        ("Community moderator added."@, true)
    } else if status == "moderator_removed"@ {
        ("Community moderator removed."@, true)
    } else if status == "deleted"@ {
        ("Community deleted."@, true)
    } else if status == "forbidden"@ {
        ("Only the creator can manage this community."@, false)
    } else if status == "name_required"@ {
        ("Community name is required."@, false)
    } else if status == "rule_title_required"@ {
        ("Rule title is required."@, false)
    } else if status == "rule_failed"@ {
        ("Unable to update community rules right now. Please retry."@, false)
    } else if status == "moderator_not_found"@ {
        ("Moderator user was not found."@, false)
    } else if status == "moderator_already_exists"@ {
        ("User is already a moderator."@, false)
    } else if status == "moderator_add_failed"@ {
        ("Unable to add moderator right now. Please retry."@, false)
    } else if status == "moderator_remove_failed"@ {
        ("Unable to remove moderator right now. Please retry."@, false)
    } else if status == "moderator_owner_protected"@ {
        ("Community creator cannot be removed from moderators."@, false)
    } else if status == "image_not_owned"@ {
        ("Selected image is not available."@, false)
    } else if status == "update_failed"@ {
        ("Unable to update community right now. Please retry."@, false)
    } else if status == "photo_upload_failed"@ {
        ("Unable to upload community photo right now. Please retry."@, false)
    } else if status == "photo_select_failed"@ {
        ("Unable to update community photo right now. Please retry."@, false)
    } else if status == "photo_reset_failed"@ {
        ("Unable to reset community photo right now. Please retry."@, false)
    } else if status == "delete_failed"@ {
        ("Unable to delete community right now. Please retry."@, false)
    } else {
        (""@, false)
    }
}

pub open spec fn text_or_empty(o: Option<Seq<char>>) -> Seq<char> {
    match o {
        Some(s) => s,
        None => ""@,
    }
}

pub fn community_manage_feedback(status: Option<&str>) -> (r: (String, bool))
    ensures
        (r.0@, r.1) == manage_feedback(text_or_empty(opt_str(status))),
{
    let s: &str = match status {
        Some(s) => s,
        None => "",
    };
    if str_eq(s, "created") {
        ("Community page created.".to_owned(), true)
    } else if str_eq(s, "updated") {
        ("Community updated.".to_owned(), true)
    } else if str_eq(s, "photo_uploaded") {
        ("Community photo uploaded.".to_owned(), true)
    } else if str_eq(s, "photo_selected") {
        ("Community photo updated.".to_owned(), true)
    } else if str_eq(s, "photo_reset") {
        ("Community photo reset to default.".to_owned(), true)
    } else if str_eq(s, "rule_added") {
        ("Community rule added.".to_owned(), true)
    } else if str_eq(s, "rule_updated") {
        ("Community rule updated.".to_owned(), true)
    } else if str_eq(s, "rule_deleted") {
        ("Community rule deleted.".to_owned(), true)
    } else if str_eq(s, "moderator_added") {
        ("Community moderator added.".to_owned(), true)
    } else if str_eq(s, "moderator_removed") {
        ("Community moderator removed.".to_owned(), true)
    } else if str_eq(s, "deleted") {
        ("Community deleted.".to_owned(), true)
    } else if str_eq(s, "forbidden") {
        ("Only the creator can manage this community.".to_owned(), false)
    } else if str_eq(s, "name_required") {
        ("Community name is required.".to_owned(), false)
    } else if str_eq(s, "rule_title_required") {
        ("Rule title is required.".to_owned(), false)
    } else if str_eq(s, "rule_failed") {
        ("Unable to update community rules right now. Please retry.".to_owned(), false)
    } else if str_eq(s, "moderator_not_found") {
        ("Moderator user was not found.".to_owned(), false)
    } else if str_eq(s, "moderator_already_exists") {
        ("User is already a moderator.".to_owned(), false)
    } else if str_eq(s, "moderator_add_failed") {
        ("Unable to add moderator right now. Please retry.".to_owned(), false)
    } else if str_eq(s, "moderator_remove_failed") {
        ("Unable to remove moderator right now. Please retry.".to_owned(), false)
    } else if str_eq(s, "moderator_owner_protected") {
        ("Community creator cannot be removed from moderators.".to_owned(), false)
    } else if str_eq(s, "image_not_owned") {
        ("Selected image is not available.".to_owned(), false)
    } else if str_eq(s, "update_failed") {
        ("Unable to update community right now. Please retry.".to_owned(), false)
    } else if str_eq(s, "photo_upload_failed") {
        ("Unable to upload community photo right now. Please retry.".to_owned(), false)
    } else if str_eq(s, "photo_select_failed") {
        ("Unable to update community photo right now. Please retry.".to_owned(), false)
    } else if str_eq(s, "photo_reset_failed") {
        ("Unable to reset community photo right now. Please retry.".to_owned(), false)
    } else if str_eq(s, "delete_failed") {
        ("Unable to delete community right now. Please retry.".to_owned(), false)
    } else {
        ("".to_owned(), false)
    }
}

pub open spec fn is_success(o: Outcome) -> bool {
    o is Created || o is Updated || o is PhotoUploaded || o is PhotoSelected || o is PhotoReset || o is RuleAdded || o is RuleUpdated || o is RuleDeleted || o is ModeratorAdded || o is ModeratorRemoved
}

proof fn reveal_statuses()
    ensures
        "created"@.len() == 7 && "created"@[0] == 'c',
        "updated"@.len() == 7 && "updated"@[0] == 'u',
        "photo_uploaded"@.len() == 14 && "photo_uploaded"@[6] == 'u',
        "photo_selected"@.len() == 14 && "photo_selected"@[6] == 's',
        "photo_reset"@.len() == 11 && "photo_reset"@[0] == 'p',
        "rule_added"@.len() == 10,
        "rule_updated"@.len() == 12 && "rule_updated"@[5] == 'u',
        "rule_deleted"@.len() == 12 && "rule_deleted"@[5] == 'd',
        "moderator_added"@.len() == 15 && "moderator_added"@[0] == 'm',
        "moderator_removed"@.len() == 17,
        "deleted"@.len() == 7 && "deleted"@[0] == 'd',
        "forbidden"@.len() == 9,
        "name_required"@.len() == 13 && "name_required"@[0] == 'n',
        "rule_title_required"@.len() == 19 && "rule_title_required"@[0] == 'r',
        "rule_failed"@.len() == 11 && "rule_failed"@[0] == 'r',
        "moderator_not_found"@.len() == 19 && "moderator_not_found"@[0] == 'm',
        "moderator_already_exists"@.len() == 24,
        "moderator_add_failed"@.len() == 20,
        "moderator_remove_failed"@.len() == 23,
        "moderator_owner_protected"@.len() == 25,
        "image_not_owned"@.len() == 15 && "image_not_owned"@[0] == 'i',
        "update_failed"@.len() == 13 && "update_failed"@[0] == 'u',
        "photo_upload_failed"@.len() == 19 && "photo_upload_failed"@[0] == 'p' && "photo_upload_failed"@[6] == 'u',
        "photo_select_failed"@.len() == 19 && "photo_select_failed"@[0] == 'p' && "photo_select_failed"@[6] == 's',
        "photo_reset_failed"@.len() == 18,
        "delete_failed"@.len() == 13 && "delete_failed"@[0] == 'd',
{
    reveal_strlit("created");
    reveal_strlit("updated");
    reveal_strlit("photo_uploaded");
    reveal_strlit("photo_selected");
    reveal_strlit("photo_reset");
    reveal_strlit("rule_added");
    reveal_strlit("rule_updated");
    reveal_strlit("rule_deleted");
    reveal_strlit("moderator_added");
    reveal_strlit("moderator_removed");
    reveal_strlit("deleted");
    reveal_strlit("forbidden");
    reveal_strlit("name_required");
    reveal_strlit("rule_title_required");
    reveal_strlit("rule_failed");
    reveal_strlit("moderator_not_found");
    reveal_strlit("moderator_already_exists");
    reveal_strlit("moderator_add_failed");
    reveal_strlit("moderator_remove_failed");
    reveal_strlit("moderator_owner_protected");
    reveal_strlit("image_not_owned");
    reveal_strlit("update_failed");
    reveal_strlit("photo_upload_failed");
    reveal_strlit("photo_select_failed");
    reveal_strlit("photo_reset_failed");
    reveal_strlit("delete_failed");
}

/// The settings page has something to say of every outcome that is reported to it, and calls it a
/// success exactly where it is one.
pub proof fn law_every_outcome_is_explained(o: Outcome)
    ensures
        manage_feedback(status_of(o)).0.len() > 0,
        manage_feedback(status_of(o)).1 == is_success(o),
{
    reveal_statuses();
    reveal_strlit("Community page created.");
    reveal_strlit("Community updated.");
    reveal_strlit("Community photo uploaded.");
    reveal_strlit("Community photo updated.");
    reveal_strlit("Community photo reset to default.");
    reveal_strlit("Community rule added.");
    reveal_strlit("Community rule updated.");
    reveal_strlit("Community rule deleted.");
    reveal_strlit("Community moderator added.");
    reveal_strlit("Community moderator removed.");
    reveal_strlit("Community deleted.");
    reveal_strlit("Only the creator can manage this community.");
    reveal_strlit("Community name is required.");
    reveal_strlit("Rule title is required.");
    reveal_strlit("Unable to update community rules right now. Please retry.");
    reveal_strlit("Moderator user was not found.");
    reveal_strlit("User is already a moderator.");
    reveal_strlit("Unable to add moderator right now. Please retry.");
    reveal_strlit("Unable to remove moderator right now. Please retry.");
    reveal_strlit("Community creator cannot be removed from moderators.");
    reveal_strlit("Selected image is not available.");
    reveal_strlit("Unable to update community right now. Please retry.");
    reveal_strlit("Unable to upload community photo right now. Please retry.");
    reveal_strlit("Unable to update community photo right now. Please retry.");
    reveal_strlit("Unable to reset community photo right now. Please retry.");
    reveal_strlit("Unable to delete community right now. Please retry.");
}

// ---------------------------------------------------------------------------
// The list of communities
// ---------------------------------------------------------------------------
/// What the list of communities says of a status in its address, and whether it is good news.
pub open spec fn create_feedback(status: Seq<char>) -> (Seq<char>, bool) {
    if status == "created"@ {
        ("Community page created."@, true)
    } else if status == "deleted"@ {
        ("Community deleted."@, true)
    } else if status == "banned"@ {
        ("Community banned."@, true)
    } else if status == "name_required"@ {
        ("Community name is required."@, false)
    } else if status == "invalid_slug"@ {
        ("Community slug is invalid. Use letters and numbers."@, false)
    } else if status == "slug_unavailable"@ {
        ("Unable to allocate a unique community slug right now."@, false)
    } else if status == "create_failed"@ {
        ("Unable to create community right now. Please retry."@, false)
    } else if status == "moderation_failed"@ {
        ("Unable to moderate community right now. Please retry."@, false)
    } else {
        (""@, false)
    }
}

fn create_message(status: &Option<String>) -> (r: (&'static str, bool))
    ensures
        (r.0@, r.1) == create_feedback(text_or_empty(opt_view(*status))),
{
    let s: &str = match status {
        Some(s) => s.as_str(),
        None => "",
    };
    if str_eq(s, "created") {
        ("Community page created.", true)
    } else if str_eq(s, "deleted") {
        ("Community deleted.", true)
    } else if str_eq(s, "banned") {
        ("Community banned.", true)
    } else if str_eq(s, "name_required") {
        ("Community name is required.", false)
    } else if str_eq(s, "invalid_slug") {
        ("Community slug is invalid. Use letters and numbers.", false)
    } else if str_eq(s, "slug_unavailable") {
        ("Unable to allocate a unique community slug right now.", false)
    } else if str_eq(s, "create_failed") {
        ("Unable to create community right now. Please retry.", false)
    } else if str_eq(s, "moderation_failed") {
        ("Unable to moderate community right now. Please retry.", false)
    } else {
        ("", false)
    }
}

pub open spec fn has_community(list: Seq<CommunityPageView>, id: i64) -> bool {
    exists|i: int| 0 <= i < list.len() && (#[trigger] list[i]).community_id == id
}

/// The communities among the first `n` that are not joined, in their order.
pub open spec fn not_joined(
    all: Seq<CommunityPageView>,
    joined: Seq<CommunityPageView>,
    n: int,
) -> Seq<CommunityPageView>
    decreases n,
{
    if n <= 0 || n > all.len() {
        Seq::empty()
    } else if has_community(joined, all[n - 1].community_id) {
        not_joined(all, joined, n - 1)
    } else {
        not_joined(all, joined, n - 1).push(all[n - 1])
    }
}

fn joined_ids(joined: &Vec<CommunityPageView>) -> (r: BTreeSet<i64>)
    ensures
        forall|id: i64| #[trigger] r@.contains(id) == has_community(joined@, id),
{
    let mut ids: BTreeSet<i64> = BTreeSet::new();
    let mut i: usize = 0;
    while i < joined.len()
        invariant
            i <= joined.len(),
            forall|id: i64| #[trigger] ids@.contains(id) == has_community(joined@.take(i as int), id),
        decreases joined.len() - i,
    {
        let ghost a = joined@.take(i as int);
        let ghost b = joined@.take(i + 1);
        let id: i64 = joined[i].community_id;
        ids.insert(id);
        proof {
            assert(b =~= a.push(joined@[i as int]));
            assert forall|x: i64| has_community(b, x) == (has_community(a, x) || x == id) by {
                if has_community(a, x) {
                    let k = choose|k: int| 0 <= k < a.len() && (#[trigger] a[k]).community_id == x;
                    assert(b[k].community_id == x);
                }
                if x == id {
                    assert(b[i as int].community_id == x);
                }
                if has_community(b, x) {
                    let k = choose|k: int| 0 <= k < b.len() && (#[trigger] b[k]).community_id == x;
                    if k < i {
                        assert(a[k].community_id == x);
                    }
                }
            }
        }
        i = i + 1;
    }
    assert(joined@.take(joined.len() as int) =~= joined@);
    ids
}

fn leave_out_joined(all: Vec<CommunityPageView>, joined: &Vec<CommunityPageView>) -> (r: Vec<
    CommunityPageView,
>)
    ensures
        r@ == not_joined(all@, joined@, all.len() as int),
{
    let ids: BTreeSet<i64> = joined_ids(joined);
    let ghost source = all@;
    let ghost mut n: int = 0;
    let mut rest: Vec<CommunityPageView> = all;
    let mut out: Vec<CommunityPageView> = Vec::new();
    assert(source.skip(0) =~= source);
    while rest.len() > 0
        invariant
            0 <= n <= source.len(),
            rest@ == source.skip(n),
            out@ == not_joined(source, joined@, n),
            forall|id: i64| #[trigger] ids@.contains(id) == has_community(joined@, id),
        decreases rest.len(),
    {
        assert(rest@[0] == source[n]);
        let community: CommunityPageView = rest.remove(0);
        if !ids.contains(&community.community_id) {
            out.push(community);
        }
        proof {
            assert(rest@ =~= source.skip(n + 1));
            n = n + 1;
        }
    }
    out
}

/// The list of communities: those that the user has joined, and the others.
pub fn communities_page(
    header: PageHeader,
    query: &CommunitiesQuery,
    joined_communities: Vec<CommunityPageView>,
    communities: Vec<CommunityPageView>,
) -> (r: CommunitiesTemplate)
    ensures
        r.title@ == "Community"@,
        r.id == header.id,
        r.user_id == header.user_id,
        r.is_moderator == header.is_moderator,
        r.local_profile_domain == header.local_profile_domain,
        r.username == header.username,
        r.profile_photo_url == header.profile_photo_url,
        r.profile_photo_style == header.profile_photo_style,
        r.unread_notifications_count == header.unread_notifications_count,
        r.notifications == header.notifications,
        (r.create_message@, r.create_success) == create_feedback(
            text_or_empty(opt_view(query.create_status)),
        ),
        r.joined_communities == joined_communities,
        r.communities@ == not_joined(
            communities@,
            joined_communities@,
            communities.len() as int,
        ),
{
    let (message, success): (&'static str, bool) = create_message(&query.create_status);
    let others: Vec<CommunityPageView> = leave_out_joined(communities, &joined_communities);
    CommunitiesTemplate {
        title: "Community".to_owned(),
        id: header.id,
        user_id: header.user_id,
        is_moderator: header.is_moderator,
        local_profile_domain: header.local_profile_domain,
        username: header.username,
        profile_photo_url: header.profile_photo_url,
        profile_photo_style: header.profile_photo_style,
        unread_notifications_count: header.unread_notifications_count,
        notifications: header.notifications,
        create_message: message.to_owned(),
        create_success: success,
        joined_communities,
        communities: others,
    }
}

/// No community stands in both lists.
pub proof fn law_lists_are_apart(
    all: Seq<CommunityPageView>,
    joined: Seq<CommunityPageView>,
    n: int,
)
    ensures
        forall|i: int|
            0 <= i < not_joined(all, joined, n).len() ==> !has_community(
                joined,
                (#[trigger] not_joined(all, joined, n)[i]).community_id,
            ),
    decreases n,
{
    if 0 < n <= all.len() {
        law_lists_are_apart(all, joined, n - 1);
        let before = not_joined(all, joined, n - 1);
        let now = not_joined(all, joined, n);
        assert forall|i: int| 0 <= i < now.len() implies !has_community(
            joined,
            (#[trigger] now[i]).community_id,
        ) by {
            if i < before.len() {
                assert(now[i] == before[i]);
            }
        }
    }
}

// ---------------------------------------------------------------------------
// Creating a community
// ---------------------------------------------------------------------------
/// The name and the description of a community, as they are stored.
pub struct CommunityText {
    pub name: String,
    pub description: String,
}

pub open spec fn is_community_text(
    t: CommunityText,
    name: Seq<char>,
    description: Option<Seq<char>>,
) -> bool {
    &&& t.name@ == take_chars(trim(name), MAX_COMMUNITY_NAME_CHARS as nat)
    &&& t.description@ == take_chars(
        trim(text_or_empty(description)),
        MAX_COMMUNITY_DESCRIPTION_CHARS as nat,
    )
}

fn read_community_text(name: &str, description: &Option<String>) -> (r: Option<CommunityText>)
    ensures
        r is None == (trim(name@).len() == 0),
        r matches Some(t) ==> is_community_text(t, name@, opt_view(*description)),
{
    let trimmed: String = trim_text(name);
    if trimmed.as_str().is_empty() {
        return None;
    }
    let raw: &str = match description {
        Some(s) => s.as_str(),
        None => "",
    };
    let described: String = trim_text(raw);
    Some(
        CommunityText {
            name: truncate_chars(trimmed.as_str(), MAX_COMMUNITY_NAME_CHARS),
            description: truncate_chars(described.as_str(), MAX_COMMUNITY_DESCRIPTION_CHARS),
        },
    )
}

/// Reads the form for a new community.
pub fn read_new_community(form: &CreateCommunityForm) -> (r: Step<CommunityText>)
    ensures
        if trim(form.name@).len() == 0 {
            answers(r, ReplyView::Redirect("/communities?create_status=name_required"@))
        } else {
            r matches Step::Proceed(t) && is_community_text(
                t,
                form.name@,
                opt_view(form.description),
            )
        },
{
    match read_community_text(form.name.as_str(), &form.description) {
        Some(t) => Step::Proceed(t),
        None => Step::Answer(redirect("/communities?create_status=name_required")),
    }
}

/// The answer where no slug was found for a new community.
pub fn no_slug_reply(requested_slug: &str) -> (r: Reply)
    ensures
        r@ == ReplyView::Redirect(
            if slugified(requested_slug@).len() == 0 && trim(requested_slug@).len() > 0 {
                "/communities?create_status=invalid_slug"@
            } else {
                "/communities?create_status=slug_unavailable"@
            },
        ),
{
    if slugify_community_value(requested_slug).as_str().is_empty() && !trim_text(
        requested_slug,
    ).as_str().is_empty() {
        redirect("/communities?create_status=invalid_slug")
    } else {
        redirect("/communities?create_status=slug_unavailable")
    }
}

// ---------------------------------------------------------------------------
// Who may do what
// ---------------------------------------------------------------------------
/// Why a user may not manage a community, if there is a reason.
pub open spec fn owner_fault(community: Option<CommunityPageView>, user_id: i32) -> Option<
    ReplyView,
> {
    match community {
        None => Some(ReplyView::Status(NOT_FOUND)),
        Some(c) => if c.owner_user_id == user_id {
            None
        } else {
            Some(ReplyView::Redirect(outcome_path(c.slug@, Outcome::Forbidden)))
        },
    }
}

/// Checks that a community exists and belongs to the user.
pub fn check_owner(community: Option<CommunityPageView>, current_user_id: i32) -> (r: Step<
    CommunityPageView,
>)
    ensures
        match owner_fault(community, current_user_id) {
            Some(reply) => answers(r, reply),
            None => r == Step::Proceed(community->0),
        },
{
    match community {
        None => Step::Answer(Reply::Status(NOT_FOUND)),
        Some(c) => if c.owner_user_id == current_user_id {
            Step::Proceed(c)
        } else {
            Step::Answer(report(c.slug.as_str(), Outcome::Forbidden))
        },
    }
}

/// Whether a user may leave a community: its owner may not.
pub fn may_quit(community: &CommunityPageView, current_user_id: i32) -> (r: bool)
    ensures
        r == (current_user_id != community.owner_user_id),
{
    current_user_id != community.owner_user_id
}

/// Whether a user may post in a community: its owner and its members may.
pub fn check_community_post(
    community: &CommunityPageView,
    current_user_id: i32,
    has_joined: bool,
) -> (r: Option<Reply>)
    ensures
        r is None == (current_user_id == community.owner_user_id || has_joined),
        r matches Some(reply) ==> reply@ == ReplyView::Status(FORBIDDEN),
{
    if current_user_id == community.owner_user_id || has_joined {
        None
    } else {
        Some(Reply::Status(FORBIDDEN))
    }
}

/// Whether a user may delete a community: its owner and the team may.
pub fn check_community_deletion(
    community: &CommunityPageView,
    current_user_id: i32,
    can_team_moderate: bool,
) -> (r: Option<Reply>)
    ensures
        r is None == (community.owner_user_id == current_user_id || can_team_moderate),
        r matches Some(reply) ==> reply@ == ReplyView::Redirect(
            outcome_path(community.slug@, Outcome::Forbidden),
        ),
{
    if community.owner_user_id == current_user_id || can_team_moderate {
        None
    } else {
        Some(report(community.slug.as_str(), Outcome::Forbidden))
    }
}

/// The answer after a community was deleted, with the number of rows, or not.
pub fn community_deleted_reply(slug: &str, rows_affected: Option<u64>) -> (r: Reply)
    ensures
        r@ == ReplyView::Redirect(
            if rows_affected matches Some(n) && n > 0 {
                "/communities?create_status=deleted"@
            } else {
                outcome_path(slug@, Outcome::DeleteFailed)
            },
        ),
{
    match rows_affected {
        Some(n) => if n > 0 {
            redirect("/communities?create_status=deleted")
        } else {
            report(slug, Outcome::DeleteFailed)
        },
        None => report(slug, Outcome::DeleteFailed),
    }
}

/// The answer after a change to a community was stored, with the number of rows, or not.
pub fn change_reply(
    slug: &str,
    rows_affected: Option<u64>,
    done: Outcome,
    failed: Outcome,
) -> (r: Reply)
    ensures
        r@ == ReplyView::Redirect(
            outcome_path(
                slug@,
                if rows_affected matches Some(n) && n > 0 {
                    done
                } else {
                    failed
                },
            ),
        ),
{
    match rows_affected {
        Some(n) => if n > 0 {
            report(slug, done)
        } else {
            report(slug, failed)
        },
        None => report(slug, failed),
    }
}

/// Reads the form for the name and the description of a community.
pub fn read_community_update(slug: &str, form: &UpdateCommunityForm) -> (r: Step<CommunityText>)
    ensures
        if trim(form.name@).len() == 0 {
            answers(r, ReplyView::Redirect(outcome_path(slug@, Outcome::NameRequired)))
        } else {
            r matches Step::Proceed(t) && is_community_text(
                t,
                form.name@,
                opt_view(form.description),
            )
        },
{
    match read_community_text(form.name.as_str(), &form.description) {
        Some(t) => Step::Proceed(t),
        None => Step::Answer(report(slug, Outcome::NameRequired)),
    }
}

// ---------------------------------------------------------------------------
// Rules
// ---------------------------------------------------------------------------
/// A rule of a community, as it is stored.
pub struct RuleText {
    pub title: String,
    pub body: String,
}

pub open spec fn is_rule_text(t: RuleText, title: Seq<char>, body: Option<Seq<char>>) -> bool {
    &&& t.title@ == take_chars(trim(title), MAX_COMMUNITY_RULE_TITLE_CHARS as nat)
    &&& t.body@ == take_chars(
        trim(text_or_empty(body)),
        MAX_COMMUNITY_RULE_BODY_CHARS as nat,
    )
}

/// Reads the text of a rule.
pub fn read_rule(slug: &str, title: &str, body: Option<&str>) -> (r: Step<RuleText>)
    ensures
        if trim(title@).len() == 0 {
            answers(r, ReplyView::Redirect(outcome_path(slug@, Outcome::RuleTitleRequired)))
        } else {
            r matches Step::Proceed(t) && is_rule_text(t, title@, opt_str(body))
        },
{
    let trimmed: String = trim_text(title);
    if trimmed.as_str().is_empty() {
        return Step::Answer(report(slug, Outcome::RuleTitleRequired));
    }
    let raw: &str = match body {
        Some(s) => s,
        None => "",
    };
    let text: String = trim_text(raw);
    Step::Proceed(
        RuleText {
            title: truncate_chars(trimmed.as_str(), MAX_COMMUNITY_RULE_TITLE_CHARS),
            body: truncate_chars(text.as_str(), MAX_COMMUNITY_RULE_BODY_CHARS),
        },
    )
}

/// The place of a rule: the one asked for, but not below zero, or the default.
pub fn rule_position(asked: Option<i32>, default: i32) -> (r: i32)
    ensures
        r == match asked {
            Some(n) => if n > 0 {
                n
            } else {
                0
            },
            None => default,
        },
{
    match asked {
        Some(n) => if n > 0 {
            n
        } else {
            0
        },
        None => default,
    }
}

// ---------------------------------------------------------------------------
// Moderators of a community
// ---------------------------------------------------------------------------
/// Decides whether a user can become a moderator of a community.
pub fn new_moderator(community: &CommunityPageView, target_user_id: Option<i32>) -> (r: Step<i32>)
    ensures
        match target_user_id {
            None => answers(
                r,
                ReplyView::Redirect(outcome_path(community.slug@, Outcome::ModeratorNotFound)),
            ),
            Some(id) => if id == community.owner_user_id {
                answers(
                    r,
                    ReplyView::Redirect(
                        outcome_path(community.slug@, Outcome::ModeratorAlreadyExists),
                    ),
                )
            } else {
                r == Step::Proceed(id)
            },
        },
{
    match target_user_id {
        None => Step::Answer(report(community.slug.as_str(), Outcome::ModeratorNotFound)),
        Some(id) => {
            if id == community.owner_user_id {
                Step::Answer(report(community.slug.as_str(), Outcome::ModeratorAlreadyExists))
            } else {
                Step::Proceed(id)
            }
        },
    }
}

/// The answer after a moderator was stored, with the number of rows, or not.
pub fn moderator_added_reply(slug: &str, rows_affected: Option<u64>) -> (r: Reply)
    ensures
        r@ == ReplyView::Redirect(
            outcome_path(
                slug@,
                match rows_affected {
                    Some(n) => if n > 0 {
                        Outcome::ModeratorAdded
                    } else {
                        Outcome::ModeratorAlreadyExists
                    },
                    None => Outcome::ModeratorAddFailed,
                },
            ),
        ),
{
    match rows_affected {
        Some(n) => if n > 0 {
            report(slug, Outcome::ModeratorAdded)
        } else {
            report(slug, Outcome::ModeratorAlreadyExists)
        },
        None => report(slug, Outcome::ModeratorAddFailed),
    }
}

/// Checks that a moderator can be removed: the owner of the community cannot.
pub fn check_moderator_removal(community: &CommunityPageView, user_id: i32) -> (r: Option<Reply>)
    ensures
        r is None == (user_id != community.owner_user_id),
        r matches Some(reply) ==> reply@ == ReplyView::Redirect(
            outcome_path(community.slug@, Outcome::ModeratorOwnerProtected),
        ),
{
    if user_id == community.owner_user_id {
        Some(report(community.slug.as_str(), Outcome::ModeratorOwnerProtected))
    } else {
        None
    }
}

// ---------------------------------------------------------------------------
// Photos
// ---------------------------------------------------------------------------
/// The photo of a community that its owner has chosen, and how it is cropped.
pub struct CommunityPhoto {
    pub file_url: String,
    pub style: String,
}

/// The photo that the form names, without the space around it.
pub fn chosen_photo(form: &SelectUploadedImageForm) -> (r: String)
    ensures
        r@ == trim(form.file_url@),
{
    trim_text(form.file_url.as_str())
}

/// Reads which photo the owner of a community has chosen among those that they have uploaded.
pub fn read_community_photo(slug: &str, form: &SelectUploadedImageForm, is_owned: bool) -> (r: Step<
    CommunityPhoto,
>)
    ensures
        if trim(form.file_url@).len() == 0 || !is_owned {
            answers(r, ReplyView::Redirect(outcome_path(slug@, Outcome::ImageNotOwned)))
        } else {
            r matches Step::Proceed(p) && p.file_url@ == trim(form.file_url@) && p.style@
                == crop_style(*form)
        },
{
    let selected: String = chosen_photo(form);
    if selected.as_str().is_empty() || !is_owned {
        return Step::Answer(report(slug, Outcome::ImageNotOwned));
    }
    Step::Proceed(CommunityPhoto { file_url: selected, style: crop_style_from_form(form) })
}

// ---------------------------------------------------------------------------
// The page of a community
// ---------------------------------------------------------------------------
/// What is stored of a visitor and a community.
#[derive(Clone, Copy)]
pub struct Membership {
    pub has_joined: bool,
    pub has_ignored: bool,
    pub acting_as_team: bool,
}

/// What a visitor may do in a community.
#[derive(Clone, Copy, PartialEq, Eq, Structural)]
pub struct Standing {
    pub can_manage: bool,
    pub can_team_moderate: bool,
    pub is_member: bool,
    pub is_ignored: bool,
    pub can_quit: bool,
    pub can_join: bool,
    pub can_view_posts: bool,
    pub can_create_post: bool,
}

/// What a visitor may do in a community that exists or not.
pub open spec fn standing(
    found: bool,
    community: CommunityPageView,
    user_id: Option<i32>,
    m: Membership,
) -> Standing {
    let can_manage = user_id == Some(community.owner_user_id);
    let known = found && user_id is Some && user_id->0 > 0;
    let is_member = known && (can_manage || m.has_joined);
    let private = lower(community.visibility@) == lower(POST_VISIBILITY_PRIVATE@);
    Standing {
        can_manage,
        can_team_moderate: found && m.acting_as_team,
        is_member,
        is_ignored: known && m.has_ignored,
        can_quit: found && is_member && !can_manage,
        can_join: found && user_id is Some && !is_member,
        can_view_posts: found && (!private || is_member || can_manage),
        can_create_post: found && (is_member || can_manage),
    }
}

pub fn visitor_standing(
    found: bool,
    community: &CommunityPageView,
    current_user_id: Option<i32>,
    membership: Membership,
) -> (r: Standing)
    ensures
        r == standing(found, *community, current_user_id, membership),
{
    let (signed_in, positive, can_manage): (bool, bool, bool) = match current_user_id {
        Some(id) => (true, id > 0, id == community.owner_user_id),
        None => (false, false, false),
    };
    let known: bool = found && positive;
    let is_member: bool = known && (can_manage || membership.has_joined);
    let private: bool = eq_ignore_case(community.visibility.as_str(), POST_VISIBILITY_PRIVATE);
    Standing {
        can_manage,
        can_team_moderate: found && membership.acting_as_team,
        is_member,
        is_ignored: known && membership.has_ignored,
        can_quit: found && is_member && !can_manage,
        can_join: found && signed_in && !is_member,
        can_view_posts: found && (!private || is_member || can_manage),
        can_create_post: found && (is_member || can_manage),
    }
}

/// Who may post may see the posts; nobody can both join and leave; and a private community shows
/// its posts to its owner and its members only.
pub proof fn law_standing(
    found: bool,
    community: CommunityPageView,
    user_id: Option<i32>,
    m: Membership,
)
    ensures
        ({
            let s = standing(found, community, user_id, m);
            &&& s.can_create_post ==> s.can_view_posts
            &&& !(s.can_join && s.can_quit)
            &&& lower(community.visibility@) == lower(POST_VISIBILITY_PRIVATE@)
                && s.can_view_posts ==> s.is_member || s.can_manage
            &&& !found ==> !s.is_member && !s.can_view_posts && !s.can_create_post && !s.can_join
        }),
{
}

/// The page of a community.
pub fn community_page(
    header: PageHeader,
    found: bool,
    community: CommunityPageView,
    standing: Standing,
    query: &CommunityDetailQuery,
    community_rules: Vec<CommunityRuleView>,
    community_moderators: Vec<CommunityModeratorView>,
    posts: Vec<IndexPostView>,
) -> (r: CommunityTemplate)
    ensures
        r.title@ == "Community"@,
        r.id == header.id,
        r.user_id == header.user_id,
        r.is_moderator == header.is_moderator,
        r.local_profile_domain == header.local_profile_domain,
        r.username == header.username,
        r.profile_photo_url == header.profile_photo_url,
        r.profile_photo_style == header.profile_photo_style,
        r.unread_notifications_count == header.unread_notifications_count,
        r.notifications == header.notifications,
        r.active_sort@ == community_sort(opt_view(query.sort)),
        r.found == found,
        found ==> r.community_rules == community_rules && r.community_moderators
            == community_moderators,
        !found ==> r.community_rules.len() == 0 && r.community_moderators.len() == 0,
        r.can_manage == standing.can_manage,
        r.can_team_moderate == standing.can_team_moderate,
        r.is_member == standing.is_member,
        r.can_quit == standing.can_quit,
        r.can_join == standing.can_join,
        r.is_ignored == standing.is_ignored,
        r.can_view_posts == standing.can_view_posts,
        r.can_create_post == standing.can_create_post,
        standing.can_view_posts ==> r.posts == posts,
        !standing.can_view_posts ==> r.posts.len() == 0,
        r.community == community,
{
    let sort: &'static str = match &query.sort {
        Some(s) => normalize_community_sort(Some(s.as_str())),
        None => normalize_community_sort(None),
    };
    CommunityTemplate {
        title: "Community".to_owned(),
        id: header.id,
        user_id: header.user_id,
        is_moderator: header.is_moderator,
        local_profile_domain: header.local_profile_domain,
        username: header.username,
        profile_photo_url: header.profile_photo_url,
        profile_photo_style: header.profile_photo_style,
        unread_notifications_count: header.unread_notifications_count,
        notifications: header.notifications,
        active_sort: sort.to_owned(),
        community_rules: if found {
            community_rules
        } else {
            Vec::new()
        },
        community_moderators: if found {
            community_moderators
        } else {
            Vec::new()
        },
        found,
        can_manage: standing.can_manage,
        can_team_moderate: standing.can_team_moderate,
        is_member: standing.is_member,
        can_quit: standing.can_quit,
        can_join: standing.can_join,
        is_ignored: standing.is_ignored,
        can_view_posts: standing.can_view_posts,
        can_create_post: standing.can_create_post,
        posts: if standing.can_view_posts {
            posts
        } else {
            Vec::new()
        },
        community,
    }
}

/// What the settings page of a community lists.
pub struct CommunitySettingsLists {
    pub uploaded_profile_images: Vec<String>,
    pub community_rules: Vec<CommunityRuleView>,
    pub community_moderators: Vec<CommunityModeratorView>,
    pub moderator_candidates: Vec<CommunityModeratorView>,
}

/// The settings page of a community, for its owner only.
pub fn community_settings_page(
    header: PageHeader,
    community: Option<CommunityPageView>,
    current_user_id: Option<i32>,
    query: &CommunityDetailQuery,
    lists: CommunitySettingsLists,
) -> (r: Option<CommunitySettingsTemplate>)
    ensures
        r is Some == (community matches Some(c) && current_user_id == Some(c.owner_user_id)),
        r matches Some(t) ==> {
            &&& t.title@ == "Community Settings"@
            &&& t.id == header.id
            &&& t.user_id == header.user_id
            &&& t.is_moderator == header.is_moderator
            &&& t.local_profile_domain == header.local_profile_domain
            &&& t.username == header.username
            &&& t.profile_photo_url == header.profile_photo_url
            &&& t.profile_photo_style == header.profile_photo_style
            &&& t.unread_notifications_count == header.unread_notifications_count
            &&& t.notifications == header.notifications
            &&& t.found
            &&& t.can_manage
            &&& (t.manage_message@, t.manage_success) == manage_feedback(
                text_or_empty(opt_view(query.status)),
            )
            &&& t.uploaded_profile_images == lists.uploaded_profile_images
            &&& t.community_rules == lists.community_rules
            &&& t.community_moderators == lists.community_moderators
            &&& t.moderator_candidates == lists.moderator_candidates
            &&& Some(t.community) == community
        },
{
    let status: Option<&str> = match &query.status {
        Some(s) => Some(s.as_str()),
        None => None,
    };
    let (message, success): (String, bool) = community_manage_feedback(status);
    match (community, current_user_id) {
        (Some(c), Some(id)) => {
            if id != c.owner_user_id {
                return None;
            }
            Some(
                CommunitySettingsTemplate {
                    title: "Community Settings".to_owned(),
                    id: header.id,
                    user_id: header.user_id,
                    is_moderator: header.is_moderator,
                    local_profile_domain: header.local_profile_domain,
                    username: header.username,
                    profile_photo_url: header.profile_photo_url,
                    profile_photo_style: header.profile_photo_style,
                    unread_notifications_count: header.unread_notifications_count,
                    notifications: header.notifications,
                    found: true,
                    can_manage: true,
                    manage_message: message,
                    manage_success: success,
                    uploaded_profile_images: lists.uploaded_profile_images,
                    community_rules: lists.community_rules,
                    community_moderators: lists.community_moderators,
                    moderator_candidates: lists.moderator_candidates,
                    community: c,
                },
            )
        },
        _ => None,
    }
}

// ---------------------------------------------------------------------------
// What communities keep
// ---------------------------------------------------------------------------
proof fn lemma_slug_run_fixed(s: Seq<char>, n: int)
    requires
        is_slug(s),
        0 <= n <= s.len(),
    ensures
        slug_run(s, n) == s.take(n),
    decreases n,
{
    if n > 0 {
        lemma_slug_run_fixed(s, n - 1);
        let c = s[n - 1];
        assert(is_slug_char(c));
        assert(lower_char(c) == c);
        if c == '-' {
            assert(n > 1);
            assert(s[n - 2] != '-') by {
                let i = n - 2;
                let j = n - 1;
                assert(!(s[i] == '-' && s[j] == '-'));
            }
            assert(s.take(n - 1).last() == s[n - 2]);
        }
        assert(s.take(n - 1).push(c) =~= s.take(n));
    } else {
        assert(s.take(0) =~= Seq::<char>::empty());
    }
}

/// A text that is a slug already stays one, cut off at 80 characters.
pub proof fn law_slugs_stay(slug: Seq<char>)
    requires
        is_slug(slug),
        slug.len() <= 80,
        slug.len() > 0 ==> slug.last() != '-',
    ensures
        slugified(slug) == slug,
{
    lemma_slug_run_fixed(slug, slug.len() as int);
    assert(slug.take(slug.len() as int) =~= slug);
}

/// The letters and digits of a text, in lower case.
pub open spec fn letters_and_digits(s: Seq<char>, n: int) -> Seq<char>
    decreases n,
{
    if n <= 0 || n > s.len() {
        Seq::empty()
    } else if is_alnum(s[n - 1]) {
        letters_and_digits(s, n - 1).push(lower_char(s[n - 1]))
    } else {
        letters_and_digits(s, n - 1)
    }
}

proof fn lemma_letters_push(s: Seq<char>, c: char)
    ensures
        letters_and_digits(s.push(c), s.len() as int + 1) == if is_alnum(c) {
            letters_and_digits(s, s.len() as int).push(lower_char(c))
        } else {
            letters_and_digits(s, s.len() as int)
        },
{
    lemma_letters_of_prefix(s, s.push(c), s.len() as int);
}

proof fn lemma_letters_of_prefix(s: Seq<char>, t: Seq<char>, n: int)
    requires
        0 <= n <= s.len(),
        s.is_prefix_of(t),
    ensures
        letters_and_digits(s, n) == letters_and_digits(t, n),
    decreases n,
{
    if n > 0 {
        lemma_letters_of_prefix(s, t, n - 1);
        assert(t[n - 1] == s[n - 1]);
    }
}

proof fn lemma_slug_letters(raw: Seq<char>, n: int)
    requires
        0 <= n <= raw.len(),
    ensures
        letters_and_digits(slug_run(raw, n), slug_run(raw, n).len() as int) == letters_and_digits(
            raw,
            n,
        ),
    decreases n,
{
    if n > 0 {
        lemma_slug_letters(raw, n - 1);
        let before = slug_run(raw, n - 1);
        let l = lower_char(raw[n - 1]);
        lemma_letters_push(before, l);
        lemma_letters_push(before, '-');
        assert(is_alnum(l) == is_alnum(raw[n - 1]));
        assert(lower_char(l) == l);
    }
}

/// A slug keeps all letters and digits of its text, in their order, as far as it is not cut off.
pub proof fn law_slugs_keep_letters(raw: Seq<char>)
    requires
        slugified(raw).len() < 80,
    ensures
        letters_and_digits(slugified(raw), slugified(raw).len() as int) == letters_and_digits(
            raw,
            raw.len() as int,
        ),
{
    let run = slug_run(raw, raw.len() as int);
    lemma_slug_letters(raw, raw.len() as int);
    let short = without_last_dash(run);
    if short.len() != run.len() {
        lemma_letters_of_prefix(short, run, short.len() as int);
        assert(run.last() == '-');
    }
}

/// The name of a community that is tried first is what was asked for, and the next ones add the
/// numbers from 2 on.
pub proof fn law_slug_attempts(base: Seq<char>, attempt: int)
    ensures
        slug_candidate(base, 1) == base,
        attempt >= 2 ==> slug_candidate(base, attempt) == base + "-"@ + decimal(attempt),
{
}

/// The slug that was asked for goes before the name of the community.
pub proof fn law_slug_sources(requested: Seq<char>, name: Seq<char>)
    ensures
        slugified(requested).len() > 0 ==> slug_base(requested, name) == Some(slugified(requested)),
        slugified(requested).len() == 0 && slugified(name).len() > 0 ==> slug_base(requested, name)
            == Some(slugified(name)),
        slug_base(requested, name) is None <==> slugified(requested).len() == 0 && slugified(
            name,
        ).len() == 0,
{
}

proof fn lemma_not_joined(
    all: Seq<CommunityPageView>,
    joined: Seq<CommunityPageView>,
    n: int,
) -> (at: Seq<int>)
    requires
        0 <= n <= all.len(),
    ensures
        are_positions(at, n),
        at.len() == not_joined(all, joined, n).len(),
        forall|k: int| 0 <= k < at.len() ==> not_joined(all, joined, n)[k] == all[#[trigger] at[k]],
        forall|i: int|
            0 <= i < n ==> (#[trigger] at.contains(i) <==> !has_community(
                joined,
                all[i].community_id,
            )),
    decreases n,
{
    if n == 0 {
        Seq::empty()
    } else {
        let before = lemma_not_joined(all, joined, n - 1);
        lemma_next_position(before, n - 1);
        let keep = !has_community(joined, all[n - 1].community_id);
        let at = if keep {
            before.push(n - 1)
        } else {
            before
        };
        assert forall|i: int| 0 <= i < n implies (#[trigger] at.contains(i) <==> !has_community(
            joined,
            all[i].community_id,
        )) by {
            if at.contains(i) {
                let k = choose|k: int| 0 <= k < at.len() && at[k] == i;
                if k < before.len() {
                    assert(before[k] == i);
                    assert(before.contains(i));
                }
            }
            if i < n - 1 && !has_community(joined, all[i].community_id) {
                assert(before.contains(i));
            }
        }
        at
    }
}

/// The second list holds all the communities that are not joined, in their order.
pub proof fn law_other_communities_are_listed(
    all: Seq<CommunityPageView>,
    joined: Seq<CommunityPageView>,
)
    ensures
        exists|at: Seq<int>|
            {
                &&& #[trigger] are_positions(at, all.len() as int)
                &&& at.len() == not_joined(all, joined, all.len() as int).len()
                &&& forall|k: int|
                    0 <= k < at.len() ==> not_joined(all, joined, all.len() as int)[k]
                        == all[#[trigger] at[k]]
                &&& forall|i: int|
                    0 <= i < all.len() ==> (#[trigger] at.contains(i) <==> !has_community(
                        joined,
                        all[i].community_id,
                    ))
            },
{
    let at = lemma_not_joined(all, joined, all.len() as int);
    assert(are_positions(at, all.len() as int));
}

/// What a visitor may do: the owner manages, members and the owner post and see all, others see the
/// posts of a community that is not private and may join it, and the owner cannot leave.
pub proof fn law_what_visitors_may_do(
    community: CommunityPageView,
    user_id: i32,
    m: Membership,
)
    requires
        user_id > 0,
    ensures
        ({
            let s = standing(true, community, Some(user_id), m);
            let owner = user_id == community.owner_user_id;
            let private = lower(community.visibility@) == "private"@;
            &&& s.can_manage == owner
            &&& s.is_member == (owner || m.has_joined)
            &&& s.can_create_post == (owner || m.has_joined)
            &&& s.can_view_posts == (owner || m.has_joined || !private)
            &&& s.can_join == (!owner && !m.has_joined)
            &&& s.can_quit == (!owner && m.has_joined)
            &&& s.is_ignored == m.has_ignored
            &&& s.can_team_moderate == m.acting_as_team
        }),
{
    reveal_strlit("private");
    assert(lower("private"@) =~= "private"@);
}

/// Who is not logged in sees the posts of a community that is not private, and can do nothing else
/// in it.
pub proof fn law_what_strangers_may_do(community: CommunityPageView, m: Membership)
    ensures
        ({
            let s = standing(true, community, None, m);
            &&& !s.can_manage && !s.is_member && !s.can_create_post && !s.can_join && !s.can_quit
            &&& s.can_view_posts == (lower(community.visibility@) != "private"@)
        }),
{
    reveal_strlit("private");
    assert(lower("private"@) =~= "private"@);
}

/// Only the owner manages a community; others are sent to its settings page with a refusal.
pub proof fn law_only_owners_manage(community: CommunityPageView, user_id: i32)
    ensures
        owner_fault(Some(community), user_id) is None <==> community.owner_user_id == user_id,
        owner_fault(None, user_id) == Some(ReplyView::Status(404)),
        community.owner_user_id != user_id ==> owner_fault(Some(community), user_id) == Some(
            ReplyView::Redirect(
                "/community/"@ + community.slug@ + "/settings?status="@ + "forbidden"@,
            ),
        ),
{
}

/// A community shows what is stored of it.
pub proof fn law_communities_show_their_row(row: CommunitySearchRow)
    ensures
        ({
            let v = community_view(row);
            &&& v.community_id == row.community_id && v.slug == row.slug && v.name == row.name
            &&& v.description == row.description && v.visibility == row.visibility
            &&& v.member_count == row.member_count && v.post_count == row.post_count
            &&& v.profile_photo_url == row.profile_photo_url
            &&& v.profile_photo_style == row.profile_photo_style
            &&& v.owner_username == row.owner_username && v.created_at == row.created_at
            &&& row.owner_user_id matches Some(id) ==> v.owner_user_id == id
            &&& row.owner_user_id is None ==> v.owner_user_id == 0
        }),
{
}

/// The texts of a community are those of its form, without the space around them, cut off at their
/// limits.
pub proof fn law_community_texts(t: CommunityText, name: Seq<char>, description: Option<Seq<char>>)
    requires
        is_community_text(t, name, description),
    ensures
        t.name@.is_prefix_of(trim(name)),
        trim(name).len() <= 120 ==> t.name@ == trim(name),
        t.name@.len() <= 120,
        description matches Some(d) ==> trim(d).len() <= 1200 ==> t.description@ == trim(d),
        t.description@.len() <= 1200,
{
}

/// The texts of a rule are those of its form, without the space around them, cut off at their
/// limits.
pub proof fn law_rule_texts(t: RuleText, title: Seq<char>, body: Option<Seq<char>>)
    requires
        is_rule_text(t, title, body),
    ensures
        t.title@.is_prefix_of(trim(title)),
        trim(title).len() <= 140 ==> t.title@ == trim(title),
        t.title@.len() <= 140,
        body matches Some(b) ==> trim(b).len() <= 2000 ==> t.body@ == trim(b),
        t.body@.len() <= 2000,
{
}

/// What the page says of the management of a community, by the status in its address.
pub proof fn law_manage_messages(status: Seq<char>)
    ensures
        status == "created"@ ==> manage_feedback(status) == (
            "Community page created."@,
            true,
        ),
        status == "updated"@ ==> manage_feedback(status) == (
            "Community updated."@,
            true,
        ),
        status == "photo_uploaded"@ ==> manage_feedback(status) == (
            "Community photo uploaded."@,
            true,
        ),
        status == "photo_selected"@ ==> manage_feedback(status) == (
            "Community photo updated."@,
            true,
        ),
        status == "photo_reset"@ ==> manage_feedback(status) == (
            "Community photo reset to default."@,
            true,
        ),
        status == "rule_added"@ ==> manage_feedback(status) == (
            "Community rule added."@,
            true,
        ),
        status == "rule_updated"@ ==> manage_feedback(status) == (
            "Community rule updated."@,
            true,
        ),
        status == "rule_deleted"@ ==> manage_feedback(status) == (
            "Community rule deleted."@,
            true,
        ),
        status == "moderator_added"@ ==> manage_feedback(status) == (
            "Community moderator added."@,
            true,
        ),
        status == "moderator_removed"@ ==> manage_feedback(status) == (
            "Community moderator removed."@,
            true,
        ),
        status == "deleted"@ ==> manage_feedback(status) == (
            "Community deleted."@,
            true,
        ),
        status == "forbidden"@ ==> manage_feedback(status) == (
            "Only the creator can manage this community."@,
            false,
        ),
        status == "name_required"@ ==> manage_feedback(status) == (
            "Community name is required."@,
            false,
        ),
        status == "rule_title_required"@ ==> manage_feedback(status) == (
            "Rule title is required."@,
            false,
        ),
        status == "rule_failed"@ ==> manage_feedback(status) == (
            "Unable to update community rules right now. Please retry."@,
            false,
        ),
        status == "moderator_not_found"@ ==> manage_feedback(status) == (
            "Moderator user was not found."@,
            false,
        ),
        status == "moderator_already_exists"@ ==> manage_feedback(status) == (
            "User is already a moderator."@,
            false,
        ),
        status == "moderator_add_failed"@ ==> manage_feedback(status) == (
            "Unable to add moderator right now. Please retry."@,
            false,
        ),
        status == "moderator_remove_failed"@ ==> manage_feedback(status) == (
            "Unable to remove moderator right now. Please retry."@,
            false,
        ),
        status == "moderator_owner_protected"@ ==> manage_feedback(status) == (
            "Community creator cannot be removed from moderators."@,
            false,
        ),
        status == "image_not_owned"@ ==> manage_feedback(status) == (
            "Selected image is not available."@,
            false,
        ),
        status == "update_failed"@ ==> manage_feedback(status) == (
            "Unable to update community right now. Please retry."@,
            false,
        ),
        status == "photo_upload_failed"@ ==> manage_feedback(status) == (
            "Unable to upload community photo right now. Please retry."@,
            false,
        ),
        status == "photo_select_failed"@ ==> manage_feedback(status) == (
            "Unable to update community photo right now. Please retry."@,
            false,
        ),
        status == "photo_reset_failed"@ ==> manage_feedback(status) == (
            "Unable to reset community photo right now. Please retry."@,
            false,
        ),
        status == "delete_failed"@ ==> manage_feedback(status) == (
            "Unable to delete community right now. Please retry."@,
            false,
        ),
        status != "created"@ && status != "updated"@ && status != "photo_uploaded"@ &&
            status != "photo_selected"@ && status != "photo_reset"@ && status != "rule_added"@
            && status != "rule_updated"@ && status != "rule_deleted"@ && status !=
            "moderator_added"@ && status != "moderator_removed"@ && status != "deleted"@ &&
            status != "forbidden"@ && status != "name_required"@ && status !=
            "rule_title_required"@ && status != "rule_failed"@ && status !=
            "moderator_not_found"@ && status != "moderator_already_exists"@ && status !=
            "moderator_add_failed"@ && status != "moderator_remove_failed"@ && status !=
            "moderator_owner_protected"@ && status != "image_not_owned"@ && status !=
            "update_failed"@ && status != "photo_upload_failed"@ && status !=
            "photo_select_failed"@ && status != "photo_reset_failed"@ && status !=
            "delete_failed"@ ==> manage_feedback(status) == (""@, false),
{
    reveal_strlit("created");
    reveal_strlit("updated");
    reveal_strlit("photo_uploaded");
    reveal_strlit("photo_selected");
    reveal_strlit("photo_reset");
    reveal_strlit("rule_added");
    reveal_strlit("rule_updated");
    reveal_strlit("rule_deleted");
    reveal_strlit("moderator_added");
    reveal_strlit("moderator_removed");
    reveal_strlit("deleted");
    reveal_strlit("forbidden");
    reveal_strlit("name_required");
    reveal_strlit("rule_title_required");
    reveal_strlit("rule_failed");
    reveal_strlit("moderator_not_found");
    reveal_strlit("moderator_already_exists");
    reveal_strlit("moderator_add_failed");
    reveal_strlit("moderator_remove_failed");
    reveal_strlit("moderator_owner_protected");
    reveal_strlit("image_not_owned");
    reveal_strlit("update_failed");
    reveal_strlit("photo_upload_failed");
    reveal_strlit("photo_select_failed");
    reveal_strlit("photo_reset_failed");
    reveal_strlit("delete_failed");
    assert("created"@.len() == 7);
    assert("updated"@.len() == 7);
    assert("photo_uploaded"@.len() == 14);
    assert("photo_selected"@.len() == 14);
    assert("photo_reset"@.len() == 11);
    assert("rule_added"@.len() == 10);
    assert("rule_updated"@.len() == 12);
    assert("rule_deleted"@.len() == 12);
    assert("moderator_added"@.len() == 15);
    assert("moderator_removed"@.len() == 17);
    assert("deleted"@.len() == 7);
    assert("forbidden"@.len() == 9);
    assert("name_required"@.len() == 13);
    assert("rule_title_required"@.len() == 19);
    assert("rule_failed"@.len() == 11);
    assert("moderator_not_found"@.len() == 19);
    assert("moderator_already_exists"@.len() == 24);
    assert("moderator_add_failed"@.len() == 20);
    assert("moderator_remove_failed"@.len() == 23);
    assert("moderator_owner_protected"@.len() == 25);
    assert("image_not_owned"@.len() == 15);
    assert("update_failed"@.len() == 13);
    assert("photo_upload_failed"@.len() == 19);
    assert("photo_select_failed"@.len() == 19);
    assert("photo_reset_failed"@.len() == 18);
    assert("delete_failed"@.len() == 13);
    assert("created"@[0] == 'c');
    assert("updated"@[0] == 'u');
    assert("deleted"@[0] == 'd');
    assert("photo_uploaded"@[6] == 'u');
    assert("photo_selected"@[6] == 's');
    assert("photo_reset"@[0] == 'p');
    assert("rule_failed"@[0] == 'r');
    assert("rule_updated"@[5] == 'u');
    assert("rule_deleted"@[5] == 'd');
    assert("moderator_added"@[0] == 'm');
    assert("image_not_owned"@[0] == 'i');
    assert("name_required"@[0] == 'n');
    assert("update_failed"@[0] == 'u');
    assert("delete_failed"@[0] == 'd');
    assert("rule_title_required"@[0] == 'r');
    assert("moderator_not_found"@[0] == 'm');
    assert("photo_upload_failed"@[0] == 'p');
    assert("photo_select_failed"@[0] == 'p');
    assert("photo_upload_failed"@[6] == 'u');
    assert("photo_select_failed"@[6] == 's');
}

/// What the page says of the creation of a community, by the status in its address.
pub proof fn law_create_messages(status: Seq<char>)
    ensures
        status == "created"@ ==> create_feedback(status) == (
            "Community page created."@,
            true,
        ),
        status == "deleted"@ ==> create_feedback(status) == (
            "Community deleted."@,
            true,
        ),
        status == "banned"@ ==> create_feedback(status) == (
            "Community banned."@,
            true,
        ),
        status == "name_required"@ ==> create_feedback(status) == (
            "Community name is required."@,
            false,
        ),
        status == "invalid_slug"@ ==> create_feedback(status) == (
            "Community slug is invalid. Use letters and numbers."@,
            false,
        ),
        status == "slug_unavailable"@ ==> create_feedback(status) == (
            "Unable to allocate a unique community slug right now."@,
            false,
        ),
        status == "create_failed"@ ==> create_feedback(status) == (
            "Unable to create community right now. Please retry."@,
            false,
        ),
        status == "moderation_failed"@ ==> create_feedback(status) == (
            "Unable to moderate community right now. Please retry."@,
            false,
        ),
        status != "created"@ && status != "deleted"@ && status != "banned"@ && status !=
            "name_required"@ && status != "invalid_slug"@ && status != "slug_unavailable"@ &&
            status != "create_failed"@ && status != "moderation_failed"@ ==>
            create_feedback(status) == (""@, false),
{
    reveal_strlit("created");
    reveal_strlit("deleted");
    reveal_strlit("banned");
    reveal_strlit("name_required");
    reveal_strlit("invalid_slug");
    reveal_strlit("slug_unavailable");
    reveal_strlit("create_failed");
    reveal_strlit("moderation_failed");
    assert("created"@.len() == 7);
    assert("deleted"@.len() == 7);
    assert("banned"@.len() == 6);
    assert("name_required"@.len() == 13);
    assert("invalid_slug"@.len() == 12);
    assert("slug_unavailable"@.len() == 16);
    assert("create_failed"@.len() == 13);
    assert("moderation_failed"@.len() == 17);
    assert("created"@[0] == 'c');
    assert("deleted"@[0] == 'd');
    assert("name_required"@[0] == 'n');
    assert("create_failed"@[0] == 'c');
}


/// The posts of a community come by heat, unless the newest or the top ones are asked for.
pub proof fn law_community_sorts(raw: Seq<char>)
    ensures
        lower(trim(raw)) == "new"@ ==> community_sort(Some(raw)) == "new"@,
        lower(trim(raw)) == "top"@ ==> community_sort(Some(raw)) == "top"@,
        lower(trim(raw)) != "new"@ && lower(trim(raw)) != "top"@ ==> community_sort(Some(raw))
            == "hot"@,
        community_sort(None) == "hot"@,
{
    reveal_strlit("new");
    reveal_strlit("top");
    assert("new"@[0] == 'n' && "top"@[0] == 't');
}

/// A community that is not there shows nothing but its name in the address.
pub proof fn law_missing_communities(v: CommunityPageView, slug: Seq<char>)
    requires
        is_empty_community(v, slug),
    ensures
        v.community_id == 0 && v.owner_user_id == 0 && v.member_count == 0 && v.post_count == 0,
        v.name@.len() == 0 && v.description@.len() == 0 && v.owner_username@.len() == 0
            && v.created_at@.len() == 0 && v.profile_photo_style@.len() == 0,
        v.visibility@ == "public"@,
        v.profile_photo_url@ == DEFAULT_PROFILE_PHOTO_URL@,
        slug.len() > 0 && is_slug(slug) && slug.last() != '-' ==> v.slug@ == slug,
{
    reveal_strlit("");
    if slug.len() > 0 && is_slug(slug) && slug.last() != '-' {
        assert(is_slug_char(slug[0]));
        assert(is_slug_char(slug[slug.len() - 1]));
        law_trim_fixed(slug, CharClass::White);
        law_trim_fixed(slug, CharClass::Only('/'));
    }
}

} // verus!
