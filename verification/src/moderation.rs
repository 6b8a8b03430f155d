//! The work of moderators: roles, reports, remote servers and the dashboard.

use vstd::prelude::*;
use vstd::string::*;

use crate::auth::{is_valid_signup_email, valid_email};
use crate::notifications::{shown, HeaderNotificationView};
use crate::page::PageHeader;
use crate::posts::{FeedPostRow, IndexPostView};
use crate::ranking::{
    are_positions, in_order, law_sorted_in_order, law_sorted_keeps_entries, lemma_next_position,
    sort_ranked, sorted, Ranked,
};
use crate::text::{
    before_first, before_separator, contains, contains_text, is_alnum, is_alnum_char, is_before,
    is_white, law_pieces, law_text_order, law_text_order_transitive, law_trim, law_trim_fixed,
    lower, lower_char, opt_str, opt_view, str_eq, text_before, to_lower, trim, trim_matches,
    trim_of, trim_text, views, CharClass,
};
use crate::web::{
    answers, redirect, text_reply, Reply, ReplyView, Step, BAD_REQUEST, FORBIDDEN, NOT_FOUND,
    UNAUTHORIZED,
};

verus! {

pub const MODERATOR_USERS_LIMIT: i64 = 120;

pub const MODERATOR_POSTS_PAGE_SIZE: i64 = 20;

/// The text of a post that a moderator has deleted.
pub const MODERATOR_REDACTED_POST_TEXT: &'static str = "Deleted by moderator";

pub struct ModeratorTemplate {
    pub title: String,
    pub id: i64,
    pub user_id: i32,
    pub is_moderator: bool,
    pub local_profile_domain: String,
    pub username: String,
    pub profile_photo_url: String,
    pub profile_photo_style: String,
    pub unread_notifications_count: i64,
    pub notifications: Vec<HeaderNotificationView>,
    pub stats: ModeratorStatsView,
    pub users: Vec<ModeratorUserView>,
    pub posts: Vec<IndexPostView>,
    pub post_tab: String,
    pub is_open_post_tab: bool,
    pub is_verified_post_tab: bool,
    pub post_page: i64,
    pub has_prev_post_page: bool,
    pub has_next_post_page: bool,
    pub prev_post_page: i64,
    pub next_post_page: i64,
    pub reports: Vec<ModeratorReportView>,
    pub instances: Vec<ModeratorInstanceView>,
    pub remote_users: Vec<ModeratorRemoteUserView>,
    pub smtp_test_message: String,
    pub smtp_test_success: bool,
    pub team_post_message: String,
    pub team_post_success: bool,
    pub team_switch_message: String,
    pub team_switch_success: bool,
    pub instance_message: String,
    pub instance_success: bool,
    pub remote_user_message: String,
    pub remote_user_success: bool,
    pub is_acting_as_team: bool,
}

pub struct ModeratorDashboardQuery {
    pub post_page: Option<i64>,
    pub post_tab: Option<String>,
    pub smtp_status: Option<String>,
    pub beta_status: Option<String>,
    pub beta_request_status: Option<String>,
    pub team_post_status: Option<String>,
    pub team_switch_status: Option<String>,
    pub instance_status: Option<String>,
    pub remote_user_status: Option<String>,
}

pub struct ModeratorSmtpTestForm {
    pub email: Option<String>,
}

pub struct ModeratorUserRoleForm {
    pub role: String,
}

pub struct ModeratorRemoteUserStatusForm {
    pub actor_id: Option<String>,
    pub status: Option<String>,
}

pub struct ModeratorUserView {
    pub public_id: i64,
    pub username: String,
    pub preferred_username: String,
    pub email: String,
    pub profile_photo_url: String,
    pub profile_photo_style: String,
    pub role: String,
    pub created_at: String,
}

pub struct ModeratorRemoteUserRow {
    pub actor_id: String,
    pub host: String,
    pub preferred_username: String,
    pub display_name: String,
    pub status: String,
    pub discovered_at: String,
    pub last_seen_at: String,
    pub profile_photo_url: String,
}

pub struct ModeratorRemoteUserView {
    pub actor_id: String,
    pub host: String,
    pub preferred_username: String,
    pub display_name: String,
    pub status: String,
    pub discovered_at: String,
    pub last_seen_at: String,
    pub profile_photo_url: String,
}

pub struct ModeratorInstanceRow {
    pub host: String,
    pub protocol: String,
    pub status: String,
    pub discovered_at: String,
    pub last_seen_at: String,
    pub remote_actor_count: i64,
}

pub struct ModeratorInstanceView {
    pub host: String,
    pub protocol: String,
    pub status: String,
    pub discovered_at: String,
    pub last_seen_at: String,
    pub remote_actor_count: i64,
}

/// A stored report; what it is about may be gone.
pub struct ModeratorReportRow {
    pub report_id: i64,
    pub kind: String,
    pub status: String,
    pub reason: String,
    pub created_at: String,
    pub reporter_username: String,
    pub target_user_public_id: Option<i64>,
    pub target_user_username: Option<String>,
    pub target_post_id: Option<i64>,
    pub target_message_id: Option<i64>,
    pub target_message_text: String,
    pub target_message_sender_public_id: Option<i64>,
    pub target_message_sender_username: Option<String>,
    pub target_post_soft_deleted: bool,
    pub target_post_author_public_id: Option<i64>,
    pub target_post_author_username: Option<String>,
}

pub struct ModeratorReportView {
    pub report_id: i64,
    pub kind: String,
    pub status: String,
    pub reason: String,
    pub created_at: String,
    pub reporter_username: String,
    pub target_user_public_id: i64,
    pub target_user_username: String,
    pub target_post_id: i64,
    pub target_message_id: i64,
    pub target_message_text: String,
    pub target_message_sender_public_id: i64,
    pub target_message_sender_username: String,
    pub target_post_soft_deleted: bool,
    pub target_post_author_public_id: i64,
    pub target_post_author_username: String,
}

pub struct ProtocolCountView {
    pub name: String,
    pub count: i64,
}

pub struct ModeratorStatsRow {
    pub total_users: i64,
    pub total_moderators: i64,
    pub total_suspended: i64,
    pub total_posts: i64,
}

pub struct ModeratorStatsView {
    pub total_users: i64,
    pub total_moderators: i64,
    pub total_suspended: i64,
    pub total_posts: i64,
    pub total_federated_instances: i64,
    pub total_discovered_instances: i64,
    pub total_limited_instances: i64,
    pub total_banned_instances: i64,
    pub total_discovered_remote_users: i64,
    pub total_limited_remote_users: i64,
    pub total_banned_remote_users: i64,
    pub protocol_breakdown: Vec<ProtocolCountView>,
}

// ---------------------------------------------------------------------------
// Roles
// ---------------------------------------------------------------------------
pub open spec fn moderator_role(role: Seq<char>) -> bool {
    role == "mod"@ || role == "moderator"@
}

pub fn is_moderator_role(role: &str) -> (r: bool)
    ensures
        r == moderator_role(role@),
{
    str_eq(role, "mod") || str_eq(role, "moderator")
}

/// The role that a text names.
pub open spec fn named_role(raw: Seq<char>) -> Option<Seq<char>> {
    let v = lower(trim(raw));
    if v == "user"@ {
        Some("user"@)
    } else if v == "mod"@ || v == "moderator"@ {
        Some("mod"@)
    } else if v == "suspended"@ || v == "suspend"@ {
        Some("suspended"@)
    } else if v == "ban"@ || v == "banned"@ {
        Some("ban"@)
    } else {
        None
    }
}

pub fn normalize_moderation_role(raw: &str) -> (r: Option<&'static str>)
    ensures
        opt_str(r) == named_role(raw@),
{
    let trimmed: String = trim_text(raw);
    let lowered: String = to_lower(trimmed.as_str());
    let v: &str = lowered.as_str();
    if str_eq(v, "user") {
        Some("user")
    } else if str_eq(v, "mod") || str_eq(v, "moderator") {
        Some("mod")
    } else if str_eq(v, "suspended") || str_eq(v, "suspend") {
        Some("suspended")
    } else if str_eq(v, "ban") || str_eq(v, "banned") {
        Some("ban")
    } else {
        None
    }
}

/// What a visitor is told who is not a moderator.
#[derive(Clone, Copy, PartialEq, Eq, Structural)]
pub enum Refusal {
    /// That the page does not exist.
    NotFound,
    /// That only moderators can switch to the team.
    SwitchForbidden,
}

/// Why a visitor may not act as a moderator, if there is a reason.
pub open spec fn moderator_fault(
    role: Option<Seq<char>>,
    fetch_request: bool,
    refusal: Refusal,
) -> Option<ReplyView> {
    match role {
        None => Some(
            if fetch_request {
                ReplyView::Status(UNAUTHORIZED)
            } else {
                ReplyView::Redirect("/login"@)
            },
        ),
        Some(r) => if moderator_role(r) {
            None
        } else {
            Some(
                match refusal {
                    Refusal::NotFound => ReplyView::Status(NOT_FOUND),
                    Refusal::SwitchForbidden => ReplyView::Redirect(
                        outcome_path(Outcome::SwitchForbidden),
                    ),
                },
            )
        },
    }
}

/// Checks that a visitor is a moderator; a visitor who is not signed in has no role.
pub fn check_moderator(role: Option<&str>, fetch_request: bool, refusal: Refusal) -> (r: Option<
    Reply,
>)
    ensures
        r is Some == moderator_fault(opt_str(role), fetch_request, refusal) is Some,
        r matches Some(reply) ==> moderator_fault(opt_str(role), fetch_request, refusal) == Some(
            reply@,
        ),
{
    match role {
        None => {
            if fetch_request {
                Some(Reply::Status(UNAUTHORIZED))
            } else {
                Some(redirect("/login"))
            }
        },
        Some(role) => {
            if is_moderator_role(role) {
                return None;
            }
            match refusal {
                Refusal::NotFound => Some(Reply::Status(NOT_FOUND)),
                Refusal::SwitchForbidden => Some(report(Outcome::SwitchForbidden)),
            }
        },
    }
}

/// Why a moderator may not give out a role, if there is a reason.
pub open spec fn role_fault(raw: Seq<char>) -> Option<ReplyView> {
    match named_role(raw) {
        None => Some(
            ReplyView::Text(BAD_REQUEST, "Invalid role value. Allowed: user, suspended, ban"@),
        ),
        Some(role) => if role == "mod"@ {
            Some(ReplyView::Text(FORBIDDEN, "Only the website host can assign moderator role"@))
        } else {
            None
        },
    }
}

/// Reads the role that a moderator wants to give to a user.
pub fn read_role(form: &ModeratorUserRoleForm) -> (r: Step<&'static str>)
    ensures
        match role_fault(form.role@) {
            Some(reply) => answers(r, reply),
            None => r matches Step::Proceed(role) && Some(role@) == named_role(form.role@),
        },
{
    match normalize_moderation_role(form.role.as_str()) {
        None => Step::Answer(
            text_reply(BAD_REQUEST, "Invalid role value. Allowed: user, suspended, ban"),
        ),
        Some(role) => {
            if str_eq(role, "mod") {
                Step::Answer(
                    text_reply(FORBIDDEN, "Only the website host can assign moderator role"),
                )
            } else {
                Step::Proceed(role)
            }
        },
    }
}

/// Why the role of a user cannot be changed, if there is a reason.
pub open spec fn role_target_fault(target_role: Option<Seq<char>>) -> Option<ReplyView> {
    match target_role {
        None => Some(ReplyView::Redirect("/moderator"@)),
        Some(role) => if moderator_role(role) {
            Some(ReplyView::Text(FORBIDDEN, "Moderators cannot update another moderator account"@))
        } else {
            None
        },
    }
}

/// Checks that the role of a user can be changed: the user exists and is no moderator.
pub fn check_role_target(target_role: Option<&str>) -> (r: Option<Reply>)
    ensures
        r is Some == role_target_fault(opt_str(target_role)) is Some,
        r matches Some(reply) ==> role_target_fault(opt_str(target_role)) == Some(reply@),
{
    match target_role {
        None => Some(redirect("/moderator")),
        Some(role) => {
            if is_moderator_role(role) {
                Some(text_reply(FORBIDDEN, "Moderators cannot update another moderator account"))
            } else {
                None
            }
        },
    }
}

/// Moderators make no moderators: a role that they can give out is not that of a moderator.
pub proof fn law_no_moderators_are_made(raw: Seq<char>)
    requires
        role_fault(raw) is None,
    ensures
        named_role(raw) is Some,
        !moderator_role(named_role(raw)->0),
{
    reveal_strlit("mod");
    reveal_strlit("moderator");
    reveal_strlit("user");
    reveal_strlit("suspended");
    reveal_strlit("ban");
    assert("suspended"@[0] == 's' && "moderator"@[0] == 'm');
    assert("user"@.len() == 4 && "ban"@.len() == 3 && "mod"@.len() == 3 && "moderator"@.len() == 9);
}

// ---------------------------------------------------------------------------
// Acting as the team
// ---------------------------------------------------------------------------
/// Who a session belongs to, and which moderator acts in it, zero for none.
#[derive(Clone, Copy, PartialEq, Eq, Structural)]
pub struct ActingSession {
    pub user_id: i32,
    pub original_user_id: i32,
}

/// The session after a switch to the team.
pub open spec fn as_team(s: ActingSession, team_user_id: i32) -> ActingSession {
    ActingSession {
        user_id: team_user_id,
        original_user_id: if s.user_id == team_user_id || s.original_user_id > 0 {
            s.original_user_id
        } else {
            s.user_id
        },
    }
}

pub fn switch_to_team(session: ActingSession, team_user_id: i32) -> (r: ActingSession)
    ensures
        r == as_team(session, team_user_id),
{
    let original_user_id: i32 = if session.user_id == team_user_id || session.original_user_id > 0 {
        session.original_user_id
    } else {
        session.user_id
    };
    ActingSession { user_id: team_user_id, original_user_id }
}

/// What becomes of a session whose user wants to be a moderator again.
#[derive(Clone, Copy, PartialEq, Eq, Structural)]
pub enum SwitchBack {
    /// No moderator acts in it.
    Stay,
    /// Who acted in it is no moderator any more; this is forgotten.
    Forget,
    /// It belongs to the moderator again.
    Restore(i32),
}

pub open spec fn back_from_team(s: ActingSession, original_is_moderator: bool) -> SwitchBack {
    if s.original_user_id <= 0 {
        SwitchBack::Stay
    } else if !original_is_moderator {
        SwitchBack::Forget
    } else {
        SwitchBack::Restore(s.original_user_id)
    }
}

/// Decides what becomes of a session whose user wants to be a moderator again. The role is that
/// of the moderator who acts in it.
pub fn switch_back_from_team(session: ActingSession, original_role: &str) -> (r: SwitchBack)
    ensures
        r == back_from_team(session, moderator_role(original_role@)),
{
    if session.original_user_id <= 0 {
        SwitchBack::Stay
    } else if !is_moderator_role(original_role) {
        SwitchBack::Forget
    } else {
        SwitchBack::Restore(session.original_user_id)
    }
}

/// A moderator who switches to the team, be it more than once, and back is who they were.
pub proof fn law_switching_back_restores(moderator: i32, team: i32)
    requires
        moderator > 0,
        moderator != team,
    ensures
        ({
            let session = ActingSession { user_id: moderator, original_user_id: 0 };
            let once = as_team(session, team);
            &&& once.user_id == team
            &&& back_from_team(once, true) == SwitchBack::Restore(moderator)
            &&& as_team(once, team) == once
        }),
{
}

// ---------------------------------------------------------------------------
// Remote servers and users
// ---------------------------------------------------------------------------
pub open spec fn is_host_char(c: char) -> bool {
    is_alnum(c) || c == '.' || c == '-' || c == ':'
}

/// The characters of the first `n` that a host can hold.
pub open spec fn host_chars(s: Seq<char>, n: int) -> Seq<char>
    decreases n,
{
    if n <= 0 || n > s.len() {
        Seq::empty()
    } else if is_host_char(s[n - 1]) {
        host_chars(s, n - 1).push(s[n - 1])
    } else {
        host_chars(s, n - 1)
    }
}

/// The host that a text names: lower case, without what a host cannot hold.
pub open spec fn instance_host(raw: Seq<char>) -> Seq<char> {
    let t = lower(trim_of(trim(raw), CharClass::Only('/')));
    host_chars(t, t.len() as int)
}

pub fn normalize_instance_host(raw: &str) -> (r: String)
    ensures
        r@ == instance_host(raw@),
{
    let trimmed: String = trim_text(raw);
    let bare: String = trim_matches(trimmed.as_str(), CharClass::Only('/'));
    let lowered: String = to_lower(bare.as_str());
    let mut out: String = String::new();
    for c in it: lowered.as_str().chars()
        invariant
            it.seq() == lowered@,
            out@ == host_chars(lowered@, it.index() as int),
    {
        if is_alnum_char(c) || c == '.' || c == '-' || c == ':' {
            out.push(c);
        }
    }
    out
}

proof fn lemma_host_chars(s: Seq<char>, n: int)
    ensures
        forall|i: int| 0 <= i < host_chars(s, n).len() ==> is_host_char(#[trigger] host_chars(s, n)[i]),
    decreases n,
{
    if 0 < n <= s.len() {
        lemma_host_chars(s, n - 1);
        let before = host_chars(s, n - 1);
        let now = host_chars(s, n);
        assert(now == before || now == before.push(s[n - 1]));
        assert forall|i: int| 0 <= i < now.len() implies is_host_char(#[trigger] now[i]) by {
            if i < before.len() {
                assert(now[i] == before[i]);
            }
        }
    }
}

/// A normalized host holds letters, digits, dots, hyphens and colons only.
pub proof fn law_instance_host_is_plain(raw: Seq<char>)
    ensures
        forall|i: int| 0 <= i < instance_host(raw).len() ==> is_host_char(#[trigger] instance_host(raw)[i]),
{
    let t = lower(trim_of(trim(raw), CharClass::Only('/')));
    lemma_host_chars(t, t.len() as int);
}

/// The status that a text names; servers and users that are not limited or banned are discovered.
pub open spec fn discovery_status(raw: Seq<char>) -> Seq<char> {
    let v = lower(trim(raw));
    if v == "limit"@ || v == "limited"@ {
        "limited"@
    } else if v == "ban"@ || v == "banned"@ || v == "blocked"@ || v == "block"@ {
        "ban"@
    } else {
        "discovered"@
    }
}

pub fn normalize_discovery_status(raw: &str) -> (r: String)
    ensures
        r@ == discovery_status(raw@),
{
    let trimmed: String = trim_text(raw);
    let lowered: String = to_lower(trimmed.as_str());
    let v: &str = lowered.as_str();
    if str_eq(v, "limit") || str_eq(v, "limited") {
        "limited".to_owned()
    } else if str_eq(v, "ban") || str_eq(v, "banned") || str_eq(v, "blocked") || str_eq(v, "block") {
        "ban".to_owned()
    } else {
        "discovered".to_owned()
    }
}

/// Whether two domains are one, ports and upper and lower case aside.
pub open spec fn same_domain(candidate: Seq<char>, domain: Seq<char>) -> bool {
    before_first(lower(trim(candidate)), ':') == before_first(lower(domain), ':')
}

pub fn domain_matches_without_port(candidate: &str, local_domain: &str) -> (r: bool)
    ensures
        r == same_domain(candidate@, local_domain@),
{
    let expected: String = to_lower(local_domain);
    let trimmed: String = trim_text(candidate);
    let found: String = to_lower(trimmed.as_str());
    if str_eq(found.as_str(), expected.as_str()) {
        return true;
    }
    let a: String = before_separator(found.as_str(), ':');
    let b: String = before_separator(expected.as_str(), ':');
    str_eq(a.as_str(), b.as_str())
}

pub open spec fn is_remote_user_view(v: ModeratorRemoteUserView, row: ModeratorRemoteUserRow) -> bool {
    &&& v.actor_id == row.actor_id
    &&& v.host == row.host
    &&& v.preferred_username == row.preferred_username
    &&& v.display_name == row.display_name
    &&& v.status@ == discovery_status(row.status@)
    &&& v.discovered_at == row.discovered_at
    &&& v.last_seen_at == row.last_seen_at
    &&& v.profile_photo_url == row.profile_photo_url
}

pub fn remote_user_view(row: ModeratorRemoteUserRow) -> (r: ModeratorRemoteUserView)
    ensures
        is_remote_user_view(r, row),
{
    ModeratorRemoteUserView {
        status: normalize_discovery_status(row.status.as_str()),
        actor_id: row.actor_id,
        host: row.host,
        preferred_username: row.preferred_username,
        display_name: row.display_name,
        discovered_at: row.discovered_at,
        last_seen_at: row.last_seen_at,
        profile_photo_url: row.profile_photo_url,
    }
}

pub open spec fn is_instance_view(v: ModeratorInstanceView, row: ModeratorInstanceRow) -> bool {
    &&& v.host == row.host
    &&& v.protocol == row.protocol
    &&& v.status@ == discovery_status(row.status@)
    &&& v.discovered_at == row.discovered_at
    &&& v.last_seen_at == row.last_seen_at
    &&& v.remote_actor_count == row.remote_actor_count
}

pub fn instance_view(row: ModeratorInstanceRow) -> (r: ModeratorInstanceView)
    ensures
        is_instance_view(r, row),
{
    ModeratorInstanceView {
        status: normalize_discovery_status(row.status.as_str()),
        host: row.host,
        protocol: row.protocol,
        discovered_at: row.discovered_at,
        last_seen_at: row.last_seen_at,
        remote_actor_count: row.remote_actor_count,
    }
}

/// A server or a remote user, and the status that it is to have.
pub struct StatusChange {
    pub target: String,
    pub status: String,
}

pub open spec fn text_or_none(o: Option<Seq<char>>) -> Seq<char> {
    match o {
        Some(s) => s,
        None => ""@,
    }
}

fn text_of<'a>(o: Option<&'a str>) -> (r: &'a str)
    ensures
        r@ == text_or_none(opt_str(o)),
{
    match o {
        Some(s) => s,
        None => "",
    }
}

/// Reads which server is to have which status.
pub fn read_instance_status(host: &str, status: Option<&str>) -> (r: Step<StatusChange>)
    ensures
        if instance_host(host@).len() == 0 {
            answers(r, ReplyView::Redirect(outcome_path(Outcome::InstanceInvalidHost)))
        } else {
            r matches Step::Proceed(c) && c.target@ == instance_host(host@) && c.status@
                == discovery_status(text_or_none(opt_str(status)))
        },
{
    let target: String = normalize_instance_host(host);
    if target.as_str().is_empty() {
        return Step::Answer(report(Outcome::InstanceInvalidHost));
    }
    Step::Proceed(StatusChange { target, status: normalize_discovery_status(text_of(status)) })
}

/// The answer after the status of a server was stored or not.
pub fn instance_status_reply(stored: bool, status: &str) -> (r: Reply)
    ensures
        r@ == ReplyView::Redirect(
            if stored {
                area_path(Area::Instance) + status@
            } else {
                outcome_path(Outcome::InstanceSaveError)
            },
        ),
{
    if !stored {
        return report(Outcome::InstanceSaveError);
    }
    let mut path: String = "/moderator?instance_status=".to_owned();
    path.append(status);
    Reply::Redirect(path)
}

/// Reads which remote user is to have which status.
pub fn read_remote_user_status(form: &ModeratorRemoteUserStatusForm) -> (r: Step<StatusChange>)
    ensures
        if trim(text_or_none(opt_view(form.actor_id))).len() == 0 {
            answers(r, ReplyView::Redirect(outcome_path(Outcome::RemoteUserInvalid)))
        } else {
            r matches Step::Proceed(c) && c.target@ == trim(text_or_none(opt_view(form.actor_id)))
                && c.status@ == discovery_status(text_or_none(opt_view(form.status)))
        },
{
    let actor_id: &str = match &form.actor_id {
        Some(s) => s.as_str(),
        None => "",
    };
    let status: &str = match &form.status {
        Some(s) => s.as_str(),
        None => "",
    };
    let target: String = trim_text(actor_id);
    if target.as_str().is_empty() {
        return Step::Answer(report(Outcome::RemoteUserInvalid));
    }
    Step::Proceed(StatusChange { target, status: normalize_discovery_status(status) })
}

/// The answer after the status of a remote user was stored, with the number of rows, or not.
pub fn remote_user_status_reply(rows_affected: Option<u64>, status: &str) -> (r: Reply)
    ensures
        r@ == ReplyView::Redirect(
            match rows_affected {
                Some(n) => if n > 0 {
                    area_path(Area::RemoteUser) + status@
                } else {
                    outcome_path(Outcome::RemoteUserInvalid)
                },
                None => outcome_path(Outcome::RemoteUserSaveError),
            },
        ),
{
    match rows_affected {
        Some(n) => {
            if n == 0 {
                return report(Outcome::RemoteUserInvalid);
            }
            let mut path: String = "/moderator?remote_user_status=".to_owned();
            path.append(status);
            Reply::Redirect(path)
        },
        None => report(Outcome::RemoteUserSaveError),
    }
}

// ---------------------------------------------------------------------------
// Outcomes
// ---------------------------------------------------------------------------
/// The parts of the dashboard that report outcomes.
#[derive(Clone, Copy, PartialEq, Eq, Structural)]
pub enum Area {
    Smtp,
    TeamPost,
    TeamSwitch,
    Instance,
    RemoteUser,
}

/// What can become of a form on the dashboard.
#[derive(Clone, Copy, PartialEq, Eq, Structural)]
pub enum Outcome {
    SmtpSent,
    SmtpInvalidEmail,
    SmtpConfigError,
    SmtpSendError,
    PostPublished,
    PostInvalid,
    PostPayloadError,
    PostSaveError,
    SwitchTeam,
    SwitchModerator,
    SwitchForbidden,
    SwitchSaveError,
    InstanceInvalidHost,
    InstanceSaveError,
    RemoteUserInvalid,
    RemoteUserSaveError,
}

pub open spec fn area_of(o: Outcome) -> Area {
    match o {
        Outcome::SmtpSent | Outcome::SmtpInvalidEmail | Outcome::SmtpConfigError
        | Outcome::SmtpSendError => Area::Smtp,
        Outcome::PostPublished | Outcome::PostInvalid | Outcome::PostPayloadError
        | Outcome::PostSaveError => Area::TeamPost,
        Outcome::SwitchTeam | Outcome::SwitchModerator | Outcome::SwitchForbidden
        | Outcome::SwitchSaveError => Area::TeamSwitch,
        Outcome::InstanceInvalidHost | Outcome::InstanceSaveError => Area::Instance,
        Outcome::RemoteUserInvalid | Outcome::RemoteUserSaveError => Area::RemoteUser,
    }
}

pub open spec fn status_of(o: Outcome) -> Seq<char> {
    match o {
        Outcome::SmtpSent => "sent"@,
        Outcome::SmtpInvalidEmail => "invalid_email"@,
        Outcome::SmtpConfigError => "config_error"@,
        Outcome::SmtpSendError => "send_error"@,
        Outcome::PostPublished => "published"@,
        Outcome::PostInvalid => "invalid"@,
        Outcome::PostPayloadError => "payload_error"@,
        Outcome::PostSaveError => "save_error"@,
        Outcome::SwitchTeam => "team"@,
        Outcome::SwitchModerator => "moderator"@,
        Outcome::SwitchForbidden => "forbidden"@,
        Outcome::SwitchSaveError => "save_error"@,
        Outcome::InstanceInvalidHost => "invalid_host"@,
        Outcome::InstanceSaveError => "save_error"@,
        Outcome::RemoteUserInvalid => "invalid_actor"@,
        Outcome::RemoteUserSaveError => "save_error"@,
    }
}

/// The start of the address of the dashboard that reports an outcome.
pub open spec fn area_path(a: Area) -> Seq<char> {
    match a {
        Area::Smtp => "/moderator?smtp_status="@,
        Area::TeamPost => "/moderator?team_post_status="@,
        Area::TeamSwitch => "/moderator?team_switch_status="@,
        Area::Instance => "/moderator?instance_status="@,
        Area::RemoteUser => "/moderator?remote_user_status="@,
    }
}

/// The address of the dashboard that reports an outcome.
pub open spec fn outcome_path(o: Outcome) -> Seq<char> {
    area_path(area_of(o)) + status_of(o)
}

fn outcome_parts(o: Outcome) -> (r: (&'static str, &'static str))
    ensures
        r.0@ == area_path(area_of(o)),
        r.1@ == status_of(o),
{
    match o {
        Outcome::SmtpSent => ("/moderator?smtp_status=", "sent"),
        Outcome::SmtpInvalidEmail => ("/moderator?smtp_status=", "invalid_email"),
        Outcome::SmtpConfigError => ("/moderator?smtp_status=", "config_error"),
        Outcome::SmtpSendError => ("/moderator?smtp_status=", "send_error"),
        Outcome::PostPublished => ("/moderator?team_post_status=", "published"),
        Outcome::PostInvalid => ("/moderator?team_post_status=", "invalid"),
        Outcome::PostPayloadError => ("/moderator?team_post_status=", "payload_error"),
        Outcome::PostSaveError => ("/moderator?team_post_status=", "save_error"),
        Outcome::SwitchTeam => ("/moderator?team_switch_status=", "team"),
        Outcome::SwitchModerator => ("/moderator?team_switch_status=", "moderator"),
        Outcome::SwitchForbidden => ("/moderator?team_switch_status=", "forbidden"),
        Outcome::SwitchSaveError => ("/moderator?team_switch_status=", "save_error"),
        Outcome::InstanceInvalidHost => ("/moderator?instance_status=", "invalid_host"),
        Outcome::InstanceSaveError => ("/moderator?instance_status=", "save_error"),
        Outcome::RemoteUserInvalid => ("/moderator?remote_user_status=", "invalid_actor"),
        Outcome::RemoteUserSaveError => ("/moderator?remote_user_status=", "save_error"),
    }
}

/// Sends the browser to the dashboard, which reports the outcome.
pub fn report(o: Outcome) -> (r: Reply)
    ensures
        r@ == ReplyView::Redirect(outcome_path(o)),
{
    let (area, status): (&'static str, &'static str) = outcome_parts(o);
    let mut path: String = area.to_owned();
    path.append(status);
    Reply::Redirect(path)
}

/// What the dashboard says of a status in its address, and whether it is good news.
pub open spec fn feedback(area: Area, status: Option<Seq<char>>) -> (Seq<char>, bool) {
    let s = text_or_none(status);
    match area {
        Area::Smtp => if s == "sent"@ {
            ("SMTP test email sent successfully."@, true)
        } else if s == "invalid_email"@ {
            ("Please enter a valid email address."@, false)
        } else if s == "config_error"@ {
            ("SMTP is not configured correctly. Check SMTP settings."@, false)
        } else if s == "send_error"@ {
            ("Unable to send SMTP test email right now. Check server logs."@, false)
        } else {
            (""@, false)
        },
        Area::TeamPost => if s == "published"@ {
            ("Instavox Team post published."@, true)
        } else if s == "invalid"@ {
            ("A post requires text or at least one image."@, false)
        } else if s == "payload_error"@ {
            ("Unable to read the moderator post payload."@, false)
        } else if s == "save_error"@ {
            ("Unable to publish the Instavox Team post right now."@, false)
        } else {
            (""@, false)
        },
        Area::TeamSwitch => if s == "team"@ {
            ("You are now acting as Team Instavox."@, true)
        } else if s == "moderator"@ {
            ("You are now back on your moderator account."@, true)
        } else if s == "forbidden"@ {
            ("Only moderators can use Team Instavox switching."@, false)
        } else if s == "save_error"@ {
            ("Unable to switch account right now."@, false)
        } else {
            (""@, false)
        },
        Area::Instance => if s == "discovered"@ {
            ("Instance status set to discovered."@, true)
        } else if s == "limited"@ {
            ("Instance status set to limited."@, true)
        } else if s == "ban"@ {
            ("Instance banned."@, true)
        } else if s == "invalid_host"@ {
            ("Invalid instance host."@, false)
        } else if s == "save_error"@ {
            ("Unable to update instance status right now."@, false)
        } else {
            (""@, false)
        },
        Area::RemoteUser => if s == "discovered"@ {
            ("Remote user status set to discovered."@, true)
        } else if s == "limited"@ {
            ("Remote user status set to limited."@, true)
        } else if s == "ban"@ {
            ("Remote user banned."@, true)
        } else if s == "invalid_actor"@ {
            ("Invalid remote user."@, false)
        } else if s == "save_error"@ {
            ("Unable to update remote user status right now."@, false)
        } else {
            (""@, false)
        },
    }
}

fn feedback_text(area: Area, status: &Option<String>) -> (r: (&'static str, bool))
    ensures
        (r.0@, r.1) == feedback(area, opt_view(*status)),
{
    let s: &str = match status {
        Some(s) => s.as_str(),
        None => "",
    };
    match area {
        Area::Smtp => {
            if str_eq(s, "sent") {
                ("SMTP test email sent successfully.", true)
            } else if str_eq(s, "invalid_email") {
                ("Please enter a valid email address.", false)
            } else if str_eq(s, "config_error") {
                ("SMTP is not configured correctly. Check SMTP settings.", false)
            } else if str_eq(s, "send_error") {
                ("Unable to send SMTP test email right now. Check server logs.", false)
            } else {
                ("", false)
            }
        },
        Area::TeamPost => {
            if str_eq(s, "published") {
                ("Instavox Team post published.", true)
            } else if str_eq(s, "invalid") {
                ("A post requires text or at least one image.", false)
            } else if str_eq(s, "payload_error") {
                ("Unable to read the moderator post payload.", false)
            } else if str_eq(s, "save_error") {
                ("Unable to publish the Instavox Team post right now.", false)
            } else {
                ("", false)
            }
        },
        Area::TeamSwitch => {
            if str_eq(s, "team") {
                ("You are now acting as Team Instavox.", true)
            } else if str_eq(s, "moderator") {
                ("You are now back on your moderator account.", true)
            } else if str_eq(s, "forbidden") {
                ("Only moderators can use Team Instavox switching.", false)
            } else if str_eq(s, "save_error") {
                ("Unable to switch account right now.", false)
            } else {
                ("", false)
            }
        },
        Area::Instance => {
            if str_eq(s, "discovered") {
                ("Instance status set to discovered.", true)
            } else if str_eq(s, "limited") {
                ("Instance status set to limited.", true)
            } else if str_eq(s, "ban") {
                ("Instance banned.", true)
            } else if str_eq(s, "invalid_host") {
                ("Invalid instance host.", false)
            } else if str_eq(s, "save_error") {
                ("Unable to update instance status right now.", false)
            } else {
                ("", false)
            }
        },
        Area::RemoteUser => {
            if str_eq(s, "discovered") {
                ("Remote user status set to discovered.", true)
            } else if str_eq(s, "limited") {
                ("Remote user status set to limited.", true)
            } else if str_eq(s, "ban") {
                ("Remote user banned.", true)
            } else if str_eq(s, "invalid_actor") {
                ("Invalid remote user.", false)
            } else if str_eq(s, "save_error") {
                ("Unable to update remote user status right now.", false)
            } else {
                ("", false)
            }
        },
    }
}

pub open spec fn is_success(o: Outcome) -> bool {
    o is SmtpSent || o is PostPublished || o is SwitchTeam || o is SwitchModerator
}

/// The dashboard has something to say of every outcome that is reported to it, and calls it a
/// success exactly where it is one.
pub proof fn law_every_outcome_is_explained(o: Outcome)
    ensures
        feedback(area_of(o), Some(status_of(o))).0.len() > 0,
        feedback(area_of(o), Some(status_of(o))).1 == is_success(o),
{
    reveal_statuses();
    reveal_strlit("SMTP test email sent successfully.");
    reveal_strlit("Please enter a valid email address.");
    reveal_strlit("SMTP is not configured correctly. Check SMTP settings.");
    reveal_strlit("Unable to send SMTP test email right now. Check server logs.");
    reveal_strlit("Instavox Team post published.");
    reveal_strlit("A post requires text or at least one image.");
    reveal_strlit("Unable to read the moderator post payload.");
    reveal_strlit("Unable to publish the Instavox Team post right now.");
    reveal_strlit("You are now acting as Team Instavox.");
    reveal_strlit("You are now back on your moderator account.");
    reveal_strlit("Only moderators can use Team Instavox switching.");
    reveal_strlit("Unable to switch account right now.");
    reveal_strlit("Invalid instance host.");
    reveal_strlit("Unable to update instance status right now.");
    reveal_strlit("Invalid remote user.");
    reveal_strlit("Unable to update remote user status right now.");
}

/// The dashboard reports every status that a server or a remote user can be given as a success.
pub proof fn law_every_status_is_explained(raw: Seq<char>)
    ensures
        feedback(Area::Instance, Some(discovery_status(raw))).0.len() > 0,
        feedback(Area::Instance, Some(discovery_status(raw))).1,
        feedback(Area::RemoteUser, Some(discovery_status(raw))).0.len() > 0,
        feedback(Area::RemoteUser, Some(discovery_status(raw))).1,
{
    reveal_strlit("discovered");
    reveal_strlit("limited");
    reveal_strlit("ban");
    reveal_strlit("Instance status set to discovered.");
    reveal_strlit("Instance status set to limited.");
    reveal_strlit("Instance banned.");
    reveal_strlit("Remote user status set to discovered.");
    reveal_strlit("Remote user status set to limited.");
    reveal_strlit("Remote user banned.");
}

proof fn reveal_statuses()
    ensures
        "sent"@.len() == 4,
        "invalid_email"@.len() == 13 && "invalid_email"@[0] == 'i',
        "config_error"@.len() == 12,
        "send_error"@.len() == 10 && "send_error"@[1] == 'e',
        "published"@.len() == 9,
        "invalid"@.len() == 7,
        "payload_error"@.len() == 13 && "payload_error"@[0] == 'p',
        "save_error"@.len() == 10 && "save_error"@[1] == 'a',
        "team"@.len() == 4,
        "moderator"@.len() == 9 && "moderator"@[0] == 'm',
        "forbidden"@.len() == 9 && "forbidden"@[0] == 'f',
        "discovered"@.len() == 10 && "discovered"@[1] == 'i',
        "limited"@.len() == 7,
        "ban"@.len() == 3,
        "invalid_host"@.len() == 12,
        "invalid_actor"@.len() == 13,
{
    reveal_strlit("sent");
    reveal_strlit("invalid_email");
    reveal_strlit("config_error");
    reveal_strlit("send_error");
    reveal_strlit("published");
    reveal_strlit("invalid");
    reveal_strlit("payload_error");
    reveal_strlit("save_error");
    reveal_strlit("team");
    reveal_strlit("moderator");
    reveal_strlit("forbidden");
    reveal_strlit("discovered");
    reveal_strlit("limited");
    reveal_strlit("ban");
    reveal_strlit("invalid_host");
    reveal_strlit("invalid_actor");
}

// ---------------------------------------------------------------------------
// The test of the mail server
// ---------------------------------------------------------------------------
/// Where a test mail goes: to the address in the form, else to that of the moderator.
pub fn smtp_test_target(form: &ModeratorSmtpTestForm, stored_email: &str) -> (r: Step<String>)
    ensures
        ({
            let given = trim(text_or_none(opt_view(form.email)));
            let target = if given.len() > 0 {
                given
            } else {
                stored_email@
            };
            if valid_email(target) {
                r matches Step::Proceed(email) && email@ == target
            } else {
                answers(r, ReplyView::Redirect(outcome_path(Outcome::SmtpInvalidEmail)))
            }
        }),
{
    let raw: &str = match &form.email {
        Some(s) => s.as_str(),
        None => "",
    };
    let given: String = trim_text(raw);
    let target: String = if given.as_str().is_empty() {
        stored_email.to_owned()
    } else {
        given
    };
    if is_valid_signup_email(target.as_str()) {
        Step::Proceed(target)
    } else {
        Step::Answer(report(Outcome::SmtpInvalidEmail))
    }
}

/// The subject and the text of a test mail.
pub fn smtp_test_message(now: &str) -> (r: (String, String))
    ensures
        r.0@ == "Instavox SMTP test email"@,
        r.1@ == "This is a test email sent by Instavox at "@ + now@
            + " UTC.\n\nIf you receive this, SMTP is configured correctly."@,
{
    let mut body: String = "This is a test email sent by Instavox at ".to_owned();
    body.append(now);
    body.append(" UTC.\n\nIf you receive this, SMTP is configured correctly.");
    ("Instavox SMTP test email".to_owned(), body)
}

/// Whether an error says that the mail server is not set up.
pub open spec fn is_config_error(error: Seq<char>) -> bool {
    let e = lower(error);
    contains_text(e, "smtp is not configured"@) || contains_text(e, "credentials are incomplete"@)
        || contains_text(e, "unsupported smtp_security"@)
}

/// The answer after a test mail was sent, or failed with an error.
pub fn smtp_test_reply(error: Option<&str>) -> (r: Reply)
    ensures
        r@ == ReplyView::Redirect(
            outcome_path(
                match opt_str(error) {
                    None => Outcome::SmtpSent,
                    Some(e) => if is_config_error(e) {
                        Outcome::SmtpConfigError
                    } else {
                        Outcome::SmtpSendError
                    },
                },
            ),
        ),
{
    match error {
        None => report(Outcome::SmtpSent),
        Some(e) => {
            let lowered: String = to_lower(e);
            let text: &str = lowered.as_str();
            if contains(text, "smtp is not configured") || contains(
                text,
                "credentials are incomplete",
            ) || contains(text, "unsupported smtp_security") {
                report(Outcome::SmtpConfigError)
            } else {
                report(Outcome::SmtpSendError)
            }
        },
    }
}

// ---------------------------------------------------------------------------
// Posts of the team and communities
// ---------------------------------------------------------------------------
/// The answer to a moderator whose post for the team could not be read.
pub fn team_post_fault(status: u16, message: &str) -> (r: Reply)
    ensures
        r@ == ReplyView::Redirect(
            outcome_path(
                if status != BAD_REQUEST {
                    Outcome::PostSaveError
                } else if message@ == "A post requires text or at least one image"@ {
                    Outcome::PostInvalid
                } else {
                    Outcome::PostPayloadError
                },
            ),
        ),
{
    if status != BAD_REQUEST {
        report(Outcome::PostSaveError)
    } else if str_eq(message, "A post requires text or at least one image") {
        report(Outcome::PostInvalid)
    } else {
        report(Outcome::PostPayloadError)
    }
}

/// The answer after a community was banned, with the number of rows, or not.
pub fn community_ban_reply(rows_affected: Option<u64>) -> (r: Reply)
    ensures
        r@ == ReplyView::Redirect(
            if rows_affected matches Some(n) && n > 0 {
                "/communities?create_status=banned"@
            } else {
                "/communities?create_status=moderation_failed"@
            },
        ),
{
    match rows_affected {
        Some(n) => if n > 0 {
            redirect("/communities?create_status=banned")
        } else {
            redirect("/communities?create_status=moderation_failed")
        },
        None => redirect("/communities?create_status=moderation_failed"),
    }
}

// ---------------------------------------------------------------------------
// Reports
// ---------------------------------------------------------------------------
/// Whom a report of a user is about: not about nobody, the team or the reporter.
pub fn reported_user(target: Option<(i32, bool)>, current_user_id: i32) -> (r: Option<i32>)
    ensures
        r == match target {
            Some((id, is_team)) => if is_team || id == current_user_id {
                None
            } else {
                Some(id)
            },
            None => None,
        },
{
    match target {
        Some((id, is_team)) => if is_team || id == current_user_id {
            None
        } else {
            Some(id)
        },
        None => None,
    }
}

/// Whom a report of a post is about: its author, but for the reporter.
pub fn reported_author(author: Option<i32>, current_user_id: i32) -> (r: Option<i32>)
    ensures
        r == match author {
            Some(id) => if id == current_user_id {
                None
            } else {
                Some(id)
            },
            None => None,
        },
{
    match author {
        Some(id) => if id == current_user_id {
            None
        } else {
            Some(id)
        },
        None => None,
    }
}

/// Why a message cannot be reported, if there is a reason. Of a message its sender is known, and
/// whether the reporter can read it.
pub open spec fn message_report_fault(
    message: Option<(i32, bool)>,
    fetch_request: bool,
    back: Seq<char>,
) -> Option<ReplyView> {
    match message {
        None => Some(
            if fetch_request {
                ReplyView::Status(NOT_FOUND)
            } else {
                ReplyView::Redirect(back)
            },
        ),
        Some((_, can_access)) => if can_access {
            None
        } else {
            Some(
                if fetch_request {
                    ReplyView::Status(FORBIDDEN)
                } else {
                    ReplyView::Redirect(back)
                },
            )
        },
    }
}

/// Decides whom the report of a message is about: its sender, but for the reporter.
pub fn report_message(
    message: Option<(i32, bool)>,
    current_user_id: i32,
    fetch_request: bool,
    back: &str,
) -> (r: Step<Option<i32>>)
    ensures
        match message_report_fault(message, fetch_request, back@) {
            Some(reply) => answers(r, reply),
            None => r == Step::Proceed(
                if (message->0).0 == current_user_id {
                    None::<i32>
                } else {
                    Some((message->0).0)
                },
            ),
        },
{
    match message {
        None => {
            if fetch_request {
                Step::Answer(Reply::Status(NOT_FOUND))
            } else {
                Step::Answer(redirect(back))
            }
        },
        Some((sender, can_access)) => {
            if can_access {
                Step::Proceed(reported_author(Some(sender), current_user_id))
            } else if fetch_request {
                Step::Answer(Reply::Status(FORBIDDEN))
            } else {
                Step::Answer(redirect(back))
            }
        },
    }
}

pub open spec fn id_or_zero(id: Option<i64>) -> i64 {
    match id {
        Some(n) => n,
        None => 0,
    }
}

fn id_of(id: Option<i64>) -> (r: i64)
    ensures
        r == id_or_zero(id),
{
    match id {
        Some(n) => n,
        None => 0,
    }
}

fn owned_text(text: Option<String>) -> (r: String)
    ensures
        r@ == text_or_none(opt_view(text)),
{
    match text {
        Some(s) => s,
        None => "".to_owned(),
    }
}

/// Whether a view shows a report; what is gone has the number zero and no name.
pub open spec fn is_report_view(v: ModeratorReportView, row: ModeratorReportRow) -> bool {
    &&& v.report_id == row.report_id
    &&& v.kind == row.kind
    &&& v.status == row.status
    &&& v.reason == row.reason
    &&& v.created_at == row.created_at
    &&& v.reporter_username == row.reporter_username
    &&& v.target_user_public_id == id_or_zero(row.target_user_public_id)
    &&& v.target_user_username@ == text_or_none(opt_view(row.target_user_username))
    &&& v.target_post_id == id_or_zero(row.target_post_id)
    &&& v.target_message_id == id_or_zero(row.target_message_id)
    &&& v.target_message_text == row.target_message_text
    &&& v.target_message_sender_public_id == id_or_zero(row.target_message_sender_public_id)
    &&& v.target_message_sender_username@ == text_or_none(
        opt_view(row.target_message_sender_username),
    )
    &&& v.target_post_soft_deleted == row.target_post_soft_deleted
    &&& v.target_post_author_public_id == id_or_zero(row.target_post_author_public_id)
    &&& v.target_post_author_username@ == text_or_none(opt_view(row.target_post_author_username))
}

pub fn report_view(row: ModeratorReportRow) -> (r: ModeratorReportView)
    ensures
        is_report_view(r, row),
{
    ModeratorReportView {
        report_id: row.report_id,
        kind: row.kind,
        status: row.status,
        reason: row.reason,
        created_at: row.created_at,
        reporter_username: row.reporter_username,
        target_user_public_id: id_of(row.target_user_public_id),
        target_user_username: owned_text(row.target_user_username),
        target_post_id: id_of(row.target_post_id),
        target_message_id: id_of(row.target_message_id),
        target_message_text: row.target_message_text,
        target_message_sender_public_id: id_of(row.target_message_sender_public_id),
        target_message_sender_username: owned_text(row.target_message_sender_username),
        target_post_soft_deleted: row.target_post_soft_deleted,
        target_post_author_public_id: id_of(row.target_post_author_public_id),
        target_post_author_username: owned_text(row.target_post_author_username),
    }
}

// ---------------------------------------------------------------------------
// Statistics
// ---------------------------------------------------------------------------
/// The protocol of a server, and its status.
pub struct InstanceProtocol {
    pub protocol: String,
    pub status: String,
}

/// How many of the first `n` statuses are of a kind.
pub open spec fn status_count(statuses: Seq<Seq<char>>, kind: Seq<char>, n: int) -> int
    decreases n,
{
    if n <= 0 || n > statuses.len() {
        0
    } else if discovery_status(statuses[n - 1]) == kind {
        status_count(statuses, kind, n - 1) + 1
    } else {
        status_count(statuses, kind, n - 1)
    }
}

/// Servers or remote users by their status.
#[derive(Clone, Copy)]
pub struct DiscoveryCounts {
    pub discovered: i64,
    pub limited: i64,
    pub banned: i64,
}

pub open spec fn counts_statuses(c: DiscoveryCounts, statuses: Seq<Seq<char>>, n: int) -> bool {
    &&& c.discovered == status_count(statuses, "discovered"@, n)
    &&& c.limited == status_count(statuses, "limited"@, n)
    &&& c.banned == status_count(statuses, "ban"@, n)
}

proof fn lemma_statuses_differ()
    ensures
        "discovered"@ != "limited"@,
        "discovered"@ != "ban"@,
        "limited"@ != "ban"@,
{
    reveal_strlit("discovered");
    reveal_strlit("limited");
    reveal_strlit("ban");
    assert("discovered"@.len() == 10 && "limited"@.len() == 7 && "ban"@.len() == 3);
}

/// Each server or remote user has one of the three statuses.
pub proof fn law_statuses_add_up(statuses: Seq<Seq<char>>, n: int)
    requires
        0 <= n <= statuses.len(),
    ensures
        status_count(statuses, "discovered"@, n) + status_count(statuses, "limited"@, n)
            + status_count(statuses, "ban"@, n) == n,
        status_count(statuses, "discovered"@, n) >= 0,
        status_count(statuses, "limited"@, n) >= 0,
        status_count(statuses, "ban"@, n) >= 0,
    decreases n,
{
    lemma_statuses_differ();
    if n > 0 {
        law_statuses_add_up(statuses, n - 1);
    }
}

fn count_status(counts: DiscoveryCounts, status: &str) -> (r: DiscoveryCounts)
    requires
        counts.discovered < i64::MAX,
        counts.limited < i64::MAX,
        counts.banned < i64::MAX,
    ensures
        r.discovered == counts.discovered + if discovery_status(status@) == "discovered"@ {
            1int
        } else {
            0
        },
        r.limited == counts.limited + if discovery_status(status@) == "limited"@ {
            1int
        } else {
            0
        },
        r.banned == counts.banned + if discovery_status(status@) == "ban"@ {
            1int
        } else {
            0
        },
{
    proof {
        lemma_statuses_differ();
    }
    let kind: String = normalize_discovery_status(status);
    let mut next: DiscoveryCounts = counts;
    if str_eq(kind.as_str(), "limited") {
        next.limited = next.limited + 1;
    } else if str_eq(kind.as_str(), "ban") {
        next.banned = next.banned + 1;
    } else {
        next.discovered = next.discovered + 1;
    }
    next
}

pub open spec fn protocols(rows: Seq<InstanceProtocol>) -> Seq<Seq<char>> {
    Seq::new(rows.len(), |i: int| rows[i].protocol@)
}

pub open spec fn statuses(rows: Seq<InstanceProtocol>) -> Seq<Seq<char>> {
    Seq::new(rows.len(), |i: int| rows[i].status@)
}

/// How often a name occurs among the first `n`.
pub open spec fn occurrences(names: Seq<Seq<char>>, name: Seq<char>, n: int) -> int
    decreases n,
{
    if n <= 0 || n > names.len() {
        0
    } else if names[n - 1] == name {
        occurrences(names, name, n - 1) + 1
    } else {
        occurrences(names, name, n - 1)
    }
}

proof fn lemma_occurrences(names: Seq<Seq<char>>, name: Seq<char>, n: int)
    requires
        0 <= n <= names.len(),
    ensures
        0 <= occurrences(names, name, n) <= n,
        (occurrences(names, name, n) > 0) == names.take(n).contains(name),
    decreases n,
{
    if n > 0 {
        lemma_occurrences(names, name, n - 1);
        let a = names.take(n - 1);
        let b = names.take(n);
        assert(b =~= a.push(names[n - 1]));
        if a.contains(name) {
            let k = choose|k: int| 0 <= k < a.len() && a[k] == name;
            assert(b[k] == name);
        }
        if b.contains(name) {
            let k = choose|k: int| 0 <= k < b.len() && b[k] == name;
            if k < n - 1 {
                assert(a[k] == name);
            }
        }
        if names[n - 1] == name {
            assert(b[n - 1] == name);
        }
    }
}

/// Whether a list counts the first `n` names: it holds each of them once, with its number.
pub open spec fn tallies(v: Seq<ProtocolCountView>, names: Seq<Seq<char>>, n: int) -> bool {
    &&& forall|i: int, j: int|
        #![trigger v[i], v[j]]
        0 <= i < j < v.len() ==> v[i].name@ != v[j].name@
    &&& forall|i: int|
        0 <= i < v.len() ==> (#[trigger] v[i]).count == occurrences(names, v[i].name@, n)
            && v[i].count > 0
    &&& forall|k: int|
        0 <= k < n ==> exists|i: int| 0 <= i < v.len() && (#[trigger] v[i]).name@ == #[trigger] names[k]
}

impl Ranked for ProtocolCountView {
    /// The most frequent protocols stand first, those of one frequency by name.
    open spec fn ranks_before(&self, other: &Self) -> bool {
        self.count > other.count || (self.count == other.count && text_before(
            self.name@,
            other.name@,
        ))
    }

    fn is_ranked_before(&self, other: &Self) -> (r: bool) {
        self.count > other.count || (self.count == other.count && is_before(
            self.name.as_str(),
            other.name.as_str(),
        ))
    }
}

/// Counts how often each protocol occurs.
pub fn count_protocols(rows: &Vec<InstanceProtocol>) -> (r: Vec<ProtocolCountView>)
    requires
        rows.len() <= i64::MAX,
    ensures
        tallies(r@, protocols(rows@), rows.len() as int),
{
    let mut out: Vec<ProtocolCountView> = Vec::new();
    let mut k: usize = 0;
    let ghost names = protocols(rows@);
    while k < rows.len()
        invariant
            k <= rows.len(),
            rows.len() <= i64::MAX,
            names == protocols(rows@),
            tallies(out@, names, k as int),
        decreases rows.len() - k,
    {
        let name: &str = rows[k].protocol.as_str();
        assert(names[k as int] == name@);
        let ghost before = out@;
        let mut i: usize = 0;
        while i < out.len() && !str_eq(out[i].name.as_str(), name)
            invariant
                i <= out.len(),
                forall|j: int| 0 <= j < i ==> (#[trigger] out@[j]).name@ != name@,
            decreases out.len() - i,
        {
            i = i + 1;
        }
        proof {
            lemma_occurrences(names, name@, k as int);
        }
        if i < out.len() {
            let count: i64 = out[i].count;
            let entry: ProtocolCountView = ProtocolCountView {
                name: name.to_owned(),
                count: count + 1,
            };
            out.set(i, entry);
            proof {
                lemma_tally_again(before, out@, names, k as int, i as int);
            }
        } else {
            out.push(ProtocolCountView { name: name.to_owned(), count: 1 });
            proof {
                lemma_tally_new(before, out@, names, k as int);
            }
        }
        k = k + 1;
    }
    out
}

proof fn lemma_tally_again(
    before: Seq<ProtocolCountView>,
    after: Seq<ProtocolCountView>,
    names: Seq<Seq<char>>,
    k: int,
    i: int,
)
    requires
        0 <= k < names.len(),
        0 <= i < before.len(),
        tallies(before, names, k),
        before[i].name@ == names[k],
        after.len() == before.len(),
        after[i].name@ == names[k],
        after[i].count == before[i].count + 1,
        forall|j: int| 0 <= j < before.len() && j != i ==> #[trigger] after[j] == before[j],
    ensures
        tallies(after, names, k + 1),
{
    assert forall|a: int, b: int|
        #![trigger after[a], after[b]]
        0 <= a < b < after.len() implies after[a].name@ != after[b].name@ by {
        assert(before[a].name@ != before[b].name@);
        assert(after[a].name@ == before[a].name@);
        assert(after[b].name@ == before[b].name@);
    }
    assert forall|j: int| 0 <= j < after.len() implies (#[trigger] after[j]).count == occurrences(
        names,
        after[j].name@,
        k + 1,
    ) && after[j].count > 0 by {
        assert(before[j].count == occurrences(names, before[j].name@, k));
        if j != i {
            if j < i {
                assert(before[j].name@ != before[i].name@);
            } else {
                assert(before[i].name@ != before[j].name@);
            }
        }
    }
    assert forall|m: int| 0 <= m < k + 1 implies exists|j: int|
        0 <= j < after.len() && (#[trigger] after[j]).name@ == #[trigger] names[m] by {
        if m < k {
            let j = choose|j: int| 0 <= j < before.len() && (#[trigger] before[j]).name@ == names[m];
            assert(after[j].name@ == before[j].name@);
        } else {
            assert(after[i].name@ == names[m]);
        }
    }
}

proof fn lemma_tally_new(
    before: Seq<ProtocolCountView>,
    after: Seq<ProtocolCountView>,
    names: Seq<Seq<char>>,
    k: int,
)
    requires
        0 <= k < names.len(),
        tallies(before, names, k),
        forall|j: int| 0 <= j < before.len() ==> (#[trigger] before[j]).name@ != names[k],
        after.len() == before.len() + 1,
        after.last().name@ == names[k],
        after.last().count == 1,
        forall|j: int| 0 <= j < before.len() ==> #[trigger] after[j] == before[j],
    ensures
        tallies(after, names, k + 1),
{
    lemma_occurrences(names, names[k], k);
    assert(occurrences(names, names[k], k) == 0) by {
        if names.take(k).contains(names[k]) {
            let m = choose|m: int| 0 <= m < k && names.take(k)[m] == names[k];
            assert(names[m] == names[k]);
            let j = choose|j: int| 0 <= j < before.len() && (#[trigger] before[j]).name@ == names[m];
            assert(before[j].name@ != names[k]);
        }
    }
    assert forall|a: int, b: int|
        #![trigger after[a], after[b]]
        0 <= a < b < after.len() implies after[a].name@ != after[b].name@ by {
        assert(after[a] == before[a]);
        if b < before.len() {
            assert(after[b] == before[b]);
        }
    }
    assert forall|j: int| 0 <= j < after.len() implies (#[trigger] after[j]).count == occurrences(
        names,
        after[j].name@,
        k + 1,
    ) && after[j].count > 0 by {
        if j < before.len() {
            assert(after[j] == before[j]);
        }
    }
    assert forall|m: int| 0 <= m < k + 1 implies exists|j: int|
        0 <= j < after.len() && (#[trigger] after[j]).name@ == #[trigger] names[m] by {
        if m < k {
            let j = choose|j: int| 0 <= j < before.len() && (#[trigger] before[j]).name@ == names[m];
            assert(after[j] == before[j]);
        } else {
            assert(after[after.len() - 1].name@ == names[m]);
        }
    }
}

/// The protocols of the known servers, the most frequent first.
pub fn protocol_breakdown(rows: &Vec<InstanceProtocol>) -> (r: Vec<ProtocolCountView>)
    requires
        rows.len() <= i64::MAX,
    ensures
        exists|v: Seq<ProtocolCountView>|
            tallies(v, protocols(rows@), rows.len() as int) && r@ == #[trigger] sorted(v),
{
    let counted: Vec<ProtocolCountView> = count_protocols(rows);
    sort_ranked(counted)
}

/// The protocols stand in order: frequent ones before rare ones, those of one frequency by name.
pub proof fn law_protocols_are_in_order(v: Seq<ProtocolCountView>)
    ensures
        in_order(sorted(v)),
{
    assert forall|a: ProtocolCountView, b: ProtocolCountView| #[trigger]
        a.ranks_before(&b) implies !b.ranks_before(&a) by {
        law_text_order(a.name@, b.name@);
    }
    assert forall|a: ProtocolCountView, b: ProtocolCountView, c: ProtocolCountView|
        #![trigger a.ranks_before(&b), b.ranks_before(&c)]
        !a.ranks_before(&b) && !b.ranks_before(&c) implies !a.ranks_before(&c) by {
        let (x, y, z) = (a.name@, b.name@, c.name@);
        law_text_order(x, y);
        law_text_order(y, z);
        law_text_order(x, z);
        if text_before(y, x) && text_before(z, y) {
            law_text_order_transitive(z, y, x);
        }
    }
    law_sorted_in_order(v, v.len() as int);
}

/// The statistics of the dashboard.
pub fn moderator_stats(
    row: ModeratorStatsRow,
    instances: &Vec<InstanceProtocol>,
    remote_user_statuses: &Vec<String>,
) -> (r: ModeratorStatsView)
    requires
        instances.len() < i64::MAX,
        remote_user_statuses.len() < i64::MAX,
    ensures
        r.total_users == row.total_users,
        r.total_moderators == row.total_moderators,
        r.total_suspended == row.total_suspended,
        r.total_posts == row.total_posts,
        r.total_federated_instances == instances.len(),
        counts_statuses(
            DiscoveryCounts {
                discovered: r.total_discovered_instances,
                limited: r.total_limited_instances,
                banned: r.total_banned_instances,
            },
            statuses(instances@),
            instances.len() as int,
        ),
        counts_statuses(
            DiscoveryCounts {
                discovered: r.total_discovered_remote_users,
                limited: r.total_limited_remote_users,
                banned: r.total_banned_remote_users,
            },
            views(remote_user_statuses@),
            remote_user_statuses.len() as int,
        ),
        exists|v: Seq<ProtocolCountView>|
            tallies(v, protocols(instances@), instances.len() as int) && r.protocol_breakdown@
                == #[trigger] sorted(v),
{
    let mut servers: DiscoveryCounts = DiscoveryCounts { discovered: 0, limited: 0, banned: 0 };
    let mut i: usize = 0;
    let ghost server_statuses = statuses(instances@);
    while i < instances.len()
        invariant
            i <= instances.len() < i64::MAX,
            server_statuses == statuses(instances@),
            counts_statuses(servers, server_statuses, i as int),
        decreases instances.len() - i,
    {
        proof {
            law_statuses_add_up(server_statuses, i as int);
            assert(server_statuses[i as int] == instances@[i as int].status@);
        }
        servers = count_status(servers, instances[i].status.as_str());
        i = i + 1;
    }
    let mut users: DiscoveryCounts = DiscoveryCounts { discovered: 0, limited: 0, banned: 0 };
    let mut k: usize = 0;
    let ghost user_statuses = views(remote_user_statuses@);
    while k < remote_user_statuses.len()
        invariant
            k <= remote_user_statuses.len() < i64::MAX,
            user_statuses == views(remote_user_statuses@),
            counts_statuses(users, user_statuses, k as int),
        decreases remote_user_statuses.len() - k,
    {
        proof {
            law_statuses_add_up(user_statuses, k as int);
            assert(user_statuses[k as int] == remote_user_statuses@[k as int]@);
        }
        users = count_status(users, remote_user_statuses[k].as_str());
        k = k + 1;
    }
    ModeratorStatsView {
        total_users: row.total_users,
        total_moderators: row.total_moderators,
        total_suspended: row.total_suspended,
        total_posts: row.total_posts,
        total_federated_instances: instances.len() as i64,
        total_discovered_instances: servers.discovered,
        total_limited_instances: servers.limited,
        total_banned_instances: servers.banned,
        total_discovered_remote_users: users.discovered,
        total_limited_remote_users: users.limited,
        total_banned_remote_users: users.banned,
        protocol_breakdown: protocol_breakdown(instances),
    }
}

// ---------------------------------------------------------------------------
// The dashboard
// ---------------------------------------------------------------------------
/// The tab of posts that the address of the dashboard asks for.
pub open spec fn post_tab(raw: Option<Seq<char>>) -> Seq<char> {
    if raw is Some && lower(trim(raw->0)) == "verified"@ {
        "verified"@
    } else {
        "open"@
    }
}

pub fn normalize_moderator_post_tab(raw: Option<&str>) -> (r: &'static str)
    ensures
        r@ == post_tab(opt_str(raw)),
{
    match raw {
        Some(value) => {
            let trimmed: String = trim_text(value);
            let lowered: String = to_lower(trimmed.as_str());
            if str_eq(lowered.as_str(), "verified") {
                "verified"
            } else {
                "open"
            }
        },
        None => "open",
    }
}

/// The last page of posts whose position can be counted.
pub const LAST_POST_PAGE: i64 = 461_168_601_842_738_791;

pub open spec fn post_page(raw: Option<i64>) -> i64 {
    match raw {
        Some(n) => if n > 1 {
            n
        } else {
            1
        },
        None => 1,
    }
}

/// The page of posts that the address of the dashboard asks for.
pub fn requested_post_page(raw: Option<i64>) -> (r: i64)
    ensures
        r == post_page(raw),
        r >= 1,
{
    match raw {
        Some(n) => if n > 1 {
            n
        } else {
            1
        },
        None => 1,
    }
}

/// How many posts stand before a page.
pub fn post_page_offset(page: i64) -> (r: i64)
    requires
        page <= LAST_POST_PAGE,
    ensures
        r == (post_page(Some(page)) - 1) * MODERATOR_POSTS_PAGE_SIZE,
{
    (requested_post_page(Some(page)) - 1) * MODERATOR_POSTS_PAGE_SIZE
}

/// The posts of a page, from one row more than it can show, and whether there is a next page.
pub fn moderator_posts_page(rows: Vec<FeedPostRow>) -> (r: (Vec<FeedPostRow>, bool))
    ensures
        r.0@ == shown(rows@, MODERATOR_POSTS_PAGE_SIZE as int),
        r.1 == (rows.len() > MODERATOR_POSTS_PAGE_SIZE),
{
    let has_next: bool = rows.len() > 20;
    let mut page: Vec<FeedPostRow> = rows;
    if has_next {
        page.truncate(20);
    }
    (page, has_next)
}

/// Consecutive pages of posts leave none out and show none twice.
pub proof fn law_post_pages_are_consecutive(page: i64)
    requires
        1 <= page < LAST_POST_PAGE,
    ensures
        (post_page(Some((page + 1) as i64)) - 1) * MODERATOR_POSTS_PAGE_SIZE == (post_page(
            Some(page),
        ) - 1) * MODERATOR_POSTS_PAGE_SIZE + MODERATOR_POSTS_PAGE_SIZE,
{
}

/// What the dashboard says of the forms that were sent.
pub open spec fn shows_feedback(r: ModeratorTemplate, query: ModeratorDashboardQuery) -> bool {
    &&& (r.smtp_test_message@, r.smtp_test_success) == feedback(
        Area::Smtp,
        opt_view(query.smtp_status),
    )
    &&& (r.team_post_message@, r.team_post_success) == feedback(
        Area::TeamPost,
        opt_view(query.team_post_status),
    )
    &&& (r.team_switch_message@, r.team_switch_success) == feedback(
        Area::TeamSwitch,
        opt_view(query.team_switch_status),
    )
    &&& (r.instance_message@, r.instance_success) == feedback(
        Area::Instance,
        opt_view(query.instance_status),
    )
    &&& (r.remote_user_message@, r.remote_user_success) == feedback(
        Area::RemoteUser,
        opt_view(query.remote_user_status),
    )
}

/// Which posts the dashboard shows, and where it leads from there.
pub open spec fn shows_post_page(
    r: ModeratorTemplate,
    query: ModeratorDashboardQuery,
    has_next: bool,
) -> bool {
    let page = post_page(query.post_page);
    &&& r.post_tab@ == post_tab(opt_view(query.post_tab))
    &&& r.is_open_post_tab == (post_tab(opt_view(query.post_tab)) == "open"@)
    &&& r.is_verified_post_tab == (post_tab(opt_view(query.post_tab)) == "verified"@)
    &&& r.post_page == page
    &&& r.has_prev_post_page == (page > 1)
    &&& r.prev_post_page == if page > 1 {
        page - 1
    } else {
        1
    }
    &&& r.has_next_post_page == has_next
    &&& r.next_post_page == page + 1
}

/// What the dashboard lists beside the posts.
pub struct DashboardLists {
    pub users: Vec<ModeratorUserView>,
    pub reports: Vec<ModeratorReportView>,
    pub instances: Vec<ModeratorInstanceView>,
    pub remote_users: Vec<ModeratorRemoteUserView>,
}

/// The dashboard.
pub fn moderator_dashboard_page(
    header: PageHeader,
    query: &ModeratorDashboardQuery,
    stats: ModeratorStatsView,
    lists: DashboardLists,
    posts: Vec<IndexPostView>,
    has_next_post_page: bool,
    is_acting_as_team: bool,
) -> (r: ModeratorTemplate)
    requires
        post_page(query.post_page) < i64::MAX,
    ensures
        r.title@ == "Moderator Dashboard"@,
        r.id == header.id,
        r.user_id == header.user_id,
        r.is_moderator,
        r.local_profile_domain == header.local_profile_domain,
        r.username == header.username,
        r.profile_photo_url == header.profile_photo_url,
        r.profile_photo_style == header.profile_photo_style,
        r.unread_notifications_count == header.unread_notifications_count,
        r.notifications == header.notifications,
        r.stats == stats,
        r.users == lists.users,
        r.reports == lists.reports,
        r.instances == lists.instances,
        r.remote_users == lists.remote_users,
        r.posts == posts,
        r.is_acting_as_team == is_acting_as_team,
        shows_post_page(r, *query, has_next_post_page),
        shows_feedback(r, *query),
{
    let tab: &'static str = match &query.post_tab {
        Some(s) => normalize_moderator_post_tab(Some(s.as_str())),
        None => normalize_moderator_post_tab(None),
    };
    let page: i64 = requested_post_page(query.post_page);
    let has_prev: bool = page > 1;
    let prev: i64 = if has_prev {
        page - 1
    } else {
        1
    };
    let smtp: (&'static str, bool) = feedback_text(Area::Smtp, &query.smtp_status);
    let team_post: (&'static str, bool) = feedback_text(Area::TeamPost, &query.team_post_status);
    let team_switch: (&'static str, bool) = feedback_text(
        Area::TeamSwitch,
        &query.team_switch_status,
    );
    let instance: (&'static str, bool) = feedback_text(Area::Instance, &query.instance_status);
    let remote_user: (&'static str, bool) = feedback_text(
        Area::RemoteUser,
        &query.remote_user_status,
    );
    ModeratorTemplate {
        title: "Moderator Dashboard".to_owned(),
        id: header.id,
        user_id: header.user_id,
        is_moderator: true,
        local_profile_domain: header.local_profile_domain,
        username: header.username,
        profile_photo_url: header.profile_photo_url,
        profile_photo_style: header.profile_photo_style,
        unread_notifications_count: header.unread_notifications_count,
        notifications: header.notifications,
        stats,
        users: lists.users,
        posts,
        post_tab: tab.to_owned(),
        is_open_post_tab: str_eq(tab, "open"),
        is_verified_post_tab: str_eq(tab, "verified"),
        post_page: page,
        has_prev_post_page: has_prev,
        has_next_post_page,
        prev_post_page: prev,
        next_post_page: page + 1,
        reports: lists.reports,
        instances: lists.instances,
        remote_users: lists.remote_users,
        smtp_test_message: smtp.0.to_owned(),
        smtp_test_success: smtp.1,
        team_post_message: team_post.0.to_owned(),
        team_post_success: team_post.1,
        team_switch_message: team_switch.0.to_owned(),
        team_switch_success: team_switch.1,
        instance_message: instance.0.to_owned(),
        instance_success: instance.1,
        remote_user_message: remote_user.0.to_owned(),
        remote_user_success: remote_user.1,
        is_acting_as_team,
    }
}

// ---------------------------------------------------------------------------
// Redaction
// ---------------------------------------------------------------------------
/// What a post says: its text, and the link shown with it.
pub struct PostText {
    pub body: String,
    pub link_url: String,
}

/// Whether a text, spaces around it aside, is that of a post that a moderator has deleted.
pub open spec fn redacted(body: Seq<char>) -> bool {
    trim_of(body, CharClass::Only(' ')) == MODERATOR_REDACTED_POST_TEXT@
}

pub fn is_redacted(body: &str) -> (r: bool)
    ensures
        r == redacted(body@),
{
    str_eq(trim_matches(body, CharClass::Only(' ')).as_str(), MODERATOR_REDACTED_POST_TEXT)
}

/// What is left of a post that a moderator deletes.
pub fn redact_post() -> (r: PostText)
    ensures
        r.body@ == MODERATOR_REDACTED_POST_TEXT@,
        r.link_url@ == ""@,
{
    PostText { body: MODERATOR_REDACTED_POST_TEXT.to_owned(), link_url: "".to_owned() }
}

/// The text of a post once its deletion is taken back: nothing of a deleted post comes back, and
/// another post keeps its text.
pub open spec fn unredacted(body: Seq<char>) -> Seq<char> {
    if redacted(body) {
        ""@
    } else {
        body
    }
}

/// The new text of a post whose deletion is taken back; none where the post stays as it is.
pub fn unredact_post(body: &str) -> (r: Option<String>)
    ensures
        r is Some == redacted(body@),
        r matches Some(b) ==> b@ == unredacted(body@),
{
    if is_redacted(body) {
        Some("".to_owned())
    } else {
        None
    }
}

/// A post is known as redacted after a redaction, and no longer after the redaction is taken back.
pub proof fn law_redaction_is_known(body: Seq<char>)
    ensures
        redacted(MODERATOR_REDACTED_POST_TEXT@),
        !redacted(unredacted(body)),
{
    let k = CharClass::Only(' ');
    let t = MODERATOR_REDACTED_POST_TEXT@;
    reveal_strlit("Deleted by moderator");
    reveal_strlit("");
    assert(t.len() == 20 && t[0] == 'D' && t[19] == 'r');
    law_trim_fixed(t, k);
    law_trim(""@, k);
}

// ---------------------------------------------------------------------------
// What moderators may do
// ---------------------------------------------------------------------------
/// Which words name a role, and which role: users, moderators, suspended and banned ones.
pub proof fn law_role_names(raw: Seq<char>)
    ensures
        ({
            let v = lower(trim(raw));
            &&& named_role(raw) is Some <==> v == "user"@ || v == "mod"@ || v == "moderator"@ || v
                == "suspended"@ || v == "suspend"@ || v == "ban"@ || v == "banned"@
            &&& v == "user"@ ==> named_role(raw) == Some("user"@)
            &&& v == "mod"@ || v == "moderator"@ ==> named_role(raw) == Some("mod"@)
            &&& v == "suspended"@ || v == "suspend"@ ==> named_role(raw) == Some("suspended"@)
            &&& v == "ban"@ || v == "banned"@ ==> named_role(raw) == Some("ban"@)
        }),
{
    lemma_role_words();
}

proof fn lemma_role_words()
    ensures
        "user"@ != "mod"@ && "user"@ != "moderator"@ && "user"@ != "suspended"@ && "user"@
            != "suspend"@ && "user"@ != "ban"@ && "user"@ != "banned"@,
        "mod"@ != "suspended"@ && "mod"@ != "suspend"@ && "mod"@ != "ban"@ && "mod"@ != "banned"@,
        "moderator"@ != "suspended"@ && "moderator"@ != "suspend"@ && "moderator"@ != "ban"@
            && "moderator"@ != "banned"@,
        "suspended"@ != "ban"@ && "suspended"@ != "banned"@ && "suspend"@ != "ban"@ && "suspend"@
            != "banned"@,
{
    reveal_strlit("user");
    reveal_strlit("mod");
    reveal_strlit("moderator");
    reveal_strlit("suspended");
    reveal_strlit("suspend");
    reveal_strlit("ban");
    reveal_strlit("banned");
    assert("user"@[0] == 'u' && "mod"@[0] == 'm' && "moderator"@[0] == 'm' && "suspended"@[0] == 's'
        && "suspend"@[0] == 's' && "ban"@[0] == 'b' && "banned"@[0] == 'b');
}

/// Only those with the role of a moderator act as one; others are refused, and who is not logged in
/// is asked to log in.
pub proof fn law_who_moderates(role: Option<Seq<char>>, fetch_request: bool, refusal: Refusal)
    ensures
        moderator_fault(role, fetch_request, refusal) is None <==> role == Some("mod"@) || role
            == Some("moderator"@),
        role is None && !fetch_request ==> moderator_fault(role, fetch_request, refusal) == Some(
            ReplyView::Redirect("/login"@),
        ),
        role is None && fetch_request ==> moderator_fault(role, fetch_request, refusal) == Some(
            ReplyView::Status(401),
        ),
{
}

/// A moderator changes the role of users who are no moderators, to user, suspended or banned.
pub proof fn law_roles_that_moderators_give(raw: Seq<char>, target: Option<Seq<char>>)
    ensures
        ({
            let v = lower(trim(raw));
            role_fault(raw) is None <==> v == "user"@ || v == "suspended"@ || v == "suspend"@ || v
                == "ban"@ || v == "banned"@
        }),
        role_target_fault(target) is None <==> target is Some && target != Some("mod"@) && target
            != Some("moderator"@),
{
    lemma_role_words();
}

/// Which words limit a server or a remote user, and which ban them; all others do neither.
pub proof fn law_discovery_words(raw: Seq<char>)
    ensures
        ({
            let v = lower(trim(raw));
            let status = discovery_status(raw);
            &&& status == "limited"@ <==> v == "limit"@ || v == "limited"@
            &&& status == "ban"@ <==> v == "ban"@ || v == "banned"@ || v == "blocked"@ || v
                == "block"@
            &&& status == "discovered"@ || status == "limited"@ || status == "ban"@
        }),
        discovery_status(discovery_status(raw)) == discovery_status(raw),
{
    reveal_strlit("limit");
    reveal_strlit("limited");
    reveal_strlit("ban");
    reveal_strlit("banned");
    reveal_strlit("blocked");
    reveal_strlit("block");
    reveal_strlit("discovered");
    assert("limit"@[0] == 'l' && "limited"@[0] == 'l' && "ban"@[0] == 'b' && "banned"@[0] == 'b'
        && "blocked"@[0] == 'b' && "block"@[0] == 'b' && "discovered"@[0] == 'd');
    let s = discovery_status(raw);
    law_trim_fixed(s, CharClass::White);
    assert(lower(s) =~= s);
}

proof fn lemma_status_positions(list: Seq<Seq<char>>, kind: Seq<char>, n: int) -> (at: Seq<int>)
    requires
        0 <= n <= list.len(),
    ensures
        are_positions(at, n),
        at.len() == status_count(list, kind, n),
        forall|i: int| 0 <= i < n ==> (#[trigger] at.contains(i) <==> discovery_status(list[i]) == kind),
    decreases n,
{
    if n == 0 {
        Seq::empty()
    } else {
        let before = lemma_status_positions(list, kind, n - 1);
        lemma_next_position(before, n - 1);
        let at = if discovery_status(list[n - 1]) == kind {
            before.push(n - 1)
        } else {
            before
        };
        assert forall|i: int| 0 <= i < n implies (#[trigger] at.contains(i) <==> discovery_status(
            list[i],
        ) == kind) by {
            if at.contains(i) {
                let k = choose|k: int| 0 <= k < at.len() && at[k] == i;
                if k < before.len() {
                    assert(before[k] == i);
                    assert(before.contains(i));
                }
            }
            if i < n - 1 && discovery_status(list[i]) == kind {
                assert(before.contains(i));
            }
        }
        at
    }
}

/// The dashboard counts the servers and the remote users of a status: as many as there are
/// positions of it.
pub proof fn law_statuses_are_counted(c: DiscoveryCounts, list: Seq<Seq<char>>)
    requires
        counts_statuses(c, list, list.len() as int),
    ensures
        counts_positions(c.discovered as int, list, "discovered"@),
        counts_positions(c.limited as int, list, "limited"@),
        counts_positions(c.banned as int, list, "ban"@),
        c.discovered + c.limited + c.banned == list.len(),
{
    let n = list.len() as int;
    let a = lemma_status_positions(list, "discovered"@, n);
    let b = lemma_status_positions(list, "limited"@, n);
    let d = lemma_status_positions(list, "ban"@, n);
    assert(are_positions(a, n) && are_positions(b, n) && are_positions(d, n));
    law_statuses_add_up(list, n);
}

/// Whether a number is that of the positions of a status in a list.
pub open spec fn counts_positions(count: int, list: Seq<Seq<char>>, kind: Seq<char>) -> bool {
    exists|at: Seq<int>|
        {
            &&& #[trigger] are_positions(at, list.len() as int)
            &&& at.len() == count
            &&& forall|i: int|
                0 <= i < list.len() ==> (#[trigger] at.contains(i) <==> discovery_status(list[i])
                    == kind)
        }
}

proof fn lemma_name_positions(names: Seq<Seq<char>>, name: Seq<char>, n: int) -> (at: Seq<int>)
    requires
        0 <= n <= names.len(),
    ensures
        are_positions(at, n),
        at.len() == occurrences(names, name, n),
        forall|i: int| 0 <= i < n ==> (#[trigger] at.contains(i) <==> names[i] == name),
    decreases n,
{
    if n == 0 {
        Seq::empty()
    } else {
        let before = lemma_name_positions(names, name, n - 1);
        lemma_next_position(before, n - 1);
        let at = if names[n - 1] == name {
            before.push(n - 1)
        } else {
            before
        };
        assert forall|i: int| 0 <= i < n implies (#[trigger] at.contains(i) <==> names[i] == name) by {
            if at.contains(i) {
                let k = choose|k: int| 0 <= k < at.len() && at[k] == i;
                if k < before.len() {
                    assert(before[k] == i);
                    assert(before.contains(i));
                }
            }
            if i < n - 1 && names[i] == name {
                assert(before.contains(i));
            }
        }
        at
    }
}

/// Whether a number is that of the positions of a name in a list.
pub open spec fn counts_name(count: int, names: Seq<Seq<char>>, name: Seq<char>) -> bool {
    exists|at: Seq<int>|
        {
            &&& #[trigger] are_positions(at, names.len() as int)
            &&& at.len() == count
            &&& forall|i: int| 0 <= i < names.len() ==> (#[trigger] at.contains(i) <==> names[i] == name)
        }
}

/// Whether a name is in a breakdown.
pub open spec fn lists_protocol(r: Seq<ProtocolCountView>, name: Seq<char>) -> bool {
    exists|k: int| 0 <= k < r.len() && (#[trigger] r[k]).name@ == name
}

/// The breakdown of protocols lists every protocol, with the number of servers that have it, the
/// most frequent first and those of one frequency by name.
pub proof fn law_protocols_are_counted(
    r: Seq<ProtocolCountView>,
    v: Seq<ProtocolCountView>,
    names: Seq<Seq<char>>,
)
    requires
        tallies(v, names, names.len() as int),
        r == sorted(v),
    ensures
        forall|k: int| 0 <= k < r.len() ==> counts_name(
            (#[trigger] r[k]).count as int,
            names,
            r[k].name@,
        ),
        forall|i: int| 0 <= i < names.len() ==> lists_protocol(r, #[trigger] names[i]),
        forall|i: int, j: int|
            #![trigger r[i], r[j]]
            0 <= i < j < r.len() ==> r[i].count >= r[j].count && (r[i].count == r[j].count
                ==> !text_before(r[j].name@, r[i].name@)),
{
    let n = names.len() as int;
    law_protocols_are_in_order(v);
    law_sorted_keeps_entries(v, v.len() as int);
    assert(v.take(v.len() as int) =~= v);
    v.to_multiset_ensures();
    r.to_multiset_ensures();
    assert forall|k: int| 0 <= k < r.len() implies counts_name(
        (#[trigger] r[k]).count as int,
        names,
        r[k].name@,
    ) by {
        assert(r.contains(r[k]));
        assert(r.to_multiset().count(r[k]) > 0);
        assert(v.contains(r[k]));
        let m = choose|m: int| 0 <= m < v.len() && v[m] == r[k];
        assert(v[m].count == occurrences(names, v[m].name@, n));
        let at = lemma_name_positions(names, r[k].name@, n);
        assert(are_positions(at, n));
    }
    assert forall|i: int| 0 <= i < names.len() implies lists_protocol(r, #[trigger] names[i]) by {
        let m = choose|m: int| 0 <= m < v.len() && (#[trigger] v[m]).name@ == names[i];
        assert(v.contains(v[m]));
        assert(v.to_multiset().count(v[m]) > 0);
        assert(r.contains(v[m]));
        let k = choose|k: int| 0 <= k < r.len() && r[k] == v[m];
        assert(r[k].name@ == names[i]);
    }
}

/// The host that a text names is the text in lower case where it is already one.
pub proof fn law_hosts_stay(host: Seq<char>)
    requires
        forall|i: int| 0 <= i < host.len() ==> is_host_char(#[trigger] host[i]),
    ensures
        instance_host(host) == lower(host),
{
    let t = host;
    assert forall|i: int| 0 <= i < t.len() implies !is_white(#[trigger] t[i]) && t[i] != '/' by {
        assert(is_host_char(t[i]));
    }
    law_trim_fixed(t, CharClass::White);
    law_trim_fixed(t, CharClass::Only('/'));
    lemma_hosts_stay(lower(t), t.len() as int);
}

proof fn lemma_hosts_stay(s: Seq<char>, n: int)
    requires
        0 <= n <= s.len(),
        forall|i: int| 0 <= i < s.len() ==> is_host_char(#[trigger] s[i]),
    ensures
        host_chars(s, n) == s.take(n),
    decreases n,
{
    if n > 0 {
        lemma_hosts_stay(s, n - 1);
        assert(s.take(n - 1).push(s[n - 1]) =~= s.take(n));
    } else {
        assert(s.take(0) =~= Seq::<char>::empty());
    }
}

/// A reported message is taken where the reporter can read it.
pub proof fn law_message_reports(
    sender: i32,
    can_access: bool,
    fetch_request: bool,
    back: Seq<char>,
)
    ensures
        message_report_fault(Some((sender, can_access)), fetch_request, back) is None
            <==> can_access,
        message_report_fault(None, true, back) == Some(ReplyView::Status(404)),
        message_report_fault(Some((sender, false)), true, back) == Some(ReplyView::Status(403)),
        message_report_fault(None, false, back) == Some(ReplyView::Redirect(back)),
{
}

/// What the dashboard says of a test email, by the status in its address.
pub proof fn law_smtp_messages(status: Seq<char>)
    ensures
        status == "sent"@ ==> feedback(Area::Smtp, Some(status)) == (
            "SMTP test email sent successfully."@,
            true,
        ),
        status == "invalid_email"@ ==> feedback(Area::Smtp, Some(status)) == (
            "Please enter a valid email address."@,
            false,
        ),
        status == "config_error"@ ==> feedback(Area::Smtp, Some(status)) == (
            "SMTP is not configured correctly. Check SMTP settings."@,
            false,
        ),
        status == "send_error"@ ==> feedback(Area::Smtp, Some(status)) == (
            "Unable to send SMTP test email right now. Check server logs."@,
            false,
        ),
        status != "sent"@ && status != "invalid_email"@ && status != "config_error"@ &&
            status != "send_error"@ ==> feedback(Area::Smtp, Some(status)) == (""@, false),
{
    reveal_strlit("sent");
    reveal_strlit("invalid_email");
    reveal_strlit("config_error");
    reveal_strlit("send_error");
    assert("sent"@.len() == 4);
    assert("invalid_email"@.len() == 13);
    assert("config_error"@.len() == 12);
    assert("send_error"@.len() == 10);
}

/// What the dashboard says of a post of the team, by the status in its address.
pub proof fn law_team_post_messages(status: Seq<char>)
    ensures
        status == "published"@ ==> feedback(Area::TeamPost, Some(status)) == (
            "Instavox Team post published."@,
            true,
        ),
        status == "invalid"@ ==> feedback(Area::TeamPost, Some(status)) == (
            "A post requires text or at least one image."@,
            false,
        ),
        status == "payload_error"@ ==> feedback(Area::TeamPost, Some(status)) == (
            "Unable to read the moderator post payload."@,
            false,
        ),
        status == "save_error"@ ==> feedback(Area::TeamPost, Some(status)) == (
            "Unable to publish the Instavox Team post right now."@,
            false,
        ),
        status != "published"@ && status != "invalid"@ && status != "payload_error"@ &&
            status != "save_error"@ ==> feedback(Area::TeamPost, Some(status)) == (""@, false),
{
    reveal_strlit("published");
    reveal_strlit("invalid");
    reveal_strlit("payload_error");
    reveal_strlit("save_error");
    assert("published"@.len() == 9);
    assert("invalid"@.len() == 7);
    assert("payload_error"@.len() == 13);
    assert("save_error"@.len() == 10);
}

/// What the dashboard says of switching accounts, by the status in its address.
pub proof fn law_team_switch_messages(status: Seq<char>)
    ensures
        status == "team"@ ==> feedback(Area::TeamSwitch, Some(status)) == (
            "You are now acting as Team Instavox."@,
            true,
        ),
        status == "moderator"@ ==> feedback(Area::TeamSwitch, Some(status)) == (
            "You are now back on your moderator account."@,
            true,
        ),
        status == "forbidden"@ ==> feedback(Area::TeamSwitch, Some(status)) == (
            "Only moderators can use Team Instavox switching."@,
            false,
        ),
        status == "save_error"@ ==> feedback(Area::TeamSwitch, Some(status)) == (
            "Unable to switch account right now."@,
            false,
        ),
        status != "team"@ && status != "moderator"@ && status != "forbidden"@ && status !=
            "save_error"@ ==> feedback(Area::TeamSwitch, Some(status)) == (""@, false),
{
    reveal_strlit("team");
    reveal_strlit("moderator");
    reveal_strlit("forbidden");
    reveal_strlit("save_error");
    assert("team"@.len() == 4);
    assert("moderator"@.len() == 9);
    assert("forbidden"@.len() == 9);
    assert("save_error"@.len() == 10);
    assert("moderator"@[0] == 'm');
    assert("forbidden"@[0] == 'f');
}

/// What the dashboard says of the status of a server, by the status in its address.
pub proof fn law_instance_messages(status: Seq<char>)
    ensures
        status == "discovered"@ ==> feedback(Area::Instance, Some(status)) == (
            "Instance status set to discovered."@,
            true,
        ),
        status == "limited"@ ==> feedback(Area::Instance, Some(status)) == (
            "Instance status set to limited."@,
            true,
        ),
        status == "ban"@ ==> feedback(Area::Instance, Some(status)) == (
            "Instance banned."@,
            true,
        ),
        status == "invalid_host"@ ==> feedback(Area::Instance, Some(status)) == (
            "Invalid instance host."@,
            false,
        ),
        status == "save_error"@ ==> feedback(Area::Instance, Some(status)) == (
            "Unable to update instance status right now."@,
            false,
        ),
        status != "discovered"@ && status != "limited"@ && status != "ban"@ && status !=
            "invalid_host"@ && status != "save_error"@ ==> feedback(Area::Instance,
            Some(status)) == (""@, false),
{
    reveal_strlit("discovered");
    reveal_strlit("limited");
    reveal_strlit("ban");
    reveal_strlit("invalid_host");
    reveal_strlit("save_error");
    assert("discovered"@.len() == 10);
    assert("limited"@.len() == 7);
    assert("ban"@.len() == 3);
    assert("invalid_host"@.len() == 12);
    assert("save_error"@.len() == 10);
    assert("discovered"@[0] == 'd');
    assert("save_error"@[0] == 's');
}

/// What the dashboard says of the status of a remote user, by the status in its address.
pub proof fn law_remote_user_messages(status: Seq<char>)
    ensures
        status == "discovered"@ ==> feedback(Area::RemoteUser, Some(status)) == (
            "Remote user status set to discovered."@,
            true,
        ),
        status == "limited"@ ==> feedback(Area::RemoteUser, Some(status)) == (
            "Remote user status set to limited."@,
            true,
        ),
        status == "ban"@ ==> feedback(Area::RemoteUser, Some(status)) == (
            "Remote user banned."@,
            true,
        ),
        status == "invalid_actor"@ ==> feedback(Area::RemoteUser, Some(status)) == (
            "Invalid remote user."@,
            false,
        ),
        status == "save_error"@ ==> feedback(Area::RemoteUser, Some(status)) == (
            "Unable to update remote user status right now."@,
            false,
        ),
        status != "discovered"@ && status != "limited"@ && status != "ban"@ && status !=
            "invalid_actor"@ && status != "save_error"@ ==> feedback(Area::RemoteUser,
            Some(status)) == (""@, false),
{
    reveal_strlit("discovered");
    reveal_strlit("limited");
    reveal_strlit("ban");
    reveal_strlit("invalid_actor");
    reveal_strlit("save_error");
    assert("discovered"@.len() == 10);
    assert("limited"@.len() == 7);
    assert("ban"@.len() == 3);
    assert("invalid_actor"@.len() == 13);
    assert("save_error"@.len() == 10);
    assert("discovered"@[0] == 'd');
    assert("save_error"@[0] == 's');
}

/// Where each outcome is reported: under the name of its part of the dashboard, by its own word.
pub proof fn law_outcome_paths(o: Outcome)
    ensures
        o is SmtpSent ==> outcome_path(o) == "/moderator?smtp_status="@ + "sent"@,
        o is SmtpInvalidEmail ==> outcome_path(o) == "/moderator?smtp_status="@ + "invalid_email"@,
        o is SmtpConfigError ==> outcome_path(o) == "/moderator?smtp_status="@ + "config_error"@,
        o is SmtpSendError ==> outcome_path(o) == "/moderator?smtp_status="@ + "send_error"@,
        o is PostPublished ==> outcome_path(o) == "/moderator?team_post_status="@ + "published"@,
        o is PostInvalid ==> outcome_path(o) == "/moderator?team_post_status="@ + "invalid"@,
        o is PostPayloadError ==> outcome_path(o) == "/moderator?team_post_status="@ + "payload_error"@,
        o is PostSaveError ==> outcome_path(o) == "/moderator?team_post_status="@ + "save_error"@,
        o is SwitchTeam ==> outcome_path(o) == "/moderator?team_switch_status="@ + "team"@,
        o is SwitchModerator ==> outcome_path(o) == "/moderator?team_switch_status="@ + "moderator"@,
        o is SwitchForbidden ==> outcome_path(o) == "/moderator?team_switch_status="@ + "forbidden"@,
        o is SwitchSaveError ==> outcome_path(o) == "/moderator?team_switch_status="@ + "save_error"@,
        o is InstanceInvalidHost ==> outcome_path(o) == "/moderator?instance_status="@ + "invalid_host"@,
        o is InstanceSaveError ==> outcome_path(o) == "/moderator?instance_status="@ + "save_error"@,
        o is RemoteUserInvalid ==> outcome_path(o) == "/moderator?remote_user_status="@ + "invalid_actor"@,
        o is RemoteUserSaveError ==> outcome_path(o) == "/moderator?remote_user_status="@ + "save_error"@,
{
}

/// Each part of the dashboard shows what its own status in the address says.
pub proof fn law_dashboard_shows_feedback(r: ModeratorTemplate, query: ModeratorDashboardQuery)
    requires
        shows_feedback(r, query),
    ensures
        (r.smtp_test_message@, r.smtp_test_success) == feedback(
            Area::Smtp,
            opt_view(query.smtp_status),
        ),
        (r.team_post_message@, r.team_post_success) == feedback(
            Area::TeamPost,
            opt_view(query.team_post_status),
        ),
        (r.team_switch_message@, r.team_switch_success) == feedback(
            Area::TeamSwitch,
            opt_view(query.team_switch_status),
        ),
        (r.instance_message@, r.instance_success) == feedback(
            Area::Instance,
            opt_view(query.instance_status),
        ),
        (r.remote_user_message@, r.remote_user_success) == feedback(
            Area::RemoteUser,
            opt_view(query.remote_user_status),
        ),
{
}

/// The dashboard shows the posts that are open or those that are verified, page by page from the
/// first on.
pub proof fn law_dashboard_pages(
    r: ModeratorTemplate,
    query: ModeratorDashboardQuery,
    has_next: bool,
)
    requires
        shows_post_page(r, query, has_next),
    ensures
        (query.post_tab matches Some(t) && lower(trim(t@)) == "verified"@) ==> r.post_tab@
            == "verified"@ && r.is_verified_post_tab && !r.is_open_post_tab,
        !(query.post_tab matches Some(t) && lower(trim(t@)) == "verified"@) ==> r.post_tab@
            == "open"@ && r.is_open_post_tab && !r.is_verified_post_tab,
        query.post_page matches Some(n) ==> 1 <= n < i64::MAX ==> r.post_page == n
            && r.next_post_page == n + 1 && (n > 1 ==> r.has_prev_post_page && r.prev_post_page == n
            - 1),
        query.post_page is None ==> r.post_page == 1,
        r.post_page == 1 ==> !r.has_prev_post_page && r.prev_post_page == 1,
        r.has_next_post_page == has_next,
{
    reveal_strlit("verified");
    reveal_strlit("open");
    assert("verified"@.len() == 8 && "open"@.len() == 4);
}

/// The dashboard shows remote users, servers and reports as they are stored, what is missing as
/// zero or as nothing.
pub proof fn law_dashboard_rows(
    u: ModeratorRemoteUserView,
    user: ModeratorRemoteUserRow,
    i: ModeratorInstanceView,
    instance: ModeratorInstanceRow,
)
    requires
        is_remote_user_view(u, user),
        is_instance_view(i, instance),
    ensures
        u.actor_id == user.actor_id && u.host == user.host,
        u.preferred_username == user.preferred_username && u.display_name == user.display_name,
        u.discovered_at == user.discovered_at && u.last_seen_at == user.last_seen_at,
        u.profile_photo_url == user.profile_photo_url,
        u.status@ == discovery_status(user.status@),
        i.host == instance.host && i.protocol == instance.protocol,
        i.discovered_at == instance.discovered_at && i.last_seen_at == instance.last_seen_at,
        i.remote_actor_count == instance.remote_actor_count,
        i.status@ == discovery_status(instance.status@),
{
}

/// The dashboard shows a report as it is stored, with zero for a number and nothing for a name that
/// is missing.
pub proof fn law_reports_are_shown(v: ModeratorReportView, row: ModeratorReportRow)
    requires
        is_report_view(v, row),
    ensures
        v.report_id == row.report_id && v.kind == row.kind && v.status == row.status && v.reason
            == row.reason && v.created_at == row.created_at,
        v.reporter_username == row.reporter_username,
        row.target_user_public_id matches Some(n) ==> v.target_user_public_id == n,
        row.target_user_public_id is None ==> v.target_user_public_id == 0,
        row.target_user_username matches Some(t) ==> v.target_user_username@ == t@,
        row.target_user_username is None ==> v.target_user_username@.len() == 0,
        row.target_post_id matches Some(n) ==> v.target_post_id == n,
        row.target_post_id is None ==> v.target_post_id == 0,
        row.target_message_id matches Some(n) ==> v.target_message_id == n,
        row.target_message_id is None ==> v.target_message_id == 0,
        v.target_message_text == row.target_message_text,
        row.target_message_sender_public_id matches Some(n) ==> v.target_message_sender_public_id
            == n,
        row.target_message_sender_username matches Some(t) ==> v.target_message_sender_username@
            == t@,
        v.target_post_soft_deleted == row.target_post_soft_deleted,
        row.target_post_author_public_id matches Some(n) ==> v.target_post_author_public_id == n,
        row.target_post_author_username matches Some(t) ==> v.target_post_author_username@ == t@,
{
    reveal_strlit("");
}

/// An error of the mail settings is known by what it says, whatever the case.
pub proof fn law_mail_setting_errors(error: Seq<char>)
    ensures
        is_config_error(error) <==> contains_text(lower(error), "smtp is not configured"@)
            || contains_text(lower(error), "credentials are incomplete"@) || contains_text(
            lower(error),
            "unsupported smtp_security"@,
        ),
{
}

/// A post that was deleted comes back without a text, and another keeps its own.
pub proof fn law_taken_back_deletions(body: Seq<char>)
    ensures
        redacted(body) ==> unredacted(body).len() == 0,
        !redacted(body) ==> unredacted(body) == body,
{
    reveal_strlit("");
}

/// Domains are compared without their ports and without the space around them, and upper and lower
/// case makes no difference.
pub proof fn law_same_domains(a: Seq<char>, port: Seq<char>, b: Seq<char>)
    requires
        !a.contains(':'),
        !b.contains(':'),
        trim(a) == a,
    ensures
        same_domain(a, b) <==> lower(a) == lower(b),
        same_domain(a, b.push(':') + port) <==> lower(a) == lower(b),
{
    lemma_no_port(a);
    lemma_no_port(b);
    law_pieces(lower(a), ':', Seq::empty());
    law_pieces(lower(b), ':', lower(port));
    assert(lower(b.push(':') + port) =~= lower(b).push(':') + lower(port));
}

proof fn lemma_no_port(s: Seq<char>)
    requires
        !s.contains(':'),
    ensures
        !lower(s).contains(':'),
{
    if lower(s).contains(':') {
        let i = choose|i: int| 0 <= i < lower(s).len() && lower(s)[i] == ':';
        assert(lower_char(s[i]) == ':');
        assert(s[i] == ':');
    }
}

} // verus!
