//! The session of a user: signing in and registering.

use vstd::prelude::*;
use vstd::string::*;

use crate::notifications::HeaderNotificationView;
use crate::page::PageHeader;
use crate::profile::MODERATOR_TEAM_USERNAME;
use crate::text::{eq_ignore_case, lower, opt_view, str_eq, trim, trim_text};

verus! {

/// The key under which a session holds the number of the moderator who acts as the team.
pub const MODERATOR_ACTING_ORIGINAL_ID_SESSION_KEY: &'static str = "moderator_original_user_id";

pub struct LoginPageQuery {
    pub email_status: Option<String>,
}

pub struct LoginTemplate {
    pub title: String,
    pub id: i64,
    pub user_id: i32,
    pub is_moderator: bool,
    pub local_profile_domain: String,
    pub profile_photo_url: String,
    pub profile_photo_style: String,
    pub unread_notifications_count: i64,
    pub notifications: Vec<HeaderNotificationView>,
    pub username: String,
    pub email_status_message: String,
    pub email_status_success: bool,
}

pub struct RegisterTemplate {
    pub title: String,
    pub id: i64,
    pub user_id: i32,
    pub is_moderator: bool,
    pub local_profile_domain: String,
    pub profile_photo_url: String,
    pub profile_photo_style: String,
    pub unread_notifications_count: i64,
    pub notifications: Vec<HeaderNotificationView>,
    pub username: String,
}

pub struct RegisterPageQuery {
    pub invite: Option<String>,
    pub token: Option<String>,
}

/// What a session holds of its user.
pub struct SessionIdentityRow {
    pub id: i32,
    pub username: String,
    pub public_id: i64,
    pub profile_photo_url: String,
    pub profile_photo_style: String,
}

/// What the login page says of the verification of an email address, and whether it is good news.
pub open spec fn login_message(status: Option<Seq<char>>) -> (Seq<char>, bool) {
    match status {
        Some(s) => if s == "sent"@ {
            ("Registration successful. Check your email for the verification link."@, true)
        } else if s == "verified"@ {
            ("Email verified. You can now sign in."@, true)
        } else if s == "expired"@ {
            ("Your verification link has expired. Please sign up again."@, false)
        } else if s == "invalid"@ {
            ("Invalid verification link."@, false)
        } else {
            (""@, false)
        },
        None => (""@, false),
    }
}

fn login_feedback(status: &Option<String>) -> (r: (&'static str, bool))
    ensures
        (r.0@, r.1) == login_message(opt_view(*status)),
{
    match status {
        Some(s) => {
            if str_eq(s.as_str(), "sent") {
                ("Registration successful. Check your email for the verification link.", true)
            } else if str_eq(s.as_str(), "verified") {
                ("Email verified. You can now sign in.", true)
            } else if str_eq(s.as_str(), "expired") {
                ("Your verification link has expired. Please sign up again.", false)
            } else if str_eq(s.as_str(), "invalid") {
                ("Invalid verification link.", false)
            } else {
                ("", false)
            }
        },
        None => ("", false),
    }
}

/// The login page.
pub fn login_page(header: PageHeader, query: &LoginPageQuery) -> (r: LoginTemplate)
    ensures
        r.title@ == "Login - Instavox"@,
        r.id == header.id,
        r.user_id == header.user_id,
        r.is_moderator == header.is_moderator,
        r.local_profile_domain == header.local_profile_domain,
        r.profile_photo_url == header.profile_photo_url,
        r.profile_photo_style == header.profile_photo_style,
        r.unread_notifications_count == header.unread_notifications_count,
        r.notifications == header.notifications,
        r.username == header.username,
        (r.email_status_message@, r.email_status_success) == login_message(
            opt_view(query.email_status),
        ),
{
    let (message, success): (&'static str, bool) = login_feedback(&query.email_status);
    LoginTemplate {
        title: "Login - Instavox".to_owned(),
        id: header.id,
        user_id: header.user_id,
        is_moderator: header.is_moderator,
        local_profile_domain: header.local_profile_domain,
        profile_photo_url: header.profile_photo_url,
        profile_photo_style: header.profile_photo_style,
        unread_notifications_count: header.unread_notifications_count,
        notifications: header.notifications,
        username: header.username,
        email_status_message: message.to_owned(),
        email_status_success: success,
    }
}

/// The register page.
pub fn register_page(header: PageHeader) -> (r: RegisterTemplate)
    ensures
        r.title@ == "Register - Instavox"@,
        r.id == header.id,
        r.user_id == header.user_id,
        r.is_moderator == header.is_moderator,
        r.local_profile_domain == header.local_profile_domain,
        r.profile_photo_url == header.profile_photo_url,
        r.profile_photo_style == header.profile_photo_style,
        r.unread_notifications_count == header.unread_notifications_count,
        r.notifications == header.notifications,
        r.username == header.username,
{
    RegisterTemplate {
        title: "Register - Instavox".to_owned(),
        id: header.id,
        user_id: header.user_id,
        is_moderator: header.is_moderator,
        local_profile_domain: header.local_profile_domain,
        profile_photo_url: header.profile_photo_url,
        profile_photo_style: header.profile_photo_style,
        unread_notifications_count: header.unread_notifications_count,
        notifications: header.notifications,
        username: header.username,
    }
}

/// The invitation that the address of the register page gives: the invite where there is one, else
/// the token, if it is not blank.
pub open spec fn invitation(invite: Option<Seq<char>>, token: Option<Seq<char>>) -> Option<
    Seq<char>,
> {
    let given = match invite {
        Some(i) => Some(i),
        None => token,
    };
    match given {
        Some(t) if trim(t).len() > 0 => Some(trim(t)),
        _ => None,
    }
}

/// Reads the invitation from the address of the register page.
pub fn invite_token_candidate(query: &RegisterPageQuery) -> (r: Option<String>)
    ensures
        opt_view(r) == invitation(opt_view(query.invite), opt_view(query.token)),
{
    let given: &Option<String> = match &query.invite {
        Some(_) => &query.invite,
        None => &query.token,
    };
    match given {
        Some(t) => {
            let trimmed: String = trim_text(t.as_str());
            if trimmed.as_str().is_empty() {
                None
            } else {
                Some(trimmed)
            }
        },
        None => None,
    }
}

/// Whether a moderator acts as the team: the session is that of the team, and holds the number of
/// the moderator.
pub fn is_acting_as_team_session(session_username: &str, original_user_id: i32) -> (r: bool)
    ensures
        r == (lower(session_username@) == lower(MODERATOR_TEAM_USERNAME@) && original_user_id > 0),
{
    if !eq_ignore_case(session_username, MODERATOR_TEAM_USERNAME) {
        return false;
    }
    original_user_id > 0
}

/// The invitation that counts is the invite where there is one, else the token; a blank one is
/// none.
pub proof fn law_invitations(invite: Seq<char>, token: Option<Seq<char>>)
    ensures
        trim(invite).len() > 0 ==> invitation(Some(invite), token) == Some(trim(invite)),
        trim(invite).len() == 0 ==> invitation(Some(invite), token) is None,
        token matches Some(t) ==> trim(t).len() > 0 ==> invitation(None, token) == Some(trim(t)),
        invitation(None, None) is None,
{
}

/// The login page calls it good news that a mail was sent or an address verified, and nothing else.
pub proof fn law_login_news(status: Seq<char>)
    ensures
        login_message(Some(status)).1 <==> status == "sent"@ || status == "verified"@,
        login_message(Some(status)).0.len() > 0 <==> status == "sent"@ || status == "verified"@
            || status == "expired"@ || status == "invalid"@,
        login_message(None) == (""@, false),
{
    reveal_strlit("");
    reveal_strlit("Registration successful. Check your email for the verification link.");
    reveal_strlit("Email verified. You can now sign in.");
    reveal_strlit("Your verification link has expired. Please sign up again.");
    reveal_strlit("Invalid verification link.");
    reveal_strlit("sent");
    reveal_strlit("verified");
    reveal_strlit("expired");
    reveal_strlit("invalid");
    assert("sent"@.len() == 4 && "verified"@.len() == 8 && "expired"@.len() == 7 && "invalid"@.len()
        == 7);
    assert("expired"@[0] == 'e' && "invalid"@[0] == 'i');
}

/// What the login page says of the verification of an address, by the status in its own.
pub proof fn law_login_messages(status: Seq<char>)
    ensures
        status == "sent"@ ==> login_message(Some(status)) == (
            "Registration successful. Check your email for the verification link."@,
            true,
        ),
        status == "verified"@ ==> login_message(Some(status)) == (
            "Email verified. You can now sign in."@,
            true,
        ),
        status == "expired"@ ==> login_message(Some(status)) == (
            "Your verification link has expired. Please sign up again."@,
            false,
        ),
        status == "invalid"@ ==> login_message(Some(status)) == (
            "Invalid verification link."@,
            false,
        ),
        status != "sent"@ && status != "verified"@ && status != "expired"@ && status !=
            "invalid"@ ==> login_message(Some(status)) == (""@, false),
{
    reveal_strlit("sent");
    reveal_strlit("verified");
    reveal_strlit("expired");
    reveal_strlit("invalid");
    assert("sent"@.len() == 4);
    assert("verified"@.len() == 8);
    assert("expired"@.len() == 7);
    assert("invalid"@.len() == 7);
    assert("expired"@[0] == 'e');
    assert("invalid"@[0] == 'i');
}

} // verus!
