//! Pages: the header that all of them share, and the pages without logic of their own.

use vstd::prelude::*;
use vstd::string::*;

use crate::notifications::HeaderNotificationView;
use crate::number::{decimal, push_decimal};
use crate::text::{contains, contains_text, lower, starts_with, starts_with_text, to_lower};
use crate::web::{
    BAD_GATEWAY, BAD_REQUEST, FORBIDDEN, GATEWAY_TIMEOUT, INTERNAL_SERVER_ERROR, NOT_FOUND,
    SERVICE_UNAVAILABLE, UNAUTHORIZED,
};

verus! {

pub const DEFAULT_PROFILE_PHOTO_URL: &'static str = "/public/avatar.webp";

pub const DEFAULT_BACKGROUND_PHOTO_URL: &'static str = "/public/pexels-enginakyurt-17902901.webp";

/// What every page shows of the user who looks at it.
pub struct PageHeader {
    /// The public number of the user, zero for none.
    pub id: i64,
    /// The number of the user, zero for none.
    pub user_id: i32,
    pub is_moderator: bool,
    pub local_profile_domain: String,
    pub username: String,
    pub profile_photo_url: String,
    pub profile_photo_style: String,
    pub unread_notifications_count: i64,
    pub notifications: Vec<HeaderNotificationView>,
}

// ---------------------------------------------------------------------------
// Error pages
// ---------------------------------------------------------------------------
pub struct ErrorTemplate {
    pub title: String,
    pub id: i64,
    pub is_moderator: bool,
    pub local_profile_domain: String,
    pub username: String,
    pub profile_photo_url: String,
    pub profile_photo_style: String,
    pub unread_notifications_count: i64,
    pub notifications: Vec<HeaderNotificationView>,
    pub error_code: u16,
    pub error_name: String,
    pub error_message: String,
}

/// The name of an error.
pub open spec fn error_name(status: u16) -> Seq<char> {
    if status == BAD_REQUEST {
        "Bad Request"@
    } else if status == UNAUTHORIZED {
        "Unauthorized"@
    } else if status == FORBIDDEN {
        "Forbidden"@
    } else if status == NOT_FOUND {
        "Page Not Found"@
    } else if status == INTERNAL_SERVER_ERROR {
        "Internal Server Error"@
    } else if status == BAD_GATEWAY {
        "Bad Gateway"@
    } else if status == SERVICE_UNAVAILABLE {
        "Service Unavailable"@
    } else if status == GATEWAY_TIMEOUT {
        "Gateway Timeout"@
    } else {
        "Unexpected Error"@
    }
}

/// What an error page says.
pub open spec fn error_message(status: u16) -> Seq<char> {
    if status == BAD_REQUEST {
        "The request format is invalid or incomplete. Please go back and try again."@
    } else if status == UNAUTHORIZED {
        "You need to be logged in to access this page."@
    } else if status == FORBIDDEN {
        "You do not have permission to access this resource."@
    } else if status == NOT_FOUND {
        "The page you requested does not exist or may have been moved."@
    } else if status == INTERNAL_SERVER_ERROR {
        "Something went wrong on our side. Please try again in a moment."@
    } else if status == BAD_GATEWAY {
        "The upstream service returned an invalid response."@
    } else if status == SERVICE_UNAVAILABLE {
        "The service is temporarily unavailable. Please try again shortly."@
    } else if status == GATEWAY_TIMEOUT {
        "The server took too long to respond. Please retry."@
    } else {
        "An unexpected error occurred."@
    }
}

pub fn custom_error_page_copy(status: u16) -> (r: (&'static str, &'static str))
    ensures
        r.0@ == error_name(status),
        r.1@ == error_message(status),
{
    if status == BAD_REQUEST {
        (
            "Bad Request",
            "The request format is invalid or incomplete. Please go back and try again.",
        )
    } else if status == UNAUTHORIZED {
        ("Unauthorized", "You need to be logged in to access this page.")
    } else if status == FORBIDDEN {
        ("Forbidden", "You do not have permission to access this resource.")
    } else if status == NOT_FOUND {
        ("Page Not Found", "The page you requested does not exist or may have been moved.")
    } else if status == INTERNAL_SERVER_ERROR {
        (
            "Internal Server Error",
            "Something went wrong on our side. Please try again in a moment.",
        )
    } else if status == BAD_GATEWAY {
        ("Bad Gateway", "The upstream service returned an invalid response.")
    } else if status == SERVICE_UNAVAILABLE {
        (
            "Service Unavailable",
            "The service is temporarily unavailable. Please try again shortly.",
        )
    } else if status == GATEWAY_TIMEOUT {
        ("Gateway Timeout", "The server took too long to respond. Please retry.")
    } else {
        ("Unexpected Error", "An unexpected error occurred.")
    }
}

/// Whether an error has a page of its own.
pub open spec fn has_error_page(status: u16) -> bool {
    status == BAD_REQUEST || status == UNAUTHORIZED || status == FORBIDDEN || status == NOT_FOUND
        || status == INTERNAL_SERVER_ERROR || status == BAD_GATEWAY || status
        == SERVICE_UNAVAILABLE || status == GATEWAY_TIMEOUT
}

pub fn is_custom_error_page_status(status: u16) -> (r: bool)
    ensures
        r == has_error_page(status),
{
    status == BAD_REQUEST || status == UNAUTHORIZED || status == FORBIDDEN || status == NOT_FOUND
        || status == INTERNAL_SERVER_ERROR || status == BAD_GATEWAY || status
        == SERVICE_UNAVAILABLE || status == GATEWAY_TIMEOUT
}

/// Whether a request asks for a page.
pub open spec fn asks_for_page(is_get: bool, accept: Seq<char>) -> bool {
    is_get && (lower(accept).len() == 0 || contains_text(lower(accept), "text/html"@)
        || contains_text(lower(accept), "*/*"@))
}

pub fn is_html_page_request(is_get: bool, accept_header: &str) -> (r: bool)
    ensures
        r == asks_for_page(is_get, accept_header@),
{
    if !is_get {
        return false;
    }
    let normalized: String = to_lower(accept_header);
    normalized.as_str().is_empty() || contains(normalized.as_str(), "text/html") || contains(
        normalized.as_str(),
        "*/*",
    )
}

/// Whether a path belongs to a part of the site that answers without pages.
pub open spec fn is_service_path(path: Seq<char>) -> bool {
    starts_with_text(path, "/v1/"@) || starts_with_text(path, "/ws/"@) || starts_with_text(
        path,
        "/ap/"@,
    ) || starts_with_text(path, "/health/"@) || starts_with_text(path, "/assets/"@)
        || starts_with_text(path, "/public/"@)
}

pub fn should_skip_custom_error_page(path: &str) -> (r: bool)
    ensures
        r == is_service_path(path@),
{
    starts_with(path, "/v1/") || starts_with(path, "/ws/") || starts_with(path, "/ap/")
        || starts_with(path, "/health/") || starts_with(path, "/assets/") || starts_with(
        path,
        "/public/",
    )
}

/// Whether an answer is to be replaced by an error page.
pub fn needs_error_page(status: u16, path: &str, is_get: bool, accept_header: &str) -> (r: bool)
    ensures
        r == (has_error_page(status) && !is_service_path(path@) && asks_for_page(
            is_get,
            accept_header@,
        )),
{
    is_custom_error_page_status(status) && !should_skip_custom_error_page(path)
        && is_html_page_request(is_get, accept_header)
}

/// The page for an error.
pub fn error_page(status: u16, header: PageHeader) -> (r: ErrorTemplate)
    ensures
        r.title@ == decimal(status as int) + " "@ + error_name(status),
        r.error_code == status,
        r.error_name@ == error_name(status),
        r.error_message@ == error_message(status),
        r.id == header.id,
        r.is_moderator == header.is_moderator,
        r.local_profile_domain == header.local_profile_domain,
        r.username == header.username,
        r.profile_photo_url == header.profile_photo_url,
        r.profile_photo_style == header.profile_photo_style,
        r.unread_notifications_count == header.unread_notifications_count,
        r.notifications == header.notifications,
{
    let copy: (&'static str, &'static str) = custom_error_page_copy(status);
    let mut title: String = String::new();
    push_decimal(&mut title, status as i64);
    assert(title@ =~= decimal(status as int));
    title.append(" ");
    title.append(copy.0);
    ErrorTemplate {
        title,
        id: header.id,
        is_moderator: header.is_moderator,
        local_profile_domain: header.local_profile_domain,
        username: header.username,
        profile_photo_url: header.profile_photo_url,
        profile_photo_style: header.profile_photo_style,
        unread_notifications_count: header.unread_notifications_count,
        notifications: header.notifications,
        error_code: status,
        error_name: copy.0.to_owned(),
        error_message: copy.1.to_owned(),
    }
}

// ---------------------------------------------------------------------------
// Policies
// ---------------------------------------------------------------------------
pub struct PolicyPageTemplate {
    pub title: String,
    pub id: i64,
    pub user_id: i32,
    pub is_moderator: bool,
    pub local_profile_domain: String,
    pub profile_photo_url: String,
    pub profile_photo_style: String,
    pub unread_notifications_count: i64,
    pub notifications: Vec<HeaderNotificationView>,
    pub username: String,
    pub page_heading: String,
    pub page_content: String,
}

/// Whether the header of a policy page is the given one.
pub open spec fn policy_header(t: PolicyPageTemplate, header: PageHeader) -> bool {
    &&& t.id == header.id
    &&& t.user_id == header.user_id
    &&& t.is_moderator == header.is_moderator
    &&& t.local_profile_domain == header.local_profile_domain
    &&& t.profile_photo_url == header.profile_photo_url
    &&& t.profile_photo_style == header.profile_photo_style
    &&& t.unread_notifications_count == header.unread_notifications_count
    &&& t.notifications == header.notifications
    &&& t.username == header.username
}

fn policy_page(header: PageHeader, title: &str, heading: &str, content: &str) -> (r:
    PolicyPageTemplate)
    ensures
        policy_header(r, header),
        r.title@ == title@,
        r.page_heading@ == heading@,
        r.page_content@ == content@,
{
    PolicyPageTemplate {
        title: title.to_owned(),
        id: header.id,
        user_id: header.user_id,
        is_moderator: header.is_moderator,
        local_profile_domain: header.local_profile_domain,
        profile_photo_url: header.profile_photo_url,
        profile_photo_style: header.profile_photo_style,
        unread_notifications_count: header.unread_notifications_count,
        notifications: header.notifications,
        username: header.username,
        page_heading: heading.to_owned(),
        page_content: content.to_owned(),
    }
}

pub fn terms_page(header: PageHeader) -> (r: PolicyPageTemplate)
    ensures
        policy_header(r, header),
        r.title@ == "Terms and Conditions - Instavox"@,
        r.page_heading@ == "Terms and Conditions"@,
        r.page_content@
            == "By creating an account, you agree to use Instavox lawfully, avoid harassment, abusive behavior, spam, and illegal content, and respect moderator decisions. You remain responsible for content posted from your account. Accounts may be restricted or removed for policy violations."@,
{
    policy_page(
        header,
        "Terms and Conditions - Instavox",
        "Terms and Conditions",
        "By creating an account, you agree to use Instavox lawfully, avoid harassment, abusive behavior, spam, and illegal content, and respect moderator decisions. You remain responsible for content posted from your account. Accounts may be restricted or removed for policy violations.",
    )
}

pub fn privacy_policy_page(header: PageHeader) -> (r: PolicyPageTemplate)
    ensures
        policy_header(r, header),
        r.title@ == "Privacy Policy - Instavox"@,
        r.page_heading@ == "Privacy Policy"@,
        r.page_content@
            == "Instavox stores account information, profile details, posts, messages, and moderation records needed to operate the service. Your data is used for account access, social features, safety moderation, and federation when enabled. Do not share confidential information in public posts. You can request account deletion from Settings."@,
{
    policy_page(
        header,
        "Privacy Policy - Instavox",
        "Privacy Policy",
        "Instavox stores account information, profile details, posts, messages, and moderation records needed to operate the service. Your data is used for account access, social features, safety moderation, and federation when enabled. Do not share confidential information in public posts. You can request account deletion from Settings.",
    )
}

/// The errors that have a page of their own, by their numbers; their names differ from each other
/// and from that of the rest.
pub proof fn law_error_pages(status: u16)
    ensures
        has_error_page(status) <==> status == 400 || status == 401 || status == 403 || status == 404
            || status == 500 || status == 502 || status == 503 || status == 504,
        status == 400 ==> error_name(status) == "Bad Request"@,
        status == 401 ==> error_name(status) == "Unauthorized"@,
        status == 403 ==> error_name(status) == "Forbidden"@,
        status == 404 ==> error_name(status) == "Page Not Found"@,
        status == 500 ==> error_name(status) == "Internal Server Error"@,
        status == 502 ==> error_name(status) == "Bad Gateway"@,
        status == 503 ==> error_name(status) == "Service Unavailable"@,
        status == 504 ==> error_name(status) == "Gateway Timeout"@,
        !has_error_page(status) ==> error_name(status) == "Unexpected Error"@,
{
}

/// What error pages say.
pub proof fn law_error_messages(status: u16)
    ensures
        status == 400 ==> error_message(status)
            == "The request format is invalid or incomplete. Please go back and try again."@,
        status == 401 ==> error_message(status) == "You need to be logged in to access this page."@,
        status == 403 ==> error_message(status)
            == "You do not have permission to access this resource."@,
        status == 404 ==> error_message(status)
            == "The page you requested does not exist or may have been moved."@,
        status == 500 ==> error_message(status)
            == "Something went wrong on our side. Please try again in a moment."@,
        status == 502 ==> error_message(status)
            == "The upstream service returned an invalid response."@,
        status == 503 ==> error_message(status)
            == "The service is temporarily unavailable. Please try again shortly."@,
        status == 504 ==> error_message(status)
            == "The server took too long to respond. Please retry."@,
        !has_error_page(status) ==> error_message(status) == "An unexpected error occurred."@,
{
}

/// Requests that read, and take pages or do not say what they take, ask for a page.
pub proof fn law_page_requests(accept: Seq<char>)
    ensures
        !asks_for_page(false, accept),
        accept.len() == 0 ==> asks_for_page(true, accept),
        contains_text(lower(accept), "text/html"@) ==> asks_for_page(true, accept),
        contains_text(lower(accept), "*/*"@) ==> asks_for_page(true, accept),
        asks_for_page(true, accept) ==> accept.len() == 0 || contains_text(
            lower(accept),
            "text/html"@,
        ) || contains_text(lower(accept), "*/*"@),
{
}

/// All paths below the six folders of services answer without pages, and no others.
pub proof fn law_service_paths(path: Seq<char>, rest: Seq<char>)
    ensures
        is_service_path("/v1/"@ + rest),
        is_service_path("/ws/"@ + rest),
        is_service_path("/ap/"@ + rest),
        is_service_path("/health/"@ + rest),
        is_service_path("/assets/"@ + rest),
        is_service_path("/public/"@ + rest),
        is_service_path(path) ==> starts_with_text(path, "/v1/"@) || starts_with_text(path, "/ws/"@)
            || starts_with_text(path, "/ap/"@) || starts_with_text(path, "/health/"@)
            || starts_with_text(path, "/assets/"@) || starts_with_text(path, "/public/"@),
{
    lemma_starts_with("/v1/"@, rest);
    lemma_starts_with("/ws/"@, rest);
    lemma_starts_with("/ap/"@, rest);
    lemma_starts_with("/health/"@, rest);
    lemma_starts_with("/assets/"@, rest);
    lemma_starts_with("/public/"@, rest);
}

proof fn lemma_starts_with(a: Seq<char>, b: Seq<char>)
    ensures
        starts_with_text(a + b, a),
{
    assert((a + b).subrange(0, a.len() as int) =~= a);
}

/// A policy page shows who looks at it.
pub proof fn law_policy_headers(t: PolicyPageTemplate, header: PageHeader)
    requires
        policy_header(t, header),
    ensures
        t.id == header.id && t.user_id == header.user_id && t.username == header.username,
        t.is_moderator == header.is_moderator,
        t.local_profile_domain == header.local_profile_domain,
        t.profile_photo_url == header.profile_photo_url,
        t.profile_photo_style == header.profile_photo_style,
        t.unread_notifications_count == header.unread_notifications_count,
        t.notifications == header.notifications,
{
}

} // verus!
