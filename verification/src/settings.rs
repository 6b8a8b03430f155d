//! The settings of a user: what the forms may ask for, and what the page says about the outcome.

use vstd::prelude::*;
use vstd::string::*;

use crate::auth::{
    hash_password, is_valid_signup_email, secure_password_requirements_text, stored_password,
    valid_email, validate_secure_password, verifies, verify_password, MIN_PASSWORD_BYTES,
};
use crate::notifications::HeaderNotificationView;
use crate::page::PageHeader;
use crate::profile::Loaded;
use crate::text::{
    byte_len, contains_class, eq_ignore_case, has_class, in_class, lower, opt_str, opt_view,
    replace, replace_text, starts_with, starts_with_text, str_eq, take_chars, to_lower, trim,
    trim_text, truncate_chars, CharClass,
};
use crate::uploads::{crop_style, crop_style_from_form, SelectUploadedImageForm};
use crate::web::{answers, redirect, text_reply, Reply, ReplyView, Step, BAD_REQUEST, FORBIDDEN};

verus! {

pub const MAX_PROFILE_BIO_LENGTH: usize = 2000;

pub struct SettingsTemplate {
    pub title: String,
    pub id: i64,
    pub user_id: i32,
    pub is_moderator: bool,
    pub local_profile_domain: String,
    pub profile_photo_url: String,
    pub profile_photo_style: String,
    pub current_profile_photo_url: String,
    pub current_profile_photo_style: String,
    pub current_background_photo_url: String,
    pub current_background_photo_style: String,
    pub uploaded_profile_images: Vec<String>,
    pub uploaded_background_images: Vec<String>,
    pub unread_notifications_count: i64,
    pub notifications: Vec<HeaderNotificationView>,
    pub username: String,
    pub password_message: String,
    pub password_success: bool,
    pub email_message: String,
    pub email_success: bool,
    pub current_email: String,
    pub federation_enabled: bool,
    pub federation_display_name_mode: String,
    pub federation_message: String,
    pub federation_success: bool,
    pub privacy_message: String,
    pub privacy_success: bool,
    pub first_name_public: bool,
    pub last_name_public: bool,
    pub birthday_public: bool,
    pub delete_message: String,
    pub delete_success: bool,
}

/// The outcomes that the address of the settings page reports.
pub struct SettingsQuery {
    pub password_status: Option<String>,
    pub email_status: Option<String>,
    pub federation_status: Option<String>,
    pub privacy_status: Option<String>,
    pub delete_status: Option<String>,
}

/// The stored settings of a user.
pub struct SettingsUserRow {
    pub public_id: i64,
    pub profile_photo_url: String,
    pub profile_photo_style: String,
    pub background_photo_url: String,
    pub background_photo_style: String,
    pub email: String,
    pub federation_enabled: bool,
    pub federation_display_name_mode: String,
    pub first_name_public: bool,
    pub last_name_public: bool,
    pub birthday_public: bool,
}

pub struct ChangeEmailForm {
    pub current_password: String,
    pub new_email: String,
    pub confirm_email: String,
}

pub struct ChangePasswordForm {
    pub current_password: String,
    pub new_password: String,
    pub confirm_password: String,
}

pub struct UpdateProfileBioForm {
    pub bio_description: String,
}

pub struct UpdateProfilePrivacyForm {
    pub first_name_privacy: String,
    pub last_name_privacy: String,
    pub birthday_privacy: String,
}

pub struct DeleteProfileForm {
    pub current_password: String,
}

pub struct UpdateFederationForm {
    pub federated: String,
    pub display_name_mode: String,
}

// ---------------------------------------------------------------------------
// Outcomes
// ---------------------------------------------------------------------------
/// What can become of a form on the settings page.
#[derive(Clone, Copy, PartialEq, Eq, Structural)]
pub enum Outcome {
    PasswordChanged,
    PasswordCurrentInvalid,
    PasswordMismatch,
    PasswordWeak,
    PasswordSame,
    PasswordMissing,
    PasswordHashError,
    EmailChanged,
    EmailCurrentInvalid,
    EmailMismatch,
    EmailSame,
    EmailInvalid,
    EmailTaken,
    EmailMissing,
    EmailUpdateError,
    FederationEnabled,
    FederationDisabled,
    FederationInvalid,
    FederationUpdateError,
    PrivacyChanged,
    PrivacyInvalid,
    PrivacyUpdateError,
    DeleteCurrentInvalid,
    DeleteMissing,
    DeleteFailed,
}

/// The name of an outcome within its part of the settings.
pub open spec fn status_of(o: Outcome) -> Seq<char> {
    match o {
        Outcome::PasswordChanged => "changed"@,
        Outcome::PasswordCurrentInvalid => "current_invalid"@,
        Outcome::PasswordMismatch => "mismatch"@,
        Outcome::PasswordWeak => "weak"@,
        Outcome::PasswordSame => "same"@,
        Outcome::PasswordMissing => "missing"@,
        Outcome::PasswordHashError => "hash_error"@,
        Outcome::EmailChanged => "changed"@,
        Outcome::EmailCurrentInvalid => "current_invalid"@,
        Outcome::EmailMismatch => "mismatch"@,
        Outcome::EmailSame => "same"@,
        Outcome::EmailInvalid => "invalid"@,
        Outcome::EmailTaken => "taken"@,
        Outcome::EmailMissing => "missing"@,
        Outcome::EmailUpdateError => "update_error"@,
        Outcome::FederationEnabled => "changed_enabled"@,
        Outcome::FederationDisabled => "changed_disabled"@,
        Outcome::FederationInvalid => "invalid"@,
        Outcome::FederationUpdateError => "update_error"@,
        Outcome::PrivacyChanged => "changed"@,
        Outcome::PrivacyInvalid => "invalid"@,
        Outcome::PrivacyUpdateError => "update_error"@,
        Outcome::DeleteCurrentInvalid => "current_invalid"@,
        Outcome::DeleteMissing => "missing"@,
        Outcome::DeleteFailed => "failed"@,
    }
}

/// The part of the settings that an outcome belongs to.
#[derive(Clone, Copy, PartialEq, Eq, Structural)]
pub enum Section {
    Password,
    Email,
    Federation,
    Privacy,
    Delete,
}

pub open spec fn section_of(o: Outcome) -> Section {
    match o {
        Outcome::PasswordChanged | Outcome::PasswordCurrentInvalid | Outcome::PasswordMismatch
        | Outcome::PasswordWeak | Outcome::PasswordSame | Outcome::PasswordMissing
        | Outcome::PasswordHashError => Section::Password,
        Outcome::EmailChanged | Outcome::EmailCurrentInvalid | Outcome::EmailMismatch
        | Outcome::EmailSame | Outcome::EmailInvalid | Outcome::EmailTaken | Outcome::EmailMissing
        | Outcome::EmailUpdateError => Section::Email,
        Outcome::FederationEnabled | Outcome::FederationDisabled | Outcome::FederationInvalid
        | Outcome::FederationUpdateError => Section::Federation,
        Outcome::PrivacyChanged | Outcome::PrivacyInvalid | Outcome::PrivacyUpdateError => {
            Section::Privacy
        },
        Outcome::DeleteCurrentInvalid | Outcome::DeleteMissing | Outcome::DeleteFailed => {
            Section::Delete
        },
    }
}

/// The start of the address of the settings page that reports an outcome.
pub open spec fn section_path(s: Section) -> Seq<char> {
    match s {
        Section::Password => "/settings?password_status="@,
        Section::Email => "/settings?email_status="@,
        Section::Federation => "/settings?federation_status="@,
        Section::Privacy => "/settings?privacy_status="@,
        Section::Delete => "/settings?delete_status="@,
    }
}

/// The address of the settings page that reports an outcome.
pub open spec fn outcome_path(o: Outcome) -> Seq<char> {
    section_path(section_of(o)) + status_of(o)
}

fn outcome_parts(o: Outcome) -> (r: (&'static str, &'static str))
    ensures
        r.0@ == section_path(section_of(o)),
        r.1@ == status_of(o),
{
    match o {
        Outcome::PasswordChanged => ("/settings?password_status=", "changed"),
        Outcome::PasswordCurrentInvalid => ("/settings?password_status=", "current_invalid"),
        Outcome::PasswordMismatch => ("/settings?password_status=", "mismatch"),
        Outcome::PasswordWeak => ("/settings?password_status=", "weak"),
        Outcome::PasswordSame => ("/settings?password_status=", "same"),
        Outcome::PasswordMissing => ("/settings?password_status=", "missing"),
        Outcome::PasswordHashError => ("/settings?password_status=", "hash_error"),
        Outcome::EmailChanged => ("/settings?email_status=", "changed"),
        Outcome::EmailCurrentInvalid => ("/settings?email_status=", "current_invalid"),
        Outcome::EmailMismatch => ("/settings?email_status=", "mismatch"),
        Outcome::EmailSame => ("/settings?email_status=", "same"),
        Outcome::EmailInvalid => ("/settings?email_status=", "invalid"),
        Outcome::EmailTaken => ("/settings?email_status=", "taken"),
        Outcome::EmailMissing => ("/settings?email_status=", "missing"),
        Outcome::EmailUpdateError => ("/settings?email_status=", "update_error"),
        Outcome::FederationEnabled => ("/settings?federation_status=", "changed_enabled"),
        Outcome::FederationDisabled => ("/settings?federation_status=", "changed_disabled"),
        Outcome::FederationInvalid => ("/settings?federation_status=", "invalid"),
        Outcome::FederationUpdateError => ("/settings?federation_status=", "update_error"),
        Outcome::PrivacyChanged => ("/settings?privacy_status=", "changed"),
        Outcome::PrivacyInvalid => ("/settings?privacy_status=", "invalid"),
        Outcome::PrivacyUpdateError => ("/settings?privacy_status=", "update_error"),
        Outcome::DeleteCurrentInvalid => ("/settings?delete_status=", "current_invalid"),
        Outcome::DeleteMissing => ("/settings?delete_status=", "missing"),
        Outcome::DeleteFailed => ("/settings?delete_status=", "failed"),
    }
}

/// Sends the browser to the settings page, which reports the outcome.
pub fn report(o: Outcome) -> (r: Reply)
    ensures
        r@ == ReplyView::Redirect(outcome_path(o)),
{
    let (section, status): (&'static str, &'static str) = outcome_parts(o);
    let mut path: String = section.to_owned();
    path.append(status);
    Reply::Redirect(path)
}

// ---------------------------------------------------------------------------
// Messages
// ---------------------------------------------------------------------------
/// What the settings page says of a status in the address, and whether it is good news.
pub open spec fn feedback(section: Section, status: Seq<char>) -> (Seq<char>, bool) {
    match section {
        Section::Password => if status == "changed"@ {
            ("Password updated successfully."@, true)
        } else if status == "current_invalid"@ {
            ("Current password is incorrect."@, false)
        } else if status == "mismatch"@ {
            ("New password and confirmation do not match."@, false)
        } else if status == "too_short"@ || status == "weak"@ {
            ("Password must be at least 8 characters."@, false)
        } else if status == "same"@ {
            ("New password must be different from your current password."@, false)
        } else if status == "missing"@ {
            ("All password fields are required."@, false)
        } else if status == "hash_error"@ {
            ("Unable to update password right now."@, false)
        } else {
            (""@, false)
        },
        Section::Email => if status == "changed"@ {
            ("Email updated successfully."@, true)
        } else if status == "current_invalid"@ {
            ("Current password is incorrect."@, false)
        } else if status == "mismatch"@ {
            ("New email and confirmation do not match."@, false)
        } else if status == "same"@ {
            ("New email must be different from your current email."@, false)
        } else if status == "invalid"@ {
            ("Please enter a valid email address."@, false)
        } else if status == "taken"@ {
            ("This email is already in use."@, false)
        } else if status == "missing"@ {
            ("All email fields are required."@, false)
        } else if status == "update_error"@ {
            ("Unable to update email right now."@, false)
        } else {
            (""@, false)
        },
        Section::Federation => if status == "changed_enabled"@ {
            ("Federation is now enabled for your account."@, true)
        } else if status == "changed_disabled"@ {
            ("Federation is now disabled for your account."@, true)
        } else if status == "invalid"@ {
            ("Invalid federation setting value."@, false)
        } else if status == "update_error"@ {
            ("Unable to update federation setting right now."@, false)
        } else {
            (""@, false)
        },
        Section::Privacy => if status == "changed"@ {
            ("Profile privacy updated successfully."@, true)
        } else if status == "invalid"@ {
            ("Invalid privacy setting value."@, false)
        } else if status == "update_error"@ {
            ("Unable to update profile privacy right now."@, false)
        } else {
            (""@, false)
        },
        Section::Delete => if status == "current_invalid"@ {
            ("Current password is incorrect."@, false)
        } else if status == "missing"@ {
            ("Current password is required to delete profile."@, false)
        } else if status == "failed"@ {
            ("Unable to delete profile right now."@, false)
        } else {
            (""@, false)
        },
    }
}

/// The status in an address, empty where it has none.
pub open spec fn status_text(status: Option<Seq<char>>) -> Seq<char> {
    match status {
        Some(s) => s,
        None => ""@,
    }
}

fn text_or_empty<'a>(status: Option<&'a str>) -> (r: &'a str)
    ensures
        r@ == status_text(opt_str(status)),
{
    match status {
        Some(s) => s,
        None => "",
    }
}

pub fn settings_password_feedback(status: Option<&str>) -> (r: (String, bool))
    ensures
        (r.0@, r.1) == feedback(Section::Password, status_text(opt_str(status))),
{
    let s: &str = text_or_empty(status);
    if str_eq(s, "changed") {
        ("Password updated successfully.".to_owned(), true)
    } else if str_eq(s, "current_invalid") {
        ("Current password is incorrect.".to_owned(), false)
    } else if str_eq(s, "mismatch") {
        ("New password and confirmation do not match.".to_owned(), false)
    } else if str_eq(s, "too_short") || str_eq(s, "weak") {
        (secure_password_requirements_text(), false)
    } else if str_eq(s, "same") {
        ("New password must be different from your current password.".to_owned(), false)
    } else if str_eq(s, "missing") {
        ("All password fields are required.".to_owned(), false)
    } else if str_eq(s, "hash_error") {
        ("Unable to update password right now.".to_owned(), false)
    } else {
        ("".to_owned(), false)
    }
}

pub fn settings_email_feedback(status: Option<&str>) -> (r: (String, bool))
    ensures
        (r.0@, r.1) == feedback(Section::Email, status_text(opt_str(status))),
{
    let s: &str = text_or_empty(status);
    if str_eq(s, "changed") {
        ("Email updated successfully.".to_owned(), true)
    } else if str_eq(s, "current_invalid") {
        ("Current password is incorrect.".to_owned(), false)
    } else if str_eq(s, "mismatch") {
        ("New email and confirmation do not match.".to_owned(), false)
    } else if str_eq(s, "same") {
        ("New email must be different from your current email.".to_owned(), false)
    } else if str_eq(s, "invalid") {
        ("Please enter a valid email address.".to_owned(), false)
    } else if str_eq(s, "taken") {
        ("This email is already in use.".to_owned(), false)
    } else if str_eq(s, "missing") {
        ("All email fields are required.".to_owned(), false)
    } else if str_eq(s, "update_error") {
        ("Unable to update email right now.".to_owned(), false)
    } else {
        ("".to_owned(), false)
    }
}

pub fn settings_federation_feedback(status: Option<&str>) -> (r: (String, bool))
    ensures
        (r.0@, r.1) == feedback(Section::Federation, status_text(opt_str(status))),
{
    let s: &str = text_or_empty(status);
    if str_eq(s, "changed_enabled") {
        ("Federation is now enabled for your account.".to_owned(), true)
    } else if str_eq(s, "changed_disabled") {
        ("Federation is now disabled for your account.".to_owned(), true)
    } else if str_eq(s, "invalid") {
        ("Invalid federation setting value.".to_owned(), false)
    } else if str_eq(s, "update_error") {
        ("Unable to update federation setting right now.".to_owned(), false)
    } else {
        ("".to_owned(), false)
    }
}

pub fn settings_privacy_feedback(status: Option<&str>) -> (r: (String, bool))
    ensures
        (r.0@, r.1) == feedback(Section::Privacy, status_text(opt_str(status))),
{
    let s: &str = text_or_empty(status);
    if str_eq(s, "changed") {
        ("Profile privacy updated successfully.".to_owned(), true)
    } else if str_eq(s, "invalid") {
        ("Invalid privacy setting value.".to_owned(), false)
    } else if str_eq(s, "update_error") {
        ("Unable to update profile privacy right now.".to_owned(), false)
    } else {
        ("".to_owned(), false)
    }
}

pub fn settings_delete_feedback(status: Option<&str>) -> (r: (String, bool))
    ensures
        (r.0@, r.1) == feedback(Section::Delete, status_text(opt_str(status))),
{
    let s: &str = text_or_empty(status);
    if str_eq(s, "current_invalid") {
        ("Current password is incorrect.".to_owned(), false)
    } else if str_eq(s, "missing") {
        ("Current password is required to delete profile.".to_owned(), false)
    } else if str_eq(s, "failed") {
        ("Unable to delete profile right now.".to_owned(), false)
    } else {
        ("".to_owned(), false)
    }
}

/// Whether an outcome is good news.
pub open spec fn is_success(o: Outcome) -> bool {
    o is PasswordChanged || o is EmailChanged || o is FederationEnabled || o is FederationDisabled
        || o is PrivacyChanged
}

/// The settings page has something to say of every outcome that is reported to it, and calls it a
/// success exactly where it is one.
pub proof fn law_every_outcome_is_explained(o: Outcome)
    ensures
        feedback(section_of(o), status_of(o)).0.len() > 0,
        feedback(section_of(o), status_of(o)).1 == is_success(o),
{
    reveal_strlit("changed");
    reveal_strlit("current_invalid");
    reveal_strlit("mismatch");
    reveal_strlit("too_short");
    reveal_strlit("weak");
    reveal_strlit("same");
    reveal_strlit("missing");
    reveal_strlit("hash_error");
    reveal_strlit("invalid");
    reveal_strlit("taken");
    reveal_strlit("update_error");
    reveal_strlit("changed_enabled");
    reveal_strlit("changed_disabled");
    reveal_strlit("failed");
    reveal_strlit("Password updated successfully.");
    reveal_strlit("Current password is incorrect.");
    reveal_strlit("New password and confirmation do not match.");
    reveal_strlit("Password must be at least 8 characters.");
    reveal_strlit("New password must be different from your current password.");
    reveal_strlit("All password fields are required.");
    reveal_strlit("Unable to update password right now.");
    reveal_strlit("Email updated successfully.");
    reveal_strlit("New email and confirmation do not match.");
    reveal_strlit("New email must be different from your current email.");
    reveal_strlit("Please enter a valid email address.");
    reveal_strlit("This email is already in use.");
    reveal_strlit("All email fields are required.");
    reveal_strlit("Unable to update email right now.");
    reveal_strlit("Federation is now enabled for your account.");
    reveal_strlit("Federation is now disabled for your account.");
    reveal_strlit("Invalid federation setting value.");
    reveal_strlit("Unable to update federation setting right now.");
    reveal_strlit("Profile privacy updated successfully.");
    reveal_strlit("Invalid privacy setting value.");
    reveal_strlit("Unable to update profile privacy right now.");
    reveal_strlit("Current password is required to delete profile.");
    reveal_strlit("Unable to delete profile right now.");
    assert("changed"@[0] == 'c' && "changed"@.len() == 7);
    assert("missing"@[0] == 'm' && "invalid"@[0] == 'i');
    assert("weak"@.len() == 4 && "same"@.len() == 4 && "taken"@.len() == 5);
    assert("current_invalid"@[1] == 'u' && "changed_enabled"@[1] == 'h');
    assert("mismatch"@.len() == 8 && "hash_error"@.len() == 10 && "update_error"@.len() == 12);
    assert("current_invalid"@.len() == 15 && "changed_disabled"@.len() == 16);
    assert("failed"@.len() == 6);
}

// ---------------------------------------------------------------------------
// Values of settings
// ---------------------------------------------------------------------------
/// What a text says of federation: that it is on, that it is off, or nothing.
pub open spec fn federation_setting(value: Seq<char>) -> Option<bool> {
    let v = lower(trim(value));
    if v == "enabled"@ || v == "true"@ || v == "1"@ || v == "yes"@ || v == "on"@ {
        Some(true)
    } else if v == "disabled"@ || v == "false"@ || v == "0"@ || v == "no"@ || v == "off"@ {
        Some(false)
    } else {
        None
    }
}

pub fn parse_federation_setting(value: &str) -> (r: Option<bool>)
    ensures
        r == federation_setting(value@),
{
    let trimmed: String = trim_text(value);
    let lowered: String = to_lower(trimmed.as_str());
    let v: &str = lowered.as_str();
    if str_eq(v, "enabled") || str_eq(v, "true") || str_eq(v, "1") || str_eq(v, "yes") || str_eq(
        v,
        "on",
    ) {
        Some(true)
    } else if str_eq(v, "disabled") || str_eq(v, "false") || str_eq(v, "0") || str_eq(v, "no")
        || str_eq(v, "off") {
        Some(false)
    } else {
        None
    }
}

/// The way of naming a user to other servers that a text asks for.
pub open spec fn display_name_mode(value: Seq<char>) -> Option<Seq<char>> {
    let v = lower(trim(value));
    if v == "full_name"@ || v == "name"@ || v == "first_last"@ || v == "first_last_name"@ {
        Some("full_name"@)
    } else if v == "preferred_username"@ || v == "preferred"@ || v == "username"@ {
        Some("preferred_username"@)
    } else {
        None
    }
}

pub fn parse_federation_display_name_mode(value: &str) -> (r: Option<&'static str>)
    ensures
        opt_str(r) == display_name_mode(value@),
{
    let trimmed: String = trim_text(value);
    let lowered: String = to_lower(trimmed.as_str());
    let v: &str = lowered.as_str();
    if str_eq(v, "full_name") || str_eq(v, "name") || str_eq(v, "first_last") || str_eq(
        v,
        "first_last_name",
    ) {
        Some("full_name")
    } else if str_eq(v, "preferred_username") || str_eq(v, "preferred") || str_eq(v, "username") {
        Some("preferred_username")
    } else {
        None
    }
}

/// What a text says of a part of a profile: that it is public, that it is private, or nothing.
pub open spec fn privacy_setting(value: Seq<char>) -> Option<bool> {
    let v = lower(trim(value));
    if v == "public"@ || v == "visible"@ || v == "show"@ || v == "shown"@ || v == "enabled"@ || v
        == "true"@ || v == "1"@ {
        Some(true)
    } else if v == "private"@ || v == "hidden"@ || v == "hide"@ || v == "disabled"@ || v
        == "false"@ || v == "0"@ {
        Some(false)
    } else {
        None
    }
}

pub fn parse_profile_field_privacy_setting(value: &str) -> (r: Option<bool>)
    ensures
        r == privacy_setting(value@),
{
    let trimmed: String = trim_text(value);
    let lowered: String = to_lower(trimmed.as_str());
    let v: &str = lowered.as_str();
    if str_eq(v, "public") || str_eq(v, "visible") || str_eq(v, "show") || str_eq(v, "shown")
        || str_eq(v, "enabled") || str_eq(v, "true") || str_eq(v, "1") {
        Some(true)
    } else if str_eq(v, "private") || str_eq(v, "hidden") || str_eq(v, "hide") || str_eq(
        v,
        "disabled",
    ) || str_eq(v, "false") || str_eq(v, "0") {
        Some(false)
    } else {
        None
    }
}

// ---------------------------------------------------------------------------
// The email address
// ---------------------------------------------------------------------------
/// The password and the email address of a user, as they are stored.
pub struct Credentials {
    pub password_hash: String,
    pub email: String,
}

/// What is wrong with the form for a new email address, if anything is.
pub open spec fn email_form_fault(form: ChangeEmailForm) -> Option<Outcome> {
    let email = trim(form.new_email@);
    if form.current_password@.len() == 0 || email.len() == 0 || trim(form.confirm_email@).len()
        == 0 {
        Some(Outcome::EmailMissing)
    } else if email != trim(form.confirm_email@) {
        Some(Outcome::EmailMismatch)
    } else if !valid_email(email) {
        Some(Outcome::EmailInvalid)
    } else {
        None
    }
}

/// Reads the form for a new email address.
pub fn read_new_email(form: &ChangeEmailForm) -> (r: Step<String>)
    ensures
        match email_form_fault(*form) {
            Some(o) => answers(r, ReplyView::Redirect(outcome_path(o))),
            None => r matches Step::Proceed(email) && email@ == trim(form.new_email@),
        },
{
    let email: String = trim_text(form.new_email.as_str());
    let confirmed: String = trim_text(form.confirm_email.as_str());
    if form.current_password.as_str().is_empty() || email.as_str().is_empty()
        || confirmed.as_str().is_empty() {
        return Step::Answer(report(Outcome::EmailMissing));
    }
    if !str_eq(email.as_str(), confirmed.as_str()) {
        return Step::Answer(report(Outcome::EmailMismatch));
    }
    if !is_valid_signup_email(email.as_str()) {
        return Step::Answer(report(Outcome::EmailInvalid));
    }
    Step::Proceed(email)
}

/// Why a user may not take a new email address, by their stored credentials.
pub open spec fn email_owner_fault(
    password: Seq<char>,
    email: Seq<char>,
    stored: Loaded<Credentials>,
) -> Option<ReplyView> {
    match stored {
        Loaded::Missing => Some(ReplyView::Redirect("/login"@)),
        Loaded::Failed => Some(ReplyView::Redirect(outcome_path(Outcome::EmailUpdateError))),
        Loaded::Found(c) => if !verifies(password, c.password_hash@) {
            Some(ReplyView::Redirect(outcome_path(Outcome::EmailCurrentInvalid)))
        } else if lower(c.email@) == lower(email) {
            Some(ReplyView::Redirect(outcome_path(Outcome::EmailSame)))
        } else {
            None
        },
    }
}

fn password_is_right(password: &str, stored_hash: &str) -> (r: bool)
    ensures
        r == verifies(password@, stored_hash@),
{
    match verify_password(password, stored_hash) {
        Ok(valid) => valid,
        Err(_) => false,
    }
}

/// Checks the stored credentials of a user who wants a new email address.
pub fn check_email_owner(
    current_password: &str,
    next_email: &str,
    stored: &Loaded<Credentials>,
) -> (r: Option<Reply>)
    ensures
        r is Some == email_owner_fault(current_password@, next_email@, *stored) is Some,
        r matches Some(reply) ==> email_owner_fault(current_password@, next_email@, *stored)
            == Some(reply@),
{
    match stored {
        Loaded::Missing => Some(redirect("/login")),
        Loaded::Failed => Some(report(Outcome::EmailUpdateError)),
        Loaded::Found(c) => {
            if !password_is_right(current_password, c.password_hash.as_str()) {
                Some(report(Outcome::EmailCurrentInvalid))
            } else if eq_ignore_case(c.email.as_str(), next_email) {
                Some(report(Outcome::EmailSame))
            } else {
                None
            }
        },
    }
}

/// The answer for an email address that another user has or could not be stored, or was.
pub fn email_change_reply(taken: bool, stored: bool) -> (r: Reply)
    ensures
        r@ == ReplyView::Redirect(
            outcome_path(
                if taken {
                    Outcome::EmailTaken
                } else if !stored {
                    Outcome::EmailUpdateError
                } else {
                    Outcome::EmailChanged
                },
            ),
        ),
{
    if taken {
        report(Outcome::EmailTaken)
    } else if !stored {
        report(Outcome::EmailUpdateError)
    } else {
        report(Outcome::EmailChanged)
    }
}

// ---------------------------------------------------------------------------
// The password
// ---------------------------------------------------------------------------
/// What is wrong with the form for a new password, if anything is.
pub open spec fn password_form_fault(form: ChangePasswordForm) -> Option<Outcome> {
    if form.current_password@.len() == 0 || form.new_password@.len() == 0
        || form.confirm_password@.len() == 0 {
        Some(Outcome::PasswordMissing)
    } else if form.new_password@ != form.confirm_password@ {
        Some(Outcome::PasswordMismatch)
    } else if byte_len(form.new_password@) < MIN_PASSWORD_BYTES {
        Some(Outcome::PasswordWeak)
    } else if form.new_password@ == form.current_password@ {
        Some(Outcome::PasswordSame)
    } else {
        None
    }
}

/// Checks the form for a new password.
pub fn check_password_form(form: &ChangePasswordForm) -> (r: Option<Reply>)
    ensures
        r is Some == password_form_fault(*form) is Some,
        r matches Some(reply) ==> reply@ == ReplyView::Redirect(
            outcome_path(password_form_fault(*form)->0),
        ),
{
    if form.current_password.as_str().is_empty() || form.new_password.as_str().is_empty()
        || form.confirm_password.as_str().is_empty() {
        return Some(report(Outcome::PasswordMissing));
    }
    if !str_eq(form.new_password.as_str(), form.confirm_password.as_str()) {
        return Some(report(Outcome::PasswordMismatch));
    }
    match validate_secure_password(form.new_password.as_str()) {
        Ok(_) => {},
        Err(_) => {
            return Some(report(Outcome::PasswordWeak));
        },
    }
    if str_eq(form.new_password.as_str(), form.current_password.as_str()) {
        return Some(report(Outcome::PasswordSame));
    }
    None
}

/// Checks the stored password of a user who wants a new one, and puts the new one into its
/// stored form.
pub fn replace_password(form: &ChangePasswordForm, stored_hash: &Loaded<String>) -> (r: Step<
    String,
>)
    ensures
        match *stored_hash {
            Loaded::Missing => answers(r, ReplyView::Redirect("/login"@)),
            Loaded::Failed => answers(
                r,
                ReplyView::Redirect(outcome_path(Outcome::PasswordHashError)),
            ),
            Loaded::Found(hash) => if verifies(form.current_password@, hash@) {
                r matches Step::Proceed(next) && next@ == stored_password(form.new_password@)
            } else {
                answers(r, ReplyView::Redirect(outcome_path(Outcome::PasswordCurrentInvalid)))
            },
        },
{
    match stored_hash {
        Loaded::Missing => Step::Answer(redirect("/login")),
        Loaded::Failed => Step::Answer(report(Outcome::PasswordHashError)),
        Loaded::Found(hash) => {
            if !password_is_right(form.current_password.as_str(), hash.as_str()) {
                return Step::Answer(report(Outcome::PasswordCurrentInvalid));
            }
            match hash_password(form.new_password.as_str()) {
                Ok(next) => Step::Proceed(next),
                Err(_) => Step::Answer(report(Outcome::PasswordHashError)),
            }
        },
    }
}

/// Where the browser is sent after a change of the password: back into the settings.
pub open spec fn password_changed_path(back: Seq<char>) -> Seq<char> {
    if starts_with_text(back, "/settings"@) {
        if has_class(back, CharClass::Only('?')) {
            back + "&password_status=changed"@
        } else {
            back + "?password_status=changed"@
        }
    } else {
        "/settings?password_status=changed"@
    }
}

/// The answer after a change of the password was stored or not.
pub fn password_change_reply(stored: bool, back: &str) -> (r: Reply)
    ensures
        r@ == ReplyView::Redirect(
            if stored {
                password_changed_path(back@)
            } else {
                outcome_path(Outcome::PasswordHashError)
            },
        ),
{
    if !stored {
        return report(Outcome::PasswordHashError);
    }
    if starts_with(back, "/settings") {
        let mut path: String = back.to_owned();
        if contains_class(back, CharClass::Only('?')) {
            path.append("&password_status=changed");
        } else {
            path.append("?password_status=changed");
        }
        Reply::Redirect(path)
    } else {
        redirect("/settings?password_status=changed")
    }
}

// ---------------------------------------------------------------------------
// Deleting the profile
// ---------------------------------------------------------------------------
/// Why a user may not delete their profile, if there is a reason.
pub open spec fn delete_fault(password: Seq<char>, stored_hash: Loaded<String>) -> Option<
    ReplyView,
> {
    match stored_hash {
        Loaded::Missing => Some(ReplyView::Redirect("/login"@)),
        Loaded::Failed => Some(ReplyView::Redirect(outcome_path(Outcome::DeleteFailed))),
        Loaded::Found(hash) => if verifies(password, hash@) {
            None
        } else {
            Some(ReplyView::Redirect(outcome_path(Outcome::DeleteCurrentInvalid)))
        },
    }
}

/// Checks that the form to delete a profile gives a password.
pub fn check_delete_form(form: &DeleteProfileForm) -> (r: Option<Reply>)
    ensures
        r is Some == (form.current_password@.len() == 0),
        r matches Some(reply) ==> reply@ == ReplyView::Redirect(
            outcome_path(Outcome::DeleteMissing),
        ),
{
    if form.current_password.as_str().is_empty() {
        Some(report(Outcome::DeleteMissing))
    } else {
        None
    }
}

/// Checks the stored password of a user who wants to delete their profile.
pub fn check_profile_deletion(form: &DeleteProfileForm, stored_hash: &Loaded<String>) -> (r: Option<
    Reply,
>)
    ensures
        r is Some == delete_fault(form.current_password@, *stored_hash) is Some,
        r matches Some(reply) ==> delete_fault(form.current_password@, *stored_hash) == Some(
            reply@,
        ),
{
    match stored_hash {
        Loaded::Missing => Some(redirect("/login")),
        Loaded::Failed => Some(report(Outcome::DeleteFailed)),
        Loaded::Found(hash) => {
            if password_is_right(form.current_password.as_str(), hash.as_str()) {
                None
            } else {
                Some(report(Outcome::DeleteCurrentInvalid))
            }
        },
    }
}

/// The answer after a profile was deleted or not.
pub fn profile_deleted_reply(deleted: bool) -> (r: Reply)
    ensures
        r@ == ReplyView::Redirect(
            if deleted {
                "/login"@
            } else {
                outcome_path(Outcome::DeleteFailed)
            },
        ),
{
    if deleted {
        redirect("/login")
    } else {
        report(Outcome::DeleteFailed)
    }
}

// ---------------------------------------------------------------------------
// Privacy and federation
// ---------------------------------------------------------------------------
/// Which parts of a profile are public.
#[derive(Clone, Copy)]
pub struct ProfilePrivacy {
    pub first_name_public: bool,
    pub last_name_public: bool,
    pub birthday_public: bool,
}

/// Reads the form for the privacy of a profile.
pub fn read_privacy(form: &UpdateProfilePrivacyForm) -> (r: Step<ProfilePrivacy>)
    ensures
        match (
            privacy_setting(form.first_name_privacy@),
            privacy_setting(form.last_name_privacy@),
            privacy_setting(form.birthday_privacy@),
        ) {
            (Some(first), Some(last), Some(birthday)) => r == Step::Proceed(
                ProfilePrivacy {
                    first_name_public: first,
                    last_name_public: last,
                    birthday_public: birthday,
                },
            ),
            _ => answers(r, ReplyView::Redirect(outcome_path(Outcome::PrivacyInvalid))),
        },
{
    match (
        parse_profile_field_privacy_setting(form.first_name_privacy.as_str()),
        parse_profile_field_privacy_setting(form.last_name_privacy.as_str()),
        parse_profile_field_privacy_setting(form.birthday_privacy.as_str()),
    ) {
        (Some(first), Some(last), Some(birthday)) => Step::Proceed(
            ProfilePrivacy {
                first_name_public: first,
                last_name_public: last,
                birthday_public: birthday,
            },
        ),
        _ => Step::Answer(report(Outcome::PrivacyInvalid)),
    }
}

/// The answer after the privacy of a profile was stored or not.
pub fn privacy_reply(stored: bool) -> (r: Reply)
    ensures
        r@ == ReplyView::Redirect(
            outcome_path(
                if stored {
                    Outcome::PrivacyChanged
                } else {
                    Outcome::PrivacyUpdateError
                },
            ),
        ),
{
    if stored {
        report(Outcome::PrivacyChanged)
    } else {
        report(Outcome::PrivacyUpdateError)
    }
}

/// How a user takes part in federation.
pub struct FederationSettings {
    pub enabled: bool,
    pub display_name_mode: String,
}

/// Reads the form for federation.
pub fn read_federation(form: &UpdateFederationForm) -> (r: Step<FederationSettings>)
    ensures
        match (federation_setting(form.federated@), display_name_mode(form.display_name_mode@)) {
            (Some(enabled), Some(mode)) => r matches Step::Proceed(s) && s.enabled == enabled
                && s.display_name_mode@ == mode,
            _ => answers(r, ReplyView::Redirect(outcome_path(Outcome::FederationInvalid))),
        },
{
    match (
        parse_federation_setting(form.federated.as_str()),
        parse_federation_display_name_mode(form.display_name_mode.as_str()),
    ) {
        (Some(enabled), Some(mode)) => Step::Proceed(
            FederationSettings { enabled, display_name_mode: mode.to_owned() },
        ),
        _ => Step::Answer(report(Outcome::FederationInvalid)),
    }
}

/// The answer after the settings of federation were stored or not.
pub fn federation_reply(stored: bool, enabled: bool) -> (r: Reply)
    ensures
        r@ == ReplyView::Redirect(
            outcome_path(
                if !stored {
                    Outcome::FederationUpdateError
                } else if enabled {
                    Outcome::FederationEnabled
                } else {
                    Outcome::FederationDisabled
                },
            ),
        ),
{
    if !stored {
        report(Outcome::FederationUpdateError)
    } else if enabled {
        report(Outcome::FederationEnabled)
    } else {
        report(Outcome::FederationDisabled)
    }
}

// ---------------------------------------------------------------------------
// Biography and photos
// ---------------------------------------------------------------------------
/// The stored form of a biography: line ends of one character, and no longer than the limit.
pub fn read_bio(form: &UpdateProfileBioForm) -> (r: String)
    ensures
        r@ == take_chars(
            replace_text(form.bio_description@, "\r\n"@, "\n"@),
            MAX_PROFILE_BIO_LENGTH as nat,
        ),
        r@.len() <= MAX_PROFILE_BIO_LENGTH,
{
    proof {
        reveal_strlit("\r\n");
    }
    let normalized: String = replace(form.bio_description.as_str(), "\r\n", "\n");
    truncate_chars(normalized.as_str(), MAX_PROFILE_BIO_LENGTH)
}

/// A photo that a user has chosen, and how it is cropped.
pub struct ChosenPhoto {
    pub file_url: String,
    pub style: String,
}

/// The photos that a user can choose.
#[derive(Clone, Copy, PartialEq, Eq, Structural)]
pub enum PhotoKind {
    Profile,
    Background,
}

/// Reads which photo a user has chosen.
pub fn read_chosen_photo(form: &SelectUploadedImageForm, kind: PhotoKind) -> (r: Step<ChosenPhoto>)
    ensures
        if trim(form.file_url@).len() == 0 {
            answers(
                r,
                ReplyView::Text(
                    BAD_REQUEST,
                    match kind {
                        PhotoKind::Profile => "No profile image selected"@,
                        PhotoKind::Background => "No background image selected"@,
                    },
                ),
            )
        } else {
            r matches Step::Proceed(p) && p.file_url@ == trim(form.file_url@) && p.style@
                == crop_style(*form)
        },
{
    let selected: String = trim_text(form.file_url.as_str());
    if selected.as_str().is_empty() {
        let text: &str = match kind {
            PhotoKind::Profile => "No profile image selected",
            PhotoKind::Background => "No background image selected",
        };
        return Step::Answer(text_reply(BAD_REQUEST, text));
    }
    Step::Proceed(ChosenPhoto { file_url: selected, style: crop_style_from_form(form) })
}

/// Checks that a chosen photo is one that the user has uploaded.
pub fn check_photo_owner(is_owned: bool) -> (r: Option<Reply>)
    ensures
        r is None == is_owned,
        r matches Some(reply) ==> reply@ == ReplyView::Text(
            FORBIDDEN,
            "Selected image is not available"@,
        ),
{
    if is_owned {
        None
    } else {
        Some(text_reply(FORBIDDEN, "Selected image is not available"))
    }
}

// ---------------------------------------------------------------------------
// The page
// ---------------------------------------------------------------------------
/// What the page says of the forms that were sent.
pub open spec fn shows_feedback(r: SettingsTemplate, query: SettingsQuery) -> bool {
    &&& (r.password_message@, r.password_success) == feedback(
        Section::Password,
        status_text(opt_view(query.password_status)),
    )
    &&& (r.email_message@, r.email_success) == feedback(
        Section::Email,
        status_text(opt_view(query.email_status)),
    )
    &&& (r.federation_message@, r.federation_success) == feedback(
        Section::Federation,
        status_text(opt_view(query.federation_status)),
    )
    &&& (r.privacy_message@, r.privacy_success) == feedback(
        Section::Privacy,
        status_text(opt_view(query.privacy_status)),
    )
    &&& (r.delete_message@, r.delete_success) == feedback(
        Section::Delete,
        status_text(opt_view(query.delete_status)),
    )
}

fn borrowed(o: &Option<String>) -> (r: Option<&str>)
    ensures
        opt_str(r) == opt_view(*o),
{
    match o {
        Some(s) => Some(s.as_str()),
        None => None,
    }
}

/// The settings page.
pub fn settings_page(
    header: PageHeader,
    user: SettingsUserRow,
    query: &SettingsQuery,
    uploaded_profile_images: Vec<String>,
    uploaded_background_images: Vec<String>,
) -> (r: SettingsTemplate)
    ensures
        r.title@ == "Settings"@,
        r.id == user.public_id,
        r.user_id == header.user_id,
        r.is_moderator == header.is_moderator,
        r.local_profile_domain == header.local_profile_domain,
        r.username == header.username,
        r.profile_photo_url == header.profile_photo_url,
        r.profile_photo_style == header.profile_photo_style,
        r.unread_notifications_count == header.unread_notifications_count,
        r.notifications == header.notifications,
        r.current_profile_photo_url == user.profile_photo_url,
        r.current_profile_photo_style == user.profile_photo_style,
        r.current_background_photo_url == user.background_photo_url,
        r.current_background_photo_style == user.background_photo_style,
        r.uploaded_profile_images == uploaded_profile_images,
        r.uploaded_background_images == uploaded_background_images,
        r.current_email == user.email,
        r.federation_enabled == user.federation_enabled,
        r.federation_display_name_mode == user.federation_display_name_mode,
        r.first_name_public == user.first_name_public,
        r.last_name_public == user.last_name_public,
        r.birthday_public == user.birthday_public,
        shows_feedback(r, *query),
{
    let (password_message, password_success): (String, bool) = settings_password_feedback(
        borrowed(&query.password_status),
    );
    let (email_message, email_success): (String, bool) = settings_email_feedback(
        borrowed(&query.email_status),
    );
    let (federation_message, federation_success): (String, bool) = settings_federation_feedback(
        borrowed(&query.federation_status),
    );
    let (privacy_message, privacy_success): (String, bool) = settings_privacy_feedback(
        borrowed(&query.privacy_status),
    );
    let (delete_message, delete_success): (String, bool) = settings_delete_feedback(
        borrowed(&query.delete_status),
    );
    SettingsTemplate {
        title: "Settings".to_owned(),
        id: user.public_id,
        user_id: header.user_id,
        is_moderator: header.is_moderator,
        local_profile_domain: header.local_profile_domain,
        profile_photo_url: header.profile_photo_url,
        profile_photo_style: header.profile_photo_style,
        current_profile_photo_url: user.profile_photo_url,
        current_profile_photo_style: user.profile_photo_style,
        current_background_photo_url: user.background_photo_url,
        current_background_photo_style: user.background_photo_style,
        uploaded_profile_images,
        uploaded_background_images,
        unread_notifications_count: header.unread_notifications_count,
        notifications: header.notifications,
        username: header.username,
        password_message,
        password_success,
        email_message,
        email_success,
        current_email: user.email,
        federation_enabled: user.federation_enabled,
        federation_display_name_mode: user.federation_display_name_mode,
        federation_message,
        federation_success,
        privacy_message,
        privacy_success,
        first_name_public: user.first_name_public,
        last_name_public: user.last_name_public,
        birthday_public: user.birthday_public,
        delete_message,
        delete_success,
    }
}

// ---------------------------------------------------------------------------
// What the forms are held to
// ---------------------------------------------------------------------------
/// A form for a new password is taken exactly where all fields are filled, the new password is
/// confirmed, has at least 8 bytes, and is not the current one; the first of these that fails is
/// reported.
pub proof fn law_password_forms(form: ChangePasswordForm)
    ensures
        ({
            let current = form.current_password@;
            let new = form.new_password@;
            let confirm = form.confirm_password@;
            let filled = current.len() > 0 && new.len() > 0 && confirm.len() > 0;
            let fault = password_form_fault(form);
            &&& fault is None <==> filled && new == confirm && byte_len(new) >= 8 && new != current
            &&& fault == Some(Outcome::PasswordMissing) <==> !filled
            &&& fault == Some(Outcome::PasswordMismatch) <==> filled && new != confirm
            &&& fault == Some(Outcome::PasswordWeak) <==> filled && new == confirm && byte_len(new)
                < 8
        }),
{
}

/// A form for a new address is taken exactly where all fields are filled, the address is confirmed
/// and valid; the first of these that fails is reported.
pub proof fn law_email_forms(form: ChangeEmailForm)
    ensures
        ({
            let email = trim(form.new_email@);
            let confirm = trim(form.confirm_email@);
            let filled = form.current_password@.len() > 0 && email.len() > 0 && confirm.len() > 0;
            let fault = email_form_fault(form);
            &&& fault is None <==> filled && email == confirm && valid_email(email)
            &&& fault == Some(Outcome::EmailMissing) <==> !filled
            &&& fault == Some(Outcome::EmailMismatch) <==> filled && email != confirm
            &&& fault == Some(Outcome::EmailInvalid) <==> filled && email == confirm
                && !valid_email(email)
        }),
{
}

/// An address is changed and a profile deleted only by who gives the current password.
pub proof fn law_current_password_is_needed(
    password: Seq<char>,
    email: Seq<char>,
    stored: Credentials,
    hash: String,
)
    ensures
        email_owner_fault(password, email, Loaded::Found(stored)) is None <==> verifies(
            password,
            stored.password_hash@,
        ) && lower(stored.email@) != lower(email),
        delete_fault(password, Loaded::Found(hash)) is None <==> verifies(password, hash@),
        email_owner_fault(password, email, Loaded::Missing) is Some,
        email_owner_fault(password, email, Loaded::Failed) is Some,
        delete_fault(password, Loaded::Missing) is Some,
        delete_fault(password, Loaded::Failed) is Some,
{
}

/// What switches federation on, and what off.
pub proof fn law_federation_words(value: Seq<char>)
    ensures
        ({
            let v = lower(trim(value));
            &&& federation_setting(value) == Some(true) <==> v == "enabled"@ || v == "true"@ || v
                == "1"@ || v == "yes"@ || v == "on"@
            &&& federation_setting(value) == Some(false) <==> v == "disabled"@ || v == "false"@ || v
                == "0"@ || v == "no"@ || v == "off"@
        }),
{
    lemma_setting_words(lower(trim(value)));
}

/// What makes a part of a profile public, and what private.
pub proof fn law_privacy_words(value: Seq<char>)
    ensures
        ({
            let v = lower(trim(value));
            &&& privacy_setting(value) == Some(true) <==> v == "public"@ || v == "visible"@ || v
                == "show"@ || v == "shown"@ || v == "enabled"@ || v == "true"@ || v == "1"@
            &&& privacy_setting(value) == Some(false) <==> v == "private"@ || v == "hidden"@ || v
                == "hide"@ || v == "disabled"@ || v == "false"@ || v == "0"@
        }),
{
    lemma_setting_words(lower(trim(value)));
}

/// Words that begin with different letters, or have different lengths, differ.
proof fn lemma_setting_words(v: Seq<char>)
    ensures
        is_yes_word(v) ==> !is_no_word(v),
{
    reveal_strlit("enabled");
    reveal_strlit("true");
    reveal_strlit("1");
    reveal_strlit("yes");
    reveal_strlit("on");
    reveal_strlit("public");
    reveal_strlit("visible");
    reveal_strlit("show");
    reveal_strlit("shown");
    reveal_strlit("disabled");
    reveal_strlit("false");
    reveal_strlit("0");
    reveal_strlit("no");
    reveal_strlit("off");
    reveal_strlit("private");
    reveal_strlit("hidden");
    reveal_strlit("hide");
    if is_yes_word(v) {
        assert(v[0] == 'e' || v[0] == 't' || v[0] == '1' || v[0] == 'y' || v[0] == 'v' || v[0]
            == 's' || (v[0] == 'o' && v.len() == 2) || (v[0] == 'p' && v.len() == 6));
        if is_no_word(v) {
            assert(v[0] == 'd' || v[0] == 'f' || v[0] == '0' || v[0] == 'n' || v[0] == 'h' || (v[0]
                == 'o' && v.len() == 3) || (v[0] == 'p' && v.len() == 7));
        }
    }
}

spec fn is_yes_word(v: Seq<char>) -> bool {
    v == "enabled"@ || v == "true"@ || v == "1"@ || v == "yes"@ || v == "on"@ || v == "public"@ || v
        == "visible"@ || v == "show"@ || v == "shown"@
}

spec fn is_no_word(v: Seq<char>) -> bool {
    v == "disabled"@ || v == "false"@ || v == "0"@ || v == "no"@ || v == "off"@ || v == "private"@
        || v == "hidden"@ || v == "hide"@
}

/// After a change of the password the browser stays in the settings where it came from there, and
/// is told of the change either way.
pub proof fn law_password_changed_path(back: Seq<char>)
    ensures
        starts_with_text(back, "/settings"@) ==> back.is_prefix_of(password_changed_path(back)),
        starts_with_text(back, "/settings"@) && back.contains('?') ==> password_changed_path(back)
            == back + "&password_status=changed"@,
        starts_with_text(back, "/settings"@) && !back.contains('?') ==> password_changed_path(back)
            == back + "?password_status=changed"@,
        !starts_with_text(back, "/settings"@) ==> password_changed_path(back)
            == "/settings?password_status=changed"@,
{
    let k = CharClass::Only('?');
    if back.contains('?') {
        let i = choose|i: int| 0 <= i < back.len() && back[i] == '?';
        assert(in_class(k, back[i]));
    }
}

/// What the settings page says of the change of a password, by the status in its address.
pub proof fn law_password_messages(status: Seq<char>)
    ensures
        status == "changed"@ ==> feedback(Section::Password, status) == (
            "Password updated successfully."@,
            true,
        ),
        status == "current_invalid"@ ==> feedback(Section::Password, status) == (
            "Current password is incorrect."@,
            false,
        ),
        status == "mismatch"@ ==> feedback(Section::Password, status) == (
            "New password and confirmation do not match."@,
            false,
        ),
        status == "too_short"@ ==> feedback(Section::Password, status) == (
            "Password must be at least 8 characters."@,
            false,
        ),
        status == "weak"@ ==> feedback(Section::Password, status) == (
            "Password must be at least 8 characters."@,
            false,
        ),
        status == "same"@ ==> feedback(Section::Password, status) == (
            "New password must be different from your current password."@,
            false,
        ),
        status == "missing"@ ==> feedback(Section::Password, status) == (
            "All password fields are required."@,
            false,
        ),
        status == "hash_error"@ ==> feedback(Section::Password, status) == (
            "Unable to update password right now."@,
            false,
        ),
        status != "changed"@ && status != "current_invalid"@ && status != "mismatch"@ &&
            status != "too_short"@ && status != "weak"@ && status != "same"@ && status !=
            "missing"@ && status != "hash_error"@ ==> feedback(Section::Password, status) ==
            (""@, false),
{
    reveal_strlit("changed");
    reveal_strlit("current_invalid");
    reveal_strlit("mismatch");
    reveal_strlit("too_short");
    reveal_strlit("weak");
    reveal_strlit("same");
    reveal_strlit("missing");
    reveal_strlit("hash_error");
    assert("changed"@.len() == 7);
    assert("current_invalid"@.len() == 15);
    assert("mismatch"@.len() == 8);
    assert("too_short"@.len() == 9);
    assert("weak"@.len() == 4);
    assert("same"@.len() == 4);
    assert("missing"@.len() == 7);
    assert("hash_error"@.len() == 10);
    assert("changed"@[0] == 'c');
    assert("missing"@[0] == 'm');
    assert("weak"@[0] == 'w');
    assert("same"@[0] == 's');
}

/// What the settings page says of the change of an email address, by the status in its address.
pub proof fn law_email_messages(status: Seq<char>)
    ensures
        status == "changed"@ ==> feedback(Section::Email, status) == (
            "Email updated successfully."@,
            true,
        ),
        status == "current_invalid"@ ==> feedback(Section::Email, status) == (
            "Current password is incorrect."@,
            false,
        ),
        status == "mismatch"@ ==> feedback(Section::Email, status) == (
            "New email and confirmation do not match."@,
            false,
        ),
        status == "same"@ ==> feedback(Section::Email, status) == (
            "New email must be different from your current email."@,
            false,
        ),
        status == "invalid"@ ==> feedback(Section::Email, status) == (
            "Please enter a valid email address."@,
            false,
        ),
        status == "taken"@ ==> feedback(Section::Email, status) == (
            "This email is already in use."@,
            false,
        ),
        status == "missing"@ ==> feedback(Section::Email, status) == (
            "All email fields are required."@,
            false,
        ),
        status == "update_error"@ ==> feedback(Section::Email, status) == (
            "Unable to update email right now."@,
            false,
        ),
        status != "changed"@ && status != "current_invalid"@ && status != "mismatch"@ &&
            status != "same"@ && status != "invalid"@ && status != "taken"@ && status !=
            "missing"@ && status != "update_error"@ ==> feedback(Section::Email, status) ==
            (""@, false),
{
    reveal_strlit("changed");
    reveal_strlit("current_invalid");
    reveal_strlit("mismatch");
    reveal_strlit("same");
    reveal_strlit("invalid");
    reveal_strlit("taken");
    reveal_strlit("missing");
    reveal_strlit("update_error");
    assert("changed"@.len() == 7);
    assert("current_invalid"@.len() == 15);
    assert("mismatch"@.len() == 8);
    assert("same"@.len() == 4);
    assert("invalid"@.len() == 7);
    assert("taken"@.len() == 5);
    assert("missing"@.len() == 7);
    assert("update_error"@.len() == 12);
    assert("changed"@[0] == 'c');
    assert("invalid"@[0] == 'i');
    assert("missing"@[0] == 'm');
}

/// What the settings page says of the federation setting, by the status in its address.
pub proof fn law_federation_messages(status: Seq<char>)
    ensures
        status == "changed_enabled"@ ==> feedback(Section::Federation, status) == (
            "Federation is now enabled for your account."@,
            true,
        ),
        status == "changed_disabled"@ ==> feedback(Section::Federation, status) == (
            "Federation is now disabled for your account."@,
            true,
        ),
        status == "invalid"@ ==> feedback(Section::Federation, status) == (
            "Invalid federation setting value."@,
            false,
        ),
        status == "update_error"@ ==> feedback(Section::Federation, status) == (
            "Unable to update federation setting right now."@,
            false,
        ),
        status != "changed_enabled"@ && status != "changed_disabled"@ && status !=
            "invalid"@ && status != "update_error"@ ==> feedback(Section::Federation, status) ==
            (""@, false),
{
    reveal_strlit("changed_enabled");
    reveal_strlit("changed_disabled");
    reveal_strlit("invalid");
    reveal_strlit("update_error");
    assert("changed_enabled"@.len() == 15);
    assert("changed_disabled"@.len() == 16);
    assert("invalid"@.len() == 7);
    assert("update_error"@.len() == 12);
}

/// What the settings page says of the privacy setting, by the status in its address.
pub proof fn law_privacy_messages(status: Seq<char>)
    ensures
        status == "changed"@ ==> feedback(Section::Privacy, status) == (
            "Profile privacy updated successfully."@,
            true,
        ),
        status == "invalid"@ ==> feedback(Section::Privacy, status) == (
            "Invalid privacy setting value."@,
            false,
        ),
        status == "update_error"@ ==> feedback(Section::Privacy, status) == (
            "Unable to update profile privacy right now."@,
            false,
        ),
        status != "changed"@ && status != "invalid"@ && status != "update_error"@ ==>
            feedback(Section::Privacy, status) == (""@, false),
{
    reveal_strlit("changed");
    reveal_strlit("invalid");
    reveal_strlit("update_error");
    assert("changed"@.len() == 7);
    assert("invalid"@.len() == 7);
    assert("update_error"@.len() == 12);
    assert("changed"@[0] == 'c');
    assert("invalid"@[0] == 'i');
}

/// What the settings page says of the deletion of a profile, by the status in its address.
pub proof fn law_delete_messages(status: Seq<char>)
    ensures
        status == "current_invalid"@ ==> feedback(Section::Delete, status) == (
            "Current password is incorrect."@,
            false,
        ),
        status == "missing"@ ==> feedback(Section::Delete, status) == (
            "Current password is required to delete profile."@,
            false,
        ),
        status == "failed"@ ==> feedback(Section::Delete, status) == (
            "Unable to delete profile right now."@,
            false,
        ),
        status != "current_invalid"@ && status != "missing"@ && status != "failed"@ ==>
            feedback(Section::Delete, status) == (""@, false),
{
    reveal_strlit("current_invalid");
    reveal_strlit("missing");
    reveal_strlit("failed");
    assert("current_invalid"@.len() == 15);
    assert("missing"@.len() == 7);
    assert("failed"@.len() == 6);
}

/// Where each outcome is reported: under the name of its part of the settings, by its own word.
pub proof fn law_outcome_paths(o: Outcome)
    ensures
        o is PasswordChanged ==> outcome_path(o) == "/settings?password_status="@ + "changed"@,
        o is PasswordCurrentInvalid ==> outcome_path(o) == "/settings?password_status="@ + "current_invalid"@,
        o is PasswordMismatch ==> outcome_path(o) == "/settings?password_status="@ + "mismatch"@,
        o is PasswordWeak ==> outcome_path(o) == "/settings?password_status="@ + "weak"@,
        o is PasswordSame ==> outcome_path(o) == "/settings?password_status="@ + "same"@,
        o is PasswordMissing ==> outcome_path(o) == "/settings?password_status="@ + "missing"@,
        o is PasswordHashError ==> outcome_path(o) == "/settings?password_status="@ + "hash_error"@,
        o is EmailChanged ==> outcome_path(o) == "/settings?email_status="@ + "changed"@,
        o is EmailCurrentInvalid ==> outcome_path(o) == "/settings?email_status="@ + "current_invalid"@,
        o is EmailMismatch ==> outcome_path(o) == "/settings?email_status="@ + "mismatch"@,
        o is EmailSame ==> outcome_path(o) == "/settings?email_status="@ + "same"@,
        o is EmailInvalid ==> outcome_path(o) == "/settings?email_status="@ + "invalid"@,
        o is EmailTaken ==> outcome_path(o) == "/settings?email_status="@ + "taken"@,
        o is EmailMissing ==> outcome_path(o) == "/settings?email_status="@ + "missing"@,
        o is EmailUpdateError ==> outcome_path(o) == "/settings?email_status="@ + "update_error"@,
        o is FederationEnabled ==> outcome_path(o) == "/settings?federation_status="@ + "changed_enabled"@,
        o is FederationDisabled ==> outcome_path(o) == "/settings?federation_status="@ + "changed_disabled"@,
        o is FederationInvalid ==> outcome_path(o) == "/settings?federation_status="@ + "invalid"@,
        o is FederationUpdateError ==> outcome_path(o) == "/settings?federation_status="@ + "update_error"@,
        o is PrivacyChanged ==> outcome_path(o) == "/settings?privacy_status="@ + "changed"@,
        o is PrivacyInvalid ==> outcome_path(o) == "/settings?privacy_status="@ + "invalid"@,
        o is PrivacyUpdateError ==> outcome_path(o) == "/settings?privacy_status="@ + "update_error"@,
        o is DeleteCurrentInvalid ==> outcome_path(o) == "/settings?delete_status="@ + "current_invalid"@,
        o is DeleteMissing ==> outcome_path(o) == "/settings?delete_status="@ + "missing"@,
        o is DeleteFailed ==> outcome_path(o) == "/settings?delete_status="@ + "failed"@,
{
}

/// Each part of the settings page shows what its own status in the address says.
pub proof fn law_settings_show_feedback(r: SettingsTemplate, query: SettingsQuery)
    requires
        shows_feedback(r, query),
    ensures
        query.password_status matches Some(t) ==> (r.password_message@, r.password_success)
            == feedback(Section::Password, t@),
        query.email_status matches Some(t) ==> (r.email_message@, r.email_success) == feedback(
            Section::Email,
            t@,
        ),
        query.federation_status matches Some(t) ==> (r.federation_message@, r.federation_success)
            == feedback(Section::Federation, t@),
        query.privacy_status matches Some(t) ==> (r.privacy_message@, r.privacy_success)
            == feedback(Section::Privacy, t@),
        query.delete_status matches Some(t) ==> (r.delete_message@, r.delete_success) == feedback(
            Section::Delete,
            t@,
        ),
{
}

/// The ways to name how other servers show a user, whatever the case: the full name or the user
/// name.
pub proof fn law_display_name_modes(value: Seq<char>)
    ensures
        ({
            let v = lower(trim(value));
            let full = v == "full_name"@ || v == "name"@ || v == "first_last"@ || v
                == "first_last_name"@;
            let preferred = v == "preferred_username"@ || v == "preferred"@ || v == "username"@;
            &&& full ==> display_name_mode(value) == Some("full_name"@)
            &&& preferred ==> display_name_mode(value) == Some("preferred_username"@)
            &&& !full && !preferred ==> display_name_mode(value) is None
        }),
{
    reveal_strlit("full_name");
    reveal_strlit("name");
    reveal_strlit("first_last");
    reveal_strlit("first_last_name");
    reveal_strlit("preferred_username");
    reveal_strlit("preferred");
    reveal_strlit("username");
    assert("full_name"@.len() == 9);
    assert("name"@.len() == 4);
    assert("first_last"@.len() == 10);
    assert("first_last_name"@.len() == 15);
    assert("preferred_username"@.len() == 18);
    assert("preferred"@.len() == 9);
    assert("username"@.len() == 8);
    assert("full_name"@[0] == 'f');
    assert("preferred"@[0] == 'p');
}

/// What each fault of a stored account leads to: nobody logged in to the login page, and the others
/// to the settings page with their outcome.
pub proof fn law_account_fault_answers(
    password: Seq<char>,
    email: Seq<char>,
    stored: Credentials,
    hash: String,
)
    ensures
        email_owner_fault(password, email, Loaded::Missing) == Some(
            ReplyView::Redirect("/login"@),
        ),
        email_owner_fault(password, email, Loaded::Failed) == Some(
            ReplyView::Redirect(outcome_path(Outcome::EmailUpdateError)),
        ),
        !verifies(password, stored.password_hash@) ==> email_owner_fault(
            password,
            email,
            Loaded::Found(stored),
        ) == Some(ReplyView::Redirect(outcome_path(Outcome::EmailCurrentInvalid))),
        verifies(password, stored.password_hash@) && lower(stored.email@) == lower(email)
            ==> email_owner_fault(password, email, Loaded::Found(stored)) == Some(
            ReplyView::Redirect(outcome_path(Outcome::EmailSame)),
        ),
        delete_fault(password, Loaded::Missing) == Some(ReplyView::Redirect("/login"@)),
        delete_fault(password, Loaded::Failed) == Some(
            ReplyView::Redirect(outcome_path(Outcome::DeleteFailed)),
        ),
        !verifies(password, hash@) ==> delete_fault(password, Loaded::Found(hash)) == Some(
            ReplyView::Redirect(outcome_path(Outcome::DeleteCurrentInvalid)),
        ),
{
}

} // verus!
