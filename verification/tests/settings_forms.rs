use instavox::auth::hash_password;
use instavox::page::PageHeader;
use instavox::profile::Loaded;
use instavox::settings::{
    check_delete_form, check_email_owner, check_password_form, check_photo_owner,
    check_profile_deletion, email_change_reply, federation_reply, parse_federation_display_name_mode,
    parse_federation_setting, parse_profile_field_privacy_setting, password_change_reply,
    privacy_reply, profile_deleted_reply, read_bio, read_chosen_photo, read_federation,
    read_new_email, read_privacy, replace_password, report, settings_delete_feedback,
    settings_email_feedback, settings_federation_feedback, settings_page,
    settings_password_feedback, settings_privacy_feedback, ChangeEmailForm, ChangePasswordForm,
    Credentials, DeleteProfileForm, Outcome, PhotoKind, SettingsQuery, SettingsUserRow,
    UpdateFederationForm, UpdateProfileBioForm, UpdateProfilePrivacyForm,
};
use instavox::uploads::SelectUploadedImageForm;
use instavox::web::{Reply, Step, BAD_REQUEST, FORBIDDEN};

fn path(r: &Reply) -> String {
    match r {
        Reply::Redirect(p) => p.clone(),
        _ => panic!("no redirect"),
    }
}

fn answer<T>(s: Step<T>) -> String {
    match s {
        Step::Answer(r) => path(&r),
        Step::Proceed(_) => panic!("went on"),
    }
}

fn email(password: &str, new: &str, confirm: &str) -> ChangeEmailForm {
    ChangeEmailForm {
        current_password: password.to_string(),
        new_email: new.to_string(),
        confirm_email: confirm.to_string(),
    }
}

fn password(current: &str, new: &str, confirm: &str) -> ChangePasswordForm {
    ChangePasswordForm {
        current_password: current.to_string(),
        new_password: new.to_string(),
        confirm_password: confirm.to_string(),
    }
}

#[test]
fn every_settings_outcome_is_explained() {
    let sections: [(&[Outcome], &str, fn(Option<&str>) -> (String, bool)); 5] = [
        (
            &[
                Outcome::PasswordChanged,
                Outcome::PasswordCurrentInvalid,
                Outcome::PasswordMismatch,
                Outcome::PasswordWeak,
                Outcome::PasswordSame,
                Outcome::PasswordMissing,
                Outcome::PasswordHashError,
            ],
            "password",
            settings_password_feedback,
        ),
        (
            &[
                Outcome::EmailChanged,
                Outcome::EmailCurrentInvalid,
                Outcome::EmailMismatch,
                Outcome::EmailSame,
                Outcome::EmailInvalid,
                Outcome::EmailTaken,
                Outcome::EmailMissing,
                Outcome::EmailUpdateError,
            ],
            "email",
            settings_email_feedback,
        ),
        (
            &[
                Outcome::FederationEnabled,
                Outcome::FederationDisabled,
                Outcome::FederationInvalid,
                Outcome::FederationUpdateError,
            ],
            "federation",
            settings_federation_feedback,
        ),
        (
            &[Outcome::PrivacyChanged, Outcome::PrivacyInvalid, Outcome::PrivacyUpdateError],
            "privacy",
            settings_privacy_feedback,
        ),
        (
            &[Outcome::DeleteCurrentInvalid, Outcome::DeleteMissing, Outcome::DeleteFailed],
            "delete",
            settings_delete_feedback,
        ),
    ];
    for (outcomes, name, feedback) in sections {
        for o in outcomes {
            let p = path(&report(*o));
            let status = p.strip_prefix(&format!("/settings?{}_status=", name)).unwrap();
            let (message, success) = feedback(Some(status));
            assert!(!message.is_empty(), "{}", p);
            assert_eq!(success, status.starts_with("changed"), "{}", p);
        }
        assert_eq!(feedback(None), (String::new(), false));
        assert_eq!(feedback(Some("?")), (String::new(), false));
    }
    assert_eq!(
        settings_password_feedback(Some("too_short")),
        ("Password must be at least 8 characters.".to_string(), false)
    );
}

#[test]
fn new_email_addresses() {
    assert_eq!(answer(read_new_email(&email("", "a@b.c", "a@b.c"))), "/settings?email_status=missing");
    assert_eq!(answer(read_new_email(&email("p", "a@b.c", "a@b.d"))), "/settings?email_status=mismatch");
    assert_eq!(answer(read_new_email(&email("p", "ab.c", "ab.c"))), "/settings?email_status=invalid");
    match read_new_email(&email("p", " a@b.c ", "a@b.c")) {
        Step::Proceed(e) => assert_eq!(e, "a@b.c"),
        _ => panic!(),
    }
    let stored = |mail: &str| {
        Loaded::Found(Credentials {
            password_hash: hash_password("secret").unwrap(),
            email: mail.to_string(),
        })
    };
    let check = |pw: &str, s: &Loaded<Credentials>| {
        check_email_owner(pw, "new@b.c", s).as_ref().map(path)
    };
    assert_eq!(check("secret", &stored("old@b.c")), None);
    assert_eq!(
        check("wrong", &stored("old@b.c")).as_deref(),
        Some("/settings?email_status=current_invalid")
    );
    assert_eq!(
        check("secret", &stored("NEW@b.c")).as_deref(),
        Some("/settings?email_status=same")
    );
    assert_eq!(check("secret", &Loaded::Missing).as_deref(), Some("/login"));
    assert_eq!(
        check("secret", &Loaded::Failed).as_deref(),
        Some("/settings?email_status=update_error")
    );
    assert_eq!(path(&email_change_reply(true, false)), "/settings?email_status=taken");
    assert_eq!(path(&email_change_reply(false, false)), "/settings?email_status=update_error");
    assert_eq!(path(&email_change_reply(false, true)), "/settings?email_status=changed");
}

#[test]
fn new_passwords() {
    let fault = |f: ChangePasswordForm| check_password_form(&f).as_ref().map(path);
    assert_eq!(
        fault(password("", "x", "x")).as_deref(),
        Some("/settings?password_status=missing")
    );
    assert_eq!(
        fault(password("a", "12345678", "12345679")).as_deref(),
        Some("/settings?password_status=mismatch")
    );
    assert_eq!(
        fault(password("a", "1234567", "1234567")).as_deref(),
        Some("/settings?password_status=weak")
    );
    assert_eq!(
        fault(password("12345678", "12345678", "12345678")).as_deref(),
        Some("/settings?password_status=same")
    );
    let form = password("oldsecret", "newsecret", "newsecret");
    assert!(check_password_form(&form).is_none());
    let stored = Loaded::Found(hash_password("oldsecret").unwrap());
    match replace_password(&form, &stored) {
        Step::Proceed(h) => {
            assert_eq!(h, hash_password("newsecret").unwrap());
            let again = password("newsecret", "another1", "another1");
            assert!(matches!(replace_password(&again, &Loaded::Found(h)), Step::Proceed(_)));
        }
        _ => panic!(),
    }
    assert_eq!(
        answer(replace_password(&form, &Loaded::Found("dev-hash-0".to_string()))),
        "/settings?password_status=current_invalid"
    );
    assert_eq!(answer(replace_password(&form, &Loaded::Missing)), "/login");
    assert_eq!(
        answer(replace_password(&form, &Loaded::Failed)),
        "/settings?password_status=hash_error"
    );
    assert_eq!(
        path(&password_change_reply(true, "/settings")),
        "/settings?password_status=changed"
    );
    assert_eq!(
        path(&password_change_reply(true, "/settings?a=1")),
        "/settings?a=1&password_status=changed"
    );
    assert_eq!(
        path(&password_change_reply(true, "/posts/1")),
        "/settings?password_status=changed"
    );
    assert_eq!(
        path(&password_change_reply(false, "/settings")),
        "/settings?password_status=hash_error"
    );
}

#[test]
fn deleting_a_profile() {
    let form = |p: &str| DeleteProfileForm { current_password: p.to_string() };
    assert_eq!(
        check_delete_form(&form("")).as_ref().map(path).as_deref(),
        Some("/settings?delete_status=missing")
    );
    assert!(check_delete_form(&form("x")).is_none());
    let stored = Loaded::Found(hash_password("secret").unwrap());
    assert!(check_profile_deletion(&form("secret"), &stored).is_none());
    assert_eq!(
        check_profile_deletion(&form("x"), &stored).as_ref().map(path).as_deref(),
        Some("/settings?delete_status=current_invalid")
    );
    assert_eq!(
        check_profile_deletion(&form("x"), &Loaded::Failed).as_ref().map(path).as_deref(),
        Some("/settings?delete_status=failed")
    );
    assert_eq!(
        check_profile_deletion(&form("x"), &Loaded::Missing).as_ref().map(path).as_deref(),
        Some("/login")
    );
    assert_eq!(path(&profile_deleted_reply(true)), "/login");
    assert_eq!(path(&profile_deleted_reply(false)), "/settings?delete_status=failed");
}

#[test]
fn values_of_settings() {
    for s in ["enabled", " TRUE ", "1", "yes", "on"] {
        assert_eq!(parse_federation_setting(s), Some(true));
    }
    for s in ["disabled", "false", "0", "No", "off"] {
        assert_eq!(parse_federation_setting(s), Some(false));
    }
    assert_eq!(parse_federation_setting("maybe"), None);
    assert_eq!(parse_federation_display_name_mode(" Name "), Some("full_name"));
    assert_eq!(parse_federation_display_name_mode("first_last"), Some("full_name"));
    assert_eq!(parse_federation_display_name_mode("username"), Some("preferred_username"));
    assert_eq!(parse_federation_display_name_mode(""), None);
    for s in ["public", "visible", "show", "shown", "enabled", "true", "1"] {
        assert_eq!(parse_profile_field_privacy_setting(s), Some(true));
    }
    for s in ["private", "hidden", "hide", "disabled", "false", "0"] {
        assert_eq!(parse_profile_field_privacy_setting(s), Some(false));
    }
    assert_eq!(parse_profile_field_privacy_setting("yes"), None);
}

#[test]
fn privacy_and_federation_forms() {
    let form = |a: &str, b: &str, c: &str| UpdateProfilePrivacyForm {
        first_name_privacy: a.to_string(),
        last_name_privacy: b.to_string(),
        birthday_privacy: c.to_string(),
    };
    match read_privacy(&form("public", "private", "show")) {
        Step::Proceed(p) => {
            assert!(p.first_name_public && !p.last_name_public && p.birthday_public)
        }
        _ => panic!(),
    }
    assert_eq!(answer(read_privacy(&form("public", "x", "show"))), "/settings?privacy_status=invalid");
    assert_eq!(path(&privacy_reply(true)), "/settings?privacy_status=changed");
    assert_eq!(path(&privacy_reply(false)), "/settings?privacy_status=update_error");
    let fed = |a: &str, b: &str| UpdateFederationForm {
        federated: a.to_string(),
        display_name_mode: b.to_string(),
    };
    match read_federation(&fed("on", "name")) {
        Step::Proceed(f) => {
            assert!(f.enabled);
            assert_eq!(f.display_name_mode, "full_name");
        }
        _ => panic!(),
    }
    assert_eq!(answer(read_federation(&fed("x", "name"))), "/settings?federation_status=invalid");
    assert_eq!(answer(read_federation(&fed("on", "x"))), "/settings?federation_status=invalid");
    assert_eq!(path(&federation_reply(true, true)), "/settings?federation_status=changed_enabled");
    assert_eq!(path(&federation_reply(true, false)), "/settings?federation_status=changed_disabled");
    assert_eq!(path(&federation_reply(false, true)), "/settings?federation_status=update_error");
}

#[test]
fn biographies_and_photos() {
    let bio = |s: &str| read_bio(&UpdateProfileBioForm { bio_description: s.to_string() });
    assert_eq!(bio("a\r\nb"), "a\nb");
    assert_eq!(bio(&"ü".repeat(2500)).chars().count(), 2000);
    let form = |url: &str| SelectUploadedImageForm {
        file_url: url.to_string(),
        crop_apply: None,
        crop_x: None,
        crop_y: None,
        crop_zoom: None,
    };
    match read_chosen_photo(&form(" "), PhotoKind::Profile) {
        Step::Answer(Reply::Text(BAD_REQUEST, m)) => assert_eq!(m, "No profile image selected"),
        _ => panic!(),
    }
    match read_chosen_photo(&form(" "), PhotoKind::Background) {
        Step::Answer(Reply::Text(BAD_REQUEST, m)) => assert_eq!(m, "No background image selected"),
        _ => panic!(),
    }
    match read_chosen_photo(&form(" /a "), PhotoKind::Profile) {
        Step::Proceed(p) => {
            assert_eq!(p.file_url, "/a");
            assert_eq!(p.style, "");
        }
        _ => panic!(),
    }
    assert!(check_photo_owner(true).is_none());
    match check_photo_owner(false) {
        Some(Reply::Text(FORBIDDEN, m)) => assert_eq!(m, "Selected image is not available"),
        _ => panic!(),
    }
}

#[test]
fn the_settings_page() {
    let header = PageHeader {
        id: 1,
        user_id: 2,
        is_moderator: false,
        local_profile_domain: "ex.org".to_string(),
        username: "anna".to_string(),
        profile_photo_url: "/h".to_string(),
        profile_photo_style: String::new(),
        unread_notifications_count: 0,
        notifications: Vec::new(),
    };
    let row = SettingsUserRow {
        public_id: 99,
        profile_photo_url: "/p".to_string(),
        profile_photo_style: "ps".to_string(),
        background_photo_url: "/b".to_string(),
        background_photo_style: "bs".to_string(),
        email: "a@b.c".to_string(),
        federation_enabled: true,
        federation_display_name_mode: "full_name".to_string(),
        first_name_public: true,
        last_name_public: false,
        birthday_public: true,
    };
    let query = SettingsQuery {
        password_status: Some("same".to_string()),
        email_status: None,
        federation_status: Some("changed_enabled".to_string()),
        privacy_status: None,
        delete_status: Some("failed".to_string()),
    };
    let page = settings_page(header, row, &query, vec!["/1".to_string()], Vec::new());
    assert_eq!(page.id, 99);
    assert_eq!(page.profile_photo_url, "/h");
    assert_eq!(page.current_profile_photo_url, "/p");
    assert_eq!(
        page.password_message,
        "New password must be different from your current password."
    );
    assert_eq!(page.email_message, "");
    assert!(page.federation_success && !page.password_success);
    assert_eq!(page.delete_message, "Unable to delete profile right now.");
    assert!(page.first_name_public && !page.last_name_public);
}
