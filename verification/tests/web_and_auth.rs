use instavox::auth::{
    clear_remember_cookie_value, format_password_hash, generate_actor_keypair, hash_password,
    is_valid_signup_email, secure_password_requirements_text, validate_secure_password,
    verify_password,
};
use instavox::page::{
    custom_error_page_copy, error_page, is_custom_error_page_status, is_html_page_request,
    needs_error_page, privacy_policy_page, should_skip_custom_error_page, terms_page, PageHeader,
};
use instavox::session::{
    invite_token_candidate, is_acting_as_team_session, login_page, register_page, LoginPageQuery,
    RegisterPageQuery,
};
use instavox::web::{
    is_fetch_request, prefers_browser_html, redirect_back_path, request_host, request_scheme,
};
use std::collections::hash_map::DefaultHasher;
use std::hash::{Hash, Hasher};

fn header() -> PageHeader {
    PageHeader {
        id: 77,
        user_id: 5,
        is_moderator: false,
        local_profile_domain: "ex.org".to_string(),
        username: "anna".to_string(),
        profile_photo_url: "/a.png".to_string(),
        profile_photo_style: "s".to_string(),
        unread_notifications_count: 3,
        notifications: Vec::new(),
    }
}

#[test]
fn passwords_verify_against_their_hash() {
    let mut hasher = DefaultHasher::new();
    "correct horse".hash(&mut hasher);
    let expected = format!("dev-hash-{:x}", hasher.finish());
    assert_eq!(hash_password("correct horse"), Ok(expected.clone()));
    assert_eq!(verify_password("correct horse", &expected), Ok(true));
    assert_eq!(verify_password("wrong horse", &expected), Ok(false));
    assert_eq!(verify_password("correct horse", "dev-hash-0"), Ok(false));
    assert_eq!(format_password_hash(255), "dev-hash-ff");
}

#[test]
fn passwords_have_a_minimal_length() {
    assert_eq!(validate_secure_password("12345678"), Ok(()));
    assert_eq!(validate_secure_password("ääää"), Ok(()));
    assert_eq!(
        validate_secure_password("1234567"),
        Err("password must be at least 8 characters".to_string())
    );
    assert_eq!(
        secure_password_requirements_text(),
        "Password must be at least 8 characters."
    );
}

#[test]
fn signup_emails() {
    assert!(is_valid_signup_email(" a@b.c "));
    assert!(!is_valid_signup_email("a b@c.d"));
    assert!(!is_valid_signup_email("ab.c"));
    assert!(!is_valid_signup_email("a@bc"));
}

#[test]
fn development_keys_and_cookie() {
    match generate_actor_keypair() {
        Ok(k) => {
            assert_eq!(k.public_key, "dev-public-key");
            assert_eq!(k.private_key, "dev-private-key");
        }
        Err(e) => panic!("{}", e),
    }
    assert_eq!(
        clear_remember_cookie_value(),
        "remember=; Max-Age=0; Path=/; HttpOnly; SameSite=Lax"
    );
}

#[test]
fn the_way_back_stays_on_the_site() {
    assert_eq!(redirect_back_path(Some("https://ex.org/posts/5?x=1")), "/posts/5?x=1");
    assert_eq!(redirect_back_path(Some("https://ex.org//evil.org")), "/");
    assert_eq!(redirect_back_path(Some("https://ex.org")), "/");
    assert_eq!(redirect_back_path(Some("/posts")), "/");
    assert_eq!(redirect_back_path(None), "/");
    assert_eq!(
        instavox::profile::redirect_back_path(Some("nothing")),
        "/settings"
    );
}

#[test]
fn request_headers() {
    assert!(is_fetch_request(Some("FETCH")));
    assert!(!is_fetch_request(Some("xhr")));
    assert!(!is_fetch_request(None));
    assert_eq!(request_scheme(Some(" HTTPS , http")), "https");
    assert_eq!(request_scheme(Some(" ,http")), "http");
    assert_eq!(request_scheme(None), "http");
    assert_eq!(request_host(true, Some(" f.org "), Some("h.org")).as_deref(), Some("f.org"));
    assert_eq!(request_host(true, None, Some("h.org")), None);
    assert_eq!(request_host(false, None, Some("h.org")).as_deref(), Some("h.org"));
    assert_eq!(request_host(false, None, Some(" ")), None);
    assert!(prefers_browser_html(None));
    assert!(prefers_browser_html(Some("text/html,*/*")));
    assert!(!prefers_browser_html(Some("application/activity+json, text/html")));
    assert!(!prefers_browser_html(Some("application/json")));
}

#[test]
fn error_pages() {
    assert_eq!(
        custom_error_page_copy(404),
        (
            "Page Not Found",
            "The page you requested does not exist or may have been moved."
        )
    );
    assert_eq!(
        custom_error_page_copy(418),
        ("Unexpected Error", "An unexpected error occurred.")
    );
    assert!(is_custom_error_page_status(503));
    assert!(!is_custom_error_page_status(302));
    assert!(is_html_page_request(true, "text/html"));
    assert!(!is_html_page_request(false, "text/html"));
    assert!(should_skip_custom_error_page("/public/a.css"));
    assert!(!should_skip_custom_error_page("/posts/1"));
    assert!(needs_error_page(404, "/nowhere", true, "text/html"));
    assert!(!needs_error_page(200, "/nowhere", true, "text/html"));
    let page = error_page(404, header());
    assert_eq!(page.error_code, 404);
    assert_eq!(page.error_name, "Page Not Found");
    assert_eq!(page.username, "anna");
}

#[test]
fn pages_carry_the_header() {
    for page in [terms_page(header()), privacy_policy_page(header())] {
        assert_eq!(page.id, 77);
        assert_eq!(page.user_id, 5);
        assert_eq!(page.username, "anna");
        assert_eq!(page.unread_notifications_count, 3);
        assert!(!page.page_heading.is_empty());
    }
}

#[test]
fn login_messages() {
    let page = |s: Option<&str>| {
        let p = login_page(header(), &LoginPageQuery { email_status: s.map(str::to_string) });
        (p.email_status_message, p.email_status_success)
    };
    assert_eq!(
        page(Some("sent")),
        (
            "Registration successful. Check your email for the verification link.".to_string(),
            true
        )
    );
    assert_eq!(page(Some("verified")), ("Email verified. You can now sign in.".to_string(), true));
    assert_eq!(
        page(Some("expired")),
        ("Your verification link has expired. Please sign up again.".to_string(), false)
    );
    assert_eq!(page(Some("invalid")), ("Invalid verification link.".to_string(), false));
    assert_eq!(page(Some("x")), (String::new(), false));
    assert_eq!(page(None), (String::new(), false));
    assert_eq!(login_page(header(), &LoginPageQuery { email_status: None }).title, "Login - Instavox");
    assert_eq!(register_page(header()).title, "Register - Instavox");
}

#[test]
fn invitations() {
    let token = |i: Option<&str>, t: Option<&str>| {
        invite_token_candidate(&RegisterPageQuery {
            invite: i.map(str::to_string),
            token: t.map(str::to_string),
        })
    };
    assert_eq!(token(Some(" a "), Some("b")).as_deref(), Some("a"));
    assert_eq!(token(None, Some("b")).as_deref(), Some("b"));
    assert_eq!(token(Some(" "), Some("b")), None);
    assert_eq!(token(None, None), None);
}

#[test]
fn acting_as_the_team() {
    assert!(is_acting_as_team_session("Instavox-Team", 4));
    assert!(!is_acting_as_team_session("instavox-team", 0));
    assert!(!is_acting_as_team_session("anna", 4));
}
