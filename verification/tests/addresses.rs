use instavox::federation::actor::{
    build_actor_url_strings, local_profile_path, local_profile_url_from_actor,
    webfinger_request_url,
};
use instavox::federation::address::{
    allows_http, check_instance, detect_instance_protocol, discovered_instance, host_matches_resource,
    host_to_verify, is_restricted, parse_remote_search_handle, parse_webfinger_resource,
    read_webfinger, request_base_url, truncate_search_preview, webfinger_subject, WebfingerQuery,
};
use instavox::federation::links::{
    absolutize_media_url, accept_activity_url, collection_url_or_default, followers_url_from_actor,
    guess_media_type, non_default_local_media_url, ordered_collection, parse_addresses,
    parse_inboxes, post_create_activity_url, post_note_url, profile_update_activity_url,
    public_post_url, verify_person,
};
use instavox::profile::build_local_actor_urls;
use instavox::web::{Reply, Step, BAD_REQUEST, NOT_FOUND};
use instavox::weburl::{has_web_scheme, lower_host_of, url_host_with_port, WebUrl};

fn url(text: &str) -> WebUrl {
    match WebUrl::parse(text) {
        Ok(u) => u,
        Err(e) => panic!("{}", e),
    }
}

#[test]
fn parsing_reads_the_parts_of_an_address() {
    let u = url("HTTPS://Example.COM:8443/a%20b/../C?q=1#f");
    assert_eq!(u.href, "https://example.com:8443/C?q=1#f");
    assert_eq!(u.scheme, "https");
    assert_eq!(u.host.as_deref(), Some("example.com"));
    assert_eq!(u.domain.as_deref(), Some("example.com"));
    assert_eq!(u.port, Some(8443));
    assert_eq!(u.path, "/C");
    assert_eq!(u.query.as_deref(), Some("q=1"));
    assert!(has_web_scheme(&u));
    assert_eq!(url_host_with_port(&u, "x"), "example.com:8443");
    assert_eq!(lower_host_of(&u), "example.com");
    assert_eq!(u.copy().href, u.href);
}

#[test]
fn parsing_refuses_what_is_no_address() {
    match WebUrl::parse("no address") {
        Ok(_) => panic!("parsed"),
        Err(e) => assert_eq!(e, "relative URL without a base"),
    }
    assert_eq!(url("https://1.2.3.4/").domain, None);
    let mail = url("mailto:a@b");
    assert_eq!(url_host_with_port(&mail, "instavox.social"), "instavox.social");
    assert!(!has_web_scheme(&mail));
}

#[test]
fn local_actor_urls_encode_names() {
    let (id, inbox, outbox) = build_local_actor_urls("anna b/ü*", "https://x.y");
    assert_eq!(id, "https://x.y/ap/users/anna+b%2F%C3%BC*");
    assert_eq!(inbox, "https://x.y/ap/users/anna+b%2F%C3%BC*/inbox");
    assert_eq!(outbox, "https://x.y/ap/users/anna+b%2F%C3%BC*/outbox");
    assert_ne!(
        build_local_actor_urls("a b", "https://x.y").0,
        build_local_actor_urls("a+b", "https://x.y").0
    );
}

#[test]
fn actor_url_strings_encode_names() {
    let d = build_actor_url_strings("https://x.y", "anna b~*");
    assert_eq!(d.actor_id, "https://x.y/ap/users/anna%20b~%2A");
    assert_eq!(d.inbox, "https://x.y/ap/users/anna%20b~%2A/inbox");
    assert_eq!(d.outbox, "https://x.y/ap/users/anna%20b~%2A/outbox");
    assert_eq!(d.followers, "https://x.y/ap/users/anna%20b~%2A/followers");
    assert_eq!(d.following, "https://x.y/ap/users/anna%20b~%2A/following");
    assert_eq!(d.public_key_pem, "");
    assert!(d.private_key_pem.is_none());
}

#[test]
fn webfinger_request_encodes_both_parts() {
    assert_eq!(
        webfinger_request_url("a b", "ex.org:80"),
        "https://ex.org:80/.well-known/webfinger?resource=acct:a%20b@ex.org%3A80"
    );
}

#[test]
fn webfinger_resources() {
    let pair = |a: &str, b: &str| Some((a.to_string(), b.to_string()));
    assert_eq!(parse_webfinger_resource("acct:anna@ex.org"), pair("anna", "ex.org"));
    assert_eq!(parse_webfinger_resource(" @anna@ex.org "), pair("anna", "ex.org"));
    assert_eq!(parse_webfinger_resource("acct:@anna@ex.org@z"), pair("anna", "ex.org@z"));
    assert_eq!(parse_webfinger_resource("anna"), None);
    assert_eq!(parse_webfinger_resource("acct: @ex.org"), None);
    assert_eq!(parse_webfinger_resource("anna@"), None);
    assert_eq!(
        parse_webfinger_resource(&webfinger_subject("anna", "ex.org")),
        pair("anna", "ex.org")
    );
    assert_eq!(webfinger_subject("anna", "ex.org"), "acct:anna@ex.org");
    assert_eq!(parse_remote_search_handle("@anna@ex.org"), pair("anna", "ex.org"));
    assert_eq!(parse_remote_search_handle("@anna@Instavox.Social"), None);
}

#[test]
fn webfinger_requests_are_checked() {
    let q = |s: &str| WebfingerQuery { resource: s.to_string() };
    match read_webfinger(None, &q("acct:a@b")) {
        Step::Answer(Reply::Text(BAD_REQUEST, m)) => assert_eq!(m, "Missing host header"),
        _ => panic!(),
    }
    match read_webfinger(Some("ex.org"), &q("nobody")) {
        Step::Answer(Reply::Text(BAD_REQUEST, m)) => {
            assert_eq!(m, "Invalid webfinger resource, expected acct:user@domain")
        }
        _ => panic!(),
    }
    match read_webfinger(Some("ex.org"), &q("acct:a@other.org")) {
        Step::Answer(Reply::Text(NOT_FOUND, m)) => assert_eq!(m, "Resource is not hosted here"),
        _ => panic!(),
    }
    match read_webfinger(Some("EX.org:3000"), &q("acct:a@ex.org")) {
        Step::Proceed((name, domain)) => {
            assert_eq!(name, "a");
            assert_eq!(domain, "ex.org");
        }
        _ => panic!(),
    }
}

#[test]
fn hosts_match_without_ports() {
    assert!(host_matches_resource("Ex.org:80", "ex.ORG"));
    assert!(host_matches_resource("ex.org", "ex.org:443"));
    assert!(!host_matches_resource("ex.org", "ex.com"));
    assert_eq!(request_base_url("https", "ex.org"), "https://ex.org");
    assert!(allows_http("http", "ex.org"));
    assert!(allows_http("https", "localhost:3000"));
    assert!(allows_http("https", "[::1]:3000"));
    assert!(!allows_http("https", "ex.org"));
}

#[test]
fn protocols_are_guessed() {
    for (sample, host, expected) in [
        ("", "threads.net", "Threads"),
        ("https://x/PixelFed", "a.b", "PixelFed"),
        ("", "Mastodon.social", "Mastodon"),
        ("", "akkoma.x", "Pleroma/Akkoma"),
        ("", "calckey.x", "Misskey/Firefish"),
        ("", "lemmy.world", "Lemmy"),
        ("", "ex.org", "Other ActivityPub"),
    ] {
        assert_eq!(detect_instance_protocol(sample, host), expected);
    }
}

#[test]
fn only_foreign_hosts_are_remembered() {
    match discovered_instance(" Mastodon.Social ", "x") {
        Some(i) => {
            assert_eq!(i.host, "mastodon.social");
            assert_eq!(i.protocol, "Mastodon");
        }
        None => panic!(),
    }
    assert!(discovered_instance(" ", "x").is_none());
    assert!(discovered_instance("Instavox.social", "x").is_none());
    assert_eq!(host_to_verify(Some(" Ex.Org ")).as_deref(), Some("ex.org"));
    assert_eq!(host_to_verify(Some("instavox.social")), None);
    assert_eq!(host_to_verify(None), None);
}

#[test]
fn restricted_servers_are_refused() {
    assert!(is_restricted("limited") && is_restricted("ban") && !is_restricted("discovered"));
    assert!(check_instance("ex.org", "discovered").is_ok());
    assert_eq!(
        check_instance("ex.org", "ban"),
        Err("instance ex.org is restricted".to_string())
    );
}

#[test]
fn previews_lose_their_markup() {
    assert_eq!(truncate_search_preview("<p>Hello <b>you</b></p>", 220), "Hello you");
    assert_eq!(truncate_search_preview("<p>abcdef</p>", 3), "abc...");
}

#[test]
fn addresses_below_a_user() {
    let actor = url("https://ex.org/ap/users/anna");
    assert_eq!(
        followers_url_from_actor(&actor).map(|u| u.href),
        Ok("https://ex.org/ap/users/followers".to_string())
    );
    assert_eq!(
        collection_url_or_default(&actor, "outbox").href,
        "https://ex.org/ap/users/outbox"
    );
    let mail = url("mailto:a@b");
    assert_eq!(collection_url_or_default(&mail, "outbox").href, "mailto:a@b");
    assert_eq!(
        followers_url_from_actor(&mail).map(|u| u.href),
        Err("invalid actor followers url: relative URL with a cannot-be-a-base base".to_string())
    );
    assert_eq!(
        profile_update_activity_url(&url("https://ex.org/u/"), 12).map(|u| u.href),
        Ok("https://ex.org/u/activities/update/12".to_string())
    );
    assert_eq!(
        accept_activity_url(&actor, 7).map(|u| u.href),
        Ok("https://ex.org/ap/users/anna/accept/7".to_string())
    );
}

#[test]
fn addresses_of_posts() {
    assert_eq!(
        post_note_url("https://ex.org", 5).map(|u| u.href),
        Ok("https://ex.org/ap/posts/5".to_string())
    );
    assert_eq!(
        public_post_url("https://ex.org", 5).map(|u| u.href),
        Ok("https://ex.org/posts/5".to_string())
    );
    assert_eq!(
        post_create_activity_url("https://ex.org", 5).map(|u| u.href),
        Ok("https://ex.org/ap/posts/5/activities/create".to_string())
    );
    assert_eq!(
        post_note_url("", 5).map(|u| u.href),
        Err("invalid post activitypub url: relative URL without a base".to_string())
    );
}

#[test]
fn media_addresses() {
    let href = |u: Option<WebUrl>| u.map(|u| u.href);
    assert_eq!(
        href(absolutize_media_url("https://ex.org", Some(" /a b.png "))),
        Some("https://ex.org/a%20b.png".to_string())
    );
    assert_eq!(
        href(absolutize_media_url("https://ex.org", Some("https://o.org/x"))),
        Some("https://o.org/x".to_string())
    );
    assert_eq!(href(absolutize_media_url("nowhere", Some("/a"))), None);
    assert_eq!(href(absolutize_media_url("https://ex.org", Some(" "))), None);
    assert_eq!(href(absolutize_media_url("https://ex.org", None)), None);
    assert_eq!(
        href(non_default_local_media_url("https://ex.org", Some("/d"), "/d")),
        None
    );
    assert_eq!(
        href(non_default_local_media_url("https://ex.org", Some("/e"), "/d")),
        Some("https://ex.org/e".to_string())
    );
    assert_eq!(guess_media_type(&url("https://e.o/a.PNG?x=.gif")), "image/png");
    assert_eq!(guess_media_type(&url("https://e.o/a.gif")), "image/gif");
    assert_eq!(guess_media_type(&url("https://e.o/a.webp")), "image/webp");
    assert_eq!(guess_media_type(&url("https://e.o/a.avif")), "image/avif");
    assert_eq!(guess_media_type(&url("https://e.o/a")), "image/jpeg");
}

#[test]
fn lists_of_addresses_leave_out_what_does_not_parse() {
    let texts = vec!["https://a.b/1".to_string(), "x".to_string(), " https://a.b/2".to_string()];
    let hrefs: Vec<String> = parse_addresses(&texts).into_iter().map(|u| u.href).collect();
    assert_eq!(hrefs, vec!["https://a.b/1", "https://a.b/2"]);
    let hrefs: Vec<String> = parse_inboxes(&texts).into_iter().map(|u| u.href).collect();
    assert_eq!(hrefs, vec!["https://a.b/1", "https://a.b/2"]);
    let c = ordered_collection(url("https://a.b/c"), parse_addresses(&texts));
    assert_eq!(c.kind, "OrderedCollection");
    assert_eq!(c.total_items, 2);
    assert_eq!(c.ordered_items.len(), 2);
}

#[test]
fn documents_have_to_come_from_their_domain() {
    let id = url("https://ex.org/u");
    assert!(verify_person(&id, &url("https://ex.org/u/inbox"), &url("https://ex.org/")));
    assert!(!verify_person(&id, &url("https://ex.com/u/inbox"), &url("https://ex.org/")));
    assert!(!verify_person(&id, &url("https://ex.org/u/inbox"), &url("https://ex.com/")));
}

#[test]
fn profile_pages_of_local_users() {
    assert_eq!(local_profile_path(" anna "), "/user/anna@instavox.social");
    let actor = url("https://ex.org:81/ap/users/anna");
    assert_eq!(
        local_profile_url_from_actor(&actor, "anna").href,
        "https://ex.org:81/user/anna@instavox.social"
    );
}
