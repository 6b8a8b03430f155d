use instavox::auth::ActorKeypair;
use instavox::federation::activity::{
    create_post_activity, is_public_create_post, is_public_post_update, profile_update_activity,
    CreatePostActivity, UpdatePersonActivity, UpdatePostActivity,
};
use instavox::federation::actor::{
    actor_display_name, cached_search_result, check_remote_user, complete_actor_data,
    ensure_user_activitypub_data, icon_or_default_photo, local_actor_from_row,
    map_remote_search_user, map_remote_search_view, own_collection, read_remote_actor,
    remote_actor_from_row, remote_identity, remote_row_from_person, searched_result, stored_keys,
    trimmed_row_texts, usable_remote_row, FederatedPersonActor, LocalActorRow, RemoteActorRow,
    StoredActor,
};
use instavox::federation::inbox::{
    follow_target, foreign_host_of, inbox_reply, incoming_person_host, incoming_post_host,
    may_store_person, may_store_post, remote_post_pattern, remote_post_row, remote_user_search,
    search_remote_post, verify_person_update, verify_post_update, InboxOutcome, KnownAuthor,
    RemotePostSearchRow,
};
use instavox::federation::json::{
    extract_remote_icon_url, json_string, nested_json_string, webfinger_actor_url, JsonValue,
};
use instavox::federation::note::{
    activity_or_object_is_public, check_served_post, is_public_recipient, local_post_to_note,
    may_send_post, may_serve_post, note_recipients, render_note_content, ActivityPubNote,
    LocalPostImageRow, LocalPostRow, PUBLIC_RECIPIENT,
};
use instavox::profile::Loaded;
use instavox::web::{Reply, Step, BAD_REQUEST, INTERNAL_SERVER_ERROR, NOT_FOUND};
use instavox::weburl::WebUrl;

fn url(text: &str) -> WebUrl {
    WebUrl::parse(text).ok().unwrap()
}

fn word(t: &str) -> JsonValue {
    JsonValue::Text(t.to_string())
}

fn object(members: Vec<(&str, JsonValue)>) -> JsonValue {
    JsonValue::Object(members.into_iter().map(|(k, v)| (k.to_string(), v)).collect())
}

fn nothing_stored() -> StoredActor {
    StoredActor {
        ap_id: None,
        ap_inbox: None,
        ap_outbox: None,
        ap_public_key: None,
        ap_private_key: None,
    }
}

fn stored() -> StoredActor {
    StoredActor {
        ap_id: Some("https://ex.org/u/anna".to_string()),
        ap_inbox: Some("https://ex.org/u/anna/in".to_string()),
        ap_outbox: Some("https://ex.org/u/anna/out".to_string()),
        ap_public_key: Some("PUB".to_string()),
        ap_private_key: Some("PRIV".to_string()),
    }
}

fn local_row(stored: StoredActor) -> LocalActorRow {
    LocalActorRow {
        user_id: 4,
        preferred_username: "anna".to_string(),
        federation_display_name_mode: "full_name".to_string(),
        first_name: " Anna ".to_string(),
        first_name_public: true,
        last_name: "Secret".to_string(),
        last_name_public: false,
        bio_description: Some(" hi ".to_string()),
        profile_photo_url: Some("/public/avatar.webp".to_string()),
        background_photo_url: Some("/b.png".to_string()),
        created_at: Some(5),
        stored,
    }
}

fn anna() -> FederatedPersonActor {
    let data = ensure_user_activitypub_data("anna", "https://ex.org", &stored()).unwrap_or_else(|e| panic!("{}", e));
    local_actor_from_row(local_row(stored()), data, "https://ex.org", 77).ok().unwrap()
}

fn remote_row() -> RemoteActorRow {
    RemoteActorRow {
        actor_id: "https://far.org/u/carl".to_string(),
        host: "far.org".to_string(),
        preferred_username: "carl".to_string(),
        display_name: " Carl ".to_string(),
        summary: String::new(),
        inbox_url: "https://far.org/u/carl/inbox".to_string(),
        shared_inbox_url: String::new(),
        outbox_url: " ".to_string(),
        followers_url: "https://far.org/u/carl/fs".to_string(),
        following_url: String::new(),
        public_key_pem: "K".to_string(),
        icon_url: String::new(),
        status: "discovered".to_string(),
        discovered_at: Some(1),
        last_refreshed_at: None,
    }
}

fn post(visibility: &str, community_id: Option<i64>) -> LocalPostRow {
    LocalPostRow {
        post_id: 8,
        user_id: 4,
        body: " a <b>\nc ".to_string(),
        link_url: "https://x.org/?a=1&b=2".to_string(),
        visibility: visibility.to_string(),
        community_id,
        created_at: Some(9),
    }
}

fn note(author: &str) -> ActivityPubNote {
    ActivityPubNote {
        id: url("https://far.org/n/1"),
        attributed_to: url(author),
        to: vec![url(PUBLIC_RECIPIENT)],
        cc: Vec::new(),
        content: " text ".to_string(),
        url: url("https://far.org/p/1"),
        published: Some(3),
        attachment: Vec::new(),
    }
}

#[test]
fn members_of_json_objects() {
    let v = object(vec![
        ("a", word(" x ")),
        ("b", word("  ")),
        ("n", JsonValue::Number("1".to_string())),
        ("o", object(vec![("p", word("y"))])),
    ]);
    assert_eq!(json_string(&v, "a").as_deref(), Some("x"));
    assert_eq!(json_string(&v, "b"), None);
    assert_eq!(json_string(&v, "n"), None);
    assert_eq!(json_string(&v, "z"), None);
    assert_eq!(nested_json_string(&v, &["o", "p"]).as_deref(), Some("y"));
    assert_eq!(nested_json_string(&v, &["o", "q"]), None);
    assert_eq!(nested_json_string(&v, &["a", "p"]), None);
    assert_eq!(nested_json_string(&word(" t "), &[]).as_deref(), Some("t"));
    assert!(v.get("o").is_some() && JsonValue::Null.get("o").is_none());
    assert_eq!(word("t").text(), Some("t"));
    assert_eq!(JsonValue::Bool(true).text(), None);
}

#[test]
fn icons_of_remote_users() {
    let with = |icon: JsonValue| extract_remote_icon_url(&object(vec![("icon", icon)]));
    assert_eq!(with(word(" /a ")), "/a");
    assert_eq!(with(object(vec![("url", word("/b"))])), "/b");
    let list = JsonValue::List(vec![
        JsonValue::Null,
        object(vec![("href", word(" /c "))]),
        word("/d"),
    ]);
    assert_eq!(with(object(vec![("url", list)])), "/c");
    assert_eq!(with(JsonValue::Null), "");
    assert_eq!(extract_remote_icon_url(&JsonValue::Null), "");
    assert_eq!(icon_or_default_photo(" ".to_string()), "/public/avatar.webp");
    assert_eq!(icon_or_default_photo("/i".to_string()), "/i");
}

#[test]
fn answers_of_webfinger() {
    let link = |rel: &str, href: &str, kind: Option<&str>| {
        let mut m = vec![("rel", word(rel)), ("href", word(href))];
        if let Some(k) = kind {
            m.push(("type", word(k)));
        }
        object(m)
    };
    let answer = object(vec![(
        "links",
        JsonValue::List(vec![
            link("profile", "https://far.org/@c", None),
            link("self", "https://far.org/html", Some("text/html")),
            link("SELF", " https://far.org/u/c ", Some("application/activity+json")),
        ]),
    )]);
    assert_eq!(webfinger_actor_url(&answer).as_deref(), Some("https://far.org/u/c"));
    let bare = object(vec![("links", JsonValue::List(vec![link("self", "/u", None)]))]);
    assert_eq!(webfinger_actor_url(&bare).as_deref(), Some("/u"));
    let empty = object(vec![("links", JsonValue::List(vec![link("self", " ", None)]))]);
    assert_eq!(webfinger_actor_url(&empty), None);
    assert_eq!(webfinger_actor_url(&JsonValue::Null), None);
}

#[test]
fn names_of_actors() {
    let f = actor_display_name;
    assert_eq!(f("anna", " Preferred_Username ", "A", true, "B", true), "anna");
    assert_eq!(f("anna", "full_name", " A ", true, " B ", true), "A B");
    assert_eq!(f("anna", "full_name", "A", true, "B", false), "A");
    assert_eq!(f("anna", "full_name", "A", false, "B", true), "B");
    assert_eq!(f("anna", "full_name", "A", false, "B", false), "anna");
}

#[test]
fn stored_data_of_actors_is_kept() {
    let d = ensure_user_activitypub_data("anna", "https://ex.org", &stored()).ok().unwrap();
    assert_eq!(d.actor_id, "https://ex.org/u/anna");
    assert_eq!(d.inbox, "https://ex.org/u/anna/in");
    assert_eq!(d.followers, "https://ex.org/ap/users/anna/followers");
    assert_eq!(d.public_key_pem, "PUB");
    assert_eq!(d.private_key_pem.as_deref(), Some("PRIV"));
    let keys = stored_keys(&stored()).unwrap();
    assert_eq!((keys.public_key.as_str(), keys.private_key.as_str()), ("PUB", "PRIV"));
    assert!(stored_keys(&nothing_stored()).is_none());
    let keys = ActorKeypair { public_key: "p".to_string(), private_key: "q".to_string() };
    let d = complete_actor_data("a b", "https://ex.org", &nothing_stored(), keys);
    assert_eq!(d.actor_id, "https://ex.org/ap/users/a%20b");
    assert_eq!(d.outbox, "https://ex.org/ap/users/a%20b/outbox");
    assert_eq!((d.public_key_pem.as_str(), d.private_key_pem.as_deref()), ("p", Some("q")));
}

#[test]
fn new_actors_get_keys() {
    let mut half = stored();
    half.ap_private_key = None;
    let mut blank = stored();
    blank.ap_public_key = Some("  ".to_string());
    for old in [nothing_stored(), half, blank] {
        assert!(stored_keys(&old).is_none());
        let keys = ActorKeypair { public_key: "p".to_string(), private_key: "q".to_string() };
        let d = complete_actor_data("anna", "https://ex.org", &old, keys);
        assert_eq!(d.public_key_pem, "p");
        assert_eq!(d.private_key_pem.as_deref(), Some("q"));
        let kept = old.ap_id.as_deref().unwrap_or("https://ex.org/ap/users/anna");
        assert_eq!(d.actor_id, kept);
    }
}

#[test]
fn local_actors() {
    let a = anna();
    assert_eq!(a.local_user_id, Some(4));
    assert_eq!(a.display_name, "Anna");
    assert_eq!(a.summary, "hi");
    assert_eq!(a.actor_id.href, "https://ex.org/u/anna");
    assert!(a.icon_url.is_none());
    assert_eq!(a.image_url.as_ref().unwrap().href, "https://ex.org/b.png");
    assert_eq!(a.last_refreshed_at, Some(77));
    let p = a.to_person();
    assert_eq!(p.url.href, "https://ex.org/user/anna@instavox.social");
    assert_eq!(p.public_key.id, "https://ex.org/u/anna#main-key");
    assert_eq!(p.public_key.public_key_pem, "PUB");
    assert_eq!(p.image.as_ref().unwrap().media_type, "image/png");
    assert!(p.icon.is_none() && p.endpoints.is_none());
    assert!(p.discoverable && !p.manually_approves_followers);
    let mut bad = stored();
    bad.ap_inbox = Some("nowhere".to_string());
    let d = ensure_user_activitypub_data("anna", "https://ex.org", &bad).ok().unwrap();
    match local_actor_from_row(local_row(bad), d, "https://ex.org", 0) {
        Err(e) => assert_eq!(e, "invalid local inbox: relative URL without a base"),
        Ok(_) => panic!(),
    }
}

#[test]
fn remote_actors() {
    let a = remote_actor_from_row(remote_row()).ok().unwrap();
    assert_eq!(a.local_user_id, None);
    assert!(a.outbox.is_none() && a.following.is_none() && a.icon_url.is_none());
    assert_eq!(a.followers.as_ref().unwrap().href, "https://far.org/u/carl/fs");
    assert_eq!(a.last_refreshed_at, Some(1));
    assert_eq!(a.to_person().url.href, "https://far.org/u/carl");
    assert_eq!(a.to_person().outbox.href, "https://far.org/u/outbox");
    assert_eq!(own_collection(&None, &a.actor_id, "x").href, "https://far.org/u/x");
    for (spoil, message) in [
        (0, "invalid remote actor id: relative URL without a base"),
        (1, "invalid remote inbox: relative URL without a base"),
        (2, "invalid remote outbox: relative URL without a base"),
        (3, "invalid remote followers: relative URL without a base"),
        (4, "invalid remote following: relative URL without a base"),
        (5, "invalid remote shared inbox: relative URL without a base"),
        (6, "invalid remote icon url: relative URL without a base"),
    ] {
        let mut r = remote_row();
        let bad = "bad".to_string();
        match spoil {
            0 => r.actor_id = bad,
            1 => r.inbox_url = bad,
            2 => r.outbox_url = bad,
            3 => r.followers_url = bad,
            4 => r.following_url = bad,
            5 => r.shared_inbox_url = bad,
            _ => r.icon_url = bad,
        }
        match remote_actor_from_row(r) {
            Err(e) => assert_eq!(e, message),
            Ok(_) => panic!(),
        }
    }
    assert!(usable_remote_row("discovered", Some(remote_row())).is_some());
    assert!(usable_remote_row("limited", Some(remote_row())).is_some());
    assert!(usable_remote_row("ban", Some(remote_row())).is_none());
    let mut banned = remote_row();
    banned.status = "blocked".to_string();
    assert!(usable_remote_row("discovered", Some(banned)).is_none());
}

#[test]
fn documents_of_remote_users() {
    let document = object(vec![
        ("id", word("https://Far.org/u/c")),
        ("preferredUsername", word("c")),
        ("inbox", word("https://far.org/u/c/inbox")),
        ("endpoints", object(vec![("sharedInbox", word("https://far.org/inbox"))])),
        ("publicKey", object(vec![("publicKeyPem", word("K"))])),
    ]);
    let id = remote_identity("https://other.org/x", &document).ok().unwrap();
    assert_eq!((id.actor_id.as_str(), id.host.as_str()), ("https://Far.org/u/c", "far.org"));
    let row = read_remote_actor(id, &document, "limited", 6).ok().unwrap();
    assert_eq!(row.display_name, "c");
    assert_eq!(row.shared_inbox_url, "https://far.org/inbox");
    assert_eq!(row.public_key_pem, "K");
    assert_eq!((row.status.as_str(), row.discovered_at), ("limited", Some(6)));
    let id = remote_identity("https://other.org/x", &JsonValue::Null).ok().unwrap();
    assert_eq!(id.actor_id, "https://other.org/x");
    assert_eq!(
        read_remote_actor(id, &JsonValue::Null, "discovered", 6).err().as_deref(),
        Some("remote actor is missing required user discovery fields")
    );
    assert_eq!(
        remote_identity("nowhere", &JsonValue::Null).err().as_deref(),
        Some("remote actor has no valid host")
    );
    assert!(check_remote_user("i", "limited").is_ok());
    assert_eq!(check_remote_user("i", "ban").err().as_deref(), Some("remote user i is banned"));
}

#[test]
fn remote_users_are_remembered() {
    let row = remote_row_from_person(anna().to_person(), 6);
    assert_eq!(row.actor_id, "https://ex.org/u/anna");
    assert_eq!(row.host, "ex.org");
    assert_eq!(row.status, "discovered");
    assert_eq!(row.icon_url, "");
    assert_eq!((row.discovered_at, row.last_refreshed_at), (Some(6), Some(6)));
    let texts = trimmed_row_texts(&remote_row());
    assert_eq!((texts.0.as_str(), texts.1.as_str()), ("carl", "Carl"));
}

#[test]
fn found_remote_users() {
    let u = map_remote_search_user(remote_row(), " carl ", "far.org");
    assert_eq!(u.preferred_username, "Carl");
    assert_eq!(u.profile_url, "/user/carl@far.org");
    assert_eq!(u.handle, "@ carl @far.org");
    assert_eq!(u.profile_photo_url, "/public/avatar.webp");
    assert!(u.is_remote);
    assert_eq!(map_remote_search_view(remote_row()).unwrap().handle, "@carl@far.org");
    let mut nameless = remote_row();
    nameless.preferred_username = " ".to_string();
    assert!(map_remote_search_view(nameless).is_none());
    let mut limited = remote_row();
    limited.status = "limit".to_string();
    assert!(cached_search_result(limited).is_none());
    assert!(cached_search_result(remote_row()).is_some());
    let mut nameless = remote_row();
    nameless.host = String::new();
    let found = searched_result(nameless, "https://far.org/x".to_string(), "dora", "far.org");
    assert_eq!(found.handle, "@dora@far.org");
    assert_eq!(found.preferred_username, "dora");
}

#[test]
fn recipients_tell_who_may_read() {
    let id = url("https://ex.org/u/anna");
    let r = note_recipients(&id, " Public ").ok().unwrap();
    assert_eq!(r.to[0].href, PUBLIC_RECIPIENT);
    assert_eq!(r.cc[0].href, "https://ex.org/u/followers");
    assert!(is_public_recipient(&r.to) && !is_public_recipient(&r.cc));
    let r = note_recipients(&id, "following").ok().unwrap();
    assert_eq!(r.to[0].href, "https://ex.org/u/followers");
    assert!(r.cc.is_empty() && !is_public_recipient(&r.to));
    let none: Vec<WebUrl> = Vec::new();
    assert!(activity_or_object_is_public(&none, &none, &none, &vec![url(PUBLIC_RECIPIENT)]));
    assert!(!activity_or_object_is_public(&none, &none, &none, &none));
    let public = url(PUBLIC_RECIPIENT);
    assert_eq!((public.path.as_str(), public.host.as_deref()), ("/ns/activitystreams", Some("www.w3.org")));
}

#[test]
fn notes_of_posts() {
    assert_eq!(
        render_note_content(&post("public", None)),
        "<p>a &lt;b&gt;<br>c</p><p><a href=\"https://x.org/?a=1&amp;b=2\" rel=\"nofollow noopener noreferrer\">https://x.org/?a=1&amp;b=2</a></p>"
    );
    let images = vec![
        LocalPostImageRow { image_url: "/i.png".to_string(), mime_type: "image/png".to_string() },
        LocalPostImageRow { image_url: " ".to_string(), mime_type: "image/png".to_string() },
    ];
    let id = url("https://ex.org/u/anna");
    let n = local_post_to_note(&post("public", None), &id, &images, "https://ex.org").ok().unwrap();
    assert_eq!(n.id.href, "https://ex.org/ap/posts/8");
    assert_eq!(n.url.href, "https://ex.org/posts/8");
    assert_eq!(n.attachment.len(), 1);
    assert_eq!(n.attachment[0].url.href, "https://ex.org/i.png");
    assert_eq!(n.attachment[0].kind, "Image");
    assert_eq!(n.published, Some(9));
    let a = create_post_activity("https://ex.org", 8, &id, n).ok().unwrap();
    assert_eq!(a.id.href, "https://ex.org/ap/posts/8/activities/create");
    assert_eq!(a.actor.href, id.href);
    assert!(is_public_create_post(&a));
    assert_eq!(a.to[0].href, a.object.to[0].href);
    match local_post_to_note(&post("public", None), &id, &images, "nowhere") {
        Err(e) => assert_eq!(e, "invalid post activitypub url: relative URL without a base"),
        Ok(_) => panic!(),
    }
}

#[test]
fn sent_posts_are_served() {
    for (visibility, community, sent, served) in [
        (" PUBLIC ", None, true, true),
        ("following", None, false, true),
        ("friends", None, false, false),
        ("private", None, false, false),
        ("public", Some(1), false, false),
    ] {
        let p = post(visibility, community);
        assert_eq!(may_send_post(&p, 4), sent, "{}", visibility);
        assert_eq!(may_serve_post(&p), served, "{}", visibility);
        assert!(!may_send_post(&p, 5));
    }
    assert!(matches!(check_served_post(Loaded::Found(post("public", None))), Step::Proceed(_)));
    match check_served_post(Loaded::Found(post("private", None))) {
        Step::Answer(Reply::Text(NOT_FOUND, m)) => assert_eq!(m, "Post not found"),
        _ => panic!(),
    }
    match check_served_post(Loaded::Failed) {
        Step::Answer(Reply::Text(INTERNAL_SERVER_ERROR, m)) => assert_eq!(m, "Failed to load post"),
        _ => panic!(),
    }
    assert!(matches!(check_served_post(Loaded::Missing), Step::Answer(Reply::Text(NOT_FOUND, _))));
}

#[test]
fn updates_of_profiles_and_posts() {
    let a = profile_update_activity(&anna(), 12).ok().unwrap();
    assert_eq!(a.id.href, "https://ex.org/u/anna/activities/update/12");
    assert_eq!(a.to[0].href, PUBLIC_RECIPIENT);
    assert_eq!(a.cc[0].href, "https://ex.org/u/followers");
    assert!(verify_person_update(&a).is_ok());
    let forged = UpdatePersonActivity { actor: url("https://far.org/x"), ..a };
    assert_eq!(
        verify_person_update(&forged).err().as_deref(),
        Some("update actor does not match person object id")
    );
    let update = |actor: &str| UpdatePostActivity {
        id: url("https://far.org/a/1"),
        actor: url(actor),
        to: Vec::new(),
        cc: Vec::new(),
        object: note("https://far.org/u/c"),
    };
    assert!(verify_post_update(&update("https://far.org/u/c")).is_ok());
    assert_eq!(
        verify_post_update(&update("https://far.org/u/d")).err().as_deref(),
        Some("update actor does not match note author")
    );
    assert!(is_public_post_update(&update("https://far.org/u/c")));
    let quiet = CreatePostActivity {
        id: url("https://far.org/a/1"),
        actor: url("https://far.org/u/c"),
        to: Vec::new(),
        cc: Vec::new(),
        object: ActivityPubNote { to: Vec::new(), ..note("https://far.org/u/c") },
    };
    assert!(!is_public_create_post(&quiet));
}

#[test]
fn incoming_posts() {
    let author = url("https://Far.org/u/c");
    assert_eq!(foreign_host_of(&author).as_deref(), Some("far.org"));
    assert_eq!(foreign_host_of(&url("https://instavox.social/u")), None);
    assert_eq!(foreign_host_of(&url("mailto:a@b.c")), None);
    let n = note("https://far.org/u/c");
    assert_eq!(incoming_post_host(&author, &n, true).ok().unwrap().as_deref(), Some("far.org"));
    assert_eq!(incoming_post_host(&author, &n, false).ok().unwrap(), None);
    assert_eq!(
        incoming_post_host(&url("https://far.org/u/d"), &n, false).err().as_deref(),
        Some("post activity actor does not match note author")
    );
    assert!(may_store_post("discovered", KnownAuthor::Remote, "discovered"));
    for (instance, user) in
        [("limited", "discovered"), ("ban", "discovered"), ("discovered", "limited"), ("discovered", "ban")]
    {
        assert!(!may_store_post(instance, KnownAuthor::Remote, user));
        assert!(!may_store_person(instance, user));
    }
    assert!(!may_store_post("discovered", KnownAuthor::Local, "discovered"));
    assert!(!may_store_post("discovered", KnownAuthor::Unknown, "discovered"));
    assert!(may_store_person("discovered", "discovered"));
    let row = remote_post_row(&url("https://far.org/a/1"), &author, &n, "far.org".to_string());
    assert_eq!(row.object_id, "https://far.org/n/1");
    assert_eq!(row.activity_id, "https://far.org/a/1");
    assert_eq!(row.content, "text");
    assert_eq!(row.published_at, Some(3));
}

#[test]
fn incoming_people_and_follows() {
    let a = profile_update_activity(&anna(), 12).ok().unwrap();
    assert_eq!(incoming_person_host(&a).ok().unwrap().as_deref(), Some("ex.org"));
    let forged = UpdatePersonActivity { actor: url("https://far.org/x"), ..a };
    assert!(incoming_person_host(&forged).is_err());
    assert_eq!(follow_target(Some(4)), Ok(4));
    assert_eq!(follow_target(None), Err("follow target must be a local user".to_string()));
    let text = |o: InboxOutcome| match inbox_reply(o) {
        Reply::Text(s, t) => (s, t),
        _ => panic!(),
    };
    assert_eq!(text(InboxOutcome::NoHost), (BAD_REQUEST, "Missing host header".to_string()));
    assert_eq!(text(InboxOutcome::NoUser), (NOT_FOUND, "User not found".to_string()));
    assert_eq!(
        text(InboxOutcome::ActorFailed),
        (INTERNAL_SERVER_ERROR, "Failed to load actor".to_string())
    );
    assert_eq!(
        text(InboxOutcome::ConfigFailed),
        (INTERNAL_SERVER_ERROR, "Failed to prepare federation config".to_string())
    );
    assert_eq!(text(InboxOutcome::BadBody), (BAD_REQUEST, "Invalid request body".to_string()));
    assert_eq!(
        text(InboxOutcome::BadPayload),
        (BAD_REQUEST, "Invalid ActivityPub payload".to_string())
    );
    assert_eq!(
        text(InboxOutcome::BadActivity),
        (BAD_REQUEST, "Invalid ActivityPub activity".to_string())
    );
    assert_eq!(
        text(InboxOutcome::NotProcessed),
        (BAD_REQUEST, "Failed to process ActivityPub activity".to_string())
    );
    assert!(matches!(inbox_reply(InboxOutcome::Processed), Reply::Status(202)));
}

#[test]
fn searches_among_remote_users_and_posts() {
    assert!(remote_user_search(" @@ ").is_none());
    let s = remote_user_search(" @Carl@Far.org ").unwrap();
    assert_eq!(s.pattern, "%carl@far.org%");
    assert_eq!((s.username.as_str(), s.domain.as_str()), ("Carl", "Far.org"));
    let s = remote_user_search("carl").unwrap();
    assert_eq!((s.username.as_str(), s.domain.as_str()), ("", ""));
    assert_eq!(remote_post_pattern(" Word ").as_deref(), Some("%word%"));
    assert_eq!(remote_post_pattern("  "), None);
    let row = |actor: &str, name: &str, content: &str| RemotePostSearchRow {
        object_id: "https://far.org/n/1".to_string(),
        post_url: "https://far.org/p/1".to_string(),
        content: content.to_string(),
        created_at: "t".to_string(),
        actor_id: actor.to_string(),
        preferred_username: "carl".to_string(),
        display_name: name.to_string(),
        icon_url: String::new(),
    };
    let p = search_remote_post(row("https://FAR.org/u/c", "Carl C", "<p>hi</p>")).unwrap();
    assert_eq!(p.author_username, "Carl C");
    assert_eq!(p.author_handle, "@carl@far.org");
    assert_eq!(p.author_profile_url, "/user/carl@far.org");
    assert_eq!(p.author_profile_photo_url, "/public/avatar.webp");
    assert_eq!(p.body_preview, "hi");
    assert!(p.is_remote);
    let p = search_remote_post(row("https://far.org/u/c", " ", " ")).unwrap();
    assert_eq!(p.author_username, "carl");
    assert_eq!(p.body_preview, "https://far.org/p/1");
    assert!(search_remote_post(row("nowhere", "", "")).is_none());
}
