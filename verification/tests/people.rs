use instavox::friends::{
    classify_relationship, friend_notice, friends_page, is_open_request, is_other_user, may_follow,
    may_send_friend_request, no_relationships, plan_friend_request, read_user_lookup,
    sort_relationships, FriendEvent, Relation, RelationshipRow, RequestPlan, UserLookup,
    ACCEPTED_KIND, FOLLOW_KIND, PENDING_KIND, REJECTED_KIND, REMOVED_KIND,
};
use instavox::page::PageHeader;
use instavox::posts::empty_index_post_view;
use instavox::profile::{
    build_local_actor_urls, list_profile_friends, local_profile_domain,
    local_profile_domain_matches, local_user_profile_path, may_follow_profile,
    parse_local_username_lookup, public_base_url, read_profile_lookup, read_remote_lookup,
    redirect_back_path, resolve_profile, user_page, user_redirect, Loaded, ProfileFriendRow,
    ProfileLookup, ProfileUser, RemoteProfileUserRow,
};
use instavox::session::{
    invite_token_candidate, is_acting_as_team_session, login_page, register_page, LoginPageQuery,
    RegisterPageQuery,
};
use instavox::web::Reply;

fn header(user_id: i32, public_id: i64) -> PageHeader {
    PageHeader {
        id: public_id,
        user_id,
        is_moderator: false,
        local_profile_domain: "ex.org".to_string(),
        username: "anna".to_string(),
        profile_photo_url: "/h".to_string(),
        profile_photo_style: "hs".to_string(),
        unread_notifications_count: 3,
        notifications: Vec::new(),
    }
}

fn relation(request_id: i32, user_id: i32, kind: &str, direction: &str) -> RelationshipRow {
    RelationshipRow {
        request_id,
        user_id,
        user_public_id: 1000 + user_id as i64,
        username: format!("u{}", user_id),
        profile_photo_url: "/p".to_string(),
        profile_photo_style: String::new(),
        relationship_kind: kind.to_string(),
        direction: direction.to_string(),
    }
}

fn person(id: i32, public_id: i64) -> ProfileUser {
    ProfileUser {
        id,
        public_id,
        profile_photo_url: "/p".to_string(),
        profile_photo_style: "ps".to_string(),
        background_photo_url: "/b".to_string(),
        background_photo_style: "bs".to_string(),
        username: "bob".to_string(),
        birthday: "2000-01-01".to_string(),
        birthday_public: false,
        created_at: "2024".to_string(),
        first_name: "Bob".to_string(),
        first_name_public: true,
        last_name: "Secret".to_string(),
        last_name_public: false,
        email: "b@ex.org".to_string(),
        bio_description: "bio".to_string(),
    }
}

#[test]
fn relations_are_sorted_once() {
    for kind in ["friend", "friends", "friendship", "accepted"] {
        assert!(matches!(classify_relationship(kind, "incoming"), Relation::Friend));
        assert!(matches!(classify_relationship(kind, "outgoing"), Relation::Friend));
    }
    for kind in ["pending", "request", "requested", "friend_request"] {
        assert!(matches!(classify_relationship(kind, "incoming"), Relation::IncomingRequest));
        assert!(matches!(classify_relationship(kind, "outgoing"), Relation::OutgoingRequest));
        assert!(matches!(classify_relationship(kind, "sideways"), Relation::Other));
    }
    for kind in ["blocked", "block"] {
        assert!(matches!(classify_relationship(kind, ""), Relation::Blocked));
    }
    assert!(matches!(classify_relationship("follow", "incoming"), Relation::Other));

    let rows = vec![
        relation(9, 1, "friendship", "outgoing"),
        relation(8, 2, "pending", "incoming"),
        relation(7, 3, "pending", "outgoing"),
        relation(6, 4, "block", "outgoing"),
        relation(5, 5, "follow", "outgoing"),
        relation(4, 6, "accepted", "incoming"),
    ];
    let lists = sort_relationships(&rows, 50);
    let friends: Vec<i32> = lists.friendships.iter().map(|u| u.user_id).collect();
    assert_eq!(friends, vec![1, 6]);
    assert_eq!(lists.pending_requests.len(), 1);
    assert_eq!(lists.pending_requests[0].request_id, 8);
    assert_eq!(lists.pending_requests[0].sender_id, 2);
    assert_eq!(lists.pending_requests[0].receiver_id, 50);
    assert_eq!(lists.incoming_requests[0].sender_public_id, 1002);
    assert_eq!(lists.outgoing_requests[0].receiver_username, "u3");
    assert_eq!(lists.blocked_users[0].user_id, 4);
    let page = friends_page(header(50, 5), lists, Vec::new());
    assert_eq!(page.title, "Friends");
    assert_eq!((page.id, page.user_id), (5, 50));
    assert_eq!(page.unread_notifications_count, 3);
    assert_eq!(page.friendships.len(), 2);
    assert!(no_relationships().friendships.is_empty());
}

#[test]
fn friend_requests() {
    assert!(is_other_user(1, 2) && !is_other_user(1, 1) && !is_other_user(1, 0));
    assert!(may_send_friend_request(1, 2, false));
    assert!(!may_send_friend_request(1, 2, true));
    assert!(!may_send_friend_request(1, 1, false));
    assert!(!may_send_friend_request(1, -2, false));
    assert!(matches!(plan_friend_request(None), RequestPlan::Insert));
    for kind in ["rejected", "declined", "cancelled"] {
        assert!(matches!(plan_friend_request(Some(kind)), RequestPlan::Revive));
    }
    for kind in ["friend", "friends", "friendship", "accepted", "pending", "blocked"] {
        assert!(matches!(plan_friend_request(Some(kind)), RequestPlan::Nothing));
    }
    for kind in ["block", "follow", "removed", ""] {
        assert!(matches!(plan_friend_request(Some(kind)), RequestPlan::Insert));
    }
    assert!(is_open_request(PENDING_KIND, 5, 5));
    assert!(!is_open_request(PENDING_KIND, 5, 6));
    assert!(!is_open_request(ACCEPTED_KIND, 5, 5));
    assert!(is_open_request("friend_request", 5, 5));
    assert!(matches!(plan_friend_request(Some(REJECTED_KIND)), RequestPlan::Revive));
    assert!(matches!(plan_friend_request(Some(REMOVED_KIND)), RequestPlan::Insert));
}

#[test]
fn following() {
    assert!(may_follow(None, None));
    for kind in ["blocked", "block", "friend", "friends", "friendship", "accepted"] {
        assert!(!may_follow(Some(kind), None));
    }
    for kind in ["follow", "following", "follower"] {
        assert!(!may_follow(Some(kind), Some(kind)));
        assert!(may_follow(Some(kind), None));
    }
    assert!(may_follow(Some(REMOVED_KIND), Some(REMOVED_KIND)));
    assert_eq!(FOLLOW_KIND, "follow");
}

#[test]
fn lookups_of_users() {
    assert!(matches!(read_user_lookup("  "), UserLookup::Nobody));
    assert!(matches!(read_user_lookup(" 42 "), UserLookup::PublicId(42)));
    assert!(matches!(read_user_lookup("-7"), UserLookup::PublicId(-7)));
    match read_user_lookup(" anna ") {
        UserLookup::Name(n) => assert_eq!(n, "anna"),
        _ => panic!(),
    }
    match read_user_lookup("99999999999999999999") {
        UserLookup::Name(n) => assert_eq!(n, "99999999999999999999"),
        _ => panic!(),
    }
}

#[test]
fn notices_of_friends() {
    for (event, kind, title, body) in [
        (
            FriendEvent::RequestSent,
            "friend_request",
            "New friend request",
            "@anna sent you a friend request",
        ),
        (
            FriendEvent::RequestAccepted,
            "friend_request_accepted",
            "Friend request accepted",
            "@anna accepted your friend request",
        ),
        (
            FriendEvent::RequestRejected,
            "friend_request_rejected",
            "Friend request rejected",
            "@anna rejected your friend request",
        ),
        (FriendEvent::Followed, "new_follower", "New follower", "@anna started following you"),
    ] {
        let n = friend_notice(event, 7, "anna", "ex.org");
        assert_eq!(n.recipient_user_id, 7);
        assert_eq!((n.kind.as_str(), n.title.as_str(), n.body.as_str()), (kind, title, body));
        assert_eq!(n.link_url, "/user/anna@ex.org");
    }
}

#[test]
fn addresses_of_profiles() {
    assert_eq!(local_profile_domain(None), "instavox.social");
    assert_eq!(local_profile_domain(Some("ex.org")), "ex.org");
    assert_eq!(public_base_url(None, "ex.org"), "https://ex.org");
    assert_eq!(public_base_url(Some("http://h:1"), "ex.org"), "http://h:1");
    assert!(local_profile_domain_matches("EX.org", "ex.ORG"));
    assert!(!local_profile_domain_matches("ex.org ", "ex.org"));
    assert_eq!(local_user_profile_path(" anna ", "ex.org"), "/user/anna@ex.org");
    assert_eq!(redirect_back_path(None), "/settings");
    assert_eq!(redirect_back_path(Some("https://ex.org/friends?x=1")), "/friends?x=1");
    assert_eq!(redirect_back_path(Some("https://ex.org")), "/settings");
    assert_eq!(redirect_back_path(Some("https://ex.org//evil")), "/settings");
}

#[test]
fn actor_addresses_are_encoded() {
    let (id, inbox, outbox) = build_local_actor_urls("a b/ü", "https://ex.org");
    assert_eq!(id, "https://ex.org/ap/users/a+b%2F%C3%BC");
    assert_eq!(inbox, "https://ex.org/ap/users/a+b%2F%C3%BC/inbox");
    assert_eq!(outbox, "https://ex.org/ap/users/a+b%2F%C3%BC/outbox");
    let (plus, _, _) = build_local_actor_urls("a+b/ü", "https://ex.org");
    assert_ne!(id, plus);
    let (kept, _, _) = build_local_actor_urls("A-z.0_*9", "https://ex.org");
    assert_eq!(kept, "https://ex.org/ap/users/A-z.0_*9");
}

#[test]
fn profile_paths_lead_back() {
    let path = local_user_profile_path(" anna ", "ex.org");
    let handle = path.strip_prefix("/user/").unwrap();
    assert_eq!(parse_local_username_lookup(handle, "ex.org").as_deref(), Some("anna"));
    assert_eq!(parse_local_username_lookup("anna@other.org", "ex.org"), None);
    assert_eq!(parse_local_username_lookup("@ex.org", "ex.org"), None);
    assert_eq!(parse_local_username_lookup("anna@", "ex.org"), None);
    assert_eq!(parse_local_username_lookup(" ", "ex.org"), None);
    assert_eq!(parse_local_username_lookup(" anna ", "ex.org").as_deref(), Some("anna"));
}

#[test]
fn profiles_are_local_or_remote() {
    assert!(matches!(read_profile_lookup(" 12 ", "ex.org"), ProfileLookup::PublicId(12)));
    assert!(matches!(read_profile_lookup("", "ex.org"), ProfileLookup::Nobody));
    assert!(matches!(read_profile_lookup("anna@far.org", "ex.org"), ProfileLookup::Nobody));
    match read_profile_lookup("anna@EX.org", "ex.org") {
        ProfileLookup::Username(n) => assert_eq!(n, "anna"),
        _ => panic!(),
    }
    assert_eq!(
        read_remote_lookup("anna@Far.ORG", "ex.org"),
        Some(("anna".to_string(), "far.org".to_string()))
    );
    assert_eq!(read_remote_lookup("anna@EX.org", "ex.org"), None);
    assert_eq!(read_remote_lookup("anna", "ex.org"), None);
    assert_eq!(read_remote_lookup("@far.org", "ex.org"), None);
}

#[test]
fn own_profile_redirects() {
    let path = |r: Reply| match r {
        Reply::Redirect(p) => p,
        _ => panic!(),
    };
    assert_eq!(path(user_redirect(false, "", None, "ex.org")), "/login");
    assert_eq!(path(user_redirect(true, "anna", None, "ex.org")), "/user/anna@ex.org");
    assert_eq!(path(user_redirect(true, " ", Some("bob"), "ex.org")), "/user/bob@ex.org");
}

#[test]
fn found_profiles() {
    let remote = || {
        Loaded::Found(RemoteProfileUserRow {
            actor_id: "https://far.org/u/c".to_string(),
            preferred_username: " c ".to_string(),
            display_name: "Carl".to_string(),
            summary: "sum".to_string(),
            icon_url: "/i".to_string(),
            host: " far.org ".to_string(),
        })
    };
    let v = resolve_profile(Loaded::Found(person(4, 44)), remote());
    assert!(v.found && !v.is_remote && v.id == 4 && v.public_id == 44);
    let v = resolve_profile(Loaded::Missing, remote());
    assert!(v.found && v.is_remote);
    assert_eq!(v.username, "c@far.org");
    assert_eq!(v.remote_url, "https://far.org/u/c");
    assert_eq!(v.first_name, "Carl");
    let v = resolve_profile(Loaded::Failed, remote());
    assert!(!v.found && v.photo_url == "/public/avatar.webp");
    let v = resolve_profile(Loaded::Missing, Loaded::Missing);
    assert!(!v.found);
}

#[test]
fn friends_of_a_profile() {
    let row = |id: i32, name: &str| ProfileFriendRow {
        user_id: id,
        public_id: id as i64,
        username: name.to_string(),
        profile_photo_url: String::new(),
        profile_photo_style: String::new(),
    };
    let rows = vec![row(1, "zoe"), row(2, "Anna"), row(1, "zoe"), row(3, "ben")];
    let friends = list_profile_friends(&rows);
    let names: Vec<&str> = friends.iter().map(|f| f.username.as_str()).collect();
    assert_eq!(names, vec!["Anna", "ben", "zoe"]);
}

#[test]
fn private_parts_of_a_profile_stay_hidden() {
    let view = || resolve_profile(Loaded::Found(person(4, 44)), Loaded::Missing);
    let rows = vec![relation(11, 4, "pending", "incoming")];
    let page = user_page(
        header(9, 99),
        view(),
        sort_relationships(&rows, 9),
        true,
        vec![empty_index_post_view(1)],
        Vec::new(),
        Vec::new(),
    );
    assert!(!page.is_own_profile);
    assert_eq!(page.profile_first_name, "Bob");
    assert_eq!(page.profile_last_name, "");
    assert_eq!(page.profile_birthday, "");
    assert!(!page.can_view_profile_birthday);
    assert!(page.has_incoming_request_from_profile && !page.has_friendship_with_profile);
    assert_eq!(page.incoming_request_id_for_profile, 11);
    assert!(page.has_following_profile && !page.has_blocked_profile);

    let own = user_page(
        header(4, 44),
        view(),
        no_relationships(),
        false,
        Vec::new(),
        Vec::new(),
        Vec::new(),
    );
    assert!(own.is_own_profile && own.can_view_profile_birthday);
    assert_eq!(own.profile_last_name, "Secret");
    assert_eq!(own.profile_birthday, "2000-01-01");
    assert!(may_follow_profile(Some(9), &view()));
    assert!(!may_follow_profile(Some(4), &view()));
    assert!(!may_follow_profile(None, &view()));
}

#[test]
fn signing_in() {
    let page = |status: Option<&str>| {
        let q = LoginPageQuery { email_status: status.map(str::to_string) };
        let p = login_page(header(0, 0), &q);
        assert_eq!(p.title, "Login - Instavox");
        (p.email_status_message, p.email_status_success)
    };
    assert_eq!(
        page(Some("sent")),
        (
            "Registration successful. Check your email for the verification link.".to_string(),
            true
        )
    );
    assert_eq!(
        page(Some("verified")),
        ("Email verified. You can now sign in.".to_string(), true)
    );
    assert_eq!(
        page(Some("expired")),
        ("Your verification link has expired. Please sign up again.".to_string(), false)
    );
    assert_eq!(page(Some("invalid")), ("Invalid verification link.".to_string(), false));
    assert_eq!(page(Some("x")), (String::new(), false));
    assert_eq!(page(None), (String::new(), false));
    assert_eq!(register_page(header(0, 0)).title, "Register - Instavox");
    let token = |a: Option<&str>, b: Option<&str>| {
        invite_token_candidate(&RegisterPageQuery {
            invite: a.map(str::to_string),
            token: b.map(str::to_string),
        })
    };
    assert_eq!(token(Some(" a "), Some("b")).as_deref(), Some("a"));
    assert_eq!(token(Some(" "), Some("b")), None);
    assert_eq!(token(None, Some("b")).as_deref(), Some("b"));
    assert_eq!(token(None, None), None);
    assert!(is_acting_as_team_session("Instavox-TEAM", 3));
    assert!(!is_acting_as_team_session("instavox-team", 0));
    assert!(!is_acting_as_team_session("anna", 3));
}
