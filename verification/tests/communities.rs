use instavox::community::{
    change_reply, check_community_deletion, check_community_post, check_moderator_removal,
    check_owner, chosen_photo, communities_page, community_deleted_reply,
    community_manage_feedback, community_page, community_settings_page, empty_community_page_view,
    map_community_row_to_view, may_quit, moderator_added_reply, new_moderator, no_slug_reply,
    normalize_community_slug, normalize_community_sort, read_community_photo,
    read_community_update, read_new_community, read_rule, report, rule_position,
    slugify_community_value, to_community, visitor_standing, CommunitiesQuery, CommunityDetailQuery,
    CommunityPageView, CommunitySearchRow, CommunitySettingsLists, CreateCommunityForm, Membership,
    Outcome, SlugSearch, UpdateCommunityForm,
};
use instavox::page::PageHeader;
use instavox::posts::empty_index_post_view;
use instavox::uploads::SelectUploadedImageForm;
use instavox::web::{Reply, Step, FORBIDDEN, NOT_FOUND};

fn header() -> PageHeader {
    PageHeader {
        id: 1,
        user_id: 2,
        is_moderator: true,
        local_profile_domain: "ex.org".to_string(),
        username: "anna".to_string(),
        profile_photo_url: "/p".to_string(),
        profile_photo_style: String::new(),
        unread_notifications_count: 0,
        notifications: Vec::new(),
    }
}

fn community(id: i64, owner: i32, visibility: &str) -> CommunityPageView {
    let mut c = empty_community_page_view("rust");
    c.community_id = id;
    c.owner_user_id = owner;
    c.visibility = visibility.to_string();
    c
}

fn path(r: &Reply) -> String {
    match r {
        Reply::Redirect(p) => p.clone(),
        _ => panic!("no redirect"),
    }
}

fn member(has_joined: bool) -> Membership {
    Membership { has_joined, has_ignored: false, acting_as_team: false }
}

#[test]
fn slugs_are_clean() {
    assert_eq!(slugify_community_value("Hello, World_of  Rust!"), "hello-world-of-rust");
    assert_eq!(slugify_community_value("--a--b--"), "a-b");
    assert_eq!(slugify_community_value("äöü"), "");
    assert_eq!(slugify_community_value(&"x".repeat(100)).len(), 80);
    let cut = format!("{}-tail", "y".repeat(79));
    assert_eq!(slugify_community_value(&cut), format!("{}-", "y".repeat(79)));
    assert_eq!(normalize_community_slug(" /rust/ "), "rust");
}

#[test]
fn slug_candidates_count_up() {
    let mut search = SlugSearch::start("", "Rust Fans").unwrap();
    assert_eq!(search.candidate(), "rust-fans");
    search = search.next().unwrap();
    assert_eq!(search.candidate(), "rust-fans-2");
    search = search.next().unwrap();
    assert_eq!(search.candidate(), "rust-fans-3");
    let mut tried = 3;
    while let Some(next) = search.next() {
        search = next;
        tried += 1;
    }
    assert_eq!(tried, 9999);
    assert!(SlugSearch::start("!!", "??").is_none());
    assert_eq!(SlugSearch::start("My Slug", "name").unwrap().candidate(), "my-slug");
}

#[test]
fn orders_of_communities() {
    assert_eq!(normalize_community_sort(Some(" NEW ")), "new");
    assert_eq!(normalize_community_sort(Some("top")), "top");
    assert_eq!(normalize_community_sort(Some("x")), "hot");
    assert_eq!(normalize_community_sort(None), "hot");
}

#[test]
fn rows_become_views() {
    let row = CommunitySearchRow {
        community_id: 9,
        slug: "s".to_string(),
        name: "n".to_string(),
        description: "d".to_string(),
        visibility: "public".to_string(),
        member_count: 4,
        post_count: 5,
        profile_photo_url: "/p".to_string(),
        profile_photo_style: "st".to_string(),
        owner_user_id: None,
        owner_username: String::new(),
        created_at: "now".to_string(),
    };
    let v = map_community_row_to_view(row);
    assert_eq!((v.community_id, v.owner_user_id, v.member_count, v.post_count), (9, 0, 4, 5));
    let e = empty_community_page_view("/none/");
    assert_eq!(e.slug, "none");
    assert_eq!(e.visibility, "public");
    assert_eq!(e.profile_photo_url, "/public/avatar.webp");
}

#[test]
fn every_manage_outcome_is_explained() {
    let all = [
        (Outcome::Created, true),
        (Outcome::Updated, true),
        (Outcome::PhotoUploaded, true),
        (Outcome::PhotoSelected, true),
        (Outcome::PhotoReset, true),
        (Outcome::RuleAdded, true),
        (Outcome::RuleUpdated, true),
        (Outcome::RuleDeleted, true),
        (Outcome::ModeratorAdded, true),
        (Outcome::ModeratorRemoved, true),
        (Outcome::Forbidden, false),
        (Outcome::NameRequired, false),
        (Outcome::RuleTitleRequired, false),
        (Outcome::RuleFailed, false),
        (Outcome::ModeratorNotFound, false),
        (Outcome::ModeratorAlreadyExists, false),
        (Outcome::ModeratorAddFailed, false),
        (Outcome::ModeratorRemoveFailed, false),
        (Outcome::ModeratorOwnerProtected, false),
        (Outcome::ImageNotOwned, false),
        (Outcome::UpdateFailed, false),
        (Outcome::PhotoUploadFailed, false),
        (Outcome::PhotoSelectFailed, false),
        (Outcome::PhotoResetFailed, false),
        (Outcome::DeleteFailed, false),
    ];
    for (outcome, good) in all {
        let p = path(&report("rust", outcome));
        let status = p.strip_prefix("/community/rust/settings?status=").unwrap();
        let (message, success) = community_manage_feedback(Some(status));
        assert!(!message.is_empty(), "{}", status);
        assert_eq!(success, good, "{}", status);
    }
    assert_eq!(
        community_manage_feedback(Some("deleted")),
        ("Community deleted.".to_string(), true)
    );
    assert_eq!(community_manage_feedback(None), (String::new(), false));
}

#[test]
fn joined_communities_are_listed_once() {
    let q = CommunitiesQuery { sort: None, create_status: Some("banned".to_string()) };
    let page = communities_page(
        header(),
        &q,
        vec![community(2, 1, "public")],
        vec![community(1, 1, "public"), community(2, 1, "public"), community(3, 1, "public")],
    );
    let ids: Vec<i64> = page.communities.iter().map(|c| c.community_id).collect();
    assert_eq!(ids, vec![1, 3]);
    assert_eq!(page.joined_communities.len(), 1);
    assert_eq!(page.create_message, "Community banned.");
    assert!(page.create_success);
}

#[test]
fn create_messages() {
    for (status, message, success) in [
        ("created", "Community page created.", true),
        ("deleted", "Community deleted.", true),
        ("name_required", "Community name is required.", false),
        ("invalid_slug", "Community slug is invalid. Use letters and numbers.", false),
        ("slug_unavailable", "Unable to allocate a unique community slug right now.", false),
        ("create_failed", "Unable to create community right now. Please retry.", false),
        ("moderation_failed", "Unable to moderate community right now. Please retry.", false),
        ("other", "", false),
    ] {
        let q = CommunitiesQuery { sort: None, create_status: Some(status.to_string()) };
        let page = communities_page(header(), &q, Vec::new(), Vec::new());
        assert_eq!(page.create_message, message);
        assert_eq!(page.create_success, success);
    }
}

#[test]
fn new_communities_need_a_name() {
    let form = |name: &str, description: Option<&str>| CreateCommunityForm {
        name: name.to_string(),
        slug: None,
        description: description.map(str::to_string),
    };
    match read_new_community(&form("  ", None)) {
        Step::Answer(r) => assert_eq!(path(&r), "/communities?create_status=name_required"),
        _ => panic!(),
    }
    match read_new_community(&form(&format!(" {} ", "n".repeat(200)), Some(" d "))) {
        Step::Proceed(t) => {
            assert_eq!(t.name.len(), 120);
            assert_eq!(t.description, "d");
        }
        _ => panic!(),
    }
    assert_eq!(path(&no_slug_reply("!!")), "/communities?create_status=invalid_slug");
    assert_eq!(path(&no_slug_reply("")), "/communities?create_status=slug_unavailable");
    let update = UpdateCommunityForm { name: String::new(), description: None };
    match read_community_update("rust", &update) {
        Step::Answer(r) => assert_eq!(path(&r), "/community/rust/settings?status=name_required"),
        _ => panic!(),
    }
}

#[test]
fn only_owners_manage() {
    match check_owner(None, 1) {
        Step::Answer(Reply::Status(NOT_FOUND)) => {}
        _ => panic!(),
    }
    match check_owner(Some(community(1, 2, "public")), 1) {
        Step::Answer(r) => assert_eq!(path(&r), "/community/rust/settings?status=forbidden"),
        _ => panic!(),
    }
    assert!(matches!(check_owner(Some(community(1, 1, "public")), 1), Step::Proceed(_)));
    let c = community(1, 2, "public");
    assert!(may_quit(&c, 1) && !may_quit(&c, 2));
    assert!(check_community_post(&c, 2, false).is_none());
    assert!(check_community_post(&c, 1, true).is_none());
    assert!(matches!(check_community_post(&c, 1, false), Some(Reply::Status(FORBIDDEN))));
    assert!(check_community_deletion(&c, 1, true).is_none());
    assert!(check_community_deletion(&c, 2, false).is_none());
    assert!(check_community_deletion(&c, 1, false).is_some());
    assert_eq!(path(&community_deleted_reply("rust", Some(1))), "/communities?create_status=deleted");
    assert_eq!(
        path(&community_deleted_reply("rust", Some(0))),
        "/community/rust/settings?status=delete_failed"
    );
    assert_eq!(path(&to_community("rust")), "/community/rust");
    assert_eq!(
        path(&change_reply("rust", None, Outcome::Updated, Outcome::UpdateFailed)),
        "/community/rust/settings?status=update_failed"
    );
    assert_eq!(
        path(&change_reply("rust", Some(1), Outcome::Updated, Outcome::UpdateFailed)),
        "/community/rust/settings?status=updated"
    );
}

#[test]
fn rules_need_a_title() {
    match read_rule("rust", " ", None) {
        Step::Answer(r) => {
            assert_eq!(path(&r), "/community/rust/settings?status=rule_title_required")
        }
        _ => panic!(),
    }
    match read_rule("rust", &"t".repeat(150), Some(&"b".repeat(2100))) {
        Step::Proceed(t) => {
            assert_eq!(t.title.len(), 140);
            assert_eq!(t.body.len(), 2000);
        }
        _ => panic!(),
    }
    assert_eq!(rule_position(Some(-3), 7), 0);
    assert_eq!(rule_position(Some(4), 7), 4);
    assert_eq!(rule_position(None, 7), 7);
}

#[test]
fn moderators_of_communities() {
    let c = community(1, 2, "public");
    match new_moderator(&c, None) {
        Step::Answer(r) => {
            assert_eq!(path(&r), "/community/rust/settings?status=moderator_not_found")
        }
        _ => panic!(),
    }
    match new_moderator(&c, Some(2)) {
        Step::Answer(r) => {
            assert_eq!(path(&r), "/community/rust/settings?status=moderator_already_exists")
        }
        _ => panic!(),
    }
    assert!(matches!(new_moderator(&c, Some(3)), Step::Proceed(3)));
    assert_eq!(
        path(&moderator_added_reply("rust", Some(1))),
        "/community/rust/settings?status=moderator_added"
    );
    assert_eq!(
        path(&moderator_added_reply("rust", Some(0))),
        "/community/rust/settings?status=moderator_already_exists"
    );
    assert_eq!(
        path(&moderator_added_reply("rust", None)),
        "/community/rust/settings?status=moderator_add_failed"
    );
    assert!(check_moderator_removal(&c, 3).is_none());
    assert_eq!(
        check_moderator_removal(&c, 2).as_ref().map(path),
        Some("/community/rust/settings?status=moderator_owner_protected".to_string())
    );
}

#[test]
fn photos_of_communities() {
    let form = SelectUploadedImageForm {
        file_url: " /u.jpg ".to_string(),
        crop_apply: Some("1".to_string()),
        crop_x: Some("10".to_string()),
        crop_y: None,
        crop_zoom: None,
    };
    assert_eq!(chosen_photo(&form), "/u.jpg");
    match read_community_photo("rust", &form, true) {
        Step::Proceed(p) => {
            assert_eq!(p.file_url, "/u.jpg");
            assert_eq!(p.style, "object-position: 10% 50%; transform: scale(1);");
        }
        _ => panic!(),
    }
    match read_community_photo("rust", &form, false) {
        Step::Answer(r) => assert_eq!(path(&r), "/community/rust/settings?status=image_not_owned"),
        _ => panic!(),
    }
}

#[test]
fn private_communities_hide_their_posts() {
    let c = community(1, 2, "PRIVATE");
    let stranger = visitor_standing(true, &c, Some(5), member(false));
    assert!(!stranger.can_view_posts && !stranger.can_create_post && stranger.can_join);
    let joined = visitor_standing(true, &c, Some(5), member(true));
    assert!(joined.can_view_posts && joined.can_create_post && joined.can_quit && !joined.can_join);
    let owner = visitor_standing(true, &c, Some(2), member(false));
    assert!(owner.can_manage && owner.is_member && owner.can_view_posts && !owner.can_quit);
    let guest = visitor_standing(true, &c, None, member(false));
    assert!(!guest.can_view_posts && !guest.can_join);
    let open = visitor_standing(true, &community(1, 2, "public"), None, member(false));
    assert!(open.can_view_posts && !open.can_create_post);
    let missing = visitor_standing(false, &c, Some(5), member(true));
    assert!(!missing.is_member && !missing.can_view_posts && !missing.can_join);

    let q = CommunityDetailQuery { status: None, sort: Some("top".to_string()) };
    let page = community_page(
        header(),
        true,
        c,
        stranger,
        &q,
        Vec::new(),
        Vec::new(),
        vec![empty_index_post_view(3)],
    );
    assert!(page.posts.is_empty());
    assert_eq!(page.active_sort, "top");
    let page = community_page(
        header(),
        true,
        community(1, 2, "private"),
        joined,
        &q,
        Vec::new(),
        Vec::new(),
        vec![empty_index_post_view(3)],
    );
    assert_eq!(page.posts.len(), 1);
}

#[test]
fn community_settings_are_for_owners() {
    let lists = || CommunitySettingsLists {
        uploaded_profile_images: vec!["/x".to_string()],
        community_rules: Vec::new(),
        community_moderators: Vec::new(),
        moderator_candidates: Vec::new(),
    };
    let q = CommunityDetailQuery { status: Some("created".to_string()), sort: None };
    let c = || Some(community(1, 2, "public"));
    assert!(community_settings_page(header(), None, Some(2), &q, lists()).is_none());
    assert!(community_settings_page(header(), c(), Some(3), &q, lists()).is_none());
    assert!(community_settings_page(header(), c(), None, &q, lists()).is_none());
    let page = community_settings_page(header(), c(), Some(2), &q, lists()).unwrap();
    assert_eq!(page.title, "Community Settings");
    assert_eq!(page.manage_message, "Community page created.");
    assert!(page.manage_success && page.can_manage && page.found);
    assert_eq!(page.uploaded_profile_images, vec!["/x"]);
}
