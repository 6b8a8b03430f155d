use instavox::page::PageHeader;
use instavox::search::{
    like_pattern, local_search_post, local_search_user, local_user_handle, merge_search_users,
    normalize_search_term, requested_term, search_page, search_user_terms, SearchPostRow,
    SearchQuery, SearchUserRow, SearchUserView, NO_LOCAL_USER,
};

fn found(handle: &str, is_remote: bool) -> SearchUserView {
    SearchUserView {
        preferred_username: String::new(),
        profile_photo_url: String::new(),
        profile_photo_style: String::new(),
        profile_url: String::new(),
        handle: handle.to_string(),
        is_remote,
    }
}

fn post(body: &str, link: &str, image: &str) -> SearchPostRow {
    SearchPostRow {
        post_id: 17,
        author_username: "anna".to_string(),
        author_profile_photo_url: "/p".to_string(),
        author_profile_photo_style: String::new(),
        body: body.to_string(),
        link_url: link.to_string(),
        first_image_url: image.to_string(),
        created_at: "2024".to_string(),
    }
}

#[test]
fn search_terms() {
    assert_eq!(normalize_search_term("  a \t b\n"), "a b");
    assert_eq!(normalize_search_term(" \n "), "");
    assert_eq!(normalize_search_term(&"ü".repeat(90)).chars().count(), 80);
    assert_eq!(requested_term(&SearchQuery { search: Some(" x ".to_string()) }), "x");
    assert_eq!(requested_term(&SearchQuery { search: None }), "");
    assert_eq!(like_pattern("a"), "%a%");
}

#[test]
fn terms_for_users() {
    let t = search_user_terms(" @@anna@EX.org ", "ex.org");
    assert_eq!((t.plain.as_str(), t.handle.as_str()), ("anna", "anna@EX.org"));
    let t = search_user_terms("anna@far.org", "ex.org");
    assert_eq!((t.plain.as_str(), t.handle.as_str()), (NO_LOCAL_USER, "anna@far.org"));
    let t = search_user_terms("anna", "ex.org");
    assert_eq!((t.plain.as_str(), t.handle.as_str()), ("anna", "anna"));
}

#[test]
fn found_users_are_distinct() {
    let local = || vec![found("@a@ex.org", false), found("@b@ex.org", false)];
    let known = || vec![found("@A@EX.org", true), found("@c@far.org", true)];
    let handles = |users: Vec<SearchUserView>| -> Vec<String> {
        users.into_iter().map(|u| u.handle).collect()
    };
    assert_eq!(
        handles(merge_search_users(local(), known(), Some(found("@d@far.org", true)))),
        vec!["@d@far.org", "@a@ex.org", "@b@ex.org", "@c@far.org"]
    );
    assert_eq!(
        handles(merge_search_users(local(), known(), Some(found("@C@far.org", true)))),
        vec!["@a@ex.org", "@b@ex.org", "@c@far.org"]
    );
    assert_eq!(
        handles(merge_search_users(local(), Vec::new(), None)),
        vec!["@a@ex.org", "@b@ex.org"]
    );
}

#[test]
fn found_users_and_posts() {
    assert_eq!(local_user_handle("anna", "ex.org"), "@anna@ex.org");
    let u = local_search_user(
        SearchUserRow {
            username: "anna".to_string(),
            preferred_username: "Anna".to_string(),
            profile_photo_url: "/p".to_string(),
            profile_photo_style: "s".to_string(),
        },
        "ex.org",
    );
    assert_eq!(u.handle, "@anna@ex.org");
    assert_eq!(u.profile_url, "/user/anna@ex.org");
    assert_eq!(u.preferred_username, "Anna");
    assert!(!u.is_remote);
    let p = local_search_post(post("text", "", ""), "ex.org");
    assert_eq!(p.body_preview, "text");
    assert_eq!(p.post_url, "/posts/17");
    assert_eq!(p.author_handle, "@anna@ex.org");
    assert_eq!(p.author_profile_url, "/user/anna@ex.org");
}

#[test]
fn the_search_page() {
    let header = || PageHeader {
        id: 1,
        user_id: 9,
        is_moderator: false,
        local_profile_domain: "ex.org".to_string(),
        username: "anna".to_string(),
        profile_photo_url: "/h".to_string(),
        profile_photo_style: String::new(),
        unread_notifications_count: 0,
        notifications: Vec::new(),
    };
    let posts = || vec![local_search_post(post("t", "", ""), "ex.org")];
    let page =
        search_page(header(), "x".to_string(), vec![found("@a@b", false)], posts(), posts());
    assert!(page.searched);
    assert_eq!((page.users.len(), page.posts.len()), (1, 2));
    let page = search_page(header(), String::new(), vec![found("@a@b", false)], posts(), posts());
    assert!(!page.searched);
    assert_eq!((page.users.len(), page.posts.len()), (0, 0));
}
