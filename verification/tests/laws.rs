use std::collections::BTreeSet;

use instavox::comments::{thread_post_comments, PostCommentView};
use instavox::federation::address::webfinger_document;
use instavox::links::score_image_candidate;
use instavox::markup::{decode_html_entities, escape_html_text, strip_html_tags};
use instavox::messenger::{
    addition_changes_group, first_member_obstacle, member_added_reply, MemberFacts,
};
use instavox::page::PageHeader;
use instavox::post_actions::{after_removal, ToggleStep};
use instavox::posts::post_page;
use instavox::uploads::sanitize_post_filename;
use instavox::web::{readiness, Reply, BAD_REQUEST, OK};

fn comment(id: i64, answers: Option<i64>) -> PostCommentView {
    PostCommentView {
        comment_id: id,
        commenter_public_id: 0,
        commenter_username: String::new(),
        commenter_profile_photo_url: String::new(),
        commenter_profile_photo_style: String::new(),
        body: String::new(),
        created_at: String::new(),
        likes_count: 0,
        liked_by_current_user: false,
        reply_parent_comment_id: 0,
        reply_to_comment_id: answers,
        reply_to_body_preview: String::new(),
        reply_to_username: String::new(),
        thread_depth: 7,
        thread_root_comment_id: 7,
    }
}

fn places(comments: &[PostCommentView]) -> Vec<(i64, i64, i64)> {
    comments
        .iter()
        .map(|c| (c.comment_id, c.thread_depth, c.thread_root_comment_id))
        .collect()
}

#[test]
fn threading_twice_is_threading_once() {
    let lists = [
        vec![(5, Some(2)), (1, None), (2, Some(1)), (3, None), (4, Some(1)), (6, Some(9))],
        vec![(3, Some(1)), (1, Some(2)), (2, Some(1)), (4, Some(3))],
        vec![(1, Some(1)), (2, Some(1))],
        vec![],
    ];
    let expected = [
        vec![(1, 0, 1), (2, 1, 1), (5, 2, 1), (4, 1, 1), (3, 0, 3), (6, 0, 6)],
        vec![(3, 0, 3), (4, 1, 3), (1, 0, 1), (2, 1, 1)],
        vec![(1, 0, 1), (2, 1, 1)],
        vec![],
    ];
    for (list, expected) in lists.iter().zip(expected.iter()) {
        let once =
            thread_post_comments(list.iter().map(|(id, to)| comment(*id, *to)).collect());
        assert_eq!(&places(&once), expected);
        assert_eq!(&places(&thread_post_comments(once)), expected);
    }
}

#[test]
fn decoding_undoes_escaping() {
    let text = "<a href=\"x\">it's 1 > 0</a> quot; #39; lt;gt;amp;";
    let escaped = escape_html_text(text);
    assert!(escaped.starts_with("&lt;a href=&quot;x&quot;&gt;it&#39;s 1 &gt; 0"));
    assert_eq!(decode_html_entities(&escaped), text);
    assert_eq!(decode_html_entities(&escape_html_text("&lt;")), "<");
}

#[test]
fn stripped_text_stays() {
    let once = strip_html_tags("  <p>one\t two</p>three <b> four\n");
    assert_eq!(once, "one two three four");
    assert_eq!(strip_html_tags(&once), once);
}

#[test]
fn scores_add_the_bias_and_ignore_case() {
    let tag = "<img class=\"Hero\" width=\"800PX\" HEIGHT=600 style=\"Display:None\">";
    let url = "https://ex.org/a.png";
    let score = score_image_candidate(tag, url, 0);
    assert_eq!(score, 10 + 18 + 12 - 25);
    assert_eq!(score_image_candidate(tag, url, 120), 120 + score);
    assert_eq!(score_image_candidate(&tag.to_ascii_lowercase(), url, 0), score);
    assert_eq!(score_image_candidate(&tag.to_ascii_uppercase(), url, 0), score);
}

#[test]
fn likes_of_comments_toggle() {
    let toggle = |likers: &mut BTreeSet<i32>, user: i32| {
        let removed = if likers.remove(&user) { 1 } else { 0 };
        if let ToggleStep::Insert = after_removal(Some(removed)) {
            likers.insert(user);
        }
    };
    let start: BTreeSet<i32> = [3, 8].into_iter().collect();
    for user in [3, 4] {
        let mut likers = start.clone();
        toggle(&mut likers, user);
        assert_eq!(likers.contains(&user), !start.contains(&user));
        assert!(likers.contains(&8));
        toggle(&mut likers, user);
        assert_eq!(likers, start);
    }
}

#[test]
fn members_are_added_once() {
    let mut members: BTreeSet<i32> = [1].into_iter().collect();
    let mut texts = Vec::new();
    let mut changes = Vec::new();
    for _ in 0..2 {
        let added = if members.insert(5) { 1 } else { 0 };
        changes.push(addition_changes_group(added));
        match member_added_reply(added) {
            Reply::Text(code, text) => {
                assert_eq!(code, OK);
                texts.push(text);
            }
            _ => panic!(),
        }
    }
    assert_eq!(texts, ["User added to group", "User is already in this group"]);
    assert_eq!(changes, [true, false]);
}

#[test]
fn the_smallest_obstacle_is_told() {
    let facts = |member_id: i32, user_exists: bool, is_friend: bool| MemberFacts {
        member_id,
        user_exists,
        is_friend,
    };
    assert!(first_member_obstacle(&vec![]).is_none());
    assert!(first_member_obstacle(&vec![facts(2, true, true)]).is_none());
    let told = |members: Vec<MemberFacts>| match first_member_obstacle(&members) {
        Some(Reply::Text(code, text)) => (code, text),
        _ => panic!(),
    };
    assert_eq!(
        told(vec![facts(2, true, true), facts(3, true, false), facts(4, false, false)]),
        (BAD_REQUEST, "User 3 is not your friend".to_string())
    );
    assert_eq!(
        told(vec![facts(4, false, false), facts(5, true, false)]),
        (BAD_REQUEST, "User 4 does not exist".to_string())
    );
}

#[test]
fn sanitized_names_are_never_empty() {
    for name in ["", "___", "/", "\u{e9}", "a/b"] {
        assert!(!sanitize_post_filename(name).is_empty());
    }
    assert_eq!(sanitize_post_filename("/"), "image");
}

#[test]
fn missing_posts_show_the_empty_view() {
    let header = PageHeader {
        id: 1,
        user_id: 2,
        is_moderator: false,
        local_profile_domain: "ex.org".to_string(),
        username: "anna".to_string(),
        profile_photo_url: "/h".to_string(),
        profile_photo_style: String::new(),
        unread_notifications_count: 0,
        notifications: Vec::new(),
    };
    let page = post_page(header, 9, None);
    assert!(!page.post_found);
    assert_eq!(page.title, "Post not found - Instavox");
    assert_eq!(page.post.post_id, 9);
    assert_eq!(page.post.author_profile_photo_url, "/public/avatar.webp");
    assert_eq!((page.post.visibility.as_str(), page.post.likes_count), ("public", 0));
    assert!(page.post.comments.is_empty() && page.post.image_urls.is_empty());
}

#[test]
fn readiness_follows_the_database() {
    assert_eq!(readiness(true), (200, "ready"));
    assert_eq!(readiness(false), (503, "unavailable"));
}

#[test]
fn webfinger_documents() {
    let (subject, address) =
        webfinger_document("anna", "ex.org", "https://EX.org/ap/users/anna").ok().unwrap();
    assert_eq!(subject, "acct:anna@ex.org");
    assert_eq!(address.href, "https://ex.org/ap/users/anna");
    match webfinger_document("anna", "ex.org", "nowhere") {
        Err(e) => assert_eq!(e, "relative URL without a base"),
        Ok(_) => panic!(),
    }
}
