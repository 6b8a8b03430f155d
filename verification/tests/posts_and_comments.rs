use instavox::comments::{thread_post_comments, PostCommentView};
use instavox::page::PageHeader;
use instavox::post_actions::{
    after_removal, check_comment_deletion, check_ownership, check_post_action,
    comment_deleted_notice, comment_like_notice, comment_response, like_needs_notice,
    plan_comment_notices, prepare_comment, prepare_comment_edit, prepare_post_edit, read_comment,
    read_post_edit, requested_reply, resolve_reply, stored_reply, toggle_post_dislike,
    toggle_post_like, AddPostCommentForm, EditPostCommentForm, EditPostForm, PostAction,
    PostCommentOwnerRow, PostCommentPermissionRow, PostCommentPostRow, PostState, ReplyTarget,
    ToggleStep,
};
use instavox::posts::{
    build_feed_post_views, build_post_preview, check_post_text, comments_for_post, detected_link,
    empty_index_post_view, feed_cursor, feed_page, group_images, index_interactions, index_page,
    normalize_feed_limit, post_page, too_many_images, trim_feed_rows, truncate_preview, DraftField,
    DraftReader, FeedCursor, FeedPostImageRow, FeedPostRow, PostCommentRow, PostInteractionRow,
    SavedPostImage,
};
use instavox::web::{Reply, Step, BAD_REQUEST, CONFLICT, FORBIDDEN, INTERNAL_SERVER_ERROR};

fn header(user_id: i32) -> PageHeader {
    PageHeader {
        id: 1,
        user_id,
        is_moderator: false,
        local_profile_domain: "ex.org".to_string(),
        username: "anna".to_string(),
        profile_photo_url: "/h".to_string(),
        profile_photo_style: String::new(),
        unread_notifications_count: 0,
        notifications: Vec::new(),
    }
}

fn comment(id: i64, answers: Option<i64>) -> PostCommentView {
    PostCommentView {
        comment_id: id,
        commenter_public_id: 0,
        commenter_username: String::new(),
        commenter_profile_photo_url: String::new(),
        commenter_profile_photo_style: String::new(),
        body: format!("c{}", id),
        created_at: String::new(),
        likes_count: 0,
        liked_by_current_user: false,
        reply_parent_comment_id: answers.unwrap_or(0),
        reply_to_comment_id: answers,
        reply_to_body_preview: String::new(),
        reply_to_username: String::new(),
        thread_depth: 0,
        thread_root_comment_id: id,
    }
}

fn placed(comments: Vec<PostCommentView>) -> Vec<(i64, i64, i64)> {
    thread_post_comments(comments)
        .iter()
        .map(|c| (c.comment_id, c.thread_depth, c.thread_root_comment_id))
        .collect()
}

fn row(id: i64) -> FeedPostRow {
    FeedPostRow {
        post_id: id,
        author_public_id: 5,
        author_username: "anna".to_string(),
        author_profile_photo_url: "/p".to_string(),
        author_profile_photo_style: String::new(),
        body: "b".to_string(),
        link_url: String::new(),
        visibility: "friends".to_string(),
        community_name: String::new(),
        community_slug: String::new(),
        created_at: "t".to_string(),
    }
}

fn comment_row(post_id: i64, id: i64, answers: Option<i64>) -> PostCommentRow {
    PostCommentRow {
        post_id,
        comment_id: id,
        commenter_public_id: 0,
        commenter_username: String::new(),
        commenter_profile_photo_url: String::new(),
        commenter_profile_photo_style: String::new(),
        body: String::new(),
        created_at: String::new(),
        likes_count: 0,
        liked_by_current_user: false,
        reply_parent_comment_id: 0,
        reply_to_comment_id: answers,
        reply_to_body_preview: format!(" {} ", "x".repeat(130)),
        reply_to_username: String::new(),
    }
}

fn text(r: &Reply) -> (u16, String) {
    match r {
        Reply::Text(s, t) => (*s, t.clone()),
        _ => panic!("no text"),
    }
}

fn path(r: &Reply) -> String {
    match r {
        Reply::Redirect(p) => p.clone(),
        _ => panic!("no redirect"),
    }
}

const OPEN: PostState = PostState { exists: true, is_soft_deleted: false, can_view: true };

fn form(body: &str, reply: Option<i64>) -> AddPostCommentForm {
    AddPostCommentForm { body: body.to_string(), reply_to_comment_id: reply }
}

#[test]
fn answers_follow_their_comments() {
    assert_eq!(
        placed(vec![
            comment(1, None),
            comment(2, None),
            comment(3, Some(1)),
            comment(4, Some(3)),
            comment(5, Some(1)),
            comment(6, Some(99)),
        ]),
        vec![(1, 0, 1), (3, 1, 1), (4, 2, 1), (5, 1, 1), (2, 0, 2), (6, 0, 6)]
    );
    assert_eq!(placed(Vec::new()), Vec::new());
}

#[test]
fn circular_answers_are_kept() {
    assert_eq!(
        placed(vec![comment(1, Some(2)), comment(2, Some(1)), comment(3, Some(3))]),
        vec![(3, 0, 3), (1, 0, 1), (2, 1, 1)]
    );
}

#[test]
fn repeated_comments_are_shown_once() {
    let mut late = comment(1, None);
    late.body = "late".to_string();
    let out = thread_post_comments(vec![comment(1, None), late]);
    assert_eq!(out.len(), 1);
    assert_eq!(out[0].body, "late");
}

#[test]
fn previews() {
    assert_eq!(truncate_preview("abc", 3), "abc");
    assert_eq!(truncate_preview("abcd", 3), "abc...");
    assert_eq!(build_post_preview(" b ", "l", "i", 9), "b");
    assert_eq!(build_post_preview("  ", " l ", "i", 9), "l");
    assert_eq!(build_post_preview("", "", " i ", 9), "i");
    assert_eq!(build_post_preview("", "", " ", 9), "");
}

#[test]
fn drafts() {
    let image = || SavedPostImage { image_url: "/i".to_string(), mime_type: "m".to_string() };
    let mut d = DraftReader::new(None);
    assert!(matches!(d.field("text"), DraftField::Text));
    assert!(matches!(d.field("visibility"), DraftField::Visibility));
    assert!(matches!(d.field("images"), DraftField::Image));
    assert!(matches!(d.field("x"), DraftField::Skip));
    d.set_text("  hi  ".to_string());
    d.set_visibility(" FRIENDS ");
    for _ in 0..8 {
        d.add_image(image());
    }
    assert!(matches!(d.field("images"), DraftField::TooManyImages));
    let draft = d.finish().ok().unwrap();
    assert_eq!(draft.text, "hi");
    assert_eq!(draft.visibility, "friends");
    assert_eq!(draft.saved_images.len(), 8);

    let forced = DraftReader::new(Some("private"));
    assert!(matches!(forced.field("visibility"), DraftField::Skip));
    match forced.finish() {
        Err((status, m)) => {
            assert_eq!(status, BAD_REQUEST);
            assert_eq!(m, "A post requires text or at least one image");
        }
        Ok(_) => panic!(),
    }
    let mut long = DraftReader::new(None);
    long.set_text("x".repeat(10_001));
    match long.finish() {
        Err((_, m)) => assert_eq!(m, "Post text must be at most 10000 characters"),
        Ok(_) => panic!(),
    }
    assert_eq!(
        too_many_images(),
        (BAD_REQUEST, "You can upload up to 8 images per post".to_string())
    );
    assert!(check_post_text("", true).is_ok());
    assert!(check_post_text("", false).is_err());
    assert!(check_post_text(&"ü".repeat(5_000), false).is_ok());
    assert!(check_post_text(&"ü".repeat(5_001), false).is_err());
    assert_eq!(detected_link("see https://ex.org/a."), "https://ex.org/a");
    assert_eq!(detected_link("nothing"), "");
}

#[test]
fn pages_of_the_feed() {
    assert_eq!(normalize_feed_limit(None), 20);
    assert_eq!(normalize_feed_limit(Some(0)), 1);
    assert_eq!(normalize_feed_limit(Some(99)), 50);
    assert_eq!(normalize_feed_limit(Some(7)), 7);
    assert!(matches!(feed_cursor(Some(3), Some(4)), FeedCursor::After(4)));
    assert!(matches!(feed_cursor(Some(3), Some(0)), FeedCursor::Before(3)));
    assert!(matches!(feed_cursor(Some(-3), None), FeedCursor::Newest));
    let (rows, more) = trim_feed_rows(vec![row(3), row(2), row(1)], 2);
    assert!(more);
    assert_eq!(rows.iter().map(|r| r.post_id).collect::<Vec<i64>>(), vec![3, 2]);
    let (rows, more) = trim_feed_rows(vec![row(3), row(2)], 2);
    assert!(!more && rows.len() == 2);
    let page = feed_page(vec![empty_index_post_view(5), empty_index_post_view(9)], true);
    assert_eq!((page.next_before_post_id, page.next_after_post_id), (Some(5), Some(9)));
    assert!(page.has_more);
    let page = feed_page(Vec::new(), false);
    assert_eq!((page.next_before_post_id, page.next_after_post_id), (None, None));
}

#[test]
fn views_of_posts() {
    let mut linked = row(1);
    linked.link_url = " https://ex.org/pic.png ".to_string();
    let mut owned = row(2);
    owned.community_name = " Rust ".to_string();
    owned.community_slug = "rust".to_string();
    let images = vec![
        FeedPostImageRow { post_id: 2, image_url: "/a".to_string() },
        FeedPostImageRow { post_id: 1, image_url: "/b".to_string() },
        FeedPostImageRow { post_id: 2, image_url: "/c".to_string() },
    ];
    let interactions = vec![PostInteractionRow {
        post_id: 1,
        likes_count: 2,
        dislikes_count: 3,
        comments_count: 4,
        shares_count: 5,
        liked_by_current_user: true,
        disliked_by_current_user: false,
        shared_by_current_user: true,
    }];
    let comments = vec![comment_row(1, 10, None), comment_row(2, 11, None), comment_row(1, 12, Some(10))];
    let views = build_feed_post_views(&vec![linked, owned], &images, &interactions, &comments);
    assert_eq!(views.len(), 2);
    let v = &views[0];
    assert_eq!(v.link_url, "https://ex.org/pic.png");
    assert!(v.has_link_preview);
    assert_eq!(v.link_title, "ex.org");
    assert_eq!(v.link_description, "pic.png");
    assert_eq!(v.link_image_url, "https://ex.org/pic.png");
    assert_eq!(v.visibility_label, "Friends");
    assert_eq!((v.likes_count, v.dislikes_count, v.comments_count, v.shares_count), (2, 3, 4, 5));
    assert!(v.liked_by_current_user && v.shared_by_current_user);
    assert_eq!(v.image_urls, vec!["/b"]);
    assert_eq!(
        v.comments.iter().map(|c| (c.comment_id, c.thread_depth)).collect::<Vec<(i64, i64)>>(),
        vec![(10, 0), (12, 1)]
    );
    assert_eq!(v.comments[0].reply_to_body_preview.len(), 123);
    let w = &views[1];
    assert!(!w.has_link_preview && w.link_title.is_empty());
    assert_eq!(w.visibility_label, "Rust");
    assert_eq!(w.image_urls, vec!["/a", "/c"]);
    assert_eq!((w.likes_count, w.liked_by_current_user), (0, false));

    assert_eq!(group_images(&images).get(&2).unwrap().len(), 2);
    assert_eq!(index_interactions(&interactions).len(), 1);
    assert_eq!(comments_for_post(&comments, 2).len(), 1);
}

#[test]
fn pages_of_posts() {
    let p = post_page(header(4), 7, Some(empty_index_post_view(7)));
    assert!(p.post_found);
    assert_eq!(p.title, "Post 7 - Instavox");
    let p = post_page(header(4), 7, None);
    assert!(!p.post_found && p.post.post_id == 7);
    assert_eq!(p.title, "Post not found - Instavox");
    assert_eq!(p.post.visibility_label, "Public");
    assert!(index_page(header(4), Vec::new()).can_create_post);
    assert!(!index_page(header(0), Vec::new()).can_create_post);
    assert_eq!(index_page(header(0), Vec::new()).title, "Feeds");
}

#[test]
fn deleted_and_hidden_posts() {
    let gone = PostState { exists: false, ..OPEN };
    let deleted = PostState { is_soft_deleted: true, ..OPEN };
    let hidden = PostState { can_view: false, ..OPEN };
    for action in [
        PostAction::Like,
        PostAction::Dislike,
        PostAction::Share,
        PostAction::Comment,
        PostAction::LikeComment,
        PostAction::EditComment,
    ] {
        assert!(check_post_action(action, OPEN, true, "/b").is_none());
        assert_eq!(path(&check_post_action(action, gone, true, "/b").unwrap()), "/b");
        assert_eq!(text(&check_post_action(action, deleted, true, "/b").unwrap()).0, CONFLICT);
        assert_eq!(path(&check_post_action(action, deleted, false, "/b").unwrap()), "/b");
        assert_eq!(text(&check_post_action(action, hidden, true, "/b").unwrap()).0, FORBIDDEN);
        assert_eq!(path(&check_post_action(action, hidden, false, "/b").unwrap()), "/b");
    }
    assert_eq!(
        text(&check_post_action(PostAction::EditComment, deleted, true, "/b").unwrap()).1,
        "This post was deleted by a moderator and comments can no longer be edited."
    );
    assert_eq!(
        text(&check_post_action(PostAction::EditComment, hidden, true, "/b").unwrap()).1,
        "You cannot edit comments on this post."
    );
}

#[test]
fn reactions_exclude_each_other() {
    let like = toggle_post_like(false);
    assert!(like.delete_dislike && like.insert_like && !like.insert_dislike);
    let unlike = toggle_post_like(true);
    assert!(unlike.delete_like && !unlike.insert_like && !unlike.insert_dislike);
    let dislike = toggle_post_dislike(false);
    assert!(dislike.delete_like && dislike.insert_dislike && !dislike.insert_like);
    let undo = toggle_post_dislike(true);
    assert!(undo.delete_dislike && !undo.insert_dislike && !undo.insert_like);
    assert!(matches!(after_removal(Some(0)), ToggleStep::Insert));
    assert!(matches!(after_removal(Some(1)), ToggleStep::Done));
    assert!(matches!(after_removal(None), ToggleStep::Done));
}

#[test]
fn notices_of_likes() {
    let c = PostCommentPostRow { post_id: 8, comment_owner_user_id: 3 };
    assert!(like_needs_notice(Some(1), 3, 4));
    assert!(!like_needs_notice(Some(0), 3, 4));
    assert!(!like_needs_notice(None, 3, 4));
    assert!(!like_needs_notice(Some(1), 3, 3));
    let n = comment_like_notice(Some(1), &c, 20, 4, Some(5)).unwrap();
    assert_eq!(n.recipient_user_id, 3);
    assert_eq!(n.body, "5 people liked your comment");
    assert_eq!(n.link_url, "/posts/8#comment-20");
    let n = comment_like_notice(Some(1), &c, 20, 4, None).unwrap();
    assert_eq!(n.body, "Someone liked your comment");
    assert!(comment_like_notice(Some(1), &c, 20, 3, Some(5)).is_none());
}

#[test]
fn comments_are_read() {
    match read_comment("  ") {
        Step::Answer(r) => assert_eq!(text(&r).1, "Comment cannot be empty"),
        _ => panic!(),
    }
    match read_comment(&"x".repeat(1_001)) {
        Step::Answer(r) => {
            assert_eq!(text(&r).1, "Comment must be at most 1000 characters")
        }
        _ => panic!(),
    }
    match read_comment(" hi ") {
        Step::Proceed(c) => assert_eq!(c, "hi"),
        _ => panic!(),
    }
    assert_eq!(requested_reply(&form("", Some(0))), None);
    assert_eq!(requested_reply(&form("", Some(4))), Some(4));
}

#[test]
fn answers_quote_the_comment() {
    let target = || ReplyTarget {
        user_id: 6,
        username: "bob".to_string(),
        body: format!(" {} ", "y".repeat(130)),
    };
    match resolve_reply(None, None, true, "/b") {
        Step::Proceed(c) => {
            assert_eq!((c.reply_to_comment_id, c.reply_parent_comment_id), (None, 0))
        }
        _ => panic!(),
    }
    match resolve_reply(Some(4), Some(target()), true, "/b") {
        Step::Proceed(c) => {
            assert_eq!((c.reply_to_comment_id, c.reply_parent_comment_id), (Some(4), 4));
            assert_eq!(c.reply_to_username, "bob");
            assert_eq!(c.reply_to_body_preview, format!("{}...", "y".repeat(120)));
            assert_eq!(c.reply_target_user_id, Some(6));
        }
        _ => panic!(),
    }
    match resolve_reply(Some(4), None, true, "/b") {
        Step::Answer(r) => assert_eq!(text(&r).0, BAD_REQUEST),
        _ => panic!(),
    }
    match resolve_reply(Some(4), None, false, "/b") {
        Step::Answer(r) => assert_eq!(path(&r), "/b"),
        _ => panic!(),
    }
    match prepare_comment(Some(1), &form(" hi ", Some(4)), OPEN, Some(target()), true, "/b") {
        Step::Proceed(p) => {
            assert_eq!((p.user_id, p.comment.as_str()), (1, "hi"));
            let r = comment_response(50, "now".to_string(), p.context);
            assert_eq!((r.comment_id, r.reply_to_comment_id), (50, Some(4)));
            assert_eq!(r.created_at, "now");
        }
        _ => panic!(),
    }
    match prepare_comment(None, &form("hi", None), OPEN, None, false, "/b") {
        Step::Answer(r) => assert_eq!(path(&r), "/login"),
        _ => panic!(),
    }
}

#[test]
fn notices_of_comments() {
    let owner_and_target = plan_comment_notices(1, 8, 20, Some(2), Some(3), Some("anna"), " hi ");
    assert_eq!(
        owner_and_target.iter().map(|n| n.recipient_user_id).collect::<Vec<i32>>(),
        vec![2, 3]
    );
    assert!(owner_and_target[0].body.starts_with("@anna "));
    assert!(owner_and_target[0].body.ends_with(": \"hi\""));
    assert!(owner_and_target[1].link_url.starts_with("/posts/8"));
    let both = plan_comment_notices(1, 8, 20, Some(2), Some(2), None, "");
    assert_eq!(both.len(), 1);
    assert_eq!(both[0].recipient_user_id, 2);
    assert!(both[0].body.starts_with("@someone "));
    assert!(plan_comment_notices(1, 8, 20, Some(1), Some(1), None, "x").is_empty());
    assert!(plan_comment_notices(1, 8, 20, None, None, None, "x").is_empty());
}

#[test]
fn edits_of_posts() {
    let edit = |t: &str, v: Option<&str>| EditPostForm {
        text: t.to_string(),
        visibility: v.map(str::to_string),
    };
    assert!(check_ownership(Some(1), 1, "/b").is_none());
    assert!(matches!(check_ownership(Some(2), 1, "/b"), Some(Reply::Status(FORBIDDEN))));
    assert_eq!(path(&check_ownership(None, 1, "/b").unwrap()), "/b");
    match read_post_edit(&edit(" see https://ex.org ", Some("private")), false) {
        Step::Proceed(e) => {
            assert_eq!(e.body, "see https://ex.org");
            assert_eq!(e.link_url, "https://ex.org");
            assert_eq!(e.visibility, "private");
        }
        _ => panic!(),
    }
    match read_post_edit(&edit("", None), true) {
        Step::Proceed(e) => assert_eq!(e.visibility, "public"),
        _ => panic!(),
    }
    match read_post_edit(&edit(" ", None), false) {
        Step::Answer(r) => assert_eq!(text(&r).0, BAD_REQUEST),
        _ => panic!(),
    }
    match prepare_post_edit(None, Some(1), &edit("x", None), false, "/b") {
        Step::Answer(r) => assert_eq!(path(&r), "/login"),
        _ => panic!(),
    }
    match prepare_post_edit(Some(2), Some(1), &edit("x", None), false, "/b") {
        Step::Answer(Reply::Status(FORBIDDEN)) => {}
        _ => panic!(),
    }
    assert!(matches!(
        prepare_post_edit(Some(1), Some(1), &edit("x", None), false, "/b"),
        Step::Proceed(_)
    ));
}

#[test]
fn edits_and_deletions_of_comments() {
    let owner = PostCommentOwnerRow { post_id: 8, user_id: 3 };
    let f = EditPostCommentForm { body: " new ".to_string() };
    match prepare_comment_edit(Some(3), Some(&owner), &f, OPEN, true, "/b") {
        Step::Proceed(c) => assert_eq!(c, "new"),
        _ => panic!(),
    }
    assert!(matches!(
        prepare_comment_edit(Some(4), Some(&owner), &f, OPEN, true, "/b"),
        Step::Answer(Reply::Status(FORBIDDEN))
    ));
    match prepare_comment_edit(Some(3), None, &f, OPEN, true, "/b") {
        Step::Answer(r) => assert_eq!(path(&r), "/b"),
        _ => panic!(),
    }
    match prepare_comment_edit(None, Some(&owner), &f, OPEN, true, "/b") {
        Step::Answer(r) => assert_eq!(path(&r), "/login"),
        _ => panic!(),
    }
    assert_eq!(path(&stored_reply(true, "no", "/b")), "/b");
    assert_eq!(text(&stored_reply(false, "no", "/b")), (INTERNAL_SERVER_ERROR, "no".to_string()));

    let p = PostCommentPermissionRow { post_id: 8, comment_owner_user_id: 3, post_owner_user_id: 2 };
    assert!(matches!(check_comment_deletion(3, Some(&p), "/b"), Step::Proceed(false)));
    assert!(matches!(check_comment_deletion(2, Some(&p), "/b"), Step::Proceed(true)));
    assert!(matches!(
        check_comment_deletion(9, Some(&p), "/b"),
        Step::Answer(Reply::Status(FORBIDDEN))
    ));
    match check_comment_deletion(9, None, "/b") {
        Step::Answer(r) => assert_eq!(path(&r), "/b"),
        _ => panic!(),
    }
    let n = comment_deleted_notice(&p, Some("bob"));
    assert_eq!(n.recipient_user_id, 3);
    assert_eq!(n.kind, "comment_deleted_by_post_owner");
    assert_eq!(n.body, "@bob deleted your comment on their post");
    assert_eq!(n.link_url, "/posts/8");
    assert_eq!(
        comment_deleted_notice(&p, None).body,
        "@post-owner deleted your comment on their post"
    );
}
