//! What users do with posts and comments: reactions, comments, edits and deletions.

use vstd::prelude::*;
use vstd::string::*;

use crate::links::first_link;
use crate::notifications::{notices_view, opt_notice, positive_id, Notice, NoticeView};
use crate::number::{decimal, push_decimal};
use crate::posts::{
    check_post_text, cut_preview, detected_link, draft_error, truncate_preview,
    MAX_POST_COMMENT_LENGTH,
};
use crate::text::{byte_len, byte_len_of, opt_str, opt_view, trim, trim_text, words};
use crate::visibility::{normalize_post_visibility, normalized_visibility};
use crate::web::{
    answers, redirect, text_reply, Reply, ReplyView, Step, BAD_REQUEST, CONFLICT, FORBIDDEN,
    INTERNAL_SERVER_ERROR,
};

verus! {

pub struct PostOwnerRow {
    pub user_id: i32,
}

pub struct PostCommentOwnerRow {
    pub post_id: i64,
    pub user_id: i32,
}

pub struct PostCommentPostRow {
    pub post_id: i64,
    pub comment_owner_user_id: i32,
}

pub struct PostCommentPermissionRow {
    pub post_id: i64,
    pub comment_owner_user_id: i32,
    pub post_owner_user_id: i32,
}

pub struct EditPostForm {
    pub text: String,
    pub visibility: Option<String>,
}

pub struct EditPostCommentForm {
    pub body: String,
}

pub struct AddPostCommentForm {
    pub body: String,
    pub reply_to_comment_id: Option<i64>,
}

pub struct AddPostCommentResponse {
    pub comment_id: i64,
    pub created_at: String,
    pub reply_parent_comment_id: i64,
    pub reply_to_comment_id: Option<i64>,
    pub reply_to_body_preview: String,
    pub reply_to_username: String,
}

pub struct LinkImageQuery {
    pub url: String,
}

pub struct LinkImageResponse {
    pub image_url: String,
}

// ---------------------------------------------------------------------------
// May a user act on a post?
// ---------------------------------------------------------------------------
/// What a user wants to do with a post.
#[derive(Clone, Copy, PartialEq, Eq, Structural)]
pub enum PostAction {
    Like,
    Dislike,
    Share,
    Comment,
    LikeComment,
    EditComment,
}

/// What is known of the post that a user wants to act on.
#[derive(Clone, Copy)]
pub struct PostState {
    pub exists: bool,
    pub is_soft_deleted: bool,
    pub can_view: bool,
}

/// What a script is told of a post that a moderator has deleted.
pub open spec fn deleted_message(action: PostAction) -> Seq<char> {
    match action {
        PostAction::Like | PostAction::LikeComment => {
            "This post was deleted by a moderator and can no longer receive likes."@
        },
        PostAction::Dislike => {
            "This post was deleted by a moderator and can no longer receive dislikes."@
        },
        PostAction::Share => {
            "This post was deleted by a moderator and can no longer be shared."@
        },
        PostAction::Comment => {
            "This post was deleted by a moderator and can no longer receive comments."@
        },
        PostAction::EditComment => {
            "This post was deleted by a moderator and comments can no longer be edited."@
        },
    }
}

/// What a script is told of a post that its user may not see.
pub open spec fn hidden_message(action: PostAction) -> Seq<char> {
    match action {
        PostAction::LikeComment => "You cannot interact with comments on this post."@,
        PostAction::EditComment => "You cannot edit comments on this post."@,
        _ => "You cannot interact with this post."@,
    }
}

/// Why a user may not act on a post: the answer, or nothing where they may.
pub open spec fn gate(
    action: PostAction,
    state: PostState,
    fetch_request: bool,
    back: Seq<char>,
) -> Option<ReplyView> {
    if !state.exists {
        Some(ReplyView::Redirect(back))
    } else if state.is_soft_deleted {
        Some(
            if fetch_request {
                ReplyView::Text(CONFLICT, deleted_message(action))
            } else {
                ReplyView::Redirect(back)
            },
        )
    } else if !state.can_view {
        Some(
            if fetch_request {
                ReplyView::Text(FORBIDDEN, hidden_message(action))
            } else {
                ReplyView::Redirect(back)
            },
        )
    } else {
        None
    }
}

fn deleted_text(action: PostAction) -> (r: &'static str)
    ensures
        r@ == deleted_message(action),
{
    match action {
        PostAction::Like => {
            "This post was deleted by a moderator and can no longer receive likes."
        },
        PostAction::LikeComment => {
            "This post was deleted by a moderator and can no longer receive likes."
        },
        PostAction::Dislike => {
            "This post was deleted by a moderator and can no longer receive dislikes."
        },
        PostAction::Share => "This post was deleted by a moderator and can no longer be shared.",
        PostAction::Comment => {
            "This post was deleted by a moderator and can no longer receive comments."
        },
        PostAction::EditComment => {
            "This post was deleted by a moderator and comments can no longer be edited."
        },
    }
}

fn hidden_text(action: PostAction) -> (r: &'static str)
    ensures
        r@ == hidden_message(action),
{
    match action {
        PostAction::LikeComment => "You cannot interact with comments on this post.",
        PostAction::EditComment => "You cannot edit comments on this post.",
        PostAction::Like => "You cannot interact with this post.",
        PostAction::Dislike => "You cannot interact with this post.",
        PostAction::Share => "You cannot interact with this post.",
        PostAction::Comment => "You cannot interact with this post.",
    }
}

/// Decides whether a user may act on a post.
pub fn check_post_action(
    action: PostAction,
    state: PostState,
    fetch_request: bool,
    back: &str,
) -> (r: Option<Reply>)
    ensures
        r is Some == gate(action, state, fetch_request, back@) is Some,
        r matches Some(reply) ==> gate(action, state, fetch_request, back@) == Some(reply@),
{
    if !state.exists {
        return Some(redirect(back));
    }
    if state.is_soft_deleted {
        if fetch_request {
            return Some(text_reply(CONFLICT, deleted_text(action)));
        }
        return Some(redirect(back));
    }
    if !state.can_view {
        if fetch_request {
            return Some(text_reply(FORBIDDEN, hidden_text(action)));
        }
        return Some(redirect(back));
    }
    None
}

/// A user may act on a post exactly when it is there, no moderator has deleted it, and they may see
/// it.
pub proof fn law_gate(action: PostAction, state: PostState, fetch_request: bool, back: Seq<char>)
    ensures
        gate(action, state, fetch_request, back) is None == (state.exists
            && !state.is_soft_deleted && state.can_view),
{
}

// ---------------------------------------------------------------------------
// Likes and dislikes
// ---------------------------------------------------------------------------
/// Whether a user likes and whether they dislike a post.
#[derive(Clone, Copy, PartialEq, Eq, Structural)]
pub struct Reaction {
    pub liked: bool,
    pub disliked: bool,
}

/// The changes that a toggle makes, in the order of the fields.
#[derive(Clone, Copy, PartialEq, Eq, Structural)]
pub struct ReactionPlan {
    pub delete_like: bool,
    pub delete_dislike: bool,
    pub insert_like: bool,
    pub insert_dislike: bool,
}

/// What the changes of a plan make of a reaction.
pub open spec fn after_plan(before: Reaction, plan: ReactionPlan) -> Reaction {
    Reaction {
        liked: plan.insert_like || (before.liked && !plan.delete_like),
        disliked: plan.insert_dislike || (before.disliked && !plan.delete_dislike),
    }
}

pub open spec fn like_toggled(before: Reaction) -> Reaction {
    Reaction { liked: !before.liked, disliked: false }
}

pub open spec fn dislike_toggled(before: Reaction) -> Reaction {
    Reaction { liked: false, disliked: !before.disliked }
}

/// Plans the toggling of a like.
pub fn toggle_post_like(was_liked: bool) -> (r: ReactionPlan)
    ensures
        forall|before: Reaction|
            before.liked == was_liked ==> #[trigger] after_plan(before, r) == like_toggled(before),
{
    ReactionPlan {
        delete_like: true,
        delete_dislike: true,
        insert_like: !was_liked,
        insert_dislike: false,
    }
}

/// Plans the toggling of a dislike.
pub fn toggle_post_dislike(was_disliked: bool) -> (r: ReactionPlan)
    ensures
        forall|before: Reaction|
            before.disliked == was_disliked ==> #[trigger] after_plan(before, r)
                == dislike_toggled(before),
{
    ReactionPlan {
        delete_like: true,
        delete_dislike: true,
        insert_like: false,
        insert_dislike: !was_disliked,
    }
}

/// After a toggle nobody both likes and dislikes a post, and toggling twice takes both away, save
/// for the reaction that was there and is given again.
pub proof fn law_reactions_exclude_each_other(before: Reaction)
    ensures
        !(like_toggled(before).liked && like_toggled(before).disliked),
        !(dislike_toggled(before).liked && dislike_toggled(before).disliked),
        like_toggled(like_toggled(before)) == (Reaction { liked: before.liked, disliked: false }),
        dislike_toggled(dislike_toggled(before)) == (Reaction {
            liked: false,
            disliked: before.disliked,
        }),
{
}

/// What follows when the removal of a like or a share was tried.
#[derive(Clone, Copy, PartialEq, Eq, Structural)]
pub enum ToggleStep {
    /// There was nothing to remove: give it.
    Insert,
    /// It was removed, or the removal failed: done.
    Done,
}

/// How a toggle goes on after the removal of so many; without a count the removal failed.
pub open spec fn step_after(removed: Option<u64>) -> ToggleStep {
    if removed == Some(0u64) {
        ToggleStep::Insert
    } else {
        ToggleStep::Done
    }
}

/// Decides how a toggle goes on.
pub fn after_removal(removed: Option<u64>) -> (r: ToggleStep)
    ensures
        r == step_after(removed),
{
    match removed {
        Some(n) => if n == 0 {
            ToggleStep::Insert
        } else {
            ToggleStep::Done
        },
        None => ToggleStep::Done,
    }
}

/// How many likes go where the like of a user is removed from a comment, given who likes it.
pub open spec fn likes_removed(likers: Set<i32>, user_id: i32) -> u64 {
    if likers.contains(user_id) {
        1
    } else {
        0
    }
}

/// The users who like a comment once a toggle is through: the like of the user is removed, and
/// given where there was none to remove.
pub open spec fn likers_after(likers: Set<i32>, user_id: i32, next: ToggleStep) -> Set<i32> {
    match next {
        ToggleStep::Insert => likers.remove(user_id).insert(user_id),
        ToggleStep::Done => likers.remove(user_id),
    }
}

/// The users who like a comment after a user has toggled their like.
pub open spec fn comment_like_toggled(likers: Set<i32>, user_id: i32) -> Set<i32> {
    likers_after(likers, user_id, step_after(Some(likes_removed(likers, user_id))))
}

/// How many likes are given by a toggle.
pub open spec fn likes_given(likers: Set<i32>, user_id: i32) -> u64 {
    match step_after(Some(likes_removed(likers, user_id))) {
        ToggleStep::Insert => 1,
        ToggleStep::Done => 0,
    }
}

/// Toggling the like of a comment turns the like of the user round, leaves those of others, and
/// toggling it twice restores all.
pub proof fn law_comment_like_toggles(likers: Set<i32>, user_id: i32)
    ensures
        comment_like_toggled(likers, user_id).contains(user_id) == !likers.contains(user_id),
        forall|other: i32|
            other != user_id ==> #[trigger] comment_like_toggled(likers, user_id).contains(other)
                == likers.contains(other),
        comment_like_toggled(comment_like_toggled(likers, user_id), user_id) == likers,
{
    assert(comment_like_toggled(comment_like_toggled(likers, user_id), user_id) =~= likers);
}

/// The path of a comment on its page.
pub open spec fn comment_path(post_id: i64, comment_id: i64) -> Seq<char> {
    "/posts/"@ + decimal(post_id as int) + "#comment-"@ + decimal(comment_id as int)
}

fn comment_path_text(post_id: i64, comment_id: i64) -> (r: String)
    ensures
        r@ == comment_path(post_id, comment_id),
{
    let mut out: String = "/posts/".to_owned();
    push_decimal(&mut out, post_id);
    out.append("#comment-");
    push_decimal(&mut out, comment_id);
    out
}

/// The notification of the owner of a comment that was liked: how many others like it.
pub open spec fn like_notice(
    inserted: Option<u64>,
    comment: PostCommentPostRow,
    comment_id: i64,
    user_id: i32,
    likes_by_others: Option<i64>,
) -> Option<NoticeView> {
    if inserted is Some && inserted->0 > 0 && comment.comment_owner_user_id != user_id {
        let n = match likes_by_others {
            Some(n) => n,
            None => 1,
        };
        Some(
            NoticeView {
                recipient_user_id: comment.comment_owner_user_id,
                kind: "comment_like"@,
                title: "New comment like"@,
                body: if n > 1 {
                    decimal(n as int) + " people liked your comment"@
                } else {
                    "Someone liked your comment"@
                },
                link_url: comment_path(comment.post_id, comment_id),
            },
        )
    } else {
        None
    }
}

/// The owner of a comment is told of a toggle exactly where it gives the like of another user,
/// and then of how many others like it.
pub proof fn law_comment_like_is_announced(
    likers: Set<i32>,
    comment: PostCommentPostRow,
    comment_id: i64,
    user_id: i32,
    likes_by_others: i64,
)
    requires
        likes_by_others == comment_like_toggled(likers, user_id).remove(
            comment.comment_owner_user_id,
        ).len(),
    ensures
        ({
            let owner = comment.comment_owner_user_id;
            let others = comment_like_toggled(likers, user_id).remove(owner).len();
            let notice = like_notice(
                Some(likes_given(likers, user_id)),
                comment,
                comment_id,
                user_id,
                Some(likes_by_others),
            );
            &&& notice is Some == (!likers.contains(user_id) && owner != user_id)
            &&& notice matches Some(n) ==> {
                &&& n.recipient_user_id == owner
                &&& n.body == if others > 1 {
                    decimal(others as int) + " people liked your comment"@
                } else {
                    "Someone liked your comment"@
                }
            }
        }),
{
}

/// Whether the likes of others have to be counted before a notification.
pub fn like_needs_notice(inserted: Option<u64>, owner_user_id: i32, user_id: i32) -> (r: bool)
    ensures
        r == (inserted is Some && inserted->0 > 0 && owner_user_id != user_id),
{
    match inserted {
        Some(n) => n > 0 && owner_user_id != user_id,
        None => false,
    }
}

/// Decides whom to tell that a comment was liked, once the like was tried to be given.
pub fn comment_like_notice(
    inserted: Option<u64>,
    comment: &PostCommentPostRow,
    comment_id: i64,
    user_id: i32,
    likes_by_others: Option<i64>,
) -> (r: Option<Notice>)
    ensures
        opt_notice(r) == like_notice(inserted, *comment, comment_id, user_id, likes_by_others),
{
    if !like_needs_notice(inserted, comment.comment_owner_user_id, user_id) {
        return None;
    }
    let n: i64 = match likes_by_others {
        Some(n) => n,
        None => 1,
    };
    let body: String = if n > 1 {
        let mut b: String = String::new();
        push_decimal(&mut b, n);
        assert(b@ =~= decimal(n as int));
        b.append(" people liked your comment");
        b
    } else {
        "Someone liked your comment".to_owned()
    };
    Some(
        Notice {
            recipient_user_id: comment.comment_owner_user_id,
            kind: "comment_like".to_owned(),
            title: "New comment like".to_owned(),
            body,
            link_url: comment_path_text(comment.post_id, comment_id),
        },
    )
}

// ---------------------------------------------------------------------------
// Comments
// ---------------------------------------------------------------------------
/// Why the trimmed text of a comment is refused.
pub open spec fn comment_error(comment: Seq<char>) -> Option<Seq<char>> {
    if comment.len() == 0 {
        Some("Comment cannot be empty"@)
    } else if byte_len(comment) > MAX_POST_COMMENT_LENGTH {
        Some("Comment must be at most 1000 characters"@)
    } else {
        None
    }
}

/// Reads the text of a comment, or answers why it is refused.
pub fn read_comment(body: &str) -> (r: Step<String>)
    ensures
        match comment_error(trim(body@)) {
            Some(e) => answers(r, ReplyView::Text(BAD_REQUEST, e)),
            None => r matches Step::Proceed(c) && c@ == trim(body@),
        },
{
    let comment: String = trim_text(body);
    if comment.as_str().is_empty() {
        return Step::Answer(text_reply(BAD_REQUEST, "Comment cannot be empty"));
    }
    if byte_len_of(comment.as_str()) > MAX_POST_COMMENT_LENGTH {
        return Step::Answer(
            text_reply(BAD_REQUEST, "Comment must be at most 1000 characters"),
        );
    }
    Step::Proceed(comment)
}

/// The comment that a new comment answers, as it was found.
pub struct ReplyTarget {
    pub user_id: i32,
    pub username: String,
    pub body: String,
}

/// What a new comment answers.
pub struct ReplyContext {
    pub reply_to_comment_id: Option<i64>,
    pub reply_parent_comment_id: i64,
    pub reply_to_username: String,
    pub reply_to_body_preview: String,
    pub reply_target_user_id: Option<i32>,
}

/// Whether the context of a new comment is that of its answer to a found comment, or of none.
pub open spec fn is_reply_context(
    ctx: ReplyContext,
    reply_id: Option<i64>,
    found: Option<ReplyTarget>,
) -> bool {
    &&& ctx.reply_to_comment_id == reply_id
    &&& match (reply_id, found) {
        (Some(id), Some(t)) => {
            &&& ctx.reply_parent_comment_id == id
            &&& ctx.reply_to_username == t.username
            &&& ctx.reply_to_body_preview@ == cut_preview(trim(t.body@), 120)
            &&& ctx.reply_target_user_id == Some(t.user_id)
        },
        _ => {
            &&& ctx.reply_parent_comment_id == 0
            &&& ctx.reply_to_username@.len() == 0
            &&& ctx.reply_to_body_preview@.len() == 0
            &&& ctx.reply_target_user_id is None
        },
    }
}

/// The comment that a form says it answers.
pub fn requested_reply(form: &AddPostCommentForm) -> (r: Option<i64>)
    ensures
        r == (match form.reply_to_comment_id {
            Some(n) if n > 0 => Some(n),
            _ => None,
        }),
{
    positive_id(form.reply_to_comment_id)
}

/// Settles what a new comment answers, once the comment it names was looked for.
pub fn resolve_reply(
    reply_id: Option<i64>,
    found: Option<ReplyTarget>,
    fetch_request: bool,
    back: &str,
) -> (r: Step<ReplyContext>)
    ensures
        if reply_id is Some && found is None {
            answers(
                r,
                if fetch_request {
                    ReplyView::Text(BAD_REQUEST, "Invalid reply target."@)
                } else {
                    ReplyView::Redirect(back@)
                },
            )
        } else {
            r matches Step::Proceed(ctx) && is_reply_context(ctx, reply_id, found)
        },
{
    match reply_id {
        Some(id) => match found {
            Some(t) => {
                let trimmed: String = trim_text(t.body.as_str());
                Step::Proceed(
                    ReplyContext {
                        reply_to_comment_id: Some(id),
                        reply_parent_comment_id: id,
                        reply_to_username: t.username,
                        reply_to_body_preview: truncate_preview(trimmed.as_str(), 120),
                        reply_target_user_id: Some(t.user_id),
                    },
                )
            },
            None => {
                if fetch_request {
                    Step::Answer(text_reply(BAD_REQUEST, "Invalid reply target."))
                } else {
                    Step::Answer(redirect(back))
                }
            },
        },
        None => Step::Proceed(
            ReplyContext {
                reply_to_comment_id: None,
                reply_parent_comment_id: 0,
                reply_to_username: String::new(),
                reply_to_body_preview: String::new(),
                reply_target_user_id: None,
            },
        ),
    }
}

/// A comment that is ready to be stored.
pub struct PreparedComment {
    pub user_id: i32,
    pub comment: String,
    pub context: ReplyContext,
}

/// What stands in the way of a new comment: the user is not logged in, the text is refused, the post
/// cannot be commented on, or the answered comment is not there, in this order.
pub open spec fn comment_obstacle(
    user_id: Option<i32>,
    body: Seq<char>,
    state: PostState,
    reply_id: Option<i64>,
    found: bool,
    fetch_request: bool,
    back: Seq<char>,
) -> Option<ReplyView> {
    if user_id is None {
        Some(ReplyView::Redirect("/login"@))
    } else if comment_error(trim(body)) is Some {
        Some(ReplyView::Text(BAD_REQUEST, comment_error(trim(body))->0))
    } else if gate(PostAction::Comment, state, fetch_request, back) is Some {
        gate(PostAction::Comment, state, fetch_request, back)
    } else if reply_id is Some && !found {
        Some(
            if fetch_request {
                ReplyView::Text(BAD_REQUEST, "Invalid reply target."@)
            } else {
                ReplyView::Redirect(back)
            },
        )
    } else {
        None
    }
}

/// Decides on a new comment, given what was found of the post and of the answered comment.
pub fn prepare_comment(
    user_id: Option<i32>,
    form: &AddPostCommentForm,
    state: PostState,
    found: Option<ReplyTarget>,
    fetch_request: bool,
    back: &str,
) -> (r: Step<PreparedComment>)
    ensures
        ({
            let reply_id = match form.reply_to_comment_id {
                Some(n) if n > 0 => Some(n),
                _ => None,
            };
            match comment_obstacle(
                user_id,
                form.body@,
                state,
                reply_id,
                found is Some,
                fetch_request,
                back@,
            ) {
                Some(reply) => answers(r, reply),
                None => r matches Step::Proceed(p) && Some(p.user_id) == user_id && p.comment@
                    == trim(form.body@) && is_reply_context(p.context, reply_id, found),
            }
        }),
{
    let user: i32 = match user_id {
        Some(id) => id,
        None => {
            return Step::Answer(redirect("/login"));
        },
    };
    let comment: String = match read_comment(form.body.as_str()) {
        Step::Answer(reply) => {
            return Step::Answer(reply);
        },
        Step::Proceed(c) => c,
    };
    if let Some(reply) = check_post_action(PostAction::Comment, state, fetch_request, back) {
        return Step::Answer(reply);
    }
    match resolve_reply(requested_reply(form), found, fetch_request, back) {
        Step::Answer(reply) => Step::Answer(reply),
        Step::Proceed(context) => Step::Proceed(PreparedComment { user_id: user, comment, context }),
    }
}

/// The quotation of a comment in a notification.
pub open spec fn quoted_comment(comment: Seq<char>) -> Seq<char> {
    let cut = cut_preview(trim(comment), 140);
    if cut.len() == 0 {
        Seq::empty()
    } else {
        ": \""@ + cut + "\""@
    }
}

pub open spec fn sender_name(sender: Option<Seq<char>>) -> Seq<char> {
    match sender {
        Some(name) => name,
        None => "someone"@,
    }
}

/// The notification of the owner of a post that was commented on.
pub open spec fn owner_notice(
    owner: i32,
    sender: Option<Seq<char>>,
    comment: Seq<char>,
    link: Seq<char>,
) -> NoticeView {
    NoticeView {
        recipient_user_id: owner,
        kind: "post_comment"@,
        title: "New comment on your post"@,
        body: "@"@ + sender_name(sender) + " commented on your post"@ + quoted_comment(comment),
        link_url: link,
    }
}

/// The notification of the author of a comment that was answered.
pub open spec fn reply_notice(
    target: i32,
    sender: Option<Seq<char>>,
    comment: Seq<char>,
    link: Seq<char>,
) -> NoticeView {
    NoticeView {
        recipient_user_id: target,
        kind: "comment_reply"@,
        title: "New reply to your comment"@,
        body: "@"@ + sender_name(sender) + " replied to your comment"@ + quoted_comment(comment),
        link_url: link,
    }
}

/// The notifications of a new comment: to the owner of the post and to the author of the answered
/// comment, but not to the commenter, and to nobody twice; of two for one user the second counts.
pub open spec fn comment_notices(
    user_id: i32,
    owner: Option<i32>,
    target: Option<i32>,
    sender: Option<Seq<char>>,
    comment: Seq<char>,
    link: Seq<char>,
) -> Seq<NoticeView> {
    let to_owner = owner is Some && owner != Some(user_id) && (owner != target);
    let to_target = target is Some && target != Some(user_id);
    let first = if to_owner {
        seq![owner_notice(owner->0, sender, comment, link)]
    } else {
        Seq::empty()
    };
    if to_target {
        first.push(reply_notice(target->0, sender, comment, link))
    } else {
        first
    }
}

fn notice_body(sender: Option<&str>, what: &str, comment: &str) -> (r: String)
    ensures
        r@ == "@"@ + sender_name(opt_str(sender)) + what@ + quoted_comment(comment@),
{
    let trimmed: String = trim_text(comment);
    let cut: String = truncate_preview(trimmed.as_str(), 140);
    let quoted: String = if cut.as_str().is_empty() {
        String::new()
    } else {
        let mut q: String = ": \"".to_owned();
        q.append(cut.as_str());
        q.append("\"");
        q
    };
    let mut out: String = "@".to_owned();
    match sender {
        Some(name) => {
            out.append(name);
        },
        None => {
            out.append("someone");
        },
    }
    out.append(what);
    out.append(quoted.as_str());
    assert(quoted@ =~= quoted_comment(comment@));
    out
}

/// Decides whom to tell of a new comment.
pub fn plan_comment_notices(
    user_id: i32,
    post_id: i64,
    comment_id: i64,
    post_owner_user_id: Option<i32>,
    reply_target_user_id: Option<i32>,
    sender_username: Option<&str>,
    comment: &str,
) -> (r: Vec<Notice>)
    ensures
        notices_view(r@) == comment_notices(
            user_id,
            post_owner_user_id,
            reply_target_user_id,
            opt_str(sender_username),
            comment@,
            comment_path(post_id, comment_id),
        ),
{
    let mut out: Vec<Notice> = Vec::new();
    let ghost link = comment_path(post_id, comment_id);
    let ghost sender = opt_str(sender_username);
    let mut to_owner: bool = false;
    if let Some(owner) = post_owner_user_id {
        to_owner = owner != user_id && (match reply_target_user_id {
            Some(t) => t != owner,
            None => true,
        });
        if to_owner {
            out.push(
                Notice {
                    recipient_user_id: owner,
                    kind: "post_comment".to_owned(),
                    title: "New comment on your post".to_owned(),
                    body: notice_body(sender_username, " commented on your post", comment),
                    link_url: comment_path_text(post_id, comment_id),
                },
            );
        }
    }
    assert(notices_view(out@) =~= (if to_owner {
        seq![owner_notice(post_owner_user_id->0, sender, comment@, link)]
    } else {
        Seq::empty()
    }));
    let ghost first = notices_view(out@);
    if let Some(target) = reply_target_user_id {
        if target != user_id {
            out.push(
                Notice {
                    recipient_user_id: target,
                    kind: "comment_reply".to_owned(),
                    title: "New reply to your comment".to_owned(),
                    body: notice_body(sender_username, " replied to your comment", comment),
                    link_url: comment_path_text(post_id, comment_id),
                },
            );
            assert(notices_view(out@) =~= first.push(
                reply_notice(target, sender, comment@, link),
            ));
        }
    }
    out
}

/// A new comment is never announced to its own author, and to nobody twice.
pub proof fn law_comment_notices(
    user_id: i32,
    owner: Option<i32>,
    target: Option<i32>,
    sender: Option<Seq<char>>,
    comment: Seq<char>,
    link: Seq<char>,
)
    ensures
        ({
            let notices = comment_notices(user_id, owner, target, sender, comment, link);
            &&& forall|i: int|
                0 <= i < notices.len() ==> (#[trigger] notices[i]).recipient_user_id != user_id
            &&& forall|i: int, j: int|
                0 <= i < j < notices.len() ==> (#[trigger] notices[i]).recipient_user_id != (
                #[trigger] notices[j]).recipient_user_id
        }),
{
}

/// The answer of a script's request for a new comment.
pub fn comment_response(comment_id: i64, created_at: String, ctx: ReplyContext) -> (r:
    AddPostCommentResponse)
    ensures
        r.comment_id == comment_id,
        r.created_at == created_at,
        r.reply_parent_comment_id == ctx.reply_parent_comment_id,
        r.reply_to_comment_id == ctx.reply_to_comment_id,
        r.reply_to_body_preview == ctx.reply_to_body_preview,
        r.reply_to_username == ctx.reply_to_username,
{
    AddPostCommentResponse {
        comment_id,
        created_at,
        reply_parent_comment_id: ctx.reply_parent_comment_id,
        reply_to_comment_id: ctx.reply_to_comment_id,
        reply_to_body_preview: ctx.reply_to_body_preview,
        reply_to_username: ctx.reply_to_username,
    }
}

// ---------------------------------------------------------------------------
// Edits and deletions
// ---------------------------------------------------------------------------
/// Whether a user may change something of the given owner: back where it is not there, refused where
/// it is somebody else's.
pub open spec fn ownership(owner: Option<i32>, user_id: i32, back: Seq<char>) -> Option<ReplyView> {
    match owner {
        Some(id) => if id == user_id {
            None
        } else {
            Some(ReplyView::Status(FORBIDDEN))
        },
        None => Some(ReplyView::Redirect(back)),
    }
}

pub fn check_ownership(owner: Option<i32>, user_id: i32, back: &str) -> (r: Option<Reply>)
    ensures
        r is Some == ownership(owner, user_id, back@) is Some,
        r matches Some(reply) ==> ownership(owner, user_id, back@) == Some(reply@),
{
    match owner {
        Some(id) => if id == user_id {
            None
        } else {
            Some(Reply::Status(FORBIDDEN))
        },
        None => Some(redirect(back)),
    }
}

/// A change of a post.
pub struct PostEdit {
    pub body: String,
    pub link_url: String,
    pub visibility: String,
}

/// Reads the new text of a post, or answers why it is refused.
pub fn read_post_edit(form: &EditPostForm, has_images: bool) -> (r: Step<PostEdit>)
    ensures
        match draft_error(trim(form.text@), has_images) {
            Some(e) => answers(r, ReplyView::Text(BAD_REQUEST, e)),
            None => r matches Step::Proceed(edit) && edit.body@ == trim(form.text@)
                && edit.link_url@ == (match first_link(words(trim(form.text@)), 0) {
                Some(link) => link,
                None => Seq::empty(),
            }) && edit.visibility@ == (match opt_view(form.visibility) {
                Some(v) => normalized_visibility(v),
                None => "public"@,
            }),
        },
{
    let text: String = trim_text(form.text.as_str());
    match check_post_text(text.as_str(), has_images) {
        Err(e) => Step::Answer(Reply::Text(BAD_REQUEST, e)),
        Ok(_) => {
            let link_url: String = detected_link(text.as_str());
            let visibility: String = match &form.visibility {
                Some(v) => normalize_post_visibility(v.as_str()).to_owned(),
                None => "public".to_owned(),
            };
            Step::Proceed(PostEdit { body: text, link_url, visibility })
        },
    }
}

/// Decides on a change of a post, given its owner and whether it has images.
pub fn prepare_post_edit(
    user_id: Option<i32>,
    owner: Option<i32>,
    form: &EditPostForm,
    has_images: bool,
    back: &str,
) -> (r: Step<PostEdit>)
    ensures
        match user_id {
            None => answers(r, ReplyView::Redirect("/login"@)),
            Some(id) => match ownership(owner, id, back@) {
                Some(reply) => answers(r, reply),
                None => match draft_error(trim(form.text@), has_images) {
                    Some(e) => answers(r, ReplyView::Text(BAD_REQUEST, e)),
                    None => r matches Step::Proceed(edit) && edit.body@ == trim(form.text@)
                        && edit.link_url@ == (match first_link(words(trim(form.text@)), 0) {
                        Some(link) => link,
                        None => Seq::empty(),
                    }) && edit.visibility@ == (match opt_view(form.visibility) {
                        Some(v) => normalized_visibility(v),
                        None => "public"@,
                    }),
                },
            },
        },
{
    match user_id {
        None => Step::Answer(redirect("/login")),
        Some(id) => {
            if let Some(reply) = check_ownership(owner, id, back) {
                return Step::Answer(reply);
            }
            read_post_edit(form, has_images)
        },
    }
}

/// Decides on a change of a comment, given its owner and what is known of its post.
pub fn prepare_comment_edit(
    user_id: Option<i32>,
    owner: Option<&PostCommentOwnerRow>,
    form: &EditPostCommentForm,
    state: PostState,
    fetch_request: bool,
    back: &str,
) -> (r: Step<String>)
    ensures
        match user_id {
            None => answers(r, ReplyView::Redirect("/login"@)),
            Some(id) => match ownership(
                match owner {
                    Some(row) => Some(row.user_id),
                    None => None,
                },
                id,
                back@,
            ) {
                Some(reply) => answers(r, reply),
                None => match comment_error(trim(form.body@)) {
                    Some(e) => answers(r, ReplyView::Text(BAD_REQUEST, e)),
                    None => match gate(PostAction::EditComment, state, fetch_request, back@) {
                        Some(reply) => answers(r, reply),
                        None => r matches Step::Proceed(c) && c@ == trim(form.body@),
                    },
                },
            },
        },
{
    let id: i32 = match user_id {
        Some(id) => id,
        None => {
            return Step::Answer(redirect("/login"));
        },
    };
    let owner_id: Option<i32> = match owner {
        Some(row) => Some(row.user_id),
        None => None,
    };
    if let Some(reply) = check_ownership(owner_id, id, back) {
        return Step::Answer(reply);
    }
    match read_comment(form.body.as_str()) {
        Step::Answer(reply) => Step::Answer(reply),
        Step::Proceed(comment) => match check_post_action(
            PostAction::EditComment,
            state,
            fetch_request,
            back,
        ) {
            Some(reply) => Step::Answer(reply),
            None => Step::Proceed(comment),
        },
    }
}

/// The answer once something was tried to be stored: back, or a message of failure.
pub fn stored_reply(stored: bool, failure: &str, back: &str) -> (r: Reply)
    ensures
        r@ == (if stored {
            ReplyView::Redirect(back@)
        } else {
            ReplyView::Text(INTERNAL_SERVER_ERROR, failure@)
        }),
{
    if stored {
        redirect(back)
    } else {
        text_reply(INTERNAL_SERVER_ERROR, failure)
    }
}

/// Who may delete a comment: its author and the owner of the post.
pub open spec fn may_delete_comment(user_id: i32, p: PostCommentPermissionRow) -> bool {
    user_id == p.comment_owner_user_id || user_id == p.post_owner_user_id
}

/// Decides on the deletion of a comment; where it may go on, says whether its author is to be told.
pub fn check_comment_deletion(
    user_id: i32,
    permission: Option<&PostCommentPermissionRow>,
    back: &str,
) -> (r: Step<bool>)
    ensures
        match permission {
            None => answers(r, ReplyView::Redirect(back@)),
            Some(p) => if may_delete_comment(user_id, *p) {
                r == Step::Proceed(
                    user_id == p.post_owner_user_id && p.comment_owner_user_id
                        != p.post_owner_user_id,
                )
            } else {
                answers(r, ReplyView::Status(FORBIDDEN))
            },
        },
{
    match permission {
        None => Step::Answer(redirect(back)),
        Some(p) => {
            if user_id != p.comment_owner_user_id && user_id != p.post_owner_user_id {
                return Step::Answer(Reply::Status(FORBIDDEN));
            }
            Step::Proceed(
                user_id == p.post_owner_user_id && p.comment_owner_user_id
                    != p.post_owner_user_id,
            )
        },
    }
}

/// The notification of the author of a comment that the owner of the post deleted.
pub fn comment_deleted_notice(
    permission: &PostCommentPermissionRow,
    post_owner_username: Option<&str>,
) -> (r: Notice)
    ensures
        r@ == (NoticeView {
            recipient_user_id: permission.comment_owner_user_id,
            kind: "comment_deleted_by_post_owner"@,
            title: "Comment deleted"@,
            body: "@"@ + (match opt_str(post_owner_username) {
                Some(name) => name,
                None => "post-owner"@,
            }) + " deleted your comment on their post"@,
            link_url: "/posts/"@ + decimal(permission.post_id as int),
        }),
{
    let mut body: String = "@".to_owned();
    match post_owner_username {
        Some(name) => {
            body.append(name);
        },
        None => {
            body.append("post-owner");
        },
    }
    body.append(" deleted your comment on their post");
    let mut link_url: String = "/posts/".to_owned();
    push_decimal(&mut link_url, permission.post_id);
    Notice {
        recipient_user_id: permission.comment_owner_user_id,
        kind: "comment_deleted_by_post_owner".to_owned(),
        title: "Comment deleted".to_owned(),
        body,
        link_url,
    }
}

// ---------------------------------------------------------------------------
// What users are told
// ---------------------------------------------------------------------------
/// Who may not act on a post is sent back, or told so where a script asked: of a post that a
/// moderator has deleted with a conflict, of one that is hidden from them with a refusal.
pub proof fn law_gate_answers(
    action: PostAction,
    state: PostState,
    fetch_request: bool,
    back: Seq<char>,
)
    ensures
        gate(action, state, fetch_request, back) matches Some(reply) ==> {
            if !state.exists || !fetch_request {
                reply == ReplyView::Redirect(back)
            } else {
                reply matches ReplyView::Text(code, _) && code == (if state.is_soft_deleted {
                    409u16
                } else {
                    403u16
                })
            }
        },
{
}

/// Which comments are taken: those that hold something besides white space, of at most 1000 bytes.
pub proof fn law_comment_texts(body: Seq<char>)
    ensures
        comment_error(trim(body)) is None <==> 0 < trim(body).len() && byte_len(trim(body))
            <= 1_000,
        trim(body).len() == 0 ==> comment_error(trim(body)) == Some("Comment cannot be empty"@),
        trim(body).len() > 0 && byte_len(trim(body)) > 1_000 ==> comment_error(trim(body)) == Some(
            "Comment must be at most 1000 characters"@,
        ),
{
}

/// A comment is stored exactly where its author is logged in, its text is taken, the post can be
/// acted on, and the comment that it answers, if any, is there.
pub proof fn law_comments_and_their_obstacles(
    user_id: Option<i32>,
    body: Seq<char>,
    state: PostState,
    reply_id: Option<i64>,
    found: bool,
    fetch_request: bool,
    back: Seq<char>,
)
    ensures
        comment_obstacle(user_id, body, state, reply_id, found, fetch_request, back) is None <==> {
            &&& user_id is Some
            &&& 0 < trim(body).len() && byte_len(trim(body)) <= 1_000
            &&& state.exists && !state.is_soft_deleted && state.can_view
            &&& reply_id is None || found
        },
        user_id is None ==> comment_obstacle(
            user_id,
            body,
            state,
            reply_id,
            found,
            fetch_request,
            back,
        ) == Some(ReplyView::Redirect("/login"@)),
{
}

/// Whom a new comment is announced to: the owner of the post and the author of the answered
/// comment, unless they wrote it; the latter hears of the answer, and nobody else hears of it.
pub proof fn law_comment_notices_reach(
    user_id: i32,
    owner: Option<i32>,
    target: Option<i32>,
    sender: Option<Seq<char>>,
    comment: Seq<char>,
    link: Seq<char>,
    recipient: i32,
)
    ensures
        ({
            let notices = comment_notices(user_id, owner, target, sender, comment, link);
            let told = exists|i: int|
                0 <= i < notices.len() && (#[trigger] notices[i]).recipient_user_id == recipient;
            &&& told <==> recipient != user_id && (owner == Some(recipient) || target == Some(
                recipient,
            ))
            &&& forall|i: int|
                0 <= i < notices.len() ==> {
                    let n = #[trigger] notices[i];
                    &&& n.link_url == link
                    &&& target == Some(n.recipient_user_id) ==> n.kind == "comment_reply"@
                        && n.title == "New reply to your comment"@
                    &&& target != Some(n.recipient_user_id) ==> n.kind == "post_comment"@ && n.title
                        == "New comment on your post"@
                }
        }),
{
    let notices = comment_notices(user_id, owner, target, sender, comment, link);
    if recipient != user_id && target == Some(recipient) {
        assert(notices.last().recipient_user_id == recipient);
    } else if recipient != user_id && owner == Some(recipient) {
        assert(notices[0].recipient_user_id == recipient);
    }
}

/// The notice of a comment names who wrote it, and quotes it.
pub proof fn law_comment_notices_quote(
    user_id: i32,
    owner: Option<i32>,
    target: Option<i32>,
    name: Seq<char>,
    comment: Seq<char>,
    link: Seq<char>,
    i: int,
)
    requires
        0 <= i < comment_notices(user_id, owner, target, Some(name), comment, link).len(),
        0 < trim(comment).len() <= 140,
    ensures
        ({
            let n = comment_notices(user_id, owner, target, Some(name), comment, link)[i];
            let quote = ": \""@ + trim(comment) + "\""@;
            n.body == "@"@ + name + (if target == Some(n.recipient_user_id) {
                " replied to your comment"@
            } else {
                " commented on your post"@
            }) + quote
        }),
{
}

/// A comment can be deleted by its author and by the owner of the post, and by nobody else.
pub proof fn law_who_deletes_comments(user_id: i32, p: PostCommentPermissionRow)
    ensures
        may_delete_comment(p.comment_owner_user_id, p),
        may_delete_comment(p.post_owner_user_id, p),
        user_id != p.comment_owner_user_id && user_id != p.post_owner_user_id
            ==> !may_delete_comment(user_id, p),
{
}

/// Only the owner changes what is theirs; others are refused, and where nothing is there they go
/// back.
pub proof fn law_only_owners_change(owner: Option<i32>, user_id: i32, back: Seq<char>)
    ensures
        ownership(owner, user_id, back) is None <==> owner == Some(user_id),
        owner is Some && owner != Some(user_id) ==> ownership(owner, user_id, back) == Some(
            ReplyView::Status(403),
        ),
        owner is None ==> ownership(owner, user_id, back) == Some(ReplyView::Redirect(back)),
{
}

/// A comment that answers another says which one, whose it is and how it begins.
pub proof fn law_answers_name_what_they_answer(
    ctx: ReplyContext,
    reply_id: Option<i64>,
    found: Option<ReplyTarget>,
)
    requires
        is_reply_context(ctx, reply_id, found),
    ensures
        ctx.reply_to_comment_id == reply_id,
        reply_id matches Some(id) ==> found matches Some(t) ==> {
            &&& ctx.reply_parent_comment_id == id
            &&& ctx.reply_to_username == t.username
            &&& ctx.reply_target_user_id == Some(t.user_id)
            &&& trim(t.body@).len() <= 120 ==> ctx.reply_to_body_preview@ == trim(t.body@)
            &&& trim(t.body@).len() > 120 ==> trim(t.body@).take(120).is_prefix_of(
                ctx.reply_to_body_preview@,
            )
        },
        reply_id is None ==> ctx.reply_target_user_id is None && ctx.reply_parent_comment_id == 0,
{
}

/// A like turns the like round and takes a dislike away; a dislike turns the dislike round and takes
/// a like away.
pub proof fn law_reactions_turn_round(before: Reaction)
    ensures
        like_toggled(before).liked == !before.liked,
        !like_toggled(before).disliked,
        dislike_toggled(before).disliked == !before.disliked,
        !dislike_toggled(before).liked,
{
}

/// What a plan gives is there afterwards, what it takes away is not, and the rest stays.
pub proof fn law_reaction_plans(before: Reaction, plan: ReactionPlan)
    ensures
        plan.insert_like ==> after_plan(before, plan).liked,
        !plan.insert_like && plan.delete_like ==> !after_plan(before, plan).liked,
        !plan.insert_like && !plan.delete_like ==> after_plan(before, plan).liked == before.liked,
        plan.insert_dislike ==> after_plan(before, plan).disliked,
        !plan.insert_dislike && plan.delete_dislike ==> !after_plan(before, plan).disliked,
        !plan.insert_dislike && !plan.delete_dislike ==> after_plan(before, plan).disliked
            == before.disliked,
{
}

/// A toggle goes on to give exactly where nothing was removed; a removal that failed ends it.
pub proof fn law_toggle_steps(removed: Option<u64>)
    ensures
        step_after(removed) is Insert <==> removed == Some(0u64),
        step_after(None) is Done,
{
}

/// Who asks for data rather than a page is told why nothing is done: of a deleted post by what can
/// no longer be done with it, and of a hidden one by what cannot be done.
pub proof fn law_refusals_say_why(action: PostAction, state: PostState, back: Seq<char>)
    requires
        state.exists,
    ensures
        state.is_soft_deleted && (action is Like || action is LikeComment) ==> gate(
            action,
            state,
            true,
            back,
        ) == Some(
            ReplyView::Text(
                409,
                "This post was deleted by a moderator and can no longer receive likes."@,
            ),
        ),
        state.is_soft_deleted && action is Dislike ==> gate(action, state, true, back) == Some(
            ReplyView::Text(
                409,
                "This post was deleted by a moderator and can no longer receive dislikes."@,
            ),
        ),
        state.is_soft_deleted && action is Share ==> gate(action, state, true, back) == Some(
            ReplyView::Text(
                409,
                "This post was deleted by a moderator and can no longer be shared."@,
            ),
        ),
        state.is_soft_deleted && action is Comment ==> gate(action, state, true, back) == Some(
            ReplyView::Text(
                409,
                "This post was deleted by a moderator and can no longer receive comments."@,
            ),
        ),
        state.is_soft_deleted && action is EditComment ==> gate(action, state, true, back) == Some(
            ReplyView::Text(
                409,
                "This post was deleted by a moderator and comments can no longer be edited."@,
            ),
        ),
        !state.is_soft_deleted && !state.can_view && action is LikeComment ==> gate(
            action,
            state,
            true,
            back,
        ) == Some(ReplyView::Text(403, "You cannot interact with comments on this post."@)),
        !state.is_soft_deleted && !state.can_view && action is EditComment ==> gate(
            action,
            state,
            true,
            back,
        ) == Some(ReplyView::Text(403, "You cannot edit comments on this post."@)),
        !state.is_soft_deleted && !state.can_view && !(action is LikeComment) && !(action
            is EditComment) ==> gate(action, state, true, back) == Some(
            ReplyView::Text(403, "You cannot interact with this post."@),
        ),
{
}

/// The owner of a comment is told of a like by another user, with the number of those who like it.
pub proof fn law_like_notices(
    comment: PostCommentPostRow,
    comment_id: i64,
    user_id: i32,
    others: Option<i64>,
)
    ensures
        ({
            let n = like_notice(Some(1), comment, comment_id, user_id, others);
            &&& comment.comment_owner_user_id == user_id ==> n is None
            &&& comment.comment_owner_user_id != user_id ==> n is Some
            &&& n matches Some(v) ==> {
                &&& v.recipient_user_id == comment.comment_owner_user_id
                &&& v.kind == "comment_like"@
                &&& v.title == "New comment like"@
                &&& v.link_url == "/posts/"@ + decimal(comment.post_id as int) + "#comment-"@
                    + decimal(comment_id as int)
                &&& v.body == (if others is Some && others->0 > 1 {
                    decimal(others->0 as int) + " people liked your comment"@
                } else {
                    "Someone liked your comment"@
                })
            }
        }),
        like_notice(Some(0), comment, comment_id, user_id, others) is None,
        like_notice(None, comment, comment_id, user_id, others) is None,
{
}

} // verus!
