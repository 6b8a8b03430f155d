//! Posts: drafts, previews, and the views of a feed.

use std::collections::BTreeMap;
use vstd::prelude::*;
use vstd::string::*;

use crate::comments::{
    has_comment, law_threading_keeps_comments, law_threading_keeps_contents, thread_order,
    thread_post_comments, PostCommentView,
};
use crate::links::{
    build_link_preview_data, extract_first_link_from_text, first_link, preview, LinkPreview,
    PreviewParts,
};
use crate::notifications::{clamped, shown, HeaderNotificationView};
use crate::number::{decimal, push_decimal};
use crate::page::PageHeader;
use crate::ranking::{are_positions, lemma_next_position};
use crate::text::{byte_len, byte_len_of, opt_str, str_eq, trim, trim_text, truncate_chars, words};
use crate::uploads::MAX_POST_IMAGES;
use crate::visibility::{
    law_visibility_normal, normalize_post_visibility, normalized_visibility, post_visibility_label,
    visibility_label,
};
use crate::web::BAD_REQUEST;
use crate::weburl::url_parsed;

verus! {

broadcast use vstd::laws_cmp::group_laws_cmp;

pub const MAX_POST_TEXT_LENGTH: usize = 10_000;

pub const MAX_POST_COMMENT_LENGTH: usize = 1_000;

pub const FEED_PAGE_DEFAULT_LIMIT: i64 = 20;

pub const FEED_PAGE_MAX_LIMIT: i64 = 50;

/// A post as a page shows it.
pub struct IndexPostView {
    pub post_id: i64,
    pub author_public_id: i64,
    pub author_username: String,
    pub author_profile_photo_url: String,
    pub author_profile_photo_style: String,
    pub body: String,
    pub link_url: String,
    pub visibility: String,
    pub visibility_label: String,
    pub community_name: String,
    pub community_slug: String,
    pub link_title: String,
    pub link_description: String,
    pub link_image_url: String,
    pub has_link_preview: bool,
    pub image_urls: Vec<String>,
    pub likes_count: i64,
    pub dislikes_count: i64,
    pub comments_count: i64,
    pub shares_count: i64,
    pub liked_by_current_user: bool,
    pub disliked_by_current_user: bool,
    pub shared_by_current_user: bool,
    pub comments: Vec<PostCommentView>,
    pub created_at: String,
}

/// A stored post.
pub struct FeedPostRow {
    pub post_id: i64,
    pub author_public_id: i64,
    pub author_username: String,
    pub author_profile_photo_url: String,
    pub author_profile_photo_style: String,
    pub body: String,
    pub link_url: String,
    pub visibility: String,
    pub community_name: String,
    pub community_slug: String,
    pub created_at: String,
}

pub struct FeedPostImageRow {
    pub post_id: i64,
    pub image_url: String,
}

pub struct SavedPostImage {
    pub image_url: String,
    pub mime_type: String,
}

pub struct PostTemplate {
    pub title: String,
    pub id: i64,
    pub user_id: i32,
    pub is_moderator: bool,
    pub local_profile_domain: String,
    pub username: String,
    pub profile_photo_url: String,
    pub profile_photo_style: String,
    pub post_found: bool,
    pub post: IndexPostView,
    pub unread_notifications_count: i64,
    pub notifications: Vec<HeaderNotificationView>,
}

pub struct IndexTemplate {
    pub title: String,
    pub id: i64,
    pub user_id: i32,
    pub is_moderator: bool,
    pub local_profile_domain: String,
    pub profile_photo_url: String,
    pub profile_photo_style: String,
    pub posts: Vec<IndexPostView>,
    pub can_create_post: bool,
    pub unread_notifications_count: i64,
    pub notifications: Vec<HeaderNotificationView>,
    pub username: String,
}

pub struct FeedPageQuery {
    pub before_post_id: Option<i64>,
    pub after_post_id: Option<i64>,
    pub limit: Option<i64>,
}

pub struct FeedPageResponse {
    pub posts: Vec<IndexPostView>,
    pub has_more: bool,
    pub next_before_post_id: Option<i64>,
    pub next_after_post_id: Option<i64>,
}

/// What was done with a post.
pub struct PostInteractionRow {
    pub post_id: i64,
    pub likes_count: i64,
    pub dislikes_count: i64,
    pub comments_count: i64,
    pub shares_count: i64,
    pub liked_by_current_user: bool,
    pub disliked_by_current_user: bool,
    pub shared_by_current_user: bool,
}

/// A stored comment.
pub struct PostCommentRow {
    pub post_id: i64,
    pub comment_id: i64,
    pub commenter_public_id: i64,
    pub commenter_username: String,
    pub commenter_profile_photo_url: String,
    pub commenter_profile_photo_style: String,
    pub body: String,
    pub created_at: String,
    pub likes_count: i64,
    pub liked_by_current_user: bool,
    pub reply_parent_comment_id: i64,
    pub reply_to_comment_id: Option<i64>,
    pub reply_to_body_preview: String,
    pub reply_to_username: String,
}

// ---------------------------------------------------------------------------
// Previews of text
// ---------------------------------------------------------------------------
/// A text cut to a number of characters, with an ellipsis where something was cut off.
pub open spec fn cut_preview(value: Seq<char>, max_chars: nat) -> Seq<char> {
    if value.len() <= max_chars {
        value
    } else {
        value.take(max_chars as int) + "..."@
    }
}

pub fn truncate_preview(value: &str, max_chars: usize) -> (r: String)
    ensures
        r@ == cut_preview(value@, max_chars as nat),
{
    if value.unicode_len() <= max_chars {
        value.to_owned()
    } else {
        let mut out: String = truncate_chars(value, max_chars);
        out.append("...");
        out
    }
}

/// The preview of a post: its text, or else its link, or else its first image.
pub open spec fn post_preview(
    body: Seq<char>,
    link_url: Seq<char>,
    image_url: Seq<char>,
    max_chars: nat,
) -> Seq<char> {
    if trim(body).len() > 0 {
        cut_preview(trim(body), max_chars)
    } else if trim(link_url).len() > 0 {
        cut_preview(trim(link_url), max_chars)
    } else if trim(image_url).len() > 0 {
        cut_preview(trim(image_url), max_chars)
    } else {
        Seq::empty()
    }
}

pub fn build_post_preview(
    body: &str,
    link_url: &str,
    first_image_url: &str,
    max_chars: usize,
) -> (r: String)
    ensures
        r@ == post_preview(body@, link_url@, first_image_url@, max_chars as nat),
{
    let text: String = trim_text(body);
    if !text.as_str().is_empty() {
        return truncate_preview(text.as_str(), max_chars);
    }
    let link: String = trim_text(link_url);
    if !link.as_str().is_empty() {
        return truncate_preview(link.as_str(), max_chars);
    }
    let image: String = trim_text(first_image_url);
    if !image.as_str().is_empty() {
        return truncate_preview(image.as_str(), max_chars);
    }
    String::new()
}

// ---------------------------------------------------------------------------
// Drafts
// ---------------------------------------------------------------------------
/// A post that is ready to be stored.
pub struct PendingPostDraft {
    pub text: String,
    pub visibility: String,
    pub saved_images: Vec<SavedPostImage>,
}

/// A post that is being read from the fields of a form.
pub struct DraftReader {
    pub text: String,
    pub visibility: String,
    pub visibility_is_forced: bool,
    pub saved_images: Vec<SavedPostImage>,
}

/// What is to be done with the next field of a form.
#[derive(Clone, Copy, PartialEq, Eq, Structural)]
pub enum DraftField {
    /// Read the text of the post.
    Text,
    /// Read the visibility of the post.
    Visibility,
    /// Read an image of the post.
    Image,
    /// There are as many images as a post may have.
    TooManyImages,
    /// Pass over the field.
    Skip,
}

impl DraftReader {
    /// As many images as a post may have, and no more.
    pub open spec fn wf(self) -> bool {
        self.saved_images.len() <= MAX_POST_IMAGES
    }

    /// A reader for a form, with the visibility that it cannot change, if there is one.
    pub fn new(forced_visibility: Option<&str>) -> (r: DraftReader)
        ensures
            r.wf(),
            r.text@ == Seq::<char>::empty(),
            r.visibility@ == (match opt_str(forced_visibility) {
                Some(v) => v,
                None => "public"@,
            }),
            r.visibility_is_forced == forced_visibility is Some,
            r.saved_images.len() == 0,
    {
        let visibility: String = match forced_visibility {
            Some(v) => v.to_owned(),
            None => "public".to_owned(),
        };
        DraftReader {
            text: String::new(),
            visibility,
            visibility_is_forced: forced_visibility.is_some(),
            saved_images: Vec::new(),
        }
    }

    /// Decides what a field of the given name is.
    pub fn field(&self, name: &str) -> (r: DraftField)
        requires
            self.wf(),
        ensures
            r == (if name@ == "text"@ {
                DraftField::Text
            } else if name@ == "visibility"@ && !self.visibility_is_forced {
                DraftField::Visibility
            } else if name@ != "images"@ {
                DraftField::Skip
            } else if self.saved_images.len() >= MAX_POST_IMAGES {
                DraftField::TooManyImages
            } else {
                DraftField::Image
            }),
    {
        if str_eq(name, "text") {
            DraftField::Text
        } else if str_eq(name, "visibility") && !self.visibility_is_forced {
            DraftField::Visibility
        } else if !str_eq(name, "images") {
            DraftField::Skip
        } else if self.saved_images.len() >= MAX_POST_IMAGES {
            DraftField::TooManyImages
        } else {
            DraftField::Image
        }
    }

    /// Takes the text of the post.
    pub fn set_text(&mut self, text: String)
        requires
            old(self).wf(),
        ensures
            final(self).wf(),
            final(self).text == text,
            final(self).visibility == old(self).visibility,
            final(self).visibility_is_forced == old(self).visibility_is_forced,
            final(self).saved_images == old(self).saved_images,
    {
        self.text = text;
    }

    /// Takes the visibility that a form asks for.
    pub fn set_visibility(&mut self, requested: &str)
        requires
            old(self).wf(),
        ensures
            final(self).wf(),
            final(self).visibility@ == normalized_visibility(requested@),
            final(self).text == old(self).text,
            final(self).visibility_is_forced == old(self).visibility_is_forced,
            final(self).saved_images == old(self).saved_images,
    {
        self.visibility = normalize_post_visibility(requested).to_owned();
    }

    /// Takes an image that was stored.
    pub fn add_image(&mut self, image: SavedPostImage)
        requires
            old(self).wf(),
            old(self).saved_images.len() < MAX_POST_IMAGES,
        ensures
            final(self).wf(),
            final(self).saved_images@ == old(self).saved_images@.push(image),
            final(self).text == old(self).text,
            final(self).visibility == old(self).visibility,
            final(self).visibility_is_forced == old(self).visibility_is_forced,
    {
        self.saved_images.push(image);
    }

    /// The draft, once all fields are read, or why it is refused.
    pub fn finish(self) -> (r: Result<PendingPostDraft, (u16, String)>)
        requires
            self.wf(),
        ensures
            match r {
                Ok(draft) => draft_error(trim(self.text@), self.saved_images.len() > 0) is None
                    && draft.text@ == trim(self.text@) && draft.visibility == self.visibility
                    && draft.saved_images == self.saved_images,
                Err(e) => e.0 == BAD_REQUEST && draft_error(
                    trim(self.text@),
                    self.saved_images.len() > 0,
                ) == Some(e.1@),
            },
    {
        let text: String = trim_text(self.text.as_str());
        match check_post_text(text.as_str(), self.saved_images.len() > 0) {
            Ok(_) => Ok(
                PendingPostDraft {
                    text,
                    visibility: self.visibility,
                    saved_images: self.saved_images,
                },
            ),
            Err(e) => Err((BAD_REQUEST, e)),
        }
    }
}

/// Why the text of a post is refused, with or without images beside it.
pub open spec fn draft_error(text: Seq<char>, has_images: bool) -> Option<Seq<char>> {
    if byte_len(text) > MAX_POST_TEXT_LENGTH {
        Some("Post text must be at most 10000 characters"@)
    } else if text.len() == 0 && !has_images {
        Some("A post requires text or at least one image"@)
    } else {
        None
    }
}

/// Checks the trimmed text of a post.
pub fn check_post_text(text: &str, has_images: bool) -> (r: Result<(), String>)
    ensures
        match r {
            Ok(_) => draft_error(text@, has_images) is None,
            Err(e) => draft_error(text@, has_images) == Some(e@),
        },
{
    if byte_len_of(text) > MAX_POST_TEXT_LENGTH {
        return Err("Post text must be at most 10000 characters".to_owned());
    }
    if text.is_empty() && !has_images {
        return Err("A post requires text or at least one image".to_owned());
    }
    Ok(())
}

/// The answer to a form with more images than a post may have.
pub fn too_many_images() -> (r: (u16, String))
    ensures
        r.0 == BAD_REQUEST,
        r.1@ == "You can upload up to 8 images per post"@,
{
    (BAD_REQUEST, "You can upload up to 8 images per post".to_owned())
}

/// The link that is stored with a post: the first in its text, or none.
pub fn detected_link(text: &str) -> (r: String)
    ensures
        r@ == (match first_link(words(text@), 0) {
            Some(link) => link,
            None => Seq::empty(),
        }),
{
    match extract_first_link_from_text(text) {
        Some(link) => link,
        None => String::new(),
    }
}

// ---------------------------------------------------------------------------
// Paging a feed
// ---------------------------------------------------------------------------
/// The number of posts in a page of a feed: the one asked for, within bounds.
pub fn normalize_feed_limit(limit: Option<i64>) -> (r: i64)
    ensures
        r == clamped(
            match limit {
                Some(n) => n as int,
                None => FEED_PAGE_DEFAULT_LIMIT as int,
            },
            1,
            FEED_PAGE_MAX_LIMIT as int,
        ),
        1 <= r <= FEED_PAGE_MAX_LIMIT,
{
    let requested: i64 = match limit {
        Some(n) => n,
        None => FEED_PAGE_DEFAULT_LIMIT,
    };
    if requested < 1 {
        1
    } else if requested > FEED_PAGE_MAX_LIMIT {
        FEED_PAGE_MAX_LIMIT
    } else {
        requested
    }
}

/// Which part of a feed a request asks for.
#[derive(Clone, Copy, PartialEq, Eq, Structural)]
pub enum FeedCursor {
    /// Posts newer than the given one.
    After(i64),
    /// Posts older than the given one.
    Before(i64),
    /// The newest posts.
    Newest,
}

/// The part of a feed that two optional positions ask for.
pub fn feed_cursor(before_post_id: Option<i64>, after_post_id: Option<i64>) -> (r: FeedCursor)
    ensures
        r == (match (after_post_id, before_post_id) {
            (Some(a), _) if a > 0 => FeedCursor::After(a),
            (_, Some(b)) if b > 0 => FeedCursor::Before(b),
            _ => FeedCursor::Newest,
        }),
{
    if let Some(a) = after_post_id {
        if a > 0 {
            return FeedCursor::After(a);
        }
    }
    if let Some(b) = before_post_id {
        if b > 0 {
            return FeedCursor::Before(b);
        }
    }
    FeedCursor::Newest
}

/// Takes the row that was read beyond the size of a page off again, and says whether there was one.
pub fn trim_feed_rows(mut rows: Vec<FeedPostRow>, page_limit: i64) -> (r: (Vec<FeedPostRow>, bool))
    requires
        1 <= page_limit,
    ensures
        r.1 == (rows.len() > page_limit),
        r.0@ == (if rows.len() > page_limit {
            rows@.drop_last()
        } else {
            rows@
        }),
{
    let has_more: bool = rows.len() as u64 > page_limit as u64;
    if has_more {
        rows.pop();
    }
    (rows, has_more)
}

/// Of one row more than a page can show, the page keeps exactly what it can show.
pub proof fn law_page_is_full(rows: Seq<FeedPostRow>, page_limit: int)
    requires
        1 <= page_limit,
        rows.len() <= page_limit + 1,
    ensures
        (if rows.len() > page_limit {
            rows.drop_last()
        } else {
            rows
        }) == shown(rows, page_limit),
{
    if rows.len() > page_limit {
        assert(rows.drop_last() =~= rows.take(page_limit));
    }
}

/// The smallest identifier of a list of posts.
pub open spec fn lowest_id(posts: Seq<IndexPostView>) -> Option<i64>
    decreases posts.len(),
{
    if posts.len() == 0 {
        None
    } else {
        match lowest_id(posts.drop_last()) {
            Some(m) => if posts.last().post_id < m {
                Some(posts.last().post_id)
            } else {
                Some(m)
            },
            None => Some(posts.last().post_id),
        }
    }
}

/// The largest identifier of a list of posts.
pub open spec fn highest_id(posts: Seq<IndexPostView>) -> Option<i64>
    decreases posts.len(),
{
    if posts.len() == 0 {
        None
    } else {
        match highest_id(posts.drop_last()) {
            Some(m) => if posts.last().post_id > m {
                Some(posts.last().post_id)
            } else {
                Some(m)
            },
            None => Some(posts.last().post_id),
        }
    }
}

/// The positions of a page bound the identifiers in it, and are among them.
pub proof fn law_feed_positions(posts: Seq<IndexPostView>)
    ensures
        lowest_id(posts) is None == (posts.len() == 0),
        highest_id(posts) is None == (posts.len() == 0),
        forall|i: int|
            0 <= i < posts.len() ==> lowest_id(posts)->0 <= (#[trigger] posts[i]).post_id
                <= highest_id(posts)->0,
        posts.len() > 0 ==> (exists|i: int|
            0 <= i < posts.len() && lowest_id(posts) == Some((#[trigger] posts[i]).post_id)) && (
        exists|i: int|
            0 <= i < posts.len() && highest_id(posts) == Some((#[trigger] posts[i]).post_id)),
    decreases posts.len(),
{
    if posts.len() > 0 {
        let rest = posts.drop_last();
        law_feed_positions(rest);
        let n = posts.len() - 1;
        assert(posts[n] == posts.last());
        assert forall|i: int| 0 <= i < posts.len() implies lowest_id(posts)->0
            <= (#[trigger] posts[i]).post_id <= highest_id(posts)->0 by {
            if i < n {
                assert(rest[i] == posts[i]);
            }
        }
        if rest.len() > 0 {
            let a = choose|i: int|
                0 <= i < rest.len() && lowest_id(rest) == Some((#[trigger] rest[i]).post_id);
            let b = choose|i: int|
                0 <= i < rest.len() && highest_id(rest) == Some((#[trigger] rest[i]).post_id);
            assert(posts[a] == rest[a]);
            assert(posts[b] == rest[b]);
        }
    }
}

/// A page of a feed.
pub fn feed_page(posts: Vec<IndexPostView>, has_more: bool) -> (r: FeedPageResponse)
    ensures
        r.posts@ == posts@,
        r.has_more == has_more,
        r.next_before_post_id == lowest_id(posts@),
        r.next_after_post_id == highest_id(posts@),
{
    let mut low: Option<i64> = None;
    let mut high: Option<i64> = None;
    let mut i: usize = 0;
    assert(posts@.take(0) =~= Seq::<IndexPostView>::empty());
    while i < posts.len()
        invariant
            i <= posts.len(),
            low == lowest_id(posts@.take(i as int)),
            high == highest_id(posts@.take(i as int)),
        decreases posts.len() - i,
    {
        assert(posts@.take(i + 1).drop_last() =~= posts@.take(i as int));
        let id: i64 = posts[i].post_id;
        low = match low {
            Some(m) => if id < m {
                Some(id)
            } else {
                Some(m)
            },
            None => Some(id),
        };
        high = match high {
            Some(m) => if id > m {
                Some(id)
            } else {
                Some(m)
            },
            None => Some(id),
        };
        i = i + 1;
    }
    assert(posts@.take(i as int) =~= posts@);
    FeedPageResponse { posts, has_more, next_before_post_id: low, next_after_post_id: high }
}

// ---------------------------------------------------------------------------
// What belongs to a post
// ---------------------------------------------------------------------------
/// The images of a post among the first `n` rows, in their order.
pub open spec fn images_of(rows: Seq<FeedPostImageRow>, post_id: i64, n: int) -> Seq<String>
    decreases n,
{
    if n <= 0 || n > rows.len() {
        Seq::empty()
    } else if rows[n - 1].post_id == post_id {
        images_of(rows, post_id, n - 1).push(rows[n - 1].image_url)
    } else {
        images_of(rows, post_id, n - 1)
    }
}

/// Sorts the images of several posts by post.
pub fn group_images(rows: &Vec<FeedPostImageRow>) -> (r: BTreeMap<i64, Vec<String>>)
    ensures
        forall|id: i64| #[trigger]
            r@.contains_key(id) ==> r@[id]@ == images_of(rows@, id, rows.len() as int),
        forall|id: i64|
            !#[trigger] r@.contains_key(id) ==> images_of(rows@, id, rows.len() as int).len() == 0,
{
    let mut out: BTreeMap<i64, Vec<String>> = BTreeMap::new();
    let mut i: usize = 0;
    while i < rows.len()
        invariant
            i <= rows.len(),
            forall|id: i64| #[trigger]
                out@.contains_key(id) ==> out@[id]@ == images_of(rows@, id, i as int),
            forall|id: i64|
                !#[trigger] out@.contains_key(id) ==> images_of(rows@, id, i as int).len() == 0,
        decreases rows.len() - i,
    {
        let ghost before = out@;
        let id: i64 = rows[i].post_id;
        let mut urls: Vec<String> = match out.remove(&id) {
            Some(list) => list,
            None => Vec::new(),
        };
        urls.push(rows[i].image_url.clone());
        assert(urls@ =~= images_of(rows@, id, i + 1));
        out.insert(id, urls);
        assert forall|x: i64| #[trigger] out@.contains_key(x) implies out@[x]@ == images_of(
            rows@,
            x,
            i + 1,
        ) by {
            if x != id {
                assert(before.contains_key(x));
            }
        }
        assert forall|x: i64| !#[trigger] out@.contains_key(x) implies images_of(
            rows@,
            x,
            i + 1,
        ).len() == 0 by {
            assert(!before.contains_key(x));
        }
        i = i + 1;
    }
    out
}

/// The last of the first `n` rows that belongs to a post.
pub open spec fn interaction_of(rows: Seq<PostInteractionRow>, post_id: i64, n: int) -> Option<
    PostInteractionRow,
>
    decreases n,
{
    if n <= 0 || n > rows.len() {
        None
    } else if rows[n - 1].post_id == post_id {
        Some(rows[n - 1])
    } else {
        interaction_of(rows, post_id, n - 1)
    }
}

fn copy_interaction(row: &PostInteractionRow) -> (r: PostInteractionRow)
    ensures
        r == *row,
{
    PostInteractionRow {
        post_id: row.post_id,
        likes_count: row.likes_count,
        dislikes_count: row.dislikes_count,
        comments_count: row.comments_count,
        shares_count: row.shares_count,
        liked_by_current_user: row.liked_by_current_user,
        disliked_by_current_user: row.disliked_by_current_user,
        shared_by_current_user: row.shared_by_current_user,
    }
}

/// Finds what was done with each of several posts.
pub fn index_interactions(rows: &Vec<PostInteractionRow>) -> (r: BTreeMap<i64, PostInteractionRow>)
    ensures
        forall|id: i64| #[trigger]
            r@.contains_key(id) ==> interaction_of(rows@, id, rows.len() as int) == Some(r@[id]),
        forall|id: i64|
            !#[trigger] r@.contains_key(id) ==> interaction_of(rows@, id, rows.len() as int)
                is None,
{
    let mut out: BTreeMap<i64, PostInteractionRow> = BTreeMap::new();
    let mut i: usize = 0;
    while i < rows.len()
        invariant
            i <= rows.len(),
            forall|id: i64| #[trigger]
                out@.contains_key(id) ==> interaction_of(rows@, id, i as int) == Some(out@[id]),
            forall|id: i64|
                !#[trigger] out@.contains_key(id) ==> interaction_of(rows@, id, i as int) is None,
        decreases rows.len() - i,
    {
        let ghost before = out@;
        out.insert(rows[i].post_id, copy_interaction(&rows[i]));
        assert forall|x: i64| #[trigger] out@.contains_key(x) implies interaction_of(
            rows@,
            x,
            i + 1,
        ) == Some(out@[x]) by {
            if x != rows@[i as int].post_id {
                assert(before.contains_key(x));
            }
        }
        assert forall|x: i64| !#[trigger] out@.contains_key(x) implies interaction_of(
            rows@,
            x,
            i + 1,
        ) is None by {
            assert(!before.contains_key(x));
        }
        i = i + 1;
    }
    out
}

/// Whether a comment is shown as it is stored, at the start of a thread of its own, with a short
/// preview of what it answers.
pub open spec fn shows_comment(v: PostCommentView, row: PostCommentRow) -> bool {
    &&& v.comment_id == row.comment_id
    &&& v.commenter_public_id == row.commenter_public_id
    &&& v.commenter_username == row.commenter_username
    &&& v.commenter_profile_photo_url == row.commenter_profile_photo_url
    &&& v.commenter_profile_photo_style == row.commenter_profile_photo_style
    &&& v.body == row.body
    &&& v.created_at == row.created_at
    &&& v.likes_count == row.likes_count
    &&& v.liked_by_current_user == row.liked_by_current_user
    &&& v.reply_parent_comment_id == row.reply_parent_comment_id
    &&& v.reply_to_comment_id == row.reply_to_comment_id
    &&& v.reply_to_body_preview@ == cut_preview(trim(row.reply_to_body_preview@), 120)
    &&& v.reply_to_username == row.reply_to_username
    &&& v.thread_depth == 0
    &&& v.thread_root_comment_id == row.comment_id
}

pub fn comment_view(row: &PostCommentRow) -> (r: PostCommentView)
    ensures
        shows_comment(r, *row),
{
    let answered: String = trim_text(row.reply_to_body_preview.as_str());
    PostCommentView {
        comment_id: row.comment_id,
        commenter_public_id: row.commenter_public_id,
        commenter_username: row.commenter_username.clone(),
        commenter_profile_photo_url: row.commenter_profile_photo_url.clone(),
        commenter_profile_photo_style: row.commenter_profile_photo_style.clone(),
        body: row.body.clone(),
        created_at: row.created_at.clone(),
        likes_count: row.likes_count,
        liked_by_current_user: row.liked_by_current_user,
        reply_parent_comment_id: row.reply_parent_comment_id,
        reply_to_comment_id: row.reply_to_comment_id,
        reply_to_body_preview: truncate_preview(answered.as_str(), 120),
        reply_to_username: row.reply_to_username.clone(),
        thread_depth: 0,
        thread_root_comment_id: row.comment_id,
    }
}

/// The rows of a post among the first `n`, in their order.
pub open spec fn comment_rows_of(rows: Seq<PostCommentRow>, post_id: i64, n: int) -> Seq<
    PostCommentRow,
>
    decreases n,
{
    if n <= 0 || n > rows.len() {
        Seq::empty()
    } else if rows[n - 1].post_id == post_id {
        comment_rows_of(rows, post_id, n - 1).push(rows[n - 1])
    } else {
        comment_rows_of(rows, post_id, n - 1)
    }
}

/// Whether the comments are those of the rows, one for one.
pub open spec fn show_comments(views: Seq<PostCommentView>, rows: Seq<PostCommentRow>) -> bool {
    &&& views.len() == rows.len()
    &&& forall|i: int| 0 <= i < rows.len() ==> shows_comment(#[trigger] views[i], rows[i])
}

/// Whether a list is the thread order of the comments of the rows.
pub open spec fn threads(out: Seq<PostCommentView>, rows: Seq<PostCommentRow>) -> bool {
    exists|views: Seq<PostCommentView>|
        show_comments(views, rows) && #[trigger] thread_order(views) == out
}

/// The comments of one post, in the order of their threads.
pub fn comments_for_post(rows: &Vec<PostCommentRow>, post_id: i64) -> (r: Vec<PostCommentView>)
    ensures
        threads(r@, comment_rows_of(rows@, post_id, rows.len() as int)),
{
    let mut views: Vec<PostCommentView> = Vec::new();
    let mut i: usize = 0;
    while i < rows.len()
        invariant
            i <= rows.len(),
            show_comments(views@, comment_rows_of(rows@, post_id, i as int)),
        decreases rows.len() - i,
    {
        if rows[i].post_id == post_id {
            views.push(comment_view(&rows[i]));
        }
        i = i + 1;
    }
    thread_post_comments(views)
}

// ---------------------------------------------------------------------------
// Views of posts
// ---------------------------------------------------------------------------
/// What a page calls the audience of a post: its community, or else its visibility.
pub open spec fn audience_label(row: FeedPostRow) -> Seq<char> {
    if trim(row.community_name@).len() == 0 || trim(row.community_slug@).len() == 0 {
        visibility_label(normalized_visibility(row.visibility@))
    } else {
        trim(row.community_name@)
    }
}

/// Whether a post is shown as its row, its link and what belongs to it say.
pub open spec fn shows_post(
    v: IndexPostView,
    row: FeedPostRow,
    link: PreviewParts,
    images: Seq<String>,
    interaction: Option<PostInteractionRow>,
    comments: Seq<PostCommentView>,
) -> bool {
    &&& v.post_id == row.post_id
    &&& v.author_public_id == row.author_public_id
    &&& v.author_username == row.author_username
    &&& v.author_profile_photo_url == row.author_profile_photo_url
    &&& v.author_profile_photo_style == row.author_profile_photo_style
    &&& v.body == row.body
    &&& v.link_url@ == trim(row.link_url@)
    &&& v.visibility@ == normalized_visibility(row.visibility@)
    &&& v.visibility_label@ == audience_label(row)
    &&& v.community_name@ == trim(row.community_name@)
    &&& v.community_slug@ == trim(row.community_slug@)
    &&& v.link_title@ == link.title
    &&& v.link_description@ == link.description
    &&& v.link_image_url@ == link.image_url
    &&& v.has_link_preview == (trim(row.link_url@).len() > 0)
    &&& v.image_urls@ == images
    &&& v.comments@ == comments
    &&& v.created_at == row.created_at
    &&& match interaction {
        Some(it) => v.likes_count == it.likes_count && v.dislikes_count == it.dislikes_count
            && v.comments_count == it.comments_count && v.shares_count == it.shares_count
            && v.liked_by_current_user == it.liked_by_current_user && v.disliked_by_current_user
            == it.disliked_by_current_user && v.shared_by_current_user
            == it.shared_by_current_user,
        None => v.likes_count == 0 && v.dislikes_count == 0 && v.comments_count == 0
            && v.shares_count == 0 && !v.liked_by_current_user && !v.disliked_by_current_user
            && !v.shared_by_current_user,
    }
}

/// Puts together what a page shows of a post.
pub fn feed_post_view(
    row: &FeedPostRow,
    link: LinkPreview,
    image_urls: Vec<String>,
    interaction: Option<PostInteractionRow>,
    comments: Vec<PostCommentView>,
) -> (r: IndexPostView)
    ensures
        shows_post(r, *row, link@, image_urls@, interaction, comments@),
{
    let link_url: String = trim_text(row.link_url.as_str());
    let visibility: &'static str = normalize_post_visibility(row.visibility.as_str());
    let community_name: String = trim_text(row.community_name.as_str());
    let community_slug: String = trim_text(row.community_slug.as_str());
    let label: String = if community_name.as_str().is_empty() || community_slug.as_str().is_empty() {
        post_visibility_label(visibility).to_owned()
    } else {
        community_name.clone()
    };
    let has_link_preview: bool = !link_url.as_str().is_empty();
    let it: PostInteractionRow = match interaction {
        Some(it) => it,
        None => PostInteractionRow {
            post_id: row.post_id,
            likes_count: 0,
            dislikes_count: 0,
            comments_count: 0,
            shares_count: 0,
            liked_by_current_user: false,
            disliked_by_current_user: false,
            shared_by_current_user: false,
        },
    };
    IndexPostView {
        post_id: row.post_id,
        author_public_id: row.author_public_id,
        author_username: row.author_username.clone(),
        author_profile_photo_url: row.author_profile_photo_url.clone(),
        author_profile_photo_style: row.author_profile_photo_style.clone(),
        body: row.body.clone(),
        link_url,
        visibility: visibility.to_owned(),
        visibility_label: label,
        community_name,
        community_slug,
        link_title: link.title,
        link_description: link.description,
        link_image_url: link.image_url,
        has_link_preview,
        image_urls,
        likes_count: it.likes_count,
        dislikes_count: it.dislikes_count,
        comments_count: it.comments_count,
        shares_count: it.shares_count,
        liked_by_current_user: it.liked_by_current_user,
        disliked_by_current_user: it.disliked_by_current_user,
        shared_by_current_user: it.shared_by_current_user,
        comments,
        created_at: row.created_at.clone(),
    }
}

/// The preview of the link of a stored post.
pub open spec fn row_preview(row: FeedPostRow) -> PreviewParts {
    preview(trim(row.link_url@), url_parsed(trim(row.link_url@)))
}

/// Whether a post shows what is stored of it; `first` says whether no earlier post of the list has
/// its identifier.
pub open spec fn shows_stored_post(
    v: IndexPostView,
    row: FeedPostRow,
    first: bool,
    images: Seq<FeedPostImageRow>,
    interactions: Seq<PostInteractionRow>,
    comments: Seq<PostCommentRow>,
) -> bool {
    let id = row.post_id;
    if first {
        &&& shows_post(
            v,
            row,
            row_preview(row),
            images_of(images, id, images.len() as int),
            interaction_of(interactions, id, interactions.len() as int),
            v.comments@,
        )
        &&& threads(v.comments@, comment_rows_of(comments, id, comments.len() as int))
    } else {
        shows_post(v, row, row_preview(row), Seq::empty(), None, Seq::empty())
    }
}

pub open spec fn is_first(rows: Seq<FeedPostRow>, i: int) -> bool {
    forall|j: int| 0 <= j < i ==> (#[trigger] rows[j]).post_id != rows[i].post_id
}

/// The posts of a feed as a page shows them. What belongs to a post is shown with the first row
/// that has its identifier.
pub fn build_feed_post_views(
    rows: &Vec<FeedPostRow>,
    images: &Vec<FeedPostImageRow>,
    interactions: &Vec<PostInteractionRow>,
    comments: &Vec<PostCommentRow>,
) -> (r: Vec<IndexPostView>)
    ensures
        r.len() == rows.len(),
        forall|i: int|
            0 <= i < rows.len() ==> shows_stored_post(
                #[trigger] r@[i],
                rows@[i],
                is_first(rows@, i),
                images@,
                interactions@,
                comments@,
            ),
{
    let mut images_by_post: BTreeMap<i64, Vec<String>> = group_images(images);
    let mut interactions_by_post: BTreeMap<i64, PostInteractionRow> = index_interactions(
        interactions,
    );
    let mut posts: Vec<IndexPostView> = Vec::new();
    let mut i: usize = 0;
    while i < rows.len()
        invariant
            i <= rows.len(),
            posts.len() == i,
            forall|id: i64| #[trigger]
                images_by_post@.contains_key(id) ==> images_by_post@[id]@ == images_of(
                    images@,
                    id,
                    images.len() as int,
                ),
            forall|id: i64|
                !#[trigger] images_by_post@.contains_key(id) ==> images_of(
                    images@,
                    id,
                    images.len() as int,
                ).len() == 0 || exists|j: int| 0 <= j < i && (#[trigger] rows@[j]).post_id == id,
            forall|j: int|
                0 <= j < i ==> !images_by_post@.contains_key((#[trigger] rows@[j]).post_id),
            forall|id: i64| #[trigger]
                interactions_by_post@.contains_key(id) ==> interaction_of(
                    interactions@,
                    id,
                    interactions.len() as int,
                ) == Some(interactions_by_post@[id]),
            forall|id: i64|
                !#[trigger] interactions_by_post@.contains_key(id) ==> interaction_of(
                    interactions@,
                    id,
                    interactions.len() as int,
                ) is None || exists|j: int| 0 <= j < i && (#[trigger] rows@[j]).post_id == id,
            forall|j: int|
                0 <= j < i ==> !interactions_by_post@.contains_key((#[trigger] rows@[j]).post_id),
            forall|j: int|
                0 <= j < i ==> shows_stored_post(
                    #[trigger] posts@[j],
                    rows@[j],
                    is_first(rows@, j),
                    images@,
                    interactions@,
                    comments@,
                ),
        decreases rows.len() - i,
    {
        let id: i64 = rows[i].post_id;
        let mut seen: bool = false;
        let mut k: usize = 0;
        while k < i
            invariant
                k <= i < rows.len(),
                id == rows@[i as int].post_id,
                seen == exists|j: int| 0 <= j < k && (#[trigger] rows@[j]).post_id == id,
            decreases i - k,
        {
            if rows[k].post_id == id {
                seen = true;
            }
            k = k + 1;
        }
        assert(seen == !is_first(rows@, i as int));
        let link: LinkPreview = build_link_preview_data(
            trim_text(rows[i].link_url.as_str()).as_str(),
        );
        proof {
            crate::text::law_trim_idempotent(
                rows@[i as int].link_url@,
                crate::text::CharClass::White,
            );
        }
        let ghost images_before = images_by_post@;
        let ghost interactions_before = interactions_by_post@;
        let image_urls: Vec<String> = match images_by_post.remove(&id) {
            Some(list) => list,
            None => Vec::new(),
        };
        let interaction: Option<PostInteractionRow> = interactions_by_post.remove(&id);
        let thread: Vec<PostCommentView> = if seen {
            Vec::new()
        } else {
            comments_for_post(comments, id)
        };
        proof {
            if !seen {
                assert(!images_before.contains_key(id) ==> images_of(
                    images@,
                    id,
                    images.len() as int,
                ).len() == 0);
                assert(image_urls@ =~= images_of(images@, id, images.len() as int));
            } else {
                let j = choose|j: int| 0 <= j < i && (#[trigger] rows@[j]).post_id == id;
                assert(!images_before.contains_key(rows@[j].post_id));
                assert(!interactions_before.contains_key(rows@[j].post_id));
                assert(image_urls@ =~= Seq::<String>::empty());
            }
        }
        let view: IndexPostView = feed_post_view(&rows[i], link, image_urls, interaction, thread);
        posts.push(view);
        proof {
            assert(shows_stored_post(
                view,
                rows@[i as int],
                is_first(rows@, i as int),
                images@,
                interactions@,
                comments@,
            ));
            assert forall|x: i64| !#[trigger] images_by_post@.contains_key(x) implies images_of(
                images@,
                x,
                images.len() as int,
            ).len() == 0 || exists|j: int| 0 <= j < i + 1 && (#[trigger] rows@[j]).post_id == x by {
                if x == id {
                    assert(rows@[i as int].post_id == x);
                } else if images_of(images@, x, images.len() as int).len() != 0 {
                    assert(!images_before.contains_key(x));
                    let j = choose|j: int| 0 <= j < i && (#[trigger] rows@[j]).post_id == x;
                    assert(rows@[j].post_id == x);
                }
            }
            assert forall|x: i64| !#[trigger] interactions_by_post@.contains_key(x) implies interaction_of(
                interactions@,
                x,
                interactions.len() as int,
            ) is None || exists|j: int| 0 <= j < i + 1 && (#[trigger] rows@[j]).post_id == x by {
                if x == id {
                    assert(rows@[i as int].post_id == x);
                } else if interaction_of(interactions@, x, interactions.len() as int) is Some {
                    assert(!interactions_before.contains_key(x));
                    let j = choose|j: int| 0 <= j < i && (#[trigger] rows@[j]).post_id == x;
                    assert(rows@[j].post_id == x);
                }
            }
        }
        i = i + 1;
    }
    posts
}

// ---------------------------------------------------------------------------
// Pages
// ---------------------------------------------------------------------------
/// Whether a view is what a page shows in place of a post that is not there: all of it is empty,
/// but for the number, the default photo and the default visibility.
pub open spec fn is_empty_view(v: IndexPostView, post_id: i64) -> bool {
    &&& v.post_id == post_id
    &&& v.author_public_id == 0
    &&& v.author_username@.len() == 0
    &&& v.author_profile_photo_url@ == "/public/avatar.webp"@
    &&& v.author_profile_photo_style@.len() == 0
    &&& v.body@.len() == 0
    &&& v.link_url@.len() == 0
    &&& v.visibility@ == "public"@
    &&& v.visibility_label@ == "Public"@
    &&& v.community_name@.len() == 0
    &&& v.community_slug@.len() == 0
    &&& v.link_title@.len() == 0
    &&& v.link_description@.len() == 0
    &&& v.link_image_url@.len() == 0
    &&& !v.has_link_preview
    &&& v.image_urls@.len() == 0
    &&& v.likes_count == 0
    &&& v.dislikes_count == 0
    &&& v.comments_count == 0
    &&& v.shares_count == 0
    &&& !v.liked_by_current_user
    &&& !v.disliked_by_current_user
    &&& !v.shared_by_current_user
    &&& v.comments@.len() == 0
    &&& v.created_at@.len() == 0
}

/// What a page shows in place of a post that is not there.
pub fn empty_index_post_view(post_id: i64) -> (r: IndexPostView)
    ensures
        is_empty_view(r, post_id),
{
    IndexPostView {
        post_id,
        author_public_id: 0,
        author_username: String::new(),
        author_profile_photo_url: "/public/avatar.webp".to_owned(),
        author_profile_photo_style: String::new(),
        body: String::new(),
        link_url: String::new(),
        visibility: "public".to_owned(),
        visibility_label: "Public".to_owned(),
        community_name: String::new(),
        community_slug: String::new(),
        link_title: String::new(),
        link_description: String::new(),
        link_image_url: String::new(),
        has_link_preview: false,
        image_urls: Vec::new(),
        likes_count: 0,
        dislikes_count: 0,
        comments_count: 0,
        shares_count: 0,
        liked_by_current_user: false,
        disliked_by_current_user: false,
        shared_by_current_user: false,
        comments: Vec::new(),
        created_at: String::new(),
    }
}

/// The page of one post.
pub fn post_page(header: PageHeader, post_id: i64, loaded: Option<IndexPostView>) -> (r:
    PostTemplate)
    ensures
        r.post_found == loaded is Some,
        r.title@ == (if loaded is Some {
            "Post "@ + decimal(post_id as int) + " - Instavox"@
        } else {
            "Post not found - Instavox"@
        }),
        loaded matches Some(p) ==> r.post == p,
        loaded is None ==> is_empty_view(r.post, post_id),
        r.id == header.id,
        r.user_id == header.user_id,
        r.is_moderator == header.is_moderator,
        r.local_profile_domain == header.local_profile_domain,
        r.username == header.username,
        r.profile_photo_url == header.profile_photo_url,
        r.profile_photo_style == header.profile_photo_style,
        r.unread_notifications_count == header.unread_notifications_count,
        r.notifications == header.notifications,
{
    let post_found: bool = loaded.is_some();
    let title: String = if post_found {
        let mut t: String = "Post ".to_owned();
        push_decimal(&mut t, post_id);
        t.append(" - Instavox");
        t
    } else {
        "Post not found - Instavox".to_owned()
    };
    let post: IndexPostView = match loaded {
        Some(p) => p,
        None => empty_index_post_view(post_id),
    };
    PostTemplate {
        title,
        id: header.id,
        user_id: header.user_id,
        is_moderator: header.is_moderator,
        local_profile_domain: header.local_profile_domain,
        username: header.username,
        profile_photo_url: header.profile_photo_url,
        profile_photo_style: header.profile_photo_style,
        post_found,
        post,
        unread_notifications_count: header.unread_notifications_count,
        notifications: header.notifications,
    }
}

/// The start page.
pub fn index_page(header: PageHeader, posts: Vec<IndexPostView>) -> (r: IndexTemplate)
    ensures
        r.title@ == "Feeds"@,
        r.posts == posts,
        r.can_create_post == (header.user_id != 0),
        r.id == header.id,
        r.user_id == header.user_id,
        r.is_moderator == header.is_moderator,
        r.local_profile_domain == header.local_profile_domain,
        r.profile_photo_url == header.profile_photo_url,
        r.profile_photo_style == header.profile_photo_style,
        r.unread_notifications_count == header.unread_notifications_count,
        r.notifications == header.notifications,
        r.username == header.username,
{
    IndexTemplate {
        title: "Feeds".to_owned(),
        id: header.id,
        user_id: header.user_id,
        is_moderator: header.is_moderator,
        local_profile_domain: header.local_profile_domain,
        profile_photo_url: header.profile_photo_url,
        profile_photo_style: header.profile_photo_style,
        posts,
        can_create_post: header.user_id != 0,
        unread_notifications_count: header.unread_notifications_count,
        notifications: header.notifications,
        username: header.username,
    }
}

// ---------------------------------------------------------------------------
// What a list of posts shows
// ---------------------------------------------------------------------------
proof fn lemma_images_of(rows: Seq<FeedPostImageRow>, post_id: i64, n: int) -> (at: Seq<int>)
    requires
        0 <= n <= rows.len(),
    ensures
        at.len() == images_of(rows, post_id, n).len(),
        are_positions(at, n),
        forall|k: int|
            0 <= k < at.len() ==> images_of(rows, post_id, n)[k] == rows[#[trigger] at[k]].image_url
                && rows[at[k]].post_id == post_id,
        forall|i: int| 0 <= i < n && rows[i].post_id == post_id ==> #[trigger] at.contains(i),
    decreases n,
{
    if n == 0 {
        Seq::empty()
    } else {
        let before = lemma_images_of(rows, post_id, n - 1);
        lemma_next_position(before, n - 1);
        if rows[n - 1].post_id == post_id {
            before.push(n - 1)
        } else {
            before
        }
    }
}

proof fn lemma_comment_rows_of(rows: Seq<PostCommentRow>, post_id: i64, n: int) -> (at: Seq<int>)
    requires
        0 <= n <= rows.len(),
    ensures
        at.len() == comment_rows_of(rows, post_id, n).len(),
        are_positions(at, n),
        forall|k: int|
            0 <= k < at.len() ==> comment_rows_of(rows, post_id, n)[k] == rows[#[trigger] at[k]]
                && rows[at[k]].post_id == post_id,
        forall|i: int| 0 <= i < n && rows[i].post_id == post_id ==> #[trigger] at.contains(i),
    decreases n,
{
    if n == 0 {
        Seq::empty()
    } else {
        let before = lemma_comment_rows_of(rows, post_id, n - 1);
        lemma_next_position(before, n - 1);
        if rows[n - 1].post_id == post_id {
            before.push(n - 1)
        } else {
            before
        }
    }
}

proof fn lemma_interaction_of(rows: Seq<PostInteractionRow>, post_id: i64, n: int)
    requires
        0 <= n <= rows.len(),
    ensures
        match interaction_of(rows, post_id, n) {
            Some(r) => exists|i: int|
                {
                    &&& 0 <= i < n
                    &&& #[trigger] rows[i] == r
                    &&& r.post_id == post_id
                    &&& forall|j: int| i < j < n ==> (#[trigger] rows[j]).post_id != post_id
                },
            None => forall|j: int| 0 <= j < n ==> (#[trigger] rows[j]).post_id != post_id,
        },
    decreases n,
{
    if n > 0 {
        lemma_interaction_of(rows, post_id, n - 1);
        if rows[n - 1].post_id == post_id {
            assert(rows[n - 1] == interaction_of(rows, post_id, n)->0);
        } else if let Some(r) = interaction_of(rows, post_id, n - 1) {
            let i = choose|i: int|
                {
                    &&& 0 <= i < n - 1
                    &&& #[trigger] rows[i] == r
                    &&& r.post_id == post_id
                    &&& forall|j: int| i < j < n - 1 ==> (#[trigger] rows[j]).post_id != post_id
                };
            assert(rows[i] == r);
        }
    }
}

/// A post of a list shows all its images, in the order of their rows, and none of another post.
pub proof fn law_posts_show_their_images(
    v: IndexPostView,
    row: FeedPostRow,
    images: Seq<FeedPostImageRow>,
    interactions: Seq<PostInteractionRow>,
    comments: Seq<PostCommentRow>,
)
    requires
        shows_stored_post(v, row, true, images, interactions, comments),
    ensures
        exists|at: Seq<int>|
            {
                &&& #[trigger] are_positions(at, images.len() as int)
                &&& at.len() == v.image_urls.len()
                &&& forall|k: int|
                    0 <= k < at.len() ==> v.image_urls[k] == images[#[trigger] at[k]].image_url
                &&& forall|i: int|
                    0 <= i < images.len() ==> (#[trigger] at.contains(i) <==> images[i].post_id
                        == row.post_id)
            },
{
    let at = lemma_images_of(images, row.post_id, images.len() as int);
    assert forall|i: int| 0 <= i < images.len() && #[trigger] at.contains(i) implies images[i].post_id
        == row.post_id by {
        let k = choose|k: int| 0 <= k < at.len() && at[k] == i;
        assert(images[at[k]].post_id == row.post_id);
    }
}

/// A post of a list shows the counts and the reactions of the last row that is stored of them, and
/// none where nothing is stored.
pub proof fn law_posts_show_their_reactions(
    v: IndexPostView,
    row: FeedPostRow,
    images: Seq<FeedPostImageRow>,
    interactions: Seq<PostInteractionRow>,
    comments: Seq<PostCommentRow>,
    i: int,
)
    requires
        shows_stored_post(v, row, true, images, interactions, comments),
    ensures
        0 <= i < interactions.len() && interactions[i].post_id == row.post_id && (forall|j: int|
            i < j < interactions.len() ==> (#[trigger] interactions[j]).post_id != row.post_id)
            ==> {
            let it = interactions[i];
            &&& v.likes_count == it.likes_count
            &&& v.dislikes_count == it.dislikes_count
            &&& v.comments_count == it.comments_count
            &&& v.shares_count == it.shares_count
            &&& v.liked_by_current_user == it.liked_by_current_user
            &&& v.disliked_by_current_user == it.disliked_by_current_user
            &&& v.shared_by_current_user == it.shared_by_current_user
        },
        (forall|j: int|
            0 <= j < interactions.len() ==> (#[trigger] interactions[j]).post_id != row.post_id)
            ==> {
            &&& v.likes_count == 0 && v.dislikes_count == 0
            &&& v.comments_count == 0 && v.shares_count == 0
            &&& !v.liked_by_current_user && !v.disliked_by_current_user
                && !v.shared_by_current_user
        },
{
    lemma_interaction_of(interactions, row.post_id, interactions.len() as int);
    if let Some(r) = interaction_of(interactions, row.post_id, interactions.len() as int) {
        let k = choose|k: int|
            {
                &&& 0 <= k < interactions.len()
                &&& #[trigger] interactions[k] == r
                &&& r.post_id == row.post_id
                &&& forall|j: int|
                    k < j < interactions.len() ==> (#[trigger] interactions[j]).post_id
                        != row.post_id
            };
        if 0 <= i < k {
            assert(interactions[k].post_id == row.post_id);
        }
        if k < i < interactions.len() {
            assert(interactions[i].post_id != row.post_id);
        }
    }
}

/// A post of a list shows what is stored of it and of its author.
pub proof fn law_posts_show_their_row(
    v: IndexPostView,
    row: FeedPostRow,
    first: bool,
    images: Seq<FeedPostImageRow>,
    interactions: Seq<PostInteractionRow>,
    comments: Seq<PostCommentRow>,
)
    requires
        shows_stored_post(v, row, first, images, interactions, comments),
    ensures
        v.post_id == row.post_id,
        v.author_public_id == row.author_public_id,
        v.author_username == row.author_username,
        v.author_profile_photo_url == row.author_profile_photo_url,
        v.author_profile_photo_style == row.author_profile_photo_style,
        v.body == row.body,
        v.created_at == row.created_at,
        v.link_url@ == trim(row.link_url@),
        v.has_link_preview <==> trim(row.link_url@).len() > 0,
        v.community_name@ == trim(row.community_name@),
        v.community_slug@ == trim(row.community_slug@),
        trim(row.community_name@).len() > 0 && trim(row.community_slug@).len() > 0
            ==> v.visibility_label@ == trim(row.community_name@),
        trim(row.community_name@).len() == 0 || trim(row.community_slug@).len() == 0
            ==> v.visibility_label@ == visibility_label(row.visibility@),
{
    law_visibility_normal(row.visibility@);
}

/// A post of a list shows all its comments, threaded, and none of another post: each entry says
/// what a row of the post says.
pub proof fn law_posts_show_their_comments(
    v: IndexPostView,
    row: FeedPostRow,
    images: Seq<FeedPostImageRow>,
    interactions: Seq<PostInteractionRow>,
    comments: Seq<PostCommentRow>,
    i: int,
)
    requires
        shows_stored_post(v, row, true, images, interactions, comments),
    ensures
        0 <= i < comments.len() && comments[i].post_id == row.post_id ==> has_comment(
            v.comments@,
            comments[i].comment_id,
        ),
        0 <= i < v.comments.len() ==> exists|k: int|
            {
                &&& 0 <= k < comments.len()
                &&& (#[trigger] comments[k]).post_id == row.post_id
                &&& v.comments[i].comment_id == comments[k].comment_id
                &&& v.comments[i].body == comments[k].body
                &&& v.comments[i].commenter_username == comments[k].commenter_username
                &&& v.comments[i].commenter_public_id == comments[k].commenter_public_id
                &&& v.comments[i].created_at == comments[k].created_at
                &&& v.comments[i].likes_count == comments[k].likes_count
                &&& v.comments[i].liked_by_current_user == comments[k].liked_by_current_user
                &&& v.comments[i].reply_to_comment_id == comments[k].reply_to_comment_id
                &&& v.comments[i].reply_to_username == comments[k].reply_to_username
            },
{
    let id = row.post_id;
    let own = comment_rows_of(comments, id, comments.len() as int);
    let at = lemma_comment_rows_of(comments, id, comments.len() as int);
    let views = choose|views: Seq<PostCommentView>|
        show_comments(views, own) && #[trigger] thread_order(views) == v.comments@;
    law_threading_keeps_comments(views);
    if 0 <= i < comments.len() && comments[i].post_id == id {
        assert(at.contains(i));
        let k = choose|k: int| 0 <= k < at.len() && at[k] == i;
        assert(own[k] == comments[at[k]]);
        assert(shows_comment(views[k], own[k]));
        assert(has_comment(views, comments[i].comment_id));
    }
    if 0 <= i < v.comments.len() {
        law_threading_keeps_contents(views, i);
        let k = choose|k: int|
            0 <= k < views.len() && {
                let old = #[trigger] views[k];
                let new = thread_order(views)[i];
                &&& new.comment_id == old.comment_id
                &&& new.commenter_public_id == old.commenter_public_id
                &&& new.commenter_username == old.commenter_username
                &&& new.commenter_profile_photo_url == old.commenter_profile_photo_url
                &&& new.commenter_profile_photo_style == old.commenter_profile_photo_style
                &&& new.body == old.body
                &&& new.created_at == old.created_at
                &&& new.likes_count == old.likes_count
                &&& new.liked_by_current_user == old.liked_by_current_user
                &&& new.reply_parent_comment_id == old.reply_parent_comment_id
                &&& new.reply_to_comment_id == old.reply_to_comment_id
                &&& new.reply_to_body_preview == old.reply_to_body_preview
                &&& new.reply_to_username == old.reply_to_username
            };
        assert(shows_comment(views[k], own[k]));
        assert(own[k] == comments[at[k]]);
        assert(comments[at[k]].post_id == id);
    }
}

/// Which texts of posts are taken: those of at most 10000 bytes that hold something or have images
/// beside them.
pub proof fn law_post_texts(text: Seq<char>, has_images: bool)
    ensures
        draft_error(text, has_images) is None <==> byte_len(text) <= 10_000 && (text.len() > 0
            || has_images),
{
}

/// A preview is the text where it is short enough; else it begins with as much of the text as it
/// may, followed by three dots.
pub proof fn law_previews(value: Seq<char>, max_chars: nat)
    ensures
        value.len() <= max_chars ==> cut_preview(value, max_chars) == value,
        value.len() > max_chars ==> cut_preview(value, max_chars).len() == max_chars + 3
            && value.take(max_chars as int).is_prefix_of(cut_preview(value, max_chars))
            && cut_preview(value, max_chars).skip(max_chars as int) == "..."@,
{
    reveal_strlit("...");
    if value.len() > max_chars {
        assert(cut_preview(value, max_chars).skip(max_chars as int) =~= "..."@);
    }
}

/// The preview of a post is that of the first of its text, its link and its image that is not
/// blank.
pub proof fn law_post_preview_order(
    body: Seq<char>,
    link_url: Seq<char>,
    image_url: Seq<char>,
    max_chars: nat,
)
    ensures
        trim(body).len() > 0 ==> post_preview(body, link_url, image_url, max_chars) == cut_preview(
            trim(body),
            max_chars,
        ),
        trim(body).len() == 0 ==> post_preview(body, link_url, image_url, max_chars)
            == post_preview(link_url, image_url, ""@, max_chars),
{
    reveal_strlit("");
    assert(""@.len() == 0);
}

/// A comment of a post shows what is stored of it, with the beginning of what it answers, and stands
/// by itself before threading.
pub proof fn law_comments_show_their_row(v: PostCommentView, row: PostCommentRow)
    requires
        shows_comment(v, row),
    ensures
        v.comment_id == row.comment_id && v.body == row.body && v.created_at == row.created_at,
        v.commenter_public_id == row.commenter_public_id && v.commenter_username
            == row.commenter_username,
        v.commenter_profile_photo_url == row.commenter_profile_photo_url,
        v.commenter_profile_photo_style == row.commenter_profile_photo_style,
        v.likes_count == row.likes_count && v.liked_by_current_user == row.liked_by_current_user,
        v.reply_parent_comment_id == row.reply_parent_comment_id,
        v.reply_to_comment_id == row.reply_to_comment_id,
        v.reply_to_username == row.reply_to_username,
        trim(row.reply_to_body_preview@).len() <= 120 ==> v.reply_to_body_preview@ == trim(
            row.reply_to_body_preview@,
        ),
        v.thread_depth == 0 && v.thread_root_comment_id == row.comment_id,
{
}

/// A post shows the preview of its link.
pub proof fn law_posts_show_their_link(
    v: IndexPostView,
    row: FeedPostRow,
    first: bool,
    images: Seq<FeedPostImageRow>,
    interactions: Seq<PostInteractionRow>,
    comments: Seq<PostCommentRow>,
)
    requires
        shows_stored_post(v, row, first, images, interactions, comments),
    ensures
        ({
            let link = trim(row.link_url@);
            let p = preview(link, url_parsed(link));
            &&& v.link_title@ == p.title
            &&& v.link_description@ == p.description
            &&& v.link_image_url@ == p.image_url
        }),
{
}

/// A post that is not there shows nothing but its number.
pub proof fn law_missing_posts(v: IndexPostView, post_id: i64)
    requires
        is_empty_view(v, post_id),
    ensures
        v.post_id == post_id,
        v.author_public_id == 0 && v.author_username@.len() == 0 && v.body@.len() == 0,
        v.link_url@.len() == 0 && !v.has_link_preview && v.image_urls@.len() == 0
            && v.comments@.len() == 0 && v.created_at@.len() == 0,
        v.likes_count == 0 && v.dislikes_count == 0 && v.comments_count == 0 && v.shares_count == 0,
        !v.liked_by_current_user && !v.disliked_by_current_user && !v.shared_by_current_user,
        v.visibility@ == "public"@ && v.visibility_label@ == "Public"@,
        v.author_profile_photo_url@ == "/public/avatar.webp"@,
{
}

/// Why the text of a post is refused.
pub proof fn law_post_text_refusals(text: Seq<char>, has_images: bool)
    ensures
        byte_len(text) > 10_000 ==> draft_error(text, has_images) == Some(
            "Post text must be at most 10000 characters"@,
        ),
        byte_len(text) <= 10_000 && text.len() == 0 && !has_images ==> draft_error(text, has_images)
            == Some("A post requires text or at least one image"@),
{
}

} // verus!
