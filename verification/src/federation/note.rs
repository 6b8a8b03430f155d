//! Posts as other servers see them.

use vstd::prelude::*;
use vstd::string::*;

use crate::number::decimal;
use super::links::{
    absolutize_media_url, followers_parts, followers_url_from_actor, media_address, parsed_or,
    post_note_url, post_text, public_post_url,
};
use crate::markup::{entity, escape_html_text, escaped};
use crate::profile::Loaded;
use crate::text::{
    eq_ignore_case, law_trim, lemma_replace_behind, lemma_replace_skips, lower, matches_at, replace,
    replace_from, replace_text, str_eq, to_lower, trim, trim_text, CharClass,
};
use crate::web::{answers, text_reply, ReplyView, Step, INTERNAL_SERVER_ERROR, NOT_FOUND};
use crate::weburl::{url_joined, url_parsed, UrlParts, WebUrl};

verus! {

/// A stored post.
pub struct LocalPostRow {
    pub post_id: i64,
    pub user_id: i32,
    pub body: String,
    pub link_url: String,
    pub visibility: String,
    pub community_id: Option<i64>,
    pub created_at: Option<i64>,
}

pub struct LocalPostImageRow {
    pub image_url: String,
    pub mime_type: String,
}

pub struct ActivityPubAttachment {
    pub kind: String,
    pub media_type: String,
    pub url: WebUrl,
    pub name: String,
}

/// The document by which a post is presented to other servers.
pub struct ActivityPubNote {
    pub id: WebUrl,
    pub attributed_to: WebUrl,
    pub to: Vec<WebUrl>,
    pub cc: Vec<WebUrl>,
    pub content: String,
    pub url: WebUrl,
    pub published: Option<i64>,
    pub attachment: Vec<ActivityPubAttachment>,
}

// ---------------------------------------------------------------------------
// Recipients
// ---------------------------------------------------------------------------
/// The recipient that stands for everybody.
pub const PUBLIC_RECIPIENT: &'static str = "https://www.w3.org/ns/activitystreams#Public";

/// The parts of the recipient that stands for everybody.
pub open spec fn public_parts() -> UrlParts {
    UrlParts {
        href: PUBLIC_RECIPIENT@,
        scheme: "https"@,
        host: Some("www.w3.org"@),
        domain: Some("www.w3.org"@),
        port: None,
        path: "/ns/activitystreams"@,
        query: None,
    }
}

/// `activitypub_federation::kinds::public`: the address that stands for everybody, with the parts
/// read off as in `parse_url`.
#[verifier::external_body]
pub(crate) fn public_recipient() -> (r: WebUrl)
    ensures
        r@ == public_parts(),
{
    let u = activitypub_federation::kinds::public();
    WebUrl {
        href: u.as_str().to_string(),
        scheme: u.scheme().to_string(),
        host: u.host_str().map(str::to_string),
        domain: u.domain().map(str::to_string),
        port: u.port(),
        path: u.path().to_string(),
        query: u.query().map(str::to_string),
    }
}

/// Whether one of the recipients stands for everybody.
pub open spec fn names_everybody(urls: Seq<WebUrl>) -> bool {
    exists|i: int| 0 <= i < urls.len() && (#[trigger] urls[i])@.href == PUBLIC_RECIPIENT@
}

pub fn is_public_recipient(urls: &Vec<WebUrl>) -> (r: bool)
    ensures
        r == names_everybody(urls@),
{
    let mut i: usize = 0;
    while i < urls.len()
        invariant
            i <= urls.len(),
            forall|j: int| 0 <= j < i ==> (#[trigger] urls@[j])@.href != PUBLIC_RECIPIENT@,
        decreases urls.len() - i,
    {
        if str_eq(urls[i].href.as_str(), PUBLIC_RECIPIENT) {
            assert(urls@[i as int]@.href == PUBLIC_RECIPIENT@);
            return true;
        }
        i = i + 1;
    }
    false
}

/// Whether an activity or its object is for everybody.
pub open spec fn is_public(
    activity_to: Seq<WebUrl>,
    activity_cc: Seq<WebUrl>,
    object_to: Seq<WebUrl>,
    object_cc: Seq<WebUrl>,
) -> bool {
    names_everybody(activity_to) || names_everybody(activity_cc) || names_everybody(object_to)
        || names_everybody(object_cc)
}

pub fn activity_or_object_is_public(
    activity_to: &Vec<WebUrl>,
    activity_cc: &Vec<WebUrl>,
    object_to: &Vec<WebUrl>,
    object_cc: &Vec<WebUrl>,
) -> (r: bool)
    ensures
        r == is_public(activity_to@, activity_cc@, object_to@, object_cc@),
{
    is_public_recipient(activity_to) || is_public_recipient(activity_cc) || is_public_recipient(
        object_to,
    ) || is_public_recipient(object_cc)
}

/// Who a post is for: everybody and the followers for a public one, else the followers.
pub struct Recipients {
    pub to: Vec<WebUrl>,
    pub cc: Vec<WebUrl>,
}

pub open spec fn is_public_visibility(visibility: Seq<char>) -> bool {
    lower(trim(visibility)) == lower("public"@)
}

pub open spec fn are_recipients(
    to: Seq<WebUrl>,
    cc: Seq<WebUrl>,
    followers: UrlParts,
    visibility: Seq<char>,
) -> bool {
    if is_public_visibility(visibility) {
        to.len() == 1 && to[0]@ == public_parts() && cc.len() == 1 && cc[0]@ == followers
    } else {
        to.len() == 1 && to[0]@ == followers && cc.len() == 0
    }
}

/// Picks the recipients of a post among everybody and the followers.
pub fn recipients(followers: WebUrl, visibility: &str) -> (r: Recipients)
    ensures
        are_recipients(r.to@, r.cc@, followers@, visibility@),
{
    let trimmed: String = trim_text(visibility);
    let mut to: Vec<WebUrl> = Vec::new();
    let mut cc: Vec<WebUrl> = Vec::new();
    if eq_ignore_case(trimmed.as_str(), "public") {
        to.push(public_recipient());
        cc.push(followers);
    } else {
        to.push(followers);
    }
    Recipients { to, cc }
}

pub fn note_recipients(actor_id: &WebUrl, visibility: &str) -> (r: Result<Recipients, String>)
    ensures
        match followers_parts(actor_id@) {
            Ok(followers) => r matches Ok(x) && are_recipients(
                x.to@,
                x.cc@,
                followers,
                visibility@,
            ),
            Err(e) => r matches Err(m) && m@ == e,
        },
{
    match followers_url_from_actor(actor_id) {
        Ok(followers) => Ok(recipients(followers, visibility)),
        Err(e) => Err(e),
    }
}

/// Other servers take a post for public exactly where it is, unless the followers of its author
/// have the address that stands for everybody.
pub proof fn law_recipients_tell_visibility(
    to: Seq<WebUrl>,
    cc: Seq<WebUrl>,
    followers: UrlParts,
    visibility: Seq<char>,
)
    requires
        are_recipients(to, cc, followers, visibility),
        followers.href != PUBLIC_RECIPIENT@,
    ensures
        is_public(to, cc, to, cc) == is_public_visibility(visibility),
{
    if is_public_visibility(visibility) {
        assert(to[0]@.href == PUBLIC_RECIPIENT@);
    }
}

// ---------------------------------------------------------------------------
// Content
// ---------------------------------------------------------------------------
/// The paragraph for the text of a post.
pub open spec fn body_paragraph(body: Seq<char>) -> Seq<char> {
    if trim(body).len() == 0 {
        ""@
    } else {
        "<p>"@ + replace_text(escaped(trim(body)), "\n"@, "<br>"@) + "</p>"@
    }
}

/// The paragraph for the link of a post.
pub open spec fn link_paragraph(link: Seq<char>) -> Seq<char> {
    if trim(link).len() == 0 {
        ""@
    } else {
        "<p><a href=\""@ + escaped(trim(link)) + "\" rel=\"nofollow noopener noreferrer\">"@
            + escaped(trim(link)) + "</a></p>"@
    }
}

/// A post as markup: its text and its link, both escaped.
pub open spec fn note_content(body: Seq<char>, link: Seq<char>) -> Seq<char> {
    body_paragraph(body) + link_paragraph(link)
}

pub fn render_note_content(post: &LocalPostRow) -> (r: String)
    ensures
        r@ == note_content(post.body@, post.link_url@),
{
    proof {
        reveal_strlit("\n");
        reveal_strlit("");
    }
    let body: String = trim_text(post.body.as_str());
    let mut out: String = "".to_owned();
    if !body.as_str().is_empty() {
        let safe: String = escape_html_text(body.as_str());
        out.append("<p>");
        out.append(replace(safe.as_str(), "\n", "<br>").as_str());
        out.append("</p>");
    }
    assert(out@ =~= body_paragraph(post.body@));
    let link: String = trim_text(post.link_url.as_str());
    if !link.as_str().is_empty() {
        let safe: String = escape_html_text(link.as_str());
        out.append("<p><a href=\"");
        out.append(safe.as_str());
        out.append("\" rel=\"nofollow noopener noreferrer\">");
        out.append(safe.as_str());
        out.append("</a></p>");
    }
    assert(out@ =~= note_content(post.body@, post.link_url@));
    out
}

// ---------------------------------------------------------------------------
// Attachments
// ---------------------------------------------------------------------------
/// The media types and the addresses of the first `n` images; those without an address are left
/// out.
pub open spec fn image_addresses(
    images: Seq<LocalPostImageRow>,
    base: Seq<char>,
    n: int,
) -> Seq<(Seq<char>, UrlParts)>
    decreases n,
{
    if n <= 0 || n > images.len() {
        Seq::empty()
    } else {
        match media_address(base, Some(images[n - 1].image_url@)) {
            Some(u) => image_addresses(images, base, n - 1).push((images[n - 1].mime_type@, u)),
            None => image_addresses(images, base, n - 1),
        }
    }
}

/// Whether the attachments are the given images.
pub open spec fn attaches(
    attachments: Seq<ActivityPubAttachment>,
    images: Seq<(Seq<char>, UrlParts)>,
) -> bool {
    &&& attachments.len() == images.len()
    &&& forall|i: int|
        0 <= i < images.len() ==> (#[trigger] attachments[i]).kind@ == "Image"@
            && attachments[i].media_type@ == images[i].0 && attachments[i].url@ == images[i].1
            && attachments[i].name@ == ""@
}

pub fn image_attachments(images: &Vec<LocalPostImageRow>, base_url: &str) -> (r: Vec<
    ActivityPubAttachment,
>)
    ensures
        attaches(r@, image_addresses(images@, base_url@, images.len() as int)),
{
    let mut out: Vec<ActivityPubAttachment> = Vec::new();
    let mut i: usize = 0;
    while i < images.len()
        invariant
            i <= images.len(),
            attaches(out@, image_addresses(images@, base_url@, i as int)),
        decreases images.len() - i,
    {
        match absolutize_media_url(base_url, Some(images[i].image_url.as_str())) {
            Some(url) => {
                out.push(
                    ActivityPubAttachment {
                        kind: "Image".to_owned(),
                        media_type: images[i].mime_type.clone(),
                        url,
                        name: "".to_owned(),
                    },
                );
            },
            None => {},
        }
        i = i + 1;
    }
    out
}

/// Whether an attachment presents an image: as an image of its media type at its address, which is
/// absolute or within the site.
pub open spec fn presents_image(
    a: ActivityPubAttachment,
    image: LocalPostImageRow,
    base: Seq<char>,
) -> bool {
    let raw = trim(image.image_url@);
    &&& raw.len() > 0
    &&& a.kind@ == "Image"@
    &&& a.media_type@ == image.mime_type@
    &&& a.name@ == ""@
    &&& match url_parsed(raw) {
        Ok(u) => a.url@ == u,
        Err(_) => url_joined(base, raw) == Ok::<UrlParts, Seq<char>>(a.url@),
    }
}

/// Whether an image has an address: its text is not blank, and parses alone or within the site.
pub open spec fn has_address(image: LocalPostImageRow, base: Seq<char>) -> bool {
    let raw = trim(image.image_url@);
    raw.len() > 0 && (url_parsed(raw) is Ok || url_joined(base, raw) is Ok)
}

proof fn lemma_image_rows(images: Seq<LocalPostImageRow>, base: Seq<char>, n: int) -> (rows: Seq<
    int,
>)
    requires
        0 <= n <= images.len(),
    ensures
        rows.len() == image_addresses(images, base, n).len(),
        forall|k: int|
            0 <= k < rows.len() ==> 0 <= #[trigger] rows[k] < n && media_address(
                base,
                Some(images[rows[k]].image_url@),
            ) == Some(image_addresses(images, base, n)[k].1) && image_addresses(
                images,
                base,
                n,
            )[k].0 == images[rows[k]].mime_type@,
        forall|k: int, m: int| 0 <= k < m < rows.len() ==> #[trigger] rows[k] < #[trigger] rows[m],
        forall|i: int| 0 <= i < n && has_address(images[i], base) ==> #[trigger] rows.contains(i),
    decreases n,
{
    if n == 0 {
        Seq::empty()
    } else {
        let before = lemma_image_rows(images, base, n - 1);
        match media_address(base, Some(images[n - 1].image_url@)) {
            Some(_) => {
                let rows = before.push(n - 1);
                assert forall|i: int| 0 <= i < n && has_address(images[i], base) implies #[trigger] rows.contains(
                i) by {
                    if i < n - 1 {
                        assert(before.contains(i));
                        let k = choose|k: int| 0 <= k < before.len() && before[k] == i;
                        assert(rows[k] == i);
                    } else {
                        assert(rows[before.len() as int] == i);
                    }
                }
                rows
            },
            None => {
                assert(!has_address(images[n - 1], base));
                before
            },
        }
    }
}

/// Each image of a post that has an address is attached, and nothing else: the attachments present
/// rows of the post in rising order, and every row with an address is among them.
pub proof fn law_every_image_is_attached(
    attachments: Seq<ActivityPubAttachment>,
    images: Seq<LocalPostImageRow>,
    base: Seq<char>,
)
    requires
        attaches(attachments, image_addresses(images, base, images.len() as int)),
    ensures
        exists|rows: Seq<int>|
            {
                &&& rows.len() == attachments.len()
                &&& forall|k: int|
                    0 <= k < rows.len() ==> 0 <= #[trigger] rows[k] < images.len()
                        && presents_image(attachments[k], images[rows[k]], base)
                &&& forall|k: int, m: int|
                    0 <= k < m < rows.len() ==> #[trigger] rows[k] < #[trigger] rows[m]
                &&& forall|i: int|
                    0 <= i < images.len() && has_address(images[i], base)
                        ==> #[trigger] rows.contains(i)
            },
{
    let n = images.len() as int;
    let rows = lemma_image_rows(images, base, n);
    assert forall|k: int| 0 <= k < rows.len() implies 0 <= #[trigger] rows[k] < images.len()
        && presents_image(attachments[k], images[rows[k]], base) by {
        assert(attachments[k].kind@ == "Image"@);
    }
}

/// Where every image of a post has an address, there are as many attachments as images, and each
/// presents the image at its own place.
pub proof fn law_all_images_are_attached_in_place(
    attachments: Seq<ActivityPubAttachment>,
    images: Seq<LocalPostImageRow>,
    base: Seq<char>,
)
    requires
        attaches(attachments, image_addresses(images, base, images.len() as int)),
        forall|i: int| 0 <= i < images.len() ==> has_address(#[trigger] images[i], base),
    ensures
        attachments.len() == images.len(),
        forall|i: int|
            0 <= i < images.len() ==> presents_image(
                #[trigger] attachments[i],
                images[i],
                base,
            ),
{
    lemma_all_addresses(images, base, images.len() as int);
    assert forall|i: int| 0 <= i < images.len() implies presents_image(
        #[trigger] attachments[i],
        images[i],
        base,
    ) by {
        assert(has_address(images[i], base));
    }
}

proof fn lemma_all_addresses(images: Seq<LocalPostImageRow>, base: Seq<char>, n: int)
    requires
        0 <= n <= images.len(),
        forall|i: int| 0 <= i < n ==> has_address(#[trigger] images[i], base),
    ensures
        image_addresses(images, base, n).len() == n,
        forall|i: int|
            0 <= i < n ==> (#[trigger] image_addresses(images, base, n)[i]).0
                == images[i].mime_type@ && Some(image_addresses(images, base, n)[i].1)
                == media_address(base, Some(images[i].image_url@)),
    decreases n,
{
    if n > 0 {
        assert(has_address(images[n - 1], base));
        lemma_all_addresses(images, base, n - 1);
    }
}

// ---------------------------------------------------------------------------
// The document of a post
// ---------------------------------------------------------------------------
/// What stands in the way of presenting a post: the first of its addresses that does not parse.
pub open spec fn note_fault(post: LocalPostRow, actor: UrlParts, base: Seq<char>) -> Option<
    Seq<char>,
> {
    match parsed_or(
        post_text(base, "/ap/posts/"@, post.post_id as int),
        "invalid post activitypub url: "@,
    ) {
        Err(e) => Some(e),
        Ok(_) => match parsed_or(
            post_text(base, "/posts/"@, post.post_id as int),
            "invalid public post url: "@,
        ) {
            Err(e) => Some(e),
            Ok(_) => match followers_parts(actor) {
                Err(e) => Some(e),
                Ok(_) => None,
            },
        },
    }
}

/// Whether a document presents a post.
pub open spec fn presents_post(
    n: ActivityPubNote,
    post: LocalPostRow,
    actor: WebUrl,
    images: Seq<LocalPostImageRow>,
    base: Seq<char>,
) -> bool {
    &&& Ok::<UrlParts, Seq<char>>(n.id@) == url_parsed(
        post_text(base, "/ap/posts/"@, post.post_id as int),
    )
    &&& Ok::<UrlParts, Seq<char>>(n.url@) == url_parsed(
        post_text(base, "/posts/"@, post.post_id as int),
    )
    &&& n.attributed_to == actor
    &&& followers_parts(actor@) matches Ok(followers) && are_recipients(
        n.to@,
        n.cc@,
        followers,
        post.visibility@,
    )
    &&& n.content@ == note_content(post.body@, post.link_url@)
    &&& n.published == post.created_at
    &&& attaches(n.attachment@, image_addresses(images, base, images.len() as int))
}

/// The document of a post, from its images and the address of its author.
pub fn local_post_to_note(
    post: &LocalPostRow,
    actor_id: &WebUrl,
    images: &Vec<LocalPostImageRow>,
    base_url: &str,
) -> (r: Result<ActivityPubNote, String>)
    ensures
        match note_fault(*post, actor_id@, base_url@) {
            Some(e) => r matches Err(m) && m@ == e,
            None => r matches Ok(n) && presents_post(n, *post, *actor_id, images@, base_url@),
        },
{
    let id: WebUrl = match post_note_url(base_url, post.post_id) {
        Ok(u) => u,
        Err(e) => {
            return Err(e);
        },
    };
    let url: WebUrl = match public_post_url(base_url, post.post_id) {
        Ok(u) => u,
        Err(e) => {
            return Err(e);
        },
    };
    let addressed: Recipients = match note_recipients(actor_id, post.visibility.as_str()) {
        Ok(x) => x,
        Err(e) => {
            return Err(e);
        },
    };
    Ok(
        ActivityPubNote {
            id,
            attributed_to: actor_id.copy(),
            to: addressed.to,
            cc: addressed.cc,
            content: render_note_content(post),
            url,
            published: post.created_at,
            attachment: image_attachments(images, base_url),
        },
    )
}

// ---------------------------------------------------------------------------
// Which posts leave this server
// ---------------------------------------------------------------------------
/// Whether a post is sent to other servers: a public one of its author, outside of communities.
pub open spec fn is_sent(post: LocalPostRow, author_user_id: i32) -> bool {
    &&& post.user_id == author_user_id
    &&& post.community_id is None
    &&& lower(trim(post.visibility@)) == "public"@
}

pub fn may_send_post(post: &LocalPostRow, author_user_id: i32) -> (r: bool)
    ensures
        r == is_sent(*post, author_user_id),
{
    if post.user_id != author_user_id || post.community_id.is_some() {
        return false;
    }
    let trimmed: String = trim_text(post.visibility.as_str());
    let visibility: String = to_lower(trimmed.as_str());
    str_eq(visibility.as_str(), "public")
}

/// Whether a post is shown to other servers that ask for it.
pub open spec fn is_served(post: LocalPostRow) -> bool {
    &&& post.community_id is None
    &&& lower(trim(post.visibility@)) != "private"@
    &&& lower(trim(post.visibility@)) != "friends"@
}

pub fn may_serve_post(post: &LocalPostRow) -> (r: bool)
    ensures
        r == is_served(*post),
{
    let trimmed: String = trim_text(post.visibility.as_str());
    let visibility: String = to_lower(trimmed.as_str());
    !post.community_id.is_some() && !str_eq(visibility.as_str(), "private") && !str_eq(
        visibility.as_str(),
        "friends",
    )
}

/// Decides whether a post that another server asks for is shown.
pub fn check_served_post(post: Loaded<LocalPostRow>) -> (r: Step<LocalPostRow>)
    ensures
        match post {
            Loaded::Found(p) => if is_served(p) {
                r == Step::Proceed(p)
            } else {
                answers(r, ReplyView::Text(NOT_FOUND, "Post not found"@))
            },
            Loaded::Missing => answers(r, ReplyView::Text(NOT_FOUND, "Post not found"@)),
            Loaded::Failed => answers(
                r,
                ReplyView::Text(INTERNAL_SERVER_ERROR, "Failed to load post"@),
            ),
        },
{
    match post {
        Loaded::Found(p) => {
            if may_serve_post(&p) {
                Step::Proceed(p)
            } else {
                Step::Answer(text_reply(NOT_FOUND, "Post not found"))
            }
        },
        Loaded::Missing => Step::Answer(text_reply(NOT_FOUND, "Post not found")),
        Loaded::Failed => Step::Answer(text_reply(INTERNAL_SERVER_ERROR, "Failed to load post")),
    }
}

/// What is sent to other servers can also be asked for, and is addressed to everybody.
pub proof fn law_sent_posts_are_served(post: LocalPostRow, author_user_id: i32)
    requires
        is_sent(post, author_user_id),
    ensures
        is_served(post),
        is_public_visibility(post.visibility@),
{
    reveal_strlit("public");
    reveal_strlit("private");
    reveal_strlit("friends");
    assert("public"@.len() == 6 && "private"@.len() == 7 && "friends"@.len() == 7);
    assert(lower("public"@) =~= "public"@);
}

/// A public post goes to everybody and to the followers of its author; another one to the followers
/// alone.
pub proof fn law_whom_posts_go_to(
    n: ActivityPubNote,
    post: LocalPostRow,
    actor: WebUrl,
    images: Seq<LocalPostImageRow>,
    base: Seq<char>,
    followers: UrlParts,
)
    requires
        presents_post(n, post, actor, images, base),
        url_joined(actor@.href, "followers"@) == Ok::<UrlParts, Seq<char>>(followers),
    ensures
        lower(trim(post.visibility@)) == "public"@ ==> n.to.len() == 1 && n.to[0]@.href
            == "https://www.w3.org/ns/activitystreams#Public"@ && n.cc.len() == 1 && n.cc[0]@
            == followers,
        lower(trim(post.visibility@)) != "public"@ ==> n.to.len() == 1 && n.to[0]@ == followers
            && n.cc.len() == 0,
        n.attributed_to == actor,
        n.published == post.created_at,
        url_parsed(base + "/ap/posts/"@ + decimal(post.post_id as int)) == Ok::<
            UrlParts,
            Seq<char>,
        >(n.id@),
        url_parsed(base + "/posts/"@ + decimal(post.post_id as int)) == Ok::<UrlParts, Seq<char>>(
            n.url@,
        ),
{
    reveal_strlit("public");
    assert(lower("public"@) =~= "public"@);
}

/// Which posts leave this server: none of a community, none that is private or for friends; those
/// that are sent unasked are public, and of the one who sends them.
pub proof fn law_which_posts_leave(post: LocalPostRow, author_user_id: i32)
    ensures
        post.community_id is Some ==> !is_sent(post, author_user_id) && !is_served(post),
        lower(trim(post.visibility@)) == "private"@ || lower(trim(post.visibility@)) == "friends"@
            ==> !is_sent(post, author_user_id) && !is_served(post),
        post.user_id != author_user_id ==> !is_sent(post, author_user_id),
        post.community_id is None && lower(trim(post.visibility@)) == "public"@ ==> is_served(post)
            && is_sent(post, post.user_id),
        post.community_id is None && lower(trim(post.visibility@)) == "following"@ ==> is_served(
            post,
        ) && !is_sent(post, author_user_id),
{
    reveal_strlit("public");
    reveal_strlit("following");
    reveal_strlit("friends");
    reveal_strlit("private");
    assert("public"@.len() == 6 && "following"@.len() == 9 && "friends"@.len() == 7
        && "private"@.len() == 7);
}

proof fn lemma_escaped_concat(a: Seq<char>, b: Seq<char>)
    ensures
        escaped(a + b) == escaped(a) + escaped(b),
    decreases b.len(),
{
    if b.len() == 0 {
        assert(a + b =~= a);
        assert(escaped(a) + escaped(b) =~= escaped(a));
    } else {
        lemma_escaped_concat(a, b.drop_last());
        assert((a + b).drop_last() =~= a + b.drop_last());
        assert((a + b).last() == b.last());
        let e = entity(b.last());
        assert((escaped(a) + escaped(b.drop_last())) + e =~= escaped(a) + (escaped(b.drop_last())
            + e));
    }
}

proof fn lemma_escaped_keeps_lines(s: Seq<char>, i: int)
    requires
        !s.contains('\n'),
        0 <= i < escaped(s).len(),
    ensures
        escaped(s)[i] != '\n',
    decreases s.len(),
{
    let head = escaped(s.drop_last());
    assert(s.contains(s.last()));
    if i < head.len() {
        assert(!s.drop_last().contains('\n')) by {
            if s.drop_last().contains('\n') {
                let k = choose|k: int| 0 <= k < s.drop_last().len() && s.drop_last()[k] == '\n';
                assert(s[k] == '\n');
            }
        }
        lemma_escaped_keeps_lines(s.drop_last(), i);
    } else {
        reveal_strlit("&amp;");
        reveal_strlit("&lt;");
        reveal_strlit("&gt;");
        reveal_strlit("&quot;");
        reveal_strlit("&#39;");
        assert(escaped(s)[i] == entity(s.last())[i - head.len()]);
    }
}

/// The lines of a text as markup: each escaped, with a line break between them.
pub open spec fn lines_markup(text: Seq<char>) -> Seq<char> {
    replace_text(escaped(text), "\n"@, "<br>"@)
}

/// The text of a post is shown line by line: a single line is escaped, and a first line comes
/// escaped before a line break and the rest.
pub proof fn law_posts_are_shown_by_line(line: Seq<char>, rest: Seq<char>)
    requires
        !line.contains('\n'),
    ensures
        lines_markup(line) == escaped(line),
        lines_markup(line + "\n"@ + rest) == escaped(line) + "<br>"@ + lines_markup(rest),
{
    reveal_strlit("\n");
    let nl = "\n"@;
    let br = "<br>"@;
    let e = escaped(line);
    assert(nl =~= seq!['\n']);
    assert forall|j: int| 0 <= j < e.len() implies !#[trigger] matches_at(e, nl, j) by {
        lemma_escaped_keeps_lines(line, j);
        if matches_at(e, nl, j) {
            assert(e.subrange(j, j + 1)[0] == e[j]);
        }
    }
    lemma_replace_skips(e, nl, br, 0, e.len() as int);
    assert(e.subrange(0, e.len() as int) + Seq::<char>::empty() =~= e);
    let more = escaped(rest);
    let all = e + nl + more;
    lemma_escaped_concat(line + nl, rest);
    lemma_escaped_concat(line, nl);
    assert(escaped(nl) =~= nl) by {
        assert(nl.drop_last() =~= Seq::<char>::empty());
        assert(escaped(nl.drop_last()) =~= Seq::<char>::empty());
    }
    assert(escaped(line + nl + rest) == all);
    assert forall|j: int| 0 <= j < e.len() implies !#[trigger] matches_at(all, nl, j) by {
        lemma_escaped_keeps_lines(line, j);
        if matches_at(all, nl, j) {
            assert(all.subrange(j, j + 1)[0] == all[j]);
            assert(all[j] == e[j]);
        }
    }
    lemma_replace_skips(all, nl, br, 0, e.len() as int);
    assert(all.subrange(0, e.len() as int) =~= e);
    assert(all.subrange(e.len() as int, e.len() as int + 1) =~= nl);
    assert(matches_at(all, nl, e.len() as int));
    lemma_replace_behind(e + nl, more, nl, br, 0);
    assert((e + nl) + more =~= all);
    assert(replace_from(all, nl, br, e.len() as int) == br + replace_from(
        all,
        nl,
        br,
        e.len() as int + 1,
    ));
    assert(e + (br + lines_markup(rest)) =~= e + br + lines_markup(rest));
}

/// The content of a post is a paragraph for its text and one for its link, each only where there is
/// one; the link is both the address and the words of the anchor.
pub proof fn law_note_content(body: Seq<char>, link: Seq<char>)
    ensures
        trim(body).len() > 0 && trim(link).len() == 0 ==> note_content(body, link) == "<p>"@
            + lines_markup(trim(body)) + "</p>"@,
        trim(body).len() == 0 && trim(link).len() > 0 ==> note_content(body, link)
            == "<p><a href=\""@ + escaped(trim(link))
            + "\" rel=\"nofollow noopener noreferrer\">"@ + escaped(trim(link)) + "</a></p>"@,
        trim(body).len() == 0 && trim(link).len() == 0 ==> note_content(body, link).len() == 0,
        note_content(body, link) == note_content(body, ""@) + note_content(""@, link),
{
    reveal_strlit("");
    let e = ""@;
    law_trim(e, CharClass::White);
    assert(trim(e).len() == 0);
    assert(body_paragraph(body) + e =~= body_paragraph(body));
    assert(e + link_paragraph(link) =~= link_paragraph(link));
}

/// A note is for everybody where one of the four lists of recipients names the address that stands
/// for all.
pub proof fn law_notes_for_everybody(
    activity_to: Seq<WebUrl>,
    activity_cc: Seq<WebUrl>,
    object_to: Seq<WebUrl>,
    object_cc: Seq<WebUrl>,
    i: int,
)
    ensures
        ({
            let all = "https://www.w3.org/ns/activitystreams#Public"@;
            let public = is_public(activity_to, activity_cc, object_to, object_cc);
            &&& 0 <= i < activity_to.len() && activity_to[i]@.href == all ==> public
            &&& 0 <= i < activity_cc.len() && activity_cc[i]@.href == all ==> public
            &&& 0 <= i < object_to.len() && object_to[i]@.href == all ==> public
            &&& 0 <= i < object_cc.len() && object_cc[i]@.href == all ==> public
        }),
        is_public(activity_to, activity_cc, object_to, object_cc) ==> exists|k: int|
            {
                let all = "https://www.w3.org/ns/activitystreams#Public"@;
                ||| 0 <= k < activity_to.len() && (#[trigger] activity_to[k])@.href == all
                ||| 0 <= k < activity_cc.len() && activity_cc[k]@.href == all
                ||| 0 <= k < object_to.len() && object_to[k]@.href == all
                ||| 0 <= k < object_cc.len() && object_cc[k]@.href == all
            },
{
    let all = "https://www.w3.org/ns/activitystreams#Public"@;
    if is_public(activity_to, activity_cc, object_to, object_cc) {
        let k = if names_everybody(activity_to) {
            choose|k: int| 0 <= k < activity_to.len() && (#[trigger] activity_to[k])@.href == all
        } else if names_everybody(activity_cc) {
            choose|k: int| 0 <= k < activity_cc.len() && (#[trigger] activity_cc[k])@.href == all
        } else if names_everybody(object_to) {
            choose|k: int| 0 <= k < object_to.len() && (#[trigger] object_to[k])@.href == all
        } else {
            choose|k: int| 0 <= k < object_cc.len() && (#[trigger] object_cc[k])@.href == all
        };
        let witness = activity_to[k];
    }
}

/// A post is presented unless one of its two addresses or that of the followers of its author is
/// none.
pub proof fn law_posts_with_faults(post: LocalPostRow, actor: UrlParts, base: Seq<char>)
    ensures
        note_fault(post, actor, base) is None <==> url_parsed(
            base + "/ap/posts/"@ + decimal(post.post_id as int),
        ) is Ok && url_parsed(base + "/posts/"@ + decimal(post.post_id as int)) is Ok && url_joined(
            actor.href,
            "followers"@,
        ) is Ok,
{
}

} // verus!
