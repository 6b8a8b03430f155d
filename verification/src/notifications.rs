//! Notifications in the page header and in pages of their own.

use vstd::prelude::*;

use crate::text::opt_str;
use crate::web::{back_path, redirect, redirect_back_path, Reply, ReplyView, OK};

verus! {

pub const NOTIFICATION_PAGE_DEFAULT_LIMIT: i64 = 20;

pub const NOTIFICATION_PAGE_MAX_LIMIT: i64 = 60;

/// A stored notification.
pub struct HeaderNotificationRow {
    pub notification_id: i64,
    pub title: String,
    pub body: String,
    pub link_url: String,
    pub is_read: bool,
    pub created_at: String,
    pub message_count: i64,
}

pub struct NotificationPageQuery {
    pub before_notification_id: Option<i64>,
    pub limit: Option<i64>,
}

pub struct NotificationPageResponse {
    pub notifications: Vec<NotificationPageItem>,
    pub has_more: bool,
    pub next_before_notification_id: Option<i64>,
}

/// A notification in a page of them.
pub struct NotificationPageItem {
    pub notification_id: i64,
    pub title: String,
    pub body: String,
    pub link_url: String,
    pub created_at: String,
    pub is_unread: bool,
    pub message_count: i64,
}

/// A notification in the page header.
pub struct HeaderNotificationView {
    pub notification_id: i64,
    pub title: String,
    pub body: String,
    pub link_url: String,
    pub created_at: String,
    pub is_unread: bool,
    pub message_count: i64,
}

/// A notification to be sent to a user.
pub struct Notice {
    pub recipient_user_id: i32,
    pub kind: String,
    pub title: String,
    pub body: String,
    pub link_url: String,
}

#[verifier::ext_equal]
pub struct NoticeView {
    pub recipient_user_id: i32,
    pub kind: Seq<char>,
    pub title: Seq<char>,
    pub body: Seq<char>,
    pub link_url: Seq<char>,
}

impl View for Notice {
    type V = NoticeView;

    open spec fn view(&self) -> NoticeView {
        NoticeView {
            recipient_user_id: self.recipient_user_id,
            kind: self.kind@,
            title: self.title@,
            body: self.body@,
            link_url: self.link_url@,
        }
    }
}

pub open spec fn notices_view(v: Seq<Notice>) -> Seq<NoticeView> {
    Seq::new(v.len(), |i: int| v[i]@)
}

pub open spec fn opt_notice(n: Option<Notice>) -> Option<NoticeView> {
    match n {
        Some(x) => Some(x@),
        None => None,
    }
}

/// A value within bounds.
pub open spec fn clamped(n: int, lo: int, hi: int) -> int {
    if n < lo {
        lo
    } else if n > hi {
        hi
    } else {
        n
    }
}

/// The number of notifications in a page: the one asked for, within bounds.
pub fn normalize_notification_limit(raw_limit: Option<i64>) -> (r: i64)
    ensures
        r == clamped(
            match raw_limit {
                Some(n) => n as int,
                None => NOTIFICATION_PAGE_DEFAULT_LIMIT as int,
            },
            1,
            NOTIFICATION_PAGE_MAX_LIMIT as int,
        ),
        1 <= r <= NOTIFICATION_PAGE_MAX_LIMIT,
{
    let requested: i64 = match raw_limit {
        Some(n) => n,
        None => NOTIFICATION_PAGE_DEFAULT_LIMIT,
    };
    if requested < 1 {
        1
    } else if requested > NOTIFICATION_PAGE_MAX_LIMIT {
        NOTIFICATION_PAGE_MAX_LIMIT
    } else {
        requested
    }
}

/// An identifier that a request gives, if it can be one.
pub fn positive_id(id: Option<i64>) -> (r: Option<i64>)
    ensures
        r == (match id {
            Some(n) if n > 0 => Some(n),
            _ => None,
        }),
{
    match id {
        Some(n) => if n > 0 {
            Some(n)
        } else {
            None
        },
        None => None,
    }
}

pub open spec fn at_least_one(n: i64) -> i64 {
    if n < 1 {
        1
    } else {
        n
    }
}

/// A stored notification as an item of a page.
pub open spec fn page_item(row: HeaderNotificationRow) -> NotificationPageItem {
    NotificationPageItem {
        notification_id: row.notification_id,
        title: row.title,
        body: row.body,
        link_url: row.link_url,
        created_at: row.created_at,
        is_unread: !row.is_read,
        message_count: at_least_one(row.message_count),
    }
}

/// A stored notification as the page header shows it.
pub open spec fn header_item(row: HeaderNotificationRow) -> HeaderNotificationView {
    HeaderNotificationView {
        notification_id: row.notification_id,
        title: row.title,
        body: row.body,
        link_url: row.link_url,
        created_at: row.created_at,
        is_unread: !row.is_read,
        message_count: at_least_one(row.message_count),
    }
}

/// The notifications of the page header.
pub fn header_notifications(rows: &Vec<HeaderNotificationRow>) -> (r: Vec<HeaderNotificationView>)
    ensures
        r@ == rows@.map_values(|row: HeaderNotificationRow| header_item(row)),
{
    let mut out: Vec<HeaderNotificationView> = Vec::new();
    let mut i: usize = 0;
    while i < rows.len()
        invariant
            i <= rows.len(),
            out@ =~= rows@.take(i as int).map_values(
                |row: HeaderNotificationRow| header_item(row),
            ),
        decreases rows.len() - i,
    {
        let row: &HeaderNotificationRow = &rows[i];
        out.push(
            HeaderNotificationView {
                notification_id: row.notification_id,
                title: row.title.clone(),
                body: row.body.clone(),
                link_url: row.link_url.clone(),
                created_at: row.created_at.clone(),
                is_unread: !row.is_read,
                message_count: if row.message_count < 1 {
                    1
                } else {
                    row.message_count
                },
            },
        );
        i = i + 1;
    }
    assert(rows@.take(i as int) =~= rows@);
    out
}

/// The rows that a page of the given size shows.
pub open spec fn shown<T>(rows: Seq<T>, limit: int) -> Seq<T> {
    if rows.len() > limit {
        rows.take(limit)
    } else {
        rows
    }
}

/// A page of notifications, from one row more than it can show.
pub fn notification_page(rows: &Vec<HeaderNotificationRow>, limit: i64) -> (r:
    NotificationPageResponse)
    requires
        1 <= limit,
    ensures
        r.has_more == (rows.len() > limit),
        r.notifications@ == shown(rows@, limit as int).map_values(
            |row: HeaderNotificationRow| page_item(row),
        ),
        r.next_before_notification_id == (if rows.len() == 0 {
            None
        } else {
            Some(shown(rows@, limit as int).last().notification_id)
        }),
{
    let has_more: bool = rows.len() as u64 > limit as u64;
    let count: usize = if has_more {
        limit as usize
    } else {
        rows.len()
    };
    let mut notifications: Vec<NotificationPageItem> = Vec::new();
    let mut i: usize = 0;
    while i < count
        invariant
            i <= count <= rows.len(),
            notifications@ =~= rows@.take(i as int).map_values(
                |row: HeaderNotificationRow| page_item(row),
            ),
        decreases count - i,
    {
        let row: &HeaderNotificationRow = &rows[i];
        notifications.push(
            NotificationPageItem {
                notification_id: row.notification_id,
                title: row.title.clone(),
                body: row.body.clone(),
                link_url: row.link_url.clone(),
                created_at: row.created_at.clone(),
                is_unread: !row.is_read,
                message_count: if row.message_count < 1 {
                    1
                } else {
                    row.message_count
                },
            },
        );
        i = i + 1;
    }
    assert(rows@.take(count as int) =~= shown(rows@, limit as int));
    let next_before_notification_id: Option<i64> = if count == 0 {
        None
    } else {
        Some(rows[count - 1].notification_id)
    };
    NotificationPageResponse { notifications, has_more, next_before_notification_id }
}

/// Identifiers from the newest down.
pub open spec fn descending(ids: Seq<i64>) -> bool {
    forall|i: int, j: int| 0 <= i < j < ids.len() ==> #[trigger] ids[i] > #[trigger] ids[j]
}

/// The identifiers below a cursor.
pub open spec fn below(ids: Seq<i64>, cursor: i64) -> Seq<i64>
    decreases ids.len(),
{
    if ids.len() == 0 {
        Seq::empty()
    } else if ids.last() < cursor {
        below(ids.drop_last(), cursor).push(ids.last())
    } else {
        below(ids.drop_last(), cursor)
    }
}

proof fn lemma_below_all_above(ids: Seq<i64>, cursor: i64)
    requires
        forall|i: int| 0 <= i < ids.len() ==> #[trigger] ids[i] >= cursor,
    ensures
        below(ids, cursor) == Seq::<i64>::empty(),
    decreases ids.len(),
{
    if ids.len() > 0 {
        assert(ids.last() == ids[ids.len() - 1]);
        assert forall|i: int| 0 <= i < ids.drop_last().len() implies #[trigger] ids.drop_last()[i]
            >= cursor by {
            assert(ids.drop_last()[i] == ids[i]);
        }
        lemma_below_all_above(ids.drop_last(), cursor);
    }
}

/// Paging misses nothing and repeats nothing: of identifiers from the newest down, those below the
/// cursor of a page are those that the page did not show.
pub proof fn law_next_page_continues(ids: Seq<i64>, limit: int)
    requires
        descending(ids),
        0 < limit,
        ids.len() > 0,
    ensures
        below(ids, shown(ids, limit).last()) == ids.skip(shown(ids, limit).len() as int),
    decreases ids.len(),
{
    let page = shown(ids, limit);
    let cursor = page.last();
    let n = page.len() as int;
    assert(cursor == ids[n - 1]);
    if ids.len() == n {
        assert forall|i: int| 0 <= i < ids.len() implies #[trigger] ids[i] >= cursor by {}
        lemma_below_all_above(ids, cursor);
        assert(ids.skip(n) =~= Seq::<i64>::empty());
    } else {
        let rest = ids.drop_last();
        assert(descending(rest)) by {
            assert forall|i: int, j: int| 0 <= i < j < rest.len() implies #[trigger] rest[i]
                > #[trigger] rest[j] by {
                assert(ids[i] > ids[j]);
            }
        }
        law_next_page_continues(rest, limit);
        assert(shown(rest, limit) =~= page);
        assert(ids.last() == ids[ids.len() - 1]);
        assert(ids[n - 1] > ids[ids.len() - 1]);
        assert(ids.skip(n) =~= rest.skip(n).push(ids.last()));
    }
}

/// The answer to a request that marked notifications as read.
pub fn marked_read_reply(fetch_request: bool, referer: Option<&str>) -> (r: Reply)
    ensures
        r@ == (if fetch_request {
            ReplyView::Status(OK)
        } else {
            ReplyView::Redirect(back_path(opt_str(referer), "/"@))
        }),
{
    if fetch_request {
        Reply::Status(OK)
    } else {
        redirect(redirect_back_path(referer).as_str())
    }
}

/// A stored notification is shown with its own texts, as unread exactly while it is not read, and
/// with a count of at least one.
pub proof fn law_notifications_are_shown_as_stored(row: HeaderNotificationRow)
    ensures
        ({
            let item = page_item(row);
            let shown = header_item(row);
            &&& item.notification_id == row.notification_id && shown.notification_id
                == row.notification_id
            &&& item.title == row.title && shown.title == row.title
            &&& item.body == row.body && shown.body == row.body
            &&& item.link_url == row.link_url && shown.link_url == row.link_url
            &&& item.created_at == row.created_at && shown.created_at == row.created_at
            &&& item.is_unread != row.is_read && shown.is_unread != row.is_read
            &&& item.message_count == shown.message_count && item.message_count >= 1
            &&& row.message_count >= 1 ==> item.message_count == row.message_count
        }),
{
}

/// A page shows the newest of the rows, as many as it has room for.
pub proof fn law_page_shows_the_first_rows<T>(rows: Seq<T>, limit: int)
    requires
        0 <= limit,
    ensures
        shown(rows, limit).is_prefix_of(rows),
        rows.len() <= limit ==> shown(rows, limit) == rows,
        rows.len() > limit ==> shown(rows, limit).len() == limit,
{
}

/// A number within bounds stays, and another becomes the nearer bound.
pub proof fn law_bounds(n: int, lo: int, hi: int)
    requires
        lo <= hi,
    ensures
        lo <= n <= hi ==> clamped(n, lo, hi) == n,
        n < lo ==> clamped(n, lo, hi) == lo,
        n > hi ==> clamped(n, lo, hi) == hi,
{
}

} // verus!
