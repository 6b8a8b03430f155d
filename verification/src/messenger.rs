//! The messenger: threads with friends and groups, and what users do with groups.

use vstd::prelude::*;
use vstd::string::*;

use crate::notifications::HeaderNotificationView;
use crate::number::{decimal, push_decimal};
use crate::page::PageHeader;
use crate::ranking::{
    in_order, law_sorted_in_order, law_sorted_keeps_entries, sort_ranked, sorted, Ranked,
};
use crate::text::{
    is_alnum, is_before, law_text_order, law_text_order_transitive, law_trim_fixed, lower, opt_str,
    opt_view, split_words, starts_with, starts_with_text, text_before, to_lower, trim, trim_matches,
    trim_of, trim_text, views, words, CharClass,
};
use crate::web::{
    redirect, text_reply, Reply, ReplyView, BAD_REQUEST, FORBIDDEN, INTERNAL_SERVER_ERROR,
    NOT_FOUND, OK,
};

verus! {

pub struct MessengerTemplate {
    pub title: String,
    pub id: i64,
    pub user_id: i32,
    pub is_moderator: bool,
    pub local_profile_domain: String,
    pub username: String,
    pub profile_photo_url: String,
    pub profile_photo_style: String,
    pub selected_user_public_id: i64,
    pub selected_group_id: i32,
    pub threads: Vec<MessengerThread>,
    pub unread_notifications_count: i64,
    pub notifications: Vec<HeaderNotificationView>,
}

pub struct MessengerQuery {
    pub user: Option<String>,
    pub with: Option<i64>,
    pub group: Option<i32>,
}

/// A stored conversation with a user.
pub struct MessengerConversation {
    pub user_id: i32,
    pub user_public_id: i64,
    pub username: String,
    pub profile_photo_url: String,
    pub profile_photo_style: String,
    pub last_message: String,
    pub last_sender_id: Option<i32>,
    pub last_attachment_count: i64,
    pub last_time: String,
}

/// A stored conversation of a group.
pub struct MessengerGroupConversation {
    pub chat_id: i32,
    pub group_name: String,
    pub last_message: String,
    pub last_sender_id: Option<i32>,
    pub last_attachment_count: i64,
    pub last_time: String,
}

/// A conversation in the list of them.
pub struct MessengerThread {
    pub is_group: bool,
    pub user_id: i32,
    pub user_public_id: i64,
    pub user_lookup: String,
    pub chat_id: i32,
    pub name: String,
    pub profile_photo_url: String,
    pub profile_photo_style: String,
    pub last_message: String,
    pub last_time: String,
}

pub struct CreateGroupPayload {
    pub group_name: Option<String>,
    pub member_ids: Vec<i32>,
}

pub struct CreateGroupResponse {
    pub chat_id: i32,
    pub url: String,
}

pub struct AddGroupMemberPayload {
    pub member_id: i32,
}

// ---------------------------------------------------------------------------
// The last message of a thread
// ---------------------------------------------------------------------------
/// Whether a word is a web link, punctuation around it aside.
pub open spec fn is_link_word(word: Seq<char>) -> bool {
    let l = lower(trim_of(word, CharClass::LinkPunctuation));
    starts_with_text(l, "http://"@) || starts_with_text(l, "https://"@)
}

/// Whether one of the words of a text is a web link.
pub open spec fn has_http_link(text: Seq<char>) -> bool {
    exists|i: int| 0 <= i < words(text).len() && is_link_word(#[trigger] words(text)[i])
}

pub fn message_contains_http_link(value: &str) -> (r: bool)
    ensures
        r == has_http_link(value@),
{
    let tokens: Vec<String> = split_words(value);
    let mut i: usize = 0;
    assert(views(tokens@).len() == words(value@).len());
    while i < tokens.len()
        invariant
            i <= tokens.len(),
            views(tokens@) == words(value@),
            tokens.len() == words(value@).len(),
            forall|j: int| 0 <= j < i ==> !is_link_word(#[trigger] words(value@)[j]),
        decreases tokens.len() - i,
    {
        assert(views(tokens@)[i as int] == tokens@[i as int]@);
        let candidate: String = trim_matches(tokens[i].as_str(), CharClass::LinkPunctuation);
        let lowered: String = to_lower(candidate.as_str());
        if starts_with(lowered.as_str(), "http://") || starts_with(lowered.as_str(), "https://") {
            assert(is_link_word(words(value@)[i as int]));
            return true;
        }
        i = i + 1;
    }
    false
}

/// What a thread shows of its last message: the text, or what was sent in place of one.
pub open spec fn thread_message(
    user_id: i32,
    raw: Seq<char>,
    sender: Option<i32>,
    attachments: int,
) -> Seq<char> {
    let text = trim(raw);
    let own = sender == Some(user_id);
    if has_http_link(text) {
        if own {
            "You sent a link"@
        } else {
            "Sent you a link"@
        }
    } else if attachments > 0 && text.len() == 0 {
        if own {
            if attachments > 1 {
                "You sent attachments"@
            } else {
                "You sent attachment"@
            }
        } else {
            if attachments > 1 {
                "Sent you attachments"@
            } else {
                "Sent you attachment"@
            }
        }
    } else {
        text
    }
}

pub fn format_last_thread_message(
    current_user_id: i32,
    raw_message: &str,
    last_sender_id: Option<i32>,
    last_attachment_count: i64,
) -> (r: String)
    ensures
        r@ == thread_message(
            current_user_id,
            raw_message@,
            last_sender_id,
            last_attachment_count as int,
        ),
{
    let text: String = trim_text(raw_message);
    let sent_by_current_user: bool = match last_sender_id {
        Some(id) => id == current_user_id,
        None => false,
    };
    if message_contains_http_link(text.as_str()) {
        if sent_by_current_user {
            return "You sent a link".to_owned();
        }
        return "Sent you a link".to_owned();
    }
    if last_attachment_count > 0 && text.as_str().is_empty() {
        if sent_by_current_user {
            if last_attachment_count > 1 {
                return "You sent attachments".to_owned();
            }
            return "You sent attachment".to_owned();
        }
        if last_attachment_count > 1 {
            return "Sent you attachments".to_owned();
        }
        return "Sent you attachment".to_owned();
    }
    text
}

// ---------------------------------------------------------------------------
// Threads
// ---------------------------------------------------------------------------
impl Ranked for MessengerThread {
    /// Threads with a time stand before those without, the latest time first.
    open spec fn ranks_before(&self, other: &Self) -> bool {
        if self.last_time@.len() == 0 {
            false
        } else {
            other.last_time@.len() == 0 || text_before(other.last_time@, self.last_time@)
        }
    }

    fn is_ranked_before(&self, other: &Self) -> (r: bool) {
        if self.last_time.as_str().is_empty() {
            false
        } else {
            other.last_time.as_str().is_empty() || is_before(
                other.last_time.as_str(),
                self.last_time.as_str(),
            )
        }
    }
}

/// Whether a thread is that of a conversation with a user.
pub open spec fn is_user_thread(
    t: MessengerThread,
    c: MessengerConversation,
    user_id: i32,
    domain: Seq<char>,
) -> bool {
    &&& !t.is_group
    &&& t.user_id == c.user_id
    &&& t.user_public_id == c.user_public_id
    &&& t.user_lookup@ == trim(c.username@) + "@"@ + domain
    &&& t.chat_id == 0
    &&& t.name == c.username
    &&& t.profile_photo_url == c.profile_photo_url
    &&& t.profile_photo_style == c.profile_photo_style
    &&& t.last_message@ == thread_message(
        user_id,
        c.last_message@,
        c.last_sender_id,
        c.last_attachment_count as int,
    )
    &&& t.last_time == c.last_time
}

/// Whether a thread is that of a group.
pub open spec fn is_group_thread(
    t: MessengerThread,
    g: MessengerGroupConversation,
    user_id: i32,
) -> bool {
    &&& t.is_group
    &&& t.user_id == 0
    &&& t.user_public_id == 0
    &&& t.user_lookup@ == ""@
    &&& t.chat_id == g.chat_id
    &&& t.name == g.group_name
    &&& t.profile_photo_url@ == "/public/group.webp"@
    &&& t.profile_photo_style@ == ""@
    &&& t.last_message@ == thread_message(
        user_id,
        g.last_message@,
        g.last_sender_id,
        g.last_attachment_count as int,
    )
    &&& t.last_time == g.last_time
}

/// Whether the threads are those of the conversations, followed by those of the groups.
pub open spec fn lists_threads(
    threads: Seq<MessengerThread>,
    conversations: Seq<MessengerConversation>,
    groups: Seq<MessengerGroupConversation>,
    user_id: i32,
    domain: Seq<char>,
) -> bool {
    &&& threads.len() == conversations.len() + groups.len()
    &&& forall|i: int|
        0 <= i < conversations.len() ==> is_user_thread(
            #[trigger] threads[i],
            conversations[i],
            user_id,
            domain,
        )
    &&& forall|i: int|
        conversations.len() <= i < threads.len() ==> is_group_thread(
            #[trigger] threads[i],
            groups[i - conversations.len()],
            user_id,
        )
}

/// The threads before they are sorted.
pub fn list_messenger_threads(
    conversations: &Vec<MessengerConversation>,
    groups: &Vec<MessengerGroupConversation>,
    current_user_id: i32,
    local_domain: &str,
) -> (r: Vec<MessengerThread>)
    ensures
        lists_threads(r@, conversations@, groups@, current_user_id, local_domain@),
{
    let mut threads: Vec<MessengerThread> = Vec::new();
    let mut i: usize = 0;
    while i < conversations.len()
        invariant
            i <= conversations.len(),
            threads.len() == i,
            forall|j: int|
                0 <= j < i ==> is_user_thread(
                    #[trigger] threads@[j],
                    conversations@[j],
                    current_user_id,
                    local_domain@,
                ),
        decreases conversations.len() - i,
    {
        let c: &MessengerConversation = &conversations[i];
        let mut user_lookup: String = trim_text(c.username.as_str());
        user_lookup.append("@");
        user_lookup.append(local_domain);
        threads.push(
            MessengerThread {
                is_group: false,
                user_id: c.user_id,
                user_public_id: c.user_public_id,
                user_lookup,
                chat_id: 0,
                name: c.username.clone(),
                profile_photo_url: c.profile_photo_url.clone(),
                profile_photo_style: c.profile_photo_style.clone(),
                last_message: format_last_thread_message(
                    current_user_id,
                    c.last_message.as_str(),
                    c.last_sender_id,
                    c.last_attachment_count,
                ),
                last_time: c.last_time.clone(),
            },
        );
        i = i + 1;
    }
    let mut k: usize = 0;
    while k < groups.len()
        invariant
            k <= groups.len(),
            threads.len() == conversations.len() + k,
            forall|j: int|
                0 <= j < conversations.len() ==> is_user_thread(
                    #[trigger] threads@[j],
                    conversations@[j],
                    current_user_id,
                    local_domain@,
                ),
            forall|j: int|
                conversations.len() <= j < threads.len() ==> is_group_thread(
                    #[trigger] threads@[j],
                    groups@[j - conversations.len()],
                    current_user_id,
                ),
        decreases groups.len() - k,
    {
        let g: &MessengerGroupConversation = &groups[k];
        threads.push(
            MessengerThread {
                is_group: true,
                user_id: 0,
                user_public_id: 0,
                user_lookup: "".to_owned(),
                chat_id: g.chat_id,
                name: g.group_name.clone(),
                profile_photo_url: "/public/group.webp".to_owned(),
                profile_photo_style: "".to_owned(),
                last_message: format_last_thread_message(
                    current_user_id,
                    g.last_message.as_str(),
                    g.last_sender_id,
                    g.last_attachment_count,
                ),
                last_time: g.last_time.clone(),
            },
        );
        k = k + 1;
    }
    threads
}

/// The threads of a user, the latest first.
pub fn build_messenger_threads(
    conversations: &Vec<MessengerConversation>,
    groups: &Vec<MessengerGroupConversation>,
    current_user_id: i32,
    local_domain: &str,
) -> (r: Vec<MessengerThread>)
    ensures
        exists|threads: Seq<MessengerThread>|
            lists_threads(threads, conversations@, groups@, current_user_id, local_domain@) && r@
                == #[trigger] sorted(threads),
{
    let threads: Vec<MessengerThread> = list_messenger_threads(
        conversations,
        groups,
        current_user_id,
        local_domain,
    );
    sort_ranked(threads)
}

/// Sorted threads stand in order: those with a time before those without, later times first.
pub proof fn law_threads_are_in_order(threads: Seq<MessengerThread>)
    ensures
        in_order(sorted(threads)),
{
    assert forall|a: MessengerThread, b: MessengerThread| #[trigger]
        a.ranks_before(&b) implies !b.ranks_before(&a) by {
        law_text_order(a.last_time@, b.last_time@);
    }
    assert forall|a: MessengerThread, b: MessengerThread, c: MessengerThread|
        #![trigger a.ranks_before(&b), b.ranks_before(&c)]
        !a.ranks_before(&b) && !b.ranks_before(&c) implies !a.ranks_before(&c) by {
        let (x, y, z) = (a.last_time@, b.last_time@, c.last_time@);
        law_text_order(x, y);
        law_text_order(y, z);
        law_text_order(x, z);
        if text_before(x, y) && text_before(y, z) {
            law_text_order_transitive(x, y, z);
        }
    }
    law_sorted_in_order(threads, threads.len() as int);
}

/// The page of the messenger. A user that the address names comes before one that it numbers.
pub fn messenger_page(
    header: PageHeader,
    named_user_public_id: Option<i64>,
    query: &MessengerQuery,
    threads: Vec<MessengerThread>,
) -> (r: MessengerTemplate)
    ensures
        r.title@ == "Messenger"@,
        r.id == header.id,
        r.user_id == header.user_id,
        r.is_moderator == header.is_moderator,
        r.local_profile_domain == header.local_profile_domain,
        r.username == header.username,
        r.profile_photo_url == header.profile_photo_url,
        r.profile_photo_style == header.profile_photo_style,
        r.unread_notifications_count == header.unread_notifications_count,
        r.notifications == header.notifications,
        r.threads == threads,
        r.selected_user_public_id == match (named_user_public_id, query.with) {
            (Some(id), _) => id,
            (None, Some(id)) => id,
            (None, None) => 0,
        },
        r.selected_group_id == match query.group {
            Some(id) => id,
            None => 0,
        },
{
    let selected_user_public_id: i64 = match named_user_public_id {
        Some(id) => id,
        None => match query.with {
            Some(id) => id,
            None => 0,
        },
    };
    let selected_group_id: i32 = match query.group {
        Some(id) => id,
        None => 0,
    };
    MessengerTemplate {
        title: "Messenger".to_owned(),
        id: header.id,
        user_id: header.user_id,
        is_moderator: header.is_moderator,
        local_profile_domain: header.local_profile_domain,
        username: header.username,
        profile_photo_url: header.profile_photo_url,
        profile_photo_style: header.profile_photo_style,
        selected_user_public_id,
        selected_group_id,
        threads,
        unread_notifications_count: header.unread_notifications_count,
        notifications: header.notifications,
    }
}

// ---------------------------------------------------------------------------
// Groups
// ---------------------------------------------------------------------------
/// The name of a new group, if the form gives one.
pub open spec fn group_name(raw: Option<Seq<char>>) -> Option<Seq<char>> {
    match raw {
        Some(name) if trim(name).len() > 0 => Some(trim(name)),
        _ => None,
    }
}

pub fn read_group_name(raw: Option<&str>) -> (r: Option<String>)
    ensures
        opt_view(r) == group_name(opt_str(raw)),
{
    match raw {
        Some(name) => {
            let trimmed: String = trim_text(name);
            if trimmed.as_str().is_empty() {
                None
            } else {
                Some(trimmed)
            }
        },
        None => None,
    }
}

/// Whether the numbers stand in strictly rising order.
pub open spec fn is_rising(ids: Seq<i32>) -> bool {
    forall|i: int, j: int| #![trigger ids[i], ids[j]] 0 <= i < j < ids.len() ==> ids[i] < ids[j]
}

fn insert_rising(ids: &mut Vec<i32>, id: i32)
    requires
        is_rising(old(ids)@),
    ensures
        is_rising(final(ids)@),
        forall|x: i32|
            #[trigger] final(ids)@.contains(x) == (old(ids)@.contains(x) || x == id),
{
    let ghost before = ids@;
    let mut p: usize = 0;
    while p < ids.len() && ids[p] < id
        invariant
            p <= ids.len(),
            ids@ == before,
            forall|j: int| 0 <= j < p ==> #[trigger] before[j] < id,
        decreases ids.len() - p,
    {
        p = p + 1;
    }
    if p < ids.len() && ids[p] == id {
        assert(before[p as int] == id);
        return;
    }
    ids.insert(p, id);
    proof {
        assert(ids@ =~= before.insert(p as int, id));
        assert forall|i: int, j: int|
            #![trigger ids@[i], ids@[j]]
            0 <= i < j < ids@.len() implies ids@[i] < ids@[j] by {
            let x = if i < p {
                i
            } else {
                i - 1
            };
            let y = if j < p {
                j
            } else {
                j - 1
            };
            if i == p {
                assert(ids@[j] == before[j - 1]);
                assert(before[p as int] > id);
                if j - 1 > p {
                    assert(before[p as int] < before[j - 1]);
                }
            } else if j == p {
                assert(ids@[i] == before[i]);
            } else {
                assert(ids@[i] == before[x] && ids@[j] == before[y]);
            }
        }
        assert forall|x: i32| #[trigger]
            ids@.contains(x) == (before.contains(x) || x == id) by {
            if before.contains(x) {
                let k = choose|k: int| 0 <= k < before.len() && before[k] == x;
                if k < p {
                    assert(ids@[k] == x);
                } else {
                    assert(ids@[k + 1] == x);
                }
            }
            if x == id {
                assert(ids@[p as int] == x);
            }
            if ids@.contains(x) {
                let k = choose|k: int| 0 <= k < ids@.len() && ids@[k] == x;
                if k < p {
                    assert(before[k] == x);
                } else if k > p {
                    assert(before[k - 1] == x);
                }
            }
        }
    }
}

/// The users to be asked into a new group beside its creator: each once, in rising order.
pub fn group_member_ids(member_ids: &Vec<i32>, current_user_id: i32) -> (r: Vec<i32>)
    ensures
        is_rising(r@),
        forall|id: i32|
            #[trigger] r@.contains(id) == (member_ids@.contains(id) && id != current_user_id),
{
    let mut ids: Vec<i32> = Vec::new();
    let mut i: usize = 0;
    while i < member_ids.len()
        invariant
            i <= member_ids.len(),
            is_rising(ids@),
            forall|id: i32|
                #[trigger] ids@.contains(id) == (member_ids@.take(i as int).contains(id) && id
                    != current_user_id),
        decreases member_ids.len() - i,
    {
        let id: i32 = member_ids[i];
        proof {
            let a = member_ids@.take(i as int);
            let b = member_ids@.take(i + 1);
            assert(b =~= a.push(id));
            assert forall|x: i32| #[trigger] b.contains(x) == (a.contains(x) || x == id) by {
                if a.contains(x) {
                    let k = choose|k: int| 0 <= k < a.len() && a[k] == x;
                    assert(b[k] == x);
                }
                if x == id {
                    assert(b[i as int] == x);
                }
                if b.contains(x) {
                    let k = choose|k: int| 0 <= k < b.len() && b[k] == x;
                    if k < i {
                        assert(a[k] == x);
                    }
                }
            }
        }
        if id != current_user_id {
            insert_rising(&mut ids, id);
        }
        i = i + 1;
    }
    assert(member_ids@.take(member_ids.len() as int) =~= member_ids@);
    ids
}

/// A group has one list of members, whatever the order and the repetitions of the form.
pub proof fn law_member_list_is_unique(a: Seq<i32>, b: Seq<i32>)
    requires
        is_rising(a),
        is_rising(b),
        forall|id: i32| #[trigger] a.contains(id) == b.contains(id),
    ensures
        a == b,
    decreases a.len(),
{
    if a.len() == 0 {
        if b.len() > 0 {
            assert(b.contains(b[0]));
            assert(a.contains(b[0]));
        }
        assert(a =~= b);
    } else {
        assert(a.contains(a.last()));
        assert(b.contains(a.last()));
        assert(b.contains(b.last()));
        assert(a.contains(b.last()));
        assert(a.last() == b.last());
        let x = a.drop_last();
        let y = b.drop_last();
        assert forall|id: i32| #[trigger] x.contains(id) == y.contains(id) by {
            if x.contains(id) {
                let k = choose|k: int| 0 <= k < x.len() && x[k] == id;
                assert(a[k] == id && id < a.last());
                assert(a.contains(id));
                assert(b.contains(id));
                let m = choose|m: int| 0 <= m < b.len() && b[m] == id;
                assert(y[m] == id);
            }
            if y.contains(id) {
                let k = choose|k: int| 0 <= k < y.len() && y[k] == id;
                assert(b[k] == id && id < b.last());
                assert(b.contains(id));
                assert(a.contains(id));
                let m = choose|m: int| 0 <= m < a.len() && a[m] == id;
                assert(x[m] == id);
            }
        }
        law_member_list_is_unique(x, y);
        assert(a =~= x.push(a.last()));
        assert(b =~= y.push(b.last()));
    }
}

/// What was found of a user who is to be asked into a new group.
#[derive(Clone, Copy)]
pub struct MemberFacts {
    pub member_id: i32,
    pub user_exists: bool,
    pub is_friend: bool,
}

/// Why a user cannot be asked into a new group, if there is a reason.
pub open spec fn obstacle_of(m: MemberFacts) -> Option<ReplyView> {
    if m.user_exists && m.is_friend {
        None
    } else {
        Some(
            ReplyView::Text(
                BAD_REQUEST,
                "User "@ + decimal(m.member_id as int) + if !m.user_exists {
                    " does not exist"@
                } else {
                    " is not your friend"@
                },
            ),
        )
    }
}

/// The obstacle of the first user from `i` on who has one.
pub open spec fn first_obstacle(members: Seq<MemberFacts>, i: int) -> Option<ReplyView>
    decreases members.len() - i,
{
    if i < 0 || i >= members.len() {
        None
    } else if obstacle_of(members[i]) is Some {
        obstacle_of(members[i])
    } else {
        first_obstacle(members, i + 1)
    }
}

/// Whether the users stand in strictly rising order of their numbers.
pub open spec fn members_rise(members: Seq<MemberFacts>) -> bool {
    forall|i: int, j: int|
        0 <= i < j < members.len() ==> (#[trigger] members[i]).member_id < (
        #[trigger] members[j]).member_id
}

proof fn lemma_first_obstacle(members: Seq<MemberFacts>, i: int)
    requires
        0 <= i <= members.len(),
    ensures
        match first_obstacle(members, i) {
            None => forall|k: int| i <= k < members.len() ==> obstacle_of(#[trigger] members[k]) is None,
            Some(reply) => exists|k: int|
                {
                    &&& i <= k < members.len()
                    &&& obstacle_of(#[trigger] members[k]) == Some(reply)
                    &&& forall|x: int| i <= x < k ==> obstacle_of(#[trigger] members[x]) is None
                },
        },
    decreases members.len() - i,
{
    if i < members.len() {
        if obstacle_of(members[i]) is None {
            lemma_first_obstacle(members, i + 1);
            if let Some(reply) = first_obstacle(members, i + 1) {
                let k = choose|k: int|
                    {
                        &&& i + 1 <= k < members.len()
                        &&& obstacle_of(#[trigger] members[k]) == Some(reply)
                        &&& forall|x: int|
                            i + 1 <= x < k ==> obstacle_of(#[trigger] members[x]) is None
                    };
                assert(obstacle_of(members[k]) == Some(reply));
            }
        } else {
            assert(obstacle_of(members[i]) == first_obstacle(members, i));
        }
    }
}

/// The one who creates a group is told of the obstacle of the smallest number that has one, and
/// of none exactly where nobody has one.
pub proof fn law_smallest_obstacle_is_told(members: Seq<MemberFacts>)
    requires
        members_rise(members),
    ensures
        match first_obstacle(members, 0) {
            None => forall|k: int|
                0 <= k < members.len() ==> obstacle_of(#[trigger] members[k]) is None,
            Some(reply) => exists|k: int|
                {
                    &&& 0 <= k < members.len()
                    &&& obstacle_of(#[trigger] members[k]) == Some(reply)
                    &&& forall|x: int|
                        0 <= x < members.len() && obstacle_of(#[trigger] members[x]) is Some
                            ==> members[k].member_id <= members[x].member_id
                },
        },
{
    lemma_first_obstacle(members, 0);
    if let Some(reply) = first_obstacle(members, 0) {
        let k = choose|k: int|
            {
                &&& 0 <= k < members.len()
                &&& obstacle_of(#[trigger] members[k]) == Some(reply)
                &&& forall|x: int| 0 <= x < k ==> obstacle_of(#[trigger] members[x]) is None
            };
        assert forall|x: int|
            0 <= x < members.len() && obstacle_of(#[trigger] members[x]) is Some implies members[k].member_id
            <= members[x].member_id by {
            if k < x {
                assert(members[k].member_id < members[x].member_id);
            }
        }
    }
}

/// The obstacle of the first user who has one.
pub fn first_member_obstacle(members: &Vec<MemberFacts>) -> (r: Option<Reply>)
    ensures
        r is Some == first_obstacle(members@, 0) is Some,
        r matches Some(reply) ==> first_obstacle(members@, 0) == Some(reply@),
{
    let mut i: usize = 0;
    while i < members.len()
        invariant
            i <= members.len(),
            first_obstacle(members@, i as int) == first_obstacle(members@, 0),
        decreases members.len() - i,
    {
        let m: MemberFacts = members[i];
        let found: Option<Reply> = member_obstacle(m.member_id, m.user_exists, m.is_friend);
        if found.is_some() {
            return found;
        }
        i = i + 1;
    }
    None
}

/// Why a user cannot be asked into a new group, if there is a reason.
pub fn member_obstacle(member_id: i32, user_exists: bool, is_friend: bool) -> (r: Option<Reply>)
    ensures
        r is Some == (!user_exists || !is_friend),
        r matches Some(reply) ==> obstacle_of(
            (MemberFacts { member_id, user_exists, is_friend }),
        ) == Some(reply@),
{
    if user_exists && is_friend {
        return None;
    }
    let mut text: String = "User ".to_owned();
    push_decimal(&mut text, member_id as i64);
    text.append(
        if !user_exists {
            " does not exist"
        } else {
            " is not your friend"
        },
    );
    Some(Reply::Text(BAD_REQUEST, text))
}

/// The answer to the creator of a group.
pub fn created_group(chat_id: i32) -> (r: CreateGroupResponse)
    ensures
        r.chat_id == chat_id,
        r.url@ == "/messenger?group="@ + decimal(chat_id as int),
{
    let mut url: String = "/messenger?group=".to_owned();
    push_decimal(&mut url, chat_id as i64);
    CreateGroupResponse { chat_id, url }
}

/// What is known of a group and of the user to be added to it.
#[derive(Clone, Copy)]
pub struct GroupAddition {
    pub can_access_group: bool,
    pub is_group_chat: bool,
    pub user_exists: bool,
    pub is_friend: bool,
}

/// Why a number cannot be that of a user to add, if there is a reason.
pub open spec fn member_id_obstacle(member_id: i32, current_user_id: i32) -> Option<ReplyView> {
    if member_id <= 0 {
        Some(ReplyView::Text(BAD_REQUEST, "Invalid member id"@))
    } else if member_id == current_user_id {
        Some(ReplyView::Text(BAD_REQUEST, "You are already in the group"@))
    } else {
        None
    }
}

/// Checks the number of a user who is to be added to a group.
pub fn check_member_id(member_id: i32, current_user_id: i32) -> (r: Option<Reply>)
    ensures
        r is Some == member_id_obstacle(member_id, current_user_id) is Some,
        r matches Some(reply) ==> member_id_obstacle(member_id, current_user_id) == Some(reply@),
{
    if member_id <= 0 {
        Some(text_reply(BAD_REQUEST, "Invalid member id"))
    } else if member_id == current_user_id {
        Some(text_reply(BAD_REQUEST, "You are already in the group"))
    } else {
        None
    }
}

/// Why a user cannot be added to a group, if there is a reason.
pub open spec fn addition_obstacle(a: GroupAddition) -> Option<ReplyView> {
    if !a.can_access_group {
        Some(ReplyView::Text(FORBIDDEN, "You are not a member of this group"@))
    } else if !a.is_group_chat {
        Some(ReplyView::Text(NOT_FOUND, "Group not found"@))
    } else if !a.user_exists {
        Some(ReplyView::Text(BAD_REQUEST, "User does not exist"@))
    } else if !a.is_friend {
        Some(ReplyView::Text(BAD_REQUEST, "User is not your friend"@))
    } else {
        None
    }
}

/// Checks whether a user can be added to a group.
pub fn check_group_addition(a: GroupAddition) -> (r: Option<Reply>)
    ensures
        r is Some == addition_obstacle(a) is Some,
        r matches Some(reply) ==> addition_obstacle(a) == Some(reply@),
{
    if !a.can_access_group {
        Some(text_reply(FORBIDDEN, "You are not a member of this group"))
    } else if !a.is_group_chat {
        Some(text_reply(NOT_FOUND, "Group not found"))
    } else if !a.user_exists {
        Some(text_reply(BAD_REQUEST, "User does not exist"))
    } else if !a.is_friend {
        Some(text_reply(BAD_REQUEST, "User is not your friend"))
    } else {
        None
    }
}

/// What is stored of a member of a group.
pub struct StoredMember {
    pub is_owner: bool,
    pub joined_at: int,
}

/// What is stored of a group: its members, and when it was changed last.
pub struct StoredGroup {
    pub members: Map<i32, StoredMember>,
    pub modified_at: int,
}

/// How many rows the addition of a user to a group stores: none for a member.
pub open spec fn rows_added(group: StoredGroup, member_id: i32) -> u64 {
    if group.members.contains_key(member_id) {
        0
    } else {
        1
    }
}

/// Whether an addition that has stored so many rows sets when the group was changed last.
pub open spec fn changes_group(rows_affected: u64) -> bool {
    rows_affected > 0
}

/// A group after the addition of a user at a time.
pub open spec fn after_addition(group: StoredGroup, member_id: i32, now: int) -> StoredGroup {
    let rows = rows_added(group, member_id);
    StoredGroup {
        members: if rows > 0 {
            group.members.insert(member_id, StoredMember { is_owner: false, joined_at: now })
        } else {
            group.members
        },
        modified_at: if changes_group(rows) {
            now
        } else {
            group.modified_at
        },
    }
}

/// The answer to an addition that has stored so many rows.
pub open spec fn addition_answer(rows_affected: u64) -> ReplyView {
    ReplyView::Text(
        OK,
        if rows_affected > 0 {
            "User added to group"@
        } else {
            "User is already in this group"@
        },
    )
}

/// The first addition of a user makes them a member and says so; a second one changes nothing and
/// says that they are one already.
pub proof fn law_second_addition_changes_nothing(
    group: StoredGroup,
    member_id: i32,
    now: int,
    later: int,
)
    ensures
        ({
            let once = after_addition(group, member_id, now);
            &&& once.members.contains_key(member_id)
            &&& forall|other: i32|
                other != member_id ==> once.members.contains_key(other)
                    == #[trigger] group.members.contains_key(other) && (
                group.members.contains_key(other) ==> once.members[other] == group.members[other])
            &&& !group.members.contains_key(member_id) ==> addition_answer(
                rows_added(group, member_id),
            ) == ReplyView::Text(OK, "User added to group"@)
            &&& after_addition(once, member_id, later) == once
            &&& addition_answer(rows_added(once, member_id)) == ReplyView::Text(
                OK,
                "User is already in this group"@,
            )
        }),
{
}

/// Whether an addition sets when the group was changed last.
pub fn addition_changes_group(rows_affected: u64) -> (r: bool)
    ensures
        r == changes_group(rows_affected),
{
    rows_affected > 0
}

/// The answer after a user was added to a group, or was in it already.
pub fn member_added_reply(rows_affected: u64) -> (r: Reply)
    ensures
        r@ == addition_answer(rows_affected),
{
    if rows_affected > 0 {
        text_reply(OK, "User added to group")
    } else {
        text_reply(OK, "User is already in this group")
    }
}

/// Checks whether a user can delete a group: it exists, and they created it.
pub fn check_group_deletion(created_by: Option<i32>, current_user_id: i32) -> (r: Option<Reply>)
    ensures
        r is None == (created_by == Some(current_user_id)),
        r matches Some(reply) ==> reply@ == if created_by is None {
            ReplyView::Text(NOT_FOUND, "Group not found"@)
        } else {
            ReplyView::Text(FORBIDDEN, "Only the group creator can delete this group"@)
        },
{
    match created_by {
        Some(id) => if id == current_user_id {
            None
        } else {
            Some(text_reply(FORBIDDEN, "Only the group creator can delete this group"))
        },
        None => Some(text_reply(NOT_FOUND, "Group not found")),
    }
}

/// The answer after the rows of a group were deleted.
pub fn group_deleted_reply(rows_affected: u64) -> (r: Reply)
    ensures
        r@ == if rows_affected == 0 {
            ReplyView::Text(NOT_FOUND, "Group not found"@)
        } else {
            ReplyView::Text(OK, "Group deleted"@)
        },
{
    if rows_affected == 0 {
        text_reply(NOT_FOUND, "Group not found")
    } else {
        text_reply(OK, "Group deleted")
    }
}

/// What came of deleting a message of one's own.
#[derive(Clone, Copy, PartialEq, Eq, Structural)]
pub enum MessageDeletion {
    Deleted,
    /// The message is not one of the user.
    NotOwn,
    Failed,
}

/// Checks the number of a message that is to be deleted.
pub fn check_message_id(msg_id: i32, fetch_request: bool, back: &str) -> (r: Option<Reply>)
    ensures
        r is None == (msg_id > 0),
        r matches Some(reply) ==> reply@ == if fetch_request {
            ReplyView::Text(BAD_REQUEST, "Invalid message id"@)
        } else {
            ReplyView::Redirect(back@)
        },
{
    if msg_id > 0 {
        None
    } else if fetch_request {
        Some(text_reply(BAD_REQUEST, "Invalid message id"))
    } else {
        Some(redirect(back))
    }
}

/// The answer after a message was deleted or not.
pub fn message_deleted_reply(deletion: MessageDeletion, fetch_request: bool, back: &str) -> (r:
    Reply)
    ensures
        r@ == if !fetch_request {
            ReplyView::Redirect(back@)
        } else {
            match deletion {
                MessageDeletion::Deleted => ReplyView::Text(OK, "Message deleted"@),
                MessageDeletion::NotOwn => ReplyView::Text(
                    FORBIDDEN,
                    "You can only delete your own messages"@,
                ),
                MessageDeletion::Failed => ReplyView::Text(
                    INTERNAL_SERVER_ERROR,
                    "Failed to delete message"@,
                ),
            }
        },
{
    if !fetch_request {
        return redirect(back);
    }
    match deletion {
        MessageDeletion::Deleted => text_reply(OK, "Message deleted"),
        MessageDeletion::NotOwn => text_reply(FORBIDDEN, "You can only delete your own messages"),
        MessageDeletion::Failed => text_reply(INTERNAL_SERVER_ERROR, "Failed to delete message"),
    }
}

/// Checks whether a user can see who is in a group.
pub fn check_group_members(is_group_chat: bool, can_access_group: bool) -> (r: Option<Reply>)
    ensures
        r is None == (is_group_chat && can_access_group),
        r matches Some(reply) ==> reply@ == ReplyView::Status(
            if !is_group_chat {
                NOT_FOUND
            } else {
                FORBIDDEN
            },
        ),
{
    if !is_group_chat {
        Some(Reply::Status(NOT_FOUND))
    } else if !can_access_group {
        Some(Reply::Status(FORBIDDEN))
    } else {
        None
    }
}

// ---------------------------------------------------------------------------
// What the threads say
// ---------------------------------------------------------------------------
/// The threads that have a time stand before those that have none, and the later time first.
pub proof fn law_latest_threads_come_first(threads: Seq<MessengerThread>, i: int, j: int)
    requires
        0 <= i < j < sorted(threads).len(),
    ensures
        ({
            let a = sorted(threads)[i].last_time@;
            let b = sorted(threads)[j].last_time@;
            &&& b.len() > 0 ==> a.len() > 0
            &&& b.len() > 0 ==> !text_before(a, b)
        }),
{
    law_threads_are_in_order(threads);
}

/// Every conversation and every group has exactly one thread.
pub proof fn law_every_conversation_has_a_thread(
    r: Seq<MessengerThread>,
    threads: Seq<MessengerThread>,
    conversations: Seq<MessengerConversation>,
    groups: Seq<MessengerGroupConversation>,
    user_id: i32,
    domain: Seq<char>,
)
    requires
        lists_threads(threads, conversations, groups, user_id, domain),
        r == sorted(threads),
    ensures
        r.len() == conversations.len() + groups.len(),
        forall|i: int|
            0 <= i < conversations.len() ==> exists|k: int|
                0 <= k < r.len() && shows_conversation(
                    #[trigger] r[k],
                    #[trigger] conversations[i],
                    domain,
                ),
        forall|i: int|
            0 <= i < groups.len() ==> exists|k: int|
                0 <= k < r.len() && shows_group(#[trigger] r[k], #[trigger] groups[i]),
{
    law_sorted_keeps_entries(threads, threads.len() as int);
    assert(threads.take(threads.len() as int) =~= threads);
    assert forall|x: MessengerThread| threads.contains(x) implies #[trigger] r.contains(x) by {
        threads.to_multiset_ensures();
        r.to_multiset_ensures();
        assert(threads.to_multiset().count(x) > 0);
        assert(r.to_multiset().count(x) > 0);
    }
    assert forall|i: int| 0 <= i < conversations.len() implies exists|k: int|
        0 <= k < r.len() && shows_conversation(
            #[trigger] r[k],
            #[trigger] conversations[i],
            domain,
        ) by {
        let t = threads[i];
        assert(is_user_thread(t, conversations[i], user_id, domain));
        assert(threads.contains(t));
        assert(r.contains(t));
        let k = choose|k: int| 0 <= k < r.len() && r[k] == t;
        assert(shows_conversation(r[k], conversations[i], domain));
    }
    assert forall|i: int| 0 <= i < groups.len() implies exists|k: int|
        0 <= k < r.len() && shows_group(#[trigger] r[k], #[trigger] groups[i]) by {
        let t = threads[conversations.len() + i];
        assert(is_group_thread(t, groups[i], user_id));
        assert(threads.contains(t));
        assert(r.contains(t));
        let k = choose|k: int| 0 <= k < r.len() && r[k] == t;
        assert(shows_group(r[k], groups[i]));
    }
}

/// Whether a thread names the user of a conversation and the time of its last message.
pub open spec fn shows_conversation(
    t: MessengerThread,
    c: MessengerConversation,
    domain: Seq<char>,
) -> bool {
    &&& !t.is_group
    &&& t.user_id == c.user_id
    &&& t.user_public_id == c.user_public_id
    &&& t.user_lookup@ == trim(c.username@) + "@"@ + domain
    &&& t.name == c.username
    &&& t.profile_photo_url == c.profile_photo_url
    &&& t.profile_photo_style == c.profile_photo_style
    &&& t.last_time == c.last_time
}

/// Whether a thread names a group and the time of its last message.
pub open spec fn shows_group(t: MessengerThread, g: MessengerGroupConversation) -> bool {
    &&& t.is_group
    &&& t.chat_id == g.chat_id
    &&& t.name == g.group_name
    &&& t.last_time == g.last_time
}

/// A thread shows the text of its last message, unless it holds a link or, without a text, only
/// attachments were sent; then it says who sent them.
pub proof fn law_thread_messages(user_id: i32, raw: Seq<char>, sender: Option<i32>, attachments: int)
    ensures
        ({
            let text = trim(raw);
            let shown = thread_message(user_id, raw, sender, attachments);
            let own = sender == Some(user_id);
            &&& !has_http_link(text) && (text.len() > 0 || attachments <= 0) ==> shown == text
            &&& has_http_link(text) ==> shown == if own {
                "You sent a link"@
            } else {
                "Sent you a link"@
            }
            &&& !has_http_link(text) && text.len() == 0 && attachments == 1 ==> shown == if own {
                "You sent attachment"@
            } else {
                "Sent you attachment"@
            }
            &&& !has_http_link(text) && text.len() == 0 && attachments > 1 ==> shown == if own {
                "You sent attachments"@
            } else {
                "Sent you attachments"@
            }
        }),
{
}

/// Who can be added to a group: a friend who exists, by a member of it; the first thing that is
/// missing is told.
pub proof fn law_who_can_be_added(a: GroupAddition)
    ensures
        addition_obstacle(a) is None <==> a.can_access_group && a.is_group_chat && a.user_exists
            && a.is_friend,
        !a.can_access_group ==> addition_obstacle(a) == Some(
            ReplyView::Text(403, "You are not a member of this group"@),
        ),
        a.can_access_group && !a.is_group_chat ==> addition_obstacle(a) == Some(
            ReplyView::Text(404, "Group not found"@),
        ),
        a.can_access_group && a.is_group_chat && !a.user_exists ==> addition_obstacle(a) == Some(
            ReplyView::Text(400, "User does not exist"@),
        ),
{
}

/// Nobody adds themselves to a group, and no number that is not positive is that of a user.
pub proof fn law_member_numbers(member_id: i32, current_user_id: i32)
    ensures
        member_id_obstacle(member_id, current_user_id) is None <==> member_id > 0 && member_id
            != current_user_id,
{
}

/// A user can be asked into a new group exactly where they exist and are a friend.
pub proof fn law_who_can_be_asked(m: MemberFacts)
    ensures
        obstacle_of(m) is None <==> m.user_exists && m.is_friend,
        !m.user_exists ==> obstacle_of(m) == Some(
            ReplyView::Text(400, "User "@ + decimal(m.member_id as int) + " does not exist"@),
        ),
        m.user_exists && !m.is_friend ==> obstacle_of(m) == Some(
            ReplyView::Text(400, "User "@ + decimal(m.member_id as int) + " is not your friend"@),
        ),
{
}

/// The name of a group is what its form gives, without the space around it; a blank one is none.
pub proof fn law_group_names(raw: Seq<char>)
    ensures
        trim(raw).len() > 0 ==> group_name(Some(raw)) == Some(trim(raw)),
        trim(raw).len() == 0 ==> group_name(Some(raw)) is None,
        group_name(None) is None,
{
}

/// A word is a link where it begins with one of the two schemes of the web, whatever the case, the
/// punctuation around it aside.
pub proof fn law_link_words(rest: Seq<char>)
    requires
        rest.len() > 0,
        is_alnum(rest.last()),
    ensures
        is_link_word("http://"@ + rest),
        is_link_word("https://"@ + rest),
        is_link_word("HTTPS://"@ + rest),
{
    reveal_strlit("http://");
    reveal_strlit("https://");
    reveal_strlit("HTTPS://");
    lemma_link_word("http://"@, rest);
    lemma_link_word("https://"@, rest);
    lemma_link_word("HTTPS://"@, rest);
    assert(lower("http://"@) =~= "http://"@);
    assert(lower("https://"@) =~= "https://"@);
    assert(lower("HTTPS://"@) =~= "https://"@);
}

proof fn lemma_link_word(scheme: Seq<char>, rest: Seq<char>)
    requires
        scheme.len() > 0,
        is_alnum(scheme[0]),
        rest.len() > 0,
        is_alnum(rest.last()),
    ensures
        starts_with_text(
            lower(trim_of(scheme + rest, CharClass::LinkPunctuation)),
            lower(scheme),
        ),
{
    let w = scheme + rest;
    assert(w[0] == scheme[0] && w.last() == rest.last());
    law_trim_fixed(w, CharClass::LinkPunctuation);
    assert(lower(w).subrange(0, scheme.len() as int) =~= lower(scheme));
}

/// Only a word that begins with one of the two schemes is a link, and a text with such a word
/// anywhere holds one.
pub proof fn law_links_in_messages(text: Seq<char>, i: int, word: Seq<char>)
    ensures
        0 <= i < words(text).len() && is_link_word(words(text)[i]) ==> has_http_link(text),
        has_http_link(text) ==> exists|k: int|
            0 <= k < words(text).len() && is_link_word(#[trigger] words(text)[k]),
        is_link_word(word) ==> starts_with_text(
            lower(trim_of(word, CharClass::LinkPunctuation)),
            "http://"@,
        ) || starts_with_text(lower(trim_of(word, CharClass::LinkPunctuation)), "https://"@),
{
}

/// A thread shows the last message of its conversation or of its group, and a group its own picture.
pub proof fn law_threads_show_last_messages(
    t: MessengerThread,
    c: MessengerConversation,
    u: MessengerThread,
    g: MessengerGroupConversation,
    user_id: i32,
    domain: Seq<char>,
)
    requires
        is_user_thread(t, c, user_id, domain),
        is_group_thread(u, g, user_id),
    ensures
        t.last_message@ == thread_message(
            user_id,
            c.last_message@,
            c.last_sender_id,
            c.last_attachment_count as int,
        ),
        t.chat_id == 0,
        u.last_message@ == thread_message(
            user_id,
            g.last_message@,
            g.last_sender_id,
            g.last_attachment_count as int,
        ),
        u.user_id == 0 && u.user_public_id == 0 && u.user_lookup@.len() == 0,
        u.profile_photo_url@ == "/public/group.webp"@,
        u.profile_photo_style@.len() == 0,
{
    reveal_strlit("");
}

/// A new member owns nothing and joins at the time of the addition, which is when the group was
/// changed last.
pub proof fn law_new_members(group: StoredGroup, member_id: i32, now: int)
    requires
        !group.members.contains_key(member_id),
    ensures
        ({
            let after = after_addition(group, member_id, now);
            &&& after.members[member_id].joined_at == now
            &&& !after.members[member_id].is_owner
            &&& after.modified_at == now
        }),
{
}

/// Why a number is not taken for a new member.
pub proof fn law_member_number_answers(member_id: i32, current_user_id: i32)
    ensures
        member_id <= 0 ==> member_id_obstacle(member_id, current_user_id) == Some(
            ReplyView::Text(400, "Invalid member id"@),
        ),
        member_id > 0 && member_id == current_user_id ==> member_id_obstacle(
            member_id,
            current_user_id,
        ) == Some(ReplyView::Text(400, "You are already in the group"@)),
{
}

} // verus!
