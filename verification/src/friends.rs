//! Friendships: requests, lists of relationships and the notifications about them.

use vstd::prelude::*;
use vstd::string::*;

use crate::notifications::{HeaderNotificationView, Notice, NoticeView};
use crate::number::{decimal, law_decimal_digits, law_decimal_round_trip, parse_i64, parse_integer};
use crate::page::PageHeader;
use crate::profile::{local_user_profile_path, profile_path};
use crate::ranking::{are_positions, lemma_next_position};
use crate::text::{opt_str, str_eq, trim, trim_text};

verus! {

pub struct PendingFriendRequest {
    pub request_id: i32,
    pub sender_id: i32,
    pub receiver_id: i32,
}

/// A stored relationship, as it concerns one of its two users.
pub struct RelationshipRow {
    pub request_id: i32,
    pub user_id: i32,
    pub user_public_id: i64,
    pub username: String,
    pub profile_photo_url: String,
    pub profile_photo_style: String,
    pub relationship_kind: String,
    pub direction: String,
}

pub struct RelationshipUser {
    pub user_id: i32,
    pub public_id: i64,
    pub username: String,
    pub profile_photo_url: String,
    pub profile_photo_style: String,
}

pub struct IncomingFriendRequestView {
    pub request_id: i32,
    pub sender_id: i32,
    pub sender_public_id: i64,
    pub sender_username: String,
    pub sender_profile_photo_url: String,
    pub sender_profile_photo_style: String,
}

pub struct OutgoingFriendRequestView {
    pub request_id: i32,
    pub receiver_id: i32,
    pub receiver_public_id: i64,
    pub receiver_username: String,
    pub receiver_profile_photo_url: String,
    pub receiver_profile_photo_style: String,
}

pub struct FriendRecommendationView {
    pub user_id: i32,
    pub public_id: i64,
    pub username: String,
    pub profile_photo_url: String,
    pub profile_photo_style: String,
    pub mutual_friends_count: i64,
}

pub struct FriendLookupForm {
    pub user_lookup: String,
}

pub struct FriendsTemplate {
    pub title: String,
    pub id: i64,
    pub user_id: i32,
    pub is_moderator: bool,
    pub local_profile_domain: String,
    pub username: String,
    pub profile_photo_url: String,
    pub profile_photo_style: String,
    pub pending_requests: Vec<PendingFriendRequest>,
    pub incoming_requests: Vec<IncomingFriendRequestView>,
    pub outgoing_requests: Vec<OutgoingFriendRequestView>,
    pub friend_recommendations: Vec<FriendRecommendationView>,
    pub friendships: Vec<RelationshipUser>,
    pub blocked_users: Vec<RelationshipUser>,
    pub unread_notifications_count: i64,
    pub notifications: Vec<HeaderNotificationView>,
}

// ---------------------------------------------------------------------------
// Kinds of relationships
// ---------------------------------------------------------------------------
/// What a relationship is to the user who looks at it.
#[derive(Clone, Copy, PartialEq, Eq, Structural)]
pub enum Relation {
    Friend,
    IncomingRequest,
    OutgoingRequest,
    Blocked,
    Other,
}

pub open spec fn is_friend_kind(kind: Seq<char>) -> bool {
    kind == "friend"@ || kind == "friends"@ || kind == "friendship"@ || kind == "accepted"@
}

pub open spec fn is_request_kind(kind: Seq<char>) -> bool {
    kind == "pending"@ || kind == "request"@ || kind == "requested"@ || kind == "friend_request"@
}

pub open spec fn is_blocked_kind(kind: Seq<char>) -> bool {
    kind == "blocked"@ || kind == "block"@
}

/// What the kind and the direction of a relationship make it.
pub open spec fn relation(kind: Seq<char>, direction: Seq<char>) -> Relation {
    if is_friend_kind(kind) {
        Relation::Friend
    } else if is_request_kind(kind) && direction == "incoming"@ {
        Relation::IncomingRequest
    } else if is_request_kind(kind) && direction == "outgoing"@ {
        Relation::OutgoingRequest
    } else if is_blocked_kind(kind) {
        Relation::Blocked
    } else {
        Relation::Other
    }
}

pub fn classify_relationship(kind: &str, direction: &str) -> (r: Relation)
    ensures
        r == relation(kind@, direction@),
{
    if is_friendship(kind) {
        return Relation::Friend;
    }
    if str_eq(kind, "pending") || str_eq(kind, "request") || str_eq(kind, "requested") || str_eq(
        kind,
        "friend_request",
    ) {
        if str_eq(direction, "incoming") {
            return Relation::IncomingRequest;
        }
        if str_eq(direction, "outgoing") {
            return Relation::OutgoingRequest;
        }
    }
    if str_eq(kind, "blocked") || str_eq(kind, "block") {
        return Relation::Blocked;
    }
    Relation::Other
}

// ---------------------------------------------------------------------------
// Lists of relationships
// ---------------------------------------------------------------------------
/// The relationships of a user, by what they are.
pub struct RelationshipLists {
    pub pending_requests: Vec<PendingFriendRequest>,
    pub incoming_requests: Vec<IncomingFriendRequestView>,
    pub outgoing_requests: Vec<OutgoingFriendRequestView>,
    pub friendships: Vec<RelationshipUser>,
    pub blocked_users: Vec<RelationshipUser>,
}

pub open spec fn row_relation(row: RelationshipRow) -> Relation {
    relation(row.relationship_kind@, row.direction@)
}

/// The rows among the first `n` that are the given relation, in their order.
pub open spec fn rows_of(rows: Seq<RelationshipRow>, kind: Relation, n: int) -> Seq<RelationshipRow>
    decreases n,
{
    if n <= 0 || n > rows.len() {
        Seq::empty()
    } else if row_relation(rows[n - 1]) == kind {
        rows_of(rows, kind, n - 1).push(rows[n - 1])
    } else {
        rows_of(rows, kind, n - 1)
    }
}

pub open spec fn as_user(row: RelationshipRow) -> RelationshipUser {
    RelationshipUser {
        user_id: row.user_id,
        public_id: row.user_public_id,
        username: row.username,
        profile_photo_url: row.profile_photo_url,
        profile_photo_style: row.profile_photo_style,
    }
}

pub open spec fn as_pending(row: RelationshipRow, user_id: i32) -> PendingFriendRequest {
    PendingFriendRequest {
        request_id: row.request_id,
        sender_id: row.user_id,
        receiver_id: user_id,
    }
}

pub open spec fn as_incoming(row: RelationshipRow) -> IncomingFriendRequestView {
    IncomingFriendRequestView {
        request_id: row.request_id,
        sender_id: row.user_id,
        sender_public_id: row.user_public_id,
        sender_username: row.username,
        sender_profile_photo_url: row.profile_photo_url,
        sender_profile_photo_style: row.profile_photo_style,
    }
}

pub open spec fn as_outgoing(row: RelationshipRow) -> OutgoingFriendRequestView {
    OutgoingFriendRequestView {
        request_id: row.request_id,
        receiver_id: row.user_id,
        receiver_public_id: row.user_public_id,
        receiver_username: row.username,
        receiver_profile_photo_url: row.profile_photo_url,
        receiver_profile_photo_style: row.profile_photo_style,
    }
}

/// Whether the lists are those of the first `n` rows.
pub open spec fn lists_rows(
    lists: RelationshipLists,
    rows: Seq<RelationshipRow>,
    user_id: i32,
    n: int,
) -> bool {
    let incoming = rows_of(rows, Relation::IncomingRequest, n);
    &&& lists.pending_requests@ == incoming.map_values(
        |row: RelationshipRow| as_pending(row, user_id),
    )
    &&& lists.incoming_requests@ == incoming.map_values(|row: RelationshipRow| as_incoming(row))
    &&& lists.outgoing_requests@ == rows_of(rows, Relation::OutgoingRequest, n).map_values(
        |row: RelationshipRow| as_outgoing(row),
    )
    &&& lists.friendships@ == rows_of(rows, Relation::Friend, n).map_values(
        |row: RelationshipRow| as_user(row),
    )
    &&& lists.blocked_users@ == rows_of(rows, Relation::Blocked, n).map_values(
        |row: RelationshipRow| as_user(row),
    )
}

fn relationship_user(row: &RelationshipRow) -> (r: RelationshipUser)
    ensures
        r == as_user(*row),
{
    RelationshipUser {
        user_id: row.user_id,
        public_id: row.user_public_id,
        username: row.username.clone(),
        profile_photo_url: row.profile_photo_url.clone(),
        profile_photo_style: row.profile_photo_style.clone(),
    }
}

/// No relationships.
pub fn no_relationships() -> (r: RelationshipLists)
    ensures
        r.pending_requests.len() == 0,
        r.incoming_requests.len() == 0,
        r.outgoing_requests.len() == 0,
        r.friendships.len() == 0,
        r.blocked_users.len() == 0,
{
    RelationshipLists {
        pending_requests: Vec::new(),
        incoming_requests: Vec::new(),
        outgoing_requests: Vec::new(),
        friendships: Vec::new(),
        blocked_users: Vec::new(),
    }
}

/// Sorts the relationships of a user by what they are.
pub fn sort_relationships(rows: &Vec<RelationshipRow>, current_user_id: i32) -> (r:
    RelationshipLists)
    ensures
        lists_rows(r, rows@, current_user_id, rows.len() as int),
{
    let mut lists: RelationshipLists = no_relationships();
    let mut i: usize = 0;
    proof {
        let none = Seq::<RelationshipRow>::empty();
        assert(lists.pending_requests@ =~= none.map_values(
            |row: RelationshipRow| as_pending(row, current_user_id),
        ));
        assert(lists.incoming_requests@ =~= none.map_values(
            |row: RelationshipRow| as_incoming(row),
        ));
        assert(lists.outgoing_requests@ =~= none.map_values(
            |row: RelationshipRow| as_outgoing(row),
        ));
        assert(lists.friendships@ =~= none.map_values(|row: RelationshipRow| as_user(row)));
        assert(lists.blocked_users@ =~= none.map_values(|row: RelationshipRow| as_user(row)));
    }
    while i < rows.len()
        invariant
            i <= rows.len(),
            lists_rows(lists, rows@, current_user_id, i as int),
        decreases rows.len() - i,
    {
        let row: &RelationshipRow = &rows[i];
        let kind: Relation = classify_relationship(
            row.relationship_kind.as_str(),
            row.direction.as_str(),
        );
        match kind {
            Relation::Friend => {
                lists.friendships.push(relationship_user(row));
            },
            Relation::IncomingRequest => {
                lists.pending_requests.push(
                    PendingFriendRequest {
                        request_id: row.request_id,
                        sender_id: row.user_id,
                        receiver_id: current_user_id,
                    },
                );
                lists.incoming_requests.push(
                    IncomingFriendRequestView {
                        request_id: row.request_id,
                        sender_id: row.user_id,
                        sender_public_id: row.user_public_id,
                        sender_username: row.username.clone(),
                        sender_profile_photo_url: row.profile_photo_url.clone(),
                        sender_profile_photo_style: row.profile_photo_style.clone(),
                    },
                );
            },
            Relation::OutgoingRequest => {
                lists.outgoing_requests.push(
                    OutgoingFriendRequestView {
                        request_id: row.request_id,
                        receiver_id: row.user_id,
                        receiver_public_id: row.user_public_id,
                        receiver_username: row.username.clone(),
                        receiver_profile_photo_url: row.profile_photo_url.clone(),
                        receiver_profile_photo_style: row.profile_photo_style.clone(),
                    },
                );
            },
            Relation::Blocked => {
                lists.blocked_users.push(relationship_user(row));
            },
            Relation::Other => {},
        }
        proof {
            let n = i + 1;
            assert(lists.pending_requests@ =~= rows_of(
                rows@,
                Relation::IncomingRequest,
                n,
            ).map_values(|row: RelationshipRow| as_pending(row, current_user_id)));
            assert(lists.incoming_requests@ =~= rows_of(
                rows@,
                Relation::IncomingRequest,
                n,
            ).map_values(|row: RelationshipRow| as_incoming(row)));
            assert(lists.outgoing_requests@ =~= rows_of(
                rows@,
                Relation::OutgoingRequest,
                n,
            ).map_values(|row: RelationshipRow| as_outgoing(row)));
            assert(lists.friendships@ =~= rows_of(rows@, Relation::Friend, n).map_values(
                |row: RelationshipRow| as_user(row),
            ));
            assert(lists.blocked_users@ =~= rows_of(rows@, Relation::Blocked, n).map_values(
                |row: RelationshipRow| as_user(row),
            ));
        }
        i = i + 1;
    }
    lists
}

/// Each relationship is in one list, or in none where it is of another kind.
pub proof fn law_relationships_are_sorted_once(rows: Seq<RelationshipRow>, n: int)
    requires
        0 <= n <= rows.len(),
    ensures
        rows_of(rows, Relation::Friend, n).len() + rows_of(
            rows,
            Relation::IncomingRequest,
            n,
        ).len() + rows_of(rows, Relation::OutgoingRequest, n).len() + rows_of(
            rows,
            Relation::Blocked,
            n,
        ).len() + rows_of(rows, Relation::Other, n).len() == n,
    decreases n,
{
    if n > 0 {
        law_relationships_are_sorted_once(rows, n - 1);
    }
}

proof fn lemma_rows_of(rows: Seq<RelationshipRow>, kind: Relation, n: int) -> (at: Seq<int>)
    requires
        0 <= n <= rows.len(),
    ensures
        at.len() == rows_of(rows, kind, n).len(),
        are_positions(at, n),
        forall|k: int|
            0 <= k < at.len() ==> rows_of(rows, kind, n)[k] == rows[#[trigger] at[k]]
                && row_relation(rows[at[k]]) == kind,
        forall|i: int|
            0 <= i < n && row_relation(rows[i]) == kind ==> #[trigger] at.contains(i),
    decreases n,
{
    if n == 0 {
        Seq::empty()
    } else {
        let before = lemma_rows_of(rows, kind, n - 1);
        lemma_next_position(before, n - 1);
        if row_relation(rows[n - 1]) == kind {
            before.push(n - 1)
        } else {
            before
        }
    }
}

/// Whether a user of a list is the one of a row.
pub open spec fn is_user_of(u: RelationshipUser, row: RelationshipRow) -> bool {
    &&& u.user_id == row.user_id
    &&& u.public_id == row.user_public_id
    &&& u.username == row.username
    &&& u.profile_photo_url == row.profile_photo_url
    &&& u.profile_photo_style == row.profile_photo_style
}

/// The friends of a user are listed, all of them, in the order of the rows, and nobody else: those
/// whose relationship is friend, friends, friendship or accepted.
pub proof fn law_friends_are_listed(
    lists: RelationshipLists,
    rows: Seq<RelationshipRow>,
    user_id: i32,
)
    requires
        lists_rows(lists, rows, user_id, rows.len() as int),
    ensures
        exists|at: Seq<int>|
            {
                &&& #[trigger] are_positions(at, rows.len() as int)
                &&& at.len() == lists.friendships.len()
                &&& forall|k: int|
                    0 <= k < at.len() ==> is_user_of(
                        lists.friendships[k],
                        rows[#[trigger] at[k]],
                    )
                &&& forall|i: int|
                    0 <= i < rows.len() ==> (#[trigger] at.contains(i) <==> {
                        let kind = rows[i].relationship_kind@;
                        kind == "friend"@ || kind == "friends"@ || kind == "friendship"@ || kind
                            == "accepted"@
                    })
            },
{
    let at = lemma_rows_of(rows, Relation::Friend, rows.len() as int);
    assert forall|i: int| 0 <= i < rows.len() && #[trigger] at.contains(i) implies row_relation(
        rows[i],
    ) == Relation::Friend by {
        let k = choose|k: int| 0 <= k < at.len() && at[k] == i;
        assert(row_relation(rows[at[k]]) == Relation::Friend);
    }
}

/// The requests that wait for the answer of a user are listed, all of them, in the order of the
/// rows, and nothing else: incoming ones that are pending, request, requested or friend_request.
pub proof fn law_incoming_requests_are_listed(
    lists: RelationshipLists,
    rows: Seq<RelationshipRow>,
    user_id: i32,
)
    requires
        lists_rows(lists, rows, user_id, rows.len() as int),
    ensures
        exists|at: Seq<int>|
            {
                &&& #[trigger] are_positions(at, rows.len() as int)
                &&& at.len() == lists.incoming_requests.len()
                &&& at.len() == lists.pending_requests.len()
                &&& forall|k: int|
                    0 <= k < at.len() ==> {
                        let row = rows[#[trigger] at[k]];
                        let shown = lists.incoming_requests[k];
                        let pending = lists.pending_requests[k];
                        &&& shown.request_id == row.request_id
                        &&& shown.sender_id == row.user_id
                        &&& shown.sender_public_id == row.user_public_id
                        &&& shown.sender_username == row.username
                        &&& shown.sender_profile_photo_url == row.profile_photo_url
                        &&& shown.sender_profile_photo_style == row.profile_photo_style
                        &&& pending.request_id == row.request_id
                        &&& pending.sender_id == row.user_id
                        &&& pending.receiver_id == user_id
                    }
                &&& forall|i: int|
                    0 <= i < rows.len() ==> (#[trigger] at.contains(i) <==> {
                        let kind = rows[i].relationship_kind@;
                        rows[i].direction@ == "incoming"@ && (kind == "pending"@ || kind
                            == "request"@ || kind == "requested"@ || kind == "friend_request"@)
                    })
            },
{
    let at = lemma_rows_of(rows, Relation::IncomingRequest, rows.len() as int);
    assert forall|i: int| 0 <= i < rows.len() implies (#[trigger] at.contains(i) <==> row_relation(
        rows[i],
    ) == Relation::IncomingRequest) by {
        if at.contains(i) {
            let k = choose|k: int| 0 <= k < at.len() && at[k] == i;
            assert(row_relation(rows[at[k]]) == Relation::IncomingRequest);
        }
    }
    assert forall|i: int| 0 <= i < rows.len() implies (#[trigger] at.contains(i) <==> {
        let kind = rows[i].relationship_kind@;
        rows[i].direction@ == "incoming"@ && (kind == "pending"@ || kind == "request"@ || kind
            == "requested"@ || kind == "friend_request"@)
    }) by {
        law_relation_kinds_are_apart(rows[i].relationship_kind@);
        lemma_directions_are_apart();
    }
}

proof fn lemma_directions_are_apart()
    ensures
        "incoming"@ != "outgoing"@,
{
    reveal_strlit("incoming");
    reveal_strlit("outgoing");
    assert("incoming"@[0] == 'i' && "outgoing"@[0] == 'o');
}

/// The requests that a user has sent and that wait for an answer are listed, all of them, in the
/// order of the rows, and nothing else.
pub proof fn law_outgoing_requests_are_listed(
    lists: RelationshipLists,
    rows: Seq<RelationshipRow>,
    user_id: i32,
)
    requires
        lists_rows(lists, rows, user_id, rows.len() as int),
    ensures
        exists|at: Seq<int>|
            {
                &&& #[trigger] are_positions(at, rows.len() as int)
                &&& at.len() == lists.outgoing_requests.len()
                &&& forall|k: int|
                    0 <= k < at.len() ==> {
                        let row = rows[#[trigger] at[k]];
                        let shown = lists.outgoing_requests[k];
                        &&& shown.request_id == row.request_id
                        &&& shown.receiver_id == row.user_id
                        &&& shown.receiver_public_id == row.user_public_id
                        &&& shown.receiver_username == row.username
                        &&& shown.receiver_profile_photo_url == row.profile_photo_url
                        &&& shown.receiver_profile_photo_style == row.profile_photo_style
                    }
                &&& forall|i: int|
                    0 <= i < rows.len() ==> (#[trigger] at.contains(i) <==> {
                        let kind = rows[i].relationship_kind@;
                        rows[i].direction@ == "outgoing"@ && (kind == "pending"@ || kind
                            == "request"@ || kind == "requested"@ || kind == "friend_request"@)
                    })
            },
{
    let at = lemma_rows_of(rows, Relation::OutgoingRequest, rows.len() as int);
    assert forall|i: int| 0 <= i < rows.len() implies (#[trigger] at.contains(i) <==> {
        let kind = rows[i].relationship_kind@;
        rows[i].direction@ == "outgoing"@ && (kind == "pending"@ || kind == "request"@ || kind
            == "requested"@ || kind == "friend_request"@)
    }) by {
        if at.contains(i) {
            let k = choose|k: int| 0 <= k < at.len() && at[k] == i;
            assert(row_relation(rows[at[k]]) == Relation::OutgoingRequest);
        }
        law_relation_kinds_are_apart(rows[i].relationship_kind@);
        lemma_directions_are_apart();
    }
}

/// The users between whom and a user a block stands are listed, all of them, in the order of the
/// rows, and nobody else.
pub proof fn law_blocked_users_are_listed(
    lists: RelationshipLists,
    rows: Seq<RelationshipRow>,
    user_id: i32,
)
    requires
        lists_rows(lists, rows, user_id, rows.len() as int),
    ensures
        exists|at: Seq<int>|
            {
                &&& #[trigger] are_positions(at, rows.len() as int)
                &&& at.len() == lists.blocked_users.len()
                &&& forall|k: int|
                    0 <= k < at.len() ==> is_user_of(
                        lists.blocked_users[k],
                        rows[#[trigger] at[k]],
                    )
                &&& forall|i: int|
                    0 <= i < rows.len() ==> (#[trigger] at.contains(i) <==> {
                        let kind = rows[i].relationship_kind@;
                        kind == "blocked"@ || kind == "block"@
                    })
            },
{
    let at = lemma_rows_of(rows, Relation::Blocked, rows.len() as int);
    assert forall|i: int| 0 <= i < rows.len() implies (#[trigger] at.contains(i) <==> {
        let kind = rows[i].relationship_kind@;
        kind == "blocked"@ || kind == "block"@
    }) by {
        if at.contains(i) {
            let k = choose|k: int| 0 <= k < at.len() && at[k] == i;
            assert(row_relation(rows[at[k]]) == Relation::Blocked);
        }
        law_relation_kinds_are_apart(rows[i].relationship_kind@);
    }
}

/// Friendship, requests and blocks exclude each other.
pub proof fn law_relation_kinds_are_apart(kind: Seq<char>)
    ensures
        !(is_friend_kind(kind) && is_request_kind(kind)),
        !(is_friend_kind(kind) && is_blocked_kind(kind)),
        !(is_request_kind(kind) && is_blocked_kind(kind)),
{
    reveal_strlit("friend");
    reveal_strlit("friends");
    reveal_strlit("friendship");
    reveal_strlit("accepted");
    reveal_strlit("pending");
    reveal_strlit("request");
    reveal_strlit("requested");
    reveal_strlit("friend_request");
    reveal_strlit("blocked");
    reveal_strlit("block");
    if is_blocked_kind(kind) {
        assert(kind[0] == 'b');
    }
    if is_friend_kind(kind) {
        assert((kind[0] == 'f' || kind[0] == 'a') && kind.len() <= 10);
    }
    if is_request_kind(kind) {
        assert(kind[0] == 'p' || kind[0] == 'r' || kind.len() == 14);
    }
}

/// The page of friends.
pub fn friends_page(
    header: PageHeader,
    lists: RelationshipLists,
    friend_recommendations: Vec<FriendRecommendationView>,
) -> (r: FriendsTemplate)
    ensures
        r.title@ == "Friends"@,
        r.id == header.id,
        r.user_id == header.user_id,
        r.is_moderator == header.is_moderator,
        r.local_profile_domain == header.local_profile_domain,
        r.username == header.username,
        r.profile_photo_url == header.profile_photo_url,
        r.profile_photo_style == header.profile_photo_style,
        r.unread_notifications_count == header.unread_notifications_count,
        r.notifications == header.notifications,
        r.pending_requests == lists.pending_requests,
        r.incoming_requests == lists.incoming_requests,
        r.outgoing_requests == lists.outgoing_requests,
        r.friendships == lists.friendships,
        r.blocked_users == lists.blocked_users,
        r.friend_recommendations == friend_recommendations,
{
    FriendsTemplate {
        title: "Friends".to_owned(),
        id: header.id,
        user_id: header.user_id,
        is_moderator: header.is_moderator,
        local_profile_domain: header.local_profile_domain,
        username: header.username,
        profile_photo_url: header.profile_photo_url,
        profile_photo_style: header.profile_photo_style,
        pending_requests: lists.pending_requests,
        incoming_requests: lists.incoming_requests,
        outgoing_requests: lists.outgoing_requests,
        friend_recommendations,
        friendships: lists.friendships,
        blocked_users: lists.blocked_users,
        unread_notifications_count: header.unread_notifications_count,
        notifications: header.notifications,
    }
}

// ---------------------------------------------------------------------------
// Requests
// ---------------------------------------------------------------------------
/// Whether a user can have a relationship with another.
pub fn is_other_user(current_user_id: i32, target_user_id: i32) -> (r: bool)
    ensures
        r == (target_user_id > 0 && target_user_id != current_user_id),
{
    target_user_id > 0 && target_user_id != current_user_id
}

/// Whether a user can send a friend request to another, who may be the team of the site.
pub fn may_send_friend_request(
    current_user_id: i32,
    target_user_id: i32,
    target_is_team: bool,
) -> (r: bool)
    ensures
        r == (target_user_id > 0 && target_user_id != current_user_id && !target_is_team),
{
    is_other_user(current_user_id, target_user_id) && !target_is_team
}

/// A request that was answered in the negative or taken back, and can be sent again.
pub open spec fn is_closed_kind(kind: Seq<char>) -> bool {
    kind == "rejected"@ || kind == "declined"@ || kind == "cancelled"@
}

/// What sending a friend request does to the stored relationships.
#[derive(Clone, Copy, PartialEq, Eq, Structural)]
pub enum RequestPlan {
    /// The closed request becomes a pending one of the sender.
    Revive,
    /// A new pending request is stored.
    Insert,
    Nothing,
}

/// What a friend request does where the latest relationship of the two users is of the given kind.
pub open spec fn request_plan(latest: Option<Seq<char>>) -> RequestPlan {
    match latest {
        Some(kind) => if is_friend_kind(kind) || kind == "pending"@ || kind == "blocked"@ {
            RequestPlan::Nothing
        } else if is_closed_kind(kind) {
            RequestPlan::Revive
        } else {
            RequestPlan::Insert
        },
        None => RequestPlan::Insert,
    }
}

pub fn plan_friend_request(latest: Option<&str>) -> (r: RequestPlan)
    ensures
        r == request_plan(opt_str(latest)),
{
    match latest {
        Some(kind) => {
            if is_friendship(kind) || str_eq(kind, "pending") || str_eq(kind, "blocked") {
                RequestPlan::Nothing
            } else if str_eq(kind, "rejected") || str_eq(kind, "declined") || str_eq(
                kind,
                "cancelled",
            ) {
                RequestPlan::Revive
            } else {
                RequestPlan::Insert
            }
        },
        None => RequestPlan::Insert,
    }
}

fn is_friendship(kind: &str) -> (r: bool)
    ensures
        r == is_friend_kind(kind@),
{
    str_eq(kind, "friend") || str_eq(kind, "friends") || str_eq(kind, "friendship") || str_eq(
        kind,
        "accepted",
    )
}

/// The kind of a relationship after a request was sent.
pub const PENDING_KIND: &'static str = "pending";

/// The kind of a relationship after its request was accepted.
pub const ACCEPTED_KIND: &'static str = "friendship";

/// The kind of a relationship after its request was rejected.
pub const REJECTED_KIND: &'static str = "rejected";

/// The kind of a relationship by which a user follows another.
pub const FOLLOW_KIND: &'static str = "follow";

/// The kind of a relationship after it was ended.
pub const REMOVED_KIND: &'static str = "removed";

/// Whether a relationship is a request that its receiver can answer.
pub fn is_open_request(kind: &str, receiver_id: i32, current_user_id: i32) -> (r: bool)
    ensures
        r == (receiver_id == current_user_id && is_request_kind(kind@)),
{
    receiver_id == current_user_id && (str_eq(kind, "pending") || str_eq(kind, "request")
        || str_eq(kind, "requested") || str_eq(kind, "friend_request"))
}

pub open spec fn is_follow_kind(kind: Seq<char>) -> bool {
    kind == "follow"@ || kind == "following"@ || kind == "follower"@
}

/// Whether a user can follow another: they are not friends and no block stands between them, by
/// the latest relationship of the two, and the latest from the user to the other is not a follow.
pub open spec fn can_follow(latest_pair: Option<Seq<char>>, latest_outgoing: Option<Seq<char>>) -> bool {
    &&& latest_pair matches Some(kind) ==> !is_blocked_kind(kind) && !is_friend_kind(kind)
    &&& latest_outgoing matches Some(kind) ==> !is_follow_kind(kind)
}

pub fn may_follow(latest_pair: Option<&str>, latest_outgoing: Option<&str>) -> (r: bool)
    ensures
        r == can_follow(opt_str(latest_pair), opt_str(latest_outgoing)),
{
    let open: bool = match latest_pair {
        Some(kind) => !str_eq(kind, "blocked") && !str_eq(kind, "block") && !is_friendship(kind),
        None => true,
    };
    let unfollowed: bool = match latest_outgoing {
        Some(kind) => !str_eq(kind, "follow") && !str_eq(kind, "following") && !str_eq(
            kind,
            "follower",
        ),
        None => true,
    };
    open && unfollowed
}

/// The life of a friendship: a sent request waits for its answer and is not sent twice; an
/// accepted one makes friends, who can neither be asked again nor followed; a rejected one can be
/// sent again; and after a friendship has ended a new request can be sent.
pub proof fn law_friendship_life()
    ensures
        is_request_kind(PENDING_KIND@),
        request_plan(Some(PENDING_KIND@)) == RequestPlan::Nothing,
        is_friend_kind(ACCEPTED_KIND@),
        request_plan(Some(ACCEPTED_KIND@)) == RequestPlan::Nothing,
        !is_request_kind(ACCEPTED_KIND@),
        forall|outgoing: Option<Seq<char>>| !#[trigger] can_follow(Some(ACCEPTED_KIND@), outgoing),
        request_plan(Some(REJECTED_KIND@)) == RequestPlan::Revive,
        !is_request_kind(REJECTED_KIND@),
        request_plan(Some(REMOVED_KIND@)) == RequestPlan::Insert,
        forall|pair: Option<Seq<char>>| !#[trigger] can_follow(pair, Some(FOLLOW_KIND@)),
        can_follow(Some(REMOVED_KIND@), Some(REMOVED_KIND@)),
{
    reveal_strlit("friend");
    reveal_strlit("friends");
    reveal_strlit("friendship");
    reveal_strlit("accepted");
    reveal_strlit("pending");
    reveal_strlit("request");
    reveal_strlit("requested");
    reveal_strlit("friend_request");
    reveal_strlit("blocked");
    reveal_strlit("block");
    reveal_strlit("rejected");
    reveal_strlit("declined");
    reveal_strlit("cancelled");
    reveal_strlit("removed");
    reveal_strlit("follow");
    reveal_strlit("following");
    reveal_strlit("follower");
    law_relation_kinds_are_apart(ACCEPTED_KIND@);
    assert(REJECTED_KIND@.len() == 8 && REJECTED_KIND@[0] == 'r');
    assert(REMOVED_KIND@.len() == 7 && REMOVED_KIND@[0] == 'r');
    assert("pending"@.len() == 7 && "request"@.len() == 7 && "requested"@.len() == 9);
    assert("friend_request"@.len() == 14 && "accepted"@[0] == 'a' && "declined"@[0] == 'd');
    assert("pending"@[0] == 'p' && "friends"@[0] == 'f' && "blocked"@[0] == 'b');
}

/// How the user that a form names is to be found.
pub enum UserLookup {
    Nobody,
    PublicId(i64),
    Name(String),
}

/// Whether a lookup is the one for a text: nobody for nothing, a public number where the text is
/// one, else a name.
pub open spec fn is_lookup(l: UserLookup, text: Seq<char>) -> bool {
    let t = trim(text);
    if t.len() == 0 {
        l is Nobody
    } else {
        match parse_integer(t, i64::MIN as int, i64::MAX as int) {
            Some(n) => l matches UserLookup::PublicId(id) && id == n,
            None => l matches UserLookup::Name(name) && name@ == t,
        }
    }
}

/// Reads the user that a form names.
pub fn read_user_lookup(text: &str) -> (r: UserLookup)
    ensures
        is_lookup(r, text@),
{
    let lookup: String = trim_text(text);
    if lookup.as_str().is_empty() {
        return UserLookup::Nobody;
    }
    match parse_i64(lookup.as_str()) {
        Some(id) => UserLookup::PublicId(id),
        None => UserLookup::Name(lookup),
    }
}

// ---------------------------------------------------------------------------
// Notifications
// ---------------------------------------------------------------------------
/// What two users can do that one of them is told of.
#[derive(Clone, Copy, PartialEq, Eq, Structural)]
pub enum FriendEvent {
    RequestSent,
    RequestAccepted,
    RequestRejected,
    Followed,
}

pub open spec fn event_kind(e: FriendEvent) -> Seq<char> {
    match e {
        FriendEvent::RequestSent => "friend_request"@,
        FriendEvent::RequestAccepted => "friend_request_accepted"@,
        FriendEvent::RequestRejected => "friend_request_rejected"@,
        FriendEvent::Followed => "new_follower"@,
    }
}

pub open spec fn event_title(e: FriendEvent) -> Seq<char> {
    match e {
        FriendEvent::RequestSent => "New friend request"@,
        FriendEvent::RequestAccepted => "Friend request accepted"@,
        FriendEvent::RequestRejected => "Friend request rejected"@,
        FriendEvent::Followed => "New follower"@,
    }
}

pub open spec fn event_text(e: FriendEvent) -> Seq<char> {
    match e {
        FriendEvent::RequestSent => " sent you a friend request"@,
        FriendEvent::RequestAccepted => " accepted your friend request"@,
        FriendEvent::RequestRejected => " rejected your friend request"@,
        FriendEvent::Followed => " started following you"@,
    }
}

/// The notification of the other user about what a user did.
pub fn friend_notice(
    event: FriendEvent,
    recipient_user_id: i32,
    username: &str,
    local_domain: &str,
) -> (r: Notice)
    ensures
        r@ == (NoticeView {
            recipient_user_id,
            kind: event_kind(event),
            title: event_title(event),
            body: "@"@ + username@ + event_text(event),
            link_url: profile_path(username@, local_domain@),
        }),
{
    let (kind, title, text): (&str, &str, &str) = match event {
        FriendEvent::RequestSent => (
            "friend_request",
            "New friend request",
            " sent you a friend request",
        ),
        FriendEvent::RequestAccepted => (
            "friend_request_accepted",
            "Friend request accepted",
            " accepted your friend request",
        ),
        FriendEvent::RequestRejected => (
            "friend_request_rejected",
            "Friend request rejected",
            " rejected your friend request",
        ),
        FriendEvent::Followed => ("new_follower", "New follower", " started following you"),
    };
    let mut body: String = "@".to_owned();
    body.append(username);
    body.append(text);
    Notice {
        recipient_user_id,
        kind: kind.to_owned(),
        title: title.to_owned(),
        body,
        link_url: local_user_profile_path(username, local_domain),
    }
}

/// When a friend request can be sent: not between friends, not while one is pending, not where the
/// latest relationship is blocked. One that was rejected, declined or cancelled is sent again.
pub proof fn law_requests_and_what_was_before(kind: Seq<char>)
    ensures
        request_plan(Some(kind)) == RequestPlan::Nothing <==> (kind == "friend"@ || kind
            == "friends"@ || kind == "friendship"@ || kind == "accepted"@ || kind == "pending"@
            || kind == "blocked"@),
        request_plan(Some(kind)) == RequestPlan::Revive <==> (kind == "rejected"@ || kind
            == "declined"@ || kind == "cancelled"@),
        request_plan(None) == RequestPlan::Insert,
{
    lemma_request_words();
}

proof fn lemma_request_words()
    ensures
        !is_friend_kind("rejected"@) && !is_friend_kind("declined"@) && !is_friend_kind(
            "cancelled"@,
        ),
        "pending"@ != "rejected"@ && "pending"@ != "declined"@ && "pending"@ != "cancelled"@,
        "blocked"@ != "rejected"@ && "blocked"@ != "declined"@ && "blocked"@ != "cancelled"@,
{
    reveal_strlit("friend");
    reveal_strlit("friends");
    reveal_strlit("friendship");
    reveal_strlit("accepted");
    reveal_strlit("pending");
    reveal_strlit("blocked");
    reveal_strlit("rejected");
    reveal_strlit("declined");
    reveal_strlit("cancelled");
    assert("friend"@[0] == 'f' && "friends"@[0] == 'f' && "friendship"@[0] == 'f' && "accepted"@[0]
        == 'a' && "pending"@[0] == 'p' && "blocked"@[0] == 'b' && "rejected"@[0] == 'r'
        && "declined"@[0] == 'd' && "cancelled"@[0] == 'c');
}

/// Who can be followed: nobody with whom a friendship or a block is the latest relationship, and
/// nobody who is followed already.
pub proof fn law_who_can_be_followed(pair: Option<Seq<char>>, outgoing: Option<Seq<char>>)
    ensures
        can_follow(pair, outgoing) == {
            &&& pair matches Some(kind) ==> kind != "friend"@ && kind != "friends"@ && kind
                != "friendship"@ && kind != "accepted"@ && kind != "blocked"@ && kind != "block"@
            &&& outgoing matches Some(kind) ==> kind != "follow"@ && kind != "following"@ && kind
                != "follower"@
        },
{
}

/// Each event between users has its own kind of notice, which says what happened.
pub proof fn law_friend_events_are_told(a: FriendEvent, b: FriendEvent)
    ensures
        event_kind(a) == event_kind(b) ==> a == b,
        event_text(FriendEvent::RequestSent) == " sent you a friend request"@,
        event_text(FriendEvent::RequestAccepted) == " accepted your friend request"@,
        event_text(FriendEvent::RequestRejected) == " rejected your friend request"@,
        event_text(FriendEvent::Followed) == " started following you"@,
        event_kind(FriendEvent::RequestSent) == "friend_request"@,
        event_kind(FriendEvent::RequestAccepted) == "friend_request_accepted"@,
        event_kind(FriendEvent::RequestRejected) == "friend_request_rejected"@,
        event_kind(FriendEvent::Followed) == "new_follower"@,
{
    reveal_strlit("friend_request");
    reveal_strlit("friend_request_accepted");
    reveal_strlit("friend_request_rejected");
    reveal_strlit("new_follower");
    assert("friend_request"@.len() == 14 && "friend_request_accepted"@.len() == 23
        && "friend_request_rejected"@.len() == 23 && "new_follower"@.len() == 12);
    assert("friend_request_accepted"@[15] == 'a' && "friend_request_rejected"@[15] == 'r');
}

/// A text looks for a user by number where it is one, and else by name; a blank one for nobody.
pub proof fn law_user_lookups(l: UserLookup, text: Seq<char>, n: i64)
    requires
        is_lookup(l, text),
    ensures
        trim(text).len() == 0 <==> l is Nobody,
        trim(text) == decimal(n as int) ==> l == UserLookup::PublicId(n),
        l matches UserLookup::Name(name) ==> name@ == trim(text) && parse_integer(
            trim(text),
            i64::MIN as int,
            i64::MAX as int,
        ) is None,
{
    law_decimal_round_trip(n as int, i64::MIN as int, i64::MAX as int);
    if n >= 0 {
        law_decimal_digits(n as int);
    } else {
        law_decimal_digits(-(n as int));
    }
}

/// What the notice of each event is headed by.
pub proof fn law_event_titles(e: FriendEvent)
    ensures
        e is RequestSent ==> event_title(e) == "New friend request"@,
        e is RequestAccepted ==> event_title(e) == "Friend request accepted"@,
        e is RequestRejected ==> event_title(e) == "Friend request rejected"@,
        e is Followed ==> event_title(e) == "New follower"@,
{
}

/// The words for relationships.
pub proof fn law_relationship_words(kind: Seq<char>)
    ensures
        is_closed_kind(kind) <==> kind == "rejected"@ || kind == "declined"@ || kind
            == "cancelled"@,
        is_follow_kind(kind) <==> kind == "follow"@ || kind == "following"@ || kind == "follower"@,
{
}

} // verus!
