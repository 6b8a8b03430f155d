//! Who may see a post.

use vstd::prelude::*;
use vstd::string::*;

use crate::text::{law_trim_fixed, lower, str_eq, to_lower, trim, trim_text, views, CharClass};

verus! {

pub const POST_VISIBILITY_PUBLIC: &'static str = "public";

pub const POST_VISIBILITY_FOLLOWING: &'static str = "following";

pub const POST_VISIBILITY_FRIENDS: &'static str = "friends";

pub const POST_VISIBILITY_PRIVATE: &'static str = "private";

/// The visibility that a text names; public where it names none.
pub open spec fn normalized_visibility(raw: Seq<char>) -> Seq<char> {
    let v = lower(trim(raw));
    if v == "following"@ || v == "friends"@ || v == "private"@ {
        v
    } else {
        "public"@
    }
}

pub fn normalize_post_visibility(raw: &str) -> (r: &'static str)
    ensures
        r@ == normalized_visibility(raw@),
{
    let trimmed: String = trim_text(raw);
    let normalized: String = to_lower(trimmed.as_str());
    let v: &str = normalized.as_str();
    if str_eq(v, "following") {
        "following"
    } else if str_eq(v, "friends") {
        "friends"
    } else if str_eq(v, "private") {
        "private"
    } else {
        "public"
    }
}

pub open spec fn visibility_label(visibility: Seq<char>) -> Seq<char> {
    let v = normalized_visibility(visibility);
    if v == "following"@ {
        "Following"@
    } else if v == "friends"@ {
        "Friends"@
    } else if v == "private"@ {
        "Private"@
    } else {
        "Public"@
    }
}

pub fn post_visibility_label(visibility: &str) -> (r: &'static str)
    ensures
        r@ == visibility_label(visibility@),
{
    let v: &'static str = normalize_post_visibility(visibility);
    if str_eq(v, "following") {
        "Following"
    } else if str_eq(v, "friends") {
        "Friends"
    } else if str_eq(v, "private") {
        "Private"
    } else {
        "Public"
    }
}

pub open spec fn is_visibility(v: Seq<char>) -> bool {
    v == "public"@ || v == "following"@ || v == "friends"@ || v == "private"@
}

proof fn lemma_visibility_fixed(v: Seq<char>)
    requires
        is_visibility(v),
    ensures
        lower(trim(v)) == v,
{
    reveal_strlit("public");
    reveal_strlit("following");
    reveal_strlit("friends");
    reveal_strlit("private");
    law_trim_fixed(v, CharClass::White);
    assert(lower(v) =~= v);
}

/// Normalizing gives one of the four visibilities, and normalizing again changes nothing.
pub proof fn law_visibility_normal(raw: Seq<char>)
    ensures
        is_visibility(normalized_visibility(raw)),
        normalized_visibility(normalized_visibility(raw)) == normalized_visibility(raw),
{
    lemma_visibility_fixed(normalized_visibility(raw));
}

// ---------------------------------------------------------------------------
// Relationships
// ---------------------------------------------------------------------------
/// Whether a stored status makes two users friends.
pub open spec fn friend_status(status: Seq<char>) -> bool {
    let s = lower(status);
    s == "friend"@ || s == "friends"@ || s == "friendship"@ || s == "accepted"@
}

/// Whether a stored status makes a user a follower of another.
pub open spec fn follow_status(status: Seq<char>) -> bool {
    let s = lower(status);
    s == "follow"@ || s == "following"@ || s == "follower"@
}

pub fn is_friend_status(status: &str) -> (r: bool)
    ensures
        r == friend_status(status@),
{
    let s: String = to_lower(status);
    str_eq(s.as_str(), "friend") || str_eq(s.as_str(), "friends") || str_eq(
        s.as_str(),
        "friendship",
    ) || str_eq(s.as_str(), "accepted")
}

pub fn is_follow_status(status: &str) -> (r: bool)
    ensures
        r == follow_status(status@),
{
    let s: String = to_lower(status);
    str_eq(s.as_str(), "follow") || str_eq(s.as_str(), "following") || str_eq(
        s.as_str(),
        "follower",
    )
}

/// Whether one of the statuses between two users makes them friends.
pub open spec fn are_friends(statuses: Seq<Seq<char>>) -> bool {
    exists|i: int| 0 <= i < statuses.len() && friend_status(#[trigger] statuses[i])
}

/// Whether one of the statuses between two users makes one a follower of the other.
pub open spec fn are_following(statuses: Seq<Seq<char>>) -> bool {
    exists|i: int| 0 <= i < statuses.len() && follow_status(#[trigger] statuses[i])
}

fn any_friend(statuses: &Vec<String>) -> (r: bool)
    ensures
        r == are_friends(views(statuses@)),
{
    let mut i: usize = 0;
    while i < statuses.len()
        invariant
            i <= statuses.len(),
            forall|j: int| 0 <= j < i ==> !friend_status(#[trigger] views(statuses@)[j]),
        decreases statuses.len() - i,
    {
        if is_friend_status(statuses[i].as_str()) {
            assert(friend_status(views(statuses@)[i as int]));
            return true;
        }
        i = i + 1;
    }
    false
}

fn any_follower(statuses: &Vec<String>) -> (r: bool)
    ensures
        r == are_following(views(statuses@)),
{
    let mut i: usize = 0;
    while i < statuses.len()
        invariant
            i <= statuses.len(),
            forall|j: int| 0 <= j < i ==> !follow_status(#[trigger] views(statuses@)[j]),
        decreases statuses.len() - i,
    {
        if is_follow_status(statuses[i].as_str()) {
            assert(follow_status(views(statuses@)[i as int]));
            return true;
        }
        i = i + 1;
    }
    false
}

// ---------------------------------------------------------------------------
// The rule
// ---------------------------------------------------------------------------
/// Whether a viewer may see a post of the given visibility. A viewer who is not logged in has the
/// number zero; `statuses` are those of the relationships between owner and viewer.
pub open spec fn may_view(
    owner: i32,
    visibility: Seq<char>,
    viewer: i32,
    statuses: Seq<Seq<char>>,
) -> bool {
    let v = lower(visibility);
    let own = viewer > 0 && owner == viewer;
    if v == "private"@ {
        own
    } else if v == "friends"@ {
        own || (viewer > 0 && are_friends(statuses))
    } else if v == "following"@ {
        own || (viewer > 0 && (are_following(statuses) || are_friends(statuses)))
    } else {
        true
    }
}

pub fn can_view_post(owner: i32, visibility: &str, viewer: i32, statuses: &Vec<String>) -> (r: bool)
    ensures
        r == may_view(owner, visibility@, viewer, views(statuses@)),
{
    let lowered: String = to_lower(visibility);
    let v: &str = lowered.as_str();
    let own: bool = viewer > 0 && owner == viewer;
    if str_eq(v, "private") {
        own
    } else if str_eq(v, "friends") {
        own || (viewer > 0 && any_friend(statuses))
    } else if str_eq(v, "following") {
        own || (viewer > 0 && (any_follower(statuses) || any_friend(statuses)))
    } else {
        true
    }
}

/// The community that a post was made in, as it concerns a viewer.
#[derive(Clone, Copy)]
pub struct CommunityAccess {
    pub is_private: bool,
    pub viewer_is_member: bool,
}

/// Whether a viewer may see a post where it was made.
pub open spec fn may_enter(owner: i32, viewer: i32, community: Option<CommunityAccess>) -> bool {
    match community {
        Some(c) => owner == viewer || !c.is_private || (viewer > 0 && c.viewer_is_member),
        None => true,
    }
}

/// Whether a viewer may see a post, by its community and by its visibility.
pub fn can_view_post_for_user(
    owner: i32,
    visibility: &str,
    community: Option<CommunityAccess>,
    viewer: Option<i32>,
    statuses: &Vec<String>,
) -> (r: bool)
    ensures
        ({
            let v = match viewer {
                Some(id) => id,
                None => 0,
            };
            r == (may_enter(owner, v, community) && may_view(
                owner,
                visibility@,
                v,
                views(statuses@),
            ))
        }),
{
    let id: i32 = match viewer {
        Some(id) => id,
        None => 0,
    };
    let enter: bool = match community {
        Some(c) => owner == id || !c.is_private || (id > 0 && c.viewer_is_member),
        None => true,
    };
    enter && can_view_post(owner, visibility, id, statuses)
}

/// The visibilities are nested: who may see a private post may see one for friends, who may see
/// that may see one for followers, and a public one everybody may see.
pub proof fn law_visibilities_are_nested(owner: i32, viewer: i32, statuses: Seq<Seq<char>>)
    ensures
        may_view(owner, "private"@, viewer, statuses) ==> may_view(
            owner,
            "friends"@,
            viewer,
            statuses,
        ),
        may_view(owner, "friends"@, viewer, statuses) ==> may_view(
            owner,
            "following"@,
            viewer,
            statuses,
        ),
        may_view(owner, "public"@, viewer, statuses),
{
    reveal_strlit("public");
    reveal_strlit("following");
    reveal_strlit("friends");
    reveal_strlit("private");
    assert(lower("public"@) =~= "public"@);
    assert(lower("following"@) =~= "following"@);
    assert(lower("friends"@) =~= "friends"@);
    assert(lower("private"@) =~= "private"@);
    assert("public"@.len() == 6 && "following"@.len() == 9 && "friends"@.len() == 7
        && "private"@.len() == 7);
    assert("friends"@[0] == 'f' && "private"@[0] == 'p');
}

/// An owner who is logged in may see each of their posts, whatever its visibility.
pub proof fn law_owner_sees_own_post(
    owner: i32,
    visibility: Seq<char>,
    community: Option<CommunityAccess>,
    statuses: Seq<Seq<char>>,
)
    requires
        owner > 0,
    ensures
        may_enter(owner, owner, community),
        may_view(owner, visibility, owner, statuses),
{
}

/// Whether one of the statuses is a given word, whatever the case of its letters.
pub open spec fn has_status(statuses: Seq<Seq<char>>, word: Seq<char>) -> bool {
    exists|i: int| 0 <= i < statuses.len() && lower(#[trigger] statuses[i]) == word
}

proof fn lemma_visibility_words()
    ensures
        "public"@ != "private"@ && "public"@ != "friends"@ && "public"@ != "following"@,
        "private"@ != "friends"@ && "private"@ != "following"@ && "friends"@ != "following"@,
{
    reveal_strlit("public");
    reveal_strlit("following");
    reveal_strlit("friends");
    reveal_strlit("private");
    assert("public"@.len() == 6 && "following"@.len() == 9 && "friends"@.len() == 7
        && "private"@.len() == 7);
    assert("friends"@[0] == 'f' && "private"@[0] == 'p');
}

proof fn lemma_statuses(statuses: Seq<Seq<char>>)
    ensures
        are_friends(statuses) == (has_status(statuses, "friend"@) || has_status(
            statuses,
            "friends"@,
        ) || has_status(statuses, "friendship"@) || has_status(statuses, "accepted"@)),
        are_following(statuses) == (has_status(statuses, "follow"@) || has_status(
            statuses,
            "following"@,
        ) || has_status(statuses, "follower"@)),
{
    if are_friends(statuses) {
        let i = choose|i: int| 0 <= i < statuses.len() && friend_status(#[trigger] statuses[i]);
        assert(friend_status(statuses[i]));
    }
    if are_following(statuses) {
        let i = choose|i: int| 0 <= i < statuses.len() && follow_status(#[trigger] statuses[i]);
        assert(follow_status(statuses[i]));
    }
    assert forall|word: Seq<char>|
        (word == "friend"@ || word == "friends"@ || word == "friendship"@ || word == "accepted"@)
            && #[trigger] has_status(statuses, word) implies are_friends(statuses) by {
        let i = choose|i: int| 0 <= i < statuses.len() && lower(#[trigger] statuses[i]) == word;
        assert(friend_status(statuses[i]));
    }
    assert forall|word: Seq<char>|
        (word == "follow"@ || word == "following"@ || word == "follower"@) && #[trigger] has_status(
            statuses,
            word,
        ) implies are_following(statuses) by {
        let i = choose|i: int| 0 <= i < statuses.len() && lower(#[trigger] statuses[i]) == word;
        assert(follow_status(statuses[i]));
    }
}

/// A post for friends is seen by its owner and by friends: by a viewer with whom the owner has a
/// relationship of the status friend, friends, friendship or accepted, and by nobody else.
pub proof fn law_friends_posts_need_friendship(
    owner: i32,
    visibility: Seq<char>,
    viewer: i32,
    statuses: Seq<Seq<char>>,
)
    requires
        lower(visibility) == "friends"@,
    ensures
        may_view(owner, visibility, viewer, statuses) == (viewer > 0 && (owner == viewer
            || has_status(statuses, "friend"@) || has_status(statuses, "friends"@) || has_status(
            statuses,
            "friendship"@,
        ) || has_status(statuses, "accepted"@))),
{
    lemma_visibility_words();
    lemma_statuses(statuses);
}

/// A post for followers is seen by those who see one for friends, and by followers: by a viewer
/// with whom the owner has a relationship of the status follow, following or follower.
pub proof fn law_following_posts_need_a_relationship(
    owner: i32,
    visibility: Seq<char>,
    viewer: i32,
    statuses: Seq<Seq<char>>,
)
    requires
        lower(visibility) == "following"@,
    ensures
        may_view(owner, visibility, viewer, statuses) == (may_view(
            owner,
            "friends"@,
            viewer,
            statuses,
        ) || (viewer > 0 && (has_status(statuses, "follow"@) || has_status(statuses, "following"@)
            || has_status(statuses, "follower"@)))),
{
    lemma_visibility_words();
    lemma_statuses(statuses);
    lemma_visibility_fixed("friends"@);
    reveal_strlit("friends");
    assert(lower("friends"@) =~= "friends"@);
}

/// A private post is seen by its owner alone, and a post without one of the three restrictions by
/// everybody.
pub proof fn law_private_and_public_posts(
    owner: i32,
    visibility: Seq<char>,
    viewer: i32,
    statuses: Seq<Seq<char>>,
)
    ensures
        lower(visibility) == "private"@ ==> may_view(owner, visibility, viewer, statuses) == (viewer
            > 0 && owner == viewer),
        lower(visibility) != "private"@ && lower(visibility) != "friends"@ && lower(visibility)
            != "following"@ ==> may_view(owner, visibility, viewer, statuses),
{
    lemma_visibility_words();
}

/// A relationship that has ended, was refused, awaits an answer or is blocked lets no other viewer
/// see a post that is not public.
pub proof fn law_ended_relationships_hide_posts(
    owner: i32,
    visibility: Seq<char>,
    viewer: i32,
    statuses: Seq<Seq<char>>,
)
    requires
        viewer != owner,
        lower(visibility) == "friends"@ || lower(visibility) == "following"@ || lower(visibility)
            == "private"@,
        forall|i: int|
            0 <= i < statuses.len() ==> {
                let s = #[trigger] statuses[i];
                s == "removed"@ || s == "rejected"@ || s == "pending"@ || s == "blocked"@
            },
    ensures
        !may_view(owner, visibility, viewer, statuses),
{
    lemma_visibility_words();
    lemma_statuses(statuses);
    reveal_strlit("removed");
    reveal_strlit("rejected");
    reveal_strlit("pending");
    reveal_strlit("blocked");
    reveal_strlit("friend");
    reveal_strlit("friends");
    reveal_strlit("friendship");
    reveal_strlit("accepted");
    reveal_strlit("follow");
    reveal_strlit("following");
    reveal_strlit("follower");
    assert forall|i: int| 0 <= i < statuses.len() implies !friend_status(#[trigger] statuses[i])
        && !follow_status(statuses[i]) by {
        let s = statuses[i];
        assert(lower(s) =~= s);
        assert(s[0] == 'r' || s[0] == 'p' || s[0] == 'b');
        assert("friend"@[0] == 'f' && "friends"@[0] == 'f' && "friendship"@[0] == 'f'
            && "accepted"@[0] == 'a' && "follow"@[0] == 'f' && "following"@[0] == 'f'
            && "follower"@[0] == 'f');
    }
}

/// More relationships never hide a post.
pub proof fn law_relationships_only_open_posts(
    owner: i32,
    visibility: Seq<char>,
    viewer: i32,
    statuses: Seq<Seq<char>>,
    status: Seq<char>,
)
    requires
        may_view(owner, visibility, viewer, statuses),
    ensures
        may_view(owner, visibility, viewer, statuses.push(status)),
{
    let more = statuses.push(status);
    if are_friends(statuses) {
        let i = choose|i: int| 0 <= i < statuses.len() && friend_status(#[trigger] statuses[i]);
        assert(friend_status(more[i]));
    }
    if are_following(statuses) {
        let i = choose|i: int| 0 <= i < statuses.len() && follow_status(#[trigger] statuses[i]);
        assert(follow_status(more[i]));
    }
}

/// The posts of a private community are hidden from all but their authors and its members.
pub proof fn law_private_communities_are_closed(
    owner: i32,
    viewer: i32,
    community: CommunityAccess,
)
    ensures
        community.is_private && owner != viewer && (viewer <= 0 || !community.viewer_is_member)
            ==> !may_enter(owner, viewer, Some(community)),
        !community.is_private || owner == viewer || (viewer > 0 && community.viewer_is_member)
            ==> may_enter(owner, viewer, Some(community)),
        may_enter(owner, viewer, None),
{
}

/// The labels of visibilities are apart, and each is the name of its visibility.
pub proof fn law_visibility_labels(raw: Seq<char>)
    ensures
        lower(trim(raw)) == "following"@ ==> visibility_label(raw) == "Following"@,
        lower(trim(raw)) == "friends"@ ==> visibility_label(raw) == "Friends"@,
        lower(trim(raw)) == "private"@ ==> visibility_label(raw) == "Private"@,
        lower(trim(raw)) != "following"@ && lower(trim(raw)) != "friends"@ && lower(trim(raw))
            != "private"@ ==> visibility_label(raw) == "Public"@,
        lower(visibility_label(raw)) == normalized_visibility(raw),
{
    lemma_visibility_words();
    reveal_strlit("public");
    reveal_strlit("following");
    reveal_strlit("friends");
    reveal_strlit("private");
    reveal_strlit("Public");
    reveal_strlit("Following");
    reveal_strlit("Friends");
    reveal_strlit("Private");
    assert(lower("Public"@) =~= "public"@);
    assert(lower("Following"@) =~= "following"@);
    assert(lower("Friends"@) =~= "friends"@);
    assert(lower("Private"@) =~= "private"@);
}

} // verus!
