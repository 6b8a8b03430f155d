//! Comments on posts, and the order in which a thread shows them.

use std::collections::{BTreeMap, BTreeSet};
use vstd::prelude::*;

verus! {

broadcast use vstd::laws_cmp::group_laws_cmp;

/// A comment as a page shows it.
pub struct PostCommentView {
    pub comment_id: i64,
    pub commenter_public_id: i64,
    pub commenter_username: String,
    pub commenter_profile_photo_url: String,
    pub commenter_profile_photo_style: String,
    pub body: String,
    pub created_at: String,
    pub likes_count: i64,
    pub liked_by_current_user: bool,
    pub reply_parent_comment_id: i64,
    pub reply_to_comment_id: Option<i64>,
    pub reply_to_body_preview: String,
    pub reply_to_username: String,
    pub thread_depth: i64,
    pub thread_root_comment_id: i64,
}

impl PostCommentView {
    /// The comment at another place of a thread.
    pub open spec fn at(self, depth: i64, root: i64) -> PostCommentView {
        PostCommentView { thread_depth: depth, thread_root_comment_id: root, ..self }
    }

    /// A copy of the comment with its depth and the root of its thread set.
    pub fn placed(&self, depth: i64, root: i64) -> (r: PostCommentView)
        ensures
            r == self.at(depth, root),
    {
        PostCommentView {
            comment_id: self.comment_id,
            commenter_public_id: self.commenter_public_id,
            commenter_username: self.commenter_username.clone(),
            commenter_profile_photo_url: self.commenter_profile_photo_url.clone(),
            commenter_profile_photo_style: self.commenter_profile_photo_style.clone(),
            body: self.body.clone(),
            created_at: self.created_at.clone(),
            likes_count: self.likes_count,
            liked_by_current_user: self.liked_by_current_user,
            reply_parent_comment_id: self.reply_parent_comment_id,
            reply_to_comment_id: self.reply_to_comment_id,
            reply_to_body_preview: self.reply_to_body_preview.clone(),
            reply_to_username: self.reply_to_username.clone(),
            thread_depth: depth,
            thread_root_comment_id: root,
        }
    }
}

// ---------------------------------------------------------------------------
// The reply relation
// ---------------------------------------------------------------------------
pub open spec fn has_comment(c: Seq<PostCommentView>, id: i64) -> bool {
    exists|i: int| 0 <= i < c.len() && (#[trigger] c[i]).comment_id == id
}

/// The comment with the given identifier; of several, the last.
pub open spec fn comment_with(c: Seq<PostCommentView>, id: i64) -> PostCommentView
    decreases c.len(),
{
    if c.len() == 0 {
        arbitrary()
    } else if c.last().comment_id == id {
        c.last()
    } else {
        comment_with(c.drop_last(), id)
    }
}

/// The comment that a comment answers: another one of the list.
pub open spec fn parent_of(c: Seq<PostCommentView>, id: i64) -> Option<i64> {
    match comment_with(c, id).reply_to_comment_id {
        Some(p) => if p != id && has_comment(c, p) {
            Some(p)
        } else {
            None
        },
        None => None,
    }
}

/// The identifiers, in the order of the list, of those of the first `n` comments whose parent
/// is the given one; without a parent, those that answer no other comment of the list.
pub open spec fn answering(c: Seq<PostCommentView>, parent: Option<i64>, n: nat) -> Seq<i64>
    decreases n,
{
    if n == 0 || n > c.len() {
        Seq::empty()
    } else {
        let before = answering(c, parent, (n - 1) as nat);
        if parent_of(c, c[n - 1].comment_id) == parent {
            before.push(c[n - 1].comment_id)
        } else {
            before
        }
    }
}

pub open spec fn ids(c: Seq<PostCommentView>) -> Seq<i64> {
    Seq::new(c.len(), |i: int| c[i].comment_id)
}

// ---------------------------------------------------------------------------
// The order of a thread
// ---------------------------------------------------------------------------
/// How many comments of the list have no place in `out` yet.
pub open spec fn unplaced(c: Seq<PostCommentView>, out: Seq<PostCommentView>) -> nat
    decreases c.len(),
{
    if c.len() == 0 {
        0
    } else if has_comment(out, c.last().comment_id) {
        unplaced(c.drop_last(), out)
    } else {
        1 + unplaced(c.drop_last(), out)
    }
}

/// The next depth, up to the largest.
pub open spec fn deeper(depth: i64) -> i64 {
    if depth < i64::MAX {
        (depth + 1) as i64
    } else {
        depth
    }
}

/// Appends to `out` the comments of `todo` in turn, each followed by its answers one level
/// deeper, leaving out what has a place already. Without a root each comment of `todo` is the
/// root of its own thread.
///
/// The two conditions on `unplaced` always hold, by `lemma_walk`; they make the definition
/// well-founded.
pub open spec fn walk(
    c: Seq<PostCommentView>,
    todo: Seq<i64>,
    depth: i64,
    root: Option<i64>,
    out: Seq<PostCommentView>,
) -> Seq<PostCommentView>
    decreases unplaced(c, out), todo.len(),
{
    if todo.len() == 0 {
        out
    } else {
        let id = todo[0];
        let own_root = match root {
            Some(r) => r,
            None => id,
        };
        let pushed = out.push(comment_with(c, id).at(depth, own_root));
        let after = if has_comment(out, id) || !has_comment(c, id) {
            out
        } else if unplaced(c, pushed) < unplaced(c, out) {
            walk(c, answering(c, Some(id), c.len()), deeper(depth), Some(own_root), pushed)
        } else {
            pushed
        };
        if unplaced(c, after) <= unplaced(c, out) {
            walk(c, todo.drop_first(), depth, root, after)
        } else {
            after
        }
    }
}

/// The comments in the order of their threads: first the threads of the comments that answer no
/// other, then what only a cycle of answers reaches.
pub open spec fn thread_order(c: Seq<PostCommentView>) -> Seq<PostCommentView> {
    walk(c, ids(c), 0, None, walk(c, answering(c, None, c.len()), 0, None, Seq::empty()))
}

// ---------------------------------------------------------------------------
// Lemmas
// ---------------------------------------------------------------------------
pub proof fn lemma_comment_with(c: Seq<PostCommentView>, id: i64)
    requires
        has_comment(c, id),
    ensures
        comment_with(c, id).comment_id == id,
        exists|i: int| 0 <= i < c.len() && comment_with(c, id) == #[trigger] c[i],
    decreases c.len(),
{
    if c.last().comment_id != id {
        let i = choose|i: int| 0 <= i < c.len() && (#[trigger] c[i]).comment_id == id;
        assert(c.drop_last()[i] == c[i]);
        lemma_comment_with(c.drop_last(), id);
        let j = choose|j: int|
            0 <= j < c.drop_last().len() && comment_with(c.drop_last(), id)
                == #[trigger] c.drop_last()[j];
        assert(c[j] == c.drop_last()[j]);
    } else {
        assert(c[c.len() - 1].comment_id == id);
    }
}

proof fn lemma_unplaced(
    c: Seq<PostCommentView>,
    out: Seq<PostCommentView>,
    more: Seq<PostCommentView>,
)
    requires
        forall|id: i64| has_comment(out, id) ==> has_comment(more, id),
    ensures
        unplaced(c, more) <= unplaced(c, out),
        (exists|id: i64| has_comment(c, id) && has_comment(more, id) && !has_comment(out, id))
            ==> unplaced(c, more) < unplaced(c, out),
    decreases c.len(),
{
    if c.len() > 0 {
        lemma_unplaced(c.drop_last(), out, more);
        assert forall|id: i64|
            has_comment(c, id) && id != c.last().comment_id implies has_comment(
            c.drop_last(),
            id,
        ) by {
            let i = choose|i: int| 0 <= i < c.len() && (#[trigger] c[i]).comment_id == id;
            assert(c.drop_last()[i] == c[i]);
        }
    }
}

proof fn lemma_push_places(out: Seq<PostCommentView>, v: PostCommentView)
    ensures
        forall|id: i64|
            has_comment(out.push(v), id) <==> (has_comment(out, id) || v.comment_id == id),
{
    let p = out.push(v);
    assert forall|id: i64|
        has_comment(p, id) <==> (has_comment(out, id) || v.comment_id == id) by {
        if has_comment(out, id) {
            let i = choose|i: int| 0 <= i < out.len() && (#[trigger] out[i]).comment_id == id;
            assert(p[i].comment_id == id);
        }
        if v.comment_id == id {
            assert(p[out.len() as int].comment_id == id);
        }
        if has_comment(p, id) {
            let i = choose|i: int| 0 <= i < p.len() && (#[trigger] p[i]).comment_id == id;
            if i < out.len() {
                assert(out[i].comment_id == id);
            }
        }
    }
}

proof fn lemma_prefix_places(out: Seq<PostCommentView>, more: Seq<PostCommentView>)
    requires
        out.is_prefix_of(more),
    ensures
        forall|id: i64| has_comment(out, id) ==> has_comment(more, id),
{
    assert forall|id: i64| has_comment(out, id) implies has_comment(more, id) by {
        let i = choose|i: int| 0 <= i < out.len() && (#[trigger] out[i]).comment_id == id;
        assert(more[i].comment_id == id);
    }
}

/// A step of the walk: what happens to the first identifier of `todo`.
pub open spec fn walk_one(
    c: Seq<PostCommentView>,
    id: i64,
    depth: i64,
    root: Option<i64>,
    out: Seq<PostCommentView>,
) -> Seq<PostCommentView> {
    let own_root = match root {
        Some(r) => r,
        None => id,
    };
    if has_comment(out, id) || !has_comment(c, id) {
        out
    } else {
        walk(
            c,
            answering(c, Some(id), c.len()),
            deeper(depth),
            Some(own_root),
            out.push(comment_with(c, id).at(depth, own_root)),
        )
    }
}

/// The walk keeps what is in `out`, and handles the identifiers of `todo` one after the other.
pub proof fn lemma_walk(
    c: Seq<PostCommentView>,
    todo: Seq<i64>,
    depth: i64,
    root: Option<i64>,
    out: Seq<PostCommentView>,
)
    ensures
        out.is_prefix_of(walk(c, todo, depth, root, out)),
        unplaced(c, walk(c, todo, depth, root, out)) <= unplaced(c, out),
        todo.len() > 0 ==> walk(c, todo, depth, root, out) == walk(
            c,
            todo.drop_first(),
            depth,
            root,
            walk_one(c, todo[0], depth, root, out),
        ) && out.is_prefix_of(walk_one(c, todo[0], depth, root, out)) && unplaced(
            c,
            walk_one(c, todo[0], depth, root, out),
        ) <= unplaced(c, out),
    decreases unplaced(c, out), todo.len(),
{
    if todo.len() > 0 {
        let id = todo[0];
        let own_root = match root {
            Some(r) => r,
            None => id,
        };
        let pushed = out.push(comment_with(c, id).at(depth, own_root));
        if !(has_comment(out, id) || !has_comment(c, id)) {
            lemma_comment_with(c, id);
            lemma_push_places(out, comment_with(c, id).at(depth, own_root));
            lemma_unplaced(c, out, pushed);
            assert(unplaced(c, pushed) < unplaced(c, out));
            lemma_walk(
                c,
                answering(c, Some(id), c.len()),
                deeper(depth),
                Some(own_root),
                pushed,
            );
            assert(out.is_prefix_of(pushed));
        }
        let after = walk_one(c, id, depth, root, out);
        lemma_walk(c, todo.drop_first(), depth, root, after);
    }
}

// ---------------------------------------------------------------------------
// Threading
// ---------------------------------------------------------------------------
/// What the two maps hold for a list of comments.
spec fn index_ok(
    c: Seq<PostCommentView>,
    positions: Map<i64, usize>,
    children: Map<i64, Vec<i64>>,
) -> bool {
    &&& forall|id: i64| #[trigger] positions.contains_key(id) <==> has_comment(c, id)
    &&& forall|id: i64| #[trigger]
        positions.contains_key(id) ==> positions[id] < c.len() && c[positions[id] as int]
            == comment_with(c, id)
    &&& forall|id: i64| #[trigger]
        children.contains_key(id) ==> children[id]@ == answering(c, Some(id), c.len())
    &&& forall|id: i64|
        !#[trigger] children.contains_key(id) ==> answering(c, Some(id), c.len()).len() == 0
}

fn walk_comment_thread(
    comments: &Vec<PostCommentView>,
    positions: &BTreeMap<i64, usize>,
    children: &BTreeMap<i64, Vec<i64>>,
    todo: &Vec<i64>,
    depth: i64,
    root: Option<i64>,
    visited: &mut BTreeSet<i64>,
    output: &mut Vec<PostCommentView>,
)
    requires
        index_ok(comments@, positions@, children@),
        forall|id: i64| old(visited)@.contains(id) <==> has_comment(old(output)@, id),
    ensures
        final(output)@ == walk(comments@, todo@, depth, root, old(output)@),
        forall|id: i64| final(visited)@.contains(id) <==> has_comment(final(output)@, id),
    decreases unplaced(comments@, old(output)@),
{
    let ghost c = comments@;
    let ghost start = output@;
    let mut i: usize = 0;
    assert(todo@.skip(0) =~= todo@);
    while i < todo.len()
        invariant
            i <= todo.len(),
            c == comments@,
            index_ok(c, positions@, children@),
            forall|id: i64| visited@.contains(id) <==> has_comment(output@, id),
            walk(c, todo@.skip(i as int), depth, root, output@) == walk(
                c,
                todo@,
                depth,
                root,
                start,
            ),
            unplaced(c, output@) <= unplaced(c, start),
            start == old(output)@,
        decreases todo.len() - i,
    {
        let id: i64 = todo[i];
        proof {
            lemma_walk(c, todo@.skip(i as int), depth, root, output@);
            assert(todo@.skip(i as int)[0] == id);
            assert(todo@.skip(i as int).drop_first() =~= todo@.skip(i + 1));
        }
        if !visited.contains(&id) {
            if let Some(position) = positions.get(&id) {
                let own_root: i64 = match root {
                    Some(r) => r,
                    None => id,
                };
                let ghost before = output@;
                let threaded: PostCommentView = comments[*position].placed(depth, own_root);
                visited.insert(id);
                output.push(threaded);
                proof {
                    lemma_comment_with(c, id);
                    lemma_push_places(before, threaded);
                    lemma_unplaced(c, before, output@);
                }
                if let Some(answers) = children.get(&id) {
                    let next: i64 = if depth < i64::MAX {
                        depth + 1
                    } else {
                        depth
                    };
                    walk_comment_thread(
                        comments,
                        positions,
                        children,
                        answers,
                        next,
                        Some(own_root),
                        visited,
                        output,
                    );
                }
                assert(output@ == walk_one(c, id, depth, root, before));
            }
        }
        i = i + 1;
    }
    assert(todo@.skip(i as int).len() == 0);
}

proof fn lemma_comment_with_push(c: Seq<PostCommentView>, n: int, id: i64)
    requires
        0 <= n < c.len(),
    ensures
        comment_with(c.take(n + 1), id) == (if c[n].comment_id == id {
            c[n]
        } else {
            comment_with(c.take(n), id)
        }),
        has_comment(c.take(n + 1), id) <==> (has_comment(c.take(n), id) || c[n].comment_id == id),
{
    assert(c.take(n + 1).drop_last() =~= c.take(n));
    assert(c.take(n + 1) =~= c.take(n).push(c[n]));
    lemma_push_places(c.take(n), c[n]);
}

fn index_positions(comments: &Vec<PostCommentView>) -> (positions: BTreeMap<i64, usize>)
    ensures
        forall|id: i64| #[trigger]
            positions@.contains_key(id) <==> has_comment(comments@, id),
        forall|id: i64| #[trigger]
            positions@.contains_key(id) ==> positions@[id] < comments.len()
                && comments@[positions@[id] as int] == comment_with(comments@, id),
{
    let mut positions: BTreeMap<i64, usize> = BTreeMap::new();
    let ghost c = comments@;
    let mut i: usize = 0;
    while i < comments.len()
        invariant
            i <= comments.len(),
            c == comments@,
            forall|id: i64| #[trigger]
                positions@.contains_key(id) <==> has_comment(c.take(i as int), id),
            forall|id: i64| #[trigger]
                positions@.contains_key(id) ==> positions@[id] < i && c[positions@[id] as int]
                    == comment_with(c.take(i as int), id),
        decreases comments.len() - i,
    {
        proof {
            assert forall|id: i64|
                comment_with(c.take(i + 1), id) == (if c[i as int].comment_id == id {
                    c[i as int]
                } else {
                    comment_with(c.take(i as int), id)
                }) && (has_comment(c.take(i + 1), id) <==> (has_comment(c.take(i as int), id)
                    || c[i as int].comment_id == id)) by {
                lemma_comment_with_push(c, i as int, id);
            }
        }
        positions.insert(comments[i].comment_id, i);
        i = i + 1;
    }
    assert(c.take(i as int) =~= c);
    positions
}

/// Orders the comments of a post by threads and sets the depth and the root of each.
pub fn thread_post_comments(comments: Vec<PostCommentView>) -> (r: Vec<PostCommentView>)
    ensures
        r@ == thread_order(comments@),
{
    let ghost c = comments@;
    let positions: BTreeMap<i64, usize> = index_positions(&comments);
    let mut children: BTreeMap<i64, Vec<i64>> = BTreeMap::new();
    let mut roots: Vec<i64> = Vec::new();
    let mut ordered: Vec<i64> = Vec::new();
    let mut i: usize = 0;
    while i < comments.len()
        invariant
            i <= comments.len(),
            c == comments@,
            forall|id: i64| #[trigger] positions@.contains_key(id) <==> has_comment(c, id),
            forall|id: i64| #[trigger]
                positions@.contains_key(id) ==> positions@[id] < c.len()
                    && c[positions@[id] as int] == comment_with(c, id),
            forall|id: i64| #[trigger]
                children@.contains_key(id) ==> children@[id]@ == answering(c, Some(id), i as nat),
            forall|id: i64|
                !#[trigger] children@.contains_key(id) ==> answering(c, Some(id), i as nat).len()
                    == 0,
            roots@ == answering(c, None, i as nat),
            ordered@ =~= ids(c.take(i as int)),
        decreases comments.len() - i,
    {
        let id: i64 = comments[i].comment_id;
        ordered.push(id);
        assert(c[i as int].comment_id == id);
        assert(has_comment(c, id));
        let reply: Option<i64> = match positions.get(&id) {
            Some(position) => comments[*position].reply_to_comment_id,
            None => None,
        };
        let parent: Option<i64> = match reply {
            Some(p) => if p != id && positions.contains_key(&p) {
                Some(p)
            } else {
                None
            },
            None => None,
        };
        assert(parent == parent_of(c, id));
        match parent {
            Some(p) => {
                let ghost before = children@;
                let mut answers: Vec<i64> = match children.remove(&p) {
                    Some(list) => list,
                    None => Vec::new(),
                };
                answers.push(id);
                assert(answers@ =~= answering(c, Some(p), (i + 1) as nat));
                children.insert(p, answers);
                assert forall|x: i64| #[trigger] children@.contains_key(x) implies children@[x]@
                    == answering(c, Some(x), (i + 1) as nat) by {
                    if x != p {
                        assert(before.contains_key(x));
                    }
                }
                assert forall|x: i64|
                    !#[trigger] children@.contains_key(x) implies answering(
                    c,
                    Some(x),
                    (i + 1) as nat,
                ).len() == 0 by {
                    assert(!before.contains_key(x));
                }
            },
            None => {
                roots.push(id);
            },
        }
        i = i + 1;
    }
    assert(c.take(i as int) =~= c);
    let mut visited: BTreeSet<i64> = BTreeSet::new();
    let mut threaded: Vec<PostCommentView> = Vec::new();
    walk_comment_thread(
        &comments,
        &positions,
        &children,
        &roots,
        0,
        None,
        &mut visited,
        &mut threaded,
    );
    walk_comment_thread(
        &comments,
        &positions,
        &children,
        &ordered,
        0,
        None,
        &mut visited,
        &mut threaded,
    );
    threaded
}

// ---------------------------------------------------------------------------
// Laws
// ---------------------------------------------------------------------------
/// No identifier stands in the list twice.
pub open spec fn distinct(out: Seq<PostCommentView>) -> bool {
    forall|i: int, j: int|
        0 <= i < j < out.len() ==> (#[trigger] out[i]).comment_id != (#[trigger] out[j]).comment_id
}

/// Each entry is a comment of the list, changed in its depth and root alone.
pub open spec fn drawn_from(c: Seq<PostCommentView>, out: Seq<PostCommentView>) -> bool {
    forall|i: int|
        0 <= i < out.len() ==> {
            let e = #[trigger] out[i];
            &&& has_comment(c, e.comment_id)
            &&& e == comment_with(c, e.comment_id).at(e.thread_depth, e.thread_root_comment_id)
        }
}

/// The entry at `j` answers the entry at `p`, which stands before it with nothing but other
/// answers, at least as deep, in between.
pub open spec fn answers_at(
    c: Seq<PostCommentView>,
    out: Seq<PostCommentView>,
    p: int,
    j: int,
) -> bool {
    &&& 0 <= p < j < out.len()
    &&& parent_of(c, out[j].comment_id) == Some(out[p].comment_id)
    &&& out[j].thread_depth == deeper(out[p].thread_depth)
    &&& out[j].thread_root_comment_id == out[p].thread_root_comment_id
    &&& forall|x: int| p < x < j ==> (#[trigger] out[x]).thread_depth >= out[j].thread_depth
}

/// The comment that is reached from a comment by `k` steps to what is answered.
pub open spec fn ancestor(c: Seq<PostCommentView>, id: i64, k: nat) -> Option<i64>
    decreases k,
{
    if k == 0 {
        Some(id)
    } else {
        match parent_of(c, id) {
            Some(p) => ancestor(c, p, (k - 1) as nat),
            None => None,
        }
    }
}

/// Whether the steps from a comment to what is answered run into a cycle of answers.
pub open spec fn leads_to_cycle(c: Seq<PostCommentView>, id: i64) -> bool {
    exists|i: nat, j: nat|
        i < j && ancestor(c, id, i) is Some && #[trigger] ancestor(c, id, i)
            == #[trigger] ancestor(c, id, j)
}

/// Whether a comment may begin a thread: it answers no other comment of the list, or the comments
/// above it run into a cycle of answers.
pub open spec fn may_begin(c: Seq<PostCommentView>, id: i64) -> bool {
    parent_of(c, id) is None || leads_to_cycle(c, id)
}

/// The entry at `j` begins a thread.
pub open spec fn begins_at(c: Seq<PostCommentView>, out: Seq<PostCommentView>, j: int) -> bool {
    &&& out[j].thread_depth == 0
    &&& out[j].thread_root_comment_id == out[j].comment_id
    &&& may_begin(c, out[j].comment_id)
    &&& forall|p: int|
        0 <= p < j ==> parent_of(c, out[j].comment_id) != Some((#[trigger] out[p]).comment_id)
}

/// The entry at `j` begins a thread, or answers an entry before it.
pub open spec fn well_placed(c: Seq<PostCommentView>, out: Seq<PostCommentView>, j: int) -> bool {
    begins_at(c, out, j) || exists|p: int| answers_at(c, out, p, j)
}

pub open spec fn threaded(c: Seq<PostCommentView>, out: Seq<PostCommentView>) -> bool {
    &&& distinct(out)
    &&& drawn_from(c, out)
    &&& forall|j: int| 0 <= j < out.len() ==> #[trigger] well_placed(c, out, j)
}

proof fn lemma_answering(c: Seq<PostCommentView>, parent: Option<i64>, n: nat)
    ensures
        forall|i: int|
            0 <= i < answering(c, parent, n).len() ==> parent_of(
                c,
                #[trigger] answering(c, parent, n)[i],
            ) == parent,
    decreases n,
{
    if n > 0 && n <= c.len() {
        lemma_answering(c, parent, (n - 1) as nat);
    }
}

proof fn lemma_push_threaded(
    c: Seq<PostCommentView>,
    id: i64,
    depth: i64,
    root: Option<i64>,
    out: Seq<PostCommentView>,
    p: int,
)
    requires
        threaded(c, out),
        has_comment(c, id),
        !has_comment(out, id),
        root is None ==> depth == 0 && may_begin(c, id),
        root is None ==> forall|q: int|
            0 <= q < out.len() ==> parent_of(c, id) != Some((#[trigger] out[q]).comment_id),
        root is Some ==> 0 <= p < out.len() && parent_of(c, id) == Some(out[p].comment_id)
            && out[p].thread_root_comment_id == root->0 && depth == deeper(out[p].thread_depth),
        root is Some ==> forall|x: int| p < x < out.len() ==> (#[trigger] out[x]).thread_depth >= depth,
    ensures
        ({
            let own_root = match root {
                Some(r) => r,
                None => id,
            };
            threaded(c, out.push(comment_with(c, id).at(depth, own_root)))
        }),
{
    let own_root = match root {
        Some(r) => r,
        None => id,
    };
    lemma_comment_with(c, id);
    let e = comment_with(c, id).at(depth, own_root);
    let more = out.push(e);
    assert forall|i: int, j: int| 0 <= i < j < more.len() implies (#[trigger] more[i]).comment_id
        != (#[trigger] more[j]).comment_id by {
        if j == out.len() {
            assert(out[i].comment_id == more[i].comment_id);
        } else {
            assert(out[i].comment_id != out[j].comment_id);
        }
    }
    assert forall|i: int| 0 <= i < more.len() implies {
        let e = #[trigger] more[i];
        &&& has_comment(c, e.comment_id)
        &&& e == comment_with(c, e.comment_id).at(e.thread_depth, e.thread_root_comment_id)
    } by {
        if i < out.len() {
            assert(more[i] == out[i]);
        }
    }
    assert forall|j: int| 0 <= j < more.len() implies #[trigger] well_placed(c, more, j) by {
        if j < out.len() {
            assert(well_placed(c, out, j));
            if begins_at(c, out, j) {
                assert forall|q: int| 0 <= q < j implies parent_of(c, more[j].comment_id) != Some(
                    (#[trigger] more[q]).comment_id,
                ) by {
                    assert(more[q] == out[q]);
                }
                assert(begins_at(c, more, j));
            } else {
                let q = choose|q: int| answers_at(c, out, q, j);
                assert forall|x: int| q < x < j implies (#[trigger] more[x]).thread_depth
                    >= more[j].thread_depth by {
                    assert(more[x] == out[x]);
                }
                assert(answers_at(c, more, q, j));
            }
        } else if root is Some {
            assert forall|x: int| p < x < j implies (#[trigger] more[x]).thread_depth
                >= more[j].thread_depth by {
                assert(more[x] == out[x]);
            }
            assert(answers_at(c, more, p, j));
        } else {
            assert forall|q: int| 0 <= q < j implies parent_of(c, more[j].comment_id) != Some(
                (#[trigger] more[q]).comment_id,
            ) by {
                assert(more[q] == out[q]);
            }
            assert(begins_at(c, more, j));
        }
    }
}

/// With each comment that has a place, the answers to it have one.
spec fn is_closed(c: Seq<PostCommentView>, out: Seq<PostCommentView>) -> bool {
    forall|id: i64, answer: i64|
        #[trigger] has_comment(out, id) && has_comment(c, answer) && parent_of(c, answer) == Some(
            id,
        ) ==> #[trigger] has_comment(out, answer)
}

/// The walk keeps a list threaded, appends nothing above its depth, and places all of `todo`.
/// With a root, `p` is the entry that the comments of `todo` answer.
proof fn lemma_walk_threaded(
    c: Seq<PostCommentView>,
    todo: Seq<i64>,
    depth: i64,
    root: Option<i64>,
    out: Seq<PostCommentView>,
    p: int,
)
    requires
        threaded(c, out),
        root is None ==> depth == 0 && is_closed(c, out),
        root is None ==> forall|i: int|
            0 <= i < todo.len() && has_comment(c, #[trigger] todo[i]) && !has_comment(out, todo[i])
                ==> may_begin(c, todo[i]),
        root is Some ==> 0 <= p < out.len() && out[p].thread_root_comment_id == root->0 && depth
            == deeper(out[p].thread_depth),
        root is Some ==> forall|i: int|
            0 <= i < todo.len() ==> parent_of(c, #[trigger] todo[i]) == Some(out[p].comment_id),
        root is Some ==> forall|x: int| p < x < out.len() ==> (#[trigger] out[x]).thread_depth >= depth,
    ensures
        threaded(c, walk(c, todo, depth, root, out)),
        forall|x: int|
            out.len() <= x < walk(c, todo, depth, root, out).len() ==> (#[trigger] walk(
                c,
                todo,
                depth,
                root,
                out,
            )[x]).thread_depth >= depth,
        forall|i: int|
            0 <= i < todo.len() && has_comment(c, #[trigger] todo[i]) ==> has_comment(
                walk(c, todo, depth, root, out),
                todo[i],
            ),
    decreases unplaced(c, out), todo.len(),
{
    if todo.len() > 0 {
        let id = todo[0];
        let own_root = match root {
            Some(r) => r,
            None => id,
        };
        let rest = todo.drop_first();
        let after = walk_one(c, id, depth, root, out);
        lemma_walk(c, todo, depth, root, out);
        if !has_comment(out, id) && has_comment(c, id) {
            lemma_comment_with(c, id);
            let e = comment_with(c, id).at(depth, own_root);
            let pushed = out.push(e);
            let answers = answering(c, Some(id), c.len());
            lemma_push_places(out, e);
            lemma_unplaced(c, out, pushed);
            assert forall|q: int| root is None && 0 <= q < out.len() implies parent_of(c, id)
                != Some((#[trigger] out[q]).comment_id) by {
                assert(has_comment(out, out[q].comment_id));
            }
            lemma_push_threaded(c, id, depth, root, out, p);
            lemma_answering(c, Some(id), c.len());
            lemma_walk(c, answers, deeper(depth), Some(own_root), pushed);
            lemma_walk_threaded(
                c,
                answers,
                deeper(depth),
                Some(own_root),
                pushed,
                out.len() as int,
            );
            lemma_prefix_places(pushed, after);
            assert forall|x: int| out.len() <= x < after.len() implies (#[trigger] after[x]).thread_depth
                >= depth by {
                if x == out.len() {
                    assert(after[x] == pushed[x]);
                }
            }
        }
        assert(has_comment(c, id) ==> has_comment(after, id));
        assert forall|x: int| root is Some && p < x < after.len() implies (#[trigger] after[x]).thread_depth
            >= depth by {
            if x < out.len() {
                assert(after[x] == out[x]);
            }
        }
        lemma_prefix_places(out, after);
        if root is None {
            lemma_walk_one_closes(c, id, depth, root, out);
            assert(is_closed(c, after));
        }
        assert forall|i: int|
            root is None && 0 <= i < rest.len() && has_comment(c, #[trigger] rest[i])
                && !has_comment(after, rest[i]) implies may_begin(c, rest[i]) by {
            assert(rest[i] == todo[i + 1]);
        }
        assert forall|i: int| root is Some && 0 <= i < rest.len() implies parent_of(
            c,
            #[trigger] rest[i],
        ) == Some(after[p].comment_id) by {
            assert(rest[i] == todo[i + 1]);
            assert(after[p] == out[p]);
        }
        lemma_walk_threaded(c, rest, depth, root, after, p);
        lemma_walk(c, rest, depth, root, after);
        let result = walk(c, todo, depth, root, out);
        lemma_prefix_places(after, result);
        assert forall|x: int| out.len() <= x < result.len() implies (#[trigger] result[x]).thread_depth
            >= depth by {
            if x < after.len() {
                assert(result[x] == after[x]);
            }
        }
        assert forall|i: int| 0 <= i < todo.len() && has_comment(c, #[trigger] todo[i]) implies has_comment(
            result,
            todo[i],
        ) by {
            if i > 0 {
                assert(rest[i - 1] == todo[i]);
            }
        }
    }
}

/// The walk places all of `todo`, and with each comment that it places also the answers to it.
proof fn lemma_walk_closes(
    c: Seq<PostCommentView>,
    todo: Seq<i64>,
    depth: i64,
    root: Option<i64>,
    out: Seq<PostCommentView>,
)
    ensures
        forall|id: i64|
            todo.contains(id) && has_comment(c, id) ==> #[trigger] has_comment(
                walk(c, todo, depth, root, out),
                id,
            ),
        forall|id: i64, answer: i64|
            #[trigger] has_comment(walk(c, todo, depth, root, out), id) && !has_comment(out, id)
                && has_comment(c, answer) && parent_of(c, answer) == Some(id)
                ==> #[trigger] has_comment(walk(c, todo, depth, root, out), answer),
    decreases unplaced(c, out), todo.len(),
{
    if todo.len() > 0 {
        let first = todo[0];
        let own_root = match root {
            Some(r) => r,
            None => first,
        };
        let rest = todo.drop_first();
        let after = walk_one(c, first, depth, root, out);
        let result = walk(c, todo, depth, root, out);
        lemma_walk(c, todo, depth, root, out);
        lemma_walk(c, rest, depth, root, after);
        lemma_prefix_places(after, result);
        lemma_walk_closes(c, rest, depth, root, after);
        let answers = answering(c, Some(first), c.len());
        let e = comment_with(c, first).at(depth, own_root);
        let pushed = out.push(e);
        if !has_comment(out, first) && has_comment(c, first) {
            lemma_comment_with(c, first);
            lemma_push_places(out, e);
            lemma_unplaced(c, out, pushed);
            lemma_walk(c, answers, deeper(depth), Some(own_root), pushed);
            lemma_walk_closes(c, answers, deeper(depth), Some(own_root), pushed);
            lemma_prefix_places(pushed, after);
            assert(has_comment(after, first));
        }
        assert forall|id: i64| todo.contains(id) && has_comment(c, id) implies #[trigger] has_comment(
            result,
            id,
        ) by {
            let k = choose|k: int| 0 <= k < todo.len() && todo[k] == id;
            if k > 0 {
                assert(rest[k - 1] == id);
            }
        }
        assert forall|id: i64, answer: i64|
            #[trigger] has_comment(result, id) && !has_comment(out, id) && has_comment(c, answer)
                && parent_of(c, answer) == Some(id) implies #[trigger] has_comment(
            result,
            answer,
        ) by {
            if has_comment(after, id) {
                if id == first {
                    lemma_answering_contains(c, Some(first), c.len(), answer);
                    assert(has_comment(after, answer));
                } else {
                    assert(!has_comment(pushed, id));
                    assert(has_comment(after, answer));
                }
            }
        }
    }
}

proof fn lemma_walk_one_closes(
    c: Seq<PostCommentView>,
    id: i64,
    depth: i64,
    root: Option<i64>,
    out: Seq<PostCommentView>,
)
    requires
        is_closed(c, out),
    ensures
        is_closed(c, walk_one(c, id, depth, root, out)),
{
    let todo = seq![id];
    lemma_walk(c, todo, depth, root, out);
    assert(todo.drop_first() =~= Seq::<i64>::empty());
    let after = walk_one(c, id, depth, root, out);
    assert(walk(c, todo, depth, root, out) == after);
    lemma_walk_closes(c, todo, depth, root, out);
    lemma_prefix_places(out, after);
    assert forall|x: i64, answer: i64|
        #[trigger] has_comment(after, x) && has_comment(c, answer) && parent_of(c, answer) == Some(
            x,
        ) implies #[trigger] has_comment(after, answer) by {
        if has_comment(out, x) {
            assert(has_comment(out, answer));
        }
    }
}

/// Which identifiers answer a comment: those of the list with that parent.
proof fn lemma_answering_contains(
    c: Seq<PostCommentView>,
    parent: Option<i64>,
    n: nat,
    id: i64,
)
    requires
        n <= c.len(),
    ensures
        answering(c, parent, n).contains(id) <==> parent_of(c, id) == parent && exists|i: int|
            0 <= i < n && (#[trigger] c[i]).comment_id == id,
    decreases n,
{
    if n > 0 {
        let before = answering(c, parent, (n - 1) as nat);
        let last = c[n - 1].comment_id;
        lemma_answering_contains(c, parent, (n - 1) as nat, id);
        if parent_of(c, last) == parent {
            let all = before.push(last);
            if before.contains(id) {
                let k = choose|k: int| 0 <= k < before.len() && before[k] == id;
                assert(all[k] == id);
            }
            if last == id {
                assert(all[before.len() as int] == id);
            }
            if all.contains(id) {
                let k = choose|k: int| 0 <= k < all.len() && all[k] == id;
                if k < before.len() {
                    assert(before[k] == id);
                }
            }
        }
    }
}

proof fn lemma_ancestor_is_comment(c: Seq<PostCommentView>, id: i64, k: nat)
    requires
        has_comment(c, id),
        ancestor(c, id, k) is Some,
    ensures
        has_comment(c, ancestor(c, id, k)->0),
    decreases k,
{
    if k > 0 {
        lemma_ancestor_is_comment(c, parent_of(c, id)->0, (k - 1) as nat);
    }
}

/// Steps to what is answered that never end run into a cycle.
proof fn lemma_endless_ancestors(c: Seq<PostCommentView>, id: i64)
    requires
        has_comment(c, id),
        forall|k: nat| ancestor(c, id, k) is Some,
    ensures
        leads_to_cycle(c, id),
{
    let steps = Seq::new(c.len() + 1, |k: int| ancestor(c, id, k as nat)->0);
    let known = ids(c);
    assert forall|k: int| 0 <= k < steps.len() implies known.to_set().contains(
        #[trigger] steps[k],
    ) by {
        lemma_ancestor_is_comment(c, id, k as nat);
        let i = choose|i: int| 0 <= i < c.len() && (#[trigger] c[i]).comment_id == steps[k];
        assert(known[i] == steps[k]);
    }
    if steps.no_duplicates() {
        steps.unique_seq_to_set();
        known.lemma_cardinality_of_set();
        assert(steps.to_set().subset_of(known.to_set()));
        vstd::set_lib::lemma_len_subset(steps.to_set(), known.to_set());
        assert(false);
    }
    let (i, j) = choose|i: int, j: int|
        0 <= i < steps.len() && 0 <= j < steps.len() && i != j && steps[i] == steps[j];
    let (a, b) = if i < j {
        (i as nat, j as nat)
    } else {
        (j as nat, i as nat)
    };
    assert(ancestor(c, id, a) is Some && ancestor(c, id, b) is Some);
    assert(ancestor(c, id, a) == ancestor(c, id, b));
}

/// A comment from which the steps to what is answered end is placed among the threads of the
/// comments that answer no other.
proof fn lemma_roots_reach(c: Seq<PostCommentView>, id: i64, k: nat)
    requires
        has_comment(c, id),
        ancestor(c, id, k) is None,
    ensures
        has_comment(walk(c, answering(c, None, c.len()), 0, None, Seq::empty()), id),
    decreases k,
{
    let roots = answering(c, None, c.len());
    let first = walk(c, roots, 0, None, Seq::empty());
    lemma_walk_closes(c, roots, 0, None, Seq::empty());
    match parent_of(c, id) {
        None => {
            lemma_answering_contains(c, None, c.len(), id);
            let i = choose|i: int| 0 <= i < c.len() && (#[trigger] c[i]).comment_id == id;
            assert(roots.contains(id));
        },
        Some(p) => {
            lemma_roots_reach(c, p, (k - 1) as nat);
            assert(has_comment(first, p) && has_comment(c, p));
            assert(!has_comment(Seq::<PostCommentView>::empty(), p));
        },
    }
}

proof fn lemma_thread_order(c: Seq<PostCommentView>)
    ensures
        threaded(c, thread_order(c)),
        forall|id: i64| has_comment(c, id) ==> has_comment(thread_order(c), id),
{
    let empty = Seq::<PostCommentView>::empty();
    let roots = answering(c, None, c.len());
    lemma_answering(c, None, c.len());
    lemma_walk_threaded(c, roots, 0, None, empty, 0);
    let first = walk(c, roots, 0, None, empty);
    lemma_walk_closes(c, roots, 0, None, empty);
    assert(is_closed(c, first));
    assert forall|i: int|
        0 <= i < ids(c).len() && has_comment(c, #[trigger] ids(c)[i]) && !has_comment(
            first,
            ids(c)[i],
        ) implies may_begin(c, ids(c)[i]) by {
        let id = ids(c)[i];
        assert forall|k: nat| ancestor(c, id, k) is Some by {
            if ancestor(c, id, k) is None {
                lemma_roots_reach(c, id, k);
            }
        }
        lemma_endless_ancestors(c, id);
    }
    lemma_walk_threaded(c, ids(c), 0, None, first, 0);
    assert forall|id: i64| has_comment(c, id) implies has_comment(thread_order(c), id) by {
        let i = choose|i: int| 0 <= i < c.len() && (#[trigger] c[i]).comment_id == id;
        assert(ids(c)[i] == id);
    }
}

/// Threading loses no comment and shows none twice: the identifiers of the list are those of the
/// thread order, each once, and each entry is the comment of that identifier.
pub proof fn law_threading_keeps_comments(c: Seq<PostCommentView>)
    ensures
        distinct(thread_order(c)),
        drawn_from(c, thread_order(c)),
        forall|id: i64| has_comment(c, id) <==> has_comment(thread_order(c), id),
{
    lemma_thread_order(c);
    let out = thread_order(c);
    assert forall|id: i64| has_comment(out, id) implies has_comment(c, id) by {
        let i = choose|i: int| 0 <= i < out.len() && (#[trigger] out[i]).comment_id == id;
        assert(has_comment(c, out[i].comment_id));
    }
}

/// In the thread order every entry either begins a thread, at depth zero and as its own root, and
/// answers no other comment of the list or hangs from a cycle of answers, or comes after the
/// comment that it answers, one level deeper, with the same root, and with nothing in between
/// that is less deep.
pub proof fn law_threading_places_answers(c: Seq<PostCommentView>, j: int)
    requires
        0 <= j < thread_order(c).len(),
    ensures
        well_placed(c, thread_order(c), j),
{
    lemma_thread_order(c);
}

/// The position of the comment with the given identifier.
spec fn place(t: Seq<PostCommentView>, id: i64) -> int {
    choose|i: int| 0 <= i < t.len() && (#[trigger] t[i]).comment_id == id
}

/// Whether identifiers stand in the order of a list.
spec fn follows_list(t: Seq<PostCommentView>, todo: Seq<i64>) -> bool {
    &&& forall|i: int| 0 <= i < todo.len() ==> has_comment(t, #[trigger] todo[i])
    &&& forall|i: int, j: int|
        0 <= i < j < todo.len() ==> place(t, #[trigger] todo[i]) < place(t, #[trigger] todo[j])
}

proof fn lemma_place(t: Seq<PostCommentView>, i: int)
    requires
        distinct(t),
        0 <= i < t.len(),
    ensures
        place(t, t[i].comment_id) == i,
{
    let j = place(t, t[i].comment_id);
    assert(0 <= j < t.len() && t[j].comment_id == t[i].comment_id);
    if j < i {
        assert(t[j].comment_id != t[i].comment_id);
    }
    if i < j {
        assert(t[i].comment_id != t[j].comment_id);
    }
}

proof fn lemma_answering_follows(t: Seq<PostCommentView>, parent: Option<i64>, n: nat)
    requires
        distinct(t),
        n <= t.len(),
    ensures
        follows_list(t, answering(t, parent, n)),
        forall|i: int|
            0 <= i < answering(t, parent, n).len() ==> place(
                t,
                #[trigger] answering(t, parent, n)[i],
            ) < n,
    decreases n,
{
    if n > 0 {
        lemma_answering_follows(t, parent, (n - 1) as nat);
        lemma_place(t, n - 1);
        assert(has_comment(t, t[n - 1].comment_id));
    }
}

/// What threading does not change: which comments there are, what they say and what they answer.
spec fn same_comments(c: Seq<PostCommentView>, t: Seq<PostCommentView>) -> bool {
    &&& distinct(t)
    &&& drawn_from(c, t)
    &&& forall|id: i64| has_comment(c, id) <==> has_comment(t, id)
}

proof fn lemma_same_comment(c: Seq<PostCommentView>, t: Seq<PostCommentView>, id: i64)
    requires
        same_comments(c, t),
        has_comment(c, id),
    ensures
        parent_of(t, id) == parent_of(c, id),
        forall|depth: i64, root: i64|
            #[trigger] comment_with(t, id).at(depth, root) == comment_with(c, id).at(depth, root),
{
    lemma_comment_with(t, id);
    let i = choose|i: int| 0 <= i < t.len() && comment_with(t, id) == #[trigger] t[i];
    assert(t[i].comment_id == id);
}

/// A walk is the same on a list that continues its result, given what is left to do in the order
/// of that list.
proof fn lemma_walk_again(
    c: Seq<PostCommentView>,
    t: Seq<PostCommentView>,
    todo: Seq<i64>,
    again: Seq<i64>,
    depth: i64,
    root: Option<i64>,
    out: Seq<PostCommentView>,
)
    requires
        same_comments(c, t),
        walk(c, todo, depth, root, out).is_prefix_of(t),
        follows_list(t, again),
        forall|id: i64|
            has_comment(c, id) && !#[trigger] has_comment(out, id) ==> (todo.contains(id)
                <==> again.contains(id)),
    ensures
        walk(t, again, depth, root, out) == walk(c, todo, depth, root, out),
    decreases unplaced(c, out), todo.len() + again.len(),
{
    let result = walk(c, todo, depth, root, out);
    lemma_walk(c, todo, depth, root, out);
    lemma_walk(t, again, depth, root, out);
    if todo.len() > 0 && (has_comment(out, todo[0]) || !has_comment(c, todo[0])) {
        let rest = todo.drop_first();
        assert forall|id: i64| has_comment(c, id) && !#[trigger] has_comment(out, id) implies (
        rest.contains(id) <==> again.contains(id)) by {
            lemma_contains_rest(todo, id);
        }
        lemma_walk_again(c, t, rest, again, depth, root, out);
    } else if again.len() > 0 && has_comment(out, again[0]) {
        let rest = again.drop_first();
        assert forall|id: i64| has_comment(c, id) && !#[trigger] has_comment(out, id) implies (
        todo.contains(id) <==> rest.contains(id)) by {
            lemma_contains_rest(again, id);
        }
        lemma_rest_follows(t, again);
        lemma_walk_again(c, t, todo, rest, depth, root, out);
    } else if todo.len() == 0 {
        if again.len() > 0 {
            assert(has_comment(t, again[0]));
            assert(again.contains(again[0]));
            assert(!has_comment(out, again[0]));
            assert(todo.contains(again[0]));
        }
    } else {
        let id = todo[0];
        let own_root = match root {
            Some(r) => r,
            None => id,
        };
        lemma_comment_with(c, id);
        let e = comment_with(c, id).at(depth, own_root);
        let pushed = out.push(e);
        let answers = answering(c, Some(id), c.len());
        let after = walk_one(c, id, depth, root, out);
        let rest = todo.drop_first();
        lemma_push_places(out, e);
        lemma_unplaced(c, out, pushed);
        lemma_walk(c, answers, deeper(depth), Some(own_root), pushed);
        lemma_walk(c, rest, depth, root, after);
        assert(pushed.is_prefix_of(after));
        assert(after.is_prefix_of(result));
        assert(after.is_prefix_of(t)) by {
            assert forall|x: int| 0 <= x < after.len() implies after[x] == t[x] by {
                assert(after[x] == result[x]);
                assert(result[x] == t[x]);
            }
        }
        assert(t[out.len() as int] == e) by {
            assert(after[out.len() as int] == pushed[out.len() as int]);
        }
        lemma_place(t, out.len() as int);
        // The next comment is the first of `again`.
        assert(todo.contains(id));
        assert(again.contains(id));
        let k = choose|k: int| 0 <= k < again.len() && again[k] == id;
        let b = again[0];
        assert(!has_comment(out, b));
        assert(has_comment(t, b));
        let at = place(t, b);
        assert(0 <= at < t.len() && t[at].comment_id == b);
        if at < out.len() {
            assert(out[at] == pushed[at]);
            assert(pushed[at] == after[at]);
            assert(after[at] == t[at]);
            assert(out[at].comment_id == b);
            assert(has_comment(out, b));
        }
        if k > 0 {
            assert(place(t, again[0]) < place(t, again[k]));
        }
        assert(b == id);
        lemma_same_comment(c, t, id);
        assert(comment_with(t, id).at(depth, own_root) == e);
        // Its answers come in the same order.
        let answers_again = answering(t, Some(id), t.len());
        lemma_answering_follows(t, Some(id), t.len());
        assert forall|x: i64| has_comment(c, x) && !#[trigger] has_comment(pushed, x) implies (
        answers.contains(x) <==> answers_again.contains(x)) by {
            lemma_answering_contains(c, Some(id), c.len(), x);
            lemma_answering_contains(t, Some(id), t.len(), x);
            lemma_same_comment(c, t, x);
        }
        lemma_walk_again(
            c,
            t,
            answers,
            answers_again,
            deeper(depth),
            Some(own_root),
            pushed,
        );
        assert(walk_one(t, id, depth, root, out) == after);
        let rest_again = again.drop_first();
        lemma_rest_follows(t, again);
        lemma_prefix_places(pushed, after);
        lemma_prefix_places(out, after);
        assert forall|x: i64| has_comment(c, x) && !#[trigger] has_comment(after, x) implies (
        rest.contains(x) <==> rest_again.contains(x)) by {
            lemma_contains_rest(todo, x);
            lemma_contains_rest(again, x);
            assert(!has_comment(out, x));
        }
        lemma_unplaced(c, out, after);
        lemma_walk_again(c, t, rest, rest_again, depth, root, after);
    }
}

proof fn lemma_contains_rest(todo: Seq<i64>, id: i64)
    requires
        todo.len() > 0,
    ensures
        todo.contains(id) <==> (todo[0] == id || todo.drop_first().contains(id)),
{
    let rest = todo.drop_first();
    if todo.contains(id) {
        let k = choose|k: int| 0 <= k < todo.len() && todo[k] == id;
        if k > 0 {
            assert(rest[k - 1] == id);
        }
    }
    if rest.contains(id) {
        let k = choose|k: int| 0 <= k < rest.len() && rest[k] == id;
        assert(todo[k + 1] == id);
    }
}

proof fn lemma_rest_follows(t: Seq<PostCommentView>, todo: Seq<i64>)
    requires
        follows_list(t, todo),
        todo.len() > 0,
    ensures
        follows_list(t, todo.drop_first()),
{
    let rest = todo.drop_first();
    assert forall|i: int| 0 <= i < rest.len() implies has_comment(t, #[trigger] rest[i]) by {
        assert(rest[i] == todo[i + 1]);
    }
    assert forall|i: int, j: int| 0 <= i < j < rest.len() implies place(t, #[trigger] rest[i])
        < place(t, #[trigger] rest[j]) by {
        assert(rest[i] == todo[i + 1] && rest[j] == todo[j + 1]);
    }
}

/// Threading a threaded list changes nothing: neither the order nor a depth or a root.
pub proof fn law_threading_is_idempotent(c: Seq<PostCommentView>)
    ensures
        thread_order(thread_order(c)) == thread_order(c),
{
    let t = thread_order(c);
    law_threading_keeps_comments(c);
    let empty = Seq::<PostCommentView>::empty();
    let roots = answering(c, None, c.len());
    let roots_again = answering(t, None, t.len());
    let first = walk(c, roots, 0, None, empty);
    lemma_walk(c, ids(c), 0, None, first);
    assert forall|x: i64| has_comment(c, x) && !#[trigger] has_comment(empty, x) implies (
    roots.contains(x) <==> roots_again.contains(x)) by {
        lemma_answering_contains(c, None, c.len(), x);
        lemma_answering_contains(t, None, t.len(), x);
        lemma_same_comment(c, t, x);
    }
    lemma_answering_follows(t, None, t.len());
    lemma_walk_again(c, t, roots, roots_again, 0, None, empty);
    assert(follows_list(t, ids(t))) by {
        assert forall|i: int| 0 <= i < ids(t).len() implies has_comment(t, #[trigger] ids(t)[i])
            && place(t, ids(t)[i]) == i by {
            assert(t[i].comment_id == ids(t)[i]);
            lemma_place(t, i);
        }
    }
    assert forall|x: i64| has_comment(c, x) && !#[trigger] has_comment(first, x) implies (ids(
        c,
    ).contains(x) <==> ids(t).contains(x)) by {
        let i = choose|i: int| 0 <= i < c.len() && (#[trigger] c[i]).comment_id == x;
        assert(ids(c)[i] == x);
        let j = choose|j: int| 0 <= j < t.len() && (#[trigger] t[j]).comment_id == x;
        assert(ids(t)[j] == x);
    }
    lemma_walk_again(c, t, ids(c), ids(t), 0, None, first);
}

// ---------------------------------------------------------------------------
// The thread order by its entries
// ---------------------------------------------------------------------------
/// Whether the entry at `j` answers the entry at `p`.
pub open spec fn replies(out: Seq<PostCommentView>, j: int, p: int) -> bool {
    &&& 0 <= j < out.len()
    &&& 0 <= p < out.len()
    &&& j != p
    &&& out[j].reply_to_comment_id == Some(out[p].comment_id)
}

/// Whether the positions lead from one entry to another, each entry answering the next.
pub open spec fn is_reply_path(out: Seq<PostCommentView>, path: Seq<int>) -> bool {
    &&& path.len() > 0
    &&& forall|k: int| 0 <= k < path.len() - 1 ==> replies(out, #[trigger] path[k], path[k + 1])
}

/// Whether from the entry at `j` the answered entries can be followed into a circle.
pub open spec fn runs_in_circle(out: Seq<PostCommentView>, j: int) -> bool {
    exists|path: Seq<int>, m: int| #[trigger]
        is_reply_path(out, path) && path[0] == j && 0 <= m < path.len() - 1 && #[trigger] path[m]
            == path.last()
}

proof fn lemma_entry(c: Seq<PostCommentView>, out: Seq<PostCommentView>, j: int)
    requires
        out == thread_order(c),
        0 <= j < out.len(),
    ensures
        distinct(out),
        has_comment(c, out[j].comment_id),
        out[j].reply_to_comment_id == comment_with(c, out[j].comment_id).reply_to_comment_id,
        forall|id: i64| has_comment(c, id) <==> has_comment(out, id),
{
    law_threading_keeps_comments(c);
}

/// What an entry answers, by its own words and by the list.
proof fn lemma_replies(c: Seq<PostCommentView>, j: int, p: int)
    requires
        0 <= j < thread_order(c).len(),
        0 <= p < thread_order(c).len(),
    ensures
        replies(thread_order(c), j, p) <==> parent_of(c, thread_order(c)[j].comment_id) == Some(
            thread_order(c)[p].comment_id,
        ),
{
    let out = thread_order(c);
    lemma_entry(c, out, j);
    lemma_entry(c, out, p);
    if j < p {
        assert(out[j].comment_id != out[p].comment_id);
    }
    if p < j {
        assert(out[p].comment_id != out[j].comment_id);
    }
}

proof fn lemma_depth_bound(c: Seq<PostCommentView>, j: int)
    requires
        0 <= j < thread_order(c).len(),
    ensures
        0 <= thread_order(c)[j].thread_depth <= j,
    decreases j,
{
    let out = thread_order(c);
    law_threading_places_answers(c, j);
    if !begins_at(c, out, j) {
        let p = choose|p: int| answers_at(c, out, p, j);
        lemma_depth_bound(c, p);
    }
}

proof fn lemma_circle(c: Seq<PostCommentView>, j: int)
    requires
        0 <= j < thread_order(c).len(),
        leads_to_cycle(c, thread_order(c)[j].comment_id),
    ensures
        runs_in_circle(thread_order(c), j),
{
    let out = thread_order(c);
    let id = out[j].comment_id;
    lemma_entry(c, out, j);
    let (a, b) = choose|a: nat, b: nat|
        a < b && ancestor(c, id, a) is Some && #[trigger] ancestor(c, id, a)
            == #[trigger] ancestor(c, id, b);
    let path = Seq::new((b + 1) as nat, |k: int| place(out, ancestor(c, id, k as nat)->0));
    assert forall|k: int| 0 <= k <= b implies ancestor(c, id, k as nat) is Some && 0 <= (
    #[trigger] path[k]) < out.len() && out[path[k]].comment_id == ancestor(c, id, k as nat)->0 by {
        lemma_ancestors_before(c, id, k as nat, b);
        lemma_ancestor_is_comment(c, id, k as nat);
        assert(has_comment(out, ancestor(c, id, k as nat)->0));
    }
    assert forall|k: int| 0 <= k < path.len() - 1 implies replies(
        out,
        #[trigger] path[k],
        path[k + 1],
    ) by {
        assert(0 <= path[k] < out.len() && 0 <= path[k + 1] < out.len());
        lemma_ancestor_step(c, id, k as nat);
        lemma_replies(c, path[k], path[k + 1]);
    }
    lemma_place(out, j);
    assert(path[0] == j);
    assert(path[a as int] == path.last());
    assert(is_reply_path(out, path));
}

proof fn lemma_ancestors_before(c: Seq<PostCommentView>, id: i64, k: nat, n: nat)
    requires
        k <= n,
        ancestor(c, id, n) is Some,
    ensures
        ancestor(c, id, k) is Some,
    decreases k,
{
    if k > 0 {
        lemma_ancestors_before(c, parent_of(c, id)->0, (k - 1) as nat, (n - 1) as nat);
    }
}

proof fn lemma_ancestor_step(c: Seq<PostCommentView>, id: i64, k: nat)
    requires
        ancestor(c, id, k) is Some,
    ensures
        ancestor(c, id, k + 1) == parent_of(c, ancestor(c, id, k)->0),
    decreases k,
{
    if k > 0 {
        lemma_ancestor_step(c, parent_of(c, id)->0, (k - 1) as nat);
    } else {
        match parent_of(c, id) {
            Some(p) => {
                assert(ancestor(c, p, 0) == Some(p));
            },
            None => {},
        }
    }
}

/// An answer stands behind the comment that it answers, exactly one level deeper, in the same
/// thread, and with nothing in between that is less deep; or it stands before that comment, and
/// then it begins a thread, and the answered comments run in a circle.
pub proof fn law_answers_stand_below(c: Seq<PostCommentView>, j: int, p: int)
    requires
        replies(thread_order(c), j, p),
        j <= i64::MAX,
    ensures
        ({
            let out = thread_order(c);
            &&& p < j ==> {
                &&& out[j].thread_depth == out[p].thread_depth + 1
                &&& out[j].thread_root_comment_id == out[p].thread_root_comment_id
                &&& forall|x: int|
                    p < x < j ==> (#[trigger] out[x]).thread_depth >= out[j].thread_depth
            }
            &&& j < p ==> {
                &&& out[j].thread_depth == 0
                &&& out[j].thread_root_comment_id == out[j].comment_id
                &&& runs_in_circle(out, j)
            }
        }),
{
    let out = thread_order(c);
    law_threading_places_answers(c, j);
    lemma_replies(c, j, p);
    lemma_entry(c, out, j);
    if begins_at(c, out, j) {
        if p < j {
            assert(parent_of(c, out[j].comment_id) != Some(out[p].comment_id));
        }
        lemma_circle(c, j);
    } else {
        let q = choose|q: int| answers_at(c, out, q, j);
        lemma_place(out, q);
        lemma_place(out, p);
        assert(q == p);
        lemma_depth_bound(c, p);
    }
}

/// An entry that answers no other of the thread order begins a thread: at depth zero, as its own
/// root.
pub proof fn law_unanswering_comments_begin(c: Seq<PostCommentView>, j: int)
    requires
        0 <= j < thread_order(c).len(),
        forall|p: int| !replies(thread_order(c), j, p),
    ensures
        thread_order(c)[j].thread_depth == 0,
        thread_order(c)[j].thread_root_comment_id == thread_order(c)[j].comment_id,
{
    let out = thread_order(c);
    law_threading_places_answers(c, j);
    if !begins_at(c, out, j) {
        let q = choose|q: int| answers_at(c, out, q, j);
        lemma_replies(c, j, q);
        assert(replies(out, j, q));
    }
}

/// The depth of an entry is the number of answers between it and the comment that begins its
/// thread, and that comment is its root.
pub proof fn law_depth_counts_answers(c: Seq<PostCommentView>, j: int)
    requires
        0 <= j < thread_order(c).len(),
        j <= i64::MAX,
    ensures
        ({
            let out = thread_order(c);
            exists|path: Seq<int>|
                {
                    &&& #[trigger] is_reply_path(out, path)
                    &&& path[0] == j
                    &&& path.len() == out[j].thread_depth + 1
                    &&& 0 <= path.last() < out.len()
                    &&& out[path.last()].comment_id == out[j].thread_root_comment_id
                    &&& out[path.last()].thread_depth == 0
                }
        }),
    decreases j,
{
    let out = thread_order(c);
    law_threading_places_answers(c, j);
    if begins_at(c, out, j) {
        let path = seq![j];
        assert(is_reply_path(out, path));
    } else {
        let q = choose|q: int| answers_at(c, out, q, j);
        law_depth_counts_answers(c, q);
        let above = choose|path: Seq<int>|
            {
                &&& #[trigger] is_reply_path(out, path)
                &&& path[0] == q
                &&& path.len() == out[q].thread_depth + 1
                &&& 0 <= path.last() < out.len()
                &&& out[path.last()].comment_id == out[q].thread_root_comment_id
                &&& out[path.last()].thread_depth == 0
            };
        let path = seq![j] + above;
        lemma_replies(c, j, q);
        assert(replies(out, j, q));
        assert forall|k: int| 0 <= k < path.len() - 1 implies replies(
            out,
            #[trigger] path[k],
            path[k + 1],
        ) by {
            if k > 0 {
                assert(path[k] == above[k - 1]);
                assert(path[k + 1] == above[k]);
                assert(replies(out, above[k - 1], above[k]));
            }
        }
        assert(is_reply_path(out, path));
        assert(path.last() == above.last());
        lemma_depth_bound(c, q);
    }
}

/// Whether the comment at `i` answers no other comment of the list.
pub open spec fn answers_nothing(c: Seq<PostCommentView>, i: int) -> bool {
    forall|p: int| !replies(c, i, p)
}

proof fn lemma_list_parent(c: Seq<PostCommentView>, i: int)
    requires
        distinct(c),
        0 <= i < c.len(),
    ensures
        comment_with(c, c[i].comment_id) == c[i],
        parent_of(c, c[i].comment_id) is None <==> answers_nothing(c, i),
        parent_of(c, c[i].comment_id) matches Some(p) ==> c[i].reply_to_comment_id == Some(p),
{
    let id = c[i].comment_id;
    assert(has_comment(c, id));
    lemma_comment_with(c, id);
    let k = choose|k: int| 0 <= k < c.len() && comment_with(c, id) == #[trigger] c[k];
    if k < i {
        assert(c[k].comment_id != c[i].comment_id);
    }
    if i < k {
        assert(c[i].comment_id != c[k].comment_id);
    }
    if parent_of(c, id) is None {
        assert forall|p: int| !replies(c, i, p) by {
            if replies(c, i, p) {
                assert(has_comment(c, c[p].comment_id));
                if i < p {
                    assert(c[i].comment_id != c[p].comment_id);
                } else {
                    assert(c[p].comment_id != c[i].comment_id);
                }
            }
        }
    } else {
        let parent = parent_of(c, id)->0;
        let p = choose|p: int| 0 <= p < c.len() && (#[trigger] c[p]).comment_id == parent;
        assert(replies(c, i, p));
    }
}

/// Whether comments with the same parent stand in `out` in the order of the list.
spec fn keeps_order(c: Seq<PostCommentView>, out: Seq<PostCommentView>) -> bool {
    forall|a: int, b: int, y: int|
        #![trigger c[a], c[b], out[y]]
        0 <= a < b < c.len() && 0 <= y < out.len() && parent_of(c, c[a].comment_id) == parent_of(
            c,
            c[b].comment_id,
        ) && out[y].comment_id == c[b].comment_id ==> has_comment(out.take(y), c[a].comment_id)
}

/// Whether what comes before the comments of `todo` has a place, or comes before them in `todo`.
spec fn todo_in_order(c: Seq<PostCommentView>, todo: Seq<i64>, out: Seq<PostCommentView>) -> bool {
    forall|a: int, b: int, i: int|
        #![trigger c[a], c[b], todo[i]]
        0 <= a < b < c.len() && 0 <= i < todo.len() && parent_of(c, c[a].comment_id) == parent_of(
            c,
            c[b].comment_id,
        ) && todo[i] == c[b].comment_id ==> has_comment(out, c[a].comment_id) || todo.take(
            i,
        ).contains(c[a].comment_id)
}

proof fn lemma_answering_in_order(c: Seq<PostCommentView>, parent: Option<i64>, n: nat)
    requires
        distinct(c),
        n <= c.len(),
    ensures
        todo_in_order(c, answering(c, parent, n), Seq::empty()),
    decreases n,
{
    if n > 0 {
        let before = answering(c, parent, (n - 1) as nat);
        let all = answering(c, parent, n);
        lemma_answering_in_order(c, parent, (n - 1) as nat);
        lemma_answering(c, parent, n);
        assert forall|a: int, b: int, i: int|
            #![trigger c[a], c[b], all[i]]
            0 <= a < b < c.len() && 0 <= i < all.len() && parent_of(c, c[a].comment_id)
                == parent_of(c, c[b].comment_id) && all[i] == c[b].comment_id implies has_comment(
            Seq::empty(),
            c[a].comment_id,
        ) || all.take(i).contains(c[a].comment_id) by {
            if i < before.len() {
                assert(before[i] == all[i]);
                assert(before.take(i) =~= all.take(i));
                assert(!has_comment(Seq::<PostCommentView>::empty(), c[a].comment_id));
            } else {
                assert(all[i] == c[n - 1].comment_id);
                if b < n - 1 {
                    assert(c[b].comment_id != c[n - 1].comment_id);
                } else if b > n - 1 {
                    assert(c[n - 1].comment_id != c[b].comment_id);
                }
                assert(parent_of(c, all[i]) == parent);
                lemma_answering_contains(c, parent, (n - 1) as nat, c[a].comment_id);
                assert(before.contains(c[a].comment_id));
                assert(all.take(i) =~= before);
            }
        }
    }
}

proof fn lemma_walk_keeps_order(
    c: Seq<PostCommentView>,
    todo: Seq<i64>,
    depth: i64,
    root: Option<i64>,
    out: Seq<PostCommentView>,
)
    requires
        distinct(c),
        keeps_order(c, out),
        todo_in_order(c, todo, out),
    ensures
        keeps_order(c, walk(c, todo, depth, root, out)),
    decreases unplaced(c, out), todo.len(),
{
    if todo.len() > 0 {
        let id = todo[0];
        let own_root = match root {
            Some(r) => r,
            None => id,
        };
        let rest = todo.drop_first();
        let after = walk_one(c, id, depth, root, out);
        lemma_walk(c, todo, depth, root, out);
        lemma_prefix_places(out, after);
        if !has_comment(out, id) && has_comment(c, id) {
            lemma_comment_with(c, id);
            let e = comment_with(c, id).at(depth, own_root);
            let pushed = out.push(e);
            let answers = answering(c, Some(id), c.len());
            lemma_push_places(out, e);
            lemma_unplaced(c, out, pushed);
            assert forall|a: int, b: int, y: int|
                #![trigger c[a], c[b], pushed[y]]
                0 <= a < b < c.len() && 0 <= y < pushed.len() && parent_of(c, c[a].comment_id)
                    == parent_of(c, c[b].comment_id) && pushed[y].comment_id
                    == c[b].comment_id implies has_comment(pushed.take(y), c[a].comment_id) by {
                if y < out.len() {
                    assert(out[y] == pushed[y]);
                    assert(out.take(y) =~= pushed.take(y));
                } else {
                    assert(todo[0] == c[b].comment_id);
                    assert(!todo.take(0).contains(c[a].comment_id));
                    assert(pushed.take(y) =~= out);
                }
            }
            lemma_answering_in_order(c, Some(id), c.len());
            assert forall|a: int, b: int, i: int|
                #![trigger c[a], c[b], answers[i]]
                0 <= a < b < c.len() && 0 <= i < answers.len() && parent_of(c, c[a].comment_id)
                    == parent_of(c, c[b].comment_id) && answers[i]
                    == c[b].comment_id implies has_comment(pushed, c[a].comment_id) || answers.take(
                i,
            ).contains(c[a].comment_id) by {
                assert(!has_comment(Seq::<PostCommentView>::empty(), c[a].comment_id));
            }
            lemma_walk(c, answers, deeper(depth), Some(own_root), pushed);
            lemma_walk_keeps_order(c, answers, deeper(depth), Some(own_root), pushed);
            lemma_prefix_places(pushed, after);
        }
        assert forall|a: int, b: int, i: int|
            #![trigger c[a], c[b], rest[i]]
            0 <= a < b < c.len() && 0 <= i < rest.len() && parent_of(c, c[a].comment_id)
                == parent_of(c, c[b].comment_id) && rest[i] == c[b].comment_id implies has_comment(
            after,
            c[a].comment_id,
        ) || rest.take(i).contains(c[a].comment_id) by {
            assert(todo[i + 1] == rest[i]);
            if !has_comment(out, c[a].comment_id) {
                let t = todo.take(i + 1);
                assert(t.contains(c[a].comment_id));
                let k = choose|k: int| 0 <= k < t.len() && t[k] == c[a].comment_id;
                assert(todo[k] == c[a].comment_id);
                if k == 0 {
                    assert(has_comment(c, c[a].comment_id));
                    assert(has_comment(after, id));
                } else {
                    assert(rest.take(i)[k - 1] == c[a].comment_id);
                }
            }
        }
        lemma_walk_keeps_order(c, rest, depth, root, after);
    }
}

/// Comments that answer the same comment, and comments that answer nothing of the list, keep the
/// order in which they stand in it.
pub proof fn law_threading_keeps_order(c: Seq<PostCommentView>, a: int, b: int)
    requires
        distinct(c),
        0 <= a < b < c.len(),
        (answers_nothing(c, a) && answers_nothing(c, b)) || exists|p: int|
            replies(c, a, p) && #[trigger] replies(c, b, p),
    ensures
        exists|x: int, y: int|
            0 <= x < y < thread_order(c).len() && (#[trigger] thread_order(c)[x]).comment_id
                == c[a].comment_id && (#[trigger] thread_order(c)[y]).comment_id
                == c[b].comment_id,
{
    let out = thread_order(c);
    let empty = Seq::<PostCommentView>::empty();
    let roots = answering(c, None, c.len());
    let first = walk(c, roots, 0, None, empty);
    lemma_answering_in_order(c, None, c.len());
    lemma_walk_keeps_order(c, roots, 0, None, empty);
    assert forall|a: int, b: int, i: int|
        #![trigger c[a], c[b], ids(c)[i]]
        0 <= a < b < c.len() && 0 <= i < ids(c).len() && parent_of(c, c[a].comment_id) == parent_of(
            c,
            c[b].comment_id,
        ) && ids(c)[i] == c[b].comment_id implies has_comment(first, c[a].comment_id) || ids(
        c,
    ).take(i).contains(c[a].comment_id) by {
        if i < b {
            assert(c[i].comment_id != c[b].comment_id);
        } else if b < i {
            assert(c[b].comment_id != c[i].comment_id);
        }
        assert(ids(c).take(i)[a] == c[a].comment_id);
    }
    lemma_walk_keeps_order(c, ids(c), 0, None, first);
    lemma_list_parent(c, a);
    lemma_list_parent(c, b);
    if !(answers_nothing(c, a) && answers_nothing(c, b)) {
        let p = choose|p: int| replies(c, a, p) && #[trigger] replies(c, b, p);
        assert(replies(c, a, p));
    }
    assert(parent_of(c, c[a].comment_id) == parent_of(c, c[b].comment_id));
    law_threading_keeps_comments(c);
    assert(has_comment(c, c[b].comment_id));
    let y = choose|y: int| 0 <= y < out.len() && (#[trigger] out[y]).comment_id == c[b].comment_id;
    assert(has_comment(out.take(y), c[a].comment_id));
    let x = choose|x: int|
        0 <= x < out.take(y).len() && (#[trigger] out.take(y)[x]).comment_id == c[a].comment_id;
    assert(out[x].comment_id == c[a].comment_id);
}

/// Threading changes nothing of a comment but its depth and its root, and where no identifier
/// stands in the list twice it keeps the number of comments.
pub proof fn law_threading_keeps_contents(c: Seq<PostCommentView>, j: int)
    requires
        0 <= j < thread_order(c).len(),
    ensures
        exists|i: int|
            0 <= i < c.len() && {
                let old = #[trigger] c[i];
                let new = thread_order(c)[j];
                &&& new.comment_id == old.comment_id
                &&& new.commenter_public_id == old.commenter_public_id
                &&& new.commenter_username == old.commenter_username
                &&& new.commenter_profile_photo_url == old.commenter_profile_photo_url
                &&& new.commenter_profile_photo_style == old.commenter_profile_photo_style
                &&& new.body == old.body
                &&& new.created_at == old.created_at
                &&& new.likes_count == old.likes_count
                &&& new.liked_by_current_user == old.liked_by_current_user
                &&& new.reply_parent_comment_id == old.reply_parent_comment_id
                &&& new.reply_to_comment_id == old.reply_to_comment_id
                &&& new.reply_to_body_preview == old.reply_to_body_preview
                &&& new.reply_to_username == old.reply_to_username
            },
        distinct(c) ==> thread_order(c).len() == c.len(),
{
    let out = thread_order(c);
    law_threading_keeps_comments(c);
    lemma_comment_with(c, out[j].comment_id);
    if distinct(c) {
        let a = ids(c);
        let b = ids(out);
        assert(a.no_duplicates()) by {
            assert forall|x: int, y: int| 0 <= x < a.len() && 0 <= y < a.len() && x != y implies a[x]
                != a[y] by {
                if x < y {
                    assert(c[x].comment_id != c[y].comment_id);
                } else {
                    assert(c[y].comment_id != c[x].comment_id);
                }
            }
        }
        assert(b.no_duplicates()) by {
            assert forall|x: int, y: int| 0 <= x < b.len() && 0 <= y < b.len() && x != y implies b[x]
                != b[y] by {
                if x < y {
                    assert(out[x].comment_id != out[y].comment_id);
                } else {
                    assert(out[y].comment_id != out[x].comment_id);
                }
            }
        }
        a.unique_seq_to_set();
        b.unique_seq_to_set();
        assert forall|id: i64| a.to_set().contains(id) <==> b.to_set().contains(id) by {
            if a.to_set().contains(id) {
                let k = choose|k: int| 0 <= k < a.len() && a[k] == id;
                assert(c[k].comment_id == id);
                assert(has_comment(c, id));
                assert(has_comment(out, id));
                let m = choose|m: int| 0 <= m < out.len() && (#[trigger] out[m]).comment_id == id;
                assert(b[m] == id);
            }
            if b.to_set().contains(id) {
                let k = choose|k: int| 0 <= k < b.len() && b[k] == id;
                assert(out[k].comment_id == id);
                assert(has_comment(out, id));
                assert(has_comment(c, id));
                let m = choose|m: int| 0 <= m < c.len() && (#[trigger] c[m]).comment_id == id;
                assert(a[m] == id);
            }
        }
        assert(a.to_set() =~= b.to_set());
    }
}

} // verus!
