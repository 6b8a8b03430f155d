//! Activities: what servers tell each other about users and posts.

use vstd::prelude::*;
use vstd::string::*;

use super::actor::{presents, ActivityPubPerson, FederatedPersonActor};
use super::links::{
    followers_parts, followers_url_from_actor, parsed_or, post_create_activity_url, post_text,
    profile_update_activity_url, profile_update_text,
};
use super::note::{
    activity_or_object_is_public, is_public, public_parts, public_recipient, ActivityPubNote,
};
use crate::weburl::{url_joined, url_parsed, UrlParts, WebUrl};

verus! {

/// A new post.
pub struct CreatePostActivity {
    pub id: WebUrl,
    pub actor: WebUrl,
    pub to: Vec<WebUrl>,
    pub cc: Vec<WebUrl>,
    pub object: ActivityPubNote,
}

/// A changed post.
pub struct UpdatePostActivity {
    pub id: WebUrl,
    pub actor: WebUrl,
    pub to: Vec<WebUrl>,
    pub cc: Vec<WebUrl>,
    pub object: ActivityPubNote,
}

/// A changed profile.
pub struct UpdatePersonActivity {
    pub id: WebUrl,
    pub actor: WebUrl,
    pub to: Vec<WebUrl>,
    pub cc: Vec<WebUrl>,
    pub object: ActivityPubPerson,
}

/// A user who follows another.
pub struct FollowActivity {
    pub id: WebUrl,
    pub actor: WebUrl,
    pub object: WebUrl,
}

pub fn is_public_create_post(activity: &CreatePostActivity) -> (r: bool)
    ensures
        r == is_public(
            activity.to@,
            activity.cc@,
            activity.object.to@,
            activity.object.cc@,
        ),
{
    activity_or_object_is_public(
        &activity.to,
        &activity.cc,
        &activity.object.to,
        &activity.object.cc,
    )
}

pub fn is_public_post_update(activity: &UpdatePostActivity) -> (r: bool)
    ensures
        r == is_public(
            activity.to@,
            activity.cc@,
            activity.object.to@,
            activity.object.cc@,
        ),
{
    activity_or_object_is_public(
        &activity.to,
        &activity.cc,
        &activity.object.to,
        &activity.object.cc,
    )
}

fn copy_urls(urls: &Vec<WebUrl>) -> (r: Vec<WebUrl>)
    ensures
        r@ == urls@,
{
    let mut out: Vec<WebUrl> = Vec::new();
    let mut i: usize = 0;
    while i < urls.len()
        invariant
            i <= urls.len(),
            out@ == urls@.take(i as int),
        decreases urls.len() - i,
    {
        out.push(urls[i].copy());
        assert(urls@.take(i + 1) =~= urls@.take(i as int).push(urls@[i as int]));
        i = i + 1;
    }
    assert(urls@.take(urls.len() as int) =~= urls@);
    out
}

/// The activity that announces a post: it goes to whom the post goes to.
pub fn create_post_activity(
    base_url: &str,
    post_id: i64,
    actor_id: &WebUrl,
    note: ActivityPubNote,
) -> (r: Result<CreatePostActivity, String>)
    ensures
        match parsed_or(
            post_text(base_url@, "/ap/posts/"@, post_id as int) + "/activities/create"@,
            "invalid post create activity url: "@,
        ) {
            Ok(id) => r matches Ok(a) && a.id@ == id && a.actor == *actor_id && a.to@ == note.to@
                && a.cc@ == note.cc@ && a.object == note,
            Err(e) => r matches Err(m) && m@ == e,
        },
{
    match post_create_activity_url(base_url, post_id) {
        Ok(id) => Ok(
            CreatePostActivity {
                id,
                actor: actor_id.copy(),
                to: copy_urls(&note.to),
                cc: copy_urls(&note.cc),
                object: note,
            },
        ),
        Err(e) => Err(e),
    }
}

/// What stands in the way of announcing a profile, if anything does.
pub open spec fn profile_update_fault(actor: UrlParts, micros: int) -> Option<Seq<char>> {
    match followers_parts(actor) {
        Err(e) => Some(e),
        Ok(_) => match parsed_or(
            profile_update_text(actor, micros),
            "invalid profile update activity url: "@,
        ) {
            Err(e) => Some(e),
            Ok(_) => None,
        },
    }
}

/// The activity that announces a profile to everybody and the followers.
pub fn profile_update_activity(actor: &FederatedPersonActor, now_micros: i64) -> (r: Result<
    UpdatePersonActivity,
    String,
>)
    ensures
        match profile_update_fault(actor.actor_id@, now_micros as int) {
            Some(e) => r matches Err(m) && m@ == e,
            None => r matches Ok(a) && Ok::<UrlParts, Seq<char>>(a.id@) == url_parsed(
                profile_update_text(actor.actor_id@, now_micros as int),
            ) && a.actor == actor.actor_id && a.to.len() == 1 && a.to[0]@ == public_parts()
                && a.cc.len() == 1 && followers_parts(actor.actor_id@) == Ok::<
                UrlParts,
                Seq<char>,
            >(a.cc[0]@) && presents(a.object, *actor),
        },
{
    let followers: WebUrl = match followers_url_from_actor(&actor.actor_id) {
        Ok(u) => u,
        Err(e) => {
            return Err(e);
        },
    };
    let id: WebUrl = match profile_update_activity_url(&actor.actor_id, now_micros) {
        Ok(u) => u,
        Err(e) => {
            return Err(e);
        },
    };
    let mut to: Vec<WebUrl> = Vec::new();
    to.push(public_recipient());
    let mut cc: Vec<WebUrl> = Vec::new();
    cc.push(followers);
    Ok(
        UpdatePersonActivity {
            id,
            actor: actor.actor_id.copy(),
            to,
            cc,
            object: actor.to_person(),
        },
    )
}

/// A profile is announced unless the address of the followers or that of the announcement is none.
pub proof fn law_announcements_with_faults(actor: UrlParts, micros: int)
    ensures
        profile_update_fault(actor, micros) is None <==> url_joined(actor.href, "followers"@) is Ok
            && url_parsed(profile_update_text(actor, micros)) is Ok,
{
}

} // verus!
