//! Profiles: a user's public-facing fields plus a follow flag relative to
//! the viewer, and the follow/unfollow handlers.

use vstd::prelude::*;
use crate::store::SpecStore;
use crate::store::SpecUser;
use crate::store::Store;
use crate::store::User;
use crate::store::clone_opt_string;
use crate::store::edge_insert;
use crate::store::edge_remove;
use crate::store::has_user_name;
use crate::store::is_following_spec;
use crate::store::opt_view;
use crate::store::store_wf;
use crate::store::user_by_name_spec;
use crate::types::ApiError;

verus! {

/// A user's public profile, relative to some viewer.
#[derive(Debug)]
pub struct Profile {
    pub username: String,
    pub bio: Option<String>,
    pub image: Option<String>,
    pub following: bool,
}

/// The mathematical value of a profile.
pub struct SpecProfile {
    pub username: Seq<char>,
    pub bio: Option<Seq<char>>,
    pub image: Option<Seq<char>>,
    pub following: bool,
}

impl View for Profile {
    type V = SpecProfile;

    open spec fn view(&self) -> SpecProfile {
        SpecProfile {
            username: self.username@,
            bio: opt_view(self.bio),
            image: opt_view(self.image),
            following: self.following,
        }
    }
}

/// The profile of a user with a given follow flag.
pub open spec fn profile_of(u: SpecUser, following: bool) -> SpecProfile {
    SpecProfile { username: u.username, bio: u.bio, image: u.image, following }
}

/// The follow flag an optional viewer sees on `followee`.
pub open spec fn viewer_follows(s: SpecStore, viewer: Option<int>, followee: int) -> bool {
    match viewer {
        Some(v) => is_following_spec(s.followers, v, followee),
        None => false,
    }
}

/// The viewer's id, when a viewer is present.
pub open spec fn viewer_id(viewer: Option<&User>) -> Option<int> {
    match viewer {
        Some(u) => Some(u@.id),
        None => None,
    }
}

impl User {
    /// This user's profile with an explicit follow flag.
    pub fn profile(&self, following: bool) -> (r: Profile)
        ensures
            r@ == profile_of(self@, following),
    {
        Profile {
            username: self.username.clone(),
            bio: clone_opt_string(&self.bio),
            image: clone_opt_string(&self.image),
            following,
        }
    }
}

/// The body of every profile response.
#[derive(Debug)]
pub struct ProfileResponse {
    pub profile: Profile,
}

/// `GET /profiles/:name`: the named user's profile, with the follow flag
/// relative to the optional viewer.
pub fn profile(store: &Store, current_user: Option<&User>, name: &str) -> (r: Result<
    ProfileResponse,
    ApiError,
>)
    requires
        store_wf(store@),
    ensures
        match r {
            Ok(p) => has_user_name(store@.users, name@) && p.profile@ == profile_of(
                user_by_name_spec(store@.users, name@),
                viewer_follows(
                    store@,
                    viewer_id(current_user),
                    user_by_name_spec(store@.users, name@).id,
                ),
            ),
            Err(e) => e is NotFound && !has_user_name(store@.users, name@),
        },
{
    let user = match User::load_by_name(name, store) {
        Ok(u) => u,
        Err(e) => {
            return Err(e);
        },
    };
    let following = match current_user {
        Some(current) => store.is_following(current.id, user.id),
        None => false,
    };
    Ok(ProfileResponse { profile: user.profile(following) })
}

/// `POST /profiles/:name/follow`: records the follow edge, idempotently,
/// and returns the profile with the flag set.
pub fn follow(store: &mut Store, current_user: &User, name: &str) -> (r: Result<
    ProfileResponse,
    ApiError,
>)
    requires
        store_wf(old(store)@),
    ensures
        store_wf(final(store)@),
        match r {
            Ok(p) => has_user_name(old(store)@.users, name@) && final(store)@ == (SpecStore {
                followers: edge_insert(
                    old(store)@.followers,
                    (current_user@.id, user_by_name_spec(old(store)@.users, name@).id),
                ),
                ..old(store)@
            }) && p.profile@ == profile_of(user_by_name_spec(old(store)@.users, name@), true),
            Err(e) => e is NotFound && !has_user_name(old(store)@.users, name@) && *final(store)
                == *old(store),
        },
{
    let followee = match User::load_by_name(name, store) {
        Ok(u) => u,
        Err(e) => {
            return Err(e);
        },
    };
    store.follow(current_user.id, followee.id);
    Ok(ProfileResponse { profile: followee.profile(true) })
}

/// `DELETE /profiles/:name/follow`: deletes the follow edge if present,
/// and returns the profile with the flag cleared.
pub fn unfollow(store: &mut Store, current_user: &User, name: &str) -> (r: Result<
    ProfileResponse,
    ApiError,
>)
    requires
        store_wf(old(store)@),
    ensures
        store_wf(final(store)@),
        match r {
            Ok(p) => has_user_name(old(store)@.users, name@) && final(store)@ == (SpecStore {
                followers: edge_remove(
                    old(store)@.followers,
                    (current_user@.id, user_by_name_spec(old(store)@.users, name@).id),
                ),
                ..old(store)@
            }) && p.profile@ == profile_of(user_by_name_spec(old(store)@.users, name@), false),
            Err(e) => e is NotFound && !has_user_name(old(store)@.users, name@) && *final(store)
                == *old(store),
        },
{
    let followee = match User::load_by_name(name, store) {
        Ok(u) => u,
        Err(e) => {
            return Err(e);
        },
    };
    store.unfollow(current_user.id, followee.id);
    Ok(ProfileResponse { profile: followee.profile(false) })
}

} // verus!
