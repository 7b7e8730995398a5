use vstd::prelude::*;

use crate::checker::Checker;
use crate::error::{sp_err, EError};
use crate::extractor::{AuthUser, OptionalAuthUser};
use crate::helper::Helper;
use crate::model::{Profile, ProfileBody};
use crate::store::{
    lemma_wf_block, lemma_wf_push_follow, lemma_wf_remove_follow, lemma_wf_unblock, remove_pair,
    sp_remove_pair, sp_same_blocks, sp_same_comments, sp_same_follows, sp_same_likes,
    sp_same_posts, sp_same_users, Store,
};

verus! {

/// The mutation guard's preconditions for `Follow(a -> name)`: the acting
/// user exists, the action is not self-targeting, the target exists, the
/// follow edge does not exist yet, and neither side blocks the other.
pub open spec fn sp_can_follow(s: Store, a: i32, name: Seq<char>) -> bool {
    &&& s.sp_has_user_id(a)
    &&& s.sp_user(a).username@ != name
    &&& s.sp_has_username(name)
    &&& !s.sp_following(a, s.sp_user_by_name(name).user_id)
    &&& !s.sp_blocked(s.sp_user_by_name(name).user_id, a)
    &&& !s.sp_blocked(a, s.sp_user_by_name(name).user_id)
}

/// The mutation guard's preconditions for `Unfollow(a -> name)`.
pub open spec fn sp_can_unfollow(s: Store, a: i32, name: Seq<char>) -> bool {
    &&& s.sp_has_user_id(a)
    &&& s.sp_user(a).username@ != name
    &&& s.sp_has_username(name)
    &&& s.sp_following(a, s.sp_user_by_name(name).user_id)
}

/// The mutation guard's preconditions for `Block(a -> name)`.
pub open spec fn sp_can_block(s: Store, a: i32, name: Seq<char>) -> bool {
    &&& s.sp_has_user_id(a)
    &&& s.sp_user(a).username@ != name
    &&& s.sp_has_username(name)
    &&& !s.sp_blocked(a, s.sp_user_by_name(name).user_id)
}

/// The mutation guard's preconditions for `Unblock(a -> name)`.
pub open spec fn sp_can_unblock(s: Store, a: i32, name: Seq<char>) -> bool {
    &&& s.sp_has_user_id(a)
    &&& s.sp_user(a).username@ != name
    &&& s.sp_has_username(name)
    &&& s.sp_blocked(a, s.sp_user_by_name(name).user_id)
}

/// Handlers for profile reads and for the follow / block mutations.
pub struct ProfilesService;

impl ProfilesService {
    /// Fetches the profile named `username`, projected for the (optionally
    /// authenticated) viewer. An anonymous viewer gets the neutral flags
    /// without any resolver lookup; a viewer gets the four directional
    /// existence checks against the profile's user.
    pub fn fetch_profile(store: &Store, auth_user: OptionalAuthUser, username: &String) -> (r:
        Result<ProfileBody<Profile>, EError>)
        requires
            store.wf(),
        ensures
            r is Ok <==> store.sp_has_username(username@),
            r is Err ==> sp_err(r) is NotFound,
            r matches Ok(body) ==> ({
                let rb = store.sp_user_by_name(username@);
                match auth_user.0 {
                    None => body.profile == rb.sp_profile(false, false, false, false),
                    Some(u) => body.profile == rb.sp_profile(
                        store.sp_following(rb.user_id, u.user_id),
                        store.sp_following(u.user_id, rb.user_id),
                        store.sp_blocked(rb.user_id, u.user_id),
                        store.sp_blocked(u.user_id, rb.user_id),
                    ),
                }
            }),
    {
        let visited = Helper::get_user_by_name(store, username)?;
        match auth_user.0 {
            Some(user) => {
                let followed = Checker::check_following(store, visited.user_id, user.user_id);
                let following = Checker::check_following(store, user.user_id, visited.user_id);
                let blocked = Checker::check_blocked(store, visited.user_id, user.user_id);
                let blocking = Checker::check_blocked(store, user.user_id, visited.user_id);
                Ok(ProfileBody { profile: visited.to_profile(followed, following, blocked, blocking) })
            },
            None => Ok(ProfileBody { profile: visited.to_profile(false, false, false, false) }),
        }
    }

    /// Follows the profile named `username`. On success the follow edge
    /// `(a, b)` is created and nothing else changes; every rejection leaves
    /// the store untouched and carries the kind of the first failing
    /// precondition: `NotFound` for a missing actor or target,
    /// `BadRequest` for a self-follow, `Conflict` for a duplicate follow,
    /// `Forbidden` when either side blocks the other.
    pub fn follow_profile(store: &mut Store, auth_user: AuthUser, username: &String) -> (r: Result<
        ProfileBody<Profile>,
        EError,
    >)
        requires
            old(store).wf(),
        ensures
            final (store).wf(),
            r is Ok <==> sp_can_follow(*old(store), auth_user.user_id, username@),
            r is Err ==> *final (store) == *old(store),
            ({
                let s0 = *old(store);
                let a = auth_user.user_id;
                let nm = username@;
                &&& (!s0.sp_has_user_id(a) ==> r is Err && sp_err(r) is NotFound)
                &&& (s0.sp_has_user_id(a) && s0.sp_user(a).username@ == nm ==> r is Err && sp_err(
                    r,
                ) is BadRequest)
                &&& (s0.sp_has_user_id(a) && s0.sp_user(a).username@ != nm && !s0.sp_has_username(
                    nm,
                ) ==> r is Err && sp_err(r) is NotFound)
                &&& (s0.sp_has_user_id(a) && s0.sp_user(a).username@ != nm && s0.sp_has_username(nm)
                    ==> ({
                    let b = s0.sp_user_by_name(nm).user_id;
                    &&& (s0.sp_following(a, b) ==> r is Err && sp_err(r) is Conflict)
                    &&& (!s0.sp_following(a, b) && s0.sp_blocked(b, a) ==> r is Err && sp_err(
                        r,
                    ) is Forbidden)
                    &&& (!s0.sp_following(a, b) && !s0.sp_blocked(b, a) && s0.sp_blocked(a, b)
                        ==> r is Err && sp_err(r) is Forbidden)
                }))
            }),
            r matches Ok(body) ==> ({
                let s0 = *old(store);
                let a = auth_user.user_id;
                let rb = s0.sp_user_by_name(username@);
                &&& final (store).follows@ == s0.follows@.push((a, rb.user_id))
                &&& sp_same_users(s0, *final (store))
                &&& sp_same_posts(s0, *final (store))
                &&& sp_same_comments(s0, *final (store))
                &&& sp_same_blocks(s0, *final (store))
                &&& sp_same_likes(s0, *final (store))
                &&& body.profile == rb.sp_profile(s0.sp_following(rb.user_id, a), true, false, false)
            }),
    {
        let ghost s0 = *store;
        let a = auth_user.user_id;
        let current = Helper::get_user_by_id(store, a)?;
        if current.username == *username {
            return Err(EError::BadRequest(String::from_str("You cannot follow yourself")));
        }
        let followed_user = Helper::get_user_by_name(store, username)?;
        let b = followed_user.user_id;
        proof {
            if a == b {
                let k2 = s0.sp_user_index_by_name(username@);
                s0.lemma_user_at(k2);
                assert(false);
            }
        }
        if Checker::check_following(store, a, b) {
            return Err(EError::Conflict(String::from_str("You are already following this user")));
        }
        if Checker::check_blocked(store, b, a) {
            return Err(EError::Forbidden(String::from_str("Current user has been blocked")));
        }
        if Checker::check_blocked(store, a, b) {
            return Err(EError::Forbidden(String::from_str("Current user are blocking this user")));
        }
        let followed = Checker::check_following(store, b, a);
        let profile = followed_user.to_profile(followed, true, false, false);
        store.follows.push((a, b));
        proof {
            lemma_wf_push_follow(s0, *store, a, b);
        }
        Ok(ProfileBody { profile })
    }

    /// Unfollows the profile named `username`. On success the follow edge
    /// `(a, b)` is deleted and nothing else changes; every rejection leaves
    /// the store untouched: `NotFound` for a missing actor or target,
    /// `BadRequest` for a self-unfollow or when no follow edge exists.
    pub fn unfollow_profile(store: &mut Store, auth_user: AuthUser, username: &String) -> (r:
        Result<ProfileBody<Profile>, EError>)
        requires
            old(store).wf(),
        ensures
            final (store).wf(),
            r is Ok <==> sp_can_unfollow(*old(store), auth_user.user_id, username@),
            r is Err ==> *final (store) == *old(store),
            ({
                let s0 = *old(store);
                let a = auth_user.user_id;
                let nm = username@;
                &&& (!s0.sp_has_user_id(a) ==> r is Err && sp_err(r) is NotFound)
                &&& (s0.sp_has_user_id(a) && s0.sp_user(a).username@ == nm ==> r is Err && sp_err(
                    r,
                ) is BadRequest)
                &&& (s0.sp_has_user_id(a) && s0.sp_user(a).username@ != nm && !s0.sp_has_username(
                    nm,
                ) ==> r is Err && sp_err(r) is NotFound)
                &&& (s0.sp_has_user_id(a) && s0.sp_user(a).username@ != nm && s0.sp_has_username(nm)
                    && !s0.sp_following(a, s0.sp_user_by_name(nm).user_id) ==> r is Err && sp_err(
                    r,
                ) is BadRequest)
            }),
            r matches Ok(body) ==> ({
                let s0 = *old(store);
                let a = auth_user.user_id;
                let rb = s0.sp_user_by_name(username@);
                &&& final (store).follows@ == sp_remove_pair(s0.follows@, a, rb.user_id)
                &&& sp_same_users(s0, *final (store))
                &&& sp_same_posts(s0, *final (store))
                &&& sp_same_comments(s0, *final (store))
                &&& sp_same_blocks(s0, *final (store))
                &&& sp_same_likes(s0, *final (store))
                &&& body.profile == rb.sp_profile(
                    s0.sp_following(rb.user_id, a),
                    false,
                    false,
                    false,
                )
            }),
    {
        let ghost s0 = *store;
        let a = auth_user.user_id;
        let current = Helper::get_user_by_id(store, a)?;
        if current.username == *username {
            return Err(EError::BadRequest(String::from_str("You cannot unfollow yourself")));
        }
        let followed_user = Helper::get_user_by_name(store, username)?;
        let b = followed_user.user_id;
        if !Checker::check_following(store, a, b) {
            return Err(EError::BadRequest(String::from_str("Current user did not follow")));
        }
        let followed = Checker::check_following(store, b, a);
        let profile = followed_user.to_profile(followed, false, false, false);
        remove_pair(&mut store.follows, a, b);
        proof {
            lemma_wf_remove_follow(s0, *store, a, b);
        }
        Ok(ProfileBody { profile })
    }

    /// Blocks the profile named `username`. On success the follow edges of
    /// the pair are deleted in both directions — whether or not they exist
    /// — and the block edge `(a, b)` is created; every rejection leaves the
    /// store untouched: `NotFound` for a missing actor or target,
    /// `BadRequest` for a self-block, `Conflict` for a duplicate block.
    pub fn block_profile(store: &mut Store, auth_user: AuthUser, username: &String) -> (r: Result<
        ProfileBody<Profile>,
        EError,
    >)
        requires
            old(store).wf(),
        ensures
            final (store).wf(),
            r is Ok <==> sp_can_block(*old(store), auth_user.user_id, username@),
            r is Err ==> *final (store) == *old(store),
            ({
                let s0 = *old(store);
                let a = auth_user.user_id;
                let nm = username@;
                &&& (!s0.sp_has_user_id(a) ==> r is Err && sp_err(r) is NotFound)
                &&& (s0.sp_has_user_id(a) && s0.sp_user(a).username@ == nm ==> r is Err && sp_err(
                    r,
                ) is BadRequest)
                &&& (s0.sp_has_user_id(a) && s0.sp_user(a).username@ != nm && !s0.sp_has_username(
                    nm,
                ) ==> r is Err && sp_err(r) is NotFound)
                &&& (s0.sp_has_user_id(a) && s0.sp_user(a).username@ != nm && s0.sp_has_username(nm)
                    && s0.sp_blocked(a, s0.sp_user_by_name(nm).user_id) ==> r is Err && sp_err(
                    r,
                ) is Conflict)
            }),
            r matches Ok(body) ==> ({
                let s0 = *old(store);
                let a = auth_user.user_id;
                let rb = s0.sp_user_by_name(username@);
                let b = rb.user_id;
                &&& final (store).follows@ == sp_remove_pair(
                    sp_remove_pair(s0.follows@, a, b),
                    b,
                    a,
                )
                &&& final (store).blocks@ == s0.blocks@.push((a, b))
                &&& sp_same_users(s0, *final (store))
                &&& sp_same_posts(s0, *final (store))
                &&& sp_same_comments(s0, *final (store))
                &&& sp_same_likes(s0, *final (store))
                &&& body.profile == rb.sp_profile(false, false, s0.sp_blocked(b, a), true)
            }),
    {
        let ghost s0 = *store;
        let a = auth_user.user_id;
        let current = Helper::get_user_by_id(store, a)?;
        if current.username == *username {
            return Err(EError::BadRequest(String::from_str("You cannot block yourself")));
        }
        let blocked_user = Helper::get_user_by_name(store, username)?;
        let b = blocked_user.user_id;
        proof {
            if a == b {
                let k2 = s0.sp_user_index_by_name(username@);
                s0.lemma_user_at(k2);
                assert(false);
            }
        }
        if Checker::check_blocked(store, a, b) {
            return Err(EError::Conflict(String::from_str("User has already been blocked")));
        }
        let blocked = Checker::check_blocked(store, b, a);
        let profile = blocked_user.to_profile(false, false, blocked, true);
        remove_pair(&mut store.follows, a, b);
        remove_pair(&mut store.follows, b, a);
        store.blocks.push((a, b));
        proof {
            lemma_wf_block(s0, *store, a, b);
        }
        Ok(ProfileBody { profile })
    }

    /// Unblocks the profile named `username`. On success the block edge
    /// `(a, b)` is deleted and nothing else changes; every rejection leaves
    /// the store untouched: `NotFound` for a missing actor or target,
    /// `BadRequest` for a self-unblock or when no block edge exists.
    pub fn unblock_profile(store: &mut Store, auth_user: AuthUser, username: &String) -> (r: Result<
        ProfileBody<Profile>,
        EError,
    >)
        requires
            old(store).wf(),
        ensures
            final (store).wf(),
            r is Ok <==> sp_can_unblock(*old(store), auth_user.user_id, username@),
            r is Err ==> *final (store) == *old(store),
            ({
                let s0 = *old(store);
                let a = auth_user.user_id;
                let nm = username@;
                &&& (!s0.sp_has_user_id(a) ==> r is Err && sp_err(r) is NotFound)
                &&& (s0.sp_has_user_id(a) && s0.sp_user(a).username@ == nm ==> r is Err && sp_err(
                    r,
                ) is BadRequest)
                &&& (s0.sp_has_user_id(a) && s0.sp_user(a).username@ != nm && !s0.sp_has_username(
                    nm,
                ) ==> r is Err && sp_err(r) is NotFound)
                &&& (s0.sp_has_user_id(a) && s0.sp_user(a).username@ != nm && s0.sp_has_username(nm)
                    && !s0.sp_blocked(a, s0.sp_user_by_name(nm).user_id) ==> r is Err && sp_err(
                    r,
                ) is BadRequest)
            }),
            r matches Ok(body) ==> ({
                let s0 = *old(store);
                let a = auth_user.user_id;
                let rb = s0.sp_user_by_name(username@);
                &&& final (store).blocks@ == sp_remove_pair(s0.blocks@, a, rb.user_id)
                &&& sp_same_users(s0, *final (store))
                &&& sp_same_posts(s0, *final (store))
                &&& sp_same_comments(s0, *final (store))
                &&& sp_same_follows(s0, *final (store))
                &&& sp_same_likes(s0, *final (store))
                &&& body.profile == rb.sp_profile(false, false, s0.sp_blocked(rb.user_id, a), false)
            }),
    {
        let ghost s0 = *store;
        let a = auth_user.user_id;
        let current = Helper::get_user_by_id(store, a)?;
        if current.username == *username {
            return Err(EError::BadRequest(String::from_str("You cannot unblock yourself")));
        }
        let blocked_user = Helper::get_user_by_name(store, username)?;
        let b = blocked_user.user_id;
        if !Checker::check_blocked(store, a, b) {
            return Err(EError::BadRequest(String::from_str("Current user did not block")));
        }
        let blocked = Checker::check_blocked(store, b, a);
        let profile = blocked_user.to_profile(false, false, blocked, false);
        remove_pair(&mut store.blocks, a, b);
        proof {
            lemma_wf_unblock(s0, *store, a, b);
        }
        Ok(ProfileBody { profile })
    }
}

} // verus!
