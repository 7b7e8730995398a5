use vstd::prelude::*;

use crate::error::EError;
use crate::store::{contains_pair, PostRecord, Store};

verus! {

/// The derived, never-persisted relationship view between an observer and a
/// subject: `followed` means the subject follows the observer, `following`
/// that the observer follows the subject, `blocked` that the subject blocks
/// the observer, `blocking` that the observer blocks the subject.
#[derive(Debug, Clone, Copy, PartialEq, Eq, Structural)]
pub struct RelationshipView {
    pub followed: bool,
    pub following: bool,
    pub blocked: bool,
    pub blocking: bool,
}

/// The four directional existence checks between `observer` and `subject`.
pub open spec fn sp_resolve_pair(s: Store, observer: i32, subject: i32) -> RelationshipView {
    RelationshipView {
        followed: s.sp_following(subject, observer),
        following: s.sp_following(observer, subject),
        blocked: s.sp_blocked(subject, observer),
        blocking: s.sp_blocked(observer, subject),
    }
}

/// The relationship resolver: point lookups of follow, block and like
/// edges. Absence of an edge is a valid `false`, never a failure.
pub struct Checker;

impl Checker {
    /// Whether a follow edge from `follower_id` to `followed_id` exists.
    pub fn check_following(store: &Store, follower_id: i32, followed_id: i32) -> (r: bool)
        ensures
            r == store.sp_following(follower_id, followed_id),
    {
        contains_pair(&store.follows, follower_id, followed_id)
    }

    /// Whether a block edge from `blocker_id` to `blocked_id` exists.
    pub fn check_blocked(store: &Store, blocker_id: i32, blocked_id: i32) -> (r: bool)
        ensures
            r == store.sp_blocked(blocker_id, blocked_id),
    {
        contains_pair(&store.blocks, blocker_id, blocked_id)
    }

    /// Whether a like edge from `reader_id` to post `article_id` exists.
    pub fn check_liked(store: &Store, reader_id: i32, article_id: i32) -> (r: bool)
        ensures
            r == store.sp_liked(reader_id, article_id),
    {
        contains_pair(&store.likes, reader_id, article_id)
    }

    /// Whether `user_id` owns the article: a pure comparison of the owner
    /// field, `Forbidden` when it differs.
    pub fn check_author(user_id: i32, article: &PostRecord) -> (r: Result<bool, EError>)
        ensures
            r is Ok <==> article.author_id == user_id,
            r is Ok ==> r.unwrap() == true,
            r matches Err(e) ==> e is Forbidden,
    {
        if article.author_id == user_id {
            return Ok(true);
        }
        Err(EError::Forbidden(String::from_str("You are not the author of this article")))
    }

    /// Computes the full four-flag relationship view between `observer` and
    /// `subject`: four independent point lookups, always fresh from the
    /// store.
    pub fn resolve_pair(store: &Store, observer: i32, subject: i32) -> (r: RelationshipView)
        ensures
            r == sp_resolve_pair(*store, observer, subject),
    {
        RelationshipView {
            followed: Self::check_following(store, subject, observer),
            following: Self::check_following(store, observer, subject),
            blocked: Self::check_blocked(store, subject, observer),
            blocking: Self::check_blocked(store, observer, subject),
        }
    }
}

} // verus!
