use vstd::prelude::*;

use crate::model::sp_project_post;
use crate::store::{
    lemma_push_contains, lemma_remove_pair_absent, lemma_remove_pair_contains, sp_remove_pair,
    sp_with_like_count, PostRecord, Store,
};

verus! {

/// After `Follow(A, B)` succeeds — its effect being that the follow edge
/// `(A, B)` is appended to the table — `A` follows `B`, and whether `B`
/// follows `A` is exactly as it was before.
pub proof fn lemma_follow_effect(s1: Store, s2: Store, a: i32, b: i32)
    requires
        a != b,
        s2.follows@ == s1.follows@.push((a, b)),
    ensures
        s2.sp_following(a, b),
        s2.sp_following(b, a) == s1.sp_following(b, a),
{
    lemma_push_contains(s1.follows@, (a, b), (a, b));
    lemma_push_contains(s1.follows@, (a, b), (b, a));
}

/// `Block(A, B)` always results in `A` not following `B` and `B` not
/// following `A`, regardless of the prior follow state: its effect removes
/// the follow edges of the pair in both directions.
pub proof fn lemma_block_effect(s1: Store, s2: Store, a: i32, b: i32)
    requires
        s2.follows@ == sp_remove_pair(sp_remove_pair(s1.follows@, a, b), b, a),
    ensures
        !s2.sp_following(a, b),
        !s2.sp_following(b, a),
{
    lemma_remove_pair_contains(sp_remove_pair(s1.follows@, a, b), b, a, (a, b));
    lemma_remove_pair_contains(s1.follows@, a, b, (a, b));
    lemma_remove_pair_contains(sp_remove_pair(s1.follows@, a, b), b, a, (b, a));
}

/// A `Like(u, p)` followed immediately by an `Unlike(u, p)` returns the
/// store to its pre-like state exactly: the like table and the whole post
/// table — the counter included — are what they were.
pub proof fn lemma_like_unlike_round_trip(s0: Store, s1: Store, s2: Store, u: i32, p: i32)
    requires
        s0.wf(),
        s0.sp_has_post(p),
        s0.sp_post(p).like_count < i32::MAX,
        !s0.sp_liked(u, p),
        // the effect of the successful like, per `like_post`
        s1.likes@ == s0.likes@.push((u, p)),
        s1.posts@ == s0.posts@.update(
            s0.sp_post_index(p),
            sp_with_like_count(s0.sp_post(p), (s0.sp_post(p).like_count + 1) as i32),
        ),
        // the effect of the successful unlike, per `unlike_post`
        s2.likes@ == sp_remove_pair(s1.likes@, u, p),
        s2.posts@ == s1.posts@.update(
            s1.sp_post_index(p),
            sp_with_like_count(s1.sp_post(p), (s1.sp_post(p).like_count - 1) as i32),
        ),
    ensures
        s2.likes@ == s0.likes@,
        s2.posts@ == s0.posts@,
        s2.sp_like_count(p) == s0.sp_like_count(p),
{
    let k = s0.sp_post_index(p);
    let rec0 = s0.sp_post(p);
    let rec1 = sp_with_like_count(rec0, (rec0.like_count + 1) as i32);
    // the likes round-trip: push then remove of an absent pair
    lemma_remove_pair_absent(s0.likes@, u, p);
    assert(sp_remove_pair(s1.likes@, u, p) == s0.likes@) by {
        assert(s1.likes@.drop_last() =~= s0.likes@);
        assert(s1.likes@.last() == (u, p));
    }
    // the post found in s1 is the updated record at the same index
    assert(0 <= k < s0.posts@.len());
    assert(s1.posts@[k] == rec1);
    assert(s1.posts@[k].post_id == p);
    assert(s1.sp_has_post(p)) by {
        assert(s1.posts@[k].post_id == p);
    }
    let k1 = s1.sp_post_index(p);
    assert(0 <= k1 < s1.posts@.len() && s1.posts@[k1].post_id == p);
    // indices agree, because post ids are unique (they ascend in s0)
    if k1 != k {
        assert(s1.posts@[k1] == s0.posts@[k1]);
        assert(s0.posts@[k1].post_id == s0.posts@[k].post_id);
        if k1 < k {
            assert(s0.posts@[k1].post_id < s0.posts@[k].post_id);
        } else {
            assert(s0.posts@[k].post_id < s0.posts@[k1].post_id);
        }
    }
    assert(k1 == k);
    assert(s1.sp_post(p) == rec1);
    assert(sp_with_like_count(rec1, (rec1.like_count - 1) as i32) == rec0);
    assert(s2.posts@ =~= s0.posts@);
}

/// Of two identical `Like(u, p)` requests, the first to commit leaves the
/// edge present and the counter up by exactly one — so the second is
/// rejected as a duplicate by the mutation guard (`like_post` returns
/// `Conflict` and leaves the store untouched whenever the edge exists).
pub proof fn lemma_duplicate_like(s0: Store, s1: Store, u: i32, p: i32)
    requires
        s0.wf(),
        s0.sp_has_post(p),
        s0.sp_post(p).like_count < i32::MAX,
        s1.likes@ == s0.likes@.push((u, p)),
        s1.posts@ == s0.posts@.update(
            s0.sp_post_index(p),
            sp_with_like_count(s0.sp_post(p), (s0.sp_post(p).like_count + 1) as i32),
        ),
    ensures
        s1.sp_liked(u, p),
        s1.sp_has_post(p),
        s1.sp_post(p).like_count == s0.sp_post(p).like_count + 1,
{
    lemma_push_contains(s0.likes@, (u, p), (u, p));
    let k = s0.sp_post_index(p);
    let rec1 = sp_with_like_count(s0.sp_post(p), (s0.sp_post(p).like_count + 1) as i32);
    assert(0 <= k < s0.posts@.len());
    assert(s1.posts@[k] == rec1);
    assert(s1.sp_has_post(p)) by {
        assert(s1.posts@[k].post_id == p);
    }
    let k1 = s1.sp_post_index(p);
    if k1 != k {
        assert(s1.posts@[k1] == s0.posts@[k1]);
        assert(s0.posts@[k1].post_id == s0.posts@[k].post_id);
        if k1 < k {
            assert(s0.posts@[k1].post_id < s0.posts@[k].post_id);
        } else {
            assert(s0.posts@[k].post_id < s0.posts@[k1].post_id);
        }
    }
    assert(s1.sp_post(p) == rec1);
}

/// Projecting a post for an anonymous viewer always yields the neutral
/// flags — liked, followed, following, blocked and blocking all `false` —
/// regardless of any relationship edges present in the store.
pub proof fn lemma_anonymous_projection(s: Store, p: PostRecord, tz_hours: i32)
    ensures
        sp_project_post(s, p, None, tz_hours).liked == false,
        sp_project_post(s, p, None, tz_hours).author.followed == false,
        sp_project_post(s, p, None, tz_hours).author.following == false,
        sp_project_post(s, p, None, tz_hours).author.blocked == false,
        sp_project_post(s, p, None, tz_hours).author.blocking == false,
{
}

} // verus!
