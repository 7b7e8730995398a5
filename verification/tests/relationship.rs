use trapziu_backend::checker::{Checker, RelationshipView};
use trapziu_backend::error::EError;
use trapziu_backend::extractor::{AuthUser, OptionalAuthUser};
use trapziu_backend::profiles::ProfilesService;
use trapziu_backend::store::{Store, UserRecord};

fn user(id: i32, name: &str) -> UserRecord {
    UserRecord {
        user_id: id,
        username: name.to_string(),
        email: format!("{}@example.com", name),
        intro: None,
        avatar: None,
        created_at: 1_700_000_000,
        password_hash: "unused".to_string(),
    }
}

fn two_user_store() -> Store {
    Store {
        users: vec![user(1, "alice"), user(2, "bob")],
        posts: vec![],
        comments: vec![],
        follows: vec![],
        blocks: vec![],
        likes: vec![],
        next_user_id: 3,
        next_post_id: 1,
        next_comment_id: 1,
    }
}

#[test]
fn follow_sets_edge_and_leaves_reverse_untouched() {
    let mut store = two_user_store();
    store.follows.push((2, 1));
    let r = ProfilesService::follow_profile(&mut store, AuthUser { user_id: 1 }, &"bob".to_string());
    let body = r.expect("follow should succeed");
    assert!(Checker::check_following(&store, 1, 2));
    assert!(Checker::check_following(&store, 2, 1));
    assert!(body.profile.following);
    assert!(body.profile.followed);
    assert_eq!(body.profile.user_id, 2);
    assert_eq!(body.profile.username, "bob");
}

#[test]
fn duplicate_follow_is_conflict() {
    let mut store = two_user_store();
    ProfilesService::follow_profile(&mut store, AuthUser { user_id: 1 }, &"bob".to_string())
        .expect("first follow should succeed");
    let r = ProfilesService::follow_profile(&mut store, AuthUser { user_id: 1 }, &"bob".to_string());
    let e = r.expect_err("second follow must be rejected");
    assert!(matches!(e, EError::Conflict(_)));
    assert_eq!(e.status_code(), 409);
    assert_eq!(store.follows, vec![(1, 2)]);
}

#[test]
fn self_follow_is_bad_request_before_any_write() {
    let mut store = two_user_store();
    let r = ProfilesService::follow_profile(
        &mut store,
        AuthUser { user_id: 1 },
        &"alice".to_string(),
    );
    let e = r.expect_err("self-follow must be rejected");
    assert!(matches!(e, EError::BadRequest(_)));
    assert_eq!(e.status_code(), 400);
    assert!(store.follows.is_empty());
    assert_eq!(store.users.len(), 2);
}

#[test]
fn follow_when_blocked_by_target_is_forbidden() {
    let mut store = two_user_store();
    store.blocks.push((2, 1));
    let r = ProfilesService::follow_profile(&mut store, AuthUser { user_id: 1 }, &"bob".to_string());
    let e = r.expect_err("follow of a blocking user must be rejected");
    assert!(matches!(e, EError::Forbidden(_)));
    assert_eq!(e.status_code(), 403);
    assert!(store.follows.is_empty());
}

#[test]
fn follow_while_blocking_target_is_forbidden() {
    let mut store = two_user_store();
    store.blocks.push((1, 2));
    let r = ProfilesService::follow_profile(&mut store, AuthUser { user_id: 1 }, &"bob".to_string());
    let e = r.expect_err("follow of a blocked user must be rejected");
    assert!(matches!(e, EError::Forbidden(_)));
    assert!(store.follows.is_empty());
}

#[test]
fn follow_unknown_target_is_not_found() {
    let mut store = two_user_store();
    let r = ProfilesService::follow_profile(
        &mut store,
        AuthUser { user_id: 1 },
        &"nobody".to_string(),
    );
    let e = r.expect_err("follow of a missing user must be rejected");
    assert!(matches!(e, EError::NotFound(_)));
    assert_eq!(e.status_code(), 404);
}

#[test]
fn unfollow_removes_edge() {
    let mut store = two_user_store();
    store.follows.push((1, 2));
    let r = ProfilesService::unfollow_profile(
        &mut store,
        AuthUser { user_id: 1 },
        &"bob".to_string(),
    );
    let body = r.expect("unfollow should succeed");
    assert!(!body.profile.following);
    assert!(store.follows.is_empty());
}

#[test]
fn unfollow_without_edge_is_bad_request() {
    let mut store = two_user_store();
    let r = ProfilesService::unfollow_profile(
        &mut store,
        AuthUser { user_id: 1 },
        &"bob".to_string(),
    );
    let e = r.expect_err("unfollow without a follow must be rejected");
    assert!(matches!(e, EError::BadRequest(_)));
}

#[test]
fn block_clears_follow_edges_both_ways() {
    let mut store = two_user_store();
    store.follows.push((1, 2));
    store.follows.push((2, 1));
    let r = ProfilesService::block_profile(&mut store, AuthUser { user_id: 1 }, &"bob".to_string());
    let body = r.expect("block should succeed");
    assert!(!Checker::check_following(&store, 1, 2));
    assert!(!Checker::check_following(&store, 2, 1));
    assert!(Checker::check_blocked(&store, 1, 2));
    assert!(body.profile.blocking);
    assert!(!body.profile.followed);
    assert!(!body.profile.following);
}

#[test]
fn block_without_prior_follow_still_succeeds() {
    let mut store = two_user_store();
    let r = ProfilesService::block_profile(&mut store, AuthUser { user_id: 1 }, &"bob".to_string());
    r.expect("block should succeed");
    assert!(Checker::check_blocked(&store, 1, 2));
    assert!(!Checker::check_following(&store, 1, 2));
    assert!(!Checker::check_following(&store, 2, 1));
}

#[test]
fn duplicate_block_is_conflict() {
    let mut store = two_user_store();
    ProfilesService::block_profile(&mut store, AuthUser { user_id: 1 }, &"bob".to_string())
        .expect("first block should succeed");
    let r = ProfilesService::block_profile(&mut store, AuthUser { user_id: 1 }, &"bob".to_string());
    let e = r.expect_err("second block must be rejected");
    assert!(matches!(e, EError::Conflict(_)));
}

#[test]
fn unblock_removes_edge() {
    let mut store = two_user_store();
    store.blocks.push((1, 2));
    let r = ProfilesService::unblock_profile(
        &mut store,
        AuthUser { user_id: 1 },
        &"bob".to_string(),
    );
    let body = r.expect("unblock should succeed");
    assert!(!Checker::check_blocked(&store, 1, 2));
    assert!(!body.profile.blocking);
}

#[test]
fn unblock_without_edge_is_bad_request() {
    let mut store = two_user_store();
    let r = ProfilesService::unblock_profile(
        &mut store,
        AuthUser { user_id: 1 },
        &"bob".to_string(),
    );
    let e = r.expect_err("unblock without a block must be rejected");
    assert!(matches!(e, EError::BadRequest(_)));
}

#[test]
fn follow_then_block_by_target_scenario() {
    let mut store = two_user_store();
    // user A (id 1) follows user B (id 2)
    ProfilesService::follow_profile(&mut store, AuthUser { user_id: 1 }, &"bob".to_string())
        .expect("follow should succeed");
    // then B blocks A
    ProfilesService::block_profile(&mut store, AuthUser { user_id: 2 }, &"alice".to_string())
        .expect("block should succeed");
    let view_a = Checker::resolve_pair(&store, 1, 2);
    assert_eq!(
        view_a,
        RelationshipView { followed: false, following: false, blocked: true, blocking: false },
    );
    let view_b = Checker::resolve_pair(&store, 2, 1);
    assert_eq!(
        view_b,
        RelationshipView { followed: false, following: false, blocked: false, blocking: true },
    );
}

#[test]
fn fetch_profile_anonymous_has_neutral_flags() {
    let mut store = two_user_store();
    store.follows.push((1, 2));
    store.follows.push((2, 1));
    store.blocks.push((1, 2));
    let r = ProfilesService::fetch_profile(&store, OptionalAuthUser(None), &"bob".to_string());
    let body = r.expect("fetch should succeed");
    assert!(!body.profile.followed);
    assert!(!body.profile.following);
    assert!(!body.profile.blocked);
    assert!(!body.profile.blocking);
    assert_eq!(body.profile.username, "bob");
}

#[test]
fn fetch_profile_with_viewer_carries_flags() {
    let mut store = two_user_store();
    store.follows.push((1, 2));
    store.blocks.push((2, 1));
    let r = ProfilesService::fetch_profile(
        &store,
        OptionalAuthUser(Some(AuthUser { user_id: 1 })),
        &"bob".to_string(),
    );
    let body = r.expect("fetch should succeed");
    assert!(body.profile.following);
    assert!(!body.profile.followed);
    assert!(body.profile.blocked);
    assert!(!body.profile.blocking);
}

#[test]
fn fetch_profile_unknown_user_is_not_found() {
    let store = two_user_store();
    let r = ProfilesService::fetch_profile(&store, OptionalAuthUser(None), &"nobody".to_string());
    let e = r.expect_err("fetch of a missing user must be rejected");
    assert!(matches!(e, EError::NotFound(_)));
}
