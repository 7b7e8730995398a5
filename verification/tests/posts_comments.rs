use trapziu_backend::error::EError;
use trapziu_backend::extractor::{AuthUser, OptionalAuthUser};
use trapziu_backend::model::{
    CommentContent, CommentCreateInput, CreatePostPost, ListPostQuery, PostContent,
    UpdatePostPost,
};
use trapziu_backend::helper::Helper;
use trapziu_backend::posts::PostService;
use trapziu_backend::store::{CommentRecord, PostRecord, Store, UserRecord};

const TZ: i32 = 8;

fn user(id: i32, name: &str) -> UserRecord {
    UserRecord {
        user_id: id,
        username: name.to_string(),
        email: format!("{}@example.com", name),
        intro: None,
        avatar: None,
        created_at: 1_700_000_000,
        password_hash: "unused".to_string(),
    }
}

fn post(id: i32, author: i32, title: &str, like_count: i32) -> PostRecord {
    PostRecord {
        post_id: id,
        author_id: author,
        title: title.to_string(),
        description: format!("about {}", title),
        content: format!("body of {}", title),
        created_at: 1_700_000_000 + id as i64,
        like_count,
    }
}

fn base_store() -> Store {
    Store {
        users: vec![user(1, "alice"), user(2, "bob"), user(3, "carol")],
        posts: vec![post(1, 2, "first", 0)],
        comments: vec![],
        follows: vec![],
        blocks: vec![],
        likes: vec![],
        next_user_id: 4,
        next_post_id: 2,
        next_comment_id: 1,
    }
}

#[test]
fn like_then_unlike_restores_count() {
    let mut store = base_store();
    let liked = PostService::like_post(&mut store, AuthUser { user_id: 1 }, 1, TZ)
        .expect("like should succeed");
    assert_eq!(liked.post.liked_count, 1);
    assert!(liked.post.liked);
    assert_eq!(store.posts[0].like_count, 1);
    let unliked = PostService::unlike_post(&mut store, AuthUser { user_id: 1 }, 1, TZ)
        .expect("unlike should succeed");
    assert_eq!(unliked.post.liked_count, 0);
    assert!(!unliked.post.liked);
    assert_eq!(store.posts[0].like_count, 0);
    assert!(store.likes.is_empty());
}

#[test]
fn duplicate_like_is_conflict_and_counts_once() {
    let mut store = base_store();
    PostService::like_post(&mut store, AuthUser { user_id: 1 }, 1, TZ)
        .expect("first like should succeed");
    let r = PostService::like_post(&mut store, AuthUser { user_id: 1 }, 1, TZ);
    let e = r.expect_err("second like must be rejected");
    assert!(matches!(e, EError::Conflict(_)));
    assert_eq!(e.status_code(), 409);
    assert_eq!(store.posts[0].like_count, 1);
    assert_eq!(store.likes, vec![(1, 1)]);
}

#[test]
fn like_when_blocked_by_author_is_forbidden() {
    let mut store = base_store();
    store.blocks.push((2, 1));
    let r = PostService::like_post(&mut store, AuthUser { user_id: 1 }, 1, TZ);
    let e = r.expect_err("like under a block must be rejected");
    assert!(matches!(e, EError::Forbidden(_)));
    assert_eq!(store.posts[0].like_count, 0);
}

#[test]
fn unlike_without_like_is_bad_request() {
    let mut store = base_store();
    let r = PostService::unlike_post(&mut store, AuthUser { user_id: 1 }, 1, TZ);
    let e = r.expect_err("unlike without a like must be rejected");
    assert!(matches!(e, EError::BadRequest(_)));
}

#[test]
fn like_missing_post_is_not_found() {
    let mut store = base_store();
    let r = PostService::like_post(&mut store, AuthUser { user_id: 1 }, 99, TZ);
    let e = r.expect_err("like of a missing post must be rejected");
    assert!(matches!(e, EError::NotFound(_)));
}

#[test]
fn fetch_post_anonymous_has_neutral_flags() {
    let mut store = base_store();
    store.likes.push((1, 1));
    store.posts[0].like_count = 1;
    store.follows.push((1, 2));
    store.blocks.push((2, 1));
    let r = PostService::fetch_post(&store, OptionalAuthUser(None), 1, TZ);
    let c = r.expect("fetch should succeed");
    assert!(!c.post.liked);
    assert!(!c.post.author.followed);
    assert!(!c.post.author.following);
    assert!(!c.post.author.blocked);
    assert!(!c.post.author.blocking);
    assert_eq!(c.post.liked_count, 1);
    assert_eq!(c.post.created_at.offset_seconds, 3600 * TZ as i64);
}

#[test]
fn fetch_post_viewer_sees_relationship_flags() {
    let mut store = base_store();
    store.likes.push((1, 1));
    store.posts[0].like_count = 1;
    store.follows.push((1, 2));
    store.follows.push((2, 1));
    let r = PostService::fetch_post(&store, OptionalAuthUser(Some(AuthUser { user_id: 1 })), 1, TZ);
    let c = r.expect("fetch should succeed");
    assert!(c.post.liked);
    assert!(c.post.author.followed);
    assert!(c.post.author.following);
    assert!(!c.post.author.blocked);
    assert!(!c.post.author.blocking);
    assert_eq!(c.post.author.username, "bob");
}

#[test]
fn create_post_assigns_next_id() {
    let mut store = base_store();
    let input = PostContent {
        post: CreatePostPost {
            title: "hello".to_string(),
            description: "desc".to_string(),
            content: "text".to_string(),
        },
    };
    let r = PostService::create_post(&mut store, AuthUser { user_id: 1 }, input, 1_700_000_100, TZ)
        .expect("create should succeed");
    assert_eq!(r.post.post_id, 2);
    assert_eq!(r.post.title, "hello");
    assert_eq!(r.post.liked_count, 0);
    assert_eq!(r.post.author.user_id, 1);
    assert_eq!(store.posts.len(), 2);
    assert_eq!(store.next_post_id, 3);
}

#[test]
fn update_post_merges_present_fields() {
    let mut store = base_store();
    let input = PostContent {
        post: UpdatePostPost {
            title: Some("renamed".to_string()),
            description: None,
            content: None,
        },
    };
    let r = PostService::update_post(&mut store, AuthUser { user_id: 2 }, 1, input, TZ)
        .expect("update should succeed");
    assert_eq!(r.post.title, "renamed");
    assert_eq!(r.post.description, "about first");
    assert_eq!(store.posts[0].title, "renamed");
}

#[test]
fn update_post_by_non_author_is_forbidden() {
    let mut store = base_store();
    let input = PostContent {
        post: UpdatePostPost { title: Some("hijack".to_string()), description: None, content: None },
    };
    let r = PostService::update_post(&mut store, AuthUser { user_id: 1 }, 1, input, TZ);
    let e = r.expect_err("update by a non-author must be rejected");
    assert!(matches!(e, EError::Forbidden(_)));
    assert_eq!(store.posts[0].title, "first");
}

#[test]
fn delete_post_cascades_comments_and_likes() {
    let mut store = base_store();
    store.comments.push(CommentRecord {
        comment_id: 1,
        post_id: 1,
        user_id: 1,
        content: "nice".to_string(),
        created_at: 1_700_000_050,
    });
    store.next_comment_id = 2;
    store.likes.push((1, 1));
    store.posts[0].like_count = 1;
    let msg = PostService::delete_post(&mut store, AuthUser { user_id: 2 }, 1)
        .expect("delete should succeed");
    assert_eq!(msg, "Post deleted");
    assert!(store.posts.is_empty());
    assert!(store.comments.is_empty());
    assert!(store.likes.is_empty());
}

#[test]
fn comment_create_and_list() {
    let mut store = base_store();
    let input = CommentContent { comment: CommentCreateInput { content: "hello there".to_string() } };
    let r = PostService::create_comment(
        &mut store,
        AuthUser { user_id: 1 },
        1,
        input,
        1_700_000_060,
        TZ,
    )
    .expect("comment should succeed");
    assert_eq!(r.comment.comment_id, 1);
    assert_eq!(r.comment.content, "hello there");
    assert_eq!(r.comment.user.user_id, 1);
    let listed = PostService::get_comments(&store, OptionalAuthUser(None), 1, TZ)
        .expect("listing should succeed");
    assert_eq!(listed.comments.len(), 1);
    assert_eq!(listed.comments[0].content, "hello there");
}

#[test]
fn comment_on_post_of_blocking_author_is_forbidden() {
    let mut store = base_store();
    store.blocks.push((2, 1));
    let input = CommentContent { comment: CommentCreateInput { content: "hi".to_string() } };
    let r = PostService::create_comment(
        &mut store,
        AuthUser { user_id: 1 },
        1,
        input,
        1_700_000_060,
        TZ,
    );
    let e = r.expect_err("comment under a block must be rejected");
    assert!(matches!(e, EError::Forbidden(_)));
    assert!(store.comments.is_empty());
}

#[test]
fn comment_delete_by_non_author_is_forbidden_and_comment_stays() {
    let mut store = base_store();
    store.comments.push(CommentRecord {
        comment_id: 1,
        post_id: 1,
        user_id: 1,
        content: "mine".to_string(),
        created_at: 1_700_000_050,
    });
    store.next_comment_id = 2;
    // user C (id 3) tries to delete A's (id 1) comment
    let r = PostService::delete_comment(&mut store, AuthUser { user_id: 3 }, 1);
    let e = r.expect_err("delete by a non-author must be rejected");
    assert!(matches!(e, EError::Forbidden(_)));
    assert_eq!(e.status_code(), 403);
    // the comment remains retrievable afterward
    let listed = PostService::get_comments(&store, OptionalAuthUser(None), 1, TZ)
        .expect("listing should succeed");
    assert_eq!(listed.comments.len(), 1);
    assert_eq!(listed.comments[0].content, "mine");
}

#[test]
fn comment_delete_by_author_removes_it() {
    let mut store = base_store();
    store.comments.push(CommentRecord {
        comment_id: 1,
        post_id: 1,
        user_id: 1,
        content: "mine".to_string(),
        created_at: 1_700_000_050,
    });
    store.next_comment_id = 2;
    let msg = PostService::delete_comment(&mut store, AuthUser { user_id: 1 }, 1)
        .expect("delete should succeed");
    assert_eq!(msg, "Comment deleted");
    assert!(store.comments.is_empty());
}

fn listing_store() -> Store {
    let mut store = Store {
        users: vec![user(1, "alice"), user(2, "bob"), user(3, "carol")],
        posts: vec![
            post(1, 1, "p1", 0),
            post(2, 2, "p2", 0),
            post(3, 1, "p3", 0),
            post(4, 3, "p4", 0),
            post(5, 2, "p5", 0),
        ],
        comments: vec![],
        follows: vec![],
        blocks: vec![],
        likes: vec![],
        next_user_id: 4,
        next_post_id: 6,
        next_comment_id: 1,
    };
    store.likes.push((3, 1));
    store.likes.push((3, 4));
    store.posts[0].like_count = 1;
    store.posts[3].like_count = 1;
    store.follows.push((3, 1));
    store
}

fn query(
    author: Option<&str>,
    liked_by: Option<&str>,
    limit: Option<i64>,
    offset: Option<i64>,
    following: Option<bool>,
) -> ListPostQuery {
    ListPostQuery {
        author: author.map(|s| s.to_string()),
        liked_by: liked_by.map(|s| s.to_string()),
        limit,
        offset,
        following,
    }
}

#[test]
fn fetch_posts_lists_newest_first_with_paging() {
    let store = listing_store();
    let body = PostService::fetch_posts(
        &store,
        OptionalAuthUser(None),
        query(None, None, Some(2), Some(1), None),
        TZ,
    )
    .expect("listing should succeed");
    assert_eq!(body.post_count, 5);
    assert_eq!(body.posts.len(), 2);
    assert_eq!(body.posts[0].post_id, 4);
    assert_eq!(body.posts[1].post_id, 3);
}

#[test]
fn fetch_posts_default_limit_covers_all() {
    let store = listing_store();
    let body = PostService::fetch_posts(
        &store,
        OptionalAuthUser(None),
        query(None, None, None, None, None),
        TZ,
    )
    .expect("listing should succeed");
    assert_eq!(body.post_count, 5);
    assert_eq!(body.posts.len(), 5);
    assert_eq!(body.posts[0].post_id, 5);
    assert_eq!(body.posts[4].post_id, 1);
}

#[test]
fn fetch_posts_filters_by_author() {
    let store = listing_store();
    let body = PostService::fetch_posts(
        &store,
        OptionalAuthUser(None),
        query(Some("bob"), None, None, None, None),
        TZ,
    )
    .expect("listing should succeed");
    assert_eq!(body.post_count, 2);
    assert_eq!(body.posts[0].post_id, 5);
    assert_eq!(body.posts[1].post_id, 2);
}

#[test]
fn fetch_posts_unknown_author_matches_nothing() {
    let store = listing_store();
    let body = PostService::fetch_posts(
        &store,
        OptionalAuthUser(None),
        query(Some("nobody"), None, None, None, None),
        TZ,
    )
    .expect("listing should succeed");
    assert_eq!(body.post_count, 0);
    assert!(body.posts.is_empty());
}

#[test]
fn fetch_posts_filters_by_liked_by() {
    let store = listing_store();
    let body = PostService::fetch_posts(
        &store,
        OptionalAuthUser(None),
        query(None, Some("carol"), None, None, None),
        TZ,
    )
    .expect("listing should succeed");
    assert_eq!(body.post_count, 2);
    assert_eq!(body.posts[0].post_id, 4);
    assert_eq!(body.posts[1].post_id, 1);
}

#[test]
fn fetch_posts_following_filter_needs_login() {
    let store = listing_store();
    let r = PostService::fetch_posts(
        &store,
        OptionalAuthUser(None),
        query(None, None, None, None, Some(true)),
        TZ,
    );
    let e = r.expect_err("anonymous following filter must be rejected");
    assert!(matches!(e, EError::Unauthorized(_)));
    assert_eq!(e.status_code(), 401);
}

#[test]
fn fetch_posts_offset_beyond_matches_is_empty() {
    let store = listing_store();
    let body = PostService::fetch_posts(
        &store,
        OptionalAuthUser(None),
        query(None, None, None, Some(10), None),
        TZ,
    )
    .expect("listing should succeed");
    assert_eq!(body.post_count, 5);
    assert!(body.posts.is_empty());
}

#[test]
fn fetch_posts_zero_and_negative_limits_yield_nothing() {
    let store = listing_store();
    let zero = PostService::fetch_posts(
        &store,
        OptionalAuthUser(None),
        query(None, None, Some(0), None, None),
        TZ,
    )
    .expect("listing should succeed");
    assert!(zero.posts.is_empty());
    let negative = PostService::fetch_posts(
        &store,
        OptionalAuthUser(None),
        query(None, None, Some(-3), Some(-7), None),
        TZ,
    )
    .expect("listing should succeed");
    assert!(negative.posts.is_empty());
    assert_eq!(negative.post_count, 5);
}

#[test]
fn fetch_posts_combines_author_and_liked_by() {
    let store = listing_store();
    let body = PostService::fetch_posts(
        &store,
        OptionalAuthUser(None),
        query(Some("alice"), Some("carol"), None, None, None),
        TZ,
    )
    .expect("listing should succeed");
    // carol liked posts 1 and 4; alice authored 1 and 3; only post 1 matches both
    assert_eq!(body.post_count, 1);
    assert_eq!(body.posts[0].post_id, 1);
}

#[test]
fn push_post_appends_projected_post() {
    let store = listing_store();
    let mut posts: Vec<trapziu_backend::model::Post> = Vec::new();
    let rec = store.posts[0].duplicate();
    Helper::push_post(&store, &mut posts, &rec, 3, TZ);
    assert_eq!(posts.len(), 1);
    assert_eq!(posts[0].post_id, 1);
    // user 3 liked post 1 and follows its author, user 1
    assert!(posts[0].liked);
    assert!(posts[0].author.following);
    assert!(!posts[0].author.followed);
}

#[test]
fn fetch_posts_following_filter_selects_followed_authors() {
    let store = listing_store();
    let body = PostService::fetch_posts(
        &store,
        OptionalAuthUser(Some(AuthUser { user_id: 3 })),
        query(None, None, None, None, Some(true)),
        TZ,
    )
    .expect("listing should succeed");
    // user 3 follows only user 1, whose posts are 1 and 3
    assert_eq!(body.post_count, 2);
    assert_eq!(body.posts[0].post_id, 3);
    assert_eq!(body.posts[1].post_id, 1);
}
