use trapziu_backend::error::EError;
use trapziu_backend::extractor::{bearer_token, AuthUser};
use trapziu_backend::helper::Helper;
use trapziu_backend::model::{
    CreateUserPost, HistoryBody, LoginUserPost, UpdateUserPost, UserBody, ZonedTime,
};
use trapziu_backend::posts::PostService;
use trapziu_backend::store::{PostRecord, Store, UserRecord};
use trapziu_backend::users::UsersService;

const TZ: i32 = 8;
const NOW: i64 = 1_700_000_000;

fn empty_store() -> Store {
    Store {
        users: vec![],
        posts: vec![],
        comments: vec![],
        follows: vec![],
        blocks: vec![],
        likes: vec![],
        next_user_id: 1,
        next_post_id: 1,
        next_comment_id: 1,
    }
}

fn signup(store: &mut Store, name: &str, password: &str) -> i32 {
    let input = UserBody {
        user: CreateUserPost {
            email: format!("{}@example.com", name),
            username: name.to_string(),
            password: password.to_string(),
        },
    };
    UsersService::create_user(store, input, NOW, TZ)
        .expect("signup should succeed")
        .user
        .user_id
}

#[test]
fn value_to_seconds_formulas() {
    assert_eq!(Helper::value_to_seconds(5, "seconds".to_string()), 5);
    assert_eq!(Helper::value_to_seconds(2, "minutes".to_string()), 120);
    assert_eq!(Helper::value_to_seconds(3, "hours".to_string()), 10_800);
    assert_eq!(Helper::value_to_seconds(2, "days".to_string()), 172_800);
    assert_eq!(Helper::value_to_seconds(1, "weeks".to_string()), 604_800);
    assert_eq!(Helper::value_to_seconds(1, "months".to_string()), 2_592_000);
    assert_eq!(Helper::value_to_seconds(2, "years".to_string()), 63_072_000);
}

#[test]
fn parse_post_id_reads_decimals() {
    assert_eq!(Helper::parse_post_id(&b"42".to_vec()).expect("42 parses"), 42);
    assert_eq!(Helper::parse_post_id(&b"0".to_vec()).expect("0 parses"), 0);
    assert_eq!(
        Helper::parse_post_id(&b"2147483647".to_vec()).expect("i32 max parses"),
        2_147_483_647,
    );
}

#[test]
fn parse_post_id_rejects_bad_input() {
    assert!(matches!(Helper::parse_post_id(&b"".to_vec()), Err(EError::BadRequest(_))));
    assert!(matches!(Helper::parse_post_id(&b"12a".to_vec()), Err(EError::BadRequest(_))));
    assert!(matches!(Helper::parse_post_id(&b"-5".to_vec()), Err(EError::BadRequest(_))));
    assert!(matches!(
        Helper::parse_post_id(&b"2147483648".to_vec()),
        Err(EError::BadRequest(_)),
    ));
    assert!(matches!(
        Helper::parse_post_id(&b"99999999999999999999".to_vec()),
        Err(EError::BadRequest(_)),
    ));
}

#[test]
fn bearer_token_strips_scheme() {
    let token = bearer_token(&b"Bearer abc.def".to_vec()).expect("bearer header parses");
    assert_eq!(token, b"abc.def".to_vec());
    let e = bearer_token(&b"Token abc".to_vec()).expect_err("wrong scheme must be rejected");
    assert!(matches!(e, EError::Unauthorized(_)));
    let e2 = bearer_token(&b"Bear".to_vec()).expect_err("short header must be rejected");
    assert!(matches!(e2, EError::Unauthorized(_)));
}

#[test]
fn claims_validation() {
    let u = AuthUser::from_claims(7, NOW + 100, true, NOW).expect("valid claims pass");
    assert_eq!(u.user_id, 7);
    let expired = AuthUser::from_claims(7, NOW - 1, true, NOW);
    assert!(matches!(expired, Err(EError::Unauthorized(_))));
    let wrong_alg = AuthUser::from_claims(7, NOW + 100, false, NOW);
    assert!(matches!(wrong_alg, Err(EError::Unauthorized(_))));
}

#[test]
fn signup_then_login_round_trip() {
    let mut store = empty_store();
    let id = signup(&mut store, "alice", "s3cret-pass");
    assert_eq!(id, 1);
    // the stored hash is a real PHC string, not the password itself
    assert_ne!(store.users[0].password_hash, "s3cret-pass");
    let ok = UsersService::login_user(
        &store,
        UserBody {
            user: LoginUserPost {
                email: "alice@example.com".to_string(),
                password: "s3cret-pass".to_string(),
            },
        },
        TZ,
    )
    .expect("login with the right password should succeed");
    assert_eq!(ok.user.user_id, 1);
    assert_eq!(ok.user.username, "alice");
    assert_eq!(ok.user.token, None);
    let wrong = UsersService::login_user(
        &store,
        UserBody {
            user: LoginUserPost {
                email: "alice@example.com".to_string(),
                password: "wrong-pass".to_string(),
            },
        },
        TZ,
    );
    assert!(matches!(wrong, Err(EError::Unauthorized(_))));
    let unknown = UsersService::login_user(
        &store,
        UserBody {
            user: LoginUserPost {
                email: "nobody@example.com".to_string(),
                password: "s3cret-pass".to_string(),
            },
        },
        TZ,
    );
    assert!(matches!(unknown, Err(EError::NotFound(_))));
}

#[test]
fn duplicate_email_or_username_is_conflict() {
    let mut store = empty_store();
    signup(&mut store, "alice", "pw-one");
    let dup_email = UsersService::create_user(
        &mut store,
        UserBody {
            user: CreateUserPost {
                email: "alice@example.com".to_string(),
                username: "alice2".to_string(),
                password: "pw-two".to_string(),
            },
        },
        NOW,
        TZ,
    );
    assert!(matches!(dup_email, Err(EError::Conflict(_))));
    let dup_name = UsersService::create_user(
        &mut store,
        UserBody {
            user: CreateUserPost {
                email: "other@example.com".to_string(),
                username: "alice".to_string(),
                password: "pw-two".to_string(),
            },
        },
        NOW,
        TZ,
    );
    assert!(matches!(dup_name, Err(EError::Conflict(_))));
    assert_eq!(store.users.len(), 1);
}

#[test]
fn fetch_user_returns_account_or_not_found() {
    let mut store = empty_store();
    signup(&mut store, "alice", "pw");
    let body = UsersService::fetch_user(&store, AuthUser { user_id: 1 }, TZ)
        .expect("fetch should succeed");
    assert_eq!(body.user.email, "alice@example.com");
    assert_eq!(body.user.created_at, ZonedTime { utc_seconds: NOW, offset_seconds: 3600 * 8 });
    let missing = UsersService::fetch_user(&store, AuthUser { user_id: 9 }, TZ);
    assert!(matches!(missing, Err(EError::NotFound(_))));
}

#[test]
fn update_user_merges_fields_and_rehashes_password() {
    let mut store = empty_store();
    signup(&mut store, "alice", "old-pw");
    let body = UsersService::update_user(
        &mut store,
        AuthUser { user_id: 1 },
        UserBody {
            user: UpdateUserPost {
                email: None,
                intro: Some("hello".to_string()),
                avatar: None,
                username: Some("alicia".to_string()),
                password: Some("new-pw".to_string()),
            },
        },
        TZ,
    )
    .expect("update should succeed");
    assert_eq!(body.user.username, "alicia");
    assert_eq!(body.user.intro, Some("hello".to_string()));
    assert_eq!(body.user.email, "alice@example.com");
    let relogin = UsersService::login_user(
        &store,
        UserBody {
            user: LoginUserPost {
                email: "alice@example.com".to_string(),
                password: "new-pw".to_string(),
            },
        },
        TZ,
    );
    assert!(relogin.is_ok());
    let old_pw = UsersService::login_user(
        &store,
        UserBody {
            user: LoginUserPost {
                email: "alice@example.com".to_string(),
                password: "old-pw".to_string(),
            },
        },
        TZ,
    );
    assert!(matches!(old_pw, Err(EError::Unauthorized(_))));
}

#[test]
fn update_user_email_conflict() {
    let mut store = empty_store();
    signup(&mut store, "alice", "pw");
    signup(&mut store, "bob", "pw");
    let r = UsersService::update_user(
        &mut store,
        AuthUser { user_id: 2 },
        UserBody {
            user: UpdateUserPost {
                email: Some("alice@example.com".to_string()),
                intro: None,
                avatar: None,
                username: None,
                password: None,
            },
        },
        TZ,
    );
    assert!(matches!(r, Err(EError::Conflict(_))));
    assert_eq!(store.users[1].email, "bob@example.com");
}

fn post(id: i32, author: i32, like_count: i32) -> PostRecord {
    PostRecord {
        post_id: id,
        author_id: author,
        title: format!("t{}", id),
        description: "d".to_string(),
        content: "c".to_string(),
        created_at: NOW + id as i64,
        like_count,
    }
}

#[test]
fn delete_user_cascades_and_adjusts_counters() {
    let mut store = empty_store();
    store.users.push(UserRecord {
        user_id: 1,
        username: "alice".to_string(),
        email: "alice@example.com".to_string(),
        intro: None,
        avatar: None,
        created_at: NOW,
        password_hash: "h1".to_string(),
    });
    store.users.push(UserRecord {
        user_id: 2,
        username: "bob".to_string(),
        email: "bob@example.com".to_string(),
        intro: None,
        avatar: None,
        created_at: NOW,
        password_hash: "h2".to_string(),
    });
    store.next_user_id = 3;
    store.posts.push(post(1, 1, 1));
    store.posts.push(post(2, 2, 1));
    store.next_post_id = 3;
    store.likes.push((2, 1));
    store.likes.push((1, 2));
    store.follows.push((1, 2));
    store.follows.push((2, 1));
    store.blocks.push((2, 1));
    let msg = UsersService::delete_user(&mut store, AuthUser { user_id: 1 })
        .expect("delete should succeed");
    assert_eq!(msg, "User deleted");
    // the account is gone, and so is its post with the like on it
    assert_eq!(store.users.len(), 1);
    assert_eq!(store.users[0].user_id, 2);
    assert_eq!(store.posts.len(), 1);
    assert_eq!(store.posts[0].post_id, 2);
    // bob's post lost alice's like, and its counter followed
    assert_eq!(store.posts[0].like_count, 0);
    assert!(store.likes.is_empty());
    assert!(store.follows.is_empty());
    assert!(store.blocks.is_empty());
    let missing = UsersService::delete_user(&mut store, AuthUser { user_id: 1 });
    assert!(matches!(missing, Err(EError::NotFound(_))));
}

#[test]
fn history_times_are_normalized_to_offset() {
    let body: HistoryBody<i32> = HistoryBody {
        posts: vec![10, 11],
        time_vec: vec![
            ZonedTime { utc_seconds: NOW, offset_seconds: 0 },
            ZonedTime { utc_seconds: NOW + 60, offset_seconds: 0 },
        ],
        post_count: 2,
    };
    let shifted = body.with_timezone_offset(TZ);
    assert_eq!(shifted.posts, vec![10, 11]);
    assert_eq!(shifted.post_count, 2);
    assert_eq!(shifted.time_vec[0], ZonedTime { utc_seconds: NOW, offset_seconds: 28_800 });
    assert_eq!(shifted.time_vec[1], ZonedTime { utc_seconds: NOW + 60, offset_seconds: 28_800 });
}

#[test]
fn error_status_codes_and_messages() {
    assert_eq!(EError::Unauthorized("a".to_string()).status_code(), 401);
    assert_eq!(EError::Forbidden("b".to_string()).status_code(), 403);
    assert_eq!(EError::NotFound("c".to_string()).status_code(), 404);
    assert_eq!(EError::InternalServerError("d".to_string()).status_code(), 500);
    assert_eq!(EError::BadRequest("e".to_string()).status_code(), 400);
    assert_eq!(EError::Conflict("f".to_string()).status_code(), 409);
    assert_eq!(EError::NotFound("Post not found".to_string()).message(), "Post not found");
}

#[test]
fn signed_up_user_can_interact_with_posts() {
    let mut store = empty_store();
    let a = signup(&mut store, "alice", "pw-a");
    let b = signup(&mut store, "bob", "pw-b");
    let created = PostService::create_post(
        &mut store,
        AuthUser { user_id: b },
        trapziu_backend::model::PostContent {
            post: trapziu_backend::model::CreatePostPost {
                title: "from bob".to_string(),
                description: "d".to_string(),
                content: "c".to_string(),
            },
        },
        NOW + 5,
        TZ,
    )
    .expect("create should succeed");
    let liked = PostService::like_post(&mut store, AuthUser { user_id: a }, created.post.post_id, TZ)
        .expect("like should succeed");
    assert_eq!(liked.post.liked_count, 1);
}
