use vstd::prelude::*;

use crate::error::{sp_err, EError};
use crate::extractor::AuthUser;
use crate::helper::Helper;
use crate::model::{CreateUserPost, LoginUserPost, UpdateUserPost, User, UserBody};
use crate::store::{
    contains_pair, lemma_contains_count, lemma_wf_create_user, lemma_wf_delete_user,
    lemma_wf_update_user, post_author_is, remove_edges_touching, sp_comments_after_user_delete,
    sp_likes_after_user_delete, sp_posts_after_user_delete, sp_posts_of_others,
    sp_remove_edges_touching, sp_same_blocks, sp_same_comments, sp_same_follows, sp_same_likes,
    sp_same_posts, CommentRecord, PostRecord, Store, UserRecord,
};

verus! {

/// Whether argon2 verification of `password` against the PHC string `phc`
/// succeeds. Verification recomputes the hash from the salt and parameters
/// embedded in the string, so the outcome is a function of the two
/// arguments alone.
pub uninterp spec fn password_verifies(password: Seq<char>, phc: Seq<char>) -> bool;

/// Relies on argon2's `PasswordHasher::hash_password` with a fresh OsRng
/// salt. The returned PHC string embeds the salt and parameters it was
/// produced with, and `PasswordVerifier::verify_password` recomputes the
/// hash from exactly those, so whatever salt was drawn, the hashed
/// password verifies against the returned string.
#[verifier::external_body]
fn hash_password(password: &str) -> (r: Result<String, ()>)
    ensures
        r matches Ok(h) ==> password_verifies(password@, h@),
{
    let salt = argon2::password_hash::SaltString::generate(&mut rand::rngs::OsRng);
    let hasher = argon2::Argon2::default();
    match argon2::PasswordHasher::hash_password(&hasher, password.as_bytes(), &salt) {
        Ok(h) => Ok(h.to_string()),
        Err(_) => Err(()),
    }
}

/// Relies on argon2's `PasswordVerifier::verify_password`: it parses the
/// PHC string, recomputes the hash of the password under the embedded salt
/// and parameters, and compares. A string that does not parse verifies
/// nothing.
#[verifier::external_body]
fn verify_password(password: &str, phc: &str) -> (r: bool)
    ensures
        r == password_verifies(password@, phc@),
{
    match argon2::password_hash::PasswordHash::new(phc) {
        Ok(parsed) => argon2::PasswordVerifier::verify_password(
            &argon2::Argon2::default(),
            password.as_bytes(),
            &parsed,
        ).is_ok(),
        Err(_) => false,
    }
}

/// The requested email is already held by a different user.
pub open spec fn sp_email_conflict(s: Store, a: i32, input: UpdateUserPost) -> bool {
    input.email matches Some(e) && s.sp_has_email(e@) && s.sp_user_by_email(e@).user_id != a
}

/// The requested username is already held by a different user.
pub open spec fn sp_username_conflict(s: Store, a: i32, input: UpdateUserPost) -> bool {
    input.username matches Some(n) && s.sp_has_username(n@) && s.sp_user_by_name(n@).user_id != a
}

/// Handlers for account reads and mutations. The token field of the
/// returned DTOs is left empty: token issuance belongs to the
/// authenticator at the transport boundary.
pub struct UsersService;

impl UsersService {
    /// Fetches the authenticated user's own account.
    pub fn fetch_user(store: &Store, auth_user: AuthUser, tz_hours: i32) -> (r: Result<
        UserBody<User>,
        EError,
    >)
        requires
            store.wf(),
        ensures
            r is Ok <==> store.sp_has_user_id(auth_user.user_id),
            r is Err ==> sp_err(r) is NotFound,
            r matches Ok(body) ==> body.user == User::sp_from_record(
                store.sp_user(auth_user.user_id),
                tz_hours,
            ),
    {
        let rec = Helper::get_user_by_id(store, auth_user.user_id)?;
        Ok(UserBody { user: User::from_record(rec, tz_hours) })
    }

    /// Logs a user in: looks the account up by email and verifies the
    /// password against the stored hash. `NotFound` for an unknown email,
    /// `Unauthorized` for a wrong password.
    pub fn login_user(store: &Store, input: UserBody<LoginUserPost>, tz_hours: i32) -> (r: Result<
        UserBody<User>,
        EError,
    >)
        requires
            store.wf(),
        ensures
            r is Ok <==> (store.sp_has_email(input.user.email@) && password_verifies(
                input.user.password@,
                store.sp_user_by_email(input.user.email@).password_hash@,
            )),
            !store.sp_has_email(input.user.email@) ==> r is Err && sp_err(r) is NotFound,
            store.sp_has_email(input.user.email@) && !password_verifies(
                input.user.password@,
                store.sp_user_by_email(input.user.email@).password_hash@,
            ) ==> r is Err && sp_err(r) is Unauthorized,
            r matches Ok(body) ==> body.user == User::sp_from_record(
                store.sp_user_by_email(input.user.email@),
                tz_hours,
            ),
    {
        let k = match store.find_user_index_by_email(&input.user.email) {
            Some(k) => k,
            None => {
                return Err(EError::NotFound(String::from_str("User not found")));
            },
        };
        proof {
            store.lemma_user_at_email(k as int);
        }
        let rec = &store.users[k];
        if !verify_password(input.user.password.as_str(), rec.password_hash.as_str()) {
            return Err(EError::Unauthorized(String::from_str("Invalid password")));
        }
        Ok(UserBody { user: User::from_record(rec, tz_hours) })
    }

    /// Creates an account with the next free id. A taken email or username
    /// is a `Conflict`; a credential-store failure is an internal error;
    /// every rejection leaves the store untouched.
    pub fn create_user(store: &mut Store, input: UserBody<CreateUserPost>, now: i64, tz_hours: i32) -> (r:
        Result<UserBody<User>, EError>)
        requires
            old(store).wf(),
            old(store).next_user_id < i32::MAX,
        ensures
            final (store).wf(),
            r is Err ==> *final (store) == *old(store),
            old(store).sp_has_email(input.user.email@) ==> r is Err && sp_err(r) is Conflict,
            !old(store).sp_has_email(input.user.email@) && old(store).sp_has_username(
                input.user.username@,
            ) ==> r is Err && sp_err(r) is Conflict,
            !old(store).sp_has_email(input.user.email@) && !old(store).sp_has_username(
                input.user.username@,
            ) ==> (r is Ok || sp_err(r) is InternalServerError),
            r is Ok ==> !old(store).sp_has_email(input.user.email@) && !old(
                store,
            ).sp_has_username(input.user.username@),
            r matches Ok(body) ==> ({
                let s0 = *old(store);
                let rec = final (store).users@.last();
                &&& final (store).users@ == s0.users@.push(rec)
                &&& final (store).next_user_id == s0.next_user_id + 1
                &&& rec.user_id == s0.next_user_id
                &&& rec.username == input.user.username
                &&& rec.email == input.user.email
                &&& rec.intro is None
                &&& rec.avatar is None
                &&& rec.created_at == now
                &&& password_verifies(input.user.password@, rec.password_hash@)
                &&& sp_same_posts(s0, *final (store))
                &&& sp_same_comments(s0, *final (store))
                &&& sp_same_follows(s0, *final (store))
                &&& sp_same_blocks(s0, *final (store))
                &&& sp_same_likes(s0, *final (store))
                &&& body.user == User::sp_from_record(rec, tz_hours)
            }),
    {
        let ghost s0 = *store;
        let UserBody { user: CreateUserPost { email, username, password } } = input;
        match store.find_user_index_by_email(&email) {
            Some(_) => {
                return Err(EError::Conflict(String::from_str("Email already in use")));
            },
            None => {},
        }
        match store.find_user_index_by_name(&username) {
            Some(_) => {
                return Err(EError::Conflict(String::from_str("Username already in use")));
            },
            None => {},
        }
        let h = match hash_password(password.as_str()) {
            Ok(h) => h,
            Err(()) => {
                return Err(
                    EError::InternalServerError(String::from_str("failed to hash password")),
                );
            },
        };
        let id = store.next_user_id;
        let rec = UserRecord {
            user_id: id,
            username,
            email,
            intro: None,
            avatar: None,
            created_at: now,
            password_hash: h,
        };
        let dto = User::from_record(&rec, tz_hours);
        store.users.push(rec);
        store.next_user_id = id + 1;
        proof {
            lemma_wf_create_user(s0, *store, store.users@.last());
        }
        Ok(UserBody { user: dto })
    }

    /// Updates the authenticated user's account: present input fields
    /// replace the stored values, absent ones keep them; a present password
    /// is hashed and replaces the stored hash. `NotFound` for a missing
    /// account, `Conflict` when the new email or username is held by a
    /// different user; every rejection leaves the store untouched.
    pub fn update_user(
        store: &mut Store,
        auth_user: AuthUser,
        input: UserBody<UpdateUserPost>,
        tz_hours: i32,
    ) -> (r: Result<UserBody<User>, EError>)
        requires
            old(store).wf(),
        ensures
            final (store).wf(),
            r is Err ==> *final (store) == *old(store),
            !old(store).sp_has_user_id(auth_user.user_id) ==> r is Err && sp_err(r) is NotFound,
            old(store).sp_has_user_id(auth_user.user_id) && sp_email_conflict(
                *old(store),
                auth_user.user_id,
                input.user,
            ) ==> r is Err && sp_err(r) is Conflict,
            old(store).sp_has_user_id(auth_user.user_id) && !sp_email_conflict(
                *old(store),
                auth_user.user_id,
                input.user,
            ) && sp_username_conflict(*old(store), auth_user.user_id, input.user) ==> r is Err
                && sp_err(r) is Conflict,
            old(store).sp_has_user_id(auth_user.user_id) && !sp_email_conflict(
                *old(store),
                auth_user.user_id,
                input.user,
            ) && !sp_username_conflict(*old(store), auth_user.user_id, input.user) ==> (r is Ok
                || sp_err(r) is InternalServerError),
            old(store).sp_has_user_id(auth_user.user_id) && !sp_email_conflict(
                *old(store),
                auth_user.user_id,
                input.user,
            ) && !sp_username_conflict(*old(store), auth_user.user_id, input.user)
                && input.user.password is None ==> r is Ok,
            r matches Ok(body) ==> ({
                let s0 = *old(store);
                let a = auth_user.user_id;
                let k = s0.sp_user_index(a);
                let rec0 = s0.sp_user(a);
                let rec1 = final (store).users@[k];
                &&& s0.sp_has_user_id(a)
                &&& final (store).users@ == s0.users@.update(k, rec1)
                &&& final (store).next_user_id == s0.next_user_id
                &&& rec1.user_id == a
                &&& rec1.created_at == rec0.created_at
                &&& rec1.email == (match input.user.email {
                    Some(e) => e,
                    None => rec0.email,
                })
                &&& rec1.username == (match input.user.username {
                    Some(n) => n,
                    None => rec0.username,
                })
                &&& rec1.intro == (match input.user.intro {
                    Some(i) => Some(i),
                    None => rec0.intro,
                })
                &&& rec1.avatar == (match input.user.avatar {
                    Some(v) => Some(v),
                    None => rec0.avatar,
                })
                &&& (input.user.password is None ==> rec1.password_hash == rec0.password_hash)
                &&& (input.user.password matches Some(p) ==> password_verifies(
                    p@,
                    rec1.password_hash@,
                ))
                &&& sp_same_posts(s0, *final (store))
                &&& sp_same_comments(s0, *final (store))
                &&& sp_same_follows(s0, *final (store))
                &&& sp_same_blocks(s0, *final (store))
                &&& sp_same_likes(s0, *final (store))
                &&& body.user == User::sp_from_record(rec1, tz_hours)
            }),
    {
        let ghost s0 = *store;
        let a = auth_user.user_id;
        let k = match store.find_user_index(a) {
            Some(k) => k,
            None => {
                return Err(EError::NotFound(String::from_str("User not found")));
            },
        };
        proof {
            store.lemma_user_at(k as int);
        }
        let UserBody { user: UpdateUserPost { email, intro, avatar, username, password } } = input;
        match &email {
            Some(e) => {
                match store.find_user_index_by_email(e) {
                    Some(j) => {
                        proof {
                            store.lemma_user_at_email(j as int);
                        }
                        if store.users[j].user_id != a {
                            return Err(
                                EError::Conflict(String::from_str("Email already in use")),
                            );
                        }
                    },
                    None => {},
                }
            },
            None => {},
        }
        match &username {
            Some(n) => {
                match store.find_user_index_by_name(n) {
                    Some(j) => {
                        proof {
                            store.lemma_user_at_name(j as int);
                        }
                        if store.users[j].user_id != a {
                            return Err(
                                EError::Conflict(String::from_str("Username already in use")),
                            );
                        }
                    },
                    None => {},
                }
            },
            None => {},
        }
        let new_hash: Option<String> = match &password {
            Some(p) => match hash_password(p.as_str()) {
                Ok(h) => Some(h),
                Err(()) => {
                    return Err(
                        EError::InternalServerError(String::from_str("failed to hash password")),
                    );
                },
            },
            None => None,
        };
        let rec0 = &store.users[k];
        let rec1 = UserRecord {
            user_id: rec0.user_id,
            username: match username {
                Some(n) => n,
                None => rec0.username.clone(),
            },
            email: match email {
                Some(e) => e,
                None => rec0.email.clone(),
            },
            intro: match intro {
                Some(i) => Some(i),
                None => match &rec0.intro {
                    Some(s) => Some(s.clone()),
                    None => None,
                },
            },
            avatar: match avatar {
                Some(v) => Some(v),
                None => match &rec0.avatar {
                    Some(s) => Some(s.clone()),
                    None => None,
                },
            },
            created_at: rec0.created_at,
            password_hash: match new_hash {
                Some(h) => h,
                None => rec0.password_hash.clone(),
            },
        };
        let dto = User::from_record(&rec1, tz_hours);
        store.users[k] = rec1;
        proof {
            lemma_wf_update_user(s0, *store, k as int, store.users@[k as int]);
        }
        Ok(UserBody { user: dto })
    }

    /// Deletes the authenticated user's account together with everything
    /// that hangs off it: their posts (with the comments and likes sitting
    /// on them), their comments, their likes (decrementing the counters of
    /// the liked posts), and every follow and block edge touching them.
    /// `NotFound` when the account does not exist, and then nothing
    /// changes.
    pub fn delete_user(store: &mut Store, auth_user: AuthUser) -> (r: Result<String, EError>)
        requires
            old(store).wf(),
        ensures
            final (store).wf(),
            r is Ok <==> old(store).sp_has_user_id(auth_user.user_id),
            r is Err ==> sp_err(r) is NotFound && *final (store) == *old(store),
            r matches Ok(msg) ==> ({
                let s0 = *old(store);
                let a = auth_user.user_id;
                &&& final (store).users@ == s0.users@.remove(s0.sp_user_index(a))
                &&& final (store).posts@ == sp_posts_after_user_delete(s0.posts@, s0.likes@, a)
                &&& final (store).comments@ == sp_comments_after_user_delete(
                    s0.comments@,
                    s0.posts@,
                    a,
                )
                &&& final (store).follows@ == sp_remove_edges_touching(s0.follows@, a)
                &&& final (store).blocks@ == sp_remove_edges_touching(s0.blocks@, a)
                &&& final (store).likes@ == sp_likes_after_user_delete(s0.likes@, s0.posts@, a)
                &&& final (store).next_user_id == s0.next_user_id
                &&& final (store).next_post_id == s0.next_post_id
                &&& final (store).next_comment_id == s0.next_comment_id
                &&& msg@ == "User deleted"@
            }),
    {
        let ghost s0 = *store;
        let a = auth_user.user_id;
        let k = match store.find_user_index(a) {
            Some(k) => k,
            None => {
                return Err(EError::NotFound(String::from_str("User not found")));
            },
        };
        proof {
            store.lemma_user_at(k as int);
        }
        // the remaining posts, counters adjusted for this user's likes
        let mut new_posts: Vec<PostRecord> = Vec::new();
        let mut i: usize = 0;
        while i < store.posts.len()
            invariant
                *store == s0,
                s0.wf(),
                i <= s0.posts@.len(),
                new_posts@ == sp_posts_after_user_delete(
                    s0.posts@.take(i as int),
                    s0.likes@,
                    a,
                ),
            decreases s0.posts@.len() - i,
        {
            proof {
                assert(s0.posts@.take(i + 1 as int).drop_last() =~= s0.posts@.take(i as int));
                assert(s0.posts@.take(i + 1 as int).last() == s0.posts@[i as int]);
            }
            let p = &store.posts[i];
            if p.author_id != a {
                let liked = contains_pair(&store.likes, a, p.post_id);
                proof {
                    if liked {
                        lemma_contains_count(s0.likes@, a, p.post_id);
                    }
                }
                let adj: i32 = if liked {
                    1
                } else {
                    0
                };
                let rec = PostRecord {
                    post_id: p.post_id,
                    author_id: p.author_id,
                    title: p.title.clone(),
                    description: p.description.clone(),
                    content: p.content.clone(),
                    created_at: p.created_at,
                    like_count: p.like_count - adj,
                };
                new_posts.push(rec);
                proof {
                    assert(sp_posts_of_others(s0.posts@.take(i + 1 as int), a)
                        == sp_posts_of_others(s0.posts@.take(i as int), a).push(
                        s0.posts@[i as int],
                    ));
                    assert(sp_posts_after_user_delete(
                        s0.posts@.take(i + 1 as int),
                        s0.likes@,
                        a,
                    ) =~= new_posts@);
                }
            } else {
                proof {
                    assert(sp_posts_of_others(s0.posts@.take(i + 1 as int), a)
                        == sp_posts_of_others(s0.posts@.take(i as int), a));
                    assert(sp_posts_after_user_delete(
                        s0.posts@.take(i + 1 as int),
                        s0.likes@,
                        a,
                    ) =~= new_posts@);
                }
            }
            i += 1;
        }
        proof {
            assert(s0.posts@.take(s0.posts@.len() as int) =~= s0.posts@);
        }
        // the remaining comments
        let mut new_comments: Vec<CommentRecord> = Vec::new();
        let mut j: usize = 0;
        while j < store.comments.len()
            invariant
                *store == s0,
                j <= s0.comments@.len(),
                new_comments@ == sp_comments_after_user_delete(
                    s0.comments@.take(j as int),
                    s0.posts@,
                    a,
                ),
            decreases s0.comments@.len() - j,
        {
            proof {
                assert(s0.comments@.take(j + 1 as int).drop_last() =~= s0.comments@.take(
                    j as int,
                ));
                assert(s0.comments@.take(j + 1 as int).last() == s0.comments@[j as int]);
            }
            let by_user = store.comments[j].user_id == a;
            let on_own_post = post_author_is(&store.posts, store.comments[j].post_id, a);
            if !(by_user || on_own_post) {
                let rec = store.comments[j].duplicate();
                new_comments.push(rec);
            }
            j += 1;
        }
        proof {
            assert(s0.comments@.take(s0.comments@.len() as int) =~= s0.comments@);
        }
        // the remaining likes
        let mut new_likes: Vec<(i32, i32)> = Vec::new();
        let mut t: usize = 0;
        while t < store.likes.len()
            invariant
                *store == s0,
                t <= s0.likes@.len(),
                new_likes@ == sp_likes_after_user_delete(
                    s0.likes@.take(t as int),
                    s0.posts@,
                    a,
                ),
            decreases s0.likes@.len() - t,
        {
            proof {
                assert(s0.likes@.take(t + 1 as int).drop_last() =~= s0.likes@.take(t as int));
                assert(s0.likes@.take(t + 1 as int).last() == s0.likes@[t as int]);
            }
            let e = store.likes[t];
            let on_own_post = post_author_is(&store.posts, e.1, a);
            if !(e.0 == a || on_own_post) {
                new_likes.push(e);
            }
            t += 1;
        }
        proof {
            assert(s0.likes@.take(s0.likes@.len() as int) =~= s0.likes@);
        }
        store.users.remove(k);
        store.posts = new_posts;
        store.comments = new_comments;
        store.likes = new_likes;
        remove_edges_touching(&mut store.follows, a);
        remove_edges_touching(&mut store.blocks, a);
        proof {
            lemma_wf_delete_user(s0, *store, k as int);
        }
        Ok(String::from_str("User deleted"))
    }
}

} // verus!
