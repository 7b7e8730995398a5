use vstd::prelude::*;

use crate::checker::Checker;
use crate::error::{sp_err, EError};
use crate::extractor::{sp_viewer, AuthUser, OptionalAuthUser};
use crate::helper::Helper;
use crate::model::{
    project_comment, project_post, sp_project_comment, sp_project_post, Comment,
    CommentContent, CommentCreateInput, CommentsContent, CreatePostPost, ListPostQuery, Post,
    PostContent, PostsBody, UpdatePostPost,
};
use crate::store::{
    lemma_wf_create_comment, lemma_wf_create_post, lemma_wf_delete_comment, lemma_wf_delete_post,
    lemma_wf_like, lemma_wf_unlike, lemma_wf_update_post, remove_comments_of_post,
    remove_likes_of_post, remove_pair, sp_remove_comments_of_post, sp_remove_likes_of_post,
    sp_remove_pair, sp_same_blocks, sp_same_comments, sp_same_follows, sp_same_likes,
    sp_same_posts, sp_same_users, sp_with_like_count, CommentRecord, PostRecord, Store,
};

verus! {

/// The stored post with its text fields replaced by the present fields of
/// the update; id, author, creation instant and like count are untouched.
pub open spec fn sp_apply_post_update(rec: PostRecord, u: UpdatePostPost) -> PostRecord {
    PostRecord {
        post_id: rec.post_id,
        author_id: rec.author_id,
        title: match u.title {
            Some(t) => t,
            None => rec.title,
        },
        description: match u.description {
            Some(d) => d,
            None => rec.description,
        },
        content: match u.content {
            Some(c) => c,
            None => rec.content,
        },
        created_at: rec.created_at,
        like_count: rec.like_count,
    }
}

/// The post record created by `Post-create`: the next free id, the acting
/// user as author, a zero like count.
pub open spec fn sp_new_post(id: i32, author_id: i32, input: CreatePostPost, now: i64) -> PostRecord {
    PostRecord {
        post_id: id,
        author_id,
        title: input.title,
        description: input.description,
        content: input.content,
        created_at: now,
        like_count: 0,
    }
}

/// The mutation guard's preconditions for `Like(u, p)`: the acting user and
/// the post exist, the post's author does not block the user, and no like
/// edge exists yet.
pub open spec fn sp_can_like(s: Store, u: i32, pid: i32) -> bool {
    &&& s.sp_has_user_id(u)
    &&& s.sp_has_post(pid)
    &&& !s.sp_blocked(s.sp_post(pid).author_id, u)
    &&& !s.sp_liked(u, pid)
}

/// The mutation guard's preconditions for `Unlike(u, p)`.
pub open spec fn sp_can_unlike(s: Store, u: i32, pid: i32) -> bool {
    &&& s.sp_has_user_id(u)
    &&& s.sp_has_post(pid)
    &&& !s.sp_blocked(s.sp_post(pid).author_id, u)
    &&& s.sp_liked(u, pid)
}

/// Handlers for post reads and for the post / like mutations.
pub struct PostService;

impl PostService {
    /// Fetches the post with id `post_id`, projected for the (optionally
    /// authenticated) viewer.
    pub fn fetch_post(store: &Store, auth_user: OptionalAuthUser, post_id: i32, tz_hours: i32) -> (r:
        Result<PostContent<Post>, EError>)
        requires
            store.wf(),
        ensures
            r is Ok <==> store.sp_has_post(post_id),
            r is Err ==> sp_err(r) is NotFound,
            r matches Ok(c) ==> c.post == sp_project_post(
                *store,
                store.sp_post(post_id),
                sp_viewer(auth_user),
                tz_hours,
            ),
    {
        let post = Helper::fetch_post(store, post_id)?;
        let viewer: Option<i32> = match auth_user.0 {
            Some(u) => Some(u.user_id),
            None => None,
        };
        Ok(PostContent { post: project_post(store, post, viewer, tz_hours) })
    }

    /// Creates a post owned by the acting user, with the next free id and a
    /// zero like count; `NotFound` when the acting user does not exist, and
    /// then nothing changes.
    pub fn create_post(
        store: &mut Store,
        auth_user: AuthUser,
        input: PostContent<CreatePostPost>,
        now: i64,
        tz_hours: i32,
    ) -> (r: Result<PostContent<Post>, EError>)
        requires
            old(store).wf(),
            old(store).next_post_id < i32::MAX,
        ensures
            final (store).wf(),
            r is Ok <==> old(store).sp_has_user_id(auth_user.user_id),
            r is Err ==> sp_err(r) is NotFound && *final (store) == *old(store),
            r matches Ok(c) ==> ({
                let s0 = *old(store);
                let a = auth_user.user_id;
                let rec = sp_new_post(s0.next_post_id, a, input.post, now);
                &&& final (store).posts@ == s0.posts@.push(rec)
                &&& final (store).next_post_id == s0.next_post_id + 1
                &&& sp_same_users(s0, *final (store))
                &&& sp_same_comments(s0, *final (store))
                &&& sp_same_follows(s0, *final (store))
                &&& sp_same_blocks(s0, *final (store))
                &&& sp_same_likes(s0, *final (store))
                &&& c.post == rec.sp_to_post(s0.sp_user(a), tz_hours, false, false, false, false, false)
            }),
    {
        let ghost s0 = *store;
        let a = auth_user.user_id;
        let id = store.next_post_id;
        let PostContent { post: CreatePostPost { title, description, content } } = input;
        let rec = PostRecord {
            post_id: id,
            author_id: a,
            title,
            description,
            content,
            created_at: now,
            like_count: 0,
        };
        let author = Helper::get_user_by_id(store, a)?;
        let dto = rec.to_post(author, tz_hours, false, false, false, false, false);
        store.posts.push(rec);
        store.next_post_id = id + 1;
        proof {
            lemma_wf_create_post(s0, *store, sp_new_post(s0.next_post_id, a, input.post, now));
        }
        Ok(PostContent { post: dto })
    }

    /// Updates the post with id `post_id`: present input fields replace the
    /// stored text, absent ones keep it. `NotFound` when the post does not
    /// exist, `Forbidden` when the acting user is not its author; every
    /// rejection leaves the store untouched.
    pub fn update_post(
        store: &mut Store,
        auth_user: AuthUser,
        post_id: i32,
        input: PostContent<UpdatePostPost>,
        tz_hours: i32,
    ) -> (r: Result<PostContent<Post>, EError>)
        requires
            old(store).wf(),
        ensures
            final (store).wf(),
            r is Ok <==> old(store).sp_has_post(post_id) && old(store).sp_post(post_id).author_id
                == auth_user.user_id,
            r is Err ==> *final (store) == *old(store),
            !old(store).sp_has_post(post_id) ==> r is Err && sp_err(r) is NotFound,
            old(store).sp_has_post(post_id) && old(store).sp_post(post_id).author_id
                != auth_user.user_id ==> r is Err && sp_err(r) is Forbidden,
            r matches Ok(c) ==> ({
                let s0 = *old(store);
                let rec1 = sp_apply_post_update(s0.sp_post(post_id), input.post);
                &&& final (store).posts@ == s0.posts@.update(s0.sp_post_index(post_id), rec1)
                &&& final (store).next_post_id == s0.next_post_id
                &&& sp_same_users(s0, *final (store))
                &&& sp_same_comments(s0, *final (store))
                &&& sp_same_follows(s0, *final (store))
                &&& sp_same_blocks(s0, *final (store))
                &&& sp_same_likes(s0, *final (store))
                &&& c.post == rec1.sp_to_post(
                    s0.sp_user(rec1.author_id),
                    tz_hours,
                    false,
                    false,
                    false,
                    false,
                    false,
                )
            }),
    {
        let ghost s0 = *store;
        let k = match store.find_post_index(post_id) {
            Some(k) => k,
            None => {
                return Err(EError::NotFound(String::from_str("Post not found")));
            },
        };
        proof {
            store.lemma_post_at(k as int);
        }
        Checker::check_author(auth_user.user_id, &store.posts[k])?;
        let PostContent { post: UpdatePostPost { title, description, content } } = input;
        let rec0 = &store.posts[k];
        let rec1 = PostRecord {
            post_id: rec0.post_id,
            author_id: rec0.author_id,
            title: match title {
                Some(t) => t,
                None => rec0.title.clone(),
            },
            description: match description {
                Some(d) => d,
                None => rec0.description.clone(),
            },
            content: match content {
                Some(c) => c,
                None => rec0.content.clone(),
            },
            created_at: rec0.created_at,
            like_count: rec0.like_count,
        };
        let author_idx = match store.find_user_index(rec1.author_id) {
            Some(i) => i,
            None => {
                proof {
                    assert(false);
                }
                vstd::pervasive::unreached()
            },
        };
        proof {
            store.lemma_user_at(author_idx as int);
        }
        let dto = rec1.to_post(&store.users[author_idx], tz_hours, false, false, false, false, false);
        store.posts[k] = rec1;
        proof {
            lemma_wf_update_post(s0, *store, k as int, sp_apply_post_update(s0.sp_post(post_id), input.post));
        }
        Ok(PostContent { post: dto })
    }

    /// Deletes the post with id `post_id` together with its comments and
    /// like edges. `NotFound` when the post does not exist, `Forbidden`
    /// when the acting user is not its author; every rejection leaves the
    /// store untouched.
    pub fn delete_post(store: &mut Store, auth_user: AuthUser, post_id: i32) -> (r: Result<
        String,
        EError,
    >)
        requires
            old(store).wf(),
        ensures
            final (store).wf(),
            r is Ok <==> old(store).sp_has_post(post_id) && old(store).sp_post(post_id).author_id
                == auth_user.user_id,
            r is Err ==> *final (store) == *old(store),
            !old(store).sp_has_post(post_id) ==> r is Err && sp_err(r) is NotFound,
            old(store).sp_has_post(post_id) && old(store).sp_post(post_id).author_id
                != auth_user.user_id ==> r is Err && sp_err(r) is Forbidden,
            r matches Ok(msg) ==> ({
                let s0 = *old(store);
                &&& final (store).posts@ == s0.posts@.remove(s0.sp_post_index(post_id))
                &&& final (store).comments@ == sp_remove_comments_of_post(s0.comments@, post_id)
                &&& final (store).likes@ == sp_remove_likes_of_post(s0.likes@, post_id)
                &&& final (store).next_post_id == s0.next_post_id
                &&& final (store).next_comment_id == s0.next_comment_id
                &&& sp_same_users(s0, *final (store))
                &&& sp_same_follows(s0, *final (store))
                &&& sp_same_blocks(s0, *final (store))
                &&& msg@ == "Post deleted"@
            }),
    {
        let ghost s0 = *store;
        let k = match store.find_post_index(post_id) {
            Some(k) => k,
            None => {
                return Err(EError::NotFound(String::from_str("Post not found")));
            },
        };
        proof {
            store.lemma_post_at(k as int);
        }
        Checker::check_author(auth_user.user_id, &store.posts[k])?;
        store.posts.remove(k);
        remove_comments_of_post(&mut store.comments, post_id);
        remove_likes_of_post(&mut store.likes, post_id);
        proof {
            lemma_wf_delete_post(s0, *store, k as int);
        }
        Ok(String::from_str("Post deleted"))
    }

    /// Likes the post with id `post_id`: creates the like edge and
    /// increments the post's counter by exactly one, atomically. Rejections
    /// leave the store untouched: `NotFound` for a missing user or post,
    /// `Forbidden` when the post's author blocks the user, `Conflict` for a
    /// duplicate like.
    pub fn like_post(store: &mut Store, auth_user: AuthUser, post_id: i32, tz_hours: i32) -> (r:
        Result<PostContent<Post>, EError>)
        requires
            old(store).wf(),
            old(store).sp_has_post(post_id) ==> old(store).sp_post(post_id).like_count < i32::MAX,
        ensures
            final (store).wf(),
            r is Ok <==> sp_can_like(*old(store), auth_user.user_id, post_id),
            r is Err ==> *final (store) == *old(store),
            ({
                let s0 = *old(store);
                let u = auth_user.user_id;
                &&& (!s0.sp_has_user_id(u) ==> r is Err && sp_err(r) is NotFound)
                &&& (s0.sp_has_user_id(u) && !s0.sp_has_post(post_id) ==> r is Err && sp_err(
                    r,
                ) is NotFound)
                &&& (s0.sp_has_user_id(u) && s0.sp_has_post(post_id) && s0.sp_blocked(
                    s0.sp_post(post_id).author_id,
                    u,
                ) ==> r is Err && sp_err(r) is Forbidden)
                &&& (s0.sp_has_user_id(u) && s0.sp_has_post(post_id) && !s0.sp_blocked(
                    s0.sp_post(post_id).author_id,
                    u,
                ) && s0.sp_liked(u, post_id) ==> r is Err && sp_err(r) is Conflict)
            }),
            r matches Ok(c) ==> ({
                let s0 = *old(store);
                let u = auth_user.user_id;
                let rec0 = s0.sp_post(post_id);
                let rec1 = sp_with_like_count(rec0, (rec0.like_count + 1) as i32);
                &&& final (store).likes@ == s0.likes@.push((u, post_id))
                &&& final (store).posts@ == s0.posts@.update(s0.sp_post_index(post_id), rec1)
                &&& final (store).next_post_id == s0.next_post_id
                &&& sp_same_users(s0, *final (store))
                &&& sp_same_comments(s0, *final (store))
                &&& sp_same_follows(s0, *final (store))
                &&& sp_same_blocks(s0, *final (store))
                &&& c.post == rec1.sp_to_post(
                    s0.sp_user(rec0.author_id),
                    tz_hours,
                    true,
                    s0.sp_following(rec0.author_id, u),
                    s0.sp_following(u, rec0.author_id),
                    false,
                    s0.sp_blocked(u, rec0.author_id),
                )
            }),
    {
        let ghost s0 = *store;
        let u = auth_user.user_id;
        let _ = Helper::get_user_by_id(store, u)?;
        let k = match store.find_post_index(post_id) {
            Some(k) => k,
            None => {
                return Err(EError::NotFound(String::from_str("Post not found")));
            },
        };
        proof {
            store.lemma_post_at(k as int);
        }
        let author_id = store.posts[k].author_id;
        if Checker::check_blocked(store, author_id, u) {
            return Err(EError::Forbidden(String::from_str("You are blocked by the author of this post")));
        }
        if Checker::check_liked(store, u, post_id) {
            return Err(EError::Conflict(String::from_str("You have already liked this post")));
        }
        let rec0 = &store.posts[k];
        let rec1 = PostRecord {
            post_id: rec0.post_id,
            author_id: rec0.author_id,
            title: rec0.title.clone(),
            description: rec0.description.clone(),
            content: rec0.content.clone(),
            created_at: rec0.created_at,
            like_count: rec0.like_count + 1,
        };
        let followed = Checker::check_following(store, author_id, u);
        let following = Checker::check_following(store, u, author_id);
        let blocking = Checker::check_blocked(store, u, author_id);
        let author_idx = match store.find_user_index(author_id) {
            Some(i) => i,
            None => {
                proof {
                    assert(false);
                }
                vstd::pervasive::unreached()
            },
        };
        proof {
            store.lemma_user_at(author_idx as int);
        }
        let dto = rec1.to_post(
            &store.users[author_idx],
            tz_hours,
            true,
            followed,
            following,
            false,
            blocking,
        );
        store.likes.push((u, post_id));
        let ghost rec1g = sp_with_like_count(s0.sp_post(post_id), (s0.sp_post(post_id).like_count + 1) as i32);
        store.posts[k] = rec1;
        proof {
            lemma_wf_like(s0, *store, u, k as int, rec1g);
        }
        Ok(PostContent { post: dto })
    }

    /// Unlikes the post with id `post_id`: deletes the like edge and
    /// decrements the post's counter by exactly one, atomically. Rejections
    /// leave the store untouched: `NotFound` for a missing user or post,
    /// `Forbidden` when the post's author blocks the user, `BadRequest`
    /// when no like edge exists.
    pub fn unlike_post(store: &mut Store, auth_user: AuthUser, post_id: i32, tz_hours: i32) -> (r:
        Result<PostContent<Post>, EError>)
        requires
            old(store).wf(),
        ensures
            final (store).wf(),
            r is Ok <==> sp_can_unlike(*old(store), auth_user.user_id, post_id),
            r is Err ==> *final (store) == *old(store),
            ({
                let s0 = *old(store);
                let u = auth_user.user_id;
                &&& (!s0.sp_has_user_id(u) ==> r is Err && sp_err(r) is NotFound)
                &&& (s0.sp_has_user_id(u) && !s0.sp_has_post(post_id) ==> r is Err && sp_err(
                    r,
                ) is NotFound)
                &&& (s0.sp_has_user_id(u) && s0.sp_has_post(post_id) && s0.sp_blocked(
                    s0.sp_post(post_id).author_id,
                    u,
                ) ==> r is Err && sp_err(r) is Forbidden)
                &&& (s0.sp_has_user_id(u) && s0.sp_has_post(post_id) && !s0.sp_blocked(
                    s0.sp_post(post_id).author_id,
                    u,
                ) && !s0.sp_liked(u, post_id) ==> r is Err && sp_err(r) is BadRequest)
            }),
            r matches Ok(c) ==> ({
                let s0 = *old(store);
                let u = auth_user.user_id;
                let rec0 = s0.sp_post(post_id);
                let rec1 = sp_with_like_count(rec0, (rec0.like_count - 1) as i32);
                &&& final (store).likes@ == sp_remove_pair(s0.likes@, u, post_id)
                &&& final (store).posts@ == s0.posts@.update(s0.sp_post_index(post_id), rec1)
                &&& final (store).next_post_id == s0.next_post_id
                &&& sp_same_users(s0, *final (store))
                &&& sp_same_comments(s0, *final (store))
                &&& sp_same_follows(s0, *final (store))
                &&& sp_same_blocks(s0, *final (store))
                &&& c.post == rec1.sp_to_post(
                    s0.sp_user(rec0.author_id),
                    tz_hours,
                    false,
                    s0.sp_following(rec0.author_id, u),
                    s0.sp_following(u, rec0.author_id),
                    false,
                    s0.sp_blocked(u, rec0.author_id),
                )
            }),
    {
        let ghost s0 = *store;
        let u = auth_user.user_id;
        let _ = Helper::get_user_by_id(store, u)?;
        let k = match store.find_post_index(post_id) {
            Some(k) => k,
            None => {
                return Err(EError::NotFound(String::from_str("Post not found")));
            },
        };
        proof {
            store.lemma_post_at(k as int);
        }
        let author_id = store.posts[k].author_id;
        if Checker::check_blocked(store, author_id, u) {
            return Err(EError::Forbidden(String::from_str("You are blocked by the author of this post")));
        }
        if !Checker::check_liked(store, u, post_id) {
            return Err(EError::BadRequest(String::from_str("You have not liked this post")));
        }
        proof {
            crate::store::lemma_contains_count(s0.likes@, u, post_id);
        }
        let rec0 = &store.posts[k];
        let rec1 = PostRecord {
            post_id: rec0.post_id,
            author_id: rec0.author_id,
            title: rec0.title.clone(),
            description: rec0.description.clone(),
            content: rec0.content.clone(),
            created_at: rec0.created_at,
            like_count: rec0.like_count - 1,
        };
        let followed = Checker::check_following(store, author_id, u);
        let following = Checker::check_following(store, u, author_id);
        let blocking = Checker::check_blocked(store, u, author_id);
        let author_idx = match store.find_user_index(author_id) {
            Some(i) => i,
            None => {
                proof {
                    assert(false);
                }
                vstd::pervasive::unreached()
            },
        };
        proof {
            store.lemma_user_at(author_idx as int);
        }
        let dto = rec1.to_post(
            &store.users[author_idx],
            tz_hours,
            false,
            followed,
            following,
            false,
            blocking,
        );
        remove_pair(&mut store.likes, u, post_id);
        let ghost rec1g = sp_with_like_count(s0.sp_post(post_id), (s0.sp_post(post_id).like_count - 1) as i32);
        store.posts[k] = rec1;
        proof {
            lemma_wf_unlike(s0, *store, u, k as int, rec1g);
        }
        Ok(PostContent { post: dto })
    }
    /// Lists the comments on the post with id `post_id`, in creation
    /// order, each projected for the (optionally authenticated) viewer.
    pub fn get_comments(
        store: &Store,
        auth_user: OptionalAuthUser,
        post_id: i32,
        tz_hours: i32,
    ) -> (r: Result<CommentsContent<Comment>, EError>)
        requires
            store.wf(),
        ensures
            r is Ok <==> store.sp_has_post(post_id),
            r is Err ==> sp_err(r) is NotFound,
            r matches Ok(c) ==> ({
                let cs = sp_comments_of_post(store.comments@, post_id);
                &&& c.comments@.len() == cs.len()
                &&& forall|j: int|
                    0 <= j < cs.len() ==> c.comments@[j] == sp_project_comment(
                        *store,
                        cs[j],
                        sp_viewer(auth_user),
                        tz_hours,
                    )
            }),
    {
        let _ = Helper::fetch_post(store, post_id)?;
        let viewer: Option<i32> = match auth_user.0 {
            Some(u) => Some(u.user_id),
            None => None,
        };
        let mut out: Vec<Comment> = Vec::new();
        let mut i: usize = 0;
        while i < store.comments.len()
            invariant
                store.wf(),
                i <= store.comments@.len(),
                viewer == sp_viewer(auth_user),
                ({
                    let cs_i = sp_comments_of_post(store.comments@.take(i as int), post_id);
                    &&& out@.len() == cs_i.len()
                    &&& forall|j: int|
                        0 <= j < cs_i.len() ==> out@[j] == sp_project_comment(
                            *store,
                            cs_i[j],
                            viewer,
                            tz_hours,
                        )
                }),
            decreases store.comments@.len() - i,
        {
            proof {
                assert(store.comments@.take(i + 1 as int) =~= store.comments@.take(
                    i as int,
                ).push(store.comments@[i as int]));
                assert(store.comments@.take(i + 1 as int).drop_last() =~= store.comments@.take(
                    i as int,
                ));
            }
            if store.comments[i].post_id == post_id {
                let c = project_comment(store, &store.comments[i], viewer, tz_hours);
                out.push(c);
            }
            i += 1;
        }
        proof {
            assert(store.comments@.take(store.comments@.len() as int) =~= store.comments@);
        }
        Ok(CommentsContent { comments: out })
    }

    /// Creates a comment by the acting user on the post with id `post_id`,
    /// with the next free id. Rejections leave the store untouched:
    /// `NotFound` for a missing user or post, `Forbidden` when the post's
    /// author blocks the user.
    pub fn create_comment(
        store: &mut Store,
        auth_user: AuthUser,
        post_id: i32,
        input: CommentContent<CommentCreateInput>,
        now: i64,
        tz_hours: i32,
    ) -> (r: Result<CommentContent<Comment>, EError>)
        requires
            old(store).wf(),
            old(store).next_comment_id < i32::MAX,
        ensures
            final (store).wf(),
            r is Ok <==> ({
                let s0 = *old(store);
                let u = auth_user.user_id;
                &&& s0.sp_has_user_id(u)
                &&& s0.sp_has_post(post_id)
                &&& !s0.sp_blocked(s0.sp_post(post_id).author_id, u)
            }),
            r is Err ==> *final (store) == *old(store),
            ({
                let s0 = *old(store);
                let u = auth_user.user_id;
                &&& (!s0.sp_has_user_id(u) ==> r is Err && sp_err(r) is NotFound)
                &&& (s0.sp_has_user_id(u) && !s0.sp_has_post(post_id) ==> r is Err && sp_err(
                    r,
                ) is NotFound)
                &&& (s0.sp_has_user_id(u) && s0.sp_has_post(post_id) && s0.sp_blocked(
                    s0.sp_post(post_id).author_id,
                    u,
                ) ==> r is Err && sp_err(r) is Forbidden)
            }),
            r matches Ok(c) ==> ({
                let s0 = *old(store);
                let u = auth_user.user_id;
                let rec = sp_new_comment(s0.next_comment_id, post_id, u, input.comment, now);
                &&& final (store).comments@ == s0.comments@.push(rec)
                &&& final (store).next_comment_id == s0.next_comment_id + 1
                &&& sp_same_users(s0, *final (store))
                &&& sp_same_posts(s0, *final (store))
                &&& sp_same_follows(s0, *final (store))
                &&& sp_same_blocks(s0, *final (store))
                &&& sp_same_likes(s0, *final (store))
                &&& c.comment == rec.sp_to_comment(s0.sp_user(u), tz_hours, false, false, false, false)
            }),
    {
        let ghost s0 = *store;
        let u = auth_user.user_id;
        let k = match store.find_post_index(post_id) {
            Some(k) => Some(k),
            None => None,
        };
        let _ = Helper::get_user_by_id(store, u)?;
        let k = match k {
            Some(k) => k,
            None => {
                return Err(EError::NotFound(String::from_str("Post not found")));
            },
        };
        proof {
            store.lemma_post_at(k as int);
        }
        let author_id = store.posts[k].author_id;
        if Checker::check_blocked(store, author_id, u) {
            return Err(EError::Forbidden(String::from_str("You are blocked by the author of this post")));
        }
        let id = store.next_comment_id;
        let CommentContent { comment: CommentCreateInput { content } } = input;
        let rec = CommentRecord { comment_id: id, post_id, user_id: u, content, created_at: now };
        let user_idx = match store.find_user_index(u) {
            Some(i) => i,
            None => {
                proof {
                    assert(false);
                }
                vstd::pervasive::unreached()
            },
        };
        proof {
            store.lemma_user_at(user_idx as int);
        }
        let dto = rec.to_comment(&store.users[user_idx], tz_hours, false, false, false, false);
        store.comments.push(rec);
        store.next_comment_id = id + 1;
        proof {
            lemma_wf_create_comment(
                s0,
                *store,
                sp_new_comment(s0.next_comment_id, post_id, u, input.comment, now),
            );
        }
        Ok(CommentContent { comment: dto })
    }

    /// Deletes the comment with id `comment_id`. `NotFound` when it does
    /// not exist, `Forbidden` when the acting user is not its author; every
    /// rejection leaves the store untouched, the comment still retrievable.
    pub fn delete_comment(store: &mut Store, auth_user: AuthUser, comment_id: i32) -> (r: Result<
        String,
        EError,
    >)
        requires
            old(store).wf(),
        ensures
            final (store).wf(),
            r is Ok <==> old(store).sp_has_comment(comment_id) && old(store).sp_comment(
                comment_id,
            ).user_id == auth_user.user_id,
            r is Err ==> *final (store) == *old(store),
            !old(store).sp_has_comment(comment_id) ==> r is Err && sp_err(r) is NotFound,
            old(store).sp_has_comment(comment_id) && old(store).sp_comment(comment_id).user_id
                != auth_user.user_id ==> r is Err && sp_err(r) is Forbidden,
            r matches Ok(msg) ==> ({
                let s0 = *old(store);
                &&& final (store).comments@ == s0.comments@.remove(s0.sp_comment_index(comment_id))
                &&& final (store).next_comment_id == s0.next_comment_id
                &&& sp_same_users(s0, *final (store))
                &&& sp_same_posts(s0, *final (store))
                &&& sp_same_follows(s0, *final (store))
                &&& sp_same_blocks(s0, *final (store))
                &&& sp_same_likes(s0, *final (store))
                &&& msg@ == "Comment deleted"@
            }),
    {
        let ghost s0 = *store;
        let k = match store.find_comment_index(comment_id) {
            Some(k) => k,
            None => {
                return Err(EError::NotFound(String::from_str("Comment not found")));
            },
        };
        proof {
            store.lemma_comment_at(k as int);
        }
        if store.comments[k].user_id != auth_user.user_id {
            return Err(EError::Forbidden(String::from_str("You are not the author of this comment")));
        }
        store.comments.remove(k);
        proof {
            lemma_wf_delete_comment(s0, *store, k as int);
        }
        Ok(String::from_str("Comment deleted"))
    }
}

/// The comment record created by `Comment-create`.
pub open spec fn sp_new_comment(
    id: i32,
    post_id: i32,
    user_id: i32,
    input: CommentCreateInput,
    now: i64,
) -> CommentRecord {
    CommentRecord { comment_id: id, post_id, user_id, content: input.content, created_at: now }
}

/// The page size of a listing: the requested limit, 20 when absent,
/// clamped at zero.
pub open spec fn sp_limit(q: ListPostQuery) -> int {
    match q.limit {
        Some(l) => if l < 0 {
            0
        } else {
            l as int
        },
        None => 20,
    }
}

/// The page start of a listing: the requested offset, 0 when absent,
/// clamped at zero.
pub open spec fn sp_offset(q: ListPostQuery) -> int {
    match q.offset {
        Some(o) => if o < 0 {
            0
        } else {
            o as int
        },
        None => 0,
    }
}

/// How many items a page holds out of `total` matches, at offset `off`
/// with limit `lim`.
pub open spec fn sp_page_len(lim: int, off: int, total: int) -> int {
    if off >= total {
        0
    } else if lim <= total - off {
        lim
    } else {
        total - off
    }
}

/// The author filter of a listing, resolved against the store: `None` for
/// no filter, `Some(None)` for a name that matches no user — and then no
/// post — and `Some(Some(id))` for a resolved author.
pub open spec fn sp_author_sel(s: Store, q: ListPostQuery) -> Option<Option<i32>> {
    match q.author {
        None => None,
        Some(name) => if s.sp_has_username(name@) {
            Some(Some(s.sp_user_by_name(name@).user_id))
        } else {
            Some(None)
        },
    }
}

/// The liked-by filter of a listing, resolved against the store, in the
/// same shape as the author filter.
pub open spec fn sp_liked_sel(s: Store, q: ListPostQuery) -> Option<Option<i32>> {
    match q.liked_by {
        None => None,
        Some(name) => if s.sp_has_username(name@) {
            Some(Some(s.sp_user_by_name(name@).user_id))
        } else {
            Some(None)
        },
    }
}

/// Whether a resolved selector admits the value `x`.
pub open spec fn sp_sel_match(sel: Option<Option<i32>>, x: i32) -> bool {
    match sel {
        None => true,
        Some(None) => false,
        Some(Some(v)) => v == x,
    }
}

/// Whether a stored post passes every filter of the listing query, for the
/// given viewer.
pub open spec fn sp_post_matches(s: Store, p: PostRecord, q: ListPostQuery, viewer: Option<i32>) -> bool {
    &&& sp_sel_match(sp_author_sel(s, q), p.author_id)
    &&& (match sp_liked_sel(s, q) {
        None => true,
        Some(None) => false,
        Some(Some(lb)) => s.sp_liked(lb, p.post_id),
    })
    &&& (q.following == Some(true) ==> viewer is Some && s.sp_following(
        viewer.unwrap(),
        p.author_id,
    ))
}

/// The posts of the table that pass every filter, in table order (that is,
/// ascending by id: creation order).
pub open spec fn sp_matching_posts(
    s: Store,
    q: ListPostQuery,
    viewer: Option<i32>,
    posts: Seq<PostRecord>,
) -> Seq<PostRecord>
    decreases posts.len(),
{
    if posts.len() == 0 {
        Seq::empty()
    } else if sp_post_matches(s, posts.last(), q, viewer) {
        sp_matching_posts(s, q, viewer, posts.drop_last()).push(posts.last())
    } else {
        sp_matching_posts(s, q, viewer, posts.drop_last())
    }
}

impl PostService {
    /// Lists posts, newest first: the posts passing the query's filters,
    /// paged by its offset and limit, each projected for the (optionally
    /// authenticated) viewer; the body also carries the total number of
    /// matches. Filtering by followed authors without being logged in is
    /// `Unauthorized`.
    pub fn fetch_posts(
        store: &Store,
        auth_user: OptionalAuthUser,
        query: ListPostQuery,
        tz_hours: i32,
    ) -> (r: Result<PostsBody<Post>, EError>)
        requires
            store.wf(),
        ensures
            r is Err <==> (query.following == Some(true) && auth_user.0 is None),
            r is Err ==> sp_err(r) is Unauthorized,
            r matches Ok(body) ==> ({
                let m = sp_matching_posts(*store, query, sp_viewer(auth_user), store.posts@);
                let lim = sp_limit(query);
                let off = sp_offset(query);
                &&& body.post_count == m.len()
                &&& body.posts@.len() == sp_page_len(lim, off, m.len() as int)
                &&& forall|j: int|
                    0 <= j < body.posts@.len() ==> body.posts@[j] == sp_project_post(
                        *store,
                        m[m.len() - 1 - off - j],
                        sp_viewer(auth_user),
                        tz_hours,
                    )
            }),
    {
        let viewer: Option<i32> = match auth_user.0 {
            Some(u) => Some(u.user_id),
            None => None,
        };
        let following_on = match query.following {
            Some(true) => true,
            _ => false,
        };
        if following_on && viewer.is_none() {
            return Err(
                EError::Unauthorized(
                    String::from_str("Login to filter following author's post"),
                ),
            );
        }
        let author_sel: Option<Option<i32>> = match &query.author {
            None => None,
            Some(name) => match store.find_user_index_by_name(name) {
                Some(k) => {
                    proof {
                        store.lemma_user_at_name(k as int);
                    }
                    Some(Some(store.users[k].user_id))
                },
                None => Some(None),
            },
        };
        let liked_sel: Option<Option<i32>> = match &query.liked_by {
            None => None,
            Some(name) => match store.find_user_index_by_name(name) {
                Some(k) => {
                    proof {
                        store.lemma_user_at_name(k as int);
                    }
                    Some(Some(store.users[k].user_id))
                },
                None => Some(None),
            },
        };
        let mut idxs: Vec<usize> = Vec::new();
        let mut i: usize = 0;
        while i < store.posts.len()
            invariant
                store.wf(),
                i <= store.posts@.len(),
                viewer == sp_viewer(auth_user),
                following_on == (query.following == Some(true)),
                following_on ==> viewer is Some,
                author_sel == sp_author_sel(*store, query),
                liked_sel == sp_liked_sel(*store, query),
                ({
                    let m_i = sp_matching_posts(
                        *store,
                        query,
                        viewer,
                        store.posts@.take(i as int),
                    );
                    &&& idxs@.len() == m_i.len()
                    &&& forall|j: int|
                        0 <= j < idxs@.len() ==> (#[trigger] idxs@[j]) < i && store.posts@[idxs@[j] as int]
                            == m_i[j]
                }),
            decreases store.posts@.len() - i,
        {
            proof {
                assert(store.posts@.take(i + 1 as int) =~= store.posts@.take(i as int).push(
                    store.posts@[i as int],
                ));
                assert(store.posts@.take(i + 1 as int).drop_last() =~= store.posts@.take(
                    i as int,
                ));
            }
            let p = &store.posts[i];
            let m1 = match author_sel {
                None => true,
                Some(None) => false,
                Some(Some(aid)) => p.author_id == aid,
            };
            let m2 = match liked_sel {
                None => true,
                Some(None) => false,
                Some(Some(lb)) => Checker::check_liked(store, lb, p.post_id),
            };
            let m3 = if following_on {
                let v = match viewer {
                    Some(v) => v,
                    None => {
                        proof {
                            assert(false);
                        }
                        vstd::pervasive::unreached()
                    },
                };
                Checker::check_following(store, v, p.author_id)
            } else {
                true
            };
            let ok = m1 && m2 && m3;
            proof {
                assert(ok == sp_post_matches(*store, store.posts@[i as int], query, viewer));
            }
            if ok {
                idxs.push(i);
            }
            i += 1;
        }
        proof {
            assert(store.posts@.take(store.posts@.len() as int) =~= store.posts@);
        }
        let ghost m = sp_matching_posts(*store, query, sp_viewer(auth_user), store.posts@);
        let total = idxs.len();
        let off_req: i64 = match query.offset {
            Some(o) => if o < 0 {
                0
            } else {
                o
            },
            None => 0,
        };
        let lim_req: i64 = match query.limit {
            Some(l) => if l < 0 {
                0
            } else {
                l
            },
            None => 20,
        };
        let off: usize = if (off_req as u64) >= (total as u64) {
            total
        } else {
            off_req as usize
        };
        let avail = total - off;
        let n: usize = if (lim_req as u64) >= (avail as u64) {
            avail
        } else {
            lim_req as usize
        };
        proof {
            assert(n as int == sp_page_len(sp_limit(query), sp_offset(query), m.len() as int));
        }
        let mut out: Vec<Post> = Vec::new();
        let mut j: usize = 0;
        while j < n
            invariant
                store.wf(),
                viewer == sp_viewer(auth_user),
                j <= n,
                off + n <= total,
                total == idxs@.len(),
                m.len() == total,
                forall|t: int|
                    0 <= t < idxs@.len() ==> (#[trigger] idxs@[t]) < store.posts@.len()
                        && store.posts@[idxs@[t] as int] == m[t],
                out@.len() == j,
                forall|t: int|
                    0 <= t < j ==> out@[t] == sp_project_post(
                        *store,
                        m[m.len() - 1 - (off + t)],
                        viewer,
                        tz_hours,
                    ),
            decreases n - j,
        {
            let k = idxs[total - 1 - off - j];
            let p = &store.posts[k];
            let dto = project_post(store, p, viewer, tz_hours);
            out.push(dto);
            j += 1;
        }
        proof {
            assert forall|t: int| 0 <= t < out@.len() implies out@[t] == sp_project_post(
                *store,
                m[m.len() - 1 - sp_offset(query) - t],
                sp_viewer(auth_user),
                tz_hours,
            ) by {
                if sp_offset(query) >= m.len() {
                    assert(n == 0);
                } else {
                    assert(off as int == sp_offset(query));
                }
            }
        }
        Ok(PostsBody { posts: out, post_count: total })
    }
}

/// The comments sitting on post `p`, in table order.
pub open spec fn sp_comments_of_post(s: Seq<CommentRecord>, p: i32) -> Seq<CommentRecord>
    decreases s.len(),
{
    if s.len() == 0 {
        Seq::empty()
    } else if s.last().post_id == p {
        sp_comments_of_post(s.drop_last(), p).push(s.last())
    } else {
        sp_comments_of_post(s.drop_last(), p)
    }
}

} // verus!
