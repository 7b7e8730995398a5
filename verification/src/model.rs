use vstd::prelude::*;

use crate::checker::Checker;
use crate::store::{CommentRecord, PostRecord, Store, UserRecord};

verus! {

/// An instant paired with the fixed display offset it is normalized to:
/// `utc_seconds` is the instant in seconds since the Unix epoch, and
/// `offset_seconds` the configured offset east of UTC attached for
/// serialization. Attaching an offset never changes the instant.
#[derive(Debug, Clone, Copy, PartialEq, Eq, Structural)]
pub struct ZonedTime {
    pub utc_seconds: i64,
    pub offset_seconds: i64,
}

/// The instant `utc`, normalized to the configured offset of
/// `tz_hours` hours east of UTC.
pub open spec fn sp_zoned(utc: i64, tz_hours: i32) -> ZonedTime {
    ZonedTime { utc_seconds: utc, offset_seconds: (3600 * tz_hours as int) as i64 }
}

/// Builds the `ZonedTime` for instant `utc` at the configured offset.
pub fn zoned(utc: i64, tz_hours: i32) -> (r: ZonedTime)
    ensures
        r == sp_zoned(utc, tz_hours),
{
    ZonedTime { utc_seconds: utc, offset_seconds: 3600i64 * (tz_hours as i64) }
}

/// A viewer-relative projection of a user: the public fields of the record
/// plus the four relationship flags, computed against the requesting
/// identity. `followed` means the projected user follows the viewer,
/// `following` that the viewer follows them, `blocked` that they block the
/// viewer, `blocking` that the viewer blocks them.
#[derive(Debug)]
pub struct Profile {
    pub user_id: i32,
    pub username: String,
    pub intro: Option<String>,
    pub avatar: Option<String>,
    pub followed: bool,
    pub following: bool,
    pub blocked: bool,
    pub blocking: bool,
}

/// Clones an optional owned string.
fn clone_opt_string(o: &Option<String>) -> (r: Option<String>)
    ensures
        r == *o,
{
    match o {
        Some(s) => Some(s.clone()),
        None => None,
    }
}

impl UserRecord {
    /// The profile projection of this record with the given flags.
    pub open spec fn sp_profile(
        self,
        followed: bool,
        following: bool,
        blocked: bool,
        blocking: bool,
    ) -> Profile {
        Profile {
            user_id: self.user_id,
            username: self.username,
            intro: self.intro,
            avatar: self.avatar,
            followed,
            following,
            blocked,
            blocking,
        }
    }

    /// Projects this record to a profile carrying the given flags.
    pub fn to_profile(
        &self,
        followed: bool,
        following: bool,
        blocked: bool,
        blocking: bool,
    ) -> (r: Profile)
        ensures
            r == self.sp_profile(followed, following, blocked, blocking),
    {
        Profile {
            user_id: self.user_id,
            username: self.username.clone(),
            intro: clone_opt_string(&self.intro),
            avatar: clone_opt_string(&self.avatar),
            followed,
            following,
            blocked,
            blocking,
        }
    }
}

/// The account DTO returned to its own user.
#[derive(Debug)]
pub struct User {
    pub user_id: i32,
    pub intro: Option<String>,
    pub avatar: Option<String>,
    pub email: String,
    pub username: String,
    pub created_at: ZonedTime,
    pub token: Option<String>,
}

impl User {
    /// The DTO built from a stored record, before a token is attached.
    pub open spec fn sp_from_record(rec: UserRecord, tz_hours: i32) -> User {
        User {
            user_id: rec.user_id,
            intro: rec.intro,
            avatar: rec.avatar,
            email: rec.email,
            username: rec.username,
            created_at: sp_zoned(rec.created_at, tz_hours),
            token: None,
        }
    }

    /// Builds the DTO from a stored record, timestamps normalized to the
    /// configured offset. The credential hash is never exposed.
    pub fn from_record(rec: &UserRecord, tz_hours: i32) -> (r: User)
        ensures
            r == User::sp_from_record(*rec, tz_hours),
    {
        User {
            user_id: rec.user_id,
            intro: clone_opt_string(&rec.intro),
            avatar: clone_opt_string(&rec.avatar),
            email: rec.email.clone(),
            username: rec.username.clone(),
            created_at: zoned(rec.created_at, tz_hours),
            token: None,
        }
    }

    /// Attaches a freshly issued token; all other fields keep their values.
    pub fn set_token(&mut self, token: String)
        ensures
            final(self).token == Some(token),
            final(self).user_id == old(self).user_id,
            final(self).intro == old(self).intro,
            final(self).avatar == old(self).avatar,
            final(self).email == old(self).email,
            final(self).username == old(self).username,
            final(self).created_at == old(self).created_at,
    {
        self.token = Some(token);
    }
}

/// The viewer-relative post DTO.
#[derive(Debug)]
pub struct Post {
    pub post_id: i32,
    pub title: String,
    pub description: String,
    pub content: String,
    pub created_at: ZonedTime,
    pub liked: bool,
    pub liked_count: i32,
    pub author: Profile,
}

/// The viewer-relative comment DTO.
#[derive(Debug)]
pub struct Comment {
    pub comment_id: i32,
    pub content: String,
    pub created_at: ZonedTime,
    pub user: Profile,
}

impl PostRecord {
    /// The post DTO built from this record, its author's record, the
    /// configured offset, and the viewer-relative flags.
    pub open spec fn sp_to_post(
        self,
        author: UserRecord,
        tz_hours: i32,
        liked: bool,
        followed: bool,
        following: bool,
        blocked: bool,
        blocking: bool,
    ) -> Post {
        Post {
            post_id: self.post_id,
            title: self.title,
            description: self.description,
            content: self.content,
            created_at: sp_zoned(self.created_at, tz_hours),
            liked,
            liked_count: self.like_count,
            author: author.sp_profile(followed, following, blocked, blocking),
        }
    }

    /// Projects this record to a post DTO.
    pub fn to_post(
        &self,
        author: &UserRecord,
        tz_hours: i32,
        liked: bool,
        followed: bool,
        following: bool,
        blocked: bool,
        blocking: bool,
    ) -> (r: Post)
        ensures
            r == self.sp_to_post(*author, tz_hours, liked, followed, following, blocked, blocking),
    {
        Post {
            post_id: self.post_id,
            title: self.title.clone(),
            description: self.description.clone(),
            content: self.content.clone(),
            created_at: zoned(self.created_at, tz_hours),
            liked,
            liked_count: self.like_count,
            author: author.to_profile(followed, following, blocked, blocking),
        }
    }
}

impl crate::store::CommentRecord {
    /// The comment DTO built from this record, its author's record, the
    /// configured offset, and the viewer-relative flags.
    pub open spec fn sp_to_comment(
        self,
        user: UserRecord,
        tz_hours: i32,
        followed: bool,
        following: bool,
        blocked: bool,
        blocking: bool,
    ) -> Comment {
        Comment {
            comment_id: self.comment_id,
            content: self.content,
            created_at: sp_zoned(self.created_at, tz_hours),
            user: user.sp_profile(followed, following, blocked, blocking),
        }
    }

    /// Projects this record to a comment DTO.
    pub fn to_comment(
        &self,
        user: &UserRecord,
        tz_hours: i32,
        followed: bool,
        following: bool,
        blocked: bool,
        blocking: bool,
    ) -> (r: Comment)
        ensures
            r == self.sp_to_comment(*user, tz_hours, followed, following, blocked, blocking),
    {
        Comment {
            comment_id: self.comment_id,
            content: self.content.clone(),
            created_at: zoned(self.created_at, tz_hours),
            user: user.to_profile(followed, following, blocked, blocking),
        }
    }
}

/// Envelope around a single post.
#[derive(Debug)]
pub struct PostContent<T> {
    pub post: T,
}

/// Envelope around a page of posts and the total match count.
#[derive(Debug)]
pub struct PostsBody<T> {
    pub posts: Vec<T>,
    pub post_count: usize,
}

/// Envelope around a page of viewing history: posts and the instants they
/// were viewed at.
#[derive(Debug)]
pub struct HistoryBody<T> {
    pub posts: Vec<T>,
    pub time_vec: Vec<ZonedTime>,
    pub post_count: usize,
}

/// Envelope around a single comment.
#[derive(Debug)]
pub struct CommentContent<T> {
    pub comment: T,
}

/// Envelope around a list of comments.
#[derive(Debug)]
pub struct CommentsContent<T> {
    pub comments: Vec<T>,
}

/// Envelope around a single user.
#[derive(Debug)]
pub struct UserBody<T> {
    pub user: T,
}

/// Envelope around a single profile.
#[derive(Debug)]
pub struct ProfileBody<T> {
    pub profile: T,
}

impl<T> HistoryBody<T> {
    /// Normalizes every viewing instant to the configured offset of
    /// `tz_hours` hours east of UTC; posts and count are unchanged.
    pub fn with_timezone_offset(self, tz_hours: i32) -> (r: HistoryBody<T>)
        ensures
            r.posts == self.posts,
            r.post_count == self.post_count,
            r.time_vec@.len() == self.time_vec@.len(),
            forall|i: int|
                0 <= i < self.time_vec@.len() ==> r.time_vec@[i] == sp_zoned(
                    (#[trigger] self.time_vec@[i]).utc_seconds,
                    tz_hours,
                ),
    {
        let mut times: Vec<ZonedTime> = Vec::new();
        let mut i: usize = 0;
        while i < self.time_vec.len()
            invariant
                i <= self.time_vec@.len(),
                times@.len() == i,
                forall|k: int|
                    0 <= k < i ==> times@[k] == sp_zoned(
                        (#[trigger] self.time_vec@[k]).utc_seconds,
                        tz_hours,
                    ),
            decreases self.time_vec@.len() - i,
        {
            times.push(zoned(self.time_vec[i].utc_seconds, tz_hours));
            i += 1;
        }
        HistoryBody { posts: self.posts, time_vec: times, post_count: self.post_count }
    }
}

/// Input for creating a post.
#[derive(Debug)]
pub struct CreatePostPost {
    pub title: String,
    pub description: String,
    pub content: String,
}

/// Input for updating a post; absent fields keep their stored values.
#[derive(Debug)]
pub struct UpdatePostPost {
    pub title: Option<String>,
    pub description: Option<String>,
    pub content: Option<String>,
}

/// Query parameters for listing posts.
#[derive(Debug)]
pub struct ListPostQuery {
    pub author: Option<String>,
    pub liked_by: Option<String>,
    pub limit: Option<i64>,
    pub offset: Option<i64>,
    pub following: Option<bool>,
}

/// Input for creating a comment.
#[derive(Debug)]
pub struct CommentCreateInput {
    pub content: String,
}

/// Input for creating a user.
#[derive(Debug)]
pub struct CreateUserPost {
    pub email: String,
    pub username: String,
    pub password: String,
}

/// Input for updating a user; absent fields keep their stored values.
#[derive(Debug)]
pub struct UpdateUserPost {
    pub email: Option<String>,
    pub intro: Option<String>,
    pub avatar: Option<String>,
    pub username: Option<String>,
    pub password: Option<String>,
}

/// Input for logging in.
#[derive(Debug)]
pub struct LoginUserPost {
    pub email: String,
    pub password: String,
}

/// The viewer-relative projection of a stored post. With an anonymous
/// viewer every relationship flag is forced to `false`; with a viewer `v`
/// the flags are the four directional existence checks against the post's
/// author, plus the `liked` check against the post itself.
pub open spec fn sp_project_post(s: Store, p: PostRecord, viewer: Option<i32>, tz_hours: i32) -> Post {
    match viewer {
        None => p.sp_to_post(s.sp_user(p.author_id), tz_hours, false, false, false, false, false),
        Some(v) => p.sp_to_post(
            s.sp_user(p.author_id),
            tz_hours,
            s.sp_liked(v, p.post_id),
            s.sp_following(p.author_id, v),
            s.sp_following(v, p.author_id),
            s.sp_blocked(p.author_id, v),
            s.sp_blocked(v, p.author_id),
        ),
    }
}

/// The viewer-relative projection of a stored comment: the flags are
/// computed against the comment's author.
pub open spec fn sp_project_comment(
    s: Store,
    c: CommentRecord,
    viewer: Option<i32>,
    tz_hours: i32,
) -> Comment {
    match viewer {
        None => c.sp_to_comment(s.sp_user(c.user_id), tz_hours, false, false, false, false),
        Some(v) => c.sp_to_comment(
            s.sp_user(c.user_id),
            tz_hours,
            s.sp_following(c.user_id, v),
            s.sp_following(v, c.user_id),
            s.sp_blocked(c.user_id, v),
            s.sp_blocked(v, c.user_id),
        ),
    }
}

/// Projects a stored post for the given viewer. An anonymous viewer gets
/// the neutral flags without any resolver lookup being issued.
pub fn project_post(store: &Store, post: &PostRecord, viewer: Option<i32>, tz_hours: i32) -> (r:
    Post)
    requires
        store.wf(),
        store.sp_has_user_id(post.author_id),
    ensures
        r == sp_project_post(*store, *post, viewer, tz_hours),
{
    let author_idx = match store.find_user_index(post.author_id) {
        Some(k) => k,
        None => {
            proof {
                assert(false);
            }
            vstd::pervasive::unreached()
        },
    };
    proof {
        store.lemma_user_at(author_idx as int);
    }
    let author = &store.users[author_idx];
    match viewer {
        None => post.to_post(author, tz_hours, false, false, false, false, false),
        Some(v) => {
            let liked = Checker::check_liked(store, v, post.post_id);
            let followed = Checker::check_following(store, post.author_id, v);
            let following = Checker::check_following(store, v, post.author_id);
            let blocked = Checker::check_blocked(store, post.author_id, v);
            let blocking = Checker::check_blocked(store, v, post.author_id);
            post.to_post(author, tz_hours, liked, followed, following, blocked, blocking)
        },
    }
}

/// Projects a stored comment for the given viewer. An anonymous viewer
/// gets the neutral flags without any resolver lookup being issued.
pub fn project_comment(
    store: &Store,
    comment: &CommentRecord,
    viewer: Option<i32>,
    tz_hours: i32,
) -> (r: Comment)
    requires
        store.wf(),
        store.sp_has_user_id(comment.user_id),
    ensures
        r == sp_project_comment(*store, *comment, viewer, tz_hours),
{
    let user_idx = match store.find_user_index(comment.user_id) {
        Some(k) => k,
        None => {
            proof {
                assert(false);
            }
            vstd::pervasive::unreached()
        },
    };
    proof {
        store.lemma_user_at(user_idx as int);
    }
    let user = &store.users[user_idx];
    match viewer {
        None => comment.to_comment(user, tz_hours, false, false, false, false),
        Some(v) => {
            let followed = Checker::check_following(store, comment.user_id, v);
            let following = Checker::check_following(store, v, comment.user_id);
            let blocked = Checker::check_blocked(store, comment.user_id, v);
            let blocking = Checker::check_blocked(store, v, comment.user_id);
            comment.to_comment(user, tz_hours, followed, following, blocked, blocking)
        },
    }
}

} // verus!
