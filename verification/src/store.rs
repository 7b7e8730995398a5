use vstd::prelude::*;

verus! {

/// A stored user: the details row and the credential hash that belongs to it.
#[derive(Debug)]
pub struct UserRecord {
    pub user_id: i32,
    pub username: String,
    pub email: String,
    pub intro: Option<String>,
    pub avatar: Option<String>,
    /// Creation instant, in seconds since the Unix epoch (UTC).
    pub created_at: i64,
    /// PHC string of the user's password.
    pub password_hash: String,
}

/// A stored post. `like_count` is a denormalized counter that the store
/// invariant ties to the number of like edges targeting the post.
#[derive(Debug)]
pub struct PostRecord {
    pub post_id: i32,
    pub author_id: i32,
    pub title: String,
    pub description: String,
    pub content: String,
    /// Creation instant, in seconds since the Unix epoch (UTC).
    pub created_at: i64,
    pub like_count: i32,
}

/// A stored comment on a post.
#[derive(Debug)]
pub struct CommentRecord {
    pub comment_id: i32,
    pub post_id: i32,
    pub user_id: i32,
    pub content: String,
    /// Creation instant, in seconds since the Unix epoch (UTC).
    pub created_at: i64,
}

/// The record store: the transactional persistent state of the platform,
/// modeled as in-memory tables. Directed relationship edges are ordered
/// pairs; a follow or block edge `(a, b)` means `a` follows or blocks `b`,
/// and a like edge `(u, p)` means user `u` likes post `p`.
#[derive(Debug)]
pub struct Store {
    pub users: Vec<UserRecord>,
    pub posts: Vec<PostRecord>,
    pub comments: Vec<CommentRecord>,
    pub follows: Vec<(i32, i32)>,
    pub blocks: Vec<(i32, i32)>,
    pub likes: Vec<(i32, i32)>,
    /// The id handed to the next created user; larger than every stored id.
    pub next_user_id: i32,
    /// The id handed to the next created post; larger than every stored id.
    pub next_post_id: i32,
    /// The id handed to the next created comment; larger than every stored id.
    pub next_comment_id: i32,
}

/// How many pairs of `s` target `p` in their second component: the number
/// of like edges on post `p`.
pub open spec fn sp_count_likes(s: Seq<(i32, i32)>, p: i32) -> int
    decreases s.len(),
{
    if s.len() == 0 {
        0
    } else {
        sp_count_likes(s.drop_last(), p) + if s.last().1 == p {
            1int
        } else {
            0int
        }
    }
}

/// `s` with every occurrence of the pair `(a, b)` removed, order kept.
pub open spec fn sp_remove_pair(s: Seq<(i32, i32)>, a: i32, b: i32) -> Seq<(i32, i32)>
    decreases s.len(),
{
    if s.len() == 0 {
        Seq::empty()
    } else if s.last() == (a, b) {
        sp_remove_pair(s.drop_last(), a, b)
    } else {
        sp_remove_pair(s.drop_last(), a, b).push(s.last())
    }
}

/// No two positions of `s` hold the same pair.
pub open spec fn sp_pairwise_distinct(s: Seq<(i32, i32)>) -> bool {
    forall|i: int, j: int| 0 <= i < j < s.len() ==> s[i] != s[j]
}

/// A user row with id `id` exists in the table.
pub open spec fn sp_seq_has_user_id(users: Seq<UserRecord>, id: i32) -> bool {
    exists|k: int| 0 <= k < users.len() && users[k].user_id == id
}

pub open spec fn sp_seq_user_index(users: Seq<UserRecord>, id: i32) -> int {
    choose|k: int| 0 <= k < users.len() && users[k].user_id == id
}

/// A user row with username `name` exists in the table.
pub open spec fn sp_seq_has_username(users: Seq<UserRecord>, name: Seq<char>) -> bool {
    exists|k: int| 0 <= k < users.len() && users[k].username@ == name
}

pub open spec fn sp_seq_user_index_by_name(users: Seq<UserRecord>, name: Seq<char>) -> int {
    choose|k: int| 0 <= k < users.len() && users[k].username@ == name
}

/// A user row with email `email` exists in the table.
pub open spec fn sp_seq_has_email(users: Seq<UserRecord>, email: Seq<char>) -> bool {
    exists|k: int| 0 <= k < users.len() && users[k].email@ == email
}

pub open spec fn sp_seq_user_index_by_email(users: Seq<UserRecord>, email: Seq<char>) -> int {
    choose|k: int| 0 <= k < users.len() && users[k].email@ == email
}

/// A post row with id `id` exists in the table.
pub open spec fn sp_seq_has_post(posts: Seq<PostRecord>, id: i32) -> bool {
    exists|k: int| 0 <= k < posts.len() && posts[k].post_id == id
}

pub open spec fn sp_seq_post_index(posts: Seq<PostRecord>, id: i32) -> int {
    choose|k: int| 0 <= k < posts.len() && posts[k].post_id == id
}

/// A comment row with id `id` exists in the table.
pub open spec fn sp_seq_has_comment(comments: Seq<CommentRecord>, id: i32) -> bool {
    exists|k: int| 0 <= k < comments.len() && comments[k].comment_id == id
}

pub open spec fn sp_seq_comment_index(comments: Seq<CommentRecord>, id: i32) -> int {
    choose|k: int| 0 <= k < comments.len() && comments[k].comment_id == id
}

impl Store {
    /// `a` follows `b`.
    pub open spec fn sp_following(self, a: i32, b: i32) -> bool {
        self.follows@.contains((a, b))
    }

    /// `a` blocks `b`.
    pub open spec fn sp_blocked(self, a: i32, b: i32) -> bool {
        self.blocks@.contains((a, b))
    }

    /// User `u` likes post `p`.
    pub open spec fn sp_liked(self, u: i32, p: i32) -> bool {
        self.likes@.contains((u, p))
    }

    pub open spec fn sp_has_user_id(self, id: i32) -> bool {
        sp_seq_has_user_id(self.users@, id)
    }

    pub open spec fn sp_user_index(self, id: i32) -> int {
        sp_seq_user_index(self.users@, id)
    }

    /// The user record with id `id`; meaningful when `sp_has_user_id`.
    pub open spec fn sp_user(self, id: i32) -> UserRecord {
        self.users@[self.sp_user_index(id)]
    }

    pub open spec fn sp_has_username(self, name: Seq<char>) -> bool {
        sp_seq_has_username(self.users@, name)
    }

    pub open spec fn sp_user_index_by_name(self, name: Seq<char>) -> int {
        sp_seq_user_index_by_name(self.users@, name)
    }

    /// The user record with username `name`; meaningful when `sp_has_username`.
    pub open spec fn sp_user_by_name(self, name: Seq<char>) -> UserRecord {
        self.users@[self.sp_user_index_by_name(name)]
    }

    pub open spec fn sp_has_email(self, email: Seq<char>) -> bool {
        sp_seq_has_email(self.users@, email)
    }

    pub open spec fn sp_user_index_by_email(self, email: Seq<char>) -> int {
        sp_seq_user_index_by_email(self.users@, email)
    }

    /// The user record with email `email`; meaningful when `sp_has_email`.
    pub open spec fn sp_user_by_email(self, email: Seq<char>) -> UserRecord {
        self.users@[self.sp_user_index_by_email(email)]
    }

    pub open spec fn sp_has_post(self, id: i32) -> bool {
        sp_seq_has_post(self.posts@, id)
    }

    pub open spec fn sp_post_index(self, id: i32) -> int {
        sp_seq_post_index(self.posts@, id)
    }

    /// The post record with id `id`; meaningful when `sp_has_post`.
    pub open spec fn sp_post(self, id: i32) -> PostRecord {
        self.posts@[self.sp_post_index(id)]
    }

    pub open spec fn sp_has_comment(self, id: i32) -> bool {
        sp_seq_has_comment(self.comments@, id)
    }

    pub open spec fn sp_comment_index(self, id: i32) -> int {
        sp_seq_comment_index(self.comments@, id)
    }

    /// The comment record with id `id`; meaningful when `sp_has_comment`.
    pub open spec fn sp_comment(self, id: i32) -> CommentRecord {
        self.comments@[self.sp_comment_index(id)]
    }

    /// The number of like edges targeting post `p`.
    pub open spec fn sp_like_count(self, p: i32) -> int {
        sp_count_likes(self.likes@, p)
    }

    /// User rows are keyed by id, and username and email are unique; ids
    /// stay below the id counter.
    pub open spec fn wf_users(self) -> bool {
        &&& forall|i: int, j: int|
            #![trigger self.users@[i].user_id, self.users@[j].user_id]
            0 <= i < j < self.users@.len() ==> self.users@[i].user_id != self.users@[j].user_id
        &&& forall|i: int, j: int|
            #![trigger self.users@[i].username, self.users@[j].username]
            0 <= i < j < self.users@.len() ==> self.users@[i].username@ != self.users@[j].username@
        &&& forall|i: int, j: int|
            #![trigger self.users@[i].email, self.users@[j].email]
            0 <= i < j < self.users@.len() ==> self.users@[i].email@ != self.users@[j].email@
        &&& forall|i: int|
            0 <= i < self.users@.len() ==> (#[trigger] self.users@[i]).user_id < self.next_user_id
    }

    /// Post ids strictly ascend along the table (creation order), stay below
    /// the id counter, and every post's author exists.
    pub open spec fn wf_posts(self) -> bool {
        &&& forall|i: int, j: int|
            #![trigger self.posts@[i].post_id, self.posts@[j].post_id]
            0 <= i < j < self.posts@.len() ==> self.posts@[i].post_id < self.posts@[j].post_id
        &&& forall|i: int|
            0 <= i < self.posts@.len() ==> (#[trigger] self.posts@[i]).post_id < self.next_post_id
        &&& forall|i: int|
            0 <= i < self.posts@.len() ==> self.sp_has_user_id(
                (#[trigger] self.posts@[i]).author_id,
            )
    }

    /// Comment ids strictly ascend along the table, stay below the id
    /// counter, and every comment's user and post exist.
    pub open spec fn wf_comments(self) -> bool {
        &&& forall|i: int, j: int|
            #![trigger self.comments@[i].comment_id, self.comments@[j].comment_id]
            0 <= i < j < self.comments@.len() ==> self.comments@[i].comment_id
                < self.comments@[j].comment_id
        &&& forall|i: int|
            0 <= i < self.comments@.len() ==> (#[trigger] self.comments@[i]).comment_id
                < self.next_comment_id
        &&& forall|i: int|
            0 <= i < self.comments@.len() ==> self.sp_has_user_id(
                (#[trigger] self.comments@[i]).user_id,
            ) && self.sp_has_post(self.comments@[i].post_id)
    }

    /// At most one follow edge per ordered pair, never self-referential,
    /// both endpoints existing users.
    pub open spec fn wf_follows(self) -> bool {
        &&& sp_pairwise_distinct(self.follows@)
        &&& forall|i: int|
            0 <= i < self.follows@.len() ==> (#[trigger] self.follows@[i]).0
                != self.follows@[i].1 && self.sp_has_user_id(self.follows@[i].0)
                && self.sp_has_user_id(self.follows@[i].1)
    }

    /// At most one block edge per ordered pair, never self-referential, both
    /// endpoints existing users; a block edge suppresses follow edges in
    /// both directions between the pair.
    pub open spec fn wf_blocks(self) -> bool {
        &&& sp_pairwise_distinct(self.blocks@)
        &&& forall|i: int|
            0 <= i < self.blocks@.len() ==> (#[trigger] self.blocks@[i]).0 != self.blocks@[i].1
                && self.sp_has_user_id(self.blocks@[i].0) && self.sp_has_user_id(
                self.blocks@[i].1,
            )
        &&& forall|i: int|
            0 <= i < self.blocks@.len() ==> !self.follows@.contains(#[trigger] self.blocks@[i])
                && !self.follows@.contains((self.blocks@[i].1, self.blocks@[i].0))
    }

    /// At most one like edge per (user, post) pair, both endpoints existing,
    /// and every post's `like_count` equal to the number of its like edges.
    pub open spec fn wf_likes(self) -> bool {
        &&& sp_pairwise_distinct(self.likes@)
        &&& forall|i: int|
            0 <= i < self.likes@.len() ==> self.sp_has_user_id((#[trigger] self.likes@[i]).0)
                && self.sp_has_post(self.likes@[i].1)
        &&& forall|i: int|
            0 <= i < self.posts@.len() ==> (#[trigger] self.posts@[i]).like_count
                == self.sp_like_count(self.posts@[i].post_id)
    }

    /// The store invariant: every constructor establishes it and every
    /// mutation preserves it.
    pub open spec fn wf(self) -> bool {
        &&& self.wf_users()
        &&& self.wf_posts()
        &&& self.wf_comments()
        &&& self.wf_follows()
        &&& self.wf_blocks()
        &&& self.wf_likes()
    }

    /// An empty store.
    pub fn new() -> (r: Store)
        ensures
            r.wf(),
            r.users@.len() == 0,
            r.posts@.len() == 0,
            r.comments@.len() == 0,
            r.follows@.len() == 0,
            r.blocks@.len() == 0,
            r.likes@.len() == 0,
    {
        Store {
            users: Vec::new(),
            posts: Vec::new(),
            comments: Vec::new(),
            follows: Vec::new(),
            blocks: Vec::new(),
            likes: Vec::new(),
            next_user_id: 1,
            next_post_id: 1,
            next_comment_id: 1,
        }
    }

    /// The position of the user row with id `id`, if any.
    pub fn find_user_index(&self, id: i32) -> (r: Option<usize>)
        ensures
            match r {
                Some(k) => k < self.users@.len() && self.users@[k as int].user_id == id,
                None => !self.sp_has_user_id(id),
            },
    {
        let mut i: usize = 0;
        while i < self.users.len()
            invariant
                i <= self.users@.len(),
                forall|k: int| 0 <= k < i ==> (#[trigger] self.users@[k]).user_id != id,
            decreases self.users@.len() - i,
        {
            if self.users[i].user_id == id {
                return Some(i);
            }
            i += 1;
        }
        None
    }

    /// The position of the user row with username `name`, if any.
    pub fn find_user_index_by_name(&self, name: &String) -> (r: Option<usize>)
        ensures
            match r {
                Some(k) => k < self.users@.len() && self.users@[k as int].username@ == name@,
                None => !self.sp_has_username(name@),
            },
    {
        let mut i: usize = 0;
        while i < self.users.len()
            invariant
                i <= self.users@.len(),
                forall|k: int| 0 <= k < i ==> (#[trigger] self.users@[k]).username@ != name@,
            decreases self.users@.len() - i,
        {
            if self.users[i].username == *name {
                return Some(i);
            }
            i += 1;
        }
        None
    }

    /// The position of the user row with email `email`, if any.
    pub fn find_user_index_by_email(&self, email: &String) -> (r: Option<usize>)
        ensures
            match r {
                Some(k) => k < self.users@.len() && self.users@[k as int].email@ == email@,
                None => !self.sp_has_email(email@),
            },
    {
        let mut i: usize = 0;
        while i < self.users.len()
            invariant
                i <= self.users@.len(),
                forall|k: int| 0 <= k < i ==> (#[trigger] self.users@[k]).email@ != email@,
            decreases self.users@.len() - i,
        {
            if self.users[i].email == *email {
                return Some(i);
            }
            i += 1;
        }
        None
    }

    /// The position of the post row with id `id`, if any.
    pub fn find_post_index(&self, id: i32) -> (r: Option<usize>)
        ensures
            match r {
                Some(k) => k < self.posts@.len() && self.posts@[k as int].post_id == id,
                None => !self.sp_has_post(id),
            },
    {
        let mut i: usize = 0;
        while i < self.posts.len()
            invariant
                i <= self.posts@.len(),
                forall|k: int| 0 <= k < i ==> (#[trigger] self.posts@[k]).post_id != id,
            decreases self.posts@.len() - i,
        {
            if self.posts[i].post_id == id {
                return Some(i);
            }
            i += 1;
        }
        None
    }

    /// The position of the comment row with id `id`, if any.
    pub fn find_comment_index(&self, id: i32) -> (r: Option<usize>)
        ensures
            match r {
                Some(k) => k < self.comments@.len() && self.comments@[k as int].comment_id == id,
                None => !self.sp_has_comment(id),
            },
    {
        let mut i: usize = 0;
        while i < self.comments.len()
            invariant
                i <= self.comments@.len(),
                forall|k: int| 0 <= k < i ==> (#[trigger] self.comments@[k]).comment_id != id,
            decreases self.comments@.len() - i,
        {
            if self.comments[i].comment_id == id {
                return Some(i);
            }
            i += 1;
        }
        None
    }

    /// Under `wf_users`, a row holding id `id` is the row that `sp_user`
    /// denotes.
    pub proof fn lemma_user_at(self, k: int)
        requires
            self.wf_users(),
            0 <= k < self.users@.len(),
        ensures
            self.sp_has_user_id(self.users@[k].user_id),
            self.sp_user_index(self.users@[k].user_id) == k,
            self.sp_user(self.users@[k].user_id) == self.users@[k],
    {
        let id = self.users@[k].user_id;
        assert(self.sp_has_user_id(id));
        let k2 = self.sp_user_index(id);
        if k2 != k {
            assert(self.users@[k].user_id != self.users@[k2].user_id);
        }
    }

    /// Under `wf_users`, a row holding username `name` is the row that
    /// `sp_user_by_name` denotes.
    pub proof fn lemma_user_at_name(self, k: int)
        requires
            self.wf_users(),
            0 <= k < self.users@.len(),
        ensures
            self.sp_has_username(self.users@[k].username@),
            self.sp_user_index_by_name(self.users@[k].username@) == k,
            self.sp_user_by_name(self.users@[k].username@) == self.users@[k],
    {
        let name = self.users@[k].username@;
        assert(self.sp_has_username(name));
        let k2 = self.sp_user_index_by_name(name);
        if k2 != k {
            assert(self.users@[k].username@ != self.users@[k2].username@);
        }
    }

    /// Under `wf_users`, a row holding email `email` is the row that
    /// `sp_user_by_email` denotes.
    pub proof fn lemma_user_at_email(self, k: int)
        requires
            self.wf_users(),
            0 <= k < self.users@.len(),
        ensures
            self.sp_has_email(self.users@[k].email@),
            self.sp_user_index_by_email(self.users@[k].email@) == k,
            self.sp_user_by_email(self.users@[k].email@) == self.users@[k],
    {
        let email = self.users@[k].email@;
        assert(self.sp_has_email(email));
        let k2 = self.sp_user_index_by_email(email);
        if k2 != k {
            assert(self.users@[k].email@ != self.users@[k2].email@);
        }
    }

    /// Under `wf_posts`, a row holding post id `id` is the row that
    /// `sp_post` denotes.
    pub proof fn lemma_post_at(self, k: int)
        requires
            self.wf_posts(),
            0 <= k < self.posts@.len(),
        ensures
            self.sp_has_post(self.posts@[k].post_id),
            self.sp_post_index(self.posts@[k].post_id) == k,
            self.sp_post(self.posts@[k].post_id) == self.posts@[k],
    {
        let id = self.posts@[k].post_id;
        assert(self.sp_has_post(id));
        let k2 = self.sp_post_index(id);
        if k2 != k {
            if k2 < k {
                assert(self.posts@[k2].post_id < self.posts@[k].post_id);
            } else {
                assert(self.posts@[k].post_id < self.posts@[k2].post_id);
            }
        }
    }

    /// Under `wf_comments`, a row holding comment id `id` is the row that
    /// `sp_comment` denotes.
    pub proof fn lemma_comment_at(self, k: int)
        requires
            self.wf_comments(),
            0 <= k < self.comments@.len(),
        ensures
            self.sp_has_comment(self.comments@[k].comment_id),
            self.sp_comment_index(self.comments@[k].comment_id) == k,
            self.sp_comment(self.comments@[k].comment_id) == self.comments@[k],
    {
        let id = self.comments@[k].comment_id;
        assert(self.sp_has_comment(id));
        let k2 = self.sp_comment_index(id);
        if k2 != k {
            if k2 < k {
                assert(self.comments@[k2].comment_id < self.comments@[k].comment_id);
            } else {
                assert(self.comments@[k].comment_id < self.comments@[k2].comment_id);
            }
        }
    }
}

impl UserRecord {
    /// A field-by-field copy of the record.
    pub fn duplicate(&self) -> (r: UserRecord)
        ensures
            r == *self,
    {
        UserRecord {
            user_id: self.user_id,
            username: self.username.clone(),
            email: self.email.clone(),
            intro: match &self.intro {
                Some(s) => Some(s.clone()),
                None => None,
            },
            avatar: match &self.avatar {
                Some(s) => Some(s.clone()),
                None => None,
            },
            created_at: self.created_at,
            password_hash: self.password_hash.clone(),
        }
    }
}

impl PostRecord {
    /// A field-by-field copy of the record.
    pub fn duplicate(&self) -> (r: PostRecord)
        ensures
            r == *self,
    {
        PostRecord {
            post_id: self.post_id,
            author_id: self.author_id,
            title: self.title.clone(),
            description: self.description.clone(),
            content: self.content.clone(),
            created_at: self.created_at,
            like_count: self.like_count,
        }
    }
}

impl CommentRecord {
    /// A field-by-field copy of the record.
    pub fn duplicate(&self) -> (r: CommentRecord)
        ensures
            r == *self,
    {
        CommentRecord {
            comment_id: self.comment_id,
            post_id: self.post_id,
            user_id: self.user_id,
            content: self.content.clone(),
            created_at: self.created_at,
        }
    }
}

/// The stored post with its like counter replaced.
pub open spec fn sp_with_like_count(rec: PostRecord, n: i32) -> PostRecord {
    PostRecord {
        post_id: rec.post_id,
        author_id: rec.author_id,
        title: rec.title,
        description: rec.description,
        content: rec.content,
        created_at: rec.created_at,
        like_count: n,
    }
}

/// The two stores agree on the user table and its id counter.
pub open spec fn sp_same_users(a: Store, b: Store) -> bool {
    a.users@ == b.users@ && a.next_user_id == b.next_user_id
}

/// The two stores agree on the post table and its id counter.
pub open spec fn sp_same_posts(a: Store, b: Store) -> bool {
    a.posts@ == b.posts@ && a.next_post_id == b.next_post_id
}

/// The two stores agree on the comment table and its id counter.
pub open spec fn sp_same_comments(a: Store, b: Store) -> bool {
    a.comments@ == b.comments@ && a.next_comment_id == b.next_comment_id
}

/// The two stores agree on the follow edges.
pub open spec fn sp_same_follows(a: Store, b: Store) -> bool {
    a.follows@ == b.follows@
}

/// The two stores agree on the block edges.
pub open spec fn sp_same_blocks(a: Store, b: Store) -> bool {
    a.blocks@ == b.blocks@
}

/// The two stores agree on the like edges.
pub open spec fn sp_same_likes(a: Store, b: Store) -> bool {
    a.likes@ == b.likes@
}

/// Whether the edge list holds the pair `(a, b)`.
pub fn contains_pair(v: &Vec<(i32, i32)>, a: i32, b: i32) -> (r: bool)
    ensures
        r == v@.contains((a, b)),
{
    let mut i: usize = 0;
    while i < v.len()
        invariant
            i <= v@.len(),
            forall|k: int| 0 <= k < i ==> v@[k] != (a, b),
        decreases v@.len() - i,
    {
        if v[i].0 == a && v[i].1 == b {
            return true;
        }
        i += 1;
    }
    false
}

/// Removes every occurrence of the pair `(a, b)` from the edge list,
/// keeping the order of the rest.
pub fn remove_pair(v: &mut Vec<(i32, i32)>, a: i32, b: i32)
    ensures
        final(v)@ == sp_remove_pair(old(v)@, a, b),
{
    let ghost orig = v@;
    let mut out: Vec<(i32, i32)> = Vec::new();
    let mut i: usize = 0;
    while i < v.len()
        invariant
            v@ == orig,
            i <= orig.len(),
            out@ == sp_remove_pair(orig.take(i as int), a, b),
        decreases orig.len() - i,
    {
        let e = v[i];
        proof {
            assert(orig.take(i + 1 as int) =~= orig.take(i as int).push(orig[i as int]));
            assert(orig.take(i + 1 as int).drop_last() =~= orig.take(i as int));
        }
        if !(e.0 == a && e.1 == b) {
            out.push(e);
        }
        i += 1;
    }
    proof {
        assert(orig.take(orig.len() as int) =~= orig);
    }
    *v = out;
}

/// Membership in `sp_remove_pair(s, a, b)`: exactly the members of `s`
/// other than `(a, b)`.
pub proof fn lemma_remove_pair_contains(s: Seq<(i32, i32)>, a: i32, b: i32, e: (i32, i32))
    ensures
        sp_remove_pair(s, a, b).contains(e) <==> (s.contains(e) && e != (a, b)),
    decreases s.len(),
{
    if s.len() == 0 {
    } else {
        lemma_remove_pair_contains(s.drop_last(), a, b, e);
        let rest = sp_remove_pair(s.drop_last(), a, b);
        if s.last() == (a, b) {
            if s.contains(e) && e != (a, b) {
                let k = choose|k: int| 0 <= k < s.len() && s[k] == e;
                assert(k < s.len() - 1);
                assert(s.drop_last()[k] == e);
                assert(s.drop_last().contains(e));
            }
            if s.drop_last().contains(e) {
                let k = choose|k: int| 0 <= k < s.drop_last().len() && s.drop_last()[k] == e;
                assert(s[k] == e);
                assert(s.contains(e));
            }
        } else {
            if s.contains(e) && e != (a, b) {
                let k = choose|k: int| 0 <= k < s.len() && s[k] == e;
                if k < s.len() - 1 {
                    assert(s.drop_last()[k] == e);
                    assert(s.drop_last().contains(e));
                    assert(rest.contains(e));
                    let k2 = choose|k2: int| 0 <= k2 < rest.len() && rest[k2] == e;
                    assert(rest.push(s.last())[k2] == e);
                    assert(rest.push(s.last()).contains(e));
                } else {
                    assert(rest.push(s.last())[rest.len() as int] == e);
                    assert(rest.push(s.last()).contains(e));
                }
            }
            if rest.push(s.last()).contains(e) {
                let k = choose|k: int| 0 <= k < rest.len() + 1 && rest.push(s.last())[k] == e;
                if k < rest.len() {
                    assert(rest[k] == e);
                    assert(rest.contains(e));
                    assert(s.drop_last().contains(e));
                    let k2 = choose|k2: int|
                        0 <= k2 < s.drop_last().len() && s.drop_last()[k2] == e;
                    assert(s[k2] == e);
                    assert(s.contains(e));
                } else {
                    assert(e == s.last());
                    assert(s[s.len() - 1] == e);
                    assert(s.contains(e));
                }
            }
        }
    }
}

/// Removing a pair that the list does not hold changes nothing.
pub proof fn lemma_remove_pair_absent(s: Seq<(i32, i32)>, a: i32, b: i32)
    requires
        !s.contains((a, b)),
    ensures
        sp_remove_pair(s, a, b) == s,
    decreases s.len(),
{
    if s.len() > 0 {
        assert(s[s.len() - 1] == s.last());
        assert(s.last() != (a, b));
        assert forall|i: int| 0 <= i < s.drop_last().len() implies s.drop_last()[i]
            != (a, b) by {
            assert(s[i] == s.drop_last()[i]);
        }
        if s.drop_last().contains((a, b)) {
            let m = choose|m: int| 0 <= m < s.drop_last().len() && s.drop_last()[m] == (a, b);
            assert(s.drop_last()[m] != (a, b));
        }
        lemma_remove_pair_absent(s.drop_last(), a, b);
        assert(s.drop_last().push(s.last()) =~= s);
    }
}

/// `sp_remove_pair` keeps pairwise distinctness.
pub proof fn lemma_remove_pair_distinct(s: Seq<(i32, i32)>, a: i32, b: i32)
    requires
        sp_pairwise_distinct(s),
    ensures
        sp_pairwise_distinct(sp_remove_pair(s, a, b)),
    decreases s.len(),
{
    if s.len() == 0 {
    } else {
        assert(forall|i: int, j: int|
            0 <= i < j < s.drop_last().len() ==> s.drop_last()[i] != s.drop_last()[j]);
        lemma_remove_pair_distinct(s.drop_last(), a, b);
        let rest = sp_remove_pair(s.drop_last(), a, b);
        if s.last() != (a, b) {
            assert forall|i: int, j: int|
                0 <= i < j < rest.push(s.last()).len() implies rest.push(s.last())[i]
                != rest.push(s.last())[j] by {
                if j < rest.len() {
                    assert(rest[i] != rest[j]);
                } else {
                    assert(rest.contains(rest[i]));
                    lemma_remove_pair_contains(s.drop_last(), a, b, rest[i]);
                    assert(s.drop_last().contains(rest[i]));
                    let k = choose|k: int|
                        0 <= k < s.drop_last().len() && s.drop_last()[k] == rest[i];
                    assert(s[k] == rest[i]);
                    assert(s[k] != s.last());
                }
            }
        }
    }
}

/// A member of `s` contributes at least one to the like count of its post.
pub proof fn lemma_contains_count(s: Seq<(i32, i32)>, u: i32, p: i32)
    requires
        s.contains((u, p)),
    ensures
        sp_count_likes(s, p) >= 1,
    decreases s.len(),
{
    if s.len() > 0 {
        if s.last() == (u, p) {
            lemma_count_nonneg(s.drop_last(), p);
        } else {
            let k = choose|k: int| 0 <= k < s.len() && s[k] == (u, p);
            assert(s.drop_last()[k] == (u, p));
            assert(s.drop_last().contains((u, p)));
            lemma_contains_count(s.drop_last(), u, p);
        }
    }
}

/// Like counts are never negative.
pub proof fn lemma_count_nonneg(s: Seq<(i32, i32)>, p: i32)
    ensures
        sp_count_likes(s, p) >= 0,
    decreases s.len(),
{
    if s.len() > 0 {
        lemma_count_nonneg(s.drop_last(), p);
    }
}

/// How removing one like edge `(u, p)` changes the like count of each post:
/// under pairwise distinctness, the count of `p` drops by one exactly when
/// the edge was present, and every other count is unchanged.
pub proof fn lemma_count_remove_pair(s: Seq<(i32, i32)>, u: i32, p: i32, q: i32)
    requires
        sp_pairwise_distinct(s),
    ensures
        sp_count_likes(sp_remove_pair(s, u, p), q) == sp_count_likes(s, q) - if q == p
            && s.contains((u, p)) {
            1int
        } else {
            0int
        },
    decreases s.len(),
{
    if s.len() == 0 {
    } else {
        assert(forall|i: int, j: int|
            0 <= i < j < s.drop_last().len() ==> s.drop_last()[i] != s.drop_last()[j]);
        lemma_count_remove_pair(s.drop_last(), u, p, q);
        if s.last() == (u, p) {
            // the last element cannot recur earlier
            if s.drop_last().contains((u, p)) {
                let k = choose|k: int| 0 <= k < s.drop_last().len() && s.drop_last()[k] == (u, p);
                assert(s[k] == s.last());
            }
            assert(s.contains((u, p))) by {
                assert(s[s.len() - 1] == (u, p));
            }
        } else {
            if s.contains((u, p)) {
                let k = choose|k: int| 0 <= k < s.len() && s[k] == (u, p);
                assert(k < s.len() - 1);
                assert(s.drop_last()[k] == (u, p));
                assert(s.drop_last().contains((u, p)));
            }
            if s.drop_last().contains((u, p)) {
                let k = choose|k: int| 0 <= k < s.drop_last().len() && s.drop_last()[k] == (u, p);
                assert(s[k] == (u, p));
                assert(s.contains((u, p)));
            }
            let rest = sp_remove_pair(s.drop_last(), u, p);
            assert(rest.push(s.last()).drop_last() =~= rest);
            assert(rest.push(s.last()).last() == s.last());
        }
    }
}

/// How pushing one like edge `(u, p)` changes the like count of each post.
pub proof fn lemma_count_push(s: Seq<(i32, i32)>, u: i32, p: i32, q: i32)
    ensures
        sp_count_likes(s.push((u, p)), q) == sp_count_likes(s, q) + if q == p {
            1int
        } else {
            0int
        },
{
    assert(s.push((u, p)).drop_last() =~= s);
    assert(s.push((u, p)).last() == (u, p));
}

/// Membership in a pushed edge list.
pub proof fn lemma_push_contains(s: Seq<(i32, i32)>, x: (i32, i32), e: (i32, i32))
    ensures
        s.push(x).contains(e) <==> (s.contains(e) || e == x),
{
    if s.push(x).contains(e) {
        let k = choose|k: int| 0 <= k < s.push(x).len() && s.push(x)[k] == e;
        if k < s.len() {
            assert(s[k] == e);
            assert(s.contains(e));
        }
    }
    if s.contains(e) {
        let k = choose|k: int| 0 <= k < s.len() && s[k] == e;
        assert(s.push(x)[k] == e);
        assert(s.push(x).contains(e));
    }
    assert(s.push(x)[s.len() as int] == x);
}

/// Two stores that agree on everything but their follow and block edges
/// satisfy the same per-table invariants for users, posts, comments and
/// likes.
pub proof fn lemma_wf_tables_carry(pre: Store, post: Store)
    requires
        pre.wf(),
        post.users@ == pre.users@,
        post.posts@ == pre.posts@,
        post.comments@ == pre.comments@,
        post.likes@ == pre.likes@,
        post.next_user_id == pre.next_user_id,
        post.next_post_id == pre.next_post_id,
        post.next_comment_id == pre.next_comment_id,
    ensures
        post.wf_users(),
        post.wf_posts(),
        post.wf_comments(),
        post.wf_likes(),
{
    assert(forall|id: i32| post.sp_has_user_id(id) == pre.sp_has_user_id(id));
    assert(forall|id: i32| post.sp_has_post(id) == pre.sp_has_post(id));
    assert(forall|p: i32| post.sp_like_count(p) == pre.sp_like_count(p));
}

/// Creating a follow edge `(a, b)` preserves the store invariant, given the
/// mutation guard's preconditions for a follow.
pub proof fn lemma_wf_push_follow(pre: Store, post: Store, a: i32, b: i32)
    requires
        pre.wf(),
        a != b,
        pre.sp_has_user_id(a),
        pre.sp_has_user_id(b),
        !pre.sp_following(a, b),
        !pre.sp_blocked(a, b),
        !pre.sp_blocked(b, a),
        post.users@ == pre.users@,
        post.posts@ == pre.posts@,
        post.comments@ == pre.comments@,
        post.blocks@ == pre.blocks@,
        post.likes@ == pre.likes@,
        post.next_user_id == pre.next_user_id,
        post.next_post_id == pre.next_post_id,
        post.next_comment_id == pre.next_comment_id,
        post.follows@ == pre.follows@.push((a, b)),
    ensures
        post.wf(),
{
    lemma_wf_tables_carry(pre, post);
    let f = post.follows@;
    assert forall|i: int, j: int| 0 <= i < j < f.len() implies f[i] != f[j] by {
        if j == f.len() - 1 {
            if f[i] == (a, b) {
                assert(pre.follows@[i] == (a, b));
                assert(pre.follows@.contains((a, b)));
            }
        }
    }
    assert forall|i: int| 0 <= i < f.len() implies (#[trigger] f[i]).0 != f[i].1
        && post.sp_has_user_id(f[i].0) && post.sp_has_user_id(f[i].1) by {
        if i < f.len() - 1 {
            assert(pre.follows@[i] == f[i]);
        } else {
            assert(f[i] == (a, b));
        }
        assert(forall|id: i32| post.sp_has_user_id(id) == pre.sp_has_user_id(id));
    }
    assert forall|i: int| 0 <= i < post.blocks@.len() implies !post.follows@.contains(
        #[trigger] post.blocks@[i],
    ) && !post.follows@.contains((post.blocks@[i].1, post.blocks@[i].0)) by {
        let e = post.blocks@[i];
        assert(pre.blocks@[i] == e);
        assert(pre.blocks@.contains(e));
        lemma_push_contains(pre.follows@, (a, b), e);
        lemma_push_contains(pre.follows@, (a, b), (e.1, e.0));
        if e == (a, b) {
            assert(pre.sp_blocked(a, b));
        }
        if (e.1, e.0) == (a, b) {
            assert(e == (b, a));
            assert(pre.sp_blocked(b, a));
        }
    }
}

/// Deleting the follow edge `(a, b)` preserves the store invariant.
pub proof fn lemma_wf_remove_follow(pre: Store, post: Store, a: i32, b: i32)
    requires
        pre.wf(),
        post.users@ == pre.users@,
        post.posts@ == pre.posts@,
        post.comments@ == pre.comments@,
        post.blocks@ == pre.blocks@,
        post.likes@ == pre.likes@,
        post.next_user_id == pre.next_user_id,
        post.next_post_id == pre.next_post_id,
        post.next_comment_id == pre.next_comment_id,
        post.follows@ == sp_remove_pair(pre.follows@, a, b),
    ensures
        post.wf(),
{
    lemma_wf_tables_carry(pre, post);
    lemma_remove_pair_distinct(pre.follows@, a, b);
    let f = post.follows@;
    assert forall|i: int| 0 <= i < f.len() implies (#[trigger] f[i]).0 != f[i].1
        && post.sp_has_user_id(f[i].0) && post.sp_has_user_id(f[i].1) by {
        assert(f.contains(f[i]));
        lemma_remove_pair_contains(pre.follows@, a, b, f[i]);
        let k = choose|k: int| 0 <= k < pre.follows@.len() && pre.follows@[k] == f[i];
        assert(pre.follows@[k].0 != pre.follows@[k].1);
        assert(forall|id: i32| post.sp_has_user_id(id) == pre.sp_has_user_id(id));
    }
    assert forall|i: int| 0 <= i < post.blocks@.len() implies !post.follows@.contains(
        #[trigger] post.blocks@[i],
    ) && !post.follows@.contains((post.blocks@[i].1, post.blocks@[i].0)) by {
        let e = post.blocks@[i];
        assert(pre.blocks@[i] == e);
        lemma_remove_pair_contains(pre.follows@, a, b, e);
        lemma_remove_pair_contains(pre.follows@, a, b, (e.1, e.0));
    }
}

/// Creating a block edge `(a, b)` while deleting the follow edges of the
/// pair in both directions preserves the store invariant, given the
/// mutation guard's preconditions for a block.
pub proof fn lemma_wf_block(pre: Store, post: Store, a: i32, b: i32)
    requires
        pre.wf(),
        a != b,
        pre.sp_has_user_id(a),
        pre.sp_has_user_id(b),
        !pre.sp_blocked(a, b),
        post.users@ == pre.users@,
        post.posts@ == pre.posts@,
        post.comments@ == pre.comments@,
        post.likes@ == pre.likes@,
        post.next_user_id == pre.next_user_id,
        post.next_post_id == pre.next_post_id,
        post.next_comment_id == pre.next_comment_id,
        post.follows@ == sp_remove_pair(sp_remove_pair(pre.follows@, a, b), b, a),
        post.blocks@ == pre.blocks@.push((a, b)),
    ensures
        post.wf(),
{
    lemma_wf_tables_carry(pre, post);
    let mid = sp_remove_pair(pre.follows@, a, b);
    lemma_remove_pair_distinct(pre.follows@, a, b);
    lemma_remove_pair_distinct(mid, b, a);
    let f = post.follows@;
    assert forall|i: int| 0 <= i < f.len() implies (#[trigger] f[i]).0 != f[i].1
        && post.sp_has_user_id(f[i].0) && post.sp_has_user_id(f[i].1) by {
        assert(f.contains(f[i]));
        lemma_remove_pair_contains(mid, b, a, f[i]);
        lemma_remove_pair_contains(pre.follows@, a, b, f[i]);
        let k = choose|k: int| 0 <= k < pre.follows@.len() && pre.follows@[k] == f[i];
        assert(pre.follows@[k].0 != pre.follows@[k].1);
        assert(forall|id: i32| post.sp_has_user_id(id) == pre.sp_has_user_id(id));
    }
    let bl = post.blocks@;
    assert forall|i: int, j: int| 0 <= i < j < bl.len() implies bl[i] != bl[j] by {
        if j == bl.len() - 1 {
            if bl[i] == (a, b) {
                assert(pre.blocks@[i] == (a, b));
                assert(pre.blocks@.contains((a, b)));
            }
        }
    }
    assert forall|i: int| 0 <= i < bl.len() implies (#[trigger] bl[i]).0 != bl[i].1
        && post.sp_has_user_id(bl[i].0) && post.sp_has_user_id(bl[i].1) by {
        if i < bl.len() - 1 {
            assert(pre.blocks@[i] == bl[i]);
        } else {
            assert(bl[i] == (a, b));
        }
        assert(forall|id: i32| post.sp_has_user_id(id) == pre.sp_has_user_id(id));
    }
    assert forall|i: int| 0 <= i < bl.len() implies !post.follows@.contains(#[trigger] bl[i])
        && !post.follows@.contains((bl[i].1, bl[i].0)) by {
        let e = bl[i];
        lemma_remove_pair_contains(mid, b, a, e);
        lemma_remove_pair_contains(pre.follows@, a, b, e);
        lemma_remove_pair_contains(mid, b, a, (e.1, e.0));
        lemma_remove_pair_contains(pre.follows@, a, b, (e.1, e.0));
        if i < bl.len() - 1 {
            assert(pre.blocks@[i] == e);
        } else {
            assert(e == (a, b));
        }
    }
}

/// `s` with every like edge targeting post `p` removed, order kept.
pub open spec fn sp_remove_likes_of_post(s: Seq<(i32, i32)>, p: i32) -> Seq<(i32, i32)>
    decreases s.len(),
{
    if s.len() == 0 {
        Seq::empty()
    } else if s.last().1 == p {
        sp_remove_likes_of_post(s.drop_last(), p)
    } else {
        sp_remove_likes_of_post(s.drop_last(), p).push(s.last())
    }
}

/// Membership in `sp_remove_likes_of_post(s, p)`.
pub proof fn lemma_remove_likes_contains(s: Seq<(i32, i32)>, p: i32, e: (i32, i32))
    ensures
        sp_remove_likes_of_post(s, p).contains(e) <==> (s.contains(e) && e.1 != p),
    decreases s.len(),
{
    if s.len() > 0 {
        lemma_remove_likes_contains(s.drop_last(), p, e);
        let rest = sp_remove_likes_of_post(s.drop_last(), p);
        if s.contains(e) && e.1 != p {
            let k = choose|k: int| 0 <= k < s.len() && s[k] == e;
            if k < s.len() - 1 {
                assert(s.drop_last()[k] == e);
                assert(s.drop_last().contains(e));
                if s.last().1 != p {
                    let k2 = choose|k2: int| 0 <= k2 < rest.len() && rest[k2] == e;
                    assert(rest.push(s.last())[k2] == e);
                    assert(rest.push(s.last()).contains(e));
                }
            } else {
                assert(e == s.last());
                assert(rest.push(s.last())[rest.len() as int] == e);
                assert(rest.push(s.last()).contains(e));
            }
        }
        if s.last().1 == p {
            if rest.contains(e) {
                assert(s.drop_last().contains(e));
                let k2 = choose|k2: int| 0 <= k2 < s.drop_last().len() && s.drop_last()[k2] == e;
                assert(s[k2] == e);
                assert(s.contains(e));
            }
        } else {
            if rest.push(s.last()).contains(e) {
                let k = choose|k: int| 0 <= k < rest.len() + 1 && rest.push(s.last())[k] == e;
                if k < rest.len() {
                    assert(rest[k] == e);
                    assert(rest.contains(e));
                    assert(s.drop_last().contains(e));
                    let k2 = choose|k2: int|
                        0 <= k2 < s.drop_last().len() && s.drop_last()[k2] == e;
                    assert(s[k2] == e);
                    assert(s.contains(e));
                } else {
                    assert(e == s.last());
                    assert(s[s.len() - 1] == e);
                    assert(s.contains(e));
                }
            }
        }
    }
}

/// `sp_remove_likes_of_post` keeps pairwise distinctness.
pub proof fn lemma_remove_likes_distinct(s: Seq<(i32, i32)>, p: i32)
    requires
        sp_pairwise_distinct(s),
    ensures
        sp_pairwise_distinct(sp_remove_likes_of_post(s, p)),
    decreases s.len(),
{
    if s.len() > 0 {
        assert(forall|i: int, j: int|
            0 <= i < j < s.drop_last().len() ==> s.drop_last()[i] != s.drop_last()[j]);
        lemma_remove_likes_distinct(s.drop_last(), p);
        let rest = sp_remove_likes_of_post(s.drop_last(), p);
        if s.last().1 != p {
            assert forall|i: int, j: int|
                0 <= i < j < rest.push(s.last()).len() implies rest.push(s.last())[i]
                != rest.push(s.last())[j] by {
                if j < rest.len() {
                    assert(rest[i] != rest[j]);
                } else {
                    assert(rest.contains(rest[i]));
                    lemma_remove_likes_contains(s.drop_last(), p, rest[i]);
                    let k = choose|k: int|
                        0 <= k < s.drop_last().len() && s.drop_last()[k] == rest[i];
                    assert(s[k] == rest[i]);
                    assert(s[k] != s.last());
                }
            }
        }
    }
}

/// After removing every like edge of post `p`, the like count of `p` is
/// zero and every other count is unchanged.
pub proof fn lemma_count_remove_likes(s: Seq<(i32, i32)>, p: i32, q: i32)
    ensures
        sp_count_likes(sp_remove_likes_of_post(s, p), q) == if q == p {
            0int
        } else {
            sp_count_likes(s, q)
        },
    decreases s.len(),
{
    if s.len() > 0 {
        lemma_count_remove_likes(s.drop_last(), p, q);
        let rest = sp_remove_likes_of_post(s.drop_last(), p);
        if s.last().1 != p {
            assert(rest.push(s.last()).drop_last() =~= rest);
            assert(rest.push(s.last()).last() == s.last());
        }
    }
}

/// A like table in which no edge targets post `p` counts zero likes for it.
pub proof fn lemma_count_zero(s: Seq<(i32, i32)>, p: i32)
    requires
        forall|i: int| 0 <= i < s.len() ==> (#[trigger] s[i]).1 != p,
    ensures
        sp_count_likes(s, p) == 0,
    decreases s.len(),
{
    if s.len() > 0 {
        assert(forall|i: int| 0 <= i < s.drop_last().len() ==> (#[trigger] s[i]).1 != p);
        lemma_count_zero(s.drop_last(), p);
    }
}

/// Removes every like edge targeting post `p`, keeping the order of the
/// rest.
pub fn remove_likes_of_post(v: &mut Vec<(i32, i32)>, p: i32)
    ensures
        final (v)@ == sp_remove_likes_of_post(old(v)@, p),
{
    let ghost orig = v@;
    let mut out: Vec<(i32, i32)> = Vec::new();
    let mut i: usize = 0;
    while i < v.len()
        invariant
            v@ == orig,
            i <= orig.len(),
            out@ == sp_remove_likes_of_post(orig.take(i as int), p),
        decreases orig.len() - i,
    {
        let e = v[i];
        proof {
            assert(orig.take(i + 1 as int) =~= orig.take(i as int).push(orig[i as int]));
            assert(orig.take(i + 1 as int).drop_last() =~= orig.take(i as int));
        }
        if e.1 != p {
            out.push(e);
        }
        i += 1;
    }
    proof {
        assert(orig.take(orig.len() as int) =~= orig);
    }
    *v = out;
}

/// `s` with every comment on post `p` removed, order kept.
pub open spec fn sp_remove_comments_of_post(s: Seq<CommentRecord>, p: i32) -> Seq<CommentRecord>
    decreases s.len(),
{
    if s.len() == 0 {
        Seq::empty()
    } else if s.last().post_id == p {
        sp_remove_comments_of_post(s.drop_last(), p)
    } else {
        sp_remove_comments_of_post(s.drop_last(), p).push(s.last())
    }
}

/// Every member of `sp_remove_comments_of_post(s, p)` is a member of `s`
/// that does not sit on post `p`, and conversely.
pub proof fn lemma_remove_comments_contains(s: Seq<CommentRecord>, p: i32, e: CommentRecord)
    ensures
        sp_remove_comments_of_post(s, p).contains(e) <==> (s.contains(e) && e.post_id != p),
    decreases s.len(),
{
    if s.len() > 0 {
        lemma_remove_comments_contains(s.drop_last(), p, e);
        let rest = sp_remove_comments_of_post(s.drop_last(), p);
        if s.contains(e) && e.post_id != p {
            let k = choose|k: int| 0 <= k < s.len() && s[k] == e;
            if k < s.len() - 1 {
                assert(s.drop_last()[k] == e);
                assert(s.drop_last().contains(e));
                if s.last().post_id != p {
                    let k2 = choose|k2: int| 0 <= k2 < rest.len() && rest[k2] == e;
                    assert(rest.push(s.last())[k2] == e);
                    assert(rest.push(s.last()).contains(e));
                }
            } else {
                assert(e == s.last());
                assert(rest.push(s.last())[rest.len() as int] == e);
                assert(rest.push(s.last()).contains(e));
            }
        }
        if s.last().post_id == p {
            if rest.contains(e) {
                assert(s.drop_last().contains(e));
                let k2 = choose|k2: int| 0 <= k2 < s.drop_last().len() && s.drop_last()[k2] == e;
                assert(s[k2] == e);
                assert(s.contains(e));
            }
        } else {
            if rest.push(s.last()).contains(e) {
                let k = choose|k: int| 0 <= k < rest.len() + 1 && rest.push(s.last())[k] == e;
                if k < rest.len() {
                    assert(rest[k] == e);
                    assert(rest.contains(e));
                    assert(s.drop_last().contains(e));
                    let k2 = choose|k2: int|
                        0 <= k2 < s.drop_last().len() && s.drop_last()[k2] == e;
                    assert(s[k2] == e);
                    assert(s.contains(e));
                } else {
                    assert(e == s.last());
                    assert(s[s.len() - 1] == e);
                    assert(s.contains(e));
                }
            }
        }
    }
}

/// Comment ids strictly ascend along the table.
pub open spec fn sp_comments_ascending(s: Seq<CommentRecord>) -> bool {
    forall|i: int, j: int|
        #![trigger s[i].comment_id, s[j].comment_id]
        0 <= i < j < s.len() ==> s[i].comment_id < s[j].comment_id
}

/// `sp_remove_comments_of_post` keeps the ascending order of comment ids.
pub proof fn lemma_remove_comments_ascending(s: Seq<CommentRecord>, p: i32)
    requires
        sp_comments_ascending(s),
    ensures
        sp_comments_ascending(sp_remove_comments_of_post(s, p)),
    decreases s.len(),
{
    if s.len() > 0 {
        assert(sp_comments_ascending(s.drop_last()));
        lemma_remove_comments_ascending(s.drop_last(), p);
        let rest = sp_remove_comments_of_post(s.drop_last(), p);
        if s.last().post_id != p {
            assert forall|i: int, j: int|
                0 <= i < j < rest.push(s.last()).len() implies rest.push(s.last())[i].comment_id
                < rest.push(s.last())[j].comment_id by {
                if j < rest.len() {
                    assert(rest[i].comment_id < rest[j].comment_id);
                } else {
                    assert(rest.contains(rest[i]));
                    lemma_remove_comments_contains(s.drop_last(), p, rest[i]);
                    let k = choose|k: int|
                        0 <= k < s.drop_last().len() && s.drop_last()[k] == rest[i];
                    assert(s[k].comment_id < s[s.len() - 1].comment_id);
                }
            }
        }
    }
}

/// Removes every comment on post `p`, keeping the order of the rest.
pub fn remove_comments_of_post(v: &mut Vec<CommentRecord>, p: i32)
    ensures
        final (v)@ == sp_remove_comments_of_post(old(v)@, p),
{
    let ghost orig = v@;
    let mut out: Vec<CommentRecord> = Vec::new();
    let mut i: usize = 0;
    while i < v.len()
        invariant
            v@ == orig,
            i <= orig.len(),
            out@ == sp_remove_comments_of_post(orig.take(i as int), p),
        decreases orig.len() - i,
    {
        proof {
            assert(orig.take(i + 1 as int) =~= orig.take(i as int).push(orig[i as int]));
            assert(orig.take(i + 1 as int).drop_last() =~= orig.take(i as int));
        }
        if v[i].post_id != p {
            let rec = v[i].duplicate();
            out.push(rec);
        }
        i += 1;
    }
    proof {
        assert(orig.take(orig.len() as int) =~= orig);
    }
    *v = out;
}

/// Deleting the block edge `(a, b)` preserves the store invariant.
pub proof fn lemma_wf_unblock(pre: Store, post: Store, a: i32, b: i32)
    requires
        pre.wf(),
        post.users@ == pre.users@,
        post.posts@ == pre.posts@,
        post.comments@ == pre.comments@,
        post.follows@ == pre.follows@,
        post.likes@ == pre.likes@,
        post.next_user_id == pre.next_user_id,
        post.next_post_id == pre.next_post_id,
        post.next_comment_id == pre.next_comment_id,
        post.blocks@ == sp_remove_pair(pre.blocks@, a, b),
    ensures
        post.wf(),
{
    lemma_wf_tables_carry(pre, post);
    lemma_remove_pair_distinct(pre.blocks@, a, b);
    let bl = post.blocks@;
    assert forall|i: int| 0 <= i < bl.len() implies (#[trigger] bl[i]).0 != bl[i].1
        && post.sp_has_user_id(bl[i].0) && post.sp_has_user_id(bl[i].1) && !post.follows@.contains(
        bl[i],
    ) && !post.follows@.contains((bl[i].1, bl[i].0)) by {
        assert(bl.contains(bl[i]));
        lemma_remove_pair_contains(pre.blocks@, a, b, bl[i]);
        let k = choose|k: int| 0 <= k < pre.blocks@.len() && pre.blocks@[k] == bl[i];
        assert(pre.blocks@[k].0 != pre.blocks@[k].1);
        assert(!pre.follows@.contains(pre.blocks@[k]));
        assert(!pre.follows@.contains((pre.blocks@[k].1, pre.blocks@[k].0)));
        assert(forall|id: i32| post.sp_has_user_id(id) == pre.sp_has_user_id(id));
    }
}

/// Creating a post with the next free id, a zero like count and an
/// existing author preserves the store invariant.
pub proof fn lemma_wf_create_post(pre: Store, post: Store, rec: PostRecord)
    requires
        pre.wf(),
        rec.post_id == pre.next_post_id,
        pre.next_post_id < i32::MAX,
        pre.sp_has_user_id(rec.author_id),
        rec.like_count == 0,
        post.users@ == pre.users@,
        post.comments@ == pre.comments@,
        post.follows@ == pre.follows@,
        post.blocks@ == pre.blocks@,
        post.likes@ == pre.likes@,
        post.next_user_id == pre.next_user_id,
        post.next_comment_id == pre.next_comment_id,
        post.posts@ == pre.posts@.push(rec),
        post.next_post_id == pre.next_post_id + 1,
    ensures
        post.wf(),
{
    assert(forall|id: i32| post.sp_has_user_id(id) == pre.sp_has_user_id(id));
    let ps = post.posts@;
    assert forall|i: int| 0 <= i < ps.len() implies post.sp_has_user_id(
        (#[trigger] ps[i]).author_id,
    ) && ps[i].post_id < post.next_post_id by {
        if i < ps.len() - 1 {
            assert(ps[i] == pre.posts@[i]);
        } else {
            assert(ps[i] == rec);
        }
    }
    assert forall|i: int, j: int| 0 <= i < j < ps.len() implies ps[i].post_id
        < ps[j].post_id by {
        if j == ps.len() - 1 {
            assert(ps[i] == pre.posts@[i]);
            assert(pre.posts@[i].post_id < pre.next_post_id);
        }
    }
    assert forall|id: i32| pre.sp_has_post(id) implies post.sp_has_post(id) by {
        let k = choose|k: int| 0 <= k < pre.posts@.len() && pre.posts@[k].post_id == id;
        assert(ps[k].post_id == id);
    }
    assert(post.sp_has_post(rec.post_id)) by {
        assert(ps[ps.len() - 1].post_id == rec.post_id);
    }
    assert(post.wf_comments());
    assert forall|q: i32| true implies post.sp_like_count(q) == pre.sp_like_count(q) by {}
    assert forall|i: int| 0 <= i < ps.len() implies (#[trigger] ps[i]).like_count
        == post.sp_like_count(ps[i].post_id) by {
        if i < ps.len() - 1 {
            assert(ps[i] == pre.posts@[i]);
        } else {
            assert(ps[i] == rec);
            assert forall|m: int| 0 <= m < pre.likes@.len() implies (#[trigger] pre.likes@[m]).1
                != rec.post_id by {
                assert(pre.sp_has_post(pre.likes@[m].1));
                let k2 = choose|k2: int|
                    0 <= k2 < pre.posts@.len() && pre.posts@[k2].post_id == pre.likes@[m].1;
                assert(pre.posts@[k2].post_id < pre.next_post_id);
            }
            lemma_count_zero(pre.likes@, rec.post_id);
        }
    }
}

/// Replacing a post's text fields in place — id, author and like count
/// unchanged — preserves the store invariant.
pub proof fn lemma_wf_update_post(pre: Store, post: Store, k: int, rec: PostRecord)
    requires
        pre.wf(),
        0 <= k < pre.posts@.len(),
        rec.post_id == pre.posts@[k].post_id,
        rec.author_id == pre.posts@[k].author_id,
        rec.like_count == pre.posts@[k].like_count,
        post.users@ == pre.users@,
        post.comments@ == pre.comments@,
        post.follows@ == pre.follows@,
        post.blocks@ == pre.blocks@,
        post.likes@ == pre.likes@,
        post.next_user_id == pre.next_user_id,
        post.next_post_id == pre.next_post_id,
        post.next_comment_id == pre.next_comment_id,
        post.posts@ == pre.posts@.update(k, rec),
    ensures
        post.wf(),
{
    assert(forall|id: i32| post.sp_has_user_id(id) == pre.sp_has_user_id(id));
    let ps = post.posts@;
    assert(forall|i: int|
        0 <= i < ps.len() ==> (#[trigger] ps[i]).post_id == pre.posts@[i].post_id
            && ps[i].author_id == pre.posts@[i].author_id && ps[i].like_count
            == pre.posts@[i].like_count);
    assert forall|id: i32| pre.sp_has_post(id) implies post.sp_has_post(id) by {
        let m = choose|m: int| 0 <= m < pre.posts@.len() && pre.posts@[m].post_id == id;
        assert(ps[m].post_id == id);
    }
    assert(post.wf_comments());
    assert(post.wf_likes());
}

/// Creating a like edge `(u, p)` while incrementing the post's counter in
/// place preserves the store invariant, given the mutation guard's
/// preconditions for a like.
pub proof fn lemma_wf_like(pre: Store, post: Store, u: i32, k: int, rec: PostRecord)
    requires
        pre.wf(),
        0 <= k < pre.posts@.len(),
        pre.sp_has_user_id(u),
        !pre.sp_liked(u, pre.posts@[k].post_id),
        pre.posts@[k].like_count < i32::MAX,
        rec.post_id == pre.posts@[k].post_id,
        rec.author_id == pre.posts@[k].author_id,
        rec.title == pre.posts@[k].title,
        rec.description == pre.posts@[k].description,
        rec.content == pre.posts@[k].content,
        rec.created_at == pre.posts@[k].created_at,
        rec.like_count == pre.posts@[k].like_count + 1,
        post.users@ == pre.users@,
        post.comments@ == pre.comments@,
        post.follows@ == pre.follows@,
        post.blocks@ == pre.blocks@,
        post.next_user_id == pre.next_user_id,
        post.next_post_id == pre.next_post_id,
        post.next_comment_id == pre.next_comment_id,
        post.likes@ == pre.likes@.push((u, pre.posts@[k].post_id)),
        post.posts@ == pre.posts@.update(k, rec),
    ensures
        post.wf(),
{
    let pid = pre.posts@[k].post_id;
    assert(forall|id: i32| post.sp_has_user_id(id) == pre.sp_has_user_id(id));
    let ps = post.posts@;
    assert(forall|i: int|
        0 <= i < ps.len() ==> (#[trigger] ps[i]).post_id == pre.posts@[i].post_id
            && ps[i].author_id == pre.posts@[i].author_id);
    assert forall|id: i32| pre.sp_has_post(id) implies post.sp_has_post(id) by {
        let m = choose|m: int| 0 <= m < pre.posts@.len() && pre.posts@[m].post_id == id;
        assert(ps[m].post_id == id);
    }
    assert(post.wf_users());
    assert(post.wf_posts());
    assert(post.wf_comments());
    assert(post.wf_follows());
    assert(post.wf_blocks());
    // distinctness of the extended like table
    let ls = post.likes@;
    assert forall|i: int, j: int| 0 <= i < j < ls.len() implies ls[i] != ls[j] by {
        if j == ls.len() - 1 {
            if ls[i] == (u, pid) {
                assert(pre.likes@[i] == (u, pid));
                assert(pre.likes@.contains((u, pid)));
            }
        }
    }
    assert forall|i: int| 0 <= i < ls.len() implies pre.sp_has_user_id((#[trigger] ls[i]).0)
        && pre.sp_has_post(ls[i].1) by {
        if i < ls.len() - 1 {
            assert(ls[i] == pre.likes@[i]);
        } else {
            assert(ls[i] == (u, pid));
            pre.lemma_post_at(k);
        }
    }
    assert forall|i: int| 0 <= i < ps.len() implies (#[trigger] ps[i]).like_count
        == post.sp_like_count(ps[i].post_id) by {
        lemma_count_push(pre.likes@, u, pid, ps[i].post_id);
        if i != k {
            assert(ps[i] == pre.posts@[i]);
            if ps[i].post_id == pid {
                pre.lemma_post_at(k);
                pre.lemma_post_at(i);
            }
        }
    }
}

/// Deleting the like edge `(u, p)` while decrementing the post's counter in
/// place preserves the store invariant.
pub proof fn lemma_wf_unlike(pre: Store, post: Store, u: i32, k: int, rec: PostRecord)
    requires
        pre.wf(),
        0 <= k < pre.posts@.len(),
        pre.sp_liked(u, pre.posts@[k].post_id),
        rec.post_id == pre.posts@[k].post_id,
        rec.author_id == pre.posts@[k].author_id,
        rec.title == pre.posts@[k].title,
        rec.description == pre.posts@[k].description,
        rec.content == pre.posts@[k].content,
        rec.created_at == pre.posts@[k].created_at,
        rec.like_count == pre.posts@[k].like_count - 1,
        post.users@ == pre.users@,
        post.comments@ == pre.comments@,
        post.follows@ == pre.follows@,
        post.blocks@ == pre.blocks@,
        post.next_user_id == pre.next_user_id,
        post.next_post_id == pre.next_post_id,
        post.next_comment_id == pre.next_comment_id,
        post.likes@ == sp_remove_pair(pre.likes@, u, pre.posts@[k].post_id),
        post.posts@ == pre.posts@.update(k, rec),
    ensures
        post.wf(),
{
    let pid = pre.posts@[k].post_id;
    assert(forall|id: i32| post.sp_has_user_id(id) == pre.sp_has_user_id(id));
    let ps = post.posts@;
    assert(forall|i: int|
        0 <= i < ps.len() ==> (#[trigger] ps[i]).post_id == pre.posts@[i].post_id
            && ps[i].author_id == pre.posts@[i].author_id);
    assert forall|id: i32| pre.sp_has_post(id) implies post.sp_has_post(id) by {
        let m = choose|m: int| 0 <= m < pre.posts@.len() && pre.posts@[m].post_id == id;
        assert(ps[m].post_id == id);
    }
    assert(post.wf_users());
    assert(post.wf_posts());
    assert(post.wf_comments());
    assert(post.wf_follows());
    assert(post.wf_blocks());
    lemma_remove_pair_distinct(pre.likes@, u, pid);
    let ls = post.likes@;
    assert forall|i: int| 0 <= i < ls.len() implies pre.sp_has_user_id((#[trigger] ls[i]).0)
        && pre.sp_has_post(ls[i].1) by {
        assert(ls.contains(ls[i]));
        lemma_remove_pair_contains(pre.likes@, u, pid, ls[i]);
        let m = choose|m: int| 0 <= m < pre.likes@.len() && pre.likes@[m] == ls[i];
        assert(pre.sp_has_user_id(pre.likes@[m].0) && pre.sp_has_post(pre.likes@[m].1));
    }
    assert forall|i: int| 0 <= i < ps.len() implies (#[trigger] ps[i]).like_count
        == post.sp_like_count(ps[i].post_id) by {
        lemma_count_remove_pair(pre.likes@, u, pid, ps[i].post_id);
        if i != k {
            assert(ps[i] == pre.posts@[i]);
            if ps[i].post_id == pid {
                pre.lemma_post_at(k);
                pre.lemma_post_at(i);
            }
        }
    }
}

/// Deleting a post together with its comments and like edges preserves the
/// store invariant.
pub proof fn lemma_wf_delete_post(pre: Store, post: Store, k: int)
    requires
        pre.wf(),
        0 <= k < pre.posts@.len(),
        post.users@ == pre.users@,
        post.follows@ == pre.follows@,
        post.blocks@ == pre.blocks@,
        post.next_user_id == pre.next_user_id,
        post.next_post_id == pre.next_post_id,
        post.next_comment_id == pre.next_comment_id,
        post.posts@ == pre.posts@.remove(k),
        post.comments@ == sp_remove_comments_of_post(pre.comments@, pre.posts@[k].post_id),
        post.likes@ == sp_remove_likes_of_post(pre.likes@, pre.posts@[k].post_id),
    ensures
        post.wf(),
{
    let pid = pre.posts@[k].post_id;
    assert(forall|id: i32| post.sp_has_user_id(id) == pre.sp_has_user_id(id));
    let ps = post.posts@;
    assert(forall|i: int|
        0 <= i < ps.len() ==> ps[i] == if i < k {
            pre.posts@[i]
        } else {
            pre.posts@[i + 1]
        });
    assert(post.wf_users());
    assert(post.wf_posts());
    assert(post.wf_follows());
    assert(post.wf_blocks());
    // a surviving post id is still found, at a possibly shifted index
    assert forall|id: i32| pre.sp_has_post(id) && id != pid implies post.sp_has_post(id) by {
        let m = choose|m: int| 0 <= m < pre.posts@.len() && pre.posts@[m].post_id == id;
        if m < k {
            assert(ps[m].post_id == id);
        } else {
            assert(m != k);
            assert(ps[m - 1].post_id == id);
        }
    }
    // the deleted post id is gone
    assert forall|i: int| 0 <= i < ps.len() implies (#[trigger] ps[i]).post_id != pid by {
        if i < k {
            assert(pre.posts@[i].post_id < pre.posts@[k].post_id);
        } else {
            assert(pre.posts@[k].post_id < pre.posts@[i + 1].post_id);
        }
    }
    let cs = post.comments@;
    assert forall|i: int| 0 <= i < cs.len() implies post.sp_has_user_id(
        (#[trigger] cs[i]).user_id,
    ) && post.sp_has_post(cs[i].post_id) && cs[i].comment_id < post.next_comment_id by {
        assert(cs.contains(cs[i]));
        lemma_remove_comments_contains(pre.comments@, pid, cs[i]);
        let m = choose|m: int| 0 <= m < pre.comments@.len() && pre.comments@[m] == cs[i];
        assert(pre.sp_has_user_id(pre.comments@[m].user_id));
        assert(pre.sp_has_post(pre.comments@[m].post_id));
    }
    assert(sp_comments_ascending(pre.comments@));
    lemma_remove_comments_ascending(pre.comments@, pid);
    assert(post.wf_comments());
    lemma_remove_likes_distinct(pre.likes@, pid);
    let ls = post.likes@;
    assert forall|i: int| 0 <= i < ls.len() implies post.sp_has_user_id((#[trigger] ls[i]).0)
        && post.sp_has_post(ls[i].1) by {
        assert(ls.contains(ls[i]));
        lemma_remove_likes_contains(pre.likes@, pid, ls[i]);
        let m = choose|m: int| 0 <= m < pre.likes@.len() && pre.likes@[m] == ls[i];
        assert(pre.sp_has_user_id(pre.likes@[m].0) && pre.sp_has_post(pre.likes@[m].1));
    }
    assert forall|i: int| 0 <= i < ps.len() implies (#[trigger] ps[i]).like_count
        == post.sp_like_count(ps[i].post_id) by {
        lemma_count_remove_likes(pre.likes@, pid, ps[i].post_id);
        if i < k {
            assert(ps[i] == pre.posts@[i]);
        } else {
            assert(ps[i] == pre.posts@[i + 1]);
        }
    }
}

/// Creating a comment with the next free id, an existing user and an
/// existing post preserves the store invariant.
pub proof fn lemma_wf_create_comment(pre: Store, post: Store, rec: CommentRecord)
    requires
        pre.wf(),
        rec.comment_id == pre.next_comment_id,
        pre.next_comment_id < i32::MAX,
        pre.sp_has_user_id(rec.user_id),
        pre.sp_has_post(rec.post_id),
        post.users@ == pre.users@,
        post.posts@ == pre.posts@,
        post.follows@ == pre.follows@,
        post.blocks@ == pre.blocks@,
        post.likes@ == pre.likes@,
        post.next_user_id == pre.next_user_id,
        post.next_post_id == pre.next_post_id,
        post.comments@ == pre.comments@.push(rec),
        post.next_comment_id == pre.next_comment_id + 1,
    ensures
        post.wf(),
{
    assert(forall|id: i32| post.sp_has_user_id(id) == pre.sp_has_user_id(id));
    assert(forall|id: i32| post.sp_has_post(id) == pre.sp_has_post(id));
    let cs = post.comments@;
    assert forall|i: int| 0 <= i < cs.len() implies post.sp_has_user_id(
        (#[trigger] cs[i]).user_id,
    ) && post.sp_has_post(cs[i].post_id) && cs[i].comment_id < post.next_comment_id by {
        if i < cs.len() - 1 {
            assert(cs[i] == pre.comments@[i]);
        } else {
            assert(cs[i] == rec);
        }
    }
    assert forall|i: int, j: int| 0 <= i < j < cs.len() implies cs[i].comment_id
        < cs[j].comment_id by {
        if j == cs.len() - 1 {
            assert(cs[i] == pre.comments@[i]);
            assert(pre.comments@[i].comment_id < pre.next_comment_id);
        }
    }
    assert(post.wf_likes());
}

/// `s` with every edge whose either endpoint is `u` removed, order kept.
pub open spec fn sp_remove_edges_touching(s: Seq<(i32, i32)>, u: i32) -> Seq<(i32, i32)>
    decreases s.len(),
{
    if s.len() == 0 {
        Seq::empty()
    } else if s.last().0 == u || s.last().1 == u {
        sp_remove_edges_touching(s.drop_last(), u)
    } else {
        sp_remove_edges_touching(s.drop_last(), u).push(s.last())
    }
}

/// Membership in `sp_remove_edges_touching(s, u)`.
pub proof fn lemma_remove_touching_contains(s: Seq<(i32, i32)>, u: i32, e: (i32, i32))
    ensures
        sp_remove_edges_touching(s, u).contains(e) <==> (s.contains(e) && e.0 != u && e.1 != u),
    decreases s.len(),
{
    if s.len() > 0 {
        lemma_remove_touching_contains(s.drop_last(), u, e);
        let rest = sp_remove_edges_touching(s.drop_last(), u);
        let keep_last = !(s.last().0 == u || s.last().1 == u);
        if s.contains(e) && e.0 != u && e.1 != u {
            let k = choose|k: int| 0 <= k < s.len() && s[k] == e;
            if k < s.len() - 1 {
                assert(s.drop_last()[k] == e);
                assert(s.drop_last().contains(e));
                if keep_last {
                    let k2 = choose|k2: int| 0 <= k2 < rest.len() && rest[k2] == e;
                    assert(rest.push(s.last())[k2] == e);
                    assert(rest.push(s.last()).contains(e));
                }
            } else {
                assert(e == s.last());
                assert(rest.push(s.last())[rest.len() as int] == e);
                assert(rest.push(s.last()).contains(e));
            }
        }
        if !keep_last {
            if rest.contains(e) {
                assert(s.drop_last().contains(e));
                let k2 = choose|k2: int| 0 <= k2 < s.drop_last().len() && s.drop_last()[k2] == e;
                assert(s[k2] == e);
                assert(s.contains(e));
            }
        } else {
            if rest.push(s.last()).contains(e) {
                let k = choose|k: int| 0 <= k < rest.len() + 1 && rest.push(s.last())[k] == e;
                if k < rest.len() {
                    assert(rest[k] == e);
                    assert(rest.contains(e));
                    assert(s.drop_last().contains(e));
                    let k2 = choose|k2: int|
                        0 <= k2 < s.drop_last().len() && s.drop_last()[k2] == e;
                    assert(s[k2] == e);
                    assert(s.contains(e));
                } else {
                    assert(e == s.last());
                    assert(s[s.len() - 1] == e);
                    assert(s.contains(e));
                }
            }
        }
    }
}

/// `sp_remove_edges_touching` keeps pairwise distinctness.
pub proof fn lemma_remove_touching_distinct(s: Seq<(i32, i32)>, u: i32)
    requires
        sp_pairwise_distinct(s),
    ensures
        sp_pairwise_distinct(sp_remove_edges_touching(s, u)),
    decreases s.len(),
{
    if s.len() > 0 {
        assert(forall|i: int, j: int|
            0 <= i < j < s.drop_last().len() ==> s.drop_last()[i] != s.drop_last()[j]);
        lemma_remove_touching_distinct(s.drop_last(), u);
        let rest = sp_remove_edges_touching(s.drop_last(), u);
        if !(s.last().0 == u || s.last().1 == u) {
            assert forall|i: int, j: int|
                0 <= i < j < rest.push(s.last()).len() implies rest.push(s.last())[i]
                != rest.push(s.last())[j] by {
                if j < rest.len() {
                    assert(rest[i] != rest[j]);
                } else {
                    assert(rest.contains(rest[i]));
                    lemma_remove_touching_contains(s.drop_last(), u, rest[i]);
                    let k = choose|k: int|
                        0 <= k < s.drop_last().len() && s.drop_last()[k] == rest[i];
                    assert(s[k] == rest[i]);
                    assert(s[k] != s.last());
                }
            }
        }
    }
}

/// Removes every edge whose either endpoint is `u`, keeping the order of
/// the rest.
pub fn remove_edges_touching(v: &mut Vec<(i32, i32)>, u: i32)
    ensures
        final (v)@ == sp_remove_edges_touching(old(v)@, u),
{
    let ghost orig = v@;
    let mut out: Vec<(i32, i32)> = Vec::new();
    let mut i: usize = 0;
    while i < v.len()
        invariant
            v@ == orig,
            i <= orig.len(),
            out@ == sp_remove_edges_touching(orig.take(i as int), u),
        decreases orig.len() - i,
    {
        let e = v[i];
        proof {
            assert(orig.take(i + 1 as int) =~= orig.take(i as int).push(orig[i as int]));
            assert(orig.take(i + 1 as int).drop_last() =~= orig.take(i as int));
        }
        if !(e.0 == u || e.1 == u) {
            out.push(e);
        }
        i += 1;
    }
    proof {
        assert(orig.take(orig.len() as int) =~= orig);
    }
    *v = out;
}

/// A post with id `pid` and author `u` exists in the table.
pub open spec fn sp_author_is(posts: Seq<PostRecord>, pid: i32, u: i32) -> bool {
    exists|k: int| 0 <= k < posts.len() && posts[k].post_id == pid && posts[k].author_id == u
}

/// Whether the post table holds a post with id `pid` authored by `u`.
pub fn post_author_is(posts: &Vec<PostRecord>, pid: i32, u: i32) -> (r: bool)
    ensures
        r == sp_author_is(posts@, pid, u),
{
    let mut i: usize = 0;
    while i < posts.len()
        invariant
            i <= posts@.len(),
            forall|k: int|
                0 <= k < i ==> !((#[trigger] posts@[k]).post_id == pid && posts@[k].author_id
                    == u),
        decreases posts@.len() - i,
    {
        if posts[i].post_id == pid && posts[i].author_id == u {
            return true;
        }
        i += 1;
    }
    false
}

/// The like table after user `u` is deleted: edges by `u`, and edges on
/// posts authored by `u`, are gone; order kept.
pub open spec fn sp_likes_after_user_delete(
    s: Seq<(i32, i32)>,
    posts: Seq<PostRecord>,
    u: i32,
) -> Seq<(i32, i32)>
    decreases s.len(),
{
    if s.len() == 0 {
        Seq::empty()
    } else if s.last().0 == u || sp_author_is(posts, s.last().1, u) {
        sp_likes_after_user_delete(s.drop_last(), posts, u)
    } else {
        sp_likes_after_user_delete(s.drop_last(), posts, u).push(s.last())
    }
}

/// Membership in `sp_likes_after_user_delete(s, posts, u)`.
pub proof fn lemma_likes_after_delete_contains(
    s: Seq<(i32, i32)>,
    posts: Seq<PostRecord>,
    u: i32,
    e: (i32, i32),
)
    ensures
        sp_likes_after_user_delete(s, posts, u).contains(e) <==> (s.contains(e) && e.0 != u
            && !sp_author_is(posts, e.1, u)),
    decreases s.len(),
{
    if s.len() > 0 {
        lemma_likes_after_delete_contains(s.drop_last(), posts, u, e);
        let rest = sp_likes_after_user_delete(s.drop_last(), posts, u);
        let keep_last = !(s.last().0 == u || sp_author_is(posts, s.last().1, u));
        if s.contains(e) && e.0 != u && !sp_author_is(posts, e.1, u) {
            let k = choose|k: int| 0 <= k < s.len() && s[k] == e;
            if k < s.len() - 1 {
                assert(s.drop_last()[k] == e);
                assert(s.drop_last().contains(e));
                if keep_last {
                    let k2 = choose|k2: int| 0 <= k2 < rest.len() && rest[k2] == e;
                    assert(rest.push(s.last())[k2] == e);
                    assert(rest.push(s.last()).contains(e));
                }
            } else {
                assert(e == s.last());
                assert(rest.push(s.last())[rest.len() as int] == e);
                assert(rest.push(s.last()).contains(e));
            }
        }
        if !keep_last {
            if rest.contains(e) {
                assert(s.drop_last().contains(e));
                let k2 = choose|k2: int| 0 <= k2 < s.drop_last().len() && s.drop_last()[k2] == e;
                assert(s[k2] == e);
                assert(s.contains(e));
            }
        } else {
            if rest.push(s.last()).contains(e) {
                let k = choose|k: int| 0 <= k < rest.len() + 1 && rest.push(s.last())[k] == e;
                if k < rest.len() {
                    assert(rest[k] == e);
                    assert(rest.contains(e));
                    assert(s.drop_last().contains(e));
                    let k2 = choose|k2: int|
                        0 <= k2 < s.drop_last().len() && s.drop_last()[k2] == e;
                    assert(s[k2] == e);
                    assert(s.contains(e));
                } else {
                    assert(e == s.last());
                    assert(s[s.len() - 1] == e);
                    assert(s.contains(e));
                }
            }
        }
    }
}

/// `sp_likes_after_user_delete` keeps pairwise distinctness.
pub proof fn lemma_likes_after_delete_distinct(s: Seq<(i32, i32)>, posts: Seq<PostRecord>, u: i32)
    requires
        sp_pairwise_distinct(s),
    ensures
        sp_pairwise_distinct(sp_likes_after_user_delete(s, posts, u)),
    decreases s.len(),
{
    if s.len() > 0 {
        assert(forall|i: int, j: int|
            0 <= i < j < s.drop_last().len() ==> s.drop_last()[i] != s.drop_last()[j]);
        lemma_likes_after_delete_distinct(s.drop_last(), posts, u);
        let rest = sp_likes_after_user_delete(s.drop_last(), posts, u);
        if !(s.last().0 == u || sp_author_is(posts, s.last().1, u)) {
            assert forall|i: int, j: int|
                0 <= i < j < rest.push(s.last()).len() implies rest.push(s.last())[i]
                != rest.push(s.last())[j] by {
                if j < rest.len() {
                    assert(rest[i] != rest[j]);
                } else {
                    assert(rest.contains(rest[i]));
                    lemma_likes_after_delete_contains(s.drop_last(), posts, u, rest[i]);
                    let k = choose|k: int|
                        0 <= k < s.drop_last().len() && s.drop_last()[k] == rest[i];
                    assert(s[k] == rest[i]);
                    assert(s[k] != s.last());
                }
            }
        }
    }
}

/// How deleting user `u` changes the like count of a post that `u` did not
/// author: it drops by one exactly when `u` liked it.
pub proof fn lemma_count_likes_after_delete(
    s: Seq<(i32, i32)>,
    posts: Seq<PostRecord>,
    u: i32,
    q: i32,
)
    requires
        sp_pairwise_distinct(s),
        !sp_author_is(posts, q, u),
    ensures
        sp_count_likes(sp_likes_after_user_delete(s, posts, u), q) == sp_count_likes(s, q) - if s.contains((u, q)) {
            1int
        } else {
            0int
        },
    decreases s.len(),
{
    if s.len() == 0 {
    } else {
        assert(forall|i: int, j: int|
            0 <= i < j < s.drop_last().len() ==> s.drop_last()[i] != s.drop_last()[j]);
        lemma_count_likes_after_delete(s.drop_last(), posts, u, q);
        let e = s.last();
        // relate membership of (u, q) in s and in s.drop_last()
        if s.drop_last().contains((u, q)) {
            let k = choose|k: int| 0 <= k < s.drop_last().len() && s.drop_last()[k] == (u, q);
            assert(s[k] == (u, q));
            assert(s.contains((u, q)));
        }
        if e == (u, q) {
            assert(s.contains((u, q))) by {
                assert(s[s.len() - 1] == (u, q));
            }
            // no earlier occurrence, by distinctness
            if s.drop_last().contains((u, q)) {
                let k = choose|k: int| 0 <= k < s.drop_last().len() && s.drop_last()[k] == (u, q);
                assert(s[k] == s.last());
            }
        } else {
            if s.contains((u, q)) {
                let k = choose|k: int| 0 <= k < s.len() && s[k] == (u, q);
                assert(k < s.len() - 1);
                assert(s.drop_last()[k] == (u, q));
                assert(s.drop_last().contains((u, q)));
            }
        }
        let rest = sp_likes_after_user_delete(s.drop_last(), posts, u);
        if !(e.0 == u || sp_author_is(posts, e.1, u)) {
            assert(rest.push(e).drop_last() =~= rest);
            assert(rest.push(e).last() == e);
        } else {
            if e.1 == q {
                // an edge on q that is dropped must be u's own like of q
                assert(!sp_author_is(posts, q, u));
                assert(e.0 == u);
                assert(e == (u, q));
            }
        }
    }
}

/// The posts not authored by `u`, in table order.
pub open spec fn sp_posts_of_others(posts: Seq<PostRecord>, u: i32) -> Seq<PostRecord>
    decreases posts.len(),
{
    if posts.len() == 0 {
        Seq::empty()
    } else if posts.last().author_id == u {
        sp_posts_of_others(posts.drop_last(), u)
    } else {
        sp_posts_of_others(posts.drop_last(), u).push(posts.last())
    }
}

/// Membership in `sp_posts_of_others(posts, u)`.
pub proof fn lemma_posts_of_others_contains(posts: Seq<PostRecord>, u: i32, e: PostRecord)
    ensures
        sp_posts_of_others(posts, u).contains(e) <==> (posts.contains(e) && e.author_id != u),
    decreases posts.len(),
{
    if posts.len() > 0 {
        lemma_posts_of_others_contains(posts.drop_last(), u, e);
        let rest = sp_posts_of_others(posts.drop_last(), u);
        let keep_last = posts.last().author_id != u;
        if posts.contains(e) && e.author_id != u {
            let k = choose|k: int| 0 <= k < posts.len() && posts[k] == e;
            if k < posts.len() - 1 {
                assert(posts.drop_last()[k] == e);
                assert(posts.drop_last().contains(e));
                if keep_last {
                    let k2 = choose|k2: int| 0 <= k2 < rest.len() && rest[k2] == e;
                    assert(rest.push(posts.last())[k2] == e);
                    assert(rest.push(posts.last()).contains(e));
                }
            } else {
                assert(e == posts.last());
                assert(rest.push(posts.last())[rest.len() as int] == e);
                assert(rest.push(posts.last()).contains(e));
            }
        }
        if !keep_last {
            if rest.contains(e) {
                assert(posts.drop_last().contains(e));
                let k2 = choose|k2: int|
                    0 <= k2 < posts.drop_last().len() && posts.drop_last()[k2] == e;
                assert(posts[k2] == e);
                assert(posts.contains(e));
            }
        } else {
            if rest.push(posts.last()).contains(e) {
                let k = choose|k: int| 0 <= k < rest.len() + 1 && rest.push(posts.last())[k] == e;
                if k < rest.len() {
                    assert(rest[k] == e);
                    assert(rest.contains(e));
                    assert(posts.drop_last().contains(e));
                    let k2 = choose|k2: int|
                        0 <= k2 < posts.drop_last().len() && posts.drop_last()[k2] == e;
                    assert(posts[k2] == e);
                    assert(posts.contains(e));
                } else {
                    assert(e == posts.last());
                    assert(posts[posts.len() - 1] == e);
                    assert(posts.contains(e));
                }
            }
        }
    }
}

/// Post ids strictly ascend along the table.
pub open spec fn sp_posts_ascending(s: Seq<PostRecord>) -> bool {
    forall|i: int, j: int|
        #![trigger s[i].post_id, s[j].post_id]
        0 <= i < j < s.len() ==> s[i].post_id < s[j].post_id
}

/// `sp_posts_of_others` keeps the ascending order of post ids.
pub proof fn lemma_posts_of_others_ascending(posts: Seq<PostRecord>, u: i32)
    requires
        sp_posts_ascending(posts),
    ensures
        sp_posts_ascending(sp_posts_of_others(posts, u)),
    decreases posts.len(),
{
    if posts.len() > 0 {
        assert(sp_posts_ascending(posts.drop_last()));
        lemma_posts_of_others_ascending(posts.drop_last(), u);
        let rest = sp_posts_of_others(posts.drop_last(), u);
        if posts.last().author_id != u {
            assert forall|i: int, j: int|
                0 <= i < j < rest.push(posts.last()).len() implies rest.push(
                posts.last(),
            )[i].post_id < rest.push(posts.last())[j].post_id by {
                if j < rest.len() {
                    assert(rest[i].post_id < rest[j].post_id);
                } else {
                    assert(rest.contains(rest[i]));
                    lemma_posts_of_others_contains(posts.drop_last(), u, rest[i]);
                    let k = choose|k: int|
                        0 <= k < posts.drop_last().len() && posts.drop_last()[k] == rest[i];
                    assert(posts[k].post_id < posts[posts.len() - 1].post_id);
                }
            }
        }
    }
}

/// One post as it stands after user `u` is deleted: the like counter drops
/// by one exactly when `u` liked the post.
pub open spec fn sp_post_after_user_delete(
    p: PostRecord,
    likes: Seq<(i32, i32)>,
    u: i32,
) -> PostRecord {
    sp_with_like_count(
        p,
        (p.like_count - if likes.contains((u, p.post_id)) {
            1int
        } else {
            0int
        }) as i32,
    )
}

/// The post table after user `u` is deleted: posts authored by `u` are
/// gone, and each remaining counter accounts for `u`'s removed likes.
pub open spec fn sp_posts_after_user_delete(
    posts: Seq<PostRecord>,
    likes: Seq<(i32, i32)>,
    u: i32,
) -> Seq<PostRecord> {
    sp_posts_of_others(posts, u).map_values(|p: PostRecord| sp_post_after_user_delete(p, likes, u))
}

/// The comment table after user `u` is deleted: comments by `u`, and
/// comments on posts authored by `u`, are gone; order kept.
pub open spec fn sp_comments_after_user_delete(
    s: Seq<CommentRecord>,
    posts: Seq<PostRecord>,
    u: i32,
) -> Seq<CommentRecord>
    decreases s.len(),
{
    if s.len() == 0 {
        Seq::empty()
    } else if s.last().user_id == u || sp_author_is(posts, s.last().post_id, u) {
        sp_comments_after_user_delete(s.drop_last(), posts, u)
    } else {
        sp_comments_after_user_delete(s.drop_last(), posts, u).push(s.last())
    }
}

/// Membership in `sp_comments_after_user_delete(s, posts, u)`.
pub proof fn lemma_comments_after_delete_contains(
    s: Seq<CommentRecord>,
    posts: Seq<PostRecord>,
    u: i32,
    e: CommentRecord,
)
    ensures
        sp_comments_after_user_delete(s, posts, u).contains(e) <==> (s.contains(e) && e.user_id
            != u && !sp_author_is(posts, e.post_id, u)),
    decreases s.len(),
{
    if s.len() > 0 {
        lemma_comments_after_delete_contains(s.drop_last(), posts, u, e);
        let rest = sp_comments_after_user_delete(s.drop_last(), posts, u);
        let keep_last = !(s.last().user_id == u || sp_author_is(posts, s.last().post_id, u));
        if s.contains(e) && e.user_id != u && !sp_author_is(posts, e.post_id, u) {
            let k = choose|k: int| 0 <= k < s.len() && s[k] == e;
            if k < s.len() - 1 {
                assert(s.drop_last()[k] == e);
                assert(s.drop_last().contains(e));
                if keep_last {
                    let k2 = choose|k2: int| 0 <= k2 < rest.len() && rest[k2] == e;
                    assert(rest.push(s.last())[k2] == e);
                    assert(rest.push(s.last()).contains(e));
                }
            } else {
                assert(e == s.last());
                assert(rest.push(s.last())[rest.len() as int] == e);
                assert(rest.push(s.last()).contains(e));
            }
        }
        if !keep_last {
            if rest.contains(e) {
                assert(s.drop_last().contains(e));
                let k2 = choose|k2: int| 0 <= k2 < s.drop_last().len() && s.drop_last()[k2] == e;
                assert(s[k2] == e);
                assert(s.contains(e));
            }
        } else {
            if rest.push(s.last()).contains(e) {
                let k = choose|k: int| 0 <= k < rest.len() + 1 && rest.push(s.last())[k] == e;
                if k < rest.len() {
                    assert(rest[k] == e);
                    assert(rest.contains(e));
                    assert(s.drop_last().contains(e));
                    let k2 = choose|k2: int|
                        0 <= k2 < s.drop_last().len() && s.drop_last()[k2] == e;
                    assert(s[k2] == e);
                    assert(s.contains(e));
                } else {
                    assert(e == s.last());
                    assert(s[s.len() - 1] == e);
                    assert(s.contains(e));
                }
            }
        }
    }
}

/// `sp_comments_after_user_delete` keeps the ascending order of ids.
pub proof fn lemma_comments_after_delete_ascending(
    s: Seq<CommentRecord>,
    posts: Seq<PostRecord>,
    u: i32,
)
    requires
        sp_comments_ascending(s),
    ensures
        sp_comments_ascending(sp_comments_after_user_delete(s, posts, u)),
    decreases s.len(),
{
    if s.len() > 0 {
        assert(sp_comments_ascending(s.drop_last()));
        lemma_comments_after_delete_ascending(s.drop_last(), posts, u);
        let rest = sp_comments_after_user_delete(s.drop_last(), posts, u);
        if !(s.last().user_id == u || sp_author_is(posts, s.last().post_id, u)) {
            assert forall|i: int, j: int|
                0 <= i < j < rest.push(s.last()).len() implies rest.push(s.last())[i].comment_id
                < rest.push(s.last())[j].comment_id by {
                if j < rest.len() {
                    assert(rest[i].comment_id < rest[j].comment_id);
                } else {
                    assert(rest.contains(rest[i]));
                    lemma_comments_after_delete_contains(s.drop_last(), posts, u, rest[i]);
                    let k = choose|k: int|
                        0 <= k < s.drop_last().len() && s.drop_last()[k] == rest[i];
                    assert(s[k].comment_id < s[s.len() - 1].comment_id);
                }
            }
        }
    }
}

/// Deleting a user together with their posts, comments, likes and edges —
/// and the comments and likes sitting on their posts, with the remaining
/// like counters adjusted — preserves the store invariant.
pub proof fn lemma_wf_delete_user(pre: Store, post: Store, k: int)
    requires
        pre.wf(),
        0 <= k < pre.users@.len(),
        post.users@ == pre.users@.remove(k),
        post.posts@ == sp_posts_after_user_delete(pre.posts@, pre.likes@, pre.users@[k].user_id),
        post.comments@ == sp_comments_after_user_delete(
            pre.comments@,
            pre.posts@,
            pre.users@[k].user_id,
        ),
        post.follows@ == sp_remove_edges_touching(pre.follows@, pre.users@[k].user_id),
        post.blocks@ == sp_remove_edges_touching(pre.blocks@, pre.users@[k].user_id),
        post.likes@ == sp_likes_after_user_delete(pre.likes@, pre.posts@, pre.users@[k].user_id),
        post.next_user_id == pre.next_user_id,
        post.next_post_id == pre.next_post_id,
        post.next_comment_id == pre.next_comment_id,
    ensures
        post.wf(),
{
    let u = pre.users@[k].user_id;
    let us = post.users@;
    assert(forall|i: int|
        0 <= i < us.len() ==> us[i] == if i < k {
            pre.users@[i]
        } else {
            pre.users@[i + 1]
        });
    assert(post.wf_users());
    // surviving ids are still found; the deleted id is gone
    assert forall|id: i32| pre.sp_has_user_id(id) && id != u implies post.sp_has_user_id(id) by {
        let m = choose|m: int| 0 <= m < pre.users@.len() && pre.users@[m].user_id == id;
        if m < k {
            assert(us[m].user_id == id);
        } else {
            assert(m != k);
            assert(us[m - 1].user_id == id);
        }
    }
    // a surviving post id is still found among the remaining posts
    let others = sp_posts_of_others(pre.posts@, u);
    let ps = post.posts@;
    assert(ps.len() == others.len());
    assert(forall|i: int|
        0 <= i < ps.len() ==> ps[i] == sp_post_after_user_delete(others[i], pre.likes@, u));
    assert(sp_posts_ascending(pre.posts@));
    lemma_posts_of_others_ascending(pre.posts@, u);
    assert forall|id: i32| pre.sp_has_post(id) && !sp_author_is(pre.posts@, id, u)
        implies post.sp_has_post(id) by {
        let m = choose|m: int| 0 <= m < pre.posts@.len() && pre.posts@[m].post_id == id;
        assert(pre.posts@[m].author_id != u);
        lemma_posts_of_others_contains(pre.posts@, u, pre.posts@[m]);
        assert(others.contains(pre.posts@[m]));
        let m2 = choose|m2: int| 0 <= m2 < others.len() && others[m2] == pre.posts@[m];
        assert(ps[m2].post_id == id);
    }
    // posts table: order, bounds, authorship, counters
    assert forall|i: int| 0 <= i < ps.len() implies (#[trigger] ps[i]).post_id
        < post.next_post_id && post.sp_has_user_id(ps[i].author_id) && ps[i].like_count
        == post.sp_like_count(ps[i].post_id) by {
        assert(others.contains(others[i]));
        lemma_posts_of_others_contains(pre.posts@, u, others[i]);
        let m = choose|m: int| 0 <= m < pre.posts@.len() && pre.posts@[m] == others[i];
        assert(pre.posts@[m].post_id < pre.next_post_id);
        assert(pre.sp_has_user_id(pre.posts@[m].author_id));
        assert(pre.posts@[m].author_id != u);
        // no post with this id is authored by u: ids are unique
        assert forall|m2: int|
            0 <= m2 < pre.posts@.len() && pre.posts@[m2].post_id == ps[i].post_id implies
            pre.posts@[m2].author_id != u by {
            if m2 < m {
                assert(pre.posts@[m2].post_id < pre.posts@[m].post_id);
            } else if m2 > m {
                assert(pre.posts@[m].post_id < pre.posts@[m2].post_id);
            }
        }
        assert(!sp_author_is(pre.posts@, ps[i].post_id, u));
        lemma_count_likes_after_delete(pre.likes@, pre.posts@, u, ps[i].post_id);
        assert(pre.posts@[m].like_count == pre.sp_like_count(pre.posts@[m].post_id));
        if pre.likes@.contains((u, ps[i].post_id)) {
            lemma_contains_count(pre.likes@, u, ps[i].post_id);
        }
        assert(ps[i] == sp_post_after_user_delete(others[i], pre.likes@, u));
        assert(others[i] == pre.posts@[m]);
    }
    assert forall|i: int, j: int| 0 <= i < j < ps.len() implies ps[i].post_id
        < ps[j].post_id by {
        assert(others[i].post_id < others[j].post_id);
    }
    assert(post.wf_posts());
    // comment table
    let cs = post.comments@;
    assert(sp_comments_ascending(pre.comments@));
    lemma_comments_after_delete_ascending(pre.comments@, pre.posts@, u);
    assert forall|i: int| 0 <= i < cs.len() implies (#[trigger] cs[i]).comment_id
        < post.next_comment_id && post.sp_has_user_id(cs[i].user_id) && post.sp_has_post(
        cs[i].post_id,
    ) by {
        assert(cs.contains(cs[i]));
        lemma_comments_after_delete_contains(pre.comments@, pre.posts@, u, cs[i]);
        let m = choose|m: int| 0 <= m < pre.comments@.len() && pre.comments@[m] == cs[i];
        assert(pre.sp_has_user_id(pre.comments@[m].user_id));
        assert(pre.sp_has_post(pre.comments@[m].post_id));
    }
    assert(post.wf_comments());
    // follow and block edges
    lemma_remove_touching_distinct(pre.follows@, u);
    lemma_remove_touching_distinct(pre.blocks@, u);
    let fs = post.follows@;
    assert forall|i: int| 0 <= i < fs.len() implies (#[trigger] fs[i]).0 != fs[i].1
        && post.sp_has_user_id(fs[i].0) && post.sp_has_user_id(fs[i].1) by {
        assert(fs.contains(fs[i]));
        lemma_remove_touching_contains(pre.follows@, u, fs[i]);
        let m = choose|m: int| 0 <= m < pre.follows@.len() && pre.follows@[m] == fs[i];
        assert(pre.sp_has_user_id(pre.follows@[m].0) && pre.sp_has_user_id(pre.follows@[m].1));
    }
    let bs = post.blocks@;
    assert forall|i: int| 0 <= i < bs.len() implies (#[trigger] bs[i]).0 != bs[i].1
        && post.sp_has_user_id(bs[i].0) && post.sp_has_user_id(bs[i].1) && !fs.contains(bs[i])
        && !fs.contains((bs[i].1, bs[i].0)) by {
        assert(bs.contains(bs[i]));
        lemma_remove_touching_contains(pre.blocks@, u, bs[i]);
        let m = choose|m: int| 0 <= m < pre.blocks@.len() && pre.blocks@[m] == bs[i];
        assert(pre.sp_has_user_id(pre.blocks@[m].0) && pre.sp_has_user_id(pre.blocks@[m].1));
        assert(!pre.follows@.contains(pre.blocks@[m]));
        assert(!pre.follows@.contains((pre.blocks@[m].1, pre.blocks@[m].0)));
        lemma_remove_touching_contains(pre.follows@, u, bs[i]);
        lemma_remove_touching_contains(pre.follows@, u, (bs[i].1, bs[i].0));
    }
    assert(post.wf_follows());
    assert(post.wf_blocks());
    // like edges
    lemma_likes_after_delete_distinct(pre.likes@, pre.posts@, u);
    let ls = post.likes@;
    assert forall|i: int| 0 <= i < ls.len() implies post.sp_has_user_id((#[trigger] ls[i]).0)
        && post.sp_has_post(ls[i].1) by {
        assert(ls.contains(ls[i]));
        lemma_likes_after_delete_contains(pre.likes@, pre.posts@, u, ls[i]);
        let m = choose|m: int| 0 <= m < pre.likes@.len() && pre.likes@[m] == ls[i];
        assert(pre.sp_has_user_id(pre.likes@[m].0) && pre.sp_has_post(pre.likes@[m].1));
    }
    assert(post.wf_likes());
}

/// Creating a user with the next free id and a fresh username and email
/// preserves the store invariant.
pub proof fn lemma_wf_create_user(pre: Store, post: Store, rec: UserRecord)
    requires
        pre.wf(),
        rec.user_id == pre.next_user_id,
        pre.next_user_id < i32::MAX,
        !pre.sp_has_username(rec.username@),
        !pre.sp_has_email(rec.email@),
        post.posts@ == pre.posts@,
        post.comments@ == pre.comments@,
        post.follows@ == pre.follows@,
        post.blocks@ == pre.blocks@,
        post.likes@ == pre.likes@,
        post.next_post_id == pre.next_post_id,
        post.next_comment_id == pre.next_comment_id,
        post.users@ == pre.users@.push(rec),
        post.next_user_id == pre.next_user_id + 1,
    ensures
        post.wf(),
{
    let us = post.users@;
    assert forall|i: int, j: int| 0 <= i < j < us.len() implies us[i].user_id != us[j].user_id
        && us[i].username@ != us[j].username@ && us[i].email@ != us[j].email@ by {
        if j == us.len() - 1 {
            assert(us[i] == pre.users@[i]);
            assert(pre.users@[i].user_id < pre.next_user_id);
            if us[i].username@ == rec.username@ {
                assert(pre.sp_has_username(rec.username@));
            }
            if us[i].email@ == rec.email@ {
                assert(pre.sp_has_email(rec.email@));
            }
        }
    }
    assert forall|i: int| 0 <= i < us.len() implies (#[trigger] us[i]).user_id
        < post.next_user_id by {
        if i < us.len() - 1 {
            assert(us[i] == pre.users@[i]);
        }
    }
    assert forall|id: i32| pre.sp_has_user_id(id) implies post.sp_has_user_id(id) by {
        let m = choose|m: int| 0 <= m < pre.users@.len() && pre.users@[m].user_id == id;
        assert(us[m].user_id == id);
    }
    assert(post.wf_posts());
    assert(post.wf_comments());
    assert(post.wf_follows());
    assert(post.wf_blocks());
    assert(post.wf_likes());
}

/// Replacing a user row in place — id unchanged, and the new username and
/// email held by no other row — preserves the store invariant.
pub proof fn lemma_wf_update_user(pre: Store, post: Store, k: int, rec: UserRecord)
    requires
        pre.wf(),
        0 <= k < pre.users@.len(),
        rec.user_id == pre.users@[k].user_id,
        pre.sp_has_username(rec.username@) ==> pre.sp_user_by_name(rec.username@).user_id
            == rec.user_id,
        pre.sp_has_email(rec.email@) ==> pre.sp_user_by_email(rec.email@).user_id == rec.user_id,
        post.posts@ == pre.posts@,
        post.comments@ == pre.comments@,
        post.follows@ == pre.follows@,
        post.blocks@ == pre.blocks@,
        post.likes@ == pre.likes@,
        post.next_user_id == pre.next_user_id,
        post.next_post_id == pre.next_post_id,
        post.next_comment_id == pre.next_comment_id,
        post.users@ == pre.users@.update(k, rec),
    ensures
        post.wf(),
{
    let us = post.users@;
    assert(forall|i: int|
        0 <= i < us.len() ==> (#[trigger] us[i]).user_id == pre.users@[i].user_id);
    assert forall|i: int, j: int| 0 <= i < j < us.len() implies us[i].username@
        != us[j].username@ && us[i].email@ != us[j].email@ by {
        if i == k || j == k {
            let o = if i == k {
                j
            } else {
                i
            };
            assert(us[o] == pre.users@[o]);
            if pre.users@[o].username@ == rec.username@ {
                assert(pre.sp_has_username(rec.username@));
                pre.lemma_user_at_name(o);
                assert(pre.users@[o].user_id == rec.user_id);
                assert(pre.users@[o].user_id == pre.users@[k].user_id);
            }
            if pre.users@[o].email@ == rec.email@ {
                assert(pre.sp_has_email(rec.email@));
                pre.lemma_user_at_email(o);
                assert(pre.users@[o].user_id == rec.user_id);
                assert(pre.users@[o].user_id == pre.users@[k].user_id);
            }
        }
    }
    assert forall|id: i32| pre.sp_has_user_id(id) implies post.sp_has_user_id(id) by {
        let m = choose|m: int| 0 <= m < pre.users@.len() && pre.users@[m].user_id == id;
        assert(us[m].user_id == id);
    }
    assert(post.wf_users());
    assert(post.wf_posts());
    assert(post.wf_comments());
    assert(post.wf_follows());
    assert(post.wf_blocks());
    assert(post.wf_likes());
}

/// Deleting one comment row preserves the store invariant.
pub proof fn lemma_wf_delete_comment(pre: Store, post: Store, k: int)
    requires
        pre.wf(),
        0 <= k < pre.comments@.len(),
        post.users@ == pre.users@,
        post.posts@ == pre.posts@,
        post.follows@ == pre.follows@,
        post.blocks@ == pre.blocks@,
        post.likes@ == pre.likes@,
        post.next_user_id == pre.next_user_id,
        post.next_post_id == pre.next_post_id,
        post.next_comment_id == pre.next_comment_id,
        post.comments@ == pre.comments@.remove(k),
    ensures
        post.wf(),
{
    assert(forall|id: i32| post.sp_has_user_id(id) == pre.sp_has_user_id(id));
    assert(forall|id: i32| post.sp_has_post(id) == pre.sp_has_post(id));
    let cs = post.comments@;
    assert(forall|i: int|
        0 <= i < cs.len() ==> cs[i] == if i < k {
            pre.comments@[i]
        } else {
            pre.comments@[i + 1]
        });
    assert(post.wf_likes());
}

} // verus!
