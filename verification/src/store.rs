//! The relational store, modelled in memory: user, article and comment
//! rows plus the two edge tables (favorites and followers), with the
//! uniqueness invariants a relational schema would enforce.

use vstd::prelude::*;

verus! {

/// A user row. The `token` column holds the password hash, as in the
/// schema; bearer tokens are derived from it and never stored.
#[derive(Debug)]
pub struct User {
    pub id: i32,
    pub username: String,
    pub token: String,
    pub email: String,
    pub bio: Option<String>,
    pub image: Option<String>,
}

/// An article row.
#[derive(Debug)]
pub struct Article {
    pub id: i32,
    pub author_id: i32,
    pub slug: String,
    pub title: String,
    pub description: String,
    pub body: String,
    pub tag_list: Vec<String>,
    pub created_at: i64,
    pub updated_at: i64,
}

/// A comment row.
#[derive(Debug)]
pub struct Comment {
    pub id: i32,
    pub article_id: i32,
    pub user_id: i32,
    pub created_at: i64,
    pub updated_at: i64,
    pub body: String,
}

/// A favorite edge: `user_id` has favorited `article_id`.
#[derive(Clone, Copy, PartialEq, Eq, Structural, Debug)]
pub struct FavoriteEdge {
    pub user_id: i32,
    pub article_id: i32,
}

/// A follow edge: `follower_id` follows `followee_id`.
#[derive(Clone, Copy, PartialEq, Eq, Structural, Debug)]
pub struct FollowEdge {
    pub follower_id: i32,
    pub followee_id: i32,
}

/// The mathematical value of a user row.
pub struct SpecUser {
    pub id: int,
    pub username: Seq<char>,
    pub token: Seq<char>,
    pub email: Seq<char>,
    pub bio: Option<Seq<char>>,
    pub image: Option<Seq<char>>,
}

/// The mathematical value of an article row.
pub struct SpecArticle {
    pub id: int,
    pub author_id: int,
    pub slug: Seq<char>,
    pub title: Seq<char>,
    pub description: Seq<char>,
    pub body: Seq<char>,
    pub tag_list: Seq<Seq<char>>,
    pub created_at: int,
    pub updated_at: int,
}

/// The mathematical value of a comment row.
pub struct SpecComment {
    pub id: int,
    pub article_id: int,
    pub user_id: int,
    pub created_at: int,
    pub updated_at: int,
    pub body: Seq<char>,
}

/// The mathematical value of the whole store. Favorite edges are
/// `(user_id, article_id)` pairs; follow edges are
/// `(follower_id, followee_id)` pairs.
pub struct SpecStore {
    pub users: Seq<SpecUser>,
    pub articles: Seq<SpecArticle>,
    pub comments: Seq<SpecComment>,
    pub favorites: Seq<(int, int)>,
    pub followers: Seq<(int, int)>,
    pub next_user_id: int,
    pub next_article_id: int,
    pub next_comment_id: int,
}

/// The views of a list of strings.
pub open spec fn strings_view(s: Seq<String>) -> Seq<Seq<char>> {
    Seq::new(s.len(), |i: int| s[i]@)
}

/// The view of an optional string.
pub open spec fn opt_view(o: Option<String>) -> Option<Seq<char>> {
    match o {
        Some(s) => Some(s@),
        None => None,
    }
}

impl View for User {
    type V = SpecUser;

    open spec fn view(&self) -> SpecUser {
        SpecUser {
            id: self.id as int,
            username: self.username@,
            token: self.token@,
            email: self.email@,
            bio: opt_view(self.bio),
            image: opt_view(self.image),
        }
    }
}

impl View for Article {
    type V = SpecArticle;

    open spec fn view(&self) -> SpecArticle {
        SpecArticle {
            id: self.id as int,
            author_id: self.author_id as int,
            slug: self.slug@,
            title: self.title@,
            description: self.description@,
            body: self.body@,
            tag_list: strings_view(self.tag_list@),
            created_at: self.created_at as int,
            updated_at: self.updated_at as int,
        }
    }
}

impl View for Comment {
    type V = SpecComment;

    open spec fn view(&self) -> SpecComment {
        SpecComment {
            id: self.id as int,
            article_id: self.article_id as int,
            user_id: self.user_id as int,
            created_at: self.created_at as int,
            updated_at: self.updated_at as int,
            body: self.body@,
        }
    }
}

/// The in-memory store.
#[derive(Debug)]
pub struct Store {
    pub users: Vec<User>,
    pub articles: Vec<Article>,
    pub comments: Vec<Comment>,
    pub favorites: Vec<FavoriteEdge>,
    pub followers: Vec<FollowEdge>,
    pub next_user_id: i32,
    pub next_article_id: i32,
    pub next_comment_id: i32,
}

impl View for Store {
    type V = SpecStore;

    open spec fn view(&self) -> SpecStore {
        SpecStore {
            users: Seq::new(self.users@.len(), |i: int| self.users@[i]@),
            articles: Seq::new(self.articles@.len(), |i: int| self.articles@[i]@),
            comments: Seq::new(self.comments@.len(), |i: int| self.comments@[i]@),
            favorites: Seq::new(
                self.favorites@.len(),
                |i: int|
                    (self.favorites@[i].user_id as int, self.favorites@[i].article_id as int),
            ),
            followers: Seq::new(
                self.followers@.len(),
                |i: int|
                    (self.followers@[i].follower_id as int, self.followers@[i].followee_id as int),
            ),
            next_user_id: self.next_user_id as int,
            next_article_id: self.next_article_id as int,
            next_comment_id: self.next_comment_id as int,
        }
    }
}

// Lookups over user rows.
pub open spec fn has_user_id(users: Seq<SpecUser>, id: int) -> bool {
    exists|i: int| 0 <= i < users.len() && users[i].id == id
}

pub open spec fn user_by_id_spec(users: Seq<SpecUser>, id: int) -> SpecUser {
    users[choose|i: int| 0 <= i < users.len() && users[i].id == id]
}

pub open spec fn user_index_by_id(users: Seq<SpecUser>, id: int) -> int {
    choose|i: int| 0 <= i < users.len() && users[i].id == id
}

pub open spec fn has_user_name(users: Seq<SpecUser>, name: Seq<char>) -> bool {
    exists|i: int| 0 <= i < users.len() && users[i].username == name
}

pub open spec fn user_by_name_spec(users: Seq<SpecUser>, name: Seq<char>) -> SpecUser {
    users[choose|i: int| 0 <= i < users.len() && users[i].username == name]
}

pub open spec fn has_user_email(users: Seq<SpecUser>, email: Seq<char>) -> bool {
    exists|i: int| 0 <= i < users.len() && users[i].email == email
}

pub open spec fn user_by_email_spec(users: Seq<SpecUser>, email: Seq<char>) -> SpecUser {
    users[choose|i: int| 0 <= i < users.len() && users[i].email == email]
}

// Lookups over article rows.
pub open spec fn has_article_slug(articles: Seq<SpecArticle>, slug: Seq<char>) -> bool {
    exists|i: int| 0 <= i < articles.len() && articles[i].slug == slug
}

pub open spec fn article_by_slug_spec(articles: Seq<SpecArticle>, slug: Seq<char>) -> SpecArticle {
    articles[choose|i: int| 0 <= i < articles.len() && articles[i].slug == slug]
}

pub open spec fn article_index_by_slug(articles: Seq<SpecArticle>, slug: Seq<char>) -> int {
    choose|i: int| 0 <= i < articles.len() && articles[i].slug == slug
}

// Lookups over comment rows.
pub open spec fn has_comment_id(comments: Seq<SpecComment>, id: int) -> bool {
    exists|i: int| 0 <= i < comments.len() && comments[i].id == id
}

pub open spec fn comment_by_id_spec(comments: Seq<SpecComment>, id: int) -> SpecComment {
    comments[choose|i: int| 0 <= i < comments.len() && comments[i].id == id]
}

pub open spec fn comment_index_by_id(comments: Seq<SpecComment>, id: int) -> int {
    choose|i: int| 0 <= i < comments.len() && comments[i].id == id
}

// Relationship edges.
pub open spec fn is_favorited_spec(favorites: Seq<(int, int)>, user_id: int, article_id: int) -> bool {
    exists|i: int|
        0 <= i < favorites.len() && favorites[i] == (user_id, article_id)
}

pub open spec fn is_following_spec(followers: Seq<(int, int)>, follower_id: int, followee_id: int) -> bool {
    exists|i: int|
        0 <= i < followers.len() && followers[i] == (follower_id, followee_id)
}

/// How many users have favorited `article_id`.
pub open spec fn fav_count(favorites: Seq<(int, int)>, article_id: int) -> int
    decreases favorites.len(),
{
    if favorites.len() == 0 {
        0
    } else {
        fav_count(favorites.drop_last(), article_id) + (if favorites.last().1 == article_id {
            1int
        } else {
            0int
        })
    }
}

/// How many copies of one exact edge a table holds.
pub open spec fn pair_count(edges: Seq<(int, int)>, edge: (int, int)) -> int
    decreases edges.len(),
{
    if edges.len() == 0 {
        0
    } else {
        pair_count(edges.drop_last(), edge) + (if edges.last() == edge {
            1int
        } else {
            0int
        })
    }
}

/// Inserting an edge, idempotently: a present edge is left alone.
pub open spec fn edge_insert(edges: Seq<(int, int)>, edge: (int, int)) -> Seq<(int, int)> {
    if exists|i: int| 0 <= i < edges.len() && edges[i] == edge {
        edges
    } else {
        edges.push(edge)
    }
}

/// Deleting an edge if it is present; no error when it is absent.
pub open spec fn edge_remove(edges: Seq<(int, int)>, edge: (int, int)) -> Seq<(int, int)> {
    if exists|i: int| 0 <= i < edges.len() && edges[i] == edge {
        edges.remove(choose|i: int| 0 <= i < edges.len() && edges[i] == edge)
    } else {
        edges
    }
}

/// Pairwise-distinct edges.
pub open spec fn edges_distinct(edges: Seq<(int, int)>) -> bool {
    forall|i: int, j: int| 0 <= i < j < edges.len() ==> edges[i] != edges[j]
}

/// The store's well-formedness: key uniqueness for every table, the id
/// counters strictly above every allocated id, and every stored password
/// hash in the shape the hasher writes.
pub open spec fn store_wf(s: SpecStore) -> bool {
    &&& forall|i: int, j: int|
        0 <= i < j < s.users.len() ==> s.users[i].id != s.users[j].id
    &&& forall|i: int, j: int|
        0 <= i < j < s.users.len() ==> s.users[i].username != s.users[j].username
    &&& forall|i: int, j: int|
        0 <= i < j < s.users.len() ==> s.users[i].email != s.users[j].email
    &&& forall|i: int| 0 <= i < s.users.len() ==> s.users[i].id < s.next_user_id
    &&& forall|i: int|
        0 <= i < s.users.len() ==> crate::users::pbkdf2_hash_wf(s.users[i].token)
    &&& forall|i: int, j: int|
        0 <= i < j < s.articles.len() ==> s.articles[i].id != s.articles[j].id
    &&& forall|i: int, j: int|
        0 <= i < j < s.articles.len() ==> s.articles[i].slug != s.articles[j].slug
    &&& forall|i: int| 0 <= i < s.articles.len() ==> s.articles[i].id < s.next_article_id
    &&& forall|i: int, j: int|
        0 <= i < j < s.comments.len() ==> s.comments[i].id != s.comments[j].id
    &&& forall|i: int| 0 <= i < s.comments.len() ==> s.comments[i].id < s.next_comment_id
    &&& edges_distinct(s.favorites)
    &&& edges_distinct(s.followers)
}

impl Store {
    /// An empty store: no rows, counters at their first id.
    pub fn new() -> (r: Store)
        ensures
            r@.users.len() == 0,
            r@.articles.len() == 0,
            r@.comments.len() == 0,
            r@.favorites.len() == 0,
            r@.followers.len() == 0,
            r@.next_user_id == 1,
            r@.next_article_id == 1,
            r@.next_comment_id == 1,
            store_wf(r@),
    {
        Store {
            users: Vec::new(),
            articles: Vec::new(),
            comments: Vec::new(),
            favorites: Vec::new(),
            followers: Vec::new(),
            next_user_id: 1,
            next_article_id: 1,
            next_comment_id: 1,
        }
    }

    /// The user row with this id, if any.
    pub fn user_by_id(&self, id: i32) -> (r: Option<&User>)
        requires
            store_wf(self@),
        ensures
            match r {
                Some(u) => has_user_id(self@.users, id as int) && u@ == user_by_id_spec(
                    self@.users,
                    id as int,
                ),
                None => !has_user_id(self@.users, id as int),
            },
    {
        let n = self.users.len();
        let mut i: usize = 0;
        while i < n
            invariant
                n == self.users.len(),
                i <= n,
                store_wf(self@),
                forall|j: int| 0 <= j < i ==> self@.users[j].id != id as int,
            decreases n - i,
        {
            if self.users[i].id == id {
                proof {
                    lemma_choose_unique_user_id(self@.users, i as int, id as int);
                }
                return Some(&self.users[i]);
            }
            i += 1;
        }
        None
    }

    /// The position of the user row with this id, if any.
    pub fn user_pos_by_id(&self, id: i32) -> (r: Option<usize>)
        requires
            store_wf(self@),
        ensures
            match r {
                Some(i) => i < self@.users.len() && self@.users[i as int].id == id as int
                    && has_user_id(self@.users, id as int) && user_index_by_id(
                    self@.users,
                    id as int,
                ) == i as int && user_by_id_spec(self@.users, id as int) == self@.users[i as int],
                None => !has_user_id(self@.users, id as int),
            },
    {
        let n = self.users.len();
        let mut i: usize = 0;
        while i < n
            invariant
                n == self.users.len(),
                i <= n,
                store_wf(self@),
                forall|j: int| 0 <= j < i ==> self@.users[j].id != id as int,
            decreases n - i,
        {
            if self.users[i].id == id {
                proof {
                    lemma_choose_unique_user_id(self@.users, i as int, id as int);
                }
                return Some(i);
            }
            i += 1;
        }
        None
    }

    /// The user row with this username, if any.
    pub fn user_by_name(&self, name: &str) -> (r: Option<&User>)
        requires
            store_wf(self@),
        ensures
            match r {
                Some(u) => has_user_name(self@.users, name@) && u@ == user_by_name_spec(
                    self@.users,
                    name@,
                ),
                None => !has_user_name(self@.users, name@),
            },
    {
        let name_s: String = name.to_owned();
        let n = self.users.len();
        let mut i: usize = 0;
        while i < n
            invariant
                n == self.users.len(),
                i <= n,
                name_s@ == name@,
                store_wf(self@),
                forall|j: int| 0 <= j < i ==> self@.users[j].username != name@,
            decreases n - i,
        {
            if self.users[i].username == name_s {
                proof {
                    lemma_choose_unique_user_name(self@.users, i as int, name@);
                }
                return Some(&self.users[i]);
            }
            i += 1;
        }
        None
    }

    /// The user row with this e-mail address, if any.
    pub fn user_by_email(&self, email: &str) -> (r: Option<&User>)
        requires
            store_wf(self@),
        ensures
            match r {
                Some(u) => has_user_email(self@.users, email@) && u@ == user_by_email_spec(
                    self@.users,
                    email@,
                ),
                None => !has_user_email(self@.users, email@),
            },
    {
        let email_s: String = email.to_owned();
        let n = self.users.len();
        let mut i: usize = 0;
        while i < n
            invariant
                n == self.users.len(),
                i <= n,
                email_s@ == email@,
                store_wf(self@),
                forall|j: int| 0 <= j < i ==> self@.users[j].email != email@,
            decreases n - i,
        {
            if self.users[i].email == email_s {
                proof {
                    lemma_choose_unique_user_email(self@.users, i as int, email@);
                }
                return Some(&self.users[i]);
            }
            i += 1;
        }
        None
    }

    /// The position of the article row with this slug, if any.
    pub fn article_pos_by_slug(&self, slug: &str) -> (r: Option<usize>)
        requires
            store_wf(self@),
        ensures
            match r {
                Some(i) => i < self@.articles.len() && self@.articles[i as int].slug == slug@
                    && has_article_slug(self@.articles, slug@) && article_index_by_slug(
                    self@.articles,
                    slug@,
                ) == i as int && article_by_slug_spec(self@.articles, slug@) == self@.articles[
                    i as int
                ],
                None => !has_article_slug(self@.articles, slug@),
            },
    {
        let slug_s: String = slug.to_owned();
        let n = self.articles.len();
        let mut i: usize = 0;
        while i < n
            invariant
                n == self.articles.len(),
                i <= n,
                slug_s@ == slug@,
                store_wf(self@),
                forall|j: int| 0 <= j < i ==> self@.articles[j].slug != slug@,
            decreases n - i,
        {
            if self.articles[i].slug == slug_s {
                proof {
                    lemma_choose_unique_article_slug(self@.articles, i as int, slug@);
                }
                return Some(i);
            }
            i += 1;
        }
        None
    }

    /// The position of the comment row with this id, if any.
    pub fn comment_pos_by_id(&self, id: i32) -> (r: Option<usize>)
        requires
            store_wf(self@),
        ensures
            match r {
                Some(i) => i < self@.comments.len() && self@.comments[i as int].id == id as int
                    && has_comment_id(self@.comments, id as int) && comment_index_by_id(
                    self@.comments,
                    id as int,
                ) == i as int && comment_by_id_spec(self@.comments, id as int) == self@.comments[
                    i as int
                ],
                None => !has_comment_id(self@.comments, id as int),
            },
    {
        let n = self.comments.len();
        let mut i: usize = 0;
        while i < n
            invariant
                n == self.comments.len(),
                i <= n,
                store_wf(self@),
                forall|j: int| 0 <= j < i ==> self@.comments[j].id != id as int,
            decreases n - i,
        {
            if self.comments[i].id == id {
                proof {
                    lemma_choose_unique_comment_id(self@.comments, i as int, id as int);
                }
                return Some(i);
            }
            i += 1;
        }
        None
    }

    /// Whether `user_id` has favorited `article_id`.
    pub fn is_favorited(&self, user_id: i32, article_id: i32) -> (r: bool)
        ensures
            r == is_favorited_spec(self@.favorites, user_id as int, article_id as int),
    {
        let n = self.favorites.len();
        let mut i: usize = 0;
        while i < n
            invariant
                n == self.favorites.len(),
                i <= n,
                forall|j: int|
                    0 <= j < i ==> self@.favorites[j] != (user_id as int, article_id as int),
            decreases n - i,
        {
            if self.favorites[i].user_id == user_id && self.favorites[i].article_id == article_id {
                proof {
                    assert(self@.favorites[i as int] == (user_id as int, article_id as int));
                }
                return true;
            }
            i += 1;
        }
        false
    }

    /// Whether `follower_id` follows `followee_id`.
    pub fn is_following(&self, follower_id: i32, followee_id: i32) -> (r: bool)
        ensures
            r == is_following_spec(self@.followers, follower_id as int, followee_id as int),
    {
        let n = self.followers.len();
        let mut i: usize = 0;
        while i < n
            invariant
                n == self.followers.len(),
                i <= n,
                forall|j: int|
                    0 <= j < i ==> self@.followers[j] != (follower_id as int, followee_id as int),
            decreases n - i,
        {
            if self.followers[i].follower_id == follower_id && self.followers[i].followee_id
                == followee_id {
                proof {
                    assert(self@.followers[i as int] == (follower_id as int, followee_id as int));
                }
                return true;
            }
            i += 1;
        }
        false
    }

    /// How many users have favorited `article_id`: one grouped count.
    pub fn favorites_count(&self, article_id: i32) -> (r: u64)
        ensures
            r == fav_count(self@.favorites, article_id as int),
    {
        let n = self.favorites.len();
        let mut count: u64 = 0;
        let mut i: usize = 0;
        while i < n
            invariant
                n == self.favorites.len(),
                i <= n,
                count <= i,
                count == fav_count(self@.favorites.take(i as int), article_id as int),
            decreases n - i,
        {
            proof {
                assert(self@.favorites.take(i + 1).drop_last() =~= self@.favorites.take(i as int));
                assert(self@.favorites.take(i + 1).last() == self@.favorites[i as int]);
            }
            if self.favorites[i].article_id == article_id {
                count += 1;
            }
            i += 1;
        }
        proof {
            assert(self@.favorites.take(n as int) =~= self@.favorites);
        }
        count
    }

    /// One grouped count for a whole page: the favorite count of each
    /// article id, aligned by index.
    pub fn favorites_count_for(&self, article_ids: &Vec<i32>) -> (r: Vec<u64>)
        ensures
            r@.len() == article_ids@.len(),
            forall|k: int|
                0 <= k < article_ids@.len() ==> r@[k] == fav_count(
                    self@.favorites,
                    article_ids@[k] as int,
                ),
    {
        let mut out: Vec<u64> = Vec::new();
        let n = article_ids.len();
        let mut i: usize = 0;
        while i < n
            invariant
                n == article_ids@.len(),
                i <= n,
                out@.len() == i,
                forall|k: int|
                    0 <= k < i ==> out@[k] == fav_count(self@.favorites, article_ids@[k] as int),
            decreases n - i,
        {
            let c = self.favorites_count(article_ids[i]);
            out.push(c);
            i += 1;
        }
        out
    }

    /// One query for a whole page: whether the viewer follows each of the
    /// candidate users, aligned by index.
    pub fn is_following_batch(&self, viewer_id: i32, candidate_user_ids: &Vec<i32>) -> (r: Vec<
        bool,
    >)
        ensures
            r@.len() == candidate_user_ids@.len(),
            forall|k: int|
                0 <= k < candidate_user_ids@.len() ==> r@[k] == is_following_spec(
                    self@.followers,
                    viewer_id as int,
                    candidate_user_ids@[k] as int,
                ),
    {
        let mut out: Vec<bool> = Vec::new();
        let n = candidate_user_ids.len();
        let mut i: usize = 0;
        while i < n
            invariant
                n == candidate_user_ids@.len(),
                i <= n,
                out@.len() == i,
                forall|k: int|
                    0 <= k < i ==> out@[k] == is_following_spec(
                        self@.followers,
                        viewer_id as int,
                        candidate_user_ids@[k] as int,
                    ),
            decreases n - i,
        {
            let f = self.is_following(viewer_id, candidate_user_ids[i]);
            out.push(f);
            i += 1;
        }
        out
    }

    /// One query for a whole page: whether the viewer has favorited each
    /// of the article ids, aligned by index.
    pub fn is_favorited_batch(&self, viewer_id: i32, article_ids: &Vec<i32>) -> (r: Vec<bool>)
        ensures
            r@.len() == article_ids@.len(),
            forall|k: int|
                0 <= k < article_ids@.len() ==> r@[k] == is_favorited_spec(
                    self@.favorites,
                    viewer_id as int,
                    article_ids@[k] as int,
                ),
    {
        let mut out: Vec<bool> = Vec::new();
        let n = article_ids.len();
        let mut i: usize = 0;
        while i < n
            invariant
                n == article_ids@.len(),
                i <= n,
                out@.len() == i,
                forall|k: int|
                    0 <= k < i ==> out@[k] == is_favorited_spec(
                        self@.favorites,
                        viewer_id as int,
                        article_ids@[k] as int,
                    ),
            decreases n - i,
        {
            let f = self.is_favorited(viewer_id, article_ids[i]);
            out.push(f);
            i += 1;
        }
        out
    }

    /// Records `user_id`'s favorite of `article_id`; a duplicate is a no-op.
    pub fn favorite(&mut self, user_id: i32, article_id: i32)
        requires
            store_wf(old(self)@),
        ensures
            final(self)@ == (SpecStore {
                favorites: edge_insert(
                    old(self)@.favorites,
                    (user_id as int, article_id as int),
                ),
                ..old(self)@
            }),
            store_wf(final(self)@),
    {
        if !self.is_favorited(user_id, article_id) {
            let ghost pre = self@;
            self.favorites.push(FavoriteEdge { user_id, article_id });
            proof {
                assert(self@.favorites =~= pre.favorites.push(
                    (user_id as int, article_id as int),
                ));
                assert(self@.users =~= pre.users);
                assert(self@.articles =~= pre.articles);
                assert(self@.comments =~= pre.comments);
                assert(self@.followers =~= pre.followers);
                assert(self@ == (SpecStore {
                    favorites: edge_insert(pre.favorites, (user_id as int, article_id as int)),
                    ..pre
                }));
            }
        } else {
            proof {
                assert(self@ == (SpecStore {
                    favorites: edge_insert(
                        old(self)@.favorites,
                        (user_id as int, article_id as int),
                    ),
                    ..old(self)@
                }));
            }
        }
    }

    /// Removes `user_id`'s favorite of `article_id`; absence is no error.
    pub fn unfavorite(&mut self, user_id: i32, article_id: i32)
        requires
            store_wf(old(self)@),
        ensures
            final(self)@ == (SpecStore {
                favorites: edge_remove(
                    old(self)@.favorites,
                    (user_id as int, article_id as int),
                ),
                ..old(self)@
            }),
            store_wf(final(self)@),
    {
        let n = self.favorites.len();
        let mut i: usize = 0;
        while i < n
            invariant
                n == self.favorites.len(),
                i <= n,
                store_wf(self@),
                *self == *old(self),
                forall|j: int|
                    0 <= j < i ==> self@.favorites[j] != (user_id as int, article_id as int),
            decreases n - i,
        {
            if self.favorites[i].user_id == user_id && self.favorites[i].article_id == article_id {
                let ghost pre = self@;
                let ghost edge = (user_id as int, article_id as int);
                self.favorites.remove(i);
                proof {
                    let ix = choose|k: int| 0 <= k < pre.favorites.len() && pre.favorites[k]
                        == edge;
                    assert(pre.favorites[i as int] == edge);
                    assert(0 <= ix < pre.favorites.len() && pre.favorites[ix] == edge);
                    assert(ix == i) by {
                        if ix != i {
                            assert(pre.favorites[ix] != pre.favorites[i as int]);
                        }
                    }
                    assert(self@.favorites =~= pre.favorites.remove(i as int));
                    assert(self@.users =~= pre.users);
                    assert(self@.articles =~= pre.articles);
                    assert(self@.comments =~= pre.comments);
                    assert(self@.followers =~= pre.followers);
                    assert(edges_distinct(self@.favorites));
                    assert(self@ == (SpecStore { favorites: edge_remove(pre.favorites, edge), ..pre }));
                }
                return ;
            }
            i += 1;
        }
        proof {
            assert(!is_favorited_spec(self@.favorites, user_id as int, article_id as int));
            assert(self@ == (SpecStore {
                favorites: edge_remove(old(self)@.favorites, (user_id as int, article_id as int)),
                ..old(self)@
            }));
        }
    }

    /// Records that `follower_id` follows `followee_id`; a duplicate is a
    /// no-op.
    pub fn follow(&mut self, follower_id: i32, followee_id: i32)
        requires
            store_wf(old(self)@),
        ensures
            final(self)@ == (SpecStore {
                followers: edge_insert(
                    old(self)@.followers,
                    (follower_id as int, followee_id as int),
                ),
                ..old(self)@
            }),
            store_wf(final(self)@),
    {
        if !self.is_following(follower_id, followee_id) {
            let ghost pre = self@;
            self.followers.push(FollowEdge { follower_id, followee_id });
            proof {
                assert(self@.followers =~= pre.followers.push(
                    (follower_id as int, followee_id as int),
                ));
                assert(self@.users =~= pre.users);
                assert(self@.articles =~= pre.articles);
                assert(self@.comments =~= pre.comments);
                assert(self@.favorites =~= pre.favorites);
                assert(self@ == (SpecStore {
                    followers: edge_insert(pre.followers, (follower_id as int, followee_id as int)),
                    ..pre
                }));
            }
        } else {
            proof {
                assert(self@ == (SpecStore {
                    followers: edge_insert(
                        old(self)@.followers,
                        (follower_id as int, followee_id as int),
                    ),
                    ..old(self)@
                }));
            }
        }
    }

    /// Removes the follow edge if it is present; absence is no error.
    pub fn unfollow(&mut self, follower_id: i32, followee_id: i32)
        requires
            store_wf(old(self)@),
        ensures
            final(self)@ == (SpecStore {
                followers: edge_remove(
                    old(self)@.followers,
                    (follower_id as int, followee_id as int),
                ),
                ..old(self)@
            }),
            store_wf(final(self)@),
    {
        let n = self.followers.len();
        let mut i: usize = 0;
        while i < n
            invariant
                n == self.followers.len(),
                i <= n,
                store_wf(self@),
                *self == *old(self),
                forall|j: int|
                    0 <= j < i ==> self@.followers[j] != (follower_id as int, followee_id as int),
            decreases n - i,
        {
            if self.followers[i].follower_id == follower_id && self.followers[i].followee_id
                == followee_id {
                let ghost pre = self@;
                let ghost edge = (follower_id as int, followee_id as int);
                self.followers.remove(i);
                proof {
                    let ix = choose|k: int| 0 <= k < pre.followers.len() && pre.followers[k]
                        == edge;
                    assert(pre.followers[i as int] == edge);
                    assert(0 <= ix < pre.followers.len() && pre.followers[ix] == edge);
                    assert(ix == i) by {
                        if ix != i {
                            assert(pre.followers[ix] != pre.followers[i as int]);
                        }
                    }
                    assert(self@.followers =~= pre.followers.remove(i as int));
                    assert(self@.users =~= pre.users);
                    assert(self@.articles =~= pre.articles);
                    assert(self@.comments =~= pre.comments);
                    assert(self@.favorites =~= pre.favorites);
                    assert(edges_distinct(self@.followers));
                    assert(self@ == (SpecStore { followers: edge_remove(pre.followers, edge), ..pre }));
                }
                return ;
            }
            i += 1;
        }
        proof {
            assert(!is_following_spec(self@.followers, follower_id as int, followee_id as int));
            assert(self@ == (SpecStore {
                followers: edge_remove(
                    old(self)@.followers,
                    (follower_id as int, followee_id as int),
                ),
                ..old(self)@
            }));
        }
    }
}

proof fn lemma_choose_unique_user_id(users: Seq<SpecUser>, i: int, id: int)
    requires
        forall|a: int, b: int| 0 <= a < b < users.len() ==> users[a].id != users[b].id,
        0 <= i < users.len(),
        users[i].id == id,
    ensures
        has_user_id(users, id),
        user_index_by_id(users, id) == i,
        user_by_id_spec(users, id) == users[i],
{
    let ix = choose|k: int| 0 <= k < users.len() && users[k].id == id;
    assert(0 <= ix < users.len() && users[ix].id == id);
    if ix != i {
        assert(users[ix].id != users[i].id);
    }
}

proof fn lemma_choose_unique_user_name(users: Seq<SpecUser>, i: int, name: Seq<char>)
    requires
        forall|a: int, b: int| 0 <= a < b < users.len() ==> users[a].username != users[b].username,
        0 <= i < users.len(),
        users[i].username == name,
    ensures
        has_user_name(users, name),
        user_by_name_spec(users, name) == users[i],
{
    let ix = choose|k: int| 0 <= k < users.len() && users[k].username == name;
    assert(0 <= ix < users.len() && users[ix].username == name);
    if ix != i {
        assert(users[ix].username != users[i].username);
    }
}

proof fn lemma_choose_unique_user_email(users: Seq<SpecUser>, i: int, email: Seq<char>)
    requires
        forall|a: int, b: int| 0 <= a < b < users.len() ==> users[a].email != users[b].email,
        0 <= i < users.len(),
        users[i].email == email,
    ensures
        has_user_email(users, email),
        user_by_email_spec(users, email) == users[i],
{
    let ix = choose|k: int| 0 <= k < users.len() && users[k].email == email;
    assert(0 <= ix < users.len() && users[ix].email == email);
    if ix != i {
        assert(users[ix].email != users[i].email);
    }
}

proof fn lemma_choose_unique_article_slug(articles: Seq<SpecArticle>, i: int, slug: Seq<char>)
    requires
        forall|a: int, b: int| 0 <= a < b < articles.len() ==> articles[a].slug != articles[b].slug,
        0 <= i < articles.len(),
        articles[i].slug == slug,
    ensures
        has_article_slug(articles, slug),
        article_index_by_slug(articles, slug) == i,
        article_by_slug_spec(articles, slug) == articles[i],
{
    let ix = choose|k: int| 0 <= k < articles.len() && articles[k].slug == slug;
    assert(0 <= ix < articles.len() && articles[ix].slug == slug);
    if ix != i {
        assert(articles[ix].slug != articles[i].slug);
    }
}

proof fn lemma_choose_unique_comment_id(comments: Seq<SpecComment>, i: int, id: int)
    requires
        forall|a: int, b: int| 0 <= a < b < comments.len() ==> comments[a].id != comments[b].id,
        0 <= i < comments.len(),
        comments[i].id == id,
    ensures
        has_comment_id(comments, id),
        comment_index_by_id(comments, id) == i,
        comment_by_id_spec(comments, id) == comments[i],
{
    let ix = choose|k: int| 0 <= k < comments.len() && comments[k].id == id;
    assert(0 <= ix < comments.len() && comments[ix].id == id);
    if ix != i {
        assert(comments[ix].id != comments[i].id);
    }
}

/// Cloning helper: a fresh vector of equal strings.
pub fn clone_string_vec(v: &Vec<String>) -> (r: Vec<String>)
    ensures
        r@ == v@,
{
    let mut out: Vec<String> = Vec::new();
    let n = v.len();
    let mut i: usize = 0;
    while i < n
        invariant
            n == v.len(),
            i <= n,
            out@ =~= v@.take(i as int),
        decreases n - i,
    {
        out.push(v[i].clone());
        proof {
            assert(out@ =~= v@.take(i + 1));
        }
        i += 1;
    }
    proof {
        assert(v@.take(n as int) =~= v@);
    }
    out
}

/// Cloning helper: an equal optional string.
pub fn clone_opt_string(o: &Option<String>) -> (r: Option<String>)
    ensures
        r == *o,
{
    match o {
        Some(s) => Some(s.clone()),
        None => None,
    }
}

impl Clone for User {
    /// An equal row.
    fn clone(&self) -> (r: User)
        ensures
            r@ == self@,
    {
        User {
            id: self.id,
            username: self.username.clone(),
            token: self.token.clone(),
            email: self.email.clone(),
            bio: clone_opt_string(&self.bio),
            image: clone_opt_string(&self.image),
        }
    }
}

impl Clone for Article {
    /// An equal row.
    fn clone(&self) -> (r: Article)
        ensures
            r@ == self@,
    {
        let r = Article {
            id: self.id,
            author_id: self.author_id,
            slug: self.slug.clone(),
            title: self.title.clone(),
            description: self.description.clone(),
            body: self.body.clone(),
            tag_list: clone_string_vec(&self.tag_list),
            created_at: self.created_at,
            updated_at: self.updated_at,
        };
        proof {
            assert(strings_view(r.tag_list@) =~= strings_view(self.tag_list@));
        }
        r
    }
}

impl Clone for Comment {
    /// An equal row.
    fn clone(&self) -> (r: Comment)
        ensures
            r@ == self@,
    {
        Comment {
            id: self.id,
            article_id: self.article_id,
            user_id: self.user_id,
            created_at: self.created_at,
            updated_at: self.updated_at,
            body: self.body.clone(),
        }
    }
}

} // verus!
