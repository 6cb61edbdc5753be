//! Comments: adding one under an article, listing an article's comments
//! hydrated with their authors' profiles, and author-only deletion.

use vstd::prelude::*;
use crate::profile::Profile;
use crate::profile::SpecProfile;
use crate::profile::profile_of;
use crate::profile::viewer_follows;
use crate::profile::viewer_id;
use crate::store::Comment;
use crate::store::SpecComment;
use crate::store::SpecStore;
use crate::store::SpecUser;
use crate::store::Store;
use crate::store::User;
use crate::store::article_by_slug_spec;
use crate::store::comment_by_id_spec;
use crate::store::comment_index_by_id;
use crate::store::has_article_slug;
use crate::store::has_comment_id;
use crate::store::has_user_id;
use crate::store::store_wf;
use crate::store::user_by_id_spec;
use crate::types::ApiError;

verus! {

/// A comment hydrated with its author's profile.
#[derive(Debug)]
pub struct CommentView {
    pub id: i32,
    pub created_at: i64,
    pub updated_at: i64,
    pub body: String,
    pub author: Profile,
}

/// The mathematical value of a hydrated comment.
pub struct SpecCommentView {
    pub id: int,
    pub created_at: int,
    pub updated_at: int,
    pub body: Seq<char>,
    pub author: SpecProfile,
}

impl View for CommentView {
    type V = SpecCommentView;

    open spec fn view(&self) -> SpecCommentView {
        SpecCommentView {
            id: self.id as int,
            created_at: self.created_at as int,
            updated_at: self.updated_at as int,
            body: self.body@,
            author: self.author@,
        }
    }
}

/// The hydrated form of a comment row under a given author profile.
pub open spec fn comment_view_of(c: SpecComment, author: SpecProfile) -> SpecCommentView {
    SpecCommentView {
        id: c.id,
        created_at: c.created_at,
        updated_at: c.updated_at,
        body: c.body,
        author,
    }
}

impl From<(Comment, Profile)> for CommentView {
    fn from(comment_and_profile: (Comment, Profile)) -> (r: CommentView) {
        CommentView {
            id: comment_and_profile.0.id,
            created_at: comment_and_profile.0.created_at,
            updated_at: comment_and_profile.0.updated_at,
            body: comment_and_profile.0.body,
            author: comment_and_profile.1,
        }
    }
}

impl vstd::std_specs::convert::FromSpecImpl<(Comment, Profile)> for CommentView {
    open spec fn obeys_from_spec() -> bool {
        true
    }

    open spec fn from_spec(v: (Comment, Profile)) -> CommentView {
        CommentView {
            id: v.0.id,
            created_at: v.0.created_at,
            updated_at: v.0.updated_at,
            body: v.0.body,
            author: v.1,
        }
    }
}

/// The body of a comment request.
#[derive(Debug)]
pub struct CommentBody {
    pub body: String,
}

/// A single-comment payload.
#[derive(Debug)]
pub struct CommentContainer<T> {
    pub comment: T,
}

/// A comment-list payload.
#[derive(Debug)]
pub struct CommentsContainer<T> {
    pub comments: T,
}

/// The comments of one article joined to their authors, in store order: a
/// row whose author is missing falls out of the join.
pub open spec fn comment_rows(
    comments: Seq<SpecComment>,
    users: Seq<SpecUser>,
    article_id: int,
) -> Seq<SpecComment>
    decreases comments.len(),
{
    if comments.len() == 0 {
        Seq::empty()
    } else {
        comment_rows(comments.drop_last(), users, article_id) + (if comments.last().article_id
            == article_id && has_user_id(users, comments.last().user_id) {
            seq![comments.last()]
        } else {
            Seq::empty()
        })
    }
}

/// `POST /articles/:slug/comments`: the article's existence is checked
/// before authentication; a comment is appended under a fresh id and
/// returned hydrated with the author's own profile (flag clear).
pub fn add(store: &mut Store, user: Option<&User>, slug: &str, details: &CommentBody, now: i64) -> (r:
    Result<CommentContainer<CommentView>, ApiError>)
    requires
        store_wf(old(store)@),
    ensures
        store_wf(final(store)@),
        match r {
            Ok(c) => has_article_slug(old(store)@.articles, slug@) && (user matches Some(u)
                && old(store)@.next_comment_id < 2147483647 && ({
                let nc = SpecComment {
                    id: old(store)@.next_comment_id,
                    article_id: article_by_slug_spec(old(store)@.articles, slug@).id,
                    user_id: u@.id,
                    created_at: now as int,
                    updated_at: now as int,
                    body: details.body@,
                };
                final(store)@ == (SpecStore {
                    comments: old(store)@.comments.push(nc),
                    next_comment_id: old(store)@.next_comment_id + 1,
                    ..old(store)@
                }) && c.comment@ == comment_view_of(nc, profile_of(u@, false))
            })),
            Err(e) => *final(store) == *old(store) && match e {
                ApiError::NotFound => !has_article_slug(old(store)@.articles, slug@),
                ApiError::Unauthorized => has_article_slug(old(store)@.articles, slug@) && user
                    is None,
                ApiError::Internal => has_article_slug(old(store)@.articles, slug@) && (user
                    is Some) && old(store)@.next_comment_id == 2147483647,
                _ => false,
            },
        },
{
    let article_pos = match store.article_pos_by_slug(slug) {
        Some(i) => i,
        None => {
            return Err(ApiError::NotFound);
        },
    };
    let author = match user {
        Some(u) => u,
        None => {
            return Err(ApiError::Unauthorized);
        },
    };
    let article_id = store.articles[article_pos].id;
    if store.next_comment_id == i32::MAX {
        return Err(ApiError::Internal);
    }
    let id = store.next_comment_id;
    let comment = Comment {
        id,
        article_id,
        user_id: author.id,
        created_at: now,
        updated_at: now,
        body: details.body.clone(),
    };
    let view = CommentView::from((comment.clone(), author.profile(false)));
    let ghost pre = store@;
    store.comments.push(comment);
    store.next_comment_id = id + 1;
    proof {
        assert(store@.comments =~= pre.comments.push(
            SpecComment {
                id: id as int,
                article_id: article_id as int,
                user_id: author@.id,
                created_at: now as int,
                updated_at: now as int,
                body: details.body@,
            },
        ));
        assert(store@.users =~= pre.users);
        assert(store@.articles =~= pre.articles);
        assert(store@.favorites =~= pre.favorites);
        assert(store@.followers =~= pre.followers);
        assert(store@ == (SpecStore {
            comments: store@.comments,
            next_comment_id: pre.next_comment_id + 1,
            ..pre
        }));
        assert(store_wf(store@)) by {
            let cs = store@.comments;
            assert forall|a: int, b: int| 0 <= a < b < cs.len() implies cs[a].id != cs[b].id by {
                if b == cs.len() - 1 {
                    assert(cs[a] == pre.comments[a]);
                    assert(pre.comments[a].id < pre.next_comment_id);
                }
            }
        }
    }
    Ok(CommentContainer { comment: view })
}

/// `GET /articles/:slug/comments`: every comment of the article joined to
/// its author, the follow flags relative to the optional viewer.
pub fn get(store: &Store, user: Option<&User>, slug: &str) -> (r: Result<
    CommentsContainer<Vec<CommentView>>,
    ApiError,
>)
    requires
        store_wf(store@),
    ensures
        match r {
            Ok(c) => has_article_slug(store@.articles, slug@) && ({
                let rows = comment_rows(
                    store@.comments,
                    store@.users,
                    article_by_slug_spec(store@.articles, slug@).id,
                );
                c.comments@.len() == rows.len() && forall|i: int|
                    0 <= i < rows.len() ==> (#[trigger] c.comments@[i])@ == comment_view_of(
                        rows[i],
                        profile_of(
                            user_by_id_spec(store@.users, rows[i].user_id),
                            viewer_follows(store@, viewer_id(user), rows[i].user_id),
                        ),
                    )
            }),
            Err(e) => e is NotFound && !has_article_slug(store@.articles, slug@),
        },
{
    let article_pos = match store.article_pos_by_slug(slug) {
        Some(i) => i,
        None => {
            return Err(ApiError::NotFound);
        },
    };
    let article_id = store.articles[article_pos].id;
    let ghost aid = article_by_slug_spec(store@.articles, slug@).id;
    let mut out: Vec<CommentView> = Vec::new();
    let n = store.comments.len();
    let mut i: usize = 0;
    while i < n
        invariant
            n == store.comments.len(),
            i <= n,
            store_wf(store@),
            article_id as int == aid,
            out@.len() == comment_rows(store@.comments.take(i as int), store@.users, aid).len(),
            forall|k: int|
                0 <= k < out@.len() ==> (#[trigger] out@[k])@ == comment_view_of(
                    comment_rows(store@.comments.take(i as int), store@.users, aid)[k],
                    profile_of(
                        user_by_id_spec(
                            store@.users,
                            comment_rows(store@.comments.take(i as int), store@.users, aid)[k].user_id,
                        ),
                        viewer_follows(
                            store@,
                            viewer_id(user),
                            comment_rows(store@.comments.take(i as int), store@.users, aid)[k].user_id,
                        ),
                    ),
                ),
        decreases n - i,
    {
        proof {
            assert(store@.comments.take(i + 1).drop_last() =~= store@.comments.take(i as int));
            assert(store@.comments.take(i + 1).last() == store@.comments[i as int]);
        }
        if store.comments[i].article_id == article_id {
            match store.user_by_id(store.comments[i].user_id) {
                Some(author) => {
                    let following = match user {
                        Some(current) => store.is_following(current.id, author.id),
                        None => false,
                    };
                    let view = CommentView::from(
                        (store.comments[i].clone(), author.profile(following)),
                    );
                    out.push(view);
                    proof {
                        assert(comment_rows(store@.comments.take(i + 1), store@.users, aid)
                            =~= comment_rows(store@.comments.take(i as int), store@.users, aid)
                            + seq![store@.comments[i as int]]);
                    }
                },
                None => {
                    proof {
                        assert(comment_rows(store@.comments.take(i + 1), store@.users, aid)
                            =~= comment_rows(store@.comments.take(i as int), store@.users, aid));
                    }
                },
            }
        } else {
            proof {
                assert(comment_rows(store@.comments.take(i + 1), store@.users, aid)
                    =~= comment_rows(store@.comments.take(i as int), store@.users, aid));
            }
        }
        i += 1;
    }
    proof {
        assert(store@.comments.take(n as int) =~= store@.comments);
    }
    Ok(CommentsContainer { comments: out })
}

/// `DELETE /articles/:slug/comments/:id`: the comment's author, and only
/// its author, may delete it; existence is checked before authorization.
pub fn delete(store: &mut Store, user: Option<&User>, id: i32) -> (r: Result<(), ApiError>)
    requires
        store_wf(old(store)@),
    ensures
        store_wf(final(store)@),
        match r {
            Ok(_) => {
                &&& has_comment_id(old(store)@.comments, id as int)
                &&& user matches Some(u) && u@.id == comment_by_id_spec(
                    old(store)@.comments,
                    id as int,
                ).user_id
                &&& final(store)@ == (SpecStore {
                    comments: old(store)@.comments.remove(
                        comment_index_by_id(old(store)@.comments, id as int),
                    ),
                    ..old(store)@
                })
            },
            Err(e) => *final(store) == *old(store) && match e {
                ApiError::NotFound => !has_comment_id(old(store)@.comments, id as int),
                ApiError::Unauthorized => has_comment_id(old(store)@.comments, id as int) && user
                    is None,
                ApiError::Forbidden => has_comment_id(old(store)@.comments, id as int) && (user
                    matches Some(u) && u@.id != comment_by_id_spec(
                    old(store)@.comments,
                    id as int,
                ).user_id),
                _ => false,
            },
        },
{
    let pos = match store.comment_pos_by_id(id) {
        Some(i) => i,
        None => {
            return Err(ApiError::NotFound);
        },
    };
    let requester = match user {
        Some(u) => u,
        None => {
            return Err(ApiError::Unauthorized);
        },
    };
    if store.comments[pos].user_id != requester.id {
        return Err(ApiError::Forbidden);
    }
    let ghost pre = store@;
    store.comments.remove(pos);
    proof {
        assert(store@.comments =~= pre.comments.remove(pos as int));
        assert(store@.users =~= pre.users);
        assert(store@.articles =~= pre.articles);
        assert(store@.favorites =~= pre.favorites);
        assert(store@.followers =~= pre.followers);
        assert(store@ == (SpecStore { comments: pre.comments.remove(pos as int), ..pre }));
        assert(store_wf(store@)) by {
            let cs = store@.comments;
            assert forall|a: int, b: int| 0 <= a < b < cs.len() implies cs[a].id != cs[b].id by {
                let a2 = if a < pos as int {
                    a
                } else {
                    a + 1
                };
                let b2 = if b < pos as int {
                    b
                } else {
                    b + 1
                };
                assert(cs[a] == pre.comments[a2]);
                assert(cs[b] == pre.comments[b2]);
            }
            assert forall|a: int| 0 <= a < cs.len() implies cs[a].id < store@.next_comment_id by {
                let a2 = if a < pos as int {
                    a
                } else {
                    a + 1
                };
                assert(cs[a] == pre.comments[a2]);
            }
        }
    }
    Ok(())
}

} // verus!
