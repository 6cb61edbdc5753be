//! The article aggregator: single-article fetch, filtered listing with
//! pagination, the follow feed, tag enumeration, and the create, update,
//! delete and favorite handlers. Every read composes the article row with
//! its author's profile, the favorite count, and the viewer-relative
//! favorite and follow flags.

use vstd::prelude::*;
use vstd::pervasive::unreached;
use crate::profile::Profile;
use crate::profile::SpecProfile;
use crate::profile::profile_of;
use crate::profile::viewer_follows;
use crate::profile::viewer_id;
use crate::slugger::make_slug;
use crate::slugger::slug_spec;
use crate::store::Article;
use crate::store::SpecArticle;
use crate::store::SpecStore;
use crate::store::Store;
use crate::store::User;
use crate::store::article_by_slug_spec;
use crate::store::article_index_by_slug;
use crate::store::clone_string_vec;
use crate::store::edge_insert;
use crate::store::fav_count;
use crate::store::has_article_slug;
use crate::store::has_user_id;
use crate::store::is_favorited_spec;
use crate::store::store_wf;
use crate::store::strings_view;
use crate::store::user_by_id_spec;
use crate::store::user_by_name_spec;
use crate::store::has_user_name;
use crate::types::ApiError;
use crate::types::ValidationError;
use crate::types::spec_add_error;

verus! {

// ---------------------------------------------------------------------
// Blank-field validation
// ---------------------------------------------------------------------
/// The whitespace characters a blank check strips.
pub open spec fn is_space(c: char) -> bool {
    c == ' ' || c == '\t' || c == '\n' || c == '\r' || c == '\u{b}' || c == '\u{c}'
}

/// Whether a field is empty after trimming whitespace.
pub open spec fn blank(s: Seq<char>) -> bool {
    forall|i: int| 0 <= i < s.len() ==> is_space(s[i])
}

/// Whether `s` is empty after trimming whitespace.
fn is_blank(s: &str) -> (r: bool)
    ensures
        r == blank(s@),
{
    let n = vstd::string::StrSliceExecFns::unicode_len(s);
    let mut i: usize = 0;
    while i < n
        invariant
            n == s@.len(),
            i <= n,
            forall|j: int| 0 <= j < i ==> is_space(s@[j]),
        decreases n - i,
    {
        let c = vstd::string::StrSliceExecFns::get_char(s, i);
        if !(c == ' ' || c == '\t' || c == '\n' || c == '\r' || c == '\u{b}' || c == '\u{c}') {
            return false;
        }
        i += 1;
    }
    true
}

/// Adds `error_description` under `error_name` when the field is blank.
fn add_error_if_empty(field: &str, error: &mut ValidationError, error_name: &str, error_description: &str)
    requires
        old(error).wf(),
    ensures
        final(error).wf(),
        final(error)@ == (if blank(field@) {
            spec_add_error(old(error)@, error_name@, error_description@)
        } else {
            old(error)@
        }),
{
    if is_blank(field) {
        error.add_error(error_name, error_description);
    }
}

// ---------------------------------------------------------------------
// Request shapes
// ---------------------------------------------------------------------
/// The fields of a new article.
#[derive(Debug)]
pub struct ArticleDetails {
    pub title: String,
    pub description: String,
    pub body: String,
    pub tag_list: Vec<String>,
}

/// The body of `POST /articles`.
#[derive(Debug)]
pub struct CreateArticle {
    pub article: ArticleDetails,
}

/// The patch fields of `PUT /articles/:slug`: absent fields are preserved.
#[derive(Debug)]
pub struct UpdateDetails {
    pub title: Option<String>,
    pub description: Option<String>,
    pub body: Option<String>,
}

/// The body of `PUT /articles/:slug`.
#[derive(Debug)]
pub struct UpdateArticle {
    pub article: UpdateDetails,
}

/// The mathematical value of an update request.
pub struct SpecUpdateDetails {
    pub title: Option<Seq<char>>,
    pub description: Option<Seq<char>>,
    pub body: Option<Seq<char>>,
}

impl View for UpdateDetails {
    type V = SpecUpdateDetails;

    open spec fn view(&self) -> SpecUpdateDetails {
        SpecUpdateDetails {
            title: crate::store::opt_view(self.title),
            description: crate::store::opt_view(self.description),
            body: crate::store::opt_view(self.body),
        }
    }
}

/// The failures creating an article accumulates, in order: blank body,
/// blank title, blank description.
pub open spec fn create_errors(title: Seq<char>, description: Seq<char>, body: Seq<char>) -> Seq<
    (Seq<char>, Seq<Seq<char>>),
> {
    let m0 = Seq::<(Seq<char>, Seq<Seq<char>>)>::empty();
    let m1 = if blank(body) {
        spec_add_error(m0, "body"@, "empty body"@)
    } else {
        m0
    };
    let m2 = if blank(title) {
        spec_add_error(m1, "title"@, "empty title"@)
    } else {
        m1
    };
    if blank(description) {
        spec_add_error(m2, "description"@, "empty description"@)
    } else {
        m2
    }
}

/// The failures updating an article accumulates: each present field must
/// not be blank; absent fields are not checked.
pub open spec fn update_details_errors(u: SpecUpdateDetails) -> Seq<(Seq<char>, Seq<Seq<char>>)> {
    let m0 = Seq::<(Seq<char>, Seq<Seq<char>>)>::empty();
    let m1 = match u.body {
        Some(b) => if blank(b) {
            spec_add_error(m0, "body"@, "empty body"@)
        } else {
            m0
        },
        None => m0,
    };
    let m2 = match u.title {
        Some(t) => if blank(t) {
            spec_add_error(m1, "title"@, "empty title"@)
        } else {
            m1
        },
        None => m1,
    };
    match u.description {
        Some(d) => if blank(d) {
            spec_add_error(m2, "description"@, "empty description"@)
        } else {
            m2
        },
        None => m2,
    }
}

/// The two validated request kinds, as one dispatch.
pub enum CreateOrUpdate<'r> {
    Create(&'r CreateArticle),
    Update(&'r UpdateArticle),
}

impl<'r> CreateOrUpdate<'r> {
    /// The failures the wrapped request accumulates.
    pub open spec fn spec_errors(&self) -> Seq<(Seq<char>, Seq<Seq<char>>)> {
        match self {
            CreateOrUpdate::Create(c) => create_errors(
                c.article.title@,
                c.article.description@,
                c.article.body@,
            ),
            CreateOrUpdate::Update(u) => update_details_errors(u.article@),
        }
    }

    /// Checks the wrapped request, accumulating every blank-field failure.
    pub fn validate(&self) -> (r: Result<(), ValidationError>)
        ensures
            match r {
                Ok(_) => self.spec_errors().len() == 0,
                Err(e) => e.wf() && e@ == self.spec_errors() && e@.len() > 0,
            },
    {
        let mut error = ValidationError::new();
        match self {
            CreateOrUpdate::Create(c) => {
                add_error_if_empty(c.article.body.as_str(), &mut error, "body", "empty body");
                add_error_if_empty(
                    c.article.title.as_str(),
                    &mut error,
                    "title",
                    "empty title",
                );
                add_error_if_empty(
                    c.article.description.as_str(),
                    &mut error,
                    "description",
                    "empty description",
                );
            },
            CreateOrUpdate::Update(u) => {
                if let Some(body) = &u.article.body {
                    add_error_if_empty(body.as_str(), &mut error, "body", "empty body");
                }
                if let Some(title) = &u.article.title {
                    add_error_if_empty(title.as_str(), &mut error, "title", "empty title");
                }
                if let Some(description) = &u.article.description {
                    add_error_if_empty(
                        description.as_str(),
                        &mut error,
                        "description",
                        "empty description",
                    );
                }
            },
        }
        if error.empty() {
            Ok(())
        } else {
            Err(error)
        }
    }
}

impl CreateArticle {
    /// Checks the request, accumulating every blank-field failure.
    pub fn validate(&self) -> (r: Result<(), ValidationError>)
        ensures
            match r {
                Ok(_) => create_errors(
                    self.article.title@,
                    self.article.description@,
                    self.article.body@,
                ).len() == 0,
                Err(e) => e.wf() && e@ == create_errors(
                    self.article.title@,
                    self.article.description@,
                    self.article.body@,
                ) && e@.len() > 0,
            },
    {
        CreateOrUpdate::Create(self).validate()
    }
}

impl UpdateArticle {
    /// Checks the request, accumulating every blank-field failure.
    pub fn validate(&self) -> (r: Result<(), ValidationError>)
        ensures
            match r {
                Ok(_) => update_details_errors(self.article@).len() == 0,
                Err(e) => e.wf() && e@ == update_details_errors(self.article@) && e@.len() > 0,
            },
    {
        CreateOrUpdate::Update(self).validate()
    }
}

// ---------------------------------------------------------------------
// Rich articles
// ---------------------------------------------------------------------
/// An article hydrated with its author's profile and the viewer-relative
/// social state.
#[derive(Debug)]
pub struct RichArticle {
    pub id: i32,
    pub slug: String,
    pub title: String,
    pub description: String,
    pub body: String,
    pub tag_list: Vec<String>,
    pub created_at: i64,
    pub updated_at: i64,
    pub favorites_count: u64,
    pub favorited: bool,
    pub author: Profile,
}

/// The mathematical value of a hydrated article.
pub struct SpecRichArticle {
    pub id: int,
    pub slug: Seq<char>,
    pub title: Seq<char>,
    pub description: Seq<char>,
    pub body: Seq<char>,
    pub tag_list: Seq<Seq<char>>,
    pub created_at: int,
    pub updated_at: int,
    pub favorites_count: int,
    pub favorited: bool,
    pub author: SpecProfile,
}

impl View for RichArticle {
    type V = SpecRichArticle;

    open spec fn view(&self) -> SpecRichArticle {
        SpecRichArticle {
            id: self.id as int,
            slug: self.slug@,
            title: self.title@,
            description: self.description@,
            body: self.body@,
            tag_list: strings_view(self.tag_list@),
            created_at: self.created_at as int,
            updated_at: self.updated_at as int,
            favorites_count: self.favorites_count as int,
            favorited: self.favorited,
            author: self.author@,
        }
    }
}

/// The body of every single-article response.
#[derive(Debug)]
pub struct RichArticleResponse {
    pub article: RichArticle,
}

/// An article's fields under a given author profile, count and flag.
pub open spec fn rich_of(
    a: SpecArticle,
    author: SpecProfile,
    favorites_count: int,
    favorited: bool,
) -> SpecRichArticle {
    SpecRichArticle {
        id: a.id,
        slug: a.slug,
        title: a.title,
        description: a.description,
        body: a.body,
        tag_list: a.tag_list,
        created_at: a.created_at,
        updated_at: a.updated_at,
        favorites_count,
        favorited,
        author,
    }
}

/// Whether an optional viewer has favorited `article_id`.
pub open spec fn viewer_favorited(s: SpecStore, viewer: Option<int>, article_id: int) -> bool {
    match viewer {
        Some(v) => is_favorited_spec(s.favorites, v, article_id),
        None => false,
    }
}

/// The fully-hydrated view of an article in a store, relative to an
/// optional viewer.
pub open spec fn spec_rich(s: SpecStore, a: SpecArticle, viewer: Option<int>) -> SpecRichArticle {
    rich_of(
        a,
        profile_of(
            user_by_id_spec(s.users, a.author_id),
            viewer_follows(s, viewer, a.author_id),
        ),
        fav_count(s.favorites, a.id),
        viewer_favorited(s, viewer, a.id),
    )
}

impl RichArticle {
    /// Composes the response row; a missing count defaults to zero.
    pub fn from(article: Article, author: Profile, favorites_count: Option<u64>, favorited: bool) -> (r:
        RichArticle)
        ensures
            r@ == rich_of(
                article@,
                author@,
                match favorites_count {
                    Some(c) => c as int,
                    None => 0,
                },
                favorited,
            ),
    {
        let favorites_count = match favorites_count {
            Some(c) => c,
            None => 0,
        };
        RichArticle {
            id: article.id,
            slug: article.slug,
            title: article.title,
            description: article.description,
            body: article.body,
            tag_list: article.tag_list,
            created_at: article.created_at,
            updated_at: article.updated_at,
            favorites_count,
            favorited,
            author,
        }
    }
}

impl Article {
    /// The position of the article row with this slug, if any.
    pub fn by_slug(article_slug: &str, store: &Store) -> (r: Option<usize>)
        requires
            store_wf(store@),
        ensures
            match r {
                Some(i) => i < store@.articles.len() && has_article_slug(
                    store@.articles,
                    article_slug@,
                ) && article_index_by_slug(store@.articles, article_slug@) == i as int
                    && article_by_slug_spec(store@.articles, article_slug@) == store@.articles[
                    i as int
                ],
                None => !has_article_slug(store@.articles, article_slug@),
            },
    {
        store.article_pos_by_slug(article_slug)
    }

    /// Loads the article row with this slug.
    pub fn load_by_slug(slug_: &str, store: &Store) -> (r: Result<Article, ApiError>)
        requires
            store_wf(store@),
        ensures
            match r {
                Ok(a) => has_article_slug(store@.articles, slug_@) && a@ == article_by_slug_spec(
                    store@.articles,
                    slug_@,
                ),
                Err(e) => e is NotFound && !has_article_slug(store@.articles, slug_@),
            },
    {
        match Article::by_slug(slug_, store) {
            Some(i) => Ok(store.articles[i].clone()),
            None => Err(ApiError::NotFound),
        }
    }

    /// How many users have favorited this article: one grouped count.
    pub fn get_favorites_count(&self, store: &Store) -> (r: u64)
        ensures
            r == fav_count(store@.favorites, self@.id),
    {
        store.favorites_count(self.id)
    }

    /// Whether `user` has favorited this article.
    pub fn is_favorited_by(&self, user: &User, store: &Store) -> (r: bool)
        ensures
            r == is_favorited_spec(store@.favorites, user@.id, self@.id),
    {
        store.is_favorited(user.id, self.id)
    }
}

/// Hydrates one article row; its author must be present.
fn hydrate(store: &Store, article: &Article, viewer: Option<&User>) -> (r: RichArticle)
    requires
        store_wf(store@),
        has_user_id(store@.users, article@.author_id),
    ensures
        r@ == spec_rich(store@, article@, viewer_id(viewer)),
{
    let author = match store.user_by_id(article.author_id) {
        Some(u) => u,
        None => unreached(),
    };
    let following = match viewer {
        Some(v) => store.is_following(v.id, author.id),
        None => false,
    };
    let favorited = match viewer {
        Some(v) => store.is_favorited(v.id, article.id),
        None => false,
    };
    let count = store.favorites_count(article.id);
    RichArticle::from(article.clone(), author.profile(following), Some(count), favorited)
}

// ---------------------------------------------------------------------
// Single-article handlers
// ---------------------------------------------------------------------
/// `GET /articles/:slug`: the hydrated article, join semantics — an
/// article whose author row is missing is not found.
pub fn get(store: &Store, current_user: Option<&User>, slug_: &str) -> (r: Result<
    RichArticleResponse,
    ApiError,
>)
    requires
        store_wf(store@),
    ensures
        match r {
            Ok(resp) => has_article_slug(store@.articles, slug_@) && has_user_id(
                store@.users,
                article_by_slug_spec(store@.articles, slug_@).author_id,
            ) && resp.article@ == spec_rich(
                store@,
                article_by_slug_spec(store@.articles, slug_@),
                viewer_id(current_user),
            ),
            Err(e) => e is NotFound && (!has_article_slug(store@.articles, slug_@)
                || !has_user_id(
                store@.users,
                article_by_slug_spec(store@.articles, slug_@).author_id,
            )),
        },
{
    let pos = match store.article_pos_by_slug(slug_) {
        Some(i) => i,
        None => {
            return Err(ApiError::NotFound);
        },
    };
    if store.user_by_id(store.articles[pos].author_id).is_none() {
        return Err(ApiError::NotFound);
    }
    let article = store.articles[pos].clone();
    Ok(RichArticleResponse { article: hydrate(store, &article, current_user) })
}

/// `POST /articles`: validates the fields, derives the slug from the
/// creation timestamp and title, and appends the row under a fresh id.
pub fn create(store: &mut Store, user: &User, req: &CreateArticle, now: i64) -> (r: Result<
    RichArticleResponse,
    ApiError,
>)
    requires
        store_wf(old(store)@),
    ensures
        store_wf(final(store)@),
        match r {
            Ok(resp) => {
                &&& create_errors(
                    req.article.title@,
                    req.article.description@,
                    req.article.body@,
                ).len() == 0
                &&& old(store)@.next_article_id < 2147483647
                &&& ({
                    let slug = slug_spec(now as int, req.article.title@);
                    let na = SpecArticle {
                        id: old(store)@.next_article_id,
                        author_id: user@.id,
                        slug,
                        title: req.article.title@,
                        description: req.article.description@,
                        body: req.article.body@,
                        tag_list: strings_view(req.article.tag_list@),
                        created_at: now as int,
                        updated_at: now as int,
                    };
                    &&& !has_article_slug(old(store)@.articles, slug)
                    &&& final(store)@ == (SpecStore {
                        articles: old(store)@.articles.push(na),
                        next_article_id: old(store)@.next_article_id + 1,
                        ..old(store)@
                    })
                    &&& resp.article@ == rich_of(na, profile_of(user@, false), 0, false)
                })
            },
            Err(e) => *final(store) == *old(store) && match e {
                ApiError::Validation(v) => v.wf() && v@ == create_errors(
                    req.article.title@,
                    req.article.description@,
                    req.article.body@,
                ) && v@.len() > 0,
                ApiError::Internal => create_errors(
                    req.article.title@,
                    req.article.description@,
                    req.article.body@,
                ).len() == 0 && (old(store)@.next_article_id == 2147483647 || has_article_slug(
                    old(store)@.articles,
                    slug_spec(now as int, req.article.title@),
                )),
                _ => false,
            },
        },
{
    match req.validate() {
        Ok(_) => {},
        Err(e) => {
            return Err(ApiError::Validation(e));
        },
    }
    if store.next_article_id == i32::MAX {
        return Err(ApiError::Internal);
    }
    let slug = make_slug(now, req.article.title.as_str());
    if store.article_pos_by_slug(slug.as_str()).is_some() {
        return Err(ApiError::Internal);
    }
    let id = store.next_article_id;
    let article = Article {
        id,
        author_id: user.id,
        slug,
        title: req.article.title.clone(),
        description: req.article.description.clone(),
        body: req.article.body.clone(),
        tag_list: clone_string_vec(&req.article.tag_list),
        created_at: now,
        updated_at: now,
    };
    let response = RichArticle::from(article.clone(), user.profile(false), None, false);
    let ghost pre = store@;
    let ghost na = article@;
    store.articles.push(article);
    store.next_article_id = id + 1;
    proof {
        assert(store@.articles =~= pre.articles.push(na));
        assert(store@.users =~= pre.users);
        assert(store@.comments =~= pre.comments);
        assert(store@.favorites =~= pre.favorites);
        assert(store@.followers =~= pre.followers);
        assert(store@ == (SpecStore {
            articles: pre.articles.push(na),
            next_article_id: pre.next_article_id + 1,
            ..pre
        }));
        assert(store_wf(store@)) by {
            let arts = store@.articles;
            assert forall|a: int, b: int| 0 <= a < b < arts.len() implies arts[a].id != arts[b].id
                && arts[a].slug != arts[b].slug by {
                if b == arts.len() - 1 {
                    assert(arts[a] == pre.articles[a]);
                    assert(pre.articles[a].id < pre.next_article_id);
                    assert(!has_article_slug(pre.articles, na.slug));
                }
            }
        }
    }
    Ok(RichArticleResponse { article: response })
}

/// Whether some other article (a different id) holds this slug.
pub open spec fn exists_other_slug(articles: Seq<SpecArticle>, slug: Seq<char>, id: int) -> bool {
    exists|i: int| 0 <= i < articles.len() && articles[i].slug == slug && articles[i].id != id
}

/// Whether another article than `id` holds `slug`.
fn exists_other_with_slug(store: &Store, slug: &String, id: i32) -> (r: bool)
    ensures
        r == exists_other_slug(store@.articles, slug@, id as int),
{
    let n = store.articles.len();
    let mut i: usize = 0;
    while i < n
        invariant
            n == store.articles.len(),
            i <= n,
            forall|j: int|
                0 <= j < i ==> !(store@.articles[j].slug == slug@ && store@.articles[j].id != id
                    as int),
        decreases n - i,
    {
        if store.articles[i].slug == *slug && store.articles[i].id != id {
            proof {
                assert(store@.articles[i as int].slug == slug@ && store@.articles[i as int].id
                    != id as int);
            }
            return true;
        }
        i += 1;
    }
    false
}

/// `PUT /articles/:slug`: existence is checked first, then authorship —
/// a non-author is forbidden; a changed title regenerates the slug from
/// the original creation timestamp.
pub fn update(store: &mut Store, slug: &str, current_user: &User, upd: &UpdateArticle, now: i64) -> (r:
    Result<RichArticleResponse, ApiError>)
    requires
        store_wf(old(store)@),
    ensures
        store_wf(final(store)@),
        match r {
            Ok(resp) => {
                &&& has_article_slug(old(store)@.articles, slug@)
                &&& article_by_slug_spec(old(store)@.articles, slug@).author_id == current_user@.id
                &&& update_details_errors(upd.article@).len() == 0
                &&& ({
                    let a = article_by_slug_spec(old(store)@.articles, slug@);
                    let new_title = match upd.article@.title {
                        Some(t) => t,
                        None => a.title,
                    };
                    let na = SpecArticle {
                        slug: match upd.article@.title {
                            Some(_) => slug_spec(a.created_at, new_title),
                            None => a.slug,
                        },
                        title: new_title,
                        description: match upd.article@.description {
                            Some(d) => d,
                            None => a.description,
                        },
                        body: match upd.article@.body {
                            Some(b) => b,
                            None => a.body,
                        },
                        updated_at: now as int,
                        ..a
                    };
                    &&& !exists_other_slug(old(store)@.articles, na.slug, a.id)
                    &&& final(store)@ == (SpecStore {
                        articles: old(store)@.articles.update(
                            article_index_by_slug(old(store)@.articles, slug@),
                            na,
                        ),
                        ..old(store)@
                    })
                    &&& resp.article@ == rich_of(
                        na,
                        profile_of(current_user@, false),
                        fav_count(old(store)@.favorites, a.id),
                        is_favorited_spec(old(store)@.favorites, current_user@.id, a.id),
                    )
                })
            },
            Err(e) => *final(store) == *old(store) && match e {
                ApiError::NotFound => !has_article_slug(old(store)@.articles, slug@),
                ApiError::Forbidden => has_article_slug(old(store)@.articles, slug@)
                    && article_by_slug_spec(old(store)@.articles, slug@).author_id
                    != current_user@.id,
                ApiError::Validation(v) => has_article_slug(old(store)@.articles, slug@)
                    && article_by_slug_spec(old(store)@.articles, slug@).author_id
                    == current_user@.id && v.wf() && v@ == update_details_errors(upd.article@)
                    && v@.len() > 0,
                ApiError::Internal => {
                    &&& has_article_slug(old(store)@.articles, slug@)
                    &&& article_by_slug_spec(old(store)@.articles, slug@).author_id
                        == current_user@.id
                    &&& update_details_errors(upd.article@).len() == 0
                    &&& upd.article@.title is Some
                    &&& ({
                        let a = article_by_slug_spec(old(store)@.articles, slug@);
                        exists_other_slug(
                            old(store)@.articles,
                            slug_spec(
                                a.created_at,
                                match upd.article@.title {
                                    Some(t) => t,
                                    None => a.title,
                                },
                            ),
                            a.id,
                        )
                    })
                },
                _ => false,
            },
        },
{
    let pos = match store.article_pos_by_slug(slug) {
        Some(i) => i,
        None => {
            return Err(ApiError::NotFound);
        },
    };
    if store.articles[pos].author_id != current_user.id {
        return Err(ApiError::Forbidden);
    }
    match upd.validate() {
        Ok(_) => {},
        Err(e) => {
            return Err(ApiError::Validation(e));
        },
    }
    let mut article = store.articles[pos].clone();
    if let Some(title) = &upd.article.title {
        article.title = title.clone();
        article.slug = make_slug(article.created_at, article.title.as_str());
        if exists_other_with_slug(store, &article.slug, article.id) {
            return Err(ApiError::Internal);
        }
    }
    if let Some(body) = &upd.article.body {
        article.body = body.clone();
    }
    if let Some(description) = &upd.article.description {
        article.description = description.clone();
    }
    article.updated_at = now;
    let fav_cnt = article.get_favorites_count(store);
    let favorited = article.is_favorited_by(current_user, store);
    let stored = article.clone();
    let ghost pre = store@;
    let ghost na = article@;
    let _ = store.articles.remove(pos);
    store.articles.insert(pos, stored);
    proof {
        assert(store@.articles =~= pre.articles.update(pos as int, na));
        assert(store@.users =~= pre.users);
        assert(store@.comments =~= pre.comments);
        assert(store@.favorites =~= pre.favorites);
        assert(store@.followers =~= pre.followers);
        assert(store@ == (SpecStore { articles: pre.articles.update(pos as int, na), ..pre }));
        assert(store_wf(store@)) by {
            let arts = store@.articles;
            assert forall|a: int, b: int| 0 <= a < b < arts.len() implies arts[a].id != arts[b].id
                && arts[a].slug != arts[b].slug by {
                if a != pos as int && b != pos as int {
                    assert(arts[a] == pre.articles[a] && arts[b] == pre.articles[b]);
                } else {
                    let o = if a == pos as int {
                        b
                    } else {
                        a
                    };
                    assert(arts[o] == pre.articles[o]);
                    assert(pre.articles[o].id != na.id);
                    if arts[o].slug == na.slug {
                        assert(exists_other_slug(pre.articles, na.slug, na.id));
                    }
                }
            }
        }
    }
    let response = RichArticle::from(
        article,
        current_user.profile(false),
        Some(fav_cnt),
        favorited,
    );
    Ok(RichArticleResponse { article: response })
}

/// `DELETE /articles/:slug`: existence is checked before authentication
/// and authorship; only the author may delete.
pub fn delete(store: &mut Store, current_user: Option<&User>, slug_: &str) -> (r: Result<
    (),
    ApiError,
>)
    requires
        store_wf(old(store)@),
    ensures
        store_wf(final(store)@),
        match r {
            Ok(_) => {
                &&& has_article_slug(old(store)@.articles, slug_@)
                &&& current_user matches Some(u) && u@.id == article_by_slug_spec(
                    old(store)@.articles,
                    slug_@,
                ).author_id
                &&& final(store)@ == (SpecStore {
                    articles: old(store)@.articles.remove(
                        article_index_by_slug(old(store)@.articles, slug_@),
                    ),
                    ..old(store)@
                })
            },
            Err(e) => *final(store) == *old(store) && match e {
                ApiError::NotFound => !has_article_slug(old(store)@.articles, slug_@),
                ApiError::Unauthorized => has_article_slug(old(store)@.articles, slug_@)
                    && current_user is None,
                ApiError::Forbidden => has_article_slug(old(store)@.articles, slug_@) && (
                current_user matches Some(u) && u@.id != article_by_slug_spec(
                    old(store)@.articles,
                    slug_@,
                ).author_id),
                _ => false,
            },
        },
{
    let pos = match store.article_pos_by_slug(slug_) {
        Some(i) => i,
        None => {
            return Err(ApiError::NotFound);
        },
    };
    let requester = match current_user {
        Some(u) => u,
        None => {
            return Err(ApiError::Unauthorized);
        },
    };
    if store.articles[pos].author_id != requester.id {
        return Err(ApiError::Forbidden);
    }
    let ghost pre = store@;
    store.articles.remove(pos);
    proof {
        assert(store@.articles =~= pre.articles.remove(pos as int));
        assert(store@.users =~= pre.users);
        assert(store@.comments =~= pre.comments);
        assert(store@.favorites =~= pre.favorites);
        assert(store@.followers =~= pre.followers);
        assert(store@ == (SpecStore { articles: pre.articles.remove(pos as int), ..pre }));
        assert(store_wf(store@)) by {
            let arts = store@.articles;
            assert forall|a: int, b: int| 0 <= a < b < arts.len() implies arts[a].id != arts[b].id
                && arts[a].slug != arts[b].slug by {
                let a2 = if a < pos as int {
                    a
                } else {
                    a + 1
                };
                let b2 = if b < pos as int {
                    b
                } else {
                    b + 1
                };
                assert(arts[a] == pre.articles[a2]);
                assert(arts[b] == pre.articles[b2]);
            }
            assert forall|a: int| 0 <= a < arts.len() implies arts[a].id
                < store@.next_article_id by {
                let a2 = if a < pos as int {
                    a
                } else {
                    a + 1
                };
                assert(arts[a] == pre.articles[a2]);
            }
        }
    }
    Ok(())
}

/// `POST /articles/:slug/favorite`: loads the article and its author,
/// records the edge idempotently, and returns the hydrated article; no
/// error path changes the store.
pub fn favorite(store: &mut Store, slug: &str, current_user: &User) -> (r: Result<
    RichArticleResponse,
    ApiError,
>)
    requires
        store_wf(old(store)@),
    ensures
        store_wf(final(store)@),
        match r {
            Ok(resp) => {
                &&& has_article_slug(old(store)@.articles, slug@)
                &&& ({
                    let a = article_by_slug_spec(old(store)@.articles, slug@);
                    &&& has_user_id(old(store)@.users, a.author_id)
                    &&& final(store)@ == (SpecStore {
                        favorites: edge_insert(
                            old(store)@.favorites,
                            (current_user@.id, a.id),
                        ),
                        ..old(store)@
                    })
                    &&& resp.article@ == spec_rich(final(store)@, a, Some(current_user@.id))
                    &&& resp.article@.favorited == true
                })
            },
            Err(e) => e is NotFound && *final(store) == *old(store) && (!has_article_slug(
                old(store)@.articles,
                slug@,
            ) || !has_user_id(
                old(store)@.users,
                article_by_slug_spec(old(store)@.articles, slug@).author_id,
            )),
        },
{
    let pos = match store.article_pos_by_slug(slug) {
        Some(i) => i,
        None => {
            return Err(ApiError::NotFound);
        },
    };
    let article = store.articles[pos].clone();
    match User::load_by_id(article.author_id, store) {
        Ok(_) => {},
        Err(e) => {
            return Err(e);
        },
    }
    store.favorite(current_user.id, article.id);
    let response = hydrate(store, &article, Some(current_user));
    proof {
        assert(is_favorited_spec(store@.favorites, current_user@.id, article@.id));
    }
    Ok(RichArticleResponse { article: response })
}

// ---------------------------------------------------------------------
// Listing, feed and tags
// ---------------------------------------------------------------------
/// The query parameters of `GET /articles`.
#[derive(Debug)]
pub struct ListFilter {
    pub tag: Option<String>,
    pub author: Option<String>,
    pub favorited: Option<String>,
    pub limit: Option<usize>,
    pub offset: Option<usize>,
}

/// The mathematical value of a list filter.
pub struct SpecListFilter {
    pub tag: Option<Seq<char>>,
    pub author: Option<Seq<char>>,
    pub favorited: Option<Seq<char>>,
    pub limit: Option<int>,
    pub offset: Option<int>,
}

impl View for ListFilter {
    type V = SpecListFilter;

    open spec fn view(&self) -> SpecListFilter {
        SpecListFilter {
            tag: crate::store::opt_view(self.tag),
            author: crate::store::opt_view(self.author),
            favorited: crate::store::opt_view(self.favorited),
            limit: match self.limit {
                Some(l) => Some(l as int),
                None => None,
            },
            offset: match self.offset {
                Some(o) => Some(o as int),
                None => None,
            },
        }
    }
}

impl Default for ListFilter {
    /// No filters, default page.
    fn default() -> (r: ListFilter)
        ensures
            r@.tag is None,
            r@.author is None,
            r@.favorited is None,
            r@.limit is None,
            r@.offset is None,
    {
        ListFilter { tag: None, author: None, favorited: None, limit: None, offset: None }
    }
}

/// The query parameters of `GET /articles/feed`.
#[derive(Debug)]
pub struct Pagination {
    pub limit: Option<usize>,
    pub offset: Option<usize>,
}

/// The mathematical value of a pagination request.
pub struct SpecPagination {
    pub limit: Option<int>,
    pub offset: Option<int>,
}

impl View for Pagination {
    type V = SpecPagination;

    open spec fn view(&self) -> SpecPagination {
        SpecPagination {
            limit: match self.limit {
                Some(l) => Some(l as int),
                None => None,
            },
            offset: match self.offset {
                Some(o) => Some(o as int),
                None => None,
            },
        }
    }
}

impl Default for Pagination {
    /// The default page.
    fn default() -> (r: Pagination)
        ensures
            r@.limit is None,
            r@.offset is None,
    {
        Pagination { limit: None, offset: None }
    }
}

/// The body of every list response: the page, and the page's size (not
/// the total number of matches before pagination).
#[derive(Debug)]
pub struct ListResponse {
    pub articles: Vec<RichArticle>,
    pub articles_count: usize,
}

/// The body of `GET /articles/tags`.
#[derive(Debug)]
pub struct TagList {
    pub tags: Vec<String>,
}

/// Whether `t` occurs in a tag list.
pub open spec fn has_tag(tags: Seq<Seq<char>>, t: Seq<char>) -> bool {
    exists|i: int| 0 <= i < tags.len() && tags[i] == t
}

/// Whether `t` occurs in `tags`.
fn has_tag_exec(tags: &Vec<String>, t: &String) -> (r: bool)
    ensures
        r == has_tag(strings_view(tags@), t@),
{
    let n = tags.len();
    let mut i: usize = 0;
    while i < n
        invariant
            n == tags.len(),
            i <= n,
            forall|j: int| 0 <= j < i ==> strings_view(tags@)[j] != t@,
        decreases n - i,
    {
        if tags[i] == *t {
            proof {
                assert(strings_view(tags@)[i as int] == t@);
            }
            return true;
        }
        i += 1;
    }
    false
}

/// Whether an article belongs to the filtered base set: its author exists
/// (the join), and each present filter holds, conjunctively.
pub open spec fn row_matches(s: SpecStore, a: SpecArticle, f: SpecListFilter) -> bool {
    &&& has_user_id(s.users, a.author_id)
    &&& match f.author {
        Some(n) => user_by_id_spec(s.users, a.author_id).username == n,
        None => true,
    }
    &&& match f.tag {
        Some(t) => has_tag(a.tag_list, t),
        None => true,
    }
    &&& match f.favorited {
        Some(n) => has_user_name(s.users, n) && is_favorited_spec(
            s.favorites,
            user_by_name_spec(s.users, n).id,
            a.id,
        ),
        None => true,
    }
}

/// Whether `article` belongs to the filtered base set.
fn row_matches_exec(store: &Store, article: &Article, filter: &ListFilter) -> (r: bool)
    requires
        store_wf(store@),
    ensures
        r == row_matches(store@, article@, filter@),
{
    let author = match store.user_by_id(article.author_id) {
        Some(u) => u,
        None => {
            return false;
        },
    };
    if let Some(name) = &filter.author {
        if !(author.username == *name) {
            return false;
        }
    }
    if let Some(t) = &filter.tag {
        if !has_tag_exec(&article.tag_list, t) {
            return false;
        }
    }
    if let Some(fav) = &filter.favorited {
        match store.user_by_name(fav.as_str()) {
            Some(fu) => {
                if !store.is_favorited(fu.id, article.id) {
                    return false;
                }
            },
            None => {
                return false;
            },
        }
    }
    true
}

/// The articles of `arts` that pass the filter, in store order.
pub open spec fn matching_articles(s: SpecStore, arts: Seq<SpecArticle>, f: SpecListFilter) -> Seq<
    SpecArticle,
>
    decreases arts.len(),
{
    if arts.len() == 0 {
        Seq::empty()
    } else {
        matching_articles(s, arts.drop_last(), f) + (if row_matches(s, arts.last(), f) {
            seq![arts.last()]
        } else {
            Seq::empty()
        })
    }
}

proof fn lemma_matching_all(s: SpecStore, arts: Seq<SpecArticle>, f: SpecListFilter)
    ensures
        forall|k: int|
            0 <= k < matching_articles(s, arts, f).len() ==> row_matches(
                s,
                #[trigger] matching_articles(s, arts, f)[k],
                f,
            ),
    decreases arts.len(),
{
    if arts.len() > 0 {
        lemma_matching_all(s, arts.drop_last(), f);
        let m = matching_articles(s, arts, f);
        let mp = matching_articles(s, arts.drop_last(), f);
        assert forall|k: int| 0 <= k < m.len() implies row_matches(s, #[trigger] m[k], f) by {
            if k < mp.len() {
                assert(m[k] == mp[k]);
            } else {
                assert(m[k] == arts.last());
            }
        }
    }
}

/// `x`, capped at `n`.
pub open spec fn clamp(x: int, n: int) -> int {
    if x <= n {
        x
    } else {
        n
    }
}

/// One page of the matches: `offset` rows skipped, at most `limit` kept.
pub open spec fn page_slice(m: Seq<SpecArticle>, limit: int, offset: int) -> Seq<SpecArticle> {
    m.subrange(clamp(offset, m.len() as int), clamp(offset + limit, m.len() as int))
}

/// The page limit: 20 when unspecified; no maximum is enforced.
pub open spec fn spec_limit(l: Option<int>) -> int {
    match l {
        Some(x) => x,
        None => 20,
    }
}

/// The page offset: 0 when unspecified.
pub open spec fn spec_offset(o: Option<int>) -> int {
    match o {
        Some(x) => x,
        None => 0,
    }
}

/// The page `GET /articles` returns for a filter.
pub open spec fn page_of(s: SpecStore, f: SpecListFilter) -> Seq<SpecArticle> {
    page_slice(matching_articles(s, s.articles, f), spec_limit(f.limit), spec_offset(f.offset))
}

/// `GET /articles`: one pass builds the page of the filtered base set,
/// then each row is hydrated; `articles_count` is the page's size.
pub fn list(store: &Store, current_user: Option<&User>, filter: &ListFilter) -> (r: ListResponse)
    requires
        store_wf(store@),
    ensures
        r.articles_count == r.articles@.len(),
        r.articles@.len() == page_of(store@, filter@).len(),
        forall|i: int|
            0 <= i < r.articles@.len() ==> (#[trigger] r.articles@[i])@ == spec_rich(
                store@,
                page_of(store@, filter@)[i],
                viewer_id(current_user),
            ),
{
    let lim: usize = match filter.limit {
        Some(l) => l,
        None => 20,
    };
    let off: usize = match filter.offset {
        Some(o) => o,
        None => 0,
    };
    let ghost limg: int = spec_limit(filter@.limit);
    let ghost offg: int = spec_offset(filter@.offset);
    let mut page: Vec<Article> = Vec::new();
    let mut matched: usize = 0;
    let n = store.articles.len();
    let mut i: usize = 0;
    while i < n
        invariant
            n == store@.articles.len(),
            i <= n,
            store_wf(store@),
            lim as int == limg,
            off as int == offg,
            matched <= i,
            matched == matching_articles(store@, store@.articles.take(i as int), filter@).len(),
            page@.len() == page_slice(
                matching_articles(store@, store@.articles.take(i as int), filter@),
                limg,
                offg,
            ).len(),
            forall|k: int|
                0 <= k < page@.len() ==> (#[trigger] page@[k])@ == page_slice(
                    matching_articles(store@, store@.articles.take(i as int), filter@),
                    limg,
                    offg,
                )[k],
        decreases n - i,
    {
        let ghost mi = matching_articles(store@, store@.articles.take(i as int), filter@);
        proof {
            assert(store@.articles.take(i + 1).drop_last() =~= store@.articles.take(i as int));
            assert(store@.articles.take(i + 1).last() == store@.articles[i as int]);
        }
        if row_matches_exec(store, &store.articles[i], filter) {
            proof {
                assert(matching_articles(store@, store@.articles.take(i + 1), filter@) =~= mi.push(
                    store@.articles[i as int],
                ));
            }
            if matched >= off && matched - off < lim {
                page.push(store.articles[i].clone());
                proof {
                    let m2 = mi.push(store@.articles[i as int]);
                    assert(page_slice(m2, limg, offg) =~= page_slice(mi, limg, offg).push(
                        store@.articles[i as int],
                    ));
                }
            } else {
                proof {
                    let m2 = mi.push(store@.articles[i as int]);
                    assert(page_slice(m2, limg, offg) =~= page_slice(mi, limg, offg));
                }
            }
            matched += 1;
        } else {
            proof {
                assert(matching_articles(store@, store@.articles.take(i + 1), filter@) =~= mi);
            }
        }
        i += 1;
    }
    let ghost m_full = matching_articles(store@, store@.articles, filter@);
    proof {
        assert(store@.articles.take(n as int) =~= store@.articles);
        lemma_matching_all(store@, store@.articles, filter@);
        assert forall|k: int| 0 <= k < page@.len() implies has_user_id(
            store@.users,
            (#[trigger] page@[k])@.author_id,
        ) by {
            assert(page@[k]@ == page_of(store@, filter@)[k]);
            assert(page_of(store@, filter@)[k] == m_full[clamp(offg, m_full.len() as int) + k]);
            assert(row_matches(store@, m_full[clamp(offg, m_full.len() as int) + k], filter@));
        }
    }
    let mut out: Vec<RichArticle> = Vec::new();
    let pn = page.len();
    let mut j: usize = 0;
    while j < pn
        invariant
            pn == page@.len(),
            j <= pn,
            store_wf(store@),
            page@.len() == page_of(store@, filter@).len(),
            forall|k: int|
                0 <= k < page@.len() ==> (#[trigger] page@[k])@ == page_of(store@, filter@)[k],
            forall|k: int|
                0 <= k < page@.len() ==> has_user_id(
                    store@.users,
                    (#[trigger] page@[k])@.author_id,
                ),
            out@.len() == j,
            forall|k: int|
                0 <= k < j ==> (#[trigger] out@[k])@ == spec_rich(
                    store@,
                    page_of(store@, filter@)[k],
                    viewer_id(current_user),
                ),
        decreases pn - j,
    {
        let ra = hydrate(store, &page[j], current_user);
        out.push(ra);
        j += 1;
    }
    let count = out.len();
    ListResponse { articles: out, articles_count: count }
}

/// Whether an article belongs to the viewer's feed: its author exists and
/// is followed by the viewer.
pub open spec fn feed_row_matches(s: SpecStore, a: SpecArticle, viewer: int) -> bool {
    has_user_id(s.users, a.author_id) && crate::store::is_following_spec(
        s.followers,
        viewer,
        a.author_id,
    )
}

/// The articles of `arts` whose author the viewer follows, in store order.
pub open spec fn feed_matching(s: SpecStore, arts: Seq<SpecArticle>, viewer: int) -> Seq<
    SpecArticle,
>
    decreases arts.len(),
{
    if arts.len() == 0 {
        Seq::empty()
    } else {
        feed_matching(s, arts.drop_last(), viewer) + (if feed_row_matches(s, arts.last(), viewer) {
            seq![arts.last()]
        } else {
            Seq::empty()
        })
    }
}

proof fn lemma_feed_matching_all(s: SpecStore, arts: Seq<SpecArticle>, viewer: int)
    ensures
        forall|k: int|
            0 <= k < feed_matching(s, arts, viewer).len() ==> feed_row_matches(
                s,
                #[trigger] feed_matching(s, arts, viewer)[k],
                viewer,
            ),
    decreases arts.len(),
{
    if arts.len() > 0 {
        lemma_feed_matching_all(s, arts.drop_last(), viewer);
        let m = feed_matching(s, arts, viewer);
        let mp = feed_matching(s, arts.drop_last(), viewer);
        assert forall|k: int| 0 <= k < m.len() implies feed_row_matches(
            s,
            #[trigger] m[k],
            viewer,
        ) by {
            if k < mp.len() {
                assert(m[k] == mp[k]);
            } else {
                assert(m[k] == arts.last());
            }
        }
    }
}

/// The page `GET /articles/feed` returns for a viewer.
pub open spec fn feed_page(s: SpecStore, viewer: int, limit: Option<int>, offset: Option<int>) -> Seq<
    SpecArticle,
> {
    page_slice(feed_matching(s, s.articles, viewer), spec_limit(limit), spec_offset(offset))
}

/// `GET /articles/feed`: the page of articles whose authors the viewer
/// follows; the follow flag is true on every row by construction.
pub fn feed(store: &Store, current_user: &User, pagination: &Pagination) -> (r: ListResponse)
    requires
        store_wf(store@),
    ensures
        r.articles_count == r.articles@.len(),
        r.articles@.len() == feed_page(
            store@,
            current_user@.id,
            pagination@.limit,
            pagination@.offset,
        ).len(),
        forall|i: int|
            0 <= i < r.articles@.len() ==> (#[trigger] r.articles@[i])@ == spec_rich(
                store@,
                feed_page(store@, current_user@.id, pagination@.limit, pagination@.offset)[i],
                Some(current_user@.id),
            ),
        forall|i: int|
            0 <= i < r.articles@.len() ==> (#[trigger] r.articles@[i])@.author.following == true,
{
    let lim: usize = match pagination.limit {
        Some(l) => l,
        None => 20,
    };
    let off: usize = match pagination.offset {
        Some(o) => o,
        None => 0,
    };
    let ghost limg: int = spec_limit(pagination@.limit);
    let ghost offg: int = spec_offset(pagination@.offset);
    let ghost vid: int = current_user@.id;
    let mut page: Vec<Article> = Vec::new();
    let mut matched: usize = 0;
    let n = store.articles.len();
    let mut i: usize = 0;
    while i < n
        invariant
            n == store@.articles.len(),
            i <= n,
            store_wf(store@),
            lim as int == limg,
            off as int == offg,
            vid == current_user@.id,
            matched <= i,
            matched == feed_matching(store@, store@.articles.take(i as int), vid).len(),
            page@.len() == page_slice(
                feed_matching(store@, store@.articles.take(i as int), vid),
                limg,
                offg,
            ).len(),
            forall|k: int|
                0 <= k < page@.len() ==> (#[trigger] page@[k])@ == page_slice(
                    feed_matching(store@, store@.articles.take(i as int), vid),
                    limg,
                    offg,
                )[k],
        decreases n - i,
    {
        let ghost mi = feed_matching(store@, store@.articles.take(i as int), vid);
        proof {
            assert(store@.articles.take(i + 1).drop_last() =~= store@.articles.take(i as int));
            assert(store@.articles.take(i + 1).last() == store@.articles[i as int]);
        }
        let author_present = store.user_by_id(store.articles[i].author_id).is_some();
        let followed = store.is_following(current_user.id, store.articles[i].author_id);
        if author_present && followed {
            proof {
                assert(feed_matching(store@, store@.articles.take(i + 1), vid) =~= mi.push(
                    store@.articles[i as int],
                ));
            }
            if matched >= off && matched - off < lim {
                page.push(store.articles[i].clone());
                proof {
                    let m2 = mi.push(store@.articles[i as int]);
                    assert(page_slice(m2, limg, offg) =~= page_slice(mi, limg, offg).push(
                        store@.articles[i as int],
                    ));
                }
            } else {
                proof {
                    let m2 = mi.push(store@.articles[i as int]);
                    assert(page_slice(m2, limg, offg) =~= page_slice(mi, limg, offg));
                }
            }
            matched += 1;
        } else {
            proof {
                assert(feed_matching(store@, store@.articles.take(i + 1), vid) =~= mi);
            }
        }
        i += 1;
    }
    let ghost m_full = feed_matching(store@, store@.articles, vid);
    let ghost fpage = feed_page(store@, vid, pagination@.limit, pagination@.offset);
    proof {
        assert(store@.articles.take(n as int) =~= store@.articles);
        lemma_feed_matching_all(store@, store@.articles, vid);
        assert forall|k: int| 0 <= k < page@.len() implies has_user_id(
            store@.users,
            (#[trigger] page@[k])@.author_id,
        ) && crate::store::is_following_spec(
            store@.followers,
            vid,
            (page@[k])@.author_id,
        ) by {
            assert(page@[k]@ == fpage[k]);
            assert(fpage[k] == m_full[clamp(offg, m_full.len() as int) + k]);
            assert(feed_row_matches(store@, m_full[clamp(offg, m_full.len() as int) + k], vid));
        }
    }
    let mut out: Vec<RichArticle> = Vec::new();
    let pn = page.len();
    let mut j: usize = 0;
    while j < pn
        invariant
            pn == page@.len(),
            j <= pn,
            store_wf(store@),
            vid == current_user@.id,
            fpage == feed_page(store@, vid, pagination@.limit, pagination@.offset),
            page@.len() == fpage.len(),
            forall|k: int| 0 <= k < page@.len() ==> (#[trigger] page@[k])@ == fpage[k],
            forall|k: int|
                0 <= k < page@.len() ==> has_user_id(
                    store@.users,
                    (#[trigger] page@[k])@.author_id,
                ) && crate::store::is_following_spec(
                    store@.followers,
                    vid,
                    (page@[k])@.author_id,
                ),
            out@.len() == j,
            forall|k: int|
                0 <= k < j ==> (#[trigger] out@[k])@ == spec_rich(store@, fpage[k], Some(vid)),
            forall|k: int| 0 <= k < j ==> (#[trigger] out@[k])@.author.following == true,
        decreases pn - j,
    {
        let ra = hydrate(store, &page[j], Some(current_user));
        out.push(ra);
        j += 1;
    }
    let count = out.len();
    ListResponse { articles: out, articles_count: count }
}

/// Every tag of every article, in store order.
pub open spec fn flatten_tags(arts: Seq<SpecArticle>) -> Seq<Seq<char>>
    decreases arts.len(),
{
    if arts.len() == 0 {
        Seq::empty()
    } else {
        flatten_tags(arts.drop_last()) + arts.last().tag_list
    }
}

/// First occurrences kept, later duplicates dropped.
pub open spec fn dedup_tags(ts: Seq<Seq<char>>) -> Seq<Seq<char>>
    decreases ts.len(),
{
    if ts.len() == 0 {
        Seq::empty()
    } else {
        let d = dedup_tags(ts.drop_last());
        if has_tag(d, ts.last()) {
            d
        } else {
            d.push(ts.last())
        }
    }
}

/// `GET /articles/tags`: the distinct tags over all articles, each at its
/// first occurrence.
pub fn tags(store: &Store) -> (r: TagList)
    ensures
        strings_view(r.tags@) == dedup_tags(flatten_tags(store@.articles)),
{
    let mut out: Vec<String> = Vec::new();
    let n = store.articles.len();
    let mut i: usize = 0;
    proof {
        assert(strings_view(out@) =~= dedup_tags(flatten_tags(store@.articles.take(0))));
    }
    while i < n
        invariant
            n == store@.articles.len(),
            i <= n,
            strings_view(out@) == dedup_tags(flatten_tags(store@.articles.take(i as int))),
        decreases n - i,
    {
        let ghost base = flatten_tags(store@.articles.take(i as int));
        let ghost tv = store@.articles[i as int].tag_list;
        let m = store.articles[i].tag_list.len();
        let mut j: usize = 0;
        proof {
            assert(base + tv.take(0) =~= base);
        }
        while j < m
            invariant
                n == store@.articles.len(),
                i < n,
                m == store@.articles[i as int].tag_list.len(),
                j <= m,
                base == flatten_tags(store@.articles.take(i as int)),
                tv == store@.articles[i as int].tag_list,
                strings_view(out@) == dedup_tags(base + tv.take(j as int)),
            decreases m - j,
        {
            proof {
                assert((base + tv.take(j + 1)).drop_last() =~= base + tv.take(j as int));
                assert((base + tv.take(j + 1)).last() == tv[j as int]);
                assert(tv[j as int] == store@.articles[i as int].tag_list[j as int]);
            }
            let t = &store.articles[i].tag_list[j];
            proof {
                assert(t@ == tv[j as int]);
            }
            if !has_tag_exec(&out, t) {
                let ghost preout = strings_view(out@);
                out.push(t.clone());
                proof {
                    assert(strings_view(out@) =~= preout.push(tv[j as int]));
                }
            }
            j += 1;
        }
        proof {
            assert(tv.take(m as int) =~= tv);
            assert(store@.articles.take(i + 1).drop_last() =~= store@.articles.take(i as int));
            assert(store@.articles.take(i + 1).last() == store@.articles[i as int]);
            assert(flatten_tags(store@.articles.take(i + 1)) =~= base + tv);
        }
        i += 1;
    }
    proof {
        assert(store@.articles.take(n as int) =~= store@.articles);
    }
    TagList { tags: out }
}


} // verus!
