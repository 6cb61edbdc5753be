use conduit::store::Article;
use conduit::article::ArticleDetails;
use conduit::article::CreateArticle;
use conduit::article::ListFilter;
use conduit::article::Pagination;
use conduit::article::RichArticleResponse;
use conduit::article::UpdateArticle;
use conduit::article::UpdateDetails;
use conduit::article::create;
use conduit::article::delete;
use conduit::article::favorite;
use conduit::article::feed;
use conduit::article::get;
use conduit::article::list;
use conduit::article::tags;
use conduit::article::update;
use conduit::store::Store;
use conduit::store::User;
use conduit::types::ApiError;
use conduit::users::Registration;
use conduit::users::RegistrationDetails;
use conduit::users::register;

fn reg(store: &mut Store, username: &str, email: &str) -> User {
    register(
        store,
        &Registration {
            user: RegistrationDetails {
                username: username.to_string(),
                email: email.to_string(),
                password: "password".to_string(),
            },
        },
    )
    .unwrap()
}

fn details(title: &str, tags: &[&str]) -> CreateArticle {
    CreateArticle {
        article: ArticleDetails {
            title: title.to_string(),
            description: "a description".to_string(),
            body: "a body".to_string(),
            tag_list: tags.iter().map(|t| t.to_string()).collect(),
        },
    }
}

fn mk_article(store: &mut Store, author: &User, title: &str, now: i64) -> RichArticleResponse {
    create(store, author, &details(title, &[]), now).unwrap()
}

fn no_patch() -> UpdateDetails {
    UpdateDetails { title: None, description: None, body: None }
}

#[test]
fn create_derives_slug_from_timestamp_and_title() {
    let mut store = Store::new();
    let alice = reg(&mut store, "alice", "alice@example.com");
    let resp = create(&mut store, &alice, &details("Hello World", &["greeting"]), 1000).unwrap();
    assert_eq!(resp.article.slug, "1000-hello-world");
    assert_eq!(resp.article.title, "Hello World");
    assert_eq!(resp.article.favorites_count, 0);
    assert!(!resp.article.favorited);
    assert_eq!(resp.article.author.username, "alice");
    assert!(!resp.article.author.following);
    assert_eq!(resp.article.created_at, 1000);
}

#[test]
fn create_rejects_blank_fields() {
    let mut store = Store::new();
    let alice = reg(&mut store, "alice", "alice@example.com");
    let blank = CreateArticle {
        article: ArticleDetails {
            title: "   ".to_string(),
            description: "".to_string(),
            body: "\t\n".to_string(),
            tag_list: Vec::new(),
        },
    };
    match create(&mut store, &alice, &blank, 1000) {
        Err(ApiError::Validation(v)) => {
            assert_eq!(v.len(), 3);
            assert_eq!(v.messages("body").unwrap()[0], "empty body");
            assert_eq!(v.messages("title").unwrap()[0], "empty title");
            assert_eq!(v.messages("description").unwrap()[0], "empty description");
        },
        other => panic!("expected validation failure, got {:?}", other),
    }
    assert_eq!(store.articles.len(), 0);
}

#[test]
fn slug_determinism() {
    let mut store = Store::new();
    let alice = reg(&mut store, "alice", "alice@example.com");
    let created = mk_article(&mut store, &alice, "First Title", 1234);
    assert_eq!(created.article.slug, "1234-first-title");

    let body_only = update(
        &mut store,
        "1234-first-title",
        &alice,
        &UpdateArticle { article: UpdateDetails { body: Some("new body".to_string()), ..no_patch() } },
        9999,
    )
    .unwrap();
    assert_eq!(body_only.article.slug, "1234-first-title");
    assert_eq!(body_only.article.body, "new body");
    assert_eq!(body_only.article.updated_at, 9999);
    assert_eq!(body_only.article.created_at, 1234);

    let retitled = update(
        &mut store,
        "1234-first-title",
        &alice,
        &UpdateArticle {
            article: UpdateDetails { title: Some("Second Title".to_string()), ..no_patch() },
        },
        10000,
    )
    .unwrap();
    assert_eq!(retitled.article.slug, "1234-second-title");
    assert_eq!(retitled.article.created_at, 1234);
}

#[test]
fn update_by_non_author_is_forbidden() {
    let mut store = Store::new();
    let alice = reg(&mut store, "alice", "alice@example.com");
    let bob = reg(&mut store, "bob", "bob@example.com");
    mk_article(&mut store, &alice, "Hers", 1);
    let r = update(
        &mut store,
        "1-hers",
        &bob,
        &UpdateArticle { article: UpdateDetails { body: Some("mine now".to_string()), ..no_patch() } },
        2,
    );
    assert!(matches!(r, Err(ApiError::Forbidden)));
    assert_eq!(store.articles[0].body, "a body");
}

#[test]
fn update_missing_slug_is_not_found() {
    let mut store = Store::new();
    let alice = reg(&mut store, "alice", "alice@example.com");
    let r = update(
        &mut store,
        "no-such-slug",
        &alice,
        &UpdateArticle { article: no_patch() },
        2,
    );
    assert!(matches!(r, Err(ApiError::NotFound)));
}

#[test]
fn viewer_relative_flags() {
    let mut store = Store::new();
    let author = reg(&mut store, "author", "author@example.com");
    let x = reg(&mut store, "xavier", "x@example.com");
    let y = reg(&mut store, "yvonne", "y@example.com");
    mk_article(&mut store, &author, "Piece", 5);
    favorite(&mut store, "5-piece", &x).unwrap();

    let for_x = get(&store, Some(&x), "5-piece").unwrap();
    assert!(for_x.article.favorited);
    let for_y = get(&store, Some(&y), "5-piece").unwrap();
    assert!(!for_y.article.favorited);
    let anonymous = get(&store, None, "5-piece").unwrap();
    assert!(!anonymous.article.favorited);
    assert_eq!(for_x.article.favorites_count, 1);
    assert_eq!(for_y.article.favorites_count, 1);
}

#[test]
fn favorite_twice_leaves_one_edge() {
    let mut store = Store::new();
    let author = reg(&mut store, "author", "author@example.com");
    let fan = reg(&mut store, "fan", "fan@example.com");
    mk_article(&mut store, &author, "Piece", 5);
    let first = favorite(&mut store, "5-piece", &fan).unwrap();
    assert!(first.article.favorited);
    assert_eq!(first.article.favorites_count, 1);
    let second = favorite(&mut store, "5-piece", &fan).unwrap();
    assert!(second.article.favorited);
    assert_eq!(second.article.favorites_count, 1);
    assert_eq!(store.favorites.len(), 1);
}

#[test]
fn unfavorite_absent_edge_is_no_error() {
    let mut store = Store::new();
    store.unfavorite(7, 9);
    assert_eq!(store.favorites.len(), 0);
}

#[test]
fn favorite_missing_slug_is_not_found() {
    let mut store = Store::new();
    let fan = reg(&mut store, "fan", "fan@example.com");
    let r = favorite(&mut store, "nope", &fan);
    assert!(matches!(r, Err(ApiError::NotFound)));
}

#[test]
fn delete_authorization_ordering() {
    let mut store = Store::new();
    let alice = reg(&mut store, "alice", "alice@example.com");
    let bob = reg(&mut store, "bob", "bob@example.com");
    mk_article(&mut store, &alice, "Hers", 1);

    let missing_unauthenticated = delete(&mut store, None, "no-such-slug");
    assert!(matches!(missing_unauthenticated, Err(ApiError::NotFound)));

    let existing_unauthenticated = delete(&mut store, None, "1-hers");
    assert!(matches!(existing_unauthenticated, Err(ApiError::Unauthorized)));

    let existing_wrong_user = delete(&mut store, Some(&bob), "1-hers");
    assert!(matches!(existing_wrong_user, Err(ApiError::Forbidden)));
    assert_eq!(store.articles.len(), 1);

    assert!(delete(&mut store, Some(&alice), "1-hers").is_ok());
    assert_eq!(store.articles.len(), 0);
}

#[test]
fn list_pagination_returns_page_and_page_size() {
    let mut store = Store::new();
    for i in 0..25 {
        let name = format!("user{}", i);
        let email = format!("user{}@example.com", i);
        let author = reg(&mut store, &name, &email);
        let title = format!("Article {}", i);
        mk_article(&mut store, &author, &title, i as i64);
    }
    let page = list(
        &store,
        None,
        &ListFilter { tag: None, author: None, favorited: None, limit: Some(10), offset: Some(20) },
    );
    assert_eq!(page.articles.len(), 5);
    assert_eq!(page.articles_count, 5);
    assert_eq!(page.articles[0].title, "Article 20");

    let default_page = list(&store, None, &ListFilter::default());
    assert_eq!(default_page.articles.len(), 20);
    assert_eq!(default_page.articles_count, 20);
}

#[test]
fn list_filters_are_conjunctive() {
    let mut store = Store::new();
    let alice = reg(&mut store, "alice", "alice@example.com");
    let bob = reg(&mut store, "bob", "bob@example.com");
    let fan = reg(&mut store, "fan", "fan@example.com");
    create(&mut store, &alice, &details("Rust Post", &["rust"]), 1).unwrap();
    create(&mut store, &alice, &details("Web Post", &["web"]), 2).unwrap();
    create(&mut store, &bob, &details("Bob Rust", &["rust"]), 3).unwrap();
    favorite(&mut store, "1-rust-post", &fan).unwrap();

    let by_author = list(
        &store,
        None,
        &ListFilter {
            author: Some("alice".to_string()),
            tag: None,
            favorited: None,
            limit: None,
            offset: None,
        },
    );
    assert_eq!(by_author.articles_count, 2);

    let by_tag = list(
        &store,
        None,
        &ListFilter {
            tag: Some("rust".to_string()),
            author: None,
            favorited: None,
            limit: None,
            offset: None,
        },
    );
    assert_eq!(by_tag.articles_count, 2);

    let both = list(
        &store,
        None,
        &ListFilter {
            author: Some("alice".to_string()),
            tag: Some("rust".to_string()),
            favorited: None,
            limit: None,
            offset: None,
        },
    );
    assert_eq!(both.articles_count, 1);
    assert_eq!(both.articles[0].title, "Rust Post");

    let by_favorited = list(
        &store,
        None,
        &ListFilter {
            favorited: Some("fan".to_string()),
            author: None,
            tag: None,
            limit: None,
            offset: None,
        },
    );
    assert_eq!(by_favorited.articles_count, 1);
    assert_eq!(by_favorited.articles[0].slug, "1-rust-post");
}

#[test]
fn feed_shows_followed_authors_only() {
    let mut store = Store::new();
    let reader = reg(&mut store, "reader", "reader@example.com");
    let followed = reg(&mut store, "followed", "followed@example.com");
    let stranger = reg(&mut store, "stranger", "stranger@example.com");
    mk_article(&mut store, &followed, "Followed Post", 1);
    mk_article(&mut store, &stranger, "Stranger Post", 2);
    conduit::profile::follow(&mut store, &reader, "followed").unwrap();

    let page = feed(&store, &reader, &Pagination::default());
    assert_eq!(page.articles_count, 1);
    assert_eq!(page.articles[0].title, "Followed Post");
    assert!(page.articles[0].author.following);
}

#[test]
fn tags_are_distinct_in_first_occurrence_order() {
    let mut store = Store::new();
    let alice = reg(&mut store, "alice", "alice@example.com");
    create(&mut store, &alice, &details("One", &["rust", "verus"]), 1).unwrap();
    create(&mut store, &alice, &details("Two", &["verus", "web"]), 2).unwrap();
    let t = tags(&store);
    assert_eq!(t.tags.as_slice(), ["rust", "verus", "web"]);
}

#[test]
fn get_missing_slug_is_not_found() {
    let store = Store::new();
    assert!(matches!(get(&store, None, "nope"), Err(ApiError::NotFound)));
}

#[test]
fn load_by_slug_returns_row() {
    let mut store = Store::new();
    let alice = reg(&mut store, "alice", "alice@example.com");
    mk_article(&mut store, &alice, "Piece", 5);
    let a = Article::load_by_slug("5-piece", &store).unwrap();
    assert_eq!(a.title, "Piece");
    assert_eq!(a.get_favorites_count(&store), 0);
    assert!(!a.is_favorited_by(&alice, &store));
    assert!(matches!(Article::load_by_slug("nope", &store), Err(ApiError::NotFound)));
}

#[test]
fn update_rejects_blank_present_fields() {
    let mut store = Store::new();
    let alice = reg(&mut store, "alice", "alice@example.com");
    mk_article(&mut store, &alice, "Title", 1);
    let r = update(
        &mut store,
        "1-title",
        &alice,
        &UpdateArticle {
            article: UpdateDetails {
                title: Some("  ".to_string()),
                body: Some("".to_string()),
                description: None,
            },
        },
        2,
    );
    match r {
        Err(ApiError::Validation(v)) => {
            assert_eq!(v.len(), 2);
            assert_eq!(v.messages("body").unwrap()[0], "empty body");
            assert_eq!(v.messages("title").unwrap()[0], "empty title");
            assert!(v.messages("description").is_none());
        },
        other => panic!("expected validation failure, got {:?}", other),
    }
    assert_eq!(store.articles[0].title, "Title");
}

#[test]
fn create_duplicate_slug_is_internal_error() {
    let mut store = Store::new();
    let alice = reg(&mut store, "alice", "alice@example.com");
    mk_article(&mut store, &alice, "Same Title", 42);
    let r = create(&mut store, &alice, &details("Same Title", &[]), 42);
    assert!(matches!(r, Err(ApiError::Internal)));
    assert_eq!(store.articles.len(), 1);
}

#[test]
fn tags_empty_store_is_empty() {
    let store = Store::new();
    assert!(tags(&store).tags.is_empty());
}
