use conduit::article::ArticleDetails;
use conduit::article::CreateArticle;
use conduit::article::create;
use conduit::comment::CommentBody;
use conduit::comment::add;
use conduit::comment::delete;
use conduit::comment::get;
use conduit::numtext::i64_to_string;
use conduit::numtext::parse_i32;
use conduit::profile::follow;
use conduit::profile::profile;
use conduit::profile::unfollow;
use conduit::store::Store;
use conduit::store::User;
use conduit::types::ApiError;
use conduit::users::Registration;
use conduit::users::RegistrationDetails;
use conduit::users::register;

fn reg(store: &mut Store, username: &str, email: &str) -> User {
    register(
        store,
        &Registration {
            user: RegistrationDetails {
                username: username.to_string(),
                email: email.to_string(),
                password: "password".to_string(),
            },
        },
    )
    .unwrap()
}

fn mk_article(store: &mut Store, author: &User, title: &str, now: i64) {
    create(
        store,
        author,
        &CreateArticle {
            article: ArticleDetails {
                title: title.to_string(),
                description: "d".to_string(),
                body: "b".to_string(),
                tag_list: Vec::new(),
            },
        },
        now,
    )
    .unwrap();
}

#[test]
fn follow_twice_leaves_one_edge() {
    let mut store = Store::new();
    let a = reg(&mut store, "alice", "alice@example.com");
    reg(&mut store, "bob", "bob@example.com");
    let first = follow(&mut store, &a, "bob").unwrap();
    assert!(first.profile.following);
    let second = follow(&mut store, &a, "bob").unwrap();
    assert!(second.profile.following);
    assert_eq!(store.followers.len(), 1);
}

#[test]
fn unfollow_absent_edge_is_no_error() {
    let mut store = Store::new();
    let a = reg(&mut store, "alice", "alice@example.com");
    reg(&mut store, "bob", "bob@example.com");
    let r = unfollow(&mut store, &a, "bob").unwrap();
    assert!(!r.profile.following);
    assert_eq!(store.followers.len(), 0);
}

#[test]
fn follow_unknown_user_is_not_found() {
    let mut store = Store::new();
    let a = reg(&mut store, "alice", "alice@example.com");
    assert!(matches!(follow(&mut store, &a, "ghost"), Err(ApiError::NotFound)));
}

#[test]
fn profile_follow_flag_is_viewer_relative() {
    let mut store = Store::new();
    let a = reg(&mut store, "alice", "alice@example.com");
    let b = reg(&mut store, "bob", "bob@example.com");
    reg(&mut store, "carol", "carol@example.com");
    follow(&mut store, &a, "carol").unwrap();
    assert!(profile(&store, Some(&a), "carol").unwrap().profile.following);
    assert!(!profile(&store, Some(&b), "carol").unwrap().profile.following);
    assert!(!profile(&store, None, "carol").unwrap().profile.following);
    assert!(matches!(profile(&store, None, "ghost"), Err(ApiError::NotFound)));
}

#[test]
fn comment_round_trip_with_follow_flags() {
    let mut store = Store::new();
    let author = reg(&mut store, "author", "author@example.com");
    let commenter = reg(&mut store, "commenter", "commenter@example.com");
    let reader = reg(&mut store, "reader", "reader@example.com");
    mk_article(&mut store, &author, "Piece", 5);
    follow(&mut store, &reader, "commenter").unwrap();

    let added = add(
        &mut store,
        Some(&commenter),
        "5-piece",
        &CommentBody { body: "nice one".to_string() },
        77,
    )
    .unwrap();
    assert_eq!(added.comment.body, "nice one");
    assert_eq!(added.comment.author.username, "commenter");
    assert!(!added.comment.author.following);
    assert_eq!(added.comment.created_at, 77);

    let listed_for_reader = get(&store, Some(&reader), "5-piece").unwrap();
    assert_eq!(listed_for_reader.comments.len(), 1);
    assert!(listed_for_reader.comments[0].author.following);

    let listed_anonymous = get(&store, None, "5-piece").unwrap();
    assert!(!listed_anonymous.comments[0].author.following);
}

#[test]
fn comment_on_missing_article_is_not_found() {
    let mut store = Store::new();
    let u = reg(&mut store, "alice", "alice@example.com");
    let r = add(&mut store, Some(&u), "nope", &CommentBody { body: "x".to_string() }, 1);
    assert!(matches!(r, Err(ApiError::NotFound)));
}

#[test]
fn comment_deletion_is_author_only() {
    let mut store = Store::new();
    let article_owner = reg(&mut store, "owner", "owner@example.com");
    let commenter = reg(&mut store, "commenter", "commenter@example.com");
    mk_article(&mut store, &article_owner, "Piece", 5);
    let added = add(
        &mut store,
        Some(&commenter),
        "5-piece",
        &CommentBody { body: "hello".to_string() },
        6,
    )
    .unwrap();
    let id = added.comment.id;

    let missing = delete(&mut store, Some(&commenter), 999);
    assert!(matches!(missing, Err(ApiError::NotFound)));

    let unauthenticated = delete(&mut store, None, id);
    assert!(matches!(unauthenticated, Err(ApiError::Unauthorized)));

    let by_article_owner = delete(&mut store, Some(&article_owner), id);
    assert!(matches!(by_article_owner, Err(ApiError::Forbidden)));
    assert_eq!(store.comments.len(), 1);

    assert!(delete(&mut store, Some(&commenter), id).is_ok());
    assert_eq!(store.comments.len(), 0);
}

#[test]
fn comment_add_checks_existence_before_authentication() {
    let mut store = Store::new();
    let author = reg(&mut store, "author", "author@example.com");
    mk_article(&mut store, &author, "Piece", 5);
    let missing = add(&mut store, None, "nope", &CommentBody { body: "x".to_string() }, 1);
    assert!(matches!(missing, Err(ApiError::NotFound)));
    let unauthenticated = add(
        &mut store,
        None,
        "5-piece",
        &CommentBody { body: "x".to_string() },
        1,
    );
    assert!(matches!(unauthenticated, Err(ApiError::Unauthorized)));
    assert_eq!(store.comments.len(), 0);
}

#[test]
fn decimal_rendering() {
    assert_eq!(i64_to_string(0), "0");
    assert_eq!(i64_to_string(123), "123");
    assert_eq!(i64_to_string(-45), "-45");
    assert_eq!(i64_to_string(i64::MIN), "-9223372036854775808");
    assert_eq!(i64_to_string(i64::MAX), "9223372036854775807");
}

#[test]
fn decimal_parsing() {
    assert_eq!(parse_i32("123"), Some(123));
    assert_eq!(parse_i32("+7"), Some(7));
    assert_eq!(parse_i32("-2147483648"), Some(i32::MIN));
    assert_eq!(parse_i32("2147483647"), Some(i32::MAX));
    assert_eq!(parse_i32("2147483648"), None);
    assert_eq!(parse_i32("-2147483649"), None);
    assert_eq!(parse_i32(""), None);
    assert_eq!(parse_i32("+"), None);
    assert_eq!(parse_i32("12a"), None);
    assert_eq!(parse_i32("99999999999999999999"), None);
}

#[test]
fn batch_lookups_match_single_lookups() {
    let mut store = Store::new();
    let reader = reg(&mut store, "reader", "reader@example.com");
    let a = reg(&mut store, "ana", "ana@example.com");
    let b = reg(&mut store, "ben", "ben@example.com");
    mk_article(&mut store, &a, "Ana Post", 1);
    mk_article(&mut store, &b, "Ben Post", 2);
    follow(&mut store, &reader, "ana").unwrap();
    let ana_article_id = store.articles[0].id;
    let ben_article_id = store.articles[1].id;
    store.favorite(reader.id, ben_article_id);

    let counts = store.favorites_count_for(&vec![ana_article_id, ben_article_id]);
    assert_eq!(counts, vec![0, 1]);
    let follows = store.is_following_batch(reader.id, &vec![a.id, b.id]);
    assert_eq!(follows, vec![true, false]);
    let favs = store.is_favorited_batch(reader.id, &vec![ana_article_id, ben_article_id]);
    assert_eq!(favs, vec![false, true]);
}

#[test]
fn list_by_unknown_favoriter_is_empty() {
    let mut store = Store::new();
    let a = reg(&mut store, "ana", "ana@example.com");
    mk_article(&mut store, &a, "Ana Post", 1);
    let page = conduit::article::list(
        &store,
        None,
        &conduit::article::ListFilter {
            favorited: Some("ghost".to_string()),
            author: None,
            tag: None,
            limit: None,
            offset: None,
        },
    );
    assert_eq!(page.articles_count, 0);
}
