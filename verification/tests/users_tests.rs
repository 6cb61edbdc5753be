use conduit::store::Store;
use conduit::store::User;
use conduit::types::ApiError;
use conduit::users::Login;
use conduit::users::LoginDetails;
use conduit::users::Registration;
use conduit::users::RegistrationDetails;
use conduit::users::Update;
use conduit::users::UpdateUser;
use conduit::users::login;
use conduit::users::register;
use conduit::users::update;
use conduit::validate::validate_email;
use conduit::validate::validate_email_re;
use conduit::validate::validate_password;
use conduit::validate::validate_username_re;

fn registration(username: &str, email: &str, password: &str) -> Registration {
    Registration {
        user: RegistrationDetails {
            username: username.to_string(),
            email: email.to_string(),
            password: password.to_string(),
        },
    }
}

fn reg(store: &mut Store, username: &str, email: &str) -> User {
    register(store, &registration(username, email, "password")).unwrap()
}

fn empty_patch() -> UpdateUser {
    UpdateUser { username: None, email: None, password: None, image: None, bio: None }
}

#[test]
fn register_creates_user() {
    let mut store = Store::new();
    let alice = reg(&mut store, "alice", "alice@example.com");
    assert_eq!(alice.id, 1);
    assert_eq!(alice.username, "alice");
    assert_eq!(alice.email, "alice@example.com");
    assert!(alice.bio.is_none());
    assert!(alice.image.is_none());
    assert!(alice.verify_password("password"));
    assert!(!alice.verify_password("wrong-password"));
}

#[test]
fn register_accumulates_all_errors() {
    let mut store = Store::new();
    reg(&mut store, "alice", "alice@example.com");
    let bad = registration("alice", "NotAnEmail", "pw");
    match register(&mut store, &bad) {
        Err(ApiError::Validation(v)) => {
            assert_eq!(v.len(), 3);
            let email_msgs = v.messages("email").unwrap();
            assert_eq!(email_msgs.len(), 1);
            assert_eq!(email_msgs[0], "Invalid email: NotAnEmail");
            assert_eq!(v.messages("password").unwrap()[0], "Password to short");
            assert_eq!(v.messages("username").unwrap()[0], "username allready exists");
        },
        other => panic!("expected validation failure, got {:?}", other),
    }
}

#[test]
fn register_rejects_duplicate_email() {
    let mut store = Store::new();
    reg(&mut store, "alice", "alice@example.com");
    let dup = registration("bob", "alice@example.com", "password");
    match register(&mut store, &dup) {
        Err(ApiError::Validation(v)) => {
            assert_eq!(v.messages("email").unwrap()[0], "Email allready exists");
        },
        other => panic!("expected validation failure, got {:?}", other),
    }
}

#[test]
fn login_round_trip() {
    let mut store = Store::new();
    reg(&mut store, "alice", "alice@example.com");
    let ok = login(
        &store,
        &Login {
            user: LoginDetails {
                email: "alice@example.com".to_string(),
                password: "password".to_string(),
            },
        },
    );
    assert_eq!(ok.unwrap().username, "alice");
}

#[test]
fn login_wrong_password_is_validation_error() {
    let mut store = Store::new();
    reg(&mut store, "alice", "alice@example.com");
    let bad = login(
        &store,
        &Login {
            user: LoginDetails {
                email: "alice@example.com".to_string(),
                password: "not-the-password".to_string(),
            },
        },
    );
    match bad {
        Err(ApiError::Validation(v)) => {
            assert_eq!(v.messages("password").unwrap()[0], "Invalid password");
        },
        other => panic!("expected validation failure, got {:?}", other),
    }
}

#[test]
fn login_unknown_email_is_not_found() {
    let store = Store::new();
    let r = login(
        &store,
        &Login {
            user: LoginDetails {
                email: "ghost@example.com".to_string(),
                password: "password".to_string(),
            },
        },
    );
    assert!(matches!(r, Err(ApiError::NotFound)));
}

#[test]
fn update_patches_present_fields_and_preserves_absent() {
    let mut store = Store::new();
    let alice = reg(&mut store, "alice", "alice@example.com");
    let patched = update(
        &mut store,
        &alice,
        &Update {
            user: UpdateUser { bio: Some("hi there".to_string()), ..empty_patch() },
        },
    )
    .unwrap();
    assert_eq!(patched.bio.as_deref(), Some("hi there"));
    assert_eq!(patched.username, "alice");
    assert_eq!(patched.email, "alice@example.com");
    let renamed = update(
        &mut store,
        &patched,
        &Update {
            user: UpdateUser { username: Some("alicia".to_string()), ..empty_patch() },
        },
    )
    .unwrap();
    assert_eq!(renamed.username, "alicia");
    assert_eq!(renamed.bio.as_deref(), Some("hi there"));
    assert_eq!(store.users[0].username, "alicia");
}

#[test]
fn update_rejects_email_of_another_user() {
    let mut store = Store::new();
    reg(&mut store, "alice", "alice@example.com");
    let bob = reg(&mut store, "bob", "bob@example.com");
    let r = update(
        &mut store,
        &bob,
        &Update {
            user: UpdateUser { email: Some("alice@example.com".to_string()), ..empty_patch() },
        },
    );
    match r {
        Err(ApiError::Validation(v)) => {
            assert_eq!(
                v.messages("email").unwrap()[0],
                "Email already chosen: alice@example.com"
            );
        },
        other => panic!("expected validation failure, got {:?}", other),
    }
}

#[test]
fn update_rejects_short_username() {
    let mut store = Store::new();
    let alice = reg(&mut store, "alice", "alice@example.com");
    let r = update(
        &mut store,
        &alice,
        &Update { user: UpdateUser { username: Some("al".to_string()), ..empty_patch() } },
    );
    match r {
        Err(ApiError::Validation(v)) => {
            assert_eq!(v.messages("username").unwrap()[0], "username to small: al");
        },
        other => panic!("expected validation failure, got {:?}", other),
    }
}

#[test]
fn validate_email_re_matches_pattern() {
    assert!(validate_email_re("alice@example.com").is_ok());
    assert!(validate_email_re("a.b-c@sub.domain.org").is_ok());
    let e = validate_email_re("Upper@Example.com").unwrap_err();
    assert_eq!(e.messages("email").unwrap()[0], "Invalid email: Upper@Example.com");
    assert!(validate_email_re("no-at-sign").is_err());
    assert!(validate_email_re("a@nodot").is_err());
}

#[test]
fn validate_username_re_requires_three_bytes() {
    assert!(validate_username_re("abc").is_ok());
    let e = validate_username_re("ab").unwrap_err();
    assert_eq!(e.messages("username").unwrap()[0], "username to small: ab");
    // Two characters, four UTF-8 bytes: the minimum counts bytes.
    assert!(validate_username_re("\u{e9}\u{e9}").is_ok());
}

#[test]
fn validate_password_requires_five_bytes() {
    assert!(validate_password("12345").is_ok());
    let e = validate_password("1234").unwrap_err();
    assert_eq!(e.messages("password").unwrap()[0], "Password to short");
    // Three characters, six UTF-8 bytes: the minimum counts bytes.
    assert!(validate_password("\u{e9}\u{e9}\u{e9}").is_ok());
}

#[test]
fn validate_email_accumulates_pattern_and_uniqueness() {
    let mut store = Store::new();
    reg(&mut store, "alice", "alice@example.com");
    assert!(validate_email("fresh@example.com", &store).is_ok());
    match validate_email("alice@example.com", &store) {
        Err(ApiError::Validation(v)) => {
            assert_eq!(v.messages("email").unwrap()[0], "Email allready exists");
        },
        other => panic!("expected validation failure, got {:?}", other),
    }
}

#[test]
fn token_round_trip() {
    let mut store = Store::new();
    let alice = reg(&mut store, "alice", "alice@example.com");
    let token = alice.token().unwrap();
    let loaded = User::load_from_token(&token, &store).unwrap();
    assert_eq!(loaded.id, alice.id);
    assert_eq!(loaded.username, "alice");
}

#[test]
fn token_binding() {
    let mut store = Store::new();
    let alice = reg(&mut store, "alice", "alice@example.com");
    let old_token = alice.token().unwrap();
    assert!(User::load_from_token(&old_token, &store).is_ok());
    update(
        &mut store,
        &alice,
        &Update {
            user: UpdateUser { password: Some("new-password".to_string()), ..empty_patch() },
        },
    )
    .unwrap();
    let r = User::load_from_token(&old_token, &store);
    assert!(matches!(r, Err(ApiError::Unauthorized)));
    let rotated = store.users[0].clone();
    assert!(!rotated.verify_token(&old_token));
    let new_token = rotated.token().unwrap();
    assert_eq!(User::load_from_token(&new_token, &store).unwrap().id, alice.id);
}

#[test]
fn malformed_token_is_validation_error() {
    let store = Store::new();
    let r = User::load_from_token("not.a.token", &store);
    assert!(matches!(r, Err(ApiError::Validation(_))));
}

#[test]
fn token_for_unknown_user_is_not_found() {
    let mut store = Store::new();
    let alice = reg(&mut store, "alice", "alice@example.com");
    let mut ghost = alice.clone();
    ghost.id = 999;
    let token = ghost.token().unwrap();
    let r = User::load_from_token(&token, &store);
    assert!(matches!(r, Err(ApiError::NotFound)));
}

#[test]
fn http_status_mapping() {
    assert_eq!(ApiError::NotFound.http_status(), 404);
    assert_eq!(ApiError::Unauthorized.http_status(), 401);
    assert_eq!(ApiError::Forbidden.http_status(), 403);
    assert_eq!(ApiError::Internal.http_status(), 500);
    let v = conduit::types::ValidationError::from("field", "message");
    assert_eq!(ApiError::Validation(v).http_status(), 422);
}

#[test]
fn validation_error_accumulates_and_merges() {
    let mut a = conduit::types::ValidationError::new();
    assert!(a.empty());
    a.add_error("email", "first");
    a.add_error("email", "second");
    a.add_error("password", "third");
    assert_eq!(a.len(), 2);
    let mut b = conduit::types::ValidationError::from("email", "fourth");
    b.add_error("username", "fifth");
    a.merge(b);
    assert_eq!(a.len(), 3);
    let email = a.messages("email").unwrap();
    assert_eq!(email.as_slice(), ["first", "second", "fourth"]);
    assert_eq!(a.messages("username").unwrap()[0], "fifth");
    assert!(a.messages("missing").is_none());
}
