//! The credential store's handlers: registration, login and self-service
//! update, plus password hashing (delegated to rust-crypto's PBKDF2) and
//! the named user lookups.

use vstd::prelude::*;
use vstd::string::StringExecFns;
use crate::store::SpecStore;
use crate::store::SpecUser;
use crate::store::Store;
use crate::store::User;
use crate::store::has_user_email;
use crate::store::has_user_id;
use crate::store::has_user_name;
use crate::store::opt_view;
use crate::store::store_wf;
use crate::store::user_by_email_spec;
use crate::store::user_by_id_spec;
use crate::store::user_by_name_spec;
use crate::store::user_index_by_id;
use crate::types::ApiError;
use crate::types::ValidationError;
use crate::types::spec_add_error;
use crate::validate::byte_len;
use crate::validate::email_errors;
use crate::validate::email_matches;
use crate::validate::email_re_is_match;

verus! {

/// Whether `password` matches the PBKDF2 hash `hashed`: exactly when
/// crypto::pbkdf2::pbkdf2_check returns Ok(true); a function of the two
/// strings (the salt and parameters are embedded in `hashed`).
pub uninterp spec fn pbkdf2_matches(password: Seq<char>, hashed: Seq<char>) -> bool;

/// A stored hash in the shape `make_password` writes: the fixed scheme,
/// version and iteration-count prefix (count 1000). pbkdf2_check parses
/// the count of such a string back as 1000, so its positive-count
/// assertion holds and the check returns instead of panicking.
pub open spec fn pbkdf2_hash_wf(h: Seq<char>) -> bool {
    h.len() >= 20 && h.subrange(0, 20) == ("$rpbkdf2$0$AAAD6A==$")@
}

impl User {
    /// Relies on crypto::pbkdf2::pbkdf2_simple: derives a PBKDF2 hash of
    /// `password` with a fresh random salt and an iteration count of 1000,
    /// writing the fixed `$rpbkdf2$0$<count>$` prefix; pbkdf2_check
    /// accepts the resulting pair.
    #[verifier::external_body]
    pub fn make_password(password: &str) -> (r: Option<String>)
        ensures
            r matches Some(h) ==> pbkdf2_matches(password@, h@) && pbkdf2_hash_wf(h@),
    {
        crypto::pbkdf2::pbkdf2_simple(password, 1000).ok()
    }

    /// Replaces this user's password hash, rotating the token signing key.
    pub fn new_password(&mut self, password: &str) -> (r: Result<(), ApiError>)
        ensures
            match r {
                Ok(_) => pbkdf2_matches(password@, final(self)@.token) && pbkdf2_hash_wf(
                    final(self)@.token,
                ) && final(self)@ == (SpecUser { token: final(self)@.token, ..old(self)@ }),
                Err(e) => e is Internal && *final(self) == *old(self),
            },
    {
        match User::make_password(password) {
            Some(h) => {
                self.token = h;
                Ok(())
            },
            None => Err(ApiError::Internal),
        }
    }

    /// Relies on crypto::pbkdf2::pbkdf2_check: whether `password_to_verify`
    /// matches this user's stored hash; a hash that is malformed past the
    /// required prefix matches nothing. The prefix is required because the
    /// check asserts on a parsed iteration count of zero.
    #[verifier::external_body]
    pub fn verify_password(&self, password_to_verify: &str) -> (r: bool)
        requires
            pbkdf2_hash_wf(self.token@),
        ensures
            r == pbkdf2_matches(password_to_verify@, self.token@),
    {
        crypto::pbkdf2::pbkdf2_check(password_to_verify, &self.token).unwrap_or(false)
    }

    /// Loads the user with this username.
    pub fn load_by_name(name: &str, store: &Store) -> (r: Result<User, ApiError>)
        requires
            store_wf(store@),
        ensures
            match r {
                Ok(u) => has_user_name(store@.users, name@) && u@ == user_by_name_spec(
                    store@.users,
                    name@,
                ),
                Err(e) => e is NotFound && !has_user_name(store@.users, name@),
            },
    {
        match store.user_by_name(name) {
            Some(u) => Ok(u.clone()),
            None => Err(ApiError::NotFound),
        }
    }

    /// Loads the user with this id.
    pub fn load_by_id(id: i32, store: &Store) -> (r: Result<User, ApiError>)
        requires
            store_wf(store@),
        ensures
            match r {
                Ok(u) => has_user_id(store@.users, id as int) && u@ == user_by_id_spec(
                    store@.users,
                    id as int,
                ),
                Err(e) => e is NotFound && !has_user_id(store@.users, id as int),
            },
    {
        match store.user_by_id(id) {
            Some(u) => Ok(u.clone()),
            None => Err(ApiError::NotFound),
        }
    }
}

/// A registration request.
#[derive(Debug)]
pub struct RegistrationDetails {
    pub username: String,
    pub email: String,
    pub password: String,
}

/// The body of `POST /users`.
#[derive(Debug)]
pub struct Registration {
    pub user: RegistrationDetails,
}

/// The failures registration accumulates, in order: the e-mail pattern and
/// uniqueness checks, the password length, the username uniqueness check.
pub open spec fn register_errors(
    s: SpecStore,
    username: Seq<char>,
    email: Seq<char>,
    password: Seq<char>,
) -> Seq<(Seq<char>, Seq<Seq<char>>)> {
    let m0 = email_errors(s, email);
    let m1 = if byte_len(password) < 5 {
        spec_add_error(m0, "password"@, "Password to short"@)
    } else {
        m0
    };
    if has_user_name(s.users, username) {
        spec_add_error(m1, "username"@, "username allready exists"@)
    } else {
        m1
    }
}

impl Registration {
    /// Checks every field of the request, accumulating all failures.
    pub fn validate(&self, store: &Store) -> (r: Result<(), ApiError>)
        requires
            store_wf(store@),
        ensures
            match r {
                Ok(_) => register_errors(
                    store@,
                    self.user.username@,
                    self.user.email@,
                    self.user.password@,
                ).len() == 0,
                Err(e) => e matches ApiError::Validation(v) && v.wf() && v@ == register_errors(
                    store@,
                    self.user.username@,
                    self.user.email@,
                    self.user.password@,
                ) && v@.len() > 0,
            },
    {
        let mut errors = ValidationError::new();
        if !email_re_is_match(self.user.email.as_str()) {
            let msg = String::from_str("Invalid email: ").concat(self.user.email.as_str());
            errors.add_error("email", msg.as_str());
        }
        if store.user_by_email(self.user.email.as_str()).is_some() {
            errors.add_error("email", "Email allready exists");
        }
        if self.user.password.as_str().as_bytes().len() < 5 {
            errors.add_error("password", "Password to short");
        }
        if store.user_by_name(self.user.username.as_str()).is_some() {
            errors.add_error("username", "username allready exists");
        }
        if errors.len() > 0 {
            Err(ApiError::Validation(errors))
        } else {
            Ok(())
        }
    }
}

/// Registers a new user: validates every field, hashes the password, and
/// appends the row under a fresh id. The returned row carries the stored
/// hash in `token`; the bearer token itself comes from `User::token`.
pub fn register(store: &mut Store, registration: &Registration) -> (r: Result<User, ApiError>)
    requires
        store_wf(old(store)@),
    ensures
        store_wf(final(store)@),
        match r {
            Ok(u) => register_errors(
                old(store)@,
                registration.user.username@,
                registration.user.email@,
                registration.user.password@,
            ).len() == 0 && old(store)@.next_user_id < 2147483647 && u@ == (SpecUser {
                id: old(store)@.next_user_id,
                username: registration.user.username@,
                token: u@.token,
                email: registration.user.email@,
                bio: None,
                image: None,
            }) && pbkdf2_matches(registration.user.password@, u@.token) && final(store)@
                == (SpecStore {
                users: old(store)@.users.push(u@),
                next_user_id: old(store)@.next_user_id + 1,
                ..old(store)@
            }),
            Err(e) => *final(store) == *old(store) && match e {
                ApiError::Validation(v) => v.wf() && v@ == register_errors(
                    old(store)@,
                    registration.user.username@,
                    registration.user.email@,
                    registration.user.password@,
                ) && v@.len() > 0,
                ApiError::Internal => register_errors(
                    old(store)@,
                    registration.user.username@,
                    registration.user.email@,
                    registration.user.password@,
                ).len() == 0,
                _ => false,
            },
        },
{
    match registration.validate(store) {
        Ok(_) => {},
        Err(e) => {
            return Err(e);
        },
    }
    if store.next_user_id == i32::MAX {
        return Err(ApiError::Internal);
    }
    let hash = match User::make_password(registration.user.password.as_str()) {
        Some(h) => h,
        None => {
            return Err(ApiError::Internal);
        },
    };
    let id = store.next_user_id;
    let user = User {
        id,
        username: registration.user.username.clone(),
        token: hash,
        email: registration.user.email.clone(),
        bio: None,
        image: None,
    };
    let result = user.clone();
    let ghost pre = store@;
    store.users.push(user);
    store.next_user_id = id + 1;
    proof {
        assert(store@.users =~= pre.users.push(result@));
        assert(store@.articles =~= pre.articles);
        assert(store@.comments =~= pre.comments);
        assert(store@.favorites =~= pre.favorites);
        assert(store@.followers =~= pre.followers);
        assert(store@ == (SpecStore {
            users: pre.users.push(result@),
            next_user_id: pre.next_user_id + 1,
            ..pre
        }));
        assert(store_wf(store@)) by {
            let us = store@.users;
            assert forall|a: int, b: int| 0 <= a < b < us.len() implies us[a].id != us[b].id
                && us[a].username != us[b].username && us[a].email != us[b].email by {
                if b == us.len() - 1 {
                    assert(us[a] == pre.users[a]);
                    assert(pre.users[a].id < pre.next_user_id);
                }
            }
        }
    }
    Ok(result)
}

/// A login request.
#[derive(Debug)]
pub struct LoginDetails {
    pub email: String,
    pub password: String,
}

/// The body of `POST /users/login`.
#[derive(Debug)]
pub struct Login {
    pub user: LoginDetails,
}

/// Authenticates by e-mail and password: the user is returned exactly when
/// the e-mail is registered and the password matches its stored hash.
pub fn login(store: &Store, req: &Login) -> (r: Result<User, ApiError>)
    requires
        store_wf(store@),
    ensures
        match r {
            Ok(u) => has_user_email(store@.users, req.user.email@) && u@ == user_by_email_spec(
                store@.users,
                req.user.email@,
            ) && pbkdf2_matches(req.user.password@, u@.token),
            Err(e) => match e {
                ApiError::NotFound => !has_user_email(store@.users, req.user.email@),
                ApiError::Validation(v) => has_user_email(store@.users, req.user.email@)
                    && !pbkdf2_matches(
                    req.user.password@,
                    user_by_email_spec(store@.users, req.user.email@).token,
                ) && v.wf() && v@ == seq![("password"@, seq!["Invalid password"@])],
                _ => false,
            },
        },
{
    let user = match store.user_by_email(req.user.email.as_str()) {
        Some(u) => u,
        None => {
            return Err(ApiError::NotFound);
        },
    };
    if user.verify_password(req.user.password.as_str()) {
        Ok(user.clone())
    } else {
        let mut error = ValidationError::new();
        error.add_error("password", "Invalid password");
        Err(ApiError::Validation(error))
    }
}

/// The patch fields of `PUT /user`: absent fields are preserved.
#[derive(Debug)]
pub struct UpdateUser {
    pub username: Option<String>,
    pub email: Option<String>,
    pub password: Option<String>,
    pub image: Option<String>,
    pub bio: Option<String>,
}

/// The body of `PUT /user`.
#[derive(Debug)]
pub struct Update {
    pub user: UpdateUser,
}

/// The mathematical value of an update request.
pub struct SpecUpdateUser {
    pub username: Option<Seq<char>>,
    pub email: Option<Seq<char>>,
    pub password: Option<Seq<char>>,
    pub image: Option<Seq<char>>,
    pub bio: Option<Seq<char>>,
}

impl View for UpdateUser {
    type V = SpecUpdateUser;

    open spec fn view(&self) -> SpecUpdateUser {
        SpecUpdateUser {
            username: opt_view(self.username),
            email: opt_view(self.email),
            password: opt_view(self.password),
            image: opt_view(self.image),
            bio: opt_view(self.bio),
        }
    }
}

/// Whether some other user (a different id) holds this e-mail.
pub open spec fn exists_other_email(users: Seq<SpecUser>, email: Seq<char>, id: int) -> bool {
    exists|i: int| 0 <= i < users.len() && users[i].email == email && users[i].id != id
}

/// Whether some other user (a different id) holds this username.
pub open spec fn exists_other_name(users: Seq<SpecUser>, name: Seq<char>, id: int) -> bool {
    exists|i: int| 0 <= i < users.len() && users[i].username == name && users[i].id != id
}

/// The failures a self-service update accumulates, in order: the e-mail
/// pattern and uniqueness checks, the username length and uniqueness
/// checks, the password length. A field that fails its shape check is
/// checked for uniqueness under its current (unchanged) value, which under
/// the store invariant never collides.
pub open spec fn user_update_errors(s: SpecStore, cur: SpecUser, u: SpecUpdateUser) -> Seq<
    (Seq<char>, Seq<Seq<char>>),
> {
    let m0 = Seq::<(Seq<char>, Seq<Seq<char>>)>::empty();
    let m2 = match u.email {
        Some(e) => {
            let ma = if !email_matches(e) {
                spec_add_error(m0, "email"@, "Invalid email: "@ + e)
            } else {
                m0
            };
            let checked = if email_matches(e) {
                e
            } else {
                cur.email
            };
            if exists_other_email(s.users, checked, cur.id) {
                spec_add_error(ma, "email"@, "Email already chosen: "@ + checked)
            } else {
                ma
            }
        },
        None => m0,
    };
    let m4 = match u.username {
        Some(n) => {
            let mb = if byte_len(n) < 3 {
                spec_add_error(m2, "username"@, "username to small: "@ + n)
            } else {
                m2
            };
            let checked = if byte_len(n) >= 3 {
                n
            } else {
                cur.username
            };
            if exists_other_name(s.users, checked, cur.id) {
                spec_add_error(mb, "username"@, "Username already chosen: "@ + checked)
            } else {
                mb
            }
        },
        None => m2,
    };
    match u.password {
        Some(p) => if byte_len(p) < 5 {
            spec_add_error(m4, "password"@, "Password to short"@)
        } else {
            m4
        },
        None => m4,
    }
}

/// Whether another user than `id` holds `email`.
fn exists_other_with_email(store: &Store, email: &String, id: i32) -> (r: bool)
    ensures
        r == exists_other_email(store@.users, email@, id as int),
{
    let n = store.users.len();
    let mut i: usize = 0;
    while i < n
        invariant
            n == store.users.len(),
            i <= n,
            forall|j: int|
                0 <= j < i ==> !(store@.users[j].email == email@ && store@.users[j].id != id as int),
        decreases n - i,
    {
        if store.users[i].email == *email && store.users[i].id != id {
            proof {
                assert(store@.users[i as int].email == email@ && store@.users[i as int].id != id
                    as int);
            }
            return true;
        }
        i += 1;
    }
    false
}

/// Whether another user than `id` holds `name`.
fn exists_other_with_name(store: &Store, name: &String, id: i32) -> (r: bool)
    ensures
        r == exists_other_name(store@.users, name@, id as int),
{
    let n = store.users.len();
    let mut i: usize = 0;
    while i < n
        invariant
            n == store.users.len(),
            i <= n,
            forall|j: int|
                0 <= j < i ==> !(store@.users[j].username == name@ && store@.users[j].id != id
                    as int),
        decreases n - i,
    {
        if store.users[i].username == *name && store.users[i].id != id {
            proof {
                assert(store@.users[i as int].username == name@ && store@.users[i as int].id != id
                    as int);
            }
            return true;
        }
        i += 1;
    }
    false
}

/// Applies a partial patch to the requester's own account: present fields
/// replace, absent fields are preserved, and a password change rotates the
/// token signing key, invalidating outstanding tokens.
pub fn update(store: &mut Store, current_user: &User, patch: &Update) -> (r: Result<
    User,
    ApiError,
>)
    requires
        store_wf(old(store)@),
        has_user_id(old(store)@.users, current_user@.id) ==> user_by_id_spec(
            old(store)@.users,
            current_user@.id,
        ) == current_user@,
    ensures
        store_wf(final(store)@),
        match r {
            Ok(u) => {
                &&& user_update_errors(old(store)@, current_user@, patch.user@).len() == 0
                &&& u@.id == current_user@.id
                &&& u@.username == (match patch.user@.username {
                    Some(n) => n,
                    None => current_user@.username,
                })
                &&& u@.email == (match patch.user@.email {
                    Some(e) => e,
                    None => current_user@.email,
                })
                &&& (match patch.user@.password {
                    Some(p) => pbkdf2_matches(p, u@.token),
                    None => u@.token == current_user@.token,
                })
                &&& u@.bio == (match patch.user@.bio {
                    Some(b) => Some(b),
                    None => current_user@.bio,
                })
                &&& u@.image == (match patch.user@.image {
                    Some(im) => Some(im),
                    None => current_user@.image,
                })
                &&& final(store)@ == (if has_user_id(old(store)@.users, current_user@.id) {
                    SpecStore {
                        users: old(store)@.users.update(
                            user_index_by_id(old(store)@.users, current_user@.id),
                            u@,
                        ),
                        ..old(store)@
                    }
                } else {
                    old(store)@
                })
            },
            Err(e) => *final(store) == *old(store) && match e {
                ApiError::Validation(v) => v.wf() && v@ == user_update_errors(
                    old(store)@,
                    current_user@,
                    patch.user@,
                ) && v@.len() > 0,
                ApiError::Internal => patch.user@.password matches Some(p) && byte_len(p) >= 5,
                _ => false,
            },
        },
{
    let mut errors = ValidationError::new();
    let mut user = current_user.clone();
    if let Some(b) = &patch.user.bio {
        user.bio = Some(b.clone());
    }
    if let Some(im) = &patch.user.image {
        user.image = Some(im.clone());
    }
    if let Some(new_email) = &patch.user.email {
        if !email_re_is_match(new_email.as_str()) {
            let msg = String::from_str("Invalid email: ").concat(new_email.as_str());
            errors.add_error("email", msg.as_str());
        } else {
            user.email = new_email.clone();
        }
        if exists_other_with_email(store, &user.email, user.id) {
            let msg = String::from_str("Email already chosen: ").concat(user.email.as_str());
            errors.add_error("email", msg.as_str());
        }
    }
    if let Some(new_username) = &patch.user.username {
        if new_username.as_str().as_bytes().len() < 3 {
            let msg = String::from_str("username to small: ").concat(new_username.as_str());
            errors.add_error("username", msg.as_str());
        } else {
            user.username = new_username.clone();
        }
        if exists_other_with_name(store, &user.username, user.id) {
            let msg = String::from_str("Username already chosen: ").concat(user.username.as_str());
            errors.add_error("username", msg.as_str());
        }
    }
    if let Some(new_password) = &patch.user.password {
        if new_password.as_str().as_bytes().len() < 5 {
            errors.add_error("password", "Password to short");
        } else {
            match user.new_password(new_password.as_str()) {
                Ok(_) => {},
                Err(e) => {
                    return Err(e);
                },
            }
        }
    }
    if errors.len() > 0 {
        return Err(ApiError::Validation(errors));
    }
    match store.user_pos_by_id(user.id) {
        Some(i) => {
            let stored = user.clone();
            let ghost pre = store@;
            let _ = store.users.remove(i);
            store.users.insert(i, stored);
            proof {
                assert(store@.users =~= pre.users.update(i as int, user@));
                assert(store@.articles =~= pre.articles);
                assert(store@.comments =~= pre.comments);
                assert(store@.favorites =~= pre.favorites);
                assert(store@.followers =~= pre.followers);
                assert(store@ == (SpecStore { users: pre.users.update(i as int, user@), ..pre }));
                assert(store_wf(store@)) by {
                    let us = store@.users;
                    assert forall|a: int, b: int| 0 <= a < b < us.len() implies us[a].id != us[b].id
                        && us[a].username != us[b].username && us[a].email != us[b].email by {
                        if a != i && b != i {
                            assert(us[a] == pre.users[a] && us[b] == pre.users[b]);
                        } else {
                            let o = if a == i {
                                b
                            } else {
                                a
                            };
                            assert(us[o] == pre.users[o]);
                            assert(pre.users[o].id != user@.id);
                            if us[o].email == user@.email {
                                assert(exists_other_email(pre.users, user@.email, user@.id));
                            }
                            if us[o].username == user@.username {
                                assert(exists_other_name(pre.users, user@.username, user@.id));
                            }
                        }
                    }
                }
            }
        },
        None => {},
    }
    Ok(user)
}

} // verus!
