//! Field validation: the e-mail pattern (delegated to the regex crate),
//! username and password length, and the store-backed uniqueness checks.

use vstd::prelude::*;
use vstd::string::StringExecFns;
use crate::store::Store;
use crate::store::store_wf;
use crate::store::has_user_email;
use crate::types::ApiError;
use crate::types::ValidationError;
use crate::types::spec_add_error;

verus! {

/// A string's UTF-8 byte length; the length minima below count bytes.
pub open spec fn byte_len(s: Seq<char>) -> nat {
    vstd::utf8::encode_utf8(s).len()
}

/// The e-mail pattern: lower-case local part and dot-separated domain
/// labels, as the anchored expression below accepts it.
pub const EMAIL_PATTERN: &'static str = r"\A[a-z0-9!#$%&'*+/=?^_`{|}~-]+(?:\.[a-z0-9!#$%&'*+/=?^_`{|}~-]+)*@(?:[a-z0-9](?:[a-z0-9-]*[a-z0-9])?\.)+[a-z0-9](?:[a-z0-9-]*[a-z0-9])?\z";

/// Whether `s` matches the e-mail pattern: what regex::Regex::is_match
/// returns for `EMAIL_PATTERN` on `s`, a function of `s` alone.
pub uninterp spec fn email_matches(s: Seq<char>) -> bool;

/// Relies on regex::Regex::new and Regex::is_match: whether `s` matches
/// the fixed `EMAIL_PATTERN` (which compiles, so the error arm is never
/// taken).
#[verifier::external_body]
pub(crate) fn email_re_is_match(s: &str) -> (r: bool)
    ensures
        r == email_matches(s@),
{
    match regex::Regex::new(EMAIL_PATTERN) {
        Ok(re) => re.is_match(s),
        Err(_) => false,
    }
}

/// Checks `email` against the e-mail pattern.
pub fn validate_email_re(email: &str) -> (r: Result<(), ValidationError>)
    ensures
        match r {
            Ok(_) => email_matches(email@),
            Err(e) => !email_matches(email@) && e.wf() && e@ == seq![
                ("email"@, seq!["Invalid email: "@ + email@]),
            ],
        },
{
    if !email_re_is_match(email) {
        let msg = String::from_str("Invalid email: ").concat(email);
        Err(ValidationError::from("email", msg.as_str()))
    } else {
        Ok(())
    }
}

/// Checks that `username` is at least three bytes long.
pub fn validate_username_re(username: &str) -> (r: Result<(), ValidationError>)
    ensures
        match r {
            Ok(_) => byte_len(username@) >= 3,
            Err(e) => byte_len(username@) < 3 && e.wf() && e@ == seq![
                ("username"@, seq!["username to small: "@ + username@]),
            ],
        },
{
    if username.as_bytes().len() < 3 {
        let msg = String::from_str("username to small: ").concat(username);
        Err(ValidationError::from("username", msg.as_str()))
    } else {
        Ok(())
    }
}

/// Checks that `password` is at least five bytes long.
pub fn validate_password(password: &str) -> (r: Result<(), ValidationError>)
    ensures
        match r {
            Ok(_) => byte_len(password@) >= 5,
            Err(e) => byte_len(password@) < 5 && e.wf() && e@ == seq![
                ("password"@, seq!["Password to short"@]),
            ],
        },
{
    if password.as_bytes().len() < 5 {
        Err(ValidationError::from("password", "Password to short"))
    } else {
        Ok(())
    }
}

/// The failures `validate_email` accumulates: the pattern check, then the
/// uniqueness check.
pub open spec fn email_errors(s: crate::store::SpecStore, email: Seq<char>) -> Seq<
    (Seq<char>, Seq<Seq<char>>),
> {
    let m0 = Seq::<(Seq<char>, Seq<Seq<char>>)>::empty();
    let m1 = if !email_matches(email) {
        spec_add_error(m0, "email"@, "Invalid email: "@ + email)
    } else {
        m0
    };
    if has_user_email(s.users, email) {
        spec_add_error(m1, "email"@, "Email allready exists"@)
    } else {
        m1
    }
}

/// Checks `email` against the pattern and against the e-mail addresses
/// already registered, accumulating both failures.
pub fn validate_email(email_to_validate: &str, store: &Store) -> (r: Result<(), ApiError>)
    requires
        store_wf(store@),
    ensures
        match r {
            Ok(_) => email_errors(store@, email_to_validate@).len() == 0,
            Err(e) => e matches ApiError::Validation(v) && v.wf() && v@ == email_errors(
                store@,
                email_to_validate@,
            ) && v@.len() > 0,
        },
{
    let mut errors = ValidationError::new();
    if !email_re_is_match(email_to_validate) {
        let msg = String::from_str("Invalid email: ").concat(email_to_validate);
        errors.add_error("email", msg.as_str());
    }
    let email_exists = store.user_by_email(email_to_validate).is_some();
    if email_exists {
        errors.add_error("email", "Email allready exists");
    }
    if errors.len() > 0 {
        Err(ApiError::Validation(errors))
    } else {
        Ok(())
    }
}

} // verus!
