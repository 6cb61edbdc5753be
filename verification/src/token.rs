//! The token service: bearer tokens whose claims bind a user's id and
//! e-mail, signed with HMAC-SHA256 keyed by that user's current password
//! hash. The signing, verification and parsing are delegated to the jwt
//! crate; verification always checks the signature against the freshly
//! loaded user's current hash.

use vstd::prelude::*;
use vstd::pervasive::unreached;
use crate::numtext::i64_to_string;
use crate::numtext::int_str;
use crate::numtext::parse_i32;
use crate::numtext::parse_i32_spec;
use crate::store::Store;
use crate::store::User;
use crate::store::has_user_id;
use crate::store::opt_view;
use crate::store::store_wf;
use crate::store::user_by_id_spec;
use crate::types::ApiError;
use crate::types::ValidationError;

verus! {

/// What signing claims `{iss, sub}` under HMAC-SHA256 key `key` returns:
/// a function of the three strings alone.
pub uninterp spec fn token_of(iss: Seq<char>, sub: Seq<char>, key: Seq<char>) -> Seq<char>;

/// Whether `token`'s signature checks under HMAC-SHA256 key `key`: a
/// function of the two strings alone.
pub uninterp spec fn sig_ok(token: Seq<char>, key: Seq<char>) -> bool;

/// What parsing `token` without verification returns: `None` when the
/// encoding is invalid, else the optional issuer and subject claims; a
/// function of the token text alone.
pub uninterp spec fn parsed_claims(token: Seq<char>) -> Option<
    (Option<Seq<char>>, Option<Seq<char>>),
>;

/// The issuer and subject a token must carry to name a user: both claims
/// present and the subject a well-formed 32-bit id.
pub open spec fn token_id_email(t: Seq<char>) -> Option<(int, Seq<char>)> {
    match parsed_claims(t) {
        Some(p) => match p.0 {
            Some(iss) => match p.1 {
                Some(sub) => match parse_i32_spec(sub) {
                    Some(id) => Some((id, iss)),
                    None => None,
                },
                None => None,
            },
            None => None,
        },
        None => None,
    }
}

/// The parsed claims a token carries, before any verification.
pub struct TokenClaims {
    pub iss: Option<String>,
    pub sub: Option<String>,
}

/// Relies on jwt's SignWithKey with an HMAC-SHA256 key built from `key`:
/// signing cannot fail (the HMAC key accepts any length, HMAC signing is
/// infallible, and serializing two optional string claims cannot err);
/// the compact token is a function of the three strings, its signature
/// checks under the same key, and parsing it returns the same issuer and
/// subject.
#[verifier::external_body]
fn sign_claims(iss: &str, sub: &str, key: &str) -> (r: Option<String>)
    ensures
        r is Some,
        r matches Some(t) ==> t@ == token_of(iss@, sub@, key@) && sig_ok(t@, key@)
            && parsed_claims(t@) == Some((Some(iss@), Some(sub@))),
{
    let mac: hmac::Hmac<sha2::Sha256> = hmac::Mac::new_from_slice(key.as_bytes()).ok()?;
    let claims = jwt::RegisteredClaims {
        issuer: Some(iss.to_owned()),
        subject: Some(sub.to_owned()),
        ..Default::default()
    };
    jwt::SignWithKey::sign_with_key(claims, &mac).ok()
}

/// Relies on jwt's Token::parse_unverified: splits the compact encoding
/// and decodes the header and claims without checking the signature; the
/// result is a function of the token text alone.
#[verifier::external_body]
fn parse_token_claims(token: &str) -> (r: Option<TokenClaims>)
    ensures
        (r is Some) == (parsed_claims(token@) is Some),
        r matches Some(c) ==> parsed_claims(token@) == Some((opt_view(c.iss), opt_view(c.sub))),
{
    let parsed: Result<jwt::Token<jwt::Header, jwt::RegisteredClaims, jwt::Unverified>, jwt::Error> =
        jwt::Token::parse_unverified(token);
    match parsed {
        Ok(t) => Some(TokenClaims {
            iss: t.claims().issuer.clone(),
            sub: t.claims().subject.clone(),
        }),
        Err(_) => None,
    }
}

impl User {
    /// Issues this user's bearer token: claims `{iss: email, sub: id}`,
    /// signed with the user's current password hash as key; issuance
    /// always succeeds.
    pub fn token(&self) -> (r: Result<String, ApiError>)
        ensures
            r is Ok,
            r matches Ok(t) ==> t@ == token_of(self@.email, int_str(self@.id), self@.token)
                && sig_ok(t@, self@.token) && parsed_claims(t@) == Some(
                (Some(self@.email), Some(int_str(self@.id))),
            ),
    {
        let sub = i64_to_string(self.id as i64);
        match sign_claims(self.email.as_str(), sub.as_str(), self.token.as_str()) {
            Some(t) => Ok(t),
            None => unreached(),
        }
    }

    /// Relies on jwt's VerifyWithKey for token strings, with an
    /// HMAC-SHA256 key built from this user's stored password hash: true
    /// exactly when the token's signature checks under that key.
    #[verifier::external_body]
    pub fn verify_token(&self, token: &str) -> (r: bool)
        ensures
            r == sig_ok(token@, self.token@),
    {
        let mac: hmac::Hmac<sha2::Sha256> = match hmac::Mac::new_from_slice(
            self.token.as_bytes(),
        ) {
            Ok(m) => m,
            Err(_) => return false,
        };
        let res: Result<jwt::RegisteredClaims, jwt::Error> = jwt::VerifyWithKey::verify_with_key(
            token,
            &mac,
        );
        res.is_ok()
    }

    /// Resolves a bearer token to its user: parses the claims, loads the
    /// user by the id and e-mail conjunction, then checks the signature
    /// against that user's current password hash.
    pub fn load_from_token(jwt_token: &str, store: &Store) -> (r: Result<User, ApiError>)
        requires
            store_wf(store@),
        ensures
            match r {
                Ok(u) => token_id_email(jwt_token@) matches Some(pair) && has_user_id(
                    store@.users,
                    pair.0,
                ) && u@ == user_by_id_spec(store@.users, pair.0) && u@.email == pair.1 && sig_ok(
                    jwt_token@,
                    u@.token,
                ),
                Err(e) => match e {
                    ApiError::Validation(v) => token_id_email(jwt_token@) is None && v.wf() && v@
                        == seq![("token"@, seq!["Invalid jwt token"@])],
                    ApiError::NotFound => token_id_email(jwt_token@) matches Some(pair) && (
                    !has_user_id(store@.users, pair.0) || user_by_id_spec(
                        store@.users,
                        pair.0,
                    ).email != pair.1),
                    ApiError::Unauthorized => token_id_email(jwt_token@) matches Some(pair)
                        && has_user_id(store@.users, pair.0) && user_by_id_spec(
                        store@.users,
                        pair.0,
                    ).email == pair.1 && !sig_ok(
                        jwt_token@,
                        user_by_id_spec(store@.users, pair.0).token,
                    ),
                    _ => false,
                },
            },
    {
        let claims = match parse_token_claims(jwt_token) {
            Some(c) => c,
            None => {
                return Err(ApiError::Validation(
                    ValidationError::from("token", "Invalid jwt token"),
                ));
            },
        };
        let sub = match claims.sub {
            Some(s) => s,
            None => {
                return Err(ApiError::Validation(
                    ValidationError::from("token", "Invalid jwt token"),
                ));
            },
        };
        let iss = match claims.iss {
            Some(s) => s,
            None => {
                return Err(ApiError::Validation(
                    ValidationError::from("token", "Invalid jwt token"),
                ));
            },
        };
        let user_id = match parse_i32(sub.as_str()) {
            Some(id) => id,
            None => {
                return Err(ApiError::Validation(
                    ValidationError::from("token", "Invalid jwt token"),
                ));
            },
        };
        let user = match store.user_by_id(user_id) {
            Some(u) => u,
            None => {
                return Err(ApiError::NotFound);
            },
        };
        if !(user.email == iss) {
            return Err(ApiError::NotFound);
        }
        if user.verify_token(jwt_token) {
            Ok(user.clone())
        } else {
            Err(ApiError::Unauthorized)
        }
    }
}

} // verus!
