//! Verified core of a social blogging backend: token-authenticated users,
//! articles with tags and favorites, follower relationships, and comments.
//!
//! The relational store is modelled in memory as `store::Store`; every
//! handler is a verified function from store state and request values to the
//! next store state and a response. Password hashing, token signing, slug
//! generation and the e-mail pattern are delegated to outside crates through
//! a small set of trusted wrappers.

pub mod article;
pub mod comment;
pub mod laws;
pub mod numtext;
pub mod profile;
pub mod slugger;
pub mod store;
pub mod token;
pub mod types;
pub mod users;
pub mod validate;

pub use types::ApiError;
pub use types::ValidationError;
