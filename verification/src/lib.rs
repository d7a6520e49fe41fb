//! Session and authentication core for a small storefront.
//!
//! The library covers credential hashing and verification, opaque
//! session tokens, a session store keyed by a one-way digest of the
//! token, expiry enforcement at validation time, and the
//! authorization gate that separates admin from ordinary users.

use vstd::prelude::*;

pub mod auth;
pub mod checkout;
pub mod crypto;
pub mod sessions;
pub mod text;
pub mod users;

verus! {

/// Name of the cookie that carries the raw bearer token.
pub const SESSION_COOKIE_NAME: &'static str = "sc-auth-session";

/// Lifetime of a session in seconds: thirty days.
pub const SESSION_LIFETIME_SECONDS: i64 = 2592000;

} // verus!
