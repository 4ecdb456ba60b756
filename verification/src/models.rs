//! The bodies of account and configuration requests, as plain values.

use vstd::prelude::*;

verus! {

/// A request to open an account.
pub struct RegisterRequest {
    pub email: String,
    pub password: String,
}

/// A request to sign in.
pub struct LoginRequest {
    pub email: String,
    pub password: String,
}

/// What a session token says: whose it is (`sub`) and until when it holds
/// (`exp`, seconds since the epoch).
#[derive(Clone)]
pub struct Claims {
    pub sub: String,
    pub exp: usize,
}

/// A new supply configuration.
pub struct CreateConfigReq {
    pub id: String,
    pub name: String,
    pub locked: bool,
    pub color_idx: Option<i64>,
    pub chip_salt: Option<String>,
}

/// New values for a supply configuration.
pub struct UpdateConfigReq {
    pub name: String,
    pub locked: bool,
    pub color_idx: Option<i64>,
    pub chip_salt: Option<String>,
}

} // verus!
