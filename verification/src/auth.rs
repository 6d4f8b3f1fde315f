//! Authentication data: the token response handed to a client, the
//! claims embedded in a token, and the rules that shape them. Signing
//! and verifying tokens is the caller's business.

use vstd::prelude::*;
use vstd::string::StrSliceExecFns;

use crate::text::str_eq;

verus! {

/// The pair of tokens issued on a successful login or refresh.
pub struct AuthResponse {
    pub token: String,
    pub refresh_token: String,
    pub username: String,
    pub user_id: String,
    /// Absolute expiry of the access token, in seconds.
    pub expires_at: i64,
}

/// The claims carried by one token.
pub struct Claims {
    pub sub: String,
    pub username: String,
    pub iat: usize,
    pub exp: usize,
    pub purpose: String,
}

/// Lifetime of an access token, in seconds: one hour.
pub const ACCESS_TOKEN_SECS: u64 = 3600;

/// Lifetime of a refresh token, in seconds: seven days.
pub const REFRESH_TOKEN_SECS: u64 = 604800;

impl Claims {
    /// The claims of an access token issued at `now` (seconds): valid
    /// for one hour, for purpose `"access"`.
    pub fn access(user_id: String, username: String, now: u64) -> (r: Claims)
        requires
            now + ACCESS_TOKEN_SECS <= usize::MAX,
        ensures
            r.sub == user_id,
            r.username == username,
            r.iat == now,
            r.exp == now + ACCESS_TOKEN_SECS,
            r.purpose@ == "access"@,
    {
        Claims {
            sub: user_id,
            username,
            iat: now as usize,
            exp: (now + ACCESS_TOKEN_SECS) as usize,
            purpose: String::from_str("access"),
        }
    }

    /// The claims of a refresh token issued at `now` (seconds): valid
    /// for seven days, for purpose `"refresh"`.
    pub fn refresh(user_id: String, username: String, now: u64) -> (r: Claims)
        requires
            now + REFRESH_TOKEN_SECS <= usize::MAX,
        ensures
            r.sub == user_id,
            r.username == username,
            r.iat == now,
            r.exp == now + REFRESH_TOKEN_SECS,
            r.purpose@ == "refresh"@,
    {
        Claims {
            sub: user_id,
            username,
            iat: now as usize,
            exp: (now + REFRESH_TOKEN_SECS) as usize,
            purpose: String::from_str("refresh"),
        }
    }

    /// Whether these claims were issued for the expected purpose; a
    /// token presented for the wrong purpose must be rejected.
    pub fn purpose_matches(&self, expected: &str) -> (r: bool)
        ensures
            r == (self.purpose@ == expected@),
    {
        str_eq(self.purpose.as_str(), expected)
    }
}

} // verus!
