use vstd::prelude::*;

verus! {

/// The claims carried by a session token: the user identifier as text, and the
/// expiry as seconds since the epoch.
#[derive(Debug, PartialEq, Eq)]
pub struct Claims {
    pub sub: String,
    pub exp: usize,
}

/// Credentials sent to sign up or sign in.
#[derive(Debug, PartialEq, Eq)]
pub struct LoginRequest {
    pub username: String,
    pub password: String,
}

/// The answer to a successful sign-in.
#[derive(Debug, PartialEq, Eq)]
pub struct SigninResponse {
    pub token: String,
}

} // verus!
