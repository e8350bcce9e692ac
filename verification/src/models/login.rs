//! Login request and the token pair answered to it.

use vstd::prelude::*;

verus! {

/// Credentials sent to the login endpoint.
pub struct LoginRequest {
    pub username: String,
    pub password: String,
}

/// How the issued tokens are to be presented.
#[derive(Clone, Copy, PartialEq, Eq, Structural, Debug)]
pub enum TokenType {
    Bearer,
}

/// The access and refresh tokens answered to a successful login or refresh.
pub struct LoginResponse {
    pub access_token: String,
    pub refresh_token: String,
    pub token_type: TokenType,
}

} // verus!
