//! What can go wrong between a request and the identity provider.

use vstd::prelude::*;
use vstd::string::StringExecFns;

verus! {

/// A failure of authentication. The variants that come from outside carry
/// the words of what failed.
#[derive(Debug, Clone, PartialEq, Eq)]
pub enum AuthError {
    TokenExpired,
    InvalidToken,
    NoRefreshToken,
    RateLimited,
    HttpError(String),
    JwtError(String),
    Network(String),
    ExchangeFailed(String),
    Parse(String),
}

impl AuthError {
    /// The message of the error.
    pub open spec fn message_of(self) -> Seq<char> {
        match self {
            AuthError::TokenExpired => "Token expired"@,
            AuthError::InvalidToken => "Invalid token"@,
            AuthError::NoRefreshToken => "No refresh token"@,
            AuthError::RateLimited => "Rate is over"@,
            AuthError::HttpError(e) => "HTTP error: "@ + e@,
            AuthError::JwtError(e) => "JWT error: "@ + e@,
            AuthError::Network(e) => "Network error: "@ + e@,
            AuthError::ExchangeFailed(status) => "Token exchange failed with status: "@ + status@,
            AuthError::Parse(e) => "Failed to parse token response: "@ + e@,
        }
    }

    /// The message of the error.
    pub fn message(&self) -> (r: String)
        ensures
            r@ == self.message_of(),
    {
        match self {
            AuthError::TokenExpired => "Token expired".to_owned(),
            AuthError::InvalidToken => "Invalid token".to_owned(),
            AuthError::NoRefreshToken => "No refresh token".to_owned(),
            AuthError::RateLimited => "Rate is over".to_owned(),
            AuthError::HttpError(e) => "HTTP error: ".to_owned().concat(e.as_str()),
            AuthError::JwtError(e) => "JWT error: ".to_owned().concat(e.as_str()),
            AuthError::Network(e) => "Network error: ".to_owned().concat(e.as_str()),
            AuthError::ExchangeFailed(status) => "Token exchange failed with status: ".to_owned().concat(
                status.as_str(),
            ),
            AuthError::Parse(e) => "Failed to parse token response: ".to_owned().concat(e.as_str()),
        }
    }
}

} // verus!
