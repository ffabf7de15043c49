//! The request-level error taxonomy and its mapping to HTTP status codes.

use vstd::prelude::*;

verus! {

/// Everything that can go wrong while serving a single request: malformed
/// identifiers or tokens, an unknown session, a write with the wrong token,
/// an oversized payload, and a catch-all for internal failures such as
/// exhausting the bootstrap allocation retries. Every error is terminal for
/// its own request and fatal for nothing else.
#[derive(Debug, Clone, Copy, PartialEq, Eq, Structural)]
pub enum AppError {
    BadUserID,
    BadSessionID,
    /// The token itself is malformed: a validation error, the caller's
    /// fault, distinct from holding the wrong token.
    MalformedAccessToken,
    /// The right shape of token, but not the session owner's, while the
    /// owner's grace window is still open.
    BadAccessToken,
    SessionIDDoesNotExist,
    PageTooLarge,
    ResponseTooLarge,
    ServerError,
}

impl AppError {
    /// The HTTP status code a response for this error carries.
    pub fn status_code(&self) -> (code: u16)
        ensures
            code == match *self {
                AppError::BadUserID => 400u16,
                AppError::BadSessionID => 400u16,
                AppError::MalformedAccessToken => 400u16,
                AppError::BadAccessToken => 401u16,
                AppError::SessionIDDoesNotExist => 404u16,
                AppError::PageTooLarge => 413u16,
                AppError::ResponseTooLarge => 413u16,
                AppError::ServerError => 500u16,
            },
    {
        match *self {
            AppError::BadUserID => 400,
            AppError::BadSessionID => 400,
            AppError::MalformedAccessToken => 400,
            AppError::BadAccessToken => 401,
            AppError::SessionIDDoesNotExist => 404,
            AppError::PageTooLarge => 413,
            AppError::ResponseTooLarge => 413,
            AppError::ServerError => 500,
        }
    }

    /// A short description used as the body of an error response.
    pub fn message(&self) -> (msg: &'static str)
        ensures
            msg@ == match *self {
                AppError::BadUserID => "BadUserID"@,
                AppError::BadSessionID => "BadSessionID"@,
                AppError::MalformedAccessToken => "MalformedAccessToken"@,
                AppError::BadAccessToken => "BadAccessToken"@,
                AppError::SessionIDDoesNotExist => "SessionIDDoesNotExist"@,
                AppError::PageTooLarge => "PageTooLarge"@,
                AppError::ResponseTooLarge => "ResponseTooLarge"@,
                AppError::ServerError => "ServerError"@,
            },
    {
        match *self {
            AppError::BadUserID => "BadUserID",
            AppError::BadSessionID => "BadSessionID",
            AppError::MalformedAccessToken => "MalformedAccessToken",
            AppError::BadAccessToken => "BadAccessToken",
            AppError::SessionIDDoesNotExist => "SessionIDDoesNotExist",
            AppError::PageTooLarge => "PageTooLarge",
            AppError::ResponseTooLarge => "ResponseTooLarge",
            AppError::ServerError => "ServerError",
        }
    }
}

} // verus!
