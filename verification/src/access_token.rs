//! Bearer tokens: the single credential that makes a caller the owner of a
//! session.

use vstd::prelude::*;

use crate::errors::AppError;

verus! {

/// The credential of a session's current owner. Between 10 and 100
/// characters; compared by exact value and never logged.
#[derive(Debug, Clone)]
pub struct AccessToken(pub String);

impl View for AccessToken {
    type V = Seq<char>;

    open spec fn view(&self) -> Seq<char> {
        self.0@
    }
}

/// Whether `s` is acceptable as an access token.
pub open spec fn valid_access_token(s: Seq<char>) -> bool {
    10 <= s.len() <= 100
}

impl AccessToken {
    /// Validates `s` and wraps it; rejects anything shorter than 10 or
    /// longer than 100 characters as malformed — a validation error, not an
    /// authorization conflict.
    pub fn from_string(s: &str) -> (r: Result<AccessToken, AppError>)
        ensures
            r is Ok <==> valid_access_token(s@),
            r is Ok ==> r->Ok_0@ == s@,
            r is Err ==> r->Err_0 == AppError::MalformedAccessToken,
    {
        let n = s.unicode_len();
        if n < 10 || n > 100 {
            Err(AppError::MalformedAccessToken)
        } else {
            Ok(AccessToken(s.to_owned()))
        }
    }
}

} // verus!
