//! Responder identifiers: validated opaque strings keying the response ledger.

use vstd::prelude::*;

use crate::errors::AppError;

verus! {

/// The name a responder chose for itself within a session. Non-empty and at
/// most 100 characters; compared by exact value.
#[derive(Debug, Clone)]
pub struct UserID(pub String);

impl View for UserID {
    type V = Seq<char>;

    open spec fn view(&self) -> Seq<char> {
        self.0@
    }
}

/// Whether `s` is acceptable as a user identifier.
pub open spec fn valid_user_id(s: Seq<char>) -> bool {
    1 <= s.len() <= 100
}

impl UserID {
    /// Validates `s` and wraps it; rejects the empty string and anything
    /// longer than 100 characters.
    pub fn from_string(s: &str) -> (r: Result<UserID, AppError>)
        ensures
            r is Ok <==> valid_user_id(s@),
            r is Ok ==> r->Ok_0@ == s@,
            r is Err ==> r->Err_0 == AppError::BadUserID,
    {
        let n = s.unicode_len();
        if n == 0 || n > 100 {
            Err(AppError::BadUserID)
        } else {
            Ok(UserID(s.to_owned()))
        }
    }
}

} // verus!
