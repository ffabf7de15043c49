//! Session identifiers: validated opaque strings used as store keys.

use vstd::prelude::*;

use crate::errors::AppError;

verus! {

/// The name of a session. Non-empty and at most 100 characters; compared by
/// exact value.
#[derive(Debug, Clone)]
pub struct SessionID(pub String);

impl View for SessionID {
    type V = Seq<char>;

    open spec fn view(&self) -> Seq<char> {
        self.0@
    }
}

/// Whether `s` is acceptable as a session identifier.
pub open spec fn valid_session_id(s: Seq<char>) -> bool {
    1 <= s.len() <= 100
}

impl SessionID {
    /// Validates `s` and wraps it; rejects the empty string and anything
    /// longer than 100 characters.
    pub fn from_string(s: &str) -> (r: Result<SessionID, AppError>)
        ensures
            r is Ok <==> valid_session_id(s@),
            r is Ok ==> r->Ok_0@ == s@,
            r is Err ==> r->Err_0 == AppError::BadSessionID,
    {
        let n = s.unicode_len();
        if n == 0 || n > 100 {
            Err(AppError::BadSessionID)
        } else {
            Ok(SessionID(s.to_owned()))
        }
    }
}

} // verus!
