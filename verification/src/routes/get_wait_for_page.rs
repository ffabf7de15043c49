//! Long-polling for a page replacement.
//!
//! The waiting itself happens outside the library, with no lock held. A
//! handler first captures the page channel's generation here, then blocks on
//! the corresponding wake primitive or a timer, and finally re-checks the
//! store: the page changed exactly when the generation moved on. A waiter
//! that arrives after a replacement sees the new generation immediately and
//! simply waits for the next one.

use vstd::prelude::*;

use crate::errors::AppError;
use crate::session_id::valid_session_id;
use crate::state::{lemma_session_map_index, State};

verus! {

/// Captures the current generation of the page channel of the session named
/// `session`. Fails on a malformed name or an unknown session. Waiting does
/// not count as touching the session, so nothing is written.
pub fn wait_for_page_prepare(state: &State, session: &str) -> (r: Result<u64, AppError>)
    requires
        state.wf(),
    ensures
        !valid_session_id(session@) ==> r == Err::<u64, AppError>(AppError::BadSessionID),
        valid_session_id(session@) && !state@.contains_key(session@) ==> r == Err::<u64, AppError>(
            AppError::SessionIDDoesNotExist,
        ),
        valid_session_id(session@) && state@.contains_key(session@) ==> {
            &&& r is Ok
            &&& r->Ok_0 as nat == state@[session@].page_generation
        },
{
    let n = session.unicode_len();
    if n == 0 || n > 100 {
        return Err(AppError::BadSessionID);
    }
    match state.find_session(session) {
        None => Err(AppError::SessionIDDoesNotExist),
        Some(i) => {
            proof {
                lemma_session_map_index(state.sessions@, i as int);
            }
            Ok(state.sessions[i].1.page_signal.current_generation())
        },
    }
}

/// After a wait, tells whether the page channel fired since `generation`
/// was captured: true exactly when the session's generation moved on. Fails
/// on a malformed name, or when the session has gone away meanwhile.
pub fn wait_for_page_check(state: &State, session: &str, generation: u64) -> (r: Result<
    bool,
    AppError,
>)
    requires
        state.wf(),
    ensures
        !valid_session_id(session@) ==> r == Err::<bool, AppError>(AppError::BadSessionID),
        valid_session_id(session@) && !state@.contains_key(session@) ==> r == Err::<bool, AppError>(
            AppError::SessionIDDoesNotExist,
        ),
        valid_session_id(session@) && state@.contains_key(session@) ==> r == Ok::<bool, AppError>(
            state@[session@].page_generation != generation as nat,
        ),
{
    let n = session.unicode_len();
    if n == 0 || n > 100 {
        return Err(AppError::BadSessionID);
    }
    match state.find_session(session) {
        None => Err(AppError::SessionIDDoesNotExist),
        Some(i) => {
            proof {
                lemma_session_map_index(state.sessions@, i as int);
            }
            Ok(state.sessions[i].1.page_signal.current_generation() != generation)
        },
    }
}

} // verus!
