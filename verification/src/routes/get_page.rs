//! Reading the page a session currently shares.

use vstd::prelude::*;

use crate::errors::AppError;
use crate::routes::set_page::{set_page_rejects, set_page_result};
use crate::session_id::valid_session_id;
use crate::state::{lemma_session_map_index, lemma_session_map_update, SessionView, State};

verus! {

/// The page a reader of `sid` sees in store `m`, if the session is live.
pub open spec fn page_of(m: Map<Seq<char>, SessionView>, sid: Seq<char>) -> Option<Seq<char>> {
    if m.contains_key(sid) {
        Option::Some(m[sid].page)
    } else {
        Option::None
    }
}

/// Returns the current page of the session named `session` and refreshes
/// the session's activity time; viewing counts as touching. Fails on a
/// malformed name or an unknown session, leaving the store as it was.
pub fn get_page(state: &mut State, session: &str, now: u64) -> (r: Result<String, AppError>)
    requires
        old(state).wf(),
    ensures
        final(state).wf(),
        !valid_session_id(session@) ==> r == Err::<String, AppError>(AppError::BadSessionID)
            && final(state)@ == old(state)@,
        valid_session_id(session@) && !old(state)@.contains_key(session@) ==> r == Err::<
            String,
            AppError,
        >(AppError::SessionIDDoesNotExist) && final(state)@ == old(state)@,
        valid_session_id(session@) && old(state)@.contains_key(session@) ==> {
            &&& r is Ok
            &&& r->Ok_0@ == old(state)@[session@].page
            &&& final(state)@ == old(state)@.insert(
                session@,
                (SessionView { last_request: now as nat, ..old(state)@[session@] }),
            )
        },
{
    let n = session.unicode_len();
    if n == 0 || n > 100 {
        return Err(AppError::BadSessionID);
    }
    let ghost s0 = state.sessions@;
    match state.find_session(session) {
        None => Err(AppError::SessionIDDoesNotExist),
        Some(i) => {
            proof {
                lemma_session_map_index(s0, i as int);
            }
            let mut pair = state.sessions.remove(i);
            let page = pair.1.page.clone();
            pair.1.session_used(now);
            state.sessions.insert(i, pair);
            proof {
                assert(state.sessions@ =~= s0.update(i as int, state.sessions@[i as int]));
                lemma_session_map_update(s0, i as int, state.sessions@[i as int]);
            }
            Ok(page)
        },
    }
}

/// The page round trip: a write that the ownership protocol lets through,
/// followed by a read of the same session with nothing in between, hands
/// back exactly the page that was written.
pub proof fn lemma_page_round_trip(
    m: Map<Seq<char>, SessionView>,
    sid: Seq<char>,
    token: Seq<char>,
    page: Seq<char>,
    notify: bool,
    now: nat,
    token_timeout: nat,
)
    requires
        !set_page_rejects(m, sid, token, now, token_timeout),
    ensures
        page_of(m.insert(sid, set_page_result(m, sid, token, page, notify, now)), sid)
            == Option::Some(page),
{
}

} // verus!
