//! Submitting a response into a session's ledger.

use vstd::prelude::*;

use crate::errors::AppError;
use crate::session_id::valid_session_id;
use crate::settings::Settings;
use crate::signal::next_generation;
use crate::state::{
    find_response, lemma_response_map_push, lemma_response_map_update, lemma_session_map_index,
    lemma_session_map_update, ResponseView, SessionView, State, UserResponse,
};
use crate::text::byte_len;
use crate::user_id::{valid_user_id, UserID};

verus! {

/// The session after accepting `data` from `user` at `now`: the entry under
/// `user` is replaced, the fresh entry takes the next sequence number and
/// starts undelivered, the counter advances by one, activity is refreshed,
/// and the response channel fires.
pub open spec fn submitted_session_view(
    s: SessionView,
    user: Seq<char>,
    data: Seq<char>,
    now: nat,
) -> SessionView {
    SessionView {
        responses: s.responses.insert(
            user,
            ResponseView { data: data, id: s.next_response_id, was_received: false, time: now },
        ),
        next_response_id: s.next_response_id + 1,
        last_request: now,
        response_generation: next_generation(s.response_generation),
        ..s
    }
}

/// Accepts `response_data` as the response of `user` within the session
/// named `session`.
///
/// The names must be well-formed and the body under the configured ceiling;
/// the session must be live. A user's new response overwrites its previous
/// one, but every accepted response advances the session's sequence counter,
/// so the counter never moves backwards — on an error it does not move at
/// all. In the one unreachable corner where the counter has exhausted its
/// range the submission is turned away as a server error rather than
/// wrapping.
pub fn submit_response(
    state: &mut State,
    session: &str,
    user: &str,
    response_data: String,
    now: u64,
    settings: &Settings,
) -> (r: Result<(), AppError>)
    requires
        old(state).wf(),
        byte_len(user@) <= usize::MAX,
        byte_len(response_data@) <= usize::MAX,
    ensures
        final(state).wf(),
        !valid_session_id(session@) ==> r == Err::<(), AppError>(AppError::BadSessionID)
            && final(state)@ == old(state)@,
        valid_session_id(session@) && !valid_user_id(user@) ==> r == Err::<(), AppError>(
            AppError::BadUserID,
        ) && final(state)@ == old(state)@,
        valid_session_id(session@) && valid_user_id(user@) && byte_len(response_data@)
            > settings.max_response_size ==> r == Err::<(), AppError>(AppError::ResponseTooLarge)
            && final(state)@ == old(state)@,
        valid_session_id(session@) && valid_user_id(user@) && byte_len(response_data@)
            <= settings.max_response_size && !old(state)@.contains_key(session@) ==> r
            == Err::<(), AppError>(AppError::SessionIDDoesNotExist) && final(state)@
            == old(state)@,
        valid_session_id(session@) && valid_user_id(user@) && byte_len(response_data@)
            <= settings.max_response_size && old(state)@.contains_key(session@)
            && old(state)@[session@].next_response_id == usize::MAX ==> r == Err::<(), AppError>(
            AppError::ServerError,
        ) && final(state)@ == old(state)@,
        valid_session_id(session@) && valid_user_id(user@) && byte_len(response_data@)
            <= settings.max_response_size && old(state)@.contains_key(session@)
            && old(state)@[session@].next_response_id < usize::MAX ==> r == Ok::<(), AppError>(())
            && final(state)@ == old(state)@.insert(
            session@,
            submitted_session_view(old(state)@[session@], user@, response_data@, now as nat),
        ),
        final(state)@.contains_key(session@) && old(state)@.contains_key(session@)
            ==> final(state)@[session@].next_response_id
            >= old(state)@[session@].next_response_id,
{
    let n = session.unicode_len();
    if n == 0 || n > 100 {
        return Err(AppError::BadSessionID);
    }
    let user_id = match UserID::from_string(user) {
        Ok(u) => u,
        Err(e) => {
            return Err(e);
        },
    };
    let data_bytes = crate::text::str_byte_len(response_data.as_str());
    if data_bytes as u64 > settings.max_response_size {
        return Err(AppError::ResponseTooLarge);
    }
    let ghost s0 = state.sessions@;
    match state.find_session(session) {
        None => Err(AppError::SessionIDDoesNotExist),
        Some(i) => {
            proof {
                lemma_session_map_index(s0, i as int);
            }
            let mut pair = state.sessions.remove(i);
            if pair.1.next_response_id == usize::MAX {
                state.sessions.insert(i, pair);
                proof {
                    assert(state.sessions@ =~= s0);
                }
                return Err(AppError::ServerError);
            }
            let response_id = pair.1.next_response_id;
            pair.1.next_response_id = response_id + 1;
            let entry = UserResponse {
                data: response_data,
                id: response_id,
                was_received: false,
                time: now,
            };
            let ghost r0 = pair.1.responses@;
            match find_response(&pair.1.responses, user) {
                Some(j) => {
                    let mut slot = pair.1.responses.remove(j);
                    slot.1 = entry;
                    pair.1.responses.insert(j, slot);
                    proof {
                        assert(pair.1.responses@ =~= r0.update(
                            j as int,
                            pair.1.responses@[j as int],
                        ));
                        lemma_response_map_update(r0, j as int, pair.1.responses@[j as int]);
                    }
                },
                None => {
                    pair.1.responses.push((user_id, entry));
                    proof {
                        crate::state::lemma_response_map_contains(r0, user@);
                        lemma_response_map_push(r0, pair.1.responses@.last());
                        assert(pair.1.responses@.drop_last() =~= r0);
                    }
                },
            }
            pair.1.last_request = now;
            pair.1.response_signal.notify();
            state.sessions.insert(i, pair);
            proof {
                assert(state.sessions@ =~= s0.update(i as int, state.sessions@[i as int]));
                assert(state.sessions@[i as int].1@.responses =~= submitted_session_view(
                    s0[i as int].1@,
                    user@,
                    response_data@,
                    now as nat,
                ).responses);
                assert(state.sessions@[i as int].1@ == submitted_session_view(
                    s0[i as int].1@,
                    user@,
                    response_data@,
                    now as nat,
                ));
                lemma_session_map_update(s0, i as int, state.sessions@[i as int]);
            }
            Ok(())
        },
    }
}

} // verus!
