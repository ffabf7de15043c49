//! Publishing a page into a session: the single-writer ownership protocol.

use vstd::prelude::*;

use crate::access_token::{valid_access_token, AccessToken};
use crate::errors::AppError;
use crate::session_id::{valid_session_id, SessionID};
use crate::settings::Settings;
use crate::signal::next_generation;
use crate::state::{
    fresh_session_view, lemma_session_map_contains, lemma_session_map_index,
    lemma_session_map_push, lemma_session_map_update, SessionState, SessionView, State,
};
use crate::text::byte_len;

verus! {

/// What a successful page write did to the store.
#[derive(Debug, Clone, Copy, PartialEq, Eq, Structural)]
pub enum SetPageOutcome {
    /// The session did not exist and was created. Nobody can have been
    /// waiting on it, so no wake channel fired.
    Created,
    /// The caller owns the session and the page was replaced in place; the
    /// page channel fired exactly when the caller asked for that.
    Updated,
    /// The previous owner was silent past its grace window and the whole
    /// record was replaced, wake channels included.
    Replaced,
}

/// Whether a write by `token` must be turned away: the session exists, a
/// different token owns it, and the owner has not yet been silent longer
/// than the grace window.
pub open spec fn set_page_rejects(
    m: Map<Seq<char>, SessionView>,
    sid: Seq<char>,
    token: Seq<char>,
    now: nat,
    token_timeout: nat,
) -> bool {
    &&& m.contains_key(sid)
    &&& m[sid].token != token
    &&& now <= m[sid].last_request + token_timeout
}

/// An in-place page replacement by the owner: new page, cleared ledger,
/// refreshed activity; the page channel fires when `notify` asks for it.
pub open spec fn updated_session_view(
    s: SessionView,
    page: Seq<char>,
    notify: bool,
    now: nat,
) -> SessionView {
    SessionView {
        page: page,
        responses: Map::empty(),
        last_request: now,
        page_generation: if notify {
            next_generation(s.page_generation)
        } else {
            s.page_generation
        },
        ..s
    }
}

/// The record a successful, not-rejected write leaves under `sid`: an
/// in-place update when the caller already owns the session, a fresh record
/// otherwise (creation and takeover alike).
pub open spec fn set_page_result(
    m: Map<Seq<char>, SessionView>,
    sid: Seq<char>,
    token: Seq<char>,
    page: Seq<char>,
    notify: bool,
    now: nat,
) -> SessionView {
    if m.contains_key(sid) && m[sid].token == token {
        updated_session_view(m[sid], page, notify, now)
    } else {
        fresh_session_view(token, page, now)
    }
}

/// Which of the three successful outcomes a not-rejected write reports.
pub open spec fn set_page_outcome(
    m: Map<Seq<char>, SessionView>,
    sid: Seq<char>,
    token: Seq<char>,
) -> SetPageOutcome {
    if !m.contains_key(sid) {
        SetPageOutcome::Created
    } else if m[sid].token == token {
        SetPageOutcome::Updated
    } else {
        SetPageOutcome::Replaced
    }
}

/// The ownership window: after one writer's successful write at time `w`,
/// a write by any other token is rejected as an authorization conflict
/// exactly as long as no more than the grace window has passed since `w` —
/// and is let through, replacing the session, as soon as it has.
pub proof fn lemma_ownership_window(
    m: Map<Seq<char>, SessionView>,
    sid: Seq<char>,
    owner_token: Seq<char>,
    page: Seq<char>,
    notify: bool,
    w: nat,
    other_token: Seq<char>,
    now: nat,
    token_timeout: nat,
)
    requires
        owner_token != other_token,
        !set_page_rejects(m, sid, owner_token, w, token_timeout),
    ensures
        ({
            let m1 = m.insert(sid, set_page_result(m, sid, owner_token, page, notify, w));
            set_page_rejects(m1, sid, other_token, now, token_timeout) <==> now <= w
                + token_timeout
        }),
{
}

/// Publishes `page` into the session named `session`, enforcing ownership.
///
/// The caller's token must be well-formed, the session name valid and the
/// page under the configured ceiling; a malformed token is a validation
/// error, not an authorization conflict. Then: an unknown session is created
/// and owned by the caller; a session owned by the caller is updated in
/// place; a session owned by someone else is rejected with an authorization
/// error while its owner's grace window is open, and replaced wholesale once
/// that window has passed. `notify` chooses whether an in-place update fires
/// the page channel; bootstrap priming writes pass `false`.
pub fn set_page(
    state: &mut State,
    session: &str,
    token: &str,
    page: String,
    notify: bool,
    now: u64,
    settings: &Settings,
) -> (r: Result<SetPageOutcome, AppError>)
    requires
        old(state).wf(),
        byte_len(session@) <= usize::MAX,
        byte_len(token@) <= usize::MAX,
        byte_len(page@) <= usize::MAX,
    ensures
        final(state).wf(),
        !valid_access_token(token@) ==> r == Err::<SetPageOutcome, AppError>(
            AppError::MalformedAccessToken,
        ) && final(state)@ == old(state)@,
        valid_access_token(token@) && !valid_session_id(session@) ==> r == Err::<
            SetPageOutcome,
            AppError,
        >(AppError::BadSessionID) && final(state)@ == old(state)@,
        valid_access_token(token@) && valid_session_id(session@) && byte_len(page@)
            > settings.max_page_size ==> r == Err::<SetPageOutcome, AppError>(
            AppError::PageTooLarge,
        ) && final(state)@ == old(state)@,
        valid_access_token(token@) && valid_session_id(session@) && byte_len(page@)
            <= settings.max_page_size && set_page_rejects(
            old(state)@,
            session@,
            token@,
            now as nat,
            settings.token_timeout as nat,
        ) ==> r == Err::<SetPageOutcome, AppError>(AppError::BadAccessToken) && final(state)@
            == old(state)@,
        valid_access_token(token@) && valid_session_id(session@) && byte_len(page@)
            <= settings.max_page_size && !set_page_rejects(
            old(state)@,
            session@,
            token@,
            now as nat,
            settings.token_timeout as nat,
        ) ==> r == Ok::<SetPageOutcome, AppError>(
            set_page_outcome(old(state)@, session@, token@),
        ) && final(state)@ == old(state)@.insert(
            session@,
            set_page_result(old(state)@, session@, token@, page@, notify, now as nat),
        ),
{
    let access_token = match AccessToken::from_string(token) {
        Ok(t) => t,
        Err(e) => {
            return Err(e);
        },
    };
    let session_id = match SessionID::from_string(session) {
        Ok(s) => s,
        Err(e) => {
            return Err(e);
        },
    };
    let page_bytes = crate::text::str_byte_len(page.as_str());
    if page_bytes as u64 > settings.max_page_size {
        return Err(AppError::PageTooLarge);
    }
    let ghost s0 = state.sessions@;
    match state.find_session(session) {
        None => {
            let sess = SessionState::new(access_token, page, now);
            state.sessions.push((session_id, sess));
            proof {
                lemma_session_map_contains(s0, session@);
                lemma_session_map_push(s0, state.sessions@.last());
                assert(forall|j: int| 0 <= j < s0.len() ==> s0[j].0@ != session@);
                assert(state.sessions@.drop_last() =~= s0);
                assert(crate::state::distinct_session_keys(state.sessions@));
            }
            Ok(SetPageOutcome::Created)
        },
        Some(i) => {
            proof {
                lemma_session_map_index(s0, i as int);
            }
            let mut pair = state.sessions.remove(i);
            if crate::text::str_eq(pair.1.access_token.0.as_str(), token) {
                pair.1.update(page, now);
                if notify {
                    pair.1.page_signal.notify();
                }
                state.sessions.insert(i, pair);
                proof {
                    assert(state.sessions@ =~= s0.update(
                        i as int,
                        state.sessions@[i as int],
                    ));
                    lemma_session_map_update(s0, i as int, state.sessions@[i as int]);
                }
                Ok(SetPageOutcome::Updated)
            } else {
                let within_window = (now as u128) <= (pair.1.last_request as u128)
                    + (settings.token_timeout as u128);
                if within_window {
                    state.sessions.insert(i, pair);
                    proof {
                        assert(state.sessions@ =~= s0);
                    }
                    Err(AppError::BadAccessToken)
                } else {
                    let sess = SessionState::new(access_token, page, now);
                    let session_key = pair.0;
                    state.sessions.insert(i, (session_key, sess));
                    proof {
                        assert(state.sessions@ =~= s0.update(
                            i as int,
                            state.sessions@[i as int],
                        ));
                        lemma_session_map_update(s0, i as int, state.sessions@[i as int]);
                    }
                    Ok(SetPageOutcome::Replaced)
                }
            }
        },
    }
}

} // verus!
