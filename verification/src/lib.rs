//! In-memory broker for real-time page sharing: one host publishes an HTML
//! page into a named session, anonymous clients poll it and push back small
//! text responses, and the host polls for those responses with a cursor.
//!
//! The library holds the session store and all rules on it: identifier
//! validation, single-writer ownership with timeout-based takeover, the
//! response ledger with its sequence numbers and delivery marks, the tiered
//! eviction sweep, and the bootstrap allocation of fresh session/token pairs.
//! Waiting, HTTP and the clock stay outside; callers pass the current time in
//! as a plain millisecond count.

use vstd::prelude::*;

mod access_token;
mod cleanup;
mod errors;
mod routes;
mod session_id;
mod settings;
mod signal;
mod state;
pub mod static_files;
mod text;
mod user_id;

pub use access_token::AccessToken;
pub use cleanup::{
    cleanup_tick, count_user_memory_usage, drop_received_responses, drop_stale_sessions,
    expire_sessions, get_memory_usage_with_safety_buffer, lemma_sweep_idempotent,
};
pub use errors::AppError;
pub use routes::{
    collect_responses, get_page, init_session, lemma_ownership_window, lemma_page_round_trip, make_random_access_token,
    make_random_session_id, poll_responses_prepare, set_page, submit_response,
    wait_for_page_check, wait_for_page_prepare, RetrievedResponses, SetPageOutcome,
};
pub use session_id::SessionID;
pub use settings::Settings;
pub use signal::Signal;
pub use state::{SessionState, State, UserResponse};
pub use text::{find_subslice, insert_before_marker};
pub use user_id::UserID;
