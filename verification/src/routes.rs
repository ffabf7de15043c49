//! The operation behind each endpoint, one module per route. Each function
//! here is the part of a handler that reads or changes the store; waiting,
//! HTTP and serialization happen outside, around these calls.

mod get_page;
mod get_responses;
mod get_wait_for_page;
mod post_init_session;
mod post_respond;
mod set_page;

pub use get_page::{get_page, lemma_page_round_trip, page_of};
pub use get_responses::{
    collect_responses, delivered_marked, fresh_responses, poll_responses_prepare, scanned_entry,
    RetrievedResponses,
};
pub use get_wait_for_page::{wait_for_page_check, wait_for_page_prepare};
pub use post_init_session::{init_session, make_random_access_token, make_random_session_id};
pub use post_respond::{submit_response, submitted_session_view};
pub use set_page::{
    lemma_ownership_window, set_page, set_page_outcome, set_page_rejects, set_page_result, updated_session_view,
    SetPageOutcome,
};
