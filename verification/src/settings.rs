//! Runtime configuration. Read once at startup and passed by reference;
//! none of it changes behaviour beyond the numbers themselves.
//!
//! Durations are millisecond counts, sizes are byte counts.

use vstd::prelude::*;

verus! {

/// The knobs of the broker: ownership and idle timeouts, long-poll windows,
/// payload ceilings, the eviction cadence and its memory ceiling, and the
/// base URL the process advertises.
#[derive(Debug, Clone)]
pub struct Settings {
    /// How long a silent owner keeps its session before another token may
    /// take it over, in milliseconds.
    pub token_timeout: u64,
    /// How long a response poll may wait for news, in milliseconds; zero
    /// disables waiting.
    pub response_long_poll_duration: u64,
    /// How long a page poll may wait for a replacement, in milliseconds.
    pub page_update_long_poll_duration: u64,
    /// Largest accepted response body, in bytes.
    pub max_response_size: u64,
    /// Largest accepted page body, in bytes.
    pub max_page_size: u64,
    /// How often the eviction sweep runs, in milliseconds.
    pub cleanup_interval: u64,
    /// How long an idle session stays alive, in milliseconds.
    pub session_keep_alive_duration: u64,
    /// The memory ceiling the eviction sweep defends, in bytes.
    pub max_memory_usage: u64,
    /// The base URL of this process.
    pub root_url: String,
}

impl Settings {
    /// The stock configuration: one-day ownership and keep-alive windows,
    /// five-second response polls, thirty-second page polls, a 1 MB page
    /// ceiling, a 4 kB response ceiling, a three-second sweep cadence and a
    /// 500 MB memory ceiling.
    pub fn default(root_url: String) -> (s: Settings)
        ensures
            s.token_timeout == 86_400_000u64,
            s.response_long_poll_duration == 5_000u64,
            s.page_update_long_poll_duration == 30_000u64,
            s.max_response_size == 4_000u64,
            s.max_page_size == 1_000_000u64,
            s.cleanup_interval == 3_000u64,
            s.session_keep_alive_duration == 86_400_000u64,
            s.max_memory_usage == 500_000_000u64,
            s.root_url@ == root_url@,
    {
        Settings {
            token_timeout: 86_400_000,
            response_long_poll_duration: 5_000,
            page_update_long_poll_duration: 30_000,
            max_response_size: 4_000,
            max_page_size: 1_000_000,
            cleanup_interval: 3_000,
            session_keep_alive_duration: 86_400_000,
            max_memory_usage: 500_000_000,
            root_url,
        }
    }
}

} // verus!
