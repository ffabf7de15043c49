//! The eviction sweep: idle expiry, delivered-response pruning, the
//! aggressive tier, the memory estimator, and back-to-back idempotence.

use polli_live::{
    cleanup_tick, collect_responses, count_user_memory_usage, drop_received_responses,
    drop_stale_sessions, expire_sessions, get_memory_usage_with_safety_buffer, get_page,
    set_page, submit_response, Settings, State,
};

fn settings() -> Settings {
    Settings::default("http://127.0.0.1:9000".to_string())
}

#[test]
fn idle_sessions_expire() {
    let mut state = State::new();
    let settings = settings();
    set_page(&mut state, "old", "host-token-1", "p".to_string(), true, 0, &settings).expect("");
    set_page(&mut state, "new", "host-token-2", "p".to_string(), true, 50, &settings).expect("");

    let keep = settings.session_keep_alive_duration;
    // At exactly last + keep_alive the session counts as idle and goes.
    expire_sessions(&mut state, keep, keep);
    assert!(get_page(&mut state, "old", keep).is_err());
    assert!(get_page(&mut state, "new", keep).is_ok());
}

#[test]
fn delivered_responses_are_pruned_after_the_grace_window() {
    let mut state = State::new();
    let settings = settings();
    set_page(&mut state, "s", "host-token-1", "p".to_string(), true, 0, &settings).expect("");
    submit_response(&mut state, "s", "u1", "r1".to_string(), 0, &settings).expect("");
    submit_response(&mut state, "s", "u2", "r2".to_string(), 0, &settings).expect("");

    // A poll with a cursor past both marks them delivered without
    // returning them.
    let result = collect_responses(&mut state, "s", 2, 1).expect("");
    assert_eq!(result.responses_by_user.len(), 0);

    // Within the grace window the entries survive pruning ...
    drop_received_responses(&mut state, 29_999);
    let kept = collect_responses(&mut state, "s", 0, 29_999).expect("");
    assert_eq!(kept.responses_by_user.len(), 2);

    // ... and once it has passed, they go.
    drop_received_responses(&mut state, 30_000);
    let gone = collect_responses(&mut state, "s", 0, 30_000).expect("");
    assert_eq!(gone.responses_by_user.len(), 0);
    // The counter is untouched by pruning.
    assert_eq!(gone.next_start, 2);
}

#[test]
fn undelivered_responses_survive_pruning() {
    let mut state = State::new();
    let settings = settings();
    set_page(&mut state, "s", "host-token-1", "p".to_string(), true, 0, &settings).expect("");
    submit_response(&mut state, "s", "u", "r".to_string(), 0, &settings).expect("");
    // Never scanned by a higher cursor, so never delivered: it stays no
    // matter how old it is.
    drop_received_responses(&mut state, 1_000_000);
    let kept = collect_responses(&mut state, "s", 0, 1_000_000).expect("");
    assert_eq!(kept.responses_by_user.len(), 1);
}

#[test]
fn aggressive_tier_keeps_only_the_last_seconds() {
    let mut state = State::new();
    let settings = settings();
    set_page(&mut state, "stale", "host-token-1", "p".to_string(), true, 0, &settings).expect("");
    set_page(&mut state, "live", "host-token-2", "p".to_string(), true, 4_000, &settings)
        .expect("");
    drop_stale_sessions(&mut state, 5_000);
    assert!(get_page(&mut state, "stale", 5_000).is_err());
    assert!(get_page(&mut state, "live", 5_000).is_ok());
}

#[test]
fn estimator_counts_at_least_the_live_bytes() {
    let mut state = State::new();
    let settings = settings();
    set_page(&mut state, "s1", "host-token-1", "hello".to_string(), true, 0, &settings)
        .expect("");
    // Live payload: name 2 + page 5 + token 12 + one session slot of 160;
    // allocated capacity holds at least the one live slot on top.
    let counted = count_user_memory_usage(&state);
    assert!(counted >= 2 + 5 + 12 + 160 + 160);
    let buffered = get_memory_usage_with_safety_buffer(&state);
    assert!(buffered >= 2 * counted || buffered == u64::MAX);
    assert!(buffered >= counted);

    submit_response(&mut state, "s1", "me", "42".to_string(), 1, &settings).expect("");
    let with_response = count_user_memory_usage(&state);
    // The ledger entry adds its texts and at least two response slots (one
    // live, at least one allocated).
    assert!(with_response >= counted + 2 + 2 + 96 + 96);
}

#[test]
fn cleanup_tick_under_the_ceiling_only_expires() {
    let mut state = State::new();
    let settings = settings();
    set_page(&mut state, "s", "host-token-1", "p".to_string(), true, 0, &settings).expect("");
    submit_response(&mut state, "s", "u", "r".to_string(), 1, &settings).expect("");
    // Far below the 500 MB ceiling: nothing but idle expiry happens.
    cleanup_tick(&mut state, 2, &settings);
    assert!(get_page(&mut state, "s", 2).is_ok());
    assert_eq!(collect_responses(&mut state, "s", 0, 3).expect("").responses_by_user.len(), 1);
}

#[test]
fn cleanup_tick_under_pressure_escalates() {
    let mut state = State::new();
    let mut settings = settings();
    // A ceiling of one byte forces every tier.
    settings.max_memory_usage = 1;
    set_page(&mut state, "stale", "host-token-1", "p".to_string(), true, 0, &settings)
        .expect("");
    set_page(&mut state, "live", "host-token-2", "p".to_string(), true, 9_000, &settings)
        .expect("");
    cleanup_tick(&mut state, 10_000, &settings);
    assert!(get_page(&mut state, "stale", 10_000).is_err());
    assert!(get_page(&mut state, "live", 10_000).is_ok());
}

#[test]
fn sweep_twice_changes_nothing_more() {
    let mut state = State::new();
    let mut settings = settings();
    settings.max_memory_usage = 1;
    set_page(&mut state, "a", "host-token-1", "pa".to_string(), true, 0, &settings).expect("");
    set_page(&mut state, "b", "host-token-2", "pb".to_string(), true, 9_500, &settings)
        .expect("");
    submit_response(&mut state, "b", "u", "r".to_string(), 9_600, &settings).expect("");

    cleanup_tick(&mut state, 10_000, &settings);
    let page_a_1 = get_page(&mut state, "a", 10_000);
    let page_b_1 = get_page(&mut state, "b", 10_000);
    let ledger_1 = collect_responses(&mut state, "b", 1_000_000, 10_000)
        .map(|r| (r.next_start, r.responses_by_user.len()));

    // Reading refreshed activity; sweep again at the same instant.
    cleanup_tick(&mut state, 10_000, &settings);
    let page_a_2 = get_page(&mut state, "a", 10_000);
    let page_b_2 = get_page(&mut state, "b", 10_000);
    let ledger_2 = collect_responses(&mut state, "b", 1_000_000, 10_000)
        .map(|r| (r.next_start, r.responses_by_user.len()));

    assert_eq!(page_a_1, page_a_2);
    assert_eq!(page_b_1, page_b_2);
    assert_eq!(ledger_1, ledger_2);
}
