//! The response ledger: sequence numbers, cursors and delivery marking.

use polli_live::{
    collect_responses, poll_responses_prepare, set_page, submit_response, AppError, Settings,
    State,
};

fn settings() -> Settings {
    Settings::default("http://127.0.0.1:9000".to_string())
}

fn fresh_session(state: &mut State, session: &str) {
    set_page(state, session, "host-token-1", "page".to_string(), true, 0, &settings()).expect("");
}

#[test]
fn sequence_numbers_advance_once_per_accepted_response() {
    let mut state = State::new();
    let settings = settings();
    fresh_session(&mut state, "s");
    submit_response(&mut state, "s", "alice", "a1".to_string(), 1, &settings).expect("");
    submit_response(&mut state, "s", "bob", "b1".to_string(), 2, &settings).expect("");
    // A repeat submission by the same user still advances the counter.
    submit_response(&mut state, "s", "alice", "a2".to_string(), 3, &settings).expect("");
    let result = collect_responses(&mut state, "s", 0, 4).expect("");
    assert_eq!(result.next_start, 3);
    // One slot per user, holding the latest text.
    assert_eq!(result.responses_by_user.len(), 2);
    assert_eq!(result.get("alice").expect(""), "a2");
    assert_eq!(result.get("bob").expect(""), "b1");
    assert!(result.get("carol").is_none());
}

#[test]
fn counter_never_decreases_across_submissions_and_errors() {
    let mut state = State::new();
    let settings = settings();
    fresh_session(&mut state, "s");
    let mut last = 0;
    for i in 0..5 {
        submit_response(&mut state, "s", "u", format!("r{}", i), i as u64, &settings).expect("");
        let next = collect_responses(&mut state, "s", 1_000_000, 10).expect("").next_start;
        assert!(next >= last);
        last = next;
    }
    // A rejected submission leaves the counter alone.
    let oversized = "x".repeat(4_001);
    let r = submit_response(&mut state, "s", "u", oversized, 20, &settings);
    assert_eq!(r, Err(AppError::ResponseTooLarge));
    assert_eq!(collect_responses(&mut state, "s", 1_000_000, 21).expect("").next_start, last);
}

#[test]
fn cursor_filters_and_resumes() {
    let mut state = State::new();
    let settings = settings();
    fresh_session(&mut state, "s");
    submit_response(&mut state, "s", "u1", "first".to_string(), 1, &settings).expect("");
    submit_response(&mut state, "s", "u2", "second".to_string(), 2, &settings).expect("");

    // A cursor past the first entry returns only the second.
    let result = collect_responses(&mut state, "s", 1, 3).expect("");
    assert_eq!(result.next_start, 2);
    assert_eq!(result.responses_by_user.len(), 1);
    assert!(result.get("u1").is_none());
    assert_eq!(result.get("u2").expect(""), "second");

    // Resuming from next_start returns nothing new.
    let result = collect_responses(&mut state, "s", 2, 4).expect("");
    assert_eq!(result.responses_by_user.len(), 0);
    assert_eq!(result.next_start, 2);
}

#[test]
fn responses_for_unknown_session_or_user() {
    let mut state = State::new();
    let settings = settings();
    let r = submit_response(&mut state, "nope", "u", "data".to_string(), 0, &settings);
    assert_eq!(r, Err(AppError::SessionIDDoesNotExist));
    fresh_session(&mut state, "s");
    let r = submit_response(&mut state, "s", "", "data".to_string(), 1, &settings);
    assert_eq!(r, Err(AppError::BadUserID));
    let r = collect_responses(&mut state, "gone", 0, 2);
    assert_eq!(r.err(), Some(AppError::SessionIDDoesNotExist));
}

#[test]
fn response_size_ceiling_is_inclusive() {
    let mut state = State::new();
    let settings = settings();
    fresh_session(&mut state, "s");
    let exactly = "x".repeat(4_000);
    assert_eq!(submit_response(&mut state, "s", "u", exactly, 1, &settings), Ok(()));
    let too_big = "x".repeat(4_001);
    assert_eq!(
        submit_response(&mut state, "s", "u", too_big, 2, &settings),
        Err(AppError::ResponseTooLarge)
    );
}

#[test]
fn poll_prepare_decides_waiting() {
    let mut state = State::new();
    let mut settings = settings();
    fresh_session(&mut state, "s");

    // Nothing submitted yet: a cursor at zero has seen everything, so wait.
    let (should_wait, _) = poll_responses_prepare(&state, "s", 0, &settings).expect("");
    assert!(should_wait);

    submit_response(&mut state, "s", "u", "data".to_string(), 1, &settings).expect("");
    // Fresh data below the cursor: no wait.
    let (should_wait, _) = poll_responses_prepare(&state, "s", 0, &settings).expect("");
    assert!(!should_wait);
    // Cursor has seen it: wait again.
    let (should_wait, _) = poll_responses_prepare(&state, "s", 1, &settings).expect("");
    assert!(should_wait);

    // A zero poll window disables waiting entirely.
    settings.response_long_poll_duration = 0;
    let (should_wait, _) = poll_responses_prepare(&state, "s", 1, &settings).expect("");
    assert!(!should_wait);

    assert!(poll_responses_prepare(&state, "missing", 0, &settings).is_err());
}

#[test]
fn response_signal_fires_on_submission() {
    let mut state = State::new();
    let settings = settings();
    fresh_session(&mut state, "s");
    let (_, generation_before) = poll_responses_prepare(&state, "s", 0, &settings).expect("");
    submit_response(&mut state, "s", "u", "data".to_string(), 1, &settings).expect("");
    let (_, generation_after) = poll_responses_prepare(&state, "s", 0, &settings).expect("");
    assert_ne!(generation_before, generation_after);
}
