//! End-to-end scenarios against the store, mirroring how the HTTP layer
//! drives it.

use polli_live::{
    collect_responses, get_page, set_page, submit_response, AppError, SetPageOutcome, Settings,
    State,
};

fn settings() -> Settings {
    Settings::default("http://127.0.0.1:9000".to_string())
}

#[test]
fn static_index_page() {
    let content = polli_live::static_files::get("index.html").expect("valid");
    assert!(content.contains("<html>"));
    assert!(polli_live::static_files::get("missing.html").is_err());
}

#[test]
fn not_found_session_page() {
    let mut state = State::new();
    let r = get_page(&mut state, "1", 0);
    assert_eq!(r, Err(AppError::SessionIDDoesNotExist));
    assert_eq!(AppError::SessionIDDoesNotExist.status_code(), 404);
}

#[test]
fn unknown_session_is_not_found() {
    let mut state = State::new();
    let r = get_page(&mut state, "zz", 0);
    assert_eq!(r, Err(AppError::SessionIDDoesNotExist));
}

#[test]
fn set_page_without_token() {
    // A request with no credential at all is turned away by the HTTP
    // layer's extractor with 401 before it reaches the store; an empty
    // token handed to the store itself is a format error, the caller's
    // fault, and maps to 400.
    let mut state = State::new();
    let r = set_page(&mut state, "1", "", "test".to_string(), true, 0, &settings());
    assert_eq!(r, Err(AppError::MalformedAccessToken));
    assert_eq!(AppError::MalformedAccessToken.status_code(), 400);
    // Nothing was stored.
    assert_eq!(get_page(&mut state, "1", 0), Err(AppError::SessionIDDoesNotExist));
}

#[test]
fn set_page_and_request() {
    let mut state = State::new();
    let page = "my test page";
    let r = set_page(&mut state, "1", "my-test-token", page.to_string(), true, 0, &settings());
    assert_eq!(r, Ok(SetPageOutcome::Created));
    let got = get_page(&mut state, "1", 1).expect("page must be there");
    assert_eq!(got, page);
}

#[test]
fn set_page_twice_with_same_token() {
    let mut state = State::new();
    let session = "a";
    let token = "my-test-token";
    let page_1 = "page one";
    let page_2 = "page two";

    let r = set_page(&mut state, session, token, page_1.to_string(), true, 0, &settings());
    assert_eq!(r, Ok(SetPageOutcome::Created));
    assert_eq!(get_page(&mut state, session, 1).expect(""), page_1);

    let r = set_page(&mut state, session, token, page_2.to_string(), true, 2, &settings());
    assert_eq!(r, Ok(SetPageOutcome::Updated));
    assert_eq!(get_page(&mut state, session, 3).expect(""), page_2);
}

#[test]
fn try_update_page_with_other_token() {
    let mut state = State::new();
    let session = "b";
    let token_1 = "my-first-token";
    let token_2 = "my-second-token";
    let page_1 = "page 1";
    let page_2 = "page 2";

    let r = set_page(&mut state, session, token_1, page_1.to_string(), true, 0, &settings());
    assert_eq!(r, Ok(SetPageOutcome::Created));
    assert_eq!(get_page(&mut state, session, 1).expect(""), page_1);

    let r = set_page(&mut state, session, token_2, page_2.to_string(), true, 2, &settings());
    assert_eq!(r, Err(AppError::BadAccessToken));
    assert_eq!(AppError::BadAccessToken.status_code(), 401);
    assert_eq!(get_page(&mut state, session, 3).expect(""), page_1);
}

#[test]
fn single_response() {
    let mut state = State::new();
    let session = "c";
    let token = "my-test-token";
    let page = "test page";
    let user = "me";
    let response_data = "42";

    let r = set_page(&mut state, session, token, page.to_string(), true, 0, &settings());
    assert_eq!(r, Ok(SetPageOutcome::Created));
    assert_eq!(get_page(&mut state, session, 1).expect(""), page);

    let r = submit_response(&mut state, session, user, response_data.to_string(), 2, &settings());
    assert_eq!(r, Ok(()));

    let result = collect_responses(&mut state, session, 0, 3).expect("session is live");
    assert_eq!(result.next_start, 1);
    assert_eq!(result.responses_by_user.len(), 1);
    assert_eq!(result.get(user).expect(""), response_data);
}

#[test]
fn ownership_takeover_after_grace_window() {
    let mut state = State::new();
    let settings = settings();
    let session = "shared";
    let r = set_page(&mut state, session, "first-owner-token", "old page".to_string(), true, 0, &settings);
    assert_eq!(r, Ok(SetPageOutcome::Created));

    // Exactly at the end of the window the write is still rejected, and a
    // rejected write leaves the record untouched (the activity clock
    // included).
    let at_window = settings.token_timeout;
    let r = set_page(&mut state, session, "second-own-token", "new page".to_string(), true, at_window, &settings);
    assert_eq!(r, Err(AppError::BadAccessToken));

    // One millisecond later the session is taken over wholesale.
    let past_window = settings.token_timeout + 1;
    let r = set_page(&mut state, session, "second-own-token", "new page".to_string(), true, past_window, &settings);
    assert_eq!(r, Ok(SetPageOutcome::Replaced));
    assert_eq!(get_page(&mut state, session, past_window).expect(""), "new page");
}

#[test]
fn takeover_clears_responses() {
    let mut state = State::new();
    let settings = settings();
    set_page(&mut state, "s", "first-owner-token", "p1".to_string(), true, 0, &settings).expect("");
    submit_response(&mut state, "s", "u", "data".to_string(), 1, &settings).expect("");
    let past = settings.token_timeout + 2;
    set_page(&mut state, "s", "second-own-token", "p2".to_string(), true, past, &settings).expect("");
    let result = collect_responses(&mut state, "s", 0, past).expect("");
    assert_eq!(result.next_start, 0);
    assert_eq!(result.responses_by_user.len(), 0);
}

#[test]
fn update_in_place_clears_responses_but_keeps_counter() {
    let mut state = State::new();
    let settings = settings();
    set_page(&mut state, "s", "my-test-token", "p1".to_string(), true, 0, &settings).expect("");
    submit_response(&mut state, "s", "u", "data".to_string(), 1, &settings).expect("");
    set_page(&mut state, "s", "my-test-token", "p2".to_string(), true, 2, &settings).expect("");
    let result = collect_responses(&mut state, "s", 0, 3).expect("");
    // The ledger is empty but the sequence counter did not move backwards.
    assert_eq!(result.responses_by_user.len(), 0);
    assert_eq!(result.next_start, 1);
}
