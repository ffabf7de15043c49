//! Identifier and token validation, error statuses, and payload ceilings.

use polli_live::{
    get_page, set_page, AccessToken, AppError, SessionID, Settings, State, UserID,
};

fn settings() -> Settings {
    Settings::default("http://127.0.0.1:9000".to_string())
}

#[test]
fn session_id_bounds() {
    assert!(SessionID::from_string("").is_err());
    assert_eq!(SessionID::from_string("").err(), Some(AppError::BadSessionID));
    assert_eq!(SessionID::from_string("x").expect("").0, "x");
    let hundred = "s".repeat(100);
    assert_eq!(SessionID::from_string(&hundred).expect("").0, hundred);
    assert!(SessionID::from_string(&"s".repeat(101)).is_err());
}

#[test]
fn user_id_bounds() {
    assert_eq!(UserID::from_string("").err(), Some(AppError::BadUserID));
    assert_eq!(UserID::from_string("me").expect("").0, "me");
    assert!(UserID::from_string(&"u".repeat(100)).is_ok());
    assert!(UserID::from_string(&"u".repeat(101)).is_err());
}

#[test]
fn access_token_bounds() {
    assert_eq!(AccessToken::from_string("short-tok").err(), Some(AppError::MalformedAccessToken));
    assert_eq!(AccessToken::from_string("ten-chars!").expect("").0, "ten-chars!");
    assert!(AccessToken::from_string(&"t".repeat(100)).is_ok());
    assert!(AccessToken::from_string(&"t".repeat(101)).is_err());
}

#[test]
fn identifier_lengths_count_characters_not_bytes() {
    // 100 two-byte characters: 200 bytes, but within the 100-character cap.
    let two_byte = "é".repeat(100);
    assert!(two_byte.len() == 200);
    assert!(SessionID::from_string(&two_byte).is_ok());
}

#[test]
fn status_codes_match_the_error_taxonomy() {
    assert_eq!(AppError::BadUserID.status_code(), 400);
    assert_eq!(AppError::BadSessionID.status_code(), 400);
    // A malformed token is the caller's validation error; only holding the
    // wrong token while the owner is active is an authorization conflict.
    assert_eq!(AppError::MalformedAccessToken.status_code(), 400);
    assert_eq!(AppError::BadAccessToken.status_code(), 401);
    assert_eq!(AppError::SessionIDDoesNotExist.status_code(), 404);
    assert_eq!(AppError::PageTooLarge.status_code(), 413);
    assert_eq!(AppError::ResponseTooLarge.status_code(), 413);
    assert_eq!(AppError::ServerError.status_code(), 500);
}

#[test]
fn error_messages_name_the_error() {
    assert_eq!(AppError::BadUserID.message(), "BadUserID");
    assert_eq!(AppError::BadSessionID.message(), "BadSessionID");
    assert_eq!(AppError::MalformedAccessToken.message(), "MalformedAccessToken");
    assert_eq!(AppError::BadAccessToken.message(), "BadAccessToken");
    assert_eq!(AppError::SessionIDDoesNotExist.message(), "SessionIDDoesNotExist");
    assert_eq!(AppError::PageTooLarge.message(), "PageTooLarge");
    assert_eq!(AppError::ResponseTooLarge.message(), "ResponseTooLarge");
    assert_eq!(AppError::ServerError.message(), "ServerError");
}

#[test]
fn page_size_ceiling_is_inclusive() {
    let mut state = State::new();
    let settings = settings();
    let exactly = "x".repeat(1_000_000);
    assert!(set_page(&mut state, "s", "host-token-1", exactly, true, 0, &settings).is_ok());
    let too_big = "x".repeat(1_000_001);
    assert_eq!(
        set_page(&mut state, "s", "host-token-1", too_big, true, 1, &settings),
        Err(AppError::PageTooLarge)
    );
    // The rejected write changed nothing.
    assert_eq!(get_page(&mut state, "s", 2).expect("").len(), 1_000_000);
}

#[test]
fn validation_order_checks_token_before_session() {
    let mut state = State::new();
    let r = set_page(&mut state, "", "bad", "p".to_string(), true, 0, &settings());
    assert_eq!(r, Err(AppError::MalformedAccessToken));
    let r = set_page(&mut state, "", "long-enough-token", "p".to_string(), true, 0, &settings());
    assert_eq!(r, Err(AppError::BadSessionID));
}

#[test]
fn default_state_is_empty() {
    let mut state = State::default();
    assert_eq!(get_page(&mut state, "anything", 0), Err(AppError::SessionIDDoesNotExist));
}

#[test]
fn default_settings_hold_the_stock_values() {
    let s = settings();
    assert_eq!(s.token_timeout, 86_400_000);
    assert_eq!(s.response_long_poll_duration, 5_000);
    assert_eq!(s.page_update_long_poll_duration, 30_000);
    assert_eq!(s.max_response_size, 4_000);
    assert_eq!(s.max_page_size, 1_000_000);
    assert_eq!(s.cleanup_interval, 3_000);
    assert_eq!(s.session_keep_alive_duration, 86_400_000);
    assert_eq!(s.max_memory_usage, 500_000_000);
    assert_eq!(s.root_url, "http://127.0.0.1:9000");
}
