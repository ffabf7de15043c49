//! Page-wait generations, session bootstrap, and the text splicing used
//! for the head injection.

use polli_live::{
    find_subslice, get_page, init_session, insert_before_marker, make_random_access_token,
    make_random_session_id, set_page, wait_for_page_check, wait_for_page_prepare, AppError,
    Settings, State,
};

fn settings() -> Settings {
    Settings::default("http://127.0.0.1:9000".to_string())
}

#[test]
fn page_wait_sees_notifying_updates_only() {
    let mut state = State::new();
    let settings = settings();
    set_page(&mut state, "s", "host-token-1", "p1".to_string(), true, 0, &settings).expect("");

    let generation = wait_for_page_prepare(&state, "s").expect("");
    // A silent priming write wakes nobody.
    set_page(&mut state, "s", "host-token-1", "p2".to_string(), false, 1, &settings).expect("");
    assert_eq!(wait_for_page_check(&state, "s", generation), Ok(false));
    // A notifying write moves the generation on.
    set_page(&mut state, "s", "host-token-1", "p3".to_string(), true, 2, &settings).expect("");
    assert_eq!(wait_for_page_check(&state, "s", generation), Ok(true));

    assert_eq!(wait_for_page_prepare(&state, "missing"), Err(AppError::SessionIDDoesNotExist));
    assert_eq!(wait_for_page_check(&state, "", 0), Err(AppError::BadSessionID));
}

#[test]
fn bootstrap_allocates_a_claimed_pair() {
    let mut state = State::new();
    let settings = settings();
    let (session, token) = init_session(&mut state, None, 0, &settings).expect("allocation");
    // Six random decimal digits and a 64-digit hex token.
    assert_eq!(session.0.len(), 6);
    assert!(session.0.chars().all(|c| c.is_ascii_digit()));
    assert_eq!(token.0.len(), 64);
    assert!(token.0.chars().all(|c| c.is_ascii_hexdigit()));
    // The session is live and primed with the initial page.
    let page = get_page(&mut state, &session.0, 1).expect("claimed session");
    assert_eq!(page, polli_live::static_files::INITIAL_SESSION_PAGE);
}

#[test]
fn bootstrap_accepts_a_desired_pair() {
    let mut state = State::new();
    let settings = settings();
    let desired = Some(("wanted-name".to_string(), "wanted-token-10".to_string()));
    let (session, token) = init_session(&mut state, desired, 0, &settings).expect("");
    assert_eq!(session.0, "wanted-name");
    assert_eq!(token.0, "wanted-token-10");
    assert!(get_page(&mut state, "wanted-name", 1).is_ok());
}

#[test]
fn bootstrap_retries_past_a_collision() {
    let mut state = State::new();
    let settings = settings();
    set_page(&mut state, "taken", "owner-token-1", "p".to_string(), true, 0, &settings)
        .expect("");
    let desired = Some(("taken".to_string(), "different-token".to_string()));
    let (session, _) = init_session(&mut state, desired, 1, &settings).expect("");
    // The desired name was owned by a live session, so a random one was
    // drawn instead, and the owned session kept its page.
    assert_ne!(session.0, "taken");
    assert_eq!(session.0.len(), 6);
    assert_eq!(get_page(&mut state, "taken", 2).expect(""), "p");
}

#[test]
fn bootstrap_reclaims_with_the_owning_token() {
    let mut state = State::new();
    let settings = settings();
    set_page(&mut state, "mine", "owner-token-1", "old".to_string(), true, 0, &settings)
        .expect("");
    // The owner's own pair claims its session back: the page is reset to
    // the initial one and the pair comes back unchanged.
    let desired = Some(("mine".to_string(), "owner-token-1".to_string()));
    let (session, token) = init_session(&mut state, desired, 1, &settings).expect("");
    assert_eq!(session.0, "mine");
    assert_eq!(token.0, "owner-token-1");
    assert_eq!(
        get_page(&mut state, "mine", 2).expect(""),
        polli_live::static_files::INITIAL_SESSION_PAGE
    );
}

#[test]
fn random_generators_meet_their_shapes() {
    let id = make_random_session_id(8);
    assert_eq!(id.len(), 8);
    assert!(id.chars().all(|c| c.is_ascii_digit()));
    let token = make_random_access_token().expect("randomness available");
    assert_eq!(token.len(), 64);
    // Lowercase hex digits only.
    assert!(token.chars().all(|c| c.is_ascii_digit() || ('a'..='f').contains(&c)));
    // Two draws almost surely differ; equal draws would hint the source is
    // handing back a constant.
    assert_ne!(make_random_access_token().expect(""), token);
}

#[test]
fn find_subslice_reports_the_first_occurrence() {
    assert_eq!(find_subslice(b"hello world", b"o w"), Some(4));
    assert_eq!(find_subslice(b"hello world", b"o"), Some(4));
    assert_eq!(find_subslice(b"hello world", b"zz"), None);
    assert_eq!(find_subslice(b"abc", b""), Some(0));
    assert_eq!(find_subslice(b"ab", b"abc"), None);
}

#[test]
fn head_injection_splices_before_the_marker() {
    let page = "<html><head><title>t</title></head><body>b</body></html>";
    let snippet = "<script>s</script>";
    let out = insert_before_marker(page, "</head>", snippet);
    assert_eq!(
        out,
        "<html><head><title>t</title><script>s</script></head><body>b</body></html>"
    );
    // Only the first occurrence is used.
    let twice = insert_before_marker("</head></head>", "</head>", "X");
    assert_eq!(twice, "X</head></head>");
    // Without the marker the page passes through byte-identical.
    let plain = insert_before_marker("no head here", "</head>", snippet);
    assert_eq!(plain, "no head here");
    // Multi-byte text ahead of the marker stays intact.
    let accented = insert_before_marker("héllo</head>!", "</head>", "X");
    assert_eq!(accented, "hélloX</head>!");
}
