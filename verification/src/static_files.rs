//! The small set of pages the broker serves from memory: the landing page,
//! the placeholder for an unknown session, the page a freshly allocated
//! session starts with, and the snippet a host's page gets spliced into its
//! head so it can talk back to the broker.

use vstd::prelude::*;

use crate::errors::AppError;

verus! {

/// The landing page.
pub const INDEX_PAGE: &'static str = "<!DOCTYPE html>\n<html>\n<head><title>polli-live</title></head>\n<body><h1>polli-live</h1><p>Share a page, collect live responses.</p></body>\n</html>\n";

/// What a reader of an unknown session is shown.
pub const EMPTY_SESSION_PAGE: &'static str = "<!DOCTYPE html>\n<html>\n<head><title>polli-live</title></head>\n<body><p>This session does not exist or has ended.</p></body>\n</html>\n";

/// The page a freshly allocated session publishes until its owner writes.
pub const INITIAL_SESSION_PAGE: &'static str = "<!DOCTYPE html>\n<html>\n<head><title>polli-live</title></head>\n<body><p>Waiting for the host to share a page.</p></body>\n</html>\n";

/// The snippet spliced into a published page's head.
pub const POLLI_LIVE_INJECTION: &'static str = "<script>window.POLLI_LIVE_EMBEDDED = true;</script>\n";

/// The content served under `name`, if the broker embeds a file by that
/// name.
pub open spec fn static_file_view(name: Seq<char>) -> Option<Seq<char>> {
    if name == "index.html"@ {
        Option::Some(INDEX_PAGE@)
    } else if name == "empty_session_page.html"@ {
        Option::Some(EMPTY_SESSION_PAGE@)
    } else if name == "initial_session_page.html"@ {
        Option::Some(INITIAL_SESSION_PAGE@)
    } else if name == "polli_live_injection.html"@ {
        Option::Some(POLLI_LIVE_INJECTION@)
    } else {
        Option::None
    }
}

/// Looks up the embedded file named `filename`; unknown names are an
/// internal error, since only the broker's own code asks for them.
pub fn get(filename: &str) -> (r: Result<&'static str, AppError>)
    ensures
        match static_file_view(filename@) {
            Option::Some(content) => r is Ok && r->Ok_0@ == content,
            Option::None => r == Err::<&'static str, AppError>(AppError::ServerError),
        },
{
    if crate::text::str_eq(filename, "index.html") {
        Ok(INDEX_PAGE)
    } else if crate::text::str_eq(filename, "empty_session_page.html") {
        Ok(EMPTY_SESSION_PAGE)
    } else if crate::text::str_eq(filename, "initial_session_page.html") {
        Ok(INITIAL_SESSION_PAGE)
    } else if crate::text::str_eq(filename, "polli_live_injection.html") {
        Ok(POLLI_LIVE_INJECTION)
    } else {
        Err(AppError::ServerError)
    }
}

/// The embedded pages are plain ASCII, so their byte lengths equal their
/// character counts and fit any machine's sizes.
pub proof fn lemma_static_pages_ascii()
    ensures
        vstd::utf8::is_ascii_chars(INITIAL_SESSION_PAGE@),
        crate::text::byte_len(INITIAL_SESSION_PAGE@) <= usize::MAX,
        crate::text::byte_len(INITIAL_SESSION_PAGE@) == INITIAL_SESSION_PAGE@.len(),
{
    reveal_strlit(
        "<!DOCTYPE html>\n<html>\n<head><title>polli-live</title></head>\n<body><p>Waiting for the host to share a page.</p></body>\n</html>\n",
    );
    assert(vstd::utf8::is_ascii_chars(INITIAL_SESSION_PAGE@));
    crate::text::lemma_ascii_byte_len(INITIAL_SESSION_PAGE@);
}

} // verus!
