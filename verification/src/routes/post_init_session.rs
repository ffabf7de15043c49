//! Allocating a fresh session/token pair for a caller that brought none.
//!
//! A short numeric session name and a long random hex token are drawn and
//! claimed through the ownership protocol's create path, as a priming write
//! that fires no wake channel. A collision with a live session is simply a
//! rejected claim: the allocation retries with a new pair, lengthening the
//! name after a few misses to thin out collisions, and gives up after five
//! attempts in all.

use vstd::prelude::*;

use crate::access_token::{valid_access_token, AccessToken};
use crate::errors::AppError;
use crate::routes::set_page::{set_page, set_page_rejects, set_page_result};
use crate::session_id::{valid_session_id, SessionID};
use crate::settings::Settings;
use crate::state::State;
use crate::static_files::{lemma_static_pages_ascii, INITIAL_SESSION_PAGE};
use crate::text::{byte_len, lemma_ascii_byte_len};

verus! {

/// Relies on `rand::random_range`: a uniform draw from the given range,
/// here one decimal digit.
#[verifier::external_body]
fn random_digit() -> (d: u8)
    ensures
        d < 10,
{
    rand::random_range(0..10u8)
}

/// Relies on `getrandom::fill`: fills the buffer in place from the
/// system's random source, reporting failure instead of guaranteeing
/// anything about the contents.
#[verifier::external_body]
fn fill_random(buf: &mut Vec<u8>) -> (ok: bool)
    ensures
        final(buf)@.len() == old(buf)@.len(),
{
    getrandom::fill(buf.as_mut_slice()).is_ok()
}

/// A lowercase hexadecimal digit.
pub open spec fn lowercase_hex_digit(c: char) -> bool {
    ('0' <= c && c <= '9') || ('a' <= c && c <= 'f')
}

/// Relies on `hex::encode`: exactly two hexadecimal digits per input byte,
/// drawn from the lowercase digit table.
#[verifier::external_body]
fn hex_encode(bytes: &Vec<u8>) -> (r: String)
    ensures
        r@.len() == 2 * bytes@.len(),
        forall|i: int| 0 <= i < r@.len() ==> lowercase_hex_digit(#[trigger] r@[i]),
{
    hex::encode(bytes.as_slice())
}

/// Relies on `String::push` of std: appends the character to the end.
#[verifier::external_body]
fn push_char(s: &mut String, c: char)
    ensures
        final(s)@ == old(s)@.push(c),
{
    s.push(c)
}

/// A candidate session name: `length` random decimal digits.
pub fn make_random_session_id(length: usize) -> (r: String)
    ensures
        r@.len() == length,
        forall|i: int| 0 <= i < r@.len() ==> '0' <= #[trigger] r@[i] <= '9',
        vstd::utf8::is_ascii_chars(r@),
{
    let mut out = String::new();
    let mut i: usize = 0;
    while i < length
        invariant
            i <= length,
            out@.len() == i,
            forall|l: int| 0 <= l < out@.len() ==> '0' <= #[trigger] out@[l] <= '9',
        decreases length - i,
    {
        let d = random_digit();
        let c = (48u8 + d) as char;
        push_char(&mut out, c);
        i = i + 1;
    }
    out
}

/// A candidate owner credential: 64 lowercase hexadecimal digits drawn
/// from the system's random source; `None` when that source fails.
pub fn make_random_access_token() -> (r: Option<String>)
    ensures
        r matches Some(t) ==> {
            &&& t@.len() == 64
            &&& forall|i: int| 0 <= i < t@.len() ==> lowercase_hex_digit(#[trigger] t@[i])
            &&& vstd::utf8::is_ascii_chars(t@)
        },
{
    let mut buf: Vec<u8> = vec![0u8; 32];
    let ok = fill_random(&mut buf);
    if !ok {
        return None;
    }
    let token = hex_encode(&buf);
    proof {
        assert(vstd::utf8::is_ascii_chars(token@));
    }
    Some(token)
}

/// Allocates a globally fresh session and owner token and claims them with
/// a priming write of the initial page, waking nobody.
///
/// The caller may bring a desired pair, which is tried first; every retry
/// draws a new random pair. A rejected claim leaves the store exactly as it
/// was, so on failure — five claims turned away, or no randomness to draw
/// from — the store is untouched and the caller sees an internal error. On
/// success the store's only change is the claimed session holding the
/// initial page under the returned token.
///
/// Randomness decides the retries, so nothing can be promised of them; the
/// one path that no outside call decides is a caller-supplied pair that is
/// well-formed and not turned away by the ownership protocol. There success
/// is owed, with exactly that pair.
pub fn init_session(
    state: &mut State,
    desired: Option<(String, String)>,
    now: u64,
    settings: &Settings,
) -> (r: Result<(SessionID, AccessToken), AppError>)
    requires
        old(state).wf(),
        desired matches Some(d) ==> byte_len(d.0@) <= usize::MAX && byte_len(d.1@) <= usize::MAX,
    ensures
        final(state).wf(),
        r is Err ==> r == Err::<(SessionID, AccessToken), AppError>(AppError::ServerError)
            && final(state)@ == old(state)@,
        r matches Ok(p) ==> {
            &&& valid_session_id(p.0@)
            &&& valid_access_token(p.1@)
            &&& !set_page_rejects(
                old(state)@,
                p.0@,
                p.1@,
                now as nat,
                settings.token_timeout as nat,
            )
            &&& byte_len(INITIAL_SESSION_PAGE@) <= settings.max_page_size
            &&& final(state)@ == old(state)@.insert(
                p.0@,
                set_page_result(
                    old(state)@,
                    p.0@,
                    p.1@,
                    INITIAL_SESSION_PAGE@,
                    false,
                    now as nat,
                ),
            )
        },
        match desired {
            Some(d) => (valid_session_id(d.0@) && valid_access_token(d.1@) && byte_len(
                INITIAL_SESSION_PAGE@,
            ) <= settings.max_page_size && !set_page_rejects(
                old(state)@,
                d.0@,
                d.1@,
                now as nat,
                settings.token_timeout as nat,
            )) ==> (r matches Ok(p) && p.0@ == d.0@ && p.1@ == d.1@),
            None => true,
        },
{
    let mut candidate: (String, String) = match desired {
        Some(d) => d,
        None => {
            let sid = make_random_session_id(6);
            proof {
                lemma_ascii_byte_len(sid@);
            }
            let tok = match make_random_access_token() {
                Some(t) => t,
                None => {
                    return Err(AppError::ServerError);
                },
            };
            proof {
                lemma_ascii_byte_len(tok@);
            }
            (sid, tok)
        },
    };
    // First claim: the caller's own pair when one was brought. If that
    // pair is well-formed and the ownership protocol has no ground to turn
    // it away, this claim cannot fail.
    let page = INITIAL_SESSION_PAGE.to_owned();
    proof {
        lemma_static_pages_ascii();
    }
    let claim = set_page(
        state,
        candidate.0.as_str(),
        candidate.1.as_str(),
        page,
        false,
        now,
        settings,
    );
    if claim.is_ok() {
        return Ok((SessionID(candidate.0), AccessToken(candidate.1)));
    }
    // Only a collision (or an unusable desired pair) reaches the retries,
    // and the rejected claim left the store as it was.
    let mut attempt: usize = 1;
    while attempt < 5
        invariant
            state.wf(),
            state@ == old(state)@,
            1 <= attempt <= 5,
            byte_len(candidate.0@) <= usize::MAX,
            byte_len(candidate.1@) <= usize::MAX,
            match desired {
                Some(d) => !(valid_session_id(d.0@) && valid_access_token(d.1@) && byte_len(
                    INITIAL_SESSION_PAGE@,
                ) <= settings.max_page_size && !set_page_rejects(
                    old(state)@,
                    d.0@,
                    d.1@,
                    now as nat,
                    settings.token_timeout as nat,
                )),
                None => true,
            },
        decreases 5 - attempt,
    {
        // The name grows by a digit for the last retry, thinning out
        // collisions.
        let id_length: usize = if attempt >= 4 {
            7
        } else {
            6
        };
        let sid = make_random_session_id(id_length);
        proof {
            lemma_ascii_byte_len(sid@);
        }
        let tok = match make_random_access_token() {
            Some(t) => t,
            None => {
                return Err(AppError::ServerError);
            },
        };
        proof {
            lemma_ascii_byte_len(tok@);
        }
        candidate = (sid, tok);
        let page = INITIAL_SESSION_PAGE.to_owned();
        proof {
            lemma_static_pages_ascii();
        }
        let claim = set_page(
            state,
            candidate.0.as_str(),
            candidate.1.as_str(),
            page,
            false,
            now,
            settings,
        );
        if claim.is_ok() {
            return Ok((SessionID(candidate.0), AccessToken(candidate.1)));
        }
        attempt = attempt + 1;
    }
    Err(AppError::ServerError)
}

} // verus!
