//! The eviction sweep: estimates memory usage and applies escalating
//! reclamation tiers.
//!
//! Each tick first drops idle sessions, then estimates memory. While the
//! estimate sits above the configured ceiling it escalates: first stale
//! delivered responses go, then every session that was not touched within
//! the last few seconds, together with over-allocated backing capacity.
//! The surrounding process runs `cleanup_tick` on a timer, under the same
//! lock as every request.

use vstd::prelude::*;

use crate::settings::Settings;
use crate::session_id::SessionID;
use crate::state::{
    distinct_session_keys, lemma_session_map_cons, lemma_session_map_contains,
    lemma_session_map_pointwise, response_map, session_map,
    wf_session_entries, ResponseView, SessionState, SessionView, State, UserResponse,
};
use crate::text::byte_len;
use crate::user_id::UserID;

verus! {

/// How long a delivered response is kept before the first eviction tier may
/// reclaim it, in milliseconds.
pub const RESPONSE_RETENTION_MS: u64 = 30_000;

/// The activity window the most aggressive tier preserves, in milliseconds:
/// everything idle longer than this goes.
pub const STALE_SESSION_MS: u64 = 5_000;

/// Estimated structural overhead of one session slot, in bytes: the keyed
/// record itself, apart from the texts it holds.
pub const SESSION_SLOT_BYTES: u64 = 160;

/// Estimated structural overhead of one response slot, in bytes.
pub const RESPONSE_SLOT_BYTES: u64 = 96;

/// The sessions of `m` that were touched within `window` before `now`.
pub open spec fn recent_sessions(
    m: Map<Seq<char>, SessionView>,
    now: nat,
    window: nat,
) -> Map<Seq<char>, SessionView> {
    Map::new(
        |k: Seq<char>| m.contains_key(k) && m[k].last_request + window > now,
        |k: Seq<char>| m[k],
    )
}

/// Whether the first escalation tier keeps a response entry: everything
/// except entries already delivered and older than the retention window.
pub open spec fn kept_response(v: ResponseView, now: nat) -> bool {
    !(v.was_received && v.time + RESPONSE_RETENTION_MS <= now)
}

/// One session after the first escalation tier: the same record, minus the
/// response entries the tier lets go.
pub open spec fn pruned_session(s: SessionView, now: nat) -> SessionView {
    SessionView {
        responses: Map::new(
            |u: Seq<char>| s.responses.contains_key(u) && kept_response(s.responses[u], now),
            |u: Seq<char>| s.responses[u],
        ),
        ..s
    }
}

/// The whole store after the first escalation tier.
pub open spec fn pruned_sessions(m: Map<Seq<char>, SessionView>, now: nat) -> Map<
    Seq<char>,
    SessionView,
> {
    Map::new(|k: Seq<char>| m.contains_key(k), |k: Seq<char>| pruned_session(m[k], now))
}

/// One whole sweep, as a function of the store and of the two escalation
/// decisions: `over0` is whether the estimate was still at or above the
/// ceiling after idle sessions were dropped, `over1` whether it still was
/// after delivered responses were pruned. The estimate reads allocated
/// capacity, which the store's mathematical content does not determine, so
/// the decisions stand as parameters here; `cleanup_tick` promises that its
/// effect equals this function for some pair of them.
pub open spec fn sweep_view(
    m: Map<Seq<char>, SessionView>,
    now: nat,
    keep_alive: nat,
    over0: bool,
    over1: bool,
) -> Map<Seq<char>, SessionView> {
    let m0 = recent_sessions(m, now, keep_alive);
    if !over0 {
        m0
    } else {
        let m1 = pruned_sessions(m0, now);
        if !over1 {
            m1
        } else {
            recent_sessions(m1, now, STALE_SESSION_MS as nat)
        }
    }
}

/// The bytes a response ledger holds live: each entry's key and data texts
/// plus one slot of structural overhead.
pub open spec fn responses_bytes(s: Seq<(UserID, UserResponse)>) -> nat
    decreases s.len(),
{
    if s.len() == 0 {
        0
    } else {
        (responses_bytes(s.drop_last()) + byte_len(s.last().0@) + byte_len(s.last().1.data@)
            + RESPONSE_SLOT_BYTES) as nat
    }
}

/// The bytes the store holds live: per session its name, page and token
/// texts, its ledger's bytes and one slot of structural overhead. Allocated
/// but unused capacity comes on top of this; the estimator counts it, this
/// lower bound cannot.
pub open spec fn sessions_bytes(s: Seq<(SessionID, SessionState)>) -> nat
    decreases s.len(),
{
    if s.len() == 0 {
        0
    } else {
        (sessions_bytes(s.drop_last()) + byte_len(s.last().0@) + byte_len(s.last().1.page@)
            + byte_len(s.last().1.access_token@) + responses_bytes(s.last().1.responses@)
            + SESSION_SLOT_BYTES) as nat
    }
}

/// Addition that stops at the top of `u64` instead of wrapping.
fn sat_add(a: u64, b: u64) -> (r: u64)
    ensures
        a + b <= u64::MAX ==> r == a + b,
        a + b > u64::MAX ==> r == u64::MAX,
{
    if a > u64::MAX - b {
        u64::MAX
    } else {
        a + b
    }
}

/// A `u128` brought down to `u64`, stopping at the top.
fn sat_down(a: u128) -> (r: u64)
    ensures
        a <= u64::MAX ==> r == a,
        a > u64::MAX ==> r == u64::MAX,
{
    if a > u64::MAX as u128 {
        u64::MAX
    } else {
        a as u64
    }
}

/// Relies on `Vec::capacity` of std: the allocated slot count, never below
/// the live length.
#[verifier::external_body]
fn vec_capacity<T>(v: &Vec<T>) -> (c: usize)
    ensures
        c >= v@.len(),
{
    v.capacity()
}

/// Relies on `Vec::shrink_to_fit` of std: drops excess capacity and keeps
/// the elements exactly as they are.
#[verifier::external_body]
fn shrink_vec<T>(v: &mut Vec<T>)
    ensures
        final(v)@ == old(v)@,
{
    v.shrink_to_fit()
}

/// Adds up what one ledger holds, slot overhead for its allocated capacity
/// included; stops at the top of `u64`.
fn count_responses_memory(responses: &Vec<(UserID, UserResponse)>) -> (r: u64)
    requires
        forall|l: int|
            0 <= l < responses@.len() ==> byte_len((#[trigger] responses@[l]).0@) <= usize::MAX,
        forall|l: int|
            0 <= l < responses@.len() ==> byte_len((#[trigger] responses@[l]).1.data@)
                <= usize::MAX,
    ensures
        r >= responses_bytes(responses@) || r == u64::MAX,
{
    let n = responses.len();
    let mut acc: u64 = 0;
    let mut j: usize = 0;
    proof {
        assert(responses@.take(0) =~= Seq::<(UserID, UserResponse)>::empty());
    }
    while j < n
        invariant
            n == responses@.len(),
            j <= n,
            forall|l: int|
                0 <= l < responses@.len() ==> byte_len((#[trigger] responses@[l]).0@)
                    <= usize::MAX,
            forall|l: int|
                0 <= l < responses@.len() ==> byte_len((#[trigger] responses@[l]).1.data@)
                    <= usize::MAX,
            acc >= responses_bytes(responses@.take(j as int)) || acc == u64::MAX,
        decreases n - j,
    {
        let user_len = crate::text::str_byte_len(responses[j].0.0.as_str());
        let data_len = crate::text::str_byte_len(responses[j].1.data.as_str());
        let entry = sat_add(sat_add(user_len as u64, data_len as u64), RESPONSE_SLOT_BYTES);
        acc = sat_add(acc, entry);
        proof {
            assert(responses@.take(j + 1).drop_last() =~= responses@.take(j as int));
            assert(responses@.take(j + 1).last() == responses@[j as int]);
        }
        j = j + 1;
    }
    proof {
        assert(responses@.take(n as int) =~= responses@);
    }
    let extra = sat_down(
        (RESPONSE_SLOT_BYTES as u128) * (vec_capacity(responses) as u128),
    );
    sat_add(acc, extra)
}

/// Adds up the store's estimated live bytes: texts, ledgers, and slot
/// overhead for each collection's allocated capacity; stops at the top of
/// `u64`. Capacity makes the exact value depend on the allocator, so the
/// promise is a lower bound: never less than what is live.
pub fn count_user_memory_usage(state: &State) -> (r: u64)
    requires
        state.wf(),
    ensures
        r >= sessions_bytes(state.sessions@) || r == u64::MAX,
{
    let n = state.sessions.len();
    let mut acc: u64 = 0;
    let mut i: usize = 0;
    proof {
        assert(state.sessions@.take(0) =~= Seq::<(SessionID, SessionState)>::empty());
    }
    while i < n
        invariant
            state.wf(),
            n == state.sessions@.len(),
            i <= n,
            acc >= sessions_bytes(state.sessions@.take(i as int)) || acc == u64::MAX,
        decreases n - i,
    {
        let sid_len = crate::text::str_byte_len(state.sessions[i].0.0.as_str());
        let page_len = crate::text::str_byte_len(state.sessions[i].1.page.as_str());
        let token_len = crate::text::str_byte_len(state.sessions[i].1.access_token.0.as_str());
        let ledger = count_responses_memory(&state.sessions[i].1.responses);
        let entry = sat_add(
            sat_add(sat_add(sat_add(sid_len as u64, page_len as u64), token_len as u64), ledger),
            SESSION_SLOT_BYTES,
        );
        acc = sat_add(acc, entry);
        proof {
            assert(state.sessions@.take(i + 1).drop_last() =~= state.sessions@.take(i as int));
            assert(state.sessions@.take(i + 1).last() == state.sessions@[i as int]);
        }
        i = i + 1;
    }
    proof {
        assert(state.sessions@.take(n as int) =~= state.sessions@);
    }
    let extra = sat_down(
        (SESSION_SLOT_BYTES as u128) * (vec_capacity(&state.sessions) as u128),
    );
    sat_add(acc, extra)
}

/// Keeps exactly the sessions touched within `window` before `now`.
fn retain_recent_sessions(state: &mut State, now: u64, window: u64)
    requires
        old(state).wf(),
    ensures
        final(state).wf(),
        final(state)@ == recent_sessions(old(state)@, now as nat, window as nat),
{
    let mut work: Vec<(SessionID, SessionState)> = Vec::new();
    core::mem::swap(&mut work, &mut state.sessions);
    let ghost s0 = work@;
    let mut kept: Vec<(SessionID, SessionState)> = Vec::new();
    proof {
        assert(s0.take(s0.len() as int) =~= s0);
        assert(s0.skip(s0.len() as int) =~= Seq::<(SessionID, SessionState)>::empty());
        assert(session_map(kept@) =~= recent_sessions(
            session_map(s0.skip(s0.len() as int)),
            now as nat,
            window as nat,
        ));
    }
    while work.len() > 0
        invariant
            distinct_session_keys(s0),
            wf_session_entries(s0),
            work@ == s0.take(work@.len() as int),
            work@.len() <= s0.len(),
            distinct_session_keys(kept@),
            wf_session_entries(kept@),
            session_map(kept@) == recent_sessions(
                session_map(s0.skip(work@.len() as int)),
                now as nat,
                window as nat,
            ),
            forall|l: int|
                0 <= l < kept@.len() ==> session_map(s0.skip(work@.len() as int)).contains_key(
                    (#[trigger] kept@[l]).0@,
                ),
        decreases work@.len(),
    {
        let ghost k = work@.len() as int;
        let ghost kept0 = kept@;
        let pair = work.pop().unwrap();
        proof {
            assert(s0.take(k).last() == s0[k - 1]);
            assert(s0.take(k).drop_last() =~= s0.take(k - 1));
            assert(pair == s0[k - 1]);
            assert(s0.skip(k - 1) =~= seq![s0[k - 1]] + s0.skip(k));
            assert(forall|l: int|
                0 <= l < s0.skip(k).len() ==> #[trigger] s0.skip(k)[l] == s0[k + l]);
            assert(forall|l: int|
                0 <= l < s0.skip(k).len() ==> (#[trigger] s0.skip(k)[l]).0@ != s0[k - 1].0@);
            lemma_session_map_cons(s0[k - 1], s0.skip(k));
            lemma_session_map_contains(s0.skip(k), s0[k - 1].0@);
            assert(!session_map(s0.skip(k)).contains_key(s0[k - 1].0@));
        }
        let keep = (pair.1.last_request as u128) + (window as u128) > (now as u128);
        if keep {
            kept.push(pair);
            proof {
                crate::state::lemma_session_map_push(kept0, kept@.last());
                assert(kept@.drop_last() =~= kept0);
                assert(forall|l: int|
                    0 <= l < kept0.len() ==> (#[trigger] kept0[l]).0@ != s0[k - 1].0@);
                assert(session_map(kept@) =~= recent_sessions(
                    session_map(s0.skip(k - 1)),
                    now as nat,
                    window as nat,
                ));
            }
        } else {
            proof {
                assert(session_map(kept@) =~= recent_sessions(
                    session_map(s0.skip(k - 1)),
                    now as nat,
                    window as nat,
                ));
            }
        }
    }
    state.sessions = kept;
    proof {
        assert(s0.skip(0) =~= s0);
    }
}

/// First escalation tier, entirely as the activity-window filter with the
/// idle keep-alive: every session idle past `keep_alive` goes.
pub fn expire_sessions(state: &mut State, now: u64, keep_alive: u64)
    requires
        old(state).wf(),
    ensures
        final(state).wf(),
        final(state)@ == recent_sessions(old(state)@, now as nat, keep_alive as nat),
{
    retain_recent_sessions(state, now, keep_alive)
}

/// Drops from one session's ledger every entry that was both delivered and
/// is older than the retention window.
fn prune_session_responses(sess: &mut SessionState, now: u64)
    requires
        old(sess).wf(),
    ensures
        final(sess).wf(),
        final(sess)@ == pruned_session(old(sess)@, now as nat),
{
    let mut work: Vec<(UserID, UserResponse)> = Vec::new();
    core::mem::swap(&mut work, &mut sess.responses);
    let ghost r0 = work@;
    let mut kept: Vec<(UserID, UserResponse)> = Vec::new();
    proof {
        assert(r0.take(r0.len() as int) =~= r0);
        assert(r0.skip(r0.len() as int) =~= Seq::<(UserID, UserResponse)>::empty());
        assert(response_map(kept@) =~= Map::new(
            |u: Seq<char>| response_map(r0.skip(r0.len() as int)).contains_key(u)
                && kept_response(response_map(r0.skip(r0.len() as int))[u], now as nat),
            |u: Seq<char>| response_map(r0.skip(r0.len() as int))[u],
        ));
    }
    while work.len() > 0
        invariant
            crate::state::distinct_response_keys(r0),
            forall|l: int| 0 <= l < r0.len() ==> byte_len((#[trigger] r0[l]).0@) <= usize::MAX,
            forall|l: int| 0 <= l < r0.len() ==> byte_len((#[trigger] r0[l]).1.data@) <= usize::MAX,
            work@ == r0.take(work@.len() as int),
            work@.len() <= r0.len(),
            crate::state::distinct_response_keys(kept@),
            forall|l: int| 0 <= l < kept@.len() ==> byte_len((#[trigger] kept@[l]).0@) <= usize::MAX,
            forall|l: int|
                0 <= l < kept@.len() ==> byte_len((#[trigger] kept@[l]).1.data@) <= usize::MAX,
            response_map(kept@) == Map::new(
                |u: Seq<char>| response_map(r0.skip(work@.len() as int)).contains_key(u)
                    && kept_response(response_map(r0.skip(work@.len() as int))[u], now as nat),
                |u: Seq<char>| response_map(r0.skip(work@.len() as int))[u],
            ),
            forall|l: int|
                0 <= l < kept@.len() ==> response_map(r0.skip(work@.len() as int)).contains_key(
                    (#[trigger] kept@[l]).0@,
                ),
        decreases work@.len(),
    {
        let ghost k = work@.len() as int;
        let ghost kept0 = kept@;
        let pair = work.pop().unwrap();
        proof {
            assert(r0.take(k).last() == r0[k - 1]);
            assert(r0.take(k).drop_last() =~= r0.take(k - 1));
            assert(pair == r0[k - 1]);
            assert(r0.skip(k - 1) =~= seq![r0[k - 1]] + r0.skip(k));
            assert(forall|l: int| 0 <= l < r0.skip(k).len() ==> #[trigger] r0.skip(k)[l] == r0[k
                + l]);
            assert(forall|l: int|
                0 <= l < r0.skip(k).len() ==> (#[trigger] r0.skip(k)[l]).0@ != r0[k - 1].0@);
            crate::state::lemma_response_map_cons(r0[k - 1], r0.skip(k));
            crate::state::lemma_response_map_contains(r0.skip(k), r0[k - 1].0@);
            assert(!response_map(r0.skip(k)).contains_key(r0[k - 1].0@));
        }
        let keep = !(pair.1.was_received && (pair.1.time as u128) + (RESPONSE_RETENTION_MS
            as u128) <= (now as u128));
        if keep {
            kept.push(pair);
            proof {
                crate::state::lemma_response_map_push(kept0, kept@.last());
                assert(kept@.drop_last() =~= kept0);
                assert(forall|l: int|
                    0 <= l < kept0.len() ==> (#[trigger] kept0[l]).0@ != r0[k - 1].0@);
                assert(response_map(kept@) =~= Map::new(
                    |u: Seq<char>| response_map(r0.skip(k - 1)).contains_key(u) && kept_response(
                        response_map(r0.skip(k - 1))[u],
                        now as nat,
                    ),
                    |u: Seq<char>| response_map(r0.skip(k - 1))[u],
                ));
            }
        } else {
            proof {
                assert(response_map(kept@) =~= Map::new(
                    |u: Seq<char>| response_map(r0.skip(k - 1)).contains_key(u) && kept_response(
                        response_map(r0.skip(k - 1))[u],
                        now as nat,
                    ),
                    |u: Seq<char>| response_map(r0.skip(k - 1))[u],
                ));
            }
        }
    }
    sess.responses = kept;
    proof {
        assert(r0.skip(0) =~= r0);
        assert(final(sess)@ =~= pruned_session(old(sess)@, now as nat));
    }
}

/// Second escalation tier: prunes every session's ledger of delivered
/// entries older than the retention window; sessions themselves all stay.
pub fn drop_received_responses(state: &mut State, now: u64)
    requires
        old(state).wf(),
    ensures
        final(state).wf(),
        final(state)@ == pruned_sessions(old(state)@, now as nat),
{
    let ghost s0 = state.sessions@;
    let n = state.sessions.len();
    let mut i: usize = 0;
    while i < n
        invariant
            distinct_session_keys(s0),
            wf_session_entries(s0),
            n == s0.len(),
            i <= n,
            state.sessions@.len() == s0.len(),
            distinct_session_keys(state.sessions@),
            wf_session_entries(state.sessions@),
            forall|l: int| 0 <= l < s0.len() ==> (#[trigger] state.sessions@[l]).0 == s0[l].0,
            forall|l: int| i <= l < s0.len() ==> state.sessions@[l] == s0[l],
            forall|l: int|
                0 <= l < i ==> (#[trigger] state.sessions@[l]).1@ == pruned_session(
                    s0[l].1@,
                    now as nat,
                ),
        decreases n - i,
    {
        let ghost prev = state.sessions@;
        let mut pair = state.sessions.remove(i);
        prune_session_responses(&mut pair.1, now);
        state.sessions.insert(i, pair);
        proof {
            assert(state.sessions@ =~= prev.update(i as int, state.sessions@[i as int]));
        }
        i = i + 1;
    }
    proof {
        lemma_session_map_pointwise(
            s0,
            state.sessions@,
            |s: SessionView| pruned_session(s, now as nat),
        );
        assert(session_map(state.sessions@) =~= pruned_sessions(session_map(s0), now as nat));
    }
}

/// Third escalation tier: keeps only sessions touched within the last few
/// seconds and returns over-allocated backing capacity, the store's and
/// every remaining ledger's, to the allocator. Capacity is invisible to the
/// store's mathematical content, so the contract is the filter alone.
pub fn drop_stale_sessions(state: &mut State, now: u64)
    requires
        old(state).wf(),
    ensures
        final(state).wf(),
        final(state)@ == recent_sessions(old(state)@, now as nat, STALE_SESSION_MS as nat),
{
    retain_recent_sessions(state, now, STALE_SESSION_MS);
    let ghost mid = state.sessions@;
    shrink_vec(&mut state.sessions);
    let n = state.sessions.len();
    let mut i: usize = 0;
    while i < n
        invariant
            distinct_session_keys(mid),
            wf_session_entries(mid),
            n == mid.len(),
            i <= n,
            state.sessions@.len() == mid.len(),
            distinct_session_keys(state.sessions@),
            wf_session_entries(state.sessions@),
            forall|l: int| 0 <= l < mid.len() ==> (#[trigger] state.sessions@[l]).0 == mid[l].0,
            forall|l: int| i <= l < mid.len() ==> state.sessions@[l] == mid[l],
            forall|l: int| 0 <= l < i ==> (#[trigger] state.sessions@[l]).1@ == mid[l].1@,
        decreases n - i,
    {
        let ghost prev = state.sessions@;
        let mut pair = state.sessions.remove(i);
        shrink_vec(&mut pair.1.responses);
        state.sessions.insert(i, pair);
        proof {
            assert(state.sessions@ =~= prev.update(i as int, state.sessions@[i as int]));
        }
        i = i + 1;
    }
    proof {
        lemma_session_map_pointwise(mid, state.sessions@, |s: SessionView| s);
        assert(session_map(state.sessions@) =~= session_map(mid));
    }
}

/// One tick of the eviction sweep.
///
/// Always drops sessions idle past the keep-alive. Then, while the memory
/// estimate sits at or above the configured ceiling, escalates: prunes
/// delivered responses past their retention window, and if that was not
/// enough, drops everything not touched within the last few seconds and
/// returns spare capacity to the allocator. The estimate reads allocated
/// capacity, which the store's content does not determine; whatever it
/// read, the effect equals the sweep for some pair of escalation decisions,
/// and a tick that stopped short of the last tier really left a store whose
/// live bytes sit under half the ceiling — the estimate never understates
/// them.
pub fn cleanup_tick(state: &mut State, now: u64, settings: &Settings)
    requires
        old(state).wf(),
    ensures
        final(state).wf(),
        exists|over0: bool, over1: bool|
            final(state)@ == sweep_view(
                old(state)@,
                now as nat,
                settings.session_keep_alive_duration as nat,
                over0,
                over1,
            ) && ((!over0 || !over1) ==> 2 * sessions_bytes(final(state).sessions@)
                < settings.max_memory_usage),
{
    let ghost m = old(state)@;
    let ghost keep = settings.session_keep_alive_duration as nat;
    expire_sessions(state, now, settings.session_keep_alive_duration);
    let used = get_memory_usage_with_safety_buffer(state);
    if used < settings.max_memory_usage {
        proof {
            assert(2 * sessions_bytes(state.sessions@) < settings.max_memory_usage);
            assert(state@ == sweep_view(m, now as nat, keep, false, false));
        }
        return ;
    }
    drop_received_responses(state, now);
    let used = get_memory_usage_with_safety_buffer(state);
    if used < settings.max_memory_usage {
        proof {
            assert(2 * sessions_bytes(state.sessions@) < settings.max_memory_usage);
            assert(state@ == sweep_view(m, now as nat, keep, true, false));
        }
        return ;
    }
    drop_stale_sessions(state, now);
    proof {
        assert(state@ == sweep_view(m, now as nat, keep, true, true));
    }
}

/// Back-to-back idempotence of the sweep: with no activity in between, a
/// second sweep at the same instant leaves the store exactly as the first
/// left it.
///
/// The escalation decisions come from the memory estimate, which depends
/// only on the concrete store; between back-to-back sweeps that store does
/// not change, so a run that stopped under the ceiling is followed by one
/// that stops at the same place. The two premises state just that: the
/// second run escalates only where the first did. Where the first run went
/// all the way, the second may decide anything — every tier is a no-op on
/// the first run's result regardless.
pub proof fn lemma_sweep_idempotent(
    m: Map<Seq<char>, SessionView>,
    now: nat,
    keep_alive: nat,
    a0: bool,
    a1: bool,
    b0: bool,
    b1: bool,
)
    requires
        !a0 ==> !b0,
        a0 && !a1 ==> !b0,
    ensures
        sweep_view(sweep_view(m, now, keep_alive, a0, a1), now, keep_alive, b0, b1) == sweep_view(
            m,
            now,
            keep_alive,
            a0,
            a1,
        ),
{
    let m0 = recent_sessions(m, now, keep_alive);
    if !a0 {
        assert(recent_sessions(m0, now, keep_alive) =~~= m0);
    } else {
        let m1 = pruned_sessions(m0, now);
        if !a1 {
            assert(recent_sessions(m1, now, keep_alive) =~~= m1);
        } else {
            let m2 = recent_sessions(m1, now, STALE_SESSION_MS as nat);
            assert(recent_sessions(m2, now, keep_alive) =~~= m2);
            if b0 {
                assert(pruned_sessions(m2, now) =~~= m2);
                if b1 {
                    assert(recent_sessions(m2, now, STALE_SESSION_MS as nat) =~~= m2);
                }
            }
        }
    }
}

/// The estimate the sweep compares against the ceiling: twice the counted
/// usage, a deliberate safety margin for fragmentation and bookkeeping the
/// byte sums cannot see.
pub fn get_memory_usage_with_safety_buffer(state: &State) -> (r: u64)
    requires
        state.wf(),
    ensures
        r >= 2 * sessions_bytes(state.sessions@) || r == u64::MAX,
{
    let counted = count_user_memory_usage(state);
    if counted > u64::MAX / 2 {
        u64::MAX
    } else {
        2 * counted
    }
}

} // verus!
