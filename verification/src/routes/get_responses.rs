//! Polling a session's response ledger with a cursor.

use vstd::prelude::*;

use crate::errors::AppError;
use crate::session_id::valid_session_id;
use crate::settings::Settings;
use crate::state::{
    distinct_response_keys, lemma_response_map_contains, lemma_response_map_pointwise,
    lemma_response_map_push, lemma_session_map_index,
    lemma_session_map_update, response_map, ResponseView, SessionView, State, UserResponse,
};
use crate::user_id::UserID;

verus! {

/// The map denoted by the collected user/data pairs.
pub open spec fn retrieved_map(s: Seq<(UserID, String)>) -> Map<Seq<char>, Seq<char>>
    decreases s.len(),
{
    if s.len() == 0 {
        Map::empty()
    } else {
        retrieved_map(s.drop_last()).insert(s.last().0@, s.last().1@)
    }
}

/// No two collected pairs share a user.
pub open spec fn distinct_retrieved_keys(s: Seq<(UserID, String)>) -> bool {
    forall|i: int, j: int| 0 <= i < j < s.len() ==> s[i].0@ != s[j].0@
}

/// A key is in the denoted map exactly when some pair carries it.
proof fn lemma_retrieved_map_contains(s: Seq<(UserID, String)>, k: Seq<char>)
    ensures
        retrieved_map(s).contains_key(k) <==> exists|i: int| 0 <= i < s.len() && s[i].0@ == k,
    decreases s.len(),
{
    if s.len() > 0 {
        lemma_retrieved_map_contains(s.drop_last(), k);
        if retrieved_map(s).contains_key(k) {
            if s.last().0@ == k {
                assert(s[s.len() - 1].0@ == k);
            } else {
                let i = choose|i: int| 0 <= i < s.drop_last().len() && s.drop_last()[i].0@ == k;
                assert(s[i].0@ == k);
            }
        }
        if exists|i: int| 0 <= i < s.len() && s[i].0@ == k {
            let i = choose|i: int| 0 <= i < s.len() && s[i].0@ == k;
            if i < s.len() - 1 {
                assert(s.drop_last()[i].0@ == k);
            }
        }
    }
}

/// With distinct users, the denoted map sends each pair's user to its data.
proof fn lemma_retrieved_map_index(s: Seq<(UserID, String)>, i: int)
    requires
        distinct_retrieved_keys(s),
        0 <= i < s.len(),
    ensures
        retrieved_map(s).contains_key(s[i].0@),
        retrieved_map(s)[s[i].0@] == s[i].1@,
    decreases s.len(),
{
    if i < s.len() - 1 {
        assert(distinct_retrieved_keys(s.drop_last()));
        lemma_retrieved_map_index(s.drop_last(), i);
        assert(s.drop_last()[i] == s[i]);
        assert(s[i].0@ != s.last().0@);
    }
}

/// Appending a pair inserts it into the denoted map.
proof fn lemma_retrieved_map_push(s: Seq<(UserID, String)>, p: (UserID, String))
    ensures
        retrieved_map(s.push(p)) == retrieved_map(s).insert(p.0@, p.1@),
{
    assert(s.push(p).drop_last() =~= s);
    assert(s.push(p).last() == p);
}

/// What one poll with cursor `start` hands back: the counter to resume
/// from, and every user's current response whose sequence number is at
/// least the cursor.
#[derive(Debug)]
pub struct RetrievedResponses {
    /// The cursor to pass next time: the session's sequence counter at the
    /// moment of the poll. Resuming there skips everything already seen and
    /// misses nothing submitted afterwards.
    pub next_start: usize,
    /// Each returned user's response text, one entry per user.
    pub responses_by_user: Vec<(UserID, String)>,
}

impl View for RetrievedResponses {
    type V = Map<Seq<char>, Seq<char>>;

    open spec fn view(&self) -> Map<Seq<char>, Seq<char>> {
        retrieved_map(self.responses_by_user@)
    }
}

impl RetrievedResponses {
    /// One entry per user.
    pub open spec fn wf(&self) -> bool {
        distinct_retrieved_keys(self.responses_by_user@)
    }

    /// The returned response of `user`, if one was returned.
    pub fn get(&self, user: &str) -> (r: Option<&String>)
        requires
            self.wf(),
        ensures
            match r {
                Some(d) => self@.contains_key(user@) && d@ == self@[user@],
                None => !self@.contains_key(user@),
            },
    {
        let n = self.responses_by_user.len();
        let mut i: usize = 0;
        while i < n
            invariant
                self.wf(),
                n == self.responses_by_user@.len(),
                i <= n,
                forall|j: int| 0 <= j < i ==> self.responses_by_user@[j].0@ != user@,
            decreases n - i,
        {
            if crate::text::str_eq(self.responses_by_user[i].0.0.as_str(), user) {
                proof {
                    lemma_retrieved_map_index(self.responses_by_user@, i as int);
                }
                return Some(&self.responses_by_user[i].1);
            }
            i = i + 1;
        }
        proof {
            lemma_retrieved_map_contains(self.responses_by_user@, user@);
        }
        None
    }
}

/// The entry `v` after a poll with cursor `start` scanned it: marked as
/// delivered when the cursor had already passed it, untouched otherwise.
pub open spec fn scanned_entry(v: ResponseView, start: nat) -> ResponseView {
    if v.id < start {
        ResponseView { was_received: true, ..v }
    } else {
        v
    }
}

/// A whole ledger after a poll with cursor `start` scanned it.
pub open spec fn delivered_marked(
    rs: Map<Seq<char>, ResponseView>,
    start: nat,
) -> Map<Seq<char>, ResponseView> {
    Map::new(|u: Seq<char>| rs.contains_key(u), |u: Seq<char>| scanned_entry(rs[u], start))
}

/// What a poll with cursor `start` returns from ledger `rs`: the data of
/// exactly the entries whose sequence number is at least `start`.
pub open spec fn fresh_responses(rs: Map<Seq<char>, ResponseView>, start: nat) -> Map<
    Seq<char>,
    Seq<char>,
> {
    Map::new(
        |u: Seq<char>| rs.contains_key(u) && rs[u].id >= start,
        |u: Seq<char>| rs[u].data,
    )
}

/// A ledger scanned entry by entry denotes the scanned ledger map.
proof fn lemma_scanned_ledger(
    r0: Seq<(UserID, UserResponse)>,
    s2: Seq<(UserID, UserResponse)>,
    start: nat,
)
    requires
        s2.len() == r0.len(),
        forall|l: int| 0 <= l < r0.len() ==> (#[trigger] s2[l]).0 == r0[l].0,
        forall|l: int| 0 <= l < r0.len() ==> (#[trigger] s2[l]).1@ == scanned_entry(r0[l].1@, start),
    ensures
        response_map(s2) == delivered_marked(response_map(r0), start),
{
    lemma_response_map_pointwise(r0, s2, |v: ResponseView| scanned_entry(v, start));
    assert(response_map(s2) =~= delivered_marked(response_map(r0), start));
}

/// First phase of a response poll: under the lock, decides whether the
/// handler should wait at all and captures the response channel's
/// generation to wait against.
///
/// Waiting is called for exactly when the cursor has already seen
/// everything the ledger holds and the configured poll window is not zero.
/// The waiting itself happens outside the library with no lock held, and
/// the handler must re-read through `collect_responses` afterwards: the
/// session may have changed or vanished meanwhile.
pub fn poll_responses_prepare(state: &State, session: &str, start: usize, settings: &Settings) -> (r:
    Result<(bool, u64), AppError>)
    requires
        state.wf(),
    ensures
        !valid_session_id(session@) ==> r == Err::<(bool, u64), AppError>(AppError::BadSessionID),
        valid_session_id(session@) && !state@.contains_key(session@) ==> r == Err::<
            (bool, u64),
            AppError,
        >(AppError::SessionIDDoesNotExist),
        valid_session_id(session@) && state@.contains_key(session@) ==> {
            &&& r is Ok
            &&& r->Ok_0.0 == (state@[session@].next_response_id <= start as nat
                && settings.response_long_poll_duration != 0)
            &&& r->Ok_0.1 as nat == state@[session@].response_generation
        },
{
    let n = session.unicode_len();
    if n == 0 || n > 100 {
        return Err(AppError::BadSessionID);
    }
    match state.find_session(session) {
        None => Err(AppError::SessionIDDoesNotExist),
        Some(i) => {
            proof {
                lemma_session_map_index(state.sessions@, i as int);
            }
            let should_wait = state.sessions[i].1.next_response_id <= start
                && settings.response_long_poll_duration != 0;
            Ok((should_wait, state.sessions[i].1.response_signal.current_generation()))
        },
    }
}

/// Reads every response of the session named `session` from cursor `start`
/// on, refreshing the session's activity time.
///
/// Returns exactly the entries with a sequence number at least `start`,
/// plus the counter to resume from, and, as a side effect of the scan,
/// marks every entry the cursor had already passed as delivered — returned
/// entries are left unmarked, so they stay until a later poll moves past
/// them. This holds whether or not the caller waited before re-reading.
#[verifier::rlimit(100)]
pub fn collect_responses(state: &mut State, session: &str, start: usize, now: u64) -> (r: Result<
    RetrievedResponses,
    AppError,
>)
    requires
        old(state).wf(),
    ensures
        final(state).wf(),
        !valid_session_id(session@) ==> r == Err::<RetrievedResponses, AppError>(
            AppError::BadSessionID,
        ) && final(state)@ == old(state)@,
        valid_session_id(session@) && !old(state)@.contains_key(session@) ==> r == Err::<
            RetrievedResponses,
            AppError,
        >(AppError::SessionIDDoesNotExist) && final(state)@ == old(state)@,
        valid_session_id(session@) && old(state)@.contains_key(session@) ==> r is Ok && {
            let sess = old(state)@[session@];
            let rr = r->Ok_0;
            &&& rr.next_start as nat == sess.next_response_id
            &&& rr.wf()
            &&& rr@ == fresh_responses(sess.responses, start as nat)
            &&& final(state)@ == old(state)@.insert(
                session@,
                (SessionView {
                    responses: delivered_marked(sess.responses, start as nat),
                    last_request: now as nat,
                    ..sess
                }),
            )
        },
{
    let n = session.unicode_len();
    if n == 0 || n > 100 {
        return Err(AppError::BadSessionID);
    }
    let ghost s0 = state.sessions@;
    match state.find_session(session) {
        None => Err(AppError::SessionIDDoesNotExist),
        Some(i) => {
            proof {
                lemma_session_map_index(s0, i as int);
            }
            let mut pair = state.sessions.remove(i);
            let ghost p0 = (pair.0, pair.1);
            let ghost r0 = pair.1.responses@;
            let next_start = pair.1.next_response_id;
            let mut collected: Vec<(UserID, String)> = Vec::new();
            let m = pair.1.responses.len();
            let mut j: usize = 0;
            proof {
                assert(r0.take(0) =~= Seq::<(UserID, UserResponse)>::empty());
                assert(retrieved_map(collected@) =~= fresh_responses(
                    response_map(r0.take(0)),
                    start as nat,
                ));
            }
            while j < m
                invariant
                    m == pair.1.responses@.len(),
                    m == r0.len(),
                    j <= m,
                    distinct_response_keys(r0),
                    pair.0 == p0.0,
                    pair.1.page == p0.1.page,
                    pair.1.access_token == p0.1.access_token,
                    pair.1.next_response_id == p0.1.next_response_id,
                    pair.1.last_request == p0.1.last_request,
                    pair.1.page_signal == p0.1.page_signal,
                    pair.1.response_signal == p0.1.response_signal,
                    forall|l: int| j <= l < m ==> pair.1.responses@[l] == r0[l],
                    forall|l: int| 0 <= l < m ==> (#[trigger] pair.1.responses@[l]).0 == r0[l].0,
                    forall|l: int|
                        0 <= l < j ==> (#[trigger] pair.1.responses@[l]).1@ == scanned_entry(
                            r0[l].1@,
                            start as nat,
                        ),
                    distinct_retrieved_keys(collected@),
                    retrieved_map(collected@) == fresh_responses(
                        response_map(r0.take(j as int)),
                        start as nat,
                    ),
                    forall|l: int|
                        0 <= l < collected@.len() ==> response_map(r0.take(j as int)).contains_key(
                            (#[trigger] collected@[l]).0@,
                        ),
                decreases m - j,
            {
                proof {
                    assert(r0.take(j + 1) =~= r0.take(j as int).push(r0[j as int]));
                    lemma_response_map_push(r0.take(j as int), r0[j as int]);
                    lemma_response_map_contains(r0.take(j as int), r0[j as int].0@);
                    assert(forall|l: int| 0 <= l < j ==> r0.take(j as int)[l] == r0[l]);
                    assert(!response_map(r0.take(j as int)).contains_key(r0[j as int].0@));
                }
                let ghost seq_before = pair.1.responses@;
                let ghost coll_before = collected@;
                if pair.1.responses[j].1.id < start {
                    let mut slot = pair.1.responses.remove(j);
                    slot.1.was_received = true;
                    pair.1.responses.insert(j, slot);
                    proof {
                        assert(pair.1.responses@ =~= seq_before.update(
                            j as int,
                            pair.1.responses@[j as int],
                        ));
                        assert(fresh_responses(
                            response_map(r0.take(j + 1)),
                            start as nat,
                        ) =~= fresh_responses(response_map(r0.take(j as int)), start as nat));
                    }
                } else {
                    let entry_user = UserID(pair.1.responses[j].0.0.clone());
                    let entry_data = pair.1.responses[j].1.data.clone();
                    collected.push((entry_user, entry_data));
                    proof {
                        lemma_retrieved_map_push(coll_before, collected@.last());
                        assert(collected@.drop_last() =~= coll_before);
                        assert(collected@ =~= coll_before.push(collected@.last()));
                        assert(fresh_responses(
                            response_map(r0.take(j + 1)),
                            start as nat,
                        ) =~= fresh_responses(response_map(r0.take(j as int)), start as nat).insert(
                            r0[j as int].0@,
                            r0[j as int].1@.data,
                        ));
                    }
                }
                j = j + 1;
            }
            pair.1.last_request = now;
            proof {
                assert(r0.take(m as int) =~= r0);
                lemma_scanned_ledger(r0, pair.1.responses@, start as nat);
                assert(pair.1@ == (SessionView {
                    responses: delivered_marked(response_map(r0), start as nat),
                    last_request: now as nat,
                    ..s0[i as int].1@
                }));
            }
            state.sessions.insert(i, pair);
            proof {
                assert(state.sessions@ =~= s0.update(i as int, state.sessions@[i as int]));
                lemma_session_map_update(s0, i as int, state.sessions@[i as int]);
            }
            Ok(RetrievedResponses { next_start, responses_by_user: collected })
        },
    }
}

} // verus!
