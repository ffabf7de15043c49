//! The session store: every live session, keyed by name, together with the
//! per-session record the protocol operates on.
//!
//! Executable state lives in vectors of key/value pairs with distinct keys;
//! contracts speak about the maps those vectors denote. `State` abstracts to
//! a `Map` from session name to `SessionView`, and each session's response
//! ledger abstracts to a `Map` from user name to `ResponseView`.

use vstd::prelude::*;

use crate::access_token::AccessToken;
use crate::session_id::SessionID;
use crate::signal::Signal;
use crate::text::byte_len;
use crate::user_id::UserID;

verus! {

/// One responder's latest submission within a session.
#[derive(Debug)]
pub struct UserResponse {
    /// The submitted text.
    pub data: String,
    /// The sequence number the ledger assigned when it accepted this entry.
    pub id: usize,
    /// Whether a poll with a cursor above `id` has already skipped this
    /// entry, which makes it fair game for reclamation.
    pub was_received: bool,
    /// When the entry was accepted, in milliseconds.
    pub time: u64,
}

/// The mathematical content of a `UserResponse`.
#[verifier::ext_equal]
pub ghost struct ResponseView {
    pub data: Seq<char>,
    pub id: nat,
    pub was_received: bool,
    pub time: nat,
}

impl View for UserResponse {
    type V = ResponseView;

    open spec fn view(&self) -> ResponseView {
        ResponseView {
            data: self.data@,
            id: self.id as nat,
            was_received: self.was_received,
            time: self.time as nat,
        }
    }
}

/// The map denoted by a sequence of user/response pairs; a later pair with
/// the same key would win, though well-formed ledgers never hold one.
pub open spec fn response_map(s: Seq<(UserID, UserResponse)>) -> Map<Seq<char>, ResponseView>
    decreases s.len(),
{
    if s.len() == 0 {
        Map::empty()
    } else {
        response_map(s.drop_last()).insert(s.last().0@, s.last().1@)
    }
}

/// No two pairs share a key.
pub open spec fn distinct_response_keys(s: Seq<(UserID, UserResponse)>) -> bool {
    forall|i: int, j: int| 0 <= i < j < s.len() ==> s[i].0@ != s[j].0@
}

/// A key is in the denoted map exactly when some pair carries it.
pub proof fn lemma_response_map_contains(s: Seq<(UserID, UserResponse)>, k: Seq<char>)
    ensures
        response_map(s).contains_key(k) <==> exists|i: int| 0 <= i < s.len() && s[i].0@ == k,
    decreases s.len(),
{
    if s.len() > 0 {
        lemma_response_map_contains(s.drop_last(), k);
        if response_map(s).contains_key(k) {
            if s.last().0@ == k {
                assert(s[s.len() - 1].0@ == k);
            } else {
                let i = choose|i: int| 0 <= i < s.drop_last().len() && s.drop_last()[i].0@ == k;
                assert(s[i].0@ == k);
            }
        }
        if exists|i: int| 0 <= i < s.len() && s[i].0@ == k {
            let i = choose|i: int| 0 <= i < s.len() && s[i].0@ == k;
            if i < s.len() - 1 {
                assert(s.drop_last()[i].0@ == k);
            }
        }
    }
}

/// Appending a pair inserts it into the denoted map.
pub proof fn lemma_response_map_push(s: Seq<(UserID, UserResponse)>, p: (UserID, UserResponse))
    ensures
        response_map(s.push(p)) == response_map(s).insert(p.0@, p.1@),
{
    assert(s.push(p).drop_last() =~= s);
    assert(s.push(p).last() == p);
}

/// Replacing the pair at `i` by one with the same key updates that key in
/// the denoted map.
pub proof fn lemma_response_map_update(
    s: Seq<(UserID, UserResponse)>,
    i: int,
    p: (UserID, UserResponse),
)
    requires
        distinct_response_keys(s),
        0 <= i < s.len(),
        p.0@ == s[i].0@,
    ensures
        response_map(s.update(i, p)) == response_map(s).insert(p.0@, p.1@),
    decreases s.len(),
{
    let t = s.drop_last();
    if i == s.len() - 1 {
        assert(s.update(i, p).drop_last() =~= t);
        assert(response_map(s.update(i, p)) == response_map(t).insert(p.0@, p.1@));
        assert(response_map(s).insert(p.0@, p.1@) =~= response_map(t).insert(p.0@, p.1@));
    } else {
        assert(distinct_response_keys(t));
        assert(t[i] == s[i]);
        lemma_response_map_update(t, i, p);
        assert(s.update(i, p).drop_last() =~= t.update(i, p));
        assert(s.update(i, p).last() == s.last());
        assert(p.0@ != s.last().0@);
        assert(response_map(s.update(i, p)) == response_map(t).insert(p.0@, p.1@).insert(
            s.last().0@,
            s.last().1@,
        ));
        assert(response_map(t).insert(p.0@, p.1@).insert(s.last().0@, s.last().1@)
            =~= response_map(t).insert(s.last().0@, s.last().1@).insert(p.0@, p.1@));
    }
}

/// Putting a pair in front of a sequence whose keys avoid it inserts it
/// into the denoted map.
pub proof fn lemma_response_map_cons(p: (UserID, UserResponse), t: Seq<(UserID, UserResponse)>)
    requires
        forall|l: int| 0 <= l < t.len() ==> t[l].0@ != p.0@,
    ensures
        response_map(seq![p] + t) == response_map(t).insert(p.0@, p.1@),
    decreases t.len(),
{
    if t.len() == 0 {
        let s = seq![p] + t;
        assert(s.len() == 1);
        assert(s.last() == p);
        assert(s.drop_last() =~= Seq::<(UserID, UserResponse)>::empty());
        assert(response_map(s.drop_last()) =~= Map::<Seq<char>, ResponseView>::empty());
        assert(response_map(s) =~= Map::<Seq<char>, ResponseView>::empty().insert(p.0@, p.1@));
        assert(response_map(t) =~= Map::<Seq<char>, ResponseView>::empty());
        assert(response_map(s) =~= response_map(t).insert(p.0@, p.1@));
    } else {
        let u = t.drop_last();
        lemma_response_map_cons(p, u);
        assert((seq![p] + t).drop_last() =~= seq![p] + u);
        assert((seq![p] + t).last() == t.last());
        assert(response_map(seq![p] + t) == response_map(u).insert(p.0@, p.1@).insert(
            t.last().0@,
            t.last().1@,
        ));
        assert(t.last().0@ != p.0@);
        assert(response_map(u).insert(p.0@, p.1@).insert(t.last().0@, t.last().1@)
            =~= response_map(u).insert(t.last().0@, t.last().1@).insert(p.0@, p.1@));
        assert(response_map(t) == response_map(u).insert(t.last().0@, t.last().1@));
        assert(response_map(seq![p] + t) =~= response_map(t).insert(p.0@, p.1@));
    }
}

/// Transforming every value of a ledger sequence, keys untouched,
/// transforms its denoted map pointwise.
pub proof fn lemma_response_map_pointwise(
    s1: Seq<(UserID, UserResponse)>,
    s2: Seq<(UserID, UserResponse)>,
    f: spec_fn(ResponseView) -> ResponseView,
)
    requires
        s1.len() == s2.len(),
        forall|l: int|
            0 <= l < s1.len() ==> (#[trigger] s2[l]).0@ == s1[l].0@ && s2[l].1@ == f(s1[l].1@),
    ensures
        response_map(s2) == Map::new(
            |k: Seq<char>| response_map(s1).contains_key(k),
            |k: Seq<char>| f(response_map(s1)[k]),
        ),
    decreases s1.len(),
{
    if s1.len() == 0 {
        assert(response_map(s2) =~= Map::new(
            |k: Seq<char>| response_map(s1).contains_key(k),
            |k: Seq<char>| f(response_map(s1)[k]),
        ));
    } else {
        let t1 = s1.drop_last();
        let t2 = s2.drop_last();
        assert(forall|l: int| 0 <= l < t1.len() ==> t2[l] == s2[l] && t1[l] == s1[l]);
        lemma_response_map_pointwise(t1, t2, f);
        assert(s2.last().0@ == s1.last().0@ && s2.last().1@ == f(s1.last().1@));
        assert(response_map(s2) =~= Map::new(
            |k: Seq<char>| response_map(s1).contains_key(k),
            |k: Seq<char>| f(response_map(s1)[k]),
        ));
    }
}

/// Transforming every session of a store sequence, keys untouched,
/// transforms its denoted map pointwise.
pub proof fn lemma_session_map_pointwise(
    s1: Seq<(SessionID, SessionState)>,
    s2: Seq<(SessionID, SessionState)>,
    f: spec_fn(SessionView) -> SessionView,
)
    requires
        s1.len() == s2.len(),
        forall|l: int|
            0 <= l < s1.len() ==> (#[trigger] s2[l]).0@ == s1[l].0@ && s2[l].1@ == f(s1[l].1@),
    ensures
        session_map(s2) == Map::new(
            |k: Seq<char>| session_map(s1).contains_key(k),
            |k: Seq<char>| f(session_map(s1)[k]),
        ),
    decreases s1.len(),
{
    if s1.len() == 0 {
        assert(session_map(s2) =~= Map::new(
            |k: Seq<char>| session_map(s1).contains_key(k),
            |k: Seq<char>| f(session_map(s1)[k]),
        ));
    } else {
        let t1 = s1.drop_last();
        let t2 = s2.drop_last();
        assert(forall|l: int| 0 <= l < t1.len() ==> t2[l] == s2[l] && t1[l] == s1[l]);
        lemma_session_map_pointwise(t1, t2, f);
        assert(s2.last().0@ == s1.last().0@ && s2.last().1@ == f(s1.last().1@));
        assert(session_map(s2) =~= Map::new(
            |k: Seq<char>| session_map(s1).contains_key(k),
            |k: Seq<char>| f(session_map(s1)[k]),
        ));
    }
}

/// One session: the page its owner published, the owner's token, the
/// response ledger, the sequence counter, the last time anything touched the
/// session, and the two wake channels.
#[derive(Debug)]
pub struct SessionState {
    /// Fires when the page is replaced.
    pub page_signal: Signal,
    /// Fires when a response is submitted.
    pub response_signal: Signal,
    /// The page currently being shared.
    pub page: String,
    /// The latest response of each user, at most one entry per user.
    pub responses: Vec<(UserID, UserResponse)>,
    /// The credential of the session's current owner.
    pub access_token: AccessToken,
    /// The sequence number the next accepted response will get; never
    /// decreases, bumped once per accepted response.
    pub next_response_id: usize,
    /// When the session was last read or written, in milliseconds.
    pub last_request: u64,
}

/// The mathematical content of a `SessionState`.
#[verifier::ext_equal]
pub ghost struct SessionView {
    pub page: Seq<char>,
    pub token: Seq<char>,
    pub responses: Map<Seq<char>, ResponseView>,
    pub next_response_id: nat,
    pub last_request: nat,
    pub page_generation: nat,
    pub response_generation: nat,
}

impl View for SessionState {
    type V = SessionView;

    open spec fn view(&self) -> SessionView {
        SessionView {
            page: self.page@,
            token: self.access_token@,
            responses: response_map(self.responses@),
            next_response_id: self.next_response_id as nat,
            last_request: self.last_request as nat,
            page_generation: self.page_signal.generation as nat,
            response_generation: self.response_signal.generation as nat,
        }
    }
}

/// The record a fresh session starts from: the given page and owner, an
/// empty ledger, sequence counter at zero, fresh wake channels.
pub open spec fn fresh_session_view(token: Seq<char>, page: Seq<char>, now: nat) -> SessionView {
    SessionView {
        page: page,
        token: token,
        responses: Map::empty(),
        next_response_id: 0,
        last_request: now,
        page_generation: 0,
        response_generation: 0,
    }
}

impl SessionState {
    /// Well-formedness: one ledger entry per user, every sequence number
    /// strictly below the counter and no two alike, and every stored string
    /// short enough that its byte length is representable.
    pub open spec fn wf(&self) -> bool {
        &&& distinct_response_keys(self.responses@)
        &&& forall|u: Seq<char>|
            #[trigger] self@.responses.contains_key(u) ==> self@.responses[u].id
                < self.next_response_id
        &&& forall|u1: Seq<char>, u2: Seq<char>|
            self@.responses.contains_key(u1) && self@.responses.contains_key(u2) && u1 != u2
                ==> self@.responses[u1].id != self@.responses[u2].id
        &&& byte_len(self.page@) <= usize::MAX
        &&& byte_len(self.access_token@) <= usize::MAX
        &&& forall|i: int|
            0 <= i < self.responses@.len() ==> byte_len((#[trigger] self.responses@[i]).0@)
                <= usize::MAX
        &&& forall|i: int|
            0 <= i < self.responses@.len() ==> byte_len((#[trigger] self.responses@[i]).1.data@)
                <= usize::MAX
    }

    /// A brand-new session owned by `access_token`, publishing `page`.
    pub fn new(access_token: AccessToken, page: String, now: u64) -> (s: SessionState)
        requires
            byte_len(page@) <= usize::MAX,
            byte_len(access_token@) <= usize::MAX,
        ensures
            s@ == fresh_session_view(access_token@, page@, now as nat),
            s.wf(),
    {
        SessionState {
            page_signal: Signal::new(),
            response_signal: Signal::new(),
            page,
            responses: Vec::new(),
            access_token,
            next_response_id: 0,
            last_request: now,
        }
    }

    /// In-place page replacement by the owner: new page, cleared ledger,
    /// refreshed activity time; token, counter and channels stay.
    pub fn update(&mut self, page: String, now: u64)
        requires
            old(self).wf(),
            byte_len(page@) <= usize::MAX,
        ensures
            final(self)@ == (SessionView {
                page: page@,
                responses: Map::empty(),
                last_request: now as nat,
                ..old(self)@
            }),
            final(self).wf(),
    {
        self.page = page;
        self.responses.clear();
        self.session_used(now);
    }

    /// Records that something touched the session now.
    pub fn session_used(&mut self, now: u64)
        requires
            old(self).wf(),
        ensures
            final(self)@ == (SessionView { last_request: now as nat, ..old(self)@ }),
            final(self).wf(),
    {
        self.last_request = now;
    }
}

/// The map denoted by a sequence of name/session pairs.
pub open spec fn session_map(s: Seq<(SessionID, SessionState)>) -> Map<Seq<char>, SessionView>
    decreases s.len(),
{
    if s.len() == 0 {
        Map::empty()
    } else {
        session_map(s.drop_last()).insert(s.last().0@, s.last().1@)
    }
}

/// No two pairs share a session name.
pub open spec fn distinct_session_keys(s: Seq<(SessionID, SessionState)>) -> bool {
    forall|i: int, j: int| 0 <= i < j < s.len() ==> s[i].0@ != s[j].0@
}

/// A name is in the denoted map exactly when some pair carries it.
pub proof fn lemma_session_map_contains(s: Seq<(SessionID, SessionState)>, k: Seq<char>)
    ensures
        session_map(s).contains_key(k) <==> exists|i: int| 0 <= i < s.len() && s[i].0@ == k,
    decreases s.len(),
{
    if s.len() > 0 {
        lemma_session_map_contains(s.drop_last(), k);
        if session_map(s).contains_key(k) {
            if s.last().0@ == k {
                assert(s[s.len() - 1].0@ == k);
            } else {
                let i = choose|i: int| 0 <= i < s.drop_last().len() && s.drop_last()[i].0@ == k;
                assert(s[i].0@ == k);
            }
        }
        if exists|i: int| 0 <= i < s.len() && s[i].0@ == k {
            let i = choose|i: int| 0 <= i < s.len() && s[i].0@ == k;
            if i < s.len() - 1 {
                assert(s.drop_last()[i].0@ == k);
            }
        }
    }
}

/// With distinct names, the denoted map sends each pair's name to its
/// session.
pub proof fn lemma_session_map_index(s: Seq<(SessionID, SessionState)>, i: int)
    requires
        distinct_session_keys(s),
        0 <= i < s.len(),
    ensures
        session_map(s).contains_key(s[i].0@),
        session_map(s)[s[i].0@] == s[i].1@,
    decreases s.len(),
{
    if i < s.len() - 1 {
        assert(distinct_session_keys(s.drop_last()));
        lemma_session_map_index(s.drop_last(), i);
        assert(s.drop_last()[i] == s[i]);
        assert(s[i].0@ != s.last().0@);
    }
}

/// Appending a pair inserts it into the denoted map.
pub proof fn lemma_session_map_push(s: Seq<(SessionID, SessionState)>, p: (SessionID, SessionState))
    ensures
        session_map(s.push(p)) == session_map(s).insert(p.0@, p.1@),
{
    assert(s.push(p).drop_last() =~= s);
    assert(s.push(p).last() == p);
}

/// Replacing the pair at `i` by one with the same name updates that name in
/// the denoted map.
pub proof fn lemma_session_map_update(
    s: Seq<(SessionID, SessionState)>,
    i: int,
    p: (SessionID, SessionState),
)
    requires
        distinct_session_keys(s),
        0 <= i < s.len(),
        p.0@ == s[i].0@,
    ensures
        session_map(s.update(i, p)) == session_map(s).insert(p.0@, p.1@),
    decreases s.len(),
{
    let t = s.drop_last();
    if i == s.len() - 1 {
        assert(s.update(i, p).drop_last() =~= t);
        assert(session_map(s.update(i, p)) == session_map(t).insert(p.0@, p.1@));
        assert(session_map(s).insert(p.0@, p.1@) =~= session_map(t).insert(p.0@, p.1@));
    } else {
        assert(distinct_session_keys(t));
        assert(t[i] == s[i]);
        lemma_session_map_update(t, i, p);
        assert(s.update(i, p).drop_last() =~= t.update(i, p));
        assert(s.update(i, p).last() == s.last());
        assert(p.0@ != s.last().0@);
        assert(session_map(s.update(i, p)) == session_map(t).insert(p.0@, p.1@).insert(
            s.last().0@,
            s.last().1@,
        ));
        assert(session_map(t).insert(p.0@, p.1@).insert(s.last().0@, s.last().1@)
            =~= session_map(t).insert(s.last().0@, s.last().1@).insert(p.0@, p.1@));
    }
}

/// Putting a pair in front of a sequence whose names avoid it inserts it
/// into the denoted map.
pub proof fn lemma_session_map_cons(p: (SessionID, SessionState), t: Seq<(SessionID, SessionState)>)
    requires
        forall|l: int| 0 <= l < t.len() ==> t[l].0@ != p.0@,
    ensures
        session_map(seq![p] + t) == session_map(t).insert(p.0@, p.1@),
    decreases t.len(),
{
    if t.len() == 0 {
        let s = seq![p] + t;
        assert(s.len() == 1);
        assert(s.last() == p);
        assert(s.drop_last() =~= Seq::<(SessionID, SessionState)>::empty());
        assert(session_map(s.drop_last()) =~= Map::<Seq<char>, SessionView>::empty());
        assert(session_map(s) =~= Map::<Seq<char>, SessionView>::empty().insert(p.0@, p.1@));
        assert(session_map(t) =~= Map::<Seq<char>, SessionView>::empty());
        assert(session_map(s) =~= session_map(t).insert(p.0@, p.1@));
    } else {
        let u = t.drop_last();
        lemma_session_map_cons(p, u);
        assert((seq![p] + t).drop_last() =~= seq![p] + u);
        assert((seq![p] + t).last() == t.last());
        assert(session_map(seq![p] + t) == session_map(u).insert(p.0@, p.1@).insert(
            t.last().0@,
            t.last().1@,
        ));
        assert(t.last().0@ != p.0@);
        assert(session_map(u).insert(p.0@, p.1@).insert(t.last().0@, t.last().1@)
            =~= session_map(u).insert(t.last().0@, t.last().1@).insert(p.0@, p.1@));
        assert(session_map(t) == session_map(u).insert(t.last().0@, t.last().1@));
        assert(session_map(seq![p] + t) =~= session_map(t).insert(p.0@, p.1@));
    }
}

/// Every live session. The whole mapping is guarded by one lock outside the
/// library; each operation below runs while that lock is held.
#[derive(Debug)]
pub struct State {
    /// The sessions, one pair per live session name.
    pub sessions: Vec<(SessionID, SessionState)>,
}

impl View for State {
    type V = Map<Seq<char>, SessionView>;

    open spec fn view(&self) -> Map<Seq<char>, SessionView> {
        session_map(self.sessions@)
    }
}

/// Every pair of the sequence holds a well-formed session under a name
/// whose byte length is representable.
pub open spec fn wf_session_entries(s: Seq<(SessionID, SessionState)>) -> bool {
    &&& forall|i: int| 0 <= i < s.len() ==> (#[trigger] s[i]).1.wf()
    &&& forall|i: int| 0 <= i < s.len() ==> byte_len((#[trigger] s[i]).0@) <= usize::MAX
}

impl State {
    /// Well-formedness: one entry per session name, every session
    /// well-formed, every name's byte length representable.
    pub open spec fn wf(&self) -> bool {
        &&& distinct_session_keys(self.sessions@)
        &&& wf_session_entries(self.sessions@)
    }

    /// A store with no sessions.
    pub fn new() -> (s: State)
        ensures
            s@ == Map::<Seq<char>, SessionView>::empty(),
            s.wf(),
    {
        State { sessions: Vec::new() }
    }

    /// The position of the session named `session`, if one is live.
    pub fn find_session(&self, session: &str) -> (r: Option<usize>)
        ensures
            match r {
                Some(i) => i < self.sessions@.len() && self.sessions@[i as int].0@ == session@,
                None => !self@.contains_key(session@),
            },
    {
        let n = self.sessions.len();
        let mut i: usize = 0;
        while i < n
            invariant
                n == self.sessions@.len(),
                i <= n,
                forall|j: int| 0 <= j < i ==> self.sessions@[j].0@ != session@,
            decreases n - i,
        {
            if crate::text::str_eq(self.sessions[i].0.0.as_str(), session) {
                return Some(i);
            }
            i = i + 1;
        }
        proof {
            lemma_session_map_contains(self.sessions@, session@);
        }
        None
    }
}

impl Default for State {
    /// Same as `State::new`.
    fn default() -> (s: State)
        ensures
            s@ == Map::<Seq<char>, SessionView>::empty(),
            s.wf(),
    {
        State::new()
    }
}

/// The position of the entry for `user` in a response ledger, if any.
pub fn find_response(responses: &Vec<(UserID, UserResponse)>, user: &str) -> (r: Option<usize>)
    ensures
        match r {
            Some(i) => i < responses@.len() && responses@[i as int].0@ == user@,
            None => !response_map(responses@).contains_key(user@),
        },
{
    let n = responses.len();
    let mut i: usize = 0;
    while i < n
        invariant
            n == responses@.len(),
            i <= n,
            forall|j: int| 0 <= j < i ==> responses@[j].0@ != user@,
        decreases n - i,
    {
        if crate::text::str_eq(responses[i].0.0.as_str(), user) {
            return Some(i);
        }
        i = i + 1;
    }
    proof {
        lemma_response_map_contains(responses@, user@);
    }
    None
}

} // verus!
