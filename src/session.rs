//! The in-memory registry of server-issued session tokens.
//!
//! Entries are kept in insertion order with at most one entry per token.
//! An entry whose `expires_at_unix_ms <= now` is treated as absent: reads
//! sweep such entries out before answering.

use vstd::prelude::*;

use crate::codec::{is_alphanumeric, random_alphanumeric};
use crate::error::AuthError;
use crate::text::{text_eq, token_prefix};

verus! {

/// Shortest session lifetime a caller may ask for, in seconds.
pub const MIN_TTL_SECONDS: u64 = 60;

/// Longest session lifetime a caller may ask for, in seconds (one week).
pub const MAX_TTL_SECONDS: u64 = 604800;

/// Lifetime given to a session when the caller names none, in seconds.
pub const DEFAULT_TTL_SECONDS: u64 = 3600;

/// Largest clock reading, in milliseconds, at which a session of the longest
/// lifetime can still be created without its expiry overflowing.
pub const MAX_CREATE_TIME_MS: i64 = 9223372036249975807;

/// What the store keeps for one live token.
#[derive(Clone, Debug)]
pub struct SessionToken {
    pub created_at_unix_ms: i64,
    pub expires_at_unix_ms: i64,
    pub label: Option<String>,
}

/// One token with its session.
#[derive(Clone, Debug)]
pub struct SessionEntry {
    pub token: String,
    pub session: SessionToken,
}

/// What `list` reports of one live session: never the whole token.
#[derive(Clone, Debug)]
pub struct SessionSummary {
    pub token_prefix: String,
    pub created_at_unix_ms: i64,
    pub expires_at_unix_ms: i64,
    pub label: Option<String>,
}

pub open spec fn ttl_allowed(ttl_seconds: u64) -> bool {
    MIN_TTL_SECONDS <= ttl_seconds <= MAX_TTL_SECONDS
}

/// The entry of `token` in `entries`, searching from the newest.
pub open spec fn lookup(entries: Seq<SessionEntry>, token: Seq<char>) -> Option<SessionEntry>
    decreases entries.len(),
{
    if entries.len() == 0 {
        None
    } else if entries.last().token@ == token {
        Some(entries.last())
    } else {
        lookup(entries.drop_last(), token)
    }
}

/// No token appears in two entries.
pub open spec fn tokens_unique(entries: Seq<SessionEntry>) -> bool
    decreases entries.len(),
{
    entries.len() == 0 || (lookup(entries.drop_last(), entries.last().token@) is None
        && tokens_unique(entries.drop_last()))
}

pub open spec fn is_live(s: SessionToken, now: i64) -> bool {
    s.expires_at_unix_ms > now
}

pub open spec fn token_is_not(token: Seq<char>) -> spec_fn(SessionEntry) -> bool {
    |e: SessionEntry| e.token@ != token
}

pub open spec fn live_at(now: i64) -> spec_fn(SessionEntry) -> bool {
    |e: SessionEntry| is_live(e.session, now)
}

/// `entries` without the entry of `token`.
pub open spec fn without(entries: Seq<SessionEntry>, token: Seq<char>) -> Seq<SessionEntry> {
    entries.filter(token_is_not(token))
}

/// `entries` without those expired at `now`.
pub open spec fn live_only(entries: Seq<SessionEntry>, now: i64) -> Seq<SessionEntry> {
    entries.filter(live_at(now))
}

/// The session that validating `token` at `now` yields.
pub open spec fn live_lookup(entries: Seq<SessionEntry>, token: Seq<char>, now: i64) -> Option<
    SessionToken,
> {
    match lookup(entries, token) {
        Some(e) => if is_live(e.session, now) {
            Some(e.session)
        } else {
            None
        },
        None => None,
    }
}

/// The session that creating with `ttl_seconds` at `now` stores.
pub open spec fn new_session(now: i64, ttl_seconds: u64, label: Option<String>) -> SessionToken {
    SessionToken {
        created_at_unix_ms: now,
        expires_at_unix_ms: (now + ttl_seconds * 1000) as i64,
        label,
    }
}

/// The entries after storing `session` under `token`.
pub open spec fn with_session(
    entries: Seq<SessionEntry>,
    token: String,
    session: SessionToken,
) -> Seq<SessionEntry> {
    without(entries, token@).push(SessionEntry { token, session })
}

pub open spec fn prefix_len(token: Seq<char>) -> int {
    if token.len() < 10 {
        token.len() as int
    } else {
        10
    }
}

/// `r` reports entry `e` as `list` does.
pub open spec fn summarizes(r: SessionSummary, e: SessionEntry) -> bool {
    &&& r.token_prefix@ == e.token@.take(prefix_len(e.token@))
    &&& r.created_at_unix_ms == e.session.created_at_unix_ms
    &&& r.expires_at_unix_ms == e.session.expires_at_unix_ms
    &&& r.label == e.session.label
}

/// Filtering one more element of a prefix adds it where the filter passes it.
pub proof fn lemma_filter_step<A>(s: Seq<A>, f: spec_fn(A) -> bool, i: int)
    requires
        0 <= i < s.len(),
    ensures
        s.take(i + 1).filter(f) == if f(s[i]) {
            s.take(i).filter(f).push(s[i])
        } else {
            s.take(i).filter(f)
        },
{
    reveal(Seq::filter);
    assert(s.take(i + 1).drop_last() =~= s.take(i));
}

proof fn lemma_lookup_push(s: Seq<SessionEntry>, e: SessionEntry, token: Seq<char>)
    ensures
        lookup(s.push(e), token) == if e.token@ == token {
            Some(e)
        } else {
            lookup(s, token)
        },
{
    assert(s.push(e).drop_last() =~= s);
}

/// Filtering keeps the entry of a token exactly when the filter passes it.
proof fn lemma_lookup_filter(s: Seq<SessionEntry>, f: spec_fn(SessionEntry) -> bool, token: Seq<char>)
    requires
        tokens_unique(s),
    ensures
        lookup(s.filter(f), token) == match lookup(s, token) {
            Some(e) => if f(e) {
                Some(e)
            } else {
                None
            },
            None => None,
        },
        tokens_unique(s.filter(f)),
    decreases s.len(),
{
    reveal(Seq::filter);
    if s.len() > 0 {
        let p = s.drop_last();
        let e = s.last();
        lemma_lookup_filter(p, f, token);
        lemma_lookup_filter(p, f, e.token@);
        if f(e) {
            lemma_lookup_push(p.filter(f), e, token);
            assert(p.filter(f).push(e).drop_last() =~= p.filter(f));
        }
    }
}

proof fn lemma_lookup_token(s: Seq<SessionEntry>, token: Seq<char>)
    ensures
        lookup(s, token) matches Some(e) ==> e.token@ == token,
    decreases s.len(),
{
    if s.len() > 0 {
        lemma_lookup_token(s.drop_last(), token);
    }
}

/// With unique tokens, the entry at index `i` is the one lookup finds.
proof fn lemma_lookup_index(s: Seq<SessionEntry>, i: int)
    requires
        tokens_unique(s),
        0 <= i < s.len(),
    ensures
        lookup(s, s[i].token@) == Some(s[i]),
    decreases s.len(),
{
    if i < s.len() - 1 {
        lemma_lookup_index(s.drop_last(), i);
    }
}

/// A token that no entry holds is not found.
proof fn lemma_lookup_absent(s: Seq<SessionEntry>, token: Seq<char>)
    requires
        forall|i: int| 0 <= i < s.len() ==> s[i].token@ != token,
    ensures
        lookup(s, token) is None,
    decreases s.len(),
{
    if s.len() > 0 {
        lemma_lookup_absent(s.drop_last(), token);
    }
}

/// The sessions of server-issued tokens.
pub struct SessionStore {
    entries: Vec<SessionEntry>,
}

impl View for SessionStore {
    type V = Seq<SessionEntry>;

    closed spec fn view(&self) -> Seq<SessionEntry> {
        self.entries@
    }
}

fn copy_session(s: &SessionToken) -> (r: SessionToken)
    ensures
        r == *s,
{
    let label = match &s.label {
        Some(l) => Some(l.clone()),
        None => None,
    };
    SessionToken {
        created_at_unix_ms: s.created_at_unix_ms,
        expires_at_unix_ms: s.expires_at_unix_ms,
        label,
    }
}

fn copy_entry(e: &SessionEntry) -> (r: SessionEntry)
    ensures
        r == *e,
{
    SessionEntry { token: e.token.clone(), session: copy_session(&e.session) }
}

impl SessionStore {
    pub open spec fn wf(&self) -> bool {
        tokens_unique(self@)
    }

    /// An empty store.
    pub fn new() -> (r: Self)
        ensures
            r.wf(),
            r@ == Seq::<SessionEntry>::empty(),
    {
        SessionStore { entries: Vec::new() }
    }

    /// Drops the entry of `drop_token` where one is named; else drops the
    /// entries expired at `now`.
    fn retain(&mut self, drop_token: Option<&str>, now: i64)
        requires
            old(self).wf(),
        ensures
            final(self).wf(),
            drop_token matches Some(t) ==> final(self)@ == without(old(self)@, t@),
            drop_token is None ==> final(self)@ == live_only(old(self)@, now),
    {
        let ghost f = match drop_token {
            Some(t) => token_is_not(t@),
            None => live_at(now),
        };
        let ghost s = self@;
        let mut kept: Vec<SessionEntry> = Vec::new();
        let n = self.entries.len();
        let mut i: usize = 0;
        while i < n
            invariant
                s == self@,
                n == s.len(),
                i <= n,
                f == (match drop_token {
                    Some(t) => token_is_not(t@),
                    None => live_at(now),
                }),
                kept@ == s.take(i as int).filter(f),
            decreases n - i,
        {
            let e = &self.entries[i];
            let keep = match drop_token {
                Some(t) => !text_eq(e.token.as_str(), t),
                None => e.session.expires_at_unix_ms > now,
            };
            proof {
                lemma_filter_step(s, f, i as int);
            }
            if keep {
                kept.push(copy_entry(e));
            }
            i = i + 1;
        }
        proof {
            assert(s.take(n as int) =~= s);
            lemma_lookup_filter(s, f, Seq::empty());
        }
        self.entries = kept;
    }

    /// Stores `session` under `token`, replacing any earlier entry of it.
    pub fn insert(&mut self, token: String, session: SessionToken)
        requires
            old(self).wf(),
        ensures
            final(self).wf(),
            final(self)@ == with_session(old(self)@, token, session),
    {
        self.retain(Some(token.as_str()), 0);
        proof {
            lemma_lookup_filter(old(self)@, token_is_not(token@), token@);
            lemma_lookup_token(old(self)@, token@);
            assert(self@.push(SessionEntry { token, session }).drop_last() =~= self@);
        }
        self.entries.push(SessionEntry { token, session });
    }


    /// Where `token` stands in the store, if anywhere.
    fn position(&self, token: &str) -> (r: Option<usize>)
        requires
            self.wf(),
        ensures
            r matches Some(i) ==> i < self@.len() && lookup(self@, token@) == Some(self@[i as int]),
            r is None ==> lookup(self@, token@) is None,
    {
        let n = self.entries.len();
        let mut i: usize = 0;
        while i < n
            invariant
                self.wf(),
                n == self@.len(),
                i <= n,
                forall|j: int| 0 <= j < i ==> self@[j].token@ != token@,
            decreases n - i,
        {
            if text_eq(self.entries[i].token.as_str(), token) {
                proof {
                    lemma_lookup_index(self@, i as int);
                }
                return Some(i);
            }
            i = i + 1;
        }
        proof {
            lemma_lookup_absent(self@, token@);
        }
        None
    }

    /// Issues a session for `token` lasting `ttl_seconds` from `now`, or
    /// refuses a lifetime outside `[60, 604800]` seconds.
    pub fn create(&mut self, token: String, now: i64, ttl_seconds: u64, label: Option<String>) -> (r:
        Result<SessionToken, AuthError>)
        requires
            old(self).wf(),
            now <= MAX_CREATE_TIME_MS,
        ensures
            final(self).wf(),
            ttl_allowed(ttl_seconds) ==> r == Ok::<SessionToken, AuthError>(
                new_session(now, ttl_seconds, label),
            ) && final(self)@ == with_session(
                old(self)@,
                token,
                new_session(now, ttl_seconds, label),
            ),
            !ttl_allowed(ttl_seconds) ==> r == Err::<SessionToken, AuthError>(
                AuthError::TtlOutOfRange,
            ) && final(self)@ == old(self)@,
    {
        if ttl_seconds < MIN_TTL_SECONDS || ttl_seconds > MAX_TTL_SECONDS {
            return Err(AuthError::TtlOutOfRange);
        }
        let expires = now + (ttl_seconds as i64) * 1000;
        let session = SessionToken {
            created_at_unix_ms: now,
            expires_at_unix_ms: expires,
            label,
        };
        let reported = copy_session(&session);
        self.insert(token, session);
        Ok(reported)
    }

    /// Removes the session of `token`; tells whether there was one.
    pub fn revoke(&mut self, token: &str) -> (r: bool)
        requires
            old(self).wf(),
        ensures
            final(self).wf(),
            final(self)@ == without(old(self)@, token@),
            r == lookup(old(self)@, token@) is Some,
    {
        let found = self.position(token);
        self.retain(Some(token), 0);
        found.is_some()
    }

    /// Drops every session expired at `now`.
    pub fn sweep(&mut self, now: i64)
        requires
            old(self).wf(),
        ensures
            final(self).wf(),
            final(self)@ == live_only(old(self)@, now),
    {
        self.retain(None, now);
    }

    /// The live session of `token` at `now`, after sweeping expired ones.
    pub fn validate(&mut self, token: &str, now: i64) -> (r: Option<SessionToken>)
        requires
            old(self).wf(),
        ensures
            final(self).wf(),
            final(self)@ == live_only(old(self)@, now),
            r == live_lookup(old(self)@, token@, now),
    {
        self.sweep(now);
        proof {
            lemma_lookup_filter(old(self)@, live_at(now), token@);
        }
        match self.position(token) {
            Some(i) => Some(copy_session(&self.entries[i].session)),
            None => None,
        }
    }

    /// The live sessions at `now`, oldest first, after sweeping expired ones.
    pub fn list(&mut self, now: i64) -> (r: Vec<SessionSummary>)
        requires
            old(self).wf(),
        ensures
            final(self).wf(),
            final(self)@ == live_only(old(self)@, now),
            r@.len() == final(self)@.len(),
            forall|i: int| 0 <= i < r@.len() ==> summarizes(#[trigger] r@[i], final(self)@[i]),
    {
        self.sweep(now);
        let mut items: Vec<SessionSummary> = Vec::new();
        let n = self.entries.len();
        let mut i: usize = 0;
        while i < n
            invariant
                n == self@.len(),
                i <= n,
                items@.len() == i,
                forall|j: int| 0 <= j < i ==> summarizes(#[trigger] items@[j], self@[j]),
            decreases n - i,
        {
            let e = &self.entries[i];
            let s = copy_session(&e.session);
            items.push(
                SessionSummary {
                    token_prefix: token_prefix(e.token.as_str()),
                    created_at_unix_ms: s.created_at_unix_ms,
                    expires_at_unix_ms: s.expires_at_unix_ms,
                    label: s.label,
                },
            );
            i = i + 1;
        }
        items
    }
}

/// A token as the store issues it: `llt_` and forty letters or digits.
pub open spec fn is_issued_token(t: Seq<char>) -> bool {
    &&& t.len() == 44
    &&& t.take(4) == seq!['l', 'l', 't', '_']
    &&& forall|i: int| 4 <= i < 44 ==> is_alphanumeric(#[trigger] t[i])
}

/// A fresh random session token.
pub fn issue_session_token() -> (r: String)
    ensures
        is_issued_token(r@),
{
    let body = random_alphanumeric(40);
    proof {
        reveal_strlit("llt_");
    }
    let r = String::from_str("llt_").concat(body.as_str());
    assert(r@.take(4) =~= seq!['l', 'l', 't', '_']);
    assert forall|i: int| 4 <= i < 44 implies is_alphanumeric(#[trigger] r@[i]) by {
        assert(r@[i] == body@[i - 4]);
    }
    r
}

/// Issued tokens hold no `.`, so none has the dotted shape of a JWT: the
/// session and JWT credential spaces are disjoint.
pub proof fn lemma_issued_token_has_no_dot(t: Seq<char>)
    requires
        is_issued_token(t),
    ensures
        forall|i: int| 0 <= i < t.len() ==> t[i] != '.',
{
    assert forall|i: int| 0 <= i < t.len() implies t[i] != '.' by {
        if i < 4 {
            assert(t[i] == t.take(4)[i]);
        } else {
            assert(is_alphanumeric(t[i]));
        }
    }
}

/// A session that was just created, with the token that names it.
pub struct CreatedSession {
    pub token: String,
    pub session: SessionToken,
}

/// Handles a request to create a session: the lifetime defaults to an hour,
/// must lie in `[60, 604800]` seconds, and the token is fresh and random.
pub fn create_session_token(
    store: &mut SessionStore,
    ttl_seconds: Option<u64>,
    label: Option<String>,
    now: i64,
) -> (r: Result<CreatedSession, AuthError>)
    requires
        old(store).wf(),
        now <= MAX_CREATE_TIME_MS,
    ensures
        final(store).wf(),
        ({
            let ttl = match ttl_seconds {
                Some(t) => t,
                None => DEFAULT_TTL_SECONDS,
            };
            if ttl_allowed(ttl) {
                r matches Ok(c) && is_issued_token(c.token@) && c.session == new_session(
                    now,
                    ttl,
                    label,
                ) && final(store)@ == with_session(old(store)@, c.token, c.session)
            } else {
                r == Err::<CreatedSession, AuthError>(AuthError::TtlOutOfRange) && final(store)@
                    == old(store)@
            }
        }),
{
    let ttl = match ttl_seconds {
        Some(t) => t,
        None => DEFAULT_TTL_SECONDS,
    };
    if ttl < MIN_TTL_SECONDS || ttl > MAX_TTL_SECONDS {
        return Err(AuthError::TtlOutOfRange);
    }
    let token = issue_session_token();
    let kept = token.clone();
    match store.create(token, now, ttl, label) {
        Ok(session) => Ok(CreatedSession { token: kept, session }),
        Err(e) => Err(e),
    }
}

/// A session created with an allowed lifetime `ttl_seconds` at `created`
/// validates at every `now` before `created + ttl_seconds` seconds, and at
/// none from then on.
pub proof fn lemma_session_lifetime(
    entries: Seq<SessionEntry>,
    token: String,
    created: i64,
    ttl_seconds: u64,
    label: Option<String>,
    now: i64,
)
    requires
        tokens_unique(entries),
        ttl_allowed(ttl_seconds),
        created <= MAX_CREATE_TIME_MS,
    ensures
        live_lookup(
            with_session(entries, token, new_session(created, ttl_seconds, label)),
            token@,
            now,
        ) is Some <==> now < created + ttl_seconds * 1000,
        now < created + ttl_seconds * 1000 ==> live_lookup(
            with_session(entries, token, new_session(created, ttl_seconds, label)),
            token@,
            now,
        ) == Some(new_session(created, ttl_seconds, label)),
{
    let session = new_session(created, ttl_seconds, label);
    lemma_lookup_push(without(entries, token@), SessionEntry { token, session }, token@);
}

/// A revoked token resolves to no session, whatever its expiry.
pub proof fn lemma_revoked_unresolvable(entries: Seq<SessionEntry>, token: Seq<char>, now: i64)
    requires
        tokens_unique(entries),
    ensures
        live_lookup(without(entries, token), token, now) is None,
{
    lemma_lookup_filter(entries, token_is_not(token), token);
    lemma_lookup_token(entries, token);
}

} // verus!
