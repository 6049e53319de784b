//! The collector's session registry: session tokens mapped to the sessions
//! they were issued for, each behind its own ownership lock.
use std::sync::Arc;
use vstd::prelude::*;

use crate::lock::{share, SharedOwnable};
use crate::token::{TOKEN_LENGTH, counter_token, is_alphanumeric_token, lemma_counter_token_injective, same_token, SessionToken};
use vstd::relations::injective_on;
use vstd::string::StringSliceAdditionalSpecFns;
use vstd::set_lib::{lemma_int_range, lemma_len_subset, lemma_map_size, set_int_range};

verus! {

/// How many random tokens are drawn before falling back to counter tokens.
pub const RANDOM_ATTEMPTS: usize = 64;

/// Among the `n + 1` counter tokens `0..=n`, some is missing from any `n`
/// tokens.
proof fn lemma_counter_token_free(tokens: Seq<Seq<u8>>, n: nat)
    requires
        tokens.len() == n,
        n < u64::MAX,
    ensures
        exists|j: int| 0 <= j <= n && !tokens.contains(#[trigger] counter_token(j as u64)),
{
    if forall|j: int| 0 <= j <= n ==> tokens.contains(#[trigger] counter_token(j as u64)) {
        let f = |j: int| counter_token(j as u64);
        let x = set_int_range(0, (n + 1) as int);
        lemma_int_range(0, (n + 1) as int);
        let y = x.map(f);
        assert(injective_on(f, x)) by {
            assert forall|a: int, b: int| x.contains(a) && x.contains(b) && #[trigger] f(a) == #[trigger] f(b) implies a == b by {
                lemma_counter_token_injective(a as u64, b as u64);
            }
        }
        lemma_map_size(x, y, f);
        tokens.lemma_cardinality_of_set();
        assert(y.subset_of(tokens.to_set()));
        lemma_len_subset(y, tokens.to_set());
    }
}

/// A session opened by an agent.
#[derive(PartialEq, Eq, Structural, Clone, Copy, Debug)]
pub struct Session {
    /// Identifier of the session in the store.
    pub id: i64,
}

/// Why a streaming connection is refused before it starts.
#[derive(PartialEq, Eq, Structural, Debug, Clone, Copy)]
pub enum SessionMutexRejection {
    /// The bearer token is malformed or was never issued.
    InvalidToken,
}

/// Issues session tokens and looks sessions up by token.
pub struct SessionManager {
    authed_sessions: Vec<(SessionToken, i64, Arc<SharedOwnable<Session>>)>,
}

impl SessionManager {
    /// The tokens issued, in order of issue.
    pub closed spec fn tokens(&self) -> Seq<Seq<u8>> {
        self.authed_sessions@.map_values(|e: (SessionToken, i64, Arc<SharedOwnable<Session>>)| e.0@)
    }

    /// The session issued with the `i`-th token.
    pub closed spec fn session_at(&self, i: int) -> SharedOwnable<Session> {
        *self.authed_sessions@[i].2
    }

    /// The identifier of the session issued with the `i`-th token.
    pub closed spec fn session_id_at(&self, i: int) -> i64 {
        self.authed_sessions@[i].1
    }

    /// Entries before `n` are as in `other`.
    pub open spec fn keeps_entries(&self, other: &SessionManager, n: int) -> bool {
        forall|i: int| 0 <= i < n ==> self.session_at(i) == other.session_at(i) && self.session_id_at(i) == other.session_id_at(i)
    }

    /// No token is issued twice.
    pub open spec fn wf(&self) -> bool {
        forall|i: int, j: int|
            0 <= i < j < self.tokens().len() ==> #[trigger] self.tokens()[i] != #[trigger] self.tokens()[j]
    }

    /// An empty registry.
    pub fn new() -> (r: SessionManager)
        ensures
            r.wf(),
            r.tokens().len() == 0,
    {
        let r = SessionManager { authed_sessions: Vec::new() };
        assert(r.tokens() =~= Seq::<Seq<u8>>::empty());
        r
    }

    /// The number of sessions registered.
    pub fn len(&self) -> (r: usize)
        ensures
            r == self.tokens().len(),
    {
        self.authed_sessions.len()
    }

    fn position(&self, token: &SessionToken) -> (r: Option<usize>)
        ensures
            match r {
                Some(i) => i < self.tokens().len() && self.tokens()[i as int] == token@,
                None => !self.tokens().contains(token@),
            },
    {
        let mut i: usize = 0;
        while i < self.authed_sessions.len()
            invariant
                0 <= i <= self.tokens().len(),
                self.tokens().len() == self.authed_sessions@.len(),
                forall|j: int| 0 <= j < i ==> self.tokens()[j] != token@,
            decreases self.authed_sessions@.len() - i,
        {
            if same_token(&self.authed_sessions[i].0, token) {
                return Some(i);
            }
            i += 1;
        }
        None
    }

    /// Whether `token` was issued.
    pub fn contains(&self, token: &SessionToken) -> (r: bool)
        ensures
            r == self.tokens().contains(token@),
    {
        self.position(token).is_some()
    }

    /// Registers `session` under `token` when that token is not issued yet;
    /// otherwise leaves the registry as it is.
    fn try_insert(&mut self, token: SessionToken, session: Session) -> (r: bool)
        requires
            old(self).wf(),
        ensures
            final(self).wf(),
            r == !old(self).tokens().contains(token@),
            r ==> final(self).tokens() == old(self).tokens().push(token@),
            r ==> final(self).session_id_at(old(self).tokens().len() as int) == session.id,
            r ==> final(self).keeps_entries(old(self), old(self).tokens().len() as int),
            !r ==> final(self).tokens() == old(self).tokens(),
            !r ==> final(self).keeps_entries(old(self), old(self).tokens().len() as int),
    {
        if self.contains(&token) {
            return false;
        }
        let ghost before = self.tokens();
        self.authed_sessions.push((token, session.id, SharedOwnable::new(session)));
        assert(self.tokens() =~= before.push(token@));
        true
    }

    /// Issues a fresh token for `session`: random tokens are drawn until one
    /// is not issued yet, which is then registered and returned. Should all
    /// `RANDOM_ATTEMPTS` draws collide (with 62^32 tokens to draw from, this
    /// does not happen in practice), the first free counter token is issued
    /// instead; such a token is not random, hence guessable, and the result
    /// says which kind was issued.
    pub fn add_session(&mut self, session: Session) -> (r: SessionToken)
        requires
            old(self).wf(),
            old(self).tokens().len() < u64::MAX,
        ensures
            final(self).wf(),
            !old(self).tokens().contains(r@),
            final(self).tokens() == old(self).tokens().push(r@),
            final(self).keeps_entries(old(self), old(self).tokens().len() as int),
            final(self).session_id_at(old(self).tokens().len() as int) == session.id,
            r@.len() == TOKEN_LENGTH,
            is_alphanumeric_token(r@) || exists|k: u64| r@ == counter_token(k),
    {
        let mut attempts: usize = 0;
        while attempts < RANDOM_ATTEMPTS
            invariant
                self.wf(),
                self.tokens() == old(self).tokens(),
                self.keeps_entries(old(self), old(self).tokens().len() as int),
            decreases RANDOM_ATTEMPTS - attempts,
        {
            let token = SessionToken::random();
            if self.try_insert(token, session) {
                return token;
            }
            attempts += 1;
        }
        let n = self.authed_sessions.len();
        proof {
            lemma_counter_token_free(self.tokens(), n as nat);
        }
        let mut k: usize = 0;
        loop
            invariant
                self.wf(),
                self.tokens() == old(self).tokens(),
                self.keeps_entries(old(self), old(self).tokens().len() as int),
                n == self.tokens().len(),
                n < u64::MAX,
                k <= n,
                forall|j: int| 0 <= j < k ==> self.tokens().contains(#[trigger] counter_token(j as u64)),
                exists|j: int| 0 <= j <= n && !self.tokens().contains(#[trigger] counter_token(j as u64)),
            decreases n - k,
        {
            let token = SessionToken::from_counter(k as u64);
            if self.try_insert(token, session) {
                return token;
            }
            if k == n {
                proof {
                    let j = choose|j: int| 0 <= j <= n && !self.tokens().contains(#[trigger] counter_token(j as u64));
                    assert(j < k || j == k);
                }
            }
            k += 1;
        }
    }

    /// The session named by the bearer credential of a streaming connection:
    /// refused unless the credential is a 32-byte token that was issued.
    pub fn authorize(&self, bearer: &str) -> (r: Result<Arc<SharedOwnable<Session>>, SessionMutexRejection>)
        ensures
            r is Ok <==> (bearer.spec_bytes().len() == TOKEN_LENGTH && self.tokens().contains(bearer.spec_bytes())),
            r matches Ok(s) ==> exists|i: int|
                0 <= i < self.tokens().len() && self.tokens()[i] == bearer.spec_bytes() && self.session_at(i) == *s,
            r matches Err(e) ==> e == SessionMutexRejection::InvalidToken,
    {
        let token = match SessionToken::parse(bearer) {
            Ok(t) => t,
            Err(_) => return Err(SessionMutexRejection::InvalidToken),
        };
        match self.get_session(&token) {
            Some(s) => Ok(s),
            None => Err(SessionMutexRejection::InvalidToken),
        }
    }

    /// The session issued with `token`, if any.
    pub fn get_session(&self, token: &SessionToken) -> (r: Option<Arc<SharedOwnable<Session>>>)
        ensures
            r is Some <==> self.tokens().contains(token@),
            r matches Some(s) ==> exists|i: int|
                0 <= i < self.tokens().len() && self.tokens()[i] == token@ && self.session_at(i) == *s,
    {
        match self.position(token) {
            Some(i) => {
                let s = share(&self.authed_sessions[i].2);
                assert(self.session_at(i as int) == *s);
                Some(s)
            },
            None => None,
        }
    }
}

} // verus!
