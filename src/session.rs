use vstd::prelude::*;
use crate::error::Error;

verus! {

/// How far a session is trusted.
#[derive(Debug, Clone, Copy, PartialEq, Eq, Structural)]
pub enum SessionTrust {
    /// The password was checked but a second factor is still owed: the
    /// session may only be used to complete that challenge.
    Restricted,
    /// Every required factor was checked.
    Full,
}

/// A login session, identified by its bearer token.
#[derive(Debug)]
pub struct Session {
    pub session_token: String,
    pub user_id: i64,
    /// Seconds since the Unix epoch.
    pub created_at: u64,
    pub ip_address: String,
    pub user_agent: String,
    pub trust: SessionTrust,
}

impl Session {
    pub fn is_restricted(&self) -> (r: bool)
        ensures
            r == (self.trust == SessionTrust::Restricted),
    {
        match self.trust {
            SessionTrust::Restricted => true,
            SessionTrust::Full => false,
        }
    }

    /// An equal copy of this session.
    pub fn duplicate(&self) -> (r: Session)
        ensures
            r == *self,
    {
        Session {
            session_token: self.session_token.clone(),
            user_id: self.user_id,
            created_at: self.created_at,
            ip_address: self.ip_address.clone(),
            user_agent: self.user_agent.clone(),
            trust: self.trust,
        }
    }
}

/// No two sessions share a token.
pub open spec fn tokens_unique(s: Seq<Session>) -> bool {
    forall|i: int, j: int|
        0 <= i < s.len() && 0 <= j < s.len() && i != j ==> #[trigger] s[i].session_token@
            != #[trigger] s[j].session_token@
}

pub open spec fn has_token(s: Seq<Session>, token: Seq<char>) -> bool {
    exists|i: int| 0 <= i < s.len() && #[trigger] s[i].session_token@ == token
}

/// The sessions of one user, in the order of `s`.
pub open spec fn sessions_of(s: Seq<Session>, user_id: i64) -> Seq<Session>
    decreases s.len(),
{
    if s.len() == 0 {
        Seq::empty()
    } else {
        let rest = sessions_of(s.drop_last(), user_id);
        if s.last().user_id == user_id {
            rest.push(s.last())
        } else {
            rest
        }
    }
}

/// Whether `invalidate_others(token, user_id)` destroys `x`.
pub open spec fn destroyed_by(x: Session, token: Seq<char>, user_id: i64) -> bool {
    x.user_id == user_id && x.session_token@ != token
}

/// What `invalidate_others(token, user_id)` leaves, in order.
pub open spec fn kept_after(s: Seq<Session>, token: Seq<char>, user_id: i64) -> Seq<Session>
    decreases s.len(),
{
    if s.len() == 0 {
        Seq::empty()
    } else {
        let rest = kept_after(s.drop_last(), token, user_id);
        if destroyed_by(s.last(), token, user_id) {
            rest
        } else {
            rest.push(s.last())
        }
    }
}

/// The tokens that `invalidate_others(token, user_id)` destroys, in order.
pub open spec fn destroyed_tokens(s: Seq<Session>, token: Seq<char>, user_id: i64) -> Seq<
    Seq<char>,
>
    decreases s.len(),
{
    if s.len() == 0 {
        Seq::empty()
    } else {
        let rest = destroyed_tokens(s.drop_last(), token, user_id);
        if destroyed_by(s.last(), token, user_id) {
            rest.push(s.last().session_token@)
        } else {
            rest
        }
    }
}

/// What `get_user` answers for a token.
pub open spec fn user_of_token(s: Seq<Session>, token: Seq<char>, allow_restricted: bool) -> Result<
    i64,
    Error,
> {
    if !has_token(s, token) {
        Err(Error::NotFound)
    } else {
        let i = choose|i: int| 0 <= i < s.len() && #[trigger] s[i].session_token@ == token;
        if !allow_restricted && s[i].trust == SessionTrust::Restricted {
            Err(Error::RestrictedSession)
        } else {
            Ok(s[i].user_id)
        }
    }
}

/// The session that a user gets when it has been created or renewed.
pub open spec fn new_session(
    token: String,
    user_id: i64,
    now: u64,
    ip_address: String,
    user_agent: String,
    trust: SessionTrust,
) -> Session {
    Session { session_token: token, user_id, created_at: now, ip_address, user_agent, trust }
}

proof fn lemma_unique_index(s: Seq<Session>, i: int, j: int)
    requires
        tokens_unique(s),
        0 <= i < s.len(),
        0 <= j < s.len(),
        s[i].session_token@ == s[j].session_token@,
    ensures
        i == j,
{
}

proof fn lemma_kept_sub(s: Seq<Session>, token: Seq<char>, user_id: i64)
    requires
        tokens_unique(s),
    ensures
        tokens_unique(kept_after(s, token, user_id)),
        forall|k: int|
            0 <= k < kept_after(s, token, user_id).len() ==> exists|m: int|
                0 <= m < s.len() && #[trigger] kept_after(s, token, user_id)[k] == s[m],
    decreases s.len(),
{
    if s.len() > 0 {
        let d = s.drop_last();
        assert(tokens_unique(d));
        lemma_kept_sub(d, token, user_id);
        let rest = kept_after(d, token, user_id);
        if !destroyed_by(s.last(), token, user_id) {
            let r = rest.push(s.last());
            assert forall|k: int| 0 <= k < rest.len() implies #[trigger] rest[k].session_token@
                != s.last().session_token@ by {
                let m = choose|m: int| 0 <= m < d.len() && rest[k] == d[m];
                assert(s[m] == d[m]);
                assert(s[s.len() - 1] == s.last());
            }
            assert forall|k: int| 0 <= k < r.len() implies exists|m: int|
                0 <= m < s.len() && #[trigger] r[k] == s[m] by {
                if k < rest.len() {
                    let m = choose|m: int| 0 <= m < d.len() && rest[k] == d[m];
                    assert(r[k] == s[m]);
                } else {
                    assert(r[k] == s[s.len() - 1]);
                }
            }
        } else {
            assert forall|k: int| 0 <= k < rest.len() implies exists|m: int|
                0 <= m < s.len() && #[trigger] rest[k] == s[m] by {
                let m = choose|m: int| 0 <= m < d.len() && rest[k] == d[m];
                assert(rest[k] == s[m]);
            }
        }
    }
}

/// The sessions that a `SessionService` holds, with unique tokens.
pub struct SessionService {
    sessions: Vec<Session>,
}

impl View for SessionService {
    type V = Seq<Session>;

    closed spec fn view(&self) -> Seq<Session> {
        self.sessions@
    }
}

impl SessionService {
    pub open spec fn wf(&self) -> bool {
        tokens_unique(self@)
    }

    pub fn new() -> (r: SessionService)
        ensures
            r@ == Seq::<Session>::empty(),
            r.wf(),
    {
        SessionService { sessions: Vec::new() }
    }

    /// The position of the session with this token.
    pub fn position(&self, token: &String) -> (r: Option<usize>)
        ensures
            match r {
                Some(i) => i < self@.len() && self@[i as int].session_token@ == token@,
                None => !has_token(self@, token@),
            },
    {
        let mut i: usize = 0;
        while i < self.sessions.len()
            invariant
                i <= self.sessions@.len(),
                forall|k: int| 0 <= k < i ==> #[trigger] self@[k].session_token@ != token@,
            decreases self.sessions@.len() - i,
        {
            if self.sessions[i].session_token == *token {
                return Some(i);
            }
            i = i + 1;
        }
        None
    }

    /// Stores a new session under `token`, which the caller minted at random.
    ///
    /// Fails with `InternalServerError`, changing nothing, if the token is
    /// already in use.
    pub fn create(
        &mut self,
        user_id: i64,
        ip_address: String,
        user_agent: String,
        restricted: bool,
        token: String,
        now: u64,
    ) -> (r: Result<String, Error>)
        requires
            old(self).wf(),
        ensures
            final(self).wf(),
            has_token(old(self)@, token@) ==> r == Err::<String, Error>(Error::InternalServerError)
                && final(self)@ == old(self)@,
            !has_token(old(self)@, token@) ==> r is Ok && r->Ok_0@ == token@ && final(self)@
                == old(self)@.push(
                new_session(
                    token,
                    user_id,
                    now,
                    ip_address,
                    user_agent,
                    if restricted {
                        SessionTrust::Restricted
                    } else {
                        SessionTrust::Full
                    },
                ),
            ),
    {
        if self.position(&token).is_some() {
            return Err(Error::InternalServerError);
        }
        let trust = if restricted {
            SessionTrust::Restricted
        } else {
            SessionTrust::Full
        };
        let out = token.clone();
        let ghost before = self@;
        self.sessions.push(
            Session {
                session_token: token,
                user_id,
                created_at: now,
                ip_address,
                user_agent,
                trust,
            },
        );
        proof {
            assert forall|i: int, j: int|
                0 <= i < self@.len() && 0 <= j < self@.len() && i != j implies #[trigger] self@[i].session_token@
                != #[trigger] self@[j].session_token@ by {
                if i < before.len() && j < before.len() {
                    assert(self@[i] == before[i] && self@[j] == before[j]);
                } else if i < before.len() {
                    assert(self@[i] == before[i]);
                } else {
                    assert(self@[j] == before[j]);
                }
            }
        }
        Ok(out)
    }

    /// The session with this token.
    pub fn get(&self, token: &String) -> (r: Result<Session, Error>)
        ensures
            !has_token(self@, token@) ==> r == Err::<Session, Error>(Error::NotFound),
            has_token(self@, token@) ==> r is Ok && self@.contains(r->Ok_0)
                && r->Ok_0.session_token@ == token@,
    {
        match self.position(token) {
            Some(i) => Ok(self.sessions[i].duplicate()),
            None => Err(Error::NotFound),
        }
    }

    /// The user acting through this token.
    ///
    /// A restricted session is refused unless `allow_restricted` is set:
    /// this is what keeps a half-authenticated session from acting as its user.
    pub fn get_user(&self, token: &String, allow_restricted: bool) -> (r: Result<i64, Error>)
        requires
            self.wf(),
        ensures
            r == user_of_token(self@, token@, allow_restricted),
    {
        match self.position(token) {
            Some(i) => {
                proof {
                    let k = choose|k: int|
                        0 <= k < self@.len() && #[trigger] self@[k].session_token@ == token@;
                    lemma_unique_index(self@, i as int, k);
                }
                if !allow_restricted && self.sessions[i].is_restricted() {
                    Err(Error::RestrictedSession)
                } else {
                    Ok(self.sessions[i].user_id)
                }
            },
            None => Err(Error::NotFound),
        }
    }

    /// Every session of a user, in the order they were created.
    pub fn get_all(&self, user_id: i64) -> (r: Vec<Session>)
        ensures
            r@ == sessions_of(self@, user_id),
    {
        let mut out: Vec<Session> = Vec::new();
        let mut i: usize = 0;
        while i < self.sessions.len()
            invariant
                i <= self@.len(),
                out@ == sessions_of(self@.subrange(0, i as int), user_id),
            decreases self@.len() - i,
        {
            assert(self@.subrange(0, i + 1).drop_last() == self@.subrange(0, i as int));
            if self.sessions[i].user_id == user_id {
                out.push(self.sessions[i].duplicate());
            }
            i = i + 1;
        }
        assert(self@.subrange(0, self@.len() as int) == self@);
        out
    }

    /// Destroys the session with this token.
    pub fn invalidate(&mut self, token: &String) -> (r: Result<(), Error>)
        requires
            old(self).wf(),
        ensures
            final(self).wf(),
            !has_token(old(self)@, token@) ==> r == Err::<(), Error>(Error::NotFound) && final(self)@
                == old(self)@,
            has_token(old(self)@, token@) ==> r is Ok && !has_token(final(self)@, token@)
                && exists|i: int|
                0 <= i < old(self)@.len() && old(self)@[i].session_token@ == token@ && final(self)@
                    == old(self)@.remove(i),
    {
        match self.position(token) {
            Some(i) => {
                let ghost before = self@;
                self.sessions.remove(i);
                proof {
                    lemma_remove_unique(before, i as int);
                }
                Ok(())
            },
            None => Err(Error::NotFound),
        }
    }

    /// Destroys every session of `user_id` but the one with `token`, and
    /// gives back the tokens destroyed, in order.
    pub fn invalidate_others(&mut self, token: &String, user_id: i64) -> (r: Vec<String>)
        requires
            old(self).wf(),
        ensures
            final(self).wf(),
            final(self)@ == kept_after(old(self)@, token@, user_id),
            r@.map_values(|t: String| t@) == destroyed_tokens(old(self)@, token@, user_id),
    {
        let mut kept: Vec<Session> = Vec::new();
        let mut gone: Vec<String> = Vec::new();
        let mut i: usize = 0;
        while i < self.sessions.len()
            invariant
                i <= self@.len(),
                kept@ == kept_after(self@.subrange(0, i as int), token@, user_id),
                gone@.map_values(|t: String| t@) == destroyed_tokens(
                    self@.subrange(0, i as int),
                    token@,
                    user_id,
                ),
            decreases self@.len() - i,
        {
            assert(self@.subrange(0, i + 1).drop_last() == self@.subrange(0, i as int));
            assert(self@.subrange(0, i + 1).last() == self@[i as int]);
            let s = &self.sessions[i];
            if s.user_id == user_id && s.session_token != *token {
                let t = s.session_token.clone();
                let ghost g = gone@;
                gone.push(t);
                assert(gone@.map_values(|t: String| t@) == g.map_values(|t: String| t@).push(
                    s.session_token@,
                ));
            } else {
                kept.push(s.duplicate());
            }
            i = i + 1;
        }
        assert(self@.subrange(0, self@.len() as int) == self@);
        proof {
            lemma_kept_sub(self@, token@, user_id);
        }
        self.sessions = kept;
        gone
    }

    /// Replaces the session `old_token` of `user_id` by a fully trusted one
    /// under `new_token`, in one step: afterwards only the new token is valid.
    pub fn renew(
        &mut self,
        old_token: &String,
        user_id: i64,
        ip_address: String,
        user_agent: String,
        new_token: String,
        now: u64,
    ) -> (r: Result<String, Error>)
        requires
            old(self).wf(),
        ensures
            final(self).wf(),
            renew_error(old(self)@, old_token@, user_id, new_token@) is Some ==> r == Err::<String, Error>(
                renew_error(old(self)@, old_token@, user_id, new_token@)->Some_0,
            ) && final(self)@ == old(self)@,
            renew_error(old(self)@, old_token@, user_id, new_token@) is None ==> r is Ok,
            r is Ok ==> r->Ok_0@ == new_token@ && r->Ok_0@ != old_token@ && !has_token(
                final(self)@,
                old_token@,
            ) && exists|i: int|
                0 <= i < old(self)@.len() && old(self)@[i].session_token@ == old_token@
                    && final(self)@ == old(self)@.remove(i).push(
                    new_session(new_token, user_id, now, ip_address, user_agent, SessionTrust::Full),
                ),
    {
        let i = match self.position(old_token) {
            Some(i) => i,
            None => return Err(Error::NotFound),
        };
        proof {
            assert forall|k: int|
                0 <= k < self@.len() && #[trigger] self@[k].session_token@ == old_token@ implies k
                == i by {
                lemma_unique_index(self@, i as int, k);
            }
        }
        let session_user_id = self.sessions[i].user_id;
        if session_user_id != user_id {
            return Err(Error::SessionUserId { active_user_id: user_id, session_user_id });
        }
        if self.position(&new_token).is_some() {
            return Err(Error::InternalServerError);
        }
        let ghost before = self@;
        self.sessions.remove(i);
        proof {
            lemma_remove_unique(before, i as int);
            assert forall|k: int| 0 <= k < self@.len() implies #[trigger] self@[k].session_token@
                != new_token@ by {
                if k < i {
                    assert(self@[k] == before[k]);
                } else {
                    assert(self@[k] == before[k + 1]);
                }
            }
        }
        let r = self.create(user_id, ip_address, user_agent, false, new_token, now);
        r
    }
}

/// The error that `renew` reports, given the sessions before the call, if any.
pub open spec fn renew_error(
    s: Seq<Session>,
    old_token: Seq<char>,
    user_id: i64,
    new_token: Seq<char>,
) -> Option<Error> {
    if !has_token(s, old_token) {
        Some(Error::NotFound)
    } else {
        let i = choose|i: int| 0 <= i < s.len() && #[trigger] s[i].session_token@ == old_token;
        if s[i].user_id != user_id {
            Some(Error::SessionUserId { active_user_id: user_id, session_user_id: s[i].user_id })
        } else if has_token(s, new_token) {
            Some(Error::InternalServerError)
        } else {
            None
        }
    }
}

proof fn lemma_remove_unique(s: Seq<Session>, i: int)
    requires
        tokens_unique(s),
        0 <= i < s.len(),
    ensures
        tokens_unique(s.remove(i)),
        !has_token(s.remove(i), s[i].session_token@),
{
    let r = s.remove(i);
    assert forall|a: int, b: int|
        0 <= a < r.len() && 0 <= b < r.len() && a != b implies #[trigger] r[a].session_token@
        != #[trigger] r[b].session_token@ by {
        let a2 = if a < i { a } else { a + 1 };
        let b2 = if b < i { b } else { b + 1 };
        assert(r[a] == s[a2] && r[b] == s[b2]);
    }
    assert forall|a: int| 0 <= a < r.len() implies #[trigger] r[a].session_token@
        != s[i].session_token@ by {
        let a2 = if a < i { a } else { a + 1 };
        assert(r[a] == s[a2]);
    }
}

} // verus!
