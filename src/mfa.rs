use vstd::prelude::*;
use crate::error::Error;
use crate::totp::{totp_accepts, totp_valid};

verus! {

/// The second-factor configuration of one user. It exists exactly while
/// multi-factor authentication is enabled for that user.
#[derive(Debug)]
pub struct MfaConfiguration {
    pub user_id: i64,
    pub totp_secret: Vec<u8>,
    /// Hashes of the recovery codes not used yet; each is good for one login.
    pub recovery_code_hashes: Vec<String>,
}

/// The outcome of a recovery-code check.
#[derive(Debug)]
pub struct RecoveryAttempt {
    pub outcome: Result<(), Error>,
    /// How many stored hashes the code was compared with.
    pub comparisons: usize,
}

/// No two configurations belong to one user.
pub open spec fn users_unique(s: Seq<MfaConfiguration>) -> bool {
    forall|i: int, j: int|
        0 <= i < s.len() && 0 <= j < s.len() && i != j ==> #[trigger] s[i].user_id
            != #[trigger] s[j].user_id
}

/// The position of a user's configuration, if there is one.
pub open spec fn config_index(s: Seq<MfaConfiguration>, user_id: i64) -> Option<int> {
    if exists|i: int| 0 <= i < s.len() && #[trigger] s[i].user_id == user_id {
        Some(choose|i: int| 0 <= i < s.len() && #[trigger] s[i].user_id == user_id)
    } else {
        None
    }
}

/// The user's TOTP secret; absent exactly when multi-factor authentication is disabled.
pub open spec fn secret_of(s: Seq<MfaConfiguration>, user_id: i64) -> Option<Seq<u8>> {
    match config_index(s, user_id) {
        Some(i) => Some(s[i].totp_secret@),
        None => None,
    }
}

/// The hashes of the user's unused recovery codes.
pub open spec fn hashes_of(s: Seq<MfaConfiguration>, user_id: i64) -> Seq<String> {
    match config_index(s, user_id) {
        Some(i) => s[i].recovery_code_hashes@,
        None => Seq::empty(),
    }
}

/// What a TOTP check for this user answers.
pub open spec fn totp_verdict(s: Seq<MfaConfiguration>, user_id: i64, entered: u32, now: u64) -> Result<
    (),
    Error,
> {
    match secret_of(s, user_id) {
        Some(secret) => if totp_accepts(secret, entered, now) {
            Ok(())
        } else {
            Err(Error::InvalidAuthentication)
        },
        None => Err(Error::InvalidAuthentication),
    }
}

/// The two states agree on everything they hold for `user_id`.
pub open spec fn same_for(a: Seq<MfaConfiguration>, b: Seq<MfaConfiguration>, user_id: i64) -> bool {
    secret_of(a, user_id) == secret_of(b, user_id) && hashes_of(a, user_id) == hashes_of(
        b,
        user_id,
    )
}

proof fn lemma_index_at(s: Seq<MfaConfiguration>, user_id: i64, i: int)
    requires
        users_unique(s),
        0 <= i < s.len(),
        s[i].user_id == user_id,
    ensures
        config_index(s, user_id) == Some(i),
{
    let k = choose|k: int| 0 <= k < s.len() && #[trigger] s[k].user_id == user_id;
    assert(s[k].user_id == s[i].user_id);
}

proof fn lemma_same_for(a: Seq<MfaConfiguration>, b: Seq<MfaConfiguration>, user_id: i64)
    requires
        users_unique(a),
        users_unique(b),
        forall|j: int| 0 <= j < a.len() && #[trigger] a[j].user_id == user_id ==> b.contains(a[j]),
        forall|k: int| 0 <= k < b.len() && #[trigger] b[k].user_id == user_id ==> a.contains(b[k]),
    ensures
        same_for(a, b, user_id),
{
    match config_index(a, user_id) {
        Some(j) => {
            lemma_index_at(a, user_id, j);
            assert(b.contains(a[j]));
            let k = choose|k: int| 0 <= k < b.len() && b[k] == a[j];
            lemma_index_at(b, user_id, k);
        },
        None => {
            if exists|k: int| 0 <= k < b.len() && #[trigger] b[k].user_id == user_id {
                let k = choose|k: int| 0 <= k < b.len() && #[trigger] b[k].user_id == user_id;
                assert(a.contains(b[k]));
                let j = choose|j: int| 0 <= j < a.len() && a[j] == b[k];
                assert(a[j].user_id == user_id);
            }
        },
    }
}

/// Replacing the configuration at `p` by one of the same user changes nothing for the others.
proof fn lemma_replace_at(a: Seq<MfaConfiguration>, b: Seq<MfaConfiguration>, p: int)
    requires
        users_unique(a),
        0 <= p < a.len(),
        b.len() == a.len(),
        b[p].user_id == a[p].user_id,
        forall|k: int| 0 <= k < a.len() && k != p ==> b[k] == a[k],
    ensures
        users_unique(b),
        config_index(b, a[p].user_id) == Some(p),
        forall|v: i64| v != a[p].user_id ==> #[trigger] same_for(a, b, v),
{
    assert forall|i: int, j: int|
        0 <= i < b.len() && 0 <= j < b.len() && i != j implies #[trigger] b[i].user_id
        != #[trigger] b[j].user_id by {
        assert(b[i].user_id == a[i].user_id && b[j].user_id == a[j].user_id);
    }
    lemma_index_at(b, a[p].user_id, p);
    assert forall|v: i64| v != a[p].user_id implies #[trigger] same_for(a, b, v) by {
        assert forall|j: int| 0 <= j < a.len() && #[trigger] a[j].user_id == v implies b.contains(
            a[j],
        ) by {
            assert(b[j] == a[j]);
        }
        assert forall|k: int| 0 <= k < b.len() && #[trigger] b[k].user_id == v implies a.contains(
            b[k],
        ) by {
            assert(b[k] == a[k]);
        }
        lemma_same_for(a, b, v);
    }
}

/// Multi-factor configurations of all users.
pub struct MfaService {
    configs: Vec<MfaConfiguration>,
}

impl View for MfaService {
    type V = Seq<MfaConfiguration>;

    closed spec fn view(&self) -> Seq<MfaConfiguration> {
        self.configs@
    }
}

impl MfaService {
    pub open spec fn wf(&self) -> bool {
        users_unique(self@)
    }

    pub fn new() -> (r: MfaService)
        ensures
            r.wf(),
            forall|u: i64| #[trigger] secret_of(r@, u) is None,
    {
        MfaService { configs: Vec::new() }
    }

    fn position(&self, user_id: i64) -> (r: Option<usize>)
        requires
            self.wf(),
        ensures
            r == match config_index(self@, user_id) {
                Some(i) => Some(i as usize),
                None => None::<usize>,
            },
            r matches Some(i) ==> i < self@.len() && self@[i as int].user_id == user_id,
    {
        let mut i: usize = 0;
        while i < self.configs.len()
            invariant
                self.wf(),
                i <= self@.len(),
                forall|k: int| 0 <= k < i ==> #[trigger] self@[k].user_id != user_id,
            decreases self@.len() - i,
        {
            if self.configs[i].user_id == user_id {
                proof {
                    lemma_index_at(self@, user_id, i as int);
                }
                return Some(i);
            }
            i = i + 1;
        }
        None
    }

    /// Whether the user has multi-factor authentication enabled.
    pub fn is_enabled(&self, user_id: i64) -> (r: bool)
        requires
            self.wf(),
        ensures
            r == (secret_of(self@, user_id) is Some),
    {
        self.position(user_id).is_some()
    }

    /// Puts `c` in place of the configuration at `p`, of the same user, and
    /// hands back the one it replaces.
    fn swap_at(&mut self, p: usize, c: MfaConfiguration) -> (r: MfaConfiguration)
        requires
            old(self).wf(),
            p < old(self)@.len(),
            c.user_id == old(self)@[p as int].user_id,
        ensures
            final(self).wf(),
            r == old(self)@[p as int],
            config_index(final(self)@, c.user_id) == Some(p as int),
            final(self)@[p as int] == c,
            forall|v: i64| v != c.user_id ==> #[trigger] same_for(old(self)@, final(self)@, v),
    {
        let ghost before = self@;
        let r = self.configs.remove(p);
        self.configs.insert(p, c);
        proof {
            assert forall|k: int| 0 <= k < before.len() && k != p implies self@[k] == before[k] by {
                if k < p {
                } else {
                }
            }
            lemma_replace_at(before, self@, p as int);
        }
        r
    }

    /// Enables multi-factor authentication for a user with a fresh secret and
    /// the hashes of a fresh batch of recovery codes, replacing any earlier ones.
    pub fn setup(&mut self, user_id: i64, totp_secret: Vec<u8>, recovery_code_hashes: Vec<String>)
        requires
            old(self).wf(),
        ensures
            final(self).wf(),
            secret_of(final(self)@, user_id) == Some(totp_secret@),
            hashes_of(final(self)@, user_id) == recovery_code_hashes@,
            forall|v: i64| v != user_id ==> #[trigger] same_for(old(self)@, final(self)@, v),
    {
        let c = MfaConfiguration { user_id, totp_secret, recovery_code_hashes };
        match self.position(user_id) {
            Some(p) => {
                let _ = self.swap_at(p, c);
            },
            None => {
                let ghost before = self@;
                self.configs.push(c);
                proof {
                    let n = before.len() as int;
                    assert(self@[n].user_id == user_id);
                    assert forall|i: int, j: int|
                        0 <= i < self@.len() && 0 <= j < self@.len() && i != j implies #[trigger] self@[i].user_id
                        != #[trigger] self@[j].user_id by {
                        if i < n && j < n {
                            assert(self@[i] == before[i] && self@[j] == before[j]);
                        } else if i < n {
                            assert(self@[i] == before[i]);
                        } else {
                            assert(self@[j] == before[j]);
                        }
                    }
                    lemma_index_at(self@, user_id, n);
                    assert forall|v: i64| v != user_id implies #[trigger] same_for(before, self@, v) by {
                        assert forall|j: int| 0 <= j < before.len() && #[trigger] before[j].user_id
                            == v implies self@.contains(before[j]) by {
                            assert(self@[j] == before[j]);
                        }
                        assert forall|k: int| 0 <= k < self@.len() && #[trigger] self@[k].user_id
                            == v implies before.contains(self@[k]) by {
                            assert(self@[k] == before[k]);
                        }
                        lemma_same_for(before, self@, v);
                    }
                }
            },
        }
    }

    /// Checks a TOTP code for a user at time `now` (seconds since the Unix
    /// epoch). A user without multi-factor authentication never passes.
    pub fn verify(&self, user_id: i64, entered_totp: u32, now: u64) -> (r: Result<(), Error>)
        requires
            self.wf(),
        ensures
            r == totp_verdict(self@, user_id, entered_totp, now),
    {
        match self.position(user_id) {
            Some(p) => {
                if totp_valid(&self.configs[p].totp_secret, entered_totp, now) {
                    Ok(())
                } else {
                    Err(Error::InvalidAuthentication)
                }
            },
            None => Err(Error::InvalidAuthentication),
        }
    }

    /// Checks a recovery code, which `check` compares with one stored hash.
    ///
    /// Every stored hash is compared, also after a match, so the number of
    /// comparisons does not depend on where, or whether, the code matches.
    /// On a match the matching hash is removed, so the code is used up;
    /// otherwise nothing changes and `failure_sleep` is called once, so that
    /// a failure takes as long as a failed password check.
    pub fn verify_recovery<F: Fn(&String) -> bool, S: Fn()>(
        &mut self,
        user_id: i64,
        check: F,
        failure_sleep: S,
    ) -> (r: RecoveryAttempt)
        requires
            old(self).wf(),
            forall|h: &String| #[trigger] check.requires((h,)),
            failure_sleep.requires(()),
        ensures
            final(self).wf(),
            r.comparisons == hashes_of(old(self)@, user_id).len(),
            forall|v: i64| v != user_id ==> #[trigger] same_for(old(self)@, final(self)@, v),
            secret_of(final(self)@, user_id) == secret_of(old(self)@, user_id),
            r.outcome is Ok ==> exists|i: int|
                0 <= i < hashes_of(old(self)@, user_id).len() && check.ensures(
                    (&hashes_of(old(self)@, user_id)[i],),
                    true,
                ) && hashes_of(final(self)@, user_id) == hashes_of(old(self)@, user_id).remove(i),
            r.outcome is Err ==> r.outcome == Err::<(), Error>(Error::InvalidAuthentication)
                && final(self)@ == old(self)@ && forall|i: int|
                0 <= i < hashes_of(old(self)@, user_id).len() ==> check.ensures(
                    (&hashes_of(old(self)@, user_id)[i],),
                    false,
                ),
    {
        let p = match self.position(user_id) {
            Some(p) => p,
            None => {
                failure_sleep();
                return RecoveryAttempt { outcome: Err(Error::InvalidAuthentication), comparisons: 0 };
            },
        };
        let ghost hashes = self@[p as int].recovery_code_hashes@;
        let n = self.configs[p].recovery_code_hashes.len();
        let mut matched: Option<usize> = None;
        let mut comparisons: usize = 0;
        let mut j: usize = 0;
        while j < n
            invariant
                n == hashes.len(),
                hashes == self@[p as int].recovery_code_hashes@,
                p < self@.len(),
                j <= n,
                comparisons == j,
                forall|h: &String| #[trigger] check.requires((h,)),
                match matched {
                    Some(m) => m < j && check.ensures((&hashes[m as int],), true),
                    None => forall|k: int| 0 <= k < j ==> check.ensures((&hashes[k],), false),
                },
            decreases n - j,
        {
            let found = check(&self.configs[p].recovery_code_hashes[j]);
            if found && matched.is_none() {
                matched = Some(j);
            }
            comparisons = comparisons + 1;
            j = j + 1;
        }
        match matched {
            Some(m) => {
                let placeholder = MfaConfiguration {
                    user_id,
                    totp_secret: Vec::new(),
                    recovery_code_hashes: Vec::new(),
                };
                let ghost a = self@;
                let mut c = self.swap_at(p, placeholder);
                let ghost b = self@;
                c.recovery_code_hashes.remove(m);
                let _ = self.swap_at(p, c);
                proof {
                    lemma_index_at(a, user_id, p as int);
                    assert(hashes_of(a, user_id) == hashes);
                    assert(hashes_of(self@, user_id) == hashes.remove(m as int));
                    assert forall|v: i64| v != user_id implies #[trigger] same_for(a, self@, v) by {
                        assert(same_for(a, b, v));
                        assert(same_for(b, self@, v));
                    }
                }
                RecoveryAttempt { outcome: Ok(()), comparisons }
            },
            None => {
                failure_sleep();
                RecoveryAttempt { outcome: Err(Error::InvalidAuthentication), comparisons }
            },
        }
    }

    /// Turns multi-factor authentication off for a user, dropping the secret
    /// and every recovery code.
    pub fn disable(&mut self, user_id: i64)
        requires
            old(self).wf(),
        ensures
            final(self).wf(),
            secret_of(final(self)@, user_id) is None,
            hashes_of(final(self)@, user_id) == Seq::<String>::empty(),
            forall|v: i64| v != user_id ==> #[trigger] same_for(old(self)@, final(self)@, v),
    {
        if let Some(p) = self.position(user_id) {
            let ghost before = self@;
            self.configs.remove(p);
            proof {
                let a = before;
                let b = self@;
                assert forall|i: int, j: int|
                    0 <= i < b.len() && 0 <= j < b.len() && i != j implies #[trigger] b[i].user_id
                    != #[trigger] b[j].user_id by {
                    let i2 = if i < p { i } else { i + 1 };
                    let j2 = if j < p { j } else { j + 1 };
                    assert(b[i] == a[i2] && b[j] == a[j2]);
                }
                assert forall|k: int| 0 <= k < b.len() implies #[trigger] b[k].user_id != user_id by {
                    let k2 = if k < p { k } else { k + 1 };
                    assert(b[k] == a[k2]);
                }
                assert forall|v: i64| v != user_id implies #[trigger] same_for(a, b, v) by {
                    assert forall|j: int| 0 <= j < a.len() && #[trigger] a[j].user_id == v implies b.contains(
                        a[j],
                    ) by {
                        if j < p {
                            assert(b[j] == a[j]);
                        } else {
                            assert(j != p);
                            assert(b[j - 1] == a[j]);
                        }
                    }
                    assert forall|k: int| 0 <= k < b.len() && #[trigger] b[k].user_id == v implies a.contains(
                        b[k],
                    ) by {
                        let k2 = if k < p { k } else { k + 1 };
                        assert(b[k] == a[k2]);
                    }
                    lemma_same_for(a, b, v);
                }
            }
        }
    }

    /// Replaces a user's recovery codes by the hashes of a fresh batch,
    /// discarding the unused old ones. Fails with `NotFound`, changing
    /// nothing, when the user has no multi-factor configuration.
    pub fn reset_recovery_codes(&mut self, user_id: i64, recovery_code_hashes: Vec<String>) -> (r:
        Result<(), Error>)
        requires
            old(self).wf(),
        ensures
            final(self).wf(),
            secret_of(old(self)@, user_id) is None ==> r == Err::<(), Error>(Error::NotFound)
                && final(self)@ == old(self)@,
            secret_of(old(self)@, user_id) is Some ==> r is Ok && hashes_of(final(self)@, user_id)
                == recovery_code_hashes@,
            secret_of(final(self)@, user_id) == secret_of(old(self)@, user_id),
            forall|v: i64| v != user_id ==> #[trigger] same_for(old(self)@, final(self)@, v),
    {
        match self.position(user_id) {
            Some(p) => {
                let placeholder = MfaConfiguration {
                    user_id,
                    totp_secret: Vec::new(),
                    recovery_code_hashes: Vec::new(),
                };
                let ghost a = self@;
                let c = self.swap_at(p, placeholder);
                let ghost b = self@;
                let _ = self.swap_at(
                    p,
                    MfaConfiguration { user_id, totp_secret: c.totp_secret, recovery_code_hashes },
                );
                proof {
                    assert forall|v: i64| v != user_id implies #[trigger] same_for(a, self@, v) by {
                        assert(same_for(a, b, v));
                        assert(same_for(b, self@, v));
                    }
                }
                Ok(())
            },
            None => Err(Error::NotFound),
        }
    }
}

} // verus!
