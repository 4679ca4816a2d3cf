use vstd::prelude::*;
use crate::error::Error;
use crate::mfa::{hashes_of, secret_of, totp_verdict, MfaConfiguration};
use crate::session::{
    destroyed_by, has_token, kept_after, new_session, tokens_unique, user_of_token, Session,
    SessionTrust,
};

verus! {

/// A session that a login has just opened acts as its user exactly when it
/// is fully trusted: a restricted one is refused with `RestrictedSession`
/// wherever restricted sessions are not allowed, and still names its user
/// where they are.
pub proof fn lemma_login_session_trust(
    s: Seq<Session>,
    token: String,
    user_id: i64,
    now: u64,
    ip_address: String,
    user_agent: String,
    trust: SessionTrust,
)
    requires
        tokens_unique(s),
        !has_token(s, token@),
    ensures
        user_of_token(
            s.push(new_session(token, user_id, now, ip_address, user_agent, trust)),
            token@,
            false,
        ) == if trust == SessionTrust::Restricted {
            Err::<i64, Error>(Error::RestrictedSession)
        } else {
            Ok::<i64, Error>(user_id)
        },
        user_of_token(
            s.push(new_session(token, user_id, now, ip_address, user_agent, trust)),
            token@,
            true,
        ) == Ok::<i64, Error>(user_id),
{
    let t = s.push(new_session(token, user_id, now, ip_address, user_agent, trust));
    let n = s.len() as int;
    assert(t[n].session_token@ == token@);
    assert forall|k: int| 0 <= k < t.len() && #[trigger] t[k].session_token@ == token@ implies k
        == n by {
        if k < n {
            assert(t[k] == s[k]);
        }
    }
}

/// After a renewal only the new token is valid: the old one is not found,
/// and the new one acts, fully trusted, as the user.
pub proof fn lemma_renewal_leaves_one_token(
    s: Seq<Session>,
    i: int,
    new_token: String,
    user_id: i64,
    now: u64,
    ip_address: String,
    user_agent: String,
)
    requires
        tokens_unique(s),
        0 <= i < s.len(),
        !has_token(s, new_token@),
    ensures
        user_of_token(
            s.remove(i).push(
                new_session(new_token, user_id, now, ip_address, user_agent, SessionTrust::Full),
            ),
            s[i].session_token@,
            true,
        ) == Err::<i64, Error>(Error::NotFound),
        user_of_token(
            s.remove(i).push(
                new_session(new_token, user_id, now, ip_address, user_agent, SessionTrust::Full),
            ),
            new_token@,
            false,
        ) == Ok::<i64, Error>(user_id),
{
    let r = s.remove(i);
    let t = r.push(new_session(new_token, user_id, now, ip_address, user_agent, SessionTrust::Full));
    let n = r.len() as int;
    assert(s[i].session_token@ != new_token@);
    assert forall|k: int| 0 <= k < t.len() implies #[trigger] t[k].session_token@
        != s[i].session_token@ by {
        if k < n {
            let k2 = if k < i { k } else { k + 1 };
            assert(t[k] == s[k2]);
        }
    }
    assert(t[n].session_token@ == new_token@);
    assert forall|k: int| 0 <= k < t.len() && #[trigger] t[k].session_token@ == new_token@ implies k
        == n by {
        if k < n {
            let k2 = if k < i { k } else { k + 1 };
            assert(t[k] == s[k2]);
        }
    }
}

/// Invalidating the other sessions of a user never destroys the caller's
/// own session, nor any session of another user.
pub proof fn lemma_invalidate_others_keeps_own(s: Seq<Session>, token: Seq<char>, user_id: i64)
    ensures
        has_token(s, token) ==> has_token(kept_after(s, token, user_id), token),
        forall|i: int|
            0 <= i < s.len() && s[i].user_id != user_id ==> kept_after(s, token, user_id).contains(
                #[trigger] s[i],
            ),
    decreases s.len(),
{
    if s.len() > 0 {
        let d = s.drop_last();
        lemma_invalidate_others_keeps_own(d, token, user_id);
        let rest = kept_after(d, token, user_id);
        let k = kept_after(s, token, user_id);
        if !destroyed_by(s.last(), token, user_id) {
            assert(k == rest.push(s.last()));
            assert(k[rest.len() as int] == s.last());
            assert forall|x: Session| rest.contains(x) implies k.contains(x) by {
                let j = choose|j: int| 0 <= j < rest.len() && rest[j] == x;
                assert(k[j] == x);
            }
        }
        if has_token(s, token) {
            let i = choose|i: int| 0 <= i < s.len() && #[trigger] s[i].session_token@ == token;
            if i < d.len() {
                assert(d[i] == s[i]);
                let j = choose|j: int|
                    0 <= j < rest.len() && #[trigger] rest[j].session_token@ == token;
                if !destroyed_by(s.last(), token, user_id) {
                    assert(k[j] == rest[j]);
                }
            } else {
                assert(s[i] == s.last());
                assert(k[rest.len() as int].session_token@ == token);
            }
        }
        assert forall|i: int| 0 <= i < s.len() && s[i].user_id != user_id implies k.contains(
            #[trigger] s[i],
        ) by {
            if i < d.len() {
                assert(d[i] == s[i]);
                assert(rest.contains(d[i]));
            } else {
                assert(s[i] == s.last());
                assert(k[rest.len() as int] == s.last());
            }
        }
    }
}

/// A recovery code is good for one login: once a successful check has
/// consumed the hash the code matched, none of the user's remaining hashes
/// matches it, provided the code matched no other hash.
pub proof fn lemma_recovery_code_single_use(
    before: Seq<MfaConfiguration>,
    after: Seq<MfaConfiguration>,
    user_id: i64,
    i: int,
    matches: spec_fn(String) -> bool,
)
    requires
        0 <= i < hashes_of(before, user_id).len(),
        hashes_of(after, user_id) == hashes_of(before, user_id).remove(i),
        forall|j: int|
            0 <= j < hashes_of(before, user_id).len() && j != i ==> !matches(
                #[trigger] hashes_of(before, user_id)[j],
            ),
    ensures
        forall|k: int|
            0 <= k < hashes_of(after, user_id).len() ==> !matches(
                #[trigger] hashes_of(after, user_id)[k],
            ),
{
    let h = hashes_of(before, user_id);
    assert forall|k: int| 0 <= k < hashes_of(after, user_id).len() implies !matches(
        #[trigger] hashes_of(after, user_id)[k],
    ) by {
        let k2 = if k < i { k } else { k + 1 };
        assert(h.remove(i)[k] == h[k2]);
    }
}

/// Once multi-factor authentication is disabled, no second factor passes:
/// every TOTP code is refused and no recovery code is left to match.
pub proof fn lemma_disabled_rejects_second_factor(
    s: Seq<MfaConfiguration>,
    user_id: i64,
    entered: u32,
    now: u64,
)
    requires
        secret_of(s, user_id) is None,
    ensures
        totp_verdict(s, user_id, entered, now) == Err::<(), Error>(Error::InvalidAuthentication),
        hashes_of(s, user_id).len() == 0,
{
}

} // verus!
