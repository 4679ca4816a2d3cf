use vstd::prelude::*;
use crate::error::{collapse_error, collapsed, Error};
use crate::mfa::{hashes_of, same_for, secret_of, totp_verdict, MfaService};
use crate::session::{
    destroyed_tokens, has_token, kept_after, new_session, renew_error, sessions_of,
    user_of_token, Session, SessionService, SessionTrust,
};

verus! {

/// Credentials as submitted.
#[derive(Debug)]
pub struct AuthenticateUser {
    pub name_or_email: String,
    pub password: String,
}

/// A login request.
#[derive(Debug)]
pub struct LoginUser {
    pub authenticate: AuthenticateUser,
    pub ip_address: String,
    pub user_agent: String,
}

/// A successful login: the new session and whether it still awaits a second factor.
#[derive(Debug)]
pub struct LoginUserOutput {
    pub session_token: String,
    pub needs_mfa: bool,
}

/// What the password store answered for a set of credentials.
#[derive(Debug, Clone, Copy, PartialEq, Eq, Structural)]
pub enum PasswordCheck {
    Valid { user_id: i64 },
    UserNotFound,
    BadPassword,
    /// The store failed for another reason.
    Failed(Error),
}

/// A second-factor request made with a restricted session.
#[derive(Debug)]
pub struct LoginUserMfa {
    pub session_token: String,
    pub totp_or_code: String,
    pub ip_address: String,
    pub user_agent: String,
}

#[derive(Debug)]
pub struct RenewSession {
    pub old_session_token: String,
    pub user_id: i64,
    pub ip_address: String,
    pub user_agent: String,
}

#[derive(Debug)]
pub struct GetOtherSessions {
    pub user_id: i64,
    pub session_token: String,
}

/// The caller's own session, apart from the user's other sessions.
#[derive(Debug)]
pub struct GetOtherSessionsOutput {
    pub current: Session,
    pub others: Vec<Session>,
}

#[derive(Debug)]
pub struct InvalidateOtherSessions {
    pub session_token: String,
    pub user_id: i64,
}

/// A request to change the second factor of `user_id`, made with a session of that user.
#[derive(Debug)]
pub struct MultiFactorConfigure {
    pub user_id: i64,
    pub session_token: String,
}

/// All state that authentication reads and writes. Every operation below
/// either succeeds or leaves it exactly as it was.
pub struct AuthState {
    pub sessions: SessionService,
    pub mfa: MfaService,
}

impl AuthState {
    pub open spec fn wf(&self) -> bool {
        self.sessions.wf() && self.mfa.wf()
    }

    pub fn new() -> (r: AuthState)
        ensures
            r.wf(),
            r.sessions@ == Seq::<Session>::empty(),
            forall|u: i64| #[trigger] secret_of(r.mfa@, u) is None,
    {
        AuthState { sessions: SessionService::new(), mfa: MfaService::new() }
    }
}

pub open spec fn unchanged(a: &AuthState, b: &AuthState) -> bool {
    a.sessions@ == b.sessions@ && a.mfa@ == b.mfa@
}

/// What a login answers once the password store has answered `c`.
pub open spec fn login_outcome(
    c: PasswordCheck,
    before: &AuthState,
    after: &AuthState,
    r: Result<LoginUserOutput, Error>,
    ip_address: String,
    user_agent: String,
    token: String,
    now: u64,
) -> bool {
    match c {
        PasswordCheck::Valid { user_id } => if has_token(before.sessions@, token@) {
            r == Err::<LoginUserOutput, Error>(Error::InternalServerError) && unchanged(
                before,
                after,
            )
        } else {
            let needs_mfa = secret_of(before.mfa@, user_id) is Some;
            &&& r is Ok
            &&& r->Ok_0.needs_mfa == needs_mfa
            &&& r->Ok_0.session_token@ == token@
            &&& after.mfa@ == before.mfa@
            &&& after.sessions@ == before.sessions@.push(
                new_session(
                    token,
                    user_id,
                    now,
                    ip_address,
                    user_agent,
                    if needs_mfa {
                        SessionTrust::Restricted
                    } else {
                        SessionTrust::Full
                    },
                ),
            )
        },
        PasswordCheck::UserNotFound | PasswordCheck::BadPassword => r == Err::<
            LoginUserOutput,
            Error,
        >(Error::InvalidAuthentication) && unchanged(before, after),
        PasswordCheck::Failed(e) => r == Err::<LoginUserOutput, Error>(collapsed(e)) && unchanged(
            before,
            after,
        ),
    }
}

/// Finishes a login once the password store has answered.
///
/// A valid password opens a session, restricted exactly when the user has
/// multi-factor authentication enabled. Every failure is reported as
/// `InvalidAuthentication` or `InternalServerError` and nothing finer.
pub fn complete_login(
    state: &mut AuthState,
    checked: PasswordCheck,
    ip_address: String,
    user_agent: String,
    new_token: String,
    now: u64,
) -> (r: Result<LoginUserOutput, Error>)
    requires
        old(state).wf(),
    ensures
        final(state).wf(),
        login_outcome(checked, old(state), final(state), r, ip_address, user_agent, new_token, now),
        r matches Err(e) ==> crate::error::is_login_error(e),
{
    let user_id = match checked {
        PasswordCheck::Valid { user_id } => user_id,
        PasswordCheck::UserNotFound | PasswordCheck::BadPassword => {
            return Err(Error::InvalidAuthentication);
        },
        PasswordCheck::Failed(e) => {
            return Err(collapse_error(e));
        },
    };
    let needs_mfa = state.mfa.is_enabled(user_id);
    match state.sessions.create(user_id, ip_address, user_agent, needs_mfa, new_token, now) {
        Ok(session_token) => Ok(LoginUserOutput { session_token, needs_mfa }),
        Err(e) => Err(e),
    }
}

/// Logs a user in with a password.
///
/// An empty password is refused with `EmptyPassword` before the password
/// store is consulted and without touching any state. Otherwise the
/// credentials go to `check_password` and `complete_login` decides.
pub fn auth_login<F: FnOnce(AuthenticateUser) -> PasswordCheck>(
    state: &mut AuthState,
    input: LoginUser,
    new_token: String,
    now: u64,
    check_password: F,
) -> (r: Result<LoginUserOutput, Error>)
    requires
        old(state).wf(),
        check_password.requires((input.authenticate,)),
    ensures
        final(state).wf(),
        input.authenticate.password@.len() == 0 ==> r == Err::<LoginUserOutput, Error>(
            Error::EmptyPassword,
        ) && unchanged(old(state), final(state)),
        input.authenticate.password@.len() > 0 ==> exists|c: PasswordCheck|
            check_password.ensures((input.authenticate,), c) && login_outcome(
                c,
                old(state),
                final(state),
                r,
                input.ip_address,
                input.user_agent,
                new_token,
                now,
            ),
        r matches Err(e) ==> crate::error::is_login_error(e),
{
    let LoginUser { authenticate, ip_address, user_agent } = input;
    if authenticate.password.as_str().is_empty() {
        return Err(Error::EmptyPassword);
    }
    let checked = check_password(authenticate);
    complete_login(state, checked, ip_address, user_agent, new_token, now)
}

/// Logs out: destroys the session.
pub fn auth_logout(state: &mut AuthState, session_token: &String) -> (r: Result<(), Error>)
    requires
        old(state).wf(),
    ensures
        final(state).wf(),
        final(state).mfa@ == old(state).mfa@,
        !has_token(old(state).sessions@, session_token@) ==> r == Err::<(), Error>(Error::NotFound)
            && unchanged(old(state), final(state)),
        has_token(old(state).sessions@, session_token@) ==> r is Ok && !has_token(
            final(state).sessions@,
            session_token@,
        ) && exists|i: int|
            0 <= i < old(state).sessions@.len() && old(state).sessions@[i].session_token@
                == session_token@ && final(state).sessions@ == old(state).sessions@.remove(i),
{
    state.sessions.invalidate(session_token)
}

/// The session behind a token.
pub fn auth_session_get(state: &AuthState, session_token: &String) -> (r: Result<Session, Error>)
    ensures
        !has_token(state.sessions@, session_token@) ==> r == Err::<Session, Error>(Error::NotFound),
        has_token(state.sessions@, session_token@) ==> r is Ok && state.sessions@.contains(r->Ok_0)
            && r->Ok_0.session_token@ == session_token@,
{
    state.sessions.get(session_token)
}

/// Rotates a session's token; see `SessionService::renew`.
pub fn auth_session_renew(
    state: &mut AuthState,
    input: RenewSession,
    new_token: String,
    now: u64,
) -> (r: Result<String, Error>)
    requires
        old(state).wf(),
    ensures
        final(state).wf(),
        final(state).mfa@ == old(state).mfa@,
        renew_error(old(state).sessions@, input.old_session_token@, input.user_id, new_token@) is Some
            ==> r == Err::<String, Error>(
            renew_error(
                old(state).sessions@,
                input.old_session_token@,
                input.user_id,
                new_token@,
            )->Some_0,
        ) && unchanged(old(state), final(state)),
        renew_error(old(state).sessions@, input.old_session_token@, input.user_id, new_token@) is None
            ==> r is Ok,
        r is Ok ==> r->Ok_0@ == new_token@ && !has_token(
            final(state).sessions@,
            input.old_session_token@,
        ) && exists|i: int|
            0 <= i < old(state).sessions@.len() && old(state).sessions@[i].session_token@
                == input.old_session_token@ && final(state).sessions@ == old(
                state,
            ).sessions@.remove(i).push(
                new_session(
                    new_token,
                    input.user_id,
                    now,
                    input.ip_address,
                    input.user_agent,
                    SessionTrust::Full,
                ),
            ),
{
    let RenewSession { old_session_token, user_id, ip_address, user_agent } = input;
    state.sessions.renew(&old_session_token, user_id, ip_address, user_agent, new_token, now)
}

/// The user's sessions, with the caller's own one set apart.
///
/// Fails with `NotFound` when the token is not among the user's sessions:
/// the caller's own session must be there, since it authenticated the call.
pub fn auth_session_get_others(state: &AuthState, input: &GetOtherSessions) -> (r: Result<
    GetOtherSessionsOutput,
    Error,
>)
    ensures
        !has_token(sessions_of(state.sessions@, input.user_id), input.session_token@) ==> r
            == Err::<GetOtherSessionsOutput, Error>(Error::NotFound),
        has_token(sessions_of(state.sessions@, input.user_id), input.session_token@) ==> r is Ok
            && exists|k: int|
            0 <= k < sessions_of(state.sessions@, input.user_id).len() && sessions_of(
                state.sessions@,
                input.user_id,
            )[k].session_token@ == input.session_token@ && r->Ok_0.current == sessions_of(
                state.sessions@,
                input.user_id,
            )[k] && r->Ok_0.others@ == sessions_of(state.sessions@, input.user_id).remove(k),
{
    let mut sessions = state.sessions.get_all(input.user_id);
    let ghost all = sessions@;
    let mut k: usize = 0;
    while k < sessions.len()
        invariant
            sessions@ == all,
            all == sessions_of(state.sessions@, input.user_id),
            k <= all.len(),
            forall|m: int| 0 <= m < k ==> #[trigger] all[m].session_token@ != input.session_token@,
        decreases all.len() - k,
    {
        if sessions[k].session_token == input.session_token {
            let current = sessions.remove(k);
            assert(all[k as int].session_token@ == input.session_token@);
            return Ok(GetOtherSessionsOutput { current, others: sessions });
        }
        k = k + 1;
    }
    Err(Error::NotFound)
}

/// Destroys every session of the user but the caller's own, and gives back
/// the tokens destroyed.
pub fn auth_session_invalidate_others(state: &mut AuthState, input: &InvalidateOtherSessions) -> (r:
    Vec<String>)
    requires
        old(state).wf(),
    ensures
        final(state).wf(),
        final(state).mfa@ == old(state).mfa@,
        final(state).sessions@ == kept_after(
            old(state).sessions@,
            input.session_token@,
            input.user_id,
        ),
        r@.map_values(|t: String| t@) == destroyed_tokens(
            old(state).sessions@,
            input.session_token@,
            input.user_id,
        ),
{
    state.sessions.invalidate_others(&input.session_token, input.user_id)
}

pub open spec fn is_digit(c: char) -> bool {
    '0' <= c && c <= '9'
}

/// A TOTP code is written as six decimal digits; anything else is taken
/// for a recovery code.
pub open spec fn is_totp_form(s: Seq<char>) -> bool {
    s.len() == 6 && forall|i: int| 0 <= i < s.len() ==> #[trigger] is_digit(s[i])
}

/// The number that a string of decimal digits writes.
pub open spec fn digits_value(s: Seq<char>) -> nat
    decreases s.len(),
{
    if s.len() == 0 {
        0
    } else {
        digits_value(s.drop_last()) * 10 + ((s.last() as u32) - ('0' as u32)) as nat
    }
}

/// Reads a submitted second factor as a TOTP code, if it has that form.
pub fn parse_totp(code: &String) -> (r: Option<u32>)
    ensures
        is_totp_form(code@) ==> r == Some(digits_value(code@) as u32),
        !is_totp_form(code@) ==> r is None,
{
    let s = code.as_str();
    let n = s.unicode_len();
    if n != 6 {
        return None;
    }
    let mut value: u32 = 0;
    let mut bound: u32 = 1;
    let mut i: usize = 0;
    while i < n
        invariant
            n == s@.len(),
            n == 6,
            s@ == code@,
            i <= n,
            forall|k: int| 0 <= k < i ==> #[trigger] is_digit(s@[k]),
            value as nat == digits_value(s@.subrange(0, i as int)),
            value < bound,
            bound as nat <= pow10(i as nat),
            pow10(i as nat) <= 1000000,
        decreases n - i,
    {
        let c = s.get_char(i);
        if !('0' <= c && c <= '9') {
            assert(!is_digit(s@[i as int]));
            return None;
        }
        let d = (c as u32) - ('0' as u32);
        assert(s@.subrange(0, i + 1).drop_last() == s@.subrange(0, i as int));
        assert(s@.subrange(0, i + 1).last() == c);
        assert(pow10((i + 1) as nat) == pow10(i as nat) * 10);
        assert(value * 10 + d < bound * 10) by (nonlinear_arith)
            requires
                value < bound,
                d <= 9,
        ;
        assert(bound * 10 <= pow10(i as nat) * 10) by (nonlinear_arith)
            requires
                bound as nat <= pow10(i as nat),
        ;
        proof {
            lemma_pow10_bound((i + 1) as nat);
        }
        value = value * 10 + d;
        bound = bound * 10;
        i = i + 1;
    }
    assert(s@.subrange(0, 6) == s@);
    Some(value)
}

pub open spec fn pow10(n: nat) -> nat
    decreases n,
{
    if n == 0 {
        1
    } else {
        pow10((n - 1) as nat) * 10
    }
}

proof fn lemma_pow10_bound(n: nat)
    requires
        n <= 6,
    ensures
        pow10(n) <= 1000000,
    decreases n,
{
    reveal_with_fuel(pow10, 7);
}

/// The user that a second-factor request acts for, or why it stops before
/// any factor is checked.
pub open spec fn mfa_precheck(s: Seq<Session>, pending: Seq<char>, new_token: Seq<char>) -> Result<
    i64,
    Error,
> {
    match user_of_token(s, pending, true) {
        Err(e) => Err(e),
        Ok(u) => if has_token(s, new_token) {
            Err(Error::InternalServerError)
        } else {
            Ok(u)
        },
    }
}

/// Completes a login with its second factor.
///
/// The pending session must exist. A six-digit code is checked as a TOTP
/// code at time `now`; anything else as a recovery code, which
/// `check_recovery` compares with one stored hash (a failed recovery code
/// costs one call of `failure_sleep`). On success the pending
/// session is replaced, in one step, by a fully trusted one under
/// `new_token`: the pending token is no longer valid. On failure nothing
/// changes.
pub fn auth_mfa_verify<F: Fn(&String) -> bool, S: Fn()>(
    state: &mut AuthState,
    input: LoginUserMfa,
    new_token: String,
    now: u64,
    check_recovery: F,
    failure_sleep: S,
) -> (r: Result<String, Error>)
    requires
        old(state).wf(),
        forall|h: &String| #[trigger] check_recovery.requires((h,)),
        failure_sleep.requires(()),
    ensures
        final(state).wf(),
        mfa_precheck(old(state).sessions@, input.session_token@, new_token@) matches Err(e) ==> r
            == Err::<String, Error>(e) && unchanged(old(state), final(state)),
        r is Err ==> final(state).sessions@ == old(state).sessions@,
        r is Ok ==> r->Ok_0@ == new_token@ && r->Ok_0@ != input.session_token@ && !has_token(
            final(state).sessions@,
            input.session_token@,
        ) && exists|i: int|
            0 <= i < old(state).sessions@.len() && old(state).sessions@[i].session_token@
                == input.session_token@ && final(state).sessions@ == old(
                state,
            ).sessions@.remove(i).push(
                new_session(
                    new_token,
                    old(state).sessions@[i].user_id,
                    now,
                    input.ip_address,
                    input.user_agent,
                    SessionTrust::Full,
                ),
            ),
        mfa_precheck(old(state).sessions@, input.session_token@, new_token@) matches Ok(user_id)
            ==> {
            &&& r is Err ==> r == Err::<String, Error>(Error::InvalidAuthentication)
            &&& is_totp_form(input.totp_or_code@) ==> final(state).mfa@ == old(state).mfa@ && (r is Ok
                <==> totp_verdict(
                old(state).mfa@,
                user_id,
                digits_value(input.totp_or_code@) as u32,
                now,
            ) is Ok)
            &&& !is_totp_form(input.totp_or_code@) && r is Ok ==> exists|i: int|
                0 <= i < hashes_of(old(state).mfa@, user_id).len() && check_recovery.ensures(
                    (&hashes_of(old(state).mfa@, user_id)[i],),
                    true,
                ) && hashes_of(final(state).mfa@, user_id) == hashes_of(
                    old(state).mfa@,
                    user_id,
                ).remove(i) && secret_of(final(state).mfa@, user_id) == secret_of(
                    old(state).mfa@,
                    user_id,
                ) && forall|v: i64| v != user_id ==> #[trigger] same_for(
                    old(state).mfa@,
                    final(state).mfa@,
                    v,
                )
            &&& !is_totp_form(input.totp_or_code@) && r is Err ==> final(state).mfa@ == old(
                state,
            ).mfa@ && forall|i: int|
                0 <= i < hashes_of(old(state).mfa@, user_id).len() ==> check_recovery.ensures(
                    (&hashes_of(old(state).mfa@, user_id)[i],),
                    false,
                )
        },
{
    let LoginUserMfa { session_token, totp_or_code, ip_address, user_agent } = input;
    let user_id = match state.sessions.get_user(&session_token, true) {
        Ok(u) => u,
        Err(e) => return Err(e),
    };
    if state.sessions.position(&new_token).is_some() {
        return Err(Error::InternalServerError);
    }
    let verdict = match parse_totp(&totp_or_code) {
        Some(code) => state.mfa.verify(user_id, code, now),
        None => state.mfa.verify_recovery(user_id, check_recovery, failure_sleep).outcome,
    };
    if verdict.is_err() {
        return Err(Error::InvalidAuthentication);
    }
    state.sessions.renew(&session_token, user_id, ip_address, user_agent, new_token, now)
}

/// Turns on multi-factor authentication for a user, with a fresh secret and
/// the hashes of a fresh batch of recovery codes.
pub fn auth_mfa_setup(
    state: &mut AuthState,
    user_id: i64,
    totp_secret: Vec<u8>,
    recovery_code_hashes: Vec<String>,
)
    requires
        old(state).wf(),
    ensures
        final(state).wf(),
        final(state).sessions@ == old(state).sessions@,
        secret_of(final(state).mfa@, user_id) == Some(totp_secret@),
        hashes_of(final(state).mfa@, user_id) == recovery_code_hashes@,
        forall|v: i64| v != user_id ==> #[trigger] same_for(old(state).mfa@, final(state).mfa@, v),
{
    state.mfa.setup(user_id, totp_secret, recovery_code_hashes);
}

/// The user acting through `token`, who must be `user_id` and fully authenticated.
pub open spec fn owner_check(s: Seq<Session>, token: Seq<char>, user_id: i64) -> Result<i64, Error> {
    match user_of_token(s, token, false) {
        Err(e) => Err(e),
        Ok(u) => if u != user_id {
            Err(Error::SessionUserId { active_user_id: user_id, session_user_id: u })
        } else {
            Ok(u)
        },
    }
}

fn check_owner(sessions: &SessionService, input: &MultiFactorConfigure) -> (r: Result<i64, Error>)
    requires
        sessions.wf(),
    ensures
        r == owner_check(sessions@, input.session_token@, input.user_id),
{
    let session_user_id = match sessions.get_user(&input.session_token, false) {
        Ok(u) => u,
        Err(e) => return Err(e),
    };
    if session_user_id != input.user_id {
        return Err(Error::SessionUserId { active_user_id: input.user_id, session_user_id });
    }
    Ok(session_user_id)
}

/// Turns off multi-factor authentication, on behalf of the user's own,
/// fully authenticated session.
pub fn auth_mfa_disable(state: &mut AuthState, input: &MultiFactorConfigure) -> (r: Result<
    (),
    Error,
>)
    requires
        old(state).wf(),
    ensures
        final(state).wf(),
        final(state).sessions@ == old(state).sessions@,
        owner_check(old(state).sessions@, input.session_token@, input.user_id) matches Err(e) ==> r
            == Err::<(), Error>(e) && final(state).mfa@ == old(state).mfa@,
        owner_check(old(state).sessions@, input.session_token@, input.user_id) is Ok ==> r is Ok
            && secret_of(final(state).mfa@, input.user_id) is None && hashes_of(
            final(state).mfa@,
            input.user_id,
        ) == Seq::<String>::empty() && forall|v: i64|
            v != input.user_id ==> #[trigger] same_for(old(state).mfa@, final(state).mfa@, v),
{
    let user_id = match check_owner(&state.sessions, input) {
        Ok(u) => u,
        Err(e) => return Err(e),
    };
    state.mfa.disable(user_id);
    Ok(())
}

/// Replaces the user's recovery codes by the hashes of a fresh batch, on
/// behalf of the user's own, fully authenticated session.
pub fn auth_mfa_reset_recovery(
    state: &mut AuthState,
    input: &MultiFactorConfigure,
    recovery_code_hashes: Vec<String>,
) -> (r: Result<(), Error>)
    requires
        old(state).wf(),
    ensures
        final(state).wf(),
        final(state).sessions@ == old(state).sessions@,
        owner_check(old(state).sessions@, input.session_token@, input.user_id) matches Err(e) ==> r
            == Err::<(), Error>(e) && final(state).mfa@ == old(state).mfa@,
        owner_check(old(state).sessions@, input.session_token@, input.user_id) is Ok ==> {
            &&& secret_of(old(state).mfa@, input.user_id) is None ==> r == Err::<(), Error>(
                Error::NotFound,
            ) && final(state).mfa@ == old(state).mfa@
            &&& secret_of(old(state).mfa@, input.user_id) is Some ==> r is Ok && hashes_of(
                final(state).mfa@,
                input.user_id,
            ) == recovery_code_hashes@
            &&& secret_of(final(state).mfa@, input.user_id) == secret_of(
                old(state).mfa@,
                input.user_id,
            )
            &&& forall|v: i64|
                v != input.user_id ==> #[trigger] same_for(old(state).mfa@, final(state).mfa@, v)
        },
{
    let user_id = match check_owner(&state.sessions, input) {
        Ok(u) => u,
        Err(e) => return Err(e),
    };
    state.mfa.reset_recovery_codes(user_id, recovery_code_hashes)
}

} // verus!
