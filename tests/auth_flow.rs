use deepwell_auth::auth::{
    auth_login, auth_logout, auth_mfa_disable, auth_mfa_reset_recovery, auth_mfa_setup,
    auth_mfa_verify, auth_session_get, auth_session_get_others, auth_session_invalidate_others,
    auth_session_renew, complete_login, parse_totp, AuthState, AuthenticateUser,
    GetOtherSessions, InvalidateOtherSessions, LoginUser, LoginUserMfa, MultiFactorConfigure,
    PasswordCheck, RenewSession,
};
use deepwell_auth::error::{collapse_error, Error};
use deepwell_auth::session::SessionTrust;
use std::cell::Cell;

const SECRET: &[u8] = b"12345678901234567890";
const NOW: u64 = 1_700_000_000;

fn login_input(password: &str) -> LoginUser {
    LoginUser {
        authenticate: AuthenticateUser {
            name_or_email: "alice".to_string(),
            password: password.to_string(),
        },
        ip_address: "127.0.0.1".to_string(),
        user_agent: "test-agent".to_string(),
    }
}

fn login_as(state: &mut AuthState, user_id: i64, token: &str) -> bool {
    let out = auth_login(state, login_input("hunter2"), token.to_string(), NOW, |_c| {
        PasswordCheck::Valid { user_id }
    })
    .unwrap();
    assert_eq!(out.session_token, token);
    out.needs_mfa
}

fn code_at(step: u64) -> String {
    format!("{:06}", otp::hotp(SECRET, step) % 1_000_000)
}

fn hashes(codes: &[&str]) -> Vec<String> {
    codes.iter().map(|c| format!("hash:{c}")).collect()
}

fn mfa_input(token: &str, code: &str) -> LoginUserMfa {
    LoginUserMfa {
        session_token: token.to_string(),
        totp_or_code: code.to_string(),
        ip_address: "127.0.0.1".to_string(),
        user_agent: "test-agent".to_string(),
    }
}

fn recovery_check(code: &str) -> impl Fn(&String) -> bool + '_ {
    move |h: &String| *h == format!("hash:{code}")
}

#[test]
fn empty_password_is_refused_before_the_store() {
    let mut state = AuthState::new();
    let called = Cell::new(false);
    let r = auth_login(&mut state, login_input(""), "t1".to_string(), NOW, |_c| {
        called.set(true);
        PasswordCheck::Valid { user_id: 1 }
    });
    assert!(matches!(r, Err(Error::EmptyPassword)));
    assert!(!called.get());
    assert!(matches!(auth_session_get(&state, &"t1".to_string()), Err(Error::NotFound)));
}

#[test]
fn login_without_mfa_gives_full_session() {
    let mut state = AuthState::new();
    assert!(!login_as(&mut state, 7, "t1"));
    let s = auth_session_get(&state, &"t1".to_string()).unwrap();
    assert_eq!(s.trust, SessionTrust::Full);
    assert_eq!(s.user_id, 7);
    assert_eq!(s.created_at, NOW);
    assert_eq!(state.sessions.get_user(&"t1".to_string(), false), Ok(7));
}

#[test]
fn login_with_mfa_gives_restricted_session() {
    let mut state = AuthState::new();
    auth_mfa_setup(&mut state, 7, SECRET.to_vec(), hashes(&["a"]));
    assert!(login_as(&mut state, 7, "t1"));
    let s = auth_session_get(&state, &"t1".to_string()).unwrap();
    assert_eq!(s.trust, SessionTrust::Restricted);
    assert!(s.is_restricted());
    assert_eq!(
        state.sessions.get_user(&"t1".to_string(), false),
        Err(Error::RestrictedSession)
    );
    assert_eq!(state.sessions.get_user(&"t1".to_string(), true), Ok(7));
}

#[test]
fn failed_password_checks_are_collapsed() {
    let mut state = AuthState::new();
    let cases = [
        (PasswordCheck::UserNotFound, Error::InvalidAuthentication),
        (PasswordCheck::BadPassword, Error::InvalidAuthentication),
        (PasswordCheck::Failed(Error::NotFound), Error::InvalidAuthentication),
        (
            PasswordCheck::Failed(Error::InvalidAuthentication),
            Error::InternalServerError,
        ),
    ];
    for (check, expected) in cases {
        let r = auth_login(&mut state, login_input("pw"), "t1".to_string(), NOW, |_c| check);
        assert_eq!(r.unwrap_err(), expected);
    }
    assert!(matches!(auth_session_get(&state, &"t1".to_string()), Err(Error::NotFound)));
}

#[test]
fn collapse_error_mapping() {
    assert_eq!(collapse_error(Error::InvalidAuthentication), Error::InternalServerError);
    assert_eq!(collapse_error(Error::NotFound), Error::InvalidAuthentication);
    assert_eq!(collapse_error(Error::InternalServerError), Error::InvalidAuthentication);
}

#[test]
fn login_with_used_token_fails() {
    let mut state = AuthState::new();
    login_as(&mut state, 1, "t1");
    let r = complete_login(
        &mut state,
        PasswordCheck::Valid { user_id: 2 },
        "ip".to_string(),
        "ua".to_string(),
        "t1".to_string(),
        NOW,
    );
    assert_eq!(r.unwrap_err(), Error::InternalServerError);
    assert_eq!(auth_session_get(&state, &"t1".to_string()).unwrap().user_id, 1);
}

#[test]
fn totp_at_current_and_adjacent_steps_renews_session() {
    for step in [NOW / 30 - 1, NOW / 30, NOW / 30 + 1] {
        let mut state = AuthState::new();
        auth_mfa_setup(&mut state, 7, SECRET.to_vec(), hashes(&["a"]));
        login_as(&mut state, 7, "pending");
        let code = code_at(step);
        let new = auth_mfa_verify(
            &mut state,
            mfa_input("pending", &code),
            "full".to_string(),
            NOW,
            recovery_check("unused"), || (),
        )
        .unwrap();
        assert_eq!(new, "full");
        assert_ne!(new, "pending");
        assert_eq!(
            state.sessions.get_user(&"pending".to_string(), true),
            Err(Error::NotFound)
        );
        assert_eq!(state.sessions.get_user(&"full".to_string(), false), Ok(7));
    }
}

#[test]
fn wrong_totp_keeps_pending_session() {
    let mut state = AuthState::new();
    auth_mfa_setup(&mut state, 7, SECRET.to_vec(), hashes(&["a"]));
    login_as(&mut state, 7, "pending");
    let far = code_at(NOW / 30 + 5);
    let near = [code_at(NOW / 30 - 1), code_at(NOW / 30), code_at(NOW / 30 + 1)];
    if !near.contains(&far) {
        let r = auth_mfa_verify(
            &mut state,
            mfa_input("pending", &far),
            "full".to_string(),
            NOW,
            recovery_check("x"), || (),
        );
        assert_eq!(r.unwrap_err(), Error::InvalidAuthentication);
    }
    assert_eq!(state.sessions.get_user(&"pending".to_string(), true), Ok(7));
    assert!(matches!(auth_session_get(&state, &"full".to_string()), Err(Error::NotFound)));
}

#[test]
fn mfa_verify_needs_pending_session_and_fresh_token() {
    let mut state = AuthState::new();
    auth_mfa_setup(&mut state, 7, SECRET.to_vec(), hashes(&["a"]));
    login_as(&mut state, 7, "pending");
    let code = code_at(NOW / 30);
    let r = auth_mfa_verify(&mut state, mfa_input("nope", &code), "n".to_string(), NOW, recovery_check("a"), || ());
    assert_eq!(r.unwrap_err(), Error::NotFound);
    let r = auth_mfa_verify(
        &mut state,
        mfa_input("pending", &code),
        "pending".to_string(),
        NOW,
        recovery_check("a"), || (),
    );
    assert_eq!(r.unwrap_err(), Error::InternalServerError);
    assert_eq!(state.sessions.get_user(&"pending".to_string(), true), Ok(7));
}

#[test]
fn recovery_code_is_consumed_once() {
    let mut state = AuthState::new();
    auth_mfa_setup(&mut state, 7, SECRET.to_vec(), hashes(&["code-one", "code-two"]));
    login_as(&mut state, 7, "p1");
    let r = auth_mfa_verify(
        &mut state,
        mfa_input("p1", "code-two"),
        "f1".to_string(),
        NOW,
        recovery_check("code-two"), || (),
    );
    assert_eq!(r.unwrap(), "f1");
    login_as(&mut state, 7, "p2");
    let r = auth_mfa_verify(
        &mut state,
        mfa_input("p2", "code-two"),
        "f2".to_string(),
        NOW,
        recovery_check("code-two"), || (),
    );
    assert_eq!(r.unwrap_err(), Error::InvalidAuthentication);
    let r = state.mfa.verify_recovery(7, recovery_check("code-one"), || ());
    assert_eq!(r.outcome, Ok(()));
    assert_eq!(r.comparisons, 1);
}

#[test]
fn recovery_check_compares_every_hash() {
    let codes = ["c1", "c2", "c3", "c4", "c5"];
    for candidate in ["c1", "c5", "none"] {
        let mut state = AuthState::new();
        auth_mfa_setup(&mut state, 3, SECRET.to_vec(), hashes(&codes));
        let calls = Cell::new(0usize);
        let check = |h: &String| {
            calls.set(calls.get() + 1);
            *h == format!("hash:{candidate}")
        };
        let sleeps = Cell::new(0usize);
        let r = state.mfa.verify_recovery(3, check, || sleeps.set(sleeps.get() + 1));
        assert_eq!(r.comparisons, 5);
        assert_eq!(calls.get(), 5);
        assert_eq!(r.outcome.is_ok(), candidate != "none");
        assert_eq!(sleeps.get(), if candidate == "none" { 1 } else { 0 });
    }
}

#[test]
fn recovery_without_configuration_fails() {
    let mut state = AuthState::new();
    let r = state.mfa.verify_recovery(9, recovery_check("c1"), || ());
    assert_eq!(r.outcome, Err(Error::InvalidAuthentication));
    assert_eq!(r.comparisons, 0);
}

#[test]
fn disable_then_verify_fails() {
    let mut state = AuthState::new();
    let codes = ["r1", "r2", "r3"];
    auth_mfa_setup(&mut state, 7, SECRET.to_vec(), hashes(&codes));
    assert!(state.mfa.is_enabled(7));
    login_as(&mut state, 7, "pending");
    let full = auth_mfa_verify(
        &mut state,
        mfa_input("pending", "r1"),
        "full".to_string(),
        NOW,
        recovery_check("r1"), || (),
    )
    .unwrap();
    let conf = MultiFactorConfigure { user_id: 7, session_token: full };
    assert_eq!(auth_mfa_disable(&mut state, &conf), Ok(()));
    assert!(!state.mfa.is_enabled(7));
    let code: u32 = code_at(NOW / 30).parse().unwrap();
    assert_eq!(state.mfa.verify(7, code, NOW), Err(Error::InvalidAuthentication));
    assert_eq!(
        state.mfa.verify_recovery(7, recovery_check("r2"), || ()).outcome,
        Err(Error::InvalidAuthentication)
    );
    assert!(!login_as(&mut state, 7, "again"));
}

#[test]
fn mfa_changes_need_own_full_session() {
    let mut state = AuthState::new();
    auth_mfa_setup(&mut state, 7, SECRET.to_vec(), hashes(&["a"]));
    login_as(&mut state, 7, "restricted");
    let conf = MultiFactorConfigure { user_id: 7, session_token: "restricted".to_string() };
    assert_eq!(auth_mfa_disable(&mut state, &conf), Err(Error::RestrictedSession));
    login_as(&mut state, 8, "other");
    let conf = MultiFactorConfigure { user_id: 7, session_token: "other".to_string() };
    assert_eq!(
        auth_mfa_disable(&mut state, &conf),
        Err(Error::SessionUserId { active_user_id: 7, session_user_id: 8 })
    );
    assert_eq!(
        auth_mfa_reset_recovery(&mut state, &conf, hashes(&["b"])),
        Err(Error::SessionUserId { active_user_id: 7, session_user_id: 8 })
    );
    let conf = MultiFactorConfigure { user_id: 7, session_token: "missing".to_string() };
    assert_eq!(auth_mfa_disable(&mut state, &conf), Err(Error::NotFound));
    assert!(state.mfa.is_enabled(7));
}

#[test]
fn reset_recovery_replaces_codes() {
    let mut state = AuthState::new();
    login_as(&mut state, 8, "s8");
    let conf = MultiFactorConfigure { user_id: 8, session_token: "s8".to_string() };
    assert_eq!(auth_mfa_reset_recovery(&mut state, &conf, hashes(&["x"])), Err(Error::NotFound));
    auth_mfa_setup(&mut state, 8, SECRET.to_vec(), hashes(&["old1", "old2"]));
    assert_eq!(auth_mfa_reset_recovery(&mut state, &conf, hashes(&["new1"])), Ok(()));
    assert_eq!(
        state.mfa.verify_recovery(8, recovery_check("old1"), || ()).outcome,
        Err(Error::InvalidAuthentication)
    );
    let r = state.mfa.verify_recovery(8, recovery_check("new1"), || ());
    assert_eq!(r.outcome, Ok(()));
    assert_eq!(r.comparisons, 1);
    let code: u32 = code_at(NOW / 30).parse().unwrap();
    assert_eq!(state.mfa.verify(8, code, NOW), Ok(()));
}

#[test]
fn other_sessions_split_and_invalidate() {
    let mut state = AuthState::new();
    login_as(&mut state, 1, "a");
    login_as(&mut state, 2, "b");
    login_as(&mut state, 1, "c");
    login_as(&mut state, 1, "d");
    let out = auth_session_get_others(
        &state,
        &GetOtherSessions { user_id: 1, session_token: "c".to_string() },
    )
    .unwrap();
    assert_eq!(out.current.session_token, "c");
    let others: Vec<&str> = out.others.iter().map(|s| s.session_token.as_str()).collect();
    assert_eq!(others, vec!["a", "d"]);
    let r = auth_session_get_others(
        &state,
        &GetOtherSessions { user_id: 1, session_token: "b".to_string() },
    );
    assert!(matches!(r, Err(Error::NotFound)));
    let gone = auth_session_invalidate_others(
        &mut state,
        &InvalidateOtherSessions { session_token: "c".to_string(), user_id: 1 },
    );
    assert_eq!(gone, vec!["a".to_string(), "d".to_string()]);
    assert!(auth_session_get(&state, &"c".to_string()).is_ok());
    assert!(auth_session_get(&state, &"b".to_string()).is_ok());
    assert!(auth_session_get(&state, &"a".to_string()).is_err());
    let all = state.sessions.get_all(1);
    assert_eq!(all.len(), 1);
}

#[test]
fn renew_and_logout() {
    let mut state = AuthState::new();
    login_as(&mut state, 1, "a");
    let input = |token: &str, user_id: i64| RenewSession {
        old_session_token: token.to_string(),
        user_id,
        ip_address: "ip".to_string(),
        user_agent: "ua".to_string(),
    };
    assert_eq!(
        auth_session_renew(&mut state, input("zz", 1), "b".to_string(), NOW),
        Err(Error::NotFound)
    );
    assert_eq!(
        auth_session_renew(&mut state, input("a", 2), "b".to_string(), NOW),
        Err(Error::SessionUserId { active_user_id: 2, session_user_id: 1 })
    );
    assert_eq!(
        auth_session_renew(&mut state, input("a", 1), "a".to_string(), NOW),
        Err(Error::InternalServerError)
    );
    assert_eq!(
        auth_session_renew(&mut state, input("a", 1), "b".to_string(), NOW + 5),
        Ok("b".to_string())
    );
    assert!(auth_session_get(&state, &"a".to_string()).is_err());
    let s = auth_session_get(&state, &"b".to_string()).unwrap();
    assert_eq!(s.created_at, NOW + 5);
    assert_eq!(s.ip_address, "ip");
    assert_eq!(auth_logout(&mut state, &"b".to_string()), Ok(()));
    assert_eq!(auth_logout(&mut state, &"b".to_string()), Err(Error::NotFound));
}

#[test]
fn totp_form_is_six_digits() {
    assert_eq!(parse_totp(&"012345".to_string()), Some(12345));
    assert_eq!(parse_totp(&"999999".to_string()), Some(999999));
    assert_eq!(parse_totp(&"12345".to_string()), None);
    assert_eq!(parse_totp(&"1234567".to_string()), None);
    assert_eq!(parse_totp(&"12a456".to_string()), None);
    assert_eq!(parse_totp(&"".to_string()), None);
}
