use deepwell_auth::mfa::MfaService;
use deepwell_auth::totp::{totp_valid, window_accepts};

// RFC 4226 test secret and its first HOTP values.
const SECRET: &[u8] = b"12345678901234567890";
const HOTP: [u32; 3] = [1284755224, 1094287082, 137359152];

#[test]
fn window_accepts_exact_values() {
    assert!(window_accepts(755224, None, 1284755224, 1));
    assert!(window_accepts(287082, Some(1094287082), 5, 7));
    assert!(window_accepts(359152, None, 3, 137359152));
    assert!(!window_accepts(359152, None, 137359153, 3));
    assert!(!window_accepts(1284755224, None, 1284755224, 0));
}

#[test]
fn totp_valid_uses_hotp_of_the_step() {
    let secret = SECRET.to_vec();
    // time 30..59 is step 1; steps 0, 1 and 2 are accepted.
    assert!(totp_valid(&secret, HOTP[0] % 1_000_000, 45));
    assert!(totp_valid(&secret, HOTP[1] % 1_000_000, 45));
    assert!(totp_valid(&secret, HOTP[2] % 1_000_000, 45));
    // At step 0 there is no previous step; step 2 is too far.
    assert!(totp_valid(&secret, HOTP[0] % 1_000_000, 10));
    assert!(!totp_valid(&secret, HOTP[2] % 1_000_000, 10));
    assert!(!totp_valid(&secret, 45, 45));
}

#[test]
fn mfa_verify_without_setup_fails() {
    let mut mfa = MfaService::new();
    assert!(mfa.verify(1, HOTP[0] % 1_000_000, 10).is_err());
    mfa.setup(1, SECRET.to_vec(), vec![]);
    assert!(mfa.verify(1, HOTP[0] % 1_000_000, 10).is_ok());
    assert!(mfa.verify(2, HOTP[0] % 1_000_000, 10).is_err());
    mfa.disable(1);
    assert!(mfa.verify(1, HOTP[0] % 1_000_000, 10).is_err());
}
