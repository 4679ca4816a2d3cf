use vstd::prelude::*;

verus! {

/// Length of one TOTP time step, in seconds.
pub const TIME_STEP: u64 = 30;

/// A TOTP code has six decimal digits.
pub const CODE_MODULUS: u32 = 1000000;

/// The HOTP value (RFC 4226, before truncation to digits) of a secret at a counter.
pub uninterp spec fn hotp_of(secret: Seq<u8>, counter: u64) -> u32;

/// Relies on otp::hotp: HMAC-SHA1 of the big-endian counter under the secret,
/// dynamically truncated to 31 bits; it depends on its two arguments alone.
#[verifier::external_body]
fn hotp(secret: &Vec<u8>, counter: u64) -> (r: u32)
    ensures
        r == hotp_of(secret@, counter),
{
    otp::hotp(secret.as_slice(), counter)
}

/// Relies on subtle's `ConstantTimeEq` for `u32`: the `Choice` it yields
/// converts to `true` exactly when the two values are equal.
#[verifier::external_body]
fn ct_eq_u32(a: u32, b: u32) -> (r: bool)
    ensures
        r == (a == b),
{
    bool::from(subtle::ConstantTimeEq::ct_eq(&a, &b))
}

/// The six-digit code of a secret at a time step.
pub open spec fn code_at(secret: Seq<u8>, step: u64) -> u32 {
    (hotp_of(secret, step) % CODE_MODULUS) as u32
}

/// Whether `entered` is the code of the step that `now` falls in, or of the
/// step just before or after it.
pub open spec fn totp_accepts(secret: Seq<u8>, entered: u32, now: u64) -> bool {
    let step = now / TIME_STEP;
    entered == code_at(secret, step) || (step >= 1 && entered == code_at(
        secret,
        (step - 1) as u64,
    )) || entered == code_at(secret, (step + 1) as u64)
}

/// Whether `entered` matches one of the HOTP values of a skew window.
///
/// `previous` is absent for the very first time step. Each value is compared
/// in constant time, and all of them are compared whatever the outcome.
pub fn window_accepts(entered: u32, previous: Option<u32>, current: u32, next: u32) -> (r: bool)
    ensures
        r == (entered == current % CODE_MODULUS || (previous is Some && entered == previous->Some_0
            % CODE_MODULUS) || entered == next % CODE_MODULUS),
{
    let at_current = ct_eq_u32(entered, current % CODE_MODULUS);
    let at_next = ct_eq_u32(entered, next % CODE_MODULUS);
    let at_previous = match previous {
        Some(p) => ct_eq_u32(entered, p % CODE_MODULUS),
        None => {
            let _ = ct_eq_u32(entered, current % CODE_MODULUS);
            false
        },
    };
    at_current || at_next || at_previous
}

/// Whether `entered` is a valid code for `secret` at time `now` (seconds
/// since the Unix epoch), allowing one step of clock skew either way.
pub fn totp_valid(secret: &Vec<u8>, entered: u32, now: u64) -> (r: bool)
    ensures
        r == totp_accepts(secret@, entered, now),
{
    let step = now / TIME_STEP;
    let previous = if step >= 1 {
        Some(hotp(secret, step - 1))
    } else {
        None
    };
    let current = hotp(secret, step);
    let next = hotp(secret, step + 1);
    window_accepts(entered, previous, current, next)
}

} // verus!
