use doskvol::auth::begin_enrollment;
use doskvol::errors::AuthError;
use doskvol::totp::{accepts_code, current_code, generate_secret};

/// Base32 encoding of the 20-byte ASCII secret `12345678901234567890`.
const SECRET: &str = "GEZDGNBVGY3TQOJQGEZDGNBVGY3TQOJQ";

#[test]
fn known_code_at_known_time() {
    // The classic SHA-1 vector: at 59 seconds the six-digit code is 287082.
    let code = current_code(SECRET, 59).unwrap();
    assert_eq!(code, "287082");
}

#[test]
fn code_validates_in_same_step() {
    let t: u64 = 1_111_111_111;
    let code = current_code(SECRET, t).unwrap();
    assert_eq!(accepts_code(SECRET, &code, t), Some(true));
}

#[test]
fn code_validates_in_adjacent_steps() {
    let t: u64 = 1_111_111_140;
    let code = current_code(SECRET, t).unwrap();
    assert_eq!(accepts_code(SECRET, &code, t + 30), Some(true));
    assert_eq!(accepts_code(SECRET, &code, t - 30), Some(true));
}

#[test]
fn code_three_steps_away_is_rejected() {
    let t: u64 = 1_111_111_111;
    let code = current_code(SECRET, t).unwrap();
    assert_eq!(accepts_code(SECRET, &code, t + 90), Some(false));
    assert_eq!(accepts_code(SECRET, &code, t - 90), Some(false));
}

#[test]
fn wrong_code_is_rejected() {
    let t: u64 = 1_111_111_111;
    let code = current_code(SECRET, t).unwrap();
    let wrong = if code == "000000" { "000001" } else { "000000" };
    assert_eq!(accepts_code(SECRET, wrong, t), Some(false));
}

#[test]
fn garbage_secret_is_unusable() {
    assert_eq!(current_code("not a secret!", 59), None);
    assert_eq!(accepts_code("not a secret!", "287082", 59), None);
}

#[test]
fn generated_secrets_are_usable_and_distinct() {
    let a = generate_secret();
    let b = generate_secret();
    assert!(current_code(&a, 0).is_some());
    assert!(current_code(&b, 0).is_some());
    assert_ne!(a, b);
}

#[test]
fn fresh_secret_validates_its_own_code() {
    // A freshly generated secret accepts its current code right away.
    let t: u64 = 1_700_000_000;
    let secret = generate_secret();
    let code = current_code(&secret, t).unwrap();
    assert_eq!(code.len(), 6);
    assert_eq!(accepts_code(&secret, &code, t), Some(true));
    assert_eq!(accepts_code(&secret, &code, t + 30), Some(true));
}

#[test]
fn enrollment_descriptor_carries_secret_and_image() {
    let d = begin_enrollment("gm1").unwrap();
    assert_eq!(d.account, "gm1");
    assert_eq!(d.issuer, "Doskvol-Ltd");
    assert!(current_code(&d.secret, 0).is_some());
    // A Base64-encoded PNG always opens with the encoded PNG signature.
    assert!(d.qr_base64.starts_with("iVBOR"));
}

#[test]
fn enrollment_rejects_bad_usernames() {
    assert_eq!(begin_enrollment("").unwrap_err(), AuthError::InvalidUsername);
    assert_eq!(begin_enrollment("a:b").unwrap_err(), AuthError::InvalidUsername);
}
