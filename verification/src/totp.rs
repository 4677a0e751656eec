//! The time-based one-time-password second factor.
//!
//! Every code is derived with fixed parameters: algorithm SHA-1, six
//! digits, 30-second time steps, and an acceptance window of one step of
//! clock skew either way. Secrets travel as Base32-encoded strings.
//!
//! What a code's digits are is left to the outside implementation and
//! named by the uninterpreted function [`totp_code_at`]; everything the
//! crate proves about acceptance windows is stated over that name.

use vstd::prelude::*;
use crate::text::str_eq;

verus! {

/// Whether `s` is a usable encoded secret: it decodes from Base32 and
/// holds at least the 128 bits the code generator insists on.
pub uninterp spec fn is_totp_secret(s: Seq<char>) -> bool;

/// The six-digit code for the encoded secret `secret` at step number
/// `step` (the timestamp divided by the 30-second step length).
pub uninterp spec fn totp_code_at(secret: Seq<char>, step: nat) -> Seq<char>;

/// The provisioning QR image (a Base64-encoded PNG) enrolling `secret`
/// for `account` under `issuer`.
pub uninterp spec fn qr_image_of(secret: Seq<char>, account: Seq<char>, issuer: Seq<char>) -> Seq<
    char,
>;

/// Whether the provisioning image for this secret and these labels can
/// be rendered at all: the secret must be usable, the labels must not
/// carry the reserved `:`, the account label must be non-empty, and the
/// provisioning URL must fit a QR code. All of that is a function of the
/// three strings alone.
pub uninterp spec fn qr_renders(secret: Seq<char>, account: Seq<char>, issuer: Seq<char>) -> bool;

/// Relies on `totp_rs::Builder` (whose defaults are SHA-1, six digits,
/// one step of skew, 30-second steps) and `totp_rs::Totp::generate`:
/// the code is six characters and a function of the secret and the
/// 30-second step alone; building fails exactly when the secret does
/// not decode or decodes to under 128 bits.
#[verifier::external_body]
fn totp_generate(secret: &str, time: u64) -> (r: Option<String>)
    ensures
        r is Some <==> is_totp_secret(secret@),
        r is Some ==> r.unwrap()@ == totp_code_at(secret@, (time / 30) as nat),
        r is Some ==> r.unwrap()@.len() == 6,
{
    let parsed = match totp_rs::Secret::try_from_base32(secret) {
        Ok(s) => s,
        Err(_) => return None,
    };
    let totp = match totp_rs::Builder::new().with_secret(parsed).build() {
        Ok(t) => t,
        Err(_) => return None,
    };
    Some(totp.generate(time).to_string())
}

/// Relies on `totp_rs::Secret::generate` and `Secret::to_base32`: twenty
/// cryptographically random bytes, Base32-encoded, which always decode
/// back to those twenty bytes.
#[verifier::external_body]
pub fn generate_secret() -> (r: String)
    ensures
        is_totp_secret(r@),
{
    totp_rs::Secret::generate().to_base32()
}

/// Relies on `totp_rs::Totp::to_qr_base64` (with the same builder as the
/// code generator): the image, and whether one can be rendered at all,
/// are functions of the secret and the two labels alone. Rendering fails
/// exactly when the secret is unusable, a label holds the reserved `:`,
/// the account label is empty, or the provisioning URL grows too long
/// for a QR code — the condition `qr_renders` names.
#[verifier::external_body]
fn totp_qr(secret: &str, account: &str, issuer: &str) -> (r: Option<String>)
    ensures
        r is Some <==> qr_renders(secret@, account@, issuer@),
        r is Some ==> r.unwrap()@ == qr_image_of(secret@, account@, issuer@),
        r is Some ==> is_totp_secret(secret@),
{
    let parsed = totp_rs::Secret::try_from_base32(secret).ok()?;
    let totp = totp_rs::Builder::new()
        .with_secret(parsed)
        .with_account_name(account)
        .with_issuer(Some(issuer))
        .build()
        .ok()?;
    totp.to_qr_base64().ok()
}

/// The issuer label burned into every provisioning image.
pub fn issuer_label() -> (r: &'static str)
    ensures
        r@ == "Doskvol-Ltd"@,
{
    "Doskvol-Ltd"
}

/// The code an authenticator configured with `secret` shows at `time`
/// (seconds since the Unix epoch), or nothing if the secret is unusable.
pub fn current_code(secret: &str, time: u64) -> (r: Option<String>)
    ensures
        r is Some <==> is_totp_secret(secret@),
        r is Some ==> r.unwrap()@ == totp_code_at(secret@, (time / 30) as nat),
        r is Some ==> r.unwrap()@.len() == 6,
{
    totp_generate(secret, time)
}

/// The provisioning image for enrolling `secret` under `account`: it is
/// produced exactly when one can be rendered for this secret and label.
pub fn provisioning_image(secret: &str, account: &str) -> (r: Option<String>)
    ensures
        r is Some <==> qr_renders(secret@, account@, "Doskvol-Ltd"@),
        r is Some ==> r.unwrap()@ == qr_image_of(secret@, account@, "Doskvol-Ltd"@),
        r is Some ==> is_totp_secret(secret@),
{
    totp_qr(secret, account, issuer_label())
}

/// Whether `code` is accepted for `secret` at `time`: it must equal the
/// secret's code at the current, previous or next 30-second step.
pub open spec fn totp_accepts(secret: Seq<char>, code: Seq<char>, time: nat) -> bool {
    let step = time / 30;
    ||| code == totp_code_at(secret, step)
    ||| (step >= 1 && code == totp_code_at(secret, (step - 1) as nat))
    ||| code == totp_code_at(secret, step + 1)
}

/// Checks a submitted code against the acceptance window, or reports an
/// unusable secret.
pub fn accepts_code(secret: &str, code: &str, time: u64) -> (r: Option<bool>)
    requires
        time <= u64::MAX - 30,
    ensures
        r is Some <==> is_totp_secret(secret@),
        r is Some ==> r.unwrap() == totp_accepts(secret@, code@, time as nat),
{
    let current = match totp_generate(secret, time) {
        Some(c) => c,
        None => {
            return None;
        },
    };
    if str_eq(code, current.as_str()) {
        return Some(true);
    }
    if time >= 30 {
        let previous = match totp_generate(secret, time - 30) {
            Some(c) => c,
            None => {
                return None;
            },
        };
        proof {
            assert((time - 30) as u64 / 30 == time / 30 - 1);
        }
        if str_eq(code, previous.as_str()) {
            return Some(true);
        }
    }
    let next = match totp_generate(secret, time + 30) {
        Some(c) => c,
        None => {
            return None;
        },
    };
    proof {
        assert((time + 30) as u64 / 30 == time / 30 + 1);
    }
    if str_eq(code, next.as_str()) {
        return Some(true);
    }
    Some(false)
}

/// A code computed at `t_issue` is accepted whenever it is checked at a
/// time in the same or an adjacent 30-second step.
pub proof fn lemma_code_accepted_within_skew(secret: Seq<char>, t_issue: nat, t_check: nat)
    requires
        t_issue / 30 <= t_check / 30 + 1,
        t_check / 30 <= t_issue / 30 + 1,
    ensures
        totp_accepts(secret, totp_code_at(secret, t_issue / 30), t_check),
{
    let si = t_issue / 30;
    let sc = t_check / 30;
    if si == sc {
    } else if si + 1 == sc {
        assert(sc >= 1 && si == (sc - 1) as nat);
    } else {
        assert(si == sc + 1);
    }
}

/// Checked two or more steps away from when it was computed, a code is
/// accepted only if the secret's code sequence repeats it at another
/// step: if no other step shares the issued code, the check rejects it.
pub proof fn lemma_far_code_rejected_without_collision(
    secret: Seq<char>,
    t_issue: nat,
    t_check: nat,
)
    requires
        t_issue / 30 + 2 <= t_check / 30 || t_check / 30 + 2 <= t_issue / 30,
    ensures
        (forall|other: nat|
            other != t_issue / 30 ==> #[trigger] totp_code_at(secret, other) != totp_code_at(
                secret,
                t_issue / 30,
            )) ==> !totp_accepts(secret, totp_code_at(secret, t_issue / 30), t_check),
{
    let si = t_issue / 30;
    let sc = t_check / 30;
    if forall|other: nat|
        other != si ==> #[trigger] totp_code_at(secret, other) != totp_code_at(secret, si) {
        assert(sc != si && sc + 1 != si);
        if sc >= 1 {
            assert((sc - 1) as nat != si);
        }
        assert(totp_code_at(secret, sc) != totp_code_at(secret, si));
        assert(totp_code_at(secret, sc + 1) != totp_code_at(secret, si));
    }
}

} // verus!
