//! Random identifier generation: session tokens and invite codes.

use vstd::prelude::*;

verus! {

/// Characters a session token may contain: the URL-safe alphabet
/// `A-Z a-z 0-9 _ -`.
pub open spec fn is_token_char(c: char) -> bool {
    ||| c == '_'
    ||| c == '-'
    ||| ('0' <= c && c <= '9')
    ||| ('a' <= c && c <= 'z')
    ||| ('A' <= c && c <= 'Z')
}

/// Characters an invite code may contain: `0-9 a-z A-Z`.
pub open spec fn is_invite_char(c: char) -> bool {
    ||| ('0' <= c && c <= '9')
    ||| ('a' <= c && c <= 'z')
    ||| ('A' <= c && c <= 'Z')
}

/// Relies on `nanoid::format` with `nanoid::rngs::default`: a string of
/// exactly `size` characters, each drawn from `alphabet`, from a
/// cryptographically secure source. The bounds keep `format` away from
/// its panic (alphabets over 255 symbols) and non-termination (an empty
/// alphabet or a zero size inside its generic sampling loop); ASCII-only
/// alphabets make its byte count equal its character count.
#[verifier::external_body]
fn random_string(alphabet: &[char], size: usize) -> (r: String)
    requires
        1 <= alphabet@.len() <= 255,
        1 <= size,
        forall|i: int| 0 <= i < alphabet@.len() ==> (alphabet@[i] as u32) < 128,
    ensures
        r@.len() == size as nat,
        forall|i: int| 0 <= i < r@.len() ==> alphabet@.contains(#[trigger] r@[i]),
{
    nanoid::format(nanoid::rngs::default, alphabet, size)
}

/// Pushes the characters `lo..=hi` onto `out`.
fn push_char_range(out: &mut Vec<char>, lo: u8, hi: u8)
    requires
        lo <= hi,
        hi < 128,
    ensures
        final(out)@.len() == old(out)@.len() + (hi - lo) + 1,
        forall|i: int|
            0 <= i < old(out)@.len() ==> final(out)@[i] == old(out)@[i],
        forall|i: int|
            old(out)@.len() <= i < final(out)@.len() ==> (lo
                + (i - old(out)@.len())) as u8 as char == #[trigger] final(out)@[i],
    decreases hi - lo,
{
    let mut b: u8 = lo;
    while b < hi
        invariant
            lo <= b <= hi,
            hi < 128,
            out@.len() == old(out)@.len() + (b - lo),
            forall|i: int| 0 <= i < old(out)@.len() ==> out@[i] == old(out)@[i],
            forall|i: int|
                old(out)@.len() <= i < out@.len() ==> (lo + (i - old(out)@.len())) as u8 as char
                    == #[trigger] out@[i],
        decreases hi - b,
    {
        out.push(b as char);
        b = b + 1;
    }
    out.push(b as char);
}

/// The 62-character invite-code alphabet `0-9 a-z A-Z`.
fn invite_alphabet() -> (r: Vec<char>)
    ensures
        r@.len() == 62,
        forall|i: int| 0 <= i < r@.len() ==> is_invite_char(#[trigger] r@[i]),
        forall|i: int| 0 <= i < r@.len() ==> (#[trigger] r@[i] as u32) < 128,
{
    let mut out: Vec<char> = Vec::new();
    push_char_range(&mut out, 48, 57);
    push_char_range(&mut out, 97, 122);
    push_char_range(&mut out, 65, 90);
    out
}

/// The 64-character session-token alphabet `_ - 0-9 a-z A-Z`.
fn token_alphabet() -> (r: Vec<char>)
    ensures
        r@.len() == 64,
        forall|i: int| 0 <= i < r@.len() ==> is_token_char(#[trigger] r@[i]),
        forall|i: int| 0 <= i < r@.len() ==> (#[trigger] r@[i] as u32) < 128,
{
    let mut out: Vec<char> = Vec::new();
    out.push('_');
    out.push('-');
    push_char_range(&mut out, 48, 57);
    push_char_range(&mut out, 97, 122);
    push_char_range(&mut out, 65, 90);
    out
}

/// Draws a fresh 25-character session token from the URL-safe alphabet.
pub fn fresh_token() -> (r: String)
    ensures
        r@.len() == 25,
        forall|i: int| 0 <= i < r@.len() ==> is_token_char(#[trigger] r@[i]),
{
    let alphabet = token_alphabet();
    let r = random_string(alphabet.as_slice(), 25);
    proof {
        assert forall|i: int| 0 <= i < r@.len() implies is_token_char(#[trigger] r@[i]) by {
            let j = choose|j: int| 0 <= j < alphabet@.len() && alphabet@[j] == r@[i];
            assert(is_token_char(alphabet@[j]));
        }
    }
    r
}

/// Draws a fresh 6-character invite code from the alphanumeric alphabet.
pub fn fresh_invite_code() -> (r: String)
    ensures
        r@.len() == 6,
        forall|i: int| 0 <= i < r@.len() ==> is_invite_char(#[trigger] r@[i]),
{
    let alphabet = invite_alphabet();
    let r = random_string(alphabet.as_slice(), 6);
    proof {
        assert forall|i: int| 0 <= i < r@.len() implies is_invite_char(#[trigger] r@[i]) by {
            let j = choose|j: int| 0 <= j < alphabet@.len() && alphabet@[j] == r@[i];
            assert(is_invite_char(alphabet@[j]));
        }
    }
    r
}

} // verus!
