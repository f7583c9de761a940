//! Time-based one-time codes (RFC 6238: HMAC-SHA1, 30-second steps, six
//! digits) from Base32 secrets.

use hmac::{Hmac, Mac};
use sha1::Sha1;
use vstd::bytes::{spec_u64_to_le_bytes, u64_to_le_bytes};
use vstd::prelude::*;
use vstd::string::StringSliceAdditionalSpecFns;
use vstd::utf8::encode_utf8;

use crate::encoding::{format_six_digits, six_digits};

verus! {

/// Length of a TOTP time step, in seconds.
pub const TOTP_STEP: u64 = 30;

/// Digits of a code.
pub const TOTP_DIGITS: usize = 6;

/// Length of an HMAC-SHA1 tag.
pub const SHA1_TAG_LEN: usize = 20;

/// Why no code could be made.
#[derive(Debug, Clone, Copy, PartialEq, Eq, Structural)]
pub enum TotpError {
    /// The secret is not valid Base32.
    InvalidSecret,
}

impl TotpError {
    /// The user-facing text of the error.
    pub fn message(&self) -> (r: &'static str)
        ensures
            *self == TotpError::InvalidSecret ==> r@ == "Invalid Base32 Secret"@,
    {
        match self {
            TotpError::InvalidSecret => "Invalid Base32 Secret",
        }
    }
}

/// The Unicode upper-case form of a text.
pub uninterp spec fn upper_of(s: Seq<char>) -> Seq<char>;

/// The bytes written by a Base32 text (RFC 4648 alphabet, no padding).
pub uninterp spec fn base32_decoded(text: Seq<u8>) -> Option<Seq<u8>>;

/// The TOTP code (HMAC-SHA1) of a secret at a time, with the given number
/// of digits and step length in seconds.
pub uninterp spec fn totp_sha1_code(secret: Seq<u8>, time: u64, digits: usize, step: u64) -> Seq<
    char,
>;

/// HMAC-SHA1 of a message under a key of any length.
pub uninterp spec fn hmac_sha1_of(key: Seq<u8>, message: Seq<u8>) -> Seq<u8>;

/// Relies on str::to_uppercase: the result depends on the characters alone.
#[verifier::external_body]
fn to_upper(s: &str) -> (r: String)
    ensures
        r@ == upper_of(s@),
{
    s.to_uppercase()
}

/// Relies on base32::decode with `Alphabet::RFC4648 { padding: false }`,
/// over the bytes read as UTF-8 text (text that is not UTF-8 is refused).
#[verifier::external_body]
fn base32_decode(text: &[u8]) -> (r: Option<Vec<u8>>)
    ensures
        r matches Some(b) ==> base32_decoded(text@) == Some(b@),
        r is None ==> base32_decoded(text@) is None,
{
    let text = std::str::from_utf8(text).ok()?;
    base32::decode(base32::Alphabet::RFC4648 { padding: false }, text)
}

/// Relies on totp_rs: `TOTP::new_unchecked(Algorithm::SHA1, digits, 1,
/// step, secret)` and `TOTP::generate(time)`, a function of its arguments
/// alone. `generate` divides by the step and raises 10 to the digit count
/// in a `u32`, hence the bounds.
#[verifier::external_body]
fn totp_generate(secret: Vec<u8>, time: u64, digits: usize, step: u64) -> (r: String)
    requires
        1 <= digits <= 9,
        step > 0,
    ensures
        r@ == totp_sha1_code(secret@, time, digits, step),
{
    totp_rs::TOTP::new_unchecked(totp_rs::Algorithm::SHA1, digits, 1, step, secret).generate(time)
}

/// Relies on hmac's `Hmac<Sha1>`: `new_from_slice` accepts keys of any
/// length, and `finalize` gives the 20-byte tag of the message.
#[verifier::external_body]
fn hmac_sha1(key: &[u8], message: &[u8]) -> (r: Vec<u8>)
    ensures
        r@ == hmac_sha1_of(key@, message@),
        r@.len() == SHA1_TAG_LEN,
{
    let mut mac = Hmac::<Sha1>::new_from_slice(key).expect("HMAC accepts keys of any length");
    mac.update(message);
    mac.finalize().into_bytes().to_vec()
}

/// Spaces and `=` padding.
pub open spec fn is_filler(b: u8) -> bool {
    b == 32 || b == 61
}

/// The bytes without spaces and padding.
pub open spec fn without_filler(b: Seq<u8>) -> Seq<u8> {
    b.filter(|x: u8| !is_filler(x))
}

fn strip_filler(b: &[u8]) -> (r: Vec<u8>)
    ensures
        r@ == without_filler(b@),
{
    let mut out: Vec<u8> = Vec::new();
    let mut i: usize = 0;
    proof {
        reveal_with_fuel(Seq::filter, 1);
        assert(b@.take(0) == Seq::<u8>::empty());
    }
    while i < b.len()
        invariant
            i <= b@.len(),
            out@ == without_filler(b@.take(i as int)),
        decreases b@.len() - i,
    {
        proof {
            assert(b@.take(i as int + 1).drop_last() == b@.take(i as int));
            reveal_with_fuel(Seq::filter, 1);
        }
        if b[i] != 32 && b[i] != 61 {
            out.push(b[i]);
        }
        i = i + 1;
    }
    proof {
        assert(b@.take(b@.len() as int) == b@);
    }
    out
}

/// The secret as it is decoded: upper-cased, then without spaces and `=`.
pub open spec fn normalized_secret(secret: Seq<char>) -> Seq<u8> {
    without_filler(encode_utf8(upper_of(secret)))
}

/// The current code for a Base32 secret at Unix time `now`. The secret is
/// upper-cased and stripped of spaces and padding before decoding.
pub fn get_totp_token(secret: &str, now: u64) -> (r: Result<String, TotpError>)
    ensures
        base32_decoded(normalized_secret(secret@)) is None ==> r == Err::<String, TotpError>(
            TotpError::InvalidSecret,
        ),
        base32_decoded(normalized_secret(secret@)) matches Some(key) ==> (r matches Ok(code)
            && code@ == totp_sha1_code(key, now, TOTP_DIGITS, TOTP_STEP)),
{
    let upper = to_upper(secret);
    let text = strip_filler(upper.as_str().as_bytes());
    match base32_decode(text.as_slice()) {
        Some(key) => Ok(totp_generate(key, now, TOTP_DIGITS, TOTP_STEP)),
        None => Err(TotpError::InvalidSecret),
    }
}

/// RFC 4226 dynamic truncation of a 20-byte tag to six digits.
pub open spec fn truncated_code(tag: Seq<u8>) -> u32 {
    let o = (tag[19] % 16) as int;
    (((tag[o] % 128) as int * 16777216 + tag[o + 1] as int * 65536 + tag[o + 2] as int * 256
        + tag[o + 3] as int) % 1000000) as u32
}

/// The eight big-endian bytes of the step counter.
pub open spec fn counter_bytes(counter: u64) -> Seq<u8> {
    spec_u64_to_le_bytes(counter).reverse()
}

/// The code for a Base32 secret (not normalised) at Unix time `now`, and
/// the seconds left in the current step.
pub fn generate_code(secret_str: &str, now: u64) -> (r: Result<(String, u64), TotpError>)
    ensures
        base32_decoded(secret_str.spec_bytes()) is None ==> r == Err::<(String, u64), TotpError>(
            TotpError::InvalidSecret,
        ),
        base32_decoded(secret_str.spec_bytes()) matches Some(key) ==> (r matches Ok((code, ttl))
            && {
            &&& code@ == six_digits(
                truncated_code(hmac_sha1_of(key, counter_bytes((now / TOTP_STEP) as u64))),
            )
            &&& ttl == TOTP_STEP - now % TOTP_STEP
        }),
{
    let key = match base32_decode(secret_str.as_bytes()) {
        Some(k) => k,
        None => {
            return Err(TotpError::InvalidSecret);
        },
    };
    let counter = now / TOTP_STEP;
    let ttl = TOTP_STEP - now % TOTP_STEP;
    let le = u64_to_le_bytes(counter);
    let mut message: Vec<u8> = Vec::new();
    let mut i: usize = 8;
    while i > 0
        invariant
            i <= 8,
            le@ == spec_u64_to_le_bytes(counter),
            le@.len() == 8,
            message@ == le@.reverse().take(8 - i),
        decreases i,
    {
        i = i - 1;
        message.push(le[i]);
        assert(message@ == le@.reverse().take(8 - i));
    }
    assert(message@ == counter_bytes(counter));
    let tag = hmac_sha1(key.as_slice(), message.as_slice());
    let o = (tag[19] % 16) as usize;
    let bin: u32 = (tag[o] % 128) as u32 * 16777216 + tag[o + 1] as u32 * 65536 + tag[o + 2] as u32
        * 256 + tag[o + 3] as u32;
    let code = bin % 1000000;
    Ok((format_six_digits(code), ttl))
}

} // verus!
