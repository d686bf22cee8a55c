//! Signing of upstream requests: a timestamp and the request body under a
//! shared secret.

use vstd::prelude::*;
use vstd::string::StringSliceAdditionalSpecFns;

verus! {

/// The error of `hmac` for a key that it refuses; nothing is read from it.
#[verifier::external_type_specification]
#[verifier::external_body]
pub struct ExInvalidLength(hmac::digest::InvalidLength);

/// The HMAC-SHA256 of `message` under `key`, as the `hmac` crate computes it
/// with `sha2::Sha256`.
pub uninterp spec fn hmac_sha256(key: Seq<u8>, message: Seq<u8>) -> Seq<u8>;

/// The lower-case hexadecimal digit for a value under 16.
pub open spec fn hex_digit(v: int) -> char {
    if v < 10 {
        ('0' as u8 + v) as char
    } else {
        ('a' as u8 + (v - 10)) as char
    }
}

/// The bytes written out in lower-case hexadecimal, two digits for a byte.
pub open spec fn hex_string(bytes: Seq<u8>) -> Seq<char> {
    Seq::new(
        2 * bytes.len(),
        |i: int|
            if i % 2 == 0 {
                hex_digit(bytes[i / 2] as int / 16)
            } else {
                hex_digit(bytes[i / 2] as int % 16)
            },
    )
}

/// The decimal digits of a number, in ASCII.
pub open spec fn decimal_digits(n: nat) -> Seq<u8>
    decreases n,
{
    if n < 10 {
        seq![(48 + n) as u8]
    } else {
        decimal_digits(n / 10).push((48 + n % 10) as u8)
    }
}

/// A number as decimal text in ASCII, with a minus sign where it is
/// negative.
pub open spec fn decimal_bytes(n: int) -> Seq<u8> {
    if n < 0 {
        seq![45u8] + decimal_digits((-n) as nat)
    } else {
        decimal_digits(n as nat)
    }
}

/// Trusted: computes a MAC with `Hmac::<Sha256>::new_from_slice`, `update`
/// and `finalize`. A key of any length is taken, so the call succeeds; the
/// MAC depends on key and message alone and is named, not described.
#[verifier::external_body]
fn mac_sha256(key: &[u8], message: &[u8]) -> (r: Result<Vec<u8>, hmac::digest::InvalidLength>)
    ensures
        r is Ok,
        r->Ok_0@ == hmac_sha256(key@, message@),
{
    let mut mac = <hmac::Hmac<sha2::Sha256> as hmac::Mac>::new_from_slice(key)?;
    hmac::Mac::update(&mut mac, message);
    Ok(hmac::Mac::finalize(mac).into_bytes().to_vec())
}

/// Trusted: calls `hex::encode`, which writes each byte as two lower-case
/// hexadecimal digits, the high one first.
#[verifier::external_body]
fn hex_encode(bytes: &[u8]) -> (r: String)
    ensures
        r@ == hex_string(bytes@),
{
    hex::encode(bytes)
}

/// Appends the decimal digits of `n`.
fn push_digits(out: &mut Vec<u8>, n: u64)
    ensures
        final(out)@ == old(out)@ + decimal_digits(n as nat),
    decreases n,
{
    if n >= 10 {
        push_digits(out, n / 10);
    }
    out.push(48 + (n % 10) as u8);
}

/// A number as decimal text in ASCII.
pub fn decimal(n: i64) -> (r: Vec<u8>)
    ensures
        r@ == decimal_bytes(n as int),
{
    let mut out: Vec<u8> = Vec::new();
    if n < 0 {
        out.push(45);
        let magnitude: u64 = (-(n as i128)) as u64;
        push_digits(&mut out, magnitude);
    } else {
        push_digits(&mut out, n as u64);
    }
    out
}

/// The key could not be used. No key is refused, so this does not occur.
#[derive(Clone, Copy, Debug, PartialEq, Eq)]
pub struct InvalidKey;

/// The text that is signed: the timestamp in decimal, then the payload.
pub open spec fn signed_message(timestamp: i64, payload: Seq<u8>) -> Seq<u8> {
    decimal_bytes(timestamp as int) + payload
}

/// Signs a payload sent at `timestamp`: returns the timestamp and, in
/// hexadecimal, the HMAC-SHA256 under `secret` of the timestamp in decimal
/// followed by the payload. Every secret can be used: the result is never an
/// error.
pub fn build_hmac(secret: &str, payload: &[u8], timestamp: i64) -> (r: Result<
    (i64, String),
    InvalidKey,
>)
    ensures
        r is Ok,
        r->Ok_0.0 == timestamp,
        r->Ok_0.1@ == hex_string(
            hmac_sha256(secret.spec_bytes(), signed_message(timestamp, payload@)),
        ),
{
    let mut message = decimal(timestamp);
    let mut i: usize = 0;
    while i < payload.len()
        invariant
            i <= payload@.len(),
            message@ == decimal_bytes(timestamp as int) + payload@.take(i as int),
        decreases payload@.len() - i,
    {
        message.push(payload[i]);
        i += 1;
    }
    assert(payload@.take(payload@.len() as int) == payload@);
    match mac_sha256(secret.as_bytes(), message.as_slice()) {
        Ok(mac) => Ok((timestamp, hex_encode(mac.as_slice()))),
        Err(_) => Err(InvalidKey),
    }
}

} // verus!
