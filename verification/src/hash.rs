//! The challenge generator and the digest and encoding primitives under it:
//! a fresh secret nonce is drawn, hashed, and only the hash is published.

use crate::digits::{spec_dec_digits, u64_to_dec};
use crate::models::Logger;
use rand::Rng;
use sha2::Digest;
use vstd::prelude::*;

verus! {

/// What the SHA-256 digest of a byte string is; a function of the bytes
/// alone.
pub uninterp spec fn spec_sha256(data: Seq<u8>) -> Seq<u8>;

/// Relies on sha2::Sha256::digest: the digest depends on the input bytes
/// alone and is always 32 bytes long.
#[verifier::external_body]
pub(crate) fn sha256(data: &Vec<u8>) -> (r: Vec<u8>)
    ensures
        r@ == spec_sha256(data@),
        r@.len() == 32,
{
    sha2::Sha256::digest(data.as_slice()).to_vec()
}

/// One lowercase hexadecimal digit.
pub open spec fn spec_hex_digit(n: u8) -> char
    recommends
        n < 16,
{
    if n < 10 {
        (48 + n) as char
    } else {
        (87 + n) as char
    }
}

/// The lowercase hexadecimal text of a byte string, high nibble first.
pub open spec fn spec_hex_of(data: Seq<u8>) -> Seq<char> {
    Seq::new(
        data.len() * 2,
        |i: int|
            if i % 2 == 0 {
                spec_hex_digit(data[i / 2] >> 4)
            } else {
                spec_hex_digit(data[i / 2] & 15)
            },
    )
}

/// Relies on hex::encode: two lowercase digits per byte, high nibble first.
#[verifier::external_body]
pub(crate) fn to_hex(data: &Vec<u8>) -> (r: String)
    ensures
        r@ == spec_hex_of(data@),
{
    hex::encode(data.as_slice())
}

/// Relies on rand::thread_rng: an unpredictable 64-bit value; nothing can be
/// promised of which one comes.
#[verifier::external_body]
pub(crate) fn random_u64() -> u64 {
    rand::thread_rng().gen()
}

/// The nonce text the generator hashes: two decimal numbers joined by a dot.
pub open spec fn spec_nonce_text(a: u64, b: u64) -> Seq<u8> {
    spec_dec_digits(a as nat) + seq![46u8] + spec_dec_digits(b as nat)
}

/// Draws a fresh secret nonce from two unpredictable 64-bit values, hashes
/// its text, and returns only the 32-byte digest: the next challenge. The
/// nonce itself is never returned; in debug mode the digest is logged in
/// hexadecimal.
pub fn next_problem_hash(logger: &Logger, debug: bool) -> (r: Vec<u8>)
    ensures
        r@.len() == 32,
        exists|a: u64, b: u64| r@ == spec_sha256(spec_nonce_text(a, b)),
{
    let a = random_u64();
    let b = random_u64();
    let mut text = u64_to_dec(a);
    text.push(46);
    let mut tail = u64_to_dec(b);
    text.append(&mut tail);
    proof {
        assert(text@ =~= spec_nonce_text(a, b));
    }
    let digest = sha256(&text);
    if debug {
        let encoded = to_hex(&digest);
        logger.log(encoded.as_str());
    }
    proof {
        assert(digest@ == spec_sha256(spec_nonce_text(a, b)));
    }
    digest
}

} // verus!
