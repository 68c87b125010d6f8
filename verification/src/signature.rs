//! Checking the HMAC-SHA256 signature of an image name.

use vstd::prelude::*;
use hmac::{Hmac, Mac};
use sha2::Sha256;
use vstd::string::StringSliceAdditionalSpecFns;

verus! {

/// The value of a hexadecimal digit byte (either case).
pub open spec fn hex_digit_value(b: u8) -> Option<u8> {
    if 48 <= b <= 57 {
        Some((b - 48) as u8)
    } else if 65 <= b <= 70 {
        Some((b - 55) as u8)
    } else if 97 <= b <= 102 {
        Some((b - 87) as u8)
    } else {
        None
    }
}

/// The bytes that a hexadecimal text spells, two digits per byte, high digit first;
/// `None` for an odd length or a byte that is not a hexadecimal digit.
pub open spec fn hex_decoded(s: Seq<u8>) -> Option<Seq<u8>>
    decreases s.len(),
{
    if s.len() == 0 {
        Some(Seq::empty())
    } else if s.len() == 1 {
        None
    } else {
        match (hex_digit_value(s[0]), hex_digit_value(s[1]), hex_decoded(s.skip(2))) {
            (Some(hi), Some(lo), Some(rest)) => Some(seq![(hi * 16 + lo) as u8] + rest),
            _ => None,
        }
    }
}

/// A decoded hexadecimal text is half as long as the text.
pub proof fn lemma_hex_decoded_len(s: Seq<u8>)
    ensures
        hex_decoded(s) matches Some(v) ==> v.len() * 2 == s.len(),
    decreases s.len(),
{
    if s.len() >= 2 {
        lemma_hex_decoded_len(s.skip(2));
    }
}

/// `hex::decode`: the bytes that a hexadecimal text spells (upper, lower or mixed case),
/// `None` when the text has an odd length or a byte that is not a hexadecimal digit.
#[verifier::external_body]
fn hex_decode(text: &[u8]) -> (res: Option<Vec<u8>>)
    ensures
        match res {
            Some(v) => hex_decoded(text@) == Some(v@),
            None => hex_decoded(text@) is None,
        },
{
    match hex::decode(text) {
        Ok(v) => Some(v),
        Err(_) => None,
    }
}

/// The HMAC-SHA256 tag of `message` under `key`, as the `hmac` crate computes it with
/// `sha2::Sha256`.
pub uninterp spec fn hmac_sha256(key: Seq<u8>, message: Seq<u8>) -> Seq<u8>;

/// Checks a tag with `Hmac::<Sha256>::new_from_slice(key)`, `Mac::update(message)` and
/// `Mac::verify_slice(tag)`: true exactly when the tag is the HMAC-SHA256 of the message
/// under the key, and never for a tag that is not 32 bytes long. (Creating the MAC
/// cannot fail for HMAC; the failure arm is kept as the crate's signature has it.)
#[verifier::external_body]
fn hmac_sha256_matches(key: &[u8], message: &[u8], tag: &[u8]) -> (ok: bool)
    ensures
        ok == (hmac_sha256(key@, message@) == tag@),
        tag@.len() != 32 ==> !ok,
{
    match Hmac::<Sha256>::new_from_slice(key) {
        Ok(mut mac) => {
            mac.update(message);
            mac.verify_slice(tag).is_ok()
        },
        Err(_) => false,
    }
}

/// Whether `signature_hex` is the hexadecimal HMAC-SHA256 tag of the image name
/// `base64_url` under `secret`.
pub fn verify_signature(base64_url: &str, signature_hex: &str, secret: &str) -> (ok: bool)
    ensures
        ok == match hex_decoded(signature_hex.spec_bytes()) {
            Some(tag) => hmac_sha256(secret.spec_bytes(), base64_url.spec_bytes()) == tag,
            None => false,
        },
        signature_hex.spec_bytes().len() != 64 ==> !ok,
{
    proof {
        lemma_hex_decoded_len(signature_hex.spec_bytes());
    }
    let signature = match hex_decode(signature_hex.as_bytes()) {
        Some(s) => s,
        None => return false,
    };
    hmac_sha256_matches(secret.as_bytes(), base64_url.as_bytes(), signature.as_slice())
}

} // verus!
