//! Authentication of a delivery: GitHub signs each webhook body with
//! HMAC-SHA256 under the shared secret and sends the tag, hex-encoded and
//! prefixed with `sha256=`, in the `X-Hub-Signature-256` header.

use hmac::{Hmac, Mac};
use sha2::Sha256;
use vstd::prelude::*;

verus! {

/// The HMAC-SHA256 tag of `message` under `key` (RFC 2104 over FIPS 180-4).
pub uninterp spec fn spec_hmac_sha256(key: Seq<u8>, message: Seq<u8>) -> Seq<u8>;

/// Checks a tag with the `hmac` crate: `Hmac::<Sha256>::new_from_slice`,
/// `Mac::chain_update` and `Mac::verify_slice`.
/// Claimed: the result is `true` exactly when `tag` equals the HMAC-SHA256
/// tag of `message` under `key`. `verify_slice` refuses a tag whose length
/// differs from the 32-byte output and otherwise compares in constant time;
/// `new_from_slice` accepts a key of any length for HMAC.
#[verifier::external_body]
fn hmac_sha256_verify(key: &[u8], message: &[u8], tag: &[u8]) -> (r: bool)
    ensures
        r == (tag@ == spec_hmac_sha256(key@, message@)),
{
    match Hmac::<Sha256>::new_from_slice(key) {
        Ok(mac) => mac.chain_update(message).verify_slice(tag).is_ok(),
        Err(_) => false,
    }
}

/// Value of an ASCII hexadecimal digit, either case.
pub open spec fn hex_digit_value(b: u8) -> Option<int> {
    if 48 <= b <= 57 {
        Some(b - 48)
    } else if 65 <= b <= 70 {
        Some(b - 55)
    } else if 97 <= b <= 102 {
        Some(b - 87)
    } else {
        None
    }
}

/// Hexadecimal decoding: each pair of digits gives one byte, high nibble
/// first; an odd length or a non-digit gives nothing.
pub open spec fn spec_hex_decode(s: Seq<u8>) -> Option<Seq<u8>>
    decreases s.len(),
{
    if s.len() == 0 {
        Some(seq![])
    } else if s.len() == 1 {
        None
    } else {
        match (hex_digit_value(s[0]), hex_digit_value(s[1]), spec_hex_decode(s.skip(2))) {
            (Some(high), Some(low), Some(rest)) => Some(seq![(high * 16 + low) as u8] + rest),
            _ => None,
        }
    }
}

/// Lower-case ASCII hexadecimal digit of a nibble.
pub open spec fn hex_digit(v: int) -> u8 {
    if v < 10 {
        (48 + v) as u8
    } else {
        (87 + v) as u8
    }
}

/// Lower-case hexadecimal encoding, two digits per byte.
pub open spec fn spec_hex_encode(bytes: Seq<u8>) -> Seq<u8>
    decreases bytes.len(),
{
    if bytes.len() == 0 {
        seq![]
    } else {
        seq![hex_digit(bytes[0] as int / 16), hex_digit(bytes[0] as int % 16)] + spec_hex_encode(bytes.skip(1))
    }
}

/// Decodes hexadecimal text with `hex::decode`.
/// Claimed: the result is the decoding that `spec_hex_decode` describes,
/// and nothing exactly when the length is odd or a byte is not a digit
/// (`hex::FromHexError::OddLength`, `InvalidHexCharacter`).
#[verifier::external_body]
fn hex_decode(text: &[u8]) -> (r: Option<Vec<u8>>)
    ensures
        r is None <==> spec_hex_decode(text@) is None,
        r matches Some(bytes) ==> spec_hex_decode(text@) == Some(bytes@),
{
    hex::decode(text).ok()
}

/// `sha256=` in ASCII.
pub open spec fn signature_prefix() -> Seq<u8> {
    seq![115u8, 104u8, 97u8, 50u8, 53u8, 54u8, 61u8]
}

/// Why a delivery's signature was refused.
#[derive(Debug, Clone, Copy, PartialEq, Eq, Structural)]
pub enum SignatureError {
    /// The header does not begin with `sha256=`.
    MissingPrefix,
    /// What follows `sha256=` is not hexadecimal text.
    MalformedHex,
    /// The decoded tag is not the body's HMAC-SHA256 tag under the secret.
    Mismatch,
}

/// The outcome of checking `header` as the signature of `body` under `secret`.
pub open spec fn spec_check_signature(secret: Seq<u8>, body: Seq<u8>, header: Seq<u8>) -> Result<
    (),
    SignatureError,
> {
    if !(header.len() >= 7 && header.take(7) == signature_prefix()) {
        Err(SignatureError::MissingPrefix)
    } else {
        match spec_hex_decode(header.skip(7)) {
            None => Err(SignatureError::MalformedHex),
            Some(tag) => if tag == spec_hmac_sha256(secret, body) {
                Ok(())
            } else {
                Err(SignatureError::Mismatch)
            },
        }
    }
}

/// Checks the value of the `X-Hub-Signature-256` header against the body of
/// the delivery and the shared secret.
pub fn verify_signature(secret: &[u8], body: &[u8], header: &[u8]) -> (r: Result<(), SignatureError>)
    ensures
        r == spec_check_signature(secret@, body@, header@),
{
    let prefix: [u8; 7] = [115u8, 104u8, 97u8, 50u8, 53u8, 54u8, 61u8];
    if header.len() < 7 {
        return Err(SignatureError::MissingPrefix);
    }
    let (head, rest) = header.split_at(7);
    let mut i: usize = 0;
    while i < 7
        invariant
            header@.len() >= 7,
            head@ == header@.subrange(0, 7),
            prefix@ == signature_prefix(),
            i <= 7,
            forall|j: int| 0 <= j < i ==> head@[j] == prefix@[j],
        decreases 7 - i,
    {
        if head[i] != prefix[i] {
            assert(header@.take(7)[i as int] != signature_prefix()[i as int]);
            return Err(SignatureError::MissingPrefix);
        }
        i = i + 1;
    }
    assert(header@.take(7) =~= signature_prefix());
    assert(rest@ =~= header@.skip(7));
    match hex_decode(rest) {
        None => Err(SignatureError::MalformedHex),
        Some(tag) => {
            if hmac_sha256_verify(secret, body, tag.as_slice()) {
                Ok(())
            } else {
                Err(SignatureError::Mismatch)
            }
        },
    }
}

/// Hexadecimal decoding undoes lower-case hexadecimal encoding.
pub proof fn lemma_hex_round_trip(bytes: Seq<u8>)
    ensures
        spec_hex_decode(spec_hex_encode(bytes)) == Some(bytes),
    decreases bytes.len(),
{
    if bytes.len() > 0 {
        let enc = spec_hex_encode(bytes);
        lemma_hex_round_trip(bytes.skip(1));
        let b = bytes[0] as int;
        assert(hex_digit_value(hex_digit(b / 16)) == Some(b / 16));
        assert(hex_digit_value(hex_digit(b % 16)) == Some(b % 16));
        assert(enc.skip(2) =~= spec_hex_encode(bytes.skip(1)));
        assert((b / 16 * 16 + b % 16) as u8 == bytes[0]);
        assert(seq![bytes[0]] + bytes.skip(1) =~= bytes);
    }
}

/// A delivery whose header carries `sha256=` and the lower-case hexadecimal
/// HMAC-SHA256 tag of its body under the secret is accepted.
pub proof fn lemma_signed_delivery_accepted(secret: Seq<u8>, body: Seq<u8>)
    ensures
        spec_check_signature(
            secret,
            body,
            signature_prefix() + spec_hex_encode(spec_hmac_sha256(secret, body)),
        ) == Ok::<(), SignatureError>(()),
{
    let tag = spec_hmac_sha256(secret, body);
    let header = signature_prefix() + spec_hex_encode(tag);
    lemma_hex_round_trip(tag);
    assert(header.take(7) =~= signature_prefix());
    assert(header.skip(7) =~= spec_hex_encode(tag));
}

} // verus!
