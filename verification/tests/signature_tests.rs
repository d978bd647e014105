use github_actions_runner_aws::signature::{verify_signature, SignatureError};
use hmac::{Hmac, Mac};
use sha2::Sha256;

const SECRET: &[u8] = b"It's a Secret to Everybody";
const BODY: &[u8] = b"Hello, World!";
const HEADER: &[u8] =
    b"sha256=757107ea0eb2509fc211221cce984b8a37570b6d7586c22c46f4379c8b043e17";

#[test]
fn github_example_signature_is_accepted() {
    assert_eq!(verify_signature(SECRET, BODY, HEADER), Ok(()));
}

#[test]
fn upper_case_hex_is_accepted() {
    let upper = String::from_utf8(HEADER.to_vec()).unwrap();
    let (prefix, hex) = upper.split_at(7);
    let header = format!("{}{}", prefix, hex.to_uppercase());
    assert_eq!(verify_signature(SECRET, BODY, header.as_bytes()), Ok(()));
}

#[test]
fn computed_signature_is_accepted() {
    let secret = b"another secret";
    let body = br#"{"action":"queued"}"#;
    let mut mac = Hmac::<Sha256>::new_from_slice(secret).unwrap();
    mac.update(body);
    let tag = mac.finalize().into_bytes();
    let header = format!("sha256={}", hex::encode(tag));
    assert_eq!(verify_signature(secret, body, header.as_bytes()), Ok(()));
}

#[test]
fn other_body_or_secret_is_a_mismatch() {
    assert_eq!(
        verify_signature(SECRET, b"Hello, World?", HEADER),
        Err(SignatureError::Mismatch)
    );
    assert_eq!(
        verify_signature(b"wrong secret", BODY, HEADER),
        Err(SignatureError::Mismatch)
    );
}

#[test]
fn truncated_tag_is_a_mismatch() {
    assert_eq!(
        verify_signature(SECRET, BODY, &HEADER[..HEADER.len() - 2]),
        Err(SignatureError::Mismatch)
    );
    assert_eq!(verify_signature(SECRET, BODY, b"sha256="), Err(SignatureError::Mismatch));
}

#[test]
fn missing_prefix_is_refused() {
    assert_eq!(
        verify_signature(SECRET, BODY, &HEADER[7..]),
        Err(SignatureError::MissingPrefix)
    );
    assert_eq!(verify_signature(SECRET, BODY, b"sha1="), Err(SignatureError::MissingPrefix));
    assert_eq!(verify_signature(SECRET, BODY, b""), Err(SignatureError::MissingPrefix));
    assert_eq!(
        verify_signature(SECRET, BODY, b"SHA256=757107ea"),
        Err(SignatureError::MissingPrefix)
    );
}

#[test]
fn malformed_hex_is_refused() {
    assert_eq!(
        verify_signature(SECRET, BODY, &HEADER[..HEADER.len() - 1]),
        Err(SignatureError::MalformedHex)
    );
    assert_eq!(verify_signature(SECRET, BODY, b"sha256=zz"), Err(SignatureError::MalformedHex));
}
