use github_actions_runner_aws::github::{
    api_headers, generate_json_web_token, installation_access_token_request,
    registration_token_request, token_from_signing, unescape_newlines, Claims, TokenSigningError,
};
use base64::Engine;
use num_bigint::BigUint;
use github_actions_runner_aws::webhook::{
    Action, Installation, Owner, Repository, Webhook, WorkflowJob,
};

/// The DER encoding of a non-negative INTEGER.
fn der_integer(value: &BigUint) -> Vec<u8> {
    let mut bytes = value.to_bytes_be();
    if bytes[0] & 0x80 != 0 {
        bytes.insert(0, 0);
    }
    der_element(0x02, &bytes)
}

/// A DER element with tag `tag` and contents `contents`.
fn der_element(tag: u8, contents: &[u8]) -> Vec<u8> {
    let mut out = vec![tag];
    let len = contents.len();
    if len < 0x80 {
        out.push(len as u8);
    } else {
        let len_bytes: Vec<u8> = len.to_be_bytes().iter().copied().skip_while(|b| *b == 0).collect();
        out.push(0x80 | len_bytes.len() as u8);
        out.extend_from_slice(&len_bytes);
    }
    out.extend_from_slice(contents);
    out
}

/// A 2048-bit RSA key pair made from the primes 2^1024 - 105 and
/// 2^1024 - 179 with exponent 65537: the PKCS #1 private key in PEM, and the
/// modulus and exponent in unpadded Base64url for the matching public key.
/// Its factors are public, so it serves tests and nothing else.
fn test_key() -> (String, String, String) {
    let top = BigUint::from(1u32) << 1024usize;
    let p = &top - BigUint::from(105u32);
    let q = &top - BigUint::from(179u32);
    let one = BigUint::from(1u32);
    let e = BigUint::from(65537u32);
    let n = &p * &q;
    let phi = (&p - &one) * (&q - &one);
    let d = e.modinv(&phi).unwrap();
    let dp = &d % (&p - &one);
    let dq = &d % (&q - &one);
    let qinv = q.modinv(&p).unwrap();
    let mut body = der_integer(&BigUint::from(0u32));
    for part in [&n, &e, &d, &p, &q, &dp, &dq, &qinv] {
        body.extend(der_integer(part));
    }
    let der = der_element(0x30, &body);
    let encoded = base64::prelude::BASE64_STANDARD.encode(der);
    let label = "RSA PRIVATE KEY";
    let mut pem = format!("-----BEGIN {}-----\n", label);
    for line in encoded.as_bytes().chunks(64) {
        pem.push_str(std::str::from_utf8(line).unwrap());
        pem.push('\n');
    }
    pem.push_str(&format!("-----END {}-----", label));
    let url = base64::prelude::BASE64_URL_SAFE_NO_PAD;
    (pem, url.encode(n.to_bytes_be()), url.encode(e.to_bytes_be()))
}

fn webhook() -> Webhook {
    Webhook {
        action: Action::Queued,
        installation: Installation { id: 4294967295 },
        workflow_job: WorkflowJob { labels: vec![], runner_name: None },
        repository: Repository {
            full_name: "drakon64/example".to_string(),
            owner: Owner { login: "drakon64".to_string() },
        },
    }
}

fn header_pairs(headers: &[(String, String)]) -> Vec<(&str, &str)> {
    headers.iter().map(|(n, v)| (n.as_str(), v.as_str())).collect()
}

#[test]
fn headers_of_every_request() {
    let headers = api_headers("abc");
    assert_eq!(
        header_pairs(&headers),
        vec![
            ("Accept", "application/vnd.github+json"),
            ("Authorization", "Bearer abc"),
            ("X-GitHub-Api-Version", "2022-11-28"),
            ("User-Agent", "github-actions-runner-aws 0.1.0"),
        ]
    );
}

#[test]
fn access_token_request() {
    let request = installation_access_token_request(&webhook(), "jwt.value");
    assert_eq!(request.url, "https://api.github.com/app/installations/4294967295/access_tokens");
    assert_eq!(header_pairs(&request.headers)[1], ("Authorization", "Bearer jwt.value"));
    let mut small = webhook();
    small.installation.id = 0;
    let request = installation_access_token_request(&small, "x");
    assert_eq!(request.url, "https://api.github.com/app/installations/0/access_tokens");
}

#[test]
fn registration_token_request_url() {
    let request = registration_token_request(&webhook(), "ghs_token");
    assert_eq!(
        request.url,
        "https://api.github.com/repos/drakon64/example/actions/runners/registration-token"
    );
    assert_eq!(header_pairs(&request.headers)[1], ("Authorization", "Bearer ghs_token"));
    assert_eq!(request.headers.len(), 4);
}

#[test]
fn claims_window() {
    let claims = Claims::new(1_700_000_000, "Iv1.abc");
    assert_eq!(claims.iat, 1_699_999_940);
    assert_eq!(claims.exp, 1_700_000_600);
    assert_eq!(claims.iss, "Iv1.abc");
    let claims = Claims::new(60, "x");
    assert_eq!(claims.iat, 0);
}

#[test]
fn unescape_newlines_matches_replace() {
    for s in ["a\\nb", "\\n\\n", "\\\\n", "\\", "n\\", "no escapes", "", "x\\ny\\", "\\nn"] {
        assert_eq!(unescape_newlines(s), s.replace("\\n", "\n"), "input {:?}", s);
    }
}

#[test]
fn invalid_key_is_refused() {
    assert_eq!(
        generate_json_web_token(1_700_000_000, "Iv1.abc", "not a key"),
        Err(TokenSigningError)
    );
}

#[test]
fn token_is_signed_with_the_escaped_key() {
    let (private_key, modulus, exponent) = test_key();
    let escaped = private_key.replace('\n', "\\n");
    let token = generate_json_web_token(1_700_000_000, "Iv1.abc", &escaped).unwrap();

    let mut claims = serde_json::Map::new();
    claims.insert("iat".to_string(), serde_json::Value::from(1_699_999_940u64));
    claims.insert("exp".to_string(), serde_json::Value::from(1_700_000_600u64));
    claims.insert("iss".to_string(), serde_json::Value::from("Iv1.abc"));
    let key = jsonwebtoken::EncodingKey::from_rsa_pem(private_key.as_bytes()).unwrap();
    let header = jsonwebtoken::Header::new(jsonwebtoken::Algorithm::RS256);
    let expected = jsonwebtoken::encode(&header, &claims, &key).unwrap();
    assert_eq!(token, expected);

    let decoding = jsonwebtoken::DecodingKey::from_rsa_components(&modulus, &exponent).unwrap();
    let mut validation = jsonwebtoken::Validation::new(jsonwebtoken::Algorithm::RS256);
    validation.validate_exp = false;
    let data = jsonwebtoken::decode::<serde_json::Value>(&token, &decoding, &validation).unwrap();
    assert_eq!(data.claims["iat"], 1_699_999_940u64);
    assert_eq!(data.claims["exp"], 1_700_000_600u64);
    assert_eq!(data.claims["iss"], "Iv1.abc");
    assert_eq!(data.header.typ.as_deref(), Some("JWT"));
}

#[test]
fn token_with_real_line_feeds_in_the_key() {
    let (private_key, _, _) = test_key();
    let token = generate_json_web_token(1_700_000_000, "Iv1.abc", &private_key).unwrap();
    let escaped = private_key.replace('\n', "\\n");
    assert_eq!(token, generate_json_web_token(1_700_000_000, "Iv1.abc", &escaped).unwrap());
    assert_eq!(token.split('.').count(), 3);
}

#[test]
fn signing_answer_passes_the_token_through() {
    assert_eq!(token_from_signing(Ok("a.b.c".to_string())), Ok("a.b.c".to_string()));
    let error = jsonwebtoken::EncodingKey::from_rsa_pem(b"not a key").err().unwrap();
    assert_eq!(token_from_signing(Err(error)), Err(TokenSigningError));
}

#[test]
fn same_inputs_give_the_same_token() {
    let (private_key, _, _) = test_key();
    let first = generate_json_web_token(1_700_000_123, "Iv1.abc", &private_key).unwrap();
    let second = generate_json_web_token(1_700_000_123, "Iv1.abc", &private_key).unwrap();
    assert_eq!(first, second);
    let later = generate_json_web_token(1_700_000_124, "Iv1.abc", &private_key).unwrap();
    assert_ne!(first, later);
}

#[test]
fn text_without_a_pem_block_is_refused() {
    let (private_key, _, _) = test_key();
    let body_only: String = private_key.lines().filter(|l| !l.starts_with("-----")).collect();
    assert_eq!(
        generate_json_web_token(1_700_000_000, "Iv1.abc", &body_only),
        Err(TokenSigningError)
    );
    assert_eq!(generate_json_web_token(1_700_000_000, "Iv1.abc", ""), Err(TokenSigningError));
}
