//! The GitHub side of a launch: the app's JSON Web Token, and the two REST
//! requests that turn it into an installation access token and then into a
//! runner registration token for the repository.

use crate::text::{append_decimal, lemma_middle_determined, push_char, spec_decimal};
use crate::webhook::Webhook;
use vstd::prelude::*;
use vstd::string::*;
use vstd::utf8::encode_utf8;

verus! {

/// Base of the GitHub REST API.
pub const API_BASE: &'static str = "https://api.github.com";

/// Path before the repository's name in the registration token endpoint.
pub const REGISTRATION_TOKEN_PATH: &'static str = "/repos/";

/// Path after the repository's name in the registration token endpoint.
pub const REGISTRATION_TOKEN_SUFFIX: &'static str = "/actions/runners/registration-token";

/// Path before the installation's id in the access token endpoint.
pub const ACCESS_TOKEN_PATH: &'static str = "/app/installations/";

/// Path after the installation's id in the access token endpoint.
pub const ACCESS_TOKEN_SUFFIX: &'static str = "/access_tokens";

/// `Accept` header value of every request.
pub const ACCEPT: &'static str = "application/vnd.github+json";

/// `X-GitHub-Api-Version` header value of every request.
pub const API_VERSION: &'static str = "2022-11-28";

/// `User-Agent` header value of every request.
pub const USER_AGENT: &'static str = "github-actions-runner-aws 0.1.0";

/// Scheme of the `Authorization` header value.
pub const BEARER: &'static str = "Bearer ";

/// Seconds by which the token's issue time is backdated against clock drift.
pub const CLOCK_DRIFT: u64 = 60;

/// Seconds from now until the token expires.
pub const TOKEN_LIFETIME: u64 = 600;

/// A `POST` to the GitHub REST API.
#[derive(Debug)]
pub struct ApiRequest {
    pub url: String,
    /// Header names and values, in the order they are sent.
    pub headers: Vec<(String, String)>,
}

/// The headers of every request, authorised by `bearer`.
pub open spec fn spec_api_headers(bearer: Seq<char>) -> Seq<(Seq<char>, Seq<char>)> {
    seq![
        ("Accept"@, ACCEPT@),
        ("Authorization"@, BEARER@ + bearer),
        ("X-GitHub-Api-Version"@, API_VERSION@),
        ("User-Agent"@, USER_AGENT@),
    ]
}

/// The headers of a request, each as its characters.
pub open spec fn header_views(headers: Seq<(String, String)>) -> Seq<(Seq<char>, Seq<char>)> {
    headers.map_values(|h: (String, String)| (h.0@, h.1@))
}

fn header(name: &str, value: String) -> (r: (String, String))
    ensures
        r.0@ == name@,
        r.1@ == value@,
{
    (String::from_str(name), value)
}

/// The headers of every request, authorised by the token `bearer`.
pub fn api_headers(bearer: &str) -> (r: Vec<(String, String)>)
    ensures
        header_views(r@) == spec_api_headers(bearer@),
{
    let mut authorization = String::from_str(BEARER);
    authorization.append(bearer);
    let mut headers: Vec<(String, String)> = Vec::new();
    headers.push(header("Accept", String::from_str(ACCEPT)));
    headers.push(header("Authorization", authorization));
    headers.push(header("X-GitHub-Api-Version", String::from_str(API_VERSION)));
    headers.push(header("User-Agent", String::from_str(USER_AGENT)));
    assert(header_views(headers@) =~= spec_api_headers(bearer@));
    headers
}

/// Endpoint that creates an access token for installation `id`.
pub open spec fn spec_access_token_url(id: u32) -> Seq<char> {
    API_BASE@ + ACCESS_TOKEN_PATH@ + spec_decimal(id as nat) + ACCESS_TOKEN_SUFFIX@
}

/// Endpoint that creates a runner registration token for repository `full_name`.
pub open spec fn spec_registration_token_url(full_name: Seq<char>) -> Seq<char> {
    API_BASE@ + REGISTRATION_TOKEN_PATH@ + full_name + REGISTRATION_TOKEN_SUFFIX@
}

/// The request for an access token of the installation that sent `webhook`,
/// authorised by the app's JSON Web Token `jwt`.
pub fn installation_access_token_request(webhook: &Webhook, jwt: &str) -> (r: ApiRequest)
    ensures
        r.url@ == spec_access_token_url(webhook.installation.id),
        header_views(r.headers@) == spec_api_headers(jwt@),
{
    let mut url = String::from_str(API_BASE);
    url.append(ACCESS_TOKEN_PATH);
    append_decimal(&mut url, webhook.installation.id as u64);
    url.append(ACCESS_TOKEN_SUFFIX);
    ApiRequest { url, headers: api_headers(jwt) }
}

/// The request for a runner registration token of the repository of
/// `webhook`, authorised by the installation access token `access_token`.
pub fn registration_token_request(webhook: &Webhook, access_token: &str) -> (r: ApiRequest)
    ensures
        r.url@ == spec_registration_token_url(webhook.repository.full_name@),
        header_views(r.headers@) == spec_api_headers(access_token@),
{
    let mut url = String::from_str(API_BASE);
    url.append(REGISTRATION_TOKEN_PATH);
    url.append(webhook.repository.full_name.as_str());
    url.append(REGISTRATION_TOKEN_SUFFIX);
    ApiRequest { url, headers: api_headers(access_token) }
}

/// The claims of the app's JSON Web Token.
#[derive(Debug)]
pub struct Claims {
    /// Issued at, in seconds since the Unix epoch.
    pub iat: u64,
    /// Expires at, in seconds since the Unix epoch.
    pub exp: u64,
    /// The app's client id.
    pub iss: String,
}

impl Claims {
    /// Claims of a token issued at `now`, backdated by a minute, that expires
    /// ten minutes after `now`.
    pub fn new(now: u64, client_id: &str) -> (r: Claims)
        requires
            now >= CLOCK_DRIFT,
            now + TOKEN_LIFETIME <= u64::MAX,
        ensures
            r.iat == now - CLOCK_DRIFT,
            r.exp == now + TOKEN_LIFETIME,
            r.iss@ == client_id@,
    {
        Claims { iat: now - CLOCK_DRIFT, exp: now + TOKEN_LIFETIME, iss: String::from_str(client_id) }
    }
}

/// `s` with each `\n` escape (a backslash, then `n`) replaced by a line
/// feed, scanning from the left.
pub open spec fn spec_unescape_newlines(s: Seq<char>) -> Seq<char>
    decreases s.len(),
{
    if s.len() == 0 {
        seq![]
    } else if s.len() >= 2 && s[0] == '\\' && s[1] == 'n' {
        seq!['\n'] + spec_unescape_newlines(s.skip(2))
    } else {
        seq![s[0]] + spec_unescape_newlines(s.skip(1))
    }
}

/// Replaces each `\n` escape with a line feed (`s.replace("\\n", "\n")`), as a
/// PEM key stored on one line needs.
pub fn unescape_newlines(s: &str) -> (r: String)
    ensures
        r@ == spec_unescape_newlines(s@),
{
    let n = s.unicode_len();
    let mut out = String::new();
    let mut i: usize = 0;
    assert(s@.skip(0) =~= s@);
    while i < n
        invariant
            n == s@.len(),
            i <= n,
            out@ + spec_unescape_newlines(s@.skip(i as int)) == spec_unescape_newlines(s@),
        decreases n - i,
    {
        let c = s.get_char(i);
        let ghost rest = s@.skip(i as int);
        if c == '\\' && i + 1 < n && s.get_char(i + 1) == 'n' {
            assert(rest.skip(2) =~= s@.skip(i + 2));
            proof {
                assert(out@ + spec_unescape_newlines(rest) =~= out@.push('\n')
                    + spec_unescape_newlines(s@.skip(i + 2)));
            }
            push_char(&mut out, '\n');
            i = i + 2;
        } else {
            assert(rest.skip(1) =~= s@.skip(i + 1));
            proof {
                assert(out@ + spec_unescape_newlines(rest) =~= out@.push(c)
                    + spec_unescape_newlines(s@.skip(i + 1)));
            }
            push_char(&mut out, c);
            i = i + 1;
        }
    }
    assert(s@.skip(n as int) =~= Seq::<char>::empty());
    assert(out@ + spec_unescape_newlines(s@.skip(n as int)) =~= out@);
    out
}

/// Text without a backslash, such as a key whose line feeds are already
/// real, passes through unchanged.
pub proof fn lemma_unescape_without_backslash(s: Seq<char>)
    requires
        forall|i: int| 0 <= i < s.len() ==> s[i] != '\\',
    ensures
        spec_unescape_newlines(s) == s,
    decreases s.len(),
{
    if s.len() > 0 {
        lemma_unescape_without_backslash(s.skip(1));
        assert(seq![s[0]] + s.skip(1) =~= s);
    }
}

/// Each `\n` escape becomes one line feed: unescaping an escaped line feed
/// followed by other text gives a line feed followed by that text unescaped.
pub proof fn lemma_unescape_escape(rest: Seq<char>)
    ensures
        spec_unescape_newlines(seq!['\\', 'n'] + rest) == seq!['\n'] + spec_unescape_newlines(rest),
{
    assert((seq!['\\', 'n'] + rest).skip(2) =~= rest);
}

/// The `Authorization` header of every request is `Bearer ` followed by the
/// whole token it was given, whatever the token's length.
pub proof fn lemma_authorization_carries_whole_token(bearer: Seq<char>)
    ensures
        spec_api_headers(bearer).len() == 4,
        spec_api_headers(bearer)[1].0 == "Authorization"@,
        spec_api_headers(bearer)[1].1.len() == BEARER@.len() + bearer.len(),
        spec_api_headers(bearer)[1].1.take(BEARER@.len() as int) == BEARER@,
        spec_api_headers(bearer)[1].1.skip(BEARER@.len() as int) == bearer,
{
    let v = spec_api_headers(bearer)[1].1;
    assert(v =~= BEARER@ + bearer);
    assert(v.take(BEARER@.len() as int) =~= BEARER@);
    assert(v.skip(BEARER@.len() as int) =~= bearer);
}

/// Two different tokens give different headers.
pub proof fn lemma_headers_distinguish_tokens(b1: Seq<char>, b2: Seq<char>)
    requires
        b1 != b2,
    ensures
        spec_api_headers(b1) != spec_api_headers(b2),
{
    lemma_authorization_carries_whole_token(b1);
    lemma_authorization_carries_whole_token(b2);
    if spec_api_headers(b1) == spec_api_headers(b2) {
        assert(spec_api_headers(b1)[1] == spec_api_headers(b2)[1]);
    }
}

/// The registration token endpoint carries the whole repository name, and
/// different repositories give different endpoints.
pub proof fn lemma_registration_url_distinguishes_repositories(f1: Seq<char>, f2: Seq<char>)
    requires
        f1 != f2,
    ensures
        spec_registration_token_url(f1) != spec_registration_token_url(f2),
{
    if spec_registration_token_url(f1) == spec_registration_token_url(f2) {
        lemma_middle_determined(API_BASE@ + REGISTRATION_TOKEN_PATH@, f1, f2, REGISTRATION_TOKEN_SUFFIX@);
    }
}

#[verifier::external_type_specification]
#[verifier::external_body]
pub struct ExJwtError(jsonwebtoken::errors::Error);

/// The RS256 JSON Web Token with header `{"typ":"JWT","alg":"RS256"}` and
/// claims `{"iat":iat,"exp":exp,"iss":iss}`, signed with the RSA private key
/// in `private_key_pem`; nothing when that text is no RSA private key that
/// can sign.
pub uninterp spec fn spec_jwt_rs256(iat: u64, exp: u64, iss: Seq<char>, private_key_pem: Seq<u8>) -> Option<Seq<char>>;

/// `marker` occurs somewhere in `s`.
pub open spec fn has_infix(s: Seq<u8>, marker: Seq<u8>) -> bool {
    exists|i: int| 0 <= i <= s.len() - marker.len() && #[trigger] s.subrange(i, i + marker.len()) == marker
}

/// `-----BEGIN ` in ASCII, with which every PEM block starts.
pub open spec fn pem_begin_marker() -> Seq<u8> {
    seq![45u8, 45u8, 45u8, 45u8, 45u8, 66u8, 69u8, 71u8, 73u8, 78u8, 32u8]
}

/// Signs `claims` with `jsonwebtoken::encode`, after
/// `jsonwebtoken::EncodingKey::from_rsa_pem` has read the key, under
/// `Header::new(Algorithm::RS256)`; the claims go in as a JSON object with
/// `iat`, `exp` and `iss` in that order.
/// Claimed: the call succeeds exactly when `spec_jwt_rs256` names a token for
/// these claims and this key, and then returns that token. Reading the PEM
/// key, serialising the claims and PKCS #1 v1.5 signing (ring ignores the
/// random source for this padding) all depend on these arguments alone.
/// Claimed too: text without `-----BEGIN ` is refused, since the PEM parser
/// (`pem::parse`) finds no block in it.
#[verifier::external_body]
fn encode_jwt_rs256(claims: &Claims, private_key_pem: &[u8]) -> (r: Result<String, jsonwebtoken::errors::Error>)
    ensures
        match r {
            Ok(token) => spec_jwt_rs256(claims.iat, claims.exp, claims.iss@, private_key_pem@)
                == Some(token@),
            Err(_) => spec_jwt_rs256(claims.iat, claims.exp, claims.iss@, private_key_pem@) is None,
        },
        !has_infix(private_key_pem@, pem_begin_marker()) ==> r is Err,
{
    let key = jsonwebtoken::EncodingKey::from_rsa_pem(private_key_pem)?;
    let mut object = serde_json::Map::new();
    object.insert("iat".to_string(), serde_json::Value::from(claims.iat));
    object.insert("exp".to_string(), serde_json::Value::from(claims.exp));
    object.insert("iss".to_string(), serde_json::Value::from(claims.iss.as_str()));
    let header = jsonwebtoken::Header::new(jsonwebtoken::Algorithm::RS256);
    jsonwebtoken::encode(&header, &object, &key)
}

/// The app's JSON Web Token could not be made: the private key was refused.
#[derive(Debug, Clone, Copy, PartialEq, Eq, Structural)]
pub struct TokenSigningError;

/// The answer to a signing attempt: the token that `jsonwebtoken` made, or
/// `TokenSigningError` for any error it gave.
pub fn token_from_signing(result: Result<String, jsonwebtoken::errors::Error>) -> (r: Result<String, TokenSigningError>)
    ensures
        match result {
            Ok(token) => r matches Ok(t) && t@ == token@,
            Err(_) => r == Err::<String, TokenSigningError>(TokenSigningError),
        },
{
    match result {
        Ok(token) => Ok(token),
        Err(_) => Err(TokenSigningError),
    }
}

/// The app's JSON Web Token at time `now` for client id `client_id` and the
/// private key text `private_key` (line feeds may be written as `\n`).
pub open spec fn spec_json_web_token(now: u64, client_id: Seq<char>, private_key: Seq<char>) -> Option<Seq<char>> {
    spec_jwt_rs256(
        (now - CLOCK_DRIFT) as u64,
        (now + TOKEN_LIFETIME) as u64,
        client_id,
        encode_utf8(spec_unescape_newlines(private_key)),
    )
}

/// The JSON Web Token that authenticates the GitHub App at time `now`, from
/// its client id and its private key with line feeds written as `\n`; an
/// error when the key is refused.
pub fn generate_json_web_token(now: u64, client_id: &str, private_key: &str) -> (r: Result<String, TokenSigningError>)
    requires
        now >= CLOCK_DRIFT,
        now + TOKEN_LIFETIME <= u64::MAX,
    ensures
        match r {
            Ok(token) => spec_json_web_token(now, client_id@, private_key@) == Some(token@),
            Err(_) => spec_json_web_token(now, client_id@, private_key@) is None,
        },
        !has_infix(encode_utf8(spec_unescape_newlines(private_key@)), pem_begin_marker()) ==> r is Err,
{
    let claims = Claims::new(now, client_id);
    let key = unescape_newlines(private_key);
    token_from_signing(encode_jwt_rs256(&claims, key.as_str().as_bytes()))
}

/// `s` with each line feed written as `\n` (a backslash, then `n`), as a PEM
/// key is stored on one line.
pub open spec fn spec_escape_newlines(s: Seq<char>) -> Seq<char>
    decreases s.len(),
{
    if s.len() == 0 {
        seq![]
    } else if s[0] == '\n' {
        seq!['\\', 'n'] + spec_escape_newlines(s.skip(1))
    } else {
        seq![s[0]] + spec_escape_newlines(s.skip(1))
    }
}

/// Writing line feeds as `\n` and reading them back gives what reading the
/// text itself gives.
pub proof fn lemma_unescape_escaped(s: Seq<char>)
    ensures
        spec_unescape_newlines(spec_escape_newlines(s)) == spec_unescape_newlines(s),
    decreases s.len(),
{
    if s.len() > 0 {
        let e = spec_escape_newlines(s);
        if s[0] == '\n' {
            lemma_unescape_escaped(s.skip(1));
            assert(e.skip(2) =~= spec_escape_newlines(s.skip(1)));
        } else if s[0] == '\\' && s.len() >= 2 && s[1] == 'n' {
            let rest = s.skip(1);
            assert(rest.skip(1) =~= s.skip(2));
            assert(spec_escape_newlines(rest) =~= seq!['n'] + spec_escape_newlines(s.skip(2)));
            assert(e =~= seq!['\\', 'n'] + spec_escape_newlines(s.skip(2)));
            assert(e.skip(2) =~= spec_escape_newlines(s.skip(2)));
            lemma_unescape_escaped(s.skip(2));
        } else {
            lemma_unescape_escaped(s.skip(1));
            assert(e.skip(1) =~= spec_escape_newlines(s.skip(1)));
            if s[0] == '\\' && s.len() >= 2 {
                let rest = s.skip(1);
                assert(rest[0] == s[1]);
                if s[1] == '\n' {
                    assert(spec_escape_newlines(rest)[0] == '\\');
                } else {
                    assert(spec_escape_newlines(rest)[0] == s[1]);
                }
                assert(e[1] != 'n');
            }
        }
    }
}

/// A private key whose line feeds are written as `\n` gives the same token
/// as the key with real line feeds.
pub proof fn lemma_escaped_key_same_token(now: u64, client_id: Seq<char>, private_key: Seq<char>)
    ensures
        spec_json_web_token(now, client_id, spec_escape_newlines(private_key))
            == spec_json_web_token(now, client_id, private_key),
{
    lemma_unescape_escaped(private_key);
}

} // verus!
