//! Password hashing and checking, secret tokens for sessions and API access,
//! session cookies, and the request checks built on them.
use vstd::prelude::*;
use vstd::string::StringSliceAdditionalSpecFns;

use argon2::password_hash::{PasswordHasher, PasswordVerifier};

use crate::numbers::{digits_spec, format_signed, format_unsigned, signed_decimal, zero_pad};
use crate::random::fill_random;
use crate::text::{byte_len, chars_of, concat_str, str_equal, utf8_len};

verus! {

broadcast use vstd::string::group_string_axioms;

pub const MAX_PASSWORD_BYTES: usize = 1024;
pub const MIN_USERNAME_CHARS: usize = 3;
pub const MAX_USERNAME_CHARS: usize = 64;
pub const MIN_REGISTRATION_PASSWORD_BYTES: usize = 8;
pub const SECRET_BYTES: usize = 32;

#[derive(Debug, Clone, Copy, PartialEq, Eq, Structural)]
pub enum PasswordError {
    InvalidPasswordLength,
    InvalidHash,
    HashingFailed,
}

/// What `password_hash::PasswordHash::new` reads as the algorithm of a PHC
/// string, or `None` when it refuses the string.
pub uninterp spec fn phc_algorithm(encoded: Seq<char>) -> Option<Seq<char>>;

/// Argon2id with default parameters applied to a password and a salt, encoded
/// as a PHC string; `None` when hashing fails.
pub uninterp spec fn argon2id_hash(password: Seq<u8>, salt: Seq<u8>) -> Option<Seq<char>>;

/// Whether Argon2 accepts `password` against the PHC string `encoded`; `None`
/// when the string does not parse.
pub uninterp spec fn argon2_verifies(password: Seq<u8>, encoded: Seq<char>) -> Option<bool>;

/// Parses a PHC string with `PasswordHash::new` and reports its algorithm
/// identifier; the contract names the result through `phc_algorithm`.
#[verifier::external_body]
fn phc_algorithm_of(encoded: &str) -> (algorithm: Option<String>)
    ensures
        match algorithm {
            Some(a) => phc_algorithm(encoded@) == Some(a@),
            None => phc_algorithm(encoded@) is None,
        },
{
    match argon2::password_hash::PasswordHash::new(encoded) {
        Ok(parsed) => Some(parsed.algorithm.as_str().to_owned()),
        Err(_) => None,
    }
}

/// Hashes `password` with `Argon2::default().hash_password`, the salt given as
/// bytes and encoded by `SaltString::encode_b64`; the contract names the result
/// through `argon2id_hash`.
#[verifier::external_body]
fn argon2_hash(password: &str, salt: &Vec<u8>) -> (encoded: Option<String>)
    ensures
        match encoded {
            Some(e) => argon2id_hash(password.spec_bytes(), salt@) == Some(e@),
            None => argon2id_hash(password.spec_bytes(), salt@) is None,
        },
{
    let salt = argon2::password_hash::SaltString::encode_b64(salt.as_slice()).ok()?;
    let hashed = argon2::Argon2::default().hash_password(password.as_bytes(), &salt).ok()?;
    Some(hashed.to_string())
}

/// Verifies `password` against a PHC string with `Argon2::default()`; the
/// contract names the result through `argon2_verifies`, and gives `None` exactly
/// when `PasswordHash::new` refuses the string.
#[verifier::external_body]
fn argon2_verify(password: &str, encoded: &str) -> (verified: Option<bool>)
    ensures
        verified == argon2_verifies(password.spec_bytes(), encoded@),
        verified is None <==> phc_algorithm(encoded@) is None,
{
    let parsed = argon2::password_hash::PasswordHash::new(encoded).ok()?;
    Some(argon2::Argon2::default().verify_password(password.as_bytes(), &parsed).is_ok())
}

/// A PHC string of an Argon2id hash.
pub open spec fn argon2id_phc(encoded: Seq<char>) -> bool {
    phc_algorithm(encoded) == Some("argon2id"@)
}

/// An encoded Argon2id PHC value.
pub struct PasswordHashValue(String);

impl Clone for PasswordHashValue {
    fn clone(&self) -> (copy: Self)
        ensures
            copy.encoded() == self.encoded(),
    {
        proof {
            use_type_invariant(self);
        }
        PasswordHashValue(self.0.clone())
    }
}

impl PasswordHashValue {
    #[verifier::type_invariant]
    spec fn well_formed(self) -> bool {
        argon2id_phc(self.0@)
    }

    pub closed spec fn encoded(&self) -> Seq<char> {
        self.0@
    }

    /// Accepts a PHC string whose algorithm is Argon2id.
    pub fn parse(value: String) -> (parsed: Result<PasswordHashValue, PasswordError>)
        ensures
            parsed is Ok <==> argon2id_phc(value@),
            match parsed {
                Ok(h) => h.encoded() == value@,
                Err(e) => e == PasswordError::InvalidHash,
            },
    {
        match phc_algorithm_of(value.as_str()) {
            Some(algorithm) => {
                if str_equal(algorithm.as_str(), "argon2id") {
                    Ok(PasswordHashValue(value))
                } else {
                    Err(PasswordError::InvalidHash)
                }
            },
            None => Err(PasswordError::InvalidHash),
        }
    }

    pub fn as_str(&self) -> (encoded: &str)
        ensures
            encoded@ == self.encoded(),
            argon2id_phc(encoded@),
    {
        proof {
            use_type_invariant(self);
        }
        self.0.as_str()
    }

    /// The text shown in place of the hash in diagnostics.
    pub fn redacted(&self) -> (text: &'static str)
        ensures
            text@ == "PasswordHashValue([REDACTED])"@,
    {
        "PasswordHashValue([REDACTED])"
    }
}

/// A password of 1 to 1024 bytes.
pub open spec fn valid_password(password: Seq<char>) -> bool {
    password.len() > 0 && utf8_len(password) <= MAX_PASSWORD_BYTES
}

pub fn validate_password(password: &str) -> (result: Result<(), PasswordError>)
    ensures
        result is Ok <==> valid_password(password@),
        result is Err ==> result == Err::<(), PasswordError>(PasswordError::InvalidPasswordLength),
{
    if password.is_empty() || byte_len(password) > MAX_PASSWORD_BYTES {
        return Err(PasswordError::InvalidPasswordLength);
    }
    Ok(())
}

/// Hashes a password with Argon2id and a fresh random salt of sixteen bytes.
pub fn hash_password(password: &str) -> (hashed: Result<PasswordHashValue, PasswordError>)
    ensures
        !valid_password(password@) ==> hashed == Err::<PasswordHashValue, PasswordError>(
            PasswordError::InvalidPasswordLength,
        ),
        match hashed {
            Ok(h) => valid_password(password@) && argon2id_phc(h.encoded()) && exists|salt: Seq<u8>|
                salt.len() == 16 && argon2id_hash(password.spec_bytes(), salt) == Some(
                    h.encoded(),
                ),
            Err(e) => valid_password(password@) ==> (e == PasswordError::HashingFailed || (e
                == PasswordError::InvalidHash && exists|salt: Seq<u8>| #![auto]
                salt.len() == 16 && argon2id_hash(password.spec_bytes(), salt) is Some
                && !argon2id_phc(argon2id_hash(password.spec_bytes(), salt)->Some_0))),
        },
{
    match validate_password(password) {
        Ok(()) => {},
        Err(e) => return Err(e),
    }
    let mut salt: Vec<u8> = vec![0u8; 16];
    if !fill_random(&mut salt) {
        return Err(PasswordError::HashingFailed);
    }
    let encoded = match argon2_hash(password, &salt) {
        Some(e) => e,
        None => return Err(PasswordError::HashingFailed),
    };
    let ghost salt_view = salt@;
    match PasswordHashValue::parse(encoded) {
        Ok(h) => {
            assert(salt_view.len() == 16);
            Ok(h)
        },
        Err(e) => {
            assert(salt_view.len() == 16);
            Err(e)
        },
    }
}

/// Checks a password against a stored hash.
pub fn verify_password(password: &str, encoded: &PasswordHashValue) -> (verified: Result<
    bool,
    PasswordError,
>)
    ensures
        !valid_password(password@) ==> verified == Err::<bool, PasswordError>(
            PasswordError::InvalidPasswordLength,
        ),
        valid_password(password@) ==> match argon2_verifies(password.spec_bytes(), encoded.encoded()) {
            Some(ok) => verified == Ok::<bool, PasswordError>(ok),
            None => verified == Err::<bool, PasswordError>(PasswordError::InvalidHash),
        },
{
    match validate_password(password) {
        Ok(()) => {},
        Err(e) => return Err(e),
    }
    match argon2_verify(password, encoded.as_str()) {
        Some(ok) => Ok(ok),
        None => Err(PasswordError::InvalidHash),
    }
}

/// The character of a six-bit value in the URL-safe Base64 alphabet:
/// `A`-`Z`, `a`-`z`, `0`-`9`, `-` and `_`.
pub open spec fn base64_url_char(v: int) -> char {
    if v < 26 {
        (65 + v) as char
    } else if v < 52 {
        (97 + v - 26) as char
    } else if v < 62 {
        (48 + v - 52) as char
    } else if v == 62 {
        '-'
    } else {
        '_'
    }
}

/// Base64 in the URL-safe alphabet without padding, as `URL_SAFE_NO_PAD`
/// encodes: each group of three bytes becomes four characters of six bits
/// each, and a final group of one or two bytes becomes two or three.
pub open spec fn base64_url_no_pad(bytes: Seq<u8>) -> Seq<char>
    decreases bytes.len(),
{
    if bytes.len() == 0 {
        Seq::empty()
    } else if bytes.len() == 1 {
        seq![base64_url_char(bytes[0] as int / 4), base64_url_char((bytes[0] as int % 4) * 16)]
    } else if bytes.len() == 2 {
        seq![
            base64_url_char(bytes[0] as int / 4),
            base64_url_char((bytes[0] as int % 4) * 16 + bytes[1] as int / 16),
            base64_url_char((bytes[1] as int % 16) * 4),
        ]
    } else {
        seq![
            base64_url_char(bytes[0] as int / 4),
            base64_url_char((bytes[0] as int % 4) * 16 + bytes[1] as int / 16),
            base64_url_char((bytes[1] as int % 16) * 4 + bytes[2] as int / 64),
            base64_url_char(bytes[2] as int % 64),
        ] + base64_url_no_pad(bytes.subrange(3, bytes.len() as int))
    }
}

/// The SHA-256 digest of `data`.
pub uninterp spec fn sha256(data: Seq<u8>) -> Seq<u8>;

/// Encodes bytes with `base64`'s `URL_SAFE_NO_PAD` engine, whose result the
/// contract states as `base64_url_no_pad`.
#[verifier::external_body]
fn encode_base64_url(bytes: &Vec<u8>) -> (text: String)
    ensures
        text@ == base64_url_no_pad(bytes@),
{
    base64::Engine::encode(&base64::engine::general_purpose::URL_SAFE_NO_PAD, bytes.as_slice())
}

/// Hashes bytes with `sha2::Sha256::digest`; the contract names the result
/// through `sha256`.
#[verifier::external_body]
fn sha256_digest(data: &Vec<u8>) -> (digest: [u8; 32])
    ensures
        digest@ == sha256(data@),
{
    <sha2::Sha256 as sha2::Digest>::digest(data.as_slice()).into()
}

/// Why a secret could not be issued.
#[derive(Debug, Clone, Copy, PartialEq, Eq, Structural)]
pub enum SecretError {
    Randomness,
}

/// A new secret: `prefix` and thirty-two random bytes in URL-safe Base64.
pub fn issue_secret(prefix: &str) -> (secret: Result<String, SecretError>)
    ensures
        match secret {
            Ok(s) => exists|bytes: Seq<u8>| bytes.len() == SECRET_BYTES && s@ == prefix@
                + base64_url_no_pad(bytes),
            Err(e) => e == SecretError::Randomness,
        },
{
    let mut bytes: Vec<u8> = vec![0u8; 32];
    if !fill_random(&mut bytes) {
        return Err(SecretError::Randomness);
    }
    let encoded = encode_base64_url(&bytes);
    let secret = concat_str(prefix, encoded.as_str());
    assert(bytes@.len() == SECRET_BYTES);
    Ok(secret)
}

/// The SHA-256 digest of a secret's UTF-8 bytes.
pub fn digest(secret: &str) -> (digest: [u8; 32])
    ensures
        digest@ == sha256(secret.spec_bytes()),
{
    let bytes = secret_bytes(secret);
    sha256_digest(&bytes)
}

fn secret_bytes(secret: &str) -> (bytes: Vec<u8>)
    ensures
        bytes@ == secret.spec_bytes(),
{
    copy_bytes(secret.as_bytes())
}

fn copy_bytes(bytes: &[u8]) -> (copied: Vec<u8>)
    ensures
        copied@ == bytes@,
{
    let mut copied: Vec<u8> = Vec::new();
    let mut i: usize = 0;
    while i < bytes.len()
        invariant
            i <= bytes@.len(),
            copied@ == bytes@.take(i as int),
        decreases bytes@.len() - i,
    {
        copied.push(bytes[i]);
        assert(bytes@.take(i + 1) =~= bytes@.take(i as int).push(bytes@[i as int]));
        i += 1;
    }
    assert(bytes@.take(bytes@.len() as int) =~= bytes@);
    copied
}

/// A secret derived from another: `prefix` and, in URL-safe Base64, the
/// SHA-256 digest of the context, a zero byte, and the secret's bytes.
pub open spec fn derived_secret_spec(prefix: Seq<char>, context: Seq<u8>, secret: Seq<u8>) -> Seq<
    char,
> {
    prefix + base64_url_no_pad(sha256(context + seq![0u8] + secret))
}

pub fn derive_secret(prefix: &str, context: &[u8], secret: &str) -> (derived: String)
    ensures
        derived@ == derived_secret_spec(prefix@, context@, secret.spec_bytes()),
{
    let mut data: Vec<u8> = copy_bytes(context);
    data.push(0u8);
    let secret_data = secret_bytes(secret);
    let mut i: usize = 0;
    let ghost base = data@;
    while i < secret_data.len()
        invariant
            i <= secret_data@.len(),
            data@ == base + secret_data@.take(i as int),
        decreases secret_data@.len() - i,
    {
        data.push(secret_data[i]);
        assert(base + secret_data@.take(i + 1) =~= (base + secret_data@.take(i as int)).push(
            secret_data@[i as int],
        ));
        i += 1;
    }
    assert(secret_data@.take(secret_data@.len() as int) =~= secret_data@);
    assert(base =~= context@ + seq![0u8]);
    let hashed = sha256_digest(&data);
    let encoded = encode_base64_url(&copy_bytes(&hashed));
    concat_str(prefix, encoded.as_str())
}

/// A newly issued API token. The plaintext is only available on this value.
pub struct IssuedApiToken {
    id: i64,
    token: String,
}

impl IssuedApiToken {
    pub closed spec fn id_view(&self) -> i64 {
        self.id
    }

    pub closed spec fn token_view(&self) -> Seq<char> {
        self.token@
    }

    pub fn new(id: i64, token: String) -> (issued: Self)
        ensures
            issued.id_view() == id,
            issued.token_view() == token@,
    {
        IssuedApiToken { id, token }
    }

    pub fn id(&self) -> (id: i64)
        ensures
            id == self.id_view(),
    {
        self.id
    }

    pub fn token(&self) -> (token: &str)
        ensures
            token@ == self.token_view(),
    {
        self.token.as_str()
    }

    /// The text shown for the token in diagnostics: the identifier, and the
    /// plaintext redacted.
    pub fn redacted(&self) -> (text: String)
        ensures
            text@ == "IssuedApiToken { id: "@ + signed_decimal(self.id_view() as int)
                + ", token: \"[REDACTED]\" }"@,
    {
        let id = format_signed(self.id);
        let head = concat_str("IssuedApiToken { id: ", id.as_str());
        concat_str(head.as_str(), ", token: \"[REDACTED]\" }")
    }
}

/// A newly issued browser session: its token, its CSRF token and its expiry.
pub struct IssuedSession {
    token: String,
    csrf_token: String,
    expires_at_ms: i64,
}

impl IssuedSession {
    pub closed spec fn token_view(&self) -> Seq<char> {
        self.token@
    }

    pub closed spec fn csrf_view(&self) -> Seq<char> {
        self.csrf_token@
    }

    pub closed spec fn expiry_view(&self) -> i64 {
        self.expires_at_ms
    }

    pub fn new(token: String, csrf_token: String, expires_at_ms: i64) -> (session: Self)
        ensures
            session.token_view() == token@,
            session.csrf_view() == csrf_token@,
            session.expiry_view() == expires_at_ms,
    {
        IssuedSession { token, csrf_token, expires_at_ms }
    }

    pub fn token(&self) -> (token: &str)
        ensures
            token@ == self.token_view(),
    {
        self.token.as_str()
    }

    pub fn csrf_token(&self) -> (token: &str)
        ensures
            token@ == self.csrf_view(),
    {
        self.csrf_token.as_str()
    }

    pub fn expires_at_ms(&self) -> (ms: i64)
        ensures
            ms == self.expiry_view(),
    {
        self.expires_at_ms
    }

    /// The text shown for the session in diagnostics: both tokens redacted,
    /// the expiry in full.
    pub fn redacted(&self) -> (text: String)
        ensures
            text@ == "IssuedSession { token: \"[REDACTED]\", csrf_token: \"[REDACTED]\", expires_at_ms: "@
                + signed_decimal(self.expiry_view() as int) + " }"@,
    {
        let expiry = format_signed(self.expires_at_ms);
        let head = concat_str(
            "IssuedSession { token: \"[REDACTED]\", csrf_token: \"[REDACTED]\", expires_at_ms: ",
            expiry.as_str(),
        );
        concat_str(head.as_str(), " }")
    }
}

/// The secrets of a new session and the digests under which they are stored.
pub struct SessionSecrets {
    pub token: String,
    pub token_digest: [u8; 32],
    pub csrf_token: String,
    pub csrf_digest: [u8; 32],
}

/// Issues a session token and a CSRF token, each with its digest.
pub fn issue_session_secrets() -> (secrets: Result<SessionSecrets, SecretError>)
    ensures
        match secrets {
            Ok(s) => {
                &&& s.token_digest@ == sha256(vstd::utf8::encode_utf8(s.token@))
                &&& s.csrf_digest@ == sha256(vstd::utf8::encode_utf8(s.csrf_token@))
                &&& exists|bytes: Seq<u8>| bytes.len() == SECRET_BYTES && s.token@
                    == "fixer_session_"@ + base64_url_no_pad(bytes)
                &&& exists|bytes: Seq<u8>| bytes.len() == SECRET_BYTES && s.csrf_token@
                    == "fixer_csrf_"@ + base64_url_no_pad(bytes)
            },
            Err(e) => e == SecretError::Randomness,
        },
{
    let token = match issue_secret("fixer_session_") {
        Ok(t) => t,
        Err(e) => return Err(e),
    };
    let csrf_token = match issue_secret("fixer_csrf_") {
        Ok(t) => t,
        Err(e) => return Err(e),
    };
    let token_digest = digest(token.as_str());
    let csrf_digest = digest(csrf_token.as_str());
    Ok(SessionSecrets { token, token_digest, csrf_token, csrf_digest })
}

pub const SESSION_COOKIE_NAME: &'static str = "fixer_session";
pub const CSRF_HEADER_NAME: &'static str = "x-csrf-token";

/// The `Set-Cookie` value for a session token.
pub open spec fn session_cookie_spec(token: Seq<char>, secure: bool, max_age_seconds: u64) -> Seq<
    char,
> {
    "fixer_session="@ + token + "; Path=/api; HttpOnly; SameSite=Strict; Max-Age="@
        + digits_spec(max_age_seconds as nat, 10) + if secure {
        "; Secure"@
    } else {
        ""@
    }
}

pub fn session_cookie(token: &str, secure: bool, max_age_seconds: u64) -> (cookie: String)
    ensures
        cookie@ == session_cookie_spec(token@, secure, max_age_seconds),
{
    let mut cookie = String::from_str("fixer_session=");
    cookie.append(token);
    cookie.append("; Path=/api; HttpOnly; SameSite=Strict; Max-Age=");
    let age = format_unsigned(max_age_seconds as u128, 10, 0);
    cookie.append(age.as_str());
    if secure {
        cookie.append("; Secure");
    } else {
        cookie.append("");
    }
    cookie
}

/// The `Set-Cookie` value that clears the session cookie.
pub fn expired_session_cookie(secure: bool) -> (cookie: String)
    ensures
        cookie@ == session_cookie_spec(""@, secure, 0),
{
    session_cookie("", secure, 0)
}

/// A username of 3 to 64 characters and a password of 8 to 1024 bytes; each
/// failing field is reported with its message, in field-name order.
pub open spec fn registration_problems(username: Seq<char>, password: Seq<char>) -> Seq<
    (Seq<char>, Seq<char>),
> {
    (if MIN_REGISTRATION_PASSWORD_BYTES <= utf8_len(password) <= MAX_PASSWORD_BYTES {
        seq![]
    } else {
        seq![("password"@, "must contain between 8 and 1024 bytes"@)]
    }) + (if MIN_USERNAME_CHARS <= username.len() <= MAX_USERNAME_CHARS {
        seq![]
    } else {
        seq![("username"@, "must contain between 3 and 64 characters"@)]
    })
}

/// Checks registration fields; on failure, the field names and messages.
pub fn validate_registration(username: &str, password: &str) -> (result: Result<
    (),
    Vec<(String, String)>,
>)
    ensures
        match result {
            Ok(()) => registration_problems(username@, password@).len() == 0,
            Err(details) => registration_problems(username@, password@).len() > 0
                && details@.map_values(|d: (String, String)| (d.0@, d.1@))
                == registration_problems(username@, password@),
        },
{
    let mut details: Vec<(String, String)> = Vec::new();
    let password_bytes = byte_len(password);
    if !(MIN_REGISTRATION_PASSWORD_BYTES <= password_bytes && password_bytes <= MAX_PASSWORD_BYTES) {
        details.push(("password".to_owned(), "must contain between 8 and 1024 bytes".to_owned()));
    }
    let name_chars = chars_of(username).len();
    if !(MIN_USERNAME_CHARS <= name_chars && name_chars <= MAX_USERNAME_CHARS) {
        details.push(("username".to_owned(), "must contain between 3 and 64 characters".to_owned()));
    }
    assert(details@.map_values(|d: (String, String)| (d.0@, d.1@)) =~= registration_problems(
        username@,
        password@,
    ));
    if details.len() == 0 {
        Ok(())
    } else {
        Err(details)
    }
}

/// Whether a request method changes state and so needs a CSRF token.
pub open spec fn state_changing_method(method: Seq<char>) -> bool {
    method == "POST"@ || method == "PUT"@ || method == "PATCH"@ || method == "DELETE"@
}

pub fn is_state_changing(method: &str) -> (changing: bool)
    ensures
        changing == state_changing_method(method@),
{
    str_equal(method, "POST") || str_equal(method, "PUT") || str_equal(method, "PATCH")
        || str_equal(method, "DELETE")
}

} // verus!
