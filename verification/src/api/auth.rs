//! Authentication decisions for the API: configuration checks, claims of
//! issued tokens, bearer header parsing and credential verification.
//!
//! Encoding and decoding tokens (JWT, serde over the claims) is done by
//! the application around the library, with the rules `token_rules` gives.

use vstd::prelude::*;

use argon2::password_hash::{PasswordHasher, PasswordVerifier};

use super::types::byte_len;
use crate::text::{byte_count, concat2, owned, str_eq, string_views};

verus! {

/// Seconds a token stays valid (24 hours).
pub const TOKEN_LIFETIME_SECS: i64 = 86400;

/// Fewest characters accepted for the token signing secret.
pub const MIN_JWT_SECRET_LEN: usize = 32;

/// Admin credentials loaded from the environment.
#[derive(Debug, Clone)]
pub struct AdminCredentials {
    pub username: String,
    pub password_hash: String,
}

/// Check the configured token signing secret: it must be set and at least
/// 32 bytes long.
pub fn check_jwt_secret(secret: Option<String>) -> (r: Result<String, String>)
    ensures
        secret is None ==> (r matches Err(m)
            && m@ == "JWT_SECRET environment variable must be set. Generate a random 32+ character secret."@),
        secret matches Some(s) ==> (byte_len(s@) < 32 ==> (r matches Err(m)
            && m@ == "JWT_SECRET must be at least 32 characters for security"@)),
        secret matches Some(s) ==> (byte_len(s@) >= 32 ==> r == Ok::<String, String>(s)),
{
    match secret {
        None => Err(owned("JWT_SECRET environment variable must be set. Generate a random 32+ character secret.")),
        Some(s) => {
            // Minimum 32 characters for security
            if s.as_str().as_bytes().len() < MIN_JWT_SECRET_LEN {
                Err(owned("JWT_SECRET must be at least 32 characters for security"))
            } else {
                Ok(s)
            }
        },
    }
}

/// Assemble the admin credentials from the configured user name and
/// password hash (argon2id PHC format); both must be set.
pub fn load_admin_credentials(username: Option<String>, password_hash: Option<String>) -> (r: Result<AdminCredentials, String>)
    ensures
        username is None ==> (r matches Err(m) && m@ == "ADMIN_USER environment variable must be set"@),
        username is Some && password_hash is None ==> (r matches Err(m)
            && m@ == "ADMIN_PASS_HASH environment variable must be set (use argon2id PHC format)"@),
        username matches Some(u) ==> (password_hash matches Some(h) ==> (r matches Ok(c)
            && c.username == u && c.password_hash == h)),
{
    let username = match username {
        Some(u) => u,
        None => return Err(owned("ADMIN_USER environment variable must be set")),
    };
    let password_hash = match password_hash {
        Some(h) => h,
        None => return Err(owned("ADMIN_PASS_HASH environment variable must be set (use argon2id PHC format)")),
    };
    Ok(AdminCredentials { username, password_hash })
}

/// JWT claims structure.
#[derive(Debug, Clone)]
pub struct Claims {
    /// User ID (subject)
    pub sub: String,
    /// Expiration time (UTC timestamp)
    pub exp: i64,
    /// Issued at (UTC timestamp)
    pub iat: i64,
    /// User roles for authorization
    pub roles: Vec<String>,
}

impl Claims {
    /// The claims of a token issued at `now` (a Unix timestamp) for a user:
    /// it expires 24 hours later.
    pub fn issue(user_id: &str, roles: Vec<String>, now: i64) -> (r: Self)
        requires
            now <= i64::MAX - 86400,
        ensures
            r.sub@ == user_id@,
            r.iat == now,
            r.exp == now + 86400,
            r.roles == roles,
    {
        Claims { sub: owned(user_id), exp: now + TOKEN_LIFETIME_SECS, iat: now, roles }
    }
}

/// The rules an incoming token is checked by before its claims are used.
#[derive(Debug, Clone)]
pub struct TokenRules {
    /// Only HS256 signatures are accepted.
    pub hs256_only: bool,
    /// Registered claims a token must carry.
    pub required_claims: Vec<String>,
    /// Whether the `exp` claim is checked.
    pub validate_exp: bool,
    /// Whether the `nbf` claim is checked when present.
    pub validate_nbf: bool,
    /// Clock skew allowed on `exp` and `nbf`, in seconds.
    pub leeway_secs: u64,
    /// Tokens expiring within this many seconds are refused.
    pub reject_expiring_within_secs: u64,
}

/// The token rules of the API: HS256 only, `exp` and `iat` required, `exp`
/// and `nbf` checked with 60 seconds of leeway, and tokens that expire
/// within 30 seconds refused.
pub fn token_rules() -> (r: TokenRules)
    ensures
        r.hs256_only,
        string_views(r.required_claims@) == seq!["exp"@, "iat"@],
        r.validate_exp,
        r.validate_nbf,
        r.leeway_secs == 60,
        r.reject_expiring_within_secs == 30,
{
    let mut required_claims: Vec<String> = Vec::new();
    required_claims.push(owned("exp"));
    required_claims.push(owned("iat"));
    assert(string_views(required_claims@) =~= seq!["exp"@, "iat"@]);
    TokenRules {
        hs256_only: true,
        required_claims,
        validate_exp: true,
        validate_nbf: true,
        leeway_secs: 60,
        reject_expiring_within_secs: 30,
    }
}

/// Authentication errors.
#[derive(Debug, Clone, Copy, PartialEq, Eq, Structural)]
pub enum AuthError {
    MissingCredentials,
    InvalidToken,
    TokenCreation,
    WrongCredentials,
}

impl AuthError {
    /// Status, message and whether a `WWW-Authenticate: Bearer` header is
    /// sent, for the response to this error.
    pub fn response_parts(&self) -> (r: (u16, &'static str, bool))
        ensures
            *self == AuthError::MissingCredentials ==> r.0 == 400 && r.1@ == "Missing credentials"@ && !r.2,
            *self == AuthError::InvalidToken ==> r.0 == 401 && r.1@ == "Invalid token"@ && r.2,
            *self == AuthError::TokenCreation ==> r.0 == 500 && r.1@ == "Failed to create token"@ && !r.2,
            *self == AuthError::WrongCredentials ==> r.0 == 401 && r.1@ == "Wrong credentials"@ && r.2,
    {
        match self {
            AuthError::MissingCredentials => (400, "Missing credentials", false),
            AuthError::InvalidToken => (401, "Invalid token", true),
            AuthError::TokenCreation => (500, "Failed to create token", false),
            AuthError::WrongCredentials => (401, "Wrong credentials", true),
        }
    }
}

/// The token of an `Authorization` header: the text after `Bearer `.
///
/// A missing header is missing credentials; a header without the `Bearer `
/// prefix is an invalid token.
pub fn bearer_token<'a>(header: Option<&'a str>) -> (r: Result<&'a str, AuthError>)
    ensures
        header is None ==> r == Err::<&str, AuthError>(AuthError::MissingCredentials),
        header matches Some(h) ==> (h@.len() >= 7 && h@.subrange(0, 7) == "Bearer "@
            ==> (r matches Ok(t) && t@ == h@.subrange(7, h@.len() as int))),
        header matches Some(h) ==> (!(h@.len() >= 7 && h@.subrange(0, 7) == "Bearer "@)
            ==> r == Err::<&str, AuthError>(AuthError::InvalidToken)),
{
    let h = match header {
        Some(h) => h,
        None => return Err(AuthError::MissingCredentials),
    };
    let n = h.unicode_len();
    if n < 7 {
        return Err(AuthError::InvalidToken);
    }
    let prefix = h.substring_char(0, 7);
    if !str_eq(prefix, "Bearer ") {
        return Err(AuthError::InvalidToken);
    }
    Ok(h.substring_char(7, n))
}

/// Login request body.
#[derive(Debug, Clone)]
pub struct LoginRequest {
    pub username: String,
    pub password: String,
}

/// Login response.
#[derive(Debug, Clone)]
pub struct LoginResponse {
    pub token: String,
    pub expires_in: i64,
}

impl LoginResponse {
    /// The response carrying a freshly issued token.
    pub fn for_token(token: String) -> (r: Self)
        ensures
            r.token == token,
            r.expires_in == 86400,
    {
        LoginResponse { token, expires_in: TOKEN_LIFETIME_SECS }
    }
}

/// Name for whether argon2 verifies `password` against the PHC-format hash
/// `phc` (false when the hash does not parse).
pub uninterp spec fn argon2_password_matches(password: Seq<char>, phc: Seq<char>) -> bool;

/// Trusted: parses `phc` as a PHC string (`PasswordHash::new`) and checks
/// the password's bytes against it with `Argon2::default().verify_password`;
/// an unparsable hash counts as a mismatch.
#[verifier::external_body]
fn verify_password(password: &str, phc: &str) -> (r: bool)
    ensures
        r == argon2_password_matches(password@, phc@),
{
    match argon2::password_hash::PasswordHash::new(phc) {
        Ok(hash) => argon2::Argon2::default().verify_password(password.as_bytes(), &hash).is_ok(),
        Err(_) => false,
    }
}

/// Name for the PHC string that `Argon2::default()` (argon2id, version 19,
/// default cost) gives for a password and a B64-encoded salt.
pub uninterp spec fn argon2_phc_hash(password: Seq<char>, salt: Seq<char>) -> Seq<char>;

/// Whether `c` is a character of the B64 alphabet (standard Base64:
/// `A`-`Z`, `a`-`z`, `0`-`9`, `+`, `/`).
pub open spec fn is_b64_char(c: char) -> bool {
    ('A' <= c && c <= 'Z') || ('a' <= c && c <= 'z') || ('0' <= c && c <= '9') || c == '+' || c == '/'
}

/// The six-bit value of a B64 character.
pub open spec fn b64_value(c: char) -> int {
    if 'A' <= c && c <= 'Z' {
        c as int - 65
    } else if 'a' <= c && c <= 'z' {
        c as int - 71
    } else if '0' <= c && c <= '9' {
        c as int + 4
    } else if c == '+' {
        62
    } else {
        63
    }
}

/// Whether `salt` is a salt argon2 hashes with: canonical unpadded B64
/// (no length of the form `4k + 1`, unused trailing bits zero) of 11 to 64
/// characters, so that it decodes to at least the 8 bytes argon2 asks for
/// and fits the 64 characters a salt string holds. The 22-character salts
/// `SaltString::generate` draws are of this form.
pub open spec fn salt_is_valid_b64(salt: Seq<char>) -> bool {
    &&& 11 <= salt.len() <= 64
    &&& salt.len() % 4 != 1
    &&& forall|i: int| 0 <= i < salt.len() ==> #[trigger] is_b64_char(salt[i])
    &&& salt.len() % 4 == 2 ==> b64_value(salt.last()) % 16 == 0
    &&& salt.len() % 4 == 3 ==> b64_value(salt.last()) % 4 == 0
}

/// Trusted: parses `salt` with `SaltString::from_b64`, hashes the password's
/// bytes with `Argon2::default().hash_password` and renders the result as
/// a PHC string; an unparsable salt or a hashing error gives `Err` with
/// the error's text. The hash is a function of password and salt, and per
/// `PasswordVerifier::verify_password` (which re-hashes with the salt and
/// parameters the PHC string records) it verifies the same password.
/// Per the sources, hashing fails only on a salt that `from_b64` refuses,
/// that does not decode as canonical B64 or decodes to fewer than 8 bytes,
/// or on a password longer than `u32::MAX` bytes.
#[verifier::external_body]
fn hash_with_salt(password: &str, salt: &str) -> (r: Result<String, String>)
    ensures
        r matches Ok(h) ==> h@ == argon2_phc_hash(password@, salt@),
        r matches Ok(h) ==> argon2_password_matches(password@, h@),
        byte_len(password@) <= 4294967295 && salt_is_valid_b64(salt@) ==> r is Ok,
{
    match argon2::password_hash::SaltString::from_b64(salt) {
        Ok(s) => match argon2::Argon2::default().hash_password(password.as_bytes(), &s) {
            Ok(h) => Ok(h.to_string()),
            Err(e) => Err(e.to_string()),
        },
        Err(e) => Err(e.to_string()),
    }
}

/// The admin password hash (PHC format) for a password and a B64 salt.
///
/// An empty password is refused; otherwise the argon2id hash is returned,
/// or the hashing error prefixed with `Failed to hash password: `. Hashing
/// succeeds for every salt of the form `salt_is_valid_b64` describes (such
/// as the ones `SaltString::generate` draws).
pub fn admin_password_hash(password: &str, salt: &str) -> (r: Result<String, String>)
    ensures
        password@.len() == 0 ==> (r matches Err(m) && m@ == "Password cannot be empty"@),
        password@.len() > 0 && byte_len(password@) <= 4294967295 && salt_is_valid_b64(salt@) ==> r is Ok,
        password@.len() > 0 && r is Ok ==> (r matches Ok(h) && h@ == argon2_phc_hash(password@, salt@)
            && argon2_password_matches(password@, h@)),
        password@.len() > 0 && r is Err ==> (r matches Err(m)
            && exists|e: Seq<char>| m@ == "Failed to hash password: "@ + e),
{
    if password.unicode_len() == 0 {
        return Err(owned("Password cannot be empty"));
    }
    match hash_with_salt(password, salt) {
        Ok(h) => Ok(h),
        Err(e) => {
            let m = concat2("Failed to hash password: ", e.as_str());
            assert(m@ == "Failed to hash password: "@ + e@);
            Err(m)
        },
    }
}

/// Whether a password is shorter than the recommended 12 bytes.
pub fn is_short_password(password: &str) -> (r: bool)
    ensures
        r == (byte_len(password@) < 12),
{
    byte_count(password) < 12
}

/// The outcome of a login attempt against the admin credentials.
pub open spec fn login_outcome(request: LoginRequest, admin: AdminCredentials) -> Result<(), AuthError> {
    if request.username@.len() == 0 || request.password@.len() == 0 {
        Err(AuthError::MissingCredentials)
    } else if request.username@ != admin.username@ {
        Err(AuthError::WrongCredentials)
    } else if !argon2_password_matches(request.password@, admin.password_hash@) {
        Err(AuthError::WrongCredentials)
    } else {
        Ok(())
    }
}

/// Check login credentials: both fields must be non-empty, the user name
/// must be the admin's, and the password must verify against the admin's
/// argon2id hash.
pub fn check_credentials(request: &LoginRequest, admin: &AdminCredentials) -> (r: Result<(), AuthError>)
    ensures
        r == login_outcome(*request, *admin),
{
    // Validate input is not empty
    if request.username.as_str().unicode_len() == 0 || request.password.as_str().unicode_len() == 0 {
        return Err(AuthError::MissingCredentials);
    }
    // Check username matches
    if request.username != admin.username {
        return Err(AuthError::WrongCredentials);
    }
    // Verify password hash using argon2id
    if !verify_password(request.password.as_str(), admin.password_hash.as_str()) {
        return Err(AuthError::WrongCredentials);
    }
    Ok(())
}

/// Law: a password hashed for the admin account logs in. With the admin's
/// user name and a non-empty password that verifies against the stored
/// hash (as every hash `admin_password_hash` returns does for its
/// password), the login succeeds.
pub proof fn law_hashed_password_logs_in(request: LoginRequest, admin: AdminCredentials)
    requires
        request.username@.len() > 0,
        request.password@.len() > 0,
        request.username@ == admin.username@,
        argon2_password_matches(request.password@, admin.password_hash@),
    ensures
        login_outcome(request, admin) == Ok::<(), AuthError>(()),
{
}

} // verus!
