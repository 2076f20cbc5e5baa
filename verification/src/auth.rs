//! Operator authentication: password hashing and verification through
//! argon2, token claims and their lifetime, and the decisions the login
//! and registration handlers act on.

use vstd::prelude::*;

use argon2::{PasswordHasher, PasswordVerifier};

use crate::status::UserRole;

verus! {

/// Whether argon2 verification of `password` against the PHC string
/// `hash` succeeds. Verification recomputes the hash from the string's
/// own salt and parameters, so it depends on the two texts alone.
pub uninterp spec fn argon2_verifies(password: Seq<char>, hash: Seq<char>) -> bool;

/// Relies on argon2's `Argon2::hash_password` with an OS-random salt,
/// and on the PHC string form of the hash: with the default algorithm
/// the text begins `$argon2id`. The salt is drawn fresh, so two calls on
/// one password may return different hashes; nothing more is promised.
#[verifier::external_body]
pub fn hash(val: String) -> (r: Option<String>)
    ensures
        r is Some ==> r.unwrap()@.len() > 9 && r.unwrap()@.subrange(0, 9) == "$argon2id"@,
{
    match argon2::Argon2::default().hash_password(val.as_bytes()) {
        Ok(h) => Some(h.to_string()),
        Err(_) => None,
    }
}

/// Relies on argon2's `PasswordVerifier` for `str`: parses the PHC
/// string and recomputes the hash from its salt and parameters, a
/// function of the two arguments alone. A malformed PHC string verifies
/// as false rather than panicking.
#[verifier::external_body]
pub fn verify_password(password: &str, hash: &str) -> (r: bool)
    ensures
        r == argon2_verifies(password@, hash@),
{
    argon2::Argon2::default().verify_password(password.as_bytes(), hash).is_ok()
}

/// How long an issued token lives, in seconds.
pub const TOKEN_LIFETIME_SECS: usize = 3600;

/// The claims carried in an operator's token.
#[derive(Debug, Clone, Copy, PartialEq, Eq, Structural)]
pub struct Claims {
    pub user_id: u32,
    pub role: UserRole,
    pub issued_at: usize,
    pub expiry: usize,
}

impl Claims {
    /// Claims issued at `now`, expiring one hour later.
    pub fn new(user_id: u32, role: UserRole, now: usize) -> (r: Claims)
        requires
            now + 3600 <= usize::MAX,
        ensures
            r == (Claims { user_id, role, issued_at: now, expiry: (now + 3600) as usize }),
    {
        Claims { user_id, role, issued_at: now, expiry: now + TOKEN_LIFETIME_SECS }
    }

    /// Whether the claims have expired by `now`.
    pub fn is_expired(&self, now: usize) -> (r: bool)
        ensures
            r == (self.expiry <= now),
    {
        self.expiry <= now
    }
}

/// Why a request carried no acceptable credentials.
#[derive(Debug, Clone, Copy, PartialEq, Eq, Structural)]
pub enum AuthError {
    MissingCredentials,
    InvalidToken,
}

impl AuthError {
    /// The HTTP status such a failure answers with: forbidden.
    pub fn status_code(&self) -> (r: u16)
        ensures
            r == 403,
    {
        403
    }

    /// The error text such a failure answers with.
    pub fn message(&self) -> (r: &'static str)
        ensures
            match self {
                AuthError::MissingCredentials => r@ == "Missing credentials"@,
                AuthError::InvalidToken => r@ == "Invalid token"@,
            },
    {
        match self {
            AuthError::MissingCredentials => "Missing credentials",
            AuthError::InvalidToken => "Invalid token",
        }
    }
}

/// Where a request's token is taken from: the bearer header when one is
/// there, else the token cookie; with neither, the request has no
/// credentials.
pub fn token_from_sources(bearer: Option<String>, cookie: Option<String>) -> (r: Result<
    String,
    AuthError,
>)
    ensures
        match r {
            Ok(t) => (bearer is Some && t == bearer.unwrap()) || (bearer is None && cookie
                is Some && t == cookie.unwrap()),
            Err(e) => e == AuthError::MissingCredentials && bearer is None && cookie is None,
        },
        bearer is Some ==> r == Ok::<String, AuthError>(bearer.unwrap()),
{
    match bearer {
        Some(t) => Ok(t),
        None => match cookie {
            Some(t) => Ok(t),
            None => Err(AuthError::MissingCredentials),
        },
    }
}

/// What the login handler decides, before any token is encoded.
pub enum LoginOutcome {
    /// No user is registered yet, or the name is unknown: send the
    /// caller to registration.
    RedirectRegister,
    /// The password does not verify against the stored hash.
    InvalidCredentials,
    /// The password verifies; these claims are to be encoded.
    Success(Claims),
}

/// The login decision for one attempt: `users_exist` says whether any
/// user is registered, `user` is the found account's id and stored
/// password hash. A missing user base or unknown name redirects to
/// registration; a failed verification is invalid credentials; success
/// issues admin claims stamped at `now`.
pub fn login_decision(
    users_exist: bool,
    user: Option<(u32, String)>,
    password: &str,
    now: usize,
) -> (r: LoginOutcome)
    requires
        now + 3600 <= usize::MAX,
    ensures
        !users_exist ==> r is RedirectRegister,
        users_exist && user is None ==> r is RedirectRegister,
        users_exist && user is Some && !argon2_verifies(password@, user.unwrap().1@) ==> r
            is InvalidCredentials,
        users_exist && user is Some && argon2_verifies(password@, user.unwrap().1@) ==> (
        match r {
            LoginOutcome::Success(c) => c == (Claims {
                user_id: user.unwrap().0,
                role: UserRole::Admin,
                issued_at: now,
                expiry: (now + 3600) as usize,
            }),
            _ => false,
        }),
{
    if !users_exist {
        return LoginOutcome::RedirectRegister;
    }
    match user {
        None => LoginOutcome::RedirectRegister,
        Some((user_id, stored_hash)) => {
            if verify_password(password, stored_hash.as_str()) {
                LoginOutcome::Success(Claims::new(user_id, UserRole::Admin, now))
            } else {
                LoginOutcome::InvalidCredentials
            }
        },
    }
}

/// Whether claims clear the admin gate: only an admin role passes.
pub fn require_admin_role(claims: &Claims) -> (r: bool)
    ensures
        r == (claims.role == UserRole::Admin),
{
    match claims.role {
        UserRole::Admin => true,
        UserRole::Viewer => false,
    }
}

/// Registration is open exactly while no user is registered: the first
/// account bootstraps the instance, later attempts are refused.
pub fn register_allowed(users_exist: bool) -> (r: bool)
    ensures
        r == !users_exist,
{
    !users_exist
}

} // verus!
