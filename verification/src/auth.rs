//! The authentication service: issues and verifies session tokens, hashes
//! and checks passwords, and extracts bearer tokens at the request boundary.
//! Configuration (secret, validity window, hash cost) is held explicitly and
//! handed in at construction.

use vstd::prelude::*;
use crate::errors::{CoreError, HashError};
use crate::password::{bcrypt_hash, bcrypt_matches, bcrypt_verify, is_bcrypt_digest, password_check};
use crate::token::{jwt_decode, jwt_encode, jwt_token, token_claims, Claims};
use crate::user::clone_opt_string;

verus! {

/// A login request body.
#[derive(Debug)]
pub struct LoginRequest {
    pub email: String,
    pub password: String,
}

/// The public face of an account: its identity and profile, never the
/// password hash — digests stay out of every user-facing payload.
#[derive(Debug)]
pub struct User {
    pub id: String,
    pub email: String,
    pub first_name: Option<String>,
    pub last_name: Option<String>,
    pub company_name: Option<String>,
    pub tax_id: Option<String>,
}

impl User {
    /// The public profile of a stored account.
    pub fn of_account(account: &crate::user::User) -> (r: User)
        ensures
            r.id == account.id,
            r.email == account.email,
            r.first_name == account.first_name,
            r.last_name == account.last_name,
            r.company_name == account.company_name,
            r.tax_id == account.tax_id,
    {
        User {
            id: account.id.clone(),
            email: account.email.clone(),
            first_name: clone_opt_string(&account.first_name),
            last_name: clone_opt_string(&account.last_name),
            company_name: clone_opt_string(&account.company_name),
            tax_id: clone_opt_string(&account.tax_id),
        }
    }
}

/// A successful login: the token and the public face of the account it
/// speaks for.
#[derive(Debug)]
pub struct LoginResponse {
    pub token: String,
    pub user: User,
}

/// The claims a token yields at an instant: the decoded claims when the
/// signature checks out and the expiry lies strictly in the future, absent
/// otherwise.
pub open spec fn verify_claim(secret: Seq<char>, token: Seq<char>, now: u64) -> Option<
    (Seq<char>, Seq<char>, u64),
> {
    match token_claims(secret, token) {
        Some((sub, email, exp)) => if exp > now {
            Some((sub, email, exp))
        } else {
            None
        },
        None => None,
    }
}

/// The bearer token carried by an authorization header, when the header is
/// present and starts with the bearer marker.
pub open spec fn spec_bearer_token(header: Option<Seq<char>>) -> Option<Seq<char>> {
    match header {
        Some(h) => if h.len() >= 7 && h.subrange(0, 7) == "Bearer "@ {
            Some(h.subrange(7, h.len() as int))
        } else {
            None
        },
        None => None,
    }
}

/// Issues and verifies tokens and password digests under configuration fixed
/// at construction.
#[derive(Debug)]
pub struct AuthService {
    /// The symmetric signing secret, loaded once at startup.
    pub secret: String,
    /// How long an issued token stays valid, in seconds.
    pub validity_secs: u64,
    /// The cost factor handed to the password hasher.
    pub cost: u32,
}

impl AuthService {
    /// The configuration is usable: the hash cost lies in the allowed range.
    pub open spec fn wf(&self) -> bool {
        4 <= self.cost <= 31
    }

    /// Fixes the configuration for this service.
    pub fn new(secret: String, validity_secs: u64, cost: u32) -> (r: AuthService)
        requires
            4 <= cost <= 31,
        ensures
            r.secret == secret,
            r.validity_secs == validity_secs,
            r.cost == cost,
            r.wf(),
    {
        AuthService { secret, validity_secs, cost }
    }

    /// Issues a token asserting `(user_id, email)` until `now` plus the
    /// validity window. Issuing always succeeds — HS256 signing under a
    /// symmetric secret is infallible — and the token is exactly the signed
    /// encoding of those claims, which decoding under the same secret
    /// recovers.
    pub fn generate_token(&self, user_id: &str, email: &str, now: u64) -> (r: Result<
        String,
        CoreError,
    >)
        requires
            now + self.validity_secs <= u64::MAX,
        ensures
            r is Ok,
            r matches Ok(t) ==> {
                &&& t@ == jwt_token(
                    self.secret@,
                    user_id@,
                    email@,
                    (now + self.validity_secs) as u64,
                )
                &&& token_claims(self.secret@, t@) == Some(
                    (user_id@, email@, (now + self.validity_secs) as u64),
                )
            },
    {
        let exp: u64 = now + self.validity_secs;
        match jwt_encode(self.secret.as_str(), user_id, email, exp) {
            Ok(t) => Ok(t),
            Err(_) => Err(CoreError::Internal),
        }
    }

    /// Verifies a token against the clock reading `now`: yields the claims
    /// exactly when the signature checks out and the token is not yet
    /// expired, and `Unauthenticated` otherwise — malformed encoding, bad
    /// signature and expiry are deliberately indistinguishable.
    pub fn verify_token(&self, token: &str, now: u64) -> (r: Result<Claims, CoreError>)
        ensures
            r matches Ok(c) ==> verify_claim(self.secret@, token@, now) == Some(
                (c.sub@, c.email@, c.exp),
            ),
            r is Err ==> r == Err::<Claims, CoreError>(CoreError::Unauthenticated) && verify_claim(
                self.secret@,
                token@,
                now,
            ) is None,
            r is Ok <==> verify_claim(self.secret@, token@, now) is Some,
    {
        match jwt_decode(self.secret.as_str(), token) {
            Some(c) => {
                if c.exp > now {
                    Ok(c)
                } else {
                    Err(CoreError::Unauthenticated)
                }
            },
            None => Err(CoreError::Unauthenticated),
        }
    }

    /// Hashes a plaintext password with a fresh salt. Two calls on the same
    /// plaintext yield different digests; what is guaranteed of the result
    /// is that it is well formed and matches the plaintext under `verify`.
    pub fn hash_password(&self, password: &str) -> (r: Result<String, CoreError>)
        requires
            self.wf(),
        ensures
            r matches Ok(d) ==> is_bcrypt_digest(d@) && bcrypt_matches(password@, d@),
            r matches Err(e) ==> e == CoreError::Internal,
    {
        match bcrypt_hash(password, self.cost) {
            Ok(d) => Ok(d),
            Err(_) => Err(CoreError::Internal),
        }
    }

    /// Checks a plaintext against a stored digest: a match report for a well
    /// formed digest, `MalformedDigest` for any other.
    pub fn verify_password(&self, password: &str, digest: &str) -> (r: Result<bool, HashError>)
        ensures
            r == password_check(password@, digest@),
    {
        match bcrypt_verify(password, digest) {
            Ok(b) => Ok(b),
            Err(_) => Err(HashError::MalformedDigest),
        }
    }

    /// Pulls the bearer token out of an authorization header value, if the
    /// header is present and carries one.
    pub fn extract_token_from_header(header: Option<&str>) -> (r: Option<String>)
        ensures
            match r {
                Some(t) => spec_bearer_token(
                    match header {
                        Some(h) => Some(h@),
                        None => None,
                    },
                ) == Some(t@),
                None => spec_bearer_token(
                    match header {
                        Some(h) => Some(h@),
                        None => None,
                    },
                ) is None,
            },
    {
        match header {
            None => None,
            Some(h) => {
                let len = h.unicode_len();
                if len < 7 {
                    return None;
                }
                let prefix = String::from_str(h.substring_char(0, 7));
                let marker = String::from_str("Bearer ");
                if prefix == marker {
                    Some(String::from_str(h.substring_char(7, len)))
                } else {
                    None
                }
            },
        }
    }

    /// Builds the login response from a verified account and its fresh token.
    pub fn create_auth_response(user: User, token: String) -> (r: LoginResponse)
        ensures
            r.token == token,
            r.user == user,
    {
        LoginResponse { token, user }
    }
}

/// A token issued for `(sub, email)` with expiry `exp` verifies at any
/// instant before `exp` and recovers exactly the id and email it was issued
/// for. The hypothesis is the round-trip fact that issuance guarantees.
pub proof fn lemma_issued_token_verifies(
    secret: Seq<char>,
    sub: Seq<char>,
    email: Seq<char>,
    exp: u64,
    now: u64,
)
    requires
        token_claims(secret, jwt_token(secret, sub, email, exp)) == Some((sub, email, exp)),
        now < exp,
    ensures
        verify_claim(secret, jwt_token(secret, sub, email, exp), now) == Some((sub, email, exp)),
{
}

/// Once the clock reaches a token's expiry, verification fails, whatever
/// else the token carries.
pub proof fn lemma_expired_token_rejected(secret: Seq<char>, token: Seq<char>, now: u64)
    requires
        token_claims(secret, token) matches Some(c) ==> now >= c.2,
    ensures
        verify_claim(secret, token, now) is None,
{
}

} // verus!
