//! Signed, self-contained session tokens. A token asserts an account id, an
//! email and an expiry instant, under a symmetric secret. Encoding and the
//! signature check sit behind trusted wrappers; the expiry decision is made
//! in verified code against a caller-supplied clock reading.

use vstd::prelude::*;

verus! {

/// The decoded, verified content of a session token.
#[derive(Debug)]
pub struct Claims {
    /// The account id the token was issued for.
    pub sub: String,
    /// The account's email at issuance.
    pub email: String,
    /// Expiry as a Unix timestamp in seconds.
    pub exp: u64,
}

/// The signed token that encodes the claims `(sub, email, exp)` under a
/// secret. A function of its arguments alone: the encoding is deterministic.
pub uninterp spec fn jwt_token(secret: Seq<char>, sub: Seq<char>, email: Seq<char>, exp: u64) -> Seq<
    char,
>;

/// The claims that decoding recovers from a token under a secret: `Some`
/// exactly when the token is well formed, carries the three claims, and its
/// signature checks out under the secret. A function of the two arguments
/// alone; expiry is not consulted here.
pub uninterp spec fn token_claims(secret: Seq<char>, token: Seq<char>) -> Option<
    (Seq<char>, Seq<char>, u64),
>;

#[verifier::external_type_specification]
#[verifier::external_body]
pub struct ExJwtError(jsonwebtoken::errors::Error);

/// Relies on jsonwebtoken::encode with an HS256 header: the token it signs
/// over the claims map `{sub, email, exp}` is a deterministic function of the
/// secret and the claims, and decoding under the same secret recovers them.
/// The call always succeeds: the header's algorithm family matches the
/// secret key's by construction, an HMAC key accepts any length, the claims
/// map serializes without error, and HMAC signing is infallible (the crate
/// is built with its RustCrypto provider alone, so that provider is the
/// process default).
#[verifier::external_body]
pub(crate) fn jwt_encode(secret: &str, sub: &str, email: &str, exp: u64) -> (r: Result<
    String,
    jsonwebtoken::errors::Error,
>)
    ensures
        r is Ok,
        r matches Ok(t) ==> t@ == jwt_token(secret@, sub@, email@, exp) && token_claims(
            secret@,
            t@,
        ) == Some((sub@, email@, exp)),
{
    let mut claims = serde_json::Map::new();
    claims.insert("sub".to_string(), serde_json::Value::String(sub.to_string()));
    claims.insert("email".to_string(), serde_json::Value::String(email.to_string()));
    claims.insert("exp".to_string(), serde_json::Value::from(exp));
    jsonwebtoken::encode(
        &jsonwebtoken::Header::default(),
        &serde_json::Value::Object(claims),
        &jsonwebtoken::EncodingKey::from_secret(secret.as_bytes()),
    )
}

/// Relies on jsonwebtoken::decode with HS256 and all time and audience
/// validation turned off: it yields the claims exactly when the token
/// parses, its signature checks out under the secret, and the three claims
/// are present. No clock is consulted, so the result is a function of the
/// two arguments alone.
#[verifier::external_body]
pub(crate) fn jwt_decode(secret: &str, token: &str) -> (r: Option<Claims>)
    ensures
        match r {
            Some(c) => token_claims(secret@, token@) == Some((c.sub@, c.email@, c.exp)),
            None => token_claims(secret@, token@) is None,
        },
{
    let key = jsonwebtoken::DecodingKey::from_secret(secret.as_bytes());
    let mut validation = jsonwebtoken::Validation::new(jsonwebtoken::Algorithm::HS256);
    validation.validate_exp = false;
    validation.validate_aud = false;
    validation.required_spec_claims = std::collections::HashSet::new();
    let data = match jsonwebtoken::decode::<serde_json::Value>(token, &key, &validation) {
        Ok(d) => d,
        Err(_) => return None,
    };
    let sub = data.claims.get("sub")?.as_str()?.to_string();
    let email = data.claims.get("email")?.as_str()?.to_string();
    let exp = data.claims.get("exp")?.as_u64()?;
    Some(Claims { sub, email, exp })
}

} // verus!
