//! Accounts: identity, unique email, salted password hash and profile
//! fields. Timestamps are Unix seconds supplied by the caller.

use vstd::prelude::*;
use crate::ids::fresh_uuid;

verus! {

/// The case-folded form of a string; emails are compared through it, so
/// uniqueness holds without regard to case. A function of the characters
/// alone.
pub uninterp spec fn lower_of(s: Seq<char>) -> Seq<char>;

/// Relies on str::to_lowercase: the result depends on the characters alone.
#[verifier::external_body]
pub(crate) fn lowercase(s: &str) -> (r: String)
    ensures
        r@ == lower_of(s@),
{
    s.to_lowercase()
}

/// A copy of an optional string, equal to the original.
pub(crate) fn clone_opt_string(o: &Option<String>) -> (r: Option<String>)
    ensures
        r == *o,
{
    match o {
        Some(s) => Some(s.clone()),
        None => None,
    }
}

/// A stored account.
#[derive(Debug)]
pub struct User {
    pub id: String,
    pub email: String,
    pub password_hash: String,
    pub first_name: Option<String>,
    pub last_name: Option<String>,
    pub company_name: Option<String>,
    pub tax_id: Option<String>,
    pub created_at: u64,
    pub updated_at: u64,
}

/// The data of an account about to be registered; `password` is still the
/// plaintext and is hashed before a `User` is built from it.
#[derive(Debug)]
pub struct NewUser {
    pub email: String,
    pub password: String,
    pub first_name: Option<String>,
    pub last_name: Option<String>,
    pub company_name: Option<String>,
    pub tax_id: Option<String>,
}

impl NewUser {
    /// Bundles the registration data unchanged.
    pub fn new(
        email: String,
        password: String,
        first_name: Option<String>,
        last_name: Option<String>,
        company_name: Option<String>,
        tax_id: Option<String>,
    ) -> (r: NewUser)
        ensures
            r.email == email,
            r.password == password,
            r.first_name == first_name,
            r.last_name == last_name,
            r.company_name == company_name,
            r.tax_id == tax_id,
    {
        NewUser { email, password, first_name, last_name, company_name, tax_id }
    }
}

impl User {
    /// Builds an account record under a freshly drawn id, stamped with the
    /// given instant.
    pub fn new(
        email: String,
        password_hash: String,
        first_name: Option<String>,
        last_name: Option<String>,
        company_name: Option<String>,
        tax_id: Option<String>,
        now: u64,
    ) -> (r: User)
        ensures
            r.id@.len() == 36,
            r.email == email,
            r.password_hash == password_hash,
            r.first_name == first_name,
            r.last_name == last_name,
            r.company_name == company_name,
            r.tax_id == tax_id,
            r.created_at == now,
            r.updated_at == now,
    {
        User {
            id: fresh_uuid(),
            email,
            password_hash,
            first_name,
            last_name,
            company_name,
            tax_id,
            created_at: now,
            updated_at: now,
        }
    }
}

} // verus!
