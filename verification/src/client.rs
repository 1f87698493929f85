//! Clients: billing contacts, each owned by exactly one account. The country
//! defaults to a configured value when absent.

use vstd::prelude::*;
use crate::ids::fresh_uuid;
use crate::user::clone_opt_string;

verus! {

/// A stored client record.
#[derive(Debug)]
pub struct Client {
    pub id: String,
    pub user_id: String,
    pub name: String,
    pub email: Option<String>,
    pub company: Option<String>,
    pub street: Option<String>,
    pub city: Option<String>,
    pub postal_code: Option<String>,
    pub country: String,
    pub vat_number: Option<String>,
    pub created_at: u64,
    pub updated_at: u64,
}

/// The data of a client about to be created.
#[derive(Debug)]
pub struct NewClient {
    pub user_id: String,
    pub name: String,
    pub email: Option<String>,
    pub company: Option<String>,
    pub street: Option<String>,
    pub city: Option<String>,
    pub postal_code: Option<String>,
    pub country: String,
    pub vat_number: Option<String>,
}

impl NewClient {
    /// Bundles the client data; an absent country falls back to the default.
    pub fn new(
        user_id: String,
        name: String,
        email: Option<String>,
        company: Option<String>,
        street: Option<String>,
        city: Option<String>,
        postal_code: Option<String>,
        country: Option<String>,
        vat_number: Option<String>,
    ) -> (r: NewClient)
        ensures
            r.user_id == user_id,
            r.name == name,
            r.email == email,
            r.company == company,
            r.street == street,
            r.city == city,
            r.postal_code == postal_code,
            r.country@ == match country {
                Some(c) => c@,
                None => "DE"@,
            },
            r.vat_number == vat_number,
    {
        let resolved: String = match country {
            Some(c) => c,
            None => String::from_str("DE"),
        };
        NewClient {
            user_id,
            name,
            email,
            company,
            street,
            city,
            postal_code,
            country: resolved,
            vat_number,
        }
    }
}

impl Client {
    /// A copy of this client record, equal to the original.
    pub fn duplicate(&self) -> (r: Client)
        ensures
            r == *self,
    {
        Client {
            id: self.id.clone(),
            user_id: self.user_id.clone(),
            name: self.name.clone(),
            email: clone_opt_string(&self.email),
            company: clone_opt_string(&self.company),
            street: clone_opt_string(&self.street),
            city: clone_opt_string(&self.city),
            postal_code: clone_opt_string(&self.postal_code),
            country: self.country.clone(),
            vat_number: clone_opt_string(&self.vat_number),
            created_at: self.created_at,
            updated_at: self.updated_at,
        }
    }

    /// Builds a client record under a freshly drawn id, stamped with the
    /// given instant.
    pub fn new(
        user_id: String,
        name: String,
        email: Option<String>,
        company: Option<String>,
        street: Option<String>,
        city: Option<String>,
        postal_code: Option<String>,
        country: String,
        vat_number: Option<String>,
        now: u64,
    ) -> (r: Client)
        ensures
            r.id@.len() == 36,
            r.user_id == user_id,
            r.name == name,
            r.email == email,
            r.company == company,
            r.street == street,
            r.city == city,
            r.postal_code == postal_code,
            r.country == country,
            r.vat_number == vat_number,
            r.created_at == now,
            r.updated_at == now,
    {
        Client {
            id: fresh_uuid(),
            user_id,
            name,
            email,
            company,
            street,
            city,
            postal_code,
            country,
            vat_number,
            created_at: now,
            updated_at: now,
        }
    }
}

} // verus!
