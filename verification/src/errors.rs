use vstd::prelude::*;

verus! {

/// The error taxonomy shared by the service's components.
#[derive(Clone, Copy, Debug, PartialEq, Eq, Structural)]
pub enum CoreError {
    /// A unique key (the account email) is already taken.
    Conflict,
    /// Missing, malformed or expired credentials, or a failed login.
    Unauthenticated,
    /// Malformed input: bad line items, bad tax rate, bad dates,
    /// or a cross-account reference.
    Validation,
    /// A referenced record is absent.
    NotFound,
    /// A backend failure that the caller cannot act on.
    Internal,
}

/// Errors of the invoice calculator.
#[derive(Clone, Copy, Debug, PartialEq, Eq, Structural)]
pub enum CalcError {
    /// A line item has a non-positive quantity or a negative unit price.
    InvalidLineItem,
    /// The tax rate is negative.
    InvalidTaxRate,
    /// A computed amount exceeds the largest representable total.
    AmountOverflow,
}

/// Error of password verification against a stored digest.
#[derive(Clone, Copy, Debug, PartialEq, Eq, Structural)]
pub enum HashError {
    /// The stored digest is not in the expected encoding.
    MalformedDigest,
}

impl CalcError {
    /// Every calculator failure is a validation failure at the service boundary.
    pub fn to_core(self) -> (r: CoreError)
        ensures
            r == CoreError::Validation,
    {
        CoreError::Validation
    }
}

} // verus!
