//! Per-account settings: defaults for new invoices, and the sequence value
//! that invoice numbering draws from. The sequence field is mutated only by
//! `allocate`, which hands out each value exactly once.

use vstd::prelude::*;

verus! {

/// Settings attached one-to-one to an account. The tax rate is in hundredths
/// of a percent.
#[derive(Debug)]
pub struct UserSettings {
    pub user_id: String,
    pub default_tax_rate_bp: i64,
    pub currency: String,
    pub invoice_prefix: String,
    pub next_invoice_number: u64,
    pub company_logo_url: Option<String>,
    pub payment_terms_days: u64,
    pub updated_at: u64,
}

/// Optional overrides for fresh settings.
#[derive(Debug)]
pub struct NewUserSettings {
    pub user_id: String,
    pub default_tax_rate_bp: Option<i64>,
    pub currency: Option<String>,
    pub invoice_prefix: Option<String>,
    pub next_invoice_number: Option<u64>,
    pub company_logo_url: Option<String>,
    pub payment_terms_days: Option<u64>,
}

impl UserSettings {
    /// Fresh settings for a new account: 19 % tax, euro, prefix `INV`, the
    /// sequence starting at 1, and 14 payment-term days.
    pub fn new(user_id: String, now: u64) -> (r: UserSettings)
        ensures
            r.user_id == user_id,
            r.default_tax_rate_bp == 1900int,
            r.currency@ == "EUR"@,
            r.invoice_prefix@ == "INV"@,
            r.next_invoice_number == 1,
            r.company_logo_url is None,
            r.payment_terms_days == 14,
            r.updated_at == now,
    {
        UserSettings {
            user_id,
            default_tax_rate_bp: 1900,
            currency: String::from_str("EUR"),
            invoice_prefix: String::from_str("INV"),
            next_invoice_number: 1,
            company_logo_url: None,
            payment_terms_days: 14,
            updated_at: now,
        }
    }

    /// Takes the next sequence value and moves the counter past it, touching
    /// nothing else. The borrow is exclusive for the whole read-increment-
    /// write, so no two callers can be handed the same value.
    pub fn allocate(&mut self) -> (r: u64)
        requires
            old(self).next_invoice_number < u64::MAX,
        ensures
            r == old(self).next_invoice_number,
            final(self).next_invoice_number == old(self).next_invoice_number + 1,
            final(self).user_id == old(self).user_id,
            final(self).default_tax_rate_bp == old(self).default_tax_rate_bp,
            final(self).currency == old(self).currency,
            final(self).invoice_prefix == old(self).invoice_prefix,
            final(self).company_logo_url == old(self).company_logo_url,
            final(self).payment_terms_days == old(self).payment_terms_days,
            final(self).updated_at == old(self).updated_at,
    {
        let value = self.next_invoice_number;
        self.next_invoice_number = value + 1;
        value
    }
}

/// Successive allocations hand out pairwise distinct values: the i-th call
/// after the counter stood at `start` returns `start + i`, so any list of
/// values so obtained has no duplicates and stays within the allocated band.
pub proof fn lemma_allocated_values_distinct(vals: Seq<int>, start: int)
    requires
        forall|i: int| 0 <= i < vals.len() ==> #[trigger] vals[i] == start + i,
    ensures
        forall|i: int, j: int| 0 <= i < j < vals.len() ==> vals[i] != vals[j],
        forall|i: int| 0 <= i < vals.len() ==> start <= #[trigger] vals[i] < start + vals.len(),
{
}

} // verus!
