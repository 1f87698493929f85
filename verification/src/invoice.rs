//! Invoices and their line items, and the calculator that derives the
//! computed monetary fields from the line items. Dates are carried as day
//! numbers, amounts as scaled integers (see `money`).

use vstd::prelude::*;
use crate::errors::{CalcError, CoreError};
use crate::ids::fresh_uuid;
use crate::money::{
    div_round_half_even_u128, item_valid, line_total_cents, spec_line_total_cents, spec_tax_cents,
    MAX_AMOUNT_CENTS,
};

verus! {

/// The lifecycle of an invoice; transitions only ever move forward.
#[derive(Clone, Copy, Debug, PartialEq, Eq, Structural)]
pub enum InvoiceStatus {
    Draft,
    Sent,
    Paid,
}

/// The position of a status in the draft, sent, paid order.
pub open spec fn status_rank(s: InvoiceStatus) -> int {
    match s {
        InvoiceStatus::Draft => 0,
        InvoiceStatus::Sent => 1,
        InvoiceStatus::Paid => 2,
    }
}

/// A status change is allowed exactly when it moves strictly forward:
/// regressions and standstills are rejected.
pub open spec fn status_advances(from: InvoiceStatus, to: InvoiceStatus) -> bool {
    status_rank(from) < status_rank(to)
}

/// A line item as submitted for a new invoice: the unit price in thousandths
/// of a currency unit.
#[derive(Debug)]
pub struct NewInvoiceItem {
    pub description: String,
    pub quantity: i64,
    pub unit_price_milli: i64,
}

/// Every submitted line item has a positive quantity and a non-negative
/// unit price.
pub open spec fn items_valid(items: Seq<NewInvoiceItem>) -> bool {
    forall|i: int|
        0 <= i < items.len() ==> item_valid(
            items[i].quantity as int,
            items[i].unit_price_milli as int,
        )
}

/// The subtotal in cents: the sum of the line totals.
pub open spec fn spec_subtotal_cents(items: Seq<NewInvoiceItem>) -> int
    decreases items.len(),
{
    if items.len() == 0 {
        0
    } else {
        spec_subtotal_cents(items.drop_last()) + spec_line_total_cents(
            items.last().quantity as int,
            items.last().unit_price_milli as int,
        )
    }
}

/// The total in cents: subtotal plus tax.
pub open spec fn spec_total_cents(items: Seq<NewInvoiceItem>, tax_rate_bp: int) -> int {
    spec_subtotal_cents(items) + spec_tax_cents(spec_subtotal_cents(items), tax_rate_bp)
}

/// The calculator accepts exactly the inputs whose items are acceptable,
/// whose tax rate is not negative, and whose total stays representable.
pub open spec fn calc_ok(items: Seq<NewInvoiceItem>, tax_rate_bp: int) -> bool {
    &&& items_valid(items)
    &&& 0 <= tax_rate_bp
    &&& spec_total_cents(items, tax_rate_bp) <= MAX_AMOUNT_CENTS
}

/// On acceptable items every line total is non-negative, so the subtotal of
/// a prefix never exceeds the subtotal of the whole sequence.
pub proof fn lemma_subtotal_prefix_le(items: Seq<NewInvoiceItem>, n: int)
    requires
        items_valid(items),
        0 <= n <= items.len(),
    ensures
        spec_subtotal_cents(items.take(n)) <= spec_subtotal_cents(items),
    decreases items.len() - n,
{
    if n < items.len() {
        assert(items.take(n + 1).drop_last() =~= items.take(n));
        assert(items.take(items.len() as int) =~= items);
        lemma_subtotal_prefix_le(items, n + 1);
    } else {
        assert(items.take(n) =~= items);
    }
}

/// The computed monetary fields of an invoice, all in cents, with the line
/// totals in the order of the items they belong to.
#[derive(Debug)]
pub struct InvoiceTotals {
    pub subtotal_cents: u64,
    pub tax_amount_cents: u64,
    pub total_amount_cents: u64,
    pub line_total_cents: Vec<u64>,
}

/// Derives subtotal, tax amount and total from the line items and the tax
/// rate. The result is a function of the arguments alone: same inputs, same
/// outputs, always.
pub fn compute_invoice_totals(items: &Vec<NewInvoiceItem>, tax_rate_bp: i64) -> (r: Result<
    InvoiceTotals,
    CalcError,
>)
    ensures
        r is Ok <==> calc_ok(items@, tax_rate_bp as int),
        r matches Ok(t) ==> {
            &&& t.subtotal_cents == spec_subtotal_cents(items@)
            &&& t.tax_amount_cents == spec_tax_cents(spec_subtotal_cents(items@), tax_rate_bp as int)
            &&& t.total_amount_cents == spec_total_cents(items@, tax_rate_bp as int)
            &&& t.line_total_cents@.len() == items@.len()
            &&& forall|i: int|
                0 <= i < items@.len() ==> t.line_total_cents@[i] == spec_line_total_cents(
                    items@[i].quantity as int,
                    items@[i].unit_price_milli as int,
                )
        },
        r == Err::<InvoiceTotals, CalcError>(CalcError::InvalidLineItem) <==> !items_valid(items@),
        r == Err::<InvoiceTotals, CalcError>(CalcError::InvalidTaxRate) <==> items_valid(items@)
            && tax_rate_bp < 0,
        r == Err::<InvoiceTotals, CalcError>(CalcError::AmountOverflow) <==> items_valid(items@)
            && tax_rate_bp >= 0 && spec_total_cents(items@, tax_rate_bp as int) > MAX_AMOUNT_CENTS,
{
    let n = items.len();
    let mut i: usize = 0;
    while i < n
        invariant
            n == items@.len(),
            0 <= i <= n,
            forall|k: int|
                0 <= k < i ==> item_valid(
                    items@[k].quantity as int,
                    items@[k].unit_price_milli as int,
                ),
        decreases n - i,
    {
        if items[i].quantity < 1 || items[i].unit_price_milli < 0 {
            return Err(CalcError::InvalidLineItem);
        }
        i = i + 1;
    }
    if tax_rate_bp < 0 {
        return Err(CalcError::InvalidTaxRate);
    }
    let mut subtotal: u128 = 0;
    let mut lines: Vec<u64> = Vec::new();
    let mut j: usize = 0;
    while j < n
        invariant
            n == items@.len(),
            0 <= j <= n,
            items_valid(items@),
            tax_rate_bp >= 0,
            subtotal as int == spec_subtotal_cents(items@.take(j as int)),
            subtotal <= MAX_AMOUNT_CENTS,
            lines@.len() == j,
            forall|k: int|
                0 <= k < j ==> lines@[k] == spec_line_total_cents(
                    items@[k].quantity as int,
                    items@[k].unit_price_milli as int,
                ),
        decreases n - j,
    {
        let line: u128 = line_total_cents(items[j].quantity, items[j].unit_price_milli);
        proof {
            assert(items@.take(j + 1).drop_last() =~= items@.take(j as int));
        }
        let next: u128 = subtotal + line;
        if next > MAX_AMOUNT_CENTS as u128 {
            proof {
                lemma_subtotal_prefix_le(items@, j + 1);
                lemma_subtotal_prefix_le(items@, 0);
                assert(spec_subtotal_cents(items@.take(0)) == 0);
                vstd::arithmetic::mul::lemma_mul_nonnegative(
                    spec_subtotal_cents(items@),
                    tax_rate_bp as int,
                );
                crate::money::lemma_div_round_half_even_bounds(
                    spec_subtotal_cents(items@) * tax_rate_bp,
                    10_000,
                );
            }
            return Err(CalcError::AmountOverflow);
        }
        subtotal = next;
        lines.push(line as u64);
        j = j + 1;
    }
    proof {
        assert(items@.take(n as int) =~= items@);
    }
    let rate: u128 = tax_rate_bp as u128;
    proof {
        lemma_mul_upper_bound_tax(subtotal, rate);
    }
    let tax: u128 = div_round_half_even_u128(subtotal * rate, 10_000);
    proof {
        crate::money::lemma_div_round_half_even_bounds(subtotal as int * rate as int, 10_000);
        vstd::arithmetic::div_mod::lemma_div_is_ordered(
            subtotal as int * rate as int,
            MAX_AMOUNT_CENTS as int * 0x7fff_ffff_ffff_ffff,
            10_000,
        );
    }
    let total: u128 = subtotal + tax;
    if total > MAX_AMOUNT_CENTS as u128 {
        return Err(CalcError::AmountOverflow);
    }
    Ok(InvoiceTotals {
        subtotal_cents: subtotal as u64,
        tax_amount_cents: tax as u64,
        total_amount_cents: total as u64,
        line_total_cents: lines,
    })
}

/// A stored line item, owned by exactly one invoice. Its line total is
/// recomputed from quantity and unit price whenever the item is built.
#[derive(Debug)]
pub struct InvoiceItem {
    pub id: String,
    pub invoice_id: String,
    pub description: String,
    pub quantity: i64,
    pub unit_price_milli: i64,
    pub total_price_cents: u64,
    pub created_at: u64,
}

/// A stored invoice: owned by one account, referencing one client of the
/// same account, with computed monetary fields that always equal what its
/// line items sum to.
#[derive(Debug)]
pub struct Invoice {
    pub id: String,
    pub user_id: String,
    pub client_id: String,
    pub invoice_number: String,
    pub sequence: u64,
    pub issue_day: u64,
    pub due_day: u64,
    pub currency: String,
    pub subtotal_cents: u64,
    pub tax_rate_bp: i64,
    pub tax_amount_cents: u64,
    pub total_amount_cents: u64,
    pub status: InvoiceStatus,
    pub notes: Option<String>,
    pub pdf_url: Option<String>,
    pub sent_at: Option<u64>,
    pub paid_at: Option<u64>,
    pub created_at: u64,
    pub updated_at: u64,
    pub items: Vec<InvoiceItem>,
}

/// The data of an invoice about to be created. Dates are day numbers; a
/// missing currency or tax rate falls back to the account's settings.
#[derive(Debug)]
pub struct NewInvoice {
    pub user_id: String,
    pub client_id: String,
    pub issue_day: u64,
    pub due_day: u64,
    pub currency: Option<String>,
    pub tax_rate_bp: Option<i64>,
    pub notes: Option<String>,
    pub items: Vec<NewInvoiceItem>,
}

/// A stored item is acceptable and carries exactly the line total its
/// quantity and unit price compute to.
pub open spec fn wf_item(it: InvoiceItem) -> bool {
    &&& item_valid(it.quantity as int, it.unit_price_milli as int)
    &&& it.total_price_cents as int == spec_line_total_cents(
        it.quantity as int,
        it.unit_price_milli as int,
    )
}

/// The sum of the stored line totals.
pub open spec fn spec_items_subtotal(items: Seq<InvoiceItem>) -> int
    decreases items.len(),
{
    if items.len() == 0 {
        0
    } else {
        spec_items_subtotal(items.drop_last()) + items.last().total_price_cents
    }
}

/// A well-formed invoice: dates in order, a non-negative tax rate, every
/// item well formed, and the computed fields equal to what the items and
/// the tax rate yield.
pub open spec fn wf_invoice(inv: Invoice) -> bool {
    &&& inv.issue_day <= inv.due_day
    &&& 0 <= inv.tax_rate_bp
    &&& 1 <= inv.sequence
    &&& forall|i: int| 0 <= i < inv.items@.len() ==> wf_item(#[trigger] inv.items@[i])
    &&& inv.subtotal_cents as int == spec_items_subtotal(inv.items@)
    &&& inv.tax_amount_cents as int == spec_tax_cents(
        inv.subtotal_cents as int,
        inv.tax_rate_bp as int,
    )
    &&& inv.total_amount_cents as int == inv.subtotal_cents + inv.tax_amount_cents
}

impl InvoiceItem {
    /// Builds a stored line item under a freshly drawn id. The quantity is
    /// positive, the unit price non-negative, and the stored line total is
    /// exactly what they compute to — a stored item is well formed from the
    /// start.
    pub fn new(
        invoice_id: String,
        description: String,
        quantity: i64,
        unit_price_milli: i64,
        total_price_cents: u64,
        now: u64,
    ) -> (r: InvoiceItem)
        requires
            item_valid(quantity as int, unit_price_milli as int),
            total_price_cents as int == spec_line_total_cents(
                quantity as int,
                unit_price_milli as int,
            ),
        ensures
            wf_item(r),
            r.id@.len() == 36,
            r.invoice_id == invoice_id,
            r.description == description,
            r.quantity == quantity,
            r.unit_price_milli == unit_price_milli,
            r.total_price_cents == total_price_cents,
            r.created_at == now,
    {
        InvoiceItem {
            id: fresh_uuid(),
            invoice_id,
            description,
            quantity,
            unit_price_milli,
            total_price_cents,
            created_at: now,
        }
    }
}

/// Builds the stored line items for one invoice from the submitted items
/// and the calculator's line totals, in order.
pub fn build_invoice_items(
    invoice_id: &String,
    items: &Vec<NewInvoiceItem>,
    line_totals: &Vec<u64>,
    now: u64,
) -> (r: Vec<InvoiceItem>)
    requires
        items_valid(items@),
        line_totals@.len() == items@.len(),
        forall|i: int|
            0 <= i < items@.len() ==> line_totals@[i] == spec_line_total_cents(
                items@[i].quantity as int,
                items@[i].unit_price_milli as int,
            ),
    ensures
        r@.len() == items@.len(),
        forall|i: int| 0 <= i < r@.len() ==> wf_item(#[trigger] r@[i]),
        forall|i: int|
            0 <= i < r@.len() ==> {
                &&& (#[trigger] r@[i]).invoice_id@ == invoice_id@
                &&& r@[i].description@ == items@[i].description@
                &&& r@[i].quantity == items@[i].quantity
                &&& r@[i].unit_price_milli == items@[i].unit_price_milli
                &&& r@[i].total_price_cents == line_totals@[i]
                &&& r@[i].created_at == now
            },
        spec_items_subtotal(r@) == spec_subtotal_cents(items@),
{
    let n = items.len();
    let mut out: Vec<InvoiceItem> = Vec::new();
    let mut i: usize = 0;
    while i < n
        invariant
            n == items@.len(),
            line_totals@.len() == n,
            0 <= i <= n,
            items_valid(items@),
            forall|k: int|
                0 <= k < n ==> line_totals@[k] == spec_line_total_cents(
                    items@[k].quantity as int,
                    items@[k].unit_price_milli as int,
                ),
            out@.len() == i,
            forall|k: int| 0 <= k < i ==> wf_item(#[trigger] out@[k]),
            forall|k: int|
                0 <= k < i ==> {
                    &&& (#[trigger] out@[k]).invoice_id@ == invoice_id@
                    &&& out@[k].description@ == items@[k].description@
                    &&& out@[k].quantity == items@[k].quantity
                    &&& out@[k].unit_price_milli == items@[k].unit_price_milli
                    &&& out@[k].total_price_cents == line_totals@[k]
                    &&& out@[k].created_at == now
                },
            spec_items_subtotal(out@) == spec_subtotal_cents(items@.take(i as int)),
        decreases n - i,
    {
        let item = InvoiceItem::new(
            invoice_id.clone(),
            items[i].description.clone(),
            items[i].quantity,
            items[i].unit_price_milli,
            line_totals[i],
            now,
        );
        let ghost prev = out@;
        out.push(item);
        proof {
            assert(out@.drop_last() =~= prev);
            assert(items@.take(i + 1).drop_last() =~= items@.take(i as int));
        }
        i = i + 1;
    }
    proof {
        assert(items@.take(n as int) =~= items@);
    }
    out
}

impl Invoice {
    /// Assembles a stored invoice from already-validated parts: the drawn
    /// id, the rendered invoice number and its sequence value, the computed
    /// amounts, and the stored items. The invoice starts as a draft.
    pub fn new(
        id: String,
        user_id: String,
        client_id: String,
        invoice_number: String,
        sequence: u64,
        issue_day: u64,
        due_day: u64,
        currency: String,
        tax_rate_bp: i64,
        subtotal_cents: u64,
        tax_amount_cents: u64,
        total_amount_cents: u64,
        notes: Option<String>,
        items: Vec<InvoiceItem>,
        now: u64,
    ) -> (r: Invoice)
        requires
            issue_day <= due_day,
            0 <= tax_rate_bp,
            1 <= sequence,
            forall|i: int| 0 <= i < items@.len() ==> wf_item(#[trigger] items@[i]),
            subtotal_cents as int == spec_items_subtotal(items@),
            tax_amount_cents as int == spec_tax_cents(subtotal_cents as int, tax_rate_bp as int),
            total_amount_cents as int == subtotal_cents + tax_amount_cents,
        ensures
            wf_invoice(r),
            r.id == id,
            r.user_id == user_id,
            r.client_id == client_id,
            r.invoice_number == invoice_number,
            r.sequence == sequence,
            r.issue_day == issue_day,
            r.due_day == due_day,
            r.currency == currency,
            r.tax_rate_bp == tax_rate_bp,
            r.subtotal_cents == subtotal_cents,
            r.tax_amount_cents == tax_amount_cents,
            r.total_amount_cents == total_amount_cents,
            r.status == InvoiceStatus::Draft,
            r.notes == notes,
            r.pdf_url is None,
            r.sent_at is None,
            r.paid_at is None,
            r.created_at == now,
            r.updated_at == now,
            r.items == items,
    {
        Invoice {
            id,
            user_id,
            client_id,
            invoice_number,
            sequence,
            issue_day,
            due_day,
            currency,
            subtotal_cents,
            tax_rate_bp,
            tax_amount_cents,
            total_amount_cents,
            status: InvoiceStatus::Draft,
            notes,
            pdf_url: None,
            sent_at: None,
            paid_at: None,
            created_at: now,
            updated_at: now,
            items,
        }
    }

    /// Moves the invoice's status forward; a standstill or regression is
    /// rejected as a validation error and changes nothing. Moving to sent or
    /// paid stamps the matching instant.
    pub fn advance_status(&mut self, to: InvoiceStatus, now: u64) -> (r: Result<(), CoreError>)
        ensures
            r is Ok <==> status_advances(old(self).status, to),
            r is Err ==> *final(self) == *old(self) && r == Err::<(), CoreError>(
                CoreError::Validation,
            ),
            r is Ok ==> {
                &&& final(self).status == to
                &&& final(self).updated_at == now
                &&& final(self).sent_at == (if to == InvoiceStatus::Sent {
                    Some(now)
                } else {
                    old(self).sent_at
                })
                &&& final(self).paid_at == (if to == InvoiceStatus::Paid {
                    Some(now)
                } else {
                    old(self).paid_at
                })
                &&& final(self).id == old(self).id
                &&& final(self).user_id == old(self).user_id
                &&& final(self).client_id == old(self).client_id
                &&& final(self).invoice_number == old(self).invoice_number
                &&& final(self).sequence == old(self).sequence
                &&& final(self).issue_day == old(self).issue_day
                &&& final(self).due_day == old(self).due_day
                &&& final(self).currency == old(self).currency
                &&& final(self).subtotal_cents == old(self).subtotal_cents
                &&& final(self).tax_rate_bp == old(self).tax_rate_bp
                &&& final(self).tax_amount_cents == old(self).tax_amount_cents
                &&& final(self).total_amount_cents == old(self).total_amount_cents
                &&& final(self).notes == old(self).notes
                &&& final(self).pdf_url == old(self).pdf_url
                &&& final(self).created_at == old(self).created_at
                &&& final(self).items == old(self).items
            },
    {
        let allowed = match (self.status, to) {
            (InvoiceStatus::Draft, InvoiceStatus::Sent) => true,
            (InvoiceStatus::Draft, InvoiceStatus::Paid) => true,
            (InvoiceStatus::Sent, InvoiceStatus::Paid) => true,
            _ => false,
        };
        if !allowed {
            return Err(CoreError::Validation);
        }
        self.status = to;
        self.updated_at = now;
        if matches!(to, InvoiceStatus::Sent) {
            self.sent_at = Some(now);
        }
        if matches!(to, InvoiceStatus::Paid) {
            self.paid_at = Some(now);
        }
        Ok(())
    }
}

/// A status history that only ever advances keeps its ranks strictly
/// increasing, so an invoice never returns to an earlier status.
pub proof fn lemma_status_never_regresses(statuses: Seq<InvoiceStatus>)
    requires
        forall|i: int|
            0 <= i < statuses.len() - 1 ==> status_advances(
                #[trigger] statuses[i],
                statuses[i + 1],
            ),
    ensures
        forall|i: int, j: int|
            0 <= i < j < statuses.len() ==> status_rank(statuses[i]) < status_rank(statuses[j]),
    decreases statuses.len(),
{
    if statuses.len() >= 2 {
        lemma_status_never_regresses(statuses.drop_last());
        assert forall|i: int, j: int| 0 <= i < j < statuses.len() implies status_rank(
            statuses[i],
        ) < status_rank(statuses[j]) by {
            if j < statuses.len() - 1 {
                assert(statuses.drop_last()[i] == statuses[i]);
                assert(statuses.drop_last()[j] == statuses[j]);
            } else {
                assert(status_advances(statuses[j - 1], statuses[j]));
                if i < j - 1 {
                    assert(statuses.drop_last()[i] == statuses[i]);
                    assert(statuses.drop_last()[j - 1] == statuses[j - 1]);
                }
            }
        }
    }
}

/// The product of a capped subtotal and a 64-bit tax rate stays far below
/// the 128-bit range.
proof fn lemma_mul_upper_bound_tax(subtotal: u128, rate: u128)
    requires
        subtotal <= MAX_AMOUNT_CENTS,
        rate <= 0x7fff_ffff_ffff_ffff,
    ensures
        subtotal * rate <= MAX_AMOUNT_CENTS * 0x7fff_ffff_ffff_ffff,
{
    vstd::arithmetic::mul::lemma_mul_upper_bound(
        subtotal as int,
        MAX_AMOUNT_CENTS as int,
        rate as int,
        0x7fff_ffff_ffff_ffff,
    );
}

} // verus!
