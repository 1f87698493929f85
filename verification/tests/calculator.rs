use minidebet::errors::CalcError;
use minidebet::invoice::{compute_invoice_totals, NewInvoiceItem};
use minidebet::money::{div_round_half_even_u128, MAX_AMOUNT_CENTS};
use minidebet::numfmt::{render_invoice_number, u64_to_dec_string};

fn item(description: &str, quantity: i64, unit_price_milli: i64) -> NewInvoiceItem {
    NewInvoiceItem {
        description: description.to_string(),
        quantity,
        unit_price_milli,
    }
}

#[test]
fn totals_two_items_nineteen_percent() {
    // items [{2, 10.00}, {1, 5.00}], tax rate 19 %
    let items = vec![item("consulting", 2, 10_000), item("travel", 1, 5_000)];
    let t = compute_invoice_totals(&items, 1900).unwrap();
    assert_eq!(t.subtotal_cents, 2_500);
    assert_eq!(t.tax_amount_cents, 475);
    assert_eq!(t.total_amount_cents, 2_975);
    assert_eq!(t.line_total_cents, vec![2_000, 500]);
}

#[test]
fn totals_third_of_a_cent_rounds() {
    // items [{3, 0.333}]: 0.999 rounds to a whole 1.00 at the cent boundary
    let items = vec![item("thirds", 3, 333)];
    let t = compute_invoice_totals(&items, 1900).unwrap();
    assert_eq!(t.subtotal_cents, 100);
    assert_eq!(t.tax_amount_cents, 19);
    assert_eq!(t.total_amount_cents, 119);
}

#[test]
fn totals_reproducible() {
    let items = vec![item("a", 7, 1_234), item("b", 3, 999)];
    let t1 = compute_invoice_totals(&items, 1900).unwrap();
    let t2 = compute_invoice_totals(&items, 1900).unwrap();
    assert_eq!(t1.subtotal_cents, t2.subtotal_cents);
    assert_eq!(t1.tax_amount_cents, t2.tax_amount_cents);
    assert_eq!(t1.total_amount_cents, t2.total_amount_cents);
}

#[test]
fn totals_empty_items() {
    let items: Vec<NewInvoiceItem> = Vec::new();
    let t = compute_invoice_totals(&items, 1900).unwrap();
    assert_eq!(t.subtotal_cents, 0);
    assert_eq!(t.tax_amount_cents, 0);
    assert_eq!(t.total_amount_cents, 0);
}

#[test]
fn rounding_ties_go_to_even() {
    // 2.5 -> 2, 3.5 -> 4, 4.5 -> 4, 5.5 -> 6
    assert_eq!(div_round_half_even_u128(25, 10), 2);
    assert_eq!(div_round_half_even_u128(35, 10), 4);
    assert_eq!(div_round_half_even_u128(45, 10), 4);
    assert_eq!(div_round_half_even_u128(55, 10), 6);
    // plain nearest rounding away from the tie
    assert_eq!(div_round_half_even_u128(24, 10), 2);
    assert_eq!(div_round_half_even_u128(26, 10), 3);
}

#[test]
fn tax_tie_exercises_half_even() {
    // subtotal 0.05 at 10 %: half a cent of tax is a tie and lands on even 0
    let items = vec![item("tiny", 1, 50)];
    let t = compute_invoice_totals(&items, 1000).unwrap();
    assert_eq!(t.subtotal_cents, 5);
    assert_eq!(t.tax_amount_cents, 0);
    // subtotal 0.15 at 10 %: one and a half cents lands on the even 2
    let items = vec![item("tiny", 1, 150)];
    let t = compute_invoice_totals(&items, 1000).unwrap();
    assert_eq!(t.subtotal_cents, 15);
    assert_eq!(t.tax_amount_cents, 2);
}

#[test]
fn zero_quantity_is_invalid() {
    let items = vec![item("ok", 1, 100), item("bad", 0, 100)];
    assert_eq!(
        compute_invoice_totals(&items, 1900).unwrap_err(),
        CalcError::InvalidLineItem
    );
}

#[test]
fn negative_quantity_is_invalid() {
    let items = vec![item("bad", -2, 100)];
    assert_eq!(
        compute_invoice_totals(&items, 1900).unwrap_err(),
        CalcError::InvalidLineItem
    );
}

#[test]
fn negative_unit_price_is_invalid() {
    let items = vec![item("bad", 2, -1)];
    assert_eq!(
        compute_invoice_totals(&items, 1900).unwrap_err(),
        CalcError::InvalidLineItem
    );
}

#[test]
fn negative_tax_rate_is_invalid() {
    let items = vec![item("ok", 1, 100)];
    assert_eq!(
        compute_invoice_totals(&items, -1).unwrap_err(),
        CalcError::InvalidTaxRate
    );
}

#[test]
fn item_error_wins_over_tax_rate_error() {
    let items = vec![item("bad", 0, 100)];
    assert_eq!(
        compute_invoice_totals(&items, -1).unwrap_err(),
        CalcError::InvalidLineItem
    );
}

#[test]
fn overlarge_amount_overflows() {
    let items = vec![item("vast", i64::MAX, i64::MAX)];
    assert_eq!(
        compute_invoice_totals(&items, 0).unwrap_err(),
        CalcError::AmountOverflow
    );
    // right at the cap it still goes through
    let items = vec![item("cap", 1, (MAX_AMOUNT_CENTS as i64) * 10)];
    let t = compute_invoice_totals(&items, 0).unwrap();
    assert_eq!(t.subtotal_cents, MAX_AMOUNT_CENTS);
    assert_eq!(t.tax_amount_cents, 0);
    assert_eq!(t.total_amount_cents, MAX_AMOUNT_CENTS);
}

#[test]
fn decimal_rendering() {
    assert_eq!(u64_to_dec_string(0), "0");
    assert_eq!(u64_to_dec_string(7), "7");
    assert_eq!(u64_to_dec_string(10), "10");
    assert_eq!(u64_to_dec_string(90210), "90210");
    assert_eq!(u64_to_dec_string(u64::MAX), "18446744073709551615");
    assert_eq!(render_invoice_number("INV", 1), "INV-1");
    assert_eq!(render_invoice_number("ACME", 42), "ACME-42");
}
