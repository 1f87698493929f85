//! Fixed-point monetary arithmetic. Amounts are carried as scaled integers:
//! unit prices in thousandths of a currency unit, computed monetary fields in
//! cents (hundredths), tax rates in hundredths of a percent. Rounding is
//! round-half-to-even, so that many roundings carry no systematic bias.

use vstd::prelude::*;
use vstd::arithmetic::div_mod::{lemma_div_is_ordered, lemma_div_is_ordered_by_denominator};
use vstd::arithmetic::mul::lemma_mul_upper_bound;

verus! {

/// Largest amount, in cents, that any computed monetary field may reach.
pub const MAX_AMOUNT_CENTS: u64 = 1_000_000_000_000_000;

/// The exact quotient `n / d` rounded to the nearest integer, ties going to
/// the nearest even integer (banker's rounding).
pub open spec fn div_round_half_even(n: int, d: int) -> int
    recommends
        0 <= n,
        0 < d,
{
    let q = n / d;
    let r = n % d;
    if 2 * r < d {
        q
    } else if 2 * r > d {
        q + 1
    } else if q % 2 == 0 {
        q
    } else {
        q + 1
    }
}

/// Rounding never goes below the truncated quotient nor more than one above
/// it; on a non-negative dividend the result is non-negative.
pub proof fn lemma_div_round_half_even_bounds(n: int, d: int)
    requires
        0 <= n,
        0 < d,
    ensures
        n / d <= div_round_half_even(n, d) <= n / d + 1,
        0 <= div_round_half_even(n, d),
{
}

/// `n / d` rounded half to even, on machine integers.
pub fn div_round_half_even_u128(n: u128, d: u128) -> (r: u128)
    requires
        2 <= d <= 100_000,
    ensures
        r as int == div_round_half_even(n as int, d as int),
{
    proof {
        lemma_div_is_ordered_by_denominator(n as int, 2, d as int);
    }
    let q = n / d;
    let rem = n % d;
    if 2 * rem < d {
        q
    } else if 2 * rem > d {
        q + 1
    } else if q % 2 == 0 {
        q
    } else {
        q + 1
    }
}

/// A line item is acceptable when its quantity is positive and its unit
/// price is not negative.
pub open spec fn item_valid(quantity: int, unit_price_milli: int) -> bool {
    1 <= quantity && 0 <= unit_price_milli
}

/// The line total in cents: quantity times unit price (in thousandths),
/// brought from thousandths to cents by rounding half to even.
pub open spec fn spec_line_total_cents(quantity: int, unit_price_milli: int) -> int {
    div_round_half_even(quantity * unit_price_milli, 10)
}

/// The tax amount in cents on a subtotal in cents, at a tax rate in
/// hundredths of a percent, rounded half to even.
pub open spec fn spec_tax_cents(subtotal_cents: int, tax_rate_bp: int) -> int {
    div_round_half_even(subtotal_cents * tax_rate_bp, 10_000)
}

/// The line total of one acceptable item, exact in machine integers.
pub fn line_total_cents(quantity: i64, unit_price_milli: i64) -> (r: u128)
    requires
        item_valid(quantity as int, unit_price_milli as int),
    ensures
        r as int == spec_line_total_cents(quantity as int, unit_price_milli as int),
        r as int <= 0x7fff_ffff_ffff_ffff * 0x7fff_ffff_ffff_ffff,
{
    let q: u128 = quantity as u128;
    let p: u128 = unit_price_milli as u128;
    proof {
        lemma_mul_upper_bound(q as int, 0x7fff_ffff_ffff_ffff, p as int, 0x7fff_ffff_ffff_ffff);
    }
    let product: u128 = q * p;
    proof {
        lemma_div_round_half_even_bounds(product as int, 10);
        lemma_div_is_ordered(product as int, 0x7fff_ffff_ffff_ffff as int * 0x7fff_ffff_ffff_ffff, 10);
    }
    div_round_half_even_u128(product, 10)
}

} // verus!
