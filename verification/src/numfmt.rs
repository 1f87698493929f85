//! Decimal rendering of sequence numbers and invoice numbers of the shape
//! `<prefix>-<sequence>`. Rendering is injective for a fixed prefix, which is
//! what makes distinct sequence values yield distinct invoice numbers.

use vstd::prelude::*;

verus! {

/// The character of one decimal digit.
pub open spec fn dec_digit_char(d: int) -> char
    recommends
        0 <= d < 10,
{
    if d == 0 {
        '0'
    } else if d == 1 {
        '1'
    } else if d == 2 {
        '2'
    } else if d == 3 {
        '3'
    } else if d == 4 {
        '4'
    } else if d == 5 {
        '5'
    } else if d == 6 {
        '6'
    } else if d == 7 {
        '7'
    } else if d == 8 {
        '8'
    } else {
        '9'
    }
}

/// The decimal writing of a natural number, most significant digit first,
/// without leading zeros.
pub open spec fn dec_seq(n: nat) -> Seq<char>
    decreases n,
{
    if n < 10 {
        seq![dec_digit_char(n as int)]
    } else {
        dec_seq(n / 10).push(dec_digit_char((n % 10) as int))
    }
}

/// A decimal writing is never empty, and has at least two digits from ten up.
pub proof fn lemma_dec_seq_len(n: nat)
    ensures
        dec_seq(n).len() >= 1,
        n >= 10 ==> dec_seq(n).len() >= 2,
    decreases n,
{
    if n >= 10 {
        lemma_dec_seq_len(n / 10);
    }
}

/// Two numbers with the same decimal writing are the same number.
pub proof fn lemma_dec_seq_injective(m: nat, n: nat)
    requires
        dec_seq(m) == dec_seq(n),
    ensures
        m == n,
    decreases m,
{
    lemma_dec_seq_len(m);
    lemma_dec_seq_len(n);
    if m < 10 && n < 10 {
        assert(dec_seq(m)[0] == dec_digit_char(m as int));
        assert(dec_seq(n)[0] == dec_digit_char(n as int));
    } else if m < 10 || n < 10 {
        assert(false);
    } else {
        assert(dec_seq(m).drop_last() =~= dec_seq(m / 10));
        assert(dec_seq(n).drop_last() =~= dec_seq(n / 10));
        assert(dec_seq(m).last() == dec_digit_char((m % 10) as int));
        assert(dec_seq(n).last() == dec_digit_char((n % 10) as int));
        lemma_dec_seq_injective(m / 10, n / 10);
    }
}

/// The single-character string of one decimal digit.
fn digit_string(d: u64) -> (s: String)
    requires
        d < 10,
    ensures
        s@ == seq![dec_digit_char(d as int)],
{
    let c: &str = if d == 0 {
        "0"
    } else if d == 1 {
        "1"
    } else if d == 2 {
        "2"
    } else if d == 3 {
        "3"
    } else if d == 4 {
        "4"
    } else if d == 5 {
        "5"
    } else if d == 6 {
        "6"
    } else if d == 7 {
        "7"
    } else if d == 8 {
        "8"
    } else {
        "9"
    };
    proof {
        reveal_strlit("0");
        reveal_strlit("1");
        reveal_strlit("2");
        reveal_strlit("3");
        reveal_strlit("4");
        reveal_strlit("5");
        reveal_strlit("6");
        reveal_strlit("7");
        reveal_strlit("8");
        reveal_strlit("9");
        assert(c@ =~= seq![dec_digit_char(d as int)]);
    }
    String::from_str(c)
}

/// The decimal writing of a 64-bit number as a string.
pub fn u64_to_dec_string(n: u64) -> (s: String)
    ensures
        s@ == dec_seq(n as nat),
    decreases n,
{
    if n < 10 {
        digit_string(n)
    } else {
        let mut s = u64_to_dec_string(n / 10);
        let d = digit_string(n % 10);
        s.append(d.as_str());
        proof {
            assert(s@ =~= dec_seq(n as nat));
        }
        s
    }
}

/// An invoice number: the account's prefix, a dash, and the decimal writing
/// of the sequence value.
pub open spec fn spec_invoice_number(prefix: Seq<char>, n: nat) -> Seq<char> {
    prefix + seq!['-'] + dec_seq(n)
}

/// Renders `<prefix>-<n>`.
pub fn render_invoice_number(prefix: &str, n: u64) -> (s: String)
    ensures
        s@ == spec_invoice_number(prefix@, n as nat),
{
    let mut s = String::from_str(prefix);
    s.append("-");
    let digits = u64_to_dec_string(n);
    s.append(digits.as_str());
    proof {
        reveal_strlit("-");
        assert(s@ =~= spec_invoice_number(prefix@, n as nat));
    }
    s
}

/// For one prefix, distinct sequence values give distinct invoice numbers.
pub proof fn lemma_invoice_number_injective(prefix: Seq<char>, m: nat, n: nat)
    requires
        spec_invoice_number(prefix, m) == spec_invoice_number(prefix, n),
    ensures
        m == n,
{
    let a = spec_invoice_number(prefix, m);
    let b = spec_invoice_number(prefix, n);
    lemma_dec_seq_len(m);
    lemma_dec_seq_len(n);
    assert(dec_seq(m) =~= a.subrange(prefix.len() as int + 1, a.len() as int));
    assert(dec_seq(n) =~= b.subrange(prefix.len() as int + 1, b.len() as int));
    lemma_dec_seq_injective(m, n);
}

} // verus!
