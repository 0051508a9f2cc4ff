//! The "as of" label of a post: the English month name and the year, as the
//! `%B %Y` date format writes them.
use vstd::prelude::*;

use crate::decimal::{all_digits, digits_of, digits_value, is_digit_char, push_digits};
use crate::text::{chars_of, string_from_chars};

verus! {

/// English name of month `m` (1 to 12).
pub open spec fn month_name(m: int) -> Seq<char> {
    if m == 1 {
        "January"@
    } else if m == 2 {
        "February"@
    } else if m == 3 {
        "March"@
    } else if m == 4 {
        "April"@
    } else if m == 5 {
        "May"@
    } else if m == 6 {
        "June"@
    } else if m == 7 {
        "July"@
    } else if m == 8 {
        "August"@
    } else if m == 9 {
        "September"@
    } else if m == 10 {
        "October"@
    } else if m == 11 {
        "November"@
    } else {
        "December"@
    }
}

/// Digits of `m`, zero-padded on the left to at least four characters.
pub open spec fn padded4(m: nat) -> Seq<char> {
    let d = digits_of(m);
    if d.len() < 4 {
        Seq::new((4 - d.len()) as nat, |k: int| '0') + d
    } else {
        d
    }
}

/// The year as `%Y` writes it: four digits at least, and a sign for years
/// outside 0 to 9999.
pub open spec fn year_text(y: int) -> Seq<char> {
    if 0 <= y <= 9999 {
        padded4(y as nat)
    } else if y < 0 {
        seq!['-'] + padded4((-y) as nat)
    } else {
        seq!['+'] + padded4(y as nat)
    }
}

/// The label "<Month> <year>".
pub open spec fn month_year_text(year: int, month: int) -> Seq<char> {
    month_name(month) + seq![' '] + year_text(year)
}

fn month_name_str(month: u32) -> (r: &'static str)
    requires
        1 <= month <= 12,
    ensures
        r@ == month_name(month as int),
{
    match month {
        1 => "January",
        2 => "February",
        3 => "March",
        4 => "April",
        5 => "May",
        6 => "June",
        7 => "July",
        8 => "August",
        9 => "September",
        10 => "October",
        11 => "November",
        _ => "December",
    }
}

fn push_padded4(out: &mut Vec<char>, m: u64)
    ensures
        final(out)@ == old(out)@ + padded4(m as nat),
{
    let mut digits: Vec<char> = Vec::new();
    push_digits(&mut digits, m);
    assert(digits@ =~= digits_of(m as nat));
    let mut pad = digits.len();
    let ghost base = out@;
    while pad < 4
        invariant
            digits@ == digits_of(m as nat),
            digits@.len() <= pad,
            pad <= 4 || pad == digits@.len(),
            out@ == base + Seq::new((pad - digits@.len()) as nat, |k: int| '0'),
        decreases 4 - pad,
    {
        out.push('0');
        pad = pad + 1;
        assert(out@ =~= base + Seq::new((pad - digits@.len()) as nat, |k: int| '0'));
    }
    let ghost mid = out@;
    let mut k: usize = 0;
    while k < digits.len()
        invariant
            k <= digits.len(),
            out@ == mid + digits@.subrange(0, k as int),
        decreases digits.len() - k,
    {
        out.push(digits[k]);
        k = k + 1;
        assert(out@ =~= mid + digits@.subrange(0, k as int));
    }
    assert(digits@.subrange(0, digits@.len() as int) =~= digits@);
    if digits.len() < 4 {
        assert(out@ =~= base + padded4(m as nat));
    } else {
        assert(Seq::new((pad - digits@.len()) as nat, |k: int| '0') =~= Seq::<char>::empty());
        assert(out@ =~= base + padded4(m as nat));
    }
}

/// The "as of" label for a post written in `month` (1 to 12) of `year`,
/// such as "March 2017".
pub fn month_year_label(year: i32, month: u32) -> (r: String)
    requires
        1 <= month <= 12,
    ensures
        r@ == month_year_text(year as int, month as int),
{
    let mut out = chars_of(month_name_str(month));
    out.push(' ');
    let ghost head = out@;
    if 0 <= year && year <= 9999 {
        push_padded4(&mut out, year as u64);
    } else if year < 0 {
        out.push('-');
        push_padded4(&mut out, (-(year as i64)) as u64);
    } else {
        out.push('+');
        push_padded4(&mut out, year as u64);
    }
    assert(out@ =~= head + year_text(year as int));
    string_from_chars(out.as_slice())
}

spec fn ten_to(k: nat) -> nat
    decreases k,
{
    if k == 0 {
        1
    } else {
        10 * ten_to((k - 1) as nat)
    }
}

proof fn lemma_digits_of_len(m: nat, k: nat)
    requires
        k >= 1,
        m < ten_to(k),
    ensures
        digits_of(m).len() <= k,
    decreases k,
{
    if m >= 10 {
        if k == 1 {
            assert(ten_to(1) == 10 * ten_to(0));
        } else {
            let p = ten_to((k - 1) as nat);
            assert(m < 10 * p);
            assert(m / 10 < p);
            lemma_digits_of_len(m / 10, (k - 1) as nat);
        }
    }
}

proof fn lemma_zeros_value(k: nat)
    ensures
        digits_value(Seq::new(k, |i: int| '0')) == 0,
        all_digits(Seq::new(k, |i: int| '0')),
    decreases k,
{
    if k > 0 {
        lemma_zeros_value((k - 1) as nat);
        assert(Seq::new(k, |i: int| '0').drop_last() =~= Seq::new((k - 1) as nat, |i: int| '0'));
    }
}

proof fn lemma_value_after_zero_prefix(a: Seq<char>, d: Seq<char>)
    requires
        digits_value(a) == 0,
    ensures
        digits_value(a + d) == digits_value(d),
    decreases d.len(),
{
    if d.len() == 0 {
        assert(a + d =~= a);
    } else {
        lemma_value_after_zero_prefix(a, d.drop_last());
        assert((a + d).drop_last() =~= a + d.drop_last());
        assert((a + d).last() == d.last());
    }
}

/// A year from 0 to 9999 is written as exactly four digits whose value is
/// the year.
pub proof fn law_year_text_four_digits(y: int)
    requires
        0 <= y <= 9999,
    ensures
        year_text(y).len() == 4,
        all_digits(year_text(y)),
        digits_value(year_text(y)) == y,
{
    let m = y as nat;
    crate::decimal::law_decimal_text_is_canonical(y);
    assert(ten_to(4) == 10000) by {
        reveal_with_fuel(ten_to, 5);
    }
    lemma_digits_of_len(m, 4);
    let d = digits_of(m);
    assert(crate::decimal::decimal_text(y) == d);
    if d.len() < 4 {
        let z = Seq::new((4 - d.len()) as nat, |i: int| '0');
        lemma_zeros_value((4 - d.len()) as nat);
        lemma_value_after_zero_prefix(z, d);
        assert forall|k: int| 0 <= k < (z + d).len() implies is_digit_char(#[trigger] (z + d)[k]) by {
            if k >= z.len() {
                assert((z + d)[k] == d[k - z.len()]);
            }
        }
    }
}

} // verus!
