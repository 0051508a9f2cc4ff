//! Decimal text of post ids: the id written into a rendered answer, and the
//! id read back from the edit form.
use vstd::prelude::*;

use crate::text::{chars_of, string_from_chars};

verus! {

/// The ASCII digit for `d` (0 to 9).
pub open spec fn digit_char(d: nat) -> char {
    (d + 48) as char
}

pub open spec fn is_digit_char(c: char) -> bool {
    '0' <= c && c <= '9'
}

pub open spec fn digit_value(c: char) -> nat {
    (c as nat - 48) as nat
}

/// Decimal digits of `m`, without leading zeros ("0" for zero).
pub open spec fn digits_of(m: nat) -> Seq<char>
    decreases m,
{
    if m < 10 {
        seq![digit_char(m)]
    } else {
        digits_of(m / 10).push(digit_char(m % 10))
    }
}

/// Decimal text of `n`: a `-` before the digits of a negative number.
pub open spec fn decimal_text(n: int) -> Seq<char> {
    if n < 0 {
        seq!['-'] + digits_of((-n) as nat)
    } else {
        digits_of(n as nat)
    }
}

pub open spec fn all_digits(s: Seq<char>) -> bool {
    forall|k: int| 0 <= k < s.len() ==> is_digit_char(#[trigger] s[k])
}

/// The number that the digit string `s` stands for.
pub open spec fn digits_value(s: Seq<char>) -> nat
    decreases s.len(),
{
    if s.len() == 0 {
        0
    } else {
        digits_value(s.drop_last()) * 10 + digit_value(s.last())
    }
}

/// What the standard library's `i32` parsing gives for `s`: an optional `+`
/// or `-`, then one or more ASCII digits, and a value in the `i32` range.
pub open spec fn parse_i32_text(s: Seq<char>) -> Option<i32> {
    if s.len() == 0 {
        None
    } else {
        let neg = s[0] == '-';
        let ds = if s[0] == '-' || s[0] == '+' {
            s.drop_first()
        } else {
            s
        };
        let v: int = if neg {
            -digits_value(ds)
        } else {
            digits_value(ds) as int
        };
        if ds.len() == 0 || !all_digits(ds) {
            None
        } else if i32::MIN <= v <= i32::MAX {
            Some(v as i32)
        } else {
            None
        }
    }
}

pub(crate) fn push_digits(out: &mut Vec<char>, m: u64)
    ensures
        final(out)@ == old(out)@ + digits_of(m as nat),
    decreases m,
{
    if m >= 10 {
        push_digits(out, m / 10);
    }
    let d = (m % 10) as u8;
    out.push((d + 48) as char);
}

/// Decimal text of `n`, as `i32`'s `to_string` writes it.
pub fn int_to_decimal(n: i32) -> (r: String)
    ensures
        r@ == decimal_text(n as int),
{
    let mut out: Vec<char> = Vec::new();
    if n < 0 {
        out.push('-');
        let m: u64 = (-(n as i64)) as u64;
        push_digits(&mut out, m);
    } else {
        push_digits(&mut out, n as u64);
    }
    string_from_chars(out.as_slice())
}

/// The value of `v` capped at `cap`.
pub open spec fn capped(v: nat, cap: nat) -> nat {
    if v < cap {
        v
    } else {
        cap
    }
}

proof fn lemma_capped_step(v: nat, d: nat, cap: nat)
    requires
        cap > 0,
        d < 10,
    ensures
        capped(capped(v, cap) * 10 + d, cap) == capped(v * 10 + d, cap),
{
}

/// Parses a post id the way the standard library parses an `i32`; `None`
/// where that parse fails.
pub fn parse_post_id(text: &str) -> (r: Option<i32>)
    ensures
        r == parse_i32_text(text@),
{
    let t = chars_of(text);
    let n = t.len();
    if n == 0 {
        return None;
    }
    let neg = t[0] == '-';
    let start: usize = if t[0] == '-' || t[0] == '+' {
        1
    } else {
        0
    };
    let ghost ds = if t@[0] == '-' || t@[0] == '+' {
        t@.drop_first()
    } else {
        t@
    };
    assert(ds =~= t@.subrange(start as int, n as int));
    if start == n {
        return None;
    }
    let cap: u64 = 0x8000_0001;
    let mut acc: u64 = 0;
    let mut k = start;
    while k < n
        invariant
            start <= k <= n == t.len(),
            t@ == text@,
            n > 0,
            neg == (t@[0] == '-'),
            ds == (if t@[0] == '-' || t@[0] == '+' {
                t@.drop_first()
            } else {
                t@
            }),
            ds =~= t@.subrange(start as int, n as int),
            all_digits(t@.subrange(start as int, k as int)),
            acc == capped(digits_value(t@.subrange(start as int, k as int)), cap as nat),
            cap == 0x8000_0001,
        decreases n - k,
    {
        let c = t[k];
        if !('0' <= c && c <= '9') {
            assert(ds[k - start] == c);
            assert(!is_digit_char(ds[k - start]));
            assert(!all_digits(ds));
            return None;
        }
        let d = (c as u32 - 48) as u64;
        let ghost pre = t@.subrange(start as int, k as int);
        let ghost next = t@.subrange(start as int, k + 1);
        assert(next.drop_last() =~= pre);
        assert(next.last() == c);
        proof {
            lemma_capped_step(digits_value(pre), d as nat, cap as nat);
        }
        acc = if acc >= cap {
            cap
        } else {
            let v = acc * 10 + d;
            if v < cap {
                v
            } else {
                cap
            }
        };
        k = k + 1;
    }
    assert(t@.subrange(start as int, n as int) =~= ds);
    if neg {
        if acc <= 0x8000_0000 {
            Some((-(acc as i64)) as i32)
        } else {
            None
        }
    } else {
        if acc <= 0x7fff_ffff {
            Some(acc as i32)
        } else {
            None
        }
    }
}

proof fn lemma_digits_of_are_digits(m: nat)
    ensures
        all_digits(digits_of(m)),
        digits_of(m).len() > 0,
        digits_value(digits_of(m)) == m,
    decreases m,
{
    let d = m % 10;
    assert(digit_char(d) as nat == d + 48);
    assert(digit_value(digit_char(d)) == d);
    if m < 10 {
        assert(digits_of(m).drop_last() =~= Seq::<char>::empty());
        assert(digits_value(Seq::<char>::empty()) == 0);
        assert(digits_of(m).last() == digit_char(d));
        assert(digits_value(digits_of(m)) == d);
    } else {
        assert(m == (m / 10) * 10 + d);
        lemma_digits_of_are_digits(m / 10);
        let s = digits_of(m);
        assert(s.drop_last() =~= digits_of(m / 10));
        assert(s.last() == digit_char(d));
        assert(digits_value(s) == (m / 10) * 10 + d);
        assert forall|k: int| 0 <= k < s.len() implies is_digit_char(#[trigger] s[k]) by {
            if k < s.len() - 1 {
                assert(s[k] == digits_of(m / 10)[k]);
            }
        }
    }
}

/// An id written by `int_to_decimal` is read back unchanged by
/// `parse_post_id`.
pub proof fn law_decimal_round_trip(n: i32)
    ensures
        parse_i32_text(decimal_text(n as int)) == Some(n),
{
    let m: nat = if n < 0 {
        (-n) as nat
    } else {
        n as nat
    };
    lemma_digits_of_are_digits(m);
    let s = decimal_text(n as int);
    if n < 0 {
        assert(s.drop_first() =~= digits_of(m));
        assert(s[0] == '-');
    } else {
        assert(s[0] != '-' && s[0] != '+');
    }
}

proof fn lemma_digits_of_first(m: nat)
    ensures
        digits_of(m).len() > 0,
        digits_of(m)[0] == '0' <==> m == 0,
    decreases m,
{
    if m >= 10 {
        lemma_digits_of_first(m / 10);
        assert(digits_of(m)[0] == digits_of(m / 10)[0]);
    }
}

/// The decimal text of a number is its digits with no leading zero (just
/// "0" for zero), after a `-` where it is negative.
pub proof fn law_decimal_text_is_canonical(n: int)
    ensures
        n >= 0 ==> all_digits(decimal_text(n)) && digits_value(decimal_text(n)) == n,
        n >= 0 ==> (decimal_text(n)[0] == '0' <==> n == 0),
        n < 0 ==> decimal_text(n)[0] == '-' && all_digits(decimal_text(n).drop_first())
            && digits_value(decimal_text(n).drop_first()) == -n && decimal_text(n)[1] != '0',
{
    let m: nat = if n < 0 {
        (-n) as nat
    } else {
        n as nat
    };
    lemma_digits_of_are_digits(m);
    lemma_digits_of_first(m);
    if n < 0 {
        assert(decimal_text(n).drop_first() =~= digits_of(m));
        assert(decimal_text(n)[1] == digits_of(m)[0]);
    }
}

/// A leading `+` before the digits changes nothing.
pub proof fn law_parse_ignores_plus_sign(d: Seq<char>)
    requires
        d.len() > 0,
        is_digit_char(d[0]),
    ensures
        parse_i32_text(seq!['+'] + d) == parse_i32_text(d),
{
    assert((seq!['+'] + d).drop_first() =~= d);
}

} // verus!
