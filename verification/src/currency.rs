//! Rendering of monetary values. A value is held in cents and rendered as
//! dollars with exactly two fractional digits.

use vstd::prelude::*;
use vstd::string::*;

verus! {

/// The character depicting a digit value.
pub open spec fn digit_char(d: nat) -> char {
    if d == 0 {
        '0'
    } else if d == 1 {
        '1'
    } else if d == 2 {
        '2'
    } else if d == 3 {
        '3'
    } else if d == 4 {
        '4'
    } else if d == 5 {
        '5'
    } else if d == 6 {
        '6'
    } else if d == 7 {
        '7'
    } else if d == 8 {
        '8'
    } else {
        '9'
    }
}

/// The decimal numeral of `n`, most significant digit first, no leading
/// zeros (a single `0` for zero itself).
pub open spec fn dec_str(n: nat) -> Seq<char>
    decreases n,
{
    if n < 10 {
        seq![digit_char(n)]
    } else {
        dec_str(n / 10) + seq![digit_char(n % 10)]
    }
}

/// A cents value rendered as dollars and cents: the whole dollars, a point,
/// and exactly two fractional digits.
pub open spec fn cents_str(c: nat) -> Seq<char> {
    dec_str(c / 100) + seq!['.', digit_char((c / 10) % 10), digit_char(c % 10)]
}

/// Appends the single character depicting `d`.
fn push_digit(out: &mut String, d: u64)
    requires
        d < 10,
    ensures
        final(out)@ == old(out)@ + seq![digit_char(d as nat)],
{
    let s: &str = if d == 0 {
        "0"
    } else if d == 1 {
        "1"
    } else if d == 2 {
        "2"
    } else if d == 3 {
        "3"
    } else if d == 4 {
        "4"
    } else if d == 5 {
        "5"
    } else if d == 6 {
        "6"
    } else if d == 7 {
        "7"
    } else if d == 8 {
        "8"
    } else {
        "9"
    };
    proof {
        reveal_strlit("0");
        reveal_strlit("1");
        reveal_strlit("2");
        reveal_strlit("3");
        reveal_strlit("4");
        reveal_strlit("5");
        reveal_strlit("6");
        reveal_strlit("7");
        reveal_strlit("8");
        reveal_strlit("9");
        assert(s@ =~= seq![digit_char(d as nat)]);
    }
    out.append(s);
}

/// Renders `n` as its decimal numeral.
pub fn format_u64(n: u64) -> (r: String)
    ensures
        r@ == dec_str(n as nat),
    decreases n,
{
    if n < 10 {
        let mut s = String::new();
        push_digit(&mut s, n);
        proof {
            assert(s@ =~= dec_str(n as nat));
        }
        s
    } else {
        let mut s = format_u64(n / 10);
        push_digit(&mut s, n % 10);
        s
    }
}

/// Renders a cents value as dollars with two fractional digits.
pub fn format_cents(c: u64) -> (r: String)
    ensures
        r@ == cents_str(c as nat),
{
    let mut s = format_u64(c / 100);
    proof {
        reveal_strlit(".");
        assert("."@ =~= seq!['.']);
    }
    s.append(".");
    push_digit(&mut s, (c / 10) % 10);
    push_digit(&mut s, c % 10);
    proof {
        assert(s@ =~= cents_str(c as nat));
    }
    s
}

} // verus!
