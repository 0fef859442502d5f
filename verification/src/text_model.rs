//! The mathematical model of canonical rendering.
//!
//! `spec_to_text` states the exact character sequence a scaled amount renders
//! to: an optional minus sign, the decimal digits of the whole part of the
//! magnitude, a point, and exactly two fractional digits.

use vstd::prelude::*;

verus! {

/// The digit character for a value between 0 and 9.
pub open spec fn digit_char(d: int) -> char {
    if d == 0 {
        '0'
    } else if d == 1 {
        '1'
    } else if d == 2 {
        '2'
    } else if d == 3 {
        '3'
    } else if d == 4 {
        '4'
    } else if d == 5 {
        '5'
    } else if d == 6 {
        '6'
    } else if d == 7 {
        '7'
    } else if d == 8 {
        '8'
    } else {
        '9'
    }
}

/// The decimal digits of `n`, most significant first; empty for zero.
pub open spec fn dec_rep(n: nat) -> Seq<char>
    decreases n,
{
    if n == 0 {
        Seq::empty()
    } else {
        dec_rep(n / 10) + seq![digit_char(n as int % 10)]
    }
}

/// The decimal digits of `n`, most significant first; `"0"` for zero.
pub open spec fn dec_digits(n: nat) -> Seq<char> {
    if n == 0 {
        seq!['0']
    } else {
        dec_rep(n)
    }
}

/// The digit characters of a stack of digit values read from the top:
/// the last digit value first.
pub open spec fn rev_chars(ds: Seq<u8>) -> Seq<char> {
    Seq::new(ds.len(), |i: int| digit_char(ds[ds.len() - 1 - i] as int))
}

/// The magnitude of `v`.
pub open spec fn abs_val(v: int) -> int {
    if v < 0 {
        -v
    } else {
        v
    }
}

/// The canonical text of a scaled amount `v`: sign, whole part, point, and
/// exactly two fractional digits, the point and padding applied to the
/// magnitude so that the sign always precedes the whole part.
pub open spec fn spec_to_text(v: int) -> Seq<char> {
    let a = abs_val(v);
    let sign: Seq<char> = if v < 0 {
        seq!['-']
    } else {
        Seq::empty()
    };
    sign + dec_digits((a / 100) as nat) + seq!['.'] + seq![
        digit_char((a % 100) / 10),
        digit_char((a % 100) % 10),
    ]
}

} // verus!
