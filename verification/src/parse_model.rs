//! The mathematical model of decimal-text parsing.
//!
//! `spec_parse` states, over a sequence of characters, exactly which scaled
//! amount (or which error) the parser yields: an optional leading sign, a
//! left-to-right scan folding digits into a running value with overflow
//! detection, at most one decimal point, at most two fractional digits, and
//! zero-padding up to two fractional digits at the end.

use vstd::prelude::*;
use crate::error::MoneyError;

verus! {

/// The ten decimal digit characters.
pub open spec fn is_digit(c: char) -> bool {
    c == '0' || c == '1' || c == '2' || c == '3' || c == '4' || c == '5' || c == '6' || c == '7'
        || c == '8' || c == '9'
}

/// The numeric value of a decimal digit character.
pub open spec fn digit_value(c: char) -> int {
    if c == '0' {
        0
    } else if c == '1' {
        1
    } else if c == '2' {
        2
    } else if c == '3' {
        3
    } else if c == '4' {
        4
    } else if c == '5' {
        5
    } else if c == '6' {
        6
    } else if c == '7' {
        7
    } else if c == '8' {
        8
    } else {
        9
    }
}

/// The left-to-right scan over the characters after the sign.
///
/// `acc` is the running scaled value (always nonnegative), `seen_point`
/// records whether a decimal point has been read, and `fracs` counts the
/// digits read after it. On success the final running value and the
/// fractional-digit count come back; the first offending character decides
/// the error: a second point, a non-digit, or a third fractional digit is
/// malformed, and a fold step that would leave the signed 64-bit range
/// overflows.
pub open spec fn scan(s: Seq<char>, acc: int, seen_point: bool, fracs: int) -> Result<
    (int, int),
    MoneyError,
>
    decreases s.len(),
{
    if s.len() == 0 {
        Ok((acc, fracs))
    } else {
        let c = s[0];
        let rest = s.subrange(1, s.len() as int);
        if c == '.' {
            if seen_point {
                Err(MoneyError::MalformedInput)
            } else {
                scan(rest, acc, true, fracs)
            }
        } else if !is_digit(c) {
            Err(MoneyError::MalformedInput)
        } else if seen_point && fracs >= 2 {
            Err(MoneyError::MalformedInput)
        } else {
            let acc2 = acc * 10 + digit_value(c);
            if acc2 > i64::MAX {
                Err(MoneyError::Overflow)
            } else {
                scan(rest, acc2, seen_point, if seen_point { fracs + 1 } else { fracs })
            }
        }
    }
}

/// A sequence made of decimal digit characters only.
pub open spec fn digit_seq(ds: Seq<char>) -> bool {
    forall|i: int| 0 <= i < ds.len() ==> is_digit(ds[i])
}

/// The numeric value of a digit sequence read as a decimal numeral.
pub open spec fn seq_val(ds: Seq<char>) -> int
    decreases ds.len(),
{
    if ds.len() == 0 {
        0
    } else {
        seq_val(ds.drop_last()) * 10 + digit_value(ds.last())
    }
}

/// Ten to the power `k`.
pub open spec fn pow10(k: nat) -> int
    decreases k,
{
    if k == 0 {
        1
    } else {
        10 * pow10((k - 1) as nat)
    }
}

pub proof fn lemma_pow10_pos(k: nat)
    ensures
        pow10(k) >= 1,
    decreases k,
{
    if k > 0 {
        lemma_pow10_pos((k - 1) as nat);
    }
}

pub proof fn lemma_seq_val_nonneg(ds: Seq<char>)
    requires
        digit_seq(ds),
    ensures
        0 <= seq_val(ds),
    decreases ds.len(),
{
    if ds.len() > 0 {
        assert(digit_seq(ds.drop_last()));
        lemma_seq_val_nonneg(ds.drop_last());
        assert(is_digit(ds.last()));
    }
}

/// Scanning a run of digits before any decimal point folds their numeral
/// value into the running value, as long as the result stays representable.
pub proof fn lemma_scan_digit_prefix(ds: Seq<char>, t: Seq<char>, acc: int)
    requires
        digit_seq(ds),
        0 <= acc,
        acc * pow10(ds.len()) + seq_val(ds) <= i64::MAX,
    ensures
        scan(ds + t, acc, false, 0) == scan(t, acc * pow10(ds.len()) + seq_val(ds), false, 0),
    decreases ds.len(),
{
    if ds.len() == 0 {
        assert(ds + t =~= t);
    } else {
        let last = ds.last();
        let front = ds.drop_last();
        let t2 = seq![last] + t;
        assert(ds + t =~= front + t2);
        assert(digit_seq(front));
        assert(is_digit(last));
        lemma_seq_val_nonneg(front);
        lemma_pow10_pos(front.len());
        let p = pow10(front.len());
        let a2 = acc * p + seq_val(front);
        assert(pow10(ds.len()) == 10 * p);
        vstd::arithmetic::mul::lemma_mul_nonnegative(acc, p);
        assert(acc * (10 * p) == (acc * p) * 10) by {
            vstd::arithmetic::mul::lemma_mul_is_associative(acc, p, 10);
            vstd::arithmetic::mul::lemma_mul_is_commutative(p, 10);
            vstd::arithmetic::mul::lemma_mul_is_associative(acc, 10, p);
            vstd::arithmetic::mul::lemma_mul_is_commutative(acc, 10);
        }
        assert(a2 * 10 + digit_value(last) == acc * pow10(ds.len()) + seq_val(ds));
        assert(0 <= a2 && a2 <= a2 * 10 + digit_value(last));
        lemma_scan_digit_prefix(front, t2, acc);
        assert(t2.subrange(1, t2.len() as int) =~= t);
        assert(scan(t2, a2, false, 0) == scan(t, a2 * 10 + digit_value(last), false, 0));
    }
}

/// What parsing a whole character sequence yields: the scaled amount on
/// success, otherwise the error the first offending step reports.
pub open spec fn spec_parse(s: Seq<char>) -> Result<int, MoneyError> {
    if s.len() == 0 {
        Err(MoneyError::EmptyInput)
    } else {
        let neg = s[0] == '-';
        let body = if s[0] == '-' || s[0] == '+' {
            s.subrange(1, s.len() as int)
        } else {
            s
        };
        match scan(body, 0, false, 0) {
            Err(e) => Err(e),
            Ok((v, fracs)) => {
                let padded = if fracs == 0 {
                    v * 100
                } else if fracs == 1 {
                    v * 10
                } else {
                    v
                };
                if padded > i64::MAX {
                    Err(MoneyError::Overflow)
                } else if neg {
                    Ok(-padded)
                } else {
                    Ok(padded)
                }
            },
        }
    }
}

} // verus!
