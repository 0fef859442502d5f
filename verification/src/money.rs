//! The `Money` value type and its operations.

use vstd::prelude::*;
use vstd::string::StrSliceExecFns;
use crate::error::MoneyError;
use crate::parse_model::{digit_value, is_digit, scan, spec_parse};
use crate::text_model::{abs_val, dec_digits, dec_rep, digit_char, rev_chars, spec_to_text};
use vstd::string::StringExecFns;

verus! {

/// The one-character string for a decimal digit value.
fn digit_str(d: u8) -> (r: &'static str)
    requires
        d < 10,
    ensures
        r@ =~= seq![digit_char(d as int)],
{
    proof {
        reveal_strlit("0");
        reveal_strlit("1");
        reveal_strlit("2");
        reveal_strlit("3");
        reveal_strlit("4");
        reveal_strlit("5");
        reveal_strlit("6");
        reveal_strlit("7");
        reveal_strlit("8");
        reveal_strlit("9");
    }
    match d {
        0 => "0",
        1 => "1",
        2 => "2",
        3 => "3",
        4 => "4",
        5 => "5",
        6 => "6",
        7 => "7",
        8 => "8",
        _ => "9",
    }
}

/// The numeric value of a decimal digit character, or `None` for any other
/// character.
fn digit_of(c: char) -> (r: Option<u8>)
    ensures
        r is Some <==> is_digit(c),
        r matches Some(d) ==> d < 10 && d == digit_value(c),
{
    match c {
        '0' => Some(0),
        '1' => Some(1),
        '2' => Some(2),
        '3' => Some(3),
        '4' => Some(4),
        '5' => Some(5),
        '6' => Some(6),
        '7' => Some(7),
        '8' => Some(8),
        '9' => Some(9),
        _ => None,
    }
}

/// A monetary amount held as a signed 64-bit integer scaled by 100, so the
/// integer counts minor units (hundredths). Any representable integer is a
/// valid amount; the view of a `Money` is that scaled integer.
#[derive(Debug, Clone, Copy, PartialEq, Eq, Structural)]
pub struct Money {
    amount: i64,
}

/// The exact quotient of two money values: the two scaled amounts, kept as a
/// fraction. Both operands carry the same scale, so the fraction equals the
/// ratio of the two real monetary values. The denominator is never zero.
#[derive(Debug, Clone, Copy, PartialEq, Eq, Structural)]
pub struct Ratio {
    pub numerator: i64,
    pub denominator: i64,
}

impl View for Money {
    type V = int;

    closed spec fn view(&self) -> int {
        self.amount as int
    }
}

impl Money {
    /// Builds a money value from a whole-unit amount, scaling it by 100 with
    /// a checked multiplication.
    pub fn new_from_int(amount: i64) -> (r: Result<Money, MoneyError>)
        ensures
            match r {
                Ok(m) => i64::MIN <= amount * 100 <= i64::MAX && m@ == amount * 100,
                Err(e) => !(i64::MIN <= amount * 100 <= i64::MAX) && e == MoneyError::Overflow,
            },
    {
        if let Some(scaled) = amount.checked_mul(100) {
            Ok(Money { amount: scaled })
        } else {
            Err(MoneyError::Overflow)
        }
    }

    /// Parses decimal text into a money value: an optional leading sign,
    /// digits, at most one decimal point, and at most two fractional digits;
    /// shorter fractional parts are padded with zeros. The result is exactly
    /// what `spec_parse` states for the character sequence.
    pub fn from_str(s: &str) -> (r: Result<Money, MoneyError>)
        ensures
            match spec_parse(s@) {
                Ok(v) => r matches Ok(m) && m@ == v,
                Err(e) => r matches Err(e2) && e2 == e,
            },
    {
        let n = s.unicode_len();
        if n == 0 {
            return Err(MoneyError::EmptyInput);
        }
        let first = s.get_char(0);
        let is_negative = first == '-';
        let start: usize = if first == '-' || first == '+' {
            1
        } else {
            0
        };
        let ghost body: Seq<char> = s@.subrange(start as int, n as int);
        proof {
            if start == 0 {
                assert(body =~= s@);
            }
        }

        let mut amount: i64 = 0;
        let mut seen_point = false;
        let mut fracs: u8 = 0;
        let mut i: usize = start;
        while i < n
            invariant
                start <= i <= n,
                n == s@.len(),
                s@.len() > 0,
                body == if s@[0] == '-' || s@[0] == '+' {
                    s@.subrange(1, n as int)
                } else {
                    s@
                },
                is_negative == (s@[0] == '-'),
                0 <= amount,
                fracs <= 2,
                !seen_point ==> fracs == 0,
                scan(body, 0, false, 0) == scan(
                    s@.subrange(i as int, n as int),
                    amount as int,
                    seen_point,
                    fracs as int,
                ),
            decreases n - i,
        {
            let ghost remaining = s@.subrange(i as int, n as int);
            proof {
                assert(remaining.subrange(1, remaining.len() as int) =~= s@.subrange(
                    i + 1,
                    n as int,
                ));
            }
            let c = s.get_char(i);
            if c == '.' {
                if seen_point {
                    return Err(MoneyError::MalformedInput);
                }
                seen_point = true;
            } else {
                let d = match digit_of(c) {
                    Some(d) => d,
                    None => {
                        return Err(MoneyError::MalformedInput);
                    },
                };
                if seen_point {
                    if fracs >= 2 {
                        return Err(MoneyError::MalformedInput);
                    }
                    fracs = fracs + 1;
                }
                let shifted = match amount.checked_mul(10) {
                    Some(v) => v,
                    None => {
                        return Err(MoneyError::Overflow);
                    },
                };
                amount = match shifted.checked_add(d as i64) {
                    Some(v) => v,
                    None => {
                        return Err(MoneyError::Overflow);
                    },
                };
            }
            i = i + 1;
        }
        proof {
            assert(s@.subrange(n as int, n as int) =~= Seq::<char>::empty());
        }

        let padded = if fracs == 0 {
            amount.checked_mul(100)
        } else if fracs == 1 {
            amount.checked_mul(10)
        } else {
            Some(amount)
        };
        match padded {
            None => Err(MoneyError::Overflow),
            Some(v) => {
                let signed = if is_negative {
                    -v
                } else {
                    v
                };
                Ok(Money { amount: signed })
            },
        }
    }

    /// Renders the scaled amount as decimal text with exactly two fractional
    /// digits: the sign, the whole part of the magnitude, a point, and the
    /// two remaining digits, zero-padded.
    pub fn to_text(&self) -> (r: String)
        ensures
            r@ == spec_to_text(self@),
    {
        let is_negative = self.amount < 0;
        let wide: i128 = self.amount as i128;
        let mag: u64 = if is_negative {
            (-wide) as u64
        } else {
            self.amount as u64
        };
        assert(mag == abs_val(self@));
        let frac: u64 = mag % 100;
        let whole: u64 = mag / 100;

        // The digits of the whole part, least significant first.
        let mut ds: Vec<u8> = Vec::new();
        let mut x: u64 = whole;
        while x > 0
            invariant
                dec_rep(whole as nat) == dec_rep(x as nat) + rev_chars(ds@),
                forall|k: int| 0 <= k < ds@.len() ==> ds@[k] < 10,
            decreases x,
        {
            let d: u8 = (x % 10) as u8;
            let ghost old_ds = ds@;
            ds.push(d);
            proof {
                assert(rev_chars(ds@) =~= seq![digit_char(d as int)] + rev_chars(old_ds));
                assert((dec_rep((x / 10) as nat) + seq![digit_char(d as int)]) + rev_chars(old_ds)
                    =~= dec_rep((x / 10) as nat) + (seq![digit_char(d as int)] + rev_chars(
                    old_ds,
                )));
            }
            x = x / 10;
        }
        assert(dec_rep(whole as nat) == rev_chars(ds@));
        assert(ds@.len() == 0 ==> dec_digits(whole as nat) == seq!['0']);

        let ghost sign: Seq<char> = if is_negative {
            seq!['-']
        } else {
            Seq::empty()
        };
        let mut out = String::new();
        if is_negative {
            proof {
                reveal_strlit("-");
            }
            out.append("-");
        }
        assert(out@ =~= sign);
        if ds.len() == 0 {
            out.append(digit_str(0));
        } else {
            let mut j: usize = ds.len();
            while j > 0
                invariant
                    j <= ds@.len(),
                    forall|k: int| 0 <= k < ds@.len() ==> ds@[k] < 10,
                    out@ == sign + rev_chars(ds@).subrange(0, ds@.len() - j),
                decreases j,
            {
                j = j - 1;
                out.append(digit_str(ds[j]));
                proof {
                    assert(out@ =~= sign + rev_chars(ds@).subrange(0, ds@.len() - j));
                }
            }
            proof {
                assert(rev_chars(ds@).subrange(0, ds@.len() as int) =~= rev_chars(ds@));
            }
        }
        assert(out@ == sign + dec_digits(whole as nat));

        proof {
            reveal_strlit(".");
        }
        out.append(".");
        out.append(digit_str((frac / 10) as u8));
        out.append(digit_str((frac % 10) as u8));
        proof {
            assert(out@ =~= spec_to_text(self@));
        }
        out
    }

    /// Adds two money values with a checked addition of the scaled amounts.
    pub fn add(&self, rhs: &Money) -> (r: Result<Money, MoneyError>)
        ensures
            match r {
                Ok(m) => i64::MIN <= self@ + rhs@ <= i64::MAX && m@ == self@ + rhs@,
                Err(e) => !(i64::MIN <= self@ + rhs@ <= i64::MAX) && e == MoneyError::Overflow,
            },
    {
        if let Some(amount) = self.amount.checked_add(rhs.amount) {
            Ok(Money { amount })
        } else {
            Err(MoneyError::Overflow)
        }
    }

    /// Adds a raw scaled amount (minor units, not whole units) with a checked
    /// addition.
    pub fn add_scaled(&self, rhs: i64) -> (r: Result<Money, MoneyError>)
        ensures
            match r {
                Ok(m) => i64::MIN <= self@ + rhs <= i64::MAX && m@ == self@ + rhs,
                Err(e) => !(i64::MIN <= self@ + rhs <= i64::MAX) && e == MoneyError::Overflow,
            },
    {
        if let Some(amount) = self.amount.checked_add(rhs) {
            Ok(Money { amount })
        } else {
            Err(MoneyError::Overflow)
        }
    }

    /// Subtracts a money value with a checked subtraction of the scaled
    /// amounts.
    pub fn sub(&self, rhs: &Money) -> (r: Result<Money, MoneyError>)
        ensures
            match r {
                Ok(m) => i64::MIN <= self@ - rhs@ <= i64::MAX && m@ == self@ - rhs@,
                Err(e) => !(i64::MIN <= self@ - rhs@ <= i64::MAX) && e == MoneyError::Overflow,
            },
    {
        if let Some(amount) = self.amount.checked_sub(rhs.amount) {
            Ok(Money { amount })
        } else {
            Err(MoneyError::Overflow)
        }
    }

    /// Multiplies the two scaled amounts with a checked multiplication.
    ///
    /// This is a literal product of the internal representations, not a
    /// unit-correct monetary product: both operands already carry the scale,
    /// so the result does not stand for an amount times an amount in any
    /// dimensional sense. The operation is kept as the type has always
    /// offered it.
    pub fn mul(&self, rhs: &Money) -> (r: Result<Money, MoneyError>)
        ensures
            match r {
                Ok(m) => i64::MIN <= self@ * rhs@ <= i64::MAX && m@ == self@ * rhs@,
                Err(e) => !(i64::MIN <= self@ * rhs@ <= i64::MAX) && e == MoneyError::Overflow,
            },
    {
        if let Some(amount) = self.amount.checked_mul(rhs.amount) {
            Ok(Money { amount })
        } else {
            Err(MoneyError::Overflow)
        }
    }

    /// Divides one money value by another, yielding the exact ratio of the
    /// two scaled amounts (a dimensionless factor, not a money value).
    /// Fails when the divisor's scaled amount is zero.
    pub fn div(&self, rhs: &Money) -> (r: Result<Ratio, MoneyError>)
        ensures
            match r {
                Ok(q) => rhs@ != 0 && q.numerator == self@ && q.denominator == rhs@,
                Err(e) => rhs@ == 0 && e == MoneyError::DivideByZero,
            },
    {
        if rhs.amount == 0 {
            Err(MoneyError::DivideByZero)
        } else {
            Ok(Ratio { numerator: self.amount, denominator: rhs.amount })
        }
    }
}

/// Equality on money values is exact equality of the scaled amounts: two
/// money values are equal exactly when they stand for the same monetary
/// value, with no tolerance involved.
pub proof fn lemma_eq_is_value_eq(a: Money, b: Money)
    ensures
        a == b <==> a@ == b@,
{
}

impl PartialOrd for Money {
    fn partial_cmp(&self, other: &Money) -> Option<core::cmp::Ordering> {
        if self.amount < other.amount {
            Some(core::cmp::Ordering::Less)
        } else if self.amount == other.amount {
            Some(core::cmp::Ordering::Equal)
        } else {
            Some(core::cmp::Ordering::Greater)
        }
    }
}

impl vstd::std_specs::cmp::PartialOrdSpecImpl for Money {
    open spec fn obeys_partial_cmp_spec() -> bool {
        true
    }

    open spec fn partial_cmp_spec(&self, other: &Money) -> Option<core::cmp::Ordering> {
        if self@ < other@ {
            Some(core::cmp::Ordering::Less)
        } else if self@ == other@ {
            Some(core::cmp::Ordering::Equal)
        } else {
            Some(core::cmp::Ordering::Greater)
        }
    }
}

} // verus!
