//! The failure kinds that the money operations report.

use vstd::prelude::*;

verus! {

/// Why a money operation could not produce a value.
#[derive(Debug, Clone, Copy, PartialEq, Eq, Structural)]
pub enum MoneyError {
    /// A checked integer step left the signed 64-bit range.
    Overflow,
    /// Parsing was given a zero-length string.
    EmptyInput,
    /// Parsing met an invalid character, a second decimal point,
    /// or a third fractional digit.
    MalformedInput,
    /// Division where the divisor's scaled amount is zero.
    DivideByZero,
}

} // verus!
