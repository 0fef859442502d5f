//! A fixed-point decimal value type for monetary amounts.
//!
//! A `Money` wraps a signed 64-bit integer holding the amount scaled by 100
//! (minor units, e.g. cents). It offers construction from whole integers and
//! from decimal text, checked arithmetic, a total order, and canonical
//! rendering with exactly two fractional digits.

pub mod error;
pub mod money;
pub mod parse_model;
pub mod text_model;
pub mod laws;

pub use crate::error::MoneyError;
pub use crate::money::Money;
pub use crate::money::Ratio;
