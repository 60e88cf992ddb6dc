//! Numbers written out in Nepali words: cardinals, ordinals, years and
//! currency amounts.
pub mod bigfloat;
pub mod currency;
pub mod error;
pub mod expansion;
pub mod lang;
pub mod number;
pub mod phrase;

pub use crate::currency::Currency;
pub use crate::error::Num2Err;
pub use crate::lang::Nepali;
pub use crate::number::{Decimal, Number};
