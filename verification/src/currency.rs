//! Currency selectors.
use vstd::prelude::*;

verus! {

/// The currency an amount is given in.
#[derive(Clone, Copy, Debug, PartialEq, Eq, Structural)]
pub enum Currency {
    /// Nepalese rupee
    NPR,
    /// Indian rupee
    INR,
    /// US dollar
    USD,
    /// Euro
    EUR,
    /// Pound sterling
    GBP,
}

} // verus!
