//! The languages.
pub mod grouping;
pub mod laws;
pub mod lexicon;
pub mod np;
pub mod spelling;
pub mod wording;

pub use crate::lang::np::Nepali;
