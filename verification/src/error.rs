//! The recoverable failures of the builders.

use vstd::prelude::*;

verus! {

/// Why an operation was refused.
#[derive(Debug, PartialEq, Eq)]
pub enum ArrowError {
    /// An argument does not fit the builder: slices of different lengths, a
    /// value of the wrong width.
    InvalidArgumentError(String),
    /// A dictionary would need a key that its key type cannot hold.
    DictionaryKeyOverflowError,
}

} // verus!
