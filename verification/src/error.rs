//! Why a draw can fail.

use vstd::prelude::*;

verus! {

/// The two ways in which drawing a word fails. Neither is retried: the
/// caller of the failing draw gets the error at once, and the tokens that the
/// builder already holds stay as they are.
#[derive(Clone, Copy, Debug, PartialEq, Eq, Structural)]
pub enum FluentError {
    /// The word store cannot be opened or cannot be read.
    StoreUnavailable,
    /// The store holds no word of the category with a length in the range.
    NoMatchingWord,
}

} // verus!
