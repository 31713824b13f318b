//! The errors that validation, registration and lookup report.

use vstd::prelude::*;

verus! {

/// Why an operation on reflection data was refused.
///
/// None of these is fatal: every operation that reports one leaves the
/// data it was given untouched, and the caller decides what to do next.
#[derive(Clone, Copy, Debug, PartialEq, Eq, Hash, Structural)]
pub enum MetaError {
    /// The type has no reflection data.
    NotRegistered,
    /// An integer tag lies outside the range of its enumeration.
    TagOutOfRange,
    /// A bitmask constant is not a single set bit, or a constant repeats a
    /// value where values have to be distinct.
    InvalidConstant,
    /// The type's lifecycle has no such step from the state it is in, or the
    /// description that is under way is of another kind than what is added
    /// to it.
    InvalidTransition,
}

} // verus!
