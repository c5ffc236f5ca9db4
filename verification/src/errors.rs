//! The typed errors of the crate.
//!
//! Parse failures were always reported as values; the arithmetic failures
//! (division by zero, a scalar leaving its range, the nesting-depth bound)
//! are reported as values too instead of aborting.

use vstd::prelude::*;

verus! {

/// Why an arithmetic operation or an evaluation could not produce a value.
#[derive(Debug, Clone, Copy, PartialEq, Eq)]
pub enum MathError {
    /// A division by a number with value zero was attempted.
    DivisionByZero,
    /// A numeric intermediate left the range of its machine type.
    Overflow,
    /// The nesting-depth bound of the operator dispatch was exhausted.
    DepthLimit,
    /// Evaluation reached a variable that no binding had replaced.
    UnboundVariable,
}

/// Error when creating a term from a string.
#[derive(Debug, Clone, Copy, PartialEq, Eq)]
pub enum TryFromStrError {
    /// An illegal character was encountered.
    UnexpectedCharacter(char),
    /// The end of input was reached while a literal, a bracket or an
    /// operator was still pending.
    UnexpectedEof,
    /// Folding the parsed terms together failed arithmetically.
    Arithmetic(MathError),
}

} // verus!
