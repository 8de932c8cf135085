//! Typed errors reported to callers: dtype mismatches on mutation, and
//! unsupported operator/dtype combinations.

use vstd::prelude::*;
use crate::dtype::DataType;

verus! {

/// The operators that can be refused for a pair of dtypes.
#[derive(Clone, Copy, PartialEq, Eq, Structural, Debug)]
pub enum Operation {
    Eq,
    NotEq,
    Lt,
    LtEq,
    Gt,
    GtEq,
    Sub,
    Add,
    Mul,
    Div,
    Rem,
}

/// A recoverable failure surfaced to the caller.
#[derive(PartialEq, Eq, Debug)]
pub enum PolarsError {
    /// The operand's logical dtype differs from the receiver's.
    SchemaMismatch { expected: DataType, found: DataType },
    /// The operator is not defined for these two dtypes.
    InvalidOperation { op: Operation, left: DataType, right: DataType },
}

pub type PolarsResult<T> = Result<T, PolarsError>;

} // verus!
