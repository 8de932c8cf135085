//! Logical data types of columns, and the `(name, dtype)` field pair.

use vstd::prelude::*;

verus! {

/// Resolution of a temporal value's physical 64-bit integer representation.
#[derive(Clone, Copy, PartialEq, Eq, Structural, Debug)]
pub enum TimeUnit {
    Nanoseconds,
    Microseconds,
    Milliseconds,
}

/// The logical type of a column. Nested dtypes carry the dtypes of what they
/// contain; a logical-over-physical dtype (datetime, duration) carries its
/// metadata.
#[derive(PartialEq, Eq, Debug)]
pub enum DataType {
    Int32,
    Int64,
    Boolean,
    String,
    Binary,
    Null,
    List(Box<DataType>),
    Array(Box<DataType>, usize),
    Struct(Vec<Field>),
    Datetime(TimeUnit, Option<String>),
    Duration(TimeUnit),
}

/// A `(name, dtype)` pair, fixed for the lifetime of a column.
#[derive(PartialEq, Eq, Debug)]
pub struct Field {
    pub name: String,
    pub dtype: DataType,
}

impl Field {
    pub fn new(name: String, dtype: DataType) -> (r: Field)
        ensures
            r.name == name,
            r.dtype == dtype,
    {
        Field { name, dtype }
    }
}

} // verus!
