//! The physical dispatch layer: a closed sum over the supported column
//! kinds, with a uniform comparison interface. A comparison of two series
//! of one dtype delegates to that kind's typed engine; mismatched dtypes
//! are a typed error — except two struct columns, which are always
//! comparable ("incomparable structs are unequal", never an error).

use vstd::prelude::*;
use crate::chunked::{BinaryChunked, BooleanChunked, ChunkedArray, Int32Chunked, Int64Chunked};
use crate::compare::{sp_bat, sp_bidx, sp_broadcastable, sp_opt_eq, sp_strict_eq, sp_strict_ord};
use crate::datetime::{DatetimeChunked, DurationChunked};
use crate::dtype::DataType;
use crate::element::EqElement;
use crate::error::{Operation, PolarsError, PolarsResult};
use crate::nested::{ArrayChunked, ListChunked};
use crate::null::{sp_null_broadcast_len, NullChunked};
use crate::string::StringChunked;
use crate::structs::{sp_struct_cmp, struct_helper, StructChunked};

verus! {

/// One column of any supported kind, behind a single handle.
pub enum Series {
    Int32(Int32Chunked),
    Int64(Int64Chunked),
    Boolean(BooleanChunked),
    Str(StringChunked),
    Binary(BinaryChunked),
    Null(NullChunked),
    List(ListChunked),
    Array(ArrayChunked<i32>),
    Struct(StructChunked),
    Datetime(DatetimeChunked),
    Duration(DurationChunked),
}

/// Well-formedness of a non-struct series: its column's cached dimensions
/// are right. A struct series is never accepted here.
pub open spec fn sp_flat_wf(s: Series) -> bool {
    match s {
        Series::Int32(x) => x.wf(),
        Series::Int64(x) => x.wf(),
        Series::Boolean(x) => x.wf(),
        Series::Str(x) => x.wf(),
        Series::Binary(x) => x.wf(),
        Series::Null(_) => true,
        Series::List(x) => x.wf(),
        Series::Array(x) => x.wf(),
        Series::Struct(_) => false,
        Series::Datetime(x) => x.wf(),
        Series::Duration(x) => x.wf(),
    }
}

/// Well-formedness of any series.
pub open spec fn sp_series_wf(s: Series) -> bool {
    if s is Struct {
        s->Struct_0.wf()
    } else {
        sp_flat_wf(s)
    }
}

/// The logical length of a series.
pub open spec fn sp_series_len(s: Series) -> nat {
    match s {
        Series::Int32(x) => x@.len(),
        Series::Int64(x) => x@.len(),
        Series::Boolean(x) => x@.len(),
        Series::Str(x) => x@.len(),
        Series::Binary(x) => x@.len(),
        Series::Null(x) => x.sp_len(),
        Series::List(x) => x@.len(),
        Series::Array(x) => x@.len(),
        Series::Struct(x) => x.sp_len(),
        Series::Datetime(x) => x.sp_phys().len(),
        Series::Duration(x) => x.sp_phys().len(),
    }
}

/// Missing-aware equality of the cell at `i` of one non-struct series with
/// the cell at `j` of another of the same kind: missing equals missing and
/// nothing else, and two all-null cells are always equal.
pub open spec fn sp_series_eqm_cell(a: Series, b: Series, i: int, j: int) -> bool {
    match (a, b) {
        (Series::Int32(x), Series::Int32(y)) => sp_opt_eq::<i32>(x@[i], y@[j]),
        (Series::Int64(x), Series::Int64(y)) => sp_opt_eq::<i64>(x@[i], y@[j]),
        (Series::Boolean(x), Series::Boolean(y)) => sp_opt_eq::<bool>(x@[i], y@[j]),
        (Series::Str(x), Series::Str(y)) => sp_opt_eq::<Vec<u8>>(x@[i], y@[j]),
        (Series::Binary(x), Series::Binary(y)) => sp_opt_eq::<Vec<u8>>(x@[i], y@[j]),
        (Series::Null(_), Series::Null(_)) => true,
        (Series::List(x), Series::List(y)) => sp_opt_eq::<Vec<Option<i32>>>(x@[i], y@[j]),
        (Series::Array(x), Series::Array(y)) => sp_opt_eq::<Vec<Option<i32>>>(x@[i], y@[j]),
        (Series::Datetime(x), Series::Datetime(y)) => sp_opt_eq::<i64>(
            x.sp_phys()[i],
            y.sp_phys()[j],
        ),
        (Series::Duration(x), Series::Duration(y)) => sp_opt_eq::<i64>(
            x.sp_phys()[i],
            y.sp_phys()[j],
        ),
        _ => false,
    }
}

/// Whether the cell at `i` of a non-struct series holds a value.
pub open spec fn sp_series_cell_present(s: Series, i: int) -> bool {
    match s {
        Series::Int32(x) => x@[i] is Some,
        Series::Int64(x) => x@[i] is Some,
        Series::Boolean(x) => x@[i] is Some,
        Series::Str(x) => x@[i] is Some,
        Series::Binary(x) => x@[i] is Some,
        Series::Null(_) => false,
        Series::List(x) => x@[i] is Some,
        Series::Array(x) => x@[i] is Some,
        Series::Struct(x) => x.sp_validity()[i],
        Series::Datetime(x) => x.sp_phys()[i] is Some,
        Series::Duration(x) => x.sp_phys()[i] is Some,
    }
}

/// Two non-struct series have one dtype, so their cells are comparable.
pub open spec fn sp_flat_same_dtype(a: Series, b: Series) -> bool {
    match (a, b) {
        (Series::Int32(_), Series::Int32(_)) => true,
        (Series::Int64(_), Series::Int64(_)) => true,
        (Series::Boolean(_), Series::Boolean(_)) => true,
        (Series::Str(_), Series::Str(_)) => true,
        (Series::Binary(_), Series::Binary(_)) => true,
        (Series::Null(_), Series::Null(_)) => true,
        (Series::List(_), Series::List(_)) => true,
        (Series::Array(_), Series::Array(_)) => true,
        (Series::Datetime(x), Series::Datetime(y)) => x.sp_time_unit() == y.sp_time_unit()
            && x.sp_time_zone() == y.sp_time_zone(),
        (Series::Duration(x), Series::Duration(y)) => x.sp_time_unit() == y.sp_time_unit(),
        _ => false,
    }
}

/// What the equality families accept: one dtype, or any two structs.
pub open spec fn sp_series_comparable_eq(a: Series, b: Series) -> bool {
    if a is Struct && b is Struct {
        true
    } else {
        sp_flat_same_dtype(a, b)
    }
}

/// What the ordering families accept: one non-nested, non-null-incomparable
/// dtype.
pub open spec fn sp_series_comparable_ord(a: Series, b: Series) -> bool {
    match (a, b) {
        (Series::List(_), Series::List(_)) => false,
        (Series::Array(_), Series::Array(_)) => false,
        _ => sp_flat_same_dtype(a, b),
    }
}

/// The precondition of a comparison: when the two operands can reach a
/// kernel, their lengths must be broadcastable, and two struct columns of
/// equal arity must have fields of pairwise equal dtypes.
pub open spec fn sp_series_cmp_req(a: Series, b: Series) -> bool {
    if a is Struct && b is Struct {
        crate::structs::sp_struct_req(a->Struct_0, b->Struct_0)
    } else if sp_flat_same_dtype(a, b) {
        sp_broadcastable(sp_series_len(a), sp_series_len(b))
    } else {
        true
    }
}

/// The result cells of a missing-aware equality of two non-struct series.
pub open spec fn sp_series_eqm_out(a: Series, b: Series, neg: bool) -> Seq<Option<bool>> {
    Seq::new(
        sp_series_out_len(a, b),
        |i: int|
            Some(
                neg != sp_series_eqm_cell(
                    a,
                    b,
                    sp_bidx(sp_series_len(a), i),
                    sp_bidx(sp_series_len(b), i),
                ),
            ),
    )
}

/// The broadcast length of a comparison of two series.
pub open spec fn sp_series_out_len(a: Series, b: Series) -> nat {
    if sp_series_len(a) == 1 {
        sp_series_len(b)
    } else {
        sp_series_len(a)
    }
}

/// The dtype of a non-struct series, for error payloads and schemas.
pub(crate) fn flat_series_dtype(s: &Series) -> (d: DataType)
    requires
        !(*s is Struct),
    ensures
        s is Int32 ==> d == DataType::Int32,
        s is Int64 ==> d == DataType::Int64,
        s is Boolean ==> d == DataType::Boolean,
        s is Str ==> d == DataType::String,
        s is Binary ==> d == DataType::Binary,
        s is Null ==> d == DataType::Null,
{
    match s {
        Series::Int32(_) => DataType::Int32,
        Series::Int64(_) => DataType::Int64,
        Series::Boolean(_) => DataType::Boolean,
        Series::Str(_) => DataType::String,
        Series::Binary(_) => DataType::Binary,
        Series::Null(_) => DataType::Null,
        Series::List(_) => DataType::List(Box::new(DataType::Int32)),
        Series::Array(x) => DataType::Array(Box::new(DataType::Int32), x.width_of()),
        Series::Datetime(x) => x.dtype(),
        Series::Duration(x) => x.dtype(),
        Series::Struct(_) => vstd::pervasive::unreached(),
    }
}

/// The dtypes an operator error reports; only for error payloads.
fn series_dtype(s: &Series) -> (d: DataType)
    requires
        sp_series_wf(*s),
    ensures
        s is Int32 ==> d == DataType::Int32,
        s is Int64 ==> d == DataType::Int64,
        s is Boolean ==> d == DataType::Boolean,
        s is Str ==> d == DataType::String,
        s is Binary ==> d == DataType::Binary,
        s is Null ==> d == DataType::Null,
        s is List ==> d == DataType::List(Box::new(DataType::Int32)),
        s is Array ==> d is Array,
        s is Struct ==> d is Struct,
        s is Datetime ==> d is Datetime,
        s is Duration ==> d is Duration,
{
    match s {
        Series::Int32(_) => DataType::Int32,
        Series::Int64(_) => DataType::Int64,
        Series::Boolean(_) => DataType::Boolean,
        Series::Str(_) => DataType::String,
        Series::Binary(_) => DataType::Binary,
        Series::Null(_) => DataType::Null,
        Series::List(_) => DataType::List(Box::new(DataType::Int32)),
        Series::Array(x) => DataType::Array(Box::new(DataType::Int32), x.width_of()),
        Series::Struct(x) => DataType::Struct(x.fields_schema()),
        Series::Datetime(x) => x.dtype(),
        Series::Duration(x) => x.dtype(),
    }
}

/// The typed error for a comparison of two incomparable series.
fn cmp_error(op: Operation, a: &Series, b: &Series) -> (e: PolarsError)
    requires
        sp_series_wf(*a),
        sp_series_wf(*b),
    ensures
        e is InvalidOperation,
{
    PolarsError::InvalidOperation { op, left: series_dtype(a), right: series_dtype(b) }
}

/// The missing-aware equality kernel for non-struct series of one dtype:
/// the shared engine every struct field comparison also runs through.
pub(crate) fn series_eqm_col(a: &Series, b: &Series, neg: bool) -> (r: PolarsResult<
    BooleanChunked,
>)
    requires
        sp_series_wf(*a),
        sp_series_wf(*b),
        !(*a is Struct),
        !(*b is Struct),
        sp_series_cmp_req(*a, *b),
    ensures
        r is Ok <==> sp_flat_same_dtype(*a, *b),
        match r {
            Ok(c) => {
                &&& c.wf()
                &&& c@ == sp_series_eqm_out(*a, *b, neg)
            },
            Err(e) => e is InvalidOperation,
        },
{
    let ghost out = sp_series_eqm_out(*a, *b, neg);
    match (a, b) {
        (Series::Int32(x), Series::Int32(y)) => {
            let c = if neg {
                x.not_equal_missing(y)
            } else {
                x.equal_missing(y)
            };
            proof {
                assert(c@ =~= out);
            }
            Ok(c)
        },
        (Series::Int64(x), Series::Int64(y)) => {
            let c = if neg {
                x.not_equal_missing(y)
            } else {
                x.equal_missing(y)
            };
            proof {
                assert(c@ =~= out);
            }
            Ok(c)
        },
        (Series::Boolean(x), Series::Boolean(y)) => {
            let c = if neg {
                x.not_equal_missing(y)
            } else {
                x.equal_missing(y)
            };
            proof {
                assert(c@ =~= out);
            }
            Ok(c)
        },
        (Series::Str(x), Series::Str(y)) => {
            let c = if neg {
                x.not_equal_missing(y)
            } else {
                x.equal_missing(y)
            };
            proof {
                assert(c@ =~= out);
            }
            Ok(c)
        },
        (Series::Binary(x), Series::Binary(y)) => {
            let c = if neg {
                x.not_equal_missing(y)
            } else {
                x.equal_missing(y)
            };
            proof {
                assert(c@ =~= out);
            }
            Ok(c)
        },
        (Series::Null(x), Series::Null(y)) => {
            let c = if neg {
                x.not_equal_missing(y)
            } else {
                x.equal_missing(y)
            };
            proof {
                assert(c@ =~= out);
            }
            Ok(c)
        },
        (Series::List(x), Series::List(y)) => {
            let c = if neg {
                x.not_equal_missing(y)
            } else {
                x.equal_missing(y)
            };
            proof {
                assert(c@ =~= out);
            }
            Ok(c)
        },
        (Series::Array(x), Series::Array(y)) => {
            let c = if neg {
                x.not_equal_missing(y)
            } else {
                x.equal_missing(y)
            };
            proof {
                assert(c@ =~= out);
            }
            Ok(c)
        },
        (Series::Datetime(x), Series::Datetime(y)) => {
            if x.time_unit() == y.time_unit() && crate::datetime::tz_eq(
                x.time_zone(),
                y.time_zone(),
            ) {
                let c = if neg {
                    x.physical().not_equal_missing(y.physical())
                } else {
                    x.physical().equal_missing(y.physical())
                };
                proof {
                    assert(c@ =~= out);
                }
                Ok(c)
            } else {
                Err(cmp_error(if neg {
                    Operation::NotEq
                } else {
                    Operation::Eq
                }, a, b))
            }
        },
        (Series::Duration(x), Series::Duration(y)) => {
            if x.time_unit() == y.time_unit() {
                let c = if neg {
                    x.physical().not_equal_missing(y.physical())
                } else {
                    x.physical().equal_missing(y.physical())
                };
                proof {
                    assert(c@ =~= out);
                }
                Ok(c)
            } else {
                Err(cmp_error(if neg {
                    Operation::NotEq
                } else {
                    Operation::Eq
                }, a, b))
            }
        },
        _ => Err(cmp_error(if neg {
            Operation::NotEq
        } else {
            Operation::Eq
        }, a, b)),
    }
}

/// Whether the non-struct cell at `i` holds a value.
pub(crate) fn series_cell_present(s: &Series, i: usize) -> (r: bool)
    requires
        sp_series_wf(*s),
        !(*s is Struct),
        i < sp_series_len(*s),
    ensures
        r == sp_series_cell_present(*s, i as int),
{
    match s {
        Series::Int32(x) => x.get(i).is_some(),
        Series::Int64(x) => x.get(i).is_some(),
        Series::Boolean(x) => x.get(i).is_some(),
        Series::Str(x) => x.as_binary().get(i).is_some(),
        Series::Binary(x) => x.get(i).is_some(),
        Series::Null(_) => false,
        Series::List(x) => x.get(i).is_some(),
        Series::Array(x) => x.as_list().get(i).is_some(),
        Series::Datetime(x) => x.physical().get(i).is_some(),
        Series::Duration(x) => x.physical().get(i).is_some(),
        Series::Struct(_) => vstd::pervasive::unreached(),
    }
}

impl Series {
    /// The column's logical length.
    pub fn len(&self) -> (r: usize)
        requires
            sp_series_wf(*self),
        ensures
            r == sp_series_len(*self),
    {
        match self {
            Series::Int32(x) => x.len(),
            Series::Int64(x) => x.len(),
            Series::Boolean(x) => x.len(),
            Series::Str(x) => x.len(),
            Series::Binary(x) => x.len(),
            Series::Null(x) => x.len(),
            Series::List(x) => x.len(),
            Series::Array(x) => x.len(),
            Series::Struct(x) => x.len(),
            Series::Datetime(x) => x.len(),
            Series::Duration(x) => x.len(),
        }
    }

    /// A boolean column that is `true` exactly where this series' cell is
    /// missing; a struct row is missing when the row itself is.
    pub fn is_null(&self) -> (r: BooleanChunked)
        requires
            sp_series_wf(*self),
        ensures
            r.wf(),
            r@ == Seq::new(
                sp_series_len(*self),
                |i: int| Some(!sp_series_cell_present(*self, i)),
            ),
    {
        let ghost out = Seq::new(
            sp_series_len(*self),
            |i: int| Some(!sp_series_cell_present(*self, i)),
        );
        let r = match self {
            Series::Int32(x) => x.is_null(),
            Series::Int64(x) => x.is_null(),
            Series::Boolean(x) => x.is_null(),
            Series::Str(x) => x.as_binary().is_null(),
            Series::Binary(x) => x.is_null(),
            Series::Null(x) => {
                BooleanChunked::full(crate::chunked::clone_string(x.name()), &true, x.len())
            },
            Series::List(x) => x.is_null(),
            Series::Array(x) => x.as_list().is_null(),
            Series::Struct(x) => x.is_null(),
            Series::Datetime(x) => x.is_null(),
            Series::Duration(x) => x.physical().is_null(),
        };
        proof {
            assert(r@ =~= out);
        }
        r
    }

    /// A boolean column that is `true` exactly where this series' cell
    /// holds a value.
    pub fn is_not_null(&self) -> (r: BooleanChunked)
        requires
            sp_series_wf(*self),
        ensures
            r.wf(),
            r@ == Seq::new(
                sp_series_len(*self),
                |i: int| Some(sp_series_cell_present(*self, i)),
            ),
    {
        let ghost out = Seq::new(
            sp_series_len(*self),
            |i: int| Some(sp_series_cell_present(*self, i)),
        );
        let r = match self {
            Series::Int32(x) => x.is_not_null(),
            Series::Int64(x) => x.is_not_null(),
            Series::Boolean(x) => x.is_not_null(),
            Series::Str(x) => x.as_binary().is_not_null(),
            Series::Binary(x) => x.is_not_null(),
            Series::Null(x) => {
                BooleanChunked::full(crate::chunked::clone_string(x.name()), &false, x.len())
            },
            Series::List(x) => x.is_not_null(),
            Series::Array(x) => x.as_list().is_not_null(),
            Series::Struct(x) => x.is_not_null(),
            Series::Datetime(x) => x.is_not_null(),
            Series::Duration(x) => x.physical().is_not_null(),
        };
        proof {
            assert(r@ =~= out);
        }
        r
    }

    /// The column as a list column, when it is one.
    pub fn list(&self) -> (r: PolarsResult<&ListChunked>)
        requires
            sp_series_wf(*self),
        ensures
            r is Ok <==> *self is List,
            match r {
                Ok(ca) => *self == Series::List(*ca),
                Err(e) => e is SchemaMismatch,
            },
    {
        match self {
            Series::List(x) => Ok(x),
            _ => Err(
                PolarsError::SchemaMismatch {
                    expected: DataType::List(Box::new(DataType::Int32)),
                    found: series_dtype(self),
                },
            ),
        }
    }

    /// Missing-aware equality of two series of one dtype; two struct
    /// columns are always comparable.
    pub fn equal_missing(&self, rhs: &Series) -> (r: PolarsResult<BooleanChunked>)
        requires
            sp_series_wf(*self),
            sp_series_wf(*rhs),
            sp_series_cmp_req(*self, *rhs),
        ensures
            r is Ok <==> sp_series_comparable_eq(*self, *rhs),
            match r {
                Ok(c) => {
                    &&& c.wf()
                    &&& c@ == (if *self is Struct && *rhs is Struct {
                        sp_struct_cmp(self->Struct_0, rhs->Struct_0, false, true)
                    } else {
                        sp_series_eqm_out(*self, *rhs, false)
                    })
                },
                Err(e) => e is InvalidOperation,
            },
    {
        match (self, rhs) {
            (Series::Struct(x), Series::Struct(y)) => Ok(struct_helper(x, y, false, true)),
            (Series::Struct(_), _) => Err(cmp_error(Operation::Eq, self, rhs)),
            (_, Series::Struct(_)) => Err(cmp_error(Operation::Eq, self, rhs)),
            _ => series_eqm_col(self, rhs, false),
        }
    }

    /// Missing-aware inequality.
    pub fn not_equal_missing(&self, rhs: &Series) -> (r: PolarsResult<BooleanChunked>)
        requires
            sp_series_wf(*self),
            sp_series_wf(*rhs),
            sp_series_cmp_req(*self, *rhs),
        ensures
            r is Ok <==> sp_series_comparable_eq(*self, *rhs),
            match r {
                Ok(c) => {
                    &&& c.wf()
                    &&& c@ == (if *self is Struct && *rhs is Struct {
                        sp_struct_cmp(self->Struct_0, rhs->Struct_0, true, true)
                    } else {
                        sp_series_eqm_out(*self, *rhs, true)
                    })
                },
                Err(e) => e is InvalidOperation,
            },
    {
        match (self, rhs) {
            (Series::Struct(x), Series::Struct(y)) => Ok(struct_helper(x, y, true, true)),
            (Series::Struct(_), _) => Err(cmp_error(Operation::NotEq, self, rhs)),
            (_, Series::Struct(_)) => Err(cmp_error(Operation::NotEq, self, rhs)),
            _ => series_eqm_col(self, rhs, true),
        }
    }
}
/// What a strict equality of two series returns, by kind.
pub open spec fn sp_series_strict_eq_ok(a: Series, b: Series, neg: bool, out: Seq<Option<bool>>) -> bool {
    match (a, b) {
        (Series::Int32(x), Series::Int32(y)) => out == sp_strict_eq::<i32>(neg, x@, y@),
        (Series::Int64(x), Series::Int64(y)) => out == sp_strict_eq::<i64>(neg, x@, y@),
        (Series::Boolean(x), Series::Boolean(y)) => out == sp_strict_eq::<bool>(neg, x@, y@),
        (Series::Str(x), Series::Str(y)) => out == sp_strict_eq::<Vec<u8>>(neg, x@, y@),
        (Series::Binary(x), Series::Binary(y)) => out == sp_strict_eq::<Vec<u8>>(neg, x@, y@),
        (Series::Null(x), Series::Null(y)) => out == Seq::new(
            sp_null_broadcast_len(x.sp_len(), y.sp_len()),
            |i: int| None::<bool>,
        ),
        (Series::List(x), Series::List(y)) => out == sp_strict_eq::<Vec<Option<i32>>>(neg, x@, y@),
        (Series::Array(x), Series::Array(y)) => out == sp_strict_eq::<Vec<Option<i32>>>(
            neg,
            x@,
            y@,
        ),
        (Series::Struct(x), Series::Struct(y)) => out == sp_struct_cmp(x, y, neg, false),
        (Series::Datetime(x), Series::Datetime(y)) => out == sp_strict_eq::<i64>(
            neg,
            x.sp_phys(),
            y.sp_phys(),
        ),
        (Series::Duration(x), Series::Duration(y)) => out == sp_strict_eq::<i64>(
            neg,
            x.sp_phys(),
            y.sp_phys(),
        ),
        _ => false,
    }
}

/// What an ordering comparison of two series returns, by kind.
pub open spec fn sp_series_ord_ok(a: Series, b: Series, with_eq: bool, out: Seq<Option<bool>>) -> bool {
    match (a, b) {
        (Series::Int32(x), Series::Int32(y)) => out == sp_strict_ord::<i32>(with_eq, x@, y@),
        (Series::Int64(x), Series::Int64(y)) => out == sp_strict_ord::<i64>(with_eq, x@, y@),
        (Series::Boolean(x), Series::Boolean(y)) => out == sp_strict_ord::<bool>(with_eq, x@, y@),
        (Series::Str(x), Series::Str(y)) => out == sp_strict_ord::<Vec<u8>>(with_eq, x@, y@),
        (Series::Binary(x), Series::Binary(y)) => out == sp_strict_ord::<Vec<u8>>(with_eq, x@, y@),
        (Series::Null(x), Series::Null(y)) => out == Seq::new(
            sp_null_broadcast_len(x.sp_len(), y.sp_len()),
            |i: int| None::<bool>,
        ),
        (Series::Datetime(x), Series::Datetime(y)) => out == sp_strict_ord::<i64>(
            with_eq,
            x.sp_phys(),
            y.sp_phys(),
        ),
        (Series::Duration(x), Series::Duration(y)) => out == sp_strict_ord::<i64>(
            with_eq,
            x.sp_phys(),
            y.sp_phys(),
        ),
        _ => false,
    }
}

impl Series {
    /// Strict equality of two series of one dtype; two struct columns are
    /// always comparable.
    pub fn equal(&self, rhs: &Series) -> (r: PolarsResult<BooleanChunked>)
        requires
            sp_series_wf(*self),
            sp_series_wf(*rhs),
            sp_series_cmp_req(*self, *rhs),
        ensures
            r is Ok <==> sp_series_comparable_eq(*self, *rhs),
            match r {
                Ok(c) => c.wf() && sp_series_strict_eq_ok(*self, *rhs, false, c@),
                Err(e) => e is InvalidOperation,
            },
    {
        series_strict_eq_col(self, rhs, false)
    }

    /// Strict inequality.
    pub fn not_equal(&self, rhs: &Series) -> (r: PolarsResult<BooleanChunked>)
        requires
            sp_series_wf(*self),
            sp_series_wf(*rhs),
            sp_series_cmp_req(*self, *rhs),
        ensures
            r is Ok <==> sp_series_comparable_eq(*self, *rhs),
            match r {
                Ok(c) => c.wf() && sp_series_strict_eq_ok(*self, *rhs, true, c@),
                Err(e) => e is InvalidOperation,
            },
    {
        series_strict_eq_col(self, rhs, true)
    }

    /// Strictly less than, under strict null semantics.
    pub fn lt(&self, rhs: &Series) -> (r: PolarsResult<BooleanChunked>)
        requires
            sp_series_wf(*self),
            sp_series_wf(*rhs),
            sp_series_cmp_req(*self, *rhs),
        ensures
            r is Ok <==> sp_series_comparable_ord(*self, *rhs),
            match r {
                Ok(c) => c.wf() && sp_series_ord_ok(*self, *rhs, false, c@),
                Err(e) => e is InvalidOperation,
            },
    {
        series_ord_col(self, rhs, false)
    }

    /// Less than or equal, under strict null semantics.
    pub fn lt_eq(&self, rhs: &Series) -> (r: PolarsResult<BooleanChunked>)
        requires
            sp_series_wf(*self),
            sp_series_wf(*rhs),
            sp_series_cmp_req(*self, *rhs),
        ensures
            r is Ok <==> sp_series_comparable_ord(*self, *rhs),
            match r {
                Ok(c) => c.wf() && sp_series_ord_ok(*self, *rhs, true, c@),
                Err(e) => e is InvalidOperation,
            },
    {
        series_ord_col(self, rhs, true)
    }

    /// Strictly greater than: the swapped-operand call of [`Self::lt`].
    pub fn gt(&self, rhs: &Series) -> (r: PolarsResult<BooleanChunked>)
        requires
            sp_series_wf(*self),
            sp_series_wf(*rhs),
            sp_series_cmp_req(*rhs, *self),
        ensures
            r is Ok <==> sp_series_comparable_ord(*rhs, *self),
            match r {
                Ok(c) => c.wf() && sp_series_ord_ok(*rhs, *self, false, c@),
                Err(e) => e is InvalidOperation,
            },
    {
        rhs.lt(self)
    }

    /// Greater than or equal: the swapped-operand call of [`Self::lt_eq`].
    pub fn gt_eq(&self, rhs: &Series) -> (r: PolarsResult<BooleanChunked>)
        requires
            sp_series_wf(*self),
            sp_series_wf(*rhs),
            sp_series_cmp_req(*rhs, *self),
        ensures
            r is Ok <==> sp_series_comparable_ord(*rhs, *self),
            match r {
                Ok(c) => c.wf() && sp_series_ord_ok(*rhs, *self, true, c@),
                Err(e) => e is InvalidOperation,
            },
    {
        rhs.lt_eq(self)
    }
}

/// The strict equality kernel for two series, by kind.
fn series_strict_eq_col(a: &Series, b: &Series, neg: bool) -> (r: PolarsResult<BooleanChunked>)
    requires
        sp_series_wf(*a),
        sp_series_wf(*b),
        sp_series_cmp_req(*a, *b),
    ensures
        r is Ok <==> sp_series_comparable_eq(*a, *b),
        match r {
            Ok(c) => c.wf() && sp_series_strict_eq_ok(*a, *b, neg, c@),
            Err(e) => e is InvalidOperation,
        },
{
    let op = if neg {
        Operation::NotEq
    } else {
        Operation::Eq
    };
    match (a, b) {
        (Series::Int32(x), Series::Int32(y)) => Ok(if neg {
            x.not_equal(y)
        } else {
            x.equal(y)
        }),
        (Series::Int64(x), Series::Int64(y)) => Ok(if neg {
            x.not_equal(y)
        } else {
            x.equal(y)
        }),
        (Series::Boolean(x), Series::Boolean(y)) => Ok(if neg {
            x.not_equal(y)
        } else {
            x.equal(y)
        }),
        (Series::Str(x), Series::Str(y)) => Ok(if neg {
            x.not_equal(y)
        } else {
            x.equal(y)
        }),
        (Series::Binary(x), Series::Binary(y)) => Ok(if neg {
            x.not_equal(y)
        } else {
            x.equal(y)
        }),
        (Series::Null(x), Series::Null(y)) => Ok(if neg {
            x.not_equal(y)
        } else {
            x.equal(y)
        }),
        (Series::List(x), Series::List(y)) => Ok(if neg {
            x.not_equal(y)
        } else {
            x.equal(y)
        }),
        (Series::Array(x), Series::Array(y)) => Ok(if neg {
            crate::nested::_array_comparison_helper(x, y, false, true)
        } else {
            crate::nested::_array_comparison_helper(x, y, false, false)
        }),
        (Series::Struct(x), Series::Struct(y)) => Ok(struct_helper(x, y, neg, false)),
        (Series::Datetime(x), Series::Datetime(y)) => {
            if x.time_unit() == y.time_unit() && crate::datetime::tz_eq(
                x.time_zone(),
                y.time_zone(),
            ) {
                Ok(if neg {
                    x.physical().not_equal(y.physical())
                } else {
                    x.physical().equal(y.physical())
                })
            } else {
                Err(cmp_error(op, a, b))
            }
        },
        (Series::Duration(x), Series::Duration(y)) => {
            if x.time_unit() == y.time_unit() {
                Ok(if neg {
                    x.physical().not_equal(y.physical())
                } else {
                    x.physical().equal(y.physical())
                })
            } else {
                Err(cmp_error(op, a, b))
            }
        },
        _ => Err(cmp_error(op, a, b)),
    }
}

/// The ordering kernel for two series, by kind; nested and struct kinds
/// carry no order.
fn series_ord_col(a: &Series, b: &Series, with_eq: bool) -> (r: PolarsResult<BooleanChunked>)
    requires
        sp_series_wf(*a),
        sp_series_wf(*b),
        sp_series_cmp_req(*a, *b),
    ensures
        r is Ok <==> sp_series_comparable_ord(*a, *b),
        match r {
            Ok(c) => c.wf() && sp_series_ord_ok(*a, *b, with_eq, c@),
            Err(e) => e is InvalidOperation,
        },
{
    let op = if with_eq {
        Operation::LtEq
    } else {
        Operation::Lt
    };
    match (a, b) {
        (Series::Int32(x), Series::Int32(y)) => Ok(if with_eq {
            x.lt_eq(y)
        } else {
            x.lt(y)
        }),
        (Series::Int64(x), Series::Int64(y)) => Ok(if with_eq {
            x.lt_eq(y)
        } else {
            x.lt(y)
        }),
        (Series::Boolean(x), Series::Boolean(y)) => Ok(if with_eq {
            x.lt_eq(y)
        } else {
            x.lt(y)
        }),
        (Series::Str(x), Series::Str(y)) => Ok(if with_eq {
            x.lt_eq(y)
        } else {
            x.lt(y)
        }),
        (Series::Binary(x), Series::Binary(y)) => Ok(if with_eq {
            x.lt_eq(y)
        } else {
            x.lt(y)
        }),
        (Series::Null(x), Series::Null(y)) => Ok(if with_eq {
            x.lt_eq(y)
        } else {
            x.lt(y)
        }),
        (Series::Datetime(x), Series::Datetime(y)) => {
            if x.time_unit() == y.time_unit() && crate::datetime::tz_eq(
                x.time_zone(),
                y.time_zone(),
            ) {
                Ok(if with_eq {
                    x.physical().lt_eq(y.physical())
                } else {
                    x.physical().lt(y.physical())
                })
            } else {
                Err(cmp_error(op, a, b))
            }
        },
        (Series::Duration(x), Series::Duration(y)) => {
            if x.time_unit() == y.time_unit() {
                Ok(if with_eq {
                    x.physical().lt_eq(y.physical())
                } else {
                    x.physical().lt(y.physical())
                })
            } else {
                Err(cmp_error(op, a, b))
            }
        },
        _ => Err(cmp_error(op, a, b)),
    }
}

impl DatetimeChunked {
    /// Subtraction in the physical domain: datetime minus datetime is a
    /// duration, datetime minus duration a datetime, anything else a typed
    /// operator error. The operand's unit (and, between datetimes, time
    /// zone) must match, and every present difference must fit 64 bits.
    pub fn subtract(&self, rhs: &Series) -> (r: PolarsResult<Series>)
        requires
            self.wf(),
            sp_series_wf(*rhs),
            match *rhs {
                Series::Datetime(o) => {
                    &&& o.sp_time_unit() == self.sp_time_unit()
                    &&& o.sp_time_zone() == self.sp_time_zone()
                    &&& sp_broadcastable(self.sp_phys().len(), o.sp_phys().len())
                    &&& forall|i: int|
                        0 <= i < crate::compare::sp_out_len(self.sp_phys(), o.sp_phys())
                            ==> (match (
                            #[trigger] sp_bat(self.sp_phys(), i),
                            sp_bat(o.sp_phys(), i),
                        ) {
                            (Some(x), Some(y)) => i64::MIN <= x - y <= i64::MAX,
                            _ => true,
                        })
                },
                Series::Duration(o) => {
                    &&& o.sp_time_unit() == self.sp_time_unit()
                    &&& sp_broadcastable(self.sp_phys().len(), o.sp_phys().len())
                    &&& forall|i: int|
                        0 <= i < crate::compare::sp_out_len(self.sp_phys(), o.sp_phys())
                            ==> (match (
                            #[trigger] sp_bat(self.sp_phys(), i),
                            sp_bat(o.sp_phys(), i),
                        ) {
                            (Some(x), Some(y)) => i64::MIN <= x - y <= i64::MAX,
                            _ => true,
                        })
                },
                _ => true,
            },
        ensures
            r is Ok <==> (*rhs is Datetime || *rhs is Duration),
            match r {
                Ok(s) => match *rhs {
                    Series::Datetime(o) => {
                        &&& s is Duration
                        &&& s->Duration_0.wf()
                        &&& s->Duration_0.sp_time_unit() == self.sp_time_unit()
                        &&& s->Duration_0.sp_phys() == sp_phys_sub(self.sp_phys(), o.sp_phys())
                    },
                    Series::Duration(o) => {
                        &&& s is Datetime
                        &&& s->Datetime_0.wf()
                        &&& s->Datetime_0.sp_time_unit() == self.sp_time_unit()
                        &&& s->Datetime_0.sp_time_zone() == self.sp_time_zone()
                        &&& s->Datetime_0.sp_phys() == sp_phys_sub(self.sp_phys(), o.sp_phys())
                    },
                    _ => false,
                },
                Err(e) => e is InvalidOperation,
            },
    {
        match rhs {
            Series::Datetime(o) => {
                let diff = match self.physical().subtract(o.physical()) {
                    Ok(d) => d,
                    Err(_) => vstd::pervasive::unreached(),
                };
                Ok(Series::Duration(diff.into_duration(self.time_unit())))
            },
            Series::Duration(o) => {
                let diff = match self.physical().subtract(o.physical()) {
                    Ok(d) => d,
                    Err(_) => vstd::pervasive::unreached(),
                };
                Ok(
                    Series::Datetime(
                        diff.into_datetime(
                            self.time_unit(),
                            crate::datetime::clone_tz(self.time_zone()),
                        ),
                    ),
                )
            },
            _ => Err(
                PolarsError::InvalidOperation {
                    op: Operation::Sub,
                    left: self.dtype(),
                    right: series_dtype(rhs),
                },
            ),
        }
    }

    /// Addition in the physical domain: a datetime plus a duration is a
    /// datetime; anything else a typed operator error.
    pub fn add_to(&self, rhs: &Series) -> (r: PolarsResult<Series>)
        requires
            self.wf(),
            sp_series_wf(*rhs),
            match *rhs {
                Series::Duration(o) => {
                    &&& o.sp_time_unit() == self.sp_time_unit()
                    &&& sp_broadcastable(self.sp_phys().len(), o.sp_phys().len())
                    &&& forall|i: int|
                        0 <= i < crate::compare::sp_out_len(self.sp_phys(), o.sp_phys())
                            ==> (match (
                            #[trigger] sp_bat(self.sp_phys(), i),
                            sp_bat(o.sp_phys(), i),
                        ) {
                            (Some(x), Some(y)) => i64::MIN <= x + y <= i64::MAX,
                            _ => true,
                        })
                },
                _ => true,
            },
        ensures
            r is Ok <==> *rhs is Duration,
            match r {
                Ok(s) => match *rhs {
                    Series::Duration(o) => {
                        &&& s is Datetime
                        &&& s->Datetime_0.wf()
                        &&& s->Datetime_0.sp_time_unit() == self.sp_time_unit()
                        &&& s->Datetime_0.sp_time_zone() == self.sp_time_zone()
                        &&& s->Datetime_0.sp_phys() == sp_phys_add(self.sp_phys(), o.sp_phys())
                    },
                    _ => false,
                },
                Err(e) => e is InvalidOperation,
            },
    {
        match rhs {
            Series::Duration(o) => {
                let sum = match self.physical().add_to(o.physical()) {
                    Ok(d) => d,
                    Err(_) => vstd::pervasive::unreached(),
                };
                Ok(
                    Series::Datetime(
                        sum.into_datetime(
                            self.time_unit(),
                            crate::datetime::clone_tz(self.time_zone()),
                        ),
                    ),
                )
            },
            _ => Err(
                PolarsError::InvalidOperation {
                    op: Operation::Add,
                    left: self.dtype(),
                    right: series_dtype(rhs),
                },
            ),
        }
    }

    /// Multiplying datetimes is never defined.
    pub fn multiply(&self, rhs: &Series) -> (r: PolarsResult<Series>)
        requires
            self.wf(),
            sp_series_wf(*rhs),
        ensures
            r is Err,
            r->Err_0 is InvalidOperation,
    {
        Err(
            PolarsError::InvalidOperation {
                op: Operation::Mul,
                left: self.dtype(),
                right: series_dtype(rhs),
            },
        )
    }

    /// Dividing datetimes is never defined.
    pub fn divide(&self, rhs: &Series) -> (r: PolarsResult<Series>)
        requires
            self.wf(),
            sp_series_wf(*rhs),
        ensures
            r is Err,
            r->Err_0 is InvalidOperation,
    {
        Err(
            PolarsError::InvalidOperation {
                op: Operation::Div,
                left: self.dtype(),
                right: series_dtype(rhs),
            },
        )
    }

    /// The remainder of datetimes is never defined.
    pub fn remainder(&self, rhs: &Series) -> (r: PolarsResult<Series>)
        requires
            self.wf(),
            sp_series_wf(*rhs),
        ensures
            r is Err,
            r->Err_0 is InvalidOperation,
    {
        Err(
            PolarsError::InvalidOperation {
                op: Operation::Rem,
                left: self.dtype(),
                right: series_dtype(rhs),
            },
        )
    }

    /// Wrap this column as a series.
    pub fn into_series(self) -> (r: Series)
        ensures
            r == Series::Datetime(self),
    {
        Series::Datetime(self)
    }
}

/// Element-wise difference of two physical sequences under strict null
/// semantics.
pub open spec fn sp_phys_sub(a: Seq<Option<i64>>, b: Seq<Option<i64>>) -> Seq<Option<i64>> {
    Seq::new(
        crate::compare::sp_out_len(a, b) as nat,
        |i: int|
            match (sp_bat(a, i), sp_bat(b, i)) {
                (Some(x), Some(y)) => Some((x - y) as i64),
                _ => None,
            },
    )
}

/// Element-wise sum of two physical sequences under strict null semantics.
pub open spec fn sp_phys_add(a: Seq<Option<i64>>, b: Seq<Option<i64>>) -> Seq<Option<i64>> {
    Seq::new(
        crate::compare::sp_out_len(a, b) as nat,
        |i: int|
            match (sp_bat(a, i), sp_bat(b, i)) {
                (Some(x), Some(y)) => Some((x + y) as i64),
                _ => None,
            },
    )
}

impl DurationChunked {
    /// Wrap this column as a series.
    pub fn into_series(self) -> (r: Series)
        ensures
            r == Series::Duration(self),
    {
        Series::Duration(self)
    }
}

impl StructChunked {
    /// Wrap this column as a series.
    pub fn into_series(self) -> (r: Series)
        ensures
            r == Series::Struct(self),
    {
        Series::Struct(self)
    }
}

impl StringChunked {
    /// Wrap this column as a series.
    pub fn into_series(self) -> (r: Series)
        ensures
            r == Series::Str(self),
    {
        Series::Str(self)
    }
}

impl NullChunked {
    /// Wrap this column as a series.
    pub fn into_series(self) -> (r: Series)
        ensures
            r == Series::Null(self),
    {
        Series::Null(self)
    }
}

impl ArrayChunked<i32> {
    /// Wrap this column as a series.
    pub fn into_series(self) -> (r: Series)
        ensures
            r == Series::Array(self),
    {
        Series::Array(self)
    }
}

impl ChunkedArray<i32> {
    /// Wrap this column as a series.
    pub fn into_series(self) -> (r: Series)
        ensures
            r == Series::Int32(self),
    {
        Series::Int32(self)
    }

    /// Whether the cell at `idx_self` equals the cell at `idx_other` of the
    /// other column, missing equalling only missing. The other series must
    /// be of this column's kind.
    pub fn equal_element(&self, idx_self: usize, idx_other: usize, other: &Series) -> (r: bool)
        requires
            self.wf(),
            sp_series_wf(*other),
            *other is Int32,
            idx_self < self@.len(),
            idx_other < sp_series_len(*other),
        ensures
            r == sp_opt_eq::<i32>(self@[idx_self as int], other->Int32_0@[idx_other as int]),
    {
        match other {
            Series::Int32(o) => match (self.get(idx_self), o.get(idx_other)) {
                (Some(x), Some(y)) => i32::el_eq(x, y),
                (None, None) => true,
                _ => false,
            },
            _ => vstd::pervasive::unreached(),
        }
    }
}

impl ChunkedArray<i64> {
    /// Wrap this column as a series.
    pub fn into_series(self) -> (r: Series)
        ensures
            r == Series::Int64(self),
    {
        Series::Int64(self)
    }

    /// Element equality against another series of this kind; missing equals
    /// only missing.
    pub fn equal_element(&self, idx_self: usize, idx_other: usize, other: &Series) -> (r: bool)
        requires
            self.wf(),
            sp_series_wf(*other),
            *other is Int64,
            idx_self < self@.len(),
            idx_other < sp_series_len(*other),
        ensures
            r == sp_opt_eq::<i64>(self@[idx_self as int], other->Int64_0@[idx_other as int]),
    {
        match other {
            Series::Int64(o) => match (self.get(idx_self), o.get(idx_other)) {
                (Some(x), Some(y)) => i64::el_eq(x, y),
                (None, None) => true,
                _ => false,
            },
            _ => vstd::pervasive::unreached(),
        }
    }
}

impl ChunkedArray<bool> {
    /// Wrap this column as a series.
    pub fn into_series(self) -> (r: Series)
        ensures
            r == Series::Boolean(self),
    {
        Series::Boolean(self)
    }

    /// Element equality against another series of this kind; missing equals
    /// only missing.
    pub fn equal_element(&self, idx_self: usize, idx_other: usize, other: &Series) -> (r: bool)
        requires
            self.wf(),
            sp_series_wf(*other),
            *other is Boolean,
            idx_self < self@.len(),
            idx_other < sp_series_len(*other),
        ensures
            r == sp_opt_eq::<bool>(self@[idx_self as int], other->Boolean_0@[idx_other as int]),
    {
        match other {
            Series::Boolean(o) => match (self.get(idx_self), o.get(idx_other)) {
                (Some(x), Some(y)) => bool::el_eq(x, y),
                (None, None) => true,
                _ => false,
            },
            _ => vstd::pervasive::unreached(),
        }
    }
}

impl ChunkedArray<Vec<u8>> {
    /// Wrap this column as a series.
    pub fn into_series(self) -> (r: Series)
        ensures
            r == Series::Binary(self),
    {
        Series::Binary(self)
    }

    /// Element equality against another series of this kind; missing equals
    /// only missing.
    pub fn equal_element(&self, idx_self: usize, idx_other: usize, other: &Series) -> (r: bool)
        requires
            self.wf(),
            sp_series_wf(*other),
            *other is Binary,
            idx_self < self@.len(),
            idx_other < sp_series_len(*other),
        ensures
            r == sp_opt_eq::<Vec<u8>>(self@[idx_self as int], other->Binary_0@[idx_other as int]),
    {
        match other {
            Series::Binary(o) => match (self.get(idx_self), o.get(idx_other)) {
                (Some(x), Some(y)) => <Vec<u8> as EqElement>::el_eq(x, y),
                (None, None) => true,
                _ => false,
            },
            _ => vstd::pervasive::unreached(),
        }
    }
}

impl ChunkedArray<Vec<Option<i32>>> {
    /// Wrap this column as a series.
    pub fn into_series(self) -> (r: Series)
        ensures
            r == Series::List(self),
    {
        Series::List(self)
    }
}

impl StringChunked {
    /// Element equality against another series of this kind; missing equals
    /// only missing.
    pub fn equal_element(&self, idx_self: usize, idx_other: usize, other: &Series) -> (r: bool)
        requires
            self.wf(),
            sp_series_wf(*other),
            *other is Str,
            idx_self < self@.len(),
            idx_other < sp_series_len(*other),
        ensures
            r == sp_opt_eq::<Vec<u8>>(self@[idx_self as int], other->Str_0@[idx_other as int]),
    {
        match other {
            Series::Str(o) => match (self.as_binary().get(idx_self), o.as_binary().get(idx_other)) {
                (Some(x), Some(y)) => <Vec<u8> as EqElement>::el_eq(x, y),
                (None, None) => true,
                _ => false,
            },
            _ => vstd::pervasive::unreached(),
        }
    }
}

} // verus!
