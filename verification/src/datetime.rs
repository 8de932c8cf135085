//! Logical-over-physical wrappers: a datetime column is a 64-bit integer
//! column plus a time unit and an optional time zone, a duration column a
//! 64-bit integer column plus a time unit. Every operation delegates to the
//! physical column and re-attaches the metadata to the result.

use vstd::prelude::*;
use crate::chunked::{
    sp_filter, sp_null_count, sp_slice_len, sp_slice_start, BooleanChunked, Int64Chunked,
};
use crate::dtype::{DataType, TimeUnit};
use crate::error::{PolarsError, PolarsResult};

verus! {

/// Executable equality of two optional time zones.
pub fn tz_eq(a: &Option<String>, b: &Option<String>) -> (r: bool)
    ensures
        r == (sp_tz_of(a) == sp_tz_of(b)),
{
    match (a, b) {
        (None, None) => true,
        (Some(x), Some(y)) => *x == *y,
        _ => false,
    }
}

/// The abstract value of an optional time zone.
pub open spec fn sp_tz_of(tz: &Option<String>) -> Option<Seq<char>> {
    match tz {
        Some(s) => Some(s@),
        None => None,
    }
}

/// A fresh copy of an optional time zone.
pub fn clone_tz(tz: &Option<String>) -> (r: Option<String>)
    ensures
        sp_tz_of(&r) == sp_tz_of(tz),
{
    match tz {
        Some(s) => Some(crate::chunked::clone_string(s)),
        None => None,
    }
}

/// A datetime column: physical 64-bit integers tagged with a unit and an
/// optional time zone.
pub struct DatetimeChunked {
    phys: Int64Chunked,
    time_unit: TimeUnit,
    time_zone: Option<String>,
}

/// A duration column: physical 64-bit integers tagged with a unit.
pub struct DurationChunked {
    phys: Int64Chunked,
    time_unit: TimeUnit,
}

impl Int64Chunked {
    /// Tag this physical column as a datetime column.
    pub fn into_datetime(self, time_unit: TimeUnit, time_zone: Option<String>) -> (r:
        DatetimeChunked)
        ensures
            r.sp_phys() == self@,
            r.wf() == self.wf(),
            r.sp_time_unit() == time_unit,
            r.sp_time_zone() == sp_tz_of(&time_zone),
            r.sp_name() == self.sp_name(),
    {
        DatetimeChunked { phys: self, time_unit, time_zone }
    }

    /// Tag this physical column as a duration column.
    pub fn into_duration(self, time_unit: TimeUnit) -> (r: DurationChunked)
        ensures
            r.sp_phys() == self@,
            r.wf() == self.wf(),
            r.sp_time_unit() == time_unit,
            r.sp_name() == self.sp_name(),
    {
        DurationChunked { phys: self, time_unit }
    }
}

impl DatetimeChunked {
    pub closed spec fn sp_phys(&self) -> Seq<Option<i64>> {
        self.phys@
    }

    pub closed spec fn wf(&self) -> bool {
        self.phys.wf()
    }

    pub closed spec fn sp_time_unit(&self) -> TimeUnit {
        self.time_unit
    }

    pub closed spec fn sp_time_zone(&self) -> Option<Seq<char>> {
        sp_tz_of(&self.time_zone)
    }

    pub closed spec fn sp_name(&self) -> Seq<char> {
        self.phys.sp_name()
    }

    /// The physical representation the logical column delegates to.
    pub fn physical(&self) -> (r: &Int64Chunked)
        ensures
            r@ == self.sp_phys(),
            r.wf() == self.wf(),
            r.sp_name() == self.sp_name(),
    {
        &self.phys
    }

    pub fn time_unit(&self) -> (r: TimeUnit)
        ensures
            r == self.sp_time_unit(),
    {
        self.time_unit
    }

    pub fn time_zone(&self) -> (r: &Option<String>)
        ensures
            sp_tz_of(r) == self.sp_time_zone(),
    {
        &self.time_zone
    }

    /// The logical dtype: the physical dtype plus this column's metadata.
    pub fn dtype(&self) -> (d: DataType)
        ensures
            d is Datetime,
            d->Datetime_0 == self.sp_time_unit(),
            sp_tz_of(&d->Datetime_1) == self.sp_time_zone(),
    {
        DataType::Datetime(self.time_unit, clone_tz(&self.time_zone))
    }

    pub fn name(&self) -> (r: &String)
        ensures
            r@ == self.sp_name(),
    {
        self.phys.name()
    }

    pub fn rename(&mut self, name: String)
        ensures
            final(self).sp_name() == name@,
            final(self).sp_phys() == old(self).sp_phys(),
            final(self).wf() == old(self).wf(),
            final(self).sp_time_unit() == old(self).sp_time_unit(),
            final(self).sp_time_zone() == old(self).sp_time_zone(),
    {
        self.phys.rename(name);
    }

    pub fn len(&self) -> (r: usize)
        requires
            self.wf(),
        ensures
            r == self.sp_phys().len(),
    {
        self.phys.len()
    }

    pub fn null_count(&self) -> (r: usize)
        requires
            self.wf(),
        ensures
            r == sp_null_count(self.sp_phys()),
    {
        self.phys.null_count()
    }

    pub fn has_nulls(&self) -> (r: bool)
        requires
            self.wf(),
        ensures
            r == (sp_null_count(self.sp_phys()) != 0),
    {
        self.phys.has_nulls()
    }

    pub fn is_null(&self) -> (r: BooleanChunked)
        requires
            self.wf(),
        ensures
            r.wf(),
            r@ == Seq::new(self.sp_phys().len(), |i: int| Some(self.sp_phys()[i] is None)),
    {
        self.phys.is_null()
    }

    pub fn is_not_null(&self) -> (r: BooleanChunked)
        requires
            self.wf(),
        ensures
            r.wf(),
            r@ == Seq::new(self.sp_phys().len(), |i: int| Some(self.sp_phys()[i] is Some)),
    {
        self.phys.is_not_null()
    }

    /// Slice the physical column, then re-attach the metadata.
    pub fn slice(&self, offset: i64, length: usize) -> (r: Self)
        requires
            self.wf(),
            self.sp_phys().len() <= i64::MAX,
        ensures
            r.wf(),
            r.sp_phys() == self.sp_phys().subrange(
                sp_slice_start(self.sp_phys().len() as int, offset as int),
                sp_slice_start(self.sp_phys().len() as int, offset as int) + sp_slice_len(
                    self.sp_phys().len() as int,
                    offset as int,
                    length as int,
                ),
            ),
            r.sp_time_unit() == self.sp_time_unit(),
            r.sp_time_zone() == self.sp_time_zone(),
            r.sp_name() == self.sp_name(),
    {
        self.phys.slice(offset, length).into_datetime(self.time_unit, clone_tz(&self.time_zone))
    }

    /// Gather the physical column into one chunk, keeping the metadata.
    pub fn rechunk(&self) -> (r: Self)
        requires
            self.wf(),
        ensures
            r.wf(),
            r.sp_phys() == self.sp_phys(),
            r.sp_time_unit() == self.sp_time_unit(),
            r.sp_time_zone() == self.sp_time_zone(),
            r.sp_name() == self.sp_name(),
    {
        self.phys.rechunk().into_datetime(self.time_unit, clone_tz(&self.time_zone))
    }

    pub fn reverse(&self) -> (r: Self)
        requires
            self.wf(),
        ensures
            r.wf(),
            r.sp_phys() == Seq::new(
                self.sp_phys().len(),
                |i: int| self.sp_phys()[self.sp_phys().len() - 1 - i],
            ),
            r.sp_time_unit() == self.sp_time_unit(),
            r.sp_time_zone() == self.sp_time_zone(),
    {
        self.phys.reverse().into_datetime(self.time_unit, clone_tz(&self.time_zone))
    }

    pub fn shift(&self, periods: i64) -> (r: Self)
        requires
            self.wf(),
            self.sp_phys().len() <= i64::MAX,
        ensures
            r.wf(),
            r.sp_phys() == Seq::new(
                self.sp_phys().len(),
                |i: int|
                    if 0 <= i - periods < self.sp_phys().len() {
                        self.sp_phys()[i - periods]
                    } else {
                        None
                    },
            ),
            r.sp_time_unit() == self.sp_time_unit(),
            r.sp_time_zone() == self.sp_time_zone(),
    {
        self.phys.shift(periods).into_datetime(self.time_unit, clone_tz(&self.time_zone))
    }

    pub fn new_from_index(&self, index: usize, length: usize) -> (r: Self)
        requires
            self.wf(),
            index < self.sp_phys().len(),
        ensures
            r.wf(),
            r.sp_phys() == Seq::new(length as nat, |i: int| self.sp_phys()[index as int]),
            r.sp_time_unit() == self.sp_time_unit(),
            r.sp_time_zone() == self.sp_time_zone(),
    {
        self.phys.new_from_index(index, length).into_datetime(
            self.time_unit,
            clone_tz(&self.time_zone),
        )
    }

    pub fn filter(&self, mask: &BooleanChunked) -> (r: PolarsResult<Self>)
        requires
            self.wf(),
            mask.wf(),
        ensures
            r is Ok <==> mask@.len() == self.sp_phys().len(),
            match r {
                Ok(ca) => {
                    &&& ca.wf()
                    &&& ca.sp_phys() == sp_filter(self.sp_phys(), mask@)
                    &&& ca.sp_time_unit() == self.sp_time_unit()
                    &&& ca.sp_time_zone() == self.sp_time_zone()
                },
                Err(_) => true,
            },
    {
        match self.phys.filter(mask) {
            Ok(ca) => Ok(ca.into_datetime(self.time_unit, clone_tz(&self.time_zone))),
            Err(e) => Err(e),
        }
    }

    pub fn take(&self, indices: &Vec<usize>) -> (r: Self)
        requires
            self.wf(),
            forall|i: int| 0 <= i < indices@.len() ==> indices@[i] < self.sp_phys().len(),
        ensures
            r.wf(),
            r.sp_phys() == Seq::new(indices@.len(), |i: int| self.sp_phys()[indices@[i] as int]),
            r.sp_time_unit() == self.sp_time_unit(),
            r.sp_time_zone() == self.sp_time_zone(),
    {
        self.phys.take(indices).into_datetime(self.time_unit, clone_tz(&self.time_zone))
    }

    /// Element-wise choice between two datetime columns of one dtype.
    pub fn zip_with_same_type(&self, mask: &BooleanChunked, other: &Self) -> (r: PolarsResult<
        Self,
    >)
        requires
            self.wf(),
            mask.wf(),
            other.wf(),
            other.sp_time_unit() == self.sp_time_unit(),
            other.sp_time_zone() == self.sp_time_zone(),
        ensures
            r is Ok <==> (mask@.len() == self.sp_phys().len() && other.sp_phys().len()
                == self.sp_phys().len()),
            match r {
                Ok(ca) => {
                    &&& ca.wf()
                    &&& ca.sp_phys() == Seq::new(
                        self.sp_phys().len(),
                        |i: int|
                            if mask@[i] == Some(true) {
                                self.sp_phys()[i]
                            } else {
                                other.sp_phys()[i]
                            },
                    )
                    &&& ca.sp_time_unit() == self.sp_time_unit()
                    &&& ca.sp_time_zone() == self.sp_time_zone()
                },
                Err(_) => true,
            },
    {
        match self.phys.zip_with(mask, &other.phys) {
            Ok(ca) => Ok(ca.into_datetime(self.time_unit, clone_tz(&self.time_zone))),
            Err(e) => Err(e),
        }
    }

    /// Append another datetime column in place; its dtype must match.
    pub fn append(&mut self, other: &Self) -> (r: PolarsResult<()>)
        requires
            old(self).wf(),
            other.wf(),
            old(self).sp_phys().len() + other.sp_phys().len() <= usize::MAX,
        ensures
            r is Ok <==> (other.sp_time_unit() == old(self).sp_time_unit()
                && other.sp_time_zone() == old(self).sp_time_zone()),
            final(self).wf(),
            final(self).sp_time_unit() == old(self).sp_time_unit(),
            final(self).sp_time_zone() == old(self).sp_time_zone(),
            final(self).sp_name() == old(self).sp_name(),
            match r {
                Ok(()) => final(self).sp_phys() == old(self).sp_phys() + other.sp_phys(),
                Err(e) => {
                    &&& final(self).sp_phys() == old(self).sp_phys()
                    &&& e is SchemaMismatch
                },
            },
    {
        if self.time_unit == other.time_unit && tz_eq(&self.time_zone, &other.time_zone) {
            proof {
                assert(sp_tz_of(&self.time_zone) == sp_tz_of(&other.time_zone));
            }
            match self.phys.append(&other.phys) {
                Ok(()) => Ok(()),
                Err(e) => Err(e),
            }
        } else {
            Err(
                PolarsError::SchemaMismatch {
                    expected: self.dtype(),
                    found: other.dtype(),
                },
            )
        }
    }

    /// Append, taking ownership of the other column; its dtype must match.
    pub fn append_owned(&mut self, other: Self) -> (r: PolarsResult<()>)
        requires
            old(self).wf(),
            other.wf(),
            old(self).sp_phys().len() + other.sp_phys().len() <= usize::MAX,
        ensures
            r is Ok <==> (other.sp_time_unit() == old(self).sp_time_unit()
                && other.sp_time_zone() == old(self).sp_time_zone()),
            final(self).wf(),
            final(self).sp_time_unit() == old(self).sp_time_unit(),
            final(self).sp_time_zone() == old(self).sp_time_zone(),
            final(self).sp_name() == old(self).sp_name(),
            match r {
                Ok(()) => final(self).sp_phys() == old(self).sp_phys() + other.sp_phys(),
                Err(_) => final(self).sp_phys() == old(self).sp_phys(),
            },
    {
        self.append(&other)
    }

    /// Split the column in two at `offset`, keeping the metadata on both
    /// halves.
    pub fn split_at(&self, offset: i64) -> (r: (Self, Self))
        requires
            self.wf(),
            self.sp_phys().len() <= i64::MAX,
        ensures
            r.0.wf(),
            r.1.wf(),
            r.0.sp_phys() + r.1.sp_phys() == self.sp_phys(),
            r.0.sp_time_unit() == self.sp_time_unit(),
            r.1.sp_time_unit() == self.sp_time_unit(),
            r.0.sp_time_zone() == self.sp_time_zone(),
            r.1.sp_time_zone() == self.sp_time_zone(),
    {
        let (head, tail) = self.phys.split_at(offset);
        (
            head.into_datetime(self.time_unit, clone_tz(&self.time_zone)),
            tail.into_datetime(self.time_unit, clone_tz(&self.time_zone)),
        )
    }

    /// Extend in place without a new chunk; the other column's dtype must
    /// match.
    pub fn extend(&mut self, other: &Self) -> (r: PolarsResult<()>)
        requires
            old(self).wf(),
            other.wf(),
            old(self).sp_phys().len() + other.sp_phys().len() <= usize::MAX,
        ensures
            r is Ok <==> (other.sp_time_unit() == old(self).sp_time_unit()
                && other.sp_time_zone() == old(self).sp_time_zone()),
            final(self).wf(),
            final(self).sp_time_unit() == old(self).sp_time_unit(),
            final(self).sp_time_zone() == old(self).sp_time_zone(),
            final(self).sp_name() == old(self).sp_name(),
            match r {
                Ok(()) => final(self).sp_phys() == old(self).sp_phys() + other.sp_phys(),
                Err(_) => final(self).sp_phys() == old(self).sp_phys(),
            },
    {
        if self.time_unit == other.time_unit && tz_eq(&self.time_zone, &other.time_zone) {
            match self.phys.extend(&other.phys) {
                Ok(()) => Ok(()),
                Err(e) => Err(e),
            }
        } else {
            Err(
                PolarsError::SchemaMismatch {
                    expected: self.dtype(),
                    found: other.dtype(),
                },
            )
        }
    }

    /// Sort the physical values, then re-attach the metadata.
    pub fn sort_with(&self, descending: bool, nulls_last: bool) -> (r: Self)
        requires
            self.wf(),
        ensures
            r.wf(),
            r.sp_phys().len() == self.sp_phys().len(),
            sp_null_count(r.sp_phys()) == sp_null_count(self.sp_phys()),
            crate::chunked::sp_present_vals(r.sp_phys()).to_multiset()
                == crate::chunked::sp_present_vals(self.sp_phys()).to_multiset(),
            ({
                let nc = sp_null_count(self.sp_phys());
                let np = self.sp_phys().len() - nc;
                if nulls_last {
                    crate::chunked::sp_sorted_run(r.sp_phys(), 0, np, descending)
                } else {
                    crate::chunked::sp_sorted_run(
                        r.sp_phys(),
                        nc,
                        r.sp_phys().len() as int,
                        descending,
                    )
                }
            }),
            r.sp_time_unit() == self.sp_time_unit(),
            r.sp_time_zone() == self.sp_time_zone(),
    {
        self.phys.sort_with(descending, nulls_last).into_datetime(
            self.time_unit,
            clone_tz(&self.time_zone),
        )
    }

    /// The smallest present timestamp, in this column's unit.
    pub fn min_reduce(&self) -> (r: Option<i64>)
        requires
            self.wf(),
        ensures
            match r {
                Some(m) => (exists|i: int|
                    0 <= i < self.sp_phys().len() && self.sp_phys()[i] == Some(m)) && (forall|
                    i: int,
                |
                    0 <= i < self.sp_phys().len() && self.sp_phys()[i] is Some ==> m <= (
                    #[trigger] self.sp_phys()[i])->0),
                None => forall|i: int| 0 <= i < self.sp_phys().len() ==> self.sp_phys()[i] is None,
            },
    {
        self.phys.min()
    }

    /// The largest present timestamp, in this column's unit.
    pub fn max_reduce(&self) -> (r: Option<i64>)
        requires
            self.wf(),
        ensures
            match r {
                Some(m) => (exists|i: int|
                    0 <= i < self.sp_phys().len() && self.sp_phys()[i] == Some(m)) && (forall|
                    i: int,
                |
                    0 <= i < self.sp_phys().len() && self.sp_phys()[i] is Some ==> m >= (
                    #[trigger] self.sp_phys()[i])->0),
                None => forall|i: int| 0 <= i < self.sp_phys().len() ==> self.sp_phys()[i] is None,
            },
    {
        self.phys.max()
    }
}

impl DurationChunked {
    pub closed spec fn sp_phys(&self) -> Seq<Option<i64>> {
        self.phys@
    }

    pub closed spec fn wf(&self) -> bool {
        self.phys.wf()
    }

    pub closed spec fn sp_time_unit(&self) -> TimeUnit {
        self.time_unit
    }

    pub closed spec fn sp_name(&self) -> Seq<char> {
        self.phys.sp_name()
    }

    pub fn physical(&self) -> (r: &Int64Chunked)
        ensures
            r@ == self.sp_phys(),
            r.wf() == self.wf(),
            r.sp_name() == self.sp_name(),
    {
        &self.phys
    }

    pub fn time_unit(&self) -> (r: TimeUnit)
        ensures
            r == self.sp_time_unit(),
    {
        self.time_unit
    }

    pub fn dtype(&self) -> (d: DataType)
        ensures
            d == DataType::Duration(self.sp_time_unit()),
    {
        DataType::Duration(self.time_unit)
    }

    pub fn name(&self) -> (r: &String)
        ensures
            r@ == self.sp_name(),
    {
        self.phys.name()
    }

    pub fn len(&self) -> (r: usize)
        requires
            self.wf(),
        ensures
            r == self.sp_phys().len(),
    {
        self.phys.len()
    }
}

} // verus!
