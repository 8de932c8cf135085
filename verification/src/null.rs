//! The degenerate all-null column kind, and its comparison rules: any
//! strict or ordering comparison of two all-null columns is all-missing;
//! missing-aware equality is a constant boolean sized to the broadcast
//! length, by the rule "missing equals missing".

use vstd::prelude::*;
use crate::chunked::{clone_string, BooleanChunked};
use crate::compare::sp_broadcastable;

verus! {

/// A column every value of which is missing: only a name and a length.
pub struct NullChunked {
    name: String,
    length: usize,
}

impl NullChunked {
    /// The column's length.
    pub closed spec fn sp_len(&self) -> nat {
        self.length as nat
    }

    /// The column's name.
    pub closed spec fn sp_name(&self) -> Seq<char> {
        self.name@
    }

    pub fn new(name: String, length: usize) -> (r: NullChunked)
        ensures
            r.sp_len() == length,
            r.sp_name() == name@,
    {
        NullChunked { name, length }
    }

    pub fn name(&self) -> (r: &String)
        ensures
            r@ == self.sp_name(),
    {
        &self.name
    }

    pub fn len(&self) -> (r: usize)
        ensures
            r == self.sp_len(),
    {
        self.length
    }

    /// Strict equality of two all-null columns: all-missing.
    pub fn equal(&self, rhs: &NullChunked) -> (r: BooleanChunked)
        requires
            sp_broadcastable(self.sp_len(), rhs.sp_len()),
        ensures
            r.wf(),
            r@ == Seq::new(sp_null_broadcast_len(self.sp_len(), rhs.sp_len()), |i: int| None::<bool>),
            r.sp_name() == self.sp_name(),
    {
        let name = clone_string(self.name());
        BooleanChunked::full_null(name, get_broadcast_length(self, rhs))
    }

    /// Missing-aware equality of two all-null columns: all-true, since
    /// missing equals missing.
    pub fn equal_missing(&self, rhs: &NullChunked) -> (r: BooleanChunked)
        requires
            sp_broadcastable(self.sp_len(), rhs.sp_len()),
        ensures
            r.wf(),
            r@ == Seq::new(
                sp_null_broadcast_len(self.sp_len(), rhs.sp_len()),
                |i: int| Some(true),
            ),
            r.sp_name() == self.sp_name(),
    {
        let name = clone_string(self.name());
        let len = get_broadcast_length(self, rhs);
        BooleanChunked::full(name, &true, len)
    }

    /// Strict inequality of two all-null columns: all-missing.
    pub fn not_equal(&self, rhs: &NullChunked) -> (r: BooleanChunked)
        requires
            sp_broadcastable(self.sp_len(), rhs.sp_len()),
        ensures
            r.wf(),
            r@ == Seq::new(sp_null_broadcast_len(self.sp_len(), rhs.sp_len()), |i: int| None::<bool>),
            r.sp_name() == self.sp_name(),
    {
        let name = clone_string(self.name());
        BooleanChunked::full_null(name, get_broadcast_length(self, rhs))
    }

    /// Missing-aware inequality of two all-null columns: all-false.
    pub fn not_equal_missing(&self, rhs: &NullChunked) -> (r: BooleanChunked)
        requires
            sp_broadcastable(self.sp_len(), rhs.sp_len()),
        ensures
            r.wf(),
            r@ == Seq::new(
                sp_null_broadcast_len(self.sp_len(), rhs.sp_len()),
                |i: int| Some(false),
            ),
            r.sp_name() == self.sp_name(),
    {
        let name = clone_string(self.name());
        let len = get_broadcast_length(self, rhs);
        BooleanChunked::full(name, &false, len)
    }

    /// Any ordering comparison of two all-null columns: all-missing.
    pub fn gt(&self, rhs: &NullChunked) -> (r: BooleanChunked)
        requires
            sp_broadcastable(self.sp_len(), rhs.sp_len()),
        ensures
            r.wf(),
            r@ == Seq::new(sp_null_broadcast_len(self.sp_len(), rhs.sp_len()), |i: int| None::<bool>),
            r.sp_name() == self.sp_name(),
    {
        let name = clone_string(self.name());
        BooleanChunked::full_null(name, get_broadcast_length(self, rhs))
    }

    pub fn gt_eq(&self, rhs: &NullChunked) -> (r: BooleanChunked)
        requires
            sp_broadcastable(self.sp_len(), rhs.sp_len()),
        ensures
            r.wf(),
            r@ == Seq::new(sp_null_broadcast_len(self.sp_len(), rhs.sp_len()), |i: int| None::<bool>),
            r.sp_name() == self.sp_name(),
    {
        let name = clone_string(self.name());
        BooleanChunked::full_null(name, get_broadcast_length(self, rhs))
    }

    pub fn lt(&self, rhs: &NullChunked) -> (r: BooleanChunked)
        requires
            sp_broadcastable(self.sp_len(), rhs.sp_len()),
        ensures
            r.wf(),
            r@ == Seq::new(sp_null_broadcast_len(self.sp_len(), rhs.sp_len()), |i: int| None::<bool>),
            r.sp_name() == self.sp_name(),
    {
        let name = clone_string(self.name());
        BooleanChunked::full_null(name, get_broadcast_length(self, rhs))
    }

    pub fn lt_eq(&self, rhs: &NullChunked) -> (r: BooleanChunked)
        requires
            sp_broadcastable(self.sp_len(), rhs.sp_len()),
        ensures
            r.wf(),
            r@ == Seq::new(sp_null_broadcast_len(self.sp_len(), rhs.sp_len()), |i: int| None::<bool>),
            r.sp_name() == self.sp_name(),
    {
        let name = clone_string(self.name());
        BooleanChunked::full_null(name, get_broadcast_length(self, rhs))
    }
}

/// The broadcast length of two all-null operands.
pub open spec fn sp_null_broadcast_len(la: nat, lb: nat) -> nat {
    if la == 1 {
        lb
    } else {
        la
    }
}

/// The length two all-null columns compare at; non-broadcastable lengths
/// are rejected by precondition.
pub fn get_broadcast_length(lhs: &NullChunked, rhs: &NullChunked) -> (r: usize)
    requires
        sp_broadcastable(lhs.sp_len(), rhs.sp_len()),
    ensures
        r == sp_null_broadcast_len(lhs.sp_len(), rhs.sp_len()),
{
    let len_l = lhs.len();
    let len_r = rhs.len();
    if len_l == 1 {
        len_r
    } else {
        len_l
    }
}

} // verus!
