//! String columns. A string column compares exactly as its UTF-8 bytes do:
//! every comparison delegates to the binary column it wraps, whose
//! byte-lexicographic order coincides with code-point order.

use vstd::prelude::*;
use vstd::string::StringSliceAdditionalSpecFns;
use crate::chunked::{BinaryChunked, BooleanChunked};
use crate::compare::{sp_broadcastable, sp_missing_eq, sp_strict_eq, sp_strict_ord};

verus! {

/// A column of strings, stored as their UTF-8 bytes.
pub struct StringChunked {
    ca: BinaryChunked,
}

impl View for StringChunked {
    type V = Seq<Option<Seq<u8>>>;

    closed spec fn view(&self) -> Seq<Option<Seq<u8>>> {
        self.ca@
    }
}

impl StringChunked {
    pub closed spec fn wf(&self) -> bool {
        self.ca.wf()
    }

    pub closed spec fn sp_name(&self) -> Seq<char> {
        self.ca.sp_name()
    }

    /// The same column seen as its UTF-8 bytes.
    pub fn as_binary(&self) -> (r: &BinaryChunked)
        ensures
            r@ == self@,
            r.wf() == self.wf(),
            r.sp_name() == self.sp_name(),
    {
        &self.ca
    }

    /// A string column over a binary column already holding UTF-8 bytes.
    pub fn from_binary(ca: BinaryChunked) -> (r: StringChunked)
        ensures
            r@ == ca@,
            r.wf() == ca.wf(),
            r.sp_name() == ca.sp_name(),
    {
        StringChunked { ca }
    }

    /// A column copied from a slice of strings, none of them missing.
    pub fn from_slice(name: String, v: &[&str]) -> (r: StringChunked)
        ensures
            r.wf(),
            r@ == Seq::new(v@.len(), |i: int| Some(v@[i].spec_bytes())),
            r.sp_name() == name@,
    {
        let mut arr: Vec<Option<Vec<u8>>> = Vec::new();
        let n = v.len();
        let mut i: usize = 0;
        while i < n
            invariant
                n == v@.len(),
                0 <= i <= n,
                arr@.len() == i,
                forall|j: int|
                    0 <= j < i ==> #[trigger] arr.deep_view()[j] == Some(v@[j].spec_bytes()),
            decreases n - i,
        {
            let ghost prev = arr.deep_view();
            let bytes = vstd::slice::slice_to_vec(v[i].as_bytes());
            proof {
                assert(bytes.deep_view() =~= v@[i as int].spec_bytes());
            }
            arr.push(Some(bytes));
            proof {
                assert(arr.deep_view() =~= prev.push(Some(v@[i as int].spec_bytes())));
            }
            i += 1;
        }
        proof {
            assert(arr.deep_view() =~= Seq::new(v@.len(), |i: int| Some(v@[i].spec_bytes())));
        }
        StringChunked { ca: BinaryChunked::with_chunk(name, arr) }
    }

    pub fn len(&self) -> (r: usize)
        requires
            self.wf(),
        ensures
            r == self@.len(),
    {
        self.ca.len()
    }

    /// Take `length` values starting at `offset`, clamped as a binary
    /// column's slice is.
    pub fn slice(&self, offset: i64, length: usize) -> (r: StringChunked)
        requires
            self.wf(),
            self@.len() <= i64::MAX,
        ensures
            r.wf(),
            r@ == self@.subrange(
                crate::chunked::sp_slice_start(self@.len() as int, offset as int),
                crate::chunked::sp_slice_start(self@.len() as int, offset as int)
                    + crate::chunked::sp_slice_len(
                    self@.len() as int,
                    offset as int,
                    length as int,
                ),
            ),
            r.sp_name() == self.sp_name(),
    {
        StringChunked { ca: self.ca.slice(offset, length) }
    }

    pub fn equal(&self, rhs: &StringChunked) -> (r: BooleanChunked)
        requires
            self.wf(),
            rhs.wf(),
            sp_broadcastable(self@.len(), rhs@.len()),
        ensures
            r.wf(),
            r@ == sp_strict_eq::<Vec<u8>>(false, self@, rhs@),
    {
        self.as_binary().equal(rhs.as_binary())
    }

    pub fn equal_missing(&self, rhs: &StringChunked) -> (r: BooleanChunked)
        requires
            self.wf(),
            rhs.wf(),
            sp_broadcastable(self@.len(), rhs@.len()),
        ensures
            r.wf(),
            r@ == sp_missing_eq::<Vec<u8>>(false, self@, rhs@),
    {
        self.as_binary().equal_missing(rhs.as_binary())
    }

    pub fn not_equal(&self, rhs: &StringChunked) -> (r: BooleanChunked)
        requires
            self.wf(),
            rhs.wf(),
            sp_broadcastable(self@.len(), rhs@.len()),
        ensures
            r.wf(),
            r@ == sp_strict_eq::<Vec<u8>>(true, self@, rhs@),
    {
        self.as_binary().not_equal(rhs.as_binary())
    }

    pub fn not_equal_missing(&self, rhs: &StringChunked) -> (r: BooleanChunked)
        requires
            self.wf(),
            rhs.wf(),
            sp_broadcastable(self@.len(), rhs@.len()),
        ensures
            r.wf(),
            r@ == sp_missing_eq::<Vec<u8>>(true, self@, rhs@),
    {
        self.as_binary().not_equal_missing(rhs.as_binary())
    }

    pub fn lt(&self, rhs: &StringChunked) -> (r: BooleanChunked)
        requires
            self.wf(),
            rhs.wf(),
            sp_broadcastable(self@.len(), rhs@.len()),
        ensures
            r.wf(),
            r@ == sp_strict_ord::<Vec<u8>>(false, self@, rhs@),
    {
        self.as_binary().lt(rhs.as_binary())
    }

    pub fn lt_eq(&self, rhs: &StringChunked) -> (r: BooleanChunked)
        requires
            self.wf(),
            rhs.wf(),
            sp_broadcastable(self@.len(), rhs@.len()),
        ensures
            r.wf(),
            r@ == sp_strict_ord::<Vec<u8>>(true, self@, rhs@),
    {
        self.as_binary().lt_eq(rhs.as_binary())
    }

    /// The swapped-operand call of [`Self::lt`].
    pub fn gt(&self, rhs: &StringChunked) -> (r: BooleanChunked)
        requires
            self.wf(),
            rhs.wf(),
            sp_broadcastable(self@.len(), rhs@.len()),
        ensures
            r.wf(),
            r@ == sp_strict_ord::<Vec<u8>>(false, rhs@, self@),
    {
        self.as_binary().gt(rhs.as_binary())
    }

    /// The swapped-operand call of [`Self::lt_eq`].
    pub fn gt_eq(&self, rhs: &StringChunked) -> (r: BooleanChunked)
        requires
            self.wf(),
            rhs.wf(),
            sp_broadcastable(self@.len(), rhs@.len()),
        ensures
            r.wf(),
            r@ == sp_strict_ord::<Vec<u8>>(true, rhs@, self@),
    {
        self.as_binary().gt_eq(rhs.as_binary())
    }
}

} // verus!
