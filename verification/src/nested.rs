//! Nested-type comparators: list and fixed-size-array columns.
//!
//! A list cell is itself a sequence of optional inner values; two list cells
//! are equal when they have the same length and agree position by position,
//! a missing inner value being equal only to a missing inner value. That
//! makes a list column an ordinary column over a composite element kind, and
//! the broadcasting comparison engine applies to it unchanged, recursing
//! into the inner element kernel.

use vstd::prelude::*;
use crate::chunked::{BooleanChunked, ChunkedArray};
use crate::compare::{
    sp_broadcastable, sp_cmp_name, sp_missing_eq, sp_opt_eq, sp_strict_eq,
};
use crate::dtype::DataType;
use crate::element::EqElement;

verus! {

/// Structural (positional) equality of two list cells.
pub open spec fn sp_seq_eq<T: EqElement>(
    a: Seq<Option<<T as DeepView>::V>>,
    b: Seq<Option<<T as DeepView>::V>>,
) -> bool {
    a.len() == b.len() && forall|i: int|
        0 <= i < a.len() ==> #[trigger] sp_opt_eq::<T>(a[i], b[i])
}

impl<T: EqElement> EqElement for Vec<Option<T>> {
    open spec fn sp_eq(
        a: Seq<Option<<T as DeepView>::V>>,
        b: Seq<Option<<T as DeepView>::V>>,
    ) -> bool {
        sp_seq_eq::<T>(a, b)
    }

    open spec fn sp_static_dtype() -> DataType {
        DataType::List(Box::new(T::sp_static_dtype()))
    }

    proof fn lemma_eq_refl(a: Seq<Option<<T as DeepView>::V>>) {
        assert forall|i: int| 0 <= i < a.len() implies #[trigger] sp_opt_eq::<T>(a[i], a[i]) by {
            match a[i] {
                Some(x) => {
                    T::lemma_eq_refl(x);
                },
                None => {},
            }
        }
    }

    proof fn lemma_eq_sym(
        a: Seq<Option<<T as DeepView>::V>>,
        b: Seq<Option<<T as DeepView>::V>>,
    ) {
        if sp_seq_eq::<T>(a, b) {
            assert forall|i: int| 0 <= i < b.len() implies #[trigger] sp_opt_eq::<T>(b[i], a[i]) by {
                assert(sp_opt_eq::<T>(a[i], b[i]));
                match (a[i], b[i]) {
                    (Some(x), Some(y)) => {
                        T::lemma_eq_sym(x, y);
                    },
                    _ => {},
                }
            }
            assert(sp_seq_eq::<T>(b, a));
        }
        if sp_seq_eq::<T>(b, a) {
            assert forall|i: int| 0 <= i < a.len() implies #[trigger] sp_opt_eq::<T>(a[i], b[i]) by {
                assert(sp_opt_eq::<T>(b[i], a[i]));
                match (a[i], b[i]) {
                    (Some(x), Some(y)) => {
                        T::lemma_eq_sym(x, y);
                    },
                    _ => {},
                }
            }
            assert(sp_seq_eq::<T>(a, b));
        }
    }

    fn el_eq(a: &Vec<Option<T>>, b: &Vec<Option<T>>) -> (r: bool) {
        let ghost adv = a.deep_view();
        let ghost bdv = b.deep_view();
        if a.len() != b.len() {
            proof {
                assert(adv.len() == a@.len());
                assert(bdv.len() == b@.len());
            }
            return false;
        }
        let n = a.len();
        let mut i: usize = 0;
        while i < n
            invariant
                adv == a.deep_view(),
                bdv == b.deep_view(),
                n == a@.len() == b@.len(),
                0 <= i <= n,
                forall|j: int| 0 <= j < i ==> #[trigger] sp_opt_eq::<T>(adv[j], bdv[j]),
            decreases n - i,
        {
            let ok = match (&a[i], &b[i]) {
                (Some(x), Some(y)) => T::el_eq(x, y),
                (None, None) => true,
                _ => false,
            };
            proof {
                assert(adv[i as int] == a@[i as int].deep_view());
                assert(bdv[i as int] == b@[i as int].deep_view());
            }
            if !ok {
                proof {
                    assert(!sp_opt_eq::<T>(adv[i as int], bdv[i as int]));
                }
                return false;
            }
            i += 1;
        }
        true
    }

    fn el_clone(a: &Vec<Option<T>>) -> (r: Vec<Option<T>>) {
        crate::chunked::clone_chunk(a)
    }

    fn static_dtype() -> (d: DataType) {
        DataType::List(Box::new(T::static_dtype()))
    }
}

/// A column of lists, with 32-bit integer elements inside.
pub type ListChunked = ChunkedArray<Vec<Option<i32>>>;

/// The result selected by the two mode flags of the nested-comparison
/// helpers.
pub open spec fn sp_nested_cmp<T: EqElement>(
    a: Seq<Option<Seq<Option<<T as DeepView>::V>>>>,
    b: Seq<Option<Seq<Option<<T as DeepView>::V>>>>,
    missing: bool,
    is_ne: bool,
) -> Seq<Option<bool>> {
    if missing {
        sp_missing_eq::<Vec<Option<T>>>(is_ne, a, b)
    } else {
        sp_strict_eq::<Vec<Option<T>>>(is_ne, a, b)
    }
}

/// The shared shell of the four list comparisons: broadcast handling and
/// null-mode selection around the structural cell kernel.
pub fn _list_comparison_helper<T: EqElement>(
    lhs: &ChunkedArray<Vec<Option<T>>>,
    rhs: &ChunkedArray<Vec<Option<T>>>,
    missing: bool,
    is_ne: bool,
) -> (r: BooleanChunked)
    requires
        lhs.wf(),
        rhs.wf(),
        sp_broadcastable(lhs@.len(), rhs@.len()),
    ensures
        r.wf(),
        r@ == sp_nested_cmp::<T>(lhs@, rhs@, missing, is_ne),
        r.sp_name() == sp_cmp_name(lhs, rhs),
{
    if missing {
        if is_ne {
            lhs.not_equal_missing(rhs)
        } else {
            lhs.equal_missing(rhs)
        }
    } else {
        if is_ne {
            lhs.not_equal(rhs)
        } else {
            lhs.equal(rhs)
        }
    }
}

/// A column of fixed-size arrays: a list column whose every present cell
/// has the same width.
pub struct ArrayChunked<T> {
    ca: ChunkedArray<Vec<Option<T>>>,
    width: usize,
}

impl<T: EqElement> View for ArrayChunked<T> {
    type V = Seq<Option<Seq<Option<<T as DeepView>::V>>>>;

    closed spec fn view(&self) -> Seq<Option<Seq<Option<<T as DeepView>::V>>>> {
        self.ca@
    }
}

impl<T: EqElement> ArrayChunked<T> {
    /// Invariant: every present cell is exactly `width` wide.
    pub closed spec fn wf(&self) -> bool {
        &&& self.ca.wf()
        &&& forall|i: int|
            0 <= i < self.ca@.len() && self.ca@[i] is Some ==> (#[trigger] self.ca@[i])->0.len()
                == self.width
    }

    pub closed spec fn sp_width(&self) -> nat {
        self.width as nat
    }

    /// The fixed width every present row has.
    pub fn width_of(&self) -> (r: usize)
        ensures
            r == self.sp_width(),
    {
        self.width
    }

    pub closed spec fn sp_name(&self) -> Seq<char> {
        self.ca.sp_name()
    }

    /// Build a fixed-size-array column from rows, each present row exactly
    /// `width` wide.
    pub fn from_rows(name: String, width: usize, rows: Vec<Option<Vec<Option<T>>>>) -> (r: Self)
        requires
            forall|i: int|
                0 <= i < rows@.len() && rows@[i] is Some ==> (#[trigger] rows@[i])->0@.len()
                    == width,
        ensures
            r.wf(),
            r@ == rows.deep_view(),
            r.sp_width() == width,
            r.sp_name() == name@,
    {
        let ca = ChunkedArray::<Vec<Option<T>>>::with_chunk(name, rows);
        proof {
            assert(forall|i: int|
                0 <= i < ca@.len() && ca@[i] is Some ==> (#[trigger] ca@[i])->0.len() == width);
        }
        ArrayChunked { ca, width }
    }

    pub fn len(&self) -> (r: usize)
        requires
            self.wf(),
        ensures
            r == self@.len(),
    {
        self.ca.len()
    }

    /// The column seen as a plain list column.
    pub fn as_list(&self) -> (r: &ChunkedArray<Vec<Option<T>>>)
        ensures
            r@ == self@,
            r.wf() == (self.wf() || r.wf()),
            r.sp_name() == self.sp_name(),
    {
        &self.ca
    }

    pub fn equal(&self, rhs: &Self) -> (r: BooleanChunked)
        requires
            self.wf(),
            rhs.wf(),
            sp_broadcastable(self@.len(), rhs@.len()),
        ensures
            r.wf(),
            r@ == sp_nested_cmp::<T>(self@, rhs@, false, false),
    {
        _array_comparison_helper(self, rhs, false, false)
    }

    pub fn equal_missing(&self, rhs: &Self) -> (r: BooleanChunked)
        requires
            self.wf(),
            rhs.wf(),
            sp_broadcastable(self@.len(), rhs@.len()),
        ensures
            r.wf(),
            r@ == sp_nested_cmp::<T>(self@, rhs@, true, false),
    {
        _array_comparison_helper(self, rhs, true, false)
    }

    pub fn not_equal(&self, rhs: &Self) -> (r: BooleanChunked)
        requires
            self.wf(),
            rhs.wf(),
            sp_broadcastable(self@.len(), rhs@.len()),
        ensures
            r.wf(),
            r@ == sp_nested_cmp::<T>(self@, rhs@, false, true),
    {
        _array_comparison_helper(self, rhs, false, true)
    }

    pub fn not_equal_missing(&self, rhs: &Self) -> (r: BooleanChunked)
        requires
            self.wf(),
            rhs.wf(),
            sp_broadcastable(self@.len(), rhs@.len()),
        ensures
            r.wf(),
            r@ == sp_nested_cmp::<T>(self@, rhs@, true, true),
    {
        _array_comparison_helper(self, rhs, true, true)
    }
}

/// The shared shell of the four fixed-size-array comparisons: identical to
/// the list shell, the width equality being guaranteed by each column's
/// invariant rather than re-checked per cell.
pub fn _array_comparison_helper<T: EqElement>(
    lhs: &ArrayChunked<T>,
    rhs: &ArrayChunked<T>,
    missing: bool,
    is_ne: bool,
) -> (r: BooleanChunked)
    requires
        lhs.wf(),
        rhs.wf(),
        sp_broadcastable(lhs@.len(), rhs@.len()),
    ensures
        r.wf(),
        r@ == sp_nested_cmp::<T>(lhs@, rhs@, missing, is_ne),
        r.sp_name() == (if rhs@.len() == 1 {
            lhs.sp_name()
        } else if lhs@.len() == 1 {
            rhs.sp_name()
        } else {
            Seq::<char>::empty()
        }),
{
    _list_comparison_helper(lhs.as_list(), rhs.as_list(), missing, is_ne)
}

} // verus!
