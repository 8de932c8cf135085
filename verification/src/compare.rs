//! The broadcasting comparison engine.
//!
//! Four comparison families, each in a strict and a missing-aware variant:
//! `equal`, `not_equal`, `less than`, `less than or equal`. `gt`/`gt_eq` are
//! the swapped-operand calls of `lt`/`lt_eq`, never implemented on their own.
//!
//! The broadcast rule is decided before any element-wise work: a length-1
//! operand's single cell (or its missing-ness) is applied against every
//! position of the other operand; equal lengths compare element-wise; any
//! other pair of lengths is rejected by precondition.
//!
//! Strict semantics: a missing operand at a position makes the result
//! missing there. Missing-aware semantics: the result is a total boolean
//! function, missing being a comparable sentinel equal only to itself.

use vstd::prelude::*;
use crate::chunked::{BooleanChunked, ChunkedArray};
use crate::element::{sp_le, EqElement, OrdElement};

verus! {

/// Two column lengths can be compared: equal, or one of them is 1.
pub open spec fn sp_broadcastable(la: nat, lb: nat) -> bool {
    la == lb || la == 1 || lb == 1
}

/// The length of a comparison's result.
pub open spec fn sp_out_len<V>(a: Seq<Option<V>>, b: Seq<Option<V>>) -> nat {
    if a.len() == 1 {
        b.len()
    } else {
        a.len()
    }
}

/// The cell an operand contributes at result position `i`: a length-1
/// operand contributes its single cell everywhere.
pub open spec fn sp_bat<V>(s: Seq<Option<V>>, i: int) -> Option<V> {
    if s.len() == 1 {
        s[0]
    } else {
        s[i]
    }
}

/// The operand index a length-1 operand contributes at result position
/// `i`: always its only cell.
pub open spec fn sp_bidx(len: nat, i: int) -> int {
    if len == 1 {
        0
    } else {
        i
    }
}

/// The name a comparison's result carries: the broadcast-target side's name,
/// or no name for an ordinary element-wise comparison.
pub open spec fn sp_cmp_name<T: DeepView>(a: &ChunkedArray<T>, b: &ChunkedArray<T>) -> Seq<char> {
    if b@.len() == 1 {
        a.sp_name()
    } else if a@.len() == 1 {
        b.sp_name()
    } else {
        Seq::empty()
    }
}

/// Missing-aware equality of two cells: missing equals missing and nothing
/// else.
pub open spec fn sp_opt_eq<T: EqElement>(
    x: Option<<T as DeepView>::V>,
    y: Option<<T as DeepView>::V>,
) -> bool {
    match (x, y) {
        (Some(a), Some(b)) => T::sp_eq(a, b),
        (None, None) => true,
        _ => false,
    }
}

/// Strict equality family: `neg` selects `not_equal`.
pub open spec fn sp_strict_eq<T: EqElement>(
    neg: bool,
    a: Seq<Option<<T as DeepView>::V>>,
    b: Seq<Option<<T as DeepView>::V>>,
) -> Seq<Option<bool>> {
    Seq::new(
        sp_out_len(a, b),
        |i: int|
            match (sp_bat(a, i), sp_bat(b, i)) {
                (Some(x), Some(y)) => Some(neg != T::sp_eq(x, y)),
                _ => None,
            },
    )
}

/// Missing-aware equality family: `neg` selects `not_equal_missing`. Never
/// produces a missing cell.
pub open spec fn sp_missing_eq<T: EqElement>(
    neg: bool,
    a: Seq<Option<<T as DeepView>::V>>,
    b: Seq<Option<<T as DeepView>::V>>,
) -> Seq<Option<bool>> {
    Seq::new(
        sp_out_len(a, b),
        |i: int| Some(neg != sp_opt_eq::<T>(sp_bat(a, i), sp_bat(b, i))),
    )
}

/// Strict ordering family: `with_eq` selects `lt_eq` over `lt`.
pub open spec fn sp_strict_ord<T: OrdElement>(
    with_eq: bool,
    a: Seq<Option<<T as DeepView>::V>>,
    b: Seq<Option<<T as DeepView>::V>>,
) -> Seq<Option<bool>> {
    Seq::new(
        sp_out_len(a, b),
        |i: int|
            match (sp_bat(a, i), sp_bat(b, i)) {
                (Some(x), Some(y)) => Some(
                    if with_eq {
                        sp_le::<T>(x, y)
                    } else {
                        T::sp_lt(x, y)
                    },
                ),
                _ => None,
            },
    )
}

/// The strict equality engine, shared by every element kind.
#[verifier::loop_isolation(false)]
fn strict_eq_engine<T: EqElement>(lhs: &ChunkedArray<T>, rhs: &ChunkedArray<T>, neg: bool) -> (r:
    BooleanChunked)
    requires
        lhs.wf(),
        rhs.wf(),
        sp_broadcastable(lhs@.len(), rhs@.len()),
    ensures
        r.wf(),
        r@ == sp_strict_eq::<T>(neg, lhs@, rhs@),
        r.sp_name() == sp_cmp_name(lhs, rhs),
{
    let ghost out = sp_strict_eq::<T>(neg, lhs@, rhs@);
    if rhs.len() == 1 {
        match rhs.get(0) {
            Some(v) => {
                let n = lhs.len();
                let mut arr: Vec<Option<bool>> = Vec::new();
                let mut i: usize = 0;
                while i < n
                    invariant
                        0 <= i <= n,
                        arr@.len() == i,
                        forall|j: int| 0 <= j < i ==> #[trigger] arr@[j] == out[j],
                    decreases n - i,
                {
                    match lhs.get(i) {
                        Some(x) => {
                            let eq = T::el_eq(x, v);
                            arr.push(Some(if neg {
                                !eq
                            } else {
                                eq
                            }));
                        },
                        None => {
                            arr.push(None);
                        },
                    }
                    i += 1;
                }
                proof {
                    assert(arr.deep_view() =~= out);
                }
                let name = crate::chunked::clone_string(lhs.name());
                BooleanChunked::with_chunk(name, arr)
            },
            None => {
                let name = crate::chunked::clone_string(lhs.name());
                let r = BooleanChunked::full_null(name, lhs.len());
                proof {
                    assert(r@ =~= out);
                }
                r
            },
        }
    } else if lhs.len() == 1 {
        match lhs.get(0) {
            Some(v) => {
                let n = rhs.len();
                let mut arr: Vec<Option<bool>> = Vec::new();
                let mut i: usize = 0;
                while i < n
                    invariant
                        0 <= i <= n,
                        arr@.len() == i,
                        forall|j: int| 0 <= j < i ==> #[trigger] arr@[j] == out[j],
                    decreases n - i,
                {
                    match rhs.get(i) {
                        Some(y) => {
                            let eq = T::el_eq(v, y);
                            arr.push(Some(if neg {
                                !eq
                            } else {
                                eq
                            }));
                        },
                        None => {
                            arr.push(None);
                        },
                    }
                    i += 1;
                }
                proof {
                    assert(arr.deep_view() =~= out);
                }
                let name = crate::chunked::clone_string(rhs.name());
                BooleanChunked::with_chunk(name, arr)
            },
            None => {
                let name = crate::chunked::clone_string(rhs.name());
                let r = BooleanChunked::full_null(name, rhs.len());
                proof {
                    assert(r@ =~= out);
                }
                r
            },
        }
    } else {
        let n = lhs.len();
        let mut arr: Vec<Option<bool>> = Vec::new();
        let mut i: usize = 0;
        while i < n
            invariant
                0 <= i <= n,
                arr@.len() == i,
                forall|j: int| 0 <= j < i ==> #[trigger] arr@[j] == out[j],
            decreases n - i,
        {
            match (lhs.get(i), rhs.get(i)) {
                (Some(x), Some(y)) => {
                    let eq = T::el_eq(x, y);
                    arr.push(Some(if neg {
                        !eq
                    } else {
                        eq
                    }));
                },
                _ => {
                    arr.push(None);
                },
            }
            i += 1;
        }
        proof {
            assert(arr.deep_view() =~= out);
        }
        BooleanChunked::with_chunk(String::new(), arr)
    }
}

/// The missing-aware equality engine, shared by every element kind.
#[verifier::loop_isolation(false)]
fn missing_eq_engine<T: EqElement>(lhs: &ChunkedArray<T>, rhs: &ChunkedArray<T>, neg: bool) -> (r:
    BooleanChunked)
    requires
        lhs.wf(),
        rhs.wf(),
        sp_broadcastable(lhs@.len(), rhs@.len()),
    ensures
        r.wf(),
        r@ == sp_missing_eq::<T>(neg, lhs@, rhs@),
        r.sp_name() == sp_cmp_name(lhs, rhs),
{
    let ghost out = sp_missing_eq::<T>(neg, lhs@, rhs@);
    if rhs.len() == 1 {
        match rhs.get(0) {
            Some(v) => {
                let n = lhs.len();
                let mut arr: Vec<Option<bool>> = Vec::new();
                let mut i: usize = 0;
                while i < n
                    invariant
                        0 <= i <= n,
                        arr@.len() == i,
                        forall|j: int| 0 <= j < i ==> #[trigger] arr@[j] == out[j],
                    decreases n - i,
                {
                    let cell = match lhs.get(i) {
                        Some(x) => T::el_eq(x, v),
                        None => false,
                    };
                    arr.push(Some(if neg {
                        !cell
                    } else {
                        cell
                    }));
                    i += 1;
                }
                proof {
                    assert(arr.deep_view() =~= out);
                }
                let name = crate::chunked::clone_string(lhs.name());
                BooleanChunked::with_chunk(name, arr)
            },
            None => {
                let r = if neg {
                    lhs.is_not_null()
                } else {
                    lhs.is_null()
                };
                proof {
                    assert(r@ =~= out);
                }
                r
            },
        }
    } else if lhs.len() == 1 {
        match lhs.get(0) {
            Some(v) => {
                let n = rhs.len();
                let mut arr: Vec<Option<bool>> = Vec::new();
                let mut i: usize = 0;
                while i < n
                    invariant
                        0 <= i <= n,
                        arr@.len() == i,
                        forall|j: int| 0 <= j < i ==> #[trigger] arr@[j] == out[j],
                    decreases n - i,
                {
                    let cell = match rhs.get(i) {
                        Some(y) => T::el_eq(v, y),
                        None => false,
                    };
                    arr.push(Some(if neg {
                        !cell
                    } else {
                        cell
                    }));
                    i += 1;
                }
                proof {
                    assert(arr.deep_view() =~= out);
                }
                let name = crate::chunked::clone_string(rhs.name());
                BooleanChunked::with_chunk(name, arr)
            },
            None => {
                let r = if neg {
                    rhs.is_not_null()
                } else {
                    rhs.is_null()
                };
                proof {
                    assert(r@ =~= out);
                }
                r
            },
        }
    } else {
        let n = lhs.len();
        let mut arr: Vec<Option<bool>> = Vec::new();
        let mut i: usize = 0;
        while i < n
            invariant
                0 <= i <= n,
                arr@.len() == i,
                forall|j: int| 0 <= j < i ==> #[trigger] arr@[j] == out[j],
            decreases n - i,
        {
            let cell = match (lhs.get(i), rhs.get(i)) {
                (Some(x), Some(y)) => T::el_eq(x, y),
                (None, None) => true,
                _ => false,
            };
            arr.push(Some(if neg {
                !cell
            } else {
                cell
            }));
            i += 1;
        }
        proof {
            assert(arr.deep_view() =~= out);
        }
        BooleanChunked::with_chunk(String::new(), arr)
    }
}

/// The strict ordering engine, shared by every ordered element kind. The
/// operands arrive in argument order; a broadcast of the left-hand side
/// compares the single cell against each right-hand cell in that same order.
#[verifier::loop_isolation(false)]
fn strict_ord_engine<T: OrdElement>(lhs: &ChunkedArray<T>, rhs: &ChunkedArray<T>, with_eq: bool) -> (r:
    BooleanChunked)
    requires
        lhs.wf(),
        rhs.wf(),
        sp_broadcastable(lhs@.len(), rhs@.len()),
    ensures
        r.wf(),
        r@ == sp_strict_ord::<T>(with_eq, lhs@, rhs@),
        r.sp_name() == sp_cmp_name(lhs, rhs),
{
    let ghost out = sp_strict_ord::<T>(with_eq, lhs@, rhs@);
    if rhs.len() == 1 {
        match rhs.get(0) {
            Some(v) => {
                let n = lhs.len();
                let mut arr: Vec<Option<bool>> = Vec::new();
                let mut i: usize = 0;
                while i < n
                    invariant
                        0 <= i <= n,
                        arr@.len() == i,
                        forall|j: int| 0 <= j < i ==> #[trigger] arr@[j] == out[j],
                    decreases n - i,
                {
                    match lhs.get(i) {
                        Some(x) => {
                            let c = if with_eq {
                                T::el_lt(x, v) || T::el_eq(x, v)
                            } else {
                                T::el_lt(x, v)
                            };
                            arr.push(Some(c));
                        },
                        None => {
                            arr.push(None);
                        },
                    }
                    i += 1;
                }
                proof {
                    assert(arr.deep_view() =~= out);
                }
                let name = crate::chunked::clone_string(lhs.name());
                BooleanChunked::with_chunk(name, arr)
            },
            None => {
                let name = crate::chunked::clone_string(lhs.name());
                let r = BooleanChunked::full_null(name, lhs.len());
                proof {
                    assert(r@ =~= out);
                }
                r
            },
        }
    } else if lhs.len() == 1 {
        match lhs.get(0) {
            Some(v) => {
                let n = rhs.len();
                let mut arr: Vec<Option<bool>> = Vec::new();
                let mut i: usize = 0;
                while i < n
                    invariant
                        0 <= i <= n,
                        arr@.len() == i,
                        forall|j: int| 0 <= j < i ==> #[trigger] arr@[j] == out[j],
                    decreases n - i,
                {
                    match rhs.get(i) {
                        Some(y) => {
                            let c = if with_eq {
                                T::el_lt(v, y) || T::el_eq(v, y)
                            } else {
                                T::el_lt(v, y)
                            };
                            arr.push(Some(c));
                        },
                        None => {
                            arr.push(None);
                        },
                    }
                    i += 1;
                }
                proof {
                    assert(arr.deep_view() =~= out);
                }
                let name = crate::chunked::clone_string(rhs.name());
                BooleanChunked::with_chunk(name, arr)
            },
            None => {
                let name = crate::chunked::clone_string(rhs.name());
                let r = BooleanChunked::full_null(name, rhs.len());
                proof {
                    assert(r@ =~= out);
                }
                r
            },
        }
    } else {
        let n = lhs.len();
        let mut arr: Vec<Option<bool>> = Vec::new();
        let mut i: usize = 0;
        while i < n
            invariant
                0 <= i <= n,
                arr@.len() == i,
                forall|j: int| 0 <= j < i ==> #[trigger] arr@[j] == out[j],
            decreases n - i,
        {
            match (lhs.get(i), rhs.get(i)) {
                (Some(x), Some(y)) => {
                    let c = if with_eq {
                        T::el_lt(x, y) || T::el_eq(x, y)
                    } else {
                        T::el_lt(x, y)
                    };
                    arr.push(Some(c));
                },
                _ => {
                    arr.push(None);
                },
            }
            i += 1;
        }
        proof {
            assert(arr.deep_view() =~= out);
        }
        BooleanChunked::with_chunk(String::new(), arr)
    }
}

impl<T: EqElement> ChunkedArray<T> {
    /// Strict equality: missing at a position on either side makes the
    /// result missing there.
    pub fn equal(&self, rhs: &Self) -> (r: BooleanChunked)
        requires
            self.wf(),
            rhs.wf(),
            sp_broadcastable(self@.len(), rhs@.len()),
        ensures
            r.wf(),
            r@ == sp_strict_eq::<T>(false, self@, rhs@),
            r.sp_name() == sp_cmp_name(self, rhs),
    {
        strict_eq_engine(self, rhs, false)
    }

    /// Strict inequality.
    pub fn not_equal(&self, rhs: &Self) -> (r: BooleanChunked)
        requires
            self.wf(),
            rhs.wf(),
            sp_broadcastable(self@.len(), rhs@.len()),
        ensures
            r.wf(),
            r@ == sp_strict_eq::<T>(true, self@, rhs@),
            r.sp_name() == sp_cmp_name(self, rhs),
    {
        strict_eq_engine(self, rhs, true)
    }

    /// Missing-aware equality: a total boolean function in which missing is
    /// a comparable value equal only to itself.
    pub fn equal_missing(&self, rhs: &Self) -> (r: BooleanChunked)
        requires
            self.wf(),
            rhs.wf(),
            sp_broadcastable(self@.len(), rhs@.len()),
        ensures
            r.wf(),
            r@ == sp_missing_eq::<T>(false, self@, rhs@),
            r.sp_name() == sp_cmp_name(self, rhs),
    {
        missing_eq_engine(self, rhs, false)
    }

    /// Missing-aware inequality.
    pub fn not_equal_missing(&self, rhs: &Self) -> (r: BooleanChunked)
        requires
            self.wf(),
            rhs.wf(),
            sp_broadcastable(self@.len(), rhs@.len()),
        ensures
            r.wf(),
            r@ == sp_missing_eq::<T>(true, self@, rhs@),
            r.sp_name() == sp_cmp_name(self, rhs),
    {
        missing_eq_engine(self, rhs, true)
    }
}

impl<T: OrdElement> ChunkedArray<T> {
    /// Strictly less than, under strict null semantics.
    pub fn lt(&self, rhs: &Self) -> (r: BooleanChunked)
        requires
            self.wf(),
            rhs.wf(),
            sp_broadcastable(self@.len(), rhs@.len()),
        ensures
            r.wf(),
            r@ == sp_strict_ord::<T>(false, self@, rhs@),
            r.sp_name() == sp_cmp_name(self, rhs),
    {
        strict_ord_engine(self, rhs, false)
    }

    /// Less than or equal, under strict null semantics.
    pub fn lt_eq(&self, rhs: &Self) -> (r: BooleanChunked)
        requires
            self.wf(),
            rhs.wf(),
            sp_broadcastable(self@.len(), rhs@.len()),
        ensures
            r.wf(),
            r@ == sp_strict_ord::<T>(true, self@, rhs@),
            r.sp_name() == sp_cmp_name(self, rhs),
    {
        strict_ord_engine(self, rhs, true)
    }

    /// Strictly greater than: the swapped-operand call of [`Self::lt`],
    /// which makes `a.gt(b) == b.lt(a)` hold by construction.
    pub fn gt(&self, rhs: &Self) -> (r: BooleanChunked)
        requires
            self.wf(),
            rhs.wf(),
            sp_broadcastable(self@.len(), rhs@.len()),
        ensures
            r.wf(),
            r@ == sp_strict_ord::<T>(false, rhs@, self@),
            r.sp_name() == sp_cmp_name(rhs, self),
    {
        rhs.lt(self)
    }

    /// Greater than or equal: the swapped-operand call of [`Self::lt_eq`].
    pub fn gt_eq(&self, rhs: &Self) -> (r: BooleanChunked)
        requires
            self.wf(),
            rhs.wf(),
            sp_broadcastable(self@.len(), rhs@.len()),
        ensures
            r.wf(),
            r@ == sp_strict_ord::<T>(true, rhs@, self@),
            r.sp_name() == sp_cmp_name(rhs, self),
    {
        rhs.lt_eq(self)
    }
}

} // verus!
