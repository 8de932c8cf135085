//! Element kernels: the per-physical-kind equality and ordering relations the
//! broadcasting comparison engine is generic over. Each element kind states
//! its relations as spec functions over deep views and provides executable
//! kernels proved against them.

use vstd::prelude::*;
use crate::dtype::DataType;

verus! {

/// An element kind with a total equality kernel. `Self::V` (through
/// [`DeepView`]) is the mathematical value of an element; all contracts of
/// the engine are stated over it.
pub trait EqElement: DeepView + Sized {
    /// What it means for two element values to be equal.
    spec fn sp_eq(a: Self::V, b: Self::V) -> bool;

    /// The logical dtype a column of this element kind carries.
    spec fn sp_static_dtype() -> DataType;

    /// Element equality is reflexive.
    proof fn lemma_eq_refl(a: Self::V)
        ensures
            Self::sp_eq(a, a),
    ;

    /// Element equality is symmetric.
    proof fn lemma_eq_sym(a: Self::V, b: Self::V)
        ensures
            Self::sp_eq(a, b) == Self::sp_eq(b, a),
    ;

    /// Executable equality kernel.
    fn el_eq(a: &Self, b: &Self) -> (r: bool)
        ensures
            r == Self::sp_eq(a.deep_view(), b.deep_view()),
    ;

    /// A copy of the element with the same value.
    fn el_clone(a: &Self) -> (r: Self)
        ensures
            r.deep_view() == a.deep_view(),
    ;

    /// The runtime witness of [`EqElement::sp_static_dtype`].
    fn static_dtype() -> (d: DataType)
        ensures
            d == Self::sp_static_dtype(),
    ;
}

/// An element kind that additionally carries a total order, consistent with
/// its equality: `a <= b` is `sp_lt(a, b) || sp_eq(a, b)`.
pub trait OrdElement: EqElement {
    /// The strict order on element values.
    spec fn sp_lt(a: Self::V, b: Self::V) -> bool;

    /// Executable strict-order kernel.
    fn el_lt(a: &Self, b: &Self) -> (r: bool)
        ensures
            r == Self::sp_lt(a.deep_view(), b.deep_view()),
    ;
}

/// Non-strict order derived from the strict order and equality.
pub open spec fn sp_le<T: OrdElement>(a: T::V, b: T::V) -> bool {
    T::sp_lt(a, b) || T::sp_eq(a, b)
}

impl EqElement for i32 {
    open spec fn sp_eq(a: i32, b: i32) -> bool {
        a == b
    }

    open spec fn sp_static_dtype() -> DataType {
        DataType::Int32
    }

    proof fn lemma_eq_refl(a: i32) {
    }

    proof fn lemma_eq_sym(a: i32, b: i32) {
    }

    fn el_eq(a: &i32, b: &i32) -> (r: bool) {
        *a == *b
    }

    fn el_clone(a: &i32) -> (r: i32) {
        *a
    }

    fn static_dtype() -> (d: DataType) {
        DataType::Int32
    }
}

impl OrdElement for i32 {
    open spec fn sp_lt(a: i32, b: i32) -> bool {
        a < b
    }

    fn el_lt(a: &i32, b: &i32) -> (r: bool) {
        *a < *b
    }
}

impl EqElement for i64 {
    open spec fn sp_eq(a: i64, b: i64) -> bool {
        a == b
    }

    open spec fn sp_static_dtype() -> DataType {
        DataType::Int64
    }

    proof fn lemma_eq_refl(a: i64) {
    }

    proof fn lemma_eq_sym(a: i64, b: i64) {
    }

    fn el_eq(a: &i64, b: &i64) -> (r: bool) {
        *a == *b
    }

    fn el_clone(a: &i64) -> (r: i64) {
        *a
    }

    fn static_dtype() -> (d: DataType) {
        DataType::Int64
    }
}

impl OrdElement for i64 {
    open spec fn sp_lt(a: i64, b: i64) -> bool {
        a < b
    }

    fn el_lt(a: &i64, b: &i64) -> (r: bool) {
        *a < *b
    }
}

impl EqElement for bool {
    open spec fn sp_eq(a: bool, b: bool) -> bool {
        a == b
    }

    open spec fn sp_static_dtype() -> DataType {
        DataType::Boolean
    }

    proof fn lemma_eq_refl(a: bool) {
    }

    proof fn lemma_eq_sym(a: bool, b: bool) {
    }

    fn el_eq(a: &bool, b: &bool) -> (r: bool) {
        *a == *b
    }

    fn el_clone(a: &bool) -> (r: bool) {
        *a
    }

    fn static_dtype() -> (d: DataType) {
        DataType::Boolean
    }
}

impl OrdElement for bool {
    /// The truth order: `false < true`.
    open spec fn sp_lt(a: bool, b: bool) -> bool {
        !a && b
    }

    fn el_lt(a: &bool, b: &bool) -> (r: bool) {
        !*a && *b
    }
}

/// Byte-lexicographic strict order on byte strings.
pub open spec fn sp_lex_lt(a: Seq<u8>, b: Seq<u8>) -> bool
    decreases a.len(),
{
    if b.len() == 0 {
        false
    } else if a.len() == 0 {
        true
    } else if a[0] != b[0] {
        a[0] < b[0]
    } else {
        sp_lex_lt(a.drop_first(), b.drop_first())
    }
}

/// Dropping an equal prefix does not change the lexicographic order.
proof fn lemma_lex_lt_skip(a: Seq<u8>, b: Seq<u8>, i: int)
    requires
        0 <= i <= a.len(),
        i <= b.len(),
        forall|j: int| 0 <= j < i ==> a[j] == b[j],
    ensures
        sp_lex_lt(a, b) == sp_lex_lt(a.skip(i), b.skip(i)),
    decreases i,
{
    if i == 0 {
        assert(a.skip(0) =~= a);
        assert(b.skip(0) =~= b);
    } else {
        assert(a.len() > 0 && b.len() > 0 && a[0] == b[0]);
        assert(sp_lex_lt(a, b) == sp_lex_lt(a.drop_first(), b.drop_first()));
        lemma_lex_lt_skip(a.drop_first(), b.drop_first(), i - 1);
        assert(a.drop_first().skip(i - 1) =~= a.skip(i));
        assert(b.drop_first().skip(i - 1) =~= b.skip(i));
    }
}

impl EqElement for Vec<u8> {
    open spec fn sp_eq(a: Seq<u8>, b: Seq<u8>) -> bool {
        a == b
    }

    open spec fn sp_static_dtype() -> DataType {
        DataType::Binary
    }

    proof fn lemma_eq_refl(a: Seq<u8>) {
    }

    proof fn lemma_eq_sym(a: Seq<u8>, b: Seq<u8>) {
    }

    fn el_eq(a: &Vec<u8>, b: &Vec<u8>) -> (r: bool) {
        if a.len() != b.len() {
            proof {
                assert(a.deep_view().len() == a@.len());
                assert(b.deep_view().len() == b@.len());
            }
            return false;
        }
        let n = a.len();
        let mut i: usize = 0;
        while i < n
            invariant
                n == a@.len() == b@.len(),
                0 <= i <= n,
                forall|j: int| 0 <= j < i ==> a@[j] == b@[j],
            decreases n - i,
        {
            if a[i] != b[i] {
                proof {
                    assert(a.deep_view()[i as int] == a@[i as int]);
                    assert(b.deep_view()[i as int] == b@[i as int]);
                }
                return false;
            }
            i += 1;
        }
        proof {
            assert(a.deep_view() =~= b.deep_view());
        }
        true
    }

    fn el_clone(a: &Vec<u8>) -> (r: Vec<u8>) {
        let r = a.clone();
        proof {
            assert(r.deep_view() =~= a.deep_view());
        }
        r
    }

    fn static_dtype() -> (d: DataType) {
        DataType::Binary
    }
}

impl OrdElement for Vec<u8> {
    open spec fn sp_lt(a: Seq<u8>, b: Seq<u8>) -> bool {
        sp_lex_lt(a, b)
    }

    fn el_lt(a: &Vec<u8>, b: &Vec<u8>) -> (r: bool) {
        let n = if a.len() < b.len() {
            a.len()
        } else {
            b.len()
        };
        let mut i: usize = 0;
        while i < n
            invariant
                n <= a@.len(),
                n <= b@.len(),
                n == a@.len() || n == b@.len(),
                0 <= i <= n,
                forall|j: int| 0 <= j < i ==> a@[j] == b@[j],
            decreases n - i,
        {
            if a[i] != b[i] {
                proof {
                    lemma_lex_lt_skip(a.deep_view(), b.deep_view(), i as int);
                    assert(a.deep_view().skip(i as int)[0] == a@[i as int]);
                    assert(b.deep_view().skip(i as int)[0] == b@[i as int]);
                }
                return a[i] < b[i];
            }
            i += 1;
        }
        proof {
            lemma_lex_lt_skip(a.deep_view(), b.deep_view(), n as int);
            if a.len() <= b.len() {
                assert(a.deep_view().skip(n as int).len() == 0);
            } else {
                assert(b.deep_view().skip(n as int).len() == 0);
            }
        }
        a.len() < b.len()
    }
}

} // verus!
