//! The engine's general laws, each proved once over the comparison specs
//! that every column's contract is stated with.

use vstd::prelude::*;
use crate::boolean::sp_not;
use crate::compare::{
    sp_bat, sp_broadcastable, sp_missing_eq, sp_opt_eq, sp_out_len, sp_strict_eq, sp_strict_ord,
};
use crate::element::{sp_le, EqElement, OrdElement};

verus! {

/// What "greater than" means read in the original operand order: the
/// element relation applied with its sides exchanged, under the same
/// broadcast shell.
pub open spec fn sp_strict_gt<T: OrdElement>(
    with_eq: bool,
    a: Seq<Option<<T as DeepView>::V>>,
    b: Seq<Option<<T as DeepView>::V>>,
) -> Seq<Option<bool>> {
    Seq::new(
        sp_out_len(a, b),
        |i: int|
            match (sp_bat(a, i), sp_bat(b, i)) {
                (Some(x), Some(y)) => Some(
                    if with_eq {
                        sp_le::<T>(y, x)
                    } else {
                        T::sp_lt(y, x)
                    },
                ),
                _ => None,
            },
    )
}

/// Swap symmetry: the swapped-operand call that implements `gt` and
/// `gt_eq` computes exactly the greater-than relation in the original
/// operand order, element by element, for every broadcastable pair of
/// operands.
pub proof fn lemma_swap_symmetry<T: OrdElement>(
    a: Seq<Option<<T as DeepView>::V>>,
    b: Seq<Option<<T as DeepView>::V>>,
    with_eq: bool,
)
    requires
        sp_broadcastable(a.len(), b.len()),
    ensures
        sp_strict_ord::<T>(with_eq, b, a) == sp_strict_gt::<T>(with_eq, a, b),
{
    assert(sp_out_len(b, a) == sp_out_len(a, b));
    assert forall|i: int| 0 <= i < sp_out_len(a, b) implies sp_strict_ord::<T>(with_eq, b, a)[i]
        == sp_strict_gt::<T>(with_eq, a, b)[i] by {
        assert(sp_bat(b, i) == sp_bat(b, i));
    }
    assert(sp_strict_ord::<T>(with_eq, b, a) =~= sp_strict_gt::<T>(with_eq, a, b));
}

/// Chunk invariance: a comparison's result is a function of the operands'
/// flattened views alone, so two columns holding one data sequence in
/// different chunk splits compare identically against any operand.
pub proof fn lemma_chunk_invariance_eq<T: EqElement>(
    a1: &crate::chunked::ChunkedArray<T>,
    a2: &crate::chunked::ChunkedArray<T>,
    b1: &crate::chunked::ChunkedArray<T>,
    b2: &crate::chunked::ChunkedArray<T>,
    neg: bool,
)
    requires
        a1@ == a2@,
        b1@ == b2@,
    ensures
        sp_strict_eq::<T>(neg, a1@, b1@) == sp_strict_eq::<T>(neg, a2@, b2@),
        sp_missing_eq::<T>(neg, a1@, b1@) == sp_missing_eq::<T>(neg, a2@, b2@),
{
}

/// Chunk invariance for the ordering families.
pub proof fn lemma_chunk_invariance_ord<T: OrdElement>(
    a1: &crate::chunked::ChunkedArray<T>,
    a2: &crate::chunked::ChunkedArray<T>,
    b1: &crate::chunked::ChunkedArray<T>,
    b2: &crate::chunked::ChunkedArray<T>,
    with_eq: bool,
)
    requires
        a1@ == a2@,
        b1@ == b2@,
    ensures
        sp_strict_ord::<T>(with_eq, a1@, b1@) == sp_strict_ord::<T>(with_eq, a2@, b2@),
{
}

/// Missing-aware reflexivity: a column compared with itself under
/// missing-aware equality is all-true — missing positions included — and
/// under missing-aware inequality all-false.
pub proof fn lemma_missing_aware_reflexivity<T: EqElement>(x: Seq<Option<<T as DeepView>::V>>)
    ensures
        sp_missing_eq::<T>(false, x, x) == Seq::new(x.len(), |i: int| Some(true)),
        sp_missing_eq::<T>(true, x, x) == Seq::new(x.len(), |i: int| Some(false)),
{
    assert forall|i: int| 0 <= i < x.len() implies sp_opt_eq::<T>(sp_bat(x, i), sp_bat(x, i)) by {
        match sp_bat(x, i) {
            Some(v) => {
                T::lemma_eq_refl(v);
            },
            None => {},
        }
    }
    assert(sp_missing_eq::<T>(false, x, x) =~= Seq::new(x.len(), |i: int| Some(true)));
    assert(sp_missing_eq::<T>(true, x, x) =~= Seq::new(x.len(), |i: int| Some(false)));
}

/// Strict-null propagation: wherever either operand contributes a missing
/// value, a strict equality or inequality result is missing there.
pub proof fn lemma_strict_null_propagation_eq<T: EqElement>(
    a: Seq<Option<<T as DeepView>::V>>,
    b: Seq<Option<<T as DeepView>::V>>,
    neg: bool,
    i: int,
)
    requires
        0 <= i < sp_out_len(a, b),
        sp_bat(a, i) is None || sp_bat(b, i) is None,
    ensures
        sp_strict_eq::<T>(neg, a, b)[i] is None,
{
}

/// Strict-null propagation for the ordering families.
pub proof fn lemma_strict_null_propagation_ord<T: OrdElement>(
    a: Seq<Option<<T as DeepView>::V>>,
    b: Seq<Option<<T as DeepView>::V>>,
    with_eq: bool,
    i: int,
)
    requires
        0 <= i < sp_out_len(a, b),
        sp_bat(a, i) is None || sp_bat(b, i) is None,
    ensures
        sp_strict_ord::<T>(with_eq, a, b)[i] is None,
{
}

/// Negation law: missing-aware inequality is exactly the element-wise
/// negation of missing-aware equality, with no missing output on either
/// side.
pub proof fn lemma_negation_law<T: EqElement>(
    a: Seq<Option<<T as DeepView>::V>>,
    b: Seq<Option<<T as DeepView>::V>>,
)
    ensures
        sp_missing_eq::<T>(true, a, b) == sp_not(sp_missing_eq::<T>(false, a, b)),
        forall|i: int|
            0 <= i < sp_out_len(a, b) ==> (#[trigger] sp_missing_eq::<T>(false, a, b)[i]) is Some,
{
    assert(sp_missing_eq::<T>(true, a, b) =~= sp_not(sp_missing_eq::<T>(false, a, b)));
}

/// Broadcast equivalence: comparing against a length-1 operand holding a
/// present value gives the same result as comparing against that value
/// repeated to the other operand's length.
pub proof fn lemma_broadcast_equivalence_eq<T: EqElement>(
    a: Seq<Option<<T as DeepView>::V>>,
    v: <T as DeepView>::V,
    neg: bool,
)
    ensures
        sp_strict_eq::<T>(neg, a, seq![Some(v)]) == sp_strict_eq::<T>(
            neg,
            a,
            Seq::new(a.len(), |i: int| Some(v)),
        ),
        sp_missing_eq::<T>(neg, a, seq![Some(v)]) == sp_missing_eq::<T>(
            neg,
            a,
            Seq::new(a.len(), |i: int| Some(v)),
        ),
        sp_strict_eq::<T>(neg, seq![Some(v)], a) == sp_strict_eq::<T>(
            neg,
            Seq::new(a.len(), |i: int| Some(v)),
            a,
        ),
        sp_missing_eq::<T>(neg, seq![Some(v)], a) == sp_missing_eq::<T>(
            neg,
            Seq::new(a.len(), |i: int| Some(v)),
            a,
        ),
{
    let single = seq![Some(v)];
    let repeated = Seq::new(a.len(), |i: int| Some(v));
    assert forall|i: int| 0 <= i < sp_out_len(a, single) implies sp_bat(single, i) == sp_bat(
        repeated,
        i,
    ) by {
        assert(single[0] == Some(v));
    }
    assert forall|i: int| 0 <= i < sp_out_len(single, a) implies sp_bat(single, i) == sp_bat(
        repeated,
        i,
    ) by {
        assert(single[0] == Some(v));
    }
    assert(sp_strict_eq::<T>(neg, a, single) =~= sp_strict_eq::<T>(neg, a, repeated));
    assert(sp_missing_eq::<T>(neg, a, single) =~= sp_missing_eq::<T>(neg, a, repeated));
    assert(sp_strict_eq::<T>(neg, single, a) =~= sp_strict_eq::<T>(neg, repeated, a));
    assert(sp_missing_eq::<T>(neg, single, a) =~= sp_missing_eq::<T>(neg, repeated, a));
}

/// Broadcast equivalence for the ordering families.
pub proof fn lemma_broadcast_equivalence_ord<T: OrdElement>(
    a: Seq<Option<<T as DeepView>::V>>,
    v: <T as DeepView>::V,
    with_eq: bool,
)
    ensures
        sp_strict_ord::<T>(with_eq, a, seq![Some(v)]) == sp_strict_ord::<T>(
            with_eq,
            a,
            Seq::new(a.len(), |i: int| Some(v)),
        ),
        sp_strict_ord::<T>(with_eq, seq![Some(v)], a) == sp_strict_ord::<T>(
            with_eq,
            Seq::new(a.len(), |i: int| Some(v)),
            a,
        ),
{
    let single = seq![Some(v)];
    let repeated = Seq::new(a.len(), |i: int| Some(v));
    assert forall|i: int| 0 <= i < sp_out_len(a, single) implies sp_bat(single, i) == sp_bat(
        repeated,
        i,
    ) by {
        assert(single[0] == Some(v));
    }
    assert forall|i: int| 0 <= i < sp_out_len(single, a) implies sp_bat(single, i) == sp_bat(
        repeated,
        i,
    ) by {
        assert(single[0] == Some(v));
    }
    assert(sp_strict_ord::<T>(with_eq, a, single) =~= sp_strict_ord::<T>(with_eq, a, repeated));
    assert(sp_strict_ord::<T>(with_eq, single, a) =~= sp_strict_ord::<T>(with_eq, repeated, a));
}

} // verus!

