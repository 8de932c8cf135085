//! Struct columns and their comparator.
//!
//! A struct column holds one series per field, all of one length, plus an
//! outer validity: a row may itself be missing, and a missing row has every
//! field missing there too. Two struct columns compare only if their arity
//! matches and their lengths broadcast; otherwise the result is a constant
//! boolean, "structurally incomparable means unequal". A comparable pair is
//! compared field by field with missing-aware equality and reduced with AND
//! (OR for inequality); the strict variant then overlays the combined
//! validity of both operands, a position being valid only when both rows
//! and every field of both sides hold a value there.

use vstd::prelude::*;
use crate::chunked::BooleanChunked;
use crate::compare::sp_bidx;
use crate::dtype::Field;
use crate::series::{
    series_cell_present, series_eqm_col, sp_flat_same_dtype, sp_series_cell_present,
    sp_series_eqm_cell, sp_series_len, sp_series_wf, Series,
};

verus! {

/// A struct column: named fields of one length, and an outer validity.
pub struct StructChunked {
    name: String,
    field_names: Vec<String>,
    fields: Vec<Series>,
    validity: Vec<bool>,
}

impl StructChunked {
    pub closed spec fn sp_fields(&self) -> Seq<Series> {
        self.fields@
    }

    pub closed spec fn sp_field_names(&self) -> Seq<String> {
        self.field_names@
    }

    pub closed spec fn sp_validity(&self) -> Seq<bool> {
        self.validity@
    }

    pub closed spec fn sp_len(&self) -> nat {
        self.validity@.len()
    }

    pub closed spec fn sp_name(&self) -> Seq<char> {
        self.name@
    }

    /// Invariant: one name per field; every field is a well-formed
    /// non-struct series as long as the column; a missing row has every
    /// field missing at that position.
    pub closed spec fn wf(&self) -> bool {
        &&& self.field_names@.len() == self.fields@.len()
        &&& forall|f: int|
            0 <= f < self.fields@.len() ==> !((#[trigger] self.fields@[f]) is Struct)
        &&& forall|f: int|
            0 <= f < self.fields@.len() ==> crate::series::sp_flat_wf(#[trigger] self.fields@[f])
        &&& forall|f: int|
            0 <= f < self.fields@.len() ==> sp_series_len(#[trigger] self.fields@[f])
                == self.validity@.len()
        &&& forall|i: int, f: int|
            0 <= i < self.validity@.len() && 0 <= f < self.fields@.len() && !self.validity@[i]
                ==> !(#[trigger] sp_series_cell_present(self.fields@[f], i))
    }

    /// Build a struct column from its fields. The outer validity must
    /// already be propagated: a cleared row has no field value anywhere.
    pub fn from_series(
        name: String,
        field_names: Vec<String>,
        fields: Vec<Series>,
        validity: Vec<bool>,
    ) -> (r: Self)
        requires
            field_names@.len() == fields@.len(),
            forall|f: int| 0 <= f < fields@.len() ==> !((#[trigger] fields@[f]) is Struct),
            forall|f: int|
                0 <= f < fields@.len() ==> crate::series::sp_flat_wf(#[trigger] fields@[f]),
            forall|f: int|
                0 <= f < fields@.len() ==> sp_series_len(#[trigger] fields@[f])
                    == validity@.len(),
            forall|i: int, f: int|
                0 <= i < validity@.len() && 0 <= f < fields@.len() && !validity@[i]
                    ==> !(#[trigger] sp_series_cell_present(fields@[f], i)),
        ensures
            r.wf(),
            r.sp_fields() == fields@,
            r.sp_field_names() == field_names@,
            r.sp_validity() == validity@,
            r.sp_name() == name@,
    {
        StructChunked { name, field_names, fields, validity }
    }

    pub fn name(&self) -> (r: &String)
        ensures
            r@ == self.sp_name(),
    {
        &self.name
    }

    pub fn len(&self) -> (r: usize)
        ensures
            r == self.sp_len(),
    {
        self.validity.len()
    }

    /// The fields as plain series, by position.
    pub fn fields_as_series(&self) -> (r: &Vec<Series>)
        ensures
            r@ == self.sp_fields(),
    {
        &self.fields
    }

    /// The field names, by position.
    pub fn struct_fields(&self) -> (r: &Vec<String>)
        ensures
            r@ == self.sp_field_names(),
    {
        &self.field_names
    }

    /// The outer validity: one presence bit per row.
    pub fn validity_bits(&self) -> (r: &Vec<bool>)
        ensures
            r@ == self.sp_validity(),
    {
        &self.validity
    }

    /// A boolean column that is `true` exactly where the row itself is
    /// missing.
    pub fn is_null(&self) -> (r: BooleanChunked)
        ensures
            r.wf(),
            r@ == Seq::new(self.sp_len(), |i: int| Some(!self.sp_validity()[i])),
    {
        let n = self.validity.len();
        let mut arr: Vec<Option<bool>> = Vec::new();
        let mut i: usize = 0;
        while i < n
            invariant
                n == self.validity@.len(),
                0 <= i <= n,
                arr@.len() == i,
                forall|j: int| 0 <= j < i ==> #[trigger] arr@[j] == Some(!self.sp_validity()[j]),
            decreases n - i,
        {
            arr.push(Some(!self.validity[i]));
            i += 1;
        }
        proof {
            assert(arr.deep_view() =~= Seq::new(self.sp_len(), |i: int| Some(!self.sp_validity()[i])));
        }
        BooleanChunked::with_chunk(String::new(), arr)
    }

    /// A boolean column that is `true` exactly where the row is present.
    pub fn is_not_null(&self) -> (r: BooleanChunked)
        ensures
            r.wf(),
            r@ == Seq::new(self.sp_len(), |i: int| Some(self.sp_validity()[i])),
    {
        let n = self.validity.len();
        let mut arr: Vec<Option<bool>> = Vec::new();
        let mut i: usize = 0;
        while i < n
            invariant
                n == self.validity@.len(),
                0 <= i <= n,
                arr@.len() == i,
                forall|j: int| 0 <= j < i ==> #[trigger] arr@[j] == Some(self.sp_validity()[j]),
            decreases n - i,
        {
            arr.push(Some(self.validity[i]));
            i += 1;
        }
        proof {
            assert(arr.deep_view() =~= Seq::new(self.sp_len(), |i: int| Some(self.sp_validity()[i])));
        }
        BooleanChunked::with_chunk(String::new(), arr)
    }

    /// The `(name, dtype)` schema, for error payloads.
    #[verifier::loop_isolation(false)]
    pub(crate) fn fields_schema(&self) -> (r: Vec<Field>)
        requires
            self.wf(),
        ensures
            r@.len() == self.sp_fields().len(),
    {
        let mut out: Vec<Field> = Vec::new();
        let n = self.fields.len();
        let mut f: usize = 0;
        while f < n
            invariant
                n == self.fields@.len(),
                0 <= f <= n,
                out@.len() == f,
            decreases n - f,
        {
            let name = crate::chunked::clone_string(&self.field_names[f]);
            let dtype = crate::series::flat_series_dtype(&self.fields[f]);
            out.push(Field { name, dtype });
            f += 1;
        }
        out
    }

    /// Strict equality of two struct columns.
    pub fn equal(&self, rhs: &StructChunked) -> (r: BooleanChunked)
        requires
            self.wf(),
            rhs.wf(),
            sp_struct_req(*self, *rhs),
        ensures
            r.wf(),
            r@ == sp_struct_cmp(*self, *rhs, false, false),
    {
        struct_helper(self, rhs, false, false)
    }

    /// Missing-aware equality of two struct columns.
    pub fn equal_missing(&self, rhs: &StructChunked) -> (r: BooleanChunked)
        requires
            self.wf(),
            rhs.wf(),
            sp_struct_req(*self, *rhs),
        ensures
            r.wf(),
            r@ == sp_struct_cmp(*self, *rhs, false, true),
    {
        struct_helper(self, rhs, false, true)
    }

    /// Strict inequality of two struct columns.
    pub fn not_equal(&self, rhs: &StructChunked) -> (r: BooleanChunked)
        requires
            self.wf(),
            rhs.wf(),
            sp_struct_req(*self, *rhs),
        ensures
            r.wf(),
            r@ == sp_struct_cmp(*self, *rhs, true, false),
    {
        struct_helper(self, rhs, true, false)
    }

    /// Missing-aware inequality of two struct columns.
    pub fn not_equal_missing(&self, rhs: &StructChunked) -> (r: BooleanChunked)
        requires
            self.wf(),
            rhs.wf(),
            sp_struct_req(*self, *rhs),
        ensures
            r.wf(),
            r@ == sp_struct_cmp(*self, *rhs, true, true),
    {
        struct_helper(self, rhs, true, true)
    }
}

/// Whether two struct columns reach the field-wise kernels at all.
pub open spec fn sp_struct_comparable(a: StructChunked, b: StructChunked) -> bool {
    &&& (a.sp_len() == b.sp_len() || a.sp_len() == 1 || b.sp_len() == 1)
    &&& a.sp_fields().len() == b.sp_fields().len()
}

/// The precondition of a struct comparison: where the field-wise kernels
/// run, corresponding fields must have one dtype.
pub open spec fn sp_struct_req(a: StructChunked, b: StructChunked) -> bool {
    sp_struct_comparable(a, b) ==> forall|f: int|
        0 <= f < a.sp_fields().len() ==> sp_flat_same_dtype(
            #[trigger] a.sp_fields()[f],
            b.sp_fields()[f],
        )
}

/// The first `f` fields agree, missing-aware, between row `i` of one
/// operand and row `j` of the other.
pub open spec fn sp_fields_upto(a: StructChunked, b: StructChunked, f: int, i: int, j: int) -> bool {
    forall|g: int|
        0 <= g < f ==> sp_series_eqm_cell(#[trigger] a.sp_fields()[g], b.sp_fields()[g], i, j)
}

/// Missing-aware equality of row `i` of one struct column with row `j` of
/// another: the rows' own presence must agree, and every field must agree.
pub open spec fn sp_struct_eqm_cell(a: StructChunked, b: StructChunked, i: int, j: int) -> bool {
    &&& a.sp_validity()[i] == b.sp_validity()[j]
    &&& sp_fields_upto(a, b, a.sp_fields().len() as int, i, j)
}

/// Both cells of a field pair hold a value.
pub open spec fn sp_pair_present(fa: Series, fb: Series, i: int, j: int) -> bool {
    sp_series_cell_present(fa, i) && sp_series_cell_present(fb, j)
}

/// The first `f` fields of both operands hold values at rows `i` and `j`.
pub open spec fn sp_presence_upto(a: StructChunked, b: StructChunked, f: int, i: int, j: int) -> bool {
    forall|g: int|
        0 <= g < f ==> #[trigger] sp_pair_present(a.sp_fields()[g], b.sp_fields()[g], i, j)
}

/// A strict struct comparison is valid at a position only when both rows
/// are present and every field of both sides holds a value there.
pub open spec fn sp_struct_combined_valid(
    a: StructChunked,
    b: StructChunked,
    i: int,
    j: int,
) -> bool {
    &&& a.sp_validity()[i]
    &&& b.sp_validity()[j]
    &&& sp_presence_upto(a, b, a.sp_fields().len() as int, i, j)
}

/// What a struct comparison returns: a constant for incomparable shapes;
/// otherwise the field-wise reduction, total for the missing-aware variant
/// and overlaid with the combined validity for the strict one.
pub open spec fn sp_struct_cmp(
    a: StructChunked,
    b: StructChunked,
    op_is_ne: bool,
    is_missing: bool,
) -> Seq<Option<bool>> {
    if !sp_struct_comparable(a, b) {
        Seq::new(a.sp_len(), |i: int| Some(op_is_ne))
    } else {
        let la = a.sp_len();
        let lb = b.sp_len();
        let n = if la == 1 {
            lb
        } else {
            la
        };
        Seq::new(
            n,
            |i: int|
                {
                    let ia = sp_bidx(la, i);
                    let ib = sp_bidx(lb, i);
                    if is_missing {
                        Some(op_is_ne != sp_struct_eqm_cell(a, b, ia, ib))
                    } else {
                        if sp_struct_combined_valid(a, b, ia, ib) {
                            Some(
                                op_is_ne != sp_fields_upto(
                                    a,
                                    b,
                                    a.sp_fields().len() as int,
                                    ia,
                                    ib,
                                ),
                            )
                        } else {
                            None
                        }
                    }
                },
        )
    }
}

/// Extending the field-wise agreement by one field.
proof fn lemma_fields_upto_step(a: StructChunked, b: StructChunked, f: int, i: int, j: int)
    requires
        0 <= f,
    ensures
        sp_fields_upto(a, b, f + 1, i, j) == (sp_fields_upto(a, b, f, i, j)
            && sp_series_eqm_cell(a.sp_fields()[f], b.sp_fields()[f], i, j)),
{
    if sp_fields_upto(a, b, f, i, j) && sp_series_eqm_cell(a.sp_fields()[f], b.sp_fields()[f], i, j) {
        assert forall|g: int| 0 <= g < f + 1 implies sp_series_eqm_cell(
            #[trigger] a.sp_fields()[g],
            b.sp_fields()[g],
            i,
            j,
        ) by {
            if g < f {
                assert(sp_series_eqm_cell(a.sp_fields()[g], b.sp_fields()[g], i, j));
            }
        }
    }
    if sp_fields_upto(a, b, f + 1, i, j) {
        assert forall|g: int| 0 <= g < f implies sp_series_eqm_cell(
            #[trigger] a.sp_fields()[g],
            b.sp_fields()[g],
            i,
            j,
        ) by {
            assert(sp_series_eqm_cell(a.sp_fields()[g], b.sp_fields()[g], i, j));
        }
        assert(sp_series_eqm_cell(a.sp_fields()[f], b.sp_fields()[f], i, j));
    }
}

/// Extending the field-wise presence by one field.
proof fn lemma_presence_upto_step(a: StructChunked, b: StructChunked, f: int, i: int, j: int)
    requires
        0 <= f,
    ensures
        sp_presence_upto(a, b, f + 1, i, j) == (sp_presence_upto(a, b, f, i, j)
            && sp_pair_present(a.sp_fields()[f], b.sp_fields()[f], i, j)),
{
    if sp_presence_upto(a, b, f, i, j) && sp_pair_present(a.sp_fields()[f], b.sp_fields()[f], i, j) {
        assert forall|g: int| 0 <= g < f + 1 implies #[trigger] sp_pair_present(
            a.sp_fields()[g],
            b.sp_fields()[g],
            i,
            j,
        ) by {
            if g < f {
                assert(sp_pair_present(a.sp_fields()[g], b.sp_fields()[g], i, j));
            }
        }
    }
    if sp_presence_upto(a, b, f + 1, i, j) {
        assert forall|g: int| 0 <= g < f implies #[trigger] sp_pair_present(
            a.sp_fields()[g],
            b.sp_fields()[g],
            i,
            j,
        ) by {
            assert(sp_pair_present(a.sp_fields()[g], b.sp_fields()[g], i, j));
        }
        assert(sp_pair_present(a.sp_fields()[f], b.sp_fields()[f], i, j));
    }
}

/// A fully-valid copy of a validity bitmap.
fn clone_bools(v: &Vec<bool>) -> (r: Vec<bool>)
    ensures
        r@ == v@,
{
    let n = v.len();
    let mut out: Vec<bool> = Vec::new();
    let mut i: usize = 0;
    while i < n
        invariant
            n == v@.len(),
            0 <= i <= n,
            out@.len() == i,
            forall|j: int| 0 <= j < i ==> out@[j] == v@[j],
        decreases n - i,
    {
        out.push(v[i]);
        i += 1;
    }
    proof {
        assert(out@ =~= v@);
    }
    out
}

/// The shared shell of the four struct comparisons: shape check, field-wise
/// missing-aware reduction, and — for the missing-aware variant — the outer
/// presence term, or — for the strict variant — the combined-validity
/// overlay. The two final steps are applied unconditionally: each is the
/// identity when no value is missing.
#[verifier::loop_isolation(false)]
pub fn struct_helper(a: &StructChunked, b: &StructChunked, op_is_ne: bool, is_missing: bool) -> (r:
    BooleanChunked)
    requires
        a.wf(),
        b.wf(),
        sp_struct_req(*a, *b),
    ensures
        r.wf(),
        r@ == sp_struct_cmp(*a, *b, op_is_ne, is_missing),
{
    let ghost out = sp_struct_cmp(*a, *b, op_is_ne, is_missing);
    let la = a.len();
    let lb = b.len();
    let broadcasts = la == 1 || lb == 1;
    let nf = a.fields_as_series().len();
    if (la != lb && !broadcasts) || nf != b.fields_as_series().len() {
        let r = BooleanChunked::full(String::new(), &op_is_ne, la);
        proof {
            assert(r@ =~= out);
        }
        return r;
    }
    let n = if la == 1 {
        lb
    } else {
        la
    };
    let ghost gla = a.sp_len();
    let ghost glb = b.sp_len();
    let negated = !op_is_ne;
    let mut acc = BooleanChunked::full(String::new(), &negated, n);
    proof {
        assert(forall|i: int|
            0 <= i < n ==> #[trigger] acc@[i] == Some(
                op_is_ne != sp_fields_upto(*a, *b, 0, sp_bidx(gla, i), sp_bidx(glb, i)),
            ));
    }
    let mut f: usize = 0;
    while f < nf
        invariant
            0 <= f <= nf,
            acc.wf(),
            acc@.len() == n,
            forall|i: int|
                0 <= i < n ==> #[trigger] acc@[i] == Some(
                    op_is_ne != sp_fields_upto(*a, *b, f as int, sp_bidx(gla, i), sp_bidx(glb, i)),
                ),
        decreases nf - f,
    {
        let fa = &a.fields_as_series()[f];
        let fb = &b.fields_as_series()[f];
        proof {
            assert(sp_flat_same_dtype(a.sp_fields()[f as int], b.sp_fields()[f as int]));
        }
        let c = match series_eqm_col(fa, fb, op_is_ne) {
            Ok(c) => c,
            Err(_) => vstd::pervasive::unreached(),
        };
        let acc2 = if op_is_ne {
            acc.bitor(&c)
        } else {
            acc.bitand(&c)
        };
        proof {
            assert forall|i: int| 0 <= i < n implies #[trigger] acc2@[i] == Some(
                op_is_ne != sp_fields_upto(*a, *b, f as int + 1, sp_bidx(gla, i), sp_bidx(glb, i)),
            ) by {
                let ia = sp_bidx(gla, i);
                let ib = sp_bidx(glb, i);
                lemma_fields_upto_step(*a, *b, f as int, ia, ib);
                assert(c@[i] == Some(
                    op_is_ne != sp_series_eqm_cell(a.sp_fields()[f as int], b.sp_fields()[f as int], ia, ib),
                ));
            }
        }
        acc = acc2;
        f += 1;
    }
    if is_missing {
        let va = BooleanChunked::from_bitmap(String::new(), clone_bools(a.validity_bits()));
        let vb = BooleanChunked::from_bitmap(String::new(), clone_bools(b.validity_bits()));
        let c = if op_is_ne {
            va.not_equal_missing(&vb)
        } else {
            va.equal_missing(&vb)
        };
        let res = if op_is_ne {
            acc.bitor(&c)
        } else {
            acc.bitand(&c)
        };
        proof {
            assert forall|i: int| 0 <= i < n implies #[trigger] res@[i] == out[i] by {
                let ia = sp_bidx(gla, i);
                let ib = sp_bidx(glb, i);
                assert(c@[i] == Some(op_is_ne != (a.sp_validity()[ia] == b.sp_validity()[ib])));
            }
            assert(res@ =~= out);
        }
        res
    } else {
        let mut arr: Vec<Option<bool>> = Vec::new();
        let mut i: usize = 0;
        while i < n
            invariant
                0 <= i <= n,
                acc.wf(),
                acc@.len() == n,
                forall|k: int|
                    0 <= k < n ==> #[trigger] acc@[k] == Some(
                        op_is_ne != sp_fields_upto(
                            *a,
                            *b,
                            a.sp_fields().len() as int,
                            sp_bidx(gla, k),
                            sp_bidx(glb, k),
                        ),
                    ),
                arr@.len() == i,
                forall|k: int| 0 <= k < i ==> #[trigger] arr@[k] == out[k],
            decreases n - i,
        {
            let ia = if la == 1 {
                0
            } else {
                i
            };
            let ib = if lb == 1 {
                0
            } else {
                i
            };
            let mut combined = a.validity_bits()[ia] && b.validity_bits()[ib];
            let mut g: usize = 0;
            proof {
                assert(combined == (a.sp_validity()[ia as int] && b.sp_validity()[ib as int]
                    && sp_presence_upto(*a, *b, 0, ia as int, ib as int)));
            }
            while g < nf
                invariant
                    0 <= g <= nf,
                    combined == (a.sp_validity()[ia as int] && b.sp_validity()[ib as int]
                        && sp_presence_upto(*a, *b, g as int, ia as int, ib as int)),
                decreases nf - g,
            {
                let pa = series_cell_present(&a.fields_as_series()[g], ia);
                let pb = series_cell_present(&b.fields_as_series()[g], ib);
                proof {
                    lemma_presence_upto_step(*a, *b, g as int, ia as int, ib as int);
                    assert(sp_pair_present(a.sp_fields()[g as int], b.sp_fields()[g as int], ia as int, ib as int) == (pa && pb));
                }
                combined = combined && pa && pb;
                g += 1;
            }
            if combined {
                match acc.get(i) {
                    Some(v) => {
                        arr.push(Some(*v));
                    },
                    None => {
                        arr.push(None);
                        proof {
                            assert(acc@[i as int] is Some);
                            assert(false);
                        }
                    },
                }
            } else {
                arr.push(None);
            }
            i += 1;
        }
        proof {
            assert(arr.deep_view() =~= out);
        }
        BooleanChunked::with_chunk(String::new(), arr)
    }
}

} // verus!
