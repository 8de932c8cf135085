//! Chunked storage: a named, typed sequence of optional values split across
//! zero or more contiguous chunks, with cached length and null count.
//!
//! The abstract value of a column is the concatenation of its chunks' values,
//! a `Seq<Option<T::V>>`: `None` is a missing value. Every operation's
//! contract is stated over that flattened view, which is what makes results
//! independent of how a column happens to be split into chunks.

use vstd::prelude::*;
use crate::dtype::DataType;
use crate::element::EqElement;
use crate::error::{PolarsError, PolarsResult};

verus! {

/// Concatenation of a sequence of chunks into one logical sequence.
pub open spec fn sp_concat<V>(cs: Seq<Seq<Option<V>>>) -> Seq<Option<V>>
    decreases cs.len(),
{
    if cs.len() == 0 {
        Seq::empty()
    } else {
        cs[0] + sp_concat(cs.drop_first())
    }
}

/// How many values of a logical sequence are missing.
pub open spec fn sp_null_count<V>(s: Seq<Option<V>>) -> int
    decreases s.len(),
{
    if s.len() == 0 {
        0int
    } else {
        (if s[0] is None {
            1int
        } else {
            0int
        }) + sp_null_count(s.drop_first())
    }
}

pub proof fn lemma_null_count_bounds<V>(s: Seq<Option<V>>)
    ensures
        0 <= sp_null_count(s) <= s.len(),
    decreases s.len(),
{
    if s.len() > 0 {
        lemma_null_count_bounds(s.drop_first());
    }
}

pub proof fn lemma_null_count_concat<V>(a: Seq<Option<V>>, b: Seq<Option<V>>)
    ensures
        sp_null_count(a + b) == sp_null_count(a) + sp_null_count(b),
    decreases a.len(),
{
    if a.len() == 0 {
        assert(a + b =~= b);
    } else {
        assert((a + b).drop_first() =~= a.drop_first() + b);
        lemma_null_count_concat(a.drop_first(), b);
    }
}

/// A null count of zero means every position holds a value, and conversely.
pub proof fn lemma_null_count_zero<V>(s: Seq<Option<V>>)
    ensures
        (sp_null_count(s) == 0) <==> (forall|i: int| 0 <= i < s.len() ==> s[i] is Some),
    decreases s.len(),
{
    if s.len() > 0 {
        lemma_null_count_zero(s.drop_first());
        lemma_null_count_bounds(s.drop_first());
        assert(forall|i: int| 1 <= i < s.len() ==> s[i] == s.drop_first()[i - 1]);
        if s[0] is Some && sp_null_count(s.drop_first()) == 0 {
            assert(forall|i: int| 0 <= i < s.len() ==> s[i] is Some);
        }
        if forall|i: int| 0 <= i < s.len() ==> s[i] is Some {
            assert(forall|i: int| 0 <= i < s.drop_first().len() ==> s.drop_first()[i] is Some);
        }
    }
}

pub proof fn lemma_concat_push<V>(cs: Seq<Seq<Option<V>>>, c: Seq<Option<V>>)
    ensures
        sp_concat(cs.push(c)) == sp_concat(cs) + c,
    decreases cs.len(),
{
    if cs.len() == 0 {
        assert(cs.push(c).drop_first() =~= Seq::<Seq<Option<V>>>::empty());
        assert(cs.push(c)[0] == c);
        assert(sp_concat(cs.push(c)) == c + sp_concat(Seq::<Seq<Option<V>>>::empty()));
        assert(c + Seq::<Option<V>>::empty() =~= c);
        assert(sp_concat(cs) + c =~= c);
    } else {
        assert(cs.push(c).drop_first() =~= cs.drop_first().push(c));
        lemma_concat_push(cs.drop_first(), c);
        assert(cs.push(c)[0] == cs[0]);
        assert(cs[0] + (sp_concat(cs.drop_first()) + c) =~= (cs[0] + sp_concat(cs.drop_first()))
            + c);
    }
}

pub proof fn lemma_concat_concat<V>(a: Seq<Seq<Option<V>>>, b: Seq<Seq<Option<V>>>)
    ensures
        sp_concat(a + b) == sp_concat(a) + sp_concat(b),
    decreases a.len(),
{
    if a.len() == 0 {
        assert(a + b =~= b);
        assert(sp_concat(a) + sp_concat(b) =~= sp_concat(b));
    } else {
        assert((a + b).drop_first() =~= a.drop_first() + b);
        lemma_concat_concat(a.drop_first(), b);
        assert(a[0] + (sp_concat(a.drop_first()) + sp_concat(b)) =~= (a[0] + sp_concat(
            a.drop_first(),
        )) + sp_concat(b));
    }
}

/// A typed, named column: values split across chunks, with the total length
/// and the number of missing values cached.
pub struct ChunkedArray<T> {
    name: String,
    chunks: Vec<Vec<Option<T>>>,
    length: usize,
    null_count: usize,
}

/// A column whose every element is `true`, `false` or missing: the output
/// type of every comparison.
pub type BooleanChunked = ChunkedArray<bool>;

/// A column of 32-bit integers.
pub type Int32Chunked = ChunkedArray<i32>;

/// A column of 64-bit integers.
pub type Int64Chunked = ChunkedArray<i64>;

/// A column of byte strings.
pub type BinaryChunked = ChunkedArray<Vec<u8>>;

/// A column of byte strings stored behind wide offsets: the offset width is
/// a physical encoding detail with no logical content, so the column's
/// model is the binary column's.
pub type BinaryOffsetChunked = ChunkedArray<Vec<u8>>;

impl<T: DeepView> View for ChunkedArray<T> {
    type V = Seq<Option<<T as DeepView>::V>>;

    closed spec fn view(&self) -> Seq<Option<<T as DeepView>::V>> {
        sp_concat(self.chunks.deep_view())
    }
}

impl<T: DeepView> ChunkedArray<T> {
    /// The chunks' views, before flattening: how the column is split.
    pub closed spec fn sp_chunks(&self) -> Seq<Seq<Option<<T as DeepView>::V>>> {
        self.chunks.deep_view()
    }

    /// The column's name.
    pub closed spec fn sp_name(&self) -> Seq<char> {
        self.name@
    }

    /// Invariant: the cached length and null count equal the true sums over
    /// the chunks.
    pub closed spec fn wf(&self) -> bool {
        &&& self.length == self@.len()
        &&& self.null_count == sp_null_count(self@)
    }

    pub fn name(&self) -> (r: &String)
        ensures
            r@ == self.sp_name(),
    {
        &self.name
    }

    pub fn rename(&mut self, name: String)
        ensures
            final(self).sp_name() == name@,
            final(self)@ == old(self)@,
            final(self).sp_chunks() == old(self).sp_chunks(),
            final(self).wf() == old(self).wf(),
    {
        self.name = name;
    }

    pub fn len(&self) -> (r: usize)
        requires
            self.wf(),
        ensures
            r == self@.len(),
    {
        self.length
    }

    pub fn is_empty(&self) -> (r: bool)
        requires
            self.wf(),
        ensures
            r == (self@.len() == 0),
    {
        self.length == 0
    }

    pub fn null_count(&self) -> (r: usize)
        requires
            self.wf(),
        ensures
            r == sp_null_count(self@),
    {
        self.null_count
    }

    pub fn has_nulls(&self) -> (r: bool)
        requires
            self.wf(),
        ensures
            r == (sp_null_count(self@) != 0),
    {
        self.null_count > 0
    }

    /// How long each chunk is: the column's physical split.
    pub fn chunk_lengths(&self) -> (r: Vec<usize>)
        ensures
            r.deep_view().len() == self.sp_chunks().len(),
            forall|i: int|
                0 <= i < r@.len() ==> r@[i] == self.sp_chunks()[i].len(),
    {
        let mut out: Vec<usize> = Vec::new();
        let n = self.chunks.len();
        let mut c: usize = 0;
        while c < n
            invariant
                n == self.chunks@.len(),
                0 <= c <= n,
                out@.len() == c,
                forall|i: int| 0 <= i < c ==> out@[i] == self.sp_chunks()[i].len(),
            decreases n - c,
        {
            out.push(self.chunks[c].len());
            c += 1;
        }
        out
    }

    /// The value at logical position `i`, `None` when it is missing.
    pub fn get(&self, i: usize) -> (r: Option<&T>)
        requires
            self.wf(),
            i < self@.len(),
        ensures
            match r {
                Some(v) => self@[i as int] == Some(v.deep_view()),
                None => self@[i as int] is None,
            },
    {
        let n = self.chunks.len();
        let mut c: usize = 0;
        let mut idx: usize = i;
        proof {
            assert(self.sp_chunks().skip(0) =~= self.sp_chunks());
        }
        loop
            invariant
                self.wf(),
                i < self@.len(),
                0 <= c <= n,
                n == self.chunks@.len(),
                idx <= i,
                sp_concat(self.sp_chunks().skip(c as int)).len() > idx,
                sp_concat(self.sp_chunks().skip(c as int))[idx as int] == self@[i as int],
            decreases n - c,
        {
            proof {
                if c == n {
                    assert(self.sp_chunks().skip(c as int) =~= Seq::<
                        Seq<Option<<T as DeepView>::V>>,
                    >::empty());
                    assert(false);
                }
                assert(self.sp_chunks().skip(c as int).drop_first() =~= self.sp_chunks().skip(
                    c as int + 1,
                ));
                assert(sp_concat(self.sp_chunks().skip(c as int)) == self.sp_chunks()[c as int]
                    + sp_concat(self.sp_chunks().skip(c as int + 1)));
            }
            let chunk_len = self.chunks[c].len();
            if idx < chunk_len {
                proof {
                    assert(self.chunks[c as int].deep_view() == self.sp_chunks()[c as int]);
                    assert(self.sp_chunks()[c as int][idx as int] == self@[i as int]);
                }
                let cell = &self.chunks[c][idx];
                match cell {
                    Some(v) => {
                        return Some(v);
                    },
                    None => {
                        return None;
                    },
                }
            }
            idx = idx - chunk_len;
            c += 1;
        }
    }
}

/// Some chunk failed to materialize: `e` is the first error of the stream.
pub open spec fn sp_first_err<C, E>(s: Seq<Result<C, E>>, e: E) -> bool {
    exists|i: int|
        {
            &&& 0 <= i < s.len()
            &&& #[trigger] s[i] is Err
            &&& e == s[i]->Err_0
            &&& forall|j: int| 0 <= j < i ==> s[j] is Ok
        }
}

/// `sp_concat` of a prefix of the chunks is a prefix of the whole: its
/// length and null count are bounded by the whole column's.
proof fn lemma_concat_take_skip<V>(cs: Seq<Seq<Option<V>>>, c: int)
    requires
        0 <= c <= cs.len(),
    ensures
        sp_concat(cs) == sp_concat(cs.take(c)) + sp_concat(cs.skip(c)),
{
    assert(cs.take(c) + cs.skip(c) =~= cs);
    lemma_concat_concat(cs.take(c), cs.skip(c));
}

/// Counting the missing values of one chunk.
fn chunk_null_count<T: DeepView>(c: &Vec<Option<T>>) -> (r: usize)
    ensures
        r == sp_null_count(c.deep_view()),
{
    let n = c.len();
    let mut i: usize = 0;
    let mut count: usize = 0;
    proof {
        assert(c.deep_view().take(0) =~= Seq::<Option<<T as DeepView>::V>>::empty());
    }
    while i < n
        invariant
            n == c@.len(),
            0 <= i <= n,
            count == sp_null_count(c.deep_view().take(i as int)),
            count <= i,
        decreases n - i,
    {
        proof {
            let dv = c.deep_view();
            assert(dv.take(i as int).push(dv[i as int]) =~= dv.take(i as int + 1));
            lemma_null_count_snoc(dv.take(i as int), dv[i as int]);
        }
        if c[i].is_none() {
            count += 1;
        }
        i += 1;
    }
    proof {
        assert(c.deep_view().take(n as int) =~= c.deep_view());
    }
    count
}

/// Null count of a sequence extended by one value.
pub proof fn lemma_null_count_snoc<V>(s: Seq<Option<V>>, x: Option<V>)
    ensures
        sp_null_count(s.push(x)) == sp_null_count(s) + (if x is None {
            1int
        } else {
            0int
        }),
{
    assert(s.push(x) =~= s + seq![x]);
    lemma_null_count_concat(s, seq![x]);
    assert(seq![x].len() == 1 && seq![x][0] == x);
    assert(seq![x].drop_first() =~= Seq::<Option<V>>::empty());
    assert(sp_null_count(seq![x]) == (if x is None { 1int } else { 0int }) + sp_null_count(
        seq![x].drop_first(),
    ));
    assert(sp_null_count(seq![x]) == (if x is None {
        1int
    } else {
        0int
    }));
}

impl<T: DeepView> ChunkedArray<T> {
    /// The checked builder every constructor funnels through: it recomputes
    /// the cached length and null count from the chunks handed in.
    fn new_with_compute_len(name: String, chunks: Vec<Vec<Option<T>>>) -> (r: Self)
        requires
            sp_concat(chunks.deep_view()).len() <= usize::MAX,
        ensures
            r.wf(),
            r.sp_chunks() == chunks.deep_view(),
            r@ == sp_concat(chunks.deep_view()),
            r.sp_name() == name@,
    {
        let ghost dv = chunks.deep_view();
        let n = chunks.len();
        let mut c: usize = 0;
        let mut length: usize = 0;
        let mut null_count: usize = 0;
        proof {
            assert(dv.take(0) =~= Seq::<Seq<Option<<T as DeepView>::V>>>::empty());
            lemma_null_count_bounds(sp_concat(dv));
        }
        while c < n
            invariant
                n == chunks@.len(),
                dv == chunks.deep_view(),
                sp_concat(dv).len() <= usize::MAX,
                0 <= c <= n,
                length == sp_concat(dv.take(c as int)).len(),
                null_count == sp_null_count(sp_concat(dv.take(c as int))),
                null_count <= length,
            decreases n - c,
        {
            proof {
                assert(dv.take(c as int).push(dv[c as int]) =~= dv.take(c as int + 1));
                lemma_concat_push(dv.take(c as int), dv[c as int]);
                lemma_concat_take_skip(dv, c as int + 1);
                lemma_null_count_concat(sp_concat(dv.take(c as int)), dv[c as int]);
                lemma_null_count_bounds(sp_concat(dv.take(c as int)) + dv[c as int]);
                assert(chunks[c as int].deep_view() == dv[c as int]);
            }
            let nc = chunk_null_count(&chunks[c]);
            length = length + chunks[c].len();
            null_count = null_count + nc;
            c += 1;
        }
        proof {
            assert(dv.take(n as int) =~= dv);
        }
        ChunkedArray { name, chunks, length, null_count }
    }
}

impl<T: EqElement> ChunkedArray<T> {
    /// The logical dtype of this column.
    pub fn dtype(&self) -> (d: DataType)
        ensures
            d == T::sp_static_dtype(),
    {
        T::static_dtype()
    }

    /// Build a column from exactly one chunk.
    pub fn with_chunk(name: String, arr: Vec<Option<T>>) -> (r: Self)
        ensures
            r.wf(),
            r@ == arr.deep_view(),
            r.sp_chunks().len() == 1,
            r.sp_name() == name@,
    {
        let ghost adv = arr.deep_view();
        let n = arr.len();
        let mut chunks: Vec<Vec<Option<T>>> = Vec::new();
        chunks.push(arr);
        proof {
            lemma_one_chunk_concat(chunks.deep_view(), adv);
        }
        Self::new_with_compute_len(name, chunks)
    }

    /// Build a column from exactly one chunk, reusing another column's name.
    pub fn with_chunk_like(ca: &Self, arr: Vec<Option<T>>) -> (r: Self)
        ensures
            r.wf(),
            r@ == arr.deep_view(),
            r.sp_chunks().len() == 1,
            r.sp_name() == ca.sp_name(),
    {
        let name = clone_string(ca.name());
        Self::with_chunk(name, arr)
    }

    /// Build a column from a sequence of chunks.
    pub fn from_chunks(name: String, chunks: Vec<Vec<Option<T>>>) -> (r: Self)
        requires
            sp_concat(chunks.deep_view()).len() <= usize::MAX,
        ensures
            r.wf(),
            r.sp_chunks() == chunks.deep_view(),
            r@ == sp_concat(chunks.deep_view()),
            r.sp_name() == name@,
    {
        Self::new_with_compute_len(name, chunks)
    }

    /// Build a column from a sequence of chunks and a declared dtype, which
    /// must agree with the element kind.
    pub fn from_chunks_and_dtype(name: String, chunks: Vec<Vec<Option<T>>>, dtype: DataType) -> (r:
        Self)
        requires
            dtype == T::sp_static_dtype(),
            sp_concat(chunks.deep_view()).len() <= usize::MAX,
        ensures
            r.wf(),
            r.sp_chunks() == chunks.deep_view(),
            r@ == sp_concat(chunks.deep_view()),
            r.sp_name() == name@,
    {
        Self::new_with_compute_len(name, chunks)
    }

    /// Replace this column's chunks, keeping its name.
    pub fn with_chunks(&self, chunks: Vec<Vec<Option<T>>>) -> (r: Self)
        requires
            sp_concat(chunks.deep_view()).len() <= usize::MAX,
        ensures
            r.wf(),
            r.sp_chunks() == chunks.deep_view(),
            r@ == sp_concat(chunks.deep_view()),
            r.sp_name() == self.sp_name(),
    {
        let name = clone_string(self.name());
        Self::new_with_compute_len(name, chunks)
    }

    /// Build a column from a sequence of chunks.
    pub fn from_chunk_iter(name: String, chunks: Vec<Vec<Option<T>>>) -> (r: Self)
        requires
            sp_concat(chunks.deep_view()).len() <= usize::MAX,
        ensures
            r.wf(),
            r.sp_chunks() == chunks.deep_view(),
            r@ == sp_concat(chunks.deep_view()),
            r.sp_name() == name@,
    {
        Self::new_with_compute_len(name, chunks)
    }

    /// Build a column from a sequence of chunks, reusing another column's
    /// name.
    pub fn from_chunk_iter_like(ca: &Self, chunks: Vec<Vec<Option<T>>>) -> (r: Self)
        requires
            sp_concat(chunks.deep_view()).len() <= usize::MAX,
        ensures
            r.wf(),
            r.sp_chunks() == chunks.deep_view(),
            r@ == sp_concat(chunks.deep_view()),
            r.sp_name() == ca.sp_name(),
    {
        let name = clone_string(ca.name());
        Self::new_with_compute_len(name, chunks)
    }

    /// Build a column from fallible chunks: the first error wins.
    #[verifier::loop_isolation(false)]
    pub fn try_from_chunk_iter<E>(name: String, iter: Vec<Result<Vec<Option<T>>, E>>) -> (r: Result<
        Self,
        E,
    >)
        requires
            (forall|i: int| 0 <= i < iter@.len() ==> iter@[i] is Ok) ==> sp_concat(
                Seq::new(iter@.len(), |i: int| iter@[i]->Ok_0.deep_view()),
            ).len() <= usize::MAX,
        ensures
            match r {
                Ok(ca) => {
                    &&& forall|i: int| 0 <= i < iter@.len() ==> iter@[i] is Ok
                    &&& ca.wf()
                    &&& ca@ == sp_concat(Seq::new(iter@.len(), |i: int| iter@[i]->Ok_0.deep_view()))
                    &&& ca.sp_name() == name@
                },
                Err(e) => sp_first_err(iter@, e),
            },
    {
        let ghost orig = iter@;
        let mut v = iter;
        let mut chunks: Vec<Vec<Option<T>>> = Vec::new();
        let mut k: usize = 0;
        let n = v.len();
        proof {
            assert(v@ =~= orig.subrange(0, n as int));
        }
        while k < n
            invariant
                n == orig.len(),
                v@ == orig.subrange(k as int, n as int),
                0 <= k <= n,
                chunks@.len() == k,
                forall|j: int| 0 <= j < k ==> orig[j] is Ok,
                forall|j: int| 0 <= j < k ==> #[trigger] chunks@[j] == orig[j]->Ok_0,
            decreases n - k,
        {
            let ghost pre = v@;
            let item = v.remove(0);
            proof {
                assert(pre[0] == orig[k as int]);
            }
            match item {
                Ok(c) => {
                    chunks.push(c);
                },
                Err(e) => {
                    proof {
                        assert(orig[k as int] is Err && e == orig[k as int]->Err_0);
                        assert(sp_first_err(orig, e));
                    }
                    return Err(e);
                },
            }
            proof {
                assert(v@ =~= orig.subrange(k as int + 1, n as int));
            }
            k += 1;
        }
        proof {
            assert(chunks.deep_view() =~= Seq::new(orig.len(), |i: int| orig[i]->Ok_0.deep_view()));
        }
        Ok(Self::new_with_compute_len(name, chunks))
    }

    /// Build a column from a field (whose dtype must agree with the element
    /// kind) and a sequence of chunks, accumulating the dimensions as the
    /// chunks stream in.
    pub fn from_chunk_iter_and_field(field: crate::dtype::Field, chunks: Vec<Vec<Option<T>>>) -> (r:
        Self)
        requires
            field.dtype == T::sp_static_dtype(),
            sp_concat(chunks.deep_view()).len() <= usize::MAX,
        ensures
            r.wf(),
            r.sp_chunks() == chunks.deep_view(),
            r@ == sp_concat(chunks.deep_view()),
            r.sp_name() == field.name@,
    {
        Self::new_with_compute_len(field.name, chunks)
    }

    /// An all-missing column of the given length with another column's name.
    pub fn full_null_like(ca: &Self, length: usize) -> (r: Self)
        ensures
            r.wf(),
            r@ == Seq::new(length as nat, |i: int| None::<<T as DeepView>::V>),
            r.sp_name() == ca.sp_name(),
    {
        let name = clone_string(ca.name());
        Self::full_null(name, length)
    }

    /// An all-missing column of the given length.
    pub fn full_null(name: String, length: usize) -> (r: Self)
        ensures
            r.wf(),
            r@ == Seq::new(length as nat, |i: int| None::<<T as DeepView>::V>),
            r.sp_name() == name@,
    {
        let mut arr: Vec<Option<T>> = Vec::new();
        let mut i: usize = 0;
        while i < length
            invariant
                0 <= i <= length,
                arr@.len() == i,
                forall|j: int| 0 <= j < i ==> arr@[j] is None,
            decreases length - i,
        {
            arr.push(None);
            i += 1;
        }
        proof {
            assert(arr.deep_view() =~= Seq::new(length as nat, |i: int| None::<<T as DeepView>::V>));
        }
        Self::with_chunk(name, arr)
    }

    /// A column repeating one value `length` times.
    pub fn full(name: String, value: &T, length: usize) -> (r: Self)
        ensures
            r.wf(),
            r@ == Seq::new(length as nat, |i: int| Some(value.deep_view())),
            r.sp_name() == name@,
    {
        let mut arr: Vec<Option<T>> = Vec::new();
        let mut i: usize = 0;
        while i < length
            invariant
                0 <= i <= length,
                arr@.len() == i,
                forall|j: int|
                    0 <= j < i ==> #[trigger] arr.deep_view()[j] == Some(value.deep_view()),
            decreases length - i,
        {
            let ghost prev = arr.deep_view();
            arr.push(Some(T::el_clone(value)));
            proof {
                assert(arr.deep_view() =~= prev.push(Some(value.deep_view())));
            }
            i += 1;
        }
        proof {
            assert(arr.deep_view() =~= Seq::new(length as nat, |i: int| Some(value.deep_view())));
        }
        Self::with_chunk(name, arr)
    }

    /// A column owning a vector of values, none of them missing.
    pub fn from_vec(name: String, v: Vec<T>) -> (r: Self)
        ensures
            r.wf(),
            r@ == Seq::new(v.deep_view().len(), |i: int| Some(v.deep_view()[i])),
            r.sp_name() == name@,
    {
        let mut arr: Vec<Option<T>> = Vec::new();
        let n = v.len();
        let mut i: usize = 0;
        while i < n
            invariant
                n == v@.len(),
                0 <= i <= n,
                arr@.len() == i,
                forall|j: int|
                    0 <= j < i ==> #[trigger] arr.deep_view()[j] == Some(v.deep_view()[j]),
            decreases n - i,
        {
            let ghost prev = arr.deep_view();
            arr.push(Some(T::el_clone(&v[i])));
            proof {
                assert(arr.deep_view() =~= prev.push(Some(v.deep_view()[i as int])));
            }
            i += 1;
        }
        proof {
            assert(arr.deep_view() =~= Seq::new(v.deep_view().len(), |i: int| Some(v.deep_view()[i])));
        }
        Self::with_chunk(name, arr)
    }

    /// A column from a vector of values and an optional validity bitmap: a
    /// cleared bit makes the value at that position missing.
    pub fn from_vec_validity(name: String, values: Vec<T>, buffer: Option<Vec<bool>>) -> (r: Self)
        requires
            match buffer {
                Some(b) => b@.len() == values@.len(),
                None => true,
            },
        ensures
            r.wf(),
            r@.len() == values@.len(),
            forall|i: int|
                0 <= i < values@.len() ==> r@[i] == (match buffer {
                    Some(b) => if b@[i] {
                        Some(values.deep_view()[i])
                    } else {
                        None
                    },
                    None => Some(values.deep_view()[i]),
                }),
            r.sp_name() == name@,
    {
        match buffer {
            None => Self::from_vec(name, values),
            Some(b) => {
                let mut arr: Vec<Option<T>> = Vec::new();
                let n = values.len();
                let mut i: usize = 0;
                while i < n
                    invariant
                        n == values@.len(),
                        b@.len() == n,
                        0 <= i <= n,
                        arr@.len() == i,
                        forall|j: int|
                            0 <= j < i ==> #[trigger] arr.deep_view()[j] == (if b@[j] {
                                Some(values.deep_view()[j])
                            } else {
                                None
                            }),
                    decreases n - i,
                {
                    let ghost prev = arr.deep_view();
                    if b[i] {
                        arr.push(Some(T::el_clone(&values[i])));
                        proof {
                            assert(arr.deep_view() =~= prev.push(
                                Some(values.deep_view()[i as int]),
                            ));
                        }
                    } else {
                        arr.push(None);
                        proof {
                            assert(arr.deep_view() =~= prev.push(None));
                        }
                    }
                    i += 1;
                }
                Self::with_chunk(name, arr)
            },
        }
    }

    /// A column copied from a slice of values, none of them missing.
    pub fn from_slice(name: String, v: &[T]) -> (r: Self)
        ensures
            r.wf(),
            r@ == Seq::new(v.deep_view().len(), |i: int| Some(v.deep_view()[i])),
            r.sp_name() == name@,
    {
        let mut arr: Vec<Option<T>> = Vec::new();
        let n = v.len();
        let mut i: usize = 0;
        while i < n
            invariant
                n == v@.len(),
                0 <= i <= n,
                arr@.len() == i,
                forall|j: int|
                    0 <= j < i ==> #[trigger] arr.deep_view()[j] == Some(v.deep_view()[j]),
            decreases n - i,
        {
            let ghost prev = arr.deep_view();
            arr.push(Some(T::el_clone(&v[i])));
            proof {
                assert(arr.deep_view() =~= prev.push(Some(v.deep_view()[i as int])));
            }
            i += 1;
        }
        proof {
            assert(arr.deep_view() =~= Seq::new(v.deep_view().len(), |i: int| Some(v.deep_view()[i])));
        }
        Self::with_chunk(name, arr)
    }

    /// A column copied from a slice of optional values.
    pub fn from_slice_options(name: String, v: &[Option<T>]) -> (r: Self)
        ensures
            r.wf(),
            r@ == v.deep_view(),
            r.sp_name() == name@,
    {
        let mut arr: Vec<Option<T>> = Vec::new();
        let n = v.len();
        let mut i: usize = 0;
        while i < n
            invariant
                n == v@.len(),
                0 <= i <= n,
                arr@.len() == i,
                forall|j: int| 0 <= j < i ==> #[trigger] arr.deep_view()[j] == v.deep_view()[j],
            decreases n - i,
        {
            let ghost prev = arr.deep_view();
            match &v[i] {
                Some(x) => {
                    arr.push(Some(T::el_clone(x)));
                },
                None => {
                    arr.push(None);
                },
            }
            proof {
                assert(arr.deep_view() =~= prev.push(v.deep_view()[i as int]));
            }
            i += 1;
        }
        proof {
            assert(arr.deep_view() =~= v.deep_view());
        }
        Self::with_chunk(name, arr)
    }
}

/// `sp_concat` of a single chunk is that chunk.
proof fn lemma_one_chunk_concat<V>(cs: Seq<Seq<Option<V>>>, c: Seq<Option<V>>)
    requires
        cs.len() == 1,
        cs[0] == c,
    ensures
        sp_concat(cs) == c,
{
    assert(cs.drop_first() =~= Seq::<Seq<Option<V>>>::empty());
    assert(sp_concat(cs) == cs[0] + sp_concat(cs.drop_first()));
    assert(sp_concat(cs.drop_first()) =~= Seq::<Option<V>>::empty());
    assert(c + Seq::<Option<V>>::empty() =~= c);
}

/// A fresh chunk with the same cells.
pub(crate) fn clone_chunk<T: EqElement>(c: &Vec<Option<T>>) -> (r: Vec<Option<T>>)
    ensures
        r.deep_view() == c.deep_view(),
{
    let mut out: Vec<Option<T>> = Vec::new();
    let n = c.len();
    let mut i: usize = 0;
    while i < n
        invariant
            n == c@.len(),
            0 <= i <= n,
            out@.len() == i,
            forall|j: int| 0 <= j < i ==> #[trigger] out.deep_view()[j] == c.deep_view()[j],
        decreases n - i,
    {
        let ghost prev = out.deep_view();
        match &c[i] {
            Some(x) => {
                out.push(Some(T::el_clone(x)));
            },
            None => {
                out.push(None);
            },
        }
        proof {
            assert(out.deep_view() =~= prev.push(c.deep_view()[i as int]));
        }
        i += 1;
    }
    proof {
        assert(out.deep_view() =~= c.deep_view());
    }
    out
}

/// The declared dtype of a nested column is refined by the dtype its chunks
/// actually carry: when at least one chunk exists, the element kind's own
/// dtype wins over the declared one.
pub fn from_chunks_list_dtype<T: EqElement>(chunks: &Vec<Vec<Option<T>>>, dtype: DataType) -> (r:
    DataType)
    ensures
        r == if chunks@.len() > 0 {
            T::sp_static_dtype()
        } else {
            dtype
        },
{
    if chunks.len() > 0 {
        T::static_dtype()
    } else {
        dtype
    }
}

impl<T: EqElement> ChunkedArray<T> {
    /// A fresh copy of the cell at logical position `i`.
    fn cell_at(&self, i: usize) -> (r: Option<T>)
        requires
            self.wf(),
            i < self@.len(),
        ensures
            r.deep_view() == self@[i as int],
    {
        match self.get(i) {
            Some(v) => Some(T::el_clone(v)),
            None => None,
        }
    }

    /// Append the other column's chunks to this one, in place.
    #[verifier::loop_isolation(false)]
    pub fn append(&mut self, other: &Self) -> (r: PolarsResult<()>)
        requires
            old(self).wf(),
            other.wf(),
            old(self)@.len() + other@.len() <= usize::MAX,
        ensures
            r is Ok,
            final(self).wf(),
            final(self)@ == old(self)@ + other@,
            final(self).sp_chunks() == old(self).sp_chunks() + other.sp_chunks(),
            final(self).sp_name() == old(self).sp_name(),
    {
        let n = other.chunks.len();
        let mut c: usize = 0;
        proof {
            assert(self.sp_chunks() =~= old(self).sp_chunks() + other.sp_chunks().take(0));
        }
        while c < n
            invariant
                0 <= c <= n,
                self.sp_chunks() == old(self).sp_chunks() + other.sp_chunks().take(c as int),
                self.name == old(self).name,
                self.length == old(self).length,
                self.null_count == old(self).null_count,
            decreases n - c,
        {
            let ghost prev = self.chunks.deep_view();
            let cc = clone_chunk(&other.chunks[c]);
            self.chunks.push(cc);
            proof {
                assert(self.chunks.deep_view() =~= prev.push(other.sp_chunks()[c as int]));
                assert(prev.push(other.sp_chunks()[c as int]) =~= old(self).sp_chunks()
                    + other.sp_chunks().take(c as int + 1));
            }
            c += 1;
        }
        proof {
            assert(other.sp_chunks().take(n as int) =~= other.sp_chunks());
            lemma_concat_concat(old(self).sp_chunks(), other.sp_chunks());
            lemma_null_count_concat(old(self)@, other@);
            lemma_null_count_bounds(old(self)@);
            lemma_null_count_bounds(other@);
        }
        self.length = self.length + other.length;
        self.null_count = self.null_count + other.null_count;
        Ok(())
    }

    /// Append, taking ownership of the other column.
    pub fn append_owned(&mut self, other: Self) -> (r: PolarsResult<()>)
        requires
            old(self).wf(),
            other.wf(),
            old(self)@.len() + other@.len() <= usize::MAX,
        ensures
            r is Ok,
            final(self).wf(),
            final(self)@ == old(self)@ + other@,
            final(self).sp_name() == old(self).sp_name(),
    {
        self.append(&other)
    }

    /// Append the other column's values into this column's last chunk, so
    /// that no new chunk is created: the logical content is the same as
    /// after `append`, the physical split is not.
    #[verifier::loop_isolation(false)]
    pub fn extend(&mut self, other: &Self) -> (r: PolarsResult<()>)
        requires
            old(self).wf(),
            other.wf(),
            old(self)@.len() + other@.len() <= usize::MAX,
        ensures
            r is Ok,
            final(self).wf(),
            final(self)@ == old(self)@ + other@,
            final(self).sp_name() == old(self).sp_name(),
            final(self).sp_chunks().len() <= old(self).sp_chunks().len() + 1,
    {
        let ghost old_chunks = self.chunks.deep_view();
        let mut tail: Vec<Option<T>> = match self.chunks.pop() {
            Some(t) => t,
            None => Vec::new(),
        };
        let ghost head = self.chunks.deep_view();
        let ghost tail0 = tail.deep_view();
        proof {
            if old_chunks.len() > 0 {
                assert(head =~= old_chunks.drop_last());
                assert(head.push(tail0) =~= old_chunks);
                lemma_concat_push(head, tail0);
            } else {
                assert(head =~= old_chunks);
                assert(tail0 =~= Seq::<Option<<T as DeepView>::V>>::empty());
            }
        }
        let m = other.len();
        let mut i: usize = 0;
        while i < m
            invariant
                0 <= i <= m,
                m == other@.len(),
                tail.deep_view() == tail0 + other@.take(i as int),
            decreases m - i,
        {
            let ghost prev = tail.deep_view();
            let cell = other.cell_at(i);
            tail.push(cell);
            proof {
                assert(tail.deep_view() =~= prev.push(other@[i as int]));
                assert(prev.push(other@[i as int]) =~= tail0 + other@.take(i as int + 1));
            }
            i += 1;
        }
        proof {
            assert(other@.take(m as int) =~= other@);
        }
        let ghost newtail = tail.deep_view();
        let ghost prev_chunks = self.chunks.deep_view();
        self.chunks.push(tail);
        proof {
            assert(self.chunks.deep_view() =~= prev_chunks.push(newtail));
            lemma_concat_push(head, newtail);
            if old_chunks.len() > 0 {
                assert(sp_concat(head) + (tail0 + other@) =~= (sp_concat(head) + tail0) + other@);
            } else {
                assert(sp_concat(head.push(newtail)) =~= old(self)@ + other@);
            }
            lemma_null_count_concat(old(self)@, other@);
            lemma_null_count_bounds(old(self)@);
            lemma_null_count_bounds(other@);
        }
        self.length = self.length + other.length;
        self.null_count = self.null_count + other.null_count;
        Ok(())
    }

    /// A boolean column that is `true` exactly where this column is missing.
    pub fn is_null(&self) -> (r: BooleanChunked)
        requires
            self.wf(),
        ensures
            r.wf(),
            r@ == Seq::new(self@.len(), |i: int| Some(self@[i] is None)),
            r.sp_name() == self.sp_name(),
    {
        let n = self.len();
        let mut arr: Vec<Option<bool>> = Vec::new();
        let mut i: usize = 0;
        while i < n
            invariant
                self.wf(),
                n == self@.len(),
                0 <= i <= n,
                arr@.len() == i,
                forall|j: int| 0 <= j < i ==> #[trigger] arr@[j] == Some(self@[j] is None),
            decreases n - i,
        {
            let missing = match self.get(i) {
                Some(_) => false,
                None => true,
            };
            arr.push(Some(missing));
            i += 1;
        }
        proof {
            assert(arr.deep_view() =~= Seq::new(self@.len(), |i: int| Some(self@[i] is None)));
        }
        let name = clone_string(self.name());
        BooleanChunked::with_chunk(name, arr)
    }

    /// A boolean column that is `true` exactly where this column holds a
    /// value.
    pub fn is_not_null(&self) -> (r: BooleanChunked)
        requires
            self.wf(),
        ensures
            r.wf(),
            r@ == Seq::new(self@.len(), |i: int| Some(self@[i] is Some)),
            r.sp_name() == self.sp_name(),
    {
        let n = self.len();
        let mut arr: Vec<Option<bool>> = Vec::new();
        let mut i: usize = 0;
        while i < n
            invariant
                self.wf(),
                n == self@.len(),
                0 <= i <= n,
                arr@.len() == i,
                forall|j: int| 0 <= j < i ==> #[trigger] arr@[j] == Some(self@[j] is Some),
            decreases n - i,
        {
            let present = match self.get(i) {
                Some(_) => true,
                None => false,
            };
            arr.push(Some(present));
            i += 1;
        }
        proof {
            assert(arr.deep_view() =~= Seq::new(self@.len(), |i: int| Some(self@[i] is Some)));
        }
        let name = clone_string(self.name());
        BooleanChunked::with_chunk(name, arr)
    }

    /// Take `length` values starting at `offset`; a negative offset counts
    /// from the end, and both are clamped to the column's bounds.
    pub fn slice(&self, offset: i64, length: usize) -> (r: Self)
        requires
            self.wf(),
            self@.len() <= i64::MAX,
        ensures
            r.wf(),
            r@ == self@.subrange(
                sp_slice_start(self@.len() as int, offset as int),
                sp_slice_start(self@.len() as int, offset as int) + sp_slice_len(
                    self@.len() as int,
                    offset as int,
                    length as int,
                ),
            ),
            r.sp_name() == self.sp_name(),
    {
        let len = self.len();
        let start: usize = if offset >= 0 {
            if (offset as u64) <= (len as u64) {
                offset as usize
            } else {
                len
            }
        } else {
            if (len as i64) + offset >= 0 {
                ((len as i64) + offset) as usize
            } else {
                0
            }
        };
        let avail = len - start;
        let out_len: usize = if length <= avail {
            length
        } else {
            avail
        };
        let mut arr: Vec<Option<T>> = Vec::new();
        let mut i: usize = 0;
        while i < out_len
            invariant
                self.wf(),
                0 <= i <= out_len,
                start + out_len <= self@.len(),
                arr@.len() == i,
                forall|j: int| 0 <= j < i ==> #[trigger] arr.deep_view()[j] == self@[start + j],
            decreases out_len - i,
        {
            let ghost prev = arr.deep_view();
            let cell = self.cell_at(start + i);
            arr.push(cell);
            proof {
                assert(arr.deep_view() =~= prev.push(self@[start + i]));
            }
            i += 1;
        }
        proof {
            assert(arr.deep_view() =~= self@.subrange(start as int, start as int + out_len as int));
        }
        Self::with_chunk_like(self, arr)
    }

    /// The same values gathered into a single chunk.
    pub fn rechunk(&self) -> (r: Self)
        requires
            self.wf(),
        ensures
            r.wf(),
            r@ == self@,
            r.sp_name() == self.sp_name(),
            r.sp_chunks().len() == 1,
    {
        let n = self.len();
        let mut arr: Vec<Option<T>> = Vec::new();
        let mut i: usize = 0;
        while i < n
            invariant
                self.wf(),
                n == self@.len(),
                0 <= i <= n,
                arr@.len() == i,
                forall|j: int| 0 <= j < i ==> #[trigger] arr.deep_view()[j] == self@[j],
            decreases n - i,
        {
            let ghost prev = arr.deep_view();
            let cell = self.cell_at(i);
            arr.push(cell);
            proof {
                assert(arr.deep_view() =~= prev.push(self@[i as int]));
            }
            i += 1;
        }
        proof {
            assert(arr.deep_view() =~= self@);
        }
        Self::with_chunk_like(self, arr)
    }

    /// A column repeating the value at `index`, `length` times: how a
    /// length-1 column is materialized to a broadcast length.
    pub fn new_from_index(&self, index: usize, length: usize) -> (r: Self)
        requires
            self.wf(),
            index < self@.len(),
        ensures
            r.wf(),
            r@ == Seq::new(length as nat, |i: int| self@[index as int]),
            r.sp_name() == self.sp_name(),
    {
        let mut arr: Vec<Option<T>> = Vec::new();
        let mut i: usize = 0;
        while i < length
            invariant
                self.wf(),
                index < self@.len(),
                0 <= i <= length,
                arr@.len() == i,
                forall|j: int| 0 <= j < i ==> #[trigger] arr.deep_view()[j] == self@[index as int],
            decreases length - i,
        {
            let ghost prev = arr.deep_view();
            let cell = self.cell_at(index);
            arr.push(cell);
            proof {
                assert(arr.deep_view() =~= prev.push(self@[index as int]));
            }
            i += 1;
        }
        proof {
            assert(arr.deep_view() =~= Seq::new(length as nat, |i: int| self@[index as int]));
        }
        Self::with_chunk_like(self, arr)
    }

    /// Split the column in two at `offset`; a negative offset counts from
    /// the end, clamped to the column's bounds.
    pub fn split_at(&self, offset: i64) -> (r: (Self, Self))
        requires
            self.wf(),
            self@.len() <= i64::MAX,
        ensures
            r.0.wf(),
            r.1.wf(),
            r.0@ == self@.subrange(0, sp_slice_start(self@.len() as int, offset as int)),
            r.1@ == self@.subrange(
                sp_slice_start(self@.len() as int, offset as int),
                self@.len() as int,
            ),
            r.0@ + r.1@ == self@,
            r.0.sp_name() == self.sp_name(),
            r.1.sp_name() == self.sp_name(),
    {
        let len = self.len();
        let pos: usize = if offset >= 0 {
            if (offset as u64) <= (len as u64) {
                offset as usize
            } else {
                len
            }
        } else {
            if (len as i64) + offset >= 0 {
                ((len as i64) + offset) as usize
            } else {
                0
            }
        };
        let head = self.slice(0, pos);
        let tail = self.slice(pos as i64, len - pos);
        proof {
            assert(head@ =~= self@.subrange(0, pos as int));
            assert(tail@ =~= self@.subrange(pos as int, self@.len() as int));
            assert(head@ + tail@ =~= self@);
        }
        (head, tail)
    }

    /// The column's cells as one plain vector.
    pub fn to_option_vec(&self) -> (r: Vec<Option<T>>)
        requires
            self.wf(),
        ensures
            r.deep_view() == self@,
    {
        let n = self.len();
        let mut out: Vec<Option<T>> = Vec::new();
        let mut i: usize = 0;
        while i < n
            invariant
                self.wf(),
                n == self@.len(),
                0 <= i <= n,
                out@.len() == i,
                forall|j: int| 0 <= j < i ==> #[trigger] out.deep_view()[j] == self@[j],
            decreases n - i,
        {
            let ghost prev = out.deep_view();
            let cell = self.cell_at(i);
            out.push(cell);
            proof {
                assert(out.deep_view() =~= prev.push(self@[i as int]));
            }
            i += 1;
        }
        proof {
            assert(out.deep_view() =~= self@);
        }
        out
    }
}

/// The cells kept by a boolean mask: a cell survives exactly where the mask
/// holds a definite `true`.
pub open spec fn sp_filter<V>(s: Seq<Option<V>>, m: Seq<Option<bool>>) -> Seq<Option<V>>
    decreases s.len(),
{
    if s.len() == 0 {
        Seq::empty()
    } else {
        sp_filter(s.drop_last(), m.drop_last()) + (if m[s.len() - 1] == Some(true) {
            seq![s.last()]
        } else {
            Seq::empty()
        })
    }
}

impl<T: EqElement> ChunkedArray<T> {
    /// Keep the cells where `mask` is a definite `true`; a false or missing
    /// mask cell drops the value. The mask must be as long as the column.
    #[verifier::loop_isolation(false)]
    pub fn filter(&self, mask: &BooleanChunked) -> (r: PolarsResult<Self>)
        requires
            self.wf(),
            mask.wf(),
        ensures
            r is Ok <==> mask@.len() == self@.len(),
            match r {
                Ok(ca) => {
                    &&& ca.wf()
                    &&& ca@ == sp_filter(self@, mask@)
                    &&& ca.sp_name() == self.sp_name()
                },
                Err(e) => e == PolarsError::SchemaMismatch {
                    expected: T::sp_static_dtype(),
                    found: T::sp_static_dtype(),
                },
            },
    {
        if mask.len() != self.len() {
            return Err(
                PolarsError::SchemaMismatch { expected: T::static_dtype(), found: T::static_dtype() },
            );
        }
        let n = self.len();
        let mut arr: Vec<Option<T>> = Vec::new();
        let mut i: usize = 0;
        proof {
            assert(self@.take(0) =~= Seq::<Option<<T as DeepView>::V>>::empty());
            assert(sp_filter(self@.take(0), mask@.take(0)) =~= Seq::<
                Option<<T as DeepView>::V>,
            >::empty());
        }
        while i < n
            invariant
                0 <= i <= n,
                arr.deep_view() == sp_filter(self@.take(i as int), mask@.take(i as int)),
            decreases n - i,
        {
            let ghost prev = arr.deep_view();
            let keep = match mask.get(i) {
                Some(b) => *b,
                None => false,
            };
            if keep {
                let cell = self.cell_at(i);
                arr.push(cell);
            }
            proof {
                let st = self@.take(i as int + 1);
                let mt = mask@.take(i as int + 1);
                assert(st.drop_last() =~= self@.take(i as int));
                assert(mt.drop_last() =~= mask@.take(i as int));
                assert(st.last() == self@[i as int]);
                assert(mt[st.len() - 1] == mask@[i as int]);
                if keep {
                    assert(arr.deep_view() =~= prev.push(self@[i as int]));
                    assert(prev + seq![self@[i as int]] =~= prev.push(self@[i as int]));
                } else {
                    assert(prev + Seq::<Option<<T as DeepView>::V>>::empty() =~= prev);
                }
            }
            i += 1;
        }
        proof {
            assert(self@.take(n as int) =~= self@);
            assert(mask@.take(n as int) =~= mask@);
        }
        Ok(Self::with_chunk_like(self, arr))
    }

    /// Gather the cells at the given positions, in the given order.
    pub fn take(&self, indices: &Vec<usize>) -> (r: Self)
        requires
            self.wf(),
            forall|i: int| 0 <= i < indices@.len() ==> indices@[i] < self@.len(),
        ensures
            r.wf(),
            r@ == Seq::new(indices@.len(), |i: int| self@[indices@[i] as int]),
            r.sp_name() == self.sp_name(),
    {
        let n = indices.len();
        let mut arr: Vec<Option<T>> = Vec::new();
        let mut i: usize = 0;
        while i < n
            invariant
                self.wf(),
                n == indices@.len(),
                forall|k: int| 0 <= k < n ==> indices@[k] < self@.len(),
                0 <= i <= n,
                arr@.len() == i,
                forall|j: int|
                    0 <= j < i ==> #[trigger] arr.deep_view()[j] == self@[indices@[j] as int],
            decreases n - i,
        {
            let ghost prev = arr.deep_view();
            let cell = self.cell_at(indices[i]);
            arr.push(cell);
            proof {
                assert(arr.deep_view() =~= prev.push(self@[indices@[i as int] as int]));
            }
            i += 1;
        }
        proof {
            assert(arr.deep_view() =~= Seq::new(indices@.len(), |i: int| self@[indices@[i] as int]));
        }
        Self::with_chunk_like(self, arr)
    }

    /// Element-wise choice: where `mask` is a definite `true` take this
    /// column's cell, otherwise the other column's.
    pub fn zip_with(&self, mask: &BooleanChunked, other: &Self) -> (r: PolarsResult<Self>)
        requires
            self.wf(),
            mask.wf(),
            other.wf(),
        ensures
            r is Ok <==> (mask@.len() == self@.len() && other@.len() == self@.len()),
            match r {
                Ok(ca) => {
                    &&& ca.wf()
                    &&& ca@ == Seq::new(
                        self@.len(),
                        |i: int|
                            if mask@[i] == Some(true) {
                                self@[i]
                            } else {
                                other@[i]
                            },
                    )
                    &&& ca.sp_name() == self.sp_name()
                },
                Err(e) => e == PolarsError::SchemaMismatch {
                    expected: T::sp_static_dtype(),
                    found: T::sp_static_dtype(),
                },
            },
    {
        if mask.len() != self.len() || other.len() != self.len() {
            return Err(
                PolarsError::SchemaMismatch { expected: T::static_dtype(), found: T::static_dtype() },
            );
        }
        let ghost out = Seq::new(
            self@.len(),
            |i: int|
                if mask@[i] == Some(true) {
                    self@[i]
                } else {
                    other@[i]
                },
        );
        let n = self.len();
        let mut arr: Vec<Option<T>> = Vec::new();
        let mut i: usize = 0;
        while i < n
            invariant
                self.wf(),
                mask.wf(),
                other.wf(),
                n == self@.len() == mask@.len() == other@.len(),
                out == Seq::new(
                    self@.len(),
                    |i: int|
                        if mask@[i] == Some(true) {
                            self@[i]
                        } else {
                            other@[i]
                        },
                ),
                0 <= i <= n,
                arr@.len() == i,
                forall|j: int| 0 <= j < i ==> #[trigger] arr.deep_view()[j] == out[j],
            decreases n - i,
        {
            let ghost prev = arr.deep_view();
            let keep = match mask.get(i) {
                Some(b) => *b,
                None => false,
            };
            let cell = if keep {
                self.cell_at(i)
            } else {
                other.cell_at(i)
            };
            arr.push(cell);
            proof {
                assert(arr.deep_view() =~= prev.push(out[i as int]));
            }
            i += 1;
        }
        proof {
            assert(arr.deep_view() =~= out);
        }
        Ok(Self::with_chunk_like(self, arr))
    }

    /// The cells in reverse order.
    pub fn reverse(&self) -> (r: Self)
        requires
            self.wf(),
        ensures
            r.wf(),
            r@ == Seq::new(self@.len(), |i: int| self@[self@.len() - 1 - i]),
            r.sp_name() == self.sp_name(),
    {
        let n = self.len();
        let mut arr: Vec<Option<T>> = Vec::new();
        let mut i: usize = 0;
        while i < n
            invariant
                self.wf(),
                n == self@.len(),
                0 <= i <= n,
                arr@.len() == i,
                forall|j: int|
                    0 <= j < i ==> #[trigger] arr.deep_view()[j] == self@[n - 1 - j],
            decreases n - i,
        {
            let ghost prev = arr.deep_view();
            let cell = self.cell_at(n - 1 - i);
            arr.push(cell);
            proof {
                assert(arr.deep_view() =~= prev.push(self@[n - 1 - i as int]));
            }
            i += 1;
        }
        proof {
            assert(arr.deep_view() =~= Seq::new(self@.len(), |i: int| self@[self@.len() - 1 - i]));
        }
        Self::with_chunk_like(self, arr)
    }

    /// Move every cell `periods` positions forward (backward when
    /// negative), filling the uncovered positions with missing values.
    pub fn shift(&self, periods: i64) -> (r: Self)
        requires
            self.wf(),
            self@.len() <= i64::MAX,
        ensures
            r.wf(),
            r@ == Seq::new(
                self@.len(),
                |i: int|
                    if 0 <= i - periods < self@.len() {
                        self@[i - periods]
                    } else {
                        None
                    },
            ),
            r.sp_name() == self.sp_name(),
    {
        let ghost out = Seq::new(
            self@.len(),
            |i: int|
                if 0 <= i - periods < self@.len() {
                    self@[i - periods]
                } else {
                    None
                },
        );
        let n = self.len();
        if periods >= (n as i64) || periods <= -(n as i64) {
            let name = clone_string(self.name());
            let r = Self::full_null(name, n);
            proof {
                assert(r@ =~= out);
            }
            return r;
        }
        let mut arr: Vec<Option<T>> = Vec::new();
        let mut i: usize = 0;
        while i < n
            invariant
                self.wf(),
                n == self@.len() <= i64::MAX,
                -(n as int) < periods < (n as int),
                out == Seq::new(
                    self@.len(),
                    |i: int|
                        if 0 <= i - periods < self@.len() {
                            self@[i - periods]
                        } else {
                            None
                        },
                ),
                0 <= i <= n,
                arr@.len() == i,
                forall|j: int| 0 <= j < i ==> #[trigger] arr.deep_view()[j] == out[j],
            decreases n - i,
        {
            let ghost prev = arr.deep_view();
            if periods >= 0 {
                if (i as i64) >= periods {
                    let cell = self.cell_at(((i as i64) - periods) as usize);
                    arr.push(cell);
                } else {
                    arr.push(None);
                }
            } else {
                let k = (-periods) as usize;
                if i < n - k {
                    let cell = self.cell_at(i + k);
                    arr.push(cell);
                } else {
                    arr.push(None);
                }
            }
            proof {
                assert(arr.deep_view() =~= prev.push(out[i as int]));
            }
            i += 1;
        }
        proof {
            assert(arr.deep_view() =~= out);
        }
        Self::with_chunk_like(self, arr)
    }
}

impl ChunkedArray<i64> {
    /// The smallest present value, `None` when every value is missing.
    pub fn min(&self) -> (r: Option<i64>)
        requires
            self.wf(),
        ensures
            match r {
                Some(m) => (exists|i: int| 0 <= i < self@.len() && self@[i] == Some(m))
                    && (forall|i: int|
                    0 <= i < self@.len() && self@[i] is Some ==> m <= (#[trigger] self@[i])->0),
                None => forall|i: int| 0 <= i < self@.len() ==> self@[i] is None,
            },
    {
        let n = self.len();
        let mut best: Option<i64> = None;
        let mut i: usize = 0;
        while i < n
            invariant
                self.wf(),
                n == self@.len(),
                0 <= i <= n,
                match best {
                    Some(m) => (exists|j: int| 0 <= j < i && self@[j] == Some(m)) && (forall|j: int|
                        0 <= j < i && self@[j] is Some ==> m <= (#[trigger] self@[j])->0),
                    None => forall|j: int| 0 <= j < i ==> self@[j] is None,
                },
            decreases n - i,
        {
            match self.get(i) {
                Some(v) => {
                    let value = *v;
                    proof {
                        assert(self@[i as int] == Some(value));
                    }
                    best = match best {
                        Some(m) => if value < m {
                            Some(value)
                        } else {
                            Some(m)
                        },
                        None => Some(value),
                    };
                },
                None => {},
            }
            i += 1;
        }
        best
    }

    /// The largest present value, `None` when every value is missing.
    pub fn max(&self) -> (r: Option<i64>)
        requires
            self.wf(),
        ensures
            match r {
                Some(m) => (exists|i: int| 0 <= i < self@.len() && self@[i] == Some(m))
                    && (forall|i: int|
                    0 <= i < self@.len() && self@[i] is Some ==> m >= (#[trigger] self@[i])->0),
                None => forall|i: int| 0 <= i < self@.len() ==> self@[i] is None,
            },
    {
        let n = self.len();
        let mut best: Option<i64> = None;
        let mut i: usize = 0;
        while i < n
            invariant
                self.wf(),
                n == self@.len(),
                0 <= i <= n,
                match best {
                    Some(m) => (exists|j: int| 0 <= j < i && self@[j] == Some(m)) && (forall|j: int|
                        0 <= j < i && self@[j] is Some ==> m >= (#[trigger] self@[j])->0),
                    None => forall|j: int| 0 <= j < i ==> self@[j] is None,
                },
            decreases n - i,
        {
            match self.get(i) {
                Some(v) => {
                    let value = *v;
                    proof {
                        assert(self@[i as int] == Some(value));
                    }
                    best = match best {
                        Some(m) => if value > m {
                            Some(value)
                        } else {
                            Some(m)
                        },
                        None => Some(value),
                    };
                },
                None => {},
            }
            i += 1;
        }
        best
    }

    /// Element-wise difference under strict null semantics; every present
    /// pair's difference must fit the 64-bit range.
    #[verifier::loop_isolation(false)]
    pub fn subtract(&self, rhs: &Self) -> (r: PolarsResult<Self>)
        requires
            self.wf(),
            rhs.wf(),
            crate::compare::sp_broadcastable(self@.len(), rhs@.len()),
            forall|i: int|
                0 <= i < crate::compare::sp_out_len(self@, rhs@) ==> (match (
                    #[trigger] crate::compare::sp_bat(self@, i),
                    crate::compare::sp_bat(rhs@, i),
                ) {
                    (Some(x), Some(y)) => i64::MIN <= x - y <= i64::MAX,
                    _ => true,
                }),
        ensures
            r is Ok,
            match r {
                Ok(ca) => {
                    &&& ca.wf()
                    &&& ca@ == Seq::new(
                        crate::compare::sp_out_len(self@, rhs@) as nat,
                        |i: int|
                            match (
                                crate::compare::sp_bat(self@, i),
                                crate::compare::sp_bat(rhs@, i),
                            ) {
                                (Some(x), Some(y)) => Some((x - y) as i64),
                                _ => None,
                            },
                    )
                    &&& ca.sp_name() == self.sp_name()
                },
                Err(_) => false,
            },
    {
        let ghost out = Seq::new(
            crate::compare::sp_out_len(self@, rhs@) as nat,
            |i: int|
                match (crate::compare::sp_bat(self@, i), crate::compare::sp_bat(rhs@, i)) {
                    (Some(x), Some(y)) => Some((x - y) as i64),
                    _ => None,
                },
        );
        let la = self.len();
        let lb = rhs.len();
        let n = if la == 1 {
            lb
        } else {
            la
        };
        let mut arr: Vec<Option<i64>> = Vec::new();
        let mut i: usize = 0;
        while i < n
            invariant
                0 <= i <= n,
                arr@.len() == i,
                forall|j: int| 0 <= j < i ==> #[trigger] arr@[j] == out[j],
            decreases n - i,
        {
            let x = self.get(if la == 1 {
                0
            } else {
                i
            });
            let y = rhs.get(if lb == 1 {
                0
            } else {
                i
            });
            match (x, y) {
                (Some(a), Some(b)) => {
                    proof {
                        assert(crate::compare::sp_bat(self@, i as int) == Some(*a));
                        assert(crate::compare::sp_bat(rhs@, i as int) == Some(*b));
                    }
                    arr.push(Some(*a - *b));
                },
                _ => {
                    arr.push(None);
                },
            }
            i += 1;
        }
        proof {
            assert(arr.deep_view() =~= out);
        }
        Ok(Self::with_chunk_like(self, arr))
    }

    /// Element-wise sum under strict null semantics; every present pair's
    /// sum must fit the 64-bit range.
    #[verifier::loop_isolation(false)]
    pub fn add_to(&self, rhs: &Self) -> (r: PolarsResult<Self>)
        requires
            self.wf(),
            rhs.wf(),
            crate::compare::sp_broadcastable(self@.len(), rhs@.len()),
            forall|i: int|
                0 <= i < crate::compare::sp_out_len(self@, rhs@) ==> (match (
                    #[trigger] crate::compare::sp_bat(self@, i),
                    crate::compare::sp_bat(rhs@, i),
                ) {
                    (Some(x), Some(y)) => i64::MIN <= x + y <= i64::MAX,
                    _ => true,
                }),
        ensures
            r is Ok,
            match r {
                Ok(ca) => {
                    &&& ca.wf()
                    &&& ca@ == Seq::new(
                        crate::compare::sp_out_len(self@, rhs@) as nat,
                        |i: int|
                            match (
                                crate::compare::sp_bat(self@, i),
                                crate::compare::sp_bat(rhs@, i),
                            ) {
                                (Some(x), Some(y)) => Some((x + y) as i64),
                                _ => None,
                            },
                    )
                    &&& ca.sp_name() == self.sp_name()
                },
                Err(_) => false,
            },
    {
        let ghost out = Seq::new(
            crate::compare::sp_out_len(self@, rhs@) as nat,
            |i: int|
                match (crate::compare::sp_bat(self@, i), crate::compare::sp_bat(rhs@, i)) {
                    (Some(x), Some(y)) => Some((x + y) as i64),
                    _ => None,
                },
        );
        let la = self.len();
        let lb = rhs.len();
        let n = if la == 1 {
            lb
        } else {
            la
        };
        let mut arr: Vec<Option<i64>> = Vec::new();
        let mut i: usize = 0;
        while i < n
            invariant
                0 <= i <= n,
                arr@.len() == i,
                forall|j: int| 0 <= j < i ==> #[trigger] arr@[j] == out[j],
            decreases n - i,
        {
            let x = self.get(if la == 1 {
                0
            } else {
                i
            });
            let y = rhs.get(if lb == 1 {
                0
            } else {
                i
            });
            match (x, y) {
                (Some(a), Some(b)) => {
                    proof {
                        assert(crate::compare::sp_bat(self@, i as int) == Some(*a));
                        assert(crate::compare::sp_bat(rhs@, i as int) == Some(*b));
                    }
                    arr.push(Some(*a + *b));
                },
                _ => {
                    arr.push(None);
                },
            }
            i += 1;
        }
        proof {
            assert(arr.deep_view() =~= out);
        }
        Ok(Self::with_chunk_like(self, arr))
    }
}

/// The present values of a logical sequence, in order.
pub open spec fn sp_present_vals(s: Seq<Option<i64>>) -> Seq<i64>
    decreases s.len(),
{
    if s.len() == 0 {
        Seq::empty()
    } else {
        sp_present_vals(s.drop_last()) + (if s.last() is Some {
            seq![s.last()->0]
        } else {
            Seq::empty()
        })
    }
}

/// The present values of a sequence extended by one cell.
pub proof fn lemma_present_vals_snoc(s: Seq<Option<i64>>, x: Option<i64>)
    ensures
        sp_present_vals(s.push(x)) == sp_present_vals(s) + (if x is Some {
            seq![x->0]
        } else {
            Seq::<i64>::empty()
        }),
{
    assert(s.push(x).drop_last() =~= s);
    assert(s.push(x).last() == x);
}

/// As many values are present as are not missing.
pub proof fn lemma_present_vals_len(s: Seq<Option<i64>>)
    ensures
        sp_present_vals(s).len() == s.len() - sp_null_count(s),
    decreases s.len(),
{
    lemma_null_count_bounds(s);
    if s.len() > 0 {
        lemma_present_vals_len(s.drop_last());
        assert(s.drop_last().push(s.last()) =~= s);
        lemma_null_count_snoc(s.drop_last(), s.last());
    }
}

/// Values sorted in the requested direction over an index range.
pub open spec fn sp_sorted_run(s: Seq<Option<i64>>, lo: int, hi: int, descending: bool) -> bool {
    forall|i: int, j: int|
        #![trigger s[i], s[j]]
        lo <= i < j < hi ==> (if descending {
            s[i]->0 >= s[j]->0
        } else {
            s[i]->0 <= s[j]->0
        })
}

/// Selection sort of plain values into ascending order, preserving the
/// multiset of values.
#[verifier::loop_isolation(false)]
fn sort_i64_asc(values: Vec<i64>) -> (r: Vec<i64>)
    ensures
        r@.len() == values@.len(),
        r@.to_multiset() == values@.to_multiset(),
        forall|i: int, j: int| #![trigger r@[i], r@[j]] 0 <= i < j < r@.len() ==> r@[i] <= r@[j],
{
    broadcast use vstd::seq_lib::group_to_multiset_ensures;
    broadcast use vstd::multiset::group_multiset_axioms;

    let mut work = values;
    let mut out: Vec<i64> = Vec::new();
    proof {
        assert(out@.to_multiset().add(work@.to_multiset()) =~= values@.to_multiset());
    }
    while work.len() > 0
        invariant
            out@.len() + work@.len() == values@.len(),
            out@.to_multiset().add(work@.to_multiset()) == values@.to_multiset(),
            forall|i: int, j: int|
                #![trigger out@[i], out@[j]]
                0 <= i < j < out@.len() ==> out@[i] <= out@[j],
            forall|k: int, j: int|
                #![trigger out@[k], work@[j]]
                0 <= k < out@.len() && 0 <= j < work@.len() ==> out@[k] <= work@[j],
        decreases work@.len(),
    {
        let mut m: usize = 0;
        let mut i: usize = 1;
        while i < work.len()
            invariant
                0 <= m < work@.len(),
                1 <= i <= work@.len(),
                forall|j: int| 0 <= j < i ==> work@[m as int] <= work@[j],
            decreases work@.len() - i,
        {
            if work[i] < work[m] {
                m = i;
            }
            i += 1;
        }
        let ghost pre = work@;
        let ghost old_out = out@;
        let v = work.remove(m);
        out.push(v);
        proof {
            assert(pre.contains(pre[m as int]));
            assert(pre.to_multiset().count(v) > 0);
            assert(work@.to_multiset() == pre.remove(m as int).to_multiset());
            assert(out@.to_multiset() =~= old_out.to_multiset().insert(v));
            assert(out@.to_multiset().add(work@.to_multiset()) =~= old_out.to_multiset().add(
                pre.to_multiset(),
            ));
            assert forall|k: int, j: int|
                #![trigger out@[k], work@[j]]
                0 <= k < out@.len() && 0 <= j < work@.len() implies out@[k] <= work@[j] by {
                assert(work@[j] == (if j < m {
                    pre[j]
                } else {
                    pre[j + 1]
                }));
                assert(pre[m as int] <= work@[j]);
                if k < old_out.len() {
                    assert(out@[k] == old_out[k]);
                    assert(old_out[k] <= pre[if j < m as int { j } else { j + 1 }]);
                } else {
                    assert(out@[k] == v);
                }
            }
            assert forall|i2: int, j2: int|
                #![trigger out@[i2], out@[j2]]
                0 <= i2 < j2 < out@.len() implies out@[i2] <= out@[j2] by {
                if j2 < old_out.len() {
                } else {
                    assert(out@[j2] == v);
                    assert(old_out[i2] <= pre[m as int]);
                }
            }
        }
    }
    out
}

impl ChunkedArray<i64> {
    /// Sort the column: present values in the requested direction, missing
    /// values gathered at the chosen end, the multiset of present values
    /// kept.
    #[verifier::loop_isolation(false)]
    pub fn sort_with(&self, descending: bool, nulls_last: bool) -> (r: Self)
        requires
            self.wf(),
        ensures
            r.wf(),
            r@.len() == self@.len(),
            r.sp_name() == self.sp_name(),
            sp_null_count(r@) == sp_null_count(self@),
            sp_present_vals(r@).to_multiset() == sp_present_vals(self@).to_multiset(),
            ({
                let nc = sp_null_count(self@);
                let np = self@.len() - nc;
                if nulls_last {
                    &&& forall|i: int| 0 <= i < np ==> (#[trigger] r@[i]) is Some
                    &&& forall|i: int| np <= i < r@.len() ==> (#[trigger] r@[i]) is None
                    &&& sp_sorted_run(r@, 0, np, descending)
                } else {
                    &&& forall|i: int| 0 <= i < nc ==> (#[trigger] r@[i]) is None
                    &&& forall|i: int| nc <= i < r@.len() ==> (#[trigger] r@[i]) is Some
                    &&& sp_sorted_run(r@, nc, r@.len() as int, descending)
                }
            }),
    {
        broadcast use vstd::seq_lib::group_to_multiset_ensures;
        broadcast use vstd::multiset::group_multiset_axioms;

        let n = self.len();
        let mut values: Vec<i64> = Vec::new();
        let mut i: usize = 0;
        proof {
            assert(self@.take(0) =~= Seq::<Option<i64>>::empty());
            assert(values@ =~= sp_present_vals(self@.take(0)));
        }
        while i < n
            invariant
                0 <= i <= n,
                values@ == sp_present_vals(self@.take(i as int)),
            decreases n - i,
        {
            let ghost prev = values@;
            proof {
                assert(self@.take(i as int).push(self@[i as int]) =~= self@.take(i as int + 1));
                lemma_present_vals_snoc(self@.take(i as int), self@[i as int]);
            }
            match self.get(i) {
                Some(v) => {
                    values.push(*v);
                    proof {
                        assert(values@ =~= prev + seq![self@[i as int]->0]);
                    }
                },
                None => {
                    proof {
                        assert(prev + Seq::<i64>::empty() =~= prev);
                    }
                },
            }
            i += 1;
        }
        proof {
            assert(self@.take(n as int) =~= self@);
            lemma_present_vals_len(self@);
            lemma_null_count_bounds(self@);
        }
        let sorted = sort_i64_asc(values);
        let np = sorted.len();
        let nc = n - np;
        let ghost fv = Seq::new(
            np as nat,
            |j: int|
                if descending {
                    sorted@[np - 1 - j]
                } else {
                    sorted@[j]
                },
        );
        let mut arr: Vec<Option<i64>> = Vec::new();
        if !nulls_last {
            let mut k: usize = 0;
            while k < nc
                invariant
                    0 <= k <= nc,
                    arr@.len() == k,
                    forall|j: int| 0 <= j < k ==> (#[trigger] arr.deep_view()[j]) is None,
                decreases nc - k,
            {
                let ghost prev = arr.deep_view();
                arr.push(None);
                proof {
                    assert(arr.deep_view() =~= prev.push(None));
                }
                k += 1;
            }
        }
        let ghost base = arr.deep_view();
        proof {
            if !nulls_last {
                assert(base.len() == nc);
            } else {
                assert(base.len() == 0);
            }
        }
        let mut k: usize = 0;
        while k < np
            invariant
                0 <= k <= np,
                np == sorted@.len(),
                arr@.len() == base.len() + k,
                base == arr.deep_view().take(base.len() as int),
                forall|j: int|
                    0 <= j < k ==> #[trigger] arr.deep_view()[base.len() + j] == Some(fv[j]),
            decreases np - k,
        {
            let ghost prev = arr.deep_view();
            let cell = if descending {
                sorted[np - 1 - k]
            } else {
                sorted[k]
            };
            arr.push(Some(cell));
            proof {
                assert(arr.deep_view() =~= prev.push(Some(cell)));
                assert(arr.deep_view().take(base.len() as int) =~= prev.take(base.len() as int));
                assert(fv[k as int] == cell);
            }
            k += 1;
        }
        if nulls_last {
            proof {
                assert forall|j: int| 0 <= j < np implies #[trigger] arr.deep_view()[j] == Some(
                    fv[j],
                ) by {
                    assert(arr.deep_view()[base.len() + j] == Some(fv[j]));
                }
            }
            let mut k: usize = 0;
            while k < nc
                invariant
                    0 <= k <= nc,
                    base.len() == 0,
                    np == sorted@.len(),
                    arr@.len() == np + k,
                    forall|j: int|
                        0 <= j < np ==> #[trigger] arr.deep_view()[j] == Some(fv[j]),
                    forall|j: int|
                        np <= j < arr@.len() ==> (#[trigger] arr.deep_view()[j]) is None,
                decreases nc - k,
            {
                let ghost prev = arr.deep_view();
                arr.push(None);
                proof {
                    assert(arr.deep_view() =~= prev.push(None));
                }
                k += 1;
            }
        }
        proof {
            let dv = arr.deep_view();
            assert(dv.len() == nc + np);
            if nulls_last {
                assert forall|i: int| np <= i < dv.len() implies (#[trigger] dv[i]) is None by {}
            } else {
                assert forall|i: int| 0 <= i < nc implies (#[trigger] dv[i]) is None by {
                    assert(dv[i] == dv.take(nc as int)[i]);
                    assert(dv.take(nc as int)[i] == base[i]);
                }
                assert forall|i: int| nc <= i < dv.len() implies (#[trigger] dv[i]) == Some(
                    fv[i - nc],
                ) by {
                    assert(dv[nc + (i - nc)] == Some(fv[i - nc]));
                }
            }
            lemma_sorted_block_present_vals(dv, nc as int, np as int, nulls_last, fv);
            if descending {
                assert(fv =~= sorted@.reverse());
                sorted@.lemma_reverse_to_multiset();
            } else {
                assert(fv =~= sorted@);
            }
        }
        let r = Self::with_chunk_like(self, arr);
        proof {
            lemma_present_vals_len(r@);
            let lo: int = if nulls_last {
                0
            } else {
                nc as int
            };
            assert forall|i: int, j: int|
                #![trigger r@[i], r@[j]]
                lo <= i < j < lo + np implies (if descending {
                r@[i]->0 >= r@[j]->0
            } else {
                r@[i]->0 <= r@[j]->0
            }) by {
                assert(r@[i] == Some(fv[i - lo]));
                assert(r@[j] == Some(fv[j - lo]));
                if descending {
                    assert(sorted@[np - 1 - (j - lo)] <= sorted@[np - 1 - (i - lo)]);
                } else {
                    assert(sorted@[i - lo] <= sorted@[j - lo]);
                }
            }
        }
        r
    }
}

/// A sequence made of one all-missing block and one all-present block has
/// exactly the present block's values.
proof fn lemma_sorted_block_present_vals(
    s: Seq<Option<i64>>,
    nc: int,
    np: int,
    nulls_last: bool,
    fv: Seq<i64>,
)
    requires
        nc >= 0,
        np >= 0,
        s.len() == nc + np,
        fv.len() == np,
        if nulls_last {
            (forall|i: int| 0 <= i < np ==> (#[trigger] s[i]) == Some(fv[i])) && (forall|i: int|
                np <= i < s.len() ==> (#[trigger] s[i]) is None)
        } else {
            (forall|i: int| 0 <= i < nc ==> (#[trigger] s[i]) is None) && (forall|i: int|
                nc <= i < s.len() ==> (#[trigger] s[i]) == Some(fv[i - nc]))
        },
    ensures
        sp_present_vals(s) == fv,
    decreases s.len(),
{
    if s.len() == 0 {
        assert(sp_present_vals(s) =~= fv);
    } else {
        if nulls_last {
            if np == s.len() {
                lemma_sorted_block_present_vals(
                    s.drop_last(),
                    0,
                    np - 1,
                    nulls_last,
                    fv.drop_last(),
                );
                assert(s.last() == Some(fv[np - 1]));
                assert(fv.drop_last() + seq![fv[np - 1]] =~= fv);
            } else {
                lemma_sorted_block_present_vals(s.drop_last(), nc - 1, np, nulls_last, fv);
                assert(s.last() is None);
                assert(fv + Seq::<i64>::empty() =~= fv);
            }
        } else {
            if np > 0 {
                lemma_sorted_block_present_vals(
                    s.drop_last(),
                    nc,
                    np - 1,
                    nulls_last,
                    fv.drop_last(),
                );
                assert(s.last() == Some(fv[np - 1]));
                assert(fv.drop_last() + seq![fv[np - 1]] =~= fv);
            } else {
                lemma_sorted_block_present_vals(
                    s.drop_last(),
                    nc - 1,
                    0,
                    nulls_last,
                    fv,
                );
                assert(s.last() is None);
                assert(fv + Seq::<i64>::empty() =~= fv);
            }
        }
    }
}

/// Where a clamped slice starts: a negative offset counts from the end.
pub open spec fn sp_slice_start(len: int, offset: int) -> int {
    if offset >= 0 {
        if offset <= len {
            offset
        } else {
            len
        }
    } else {
        if len + offset >= 0 {
            len + offset
        } else {
            0
        }
    }
}

/// How long a clamped slice is.
pub open spec fn sp_slice_len(len: int, offset: int, length: int) -> int {
    let start = sp_slice_start(len, offset);
    if length <= len - start {
        length
    } else {
        len - start
    }
}

/// A fresh `String` with the same characters.
pub(crate) fn clone_string(s: &String) -> (r: String)
    ensures
        r@ == s@,
{
    let mut out = s.clone();
    proof {
        assert(out@ =~= s@);
    }
    out
}

} // verus!

