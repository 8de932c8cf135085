//! Boolean columns: negation, Kleene (three-valued) conjunction and
//! disjunction, and the two- and three-valued `any` / `all` reductions.

use vstd::prelude::*;
use crate::chunked::{clone_string, BooleanChunked};
use crate::compare::{sp_bat, sp_broadcastable, sp_out_len};

verus! {

/// Kleene conjunction: a definite `false` wins over unknown.
pub open spec fn sp_kleene_and(x: Option<bool>, y: Option<bool>) -> Option<bool> {
    match (x, y) {
        (Some(false), _) => Some(false),
        (_, Some(false)) => Some(false),
        (Some(true), Some(true)) => Some(true),
        _ => None,
    }
}

/// Kleene disjunction: a definite `true` wins over unknown.
pub open spec fn sp_kleene_or(x: Option<bool>, y: Option<bool>) -> Option<bool> {
    match (x, y) {
        (Some(true), _) => Some(true),
        (_, Some(true)) => Some(true),
        (Some(false), Some(false)) => Some(false),
        _ => None,
    }
}

/// Strict negation: missing stays missing.
pub open spec fn sp_not(s: Seq<Option<bool>>) -> Seq<Option<bool>> {
    Seq::new(
        s.len(),
        |i: int|
            match s[i] {
                Some(b) => Some(!b),
                None => None,
            },
    )
}

/// How many cells of a boolean sequence are a definite `true`.
pub open spec fn sp_true_count(s: Seq<Option<bool>>) -> int
    decreases s.len(),
{
    if s.len() == 0 {
        0int
    } else {
        (if s[0] == Some(true) {
            1int
        } else {
            0int
        }) + sp_true_count(s.drop_first())
    }
}

pub proof fn lemma_true_count_bounds(s: Seq<Option<bool>>)
    ensures
        0 <= sp_true_count(s) <= s.len(),
    decreases s.len(),
{
    if s.len() > 0 {
        lemma_true_count_bounds(s.drop_first());
    }
}

proof fn lemma_true_count_snoc(s: Seq<Option<bool>>, x: Option<bool>)
    ensures
        sp_true_count(s.push(x)) == sp_true_count(s) + (if x == Some(true) {
            1int
        } else {
            0int
        }),
    decreases s.len(),
{
    if s.len() == 0 {
        assert(s.push(x).drop_first() =~= Seq::<Option<bool>>::empty());
        assert(s.push(x)[0] == x);
        assert(sp_true_count(s.push(x)) == (if x == Some(true) {
            1int
        } else {
            0int
        }) + sp_true_count(s.push(x).drop_first()));
    } else {
        assert(s.push(x).drop_first() =~= s.drop_first().push(x));
        lemma_true_count_snoc(s.drop_first(), x);
        assert(s.push(x)[0] == s[0]);
    }
}

impl BooleanChunked {
    /// Strict element-wise negation, keeping this column's name.
    pub fn not(&self) -> (r: BooleanChunked)
        requires
            self.wf(),
        ensures
            r.wf(),
            r@ == sp_not(self@),
            r.sp_name() == self.sp_name(),
    {
        let n = self.len();
        let mut arr: Vec<Option<bool>> = Vec::new();
        let mut i: usize = 0;
        while i < n
            invariant
                self.wf(),
                n == self@.len(),
                0 <= i <= n,
                arr@.len() == i,
                forall|j: int| 0 <= j < i ==> #[trigger] arr@[j] == sp_not(self@)[j],
            decreases n - i,
        {
            match self.get(i) {
                Some(b) => {
                    arr.push(Some(!*b));
                },
                None => {
                    arr.push(None);
                },
            }
            i += 1;
        }
        proof {
            assert(arr.deep_view() =~= sp_not(self@));
        }
        let name = clone_string(self.name());
        BooleanChunked::with_chunk(name, arr)
    }

    /// Kleene conjunction, with length-1 broadcasting; the result keeps this
    /// column's name.
    #[verifier::loop_isolation(false)]
    pub fn bitand(&self, rhs: &BooleanChunked) -> (r: BooleanChunked)
        requires
            self.wf(),
            rhs.wf(),
            sp_broadcastable(self@.len(), rhs@.len()),
        ensures
            r.wf(),
            r@ == Seq::new(
                sp_out_len(self@, rhs@),
                |i: int| sp_kleene_and(sp_bat(self@, i), sp_bat(rhs@, i)),
            ),
            r.sp_name() == self.sp_name(),
    {
        let ghost out = Seq::new(
            sp_out_len(self@, rhs@),
            |i: int| sp_kleene_and(sp_bat(self@, i), sp_bat(rhs@, i)),
        );
        let la = self.len();
        let lb = rhs.len();
        let n = if la == 1 {
            lb
        } else {
            la
        };
        let mut arr: Vec<Option<bool>> = Vec::new();
        let mut i: usize = 0;
        while i < n
            invariant
                0 <= i <= n,
                arr@.len() == i,
                forall|j: int| 0 <= j < i ==> #[trigger] arr@[j] == out[j],
            decreases n - i,
        {
            let x: Option<bool> = match self.get(if la == 1 {
                0
            } else {
                i
            }) {
                Some(b) => Some(*b),
                None => None,
            };
            let y: Option<bool> = match rhs.get(if lb == 1 {
                0
            } else {
                i
            }) {
                Some(b) => Some(*b),
                None => None,
            };
            let cell: Option<bool> = match (x, y) {
                (Some(false), _) => Some(false),
                (_, Some(false)) => Some(false),
                (Some(true), Some(true)) => Some(true),
                _ => None,
            };
            arr.push(cell);
            i += 1;
        }
        proof {
            assert(arr.deep_view() =~= out);
        }
        let name = clone_string(self.name());
        BooleanChunked::with_chunk(name, arr)
    }

    /// Kleene disjunction, with length-1 broadcasting; the result keeps this
    /// column's name.
    #[verifier::loop_isolation(false)]
    pub fn bitor(&self, rhs: &BooleanChunked) -> (r: BooleanChunked)
        requires
            self.wf(),
            rhs.wf(),
            sp_broadcastable(self@.len(), rhs@.len()),
        ensures
            r.wf(),
            r@ == Seq::new(
                sp_out_len(self@, rhs@),
                |i: int| sp_kleene_or(sp_bat(self@, i), sp_bat(rhs@, i)),
            ),
            r.sp_name() == self.sp_name(),
    {
        let ghost out = Seq::new(
            sp_out_len(self@, rhs@),
            |i: int| sp_kleene_or(sp_bat(self@, i), sp_bat(rhs@, i)),
        );
        let la = self.len();
        let lb = rhs.len();
        let n = if la == 1 {
            lb
        } else {
            la
        };
        let mut arr: Vec<Option<bool>> = Vec::new();
        let mut i: usize = 0;
        while i < n
            invariant
                0 <= i <= n,
                arr@.len() == i,
                forall|j: int| 0 <= j < i ==> #[trigger] arr@[j] == out[j],
            decreases n - i,
        {
            let x: Option<bool> = match self.get(if la == 1 {
                0
            } else {
                i
            }) {
                Some(b) => Some(*b),
                None => None,
            };
            let y: Option<bool> = match rhs.get(if lb == 1 {
                0
            } else {
                i
            }) {
                Some(b) => Some(*b),
                None => None,
            };
            let cell: Option<bool> = match (x, y) {
                (Some(true), _) => Some(true),
                (_, Some(true)) => Some(true),
                (Some(false), Some(false)) => Some(false),
                _ => None,
            };
            arr.push(cell);
            i += 1;
        }
        proof {
            assert(arr.deep_view() =~= out);
        }
        let name = clone_string(self.name());
        BooleanChunked::with_chunk(name, arr)
    }

    /// Whether any value in the column is `true`; missing values are
    /// ignored.
    pub fn any(&self) -> (r: bool)
        requires
            self.wf(),
        ensures
            r == exists|i: int| 0 <= i < self@.len() && self@[i] == Some(true),
    {
        let n = self.len();
        let mut i: usize = 0;
        while i < n
            invariant
                self.wf(),
                n == self@.len(),
                0 <= i <= n,
                forall|j: int| 0 <= j < i ==> self@[j] != Some(true),
            decreases n - i,
        {
            match self.get(i) {
                Some(b) => {
                    if *b {
                        proof {
                            assert(self@[i as int] == Some(true));
                        }
                        return true;
                    }
                },
                None => {},
            }
            i += 1;
        }
        false
    }

    /// Whether every value in the column is `true`; missing values are
    /// ignored.
    pub fn all(&self) -> (r: bool)
        requires
            self.wf(),
        ensures
            r == forall|i: int| 0 <= i < self@.len() ==> self@[i] != Some(false),
    {
        let n = self.len();
        let mut i: usize = 0;
        while i < n
            invariant
                self.wf(),
                n == self@.len(),
                0 <= i <= n,
                forall|j: int| 0 <= j < i ==> self@[j] != Some(false),
            decreases n - i,
        {
            match self.get(i) {
                Some(b) => {
                    if !*b {
                        proof {
                            assert(self@[i as int] == Some(false));
                        }
                        return false;
                    }
                },
                None => {},
            }
            i += 1;
        }
        true
    }

    /// Three-valued `any`: unknown exactly when no `true` exists but some
    /// value is missing.
    pub fn any_kleene(&self) -> (r: Option<bool>)
        requires
            self.wf(),
        ensures
            r == (if exists|i: int| 0 <= i < self@.len() && self@[i] == Some(true) {
                Some(true)
            } else if exists|i: int| 0 <= i < self@.len() && self@[i] is None {
                None::<bool>
            } else {
                Some(false)
            }),
    {
        let n = self.len();
        let mut i: usize = 0;
        let mut saw_null = false;
        while i < n
            invariant
                self.wf(),
                n == self@.len(),
                0 <= i <= n,
                forall|j: int| 0 <= j < i ==> self@[j] != Some(true),
                saw_null == exists|j: int| 0 <= j < i && self@[j] is None,
            decreases n - i,
        {
            match self.get(i) {
                Some(b) => {
                    if *b {
                        proof {
                            assert(self@[i as int] == Some(true));
                        }
                        return Some(true);
                    }
                },
                None => {
                    proof {
                        assert(self@[i as int] is None);
                    }
                    saw_null = true;
                },
            }
            i += 1;
        }
        if saw_null {
            None
        } else {
            Some(false)
        }
    }

    /// Three-valued `all`: unknown exactly when no `false` exists but some
    /// value is missing.
    pub fn all_kleene(&self) -> (r: Option<bool>)
        requires
            self.wf(),
        ensures
            r == (if exists|i: int| 0 <= i < self@.len() && self@[i] == Some(false) {
                Some(false)
            } else if exists|i: int| 0 <= i < self@.len() && self@[i] is None {
                None::<bool>
            } else {
                Some(true)
            }),
    {
        let n = self.len();
        let mut i: usize = 0;
        let mut saw_null = false;
        while i < n
            invariant
                self.wf(),
                n == self@.len(),
                0 <= i <= n,
                forall|j: int| 0 <= j < i ==> self@[j] != Some(false),
                saw_null == exists|j: int| 0 <= j < i && self@[j] is None,
            decreases n - i,
        {
            match self.get(i) {
                Some(b) => {
                    if !*b {
                        proof {
                            assert(self@[i as int] == Some(false));
                        }
                        return Some(false);
                    }
                },
                None => {
                    proof {
                        assert(self@[i as int] is None);
                    }
                    saw_null = true;
                },
            }
            i += 1;
        }
        if saw_null {
            None
        } else {
            Some(true)
        }
    }

    /// The number of definite `true` cells; missing values are ignored.
    pub fn sum(&self) -> (r: Option<u64>)
        requires
            self.wf(),
        ensures
            r == Some(sp_true_count(self@) as u64),
            sp_true_count(self@) <= self@.len(),
    {
        let n = self.len();
        let mut i: usize = 0;
        let mut count: u64 = 0;
        proof {
            assert(self@.take(0) =~= Seq::<Option<bool>>::empty());
            lemma_true_count_bounds(self@);
        }
        while i < n
            invariant
                self.wf(),
                n == self@.len(),
                0 <= i <= n,
                count == sp_true_count(self@.take(i as int)),
                count <= i,
            decreases n - i,
        {
            proof {
                assert(self@.take(i as int).push(self@[i as int]) =~= self@.take(i as int + 1));
                lemma_true_count_snoc(self@.take(i as int), self@[i as int]);
                lemma_true_count_bounds(self@.take(i as int));
            }
            match self.get(i) {
                Some(b) => {
                    if *b {
                        count += 1;
                    }
                },
                None => {},
            }
            i += 1;
        }
        proof {
            assert(self@.take(n as int) =~= self@);
        }
        Some(count)
    }

    /// A fully-valid boolean column holding a bitmap's bits as its values.
    pub fn from_bitmap(name: String, bitmap: Vec<bool>) -> (r: BooleanChunked)
        ensures
            r.wf(),
            r@ == Seq::new(bitmap@.len(), |i: int| Some(bitmap@[i])),
            r.sp_name() == name@,
    {
        let n = bitmap.len();
        let mut arr: Vec<Option<bool>> = Vec::new();
        let mut i: usize = 0;
        while i < n
            invariant
                n == bitmap@.len(),
                0 <= i <= n,
                arr@.len() == i,
                forall|j: int| 0 <= j < i ==> #[trigger] arr@[j] == Some(bitmap@[j]),
            decreases n - i,
        {
            arr.push(Some(bitmap[i]));
            i += 1;
        }
        proof {
            assert(arr.deep_view() =~= Seq::new(bitmap@.len(), |i: int| Some(bitmap@[i])));
        }
        BooleanChunked::with_chunk(name, arr)
    }
}

} // verus!
