use vstd::prelude::*;

verus! {

/// An exec value whose duplicate is provably equal to the original.
pub trait Dup: Sized {
    fn dup(&self) -> (r: Self)
        ensures
            r == *self,
    ;
}

impl Dup for String {
    fn dup(&self) -> (r: Self)
        ensures
            r == *self,
    {
        self.clone()
    }
}

impl Dup for i32 {
    fn dup(&self) -> (r: Self)
        ensures
            r == *self,
    {
        *self
    }
}

impl Dup for i64 {
    fn dup(&self) -> (r: Self)
        ensures
            r == *self,
    {
        *self
    }
}

impl Dup for bool {
    fn dup(&self) -> (r: Self)
        ensures
            r == *self,
    {
        *self
    }
}

/// How many of the first `k` presence flags are set.
pub open spec fn count_present(p: Seq<bool>, k: int) -> int
    decreases k,
{
    if k <= 0 {
        0
    } else {
        count_present(p, k - 1) + (if p[k - 1] {
            1int
        } else {
            0int
        })
    }
}

pub proof fn lemma_count_present_bounds(p: Seq<bool>, k: int)
    requires
        0 <= k <= p.len(),
    ensures
        0 <= count_present(p, k) <= k,
    decreases k,
{
    if k > 0 {
        lemma_count_present_bounds(p, k - 1);
    }
}

/// The count over a prefix depends only on that prefix.
pub proof fn lemma_count_present_prefix(p: Seq<bool>, q: Seq<bool>, k: int)
    requires
        0 <= k <= p.len(),
        k <= q.len(),
        forall|i: int| 0 <= i < k ==> p[i] == q[i],
    ensures
        count_present(p, k) == count_present(q, k),
    decreases k,
{
    if k > 0 {
        lemma_count_present_prefix(p, q, k - 1);
    }
}

/// The count is monotone, and strictly steps over a set flag.
pub proof fn lemma_count_present_mono(p: Seq<bool>, k1: int, k2: int)
    requires
        0 <= k1 <= k2 <= p.len(),
    ensures
        count_present(p, k1) <= count_present(p, k2),
        k1 < k2 && p[k1] ==> count_present(p, k1) + 1 <= count_present(p, k2),
    decreases k2,
{
    if k1 < k2 {
        lemma_count_present_mono(p, k1, k2 - 1);
    }
}

/// An append-only single-column store: a dense sequence holding one entry
/// per present row, and a presence flag per row ever appended.
#[derive(Debug)]
pub struct ColumnBuffer<T> {
    dense: Vec<T>,
    presence: Vec<bool>,
}

impl<T> ColumnBuffer<T> {
    /// The dense sequence: present values only, in row order.
    pub closed spec fn dense_seq(&self) -> Seq<T> {
        self.dense@
    }

    /// The presence track: one flag per row.
    pub closed spec fn presence_seq(&self) -> Seq<bool> {
        self.presence@
    }

    /// Total rows appended to this column.
    pub open spec fn num_rows(&self) -> int {
        self.presence_seq().len() as int
    }

    /// The dense sequence holds exactly one entry per set presence flag.
    pub closed spec fn wf(&self) -> bool {
        self.dense@.len() == count_present(self.presence@, self.presence@.len() as int)
    }

    /// The per-row contents: the value at each row, or its absence.
    pub closed spec fn cells(&self) -> Seq<Option<T>> {
        Seq::new(
            self.presence@.len() as nat,
            |i: int|
                if self.presence@[i] {
                    Option::Some(self.dense@[count_present(self.presence@, i)])
                } else {
                    Option::None
                },
        )
    }

    /// There is one cell per row.
    pub broadcast proof fn lemma_cells_len(&self)
        ensures
            (#[trigger] self.cells()).len() == self.num_rows(),
    {
    }

    /// The dense and presence sequences determine the rows, and the rows
    /// them: a row is absent exactly where its flag is unset, and the dense
    /// sequence holds the present values in their original relative order.
    pub proof fn lemma_null_round_trip(&self)
        requires
            self.wf(),
        ensures
            self.cells().len() == self.presence_seq().len(),
            self.dense_seq().len() == count_present(
                self.presence_seq(),
                self.presence_seq().len() as int,
            ),
            forall|i: int|
                0 <= i < self.cells().len() ==> ((#[trigger] self.cells()[i]) is Some
                    <==> self.presence_seq()[i]),
            forall|i: int|
                0 <= i < self.cells().len() && self.presence_seq()[i]
                    ==> #[trigger] self.cells()[i] == Option::Some(
                    self.dense_seq()[count_present(self.presence_seq(), i)],
                ),
            forall|i: int|
                0 <= i < self.cells().len() && !self.presence_seq()[i]
                    ==> #[trigger] self.cells()[i] is None,
    {
    }

    /// An empty column.
    pub fn new() -> (c: Self)
        ensures
            c.wf(),
            c.cells() == Seq::<Option<T>>::empty(),
            c.dense_seq() == Seq::<T>::empty(),
            c.presence_seq() == Seq::<bool>::empty(),
    {
        let c = ColumnBuffer { dense: Vec::new(), presence: Vec::new() };
        proof {
            assert(c.cells() =~= Seq::<Option<T>>::empty());
        }
        c
    }

    /// Total rows appended.
    pub fn len(&self) -> (n: usize)
        ensures
            n as int == self.num_rows(),
    {
        self.presence.len()
    }

    /// Appends one row: a present value extends the dense sequence, an
    /// absent one only the presence track.
    pub fn append(&mut self, v: Option<T>)
        requires
            old(self).wf(),
        ensures
            final(self).wf(),
            final(self).cells() == old(self).cells().push(v),
            final(self).presence_seq() == old(self).presence_seq().push(v is Some),
            v is Some ==> final(self).dense_seq() == old(self).dense_seq().push(v.unwrap()),
            v is None ==> final(self).dense_seq() == old(self).dense_seq(),
    {
        match v {
            Option::Some(x) => {
                self.dense.push(x);
                self.presence.push(true);
            },
            Option::None => {
                self.presence.push(false);
            },
        }
        proof {
            let p0 = old(self).presence@;
            let p1 = self.presence@;
            let n = p0.len() as int;
            assert forall|k: int| 0 <= k <= n implies count_present(p1, k) == count_present(
                p0,
                k,
            ) by {
                lemma_count_present_prefix(p1, p0, k);
            }
            assert(count_present(p1, n + 1) == count_present(p1, n) + (if p1[n] {
                1int
            } else {
                0int
            }));
            assert forall|i: int| 0 <= i < n implies self.cells()[i] == old(self).cells()[i] by {
                if p0[i] {
                    lemma_count_present_bounds(p0, i);
                    lemma_count_present_mono(p0, i, n);
                }
            }
            assert(self.cells() =~= old(self).cells().push(v));
        }
    }

    /// The number of set flags among the first `k` rows.
    fn count_present_exec(&self, k: usize) -> (n: usize)
        requires
            self.wf(),
            k <= self.num_rows(),
        ensures
            n as int == count_present(self.presence_seq(), k as int),
    {
        let mut n: usize = 0;
        let mut j: usize = 0;
        proof {
            lemma_count_present_bounds(self.presence_seq(), k as int);
        }
        while j < k
            invariant
                j <= k <= self.presence_seq().len(),
                n as int == count_present(self.presence_seq(), j as int),
                n <= j,
            decreases k - j,
        {
            if self.presence[j] {
                n = n + 1;
            }
            j = j + 1;
        }
        n
    }

    /// The value at row `i`, if present.
    pub fn get(&self, i: usize) -> (r: Option<&T>)
        requires
            self.wf(),
            i < self.num_rows(),
        ensures
            match r {
                Option::Some(v) => self.cells()[i as int] == Option::Some(*v),
                Option::None => self.cells()[i as int] is None,
            },
    {
        if self.presence[i] {
            let d = self.count_present_exec(i);
            proof {
                lemma_count_present_mono(self.presence_seq(), i as int, self.num_rows());
                lemma_count_present_bounds(self.presence_seq(), i as int);
            }
            Option::Some(&self.dense[d])
        } else {
            Option::None
        }
    }

    /// The dense sequence, for hand-off to a columnar file writer.
    pub fn dense_values(&self) -> (r: &Vec<T>)
        ensures
            r@ == self.dense_seq(),
    {
        &self.dense
    }

    /// The presence track, for hand-off to a columnar file writer.
    pub fn presence_flags(&self) -> (r: &Vec<bool>)
        ensures
            r@ == self.presence_seq(),
    {
        &self.presence
    }
}

impl<T: Dup> ColumnBuffer<T> {
    /// A new column whose row `k` is this column's row `perm[k]`: the shared
    /// sort permutation applied to one column.
    pub fn permuted(&self, perm: &Vec<usize>) -> (r: Self)
        requires
            self.wf(),
            forall|k: int| 0 <= k < perm@.len() ==> perm@[k] < self.num_rows(),
        ensures
            r.wf(),
            r.cells().len() == perm@.len(),
            forall|k: int|
                0 <= k < perm@.len() ==> #[trigger] r.cells()[k] == self.cells()[perm@[k] as int],
    {
        let mut out = ColumnBuffer::new();
        let n = perm.len();
        let mut k: usize = 0;
        while k < n
            invariant
                k <= n,
                n == perm@.len(),
                self.wf(),
                forall|j: int| 0 <= j < perm@.len() ==> perm@[j] < self.num_rows(),
                out.wf(),
                out.cells().len() == k as int,
                forall|j: int|
                    0 <= j < k ==> #[trigger] out.cells()[j] == self.cells()[perm@[j] as int],
            decreases n - k,
        {
            let idx = perm[k];
            let v: Option<T> = match self.get(idx) {
                Option::Some(x) => Option::Some(x.dup()),
                Option::None => Option::None,
            };
            proof {
                assert(self.cells()[perm@[k as int] as int] == v);
            }
            out.append(v);
            k = k + 1;
        }
        out
    }
}

} // verus!
