use vstd::prelude::*;
use vstd::multiset::Multiset;
use crate::cells::CellModel;
use crate::chunk::Chunk;
use crate::rotation::RotationPolicy;
use crate::sort::{apply_perm, is_stable_sort_perm, keys_of, lemma_apply_perm_multiset};
use crate::tables::IntoRowGroups;

verus! {

/// What one processed record asks of the columnar file writer: possibly a
/// materialized row group to write, and possibly a file to close, named by
/// its rotation boundary.
pub struct StepOutput {
    pub row_group: Option<Chunk>,
    pub closed_file: Option<u64>,
}

/// The chunk `c` is the stable sort of `rows` under the kind's key column.
pub open spec fn chunk_of_rows<T: IntoRowGroups>(c: Chunk, rows: Seq<Seq<CellModel>>) -> bool {
    &&& c.wf()
    &&& c.num_rows() == rows.len()
    &&& c.spec_matches_schema(T::spec_schema())
    &&& exists|perm: Seq<int>|
        #![auto]
        is_stable_sort_perm(perm, keys_of(rows, T::spec_key_col())) && c.rows() == apply_perm(
            rows,
            perm,
        )
}

/// The rows a single step hands to the writer: the rows of its row group,
/// or nothing.
pub open spec fn step_rows_multiset(st: StepOutput) -> Multiset<Seq<CellModel>> {
    match st.row_group {
        Option::Some(c) => c.rows().to_multiset(),
        Option::None => Multiset::empty(),
    }
}

/// The rows a sequence of steps hands to the writer, all together.
pub open spec fn steps_rows_multiset(steps: Seq<StepOutput>) -> Multiset<Seq<CellModel>>
    decreases steps.len(),
{
    if steps.len() == 0 {
        Multiset::empty()
    } else {
        steps_rows_multiset(steps.drop_last()).add(step_rows_multiset(steps.last()))
    }
}

/// Appending one step adds exactly its rows.
pub proof fn lemma_steps_rows_multiset_push(steps: Seq<StepOutput>, st: StepOutput)
    ensures
        steps_rows_multiset(steps.push(st)) == steps_rows_multiset(steps).add(
            step_rows_multiset(st),
        ),
{
    assert(steps.push(st).drop_last() =~= steps);
    assert(steps.push(st).last() == st);
}

/// An empty sequence makes an empty multiset.
proof fn lemma_seq_empty_to_multiset<A>()
    ensures
        Seq::<A>::empty().to_multiset() =~= Multiset::<A>::empty(),
{
    broadcast use vstd::seq_lib::group_to_multiset_ensures;

    assert forall|a: A| Seq::<A>::empty().to_multiset().count(a) == 0 by {
        assert(!Seq::<A>::empty().contains(a));
    }
}

/// One record kind's worker: a bounded ingestion queue in front of a batch
/// accumulator and a rotation policy.  Records enter through `try_submit`,
/// are drained in order by `process_next`, and the tail is flushed by
/// `close`.
pub struct Pipeline<T: IntoRowGroups> {
    queue: Vec<T::Elem>,
    capacity: usize,
    acc: T,
    policy: RotationPolicy,
    file_seq: u64,
    rows_pushed: u64,
    rows_emitted: u64,
    history: Ghost<Seq<Seq<CellModel>>>,
    emitted_hist: Ghost<Multiset<Seq<CellModel>>>,
}

impl<T: IntoRowGroups> Pipeline<T> {
    /// The records waiting in the ingestion queue, in arrival order.
    pub closed spec fn queued(&self) -> Seq<T::Elem> {
        self.queue@
    }

    /// The queue capacity.
    pub closed spec fn spec_capacity(&self) -> int {
        self.capacity as int
    }

    /// The rows of the in-flight accumulator.
    pub closed spec fn acc_rows(&self) -> Seq<Seq<CellModel>> {
        self.acc.rows()
    }

    /// Rows processed (dequeued and pushed) so far.
    pub closed spec fn pushed(&self) -> int {
        self.rows_pushed as int
    }

    /// Rows handed to the writer inside emitted row groups so far.
    pub closed spec fn emitted(&self) -> int {
        self.rows_emitted as int
    }

    /// Every row processed, in processing order.
    pub closed spec fn history(&self) -> Seq<Seq<CellModel>> {
        self.history@
    }

    /// Every row emitted inside a row group, as a multiset.
    pub closed spec fn emitted_rows(&self) -> Multiset<Seq<CellModel>> {
        self.emitted_hist@
    }

    /// Files closed so far; also the boundary name of the next closed file.
    pub closed spec fn files_closed(&self) -> int {
        self.file_seq as int
    }

    /// Rows per row group.
    pub closed spec fn group_threshold(&self) -> int {
        self.policy.group_threshold()
    }

    /// Rows per file.
    pub closed spec fn file_threshold(&self) -> int {
        self.policy.file_threshold()
    }

    /// Rows counted toward the current file.
    pub closed spec fn rows_in_file(&self) -> int {
        self.policy.file_count()
    }

    /// The hidden parts of the invariant: the accumulator and policy are
    /// well formed and the group counter mirrors the accumulator.
    pub closed spec fn inner_wf(&self) -> bool {
        &&& self.acc.wf()
        &&& self.policy.wf()
        &&& self.acc_rows().len() == self.policy.group_count()
    }

    pub open spec fn wf(&self) -> bool {
        &&& self.inner_wf()
        &&& 1 <= self.spec_capacity()
        &&& 1 <= self.group_threshold()
        &&& 1 <= self.file_threshold()
        &&& self.queued().len() <= self.spec_capacity()
        &&& self.acc_rows().len() < self.group_threshold()
        &&& self.acc_rows().len() <= self.rows_in_file() < self.file_threshold()
        &&& self.pushed() == self.emitted() + self.acc_rows().len()
        &&& self.files_closed() + self.rows_in_file() <= self.pushed()
        &&& self.pushed() == self.history().len()
        &&& self.emitted() == self.emitted_rows().len()
        &&& self.emitted_rows().add(self.acc_rows().to_multiset()) == self.history().to_multiset()
    }

    /// The configuration never changes over a pipeline's lifetime.
    pub open spec fn same_config(pre: Self, post: Self) -> bool {
        &&& post.spec_capacity() == pre.spec_capacity()
        &&& post.group_threshold() == pre.group_threshold()
        &&& post.file_threshold() == pre.file_threshold()
    }

    /// A fresh pipeline.
    pub fn new(queue_capacity: usize, rows_per_row_group: usize, rows_per_file: usize) -> (p:
        Self)
        requires
            1 <= queue_capacity,
            1 <= rows_per_row_group,
            1 <= rows_per_file,
        ensures
            p.wf(),
            p.queued() == Seq::<T::Elem>::empty(),
            p.acc_rows() == Seq::<Seq<CellModel>>::empty(),
            p.pushed() == 0,
            p.emitted() == 0,
            p.files_closed() == 0,
            p.rows_in_file() == 0,
            p.spec_capacity() == queue_capacity as int,
            p.group_threshold() == rows_per_row_group as int,
            p.file_threshold() == rows_per_file as int,
            p.history() == Seq::<Seq<CellModel>>::empty(),
            p.emitted_rows() == Multiset::<Seq<CellModel>>::empty(),
    {
        let p = Pipeline {
            queue: Vec::new(),
            capacity: queue_capacity,
            acc: T::new_table(),
            policy: RotationPolicy::new(rows_per_row_group, rows_per_file),
            file_seq: 0,
            rows_pushed: 0,
            rows_emitted: 0,
            history: Ghost(Seq::empty()),
            emitted_hist: Ghost(Multiset::empty()),
        };
        proof {
            broadcast use vstd::multiset::group_multiset_axioms;

            lemma_seq_empty_to_multiset::<Seq<CellModel>>();
            assert(p.emitted_rows().add(p.acc_rows().to_multiset()) =~= p.history().to_multiset());
            assert(p.emitted_rows().add(p.acc_rows().to_multiset()) == p.history().to_multiset());
        }
        p
    }

    /// The queue capacity.
    pub fn capacity(&self) -> (n: usize)
        ensures
            n as int == self.spec_capacity(),
    {
        self.capacity
    }

    /// Records waiting in the queue.
    pub fn queue_len(&self) -> (n: usize)
        ensures
            n as int == self.queued().len(),
    {
        self.queue.len()
    }

    /// Offers one record to the ingestion queue.  A full queue refuses it
    /// and leaves the pipeline unchanged: the caller must drain before
    /// submitting again — the system's one backpressure mechanism.
    pub fn try_submit(&mut self, e: T::Elem) -> (ok: bool)
        requires
            old(self).wf(),
        ensures
            final(self).wf(),
            Self::same_config(*old(self), *final(self)),
            ok == (old(self).queued().len() < old(self).spec_capacity()),
            ok ==> final(self).queued() == old(self).queued().push(e),
            !ok ==> final(self).queued() == old(self).queued(),
            final(self).acc_rows() == old(self).acc_rows(),
            final(self).pushed() == old(self).pushed(),
            final(self).emitted() == old(self).emitted(),
            final(self).files_closed() == old(self).files_closed(),
            final(self).rows_in_file() == old(self).rows_in_file(),
            final(self).history() == old(self).history(),
            final(self).emitted_rows() == old(self).emitted_rows(),
    {
        if self.queue.len() < self.capacity {
            self.queue.push(e);
            true
        } else {
            false
        }
    }

    /// What one processed record does to the pipeline: the record leaves
    /// the queue and joins the accumulator; when a threshold is reached the
    /// batch is sorted, materialized and emitted, and when the file
    /// threshold is reached the file is additionally closed.
    pub open spec fn step_spec(pre: Self, post: Self, e: T::Elem, st: StepOutput) -> bool {
        let newrows = pre.acc_rows().push(T::spec_row_of(&e));
        let flush = newrows.len() == pre.group_threshold() || pre.rows_in_file() + 1
            == pre.file_threshold();
        let close = pre.rows_in_file() + 1 == pre.file_threshold();
        &&& post.queued() == pre.queued().skip(1)
        &&& post.pushed() == pre.pushed() + 1
        &&& post.history() == pre.history().push(T::spec_row_of(&e))
        &&& Self::same_config(pre, post)
        &&& if flush {
            &&& st.row_group matches Some(c) && chunk_of_rows::<T>(c, newrows)
                && post.emitted_rows() == pre.emitted_rows().add(c.rows().to_multiset())
            &&& post.acc_rows() == Seq::<Seq<CellModel>>::empty()
            &&& post.emitted() == pre.emitted() + newrows.len()
        } else {
            &&& st.row_group is None
            &&& post.acc_rows() == newrows
            &&& post.emitted() == pre.emitted()
            &&& post.emitted_rows() == pre.emitted_rows()
        }
        &&& if close {
            &&& st.closed_file matches Some(b) && b as int == pre.files_closed()
            &&& post.files_closed() == pre.files_closed() + 1
            &&& post.rows_in_file() == 0
        } else {
            &&& st.closed_file is None
            &&& post.files_closed() == pre.files_closed()
            &&& post.rows_in_file() == pre.rows_in_file() + 1
        }
    }

    /// Dequeues the oldest waiting record and runs it through the
    /// accumulator and the rotation policy.
    pub fn process_next(&mut self) -> (out: Option<StepOutput>)
        requires
            old(self).wf(),
            old(self).pushed() < u64::MAX,
        ensures
            final(self).wf(),
            old(self).queued().len() == 0 ==> out is None && *final(self) == *old(self),
            old(self).queued().len() > 0 ==> (out matches Some(st) && Self::step_spec(
                *old(self),
                *final(self),
                old(self).queued()[0],
                st,
            )),
    {
        if self.queue.len() == 0 {
            return Option::None;
        }
        let e = self.queue.remove(0);
        let ghost rowv = T::spec_row_of(&e);
        let ghost accrows = self.acc.rows();
        let _ = self.acc.push(e);
        self.history = Ghost(self.history@.push(rowv));
        let (flush_group, close_file) = self.policy.note_push();
        let row_group: Option<Chunk> = if flush_group {
            let mut fresh = T::new_table();
            core::mem::swap(&mut self.acc, &mut fresh);
            let chunk = fresh.into_chunk();
            let k = chunk.len();
            self.rows_emitted = self.rows_emitted + (k as u64);
            self.emitted_hist = Ghost(self.emitted_hist@.add(chunk.rows().to_multiset()));
            proof {
                broadcast use vstd::seq_lib::group_to_multiset_ensures;
                broadcast use vstd::multiset::group_multiset_axioms;

                let newrows = accrows.push(rowv);
                let perm = choose|perm: Seq<int>|
                    #![auto]
                    is_stable_sort_perm(perm, keys_of(newrows, T::spec_key_col()))
                        && chunk.rows() == apply_perm(newrows, perm);
                lemma_apply_perm_multiset(newrows, perm);
                assert(chunk.rows().to_multiset() =~= newrows.to_multiset());
                lemma_seq_empty_to_multiset::<Seq<CellModel>>();
                assert(self.emitted_hist@.add(self.acc.rows().to_multiset())
                    =~= self.history@.to_multiset());
                assert(self.emitted_hist@.add(self.acc.rows().to_multiset())
                    == self.history@.to_multiset());
                assert(chunk.rows().to_multiset().len() == chunk.rows().len());
                assert(self.emitted_hist@.len() == self.rows_emitted as int);
                assert(self.history@.len() == self.rows_pushed + 1);
            }
            Option::Some(chunk)
        } else {
            proof {
                broadcast use vstd::seq_lib::group_to_multiset_ensures;
                broadcast use vstd::multiset::group_multiset_axioms;

                assert(self.emitted_hist@.add(self.acc.rows().to_multiset())
                    =~= self.history@.to_multiset());
                assert(self.emitted_hist@.add(self.acc.rows().to_multiset())
                    == self.history@.to_multiset());
            }
            Option::None
        };
        let closed_file: Option<u64> = if close_file {
            let boundary = self.file_seq;
            self.file_seq = self.file_seq + 1;
            Option::Some(boundary)
        } else {
            Option::None
        };
        self.rows_pushed = self.rows_pushed + 1;
        Option::Some(StepOutput { row_group, closed_file })
    }

    /// What the drain at end of input does: the partial group, if any, is
    /// sorted and emitted, and the file, if it holds any rows, is closed.
    pub open spec fn close_spec(pre: Self, post: Self, st: StepOutput) -> bool {
        &&& post.pushed() == pre.pushed()
        &&& post.emitted() == pre.pushed()
        &&& post.acc_rows() == Seq::<Seq<CellModel>>::empty()
        &&& post.queued() == pre.queued()
        &&& post.rows_in_file() == 0
        &&& Self::same_config(pre, post)
        &&& post.history() == pre.history()
        &&& post.emitted_rows() == post.history().to_multiset()
        &&& if pre.acc_rows().len() > 0 {
            st.row_group matches Some(c) && chunk_of_rows::<T>(c, pre.acc_rows())
                && post.emitted_rows() == pre.emitted_rows().add(c.rows().to_multiset())
        } else {
            st.row_group is None && post.emitted_rows() == pre.emitted_rows()
        }
        &&& if pre.rows_in_file() > 0 {
            &&& st.closed_file matches Some(b) && b as int == pre.files_closed()
            &&& post.files_closed() == pre.files_closed() + 1
        } else {
            &&& st.closed_file is None
            &&& post.files_closed() == pre.files_closed()
        }
    }

    /// Drains the tail at end of input: every processed row is emitted —
    /// nothing buffered is lost — and the current file is closed.
    pub fn close(&mut self) -> (st: StepOutput)
        requires
            old(self).wf(),
            old(self).queued().len() == 0,
            old(self).pushed() < u64::MAX,
        ensures
            final(self).wf(),
            Self::close_spec(*old(self), *final(self), st),
    {
        let ghost accrows = self.acc.rows();
        let row_group: Option<Chunk> = if self.acc.len() > 0 {
            let mut fresh = T::new_table();
            core::mem::swap(&mut self.acc, &mut fresh);
            let chunk = fresh.into_chunk();
            let k = chunk.len();
            self.rows_emitted = self.rows_emitted + (k as u64);
            self.emitted_hist = Ghost(self.emitted_hist@.add(chunk.rows().to_multiset()));
            proof {
                broadcast use vstd::seq_lib::group_to_multiset_ensures;
                broadcast use vstd::multiset::group_multiset_axioms;

                assert(chunk_of_rows::<T>(chunk, old(self).acc_rows()));
                let perm = choose|perm: Seq<int>|
                    #![auto]
                    is_stable_sort_perm(perm, keys_of(accrows, T::spec_key_col()))
                        && chunk.rows() == apply_perm(accrows, perm);
                lemma_apply_perm_multiset(accrows, perm);
                assert(chunk.rows().to_multiset() =~= accrows.to_multiset());
                lemma_seq_empty_to_multiset::<Seq<CellModel>>();
                assert(self.emitted_hist@ =~= self.history@.to_multiset());
                assert(self.emitted_hist@ == self.history@.to_multiset());
                assert(self.emitted_hist@.add(self.acc.rows().to_multiset())
                    == self.history@.to_multiset());
            }
            Option::Some(chunk)
        } else {
            proof {
                broadcast use vstd::seq_lib::group_to_multiset_ensures;
                broadcast use vstd::multiset::group_multiset_axioms;

                assert(self.acc_rows() =~= Seq::<Seq<CellModel>>::empty());
                lemma_seq_empty_to_multiset::<Seq<CellModel>>();
                assert(self.emitted_hist@ =~= self.history@.to_multiset());
                assert(self.emitted_hist@ == self.history@.to_multiset());
                assert(self.emitted_hist@.add(self.acc_rows().to_multiset())
                    == self.history@.to_multiset());
            }
            Option::None
        };
        let closed_file: Option<u64> = if self.policy.current_file_rows() > 0 {
            let boundary = self.file_seq;
            self.file_seq = self.file_seq + 1;
            Option::Some(boundary)
        } else {
            Option::None
        };
        self.policy.reset();
        StepOutput { row_group, closed_file }
    }
}

} // verus!
