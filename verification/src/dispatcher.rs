use vstd::prelude::*;
use vstd::multiset::Multiset;
use crate::cells::CellModel;
use crate::entities::{BlockData, Metadata};
use crate::pipeline::{Pipeline, StepOutput, chunk_of_rows, lemma_steps_rows_multiset_push,
    step_rows_multiset, steps_rows_multiset};
use crate::tables::{Blocks, Calls, Events, Extrinsics, IntoRowGroups};

verus! {

/// Links two processing stages: what the first stage's steps carry on top
/// of the starting emission is undone by the second stage's equation.
proof fn lemma_chain_stages(
    sm1: Multiset<Seq<CellModel>>,
    sm2: Multiset<Seq<CellModel>>,
    e0: Multiset<Seq<CellModel>>,
    e1: Multiset<Seq<CellModel>>,
    e2: Multiset<Seq<CellModel>>,
)
    requires
        sm1.add(e0) == e1,
        sm2.add(e1) == sm1.add(e2),
    ensures
        sm2.add(e0) == e2,
{
    broadcast use vstd::multiset::group_multiset_axioms;

    assert forall|x: Seq<CellModel>| sm2.add(e0).count(x) == e2.count(x) by {
        vstd::multiset::axiom_multiset_add::<Seq<CellModel>>(sm1, e0, x);
        vstd::multiset::axiom_multiset_add::<Seq<CellModel>>(sm2, e1, x);
        vstd::multiset::axiom_multiset_add::<Seq<CellModel>>(sm1, e2, x);
        vstd::multiset::axiom_multiset_add::<Seq<CellModel>>(sm2, e0, x);
        assert(sm1.add(e0).count(x) == e1.count(x));
        assert(sm2.add(e1).count(x) == sm1.add(e2).count(x));
    }
    assert(sm2.add(e0) =~= e2);
}

/// Every chunk among the steps is well formed and matches the kind's
/// schema: the writer's defensive type dispatch can never fail on it.
pub open spec fn outputs_wf<T: IntoRowGroups>(steps: Seq<StepOutput>) -> bool {
    forall|i: int|
        0 <= i < steps.len() ==> ((#[trigger] steps[i]).row_group matches Some(c) ==> c.wf()
            && c.spec_matches_schema(T::spec_schema()))
}

/// Offers one record to a pipeline, draining one queued record first if the
/// queue is full — the dispatcher-side face of backpressure.  The record
/// always enters the system: processed rows plus queued records grow by
/// exactly one.
fn feed<T: IntoRowGroups>(p: &mut Pipeline<T>, e: T::Elem, out: &mut Vec<StepOutput>)
    requires
        old(p).wf(),
        old(p).pushed() + old(p).queued().len() + 1 <= u64::MAX,
        outputs_wf::<T>(old(out)@),
    ensures
        final(p).wf(),
        Pipeline::<T>::same_config(*old(p), *final(p)),
        final(p).pushed() + final(p).queued().len() == old(p).pushed() + old(p).queued().len()
            + 1,
        outputs_wf::<T>(final(out)@),
        steps_rows_multiset(final(out)@).add(old(p).emitted_rows()) == steps_rows_multiset(
            old(out)@,
        ).add(final(p).emitted_rows()),
{
    if p.queue_len() >= p.capacity() {
        let ghost out0 = out@;
        let ghost p0 = *p;
        let st = p.process_next();
        match st {
            Option::Some(s) => {
                out.push(s);
                proof {
                    broadcast use vstd::multiset::group_multiset_axioms;

                    lemma_steps_rows_multiset_push(out0, s);
                    let d = step_rows_multiset(s);
                    let smb = steps_rows_multiset(out0);
                    let peb = p0.emitted_rows();
                    let pe = p.emitted_rows();
                    assert(pe == peb.add(d) || (pe == peb && d
                        == Multiset::<Seq<CellModel>>::empty()));
                    assert forall|x: Seq<CellModel>|
                        steps_rows_multiset(out@).add(peb).count(x) == smb.add(pe).count(
                            x,
                        ) by {
                        vstd::multiset::axiom_multiset_add::<Seq<CellModel>>(smb.add(d), peb, x);
                        vstd::multiset::axiom_multiset_add::<Seq<CellModel>>(smb, d, x);
                        vstd::multiset::axiom_multiset_add::<Seq<CellModel>>(smb, pe, x);
                        vstd::multiset::axiom_multiset_add::<Seq<CellModel>>(peb, d, x);
                        if pe == peb {
                            assert(Multiset::<Seq<CellModel>>::empty().count(x) == 0);
                        }
                    }
                    assert(steps_rows_multiset(out@).add(peb) =~= smb.add(pe));
                    assert(steps_rows_multiset(out@).add(peb) == smb.add(pe));
                }
            },
            Option::None => {},
        }
    }
    let ok = p.try_submit(e);
    proof {
        assert(ok);
    }
}

/// Processes everything waiting in a pipeline's queue, in arrival order.
fn drain_all<T: IntoRowGroups>(p: &mut Pipeline<T>, out: &mut Vec<StepOutput>)
    requires
        old(p).wf(),
        old(p).pushed() + old(p).queued().len() <= u64::MAX,
        outputs_wf::<T>(old(out)@),
    ensures
        final(p).wf(),
        Pipeline::<T>::same_config(*old(p), *final(p)),
        final(p).queued().len() == 0,
        final(p).pushed() == old(p).pushed() + old(p).queued().len(),
        outputs_wf::<T>(final(out)@),
        steps_rows_multiset(final(out)@).add(old(p).emitted_rows()) == steps_rows_multiset(
            old(out)@,
        ).add(final(p).emitted_rows()),
{
    while p.queue_len() > 0
        invariant
            p.wf(),
            Pipeline::<T>::same_config(*old(p), *p),
            p.pushed() + p.queued().len() == old(p).pushed() + old(p).queued().len(),
            old(p).pushed() + old(p).queued().len() <= u64::MAX,
            outputs_wf::<T>(out@),
            steps_rows_multiset(out@).add(old(p).emitted_rows()) == steps_rows_multiset(
                old(out)@,
            ).add(p.emitted_rows()),
        decreases p.queued().len(),
    {
        let ghost outb = out@;
        let ghost pb = *p;
        let st = p.process_next();
        match st {
            Option::Some(s) => {
                out.push(s);
                proof {
                    broadcast use vstd::multiset::group_multiset_axioms;

                    lemma_steps_rows_multiset_push(outb, s);
                    let d = step_rows_multiset(s);
                    let smb = steps_rows_multiset(outb);
                    let sm0 = steps_rows_multiset(old(out)@);
                    let e0m = old(p).emitted_rows();
                    let peb = pb.emitted_rows();
                    let pe = p.emitted_rows();
                    assert(pe == peb.add(d) || (pe == peb && d
                        == Multiset::<Seq<CellModel>>::empty()));
                    assert forall|x: Seq<CellModel>|
                        steps_rows_multiset(out@).add(e0m).count(x) == sm0.add(pe).count(
                            x,
                        ) by {
                        vstd::multiset::axiom_multiset_add::<Seq<CellModel>>(smb.add(d), e0m, x);
                        vstd::multiset::axiom_multiset_add::<Seq<CellModel>>(smb, d, x);
                        vstd::multiset::axiom_multiset_add::<Seq<CellModel>>(smb, e0m, x);
                        vstd::multiset::axiom_multiset_add::<Seq<CellModel>>(sm0, peb, x);
                        vstd::multiset::axiom_multiset_add::<Seq<CellModel>>(sm0, pe, x);
                        vstd::multiset::axiom_multiset_add::<Seq<CellModel>>(peb, d, x);
                        if pe == peb {
                            assert(Multiset::<Seq<CellModel>>::empty().count(x) == 0);
                        }
                    }
                    assert(steps_rows_multiset(out@).add(e0m) =~= sm0.add(pe));
                    assert(steps_rows_multiset(out@).add(e0m) == sm0.add(pe));
                }
            },
            Option::None => {},
        }
    }
}

/// A single step's rows on top of the starting emission give the final
/// emission.
proof fn lemma_single_step_rows(
    st: StepOutput,
    e0: Multiset<Seq<CellModel>>,
    e1: Multiset<Seq<CellModel>>,
)
    requires
        e1 == e0.add(step_rows_multiset(st)) || (e1 == e0 && st.row_group is None),
    ensures
        steps_rows_multiset(seq![st]).add(e0) == e1,
{
    broadcast use vstd::multiset::group_multiset_axioms;

    let d = step_rows_multiset(st);
    assert(seq![st].drop_last() =~= Seq::<StepOutput>::empty());
    assert(seq![st].last() == st);
    assert(steps_rows_multiset(Seq::<StepOutput>::empty())
        == Multiset::<Seq<CellModel>>::empty());
    assert(steps_rows_multiset(seq![st]) == Multiset::<Seq<CellModel>>::empty().add(d));
    assert forall|x: Seq<CellModel>|
        steps_rows_multiset(seq![st]).add(e0).count(x) == e1.count(x) by {
        vstd::multiset::axiom_multiset_add::<Seq<CellModel>>(
            Multiset::<Seq<CellModel>>::empty(),
            d,
            x,
        );
        vstd::multiset::axiom_multiset_add::<Seq<CellModel>>(
            Multiset::<Seq<CellModel>>::empty().add(d),
            e0,
            x,
        );
        vstd::multiset::axiom_multiset_add::<Seq<CellModel>>(e0, d, x);
        if st.row_group is None {
            assert(d == Multiset::<Seq<CellModel>>::empty());
            assert(Multiset::<Seq<CellModel>>::empty().count(x) == 0);
        }
    }
    assert(steps_rows_multiset(seq![st]).add(e0) =~= e1);
}

/// Everything one dispatched input unit asks of the outside world: the row
/// groups to write and files to close per record kind, and the metadata to
/// insert into the sidecar store, if the block carried any.
pub struct DispatchOutput {
    pub block_steps: Vec<StepOutput>,
    pub extrinsic_steps: Vec<StepOutput>,
    pub call_steps: Vec<StepOutput>,
    pub event_steps: Vec<StepOutput>,
    pub metadata: Option<Metadata>,
}

/// The ingestion fan-out: one pipeline per record kind.  Each decoded input
/// unit is split into its header, extrinsics, calls and events, offered to
/// the respective pipelines, and fully drained.
pub struct Dispatcher {
    blocks: Pipeline<Blocks>,
    extrinsics: Pipeline<Extrinsics>,
    calls: Pipeline<Calls>,
    events: Pipeline<Events>,
}

impl Dispatcher {
    /// The block pipeline.
    pub closed spec fn spec_blocks(&self) -> Pipeline<Blocks> {
        self.blocks
    }

    /// The extrinsic pipeline.
    pub closed spec fn spec_extrinsics(&self) -> Pipeline<Extrinsics> {
        self.extrinsics
    }

    /// The call pipeline.
    pub closed spec fn spec_calls(&self) -> Pipeline<Calls> {
        self.calls
    }

    /// The event pipeline.
    pub closed spec fn spec_events(&self) -> Pipeline<Events> {
        self.events
    }

    /// All four pipelines well formed, with empty queues between inputs.
    pub open spec fn wf(&self) -> bool {
        &&& self.spec_blocks().wf()
        &&& self.spec_extrinsics().wf()
        &&& self.spec_calls().wf()
        &&& self.spec_events().wf()
        &&& self.spec_blocks().queued().len() == 0
        &&& self.spec_extrinsics().queued().len() == 0
        &&& self.spec_calls().queued().len() == 0
        &&& self.spec_events().queued().len() == 0
    }

    /// A fresh dispatcher; every pipeline shares the one configuration.
    pub fn new(queue_capacity: usize, rows_per_row_group: usize, rows_per_file: usize) -> (d:
        Self)
        requires
            1 <= queue_capacity,
            1 <= rows_per_row_group,
            1 <= rows_per_file,
        ensures
            d.wf(),
            d.spec_blocks().pushed() == 0 && d.spec_blocks().emitted() == 0,
            d.spec_extrinsics().pushed() == 0 && d.spec_extrinsics().emitted() == 0,
            d.spec_calls().pushed() == 0 && d.spec_calls().emitted() == 0,
            d.spec_events().pushed() == 0 && d.spec_events().emitted() == 0,
    {
        Dispatcher {
            blocks: Pipeline::new(queue_capacity, rows_per_row_group, rows_per_file),
            extrinsics: Pipeline::new(queue_capacity, rows_per_row_group, rows_per_file),
            calls: Pipeline::new(queue_capacity, rows_per_row_group, rows_per_file),
            events: Pipeline::new(queue_capacity, rows_per_row_group, rows_per_file),
        }
    }

    /// Fans one decoded input unit out to the four pipelines — the header
    /// to the block pipeline, each nested record to its kind's — drains
    /// every queue, and hands back what the writers must now do, along with
    /// the block's metadata for the sidecar store.
    pub fn dispatch(&mut self, data: BlockData) -> (out: DispatchOutput)
        requires
            old(self).wf(),
            old(self).spec_blocks().pushed() + 1 <= u64::MAX,
            old(self).spec_extrinsics().pushed() + data.extrinsics@.len() <= u64::MAX,
            old(self).spec_calls().pushed() + data.calls@.len() <= u64::MAX,
            old(self).spec_events().pushed() + data.events@.len() <= u64::MAX,
        ensures
            final(self).wf(),
            final(self).spec_blocks().pushed() == old(self).spec_blocks().pushed() + 1,
            final(self).spec_extrinsics().pushed() == old(self).spec_extrinsics().pushed()
                + data.extrinsics@.len(),
            final(self).spec_calls().pushed() == old(self).spec_calls().pushed()
                + data.calls@.len(),
            final(self).spec_events().pushed() == old(self).spec_events().pushed()
                + data.events@.len(),
            Pipeline::<Blocks>::same_config(old(self).spec_blocks(), final(self).spec_blocks()),
            Pipeline::<Extrinsics>::same_config(
                old(self).spec_extrinsics(),
                final(self).spec_extrinsics(),
            ),
            Pipeline::<Calls>::same_config(old(self).spec_calls(), final(self).spec_calls()),
            Pipeline::<Events>::same_config(old(self).spec_events(), final(self).spec_events()),
            outputs_wf::<Blocks>(out.block_steps@),
            outputs_wf::<Extrinsics>(out.extrinsic_steps@),
            outputs_wf::<Calls>(out.call_steps@),
            outputs_wf::<Events>(out.event_steps@),
            steps_rows_multiset(out.block_steps@).add(old(self).spec_blocks().emitted_rows())
                == final(self).spec_blocks().emitted_rows(),
            steps_rows_multiset(out.extrinsic_steps@).add(
                old(self).spec_extrinsics().emitted_rows(),
            ) == final(self).spec_extrinsics().emitted_rows(),
            steps_rows_multiset(out.call_steps@).add(old(self).spec_calls().emitted_rows())
                == final(self).spec_calls().emitted_rows(),
            steps_rows_multiset(out.event_steps@).add(old(self).spec_events().emitted_rows())
                == final(self).spec_events().emitted_rows(),
            out.metadata == data.metadata,
    {
        let BlockData { header, extrinsics, events, calls, metadata } = data;
        let mut block_steps: Vec<StepOutput> = Vec::new();
        let mut extrinsic_steps: Vec<StepOutput> = Vec::new();
        let mut call_steps: Vec<StepOutput> = Vec::new();
        let mut event_steps: Vec<StepOutput> = Vec::new();

        let ghost b_e0 = self.blocks.emitted_rows();
        feed(&mut self.blocks, header, &mut block_steps);
        let ghost b_sm1 = steps_rows_multiset(block_steps@);
        let ghost b_e1 = self.blocks.emitted_rows();
        drain_all(&mut self.blocks, &mut block_steps);
        proof {
            broadcast use vstd::multiset::group_multiset_axioms;

            assert(Multiset::<Seq<CellModel>>::empty().add(b_e1) =~= b_e1);
            assert(b_sm1.add(b_e0) == b_e1);
            lemma_chain_stages(
                b_sm1,
                steps_rows_multiset(block_steps@),
                b_e0,
                b_e1,
                self.blocks.emitted_rows(),
            );
        }

        let mut extrinsics = extrinsics;
        let ghost n_ex = extrinsics@.len();
        let ghost ex0 = self.extrinsics;
        let ghost snap_b = self.blocks;
        let ghost snap_ca = self.calls;
        let ghost snap_ev = self.events;
        proof {
            broadcast use vstd::multiset::group_multiset_axioms;

            assert(steps_rows_multiset(extrinsic_steps@).add(ex0.emitted_rows())
                =~= ex0.emitted_rows());
            assert(steps_rows_multiset(extrinsic_steps@).add(ex0.emitted_rows())
                == ex0.emitted_rows());
        }
        while extrinsics.len() > 0
            invariant
                self.blocks == snap_b,
                self.calls == snap_ca,
                self.events == snap_ev,
                self.extrinsics.wf(),
                Pipeline::<Extrinsics>::same_config(ex0, self.extrinsics),
                self.extrinsics.pushed() + self.extrinsics.queued().len() + extrinsics@.len()
                    == ex0.pushed() + n_ex,
                ex0.pushed() + n_ex <= u64::MAX,
                outputs_wf::<Extrinsics>(extrinsic_steps@),
                steps_rows_multiset(extrinsic_steps@).add(ex0.emitted_rows())
                    == self.extrinsics.emitted_rows(),
            decreases extrinsics@.len(),
        {
            let e = extrinsics.remove(0);
            let ghost sm_before = steps_rows_multiset(extrinsic_steps@);
            let ghost e_before = self.extrinsics.emitted_rows();
            feed(&mut self.extrinsics, e, &mut extrinsic_steps);
            proof {
                lemma_chain_stages(
                    sm_before,
                    steps_rows_multiset(extrinsic_steps@),
                    ex0.emitted_rows(),
                    e_before,
                    self.extrinsics.emitted_rows(),
                );
            }
        }
        let ghost ex_sml = steps_rows_multiset(extrinsic_steps@);
        let ghost ex_el = self.extrinsics.emitted_rows();
        drain_all(&mut self.extrinsics, &mut extrinsic_steps);
        proof {
            lemma_chain_stages(
                ex_sml,
                steps_rows_multiset(extrinsic_steps@),
                ex0.emitted_rows(),
                ex_el,
                self.extrinsics.emitted_rows(),
            );
        }

        let mut calls = calls;
        let ghost n_ca = calls@.len();
        let ghost ca0 = self.calls;
        let ghost snap_b2 = self.blocks;
        let ghost snap_ex2 = self.extrinsics;
        let ghost snap_ev2 = self.events;
        proof {
            broadcast use vstd::multiset::group_multiset_axioms;

            assert(steps_rows_multiset(call_steps@).add(ca0.emitted_rows())
                =~= ca0.emitted_rows());
            assert(steps_rows_multiset(call_steps@).add(ca0.emitted_rows())
                == ca0.emitted_rows());
        }
        while calls.len() > 0
            invariant
                self.blocks == snap_b2,
                self.extrinsics == snap_ex2,
                self.events == snap_ev2,
                self.calls.wf(),
                Pipeline::<Calls>::same_config(ca0, self.calls),
                self.calls.pushed() + self.calls.queued().len() + calls@.len() == ca0.pushed()
                    + n_ca,
                ca0.pushed() + n_ca <= u64::MAX,
                outputs_wf::<Calls>(call_steps@),
                steps_rows_multiset(call_steps@).add(ca0.emitted_rows())
                    == self.calls.emitted_rows(),
            decreases calls@.len(),
        {
            let e = calls.remove(0);
            let ghost sm_before = steps_rows_multiset(call_steps@);
            let ghost e_before = self.calls.emitted_rows();
            feed(&mut self.calls, e, &mut call_steps);
            proof {
                lemma_chain_stages(
                    sm_before,
                    steps_rows_multiset(call_steps@),
                    ca0.emitted_rows(),
                    e_before,
                    self.calls.emitted_rows(),
                );
            }
        }
        let ghost ca_sml = steps_rows_multiset(call_steps@);
        let ghost ca_el = self.calls.emitted_rows();
        drain_all(&mut self.calls, &mut call_steps);
        proof {
            lemma_chain_stages(
                ca_sml,
                steps_rows_multiset(call_steps@),
                ca0.emitted_rows(),
                ca_el,
                self.calls.emitted_rows(),
            );
        }

        let mut events = events;
        let ghost n_ev = events@.len();
        let ghost ev0 = self.events;
        let ghost snap_b3 = self.blocks;
        let ghost snap_ex3 = self.extrinsics;
        let ghost snap_ca3 = self.calls;
        proof {
            broadcast use vstd::multiset::group_multiset_axioms;

            assert(steps_rows_multiset(event_steps@).add(ev0.emitted_rows())
                =~= ev0.emitted_rows());
            assert(steps_rows_multiset(event_steps@).add(ev0.emitted_rows())
                == ev0.emitted_rows());
        }
        while events.len() > 0
            invariant
                self.blocks == snap_b3,
                self.extrinsics == snap_ex3,
                self.calls == snap_ca3,
                self.events.wf(),
                Pipeline::<Events>::same_config(ev0, self.events),
                self.events.pushed() + self.events.queued().len() + events@.len() == ev0.pushed()
                    + n_ev,
                ev0.pushed() + n_ev <= u64::MAX,
                outputs_wf::<Events>(event_steps@),
                steps_rows_multiset(event_steps@).add(ev0.emitted_rows())
                    == self.events.emitted_rows(),
            decreases events@.len(),
        {
            let e = events.remove(0);
            let ghost sm_before = steps_rows_multiset(event_steps@);
            let ghost e_before = self.events.emitted_rows();
            feed(&mut self.events, e, &mut event_steps);
            proof {
                lemma_chain_stages(
                    sm_before,
                    steps_rows_multiset(event_steps@),
                    ev0.emitted_rows(),
                    e_before,
                    self.events.emitted_rows(),
                );
            }
        }
        let ghost ev_sml = steps_rows_multiset(event_steps@);
        let ghost ev_el = self.events.emitted_rows();
        drain_all(&mut self.events, &mut event_steps);
        proof {
            lemma_chain_stages(
                ev_sml,
                steps_rows_multiset(event_steps@),
                ev0.emitted_rows(),
                ev_el,
                self.events.emitted_rows(),
            );
        }

        DispatchOutput { block_steps, extrinsic_steps, call_steps, event_steps, metadata }
    }

    /// The drain at end of input: flushes every pipeline's partial batch
    /// and closes every open file.  After it, every pipeline has emitted
    /// exactly as many rows as it processed — no buffered row is lost.
    pub fn close_all(&mut self) -> (out: DispatchOutput)
        requires
            old(self).wf(),
            old(self).spec_blocks().pushed() < u64::MAX,
            old(self).spec_extrinsics().pushed() < u64::MAX,
            old(self).spec_calls().pushed() < u64::MAX,
            old(self).spec_events().pushed() < u64::MAX,
        ensures
            final(self).wf(),
            final(self).spec_blocks().emitted() == old(self).spec_blocks().pushed(),
            final(self).spec_extrinsics().emitted() == old(self).spec_extrinsics().pushed(),
            final(self).spec_calls().emitted() == old(self).spec_calls().pushed(),
            final(self).spec_events().emitted() == old(self).spec_events().pushed(),
            final(self).spec_blocks().pushed() == old(self).spec_blocks().pushed(),
            final(self).spec_extrinsics().pushed() == old(self).spec_extrinsics().pushed(),
            final(self).spec_calls().pushed() == old(self).spec_calls().pushed(),
            final(self).spec_events().pushed() == old(self).spec_events().pushed(),
            final(self).spec_blocks().emitted_rows()
                == final(self).spec_blocks().history().to_multiset(),
            final(self).spec_extrinsics().emitted_rows()
                == final(self).spec_extrinsics().history().to_multiset(),
            final(self).spec_calls().emitted_rows()
                == final(self).spec_calls().history().to_multiset(),
            final(self).spec_events().emitted_rows()
                == final(self).spec_events().history().to_multiset(),
            outputs_wf::<Blocks>(out.block_steps@),
            outputs_wf::<Extrinsics>(out.extrinsic_steps@),
            outputs_wf::<Calls>(out.call_steps@),
            outputs_wf::<Events>(out.event_steps@),
            steps_rows_multiset(out.block_steps@).add(old(self).spec_blocks().emitted_rows())
                == final(self).spec_blocks().emitted_rows(),
            steps_rows_multiset(out.extrinsic_steps@).add(
                old(self).spec_extrinsics().emitted_rows(),
            ) == final(self).spec_extrinsics().emitted_rows(),
            steps_rows_multiset(out.call_steps@).add(old(self).spec_calls().emitted_rows())
                == final(self).spec_calls().emitted_rows(),
            steps_rows_multiset(out.event_steps@).add(old(self).spec_events().emitted_rows())
                == final(self).spec_events().emitted_rows(),
            out.metadata is None,
    {
        let mut block_steps: Vec<StepOutput> = Vec::new();
        let mut extrinsic_steps: Vec<StepOutput> = Vec::new();
        let mut call_steps: Vec<StepOutput> = Vec::new();
        let mut event_steps: Vec<StepOutput> = Vec::new();
        let ghost b_e0 = self.blocks.emitted_rows();
        let st = self.blocks.close();
        let ghost st_b = st;
        block_steps.push(st);
        proof {
            assert(block_steps@ =~= seq![st_b]);
            lemma_single_step_rows(st_b, b_e0, self.blocks.emitted_rows());
        }
        let ghost x_e0 = self.extrinsics.emitted_rows();
        let st = self.extrinsics.close();
        let ghost st_x = st;
        extrinsic_steps.push(st);
        proof {
            assert(extrinsic_steps@ =~= seq![st_x]);
            lemma_single_step_rows(st_x, x_e0, self.extrinsics.emitted_rows());
        }
        let ghost c_e0 = self.calls.emitted_rows();
        let st = self.calls.close();
        let ghost st_c = st;
        call_steps.push(st);
        proof {
            assert(call_steps@ =~= seq![st_c]);
            lemma_single_step_rows(st_c, c_e0, self.calls.emitted_rows());
        }
        let ghost v_e0 = self.events.emitted_rows();
        let st = self.events.close();
        let ghost st_v = st;
        event_steps.push(st);
        proof {
            assert(event_steps@ =~= seq![st_v]);
            lemma_single_step_rows(st_v, v_e0, self.events.emitted_rows());
        }
        DispatchOutput {
            block_steps,
            extrinsic_steps,
            call_steps,
            event_steps,
            metadata: Option::None,
        }
    }
}

} // verus!
