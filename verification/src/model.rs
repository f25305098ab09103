//! The per-model state of the level-of-detail stage and the work of a frame.
//!
//! A virtual model owns two ping-pong work queues with their dispatch
//! records, five render bins, one indirect draw record per bin, the threshold
//! factor and the force-render flag. A frame seeds the first queue with the
//! model's root patches, runs the scheduled passes, and consolidates the bin
//! lengths into the draw records.

use vstd::prelude::*;
use crate::indirect::{DispatchIndirectArgs, DrawIndexedIndirectArgs, spec_workgroups};
use crate::kernel::ThresholdFactor;
use crate::limits::{
    BIN_COUNT, MAX_PATCH_COUNT, MAX_THRESHOLD, MIN_THRESHOLD, PASS_COUNT, PATCHES_PER_WORKGROUP,
};
use crate::pass::{
    PassAcc, PassReport, PassTally, bins_view, bins_wf, lemma_kernel_accounting,
    lemma_kernel_depth, run_kernel, run_pass,
};
use crate::queue::{PatchQueue, QueueModel, RenderBin, all_valid, all_within_depth};
use crate::schedule::{PassPlan, pass_plan, spec_pass_plan};
use crate::patch::EncodedPatch;
use crate::surface::ParametricSurface;

verus! {

/// What a virtual model holds.
pub struct ModelState {
    pub queue_0: QueueModel,
    pub queue_1: QueueModel,
    pub dispatch_0: DispatchIndirectArgs,
    pub dispatch_1: DispatchIndirectArgs,
    /// The render bins, by ascending target size.
    pub bins: Seq<QueueModel>,
    /// The indirect draw records, one per bin.
    pub draws: Seq<DrawIndexedIndirectArgs>,
    pub force_render: bool,
    /// The threshold factor in units of `1 / EXTENT_UNIT`.
    pub threshold: int,
    /// Number of passes run since the queues were seeded.
    pub passes_done: nat,
}

/// The per-model state of the level-of-detail stage.
#[derive(Debug)]
pub struct VirtualModel {
    queue_0: PatchQueue,
    queue_1: PatchQueue,
    dispatch_0: DispatchIndirectArgs,
    dispatch_1: DispatchIndirectArgs,
    bins: Vec<RenderBin>,
    indirect_draw: Vec<DrawIndexedIndirectArgs>,
    force_render: bool,
    threshold: ThresholdFactor,
    passes_done: u32,
}

/// All bins emptied, capacities kept.
pub open spec fn cleared_bins(bins: Seq<QueueModel>) -> Seq<QueueModel> {
    Seq::new(bins.len(), |b: int| bins[b].cleared())
}

/// The dispatch record that covers a queue of `len` patches.
pub open spec fn covering_dispatch(len: nat) -> DispatchIndirectArgs {
    DispatchIndirectArgs {
        x: spec_workgroups(len, PATCHES_PER_WORKGROUP as nat) as u32,
        y: 1,
        z: 1,
    }
}

impl ModelState {
    /// Work queue `k`.
    pub open spec fn queue(self, k: int) -> QueueModel {
        if k == 0 {
            self.queue_0
        } else {
            self.queue_1
        }
    }

    /// Dispatch record `k`.
    pub open spec fn dispatch(self, k: int) -> DispatchIndirectArgs {
        if k == 0 {
            self.dispatch_0
        } else {
            self.dispatch_1
        }
    }

    /// The invariant of a virtual model: every queue and bin has the fixed
    /// capacity and stays within it, every patch is valid, every dispatch
    /// record covers its queue, and the queue that the next pass reads holds
    /// no patch deeper than the number of passes run.
    pub open spec fn wf(self) -> bool {
        &&& self.queue_0.wf() && self.queue_0.capacity == MAX_PATCH_COUNT
        &&& self.queue_1.wf() && self.queue_1.capacity == MAX_PATCH_COUNT
        &&& all_valid(self.queue_0.patches) && all_valid(self.queue_1.patches)
        &&& bins_wf(self.bins)
        &&& forall|b: int| 0 <= b < BIN_COUNT ==> (#[trigger] self.bins[b]).capacity == MAX_PATCH_COUNT
        &&& self.draws.len() == BIN_COUNT
        &&& self.dispatch_0.covers(self.queue_0.len(), PATCHES_PER_WORKGROUP as nat)
        &&& self.dispatch_1.covers(self.queue_1.len(), PATCHES_PER_WORKGROUP as nat)
        &&& MIN_THRESHOLD <= self.threshold <= MAX_THRESHOLD
        &&& self.passes_done <= PASS_COUNT
        &&& all_within_depth(self.queue((self.passes_done % 2) as int).patches, self.passes_done)
    }

    /// The state after seeding: the first queue holds the root patches of the
    /// first `instance_count` instances, as many as fit; its dispatch record
    /// asks for one workgroup per instance; the bins are empty and the
    /// force-render flag is off.
    pub open spec fn seed(self, instance_count: u32, threshold: int) -> ModelState {
        ModelState {
            queue_0: self.queue_0.seeded(instance_count as nat),
            dispatch_0: DispatchIndirectArgs { x: instance_count, y: 1, z: 1 },
            bins: cleared_bins(self.bins),
            force_render: false,
            threshold,
            passes_done: 0,
            ..self
        }
    }

    /// What the next pass produces: its target queue, the bins and the counts.
    pub open spec fn pass_outcome<S: ParametricSurface>(self, surface: S) -> PassAcc {
        let plan = spec_pass_plan(self.passes_done);
        run_kernel(
            PassAcc {
                next: self.queue(plan.target as int).cleared(),
                bins: self.bins,
                tally: PassTally::zero(),
            },
            self.queue(plan.source as int).patches,
            surface,
            self.threshold,
            plan.force_render,
        )
    }

    /// The state after the next pass: the target queue and its dispatch
    /// record are reset and then filled by the kernel, the source queue is
    /// consumed, and the force-render flag is that of the pass.
    pub open spec fn pass<S: ParametricSurface>(self, surface: S) -> ModelState {
        let plan = spec_pass_plan(self.passes_done);
        let outcome = self.pass_outcome(surface);
        if plan.source == 0 {
            ModelState {
                queue_0: self.queue_0.cleared(),
                queue_1: outcome.next,
                dispatch_1: covering_dispatch(outcome.next.len()),
                bins: outcome.bins,
                force_render: plan.force_render,
                passes_done: self.passes_done + 1,
                ..self
            }
        } else {
            ModelState {
                queue_1: self.queue_1.cleared(),
                queue_0: outcome.next,
                dispatch_0: covering_dispatch(outcome.next.len()),
                bins: outcome.bins,
                force_render: plan.force_render,
                passes_done: self.passes_done + 1,
                ..self
            }
        }
    }

    /// The state after `count` further passes.
    pub open spec fn passes<S: ParametricSurface>(self, surface: S, count: nat) -> ModelState
        decreases count,
    {
        if count == 0 {
            self
        } else {
            self.passes(surface, (count - 1) as nat).pass(surface)
        }
    }

    /// The state after consolidation: every draw record's instance count is
    /// the length of its bin, and nothing else changes.
    pub open spec fn consolidate(self) -> ModelState {
        ModelState {
            draws: Seq::new(
                self.draws.len(),
                |b: int| self.draws[b].with_instances(self.bins[b].len() as u32),
            ),
            ..self
        }
    }

    /// The state after a whole frame: seeding, all scheduled passes, the
    /// force-render flag switched off again, and consolidation.
    pub open spec fn lod_stage<S: ParametricSurface>(
        self,
        surface: S,
        instance_count: u32,
        threshold: int,
    ) -> ModelState {
        let done = self.seed(instance_count, threshold).passes(surface, PASS_COUNT as nat);
        (ModelState { force_render: false, ..done }).consolidate()
    }
}

impl View for VirtualModel {
    type V = ModelState;

    closed spec fn view(&self) -> ModelState {
        ModelState {
            queue_0: self.queue_0@,
            queue_1: self.queue_1@,
            dispatch_0: self.dispatch_0,
            dispatch_1: self.dispatch_1,
            bins: bins_view(self.bins@),
            draws: self.indirect_draw@,
            force_render: self.force_render,
            threshold: self.threshold.value(),
            passes_done: self.passes_done as nat,
        }
    }
}

impl VirtualModel {
    /// The state of a new model whose bin meshes have `index_counts` indices:
    /// empty queues and bins of capacity `MAX_PATCH_COUNT`, reset dispatch
    /// records, no instances to draw, and a threshold factor of one.
    pub fn new(index_counts: [u32; 5]) -> (model: VirtualModel)
        ensures
            model@.wf(),
            model@.passes_done == 0,
            model@.queue_0 == (QueueModel { capacity: MAX_PATCH_COUNT as nat, patches: Seq::empty() }),
            model@.queue_1 == model@.queue_0,
            model@.dispatch_0 == DispatchIndirectArgs::spec_reset(),
            model@.dispatch_1 == DispatchIndirectArgs::spec_reset(),
            !model@.force_render,
            model@.threshold == crate::limits::EXTENT_UNIT,
            forall|b: int|
                0 <= b < BIN_COUNT ==> #[trigger] model@.bins[b] == model@.queue_0 && model@.draws[b]
                    == DrawIndexedIndirectArgs::spec_for_mesh(index_counts[b]),
    {
        let mut bins: Vec<RenderBin> = Vec::new();
        let mut draws: Vec<DrawIndexedIndirectArgs> = Vec::new();
        let mut b: usize = 0;
        while b < BIN_COUNT
            invariant
                b <= BIN_COUNT,
                bins@.len() == b,
                draws@.len() == b,
                forall|k: int|
                    0 <= k < b ==> (#[trigger] bins@[k])@ == (QueueModel {
                        capacity: MAX_PATCH_COUNT as nat,
                        patches: Seq::empty(),
                    }),
                forall|k: int|
                    0 <= k < b ==> #[trigger] draws@[k] == DrawIndexedIndirectArgs::spec_for_mesh(
                        index_counts[k],
                    ),
            decreases BIN_COUNT - b,
        {
            bins.push(PatchQueue::new(MAX_PATCH_COUNT));
            draws.push(DrawIndexedIndirectArgs::for_mesh(index_counts[b]));
            b = b + 1;
        }
        let model = VirtualModel {
            queue_0: PatchQueue::new(MAX_PATCH_COUNT),
            queue_1: PatchQueue::new(MAX_PATCH_COUNT),
            dispatch_0: DispatchIndirectArgs::reset(),
            dispatch_1: DispatchIndirectArgs::reset(),
            bins,
            indirect_draw: draws,
            force_render: false,
            threshold: ThresholdFactor::one(),
            passes_done: 0,
        };
        proof {
            assert(model@.queue(0).patches =~= Seq::empty());
        }
        model
    }

    /// Work queue `k`.
    pub fn queue(&self, k: usize) -> (q: &PatchQueue)
        requires
            k < 2,
        ensures
            q@ == self@.queue(k as int),
    {
        if k == 0 {
            &self.queue_0
        } else {
            &self.queue_1
        }
    }

    /// Dispatch record `k`.
    pub fn dispatch(&self, k: usize) -> (args: DispatchIndirectArgs)
        requires
            k < 2,
        ensures
            args == self@.dispatch(k as int),
    {
        if k == 0 {
            self.dispatch_0
        } else {
            self.dispatch_1
        }
    }

    /// Render bin `bin`.
    pub fn bin(&self, bin: usize) -> (q: &RenderBin)
        requires
            self@.wf(),
            bin < BIN_COUNT,
        ensures
            q@ == self@.bins[bin as int],
    {
        &self.bins[bin]
    }

    /// Number of patches in render bin `bin`.
    pub fn bin_len(&self, bin: usize) -> (n: u32)
        requires
            self@.wf(),
            bin < BIN_COUNT,
        ensures
            n == self@.bins[bin as int].len(),
            n <= MAX_PATCH_COUNT,
    {
        assert(self@.bins[bin as int].wf());
        self.bins[bin].len()
    }

    /// The indirect draw record of bin `bin`.
    pub fn draw(&self, bin: usize) -> (args: DrawIndexedIndirectArgs)
        requires
            self@.wf(),
            bin < BIN_COUNT,
        ensures
            args == self@.draws[bin as int],
    {
        self.indirect_draw[bin]
    }

    /// The force-render flag.
    pub fn force_render(&self) -> (flag: bool)
        ensures
            flag == self@.force_render,
    {
        self.force_render
    }

    /// The threshold factor the passes use.
    pub fn threshold(&self) -> (t: ThresholdFactor)
        ensures
            t.value() == self@.threshold,
    {
        self.threshold
    }

    /// Number of passes run since the queues were seeded.
    pub fn passes_done(&self) -> (n: u32)
        ensures
            n == self@.passes_done,
    {
        self.passes_done
    }

    /// Prepares a frame: seeds the first queue with the root patches of
    /// `instance_count` instances, dropping those beyond the capacity, sets
    /// its dispatch record, empties the bins and switches the force-render
    /// flag off. Returns the number of roots seeded.
    pub fn seed(&mut self, instance_count: u32, threshold: ThresholdFactor) -> (seeded: u32)
        requires
            old(self)@.wf(),
        ensures
            final(self)@ == old(self)@.seed(instance_count, threshold.value()),
            final(self)@.wf(),
            seeded == final(self)@.queue_0.len(),
            seeded == if instance_count <= MAX_PATCH_COUNT {
                instance_count
            } else {
                MAX_PATCH_COUNT
            },
            forall|b: int| 0 <= b < BIN_COUNT ==> (#[trigger] final(self)@.bins[b]).len() == 0,
    {
        proof {
            use_type_invariant(&threshold);
            threshold.lemma_range();
        }
        assert(bins_view(self.bins@).len() == BIN_COUNT);
        let seeded: u32 = self.queue_0.seed(instance_count);
        self.dispatch_0 = DispatchIndirectArgs { x: instance_count, y: 1, z: 1 };
        let mut b: usize = 0;
        while b < BIN_COUNT
            invariant
                b <= BIN_COUNT,
                self.bins@.len() == BIN_COUNT,
                old(self).bins@.len() == BIN_COUNT,
                forall|k: int| 0 <= k < b ==> (#[trigger] self.bins@[k])@ == old(self).bins@[k]@.cleared(),
                forall|k: int| b <= k < BIN_COUNT ==> (#[trigger] self.bins@[k]) == old(self).bins@[k],
                self.queue_0@ == old(self).queue_0@.seeded(instance_count as nat),
                self.queue_1 == old(self).queue_1,
                self.dispatch_0 == (DispatchIndirectArgs { x: instance_count, y: 1, z: 1 }),
                self.dispatch_1 == old(self).dispatch_1,
                self.indirect_draw == old(self).indirect_draw,
            decreases BIN_COUNT - b,
        {
            self.bins[b].clear();
            b = b + 1;
        }
        self.force_render = false;
        self.threshold = threshold;
        self.passes_done = 0;
        proof {
            assert(bins_view(self.bins@) =~= cleared_bins(old(self)@.bins));
            assert(self.queue_0@.patches.len() * 1 == self.queue_0@.patches.len());
        }
        seeded
    }

    /// Writes the length of every bin into the instance count of its draw
    /// record.
    pub fn consolidate(&mut self)
        requires
            old(self)@.wf(),
        ensures
            final(self)@ == old(self)@.consolidate(),
            final(self)@.wf(),
            forall|b: int|
                0 <= b < BIN_COUNT ==> (#[trigger] final(self)@.draws[b]).instance_count
                    == final(self)@.bins[b].len() && final(self)@.draws[b]
                    == old(self)@.draws[b].with_instances(final(self)@.draws[b].instance_count),
    {
        let mut b: usize = 0;
        while b < BIN_COUNT
            invariant
                b <= BIN_COUNT,
                self@.wf(),
                self.indirect_draw@.len() == BIN_COUNT,
                forall|k: int|
                    0 <= k < b ==> #[trigger] self.indirect_draw@[k] == old(
                        self,
                    ).indirect_draw@[k].with_instances(bins_view(self.bins@)[k].len() as u32),
                forall|k: int|
                    b <= k < BIN_COUNT ==> #[trigger] self.indirect_draw@[k] == old(
                        self,
                    ).indirect_draw@[k],
                self.queue_0 == old(self).queue_0,
                self.queue_1 == old(self).queue_1,
                self.dispatch_0 == old(self).dispatch_0,
                self.dispatch_1 == old(self).dispatch_1,
                self.bins == old(self).bins,
                self.force_render == old(self).force_render,
                self.threshold == old(self).threshold,
                self.passes_done == old(self).passes_done,
            decreases BIN_COUNT - b,
        {
            assert(bins_view(self.bins@)[b as int].wf());
            let length: u32 = self.bins[b].len();
            let record = self.indirect_draw[b];
            self.indirect_draw[b] = DrawIndexedIndirectArgs { instance_count: length, ..record };
            b = b + 1;
        }
        proof {
            assert(self@.draws =~= old(self)@.consolidate().draws);
        }
    }

    /// Runs the next scheduled pass on `surface`. The pass consumes its source
    /// queue, fills its target queue and the bins, and keeps the target's
    /// dispatch record in step with the target's length. Every input patch is
    /// accounted for in the report.
    pub fn subdivision_pass<S: ParametricSurface>(&mut self, surface: &S) -> (report: PassReport)
        requires
            old(self)@.wf(),
            old(self)@.passes_done < PASS_COUNT,
        ensures
            final(self)@ == old(self)@.pass(*surface),
            report@ == old(self)@.pass_outcome(*surface).tally,
            final(self)@.wf(),
            report@.inputs() == old(self)@.queue((old(self)@.passes_done % 2) as int).len(),
            report@.enqueued + report@.queue_dropped == 2 * report@.subdivided,
            final(self)@.queue((final(self)@.passes_done % 2) as int).len() == report@.enqueued,
            final(self)@.queue((old(self)@.passes_done % 2) as int).len() == 0,
            crate::pass::total_len(final(self)@.bins) == crate::pass::total_len(old(self)@.bins)
                + report@.emitted,
            final(self)@.force_render ==> final(self)@.queue_0.len() == 0
                && final(self)@.queue_1.len() == 0 && report@.subdivided == 0 && report@.culled
                == 0,
    {
        let plan: PassPlan = pass_plan(self.passes_done);
        let threshold: ThresholdFactor = self.threshold;
        let ghost before = self@;
        let ghost start = PassAcc {
            next: before.queue(plan.target as int).cleared(),
            bins: before.bins,
            tally: PassTally::zero(),
        };
        let ghost inputs = before.queue(plan.source as int).patches;
        proof {
            lemma_kernel_accounting(
                start,
                inputs,
                *surface,
                threshold.value(),
                plan.force_render,
            );
            lemma_kernel_depth(
                start,
                inputs,
                *surface,
                threshold.value(),
                plan.force_render,
                before.passes_done,
            );
            if plan.force_render {
                crate::pass::lemma_forced_pass_emits_all(start, inputs, *surface, threshold.value());
            }
        }
        self.force_render = plan.force_render;
        let report: PassReport;
        if plan.source == 0 {
            let taken: Vec<EncodedPatch> = self.queue_0.take();
            self.queue_1.clear();
            self.dispatch_1 = DispatchIndirectArgs::reset();
            report = run_pass(
                &taken,
                &mut self.queue_1,
                &mut self.bins,
                surface,
                &threshold,
                plan.force_render,
            );
            let grown: u32 = self.queue_1.len();
            self.dispatch_1.raise_to_cover(grown, PATCHES_PER_WORKGROUP);
        } else {
            let taken: Vec<EncodedPatch> = self.queue_1.take();
            self.queue_0.clear();
            self.dispatch_0 = DispatchIndirectArgs::reset();
            report = run_pass(
                &taken,
                &mut self.queue_0,
                &mut self.bins,
                surface,
                &threshold,
                plan.force_render,
            );
            let grown: u32 = self.queue_0.len();
            self.dispatch_0.raise_to_cover(grown, PATCHES_PER_WORKGROUP);
        }
        self.passes_done = self.passes_done + 1;
        proof {
            assert(self@.queue(plan.source as int).patches =~= Seq::empty());
            assert(self@.queue(plan.source as int) == before.queue(plan.source as int).cleared());
        }
        report
    }

    /// Runs a whole frame for the model: seeds the queues with the roots of
    /// `instance_count` instances, runs every scheduled pass on `surface`,
    /// switches the force-render flag off again and consolidates the bin
    /// lengths into the draw records. Returns the report of each pass.
    pub fn lod_stage<S: ParametricSurface>(
        &mut self,
        surface: &S,
        instance_count: u32,
        threshold: ThresholdFactor,
    ) -> (reports: Vec<PassReport>)
        requires
            old(self)@.wf(),
        ensures
            final(self)@ == old(self)@.lod_stage(*surface, instance_count, threshold.value()),
            final(self)@.wf(),
            final(self)@.queue_0.len() == 0 && final(self)@.queue_1.len() == 0,
            !final(self)@.force_render,
            forall|b: int|
                0 <= b < BIN_COUNT ==> (#[trigger] final(self)@.draws[b]).instance_count
                    == final(self)@.bins[b].len(),
            reports@.len() == PASS_COUNT,
            forall|i: int|
                0 <= i < PASS_COUNT ==> (#[trigger] reports@[i])@ == old(self)@.seed(
                    instance_count,
                    threshold.value(),
                ).passes(*surface, i as nat).pass_outcome(*surface).tally,
    {
        let ghost seeded = self@.seed(instance_count, threshold.value());
        self.seed(instance_count, threshold);
        let mut reports: Vec<PassReport> = Vec::new();
        let mut pass: u32 = 0;
        while pass < PASS_COUNT
            invariant
                pass <= PASS_COUNT,
                self@.wf(),
                self@.passes_done == pass,
                self@ == seeded.passes(*surface, pass as nat),
                reports@.len() == pass,
                pass > 0 ==> self@.queue(((pass - 1) % 2) as int).len() == 0,
                pass == PASS_COUNT ==> self@.queue_0.len() == 0 && self@.queue_1.len() == 0,
                forall|i: int|
                    0 <= i < pass ==> (#[trigger] reports@[i])@ == seeded.passes(
                        *surface,
                        i as nat,
                    ).pass_outcome(*surface).tally,
            decreases PASS_COUNT - pass,
        {
            let report: PassReport = self.subdivision_pass(surface);
            reports.push(report);
            pass = pass + 1;
        }
        self.force_render = false;
        self.consolidate();
        reports
    }
}

} // verus!
