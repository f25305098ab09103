//! What holds of every frame of the level-of-detail stage.

use vstd::prelude::*;
use crate::limits::{BIN_COUNT, MAX_PATCH_COUNT, MAX_THRESHOLD, MIN_THRESHOLD, PASS_COUNT};
use crate::model::ModelState;
use crate::patch::{MAX_DEPTH, code_depth, lemma_depth_bound};
use crate::pass::{
    PassAcc, PassTally, lemma_forced_pass_emits_all, lemma_kernel_accounting, lemma_kernel_depth,
    lemma_total_len_bound, lemma_total_len_empty, total_len,
};
use crate::queue::{lemma_root_patches_shallow, root_patches};
use crate::schedule::spec_pass_plan;
use crate::surface::ParametricSurface;

verus! {

/// Two states hold the same queues, dispatch records, bins, flag, threshold
/// and pass count; their draw records may differ.
pub open spec fn same_work(a: ModelState, b: ModelState) -> bool {
    &&& a.queue_0 == b.queue_0
    &&& a.queue_1 == b.queue_1
    &&& a.dispatch_0 == b.dispatch_0
    &&& a.dispatch_1 == b.dispatch_1
    &&& a.bins == b.bins
    &&& a.force_render == b.force_render
    &&& a.threshold == b.threshold
    &&& a.passes_done == b.passes_done
}

/// Every patch in a render bin is a descendant of the root patch: both its
/// codes carry their sentinel bit and record at most `MAX_DEPTH` subdivisions.
pub proof fn lemma_bin_patches_descend_from_root(s: ModelState, bin: int, i: int)
    requires
        s.wf(),
        0 <= bin < BIN_COUNT,
        0 <= i < s.bins[bin].len(),
    ensures
        s.bins[bin].patches[i].valid(),
        code_depth(s.bins[bin].patches[i].u as nat) <= MAX_DEPTH,
        code_depth(s.bins[bin].patches[i].v as nat) <= MAX_DEPTH,
        s.bins[bin].len() <= MAX_PATCH_COUNT,
{
    assert(s.bins[bin].wf());
    lemma_depth_bound(s.bins[bin].patches[i].u);
    lemma_depth_bound(s.bins[bin].patches[i].v);
}

/// Seeding establishes the invariant, whatever the instance count.
pub proof fn lemma_seed_wf(s: ModelState, instance_count: u32, threshold: int)
    requires
        s.wf(),
        MIN_THRESHOLD <= threshold <= MAX_THRESHOLD,
    ensures
        s.seed(instance_count, threshold).wf(),
        s.seed(instance_count, threshold).queue_0.patches == root_patches(
            if instance_count <= MAX_PATCH_COUNT {
                instance_count as nat
            } else {
                MAX_PATCH_COUNT as nat
            },
        ),
        forall|b: int|
            0 <= b < BIN_COUNT ==> (#[trigger] s.seed(instance_count, threshold).bins[b]).len() == 0,
{
    let seeded = s.seed(instance_count, threshold);
    lemma_root_patches_shallow(seeded.queue_0.patches.len());
    assert(seeded.queue_0.patches.len() * 1 == seeded.queue_0.patches.len());
}

/// A pass keeps the invariant, consumes its source queue, and accounts for
/// every input patch: each is split, emitted, dropped at a full bin, or
/// culled; each split yields two children, taken by the target queue or
/// dropped at its capacity.
pub proof fn lemma_pass_conserves<S: ParametricSurface>(s: ModelState, surface: S)
    requires
        s.wf(),
        s.passes_done < PASS_COUNT,
    ensures
        s.pass(surface).wf(),
        s.pass(surface).passes_done == s.passes_done + 1,
        s.pass(surface).threshold == s.threshold,
        s.pass(surface).draws == s.draws,
        ({
            let plan = spec_pass_plan(s.passes_done);
            let tally = s.pass_outcome(surface).tally;
            let after = s.pass(surface);
            &&& s.queue(plan.source as int).len() == tally.subdivided + tally.emitted
                + tally.bin_dropped + tally.culled
            &&& 2 * tally.subdivided == tally.enqueued + tally.queue_dropped
            &&& after.queue(plan.target as int).len() == tally.enqueued
            &&& after.queue(plan.source as int).len() == 0
            &&& total_len(after.bins) == total_len(s.bins) + tally.emitted
        }),
{
    let plan = spec_pass_plan(s.passes_done);
    let start = PassAcc {
        next: s.queue(plan.target as int).cleared(),
        bins: s.bins,
        tally: PassTally::zero(),
    };
    let inputs = s.queue(plan.source as int).patches;
    lemma_kernel_accounting(start, inputs, surface, s.threshold, plan.force_render);
    lemma_kernel_depth(start, inputs, surface, s.threshold, plan.force_render, s.passes_done);
    let after = s.pass(surface);
    assert(after.queue(plan.target as int).patches.len() * 1 == after.queue(
        plan.target as int,
    ).patches.len());
    assert(after.queue(plan.source as int).patches =~= Seq::empty());
}

/// After the forced pass both work queues are empty: the pass consumed its
/// source and emitted every patch, so nothing went to its target.
pub proof fn lemma_forced_pass_empties_queues<S: ParametricSurface>(s: ModelState, surface: S)
    requires
        s.wf(),
        s.passes_done + 1 == PASS_COUNT,
    ensures
        s.pass(surface).force_render,
        s.pass(surface).queue_0.len() == 0,
        s.pass(surface).queue_1.len() == 0,
        s.pass_outcome(surface).tally.subdivided == 0,
        s.pass_outcome(surface).tally.culled == 0,
{
    let plan = spec_pass_plan(s.passes_done);
    let start = PassAcc {
        next: s.queue(plan.target as int).cleared(),
        bins: s.bins,
        tally: PassTally::zero(),
    };
    lemma_forced_pass_emits_all(start, s.queue(plan.source as int).patches, surface, s.threshold);
    lemma_pass_conserves(s, surface);
}

/// Ping-pong alternation: pass `i` reads queue `i % 2` and nothing else of
/// the work queues. What it leaves in its target queue and in the bins, and
/// what it counts, does not depend on what the target queue or the dispatch
/// records held before.
pub proof fn lemma_pass_reads_only_source<S: ParametricSurface>(
    a: ModelState,
    b: ModelState,
    surface: S,
)
    requires
        a.passes_done == b.passes_done,
        a.queue((a.passes_done % 2) as int) == b.queue((a.passes_done % 2) as int),
        a.queue((1 - a.passes_done % 2) as int).capacity == b.queue(
            (1 - a.passes_done % 2) as int,
        ).capacity,
        a.bins == b.bins,
        a.threshold == b.threshold,
    ensures
        spec_pass_plan(a.passes_done).source == a.passes_done % 2,
        spec_pass_plan(a.passes_done).target == 1 - a.passes_done % 2,
        a.pass_outcome(surface) == b.pass_outcome(surface),
        a.pass(surface).queue_0 == b.pass(surface).queue_0,
        a.pass(surface).queue_1 == b.pass(surface).queue_1,
        a.pass(surface).bins == b.pass(surface).bins,
{
}

/// Any number of passes within the schedule keeps the invariant, and after at
/// least one pass the queue that the last pass read is empty.
pub proof fn lemma_passes_wf<S: ParametricSurface>(s: ModelState, surface: S, count: nat)
    requires
        s.wf(),
        s.passes_done + count <= PASS_COUNT,
    ensures
        s.passes(surface, count).wf(),
        s.passes(surface, count).passes_done == s.passes_done + count,
        s.passes(surface, count).threshold == s.threshold,
        s.passes(surface, count).draws == s.draws,
        count > 0 ==> s.passes(surface, count).queue(
            ((s.passes_done + count + 1) % 2) as int,
        ).len() == 0,
    decreases count,
{
    if count > 0 {
        lemma_passes_wf(s, surface, (count - 1) as nat);
        lemma_pass_conserves(s.passes(surface, (count - 1) as nat), surface);
    }
}

/// The capacity bound of a frame: after the last pass, all bins and both
/// work queues together hold at most `MAX_PATCH_COUNT * (BIN_COUNT + 1)`
/// patches, and the same holds after every earlier pass.
pub proof fn lemma_frame_within_capacity<S: ParametricSurface>(
    s: ModelState,
    surface: S,
    instance_count: u32,
    threshold: int,
    count: nat,
)
    requires
        s.wf(),
        MIN_THRESHOLD <= threshold <= MAX_THRESHOLD,
        1 <= count <= PASS_COUNT,
    ensures
        ({
            let after = s.seed(instance_count, threshold).passes(surface, count);
            total_len(after.bins) + after.queue_0.len() + after.queue_1.len() <= MAX_PATCH_COUNT * (
            BIN_COUNT + 1)
        }),
        ({
            let end = s.lod_stage(surface, instance_count, threshold);
            total_len(end.bins) + end.queue_0.len() + end.queue_1.len() <= MAX_PATCH_COUNT * (
            BIN_COUNT + 1)
        }),
{
    let seeded = s.seed(instance_count, threshold);
    lemma_seed_wf(s, instance_count, threshold);
    lemma_passes_wf(seeded, surface, count);
    lemma_passes_wf(seeded, surface, PASS_COUNT as nat);
    lemma_total_len_bound(seeded.passes(surface, count).bins, MAX_PATCH_COUNT as nat);
    lemma_total_len_bound(seeded.passes(surface, PASS_COUNT as nat).bins, MAX_PATCH_COUNT as nat);
}

/// A whole frame keeps the invariant, leaves both work queues empty and the
/// force-render flag off, and sets every draw record's instance count to the
/// length of its bin while keeping the record's other fields.
pub proof fn lemma_frame_outcome<S: ParametricSurface>(
    s: ModelState,
    surface: S,
    instance_count: u32,
    threshold: int,
)
    requires
        s.wf(),
        MIN_THRESHOLD <= threshold <= MAX_THRESHOLD,
    ensures
        ({
            let end = s.lod_stage(surface, instance_count, threshold);
            &&& end.wf()
            &&& end.queue_0.len() == 0
            &&& end.queue_1.len() == 0
            &&& !end.force_render
            &&& forall|b: int|
                0 <= b < BIN_COUNT ==> (#[trigger] end.draws[b]).instance_count == end.bins[b].len()
                    && end.draws[b] == s.draws[b].with_instances(end.draws[b].instance_count)
        }),
{
    let seeded = s.seed(instance_count, threshold);
    lemma_seed_wf(s, instance_count, threshold);
    lemma_passes_wf(seeded, surface, (PASS_COUNT - 1) as nat);
    let last = seeded.passes(surface, (PASS_COUNT - 1) as nat);
    lemma_forced_pass_empties_queues(last, surface);
    lemma_pass_conserves(last, surface);
    let done = seeded.passes(surface, PASS_COUNT as nat);
    assert(done == last.pass(surface));
    let end = s.lod_stage(surface, instance_count, threshold);
    assert forall|b: int| 0 <= b < BIN_COUNT implies (#[trigger] end.draws[b]).instance_count
        == end.bins[b].len() && end.draws[b] == s.draws[b].with_instances(
        end.draws[b].instance_count,
    ) by {
        assert(done.bins[b].wf());
    }
}

/// A frame forgets what came before it: from any two states of a model, the
/// same instance count, threshold and surface lead to the same queues, bins
/// and instance counts.
pub proof fn lemma_frame_forgets_history<S: ParametricSurface>(
    a: ModelState,
    b: ModelState,
    surface: S,
    instance_count: u32,
    threshold: int,
)
    requires
        a.wf(),
        b.wf(),
    ensures
        same_work(
            a.lod_stage(surface, instance_count, threshold),
            b.lod_stage(surface, instance_count, threshold),
        ),
        forall|k: int|
            0 <= k < BIN_COUNT ==> (#[trigger] a.lod_stage(
                surface,
                instance_count,
                threshold,
            ).draws[k]).instance_count == b.lod_stage(
                surface,
                instance_count,
                threshold,
            ).draws[k].instance_count,
{
    let sa = a.seed(instance_count, threshold);
    let sb = b.seed(instance_count, threshold);
    assert(sa.bins =~= sb.bins) by {
        assert forall|k: int| 0 <= k < BIN_COUNT implies #[trigger] sa.bins[k] == sb.bins[k] by {
            assert(a.bins[k].capacity == MAX_PATCH_COUNT);
            assert(b.bins[k].capacity == MAX_PATCH_COUNT);
        }
    }
    assert(sa.queue_0 == sb.queue_0);
    assert(sa.passes(surface, 0) == sa);
    assert(sb.passes(surface, 0) == sb);
    assert(same_work(sa.passes(surface, 1), sb.passes(surface, 1)));
    lemma_same_work_passes(sa.passes(surface, 1), sb.passes(surface, 1), surface, 7);
    assert(sa.passes(surface, 1).draws == a.draws);
    assert(sb.passes(surface, 1).draws == b.draws);
    lemma_passes_split(sa, surface, 1, 7);
    lemma_passes_split(sb, surface, 1, 7);
}

/// Passes do not read the draw records: states with the same work stay so.
pub proof fn lemma_same_work_passes<S: ParametricSurface>(
    a: ModelState,
    b: ModelState,
    surface: S,
    count: nat,
)
    requires
        same_work(a, b),
    ensures
        same_work(a.passes(surface, count), b.passes(surface, count)),
        a.passes(surface, count).draws == a.draws,
        b.passes(surface, count).draws == b.draws,
    decreases count,
{
    if count > 0 {
        lemma_same_work_passes(a, b, surface, (count - 1) as nat);
    }
}

/// Running `first` passes and then `rest` more is running `first + rest`.
pub proof fn lemma_passes_split<S: ParametricSurface>(
    s: ModelState,
    surface: S,
    first: nat,
    rest: nat,
)
    ensures
        s.passes(surface, first).passes(surface, rest) == s.passes(surface, first + rest),
    decreases rest,
{
    if rest > 0 {
        lemma_passes_split(s, surface, first, (rest - 1) as nat);
    }
}

/// Idempotent frame: with the instance count, the threshold and the surface
/// frozen, a second frame leaves the model exactly as the first one did.
pub proof fn lemma_frame_idempotent<S: ParametricSurface>(
    s: ModelState,
    surface: S,
    instance_count: u32,
    threshold: int,
)
    requires
        s.wf(),
        MIN_THRESHOLD <= threshold <= MAX_THRESHOLD,
    ensures
        s.lod_stage(surface, instance_count, threshold).lod_stage(
            surface,
            instance_count,
            threshold,
        ) == s.lod_stage(surface, instance_count, threshold),
{
    let first = s.lod_stage(surface, instance_count, threshold);
    let second = first.lod_stage(surface, instance_count, threshold);
    lemma_frame_outcome(s, surface, instance_count, threshold);
    lemma_frame_outcome(first, surface, instance_count, threshold);
    lemma_frame_forgets_history(s, first, surface, instance_count, threshold);
    assert(first.draws =~= second.draws);
}

/// A pass over an empty source queue produces nothing.
pub proof fn lemma_idle_pass<S: ParametricSurface>(s: ModelState, surface: S)
    requires
        s.queue((s.passes_done % 2) as int).len() == 0,
    ensures
        s.pass(surface).bins == s.bins,
        s.pass(surface).queue_0.len() == 0,
        s.pass(surface).queue_1.len() == 0,
        s.pass_outcome(surface).tally == PassTally::zero(),
{
    let plan = spec_pass_plan(s.passes_done);
    assert(s.queue(plan.source as int).patches =~= Seq::empty());
}

/// Passes over empty queues leave the bins as they are.
pub proof fn lemma_idle_passes<S: ParametricSurface>(s: ModelState, surface: S, count: nat)
    requires
        s.queue((s.passes_done % 2) as int).len() == 0,
    ensures
        s.passes(surface, count).bins == s.bins,
        s.passes(surface, count).passes_done == s.passes_done + count,
        s.passes(surface, count).queue(((s.passes_done + count) % 2) as int).len() == 0,
    decreases count,
{
    if count > 0 {
        lemma_idle_passes(s, surface, (count - 1) as nat);
        lemma_idle_pass(s.passes(surface, (count - 1) as nat), surface);
    }
}

/// A model without instances renders nothing: after the frame every bin is
/// empty and every draw record asks for zero instances.
pub proof fn lemma_no_instances_no_patches<S: ParametricSurface>(
    s: ModelState,
    surface: S,
    threshold: int,
)
    requires
        s.wf(),
        MIN_THRESHOLD <= threshold <= MAX_THRESHOLD,
    ensures
        forall|b: int|
            0 <= b < BIN_COUNT ==> (#[trigger] s.lod_stage(surface, 0, threshold).bins[b]).len() == 0
                && s.lod_stage(surface, 0, threshold).draws[b].instance_count == 0,
        total_len(s.lod_stage(surface, 0, threshold).bins) == 0,
{
    let seeded = s.seed(0, threshold);
    lemma_seed_wf(s, 0, threshold);
    lemma_idle_passes(seeded, surface, PASS_COUNT as nat);
    lemma_frame_outcome(s, surface, 0, threshold);
    lemma_total_len_empty(s.lod_stage(surface, 0, threshold).bins);
}

} // verus!
