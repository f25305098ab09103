//! Finer thresholds produce at least as many patches.
//!
//! The number of patches a frame emits is counted patch by patch: a patch
//! that is emitted counts once, a patch that is split counts what its two
//! halves count, and a discarded patch counts nothing. Where no queue or bin
//! overflows, the bins of a frame hold exactly the count of its roots.

use vstd::prelude::*;
use vstd::arithmetic::power2::{pow2, lemma_pow2_unfold, lemma2_to64};
use crate::invariants::{lemma_pass_conserves, lemma_passes_split, lemma_seed_wf};
use crate::kernel::{PatchFate, spec_classify};
use crate::limits::{BIN_COUNT, MAX_PATCH_COUNT, MAX_THRESHOLD, MIN_THRESHOLD, PASS_COUNT};
use crate::model::ModelState;
use crate::pass::{
    PassAcc, PassTally, bins_wf, lemma_deep_enough, lemma_kernel_accounting,
    lemma_total_len_empty, run_kernel, total_len,
};
use crate::patch::{EncodedPatch, lemma_child_depth};
use crate::queue::{QueueModel, all_within_depth, lemma_root_patches_shallow, root_patches};
use crate::schedule::spec_pass_plan;
use crate::surface::ParametricSurface;

verus! {

/// Number of patches that `patch`, read by pass number `pass`, contributes to
/// the bins by the end of the frame when nothing overflows.
pub open spec fn yield_of<S: ParametricSurface>(
    surface: S,
    threshold: int,
    patch: EncodedPatch,
    pass: nat,
) -> nat
    decreases PASS_COUNT - pass,
{
    if pass >= PASS_COUNT {
        0
    } else {
        match spec_classify(surface.measured(patch), threshold, pass + 1 == PASS_COUNT) {
            PatchFate::Emit(_) => 1,
            PatchFate::Discard => 0,
            PatchFate::Subdivide(axis) => yield_of(
                surface,
                threshold,
                patch.child(axis, false),
                pass + 1,
            ) + yield_of(surface, threshold, patch.child(axis, true), pass + 1),
        }
    }
}

/// What all of `patches`, read by pass number `pass`, contribute together.
pub open spec fn yield_sum<S: ParametricSurface>(
    surface: S,
    threshold: int,
    patches: Seq<EncodedPatch>,
    pass: nat,
) -> nat
    decreases patches.len(),
{
    if patches.len() == 0 {
        0
    } else {
        yield_sum(surface, threshold, patches.drop_last(), pass) + yield_of(
            surface,
            threshold,
            patches.last(),
            pass,
        )
    }
}

/// Every patch that a frame can reach is in view and appears at least twice
/// the threshold large, so that it lies in or above the acceptance bands.
pub open spec fn always_large<S: ParametricSurface>(surface: S, threshold: int) -> bool {
    forall|p: EncodedPatch|
        p.valid() && p.depth() < PASS_COUNT ==> !(#[trigger] surface.measured(p)).outside
            && surface.measured(p).screen_extent() >= 2 * threshold
}

/// No bin holds more than all bins together.
pub proof fn lemma_bin_within_total(bins: Seq<QueueModel>, bin: int)
    requires
        0 <= bin < bins.len(),
    ensures
        bins[bin].len() <= total_len(bins),
    decreases bins.len(),
{
    if bin < bins.len() - 1 {
        lemma_bin_within_total(bins.drop_last(), bin);
    }
}

/// Patches read after the last pass contribute nothing.
pub proof fn lemma_yield_sum_after_end<S: ParametricSurface>(
    surface: S,
    threshold: int,
    patches: Seq<EncodedPatch>,
)
    ensures
        yield_sum(surface, threshold, patches, PASS_COUNT as nat) == 0,
    decreases patches.len(),
{
    if patches.len() > 0 {
        lemma_yield_sum_after_end(surface, threshold, patches.drop_last());
    }
}

/// Where neither the target queue nor a bin overflows, a pass hands the whole
/// contribution of its inputs on: to the bins what it emits, to the target
/// queue what is still to come.
pub proof fn lemma_kernel_yield<S: ParametricSurface>(
    acc: PassAcc,
    inputs: Seq<EncodedPatch>,
    surface: S,
    threshold: int,
    pass: nat,
)
    requires
        pass < PASS_COUNT,
        acc.next.wf(),
        bins_wf(acc.bins),
        all_within_depth(inputs, 30),
        pass + 1 == PASS_COUNT || acc.next.len() + 2 * inputs.len() <= acc.next.capacity,
        forall|b: int|
            0 <= b < BIN_COUNT ==> (#[trigger] acc.bins[b]).len() + inputs.len() <= acc.bins[b].capacity,
    ensures
        ({
            let r = run_kernel(acc, inputs, surface, threshold, pass + 1 == PASS_COUNT);
            &&& r.tally.emitted + yield_sum(surface, threshold, r.next.patches, pass + 1)
                == acc.tally.emitted + yield_sum(surface, threshold, acc.next.patches, pass + 1)
                + yield_sum(surface, threshold, inputs, pass)
            &&& r.next.len() <= acc.next.len() + 2 * inputs.len()
            &&& forall|b: int|
                0 <= b < BIN_COUNT ==> (#[trigger] r.bins[b]).len() <= acc.bins[b].len() + inputs.len()
        }),
    decreases inputs.len(),
{
    let force = pass + 1 == PASS_COUNT;
    if inputs.len() > 0 {
        let rest = inputs.drop_last();
        let patch = inputs.last();
        let before = run_kernel(acc, rest, surface, threshold, force);
        let fate = spec_classify(surface.measured(patch), threshold, force);
        lemma_kernel_yield(acc, rest, surface, threshold, pass);
        lemma_kernel_accounting(acc, rest, surface, threshold, force);
        let r = run_kernel(acc, inputs, surface, threshold, force);
        assert(patch.valid() && patch.depth() <= 30);
        assert(yield_sum(surface, threshold, inputs, pass) == yield_sum(
            surface,
            threshold,
            rest,
            pass,
        ) + yield_of(surface, threshold, patch, pass));
        match fate {
            PatchFate::Emit(bin) => {
                assert(before.bins[bin as int].len() <= acc.bins[bin as int].len() + rest.len());
                assert(before.bins[bin as int].capacity == acc.bins[bin as int].capacity);
                assert(!before.bins[bin as int].is_full());
                assert(r.next == before.next);
                assert(r.tally.emitted == before.tally.emitted + 1);
                assert(yield_of(surface, threshold, patch, pass) == 1);
                assert forall|b: int| 0 <= b < BIN_COUNT implies (#[trigger] r.bins[b]).len()
                    <= acc.bins[b].len() + inputs.len() by {
                    assert(before.bins[b].len() <= acc.bins[b].len() + rest.len());
                }
            },
            PatchFate::Subdivide(axis) => {
                assert(!force);
                let lower = patch.child(axis, false);
                let upper = patch.child(axis, true);
                let one = before.next.push(lower);
                let two = one.push(upper);
                assert(!before.next.is_full());
                assert(!one.is_full());
                assert(one.patches.drop_last() =~= before.next.patches);
                assert(two.patches.drop_last() =~= one.patches);
                assert(r.next == two);
                assert(one.patches.last() == lower);
                assert(two.patches.last() == upper);
                assert(r.tally.emitted == before.tally.emitted);
                assert(r.bins == before.bins);
                assert(yield_of(surface, threshold, patch, pass) == yield_of(
                    surface,
                    threshold,
                    lower,
                    pass + 1,
                ) + yield_of(surface, threshold, upper, pass + 1));
                assert(yield_sum(surface, threshold, one.patches, pass + 1) == yield_sum(
                    surface,
                    threshold,
                    before.next.patches,
                    pass + 1,
                ) + yield_of(surface, threshold, lower, pass + 1));
                assert(yield_sum(surface, threshold, two.patches, pass + 1) == yield_sum(
                    surface,
                    threshold,
                    one.patches,
                    pass + 1,
                ) + yield_of(surface, threshold, upper, pass + 1));
                assert forall|b: int| 0 <= b < BIN_COUNT implies (#[trigger] r.bins[b]).len()
                    <= acc.bins[b].len() + inputs.len() by {
                    assert(before.bins[b].len() <= acc.bins[b].len() + rest.len());
                }
            },
            PatchFate::Discard => {
                assert(r.next == before.next);
                assert(r.bins == before.bins);
                assert(r.tally.emitted == before.tally.emitted);
                assert(yield_of(surface, threshold, patch, pass) == 0);
                assert forall|b: int| 0 <= b < BIN_COUNT implies (#[trigger] r.bins[b]).len()
                    <= acc.bins[b].len() + inputs.len() by {
                    assert(before.bins[b].len() <= acc.bins[b].len() + rest.len());
                }
            },
        }
    }
}

/// Where nothing overflows, the passes that remain in a frame add to the bins
/// exactly what the patches waiting in the source queue contribute.
pub proof fn lemma_passes_yield<S: ParametricSurface>(
    s: ModelState,
    surface: S,
    budget: nat,
    count: nat,
)
    requires
        s.wf(),
        s.passes_done + count == PASS_COUNT,
        total_len(s.bins) + s.queue((s.passes_done % 2) as int).len() <= budget,
        count >= 1 ==> budget * pow2((count - 1) as nat) <= MAX_PATCH_COUNT,
    ensures
        total_len(s.passes(surface, count).bins) == total_len(s.bins) + yield_sum(
            surface,
            s.threshold,
            s.queue((s.passes_done % 2) as int).patches,
            s.passes_done,
        ),
    decreases count,
{
    let source = s.queue((s.passes_done % 2) as int);
    if count == 0 {
        lemma_yield_sum_after_end(surface, s.threshold, source.patches);
    } else {
        let plan = spec_pass_plan(s.passes_done);
        let start = PassAcc {
            next: s.queue(plan.target as int).cleared(),
            bins: s.bins,
            tally: PassTally::zero(),
        };
        lemma2_to64();
        let room = pow2((count - 1) as nat);
        assert(room >= 1) by {
            vstd::arithmetic::power2::lemma_pow2_pos((count - 1) as nat);
        }
        assert(budget <= MAX_PATCH_COUNT) by (nonlinear_arith)
            requires
                budget * room <= MAX_PATCH_COUNT,
                room >= 1,
        ;
        if count >= 2 {
            let half = pow2((count - 2) as nat);
            lemma_pow2_unfold((count - 1) as nat);
            assert(room == 2 * half);
            assert(half >= 1) by {
                vstd::arithmetic::power2::lemma_pow2_pos((count - 2) as nat);
            }
            assert(2 * budget <= MAX_PATCH_COUNT && (2 * budget) * half <= MAX_PATCH_COUNT)
                by (nonlinear_arith)
                requires
                    budget * room <= MAX_PATCH_COUNT,
                    room == 2 * half,
                    half >= 1,
            ;
        }
        assert forall|b: int| 0 <= b < BIN_COUNT implies (#[trigger] start.bins[b]).len()
            + source.patches.len() <= start.bins[b].capacity by {
            lemma_bin_within_total(s.bins, b);
        }
        lemma_kernel_yield(start, source.patches, surface, s.threshold, s.passes_done);
        lemma_pass_conserves(s, surface);
        let after = s.pass(surface);
        let outcome = s.pass_outcome(surface);
        assert(yield_sum(surface, s.threshold, start.next.patches, s.passes_done + 1) == 0);
        assert(after.queue((after.passes_done % 2) as int) == outcome.next);
        lemma_passes_yield(after, surface, 2 * budget, (count - 1) as nat);
        lemma_passes_split(s, surface, 1, (count - 1) as nat);
        assert(s.passes(surface, 1) == after) by {
            assert(s.passes(surface, 0) == s);
        }
    }
}

/// Under a finer threshold a patch contributes at least as much as under a
/// coarser one, and at least one patch, provided the surface always appears
/// large under the coarser threshold.
pub proof fn lemma_yield_monotone<S: ParametricSurface>(
    surface: S,
    t1: int,
    t2: int,
    patch: EncodedPatch,
    pass: nat,
)
    requires
        1 <= t1 <= t2,
        always_large(surface, t2),
        pass < PASS_COUNT,
        patch.valid(),
        patch.depth() == pass,
    ensures
        yield_of(surface, t1, patch, pass) >= yield_of(surface, t2, patch, pass),
        yield_of(surface, t1, patch, pass) >= 1,
    decreases PASS_COUNT - pass,
{
    let m = surface.measured(patch);
    let force = pass + 1 == PASS_COUNT;
    assert(!m.outside && m.screen_extent() >= 2 * t2);
    let fine = spec_classify(m, t1, force);
    if fine is Subdivide {
        let axis = fine->Subdivide_0;
        lemma_deep_enough(patch, axis);
        lemma_child_depth(patch.code(axis));
        lemma_yield_monotone(surface, t1, t2, patch.child(axis, false), pass + 1);
        lemma_yield_monotone(surface, t1, t2, patch.child(axis, true), pass + 1);
    }
}

/// The same for a whole queue of patches.
pub proof fn lemma_yield_sum_monotone<S: ParametricSurface>(
    surface: S,
    t1: int,
    t2: int,
    patches: Seq<EncodedPatch>,
    pass: nat,
)
    requires
        1 <= t1 <= t2,
        always_large(surface, t2),
        pass < PASS_COUNT,
        forall|i: int|
            0 <= i < patches.len() ==> (#[trigger] patches[i]).valid() && patches[i].depth() == pass,
    ensures
        yield_sum(surface, t1, patches, pass) >= yield_sum(surface, t2, patches, pass),
    decreases patches.len(),
{
    if patches.len() > 0 {
        lemma_yield_sum_monotone(surface, t1, t2, patches.drop_last(), pass);
        lemma_yield_monotone(surface, t1, t2, patches.last(), pass);
    }
}

/// Where nothing overflows, the bins of a frame hold what the roots contribute.
pub proof fn lemma_frame_yield<S: ParametricSurface>(
    s: ModelState,
    surface: S,
    instance_count: u32,
    threshold: int,
)
    requires
        s.wf(),
        MIN_THRESHOLD <= threshold <= MAX_THRESHOLD,
        instance_count * 128 <= MAX_PATCH_COUNT,
    ensures
        total_len(s.lod_stage(surface, instance_count, threshold).bins) == yield_sum(
            surface,
            threshold,
            root_patches(instance_count as nat),
            0,
        ),
{
    let seeded = s.seed(instance_count, threshold);
    lemma_seed_wf(s, instance_count, threshold);
    lemma_total_len_empty(seeded.bins);
    lemma2_to64();
    lemma_passes_yield(seeded, surface, instance_count as nat, PASS_COUNT as nat);
}

/// Threshold monotonicity of a frame. For thresholds `t1 < t2`, the bins hold
/// at least as many patches after a frame under `t1` as after a frame under
/// `t2`, for a model with so few instances that nothing can overflow and a
/// surface that always appears large under `t2`.
pub proof fn lemma_frame_threshold_monotone<S: ParametricSurface>(
    s: ModelState,
    surface: S,
    instance_count: u32,
    t1: int,
    t2: int,
)
    requires
        s.wf(),
        MIN_THRESHOLD <= t1 < t2 <= MAX_THRESHOLD,
        instance_count * 128 <= MAX_PATCH_COUNT,
        always_large(surface, t2),
    ensures
        total_len(s.lod_stage(surface, instance_count, t1).bins) >= total_len(
            s.lod_stage(surface, instance_count, t2).bins,
        ),
{
    lemma_frame_yield(s, surface, instance_count, t1);
    lemma_frame_yield(s, surface, instance_count, t2);
    lemma_root_patches_shallow(instance_count as nat);
    lemma_yield_sum_monotone(surface, t1, t2, root_patches(instance_count as nat), 0);
}

} // verus!
