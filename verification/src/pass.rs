//! One subdivision pass over a work queue.
//!
//! A pass takes every patch of its source queue, lets the kernel decide its
//! fate, and appends the outcome to the target queue or to a render bin.
//! Patches are taken in queue order; when a queue or bin is full, further
//! patches for it are dropped and only counted.

use vstd::prelude::*;
use crate::kernel::{PatchFate, ThresholdFactor, classify, spec_classify};
use crate::limits::BIN_COUNT;
use crate::patch::{Axis, EncodedPatch, lemma_child_depth};
use crate::queue::{PatchQueue, QueueModel, RenderBin, all_valid, all_within_depth};
use crate::surface::ParametricSurface;

verus! {

/// Counts of what a pass did with its input patches.
pub struct PassTally {
    /// Input patches that were split in two.
    pub subdivided: nat,
    /// Input patches that a render bin took.
    pub emitted: nat,
    /// Input patches bound for a render bin that was full.
    pub bin_dropped: nat,
    /// Input patches discarded as out of view or without extent.
    pub culled: nat,
    /// Children that the target queue took.
    pub enqueued: nat,
    /// Children dropped because the target queue was full.
    pub queue_dropped: nat,
}

/// Counts of what a pass did with its input patches.
#[derive(Clone, Copy, Debug, PartialEq, Eq, Structural)]
pub struct PassReport {
    pub subdivided: u32,
    pub emitted: u32,
    pub bin_dropped: u32,
    pub culled: u32,
    pub enqueued: u32,
    pub queue_dropped: u32,
}

/// What a pass has produced so far: the target queue, the render bins and
/// the counts.
pub struct PassAcc {
    pub next: QueueModel,
    pub bins: Seq<QueueModel>,
    pub tally: PassTally,
}

/// The models of a vector of bins.
pub open spec fn bins_view(bins: Seq<RenderBin>) -> Seq<QueueModel> {
    Seq::new(bins.len(), |b: int| bins[b]@)
}

/// There are `BIN_COUNT` bins, none longer than its capacity, and all their
/// patches are valid.
pub open spec fn bins_wf(bins: Seq<QueueModel>) -> bool {
    &&& bins.len() == BIN_COUNT
    &&& forall|b: int| 0 <= b < bins.len() ==> (#[trigger] bins[b]).wf() && all_valid(bins[b].patches)
}

/// Number of patches in all bins together.
pub open spec fn total_len(bins: Seq<QueueModel>) -> nat
    decreases bins.len(),
{
    if bins.len() == 0 {
        0
    } else {
        total_len(bins.drop_last()) + bins.last().len()
    }
}

impl PassTally {
    /// No patch seen yet.
    pub open spec fn zero() -> PassTally {
        PassTally {
            subdivided: 0,
            emitted: 0,
            bin_dropped: 0,
            culled: 0,
            enqueued: 0,
            queue_dropped: 0,
        }
    }

    /// Number of input patches accounted for.
    pub open spec fn inputs(self) -> nat {
        self.subdivided + self.emitted + self.bin_dropped + self.culled
    }
}

impl View for PassReport {
    type V = PassTally;

    open spec fn view(&self) -> PassTally {
        PassTally {
            subdivided: self.subdivided as nat,
            emitted: self.emitted as nat,
            bin_dropped: self.bin_dropped as nat,
            culled: self.culled as nat,
            enqueued: self.enqueued as nat,
            queue_dropped: self.queue_dropped as nat,
        }
    }
}

impl PassReport {
    /// Number of input patches the pass consumed.
    pub fn inputs(&self) -> (n: u64)
        ensures
            n == self@.inputs(),
    {
        self.subdivided as u64 + self.emitted as u64 + self.bin_dropped as u64 + self.culled as u64
    }
}

/// A patch is emitted into bin `bin`, or dropped when that bin is full.
pub open spec fn emit(acc: PassAcc, bin: int, patch: EncodedPatch) -> PassAcc {
    if acc.bins[bin].is_full() {
        PassAcc { tally: PassTally { bin_dropped: acc.tally.bin_dropped + 1, ..acc.tally }, ..acc }
    } else {
        PassAcc {
            bins: acc.bins.update(bin, acc.bins[bin].push(patch)),
            tally: PassTally { emitted: acc.tally.emitted + 1, ..acc.tally },
            ..acc
        }
    }
}

/// A child is appended to the target queue, or dropped when the queue is full.
pub open spec fn enqueue(acc: PassAcc, patch: EncodedPatch) -> PassAcc {
    if acc.next.is_full() {
        PassAcc {
            tally: PassTally { queue_dropped: acc.tally.queue_dropped + 1, ..acc.tally },
            ..acc
        }
    } else {
        PassAcc {
            next: acc.next.push(patch),
            tally: PassTally { enqueued: acc.tally.enqueued + 1, ..acc.tally },
            ..acc
        }
    }
}

/// The kernel's work on one patch whose fate is decided.
pub open spec fn kernel_step(acc: PassAcc, patch: EncodedPatch, fate: PatchFate) -> PassAcc {
    match fate {
        PatchFate::Emit(bin) => emit(acc, bin as int, patch),
        PatchFate::Subdivide(axis) => {
            let halves = enqueue(enqueue(acc, patch.child(axis, false)), patch.child(axis, true));
            PassAcc {
                tally: PassTally { subdivided: halves.tally.subdivided + 1, ..halves.tally },
                ..halves
            }
        },
        PatchFate::Discard => PassAcc {
            tally: PassTally { culled: acc.tally.culled + 1, ..acc.tally },
            ..acc
        },
    }
}

/// The kernel run over `inputs` in order, starting from `acc`.
pub open spec fn run_kernel<S: ParametricSurface>(
    acc: PassAcc,
    inputs: Seq<EncodedPatch>,
    surface: S,
    threshold: int,
    force: bool,
) -> PassAcc
    decreases inputs.len(),
{
    if inputs.len() == 0 {
        acc
    } else {
        let before = run_kernel(acc, inputs.drop_last(), surface, threshold, force);
        let patch = inputs.last();
        kernel_step(before, patch, spec_classify(surface.measured(patch), threshold, force))
    }
}

/// Runs the kernel over `inputs`: every patch is measured on `surface`,
/// classified under `threshold`, and emitted into a bin, split into `next`,
/// or discarded. On a forced pass every patch is emitted.
pub fn run_pass<S: ParametricSurface>(
    inputs: &Vec<EncodedPatch>,
    next: &mut PatchQueue,
    bins: &mut Vec<RenderBin>,
    surface: &S,
    threshold: &ThresholdFactor,
    force: bool,
) -> (report: PassReport)
    requires
        inputs@.len() <= 0x3fff_ffff,
        all_within_depth(inputs@, 30),
        old(next)@.wf(),
        bins_wf(bins_view(old(bins)@)),
    ensures
        (PassAcc { next: final(next)@, bins: bins_view(final(bins)@), tally: report@ })
            == run_kernel(
            PassAcc { next: old(next)@, bins: bins_view(old(bins)@), tally: PassTally::zero() },
            inputs@,
            *surface,
            threshold.value(),
            force,
        ),
        final(next)@.wf(),
        bins_wf(bins_view(final(bins)@)),
{
    let mut report = PassReport {
        subdivided: 0,
        emitted: 0,
        bin_dropped: 0,
        culled: 0,
        enqueued: 0,
        queue_dropped: 0,
    };
    let ghost start = PassAcc {
        next: next@,
        bins: bins_view(bins@),
        tally: PassTally::zero(),
    };
    let mut i: usize = 0;
    while i < inputs.len()
        invariant
            i <= inputs@.len() <= 0x3fff_ffff,
            all_within_depth(inputs@, 30),
            next@.wf(),
            bins_wf(bins_view(bins@)),
            report@.inputs() == i,
            report@.enqueued + report@.queue_dropped == 2 * report@.subdivided,
            (PassAcc { next: next@, bins: bins_view(bins@), tally: report@ }) == run_kernel(
                start,
                inputs@.take(i as int),
                *surface,
                threshold.value(),
                force,
            ),
        decreases inputs@.len() - i,
    {
        let patch: EncodedPatch = inputs[i];
        let ghost before = PassAcc { next: next@, bins: bins_view(bins@), tally: report@ };
        proof {
            assert(inputs@.take(i + 1).drop_last() =~= inputs@.take(i as int));
            assert(inputs@.take(i + 1).last() == patch);
            assert(inputs@[i as int].valid());
        }
        let m = surface.measure(&patch);
        let fate = classify(&m, threshold, force);
        match fate {
            PatchFate::Emit(bin) => {
                assert(bins_view(bins@)[bin as int].wf());
                let taken: bool = bins[bin].push(patch);
                if taken {
                    report.emitted = report.emitted + 1;
                } else {
                    report.bin_dropped = report.bin_dropped + 1;
                }
                proof {
                    assert(bins_view(bins@) =~= emit(before, bin as int, patch).bins);
                }
            },
            PatchFate::Subdivide(axis) => {
                proof {
                    lemma_deep_enough(patch, axis);
                }
                let (lower, upper) = patch.split(axis);
                let took_lower: bool = next.push(lower);
                if took_lower {
                    report.enqueued = report.enqueued + 1;
                } else {
                    report.queue_dropped = report.queue_dropped + 1;
                }
                let took_upper: bool = next.push(upper);
                if took_upper {
                    report.enqueued = report.enqueued + 1;
                } else {
                    report.queue_dropped = report.queue_dropped + 1;
                }
                report.subdivided = report.subdivided + 1;
            },
            PatchFate::Discard => {
                report.culled = report.culled + 1;
            },
        }
        i = i + 1;
    }
    proof {
        assert(inputs@.take(inputs@.len() as int) =~= inputs@);
    }
    report
}

/// A valid patch at most 30 subdivisions deep can be split along either axis.
pub proof fn lemma_deep_enough(patch: EncodedPatch, axis: Axis)
    requires
        patch.valid(),
        patch.depth() <= 30,
    ensures
        patch.splittable(axis),
{
    crate::tiling::lemma_shallow_code_splittable(patch.code(axis));
}

/// Replacing one bin changes the total by the change of that bin's length.
pub proof fn lemma_total_len_update(bins: Seq<QueueModel>, bin: int, replacement: QueueModel)
    requires
        0 <= bin < bins.len(),
    ensures
        total_len(bins.update(bin, replacement)) + bins[bin].len() == total_len(bins)
            + replacement.len(),
    decreases bins.len(),
{
    let updated = bins.update(bin, replacement);
    if bin == bins.len() - 1 {
        assert(updated.drop_last() =~= bins.drop_last());
    } else {
        assert(updated.drop_last() =~= bins.drop_last().update(bin, replacement));
        lemma_total_len_update(bins.drop_last(), bin, replacement);
    }
}

/// No bin holds more than its capacity, so all bins together hold at most the
/// sum of their capacities.
pub proof fn lemma_total_len_bound(bins: Seq<QueueModel>, capacity: nat)
    requires
        forall|b: int| 0 <= b < bins.len() ==> (#[trigger] bins[b]).wf() && bins[b].capacity == capacity,
    ensures
        total_len(bins) <= bins.len() * capacity,
    decreases bins.len(),
{
    if bins.len() > 0 {
        lemma_total_len_bound(bins.drop_last(), capacity);
        assert(bins.last().len() <= capacity);
        assert((bins.len() - 1) * capacity + capacity == bins.len() * capacity)
            by (nonlinear_arith);
    } else {
        assert(0 * capacity == 0) by (nonlinear_arith);
    }
}

/// Bins without patches hold nothing in total.
pub proof fn lemma_total_len_empty(bins: Seq<QueueModel>)
    requires
        forall|b: int| 0 <= b < bins.len() ==> (#[trigger] bins[b]).len() == 0,
    ensures
        total_len(bins) == 0,
    decreases bins.len(),
{
    if bins.len() > 0 {
        lemma_total_len_empty(bins.drop_last());
    }
}

/// What one kernel step keeps and how it moves the counts: exactly one input
/// is accounted for, a split accounts for two children, the target queue
/// grows by the children it took and the bins by the patch they took.
pub proof fn lemma_step_accounting(acc: PassAcc, patch: EncodedPatch, fate: PatchFate)
    requires
        acc.next.wf(),
        bins_wf(acc.bins),
        fate matches PatchFate::Emit(bin) ==> bin < BIN_COUNT,
        patch.valid(),
        fate matches PatchFate::Subdivide(axis) ==> patch.splittable(axis),
    ensures
        ({
            let r = kernel_step(acc, patch, fate);
            &&& r.next.wf()
            &&& bins_wf(r.bins)
            &&& r.next.capacity == acc.next.capacity
            &&& forall|b: int| 0 <= b < BIN_COUNT ==> (#[trigger] r.bins[b]).capacity == acc.bins[b].capacity
            &&& r.tally.inputs() == acc.tally.inputs() + 1
            &&& r.tally.enqueued + r.tally.queue_dropped == acc.tally.enqueued
                + acc.tally.queue_dropped + 2 * (r.tally.subdivided - acc.tally.subdivided)
            &&& r.next.len() == acc.next.len() + (r.tally.enqueued - acc.tally.enqueued)
            &&& total_len(r.bins) == total_len(acc.bins) + (r.tally.emitted - acc.tally.emitted)
            &&& r.tally.subdivided >= acc.tally.subdivided
            &&& r.tally.emitted >= acc.tally.emitted
            &&& r.tally.enqueued >= acc.tally.enqueued
            &&& acc.next.patches.is_prefix_of(r.next.patches)
        }),
{
    match fate {
        PatchFate::Emit(bin) => {
            if !acc.bins[bin as int].is_full() {
                lemma_total_len_update(acc.bins, bin as int, acc.bins[bin as int].push(patch));
            }
        },
        PatchFate::Subdivide(axis) => {
            lemma_child_depth(patch.code(axis));
        },
        PatchFate::Discard => {},
    }
}

/// Mass conservation of a pass. Every input patch is split, emitted, dropped
/// at a full bin, or culled; every split accounts for two children, each taken
/// by the target queue or dropped at its capacity; the target queue grows by
/// the children it took, and the bins by the patches they took.
pub proof fn lemma_kernel_accounting<S: ParametricSurface>(
    acc: PassAcc,
    inputs: Seq<EncodedPatch>,
    surface: S,
    threshold: int,
    force: bool,
)
    requires
        acc.next.wf(),
        bins_wf(acc.bins),
        all_within_depth(inputs, 30),
    ensures
        ({
            let r = run_kernel(acc, inputs, surface, threshold, force);
            &&& r.next.wf()
            &&& bins_wf(r.bins)
            &&& r.next.capacity == acc.next.capacity
            &&& forall|b: int| 0 <= b < BIN_COUNT ==> (#[trigger] r.bins[b]).capacity == acc.bins[b].capacity
            &&& r.tally.inputs() == acc.tally.inputs() + inputs.len()
            &&& r.tally.enqueued + r.tally.queue_dropped == acc.tally.enqueued
                + acc.tally.queue_dropped + 2 * (r.tally.subdivided - acc.tally.subdivided)
            &&& r.next.len() == acc.next.len() + (r.tally.enqueued - acc.tally.enqueued)
            &&& total_len(r.bins) == total_len(acc.bins) + (r.tally.emitted - acc.tally.emitted)
            &&& r.tally.subdivided >= acc.tally.subdivided
            &&& r.tally.emitted >= acc.tally.emitted
            &&& r.tally.enqueued >= acc.tally.enqueued
            &&& acc.next.patches.is_prefix_of(r.next.patches)
        }),
    decreases inputs.len(),
{
    if inputs.len() > 0 {
        let before = run_kernel(acc, inputs.drop_last(), surface, threshold, force);
        let patch = inputs.last();
        let fate = spec_classify(surface.measured(patch), threshold, force);
        lemma_kernel_accounting(acc, inputs.drop_last(), surface, threshold, force);
        assert(patch.valid() && patch.depth() <= 30);
        if fate is Subdivide {
            lemma_deep_enough(patch, fate->Subdivide_0);
        }
        lemma_step_accounting(before, patch, fate);
    }
}

/// A forced pass emits every input patch: none is culled, none is split, and
/// the target queue stays as it was.
pub proof fn lemma_forced_pass_emits_all<S: ParametricSurface>(
    acc: PassAcc,
    inputs: Seq<EncodedPatch>,
    surface: S,
    threshold: int,
)
    ensures
        ({
            let r = run_kernel(acc, inputs, surface, threshold, true);
            &&& r.next == acc.next
            &&& r.tally.subdivided == acc.tally.subdivided
            &&& r.tally.culled == acc.tally.culled
            &&& r.tally.enqueued == acc.tally.enqueued
            &&& r.tally.queue_dropped == acc.tally.queue_dropped
        }),
    decreases inputs.len(),
{
    if inputs.len() > 0 {
        lemma_forced_pass_emits_all(acc, inputs.drop_last(), surface, threshold);
    }
}

/// Children are one level deeper than their parents: when every input is at
/// most `bound` deep, every patch of the target queue is at most `bound + 1`
/// deep.
pub proof fn lemma_kernel_depth<S: ParametricSurface>(
    acc: PassAcc,
    inputs: Seq<EncodedPatch>,
    surface: S,
    threshold: int,
    force: bool,
    bound: nat,
)
    requires
        bound <= 30,
        all_within_depth(inputs, bound),
        all_within_depth(acc.next.patches, bound + 1),
    ensures
        all_within_depth(run_kernel(acc, inputs, surface, threshold, force).next.patches, bound + 1),
    decreases inputs.len(),
{
    if inputs.len() > 0 {
        let before = run_kernel(acc, inputs.drop_last(), surface, threshold, force);
        let patch = inputs.last();
        let fate = spec_classify(surface.measured(patch), threshold, force);
        lemma_kernel_depth(acc, inputs.drop_last(), surface, threshold, force, bound);
        assert(patch.valid() && patch.depth() <= bound);
        if fate is Subdivide {
            let axis = fate->Subdivide_0;
            lemma_deep_enough(patch, axis);
            lemma_child_depth(patch.code(axis));
        }
    }
}

} // verus!
