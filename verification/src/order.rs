//! What a pass counts does not depend on the order of its inputs.
//!
//! On the GPU the patches of a queue are worked on side by side, in no
//! particular order. The model of a pass takes them in queue order. The two
//! agree on every length and every count, because these depend only on how
//! many input patches meet each fate; the order decides no more than which
//! patches are dropped where a queue or a bin overflows.

use vstd::prelude::*;
use vstd::multiset::Multiset;
use crate::kernel::{PatchFate, spec_classify};
use crate::limits::BIN_COUNT;
use crate::pass::{
    PassAcc, bins_wf, lemma_deep_enough, lemma_kernel_accounting, run_kernel, total_len,
};
use crate::patch::EncodedPatch;
use crate::queue::{QueueModel, all_within_depth};
use crate::surface::ParametricSurface;

verus! {

/// Number of patches of `inputs` that satisfy `pred`.
pub open spec fn count_where(inputs: Seq<EncodedPatch>, pred: spec_fn(EncodedPatch) -> bool) -> nat
    decreases inputs.len(),
{
    if inputs.len() == 0 {
        0
    } else {
        count_where(inputs.drop_last(), pred) + if pred(inputs.last()) {
            1nat
        } else {
            0nat
        }
    }
}

/// The patches that the kernel splits.
pub open spec fn is_split<S: ParametricSurface>(surface: S, threshold: int, force: bool) -> spec_fn(
    EncodedPatch,
) -> bool {
    |p: EncodedPatch| spec_classify(surface.measured(p), threshold, force) is Subdivide
}

/// The patches that the kernel discards.
pub open spec fn is_culled<S: ParametricSurface>(surface: S, threshold: int, force: bool) -> spec_fn(
    EncodedPatch,
) -> bool {
    |p: EncodedPatch| spec_classify(surface.measured(p), threshold, force) is Discard
}

/// The patches that the kernel emits into bin `bin`.
pub open spec fn is_emitted_to<S: ParametricSurface>(
    surface: S,
    threshold: int,
    force: bool,
    bin: int,
) -> spec_fn(EncodedPatch) -> bool {
    |p: EncodedPatch| spec_classify(surface.measured(p), threshold, force) == PatchFate::Emit(bin as usize)
}

/// `len + more`, but no more than `capacity`.
pub open spec fn filled(capacity: nat, len: nat, more: nat) -> nat {
    if len + more <= capacity {
        len + more
    } else {
        capacity
    }
}

/// A count is the size of the filtered multiset of the inputs.
pub proof fn lemma_count_of_multiset(inputs: Seq<EncodedPatch>, pred: spec_fn(EncodedPatch) -> bool)
    ensures
        count_where(inputs, pred) == inputs.to_multiset().filter(pred).len(),
    decreases inputs.len(),
{
    broadcast use vstd::multiset::group_multiset_axioms;

    if inputs.len() == 0 {
        inputs.to_multiset_ensures();
        assert(inputs.to_multiset().filter(pred) =~= Multiset::<EncodedPatch>::empty());
    } else {
        let rest = inputs.drop_last();
        let last = inputs.last();
        lemma_count_of_multiset(rest, pred);
        assert(inputs =~= rest.push(last));
        vstd::seq_lib::to_multiset_build(rest, last);
        let m = rest.to_multiset();
        if pred(last) {
            assert(m.insert(last).filter(pred) =~= m.filter(pred).insert(last));
        } else {
            assert(m.insert(last).filter(pred) =~= m.filter(pred));
        }
    }
}

/// Two sequences with the same patches, in whatever order, have the same counts.
pub proof fn lemma_count_order_free(
    first: Seq<EncodedPatch>,
    second: Seq<EncodedPatch>,
    pred: spec_fn(EncodedPatch) -> bool,
)
    requires
        first.to_multiset() == second.to_multiset(),
    ensures
        count_where(first, pred) == count_where(second, pred),
{
    lemma_count_of_multiset(first, pred);
    lemma_count_of_multiset(second, pred);
}

/// Bins of equal lengths hold equally many patches in total.
pub proof fn lemma_total_len_by_lengths(a: Seq<QueueModel>, b: Seq<QueueModel>)
    requires
        a.len() == b.len(),
        forall|k: int| 0 <= k < a.len() ==> (#[trigger] a[k]).len() == b[k].len(),
    ensures
        total_len(a) == total_len(b),
    decreases a.len(),
{
    if a.len() > 0 {
        lemma_total_len_by_lengths(a.drop_last(), b.drop_last());
        assert(a.last().len() == b.last().len());
    }
}

/// The lengths after a pass, in closed form: the target queue takes two
/// children for every split until it is full, every bin takes the patches
/// emitted into it until it is full, and the counts of splits and of culled
/// patches are the numbers of inputs with those fates.
pub proof fn lemma_pass_lengths<S: ParametricSurface>(
    acc: PassAcc,
    inputs: Seq<EncodedPatch>,
    surface: S,
    threshold: int,
    force: bool,
)
    requires
        acc.next.wf(),
        bins_wf(acc.bins),
        all_within_depth(inputs, 30),
    ensures
        ({
            let r = run_kernel(acc, inputs, surface, threshold, force);
            &&& r.tally.subdivided == acc.tally.subdivided + count_where(
                inputs,
                is_split(surface, threshold, force),
            )
            &&& r.tally.culled == acc.tally.culled + count_where(
                inputs,
                is_culled(surface, threshold, force),
            )
            &&& r.next.len() == filled(
                acc.next.capacity,
                acc.next.len(),
                2 * count_where(inputs, is_split(surface, threshold, force)),
            )
            &&& forall|b: int|
                0 <= b < BIN_COUNT ==> (#[trigger] r.bins[b]).len() == filled(
                    acc.bins[b].capacity,
                    acc.bins[b].len(),
                    count_where(inputs, is_emitted_to(surface, threshold, force, b)),
                )
        }),
    decreases inputs.len(),
{
    if inputs.len() > 0 {
        let rest = inputs.drop_last();
        let patch = inputs.last();
        let before = run_kernel(acc, rest, surface, threshold, force);
        let fate = spec_classify(surface.measured(patch), threshold, force);
        let r = run_kernel(acc, inputs, surface, threshold, force);
        lemma_pass_lengths(acc, rest, surface, threshold, force);
        lemma_kernel_accounting(acc, rest, surface, threshold, force);
        assert(patch.valid() && patch.depth() <= 30);
        assert(is_split(surface, threshold, force)(patch) == (fate is Subdivide));
        assert(is_culled(surface, threshold, force)(patch) == (fate is Discard));
        assert forall|b: int| 0 <= b < BIN_COUNT implies (#[trigger] r.bins[b]).len() == filled(
            acc.bins[b].capacity,
            acc.bins[b].len(),
            count_where(inputs, is_emitted_to(surface, threshold, force, b)),
        ) by {
            assert(is_emitted_to(surface, threshold, force, b)(patch) == (fate == PatchFate::Emit(
                b as usize,
            )));
            assert(before.bins[b].len() == filled(
                acc.bins[b].capacity,
                acc.bins[b].len(),
                count_where(rest, is_emitted_to(surface, threshold, force, b)),
            ));
            assert(before.bins[b].capacity == acc.bins[b].capacity);
        }
        if fate is Subdivide {
            lemma_deep_enough(patch, fate->Subdivide_0);
        }
    }
}

/// Order independence of a pass: run over the same patches in two different
/// orders, the kernel ends with the same counts, the same length of the
/// target queue and the same length of every bin.
pub proof fn lemma_pass_order_free<S: ParametricSurface>(
    acc: PassAcc,
    first: Seq<EncodedPatch>,
    second: Seq<EncodedPatch>,
    surface: S,
    threshold: int,
    force: bool,
)
    requires
        acc.next.wf(),
        bins_wf(acc.bins),
        all_within_depth(first, 30),
        all_within_depth(second, 30),
        first.to_multiset() == second.to_multiset(),
    ensures
        ({
            let a = run_kernel(acc, first, surface, threshold, force);
            let b = run_kernel(acc, second, surface, threshold, force);
            &&& a.tally == b.tally
            &&& a.next.len() == b.next.len()
            &&& forall|k: int| 0 <= k < BIN_COUNT ==> (#[trigger] a.bins[k]).len() == b.bins[k].len()
        }),
{
    let a = run_kernel(acc, first, surface, threshold, force);
    let b = run_kernel(acc, second, surface, threshold, force);
    lemma_pass_lengths(acc, first, surface, threshold, force);
    lemma_pass_lengths(acc, second, surface, threshold, force);
    lemma_kernel_accounting(acc, first, surface, threshold, force);
    lemma_kernel_accounting(acc, second, surface, threshold, force);
    lemma_count_order_free(first, second, is_split(surface, threshold, force));
    lemma_count_order_free(first, second, is_culled(surface, threshold, force));
    assert forall|k: int| 0 <= k < BIN_COUNT implies (#[trigger] a.bins[k]).len()
        == b.bins[k].len() by {
        lemma_count_order_free(first, second, is_emitted_to(surface, threshold, force, k));
    }
    lemma_total_len_by_lengths(a.bins, b.bins);
    vstd::seq_lib::to_multiset_len(first);
    vstd::seq_lib::to_multiset_len(second);
}

} // verus!
