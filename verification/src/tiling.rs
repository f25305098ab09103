//! Subdividing patches keeps a tiling of the unit square.
//!
//! Points are counted in units of `1 / PARAM_ONE`. Patch boundaries are
//! multiples of that unit, so a set of patches is disjoint and covers the unit
//! square exactly when every such point lies in exactly one of them.

use vstd::prelude::*;
use vstd::arithmetic::power2::{pow2, lemma_pow2_unfold, lemma2_to64};
use crate::patch::{
    Axis, EncodedPatch, PARAM_ONE, code_depth, lemma_child_depth, lemma_depth_brackets,
    lemma_split_span,
};

verus! {

/// `(x, y)` is a point of the unit square.
pub open spec fn unit_point(x: int, y: int) -> bool {
    0 <= x < PARAM_ONE && 0 <= y < PARAM_ONE
}

/// Some patch of `patches` contains `(x, y)`.
pub open spec fn covered(patches: Seq<EncodedPatch>, x: int, y: int) -> bool {
    exists|j: int| 0 <= j < patches.len() && #[trigger] patches[j].contains(x, y)
}

/// The patches cover the whole unit square.
pub open spec fn covers_unit_square(patches: Seq<EncodedPatch>) -> bool {
    forall|x: int, y: int| #[trigger] unit_point(x, y) ==> covered(patches, x, y)
}

/// No point lies in two different patches.
pub open spec fn pairwise_disjoint(patches: Seq<EncodedPatch>) -> bool {
    forall|i: int, j: int, x: int, y: int|
        0 <= i < patches.len() && 0 <= j < patches.len() && i != j
            && #[trigger] patches[i].contains(x, y) ==> !#[trigger] patches[j].contains(x, y)
}

/// The patches are disjoint rectangles whose union is the unit square.
pub open spec fn tiles_unit_square(patches: Seq<EncodedPatch>) -> bool {
    covers_unit_square(patches) && pairwise_disjoint(patches)
}

/// Every patch replaced by its two halves along the axis that `axis` picks for it.
pub open spec fn subdivide_all(
    patches: Seq<EncodedPatch>,
    axis: spec_fn(EncodedPatch) -> Axis,
) -> Seq<EncodedPatch> {
    Seq::new(
        2 * patches.len(),
        |i: int| patches[i / 2].child(axis(patches[i / 2]), i % 2 == 1),
    )
}

/// The root patch of `instance` after `rounds` rounds of `subdivide_all`.
pub open spec fn subdivide_times(
    rounds: nat,
    instance: u32,
    axis: spec_fn(EncodedPatch) -> Axis,
) -> Seq<EncodedPatch>
    decreases rounds,
{
    if rounds == 0 {
        seq![EncodedPatch { u: 1, v: 1, instance }]
    } else {
        subdivide_all(subdivide_times((rounds - 1) as nat, instance, axis), axis)
    }
}

/// A point lies in a splittable patch exactly when it lies in one of its two
/// halves, and it never lies in both.
pub proof fn lemma_halves_partition(p: EncodedPatch, axis: Axis, x: int, y: int)
    requires
        p.splittable(axis),
    ensures
        p.contains(x, y) <==> (p.child(axis, false).contains(x, y) || p.child(axis, true).contains(
            x,
            y,
        )),
        !(p.child(axis, false).contains(x, y) && p.child(axis, true).contains(x, y)),
{
    lemma_split_span(p.code(axis));
}

/// The root patch alone tiles the unit square.
pub proof fn lemma_root_tiles(instance: u32)
    ensures
        tiles_unit_square(seq![EncodedPatch { u: 1, v: 1, instance }]),
{
    let s = seq![EncodedPatch { u: 1, v: 1, instance }];
    assert forall|x: int, y: int| #[trigger] unit_point(x, y) implies covered(s, x, y) by {
        assert(s[0].contains(x, y));
    }
}

/// Splitting every patch of a tiling in two gives a tiling of twice as many patches.
pub proof fn lemma_subdivide_all_tiles(
    patches: Seq<EncodedPatch>,
    axis: spec_fn(EncodedPatch) -> Axis,
)
    requires
        tiles_unit_square(patches),
        forall|j: int| 0 <= j < patches.len() ==> (#[trigger] patches[j]).splittable(axis(patches[j])),
    ensures
        subdivide_all(patches, axis).len() == 2 * patches.len(),
        tiles_unit_square(subdivide_all(patches, axis)),
{
    let next = subdivide_all(patches, axis);
    assert forall|x: int, y: int| #[trigger] unit_point(x, y) implies covered(next, x, y) by {
        assert(covered(patches, x, y));
        let j = choose|j: int| 0 <= j < patches.len() && #[trigger] patches[j].contains(x, y);
        lemma_halves_partition(patches[j], axis(patches[j]), x, y);
        if patches[j].child(axis(patches[j]), false).contains(x, y) {
            assert((2 * j) / 2 == j && (2 * j) % 2 == 0);
            assert(next[2 * j].contains(x, y));
        } else {
            assert((2 * j + 1) / 2 == j && (2 * j + 1) % 2 == 1);
            assert(next[2 * j + 1].contains(x, y));
        }
    }
    assert forall|i: int, j: int, x: int, y: int|
        0 <= i < next.len() && 0 <= j < next.len() && i != j && #[trigger] next[i].contains(
            x,
            y,
        ) implies !#[trigger] next[j].contains(x, y) by {
        let pi = patches[i / 2];
        let pj = patches[j / 2];
        lemma_halves_partition(pi, axis(pi), x, y);
        lemma_halves_partition(pj, axis(pj), x, y);
        if next[j].contains(x, y) {
            assert(pi.contains(x, y));
            assert(pj.contains(x, y));
            assert(i / 2 == j / 2);
            assert(i % 2 != j % 2);
        }
    }
}

/// Subdividing the root `rounds` times yields `2^rounds` disjoint rectangles
/// whose union is the unit square, whichever axis each split takes.
pub proof fn lemma_subdivision_tiles(
    rounds: nat,
    instance: u32,
    axis: spec_fn(EncodedPatch) -> Axis,
)
    requires
        rounds <= 31,
    ensures
        subdivide_times(rounds, instance, axis).len() == pow2(rounds),
        tiles_unit_square(subdivide_times(rounds, instance, axis)),
        forall|j: int|
            0 <= j < subdivide_times(rounds, instance, axis).len() ==> {
                let p = #[trigger] subdivide_times(rounds, instance, axis)[j];
                p.valid() && p.depth() == rounds && p.instance == instance
            },
    decreases rounds,
{
    lemma2_to64();
    if rounds == 0 {
        lemma_root_tiles(instance);
    } else {
        let prev = subdivide_times((rounds - 1) as nat, instance, axis);
        let next = subdivide_all(prev, axis);
        lemma_subdivision_tiles((rounds - 1) as nat, instance, axis);
        lemma_pow2_unfold(rounds);
        assert forall|j: int| 0 <= j < prev.len() implies (#[trigger] prev[j]).splittable(
            axis(prev[j]),
        ) by {
            lemma_shallow_code_splittable(prev[j].code(axis(prev[j])));
        }
        lemma_subdivide_all_tiles(prev, axis);
        assert forall|j: int| 0 <= j < next.len() implies ({
            let p = #[trigger] next[j];
            p.valid() && p.depth() == rounds && p.instance == instance
        }) by {
            let parent = prev[j / 2];
            lemma_child_depth(parent.code(axis(parent)));
        }
    }
}

/// A code that records at most 30 subdivisions can be split once more.
pub proof fn lemma_shallow_code_splittable(code: u32)
    requires
        code >= 1,
        code_depth(code as nat) <= 30,
    ensures
        1 <= code < PARAM_ONE,
{
    lemma2_to64();
    lemma_depth_brackets(code as nat);
    let d = code_depth(code as nat);
    if d < 30 {
        vstd::arithmetic::power2::lemma_pow2_strictly_increases(d + 1, 31);
    }
}

} // verus!
