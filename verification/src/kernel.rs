//! The decision the subdivision kernel takes for one patch.
//!
//! The kernel measures how large a patch appears on screen and then emits it
//! into a render bin, splits it in two, or discards it. Extents and the
//! threshold factor are fixed-point numbers in units of `1 / EXTENT_UNIT`.

use vstd::prelude::*;
use crate::limits::{BIN_COUNT, EXTENT_UNIT, MAX_THRESHOLD, MIN_THRESHOLD, spec_patch_size};
use crate::patch::Axis;

verus! {

/// Scalar that controls how far patches are subdivided before they are
/// rendered, kept within `[MIN_THRESHOLD, MAX_THRESHOLD]`.
#[derive(Clone, Copy, Debug)]
pub struct ThresholdFactor {
    raw: u64,
}

/// What the kernel measures of one patch after projecting it to the screen.
#[derive(Clone, Copy, Debug, PartialEq, Eq, Structural)]
pub struct PatchMeasure {
    /// Largest on-screen length of the edges that run along the `u` axis.
    pub extent_u: u64,
    /// Largest on-screen length of the edges that run along the `v` axis.
    pub extent_v: u64,
    /// The projected bounding rectangle lies wholly beyond one side of the
    /// clip volume.
    pub outside: bool,
}

/// What becomes of a patch in one pass.
#[derive(Clone, Copy, Debug, PartialEq, Eq, Structural)]
pub enum PatchFate {
    /// The patch goes to the render bin with this index.
    Emit(usize),
    /// The patch is split in two along this axis.
    Subdivide(Axis),
    /// The patch is dropped.
    Discard,
}

/// `value` limited to `[lo, hi]`.
pub open spec fn spec_clamp(value: int, lo: int, hi: int) -> int {
    if value < lo {
        lo
    } else if value > hi {
        hi
    } else {
        value
    }
}

/// The bin of the largest target size `S` with `S * unit <= extent`; the
/// smallest bin where no size fits.
pub open spec fn largest_bin_within(extent: int, unit: int) -> usize {
    if extent >= 32 * unit {
        4
    } else if extent >= 16 * unit {
        3
    } else if extent >= 8 * unit {
        2
    } else if extent >= 4 * unit {
        1
    } else {
        0
    }
}

/// `extent` lies in the acceptance band of bin `bin` under `threshold`:
/// at most `32 * threshold`, and between the bin's size and twice that size,
/// both multiplied by the threshold.
pub open spec fn in_band(extent: int, threshold: int, bin: int) -> bool {
    &&& 0 <= bin < BIN_COUNT
    &&& extent <= 32 * threshold
    &&& spec_patch_size(bin) * threshold <= extent < 2 * spec_patch_size(bin) * threshold
}

/// The kernel's decision for a patch with measure `m`.
pub open spec fn spec_classify(m: PatchMeasure, threshold: int, force: bool) -> PatchFate {
    let extent = m.screen_extent() as int;
    if force {
        PatchFate::Emit(largest_bin_within(extent, EXTENT_UNIT as int))
    } else if m.outside || extent == 0 {
        PatchFate::Discard
    } else if 2 * threshold <= extent <= 32 * threshold {
        PatchFate::Emit(largest_bin_within(extent, threshold))
    } else {
        PatchFate::Subdivide(m.split_axis())
    }
}

impl ThresholdFactor {
    /// The factor lies within its limits.
    #[verifier::type_invariant]
    pub closed spec fn wf(self) -> bool {
        MIN_THRESHOLD <= self.raw <= MAX_THRESHOLD
    }

    /// The factor in units of `1 / EXTENT_UNIT`.
    pub closed spec fn value(self) -> int {
        self.raw as int
    }

    /// The factor `ten_thousandths / EXTENT_UNIT`, clamped to the limits.
    pub fn new(ten_thousandths: u64) -> (t: ThresholdFactor)
        ensures
            t.wf(),
            t.value() == spec_clamp(
                ten_thousandths as int,
                MIN_THRESHOLD as int,
                MAX_THRESHOLD as int,
            ),
    {
        if ten_thousandths < MIN_THRESHOLD {
            ThresholdFactor { raw: MIN_THRESHOLD }
        } else if ten_thousandths > MAX_THRESHOLD {
            ThresholdFactor { raw: MAX_THRESHOLD }
        } else {
            ThresholdFactor { raw: ten_thousandths }
        }
    }

    /// The factor one, which is the default.
    pub fn one() -> (t: ThresholdFactor)
        ensures
            t.wf(),
            t.value() == EXTENT_UNIT,
    {
        ThresholdFactor { raw: EXTENT_UNIT }
    }

    /// The factor in units of `1 / EXTENT_UNIT`.
    pub fn get(&self) -> (raw: u64)
        ensures
            raw == self.value(),
            self.wf(),
            MIN_THRESHOLD <= raw <= MAX_THRESHOLD,
    {
        proof {
            use_type_invariant(self);
        }
        self.raw
    }

    /// A well-formed factor lies within its limits.
    pub proof fn lemma_range(self)
        requires
            self.wf(),
        ensures
            MIN_THRESHOLD <= self.value() <= MAX_THRESHOLD,
    {
    }
}

impl PatchMeasure {
    /// The longer of the two on-screen extents.
    pub open spec fn screen_extent(self) -> u64 {
        if self.extent_u >= self.extent_v {
            self.extent_u
        } else {
            self.extent_v
        }
    }

    /// The axis whose edges appear longer on screen; `U` on a tie.
    pub open spec fn split_axis(self) -> Axis {
        if self.extent_u >= self.extent_v {
            Axis::U
        } else {
            Axis::V
        }
    }
}

/// The bin of the largest target size `S` with `S * unit <= extent`, or the
/// smallest bin where no size fits.
pub fn select_bin(extent: u64, unit: u64) -> (bin: usize)
    requires
        unit <= MAX_THRESHOLD,
    ensures
        bin == largest_bin_within(extent as int, unit as int),
        bin < BIN_COUNT,
        forall|other: int|
            0 <= other < BIN_COUNT && spec_patch_size(other) * unit <= extent ==> other <= bin,
        extent >= 2 * unit ==> spec_patch_size(bin as int) * unit <= extent,
{
    if extent >= 32 * unit {
        4
    } else if extent >= 16 * unit {
        3
    } else if extent >= 8 * unit {
        2
    } else if extent >= 4 * unit {
        1
    } else {
        0
    }
}

/// Decides what becomes of a patch with measure `m`: on a forced pass it is
/// emitted whatever its size; otherwise it is discarded when out of view or
/// without extent, emitted when its extent lies in a bin's acceptance band,
/// and split along its longer axis in every other case.
pub fn classify(m: &PatchMeasure, threshold: &ThresholdFactor, force: bool) -> (fate: PatchFate)
    ensures
        fate == spec_classify(*m, threshold.value(), force),
        force ==> fate is Emit,
        fate matches PatchFate::Emit(bin) ==> bin < BIN_COUNT,
        !force ==> forall|bin: usize|
            bin < BIN_COUNT ==> (fate == PatchFate::Emit(bin) <==> !m.outside && #[trigger] in_band(
                m.screen_extent() as int,
                threshold.value(),
                bin as int,
            )),
{
    let t: u64 = threshold.get();
    proof {
        lemma_band_is_largest_bin(m.screen_extent() as int, t as int);
    }
    let extent: u64 = if m.extent_u >= m.extent_v {
        m.extent_u
    } else {
        m.extent_v
    };
    if force {
        PatchFate::Emit(select_bin(extent, EXTENT_UNIT))
    } else if m.outside || extent == 0 {
        PatchFate::Discard
    } else if 2 * t <= extent && extent <= 32 * t {
        PatchFate::Emit(select_bin(extent, t))
    } else if m.extent_u >= m.extent_v {
        PatchFate::Subdivide(Axis::U)
    } else {
        PatchFate::Subdivide(Axis::V)
    }
}

/// An extent lies in the acceptance band of exactly one bin when it is
/// between twice and 32 times the threshold, and that bin is the largest one
/// whose size, multiplied by the threshold, does not exceed the extent.
pub proof fn lemma_band_is_largest_bin(extent: int, threshold: int)
    requires
        threshold >= 1,
    ensures
        forall|bin: usize|
            bin < BIN_COUNT ==> (#[trigger] in_band(extent, threshold, bin as int) <==> 2 * threshold
                <= extent <= 32 * threshold && bin == largest_bin_within(extent, threshold)),
{
    assert forall|bin: usize| bin < BIN_COUNT implies (#[trigger] in_band(
        extent,
        threshold,
        bin as int,
    ) <==> 2 * threshold <= extent <= 32 * threshold && bin == largest_bin_within(
        extent,
        threshold,
    )) by {
        let size = spec_patch_size(bin as int);
        assert(size == 2 || size == 4 || size == 8 || size == 16 || size == 32);
        assert(size == 2 ==> size * threshold == 2 * threshold && 2 * size * threshold == 4
            * threshold) by (nonlinear_arith);
        assert(size == 4 ==> size * threshold == 4 * threshold && 2 * size * threshold == 8
            * threshold) by (nonlinear_arith);
        assert(size == 8 ==> size * threshold == 8 * threshold && 2 * size * threshold == 16
            * threshold) by (nonlinear_arith);
        assert(size == 16 ==> size * threshold == 16 * threshold && 2 * size * threshold == 32
            * threshold) by (nonlinear_arith);
        assert(size == 32 ==> size * threshold == 32 * threshold && 2 * size * threshold == 64
            * threshold) by (nonlinear_arith);
    }
}

/// Threshold monotonicity for one patch. Under a finer threshold a patch
/// looks at least as large: if the coarser threshold `t2` finds it too large
/// to render and splits it, so does the finer `t1`; and where both emit it,
/// the finer threshold picks a bin at least as large.
pub proof fn lemma_threshold_monotone(m: PatchMeasure, t1: int, t2: int)
    requires
        1 <= t1 <= t2,
    ensures
        spec_classify(m, t2, false) is Subdivide && m.screen_extent() >= 2 * t2 ==> spec_classify(
            m,
            t1,
            false,
        ) is Subdivide,
        spec_classify(m, t2, false) is Discard <==> spec_classify(m, t1, false) is Discard,
        forall|b1: usize, b2: usize|
            spec_classify(m, t1, false) == PatchFate::Emit(b1) && spec_classify(m, t2, false)
                == PatchFate::Emit(b2) ==> b1 >= b2,
{
}

} // verus!
