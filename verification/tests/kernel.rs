use parametric_lod::kernel::{classify, select_bin, PatchFate, PatchMeasure, ThresholdFactor};
use parametric_lod::limits::{
    mesh_splits, patch_size, EXTENT_UNIT, MAX_THRESHOLD, MIN_THRESHOLD, PATCH_SIZES,
};
use parametric_lod::patch::Axis;

fn measure(extent_u: u64, extent_v: u64) -> PatchMeasure {
    PatchMeasure { extent_u, extent_v, outside: false }
}

fn px(pixels: u64) -> u64 {
    pixels * EXTENT_UNIT
}

#[test]
fn threshold_factor_is_clamped_to_its_limits() {
    assert_eq!(ThresholdFactor::new(0).get(), MIN_THRESHOLD);
    assert_eq!(ThresholdFactor::new(1).get(), 1);
    assert_eq!(ThresholdFactor::new(25_000).get(), 25_000);
    assert_eq!(ThresholdFactor::new(MAX_THRESHOLD).get(), MAX_THRESHOLD);
    assert_eq!(ThresholdFactor::new(MAX_THRESHOLD + 1).get(), MAX_THRESHOLD);
    assert_eq!(ThresholdFactor::new(u64::MAX).get(), 1_000_000_000);
    assert_eq!(ThresholdFactor::one().get(), 10_000);
}

#[test]
fn patch_sizes_and_mesh_splits_by_bin() {
    assert_eq!(PATCH_SIZES, [2, 4, 8, 16, 32]);
    let sizes: Vec<u32> = (0..5).map(patch_size).collect();
    assert_eq!(sizes, vec![2, 4, 8, 16, 32]);
    let splits: Vec<u32> = (0..5).map(mesh_splits).collect();
    assert_eq!(splits, vec![0, 1, 3, 7, 15]);
}

#[test]
fn select_bin_takes_the_largest_size_that_fits() {
    assert_eq!(select_bin(0, 1), 0);
    assert_eq!(select_bin(1, 1), 0);
    assert_eq!(select_bin(3, 1), 0);
    assert_eq!(select_bin(4, 1), 1);
    assert_eq!(select_bin(7, 1), 1);
    assert_eq!(select_bin(8, 1), 2);
    assert_eq!(select_bin(16, 1), 3);
    assert_eq!(select_bin(31, 1), 3);
    assert_eq!(select_bin(32, 1), 4);
    assert_eq!(select_bin(u64::MAX, 1), 4);
    assert_eq!(select_bin(px(16) - 1, EXTENT_UNIT), 2);
}

#[test]
fn forced_pass_emits_whatever_the_measure() {
    let t = ThresholdFactor::new(5 * EXTENT_UNIT);
    assert_eq!(classify(&measure(0, 0), &t, true), PatchFate::Emit(0));
    assert_eq!(classify(&measure(px(1), px(1)), &t, true), PatchFate::Emit(0));
    assert_eq!(classify(&measure(px(9), px(3)), &t, true), PatchFate::Emit(2));
    assert_eq!(classify(&measure(px(5), px(40)), &t, true), PatchFate::Emit(4));
    let hidden = PatchMeasure { extent_u: px(20), extent_v: px(20), outside: true };
    assert_eq!(classify(&hidden, &t, true), PatchFate::Emit(3));
}

#[test]
fn patches_out_of_view_or_without_extent_are_discarded() {
    let t = ThresholdFactor::one();
    let hidden = PatchMeasure { extent_u: px(20), extent_v: px(20), outside: true };
    assert_eq!(classify(&hidden, &t, false), PatchFate::Discard);
    assert_eq!(classify(&measure(0, 0), &t, false), PatchFate::Discard);
}

#[test]
fn acceptance_bands_at_threshold_one() {
    let t = ThresholdFactor::one();
    assert_eq!(classify(&measure(px(2), px(1)), &t, false), PatchFate::Emit(0));
    assert_eq!(classify(&measure(px(4) - 1, 0), &t, false), PatchFate::Emit(0));
    assert_eq!(classify(&measure(px(4), 0), &t, false), PatchFate::Emit(1));
    assert_eq!(classify(&measure(0, px(8)), &t, false), PatchFate::Emit(2));
    assert_eq!(classify(&measure(px(16), px(16)), &t, false), PatchFate::Emit(3));
    assert_eq!(classify(&measure(px(32) - 1, 0), &t, false), PatchFate::Emit(3));
    assert_eq!(classify(&measure(px(32), 0), &t, false), PatchFate::Emit(4));
}

#[test]
fn extents_beside_the_bands_are_subdivided_along_the_longer_axis() {
    let t = ThresholdFactor::one();
    assert_eq!(classify(&measure(px(32) + 1, px(2)), &t, false), PatchFate::Subdivide(Axis::U));
    assert_eq!(classify(&measure(px(2), px(64)), &t, false), PatchFate::Subdivide(Axis::V));
    assert_eq!(classify(&measure(px(100), px(100)), &t, false), PatchFate::Subdivide(Axis::U));
    assert_eq!(classify(&measure(px(2) - 1, 1), &t, false), PatchFate::Subdivide(Axis::U));
    assert_eq!(classify(&measure(1, px(1)), &t, false), PatchFate::Subdivide(Axis::V));
}

#[test]
fn bands_scale_with_the_threshold() {
    let t = ThresholdFactor::new(2 * EXTENT_UNIT);
    assert_eq!(classify(&measure(px(64), px(64)), &t, false), PatchFate::Emit(4));
    assert_eq!(classify(&measure(px(63), px(63)), &t, false), PatchFate::Emit(3));
    assert_eq!(classify(&measure(px(4), px(4)), &t, false), PatchFate::Emit(0));
    assert_eq!(classify(&measure(px(3), px(3)), &t, false), PatchFate::Subdivide(Axis::U));
    assert_eq!(classify(&measure(px(65), px(3)), &t, false), PatchFate::Subdivide(Axis::U));
    let fine = ThresholdFactor::new(EXTENT_UNIT / 2);
    assert_eq!(classify(&measure(px(16), px(16)), &fine, false), PatchFate::Emit(4));
    assert_eq!(classify(&measure(px(1), px(1)), &fine, false), PatchFate::Emit(0));
}
