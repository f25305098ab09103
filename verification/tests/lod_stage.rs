use parametric_lod::kernel::{PatchMeasure, ThresholdFactor};
use parametric_lod::limits::{BIN_COUNT, EXTENT_UNIT, MAX_PATCH_COUNT, PASS_COUNT};
use parametric_lod::model::VirtualModel;
use parametric_lod::pass::PassReport;
use parametric_lod::patch::EncodedPatch;
use parametric_lod::surface::{ParametricSurface, ScreenQuad};

fn new_model() -> VirtualModel {
    VirtualModel::new([6, 24, 96, 384, 1536])
}

fn bin_lengths(model: &VirtualModel) -> Vec<u32> {
    (0..BIN_COUNT).map(|b| model.bin_len(b)).collect()
}

fn quad(pixels: u64) -> ScreenQuad {
    ScreenQuad { width: pixels * EXTENT_UNIT, height: pixels * EXTENT_UNIT, in_view: true }
}

#[test]
fn unit_quad_at_threshold_one_fills_bin_32_with_an_8_by_8_grid() {
    let mut model = new_model();
    let reports = model.lod_stage(&quad(256), 1, ThresholdFactor::one());
    assert_eq!(bin_lengths(&model), vec![0, 0, 0, 0, 64]);
    assert_eq!(model.draw(4).instance_count, 64);
    assert_eq!(reports.len(), PASS_COUNT as usize);
    let mut cells = vec![false; 64];
    for patch in model.bin(4).patches() {
        let rect = patch.decode();
        let side = 0x8000_0000u32 / 8;
        assert_eq!(rect.u.hi - rect.u.lo, side);
        assert_eq!(rect.v.hi - rect.v.lo, side);
        let cell = (rect.u.lo / side) * 8 + rect.v.lo / side;
        assert!(!cells[cell as usize]);
        cells[cell as usize] = true;
    }
    assert!(cells.iter().all(|c| *c));
}

#[test]
fn unit_quad_at_threshold_two_fills_bin_32_with_a_4_by_4_grid() {
    let mut model = new_model();
    model.lod_stage(&quad(256), 1, ThresholdFactor::new(2 * EXTENT_UNIT));
    assert_eq!(bin_lengths(&model), vec![0, 0, 0, 0, 16]);
    assert_eq!(model.draw(4).instance_count, 16);
}

#[test]
fn no_instances_leave_all_bins_empty() {
    let mut model = new_model();
    let reports = model.lod_stage(&quad(256), 0, ThresholdFactor::one());
    assert_eq!(bin_lengths(&model), vec![0; 5]);
    for b in 0..BIN_COUNT {
        assert_eq!(model.draw(b).instance_count, 0);
    }
    for report in reports {
        assert_eq!(report.inputs(), 0);
    }
    assert_eq!(model.queue(0).len(), 0);
    assert_eq!(model.queue(1).len(), 0);
}

#[test]
fn instances_out_of_view_are_culled_in_the_first_pass() {
    let mut model = new_model();
    let hidden = ScreenQuad { width: 256 * EXTENT_UNIT, height: 256 * EXTENT_UNIT, in_view: false };
    let reports = model.lod_stage(&hidden, 10, ThresholdFactor::one());
    assert_eq!(bin_lengths(&model), vec![0; 5]);
    assert_eq!(reports[0].culled, 10);
    assert_eq!(reports[0].inputs(), 10);
    for report in &reports[1..] {
        assert_eq!(report.inputs(), 0);
    }
}

#[test]
fn instance_count_above_capacity_seeds_the_first_roots_only() {
    let mut model = new_model();
    let seeded = model.seed(200_000, ThresholdFactor::one());
    assert_eq!(seeded, MAX_PATCH_COUNT);
    assert_eq!(model.queue(0).len(), MAX_PATCH_COUNT);
    assert_eq!(model.queue(0).get(0).instance, 0);
    assert_eq!(model.queue(0).get(MAX_PATCH_COUNT - 1).instance, MAX_PATCH_COUNT - 1);
    assert_eq!(model.dispatch(0).x, 200_000);
    assert_eq!((model.dispatch(0).y, model.dispatch(0).z), (1, 1));
}

#[test]
fn overflowing_frame_drops_patches_and_stays_within_capacity() {
    let mut model = new_model();
    let reports = model.lod_stage(&quad(256), 200_000, ThresholdFactor::one());
    let first: PassReport = reports[0];
    assert_eq!(first.inputs(), MAX_PATCH_COUNT as u64);
    assert_eq!(first.subdivided, MAX_PATCH_COUNT);
    assert_eq!(first.enqueued, MAX_PATCH_COUNT);
    assert_eq!(first.queue_dropped, MAX_PATCH_COUNT);
    for b in 0..BIN_COUNT {
        assert!(model.bin_len(b) <= MAX_PATCH_COUNT);
        assert_eq!(model.draw(b).instance_count, model.bin_len(b));
    }
    assert_eq!(model.queue(0).len(), 0);
    assert_eq!(model.queue(1).len(), 0);
    assert!(!model.force_render());
}

#[test]
fn every_pass_accounts_for_its_inputs() {
    let mut model = new_model();
    let surface = ScreenQuad { width: 300 * EXTENT_UNIT, height: 70 * EXTENT_UNIT, in_view: true };
    let reports = model.lod_stage(&surface, 3, ThresholdFactor::one());
    let mut expected_inputs: u64 = 3;
    let mut emitted: u64 = 0;
    for report in &reports {
        assert_eq!(report.inputs(), expected_inputs);
        assert_eq!(report.enqueued + report.queue_dropped, 2 * report.subdivided);
        expected_inputs = report.enqueued as u64;
        emitted += report.emitted as u64;
    }
    assert_eq!(expected_inputs, 0);
    let total: u64 = bin_lengths(&model).iter().map(|n| *n as u64).sum();
    assert_eq!(total, emitted);
}

#[test]
fn second_frame_with_frozen_inputs_repeats_the_first() {
    let mut model = new_model();
    let surface = ScreenQuad { width: 500 * EXTENT_UNIT, height: 90 * EXTENT_UNIT, in_view: true };
    model.lod_stage(&surface, 7, ThresholdFactor::new(15_000));
    let first = bin_lengths(&model);
    let first_bin: Vec<_> = model.bin(3).patches().clone();
    model.lod_stage(&surface, 7, ThresholdFactor::new(15_000));
    assert_eq!(bin_lengths(&model), first);
    assert_eq!(model.bin(3).patches(), &first_bin);
}

#[test]
fn forced_pass_emits_what_is_left() {
    // A quad so large that eight passes cannot bring it below the band.
    let mut model = new_model();
    let reports = model.lod_stage(&quad(100_000), 1, ThresholdFactor::one());
    let last = reports[PASS_COUNT as usize - 1];
    assert_eq!(last.inputs(), 128);
    assert_eq!(last.emitted, 128);
    assert_eq!(last.subdivided, 0);
    assert_eq!(bin_lengths(&model), vec![0, 0, 0, 0, 128]);
    assert_eq!(model.queue(0).len(), 0);
    assert_eq!(model.queue(1).len(), 0);
}

#[test]
fn finer_threshold_yields_at_least_as_many_patches() {
    let surface = ScreenQuad { width: 3000 * EXTENT_UNIT, height: 2000 * EXTENT_UNIT, in_view: true };
    let mut previous: Option<u32> = None;
    for tenths in [5u64, 10, 15, 20, 40] {
        let mut model = new_model();
        model.lod_stage(&surface, 5, ThresholdFactor::new(tenths * EXTENT_UNIT / 10));
        let total: u32 = bin_lengths(&model).iter().sum();
        if let Some(finer) = previous {
            assert!(finer >= total);
        }
        previous = Some(total);
    }
    assert_eq!(previous, Some(5 * 128));
}

#[test]
fn all_bins_and_queues_stay_within_the_capacity_bound() {
    let mut model = new_model();
    let surface = ScreenQuad { width: 40 * EXTENT_UNIT, height: 9 * EXTENT_UNIT, in_view: true };
    model.seed(150_000, ThresholdFactor::one());
    for _ in 0..PASS_COUNT {
        model.subdivision_pass(&surface);
        let held: u64 = bin_lengths(&model).iter().map(|n| *n as u64).sum::<u64>()
            + model.queue(0).len() as u64
            + model.queue(1).len() as u64;
        assert!(held <= MAX_PATCH_COUNT as u64 * (BIN_COUNT as u64 + 1));
    }
    assert_eq!(model.passes_done(), PASS_COUNT);
    assert!(model.force_render());
    model.consolidate();
    for b in 0..BIN_COUNT {
        assert_eq!(model.draw(b).instance_count, model.bin_len(b));
        assert_eq!(model.draw(b).index_count, [6, 24, 96, 384, 1536][b]);
    }
}

#[test]
fn pass_reads_only_its_source_queue() {
    let surface = quad(200);
    let mut first = new_model();
    first.seed(4, ThresholdFactor::one());
    first.subdivision_pass(&surface);
    // The second model starts its frame with stale patches in the other queue.
    let mut second = new_model();
    second.lod_stage(&quad(100_000), 3, ThresholdFactor::one());
    second.seed(4, ThresholdFactor::one());
    second.subdivision_pass(&surface);
    assert_eq!(first.queue(1).patches(), second.queue(1).patches());
    assert_eq!(first.queue(0).len(), 0);
    assert_eq!(second.queue(0).len(), 0);
    assert_eq!(first.dispatch(1), second.dispatch(1));
    assert_eq!(first.dispatch(1).x, 8);
    assert_eq!(first.threshold().get(), 10_000);
}

#[test]
fn screen_quad_halves_its_extent_with_every_split() {
    let surface = ScreenQuad { width: 1000, height: 600, in_view: true };
    assert_eq!(
        surface.measure(&EncodedPatch::root(0)),
        PatchMeasure { extent_u: 1000, extent_v: 600, outside: false }
    );
    assert_eq!(
        surface.measure(&EncodedPatch { u: 0b101, v: 0b11, instance: 3 }),
        PatchMeasure { extent_u: 250, extent_v: 300, outside: false }
    );
    let hidden = ScreenQuad { width: 8, height: 8, in_view: false };
    assert_eq!(
        hidden.measure(&EncodedPatch { u: 0b10000, v: 1, instance: 0 }),
        PatchMeasure { extent_u: 0, extent_v: 8, outside: true }
    );
}
