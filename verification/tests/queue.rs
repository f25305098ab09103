use parametric_lod::indirect::{
    draw_args_offset, workgroups, DispatchIndirectArgs, DrawIndexedIndirectArgs, DRAW_ARGS_STRIDE,
};
use parametric_lod::patch::EncodedPatch;
use parametric_lod::queue::PatchQueue;
use parametric_lod::schedule::{lod_stage_passes, pass_plan, pass_schedule, PassPlan};

#[test]
fn push_drops_patches_once_the_queue_is_full() {
    let mut queue = PatchQueue::new(2);
    assert_eq!((queue.len(), queue.capacity()), (0, 2));
    assert!(queue.push(EncodedPatch::root(0)));
    assert!(queue.push(EncodedPatch::root(1)));
    assert!(!queue.push(EncodedPatch::root(2)));
    assert_eq!(queue.len(), 2);
    assert_eq!(queue.patches(), &vec![EncodedPatch::root(0), EncodedPatch::root(1)]);
    assert_eq!(queue.get(1), EncodedPatch::root(1));
}

#[test]
fn queue_of_capacity_zero_takes_nothing() {
    let mut queue = PatchQueue::new(0);
    assert!(!queue.push(EncodedPatch::root(0)));
    assert_eq!(queue.seed(5), 0);
    assert_eq!(queue.len(), 0);
}

#[test]
fn clear_and_take_empty_the_queue_and_keep_the_capacity() {
    let mut queue = PatchQueue::new(4);
    queue.push(EncodedPatch::root(9));
    queue.push(EncodedPatch { u: 2, v: 3, instance: 1 });
    let taken = queue.take();
    assert_eq!(taken, vec![EncodedPatch::root(9), EncodedPatch { u: 2, v: 3, instance: 1 }]);
    assert_eq!((queue.len(), queue.capacity()), (0, 4));
    queue.push(EncodedPatch::root(1));
    queue.clear();
    assert_eq!((queue.len(), queue.capacity()), (0, 4));
}

#[test]
fn seed_writes_one_root_per_instance_up_to_the_capacity() {
    let mut queue = PatchQueue::new(3);
    queue.push(EncodedPatch { u: 5, v: 5, instance: 5 });
    assert_eq!(queue.seed(2), 2);
    assert_eq!(queue.patches(), &vec![EncodedPatch::root(0), EncodedPatch::root(1)]);
    assert_eq!(queue.seed(10), 3);
    assert_eq!(
        queue.patches(),
        &vec![EncodedPatch::root(0), EncodedPatch::root(1), EncodedPatch::root(2)]
    );
    assert_eq!(queue.seed(0), 0);
    assert_eq!(queue.len(), 0);
}

#[test]
fn workgroups_round_up() {
    assert_eq!(workgroups(0, 64), 0);
    assert_eq!(workgroups(1, 64), 1);
    assert_eq!(workgroups(64, 64), 1);
    assert_eq!(workgroups(65, 64), 2);
    assert_eq!(workgroups(100_000, 1), 100_000);
    assert_eq!(workgroups(u32::MAX, 2), 0x8000_0000);
    assert_eq!(workgroups(u32::MAX, u32::MAX), 1);
}

#[test]
fn dispatch_records_cover_their_queue() {
    assert_eq!(DispatchIndirectArgs::reset(), DispatchIndirectArgs { x: 0, y: 1, z: 1 });
    assert_eq!(DispatchIndirectArgs::for_items(130, 64), DispatchIndirectArgs { x: 3, y: 1, z: 1 });
    let mut args = DispatchIndirectArgs::reset();
    args.raise_to_cover(10, 4);
    assert_eq!(args, DispatchIndirectArgs { x: 3, y: 1, z: 1 });
    args.raise_to_cover(5, 4);
    assert_eq!(args.x, 3);
    args.raise_to_cover(13, 4);
    assert_eq!(args.x, 4);
}

#[test]
fn draw_records_start_without_instances() {
    assert_eq!(
        DrawIndexedIndirectArgs::for_mesh(96),
        DrawIndexedIndirectArgs {
            index_count: 96,
            instance_count: 0,
            first_index: 0,
            base_vertex: 0,
            first_instance: 0
        }
    );
    assert_eq!(DRAW_ARGS_STRIDE, 20);
    let offsets: Vec<u64> = (0..5).map(draw_args_offset).collect();
    assert_eq!(offsets, vec![0, 20, 40, 60, 80]);
}

#[test]
fn passes_alternate_between_the_queues_and_force_the_last() {
    let expected: Vec<PassPlan> = (0..8)
        .map(|i| PassPlan { source: i % 2, target: 1 - i % 2, force_render: i == 7 })
        .collect();
    assert_eq!(pass_schedule(), expected);
    assert_eq!(pass_plan(0), PassPlan { source: 0, target: 1, force_render: false });
    assert_eq!(pass_plan(7), PassPlan { source: 1, target: 0, force_render: true });
    assert_eq!(lod_stage_passes(false), expected);
    assert_eq!(lod_stage_passes(true), vec![]);
}
