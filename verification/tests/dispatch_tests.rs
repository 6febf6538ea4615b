use voxtree::dispatch::{dispatch_group_counts, group_count, DispatchSequencer, OrderingErr};
use voxtree::tree::{Octree, WorldPoint, WORLD_UNIT};
use voxtree::trace::{RayVec, TraceResult};

#[test]
fn group_count_rounds_up_with_floor_one() {
    assert_eq!(group_count(0, 32), 1);
    assert_eq!(group_count(1, 32), 1);
    assert_eq!(group_count(32, 32), 1);
    assert_eq!(group_count(33, 32), 2);
    assert_eq!(group_count(1280, 32), 40);
    assert_eq!(group_count(1281, 32), 41);
    assert_eq!(group_count(1024, 1024), 1);
    assert_eq!(group_count(1025, 1024), 2);
}

#[test]
fn three_axis_dispatch_covers_the_image() {
    let (gx, gy, gz) = dispatch_group_counts(1280, 720, 1, 32, 32, 1);
    assert_eq!((gx, gy, gz), (40, 23, 1));
    // a sub-group-size output still gets one group per axis
    let (gx, gy, gz) = dispatch_group_counts(8, 8, 0, 32, 32, 1);
    assert_eq!((gx, gy, gz), (1, 1, 1));
}

#[test]
fn raytrace_must_wait_for_the_node_barrier() {
    let mut seq = DispatchSequencer::new();
    // without pending writes the raytrace pass may run
    assert!(seq.raytrace_dispatched().is_ok());
    seq.image_barrier();
    assert!(seq.present_ready());
    // an update leaves node writes unordered: the raytrace is refused
    seq.update_dispatched();
    assert_eq!(seq.raytrace_dispatched().unwrap_err(), OrderingErr::NodeWritesUnordered);
    // the barrier orders them, after which the pass may run
    seq.node_buffer_barrier();
    assert!(seq.raytrace_dispatched().is_ok());
    // the output image is unordered until its own barrier
    assert!(!seq.present_ready());
    seq.image_barrier();
    assert!(seq.present_ready());
}

#[test]
fn ray_aimed_outside_the_root_misses_within_budget() {
    let t = Octree::new(
        WorldPoint { x: 0, y: 0, z: 0 },
        WORLD_UNIT as u64,
        4,
        100,
        1,
        64,
    )
    .unwrap();
    // origin one root edge below the cube, marching further away
    let origin = RayVec { x: -0x1_0000_0000, y: 0, z: 0 };
    let dir = RayVec { x: -0x10_0000, y: 0, z: 0 };
    assert_eq!(t.raytrace(&origin, &dir), TraceResult::Miss);
}

#[test]
fn ray_through_an_edited_voxel_hits_it() {
    let mut t = Octree::new(
        WorldPoint { x: 0, y: 0, z: 0 },
        8 * WORLD_UNIT as u64,
        3,
        100,
        1,
        64,
    )
    .unwrap();
    let p = t.normalize_point(&WorldPoint { x: WORLD_UNIT, y: WORLD_UNIT, z: WORLD_UNIT });
    t.edit_point(&p, 5);
    // start outside the cube on the x axis and march toward the voxel
    let origin = RayVec { x: -(1i64 << 29), y: p.y as i64, z: p.z as i64 };
    let dir = RayVec { x: 1 << 29, y: 0, z: 0 };
    match t.raytrace(&origin, &dir) {
        TraceResult::Hit { payload, steps } => {
            assert_eq!(payload, 5);
            assert!(steps < 64);
        },
        TraceResult::Miss => panic!("expected a hit"),
    }
}
