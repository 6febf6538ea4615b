use voxtree::cube::NormPoint;
use voxtree::tree::{
    DeltaRecord, EditStatus, Octree, OctreeInitErr, UpdateErr, WorldPoint, EMPTY, LEAF, PARENT,
    WORLD_UNIT,
};

fn unit_point(x: i64, y: i64, z: i64) -> WorldPoint {
    WorldPoint { x: x * WORLD_UNIT, y: y * WORLD_UNIT, z: z * WORLD_UNIT }
}

#[test]
fn fresh_tree_has_one_empty_root_cell() {
    let t = Octree::new(unit_point(0, 0, 0), WORLD_UNIT as u64, 4, 100, 1, 50).unwrap();
    assert_eq!(t.active_cell_count(), 1);
    assert_eq!(t.cell_count(), 100);
    // every slot of cell 0 is EMPTY: no leaf resolves anywhere
    let miss = t.leaf_at(&NormPoint { x: 0, y: 0, z: 0 });
    assert_eq!(miss, None);
    let miss2 = t.leaf_at(&NormPoint { x: u32::MAX, y: u32::MAX, z: u32::MAX });
    assert_eq!(miss2, None);
}

#[test]
fn containment_unit_cube() {
    // min point (0,0,0), scale 1.0
    let t = Octree::new(unit_point(0, 0, 0), WORLD_UNIT as u64, 4, 100, 1, 50).unwrap();
    // (0.5, 0.5, 0.5) is inside
    assert!(t.point_inside(&WorldPoint {
        x: WORLD_UNIT / 2,
        y: WORLD_UNIT / 2,
        z: WORLD_UNIT / 2
    }));
    // (1.5, 0, 0) is outside
    assert!(!t.point_inside(&WorldPoint { x: WORLD_UNIT + WORLD_UNIT / 2, y: 0, z: 0 }));
    // the boundary is inclusive
    assert!(t.point_inside(&WorldPoint { x: WORLD_UNIT, y: WORLD_UNIT, z: WORLD_UNIT }));
    assert!(t.point_inside(&WorldPoint { x: 0, y: 0, z: 0 }));
}

#[test]
fn construct_rejects_bad_parameters() {
    let min = unit_point(0, 0, 0);
    let r = Octree::new(min, WORLD_UNIT as u64, 0, 100, 1, 50);
    assert_eq!(r.unwrap_err(), OctreeInitErr::DepthOutOfRange);
    let r = Octree::new(min, WORLD_UNIT as u64, 33, 100, 1, 50);
    assert_eq!(r.unwrap_err(), OctreeInitErr::DepthOutOfRange);
    let r = Octree::new(min, WORLD_UNIT as u64, 4, 0, 1, 50);
    assert_eq!(r.unwrap_err(), OctreeInitErr::CapacityOutOfRange);
    let r = Octree::new(min, WORLD_UNIT as u64, 4, 10, 11, 50);
    assert_eq!(r.unwrap_err(), OctreeInitErr::CapacityOutOfRange);
    // scale 3 world units cannot be halved into whole units even once
    let r = Octree::new(min, 3, 1, 100, 1, 50);
    assert_eq!(r.unwrap_err(), OctreeInitErr::ScaleNotRepresentable);
    let r = Octree::new(min, 0, 4, 100, 1, 50);
    assert_eq!(r.unwrap_err(), OctreeInitErr::ScaleNotRepresentable);
    let r = Octree::new(WorldPoint { x: i64::MAX, y: 0, z: 0 }, WORLD_UNIT as u64, 4, 100, 1, 50);
    assert_eq!(r.unwrap_err(), OctreeInitErr::ExtentOutOfRange);
}

#[test]
fn block_distance_is_scale_over_two_to_depth() {
    // scale 1.0, depth 10: 65536 / 1024 = 64 units per block
    let t = Octree::new(unit_point(0, 0, 0), WORLD_UNIT as u64, 10, 100, 1, 50).unwrap();
    assert_eq!(t.block_distance(), 64);
    assert_eq!(t.scale(), WORLD_UNIT as u64);
    let m = t.min_point();
    assert_eq!((m.x, m.y, m.z), (0, 0, 0));
}

#[test]
fn normalize_point_scales_into_unit_cube() {
    // scale 8.0, depth 3
    let t = Octree::new(unit_point(0, 0, 0), 8 * WORLD_UNIT as u64, 3, 100, 1, 50).unwrap();
    let n = t.normalize_point(&unit_point(1, 1, 1));
    // 1/8 of the root edge = 2^29 in 32-bit fixed point
    assert_eq!((n.x, n.y, n.z), (1 << 29, 1 << 29, 1 << 29));
    // the far corner clamps just below 1.0
    let far = t.normalize_point(&unit_point(8, 8, 8));
    assert_eq!((far.x, far.y, far.z), (u32::MAX, u32::MAX, u32::MAX));
}

#[test]
fn scenario_edit_then_traverse() {
    // the seeded scenario: scale 8.0, depth 3, 100 cells
    let mut t = Octree::new(unit_point(0, 0, 0), 8 * WORLD_UNIT as u64, 3, 100, 1, 50).unwrap();
    let p = t.normalize_point(&unit_point(1, 1, 1));
    let status = t.edit_point(&p, 5);
    assert_eq!(status, EditStatus::Applied);
    // the leaf reached by traversing (1,1,1) carries payload 5
    assert_eq!(t.leaf_at(&p), Some(5));
    // (7,7,7) stays unresolved
    let q = t.normalize_point(&unit_point(7, 7, 7));
    assert_eq!(t.leaf_at(&q), None);
}

#[test]
fn allocation_counts_sum_over_distinct_edits() {
    let mut t = Octree::new(unit_point(0, 0, 0), 8 * WORLD_UNIT as u64, 3, 100, 1, 50).unwrap();
    assert_eq!(t.active_cell_count(), 1);
    // depth 3: an edit into an empty tree subdivides twice, then writes
    let p1 = t.normalize_point(&unit_point(1, 1, 1));
    t.edit_point(&p1, 5);
    assert_eq!(t.active_cell_count(), 3);
    // a second edit under a different root octant subdivides twice more
    let p2 = t.normalize_point(&unit_point(7, 7, 7));
    t.edit_point(&p2, 9);
    assert_eq!(t.active_cell_count(), 5);
    assert_eq!(t.leaf_at(&p1), Some(5));
    assert_eq!(t.leaf_at(&p2), Some(9));
}

#[test]
fn re_edit_is_idempotent() {
    let mut t = Octree::new(unit_point(0, 0, 0), 8 * WORLD_UNIT as u64, 3, 100, 1, 50).unwrap();
    let p = t.normalize_point(&unit_point(1, 1, 1));
    assert_eq!(t.edit_point(&p, 5), EditStatus::Applied);
    let after_first = t.active_cell_count();
    assert_eq!(t.edit_point(&p, 5), EditStatus::Applied);
    // no additional cell beyond the first edit's subdivisions
    assert_eq!(t.active_cell_count(), after_first);
    assert_eq!(t.leaf_at(&p), Some(5));
}

#[test]
fn capacity_exhaustion_drops_the_edit() {
    // one cell of capacity: the root can never subdivide
    let mut t = Octree::new(unit_point(0, 0, 0), 8 * WORLD_UNIT as u64, 3, 1, 1, 50).unwrap();
    let p = t.normalize_point(&unit_point(1, 1, 1));
    assert_eq!(t.edit_point(&p, 5), EditStatus::Dropped);
    // the tree is valid but the edit left no leaf
    assert_eq!(t.leaf_at(&p), None);
    assert_eq!(t.active_cell_count(), 1);
    // at depth 1 no subdivision is needed, so the same capacity suffices
    let mut shallow = Octree::new(unit_point(0, 0, 0), 8 * WORLD_UNIT as u64, 1, 1, 1, 50).unwrap();
    assert_eq!(shallow.edit_point(&p, 5), EditStatus::Applied);
    assert_eq!(shallow.leaf_at(&p), Some(5));
}

#[test]
fn update_vbo_applies_batch_and_sizes_dispatch() {
    let mut t = Octree::new(unit_point(0, 0, 0), 8 * WORLD_UNIT as u64, 3, 100, 1, 50).unwrap();
    let p1 = t.normalize_point(&unit_point(1, 1, 1));
    let p2 = t.normalize_point(&unit_point(7, 7, 7));
    let deltas = vec![
        DeltaRecord { pos: p1, edit_type: 2, value: 5 },
        DeltaRecord { pos: p2, edit_type: 2, value: 9 },
    ];
    let plan = t.update_vbo(&deltas, 2).unwrap();
    assert_eq!(plan.records, 2);
    assert_eq!(plan.groups, 1);
    assert_eq!(t.leaf_at(&p1), Some(5));
    assert_eq!(t.leaf_at(&p2), Some(9));
    // staging more records than handed over is refused
    let r = t.update_vbo(&deltas, 3);
    assert_eq!(r.unwrap_err(), UpdateErr::CountExceedsBatch);
    // a batch past the fixed delta-buffer capacity is refused
    let big = vec![DeltaRecord { pos: p1, edit_type: 2, value: 5 }; 300];
    let r = t.update_vbo(&big, 300);
    assert_eq!(r.unwrap_err(), UpdateErr::CountExceedsCapacity);
}

#[test]
fn seeded_tree_serves_seeded_leaves() {
    // two seeded cells: root octant 0 points at cell 1, whose octant 0 is
    // a leaf with payload 5
    let mut seed = vec![0u32; 32];
    seed[0] = 1;
    seed[1] = PARENT;
    seed[16] = 5;
    seed[17] = LEAF;
    let t = Octree::with_cells(
        unit_point(0, 0, 0),
        8 * WORLD_UNIT as u64,
        3,
        10,
        50,
        seed,
        2,
    )
    .unwrap();
    assert_eq!(t.active_cell_count(), 2);
    // a point whose first two octants are 0 resolves to the seeded leaf
    let p = t.normalize_point(&unit_point(1, 1, 1));
    assert_eq!(t.leaf_at(&p), Some(5));
    // a point under another root octant misses
    let q = t.normalize_point(&unit_point(7, 7, 7));
    assert_eq!(t.leaf_at(&q), None);
}

#[test]
fn seed_validation_rejects_malformed_cells() {
    let min = unit_point(0, 0, 0);
    let scale = 8 * WORLD_UNIT as u64;
    // wrong length for the declared active cells
    let r = Octree::with_cells(min, scale, 3, 10, 50, vec![0u32; 16], 2);
    assert_eq!(r.unwrap_err(), OctreeInitErr::SeedRejected);
    // an unknown tag
    let mut seed = vec![0u32; 16];
    seed[1] = 9;
    let r = Octree::with_cells(min, scale, 3, 10, 50, seed, 1);
    assert_eq!(r.unwrap_err(), OctreeInitErr::SeedRejected);
    // a parent reference that does not point strictly upward
    let mut seed = vec![0u32; 16];
    seed[0] = 0;
    seed[1] = PARENT;
    let r = Octree::with_cells(min, scale, 3, 10, 50, seed, 1);
    assert_eq!(r.unwrap_err(), OctreeInitErr::SeedRejected);
    // a parent reference past the seeded region
    let mut seed = vec![0u32; 16];
    seed[0] = 3;
    seed[1] = PARENT;
    let r = Octree::with_cells(min, scale, 3, 10, 50, seed, 1);
    assert_eq!(r.unwrap_err(), OctreeInitErr::SeedRejected);
    // the empty tag is what zeroed storage reads as
    assert_eq!(EMPTY, 0);
}
