//! The octree itself: a flat buffer of cells mirroring the GPU node buffer
//! word for word, the slot encoding, the well-formedness invariant, and the
//! point-edit protocol that the update pass applies to the buffer.
//!
//! A cell is 8 child slots; a slot is two 32-bit words, a child index (or
//! leaf payload) followed by a tag. Cells are handed out by a counter that
//! only grows, so a parent reference always names a cell that was allocated
//! after the cell holding the reference; nothing is ever freed or reused.

use vstd::prelude::*;
use vstd::arithmetic::power2::*;

use crate::cube::{
    Cube, NormPoint, NORM_BITS, NORM_ONE, cube_wf, spec_contains, spec_octant, spec_child_cube,
    spec_root_cube, root_cube, octant_of, child_cube, lemma_child_cube_contains,
};

verus! {

/// Tag of a slot that holds nothing; its index word is unused.
pub const EMPTY: u32 = 0;

/// Tag of a slot that references another cell by index.
pub const PARENT: u32 = 1;

/// Tag of a terminal slot; its index word carries the leaf payload
/// (a material reference), not a tree pointer.
pub const LEAF: u32 = 2;

/// Child slots per cell: one per octant.
pub const SLOTS_PER_CELL: usize = 8;

/// 32-bit words per cell: two per slot.
pub const WORDS_PER_CELL: usize = 16;

/// Largest cell capacity the buffer accepts; keeps every word index well
/// inside `usize` on any platform.
pub const MAX_CELLS: u32 = 0x0100_0000;

/// Largest root edge length in world units.
pub const MAX_SCALE: u64 = 0x1_0000_0000_0000;

/// Largest magnitude of a world coordinate, so that the far corner of the
/// root cube always fits in an `i64`.
pub const MAX_COORD: i64 = 0x1_0000_0000_0000;

/// World units per 1.0 of world space: world coordinates are fixed-point
/// numbers with this denominator.
pub const WORLD_UNIT: i64 = 0x1_0000;

/// A point in fixed-point world coordinates (`WORLD_UNIT` units per 1.0).
#[derive(Clone, Copy, PartialEq, Eq, Structural, Debug)]
pub struct WorldPoint {
    pub x: i64,
    pub y: i64,
    pub z: i64,
}

/// Why constructing an octree was refused.
#[derive(Clone, Copy, PartialEq, Eq, Structural, Debug)]
pub enum OctreeInitErr {
    /// `max_depth` is zero or beyond what the addressing scheme encodes.
    DepthOutOfRange,
    /// The cell capacity is zero, exceeds `MAX_CELLS`, or cannot hold the
    /// requested number of initially active cells.
    CapacityOutOfRange,
    /// The root edge is zero, too large, or not divisible into `2^max_depth`
    /// whole-unit blocks.
    ScaleNotRepresentable,
    /// The root cube does not fit in the world coordinate range.
    ExtentOutOfRange,
    /// Seed data does not fit in the cell capacity or breaks the buffer
    /// invariant.
    SeedRejected,
}

/// Whether an edit reached the tree or was dropped for want of cells.
#[derive(Clone, Copy, PartialEq, Eq, Structural, Debug)]
pub enum EditStatus {
    Applied,
    Dropped,
}

/// Fixed capacity of the GPU-resident delta buffer, in records. A batch
/// is uploaded at offset zero, overwriting the previous batch; there is
/// no queueing.
pub const DELTA_BUFFER_RECORDS: usize = 200;

/// Words per staged delta record: three position words, the edit type,
/// and the payload value.
pub const DELTA_RECORD_WORDS: usize = 5;

/// Invocations per work group of the update compute pass.
pub const UPDATE_LOCAL_SIZE: u32 = 1024;

/// One staged point edit: a position in normalized tree-local
/// coordinates, the kind of edit requested, and the leaf payload.
#[derive(Clone, Copy, PartialEq, Eq, Structural, Debug)]
pub struct DeltaRecord {
    pub pos: NormPoint,
    pub edit_type: u32,
    pub value: u32,
}

/// Why a staged batch was refused.
#[derive(Clone, Copy, PartialEq, Eq, Structural, Debug)]
pub enum UpdateErr {
    /// The caller asked to stage more records than it handed over.
    CountExceedsBatch,
    /// The batch does not fit in the fixed delta buffer.
    CountExceedsCapacity,
}

/// The dispatch derived from a staged batch: how many records were
/// uploaded and how many work groups cover them.
#[derive(Clone, Copy, PartialEq, Eq, Structural, Debug)]
pub struct UpdatePlan {
    pub records: usize,
    pub groups: u32,
}

/// The edits a batch of delta records stands for, in staging order.
pub open spec fn spec_delta_edits(deltas: Seq<DeltaRecord>, len: int) -> Seq<(NormPoint, u32)> {
    deltas.take(len).map_values(|d: DeltaRecord| (d.pos, d.value))
}

/// Seed data for `Octree::with_cells` is acceptable when it covers the
/// initially active cells exactly and every slot in it is well formed.
pub open spec fn spec_seed_ok(seed: Seq<u32>, active: int) -> bool {
    &&& seed.len() == 16 * active
    &&& forall|c: int, o: int|
        0 <= c < active && 0 <= o < 8 ==> #[trigger] valid_slot(seed, active, c, o)
}

/// Position of a slot's index word in the flat buffer.
pub open spec fn slot_index_pos(cell: int, octant: int) -> int {
    16 * cell + 2 * octant
}

/// Position of a slot's tag word in the flat buffer.
pub open spec fn slot_tag_pos(cell: int, octant: int) -> int {
    16 * cell + 2 * octant + 1
}

/// Tag of the given slot.
pub open spec fn slot_tag(w: Seq<u32>, cell: int, octant: int) -> u32 {
    w[slot_tag_pos(cell, octant)]
}

/// Index word of the given slot: a cell reference under `PARENT`, a leaf
/// payload under `LEAF`.
pub open spec fn slot_index(w: Seq<u32>, cell: int, octant: int) -> u32 {
    w[slot_index_pos(cell, octant)]
}

/// A slot of an allocated cell is well formed: its tag is one of the three
/// known tags, and a parent reference names an allocated cell strictly
/// above the referencing cell (the allocation counter only grows, so a
/// subdivision always lives above the cell that points to it).
pub open spec fn valid_slot(w: Seq<u32>, active: int, cell: int, octant: int) -> bool {
    let t = slot_tag(w, cell, octant);
    &&& t == EMPTY || t == PARENT || t == LEAF
    &&& t == PARENT ==> cell < slot_index(w, cell, octant) < active
}

/// The buffer invariant: the word count matches the capacity, at least the
/// root cell is allocated, every slot of every allocated cell is well
/// formed, and the unallocated region is still zeroed (so a newly handed
/// out cell reads as eight `EMPTY` slots).
pub open spec fn buffer_wf(w: Seq<u32>, active: int, cap: int) -> bool {
    &&& w.len() == 16 * cap
    &&& 1 <= active <= cap
    &&& forall|c: int, o: int|
        0 <= c < active && 0 <= o < 8 ==> #[trigger] valid_slot(w, active, c, o)
    &&& forall|i: int| 16 * active <= i < 16 * cap ==> #[trigger] w[i] == 0u32
}

/// What one point edit leaves behind: the new buffer contents, the new
/// allocation counter, and whether the leaf write happened.
pub struct EditResult {
    pub words: Seq<u32>,
    pub active: int,
    pub applied: bool,
}

/// The structural effect of one update invocation, walking from `cell`
/// with `levels` levels left to descend. At each level the octant of the
/// point selects a slot: a `LEAF` is overwritten in place, the final level
/// writes the leaf, a `PARENT` is descended, and an `EMPTY` slot is
/// subdivided by claiming the next cell off the counter — unless the
/// counter has reached capacity, in which case the edit is dropped and the
/// tree is left as it stands (valid, but incomplete).
pub open spec fn spec_edit_at(
    w: Seq<u32>,
    active: int,
    cap: int,
    cell: int,
    cube: Cube,
    p: NormPoint,
    payload: u32,
    levels: nat,
) -> EditResult
    decreases levels,
{
    if levels == 0 {
        EditResult { words: w, active, applied: false }
    } else {
        let o = spec_octant(cube, p);
        let ip = slot_index_pos(cell, o);
        let tp = slot_tag_pos(cell, o);
        let t = w[tp];
        if t == LEAF || levels == 1 {
            EditResult { words: w.update(ip, payload).update(tp, LEAF), active, applied: true }
        } else if t == PARENT {
            spec_edit_at(
                w,
                active,
                cap,
                w[ip] as int,
                spec_child_cube(cube, o),
                p,
                payload,
                (levels - 1) as nat,
            )
        } else if active == cap {
            EditResult { words: w, active, applied: false }
        } else {
            spec_edit_at(
                w.update(ip, active as u32).update(tp, PARENT),
                active + 1,
                cap,
                active,
                spec_child_cube(cube, o),
                p,
                payload,
                (levels - 1) as nat,
            )
        }
    }
}

/// The structural effect of one update invocation starting at the root.
pub open spec fn spec_edit(
    w: Seq<u32>,
    active: int,
    cap: int,
    depth: nat,
    p: NormPoint,
    payload: u32,
) -> EditResult {
    spec_edit_at(w, active, cap, 0, spec_root_cube(), p, payload, depth)
}

/// The read-only descent of the raytrace pass: follow the point's octants
/// from `cell` for at most `levels` levels; a `LEAF` resolves to its
/// payload, anything else within the budget is a miss.
pub open spec fn spec_lookup_at(
    w: Seq<u32>,
    cell: int,
    cube: Cube,
    p: NormPoint,
    levels: nat,
) -> Option<u32>
    decreases levels,
{
    if levels == 0 {
        None
    } else {
        let o = spec_octant(cube, p);
        let t = w[slot_tag_pos(cell, o)];
        if t == LEAF {
            Some(w[slot_index_pos(cell, o)])
        } else if t == PARENT && levels > 1 {
            spec_lookup_at(
                w,
                w[slot_index_pos(cell, o)] as int,
                spec_child_cube(cube, o),
                p,
                (levels - 1) as nat,
            )
        } else {
            None
        }
    }
}

/// The read-only descent of the raytrace pass, from the root.
pub open spec fn spec_lookup(w: Seq<u32>, depth: nat, p: NormPoint) -> Option<u32> {
    spec_lookup_at(w, 0, spec_root_cube(), p, depth)
}

/// The octree: spatial parameters plus the flat cell buffer and its
/// allocation counter. This is the CPU-side image of the GPU node buffer;
/// the update protocol mutates it exactly as the update compute pass
/// mutates the buffer on the device.
#[derive(Debug)]
pub struct Octree {
    words: Vec<u32>,
    active: u32,
    capacity: u32,
    max_depth: u32,
    max_traversal_iter: u32,
    min_x: i64,
    min_y: i64,
    min_z: i64,
    scale: u64,
    block: u64,
}

impl Octree {
    /// The flat buffer contents.
    pub closed spec fn spec_words(&self) -> Seq<u32> {
        self.words@
    }

    /// The allocation counter: cells below this index are allocated.
    pub closed spec fn spec_active(&self) -> int {
        self.active as int
    }

    /// The fixed cell capacity of the buffer.
    pub closed spec fn spec_capacity(&self) -> int {
        self.capacity as int
    }

    /// The maximum descent depth.
    pub closed spec fn spec_depth(&self) -> int {
        self.max_depth as int
    }

    /// The traversal step budget of the raytrace pass.
    pub closed spec fn spec_iter_cap(&self) -> int {
        self.max_traversal_iter as int
    }

    /// Minimum corner of the root cube, in world units.
    pub closed spec fn spec_min(&self) -> (int, int, int) {
        (self.min_x as int, self.min_y as int, self.min_z as int)
    }

    /// Edge length of the root cube, in world units.
    pub closed spec fn spec_scale(&self) -> int {
        self.scale as int
    }

    /// The whole octree invariant: a well-formed buffer and spatial
    /// parameters within the representable ranges, with the block edge
    /// dividing the scale exactly.
    pub closed spec fn wf(&self) -> bool {
        &&& buffer_wf(self.words@, self.active as int, self.capacity as int)
        &&& 1 <= self.max_depth <= NORM_BITS
        &&& self.capacity <= MAX_CELLS
        &&& 1 <= self.scale <= MAX_SCALE
        &&& self.scale as nat % pow2(self.max_depth as nat) == 0
        &&& self.block as nat == self.scale as nat / pow2(self.max_depth as nat)
        &&& -MAX_COORD <= self.min_x <= MAX_COORD
        &&& -MAX_COORD <= self.min_y <= MAX_COORD
        &&& -MAX_COORD <= self.min_z <= MAX_COORD
    }

    /// Whether a world point lies in the root cube (bounds inclusive).
    pub open spec fn spec_point_inside(&self, p: WorldPoint) -> bool {
        let (mx, my, mz) = self.spec_min();
        &&& mx <= p.x <= mx + self.spec_scale()
        &&& my <= p.y <= my + self.spec_scale()
        &&& mz <= p.z <= mz + self.spec_scale()
    }

    /// Allocate a fresh octree: a zeroed buffer (every slot of every cell
    /// `EMPTY`) with the first `initial_active_cells` cells counted as
    /// allocated. With `initial_active_cells == 1`, only the root cell
    /// exists and all eight of its slots are `EMPTY`.
    pub fn new(
        min_point: WorldPoint,
        scale: u64,
        max_depth: u32,
        cell_capacity: u32,
        initial_active_cells: u32,
        max_traversal_iter: u32,
    ) -> (r: Result<Octree, OctreeInitErr>)
        ensures
            ({
                let depth_ok = 1 <= max_depth <= NORM_BITS;
                let cap_ok = 1 <= initial_active_cells && initial_active_cells <= cell_capacity
                    && cell_capacity <= MAX_CELLS;
                let scale_ok = 1 <= scale <= MAX_SCALE
                    && scale as nat % pow2(max_depth as nat) == 0;
                let extent_ok = -MAX_COORD <= min_point.x <= MAX_COORD
                    && -MAX_COORD <= min_point.y <= MAX_COORD
                    && -MAX_COORD <= min_point.z <= MAX_COORD;
                match r {
                    Ok(t) => {
                        &&& depth_ok && cap_ok && scale_ok && extent_ok
                        &&& t.wf()
                        &&& t.spec_active() == initial_active_cells
                        &&& t.spec_capacity() == cell_capacity
                        &&& t.spec_depth() == max_depth
                        &&& t.spec_iter_cap() == max_traversal_iter
                        &&& t.spec_min() == (min_point.x as int, min_point.y as int, min_point.z as int)
                        &&& t.spec_scale() == scale
                        &&& forall|i: int|
                            0 <= i < 16 * cell_capacity ==> #[trigger] t.spec_words()[i] == 0u32
                        &&& forall|o: int| 0 <= o < 8 ==> slot_tag(t.spec_words(), 0, o) == EMPTY
                    },
                    Err(e) => {
                        &&& !(depth_ok && cap_ok && scale_ok && extent_ok)
                        &&& (e == OctreeInitErr::DepthOutOfRange <==> !depth_ok)
                        &&& (e == OctreeInitErr::CapacityOutOfRange <==> depth_ok && !cap_ok)
                        &&& (e == OctreeInitErr::ScaleNotRepresentable
                            <==> depth_ok && cap_ok && !scale_ok)
                        &&& (e == OctreeInitErr::ExtentOutOfRange
                            <==> depth_ok && cap_ok && scale_ok && !extent_ok)
                    },
                }
            }),
    {
        if max_depth < 1 || max_depth > NORM_BITS {
            return Err(OctreeInitErr::DepthOutOfRange);
        }
        if initial_active_cells < 1 || initial_active_cells > cell_capacity
            || cell_capacity > MAX_CELLS {
            return Err(OctreeInitErr::CapacityOutOfRange);
        }
        let block_div = pow2_u64(max_depth);
        if scale < 1 || scale > MAX_SCALE || scale % block_div != 0 {
            return Err(OctreeInitErr::ScaleNotRepresentable);
        }
        if min_point.x < -MAX_COORD || min_point.x > MAX_COORD
            || min_point.y < -MAX_COORD || min_point.y > MAX_COORD
            || min_point.z < -MAX_COORD || min_point.z > MAX_COORD {
            return Err(OctreeInitErr::ExtentOutOfRange);
        }
        let total: usize = (cell_capacity as usize) * WORDS_PER_CELL;
        let mut words: Vec<u32> = Vec::new();
        let mut i: usize = 0;
        while i < total
            invariant
                i <= total,
                words.len() == i,
                forall|j: int| 0 <= j < i ==> #[trigger] words@[j] == 0u32,
            decreases total - i,
        {
            words.push(0);
            i = i + 1;
        }
        let tree = Octree {
            words,
            active: initial_active_cells,
            capacity: cell_capacity,
            max_depth,
            max_traversal_iter,
            min_x: min_point.x,
            min_y: min_point.y,
            min_z: min_point.z,
            scale,
            block: scale / block_div,
        };
        proof {
            assert forall|c: int, o: int| 0 <= c < tree.active as int && 0 <= o < 8
                implies #[trigger] valid_slot(tree.words@, tree.active as int, c, o) by {
                assert(tree.words@[slot_tag_pos(c, o)] == 0u32);
            }
            assert(buffer_wf(tree.words@, tree.active as int, tree.capacity as int));
        }
        Ok(tree)
    }

    /// Axis-aligned bounds test against the root cube. Pure query.
    pub fn point_inside(&self, p: &WorldPoint) -> (r: bool)
        requires
            self.wf(),
        ensures
            r <==> self.spec_point_inside(*p),
    {
        p.x >= self.min_x && p.y >= self.min_y && p.z >= self.min_z
            && p.x <= self.min_x + self.scale as i64
            && p.y <= self.min_y + self.scale as i64
            && p.z <= self.min_z + self.scale as i64
    }

    /// Edge length of a leaf voxel in world units: the root edge divided
    /// by `2^max_depth` (exact; construction refuses a scale that does
    /// not divide).
    pub fn block_distance(&self) -> (r: u64)
        requires
            self.wf(),
        ensures
            r as nat == self.spec_scale() as nat / pow2(self.spec_depth() as nat),
            r as nat * pow2(self.spec_depth() as nat) == self.spec_scale() as nat,
    {
        proof {
            lemma_pow2_pos(self.max_depth as nat);
            vstd::arithmetic::div_mod::lemma_fundamental_div_mod(
                self.scale as int,
                pow2(self.max_depth as nat) as int,
            );
        }
        self.block
    }

    /// Edge length of the root cube in world units.
    pub fn scale(&self) -> (r: u64)
        requires
            self.wf(),
        ensures
            r == self.spec_scale(),
    {
        self.scale
    }

    /// Minimum corner of the root cube.
    pub fn min_point(&self) -> (r: WorldPoint)
        requires
            self.wf(),
        ensures
            (r.x as int, r.y as int, r.z as int) == self.spec_min(),
    {
        WorldPoint { x: self.min_x, y: self.min_y, z: self.min_z }
    }

    /// The allocation counter: the next free cell index.
    pub fn active_cell_count(&self) -> (r: u32)
        ensures
            r == self.spec_active(),
    {
        self.active
    }

    /// The fixed cell capacity.
    pub fn cell_count(&self) -> (r: u32)
        ensures
            r == self.spec_capacity(),
    {
        self.capacity
    }

    /// The maximum descent depth.
    pub fn max_depth(&self) -> (r: u32)
        ensures
            r == self.spec_depth(),
    {
        self.max_depth
    }

    /// The traversal step budget for the raytrace pass.
    pub fn max_traversal_iter(&self) -> (r: u32)
        ensures
            r == self.spec_iter_cap(),
    {
        self.max_traversal_iter
    }

    /// Apply one point edit to the tree: descend by octant from the root,
    /// subdividing `EMPTY` slots off the allocation counter, and write the
    /// payload as a leaf. Exactly the effect of one invocation of the
    /// update compute pass, as `spec_edit` states it; an edit that runs out
    /// of cells is dropped, leaving the tree valid but incomplete.
    pub fn edit_point(&mut self, p: &NormPoint, payload: u32) -> (r: EditStatus)
        requires
            old(self).wf(),
        ensures
            final(self).wf(),
            ({
                let er = spec_edit(
                    old(self).spec_words(),
                    old(self).spec_active(),
                    old(self).spec_capacity(),
                    old(self).spec_depth() as nat,
                    *p,
                    payload,
                );
                &&& final(self).spec_words() == er.words
                &&& final(self).spec_active() == er.active
                &&& (r == EditStatus::Applied <==> er.applied)
            }),
            final(self).spec_active() >= old(self).spec_active(),
            final(self).spec_capacity() == old(self).spec_capacity(),
            final(self).spec_depth() == old(self).spec_depth(),
            final(self).spec_iter_cap() == old(self).spec_iter_cap(),
            final(self).spec_min() == old(self).spec_min(),
            final(self).spec_scale() == old(self).spec_scale(),
    {
        let ghost er = spec_edit(
            self.words@,
            self.active as int,
            self.capacity as int,
            self.max_depth as nat,
            *p,
            payload,
        );
        let mut cell: u32 = 0;
        let mut levels: u32 = self.max_depth;
        let mut cube = root_cube();
        proof {
            lemma2_to64();
            lemma2_to64_rest();
        }
        loop
            invariant
                self.wf(),
                old(self).wf(),
                1 <= levels <= self.max_depth,
                (cell as int) < self.active as int,
                self.capacity == old(self).capacity,
                self.max_depth == old(self).max_depth,
                self.max_traversal_iter == old(self).max_traversal_iter,
                self.min_x == old(self).min_x,
                self.min_y == old(self).min_y,
                self.min_z == old(self).min_z,
                self.scale == old(self).scale,
                self.block == old(self).block,
                self.active as int >= old(self).active as int,
                cube_wf(cube, (self.max_depth - levels) as nat),
                spec_contains(cube, *p),
                er == spec_edit(
                    old(self).spec_words(),
                    old(self).spec_active(),
                    old(self).spec_capacity(),
                    old(self).spec_depth() as nat,
                    *p,
                    payload,
                ),
                spec_edit_at(
                    self.words@,
                    self.active as int,
                    self.capacity as int,
                    cell as int,
                    cube,
                    *p,
                    payload,
                    levels as nat,
                ) == er,
            decreases levels,
        {
            let o = octant_of(&cube, p);
            let base: usize = (cell as usize) * WORDS_PER_CELL + (o as usize) * 2;
            proof {
                assert(valid_slot(self.words@, self.active as int, cell as int, o as int));
                assert(base as int == slot_index_pos(cell as int, o as int));
                assert(base + 1 < self.words@.len());
            }
            let t = self.words[base + 1];
            if t == LEAF || levels == 1 {
                let ghost w_before = self.words@;
                self.words.set(base, payload);
                self.words.set(base + 1, LEAF);
                proof {
                    lemma_wf_after_leaf_write(
                        w_before,
                        self.active as int,
                        self.capacity as int,
                        cell as int,
                        o as int,
                        payload,
                    );
                }
                return EditStatus::Applied;
            }
            if t == PARENT {
                let next = self.words[base];
                proof {
                    assert(valid_slot(self.words@, self.active as int, cell as int, o as int));
                }
                cell = next;
            } else {
                if self.active == self.capacity {
                    return EditStatus::Dropped;
                }
                let newc = self.active;
                let ghost w_before = self.words@;
                self.words.set(base, newc);
                self.words.set(base + 1, PARENT);
                self.active = self.active + 1;
                proof {
                    lemma_wf_after_alloc(
                        w_before,
                        newc as int,
                        self.capacity as int,
                        cell as int,
                        o as int,
                    );
                }
                cell = newc;
            }
            proof {
                lemma_child_cube_contains(cube, *p, (self.max_depth - levels) as nat);
            }
            cube = child_cube(&cube, o);
            levels = levels - 1;
        }
    }

    /// Resolve the leaf at a point, descending at most `max_depth` levels
    /// read-only: the raytrace pass's per-sample tree walk. `None` is a
    /// miss (no leaf on the point's path within the depth budget).
    pub fn leaf_at(&self, p: &NormPoint) -> (r: Option<u32>)
        requires
            self.wf(),
        ensures
            r == spec_lookup(self.spec_words(), self.spec_depth() as nat, *p),
    {
        let mut cell: u32 = 0;
        let mut levels: u32 = self.max_depth;
        let mut cube = root_cube();
        proof {
            lemma2_to64();
            lemma2_to64_rest();
        }
        loop
            invariant
                self.wf(),
                1 <= levels <= self.max_depth,
                (cell as int) < self.active as int,
                cube_wf(cube, (self.max_depth - levels) as nat),
                spec_contains(cube, *p),
                spec_lookup_at(self.words@, cell as int, cube, *p, levels as nat)
                    == spec_lookup(self.spec_words(), self.spec_depth() as nat, *p),
            decreases levels,
        {
            let o = octant_of(&cube, p);
            let base: usize = (cell as usize) * WORDS_PER_CELL + (o as usize) * 2;
            proof {
                assert(valid_slot(self.words@, self.active as int, cell as int, o as int));
                assert(base + 1 < self.words@.len());
            }
            let t = self.words[base + 1];
            if t == LEAF {
                return Some(self.words[base]);
            }
            if t != PARENT || levels == 1 {
                return None;
            }
            let next = self.words[base];
            proof {
                assert(valid_slot(self.words@, self.active as int, cell as int, o as int));
                lemma_child_cube_contains(cube, *p, (self.max_depth - levels) as nat);
            }
            cell = next;
            cube = child_cube(&cube, o);
            levels = levels - 1;
        }
    }
}

impl Octree {
    /// Build an octree over seed data: the given words become the first
    /// `active_cells` cells of the buffer (the rest is zeroed), after
    /// validation that every seeded slot carries a known tag and that
    /// every parent reference points strictly upward into the seeded
    /// region. Rejected seed data leaves no tree behind.
    pub fn with_cells(
        min_point: WorldPoint,
        scale: u64,
        max_depth: u32,
        cell_capacity: u32,
        max_traversal_iter: u32,
        seed: Vec<u32>,
        active_cells: u32,
    ) -> (r: Result<Octree, OctreeInitErr>)
        ensures
            ({
                let depth_ok = 1 <= max_depth <= NORM_BITS;
                let cap_ok = 1 <= active_cells && active_cells <= cell_capacity
                    && cell_capacity <= MAX_CELLS;
                let scale_ok = 1 <= scale <= MAX_SCALE
                    && scale as nat % pow2(max_depth as nat) == 0;
                let extent_ok = -MAX_COORD <= min_point.x <= MAX_COORD
                    && -MAX_COORD <= min_point.y <= MAX_COORD
                    && -MAX_COORD <= min_point.z <= MAX_COORD;
                let seed_ok = spec_seed_ok(seed@, active_cells as int);
                match r {
                    Ok(t) => {
                        &&& depth_ok && cap_ok && scale_ok && extent_ok && seed_ok
                        &&& t.wf()
                        &&& t.spec_active() == active_cells
                        &&& t.spec_capacity() == cell_capacity
                        &&& t.spec_depth() == max_depth
                        &&& t.spec_iter_cap() == max_traversal_iter
                        &&& t.spec_min() == (min_point.x as int, min_point.y as int, min_point.z as int)
                        &&& t.spec_scale() == scale
                        &&& t.spec_words().subrange(0, 16 * active_cells as int) == seed@
                        &&& forall|i: int|
                            16 * active_cells as int <= i < 16 * cell_capacity as int
                                ==> #[trigger] t.spec_words()[i] == 0u32
                    },
                    Err(e) => {
                        &&& !(depth_ok && cap_ok && scale_ok && extent_ok && seed_ok)
                        &&& (e == OctreeInitErr::DepthOutOfRange <==> !depth_ok)
                        &&& (e == OctreeInitErr::CapacityOutOfRange <==> depth_ok && !cap_ok)
                        &&& (e == OctreeInitErr::ScaleNotRepresentable
                            <==> depth_ok && cap_ok && !scale_ok)
                        &&& (e == OctreeInitErr::ExtentOutOfRange
                            <==> depth_ok && cap_ok && scale_ok && !extent_ok)
                        &&& (e == OctreeInitErr::SeedRejected
                            <==> depth_ok && cap_ok && scale_ok && extent_ok && !seed_ok)
                    },
                }
            }),
    {
        if max_depth < 1 || max_depth > NORM_BITS {
            return Err(OctreeInitErr::DepthOutOfRange);
        }
        if active_cells < 1 || active_cells > cell_capacity || cell_capacity > MAX_CELLS {
            return Err(OctreeInitErr::CapacityOutOfRange);
        }
        let block_div = pow2_u64(max_depth);
        if scale < 1 || scale > MAX_SCALE || scale % block_div != 0 {
            return Err(OctreeInitErr::ScaleNotRepresentable);
        }
        if min_point.x < -MAX_COORD || min_point.x > MAX_COORD
            || min_point.y < -MAX_COORD || min_point.y > MAX_COORD
            || min_point.z < -MAX_COORD || min_point.z > MAX_COORD {
            return Err(OctreeInitErr::ExtentOutOfRange);
        }
        let seeded_slots: usize = (active_cells as usize) * SLOTS_PER_CELL;
        if seed.len() != (active_cells as usize) * WORDS_PER_CELL {
            return Err(OctreeInitErr::SeedRejected);
        }
        let mut s: usize = 0;
        while s < seeded_slots
            invariant
                s <= seeded_slots,
                seeded_slots == 8 * active_cells as int,
                seed.len() == 16 * active_cells as int,
                1 <= max_depth <= NORM_BITS,
                1 <= active_cells && active_cells <= cell_capacity && cell_capacity <= MAX_CELLS,
                1 <= scale <= MAX_SCALE,
                scale as nat % pow2(max_depth as nat) == 0,
                -MAX_COORD <= min_point.x <= MAX_COORD,
                -MAX_COORD <= min_point.y <= MAX_COORD,
                -MAX_COORD <= min_point.z <= MAX_COORD,
                forall|c: int, o: int|
                    0 <= c && 0 <= o < 8 && 8 * c + o < s
                        ==> #[trigger] valid_slot(seed@, active_cells as int, c, o),
            decreases seeded_slots - s,
        {
            let ghost c = s as int / 8;
            let ghost o = s as int % 8;
            proof {
                vstd::arithmetic::div_mod::lemma_fundamental_div_mod(s as int, 8);
                assert(slot_tag_pos(c, o) == 2 * s + 1);
                assert(slot_index_pos(c, o) == 2 * s);
            }
            proof {
                assert(0 <= c < active_cells as int);
                assert(0 <= o < 8);
            }
            let t = seed[2 * s + 1];
            if t != EMPTY && t != PARENT && t != LEAF {
                proof {
                    assert(!valid_slot(seed@, active_cells as int, c, o));
                    assert(!spec_seed_ok(seed@, active_cells as int));
                }
                return Err(OctreeInitErr::SeedRejected);
            }
            if t == PARENT {
                let idx = seed[2 * s];
                if (idx as usize) <= s / 8 || idx >= active_cells {
                    proof {
                        assert(!valid_slot(seed@, active_cells as int, c, o));
                        assert(!spec_seed_ok(seed@, active_cells as int));
                    }
                    return Err(OctreeInitErr::SeedRejected);
                }
            }
            proof {
                assert(valid_slot(seed@, active_cells as int, c, o));
                assert forall|c2: int, o2: int|
                    0 <= c2 && 0 <= o2 < 8 && 8 * c2 + o2 < s + 1
                        implies #[trigger] valid_slot(seed@, active_cells as int, c2, o2) by {
                    if 8 * c2 + o2 == s {
                        assert(c2 == c && o2 == o);
                    }
                }
            }
            s = s + 1;
        }
        proof {
            assert forall|c: int, o: int| 0 <= c < active_cells as int && 0 <= o < 8
                implies #[trigger] valid_slot(seed@, active_cells as int, c, o) by {
                assert(8 * c + o < seeded_slots);
            }
            assert(spec_seed_ok(seed@, active_cells as int));
        }
        let ghost seed0 = seed@;
        let total: usize = (cell_capacity as usize) * WORDS_PER_CELL;
        let mut words = seed;
        while words.len() < total
            invariant
                seed0.len() <= words.len() <= total,
                words@.subrange(0, seed0.len() as int) == seed0,
                forall|i: int| seed0.len() <= i < words.len() ==> #[trigger] words@[i] == 0u32,
            decreases total - words.len(),
        {
            let ghost before = words@;
            words.push(0);
            proof {
                assert(words@.subrange(0, seed0.len() as int)
                    =~= before.subrange(0, seed0.len() as int));
            }
        }
        let tree = Octree {
            words,
            active: active_cells,
            capacity: cell_capacity,
            max_depth,
            max_traversal_iter,
            min_x: min_point.x,
            min_y: min_point.y,
            min_z: min_point.z,
            scale,
            block: scale / block_div,
        };
        proof {
            assert forall|c: int, o: int| 0 <= c < tree.active as int && 0 <= o < 8
                implies #[trigger] valid_slot(tree.words@, tree.active as int, c, o) by {
                assert(valid_slot(seed0, tree.active as int, c, o));
                assert(slot_tag_pos(c, o) < 16 * tree.active as int);
                assert(tree.words@[slot_tag_pos(c, o)]
                    == tree.words@.subrange(0, seed0.len() as int)[slot_tag_pos(c, o)]);
                assert(tree.words@[slot_index_pos(c, o)]
                    == tree.words@.subrange(0, seed0.len() as int)[slot_index_pos(c, o)]);
            }
            assert(buffer_wf(tree.words@, tree.active as int, tree.capacity as int));
        }
        Ok(tree)
    }

    /// Convert a world point inside the root cube into the normalized
    /// tree-local coordinates the update pass expects: each axis scaled
    /// into a 32-bit fraction of the root edge, with the far boundary
    /// clamped to the largest representable coordinate.
    pub fn normalize_point(&self, p: &WorldPoint) -> (n: NormPoint)
        requires
            self.wf(),
            self.spec_point_inside(*p),
        ensures
            ({
                let (mx, my, mz) = self.spec_min();
                let s = self.spec_scale();
                &&& n.x as int == spec_normalize_axis(p.x - mx, s)
                &&& n.y as int == spec_normalize_axis(p.y - my, s)
                &&& n.z as int == spec_normalize_axis(p.z - mz, s)
            }),
    {
        let dx = (p.x - self.min_x) as u64;
        let dy = (p.y - self.min_y) as u64;
        let dz = (p.z - self.min_z) as u64;
        NormPoint {
            x: normalize_axis(dx, self.scale),
            y: normalize_axis(dy, self.scale),
            z: normalize_axis(dz, self.scale),
        }
    }

    /// Stage a batch of point edits and size the update dispatch: the
    /// first `len` records are validated against the fixed delta-buffer
    /// capacity, applied to the tree in order (the structural effect of
    /// the update compute pass consuming the staged buffer), and covered
    /// by enough work groups that at least `len` invocations execute. A
    /// refused batch changes nothing.
    pub fn update_vbo(&mut self, deltas: &Vec<DeltaRecord>, len: usize) -> (r: Result<
        UpdatePlan,
        UpdateErr,
    >)
        requires
            old(self).wf(),
        ensures
            final(self).wf(),
            r is Ok <==> len <= deltas.len() && len <= DELTA_BUFFER_RECORDS,
            (r matches Err(e) ==> *final(self) == *old(self)
                && (e == UpdateErr::CountExceedsBatch <==> len > deltas.len())
                && (e == UpdateErr::CountExceedsCapacity
                    <==> len <= deltas.len() && len > DELTA_BUFFER_RECORDS)),
            r matches Ok(plan) ==> {
                let er = crate::laws::spec_apply_edits(
                    old(self).spec_words(),
                    old(self).spec_active(),
                    old(self).spec_capacity(),
                    old(self).spec_depth() as nat,
                    spec_delta_edits(deltas@, len as int),
                );
                &&& final(self).spec_words() == er.words
                &&& final(self).spec_active() == er.active
                &&& plan.records == len
                &&& plan.groups == crate::dispatch::spec_group_count(
                    len as int,
                    UPDATE_LOCAL_SIZE as int,
                )
                &&& plan.groups * UPDATE_LOCAL_SIZE >= len
            },
            final(self).spec_capacity() == old(self).spec_capacity(),
            final(self).spec_depth() == old(self).spec_depth(),
            final(self).spec_iter_cap() == old(self).spec_iter_cap(),
            final(self).spec_min() == old(self).spec_min(),
            final(self).spec_scale() == old(self).spec_scale(),
    {
        if len > deltas.len() {
            return Err(UpdateErr::CountExceedsBatch);
        }
        if len > DELTA_BUFFER_RECORDS {
            return Err(UpdateErr::CountExceedsCapacity);
        }
        let ghost edits = spec_delta_edits(deltas@, len as int);
        let ghost er = crate::laws::spec_apply_edits(
            self.words@,
            self.active as int,
            self.capacity as int,
            self.max_depth as nat,
            edits,
        );
        proof {
            assert(edits.skip(0) =~= edits);
        }
        let mut i: usize = 0;
        while i < len
            invariant
                i <= len <= deltas.len(),
                len <= DELTA_BUFFER_RECORDS,
                self.wf(),
                old(self).wf(),
                self.capacity == old(self).capacity,
                self.max_depth == old(self).max_depth,
                self.max_traversal_iter == old(self).max_traversal_iter,
                self.min_x == old(self).min_x,
                self.min_y == old(self).min_y,
                self.min_z == old(self).min_z,
                self.scale == old(self).scale,
                self.block == old(self).block,
                edits == spec_delta_edits(deltas@, len as int),
                edits.len() == len,
                er == crate::laws::spec_apply_edits(
                    old(self).spec_words(),
                    old(self).spec_active(),
                    old(self).spec_capacity(),
                    old(self).spec_depth() as nat,
                    edits,
                ),
                crate::laws::spec_apply_edits(
                    self.words@,
                    self.active as int,
                    self.capacity as int,
                    self.max_depth as nat,
                    edits.skip(i as int),
                ) == er,
            decreases len - i,
        {
            let d = deltas[i];
            proof {
                assert(edits.skip(i as int)[0] == edits[i as int]);
                assert(edits[i as int] == (d.pos, d.value));
                assert(edits.skip(i as int).skip(1) =~= edits.skip(i as int + 1));
            }
            self.edit_point(&d.pos, d.value);
            i = i + 1;
        }
        proof {
            assert(edits.skip(len as int) =~= Seq::<(NormPoint, u32)>::empty());
        }
        let groups = crate::dispatch::group_count(len as u32, UPDATE_LOCAL_SIZE);
        Ok(UpdatePlan { records: len, groups })
    }
}

/// One axis of the world-to-normalized conversion: `d / s` of the root
/// edge as a 32-bit fraction, clamped below `NORM_ONE`.
pub open spec fn spec_normalize_axis(d: int, s: int) -> int {
    let q = d * NORM_ONE / s;
    if q < NORM_ONE {
        q
    } else {
        NORM_ONE - 1
    }
}

/// Scale `d` out of `s` into a 32-bit fixed-point fraction, clamped to
/// the largest representable coordinate.
fn normalize_axis(d: u64, s: u64) -> (r: u32)
    requires
        1 <= s <= MAX_SCALE,
        d <= s,
    ensures
        r as int == spec_normalize_axis(d as int, s as int),
{
    let q: u128 = (d as u128) * (NORM_ONE as u128) / (s as u128);
    if q >= NORM_ONE as u128 {
        0xFFFF_FFFFu32
    } else {
        q as u32
    }
}

/// Overwriting one slot of an allocated cell with a leaf keeps the buffer
/// well formed.
pub(crate) proof fn lemma_wf_after_leaf_write(
    w: Seq<u32>,
    active: int,
    cap: int,
    cell: int,
    o: int,
    payload: u32,
)
    requires
        buffer_wf(w, active, cap),
        0 <= cell < active,
        0 <= o < 8,
    ensures
        buffer_wf(
            w.update(slot_index_pos(cell, o), payload).update(slot_tag_pos(cell, o), LEAF),
            active,
            cap,
        ),
{
    let w2 = w.update(slot_index_pos(cell, o), payload).update(slot_tag_pos(cell, o), LEAF);
    assert forall|c: int, o2: int| 0 <= c < active && 0 <= o2 < 8
        implies #[trigger] valid_slot(w2, active, c, o2) by {
        assert(valid_slot(w, active, c, o2));
        if c == cell && o2 == o {
            assert(slot_tag(w2, c, o2) == LEAF);
        } else {
            assert(slot_tag_pos(c, o2) != slot_tag_pos(cell, o));
            assert(slot_tag_pos(c, o2) != slot_index_pos(cell, o));
            assert(slot_index_pos(c, o2) != slot_tag_pos(cell, o));
            assert(slot_index_pos(c, o2) != slot_index_pos(cell, o));
        }
    }
    assert forall|i: int| 16 * active <= i < 16 * cap implies #[trigger] w2[i] == 0u32 by {
        assert(slot_index_pos(cell, o) < 16 * active);
        assert(slot_tag_pos(cell, o) < 16 * active);
        assert(w[i] == 0u32);
    }
}

/// Claiming the next cell off the counter and pointing an `EMPTY` slot at
/// it keeps the buffer well formed: the fresh cell reads as eight `EMPTY`
/// slots because the unallocated region was zeroed.
pub(crate) proof fn lemma_wf_after_alloc(w: Seq<u32>, active: int, cap: int, cell: int, o: int)
    requires
        buffer_wf(w, active, cap),
        0 <= cell < active,
        0 <= o < 8,
        active < cap,
        active <= u32::MAX,
    ensures
        buffer_wf(
            w.update(slot_index_pos(cell, o), active as u32).update(slot_tag_pos(cell, o), PARENT),
            active + 1,
            cap,
        ),
{
    let w2 = w.update(slot_index_pos(cell, o), active as u32).update(slot_tag_pos(cell, o), PARENT);
    assert forall|c: int, o2: int| 0 <= c < active + 1 && 0 <= o2 < 8
        implies #[trigger] valid_slot(w2, active + 1, c, o2) by {
        if c == cell && o2 == o {
            assert(slot_tag(w2, c, o2) == PARENT);
            assert(slot_index(w2, c, o2) == active as u32);
            assert(cell < active < active + 1);
        } else if c < active {
            assert(valid_slot(w, active, c, o2));
            assert(slot_tag_pos(c, o2) != slot_tag_pos(cell, o));
            assert(slot_tag_pos(c, o2) != slot_index_pos(cell, o));
            assert(slot_index_pos(c, o2) != slot_tag_pos(cell, o));
            assert(slot_index_pos(c, o2) != slot_index_pos(cell, o));
        } else {
            // the freshly claimed cell: all of its words were in the
            // zeroed region, so every slot reads as EMPTY
            assert(c == active);
            assert(16 * active <= slot_tag_pos(c, o2) < 16 * (active + 1) <= 16 * cap);
            assert(w[slot_tag_pos(c, o2)] == 0u32);
            assert(slot_tag_pos(c, o2) != slot_tag_pos(cell, o));
            assert(slot_tag_pos(c, o2) != slot_index_pos(cell, o));
            assert(slot_tag(w2, c, o2) == EMPTY);
        }
    }
    assert forall|i: int| 16 * (active + 1) <= i < 16 * cap implies #[trigger] w2[i] == 0u32 by {
        assert(slot_index_pos(cell, o) < 16 * active);
        assert(slot_tag_pos(cell, o) < 16 * active);
        assert(w[i] == 0u32);
    }
}

/// `2^e` as a machine word.
fn pow2_u64(e: u32) -> (r: u64)
    requires
        e <= 48,
    ensures
        r as nat == pow2(e as nat),
        r >= 1,
{
    proof {
        lemma2_to64();
        lemma2_to64_rest();
    }
    let mut r: u64 = 1;
    let mut i: u32 = 0;
    while i < e
        invariant
            i <= e <= 48,
            r as nat == pow2(i as nat),
        decreases e - i,
    {
        proof {
            lemma_pow2_unfold((i + 1) as nat);
            if i + 1 < 48 {
                lemma_pow2_strictly_increases((i + 1) as nat, 48nat);
            }
            lemma2_to64();
            lemma2_to64_rest();
        }
        r = r * 2;
        i = i + 1;
    }
    r
}

} // verus!
