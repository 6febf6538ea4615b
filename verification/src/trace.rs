//! The raytrace pass's tree walk, modeled per sample: a ray marches in
//! fixed steps through normalized coordinate space and resolves the first
//! leaf it lands in, giving up after the traversal step budget. The flat
//! buffer has no recursion on the GPU, so the budget — not the tree shape
//! — bounds every walk.

use vstd::prelude::*;

use crate::cube::{NormPoint, NORM_ONE};
use crate::tree::{Octree, spec_lookup};

verus! {

/// Largest magnitude of a ray origin coordinate, in normalized units
/// scaled by `NORM_ONE`.
pub const MAX_RAY_COORD: i64 = 0x1_0000_0000_0000;

/// Largest magnitude of a per-step ray advance on one axis.
pub const MAX_RAY_STEP: i64 = 0x4000_0000;

/// A position or per-step advance in normalized coordinate space: signed,
/// so rays may start and travel outside the root cube, with `NORM_ONE`
/// spanning one root edge.
#[derive(Clone, Copy, PartialEq, Eq, Structural, Debug)]
pub struct RayVec {
    pub x: i64,
    pub y: i64,
    pub z: i64,
}

/// What a traversal resolved: the nearest sampled leaf and the step that
/// reached it, or a miss (background).
#[derive(Clone, Copy, PartialEq, Eq, Structural, Debug)]
pub enum TraceResult {
    Hit { payload: u32, steps: u32 },
    Miss,
}

/// The ray's position after `k` steps.
pub open spec fn spec_ray_sample(origin: RayVec, dir: RayVec, k: int) -> (int, int, int) {
    (origin.x + k * dir.x, origin.y + k * dir.y, origin.z + k * dir.z)
}

/// Whether a sample lies inside the root cube.
pub open spec fn spec_sample_inside(s: (int, int, int)) -> bool {
    &&& 0 <= s.0 < NORM_ONE
    &&& 0 <= s.1 < NORM_ONE
    &&& 0 <= s.2 < NORM_ONE
}

/// A sample inside the root cube as a normalized point.
pub open spec fn spec_sample_point(s: (int, int, int)) -> NormPoint {
    NormPoint { x: s.0 as u32, y: s.1 as u32, z: s.2 as u32 }
}

/// The march from step `k` with `left` steps of budget remaining: resolve
/// the first sample that lies inside the root cube and lands in a leaf;
/// exhausting the budget is a miss.
pub open spec fn spec_trace_from(
    w: Seq<u32>,
    depth: nat,
    origin: RayVec,
    dir: RayVec,
    left: nat,
    k: nat,
) -> TraceResult
    decreases left,
{
    if left == 0 {
        TraceResult::Miss
    } else {
        let s = spec_ray_sample(origin, dir, k as int);
        if spec_sample_inside(s) && spec_lookup(w, depth, spec_sample_point(s)) is Some {
            TraceResult::Hit {
                payload: spec_lookup(w, depth, spec_sample_point(s))->Some_0,
                steps: k as u32,
            }
        } else {
            spec_trace_from(w, depth, origin, dir, (left - 1) as nat, k + 1)
        }
    }
}

/// The whole march: at most `budget` samples, starting at the origin.
pub open spec fn spec_trace(
    w: Seq<u32>,
    depth: nat,
    origin: RayVec,
    dir: RayVec,
    budget: nat,
) -> TraceResult {
    spec_trace_from(w, depth, origin, dir, budget, 0)
}

impl Octree {
    /// March a ray through the tree, one fixed step per iteration, and
    /// resolve the first sampled leaf. The walk takes at most
    /// `max_traversal_iter` steps whatever the buffer holds — the budget
    /// is the only termination guarantee the flat addressing scheme has —
    /// and a ray whose samples never land in a leaf yields the miss
    /// result.
    pub fn raytrace(&self, origin: &RayVec, dir: &RayVec) -> (r: TraceResult)
        requires
            self.wf(),
            -MAX_RAY_COORD <= origin.x <= MAX_RAY_COORD,
            -MAX_RAY_COORD <= origin.y <= MAX_RAY_COORD,
            -MAX_RAY_COORD <= origin.z <= MAX_RAY_COORD,
            -MAX_RAY_STEP <= dir.x <= MAX_RAY_STEP,
            -MAX_RAY_STEP <= dir.y <= MAX_RAY_STEP,
            -MAX_RAY_STEP <= dir.z <= MAX_RAY_STEP,
        ensures
            r == spec_trace(
                self.spec_words(),
                self.spec_depth() as nat,
                *origin,
                *dir,
                self.spec_iter_cap() as nat,
            ),
            r matches TraceResult::Hit { payload, steps } ==> steps < self.spec_iter_cap(),
    {
        let cap = self.max_traversal_iter();
        let mut k: u32 = 0;
        let mut px = origin.x;
        let mut py = origin.y;
        let mut pz = origin.z;
        while k < cap
            invariant
                self.wf(),
                k <= cap,
                cap == self.spec_iter_cap(),
                -MAX_RAY_COORD <= origin.x <= MAX_RAY_COORD,
                -MAX_RAY_COORD <= origin.y <= MAX_RAY_COORD,
                -MAX_RAY_COORD <= origin.z <= MAX_RAY_COORD,
                -MAX_RAY_STEP <= dir.x <= MAX_RAY_STEP,
                -MAX_RAY_STEP <= dir.y <= MAX_RAY_STEP,
                -MAX_RAY_STEP <= dir.z <= MAX_RAY_STEP,
                px == origin.x + k as int * dir.x,
                py == origin.y + k as int * dir.y,
                pz == origin.z + k as int * dir.z,
                -(MAX_RAY_COORD + k as int * MAX_RAY_STEP) <= px
                    <= MAX_RAY_COORD + k as int * MAX_RAY_STEP,
                -(MAX_RAY_COORD + k as int * MAX_RAY_STEP) <= py
                    <= MAX_RAY_COORD + k as int * MAX_RAY_STEP,
                -(MAX_RAY_COORD + k as int * MAX_RAY_STEP) <= pz
                    <= MAX_RAY_COORD + k as int * MAX_RAY_STEP,
                spec_trace_from(
                    self.spec_words(),
                    self.spec_depth() as nat,
                    *origin,
                    *dir,
                    (cap - k) as nat,
                    k as nat,
                ) == spec_trace(
                    self.spec_words(),
                    self.spec_depth() as nat,
                    *origin,
                    *dir,
                    cap as nat,
                ),
            decreases cap - k,
        {
            let inside = px >= 0 && px < NORM_ONE as i64 && py >= 0 && py < NORM_ONE as i64
                && pz >= 0 && pz < NORM_ONE as i64;
            if inside {
                let p = NormPoint { x: px as u32, y: py as u32, z: pz as u32 };
                proof {
                    assert(p == spec_sample_point(spec_ray_sample(*origin, *dir, k as int)));
                }
                match self.leaf_at(&p) {
                    Some(payload) => {
                        return TraceResult::Hit { payload, steps: k };
                    },
                    None => {},
                }
            }
            proof {
                // each axis advances by at most one step bound, staying
                // far inside the i64 range for any step count
                assert(k as int * MAX_RAY_STEP + MAX_RAY_STEP == (k as int + 1) * MAX_RAY_STEP);
                assert((k as int + 1) * dir.x == k as int * dir.x + dir.x) by (nonlinear_arith);
                assert((k as int + 1) * dir.y == k as int * dir.y + dir.y) by (nonlinear_arith);
                assert((k as int + 1) * dir.z == k as int * dir.z + dir.z) by (nonlinear_arith);
            }
            px = px + dir.x;
            py = py + dir.y;
            pz = pz + dir.z;
            k = k + 1;
        }
        TraceResult::Miss
    }
}

/// Traversal bound: a ray whose samples never enter the root cube — in
/// particular one aimed entirely outside it — resolves to the miss result,
/// and does so within the traversal step budget (the walk above takes at
/// most that many steps by construction).
pub proof fn lemma_trace_misses_outside(
    w: Seq<u32>,
    depth: nat,
    origin: RayVec,
    dir: RayVec,
    left: nat,
    k: nat,
)
    requires
        forall|j: int|
            k <= j < k + left ==> !spec_sample_inside(#[trigger] spec_ray_sample(origin, dir, j)),
    ensures
        spec_trace_from(w, depth, origin, dir, left, k) == TraceResult::Miss,
    decreases left,
{
    if left == 0 {
    } else {
        assert(!spec_sample_inside(spec_ray_sample(origin, dir, k as int)));
        lemma_trace_misses_outside(w, depth, origin, dir, (left - 1) as nat, k + 1);
    }
}

/// Traversal bound, stated for the whole march: if no sample within the
/// budget lies inside the root cube, the traversal is a miss.
pub proof fn lemma_trace_miss(w: Seq<u32>, depth: nat, origin: RayVec, dir: RayVec, budget: nat)
    requires
        forall|j: int|
            0 <= j < budget ==> !spec_sample_inside(#[trigger] spec_ray_sample(origin, dir, j)),
    ensures
        spec_trace(w, depth, origin, dir, budget) == TraceResult::Miss,
{
    lemma_trace_misses_outside(w, depth, origin, dir, budget, 0);
}

} // verus!
