//! Spatial addressing for the octree: normalized tree-local coordinates,
//! axis-aligned cubes, octant selection by comparison against a cube's
//! center, and cube subdivision. The update pass and the raytrace pass
//! must agree on this scheme exactly, so both sides of the library speak
//! in terms of these functions.

use vstd::prelude::*;
use vstd::arithmetic::power2::*;

verus! {

/// Edge length of the root cube in normalized units. A point inside the
/// root cube has coordinates in `[0, NORM_ONE)` on each axis, stored as a
/// 32-bit fixed-point fraction of the root edge.
pub const NORM_ONE: u64 = 0x1_0000_0000;

/// Number of fractional bits of a normalized coordinate; a tree deeper
/// than this cannot distinguish sibling cubes, so `max_depth` is capped
/// at this value.
pub const NORM_BITS: u32 = 32;

/// A point in normalized tree-local coordinates: each axis is a 32-bit
/// fixed-point fraction of the root cube's edge, so the root cube is
/// exactly `[0, 1)^3`.
#[derive(Clone, Copy, PartialEq, Eq, Structural, Debug)]
pub struct NormPoint {
    pub x: u32,
    pub y: u32,
    pub z: u32,
}

/// An axis-aligned cube in normalized coordinates, described by its
/// minimum corner and edge length.
#[derive(Clone, Copy, PartialEq, Eq, Structural, Debug)]
pub struct Cube {
    pub x: u64,
    pub y: u64,
    pub z: u64,
    pub edge: u64,
}

/// The root cube: the whole normalized coordinate space.
pub open spec fn spec_root_cube() -> Cube {
    Cube { x: 0, y: 0, z: 0, edge: NORM_ONE }
}

/// A cube that lies inside the root cube and has been produced by `d`
/// halvings of the root edge.
pub open spec fn cube_wf(c: Cube, d: nat) -> bool {
    &&& c.edge == pow2((NORM_BITS - d) as nat)
    &&& d <= NORM_BITS
    &&& c.x + c.edge <= NORM_ONE
    &&& c.y + c.edge <= NORM_ONE
    &&& c.z + c.edge <= NORM_ONE
}

/// Whether a point lies inside a cube (minimum corner inclusive,
/// opposite corner exclusive).
pub open spec fn spec_contains(c: Cube, p: NormPoint) -> bool {
    &&& c.x <= p.x < c.x + c.edge
    &&& c.y <= p.y < c.y + c.edge
    &&& c.z <= p.z < c.z + c.edge
}

/// The octant (0..8) of a point within a cube: one bit per axis, set when
/// the coordinate is at or beyond the cube's center. Bit 0 is x, bit 1 is
/// y, bit 2 is z; the update and raytrace passes share this ordering.
pub open spec fn spec_octant(c: Cube, p: NormPoint) -> int {
    let half = c.edge / 2;
    (if p.x >= c.x + half { 1int } else { 0int })
        + (if p.y >= c.y + half { 2int } else { 0int })
        + (if p.z >= c.z + half { 4int } else { 0int })
}

/// The sub-cube of `c` in octant `o`: half the edge, offset by half the
/// edge on each axis whose octant bit is set.
pub open spec fn spec_child_cube(c: Cube, o: int) -> Cube {
    let half = c.edge / 2;
    Cube {
        x: (c.x + if o % 2 == 1 { half } else { 0 }) as u64,
        y: (c.y + if (o / 2) % 2 == 1 { half } else { 0 }) as u64,
        z: (c.z + if o / 4 == 1 { half } else { 0 }) as u64,
        edge: half,
    }
}

/// The root cube of the normalized coordinate space.
pub fn root_cube() -> (c: Cube)
    ensures
        c == spec_root_cube(),
        cube_wf(c, 0),
{
    proof {
        lemma2_to64();
        lemma2_to64_rest();
    }
    Cube { x: 0, y: 0, z: 0, edge: NORM_ONE }
}

/// Octant of `p` within `c`, by comparing each coordinate against the
/// cube's center.
pub fn octant_of(c: &Cube, p: &NormPoint) -> (o: u32)
    requires
        c.x + c.edge <= NORM_ONE,
        c.y + c.edge <= NORM_ONE,
        c.z + c.edge <= NORM_ONE,
    ensures
        o == spec_octant(*c, *p),
        o < 8,
{
    let half = c.edge / 2;
    let bx: u32 = if (p.x as u64) >= c.x + half { 1 } else { 0 };
    let by: u32 = if (p.y as u64) >= c.y + half { 2 } else { 0 };
    let bz: u32 = if (p.z as u64) >= c.z + half { 4 } else { 0 };
    bx + by + bz
}

/// The sub-cube of `c` in octant `o`.
pub fn child_cube(c: &Cube, o: u32) -> (r: Cube)
    requires
        o < 8,
        c.x + c.edge <= NORM_ONE,
        c.y + c.edge <= NORM_ONE,
        c.z + c.edge <= NORM_ONE,
    ensures
        r == spec_child_cube(*c, o as int),
{
    let half = c.edge / 2;
    Cube {
        x: if o % 2 == 1 { c.x + half } else { c.x },
        y: if (o / 2) % 2 == 1 { c.y + half } else { c.y },
        z: if o / 4 == 1 { c.z + half } else { c.z },
        edge: half,
    }
}

/// Subdividing a well-formed cube yields a well-formed cube one level
/// deeper, and the sub-cube selected by `spec_octant` still contains the
/// point. This is the step that makes the descent in the update and
/// raytrace passes sound.
pub proof fn lemma_child_cube_contains(c: Cube, p: NormPoint, d: nat)
    requires
        cube_wf(c, d),
        d < NORM_BITS,
        spec_contains(c, p),
    ensures
        cube_wf(spec_child_cube(c, spec_octant(c, p)), d + 1),
        spec_contains(spec_child_cube(c, spec_octant(c, p)), p),
{
    let o = spec_octant(c, p);
    let half = c.edge / 2;
    assert(c.edge == pow2((NORM_BITS - d) as nat));
    assert(pow2((NORM_BITS - d) as nat) == 2 * pow2((NORM_BITS - d - 1) as nat)) by {
        lemma_pow2_unfold((NORM_BITS - d) as nat);
    }
    assert(half == pow2((NORM_BITS - (d + 1)) as nat));
    assert(c.edge == 2 * half);
}

/// The octant path of a point: the octants selected at each of `depth`
/// successive subdivisions starting from cube `c`.
pub open spec fn spec_octant_path_from(c: Cube, p: NormPoint, depth: nat) -> Seq<int>
    decreases depth,
{
    if depth == 0 {
        Seq::empty()
    } else {
        let o = spec_octant(c, p);
        seq![o] + spec_octant_path_from(spec_child_cube(c, o), p, (depth - 1) as nat)
    }
}

/// The octant path of a point below the root cube.
pub open spec fn spec_octant_path(p: NormPoint, depth: nat) -> Seq<int> {
    spec_octant_path_from(spec_root_cube(), p, depth)
}

/// The cube reached from `c` by taking the given octants in order.
pub open spec fn spec_cube_from_path_from(c: Cube, path: Seq<int>) -> Cube
    decreases path.len(),
{
    if path.len() == 0 {
        c
    } else {
        spec_cube_from_path_from(spec_child_cube(c, path[0]), path.skip(1))
    }
}

/// The cube reached from the root by taking the given octants in order.
pub open spec fn spec_cube_from_path(path: Seq<int>) -> Cube {
    spec_cube_from_path_from(spec_root_cube(), path)
}

proof fn lemma_roundtrip_from(c: Cube, p: NormPoint, d: nat, depth: nat)
    requires
        cube_wf(c, d),
        spec_contains(c, p),
        d + depth <= NORM_BITS,
    ensures
        ({
            let rc = spec_cube_from_path_from(c, spec_octant_path_from(c, p, depth));
            &&& cube_wf(rc, d + depth)
            &&& spec_contains(rc, p)
        }),
    decreases depth,
{
    if depth == 0 {
        assert(spec_octant_path_from(c, p, 0) =~= Seq::<int>::empty());
    } else {
        let o = spec_octant(c, p);
        let child = spec_child_cube(c, o);
        lemma_child_cube_contains(c, p, d);
        lemma_roundtrip_from(child, p, d + 1, (depth - 1) as nat);
        let tail = spec_octant_path_from(child, p, (depth - 1) as nat);
        assert((seq![o] + tail).skip(1) =~= tail);
        assert((seq![o] + tail)[0] == o);
    }
}

/// Round-trip addressing: descending `depth` levels by octant selection
/// and then re-deriving the cube bounds from the recorded octant path
/// reproduces a cube that still contains the point, with edge length the
/// root edge divided by `2^depth`.
pub proof fn lemma_octant_path_roundtrip(p: NormPoint, depth: nat)
    requires
        depth <= NORM_BITS,
    ensures
        ({
            let rc = spec_cube_from_path(spec_octant_path(p, depth));
            &&& spec_contains(rc, p)
            &&& rc.edge == pow2((NORM_BITS - depth) as nat)
        }),
{
    lemma2_to64();
    lemma2_to64_rest();
    assert(cube_wf(spec_root_cube(), 0));
    lemma_roundtrip_from(spec_root_cube(), p, 0, depth);
}

/// The octant path of a point below the root, computed step by step with
/// the same helpers the update pass uses.
pub fn octant_path(p: &NormPoint, depth: u32) -> (path: Vec<u32>)
    requires
        depth <= NORM_BITS,
    ensures
        path.len() == depth,
        path@.map_values(|o: u32| o as int) == spec_octant_path(*p, depth as nat),
{
    let mut path: Vec<u32> = Vec::new();
    let mut cube = root_cube();
    let mut i: u32 = 0;
    proof {
        assert(spec_octant_path(*p, depth as nat) == spec_octant_path_from(spec_root_cube(), *p, depth as nat));
    }
    while i < depth
        invariant
            i <= depth,
            depth <= NORM_BITS,
            path.len() == i,
            cube.x + cube.edge <= NORM_ONE,
            cube.y + cube.edge <= NORM_ONE,
            cube.z + cube.edge <= NORM_ONE,
            spec_octant_path(*p, depth as nat) == path@.map_values(|o: u32| o as int)
                + spec_octant_path_from(cube, *p, (depth - i) as nat),
        decreases depth - i,
    {
        let o = octant_of(&cube, p);
        let ghost prev_path = path@;
        let ghost prev_cube = cube;
        path.push(o);
        cube = child_cube(&cube, o);
        proof {
            let rest = spec_octant_path_from(cube, *p, (depth - i - 1) as nat);
            assert(spec_octant_path_from(prev_cube, *p, (depth - i) as nat) == seq![o as int] + rest);
            assert(path@.map_values(|q: u32| q as int) =~= prev_path.map_values(|q: u32| q as int) + seq![o as int]);
            assert(prev_path.map_values(|q: u32| q as int) + (seq![o as int] + rest)
                =~= (prev_path.map_values(|q: u32| q as int) + seq![o as int]) + rest);
        }
        i = i + 1;
    }
    proof {
        assert(spec_octant_path_from(cube, *p, 0) =~= Seq::<int>::empty());
        assert(path@.map_values(|o: u32| o as int) + Seq::<int>::empty() =~= path@.map_values(|o: u32| o as int));
    }
    path
}

/// Re-derive the cube bounds described by an octant path, starting from
/// the root cube.
pub fn cube_from_path(path: &Vec<u32>) -> (c: Cube)
    requires
        forall|i: int| 0 <= i < path.len() ==> path[i] < 8,
    ensures
        c == spec_cube_from_path(path@.map_values(|o: u32| o as int)),
{
    let mut cube = root_cube();
    let mut i: usize = 0;
    proof {
        lemma2_to64();
        lemma2_to64_rest();
        assert(path@.skip(0) =~= path@);
    }
    while i < path.len()
        invariant
            i <= path.len(),
            forall|j: int| 0 <= j < path.len() ==> path[j] < 8,
            cube.x + cube.edge <= NORM_ONE,
            cube.y + cube.edge <= NORM_ONE,
            cube.z + cube.edge <= NORM_ONE,
            spec_cube_from_path(path@.map_values(|o: u32| o as int))
                == spec_cube_from_path_from(cube, path@.skip(i as int).map_values(|o: u32| o as int)),
        decreases path.len() - i,
    {
        let o = path[i];
        let ghost before = path@.skip(i as int).map_values(|q: u32| q as int);
        proof {
            assert(before[0] == o as int);
            assert(before.skip(1) =~= path@.skip(i as int + 1).map_values(|q: u32| q as int));
            assert(spec_cube_from_path_from(cube, before)
                == spec_cube_from_path_from(spec_child_cube(cube, o as int), before.skip(1)));
        }
        let next = child_cube(&cube, o);
        proof {
            let half = cube.edge / 2;
            assert(next.x + next.edge <= NORM_ONE);
        }
        cube = next;
        i = i + 1;
    }
    proof {
        assert(path@.skip(path.len() as int).map_values(|q: u32| q as int) =~= Seq::<int>::empty());
    }
    cube
}

} // verus!
