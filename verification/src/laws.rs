//! Structural laws of the update protocol, proved over the spec-level
//! model in [`crate::tree`]: the allocation counter only grows and hands
//! out each cell index at most once, an edit keeps the buffer well formed,
//! repeating an edit changes nothing and allocates nothing, and an applied
//! edit is visible to the read-only descent.

use vstd::prelude::*;

use crate::cube::{Cube, NormPoint, spec_octant, spec_child_cube, spec_root_cube};
use crate::tree::{
    PARENT, LEAF, EditResult, buffer_wf, valid_slot, slot_index_pos, slot_tag_pos,
    spec_edit, spec_edit_at, spec_lookup, spec_lookup_at,
    lemma_wf_after_leaf_write, lemma_wf_after_alloc,
};

verus! {

/// One edit never decreases the allocation counter and never pushes it
/// past the capacity; the buffer stays well formed throughout.
pub proof fn lemma_edit_at_wf(
    w: Seq<u32>,
    active: int,
    cap: int,
    cell: int,
    cube: Cube,
    p: NormPoint,
    payload: u32,
    levels: nat,
)
    requires
        buffer_wf(w, active, cap),
        0 <= cell < active,
        cap <= u32::MAX,
    ensures
        ({
            let r = spec_edit_at(w, active, cap, cell, cube, p, payload, levels);
            &&& active <= r.active <= cap
            &&& buffer_wf(r.words, r.active, cap)
        }),
    decreases levels,
{
    if levels == 0 {
    } else {
        let o = spec_octant(cube, p);
        let ip = slot_index_pos(cell, o);
        let tp = slot_tag_pos(cell, o);
        let t = w[tp];
        assert(valid_slot(w, active, cell, o));
        if t == LEAF || levels == 1 {
            lemma_wf_after_leaf_write(w, active, cap, cell, o, payload);
        } else if t == PARENT {
            lemma_edit_at_wf(
                w, active, cap, w[ip] as int, spec_child_cube(cube, o), p, payload,
                (levels - 1) as nat,
            );
        } else if active == cap {
        } else {
            lemma_wf_after_alloc(w, active, cap, cell, o);
            let w2 = w.update(ip, active as u32).update(tp, PARENT);
            lemma_edit_at_wf(
                w2, active + 1, cap, active, spec_child_cube(cube, o), p, payload,
                (levels - 1) as nat,
            );
        }
    }
}

/// An edit walking from `cell` writes only at word positions of cells at
/// or above `cell`: everything below `16 * cell` is left as it was, and
/// the buffer length never changes. (Parent references point strictly
/// upward, so the whole descent stays above the starting cell.)
pub proof fn lemma_edit_at_frame(
    w: Seq<u32>,
    active: int,
    cap: int,
    cell: int,
    cube: Cube,
    p: NormPoint,
    payload: u32,
    levels: nat,
)
    requires
        buffer_wf(w, active, cap),
        0 <= cell < active,
        cap <= u32::MAX,
    ensures
        ({
            let r = spec_edit_at(w, active, cap, cell, cube, p, payload, levels);
            &&& r.words.len() == w.len()
            &&& forall|i: int| 0 <= i < 16 * cell ==> (#[trigger] r.words[i]) == w[i]
        }),
    decreases levels,
{
    let r = spec_edit_at(w, active, cap, cell, cube, p, payload, levels);
    if levels == 0 {
    } else {
        let o = spec_octant(cube, p);
        let ip = slot_index_pos(cell, o);
        let tp = slot_tag_pos(cell, o);
        let t = w[tp];
        assert(valid_slot(w, active, cell, o));
        if t == LEAF || levels == 1 {
            assert forall|i: int| 0 <= i < 16 * cell implies (#[trigger] r.words[i]) == w[i] by {
                assert(i != ip && i != tp);
            }
        } else if t == PARENT {
            let child = w[ip] as int;
            lemma_edit_at_frame(
                w, active, cap, child, spec_child_cube(cube, o), p, payload, (levels - 1) as nat,
            );
            assert(16 * cell < 16 * child);
        } else if active == cap {
        } else {
            lemma_wf_after_alloc(w, active, cap, cell, o);
            let w2 = w.update(ip, active as u32).update(tp, PARENT);
            lemma_edit_at_frame(
                w2, active + 1, cap, active, spec_child_cube(cube, o), p, payload,
                (levels - 1) as nat,
            );
            assert(16 * cell + 16 <= 16 * active);
            assert forall|i: int| 0 <= i < 16 * cell implies (#[trigger] r.words[i]) == w[i] by {
                assert(r.words[i] == w2[i]);
                assert(i != ip && i != tp);
            }
        }
    }
}

/// Applying the same edit twice in a row is the same as applying it once:
/// the second pass walks the chain the first pass built, finds the same
/// leaf already in place, rewrites it with the same words, and allocates
/// nothing.
pub proof fn lemma_edit_at_idempotent(
    w: Seq<u32>,
    active: int,
    cap: int,
    cell: int,
    cube: Cube,
    p: NormPoint,
    payload: u32,
    levels: nat,
)
    requires
        buffer_wf(w, active, cap),
        0 <= cell < active,
        cap <= u32::MAX,
    ensures
        ({
            let r1 = spec_edit_at(w, active, cap, cell, cube, p, payload, levels);
            let r2 = spec_edit_at(r1.words, r1.active, cap, cell, cube, p, payload, levels);
            &&& r2.words == r1.words
            &&& r2.active == r1.active
            &&& r2.applied == r1.applied
        }),
    decreases levels,
{
    if levels == 0 {
    } else {
        let o = spec_octant(cube, p);
        let ip = slot_index_pos(cell, o);
        let tp = slot_tag_pos(cell, o);
        let t = w[tp];
        assert(valid_slot(w, active, cell, o));
        let r1 = spec_edit_at(w, active, cap, cell, cube, p, payload, levels);
        if t == LEAF || levels == 1 {
            // the slot now holds exactly the words the second pass writes
            assert(r1.words[tp] == LEAF);
            assert(r1.words[ip] == payload);
            let r2w = r1.words.update(ip, payload).update(tp, LEAF);
            assert(r2w =~= r1.words);
        } else if t == PARENT {
            let child = w[ip] as int;
            let ccube = spec_child_cube(cube, o);
            lemma_edit_at_wf(w, active, cap, child, ccube, p, payload, (levels - 1) as nat);
            lemma_edit_at_frame(w, active, cap, child, ccube, p, payload, (levels - 1) as nat);
            lemma_edit_at_idempotent(w, active, cap, child, ccube, p, payload, (levels - 1) as nat);
            // the slot that pointed at the child is below the child's words
            assert(ip < 16 * child && tp < 16 * child);
            assert(r1.words[tp] == PARENT);
            assert(r1.words[ip] == w[ip]);
        } else if active == cap {
            // nothing changed, so the second walk repeats the first exactly
        } else {
            let w2 = w.update(ip, active as u32).update(tp, PARENT);
            let ccube = spec_child_cube(cube, o);
            lemma_wf_after_alloc(w, active, cap, cell, o);
            lemma_edit_at_wf(w2, active + 1, cap, active, ccube, p, payload, (levels - 1) as nat);
            lemma_edit_at_frame(w2, active + 1, cap, active, ccube, p, payload, (levels - 1) as nat);
            lemma_edit_at_idempotent(
                w2, active + 1, cap, active, ccube, p, payload, (levels - 1) as nat,
            );
            assert(ip < 16 * active && tp < 16 * active);
            assert(r1.words[tp] == w2[tp]);
            assert(r1.words[ip] == w2[ip]);
            assert(r1.words[tp] == PARENT);
            assert(r1.words[ip] == active as u32);
            assert(r1.words[ip] as int == active);
        }
    }
}

/// Idempotent re-edit, stated at the root: editing the same point with
/// the same payload twice in succession leaves exactly the state the
/// first edit produced — the same leaf value and not one more cell.
pub proof fn lemma_edit_idempotent(
    w: Seq<u32>,
    active: int,
    cap: int,
    depth: nat,
    p: NormPoint,
    payload: u32,
)
    requires
        buffer_wf(w, active, cap),
        cap <= u32::MAX,
    ensures
        ({
            let r1 = spec_edit(w, active, cap, depth, p, payload);
            let r2 = spec_edit(r1.words, r1.active, cap, depth, p, payload);
            &&& r2.words == r1.words
            &&& r2.active == r1.active
            &&& r2.applied == r1.applied
        }),
{
    lemma_edit_at_idempotent(w, active, cap, 0, spec_root_cube(), p, payload, depth);
}

/// An edit that was applied is visible to the read-only descent: looking
/// the same point up in the edited buffer resolves to the written payload.
pub proof fn lemma_lookup_after_edit_at(
    w: Seq<u32>,
    active: int,
    cap: int,
    cell: int,
    cube: Cube,
    p: NormPoint,
    payload: u32,
    levels: nat,
)
    requires
        buffer_wf(w, active, cap),
        0 <= cell < active,
        cap <= u32::MAX,
    ensures
        ({
            let r = spec_edit_at(w, active, cap, cell, cube, p, payload, levels);
            r.applied ==> spec_lookup_at(r.words, cell, cube, p, levels) == Some(payload)
        }),
    decreases levels,
{
    if levels == 0 {
    } else {
        let o = spec_octant(cube, p);
        let ip = slot_index_pos(cell, o);
        let tp = slot_tag_pos(cell, o);
        let t = w[tp];
        assert(valid_slot(w, active, cell, o));
        let r = spec_edit_at(w, active, cap, cell, cube, p, payload, levels);
        if t == LEAF || levels == 1 {
            assert(r.words[tp] == LEAF);
            assert(r.words[ip] == payload);
        } else if t == PARENT {
            let child = w[ip] as int;
            let ccube = spec_child_cube(cube, o);
            lemma_edit_at_frame(w, active, cap, child, ccube, p, payload, (levels - 1) as nat);
            lemma_lookup_after_edit_at(
                w, active, cap, child, ccube, p, payload, (levels - 1) as nat,
            );
            assert(ip < 16 * child && tp < 16 * child);
            assert(r.words[tp] == PARENT);
            assert(r.words[ip] as int == child);
        } else if active == cap {
        } else {
            let w2 = w.update(ip, active as u32).update(tp, PARENT);
            let ccube = spec_child_cube(cube, o);
            lemma_wf_after_alloc(w, active, cap, cell, o);
            lemma_edit_at_frame(w2, active + 1, cap, active, ccube, p, payload, (levels - 1) as nat);
            lemma_lookup_after_edit_at(
                w2, active + 1, cap, active, ccube, p, payload, (levels - 1) as nat,
            );
            assert(ip < 16 * active && tp < 16 * active);
            assert(r.words[tp] == w2[tp]);
            assert(r.words[ip] == w2[ip]);
            assert(r.words[tp] == PARENT);
            assert(r.words[ip] as int == active);
        }
    }
}

/// An applied edit is visible from the root: the raytrace descent of the
/// edited point resolves to the payload the update pass wrote.
pub proof fn lemma_lookup_after_edit(
    w: Seq<u32>,
    active: int,
    cap: int,
    depth: nat,
    p: NormPoint,
    payload: u32,
)
    requires
        buffer_wf(w, active, cap),
        cap <= u32::MAX,
    ensures
        ({
            let r = spec_edit(w, active, cap, depth, p, payload);
            r.applied ==> spec_lookup(r.words, depth, p) == Some(payload)
        }),
{
    lemma_lookup_after_edit_at(w, active, cap, 0, spec_root_cube(), p, payload, depth);
}

/// A batch of edits applied in order, front to back.
pub open spec fn spec_apply_edits(
    w: Seq<u32>,
    active: int,
    cap: int,
    depth: nat,
    edits: Seq<(NormPoint, u32)>,
) -> EditResult
    decreases edits.len(),
{
    if edits.len() == 0 {
        EditResult { words: w, active, applied: true }
    } else {
        let r = spec_edit(w, active, cap, depth, edits[0].0, edits[0].1);
        spec_apply_edits(r.words, r.active, cap, depth, edits.skip(1))
    }
}

/// How many fresh cells each edit of a batch claims, in order.
pub open spec fn spec_alloc_counts(
    w: Seq<u32>,
    active: int,
    cap: int,
    depth: nat,
    edits: Seq<(NormPoint, u32)>,
) -> Seq<int>
    decreases edits.len(),
{
    if edits.len() == 0 {
        Seq::empty()
    } else {
        let r = spec_edit(w, active, cap, depth, edits[0].0, edits[0].1);
        seq![r.active - active] + spec_alloc_counts(r.words, r.active, cap, depth, edits.skip(1))
    }
}

/// The allocation counter before each edit of a batch, and after the last.
pub open spec fn spec_counter_trace(
    w: Seq<u32>,
    active: int,
    cap: int,
    depth: nat,
    edits: Seq<(NormPoint, u32)>,
) -> Seq<int>
    decreases edits.len(),
{
    if edits.len() == 0 {
        seq![active]
    } else {
        let r = spec_edit(w, active, cap, depth, edits[0].0, edits[0].1);
        seq![active] + spec_counter_trace(r.words, r.active, cap, depth, edits.skip(1))
    }
}

/// Sum of a sequence of integers.
pub open spec fn spec_sum(s: Seq<int>) -> int
    decreases s.len(),
{
    if s.len() == 0 {
        0
    } else {
        s[0] + spec_sum(s.skip(1))
    }
}

/// Allocation monotonicity for a batch of edits: each edit claims its
/// cells as one contiguous run starting at the counter it found, the
/// counter never decreases, the counter after the batch is the starting
/// counter plus the sum of the per-edit claims (for a fresh tree, `1 +
/// sum(K_i)`), and the runs of two different edits never overlap — no
/// cell index is ever handed out twice. The buffer stays well formed.
pub proof fn lemma_allocation_monotonic(
    w: Seq<u32>,
    active: int,
    cap: int,
    depth: nat,
    edits: Seq<(NormPoint, u32)>,
)
    requires
        buffer_wf(w, active, cap),
        cap <= u32::MAX,
    ensures
        ({
            let r = spec_apply_edits(w, active, cap, depth, edits);
            let ks = spec_alloc_counts(w, active, cap, depth, edits);
            let tr = spec_counter_trace(w, active, cap, depth, edits);
            &&& ks.len() == edits.len()
            &&& tr.len() == edits.len() + 1
            &&& tr[0] == active
            &&& tr[edits.len() as int] == r.active
            &&& forall|i: int| 0 <= i < ks.len() ==> #[trigger] ks[i] >= 0
            &&& forall|i: int| 0 <= i < edits.len() ==> #[trigger] tr[i + 1] == tr[i] + ks[i]
            &&& r.active == active + spec_sum(ks)
            &&& buffer_wf(r.words, r.active, cap)
            &&& active <= r.active <= cap
        }),
    decreases edits.len(),
{
    if edits.len() == 0 {
        assert(spec_sum(Seq::<int>::empty()) == 0);
    } else {
        let r0 = spec_edit(w, active, cap, depth, edits[0].0, edits[0].1);
        lemma_edit_at_wf(w, active, cap, 0, spec_root_cube(), edits[0].0, edits[0].1, depth);
        lemma_allocation_monotonic(r0.words, r0.active, cap, depth, edits.skip(1));
        let ks = spec_alloc_counts(w, active, cap, depth, edits);
        let ks1 = spec_alloc_counts(r0.words, r0.active, cap, depth, edits.skip(1));
        let tr = spec_counter_trace(w, active, cap, depth, edits);
        let tr1 = spec_counter_trace(r0.words, r0.active, cap, depth, edits.skip(1));
        assert(ks =~= seq![r0.active - active] + ks1);
        assert(tr =~= seq![active] + tr1);
        assert(ks.skip(1) =~= ks1);
        assert forall|i: int| 0 <= i < edits.len() implies #[trigger] tr[i + 1] == tr[i] + ks[i] by {
            if i > 0 {
                assert(tr1[i] == tr1[(i - 1) + 1]);
                assert(tr1[(i - 1) + 1] == tr1[i - 1] + ks1[i - 1]);
            }
        }
    }
}

/// No cell is handed out twice across a batch: the runs of fresh cells
/// claimed by two different edits are disjoint, because the counter a
/// later edit starts from is at or past the end of every earlier run.
pub proof fn lemma_allocation_runs_disjoint(
    w: Seq<u32>,
    active: int,
    cap: int,
    depth: nat,
    edits: Seq<(NormPoint, u32)>,
    i: int,
    j: int,
)
    requires
        buffer_wf(w, active, cap),
        cap <= u32::MAX,
        0 <= i < j < edits.len(),
    ensures
        ({
            let ks = spec_alloc_counts(w, active, cap, depth, edits);
            let tr = spec_counter_trace(w, active, cap, depth, edits);
            // edit i claims cells [tr[i], tr[i] + ks[i]); edit j starts at
            // or past that run's end
            tr[i] + ks[i] <= tr[j]
        }),
    decreases j - i,
{
    let ks = spec_alloc_counts(w, active, cap, depth, edits);
    let tr = spec_counter_trace(w, active, cap, depth, edits);
    lemma_allocation_monotonic(w, active, cap, depth, edits);
    if i + 1 == j {
        assert(tr[i + 1] == tr[i] + ks[i]);
    } else {
        lemma_allocation_runs_disjoint(w, active, cap, depth, edits, i + 1, j);
        assert(tr[i + 1] == tr[i] + ks[i]);
        assert(ks[i + 1] >= 0);
        assert(tr[i + 1] + ks[i + 1] <= tr[j]);
    }
}

} // verus!
