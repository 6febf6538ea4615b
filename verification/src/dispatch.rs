//! Dispatch sizing and the barrier discipline that orders the GPU passes.
//!
//! Work-group counts are derived from a requested extent and the compute
//! program's declared local size: divide rounding up, with a floor of one
//! group per axis so even a sub-group-size output gets one dispatch.
//!
//! Ordering between dispatches exists only where the command stream issues
//! an explicit memory barrier: the sequencer tracks which writes are still
//! unordered and refuses a pass that would read them too early.

use vstd::prelude::*;
use vstd::arithmetic::div_mod::lemma_fundamental_div_mod;

verus! {

/// Work groups needed to cover `extent` invocations with `local`
/// invocations per group: `extent / local` rounded up, floored at one.
pub open spec fn spec_group_count(extent: int, local: int) -> int {
    if extent == 0 {
        1
    } else {
        (extent - 1) / local + 1
    }
}

/// Number of work groups covering `extent` invocations at `local`
/// invocations per group. At least one group is dispatched, at least
/// `extent` invocations execute, and no whole group is wasted.
pub fn group_count(extent: u32, local: u32) -> (r: u32)
    requires
        1 <= local,
    ensures
        r == spec_group_count(extent as int, local as int),
        r >= 1,
        r * local >= extent,
        extent > 0 ==> (r - 1) * local < extent,
{
    if extent == 0 {
        1
    } else {
        let q = (extent - 1) / local;
        proof {
            let e = extent as int;
            let l = local as int;
            let rm = (e - 1) % l;
            lemma_fundamental_div_mod(e - 1, l);
            vstd::arithmetic::div_mod::lemma_mod_bound(e - 1, l);
            assert((q as int + 1) * l >= e && q as int * l < e) by (nonlinear_arith)
                requires
                    e - 1 == l * (q as int) + rm,
                    0 <= rm < l,
                    1 <= l,
            ;
        }
        q + 1
    }
}

/// Work-group counts for a three-dimensional dispatch, one count per axis.
pub fn dispatch_group_counts(
    width: u32,
    height: u32,
    depth: u32,
    local_x: u32,
    local_y: u32,
    local_z: u32,
) -> (r: (u32, u32, u32))
    requires
        1 <= local_x,
        1 <= local_y,
        1 <= local_z,
    ensures
        r.0 == spec_group_count(width as int, local_x as int),
        r.1 == spec_group_count(height as int, local_y as int),
        r.2 == spec_group_count(depth as int, local_z as int),
        r.0 * local_x >= width && r.1 * local_y >= height && r.2 * local_z >= depth,
        r.0 >= 1 && r.1 >= 1 && r.2 >= 1,
{
    (group_count(width, local_x), group_count(height, local_y), group_count(depth, local_z))
}

/// Why a dispatch was refused by the sequencer.
#[derive(Clone, Copy, PartialEq, Eq, Structural, Debug)]
pub enum OrderingErr {
    /// The node buffer still has writes that no barrier has made visible;
    /// a traversal dispatched now could read stale data.
    NodeWritesUnordered,
}

/// Tracks which buffer writes of the frame are not yet ordered by a
/// memory barrier. The single CPU thread that owns the context records
/// each dispatch and barrier here, in program order; the sequencer
/// enforces that every update dispatch is barrier-separated from the next
/// raytrace dispatch, and every raytrace dispatch from the final blit.
pub struct DispatchSequencer {
    node_writes_pending: bool,
    image_writes_pending: bool,
}

impl DispatchSequencer {
    /// Node-buffer writes not yet covered by a barrier.
    pub closed spec fn spec_node_writes_pending(&self) -> bool {
        self.node_writes_pending
    }

    /// Output-image writes not yet covered by a barrier.
    pub closed spec fn spec_image_writes_pending(&self) -> bool {
        self.image_writes_pending
    }

    /// A fresh command stream: nothing dispatched, nothing pending.
    pub fn new() -> (r: DispatchSequencer)
        ensures
            !r.spec_node_writes_pending(),
            !r.spec_image_writes_pending(),
    {
        DispatchSequencer { node_writes_pending: false, image_writes_pending: false }
    }

    /// An update compute pass was dispatched: its node-buffer writes are
    /// unordered until a node-buffer barrier is issued.
    pub fn update_dispatched(&mut self)
        ensures
            final(self).spec_node_writes_pending(),
            final(self).spec_image_writes_pending() == old(self).spec_image_writes_pending(),
    {
        self.node_writes_pending = true;
    }

    /// A barrier covering shader-storage reads of the node buffer was
    /// issued: earlier update writes are now visible to later dispatches.
    pub fn node_buffer_barrier(&mut self)
        ensures
            !final(self).spec_node_writes_pending(),
            final(self).spec_image_writes_pending() == old(self).spec_image_writes_pending(),
    {
        self.node_writes_pending = false;
    }

    /// A barrier covering image reads of the output texture was issued:
    /// earlier raytrace writes are now visible to the compositing draw.
    pub fn image_barrier(&mut self)
        ensures
            !final(self).spec_image_writes_pending(),
            final(self).spec_node_writes_pending() == old(self).spec_node_writes_pending(),
    {
        self.image_writes_pending = false;
    }

    /// Record a raytrace dispatch. Refused while node-buffer writes are
    /// unordered: the traversal would race the update pass. On success the
    /// output image carries unordered writes until an image barrier.
    pub fn raytrace_dispatched(&mut self) -> (r: Result<(), OrderingErr>)
        ensures
            r is Ok <==> !old(self).spec_node_writes_pending(),
            r is Ok ==> !final(self).spec_node_writes_pending()
                && final(self).spec_image_writes_pending(),
            r is Err ==> *final(self) == *old(self)
                && r == Err::<(), OrderingErr>(OrderingErr::NodeWritesUnordered),
    {
        if self.node_writes_pending {
            return Err(OrderingErr::NodeWritesUnordered);
        }
        self.image_writes_pending = true;
        Ok(())
    }

    /// Whether the output image may be sampled for display compositing:
    /// true once every write of the frame has been ordered by a barrier.
    pub fn present_ready(&self) -> (r: bool)
        ensures
            r <==> !self.spec_image_writes_pending() && !self.spec_node_writes_pending(),
    {
        !self.image_writes_pending && !self.node_writes_pending
    }
}

} // verus!
