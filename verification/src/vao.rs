//! Vertex-array bookkeeping: the attribute layout records shared with the
//! shaders, the stride they imply, and the handle record for an array
//! object the driver created. Creating and binding the objects happens
//! outside the library.

use vstd::prelude::*;

verus! {

/// One vertex attribute: its shader binding location, its component
/// count, and its offset (in components) into the interleaved buffer.
#[derive(Clone, Copy, PartialEq, Eq, Structural, Debug)]
pub struct VertexAttributePointer {
    pub location: u32,
    pub size: i32,
    pub offset: usize,
}

/// A vertex array object by its driver-assigned handle.
#[derive(Clone, Copy, PartialEq, Eq, Structural, Debug)]
pub struct VertexArrayObject {
    id: u32,
}

impl VertexArrayObject {
    /// The driver-assigned handle.
    pub closed spec fn spec_id(&self) -> u32 {
        self.id
    }

    /// Record an array object under the handle the driver assigned it.
    pub fn from_handle(id: u32) -> (r: VertexArrayObject)
        ensures
            r.spec_id() == id,
    {
        VertexArrayObject { id }
    }

    /// The driver-assigned handle.
    pub fn id(&self) -> (r: u32)
        ensures
            r == self.spec_id(),
    {
        self.id
    }
}

/// The index of the attribute whose location is largest, taking the last
/// of equals — the attribute that reaches furthest into an interleaved
/// vertex, under the layout convention that locations grow with offsets.
pub open spec fn spec_max_location_index(attrs: Seq<VertexAttributePointer>) -> int
    decreases attrs.len(),
{
    if attrs.len() <= 1 {
        0
    } else {
        let b = spec_max_location_index(attrs.drop_last());
        if attrs.last().location >= attrs[b].location {
            attrs.len() - 1
        } else {
            b
        }
    }
}

/// Bytes from one vertex to the next in an interleaved buffer described
/// by these attributes: the end (offset plus component count) of the
/// attribute with the highest location, at four bytes per component. An
/// empty attribute list implies no stride.
pub fn attribute_stride(attributes: &Vec<VertexAttributePointer>) -> (r: usize)
    requires
        forall|i: int| 0 <= i < attributes@.len() ==> {
            &&& 0 <= (#[trigger] attributes@[i]).size
            &&& attributes@[i].offset + attributes@[i].size <= 0x1000_0000
        },
    ensures
        attributes@.len() == 0 ==> r == 0,
        attributes@.len() > 0 ==> {
            let a = attributes@[spec_max_location_index(attributes@)];
            r == 4 * (a.offset + a.size)
        },
{
    if attributes.len() == 0 {
        return 0;
    }
    let mut best: usize = 0;
    let mut i: usize = 1;
    while i < attributes.len()
        invariant
            attributes@.len() > 0,
            best < i <= attributes@.len(),
            best == spec_max_location_index(attributes@.take(i as int)),
        decreases attributes@.len() - i,
    {
        proof {
            assert(attributes@.take(i as int + 1).drop_last() =~= attributes@.take(i as int));
            assert(attributes@.take(i as int + 1).last() == attributes@[i as int]);
        }
        if attributes[i].location >= attributes[best].location {
            best = i;
        }
        i = i + 1;
    }
    proof {
        assert(attributes@.take(attributes@.len() as int) =~= attributes@);
    }
    let a = attributes[best];
    (a.offset + (a.size as usize)) * 4
}

} // verus!
