//! A chunk of the voxel volume as it is handed to the GPU: a 16-byte bounding
//! box header, then the octree's own linear serialization.

use crate::bytes::{le_u32, lemma_written_concat, put_bytes, put_u32_le, written};
use vstd::prelude::*;

verus! {

/// Bytes of the bounding box header.
pub const BOUNDING_BOX_SIZE: usize = 16;

/// A bounding box as the bit patterns of four 32-bit floats: the origin's x, y
/// and z, then the extent.
#[derive(Copy, Clone, PartialEq, Eq, Structural, Debug)]
pub struct BoundingBox {
    pub x: u32,
    pub y: u32,
    pub z: u32,
    pub extent: u32,
}

/// The 16 header bytes of a bounding box: x, y, z, extent, little-endian.
pub open spec fn bounding_box_bytes(b: BoundingBox) -> Seq<u8> {
    le_u32(b.x) + le_u32(b.y) + le_u32(b.z) + le_u32(b.extent)
}

/// A chunk: its bounding box and the bytes of its octree as the octree
/// serializes itself.
pub struct Chunk {
    pub bounding_box: BoundingBox,
    pub octree_data: Vec<u8>,
}

/// The serialized form of a chunk: header, then octree payload.
pub open spec fn chunk_bytes(c: Chunk) -> Seq<u8> {
    bounding_box_bytes(c.bounding_box) + c.octree_data@
}

impl BoundingBox {
    /// Writes the 16 header bytes at offset `at`.
    pub fn write_bytes(&self, buffer: &mut [u8], at: usize)
        requires
            at + 16 <= old(buffer)@.len(),
        ensures
            final(buffer)@ == written(old(buffer)@, at as int, bounding_box_bytes(*self)),
    {
        let ghost b0 = buffer@;
        let len = buffer.len();
        assert(at + 16 <= len);
        put_u32_le(buffer, at, self.x);
        put_u32_le(buffer, at + 4, self.y);
        proof {
            lemma_written_concat(b0, at as int, le_u32(self.x), le_u32(self.y));
        }
        put_u32_le(buffer, at + 8, self.z);
        proof {
            lemma_written_concat(b0, at as int, le_u32(self.x) + le_u32(self.y), le_u32(self.z));
        }
        put_u32_le(buffer, at + 12, self.extent);
        proof {
            lemma_written_concat(
                b0,
                at as int,
                le_u32(self.x) + le_u32(self.y) + le_u32(self.z),
                le_u32(self.extent),
            );
        }
    }
}

impl Chunk {
    /// A chunk of the given octree payload and bounding box.
    pub fn new(octree_data: Vec<u8>, bounding_box: BoundingBox) -> (r: Chunk)
        ensures
            r.octree_data@ == octree_data@,
            r.bounding_box == bounding_box,
    {
        Chunk { bounding_box, octree_data }
    }

    /// Bytes of the serialized chunk: the header and the octree payload.
    pub fn serialized_size(&self) -> (r: usize)
        requires
            self.octree_data@.len() + 16 <= usize::MAX,
        ensures
            r == 16 + self.octree_data@.len(),
    {
        BOUNDING_BOX_SIZE + self.octree_data.len()
    }

    /// Writes the serialized chunk into a buffer of exactly its size.
    pub fn serialize_into(&self, buffer: &mut [u8])
        requires
            old(buffer)@.len() == 16 + self.octree_data@.len(),
        ensures
            final(buffer)@ == chunk_bytes(*self),
    {
        let ghost b0 = buffer@;
        self.bounding_box.write_bytes(buffer, 0);
        put_bytes(buffer, BOUNDING_BOX_SIZE, self.octree_data.as_slice());
        proof {
            lemma_written_concat(b0, 0, bounding_box_bytes(self.bounding_box), self.octree_data@);
        }
        assert(buffer@ =~= chunk_bytes(*self));
    }
}

} // verus!
