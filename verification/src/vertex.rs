//! Terrain vertices, packed into one word each, and the indices that join
//! them into triangles.

use vstd::prelude::*;

verus! {

/// A vertex of the terrain: the corner of a block and the texture of the
/// face it belongs to, in one word. From the low bit up: x in 5 bits, y in
/// 9, z in 5, the texture in 13.
#[derive(Debug, Clone, Copy, PartialEq, Eq, Structural)]
pub struct TerrainVertex {
    data: u32,
}

/// The word that holds the corner `(x, y, z)` and the texture `texture_id`.
pub open spec fn pack(x: u32, y: u32, z: u32, texture_id: u32) -> u32 {
    x | (y << 5u32) | (z << 14u32) | (texture_id << 19u32)
}

impl View for TerrainVertex {
    type V = u32;

    closed spec fn view(&self) -> u32 {
        self.data
    }
}

impl TerrainVertex {
    /// The vertex at the corner `(x, y, z)` of a face with the texture
    /// `texture_id`.
    pub fn new(x: u32, y: u32, z: u32, texture_id: u32) -> (vertex: TerrainVertex)
        ensures
            vertex@ == pack(x, y, z, texture_id),
    {
        TerrainVertex { data: x | (y << 5u32) | (z << 14u32) | (texture_id << 19u32) }
    }

    /// The packed word.
    pub fn data(&self) -> (data: u32)
        ensures
            data == self@,
    {
        self.data
    }

    /// The x of the corner.
    pub fn x(&self) -> (x: u32)
        ensures
            x == self@ & 0x1f,
    {
        self.data & 0x1f
    }

    /// The y of the corner.
    pub fn y(&self) -> (y: u32)
        ensures
            y == (self@ >> 5u32) & 0x1ff,
    {
        (self.data >> 5u32) & 0x1ff
    }

    /// The z of the corner.
    pub fn z(&self) -> (z: u32)
        ensures
            z == (self@ >> 14u32) & 0x1f,
    {
        (self.data >> 14u32) & 0x1f
    }

    /// The texture of the face.
    pub fn texture_id(&self) -> (texture_id: u32)
        ensures
            texture_id == (self@ >> 19u32) & 0x1fff,
    {
        (self.data >> 19u32) & 0x1fff
    }
}

/// Each field is read back from the packed word, when each fits its bits.
pub proof fn lemma_pack_unpack(x: u32, y: u32, z: u32, texture_id: u32)
    requires
        x < 32,
        y < 512,
        z < 32,
        texture_id < 8192,
    ensures
        pack(x, y, z, texture_id) & 0x1f == x,
        (pack(x, y, z, texture_id) >> 5u32) & 0x1ff == y,
        (pack(x, y, z, texture_id) >> 14u32) & 0x1f == z,
        (pack(x, y, z, texture_id) >> 19u32) & 0x1fff == texture_id,
{
    assert((x | (y << 5u32) | (z << 14u32) | (texture_id << 19u32)) & 0x1f == x) by (bit_vector)
        requires
            x < 32,
    ;
    assert(((x | (y << 5u32) | (z << 14u32) | (texture_id << 19u32)) >> 5u32) & 0x1ff == y)
        by (bit_vector)
        requires
            x < 32,
            y < 512,
    ;
    assert(((x | (y << 5u32) | (z << 14u32) | (texture_id << 19u32)) >> 14u32) & 0x1f == z)
        by (bit_vector)
        requires
            x < 32,
            y < 512,
            z < 32,
    ;
    assert(((x | (y << 5u32) | (z << 14u32) | (texture_id << 19u32)) >> 19u32) & 0x1fff
        == texture_id) by (bit_vector)
        requires
            x < 32,
            y < 512,
            z < 32,
            texture_id < 8192,
    ;
}

/// The index at the place `at` of the index list: the vertices come four to
/// a face, and each face is drawn as the two triangles `0 1 2` and `2 3 0`
/// of its corners.
pub open spec fn voxel_index(at: int) -> int {
    let corner = at % 6;
    4 * (at / 6) + if corner == 0 || corner == 5 {
        0int
    } else if corner == 1 {
        1
    } else if corner == 2 || corner == 3 {
        2
    } else {
        3
    }
}

/// The indices that draw `number_of_vertices` vertices as faces: six for
/// every full four vertices.
pub fn compute_voxel_indices(number_of_vertices: usize) -> (indices: Vec<u32>)
    requires
        number_of_vertices <= u32::MAX,
    ensures
        indices@.len() == 6 * (number_of_vertices / 4),
        forall|at: int| 0 <= at < indices@.len() ==> #[trigger] indices@[at] == voxel_index(at),
{
    let faces: usize = number_of_vertices / 4;
    let mut indices: Vec<u32> = Vec::new();
    let mut face: usize = 0;
    while face < faces
        invariant
            face <= faces,
            faces == number_of_vertices / 4,
            number_of_vertices <= u32::MAX,
            indices@.len() == 6 * face,
            forall|at: int| 0 <= at < indices@.len() ==> #[trigger] indices@[at] == voxel_index(at),
        decreases faces - face,
    {
        let offset: u32 = face as u32 * 4;
        indices.push(offset);
        indices.push(offset + 1);
        indices.push(offset + 2);
        indices.push(offset + 2);
        indices.push(offset + 3);
        indices.push(offset);
        face += 1;
    }
    indices
}

} // verus!
