//! The mesh of a chunk: one quad for every face of a block that looks out
//! of the chunk.

use crate::atlas::BlockAtlas;
use crate::block::{BlockId, BlockMap, BlockTextures, SettingsModel, TexturesModel};
use crate::chunk::{BlockPos, Chunk, VOLUME};
use crate::vertex::{pack, TerrainVertex};
use vstd::prelude::*;

verus! {

/// A face of a block.
#[derive(Debug, Clone, Copy, PartialEq, Eq, Hash, Structural)]
pub enum Face {
    /// Toward greater z.
    North,
    /// Toward lesser z.
    South,
    /// Toward greater x.
    East,
    /// Toward lesser x.
    West,
    /// Toward greater y.
    Top,
    /// Toward lesser y.
    Bottom,
}

impl Face {
    /// The position of the block that touches `pos` at this face.
    pub open spec fn neighbor(self, pos: BlockPos) -> BlockPos {
        match self {
            Face::North => BlockPos { z: (pos.z + 1) as i32, ..pos },
            Face::South => BlockPos { z: (pos.z - 1) as i32, ..pos },
            Face::East => BlockPos { x: (pos.x + 1) as i32, ..pos },
            Face::West => BlockPos { x: (pos.x - 1) as i32, ..pos },
            Face::Top => BlockPos { y: (pos.y + 1) as i32, ..pos },
            Face::Bottom => BlockPos { y: (pos.y - 1) as i32, ..pos },
        }
    }

    /// The four corners of the face, as steps of 0 or 1 from the block's
    /// own corner, in the order in which they are drawn.
    pub open spec fn corners(self) -> Seq<(u32, u32, u32)> {
        match self {
            Face::North => seq![(1, 1, 1), (1, 0, 1), (0, 0, 1), (0, 1, 1)],
            Face::South => seq![(0, 1, 0), (0, 0, 0), (1, 0, 0), (1, 1, 0)],
            Face::East => seq![(1, 1, 0), (1, 0, 0), (1, 0, 1), (1, 1, 1)],
            Face::West => seq![(0, 1, 1), (0, 0, 1), (0, 0, 0), (0, 1, 0)],
            Face::Top => seq![(0, 1, 1), (0, 1, 0), (1, 1, 0), (1, 1, 1)],
            Face::Bottom => seq![(0, 0, 0), (0, 0, 1), (1, 0, 1), (1, 0, 0)],
        }
    }

    /// The name of the texture that the face is drawn with. The bottom face
    /// is drawn with the texture of the west face.
    pub open spec fn texture(self, textures: TexturesModel) -> Seq<char> {
        match self {
            Face::North => textures.north,
            Face::South => textures.south,
            Face::East => textures.east,
            Face::West => textures.west,
            Face::Top => textures.top,
            Face::Bottom => textures.west,
        }
    }

    /// Whether the face of the block at `pos` is drawn: it is when the
    /// block behind it lies outside the chunk.
    pub open spec fn is_drawn(self, pos: BlockPos) -> bool {
        !self.neighbor(pos).in_bounds()
    }

    /// The four vertices of the face of the block at `pos`, with the
    /// texture `texture`.
    pub open spec fn quad(self, pos: BlockPos, texture: u32) -> Seq<u32> {
        Seq::new(
            4,
            |k: int|
                pack(
                    (pos.x + self.corners()[k].0) as u32,
                    (pos.y + self.corners()[k].1) as u32,
                    (pos.z + self.corners()[k].2) as u32,
                    texture,
                ),
        )
    }

    /// The vertices that the face of the block at `pos` adds to the mesh.
    pub open spec fn mesh(
        self,
        pos: BlockPos,
        textures: TexturesModel,
        atlas: Map<Seq<char>, u32>,
    ) -> Seq<u32> {
        if self.is_drawn(pos) {
            self.quad(pos, atlas[self.texture(textures)])
        } else {
            Seq::empty()
        }
    }

    /// Whether the atlas has what the face of the block at `pos` needs.
    pub open spec fn is_ready(
        self,
        pos: BlockPos,
        textures: TexturesModel,
        atlas: Map<Seq<char>, u32>,
    ) -> bool {
        self.is_drawn(pos) ==> atlas.contains_key(self.texture(textures))
    }
}

/// Whether the atlas has the texture of every face of the block at `pos`
/// that is drawn.
pub open spec fn cell_ready(
    pos: BlockPos,
    textures: TexturesModel,
    atlas: Map<Seq<char>, u32>,
) -> bool {
    &&& Face::North.is_ready(pos, textures, atlas)
    &&& Face::South.is_ready(pos, textures, atlas)
    &&& Face::East.is_ready(pos, textures, atlas)
    &&& Face::West.is_ready(pos, textures, atlas)
    &&& Face::Top.is_ready(pos, textures, atlas)
    &&& Face::Bottom.is_ready(pos, textures, atlas)
}

/// The vertices of the block at `pos`: its faces in the order north,
/// south, east, west, top, bottom.
pub open spec fn cell_mesh(
    pos: BlockPos,
    textures: TexturesModel,
    atlas: Map<Seq<char>, u32>,
) -> Seq<u32> {
    Face::North.mesh(pos, textures, atlas) + Face::South.mesh(pos, textures, atlas)
        + Face::East.mesh(pos, textures, atlas) + Face::West.mesh(pos, textures, atlas)
        + Face::Top.mesh(pos, textures, atlas) + Face::Bottom.mesh(pos, textures, atlas)
}

/// Whether the chunk can be meshed: every block of it has settings, and
/// the atlas has the texture of every face that is drawn.
pub open spec fn can_mesh(
    blocks: Seq<BlockId>,
    atlas: Map<Seq<char>, u32>,
    settings: Map<BlockId, SettingsModel>,
    upto: int,
) -> bool {
    forall|cell: int|
        0 <= cell < upto ==> settings.contains_key(#[trigger] blocks[cell]) && cell_ready(
            BlockPos::of_cell(cell),
            settings[blocks[cell]].textures,
            atlas,
        )
}

/// The vertices of the first `upto` cells of the chunk, cell after cell.
pub open spec fn mesh_of(
    blocks: Seq<BlockId>,
    atlas: Map<Seq<char>, u32>,
    settings: Map<BlockId, SettingsModel>,
    upto: int,
) -> Seq<u32>
    decreases upto,
{
    if upto <= 0 {
        Seq::empty()
    } else {
        mesh_of(blocks, atlas, settings, upto - 1) + cell_mesh(
            BlockPos::of_cell(upto - 1),
            settings[blocks[upto - 1]].textures,
            atlas,
        )
    }
}

/// The packed words of a list of vertices.
pub open spec fn words(mesh: Seq<TerrainVertex>) -> Seq<u32> {
    mesh.map_values(|vertex: TerrainVertex| vertex@)
}

/// Appends the four vertices of one face.
fn push_quad(mesh: &mut Vec<TerrainVertex>, face: Face, pos: BlockPos, texture: u32)
    requires
        pos.in_bounds(),
    ensures
        words(final(mesh)@) == words(old(mesh)@) + face.quad(pos, texture),
{
    let corners: [(u32, u32, u32); 4] = match face {
        Face::North => [(1, 1, 1), (1, 0, 1), (0, 0, 1), (0, 1, 1)],
        Face::South => [(0, 1, 0), (0, 0, 0), (1, 0, 0), (1, 1, 0)],
        Face::East => [(1, 1, 0), (1, 0, 0), (1, 0, 1), (1, 1, 1)],
        Face::West => [(0, 1, 1), (0, 0, 1), (0, 0, 0), (0, 1, 0)],
        Face::Top => [(0, 1, 1), (0, 1, 0), (1, 1, 0), (1, 1, 1)],
        Face::Bottom => [(0, 0, 0), (0, 0, 1), (1, 0, 1), (1, 0, 0)],
    };
    assert(corners@ =~= face.corners());
    let x: u32 = pos.x as u32;
    let y: u32 = pos.y as u32;
    let z: u32 = pos.z as u32;
    let mut k: usize = 0;
    while k < 4
        invariant
            k <= 4,
            pos.in_bounds(),
            x == pos.x,
            y == pos.y,
            z == pos.z,
            corners@ == face.corners(),
            words(mesh@) == words(old(mesh)@) + face.quad(pos, texture).take(k as int),
        decreases 4 - k,
    {
        let corner = corners[k];
        let ghost before = mesh@;
        mesh.push(TerrainVertex::new(x + corner.0, y + corner.1, z + corner.2, texture));
        assert(words(mesh@) =~= words(before).push(face.quad(pos, texture)[k as int]));
        assert(face.quad(pos, texture).take(k + 1) =~= face.quad(pos, texture).take(k as int).push(
            face.quad(pos, texture)[k as int],
        ));
        k += 1;
    }
    assert(face.quad(pos, texture).take(4) =~= face.quad(pos, texture));
}

/// Appends what one face of the block at `pos` adds to the mesh. Returns
/// `false` when the atlas lacks the texture it needs.
fn push_face(
    mesh: &mut Vec<TerrainVertex>,
    face: Face,
    pos: BlockPos,
    textures: &BlockTextures,
    atlas: &BlockAtlas,
) -> (ready: bool)
    requires
        pos.in_bounds(),
    ensures
        ready == face.is_ready(pos, textures@, atlas@),
        ready ==> words(final(mesh)@) == words(old(mesh)@) + face.mesh(pos, textures@, atlas@),
{
    let neighbor = match face {
        Face::North => BlockPos { x: pos.x, y: pos.y, z: pos.z + 1 },
        Face::South => BlockPos { x: pos.x, y: pos.y, z: pos.z - 1 },
        Face::East => BlockPos { x: pos.x + 1, y: pos.y, z: pos.z },
        Face::West => BlockPos { x: pos.x - 1, y: pos.y, z: pos.z },
        Face::Top => BlockPos { x: pos.x, y: pos.y + 1, z: pos.z },
        Face::Bottom => BlockPos { x: pos.x, y: pos.y - 1, z: pos.z },
    };
    if !Chunk::out_of_bounds(neighbor) {
        assert(words(mesh@) + Seq::<u32>::empty() =~= words(mesh@));
        return true;
    }
    let name: &String = match face {
        Face::North => &textures.north,
        Face::South => &textures.south,
        Face::East => &textures.east,
        Face::West => &textures.west,
        Face::Top => &textures.top,
        Face::Bottom => &textures.west,
    };
    match atlas.get_texture_id(name.as_str()) {
        Some(texture) => {
            push_quad(mesh, face, pos, texture);
            true
        },
        None => false,
    }
}

/// Appends the vertices of the block at `pos`. Returns `false` when the
/// atlas lacks a texture that the block needs.
fn push_cell(
    mesh: &mut Vec<TerrainVertex>,
    pos: BlockPos,
    textures: &BlockTextures,
    atlas: &BlockAtlas,
) -> (ready: bool)
    requires
        pos.in_bounds(),
    ensures
        ready == cell_ready(pos, textures@, atlas@),
        ready ==> words(final(mesh)@) == words(old(mesh)@) + cell_mesh(pos, textures@, atlas@),
{
    let ready = push_face(mesh, Face::North, pos, textures, atlas) && push_face(
        mesh,
        Face::South,
        pos,
        textures,
        atlas,
    ) && push_face(mesh, Face::East, pos, textures, atlas) && push_face(
        mesh,
        Face::West,
        pos,
        textures,
        atlas,
    ) && push_face(mesh, Face::Top, pos, textures, atlas) && push_face(
        mesh,
        Face::Bottom,
        pos,
        textures,
        atlas,
    );
    proof {
        if ready {
            let n = Face::North.mesh(pos, textures@, atlas@);
            let s = Face::South.mesh(pos, textures@, atlas@);
            let e = Face::East.mesh(pos, textures@, atlas@);
            let w = Face::West.mesh(pos, textures@, atlas@);
            let t = Face::Top.mesh(pos, textures@, atlas@);
            let b = Face::Bottom.mesh(pos, textures@, atlas@);
            assert(words(mesh@) =~= words(old(mesh)@) + (n + s + e + w + t + b));
        }
    }
    ready
}

/// The mesh of the chunk `c`: for every block, in the order of the cells,
/// a quad for each face that looks out of the chunk, with the texture that
/// the block's settings name for that face. `None` when a block has no
/// settings in `block_map`, or `block_atlas` lacks a texture that is needed.
pub fn create_chunk_mesh(c: &Chunk, block_atlas: &BlockAtlas, block_map: &BlockMap) -> (mesh:
    Option<Vec<TerrainVertex>>)
    requires
        c.wf(),
    ensures
        mesh is Some <==> can_mesh(c@, block_atlas@, block_map@, VOLUME as int),
        mesh matches Some(mesh) ==> words(mesh@) == mesh_of(
            c@,
            block_atlas@,
            block_map@,
            VOLUME as int,
        ),
{
    let mut mesh: Vec<TerrainVertex> = Vec::new();
    let mut positions = c.iter_pos();
    let mut cell: usize = 0;
    assert(words(mesh@) =~= Seq::empty());
    while cell < VOLUME
        invariant
            cell <= VOLUME,
            c.wf(),
            positions.index() == cell,
            can_mesh(c@, block_atlas@, block_map@, cell as int),
            words(mesh@) == mesh_of(c@, block_atlas@, block_map@, cell as int),
        decreases VOLUME - cell,
    {
        let pos = match positions.next() {
            Some(pos) => pos,
            None => {
                return None;
            },
        };
        proof {
            crate::chunk::lemma_position_of_cell(cell as int);
        }
        let block = match c.get(pos) {
            Some(block) => block,
            None => {
                return None;
            },
        };
        assert(block == c@[cell as int]);
        let settings = match block_map.get(block) {
            Some(settings) => settings,
            None => {
                return None;
            },
        };
        if !push_cell(&mut mesh, pos, &settings.textures, block_atlas) {
            return None;
        }
        cell += 1;
    }
    Some(mesh)
}

} // verus!
