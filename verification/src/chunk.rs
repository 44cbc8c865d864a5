//! A chunk: a column of 16 x 256 x 16 blocks.
//!
//! The blocks lie in one row of 65536 cells. The cell of the position
//! `(x, y, z)` has the index `4096 z + 16 y + x`.

use crate::block::BlockId;
use vstd::prelude::*;

verus! {

/// The position of a block, in blocks from the chunk's corner.
#[derive(Debug, Clone, Copy, PartialEq, Eq, Hash, Structural)]
pub struct BlockPos {
    pub x: i32,
    pub y: i32,
    pub z: i32,
}

/// The chunk's extent along x.
pub const SIZE_X: usize = 16;

/// The chunk's extent along y.
pub const SIZE_Y: usize = 256;

/// The chunk's extent along z.
pub const SIZE_Z: usize = 16;

/// The number of blocks in one layer of constant z.
pub const LAYER: usize = 4096;

/// The number of blocks in a chunk.
pub const VOLUME: usize = 65536;

impl BlockPos {
    /// The position `(x, y, z)`.
    pub fn new(x: i32, y: i32, z: i32) -> (pos: BlockPos)
        ensures
            pos == (BlockPos { x, y, z }),
    {
        BlockPos { x, y, z }
    }

    /// Whether the position lies in the chunk.
    pub open spec fn in_bounds(self) -> bool {
        0 <= self.x < SIZE_X && 0 <= self.y < SIZE_Y && 0 <= self.z < SIZE_Z
    }

    /// The index of the position's cell.
    pub open spec fn cell(self) -> int {
        LAYER * self.z + SIZE_X * self.y + self.x
    }

    /// The position of the cell with the index `index`.
    pub open spec fn of_cell(index: int) -> BlockPos {
        BlockPos {
            x: (index % SIZE_X as int) as i32,
            y: ((index / SIZE_X as int) % SIZE_Y as int) as i32,
            z: (index / LAYER as int) as i32,
        }
    }
}

/// The block of every cell at the height `y` of a flat world: stone up to
/// 32, dirt up to 254, grass at 255.
pub open spec fn flat_layer(y: int) -> BlockId {
    if y <= 32 {
        BlockId::Stone
    } else if y <= 254 {
        BlockId::Dirt
    } else {
        BlockId::Grass
    }
}

/// Every position of the chunk has one cell, and every cell one position.
pub proof fn lemma_cell_of_position(pos: BlockPos)
    requires
        pos.in_bounds(),
    ensures
        0 <= pos.cell() < VOLUME,
        BlockPos::of_cell(pos.cell()) == pos,
{
}

/// Every cell has one position in the chunk, and every position one cell.
pub proof fn lemma_position_of_cell(index: int)
    requires
        0 <= index < VOLUME,
    ensures
        BlockPos::of_cell(index).in_bounds(),
        BlockPos::of_cell(index).cell() == index,
{
}

/// A chunk of blocks.
pub struct Chunk {
    blocks: Vec<BlockId>,
}

impl View for Chunk {
    type V = Seq<BlockId>;

    closed spec fn view(&self) -> Seq<BlockId> {
        self.blocks@
    }
}

impl Chunk {
    /// A chunk holds one block for each of its cells.
    pub open spec fn wf(&self) -> bool {
        self@.len() == VOLUME
    }

    /// The block at `pos`, a position of the chunk.
    pub open spec fn block_at(&self, pos: BlockPos) -> BlockId
        recommends
            pos.in_bounds(),
    {
        self@[pos.cell()]
    }

    /// The chunk of a flat world: layers of stone and dirt under one of
    /// grass.
    pub fn flat() -> (chunk: Chunk)
        ensures
            chunk.wf(),
            forall|pos: BlockPos|
                pos.in_bounds() ==> #[trigger] chunk.block_at(pos) == flat_layer(pos.y as int),
    {
        let mut blocks: Vec<BlockId> = Vec::with_capacity(VOLUME);
        let mut index: usize = 0;
        while index < VOLUME
            invariant
                index <= VOLUME,
                blocks@.len() == index,
                forall|i: int|
                    0 <= i < index ==> #[trigger] blocks@[i] == flat_layer(
                        BlockPos::of_cell(i).y as int,
                    ),
            decreases VOLUME - index,
        {
            let y: usize = (index / SIZE_X) % SIZE_Y;
            let block = if y <= 32 {
                BlockId::Stone
            } else if y <= 254 {
                BlockId::Dirt
            } else {
                BlockId::Grass
            };
            blocks.push(block);
            index += 1;
        }
        let chunk = Chunk { blocks };
        assert forall|pos: BlockPos| pos.in_bounds() implies #[trigger] chunk.block_at(pos)
            == flat_layer(pos.y as int) by {
            lemma_cell_of_position(pos);
        }
        chunk
    }

    /// Whether `pos` lies outside the chunk.
    pub fn out_of_bounds(pos: BlockPos) -> (outside: bool)
        ensures
            outside == !pos.in_bounds(),
    {
        pos.x < 0 || pos.y < 0 || pos.z < 0 || pos.x >= SIZE_X as i32 || pos.y >= SIZE_Y as i32
            || pos.z >= SIZE_Z as i32
    }

    /// The index of the cell of `pos`; `None` for a position outside the
    /// chunk.
    pub fn index(pos: BlockPos) -> (index: Option<usize>)
        ensures
            index == if pos.in_bounds() {
                Some(pos.cell() as usize)
            } else {
                None
            },
            index matches Some(i) ==> i < VOLUME,
    {
        if Chunk::out_of_bounds(pos) {
            return None;
        }
        let x: usize = pos.x as usize;
        let y: usize = pos.y as usize;
        let z: usize = pos.z as usize;
        Some(LAYER * z + SIZE_X * y + x)
    }

    /// The block at `pos`; `None` for a position outside the chunk.
    pub fn get(&self, pos: BlockPos) -> (block: Option<BlockId>)
        requires
            self.wf(),
        ensures
            block == if pos.in_bounds() {
                Some(self.block_at(pos))
            } else {
                None
            },
    {
        match Chunk::index(pos) {
            Some(index) => Some(self.blocks[index]),
            None => None,
        }
    }

    /// Sets the block at `pos`. Returns `false`, with nothing changed, for a
    /// position outside the chunk.
    pub fn set(&mut self, pos: BlockPos, block: BlockId) -> (done: bool)
        requires
            old(self).wf(),
        ensures
            final(self).wf(),
            done == pos.in_bounds(),
            final(self)@ == if pos.in_bounds() {
                old(self)@.update(pos.cell(), block)
            } else {
                old(self)@
            },
    {
        match Chunk::index(pos) {
            Some(index) => {
                self.blocks.set(index, block);
                true
            },
            None => false,
        }
    }

    /// The positions of the chunk, one after the other, in the order of
    /// their cells.
    pub fn iter_pos(&self) -> (positions: ChunkIter)
        ensures
            positions.index() == 0,
    {
        ChunkIter { index: 0 }
    }
}

/// Walks the positions of a chunk in the order of their cells: x runs
/// first, then y, then z.
pub struct ChunkIter {
    index: u32,
}

impl ChunkIter {
    /// The number of positions handed out so far.
    pub closed spec fn index(&self) -> nat {
        self.index as nat
    }

    /// The next position; `None` when all were handed out.
    pub fn next(&mut self) -> (pos: Option<BlockPos>)
        ensures
            pos == if old(self).index() < VOLUME {
                Some(BlockPos::of_cell(old(self).index() as int))
            } else {
                None
            },
            final(self).index() == if old(self).index() < VOLUME {
                old(self).index() + 1
            } else {
                old(self).index()
            },
    {
        if self.index >= VOLUME as u32 {
            return None;
        }
        let x: u32 = self.index % SIZE_X as u32;
        let y: u32 = (self.index / SIZE_X as u32) % SIZE_Y as u32;
        let z: u32 = self.index / LAYER as u32;
        self.index += 1;
        Some(BlockPos { x: x as i32, y: y as i32, z: z as i32 })
    }

    /// The number of positions still to come.
    pub fn remaining(&self) -> (count: usize)
        ensures
            count == if self.index() < VOLUME {
                VOLUME - self.index()
            } else {
                0
            },
    {
        if self.index >= VOLUME as u32 {
            0
        } else {
            VOLUME - self.index as usize
        }
    }
}

} // verus!
