//! Voxel storage: blocks, chunks of blocks and grids of chunks.
use crate::tables::{chunk_table, BrownMap};
use vstd::prelude::*;

verus! {

/// Number of blocks along each edge of a chunk.
pub const CHUNK_SIZE: usize = 32;

/// Index of the chunk at the origin of a grid.
pub open spec fn origin_chunk() -> [u32; 3] {
    [0u32, 0u32, 0u32]
}

/// A hash grid of chunks, indexed by chunk coordinates in 3D space.
pub struct ChunkGrid {
    chunks: BrownMap<[u32; 3], Chunks>,
}

impl View for ChunkGrid {
    type V = Map<[u32; 3], Chunks>;

    closed spec fn view(&self) -> Map<[u32; 3], Chunks> {
        chunk_table(&self.chunks)
    }
}

impl ChunkGrid {
    /// An empty grid.
    pub fn new() -> (grid: ChunkGrid)
        ensures
            grid@ == Map::<[u32; 3], Chunks>::empty(),
    {
        let grid = ChunkGrid { chunks: BrownMap::new_chunk_table() };
        assert(grid@ =~= Map::<[u32; 3], Chunks>::empty());
        grid
    }

    /// Places a fresh chunk at the origin, replacing any chunk that was there.
    pub fn insert(&mut self)
        ensures
            final(self)@ == old(self)@.insert(origin_chunk(), final(self)@[origin_chunk()]),
            final(self)@[origin_chunk()].is_fresh(),
    {
        let _ = self.chunks.insert_chunk([0, 0, 0], Chunks::new());
    }

    /// Whether the grid holds a chunk at `position`.
    pub fn has_chunk(&self, position: [u32; 3]) -> (present: bool)
        ensures
            present == self@.dom().contains(position),
    {
        self.chunks.contains_chunk(&position)
    }
}

/// Fresh chunks are all alike: two chunks made only of empty blocks are equal.
pub proof fn lemma_fresh_chunks_equal(a: Chunks, b: Chunks)
    requires
        a.is_fresh(),
        b.is_fresh(),
    ensures
        a == b,
{
    broadcast use vstd::array::group_array_axioms;

    assert forall|x: int| 0 <= x < CHUNK_SIZE implies a.block[x] == b.block[x] by {
        assert forall|y: int| 0 <= y < CHUNK_SIZE implies a.block[x][y] == b.block[x][y] by {
            assert forall|z: int| 0 <= z < CHUNK_SIZE implies a.block[x][y][z] == b.block[x][y][z] by {
                assert(a.block_at(x, y, z)@ == b.block_at(x, y, z)@);
            }
            assert(a.block[x][y] =~= b.block[x][y]);
        }
        assert(a.block[x] =~= b.block[x]);
    }
    assert(a.block =~= b.block);
}

/// Insertion law of chunk grids: inserting at the origin a second time leaves the
/// grid as the first insertion left it. Each insertion is described as
/// [`ChunkGrid::insert`] states it: the grid gains a fresh chunk at the origin and
/// keeps every other chunk.
pub proof fn lemma_insert_twice_is_insert_once(
    before: Map<[u32; 3], Chunks>,
    once: Map<[u32; 3], Chunks>,
    twice: Map<[u32; 3], Chunks>,
)
    requires
        once == before.insert(origin_chunk(), once[origin_chunk()]),
        once[origin_chunk()].is_fresh(),
        twice == once.insert(origin_chunk(), twice[origin_chunk()]),
        twice[origin_chunk()].is_fresh(),
    ensures
        twice == once,
{
    lemma_fresh_chunks_equal(once[origin_chunk()], twice[origin_chunk()]);
    assert(twice =~= once);
}

/// A cube of `CHUNK_SIZE` blocks along each edge.
pub struct Chunks {
    block: [[[Block; CHUNK_SIZE]; CHUNK_SIZE]; CHUNK_SIZE],
}

impl Chunks {
    /// The block at `(x, y, z)` inside the chunk.
    pub closed spec fn block_at(&self, x: int, y: int, z: int) -> Block {
        self.block@[x]@[y]@[z]
    }

    /// Every block of the chunk is the empty block.
    pub open spec fn is_fresh(&self) -> bool {
        forall|x: int, y: int, z: int|
            0 <= x < CHUNK_SIZE && 0 <= y < CHUNK_SIZE && 0 <= z < CHUNK_SIZE
                ==> (#[trigger] self.block_at(x, y, z))@ == Block::empty_view()
    }

    /// A chunk made of empty blocks.
    pub fn new() -> (chunk: Chunks)
        ensures
            chunk.is_fresh(),
    {
        Chunks { block: [[[Block::new(); CHUNK_SIZE]; CHUNK_SIZE]; CHUNK_SIZE] }
    }

    /// The block at `(x, y, z)` inside the chunk.
    pub fn get_block(&self, x: usize, y: usize, z: usize) -> (block: Block)
        requires
            x < CHUNK_SIZE,
            y < CHUNK_SIZE,
            z < CHUNK_SIZE,
        ensures
            block == self.block_at(x as int, y as int, z as int),
    {
        self.block[x][y][z]
    }
}

/// One voxel of a chunk.
#[derive(Copy, Clone)]
pub struct Block {
    block_id: u16,
    orientation: u8,
    block_state: u8,
    health: u8,
    block_type: u8,
}

impl View for Block {
    /// `(block_id, orientation, block_state, health, block_type)`
    type V = (u16, u8, u8, u8, u8);

    closed spec fn view(&self) -> (u16, u8, u8, u8, u8) {
        (self.block_id, self.orientation, self.block_state, self.health, self.block_type)
    }
}

impl Block {
    /// The fields of an empty block.
    pub open spec fn empty_view() -> (u16, u8, u8, u8, u8) {
        (0, 0, 0, 0, 0)
    }

    /// An empty block: every field is zero.
    pub fn new() -> (block: Block)
        ensures
            block@ == Block::empty_view(),
    {
        Block { block_id: 0, orientation: 0, block_state: 0, health: 0, block_type: 0 }
    }

    /// The block's identifier.
    pub fn block_id(&self) -> (id: u16)
        ensures
            id == self@.0,
    {
        self.block_id
    }

    /// Grid based physics step of a block; blocks have no such behaviour yet.
    #[allow(non_snake_case)]
    pub fn updateGridBasedPhysics() {
    }
}

/// Extra data attached to a block, decoded by block type.
pub struct AdditionalBlockData {
    data: u64,
}

/// Queues a chunk for loading; chunks are not streamed yet, so this does nothing.
pub fn queue_load_chunk() {
}

/// Queues a chunk for release; chunks are not streamed yet, so this does nothing.
pub fn queue_release_chunk() {
}

/// Checks a chunk; chunks are not streamed yet, so this does nothing.
pub fn check_chunk() {
}

} // verus!
