use minestar::world::grid::{check_chunk, queue_load_chunk, queue_release_chunk, Block, ChunkGrid, Chunks, CHUNK_SIZE};

#[test]
fn new_grid_has_no_chunks() {
    let grid = ChunkGrid::new();
    assert!(!grid.has_chunk([0, 0, 0]));
}

#[test]
fn insert_places_chunk_at_origin() {
    let mut grid = ChunkGrid::new();
    grid.insert();
    assert!(grid.has_chunk([0, 0, 0]));
    assert!(!grid.has_chunk([1, 0, 0]));
    assert!(!grid.has_chunk([0, 0, 1]));
}

#[test]
fn insert_twice_keeps_one_chunk_at_origin() {
    let mut grid = ChunkGrid::new();
    grid.insert();
    grid.insert();
    assert!(grid.has_chunk([0, 0, 0]));
}

#[test]
fn new_chunk_is_made_of_empty_blocks() {
    let chunk = Box::new(Chunks::new());
    for &(x, y, z) in &[(0, 0, 0), (31, 31, 31), (5, 17, 30)] {
        assert_eq!(chunk.get_block(x, y, z).block_id(), 0);
    }
    assert_eq!(CHUNK_SIZE, 32);
}

#[test]
fn new_block_is_empty() {
    assert_eq!(Block::new().block_id(), 0);
    Block::updateGridBasedPhysics();
}

#[test]
fn chunk_queue_functions_do_nothing() {
    queue_load_chunk();
    queue_release_chunk();
    check_chunk();
}
