//! Core model of a voxel space game: frame timing, the universe of galaxies,
//! solar systems and sectors, and the chunked block grids of bodies.
pub mod client;
pub mod tables;
pub mod world;
