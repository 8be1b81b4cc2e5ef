# minestar

Core model of a voxel space game, verified with Verus.

- `src/client.rs`: the frames-per-second counter and the cube mesh layout.
- `src/world.rs`: the universe (sectors and the star chart), galaxies, solar
  systems, planets and sectors.
- `src/world/freebodies.rs`: free bodies, fixed free bodies (suns, planets) and
  entities. Vectors are kept as the bit patterns of their `f64` components.
- `src/world/grid.rs`: blocks, chunks and chunk grids.
- `src/tables.rs`: the `hashbrown` hash tables behind sectors, chunks and star
  coordinates, with trusted contracts.
- `app/`: the server program (threads, randomness, floating-point galaxy shapes,
  printing) and the client's vertex positions.
