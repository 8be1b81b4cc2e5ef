//! Bodies that float in space: free bodies such as ships and debris, fixed free
//! bodies such as suns, planets and moons, and the entities that live on them.
//!
//! Vectors of the physical model (velocity, position, rotation) are kept as the
//! IEEE-754 bit patterns of their `f64` components: the bodies store and hand them
//! back unchanged, so no component is ever rounded on the way.
use crate::world::grid::ChunkGrid;
use vstd::prelude::*;

verus! {

/// Bit pattern of the `f64` value `0.0`.
pub const F64_ZERO_BITS: u64 = 0x0000_0000_0000_0000;

/// Bit pattern of the `f64` value `3.0`.
pub const F64_THREE_BITS: u64 = 0x4008_0000_0000_0000;

/// `[0.0, 0.0, 0.0]`, as bit patterns.
pub open spec fn zero_vector() -> [u64; 3] {
    [F64_ZERO_BITS, F64_ZERO_BITS, F64_ZERO_BITS]
}

/// `[0.0, 0.0, 3.0]`, as bit patterns.
pub open spec fn drift_vector() -> [u64; 3] {
    [F64_ZERO_BITS, F64_ZERO_BITS, F64_THREE_BITS]
}

/// What a free body holds.
pub struct FreeBodyView {
    pub id: u128,
    pub center_of_mass: [u32; 3],
    pub velocity: [u64; 3],
    pub position: [u64; 3],
    pub rotation: [u64; 3],
    pub mass: u32,
    pub chunk_grid: Map<[u32; 3], crate::world::grid::Chunks>,
}

/// A body that moves freely: a ship, a piece of debris.
pub struct FreeBody {
    id: u128,
    center_of_mass: [u32; 3],
    velocity: [u64; 3],
    position: [u64; 3],
    rotation: [u64; 3],  // using Euler Angles
    mass: u32,
    chunk_grid: ChunkGrid,
}

impl View for FreeBody {
    type V = FreeBodyView;

    closed spec fn view(&self) -> FreeBodyView {
        FreeBodyView {
            id: self.id,
            center_of_mass: self.center_of_mass,
            velocity: self.velocity,
            position: self.position,
            rotation: self.rotation,
            mass: self.mass,
            chunk_grid: self.chunk_grid@,
        }
    }
}

impl FreeBody {
    /// A free body with the given state. The identifier it is given is always 0:
    /// the `id` argument is not used.
    pub fn new(
        id: u128,
        center_of_mass: [u32; 3],
        velocity: [u64; 3],
        position: [u64; 3],
        rotation: [u64; 3],
        mass: u32,
        chunk_grid: ChunkGrid,
    ) -> (body: FreeBody)
        ensures
            body@ == (FreeBodyView {
                id: 0,
                center_of_mass,
                velocity,
                position,
                rotation,
                mass,
                chunk_grid: chunk_grid@,
            }),
    {
        FreeBody {
            id: 0,
            center_of_mass: center_of_mass,
            velocity: velocity,
            position: position,
            rotation: rotation,
            mass: mass,
            chunk_grid: chunk_grid,
        }
    }
}

/// What a fixed free body holds; `chunk_grid` lists the views of its grids.
pub struct FixedFreeBodyView {
    pub velocity: [u64; 3],
    pub position: [u64; 3],
    pub rotation: [u64; 3],
    pub mass: u32,
    pub atmosphere_radius: u8,
    pub chunk_grid: Seq<Map<[u32; 3], crate::world::grid::Chunks>>,
}

/// A body on a fixed path: a sun, a planet, a moon.
pub struct FixedFreeBody {
    velocity: [u64; 3],
    pub position: [u64; 3],
    rotation: [u64; 3],
    mass: u32,  //calculate grav effect from mass
    atmosphere_radius: u8,
    chunk_grid: Vec<ChunkGrid>,
}

/// The views of a list of chunk grids.
pub open spec fn grid_views(grids: Seq<ChunkGrid>) -> Seq<Map<[u32; 3], crate::world::grid::Chunks>> {
    grids.map_values(|grid: ChunkGrid| grid@)
}

impl View for FixedFreeBody {
    type V = FixedFreeBodyView;

    closed spec fn view(&self) -> FixedFreeBodyView {
        FixedFreeBodyView {
            velocity: self.velocity,
            position: self.position,
            rotation: self.rotation,
            mass: self.mass,
            atmosphere_radius: self.atmosphere_radius,
            chunk_grid: grid_views(self.chunk_grid@),
        }
    }
}

impl FixedFreeBody {
    /// The state of a fixed free body made at `position` with `rotation`, by
    /// [`FixedFreeBody::new`] or [`FixedFreeBody::new_sun`].
    pub open spec fn placed(position: [u64; 3], rotation: [u64; 3]) -> FixedFreeBodyView {
        FixedFreeBodyView {
            velocity: drift_vector(),
            position,
            rotation,
            mass: 2,
            atmosphere_radius: 2,
            chunk_grid: Seq::empty(),
        }
    }

    /// The state of a planet made by [`FixedFreeBody::new_planet`]: six empty grids
    /// of chunks, one per face.
    pub open spec fn planet() -> FixedFreeBodyView {
        FixedFreeBodyView {
            velocity: drift_vector(),
            position: drift_vector(),
            rotation: drift_vector(),
            mass: 2,
            atmosphere_radius: 10,
            chunk_grid: Seq::new(6, |i: int| Map::<[u32; 3], crate::world::grid::Chunks>::empty()),
        }
    }

    /// A fixed free body at `position` with `rotation`, drifting at `[0, 0, 3]`.
    pub fn new(position: [u64; 3], rotation: [u64; 3]) -> (body: FixedFreeBody)
        ensures
            body@ == FixedFreeBody::placed(position, rotation),
    {
        let body = FixedFreeBody {
            velocity: [F64_ZERO_BITS, F64_ZERO_BITS, F64_THREE_BITS],
            position: position,
            rotation: rotation,
            mass: 2,
            atmosphere_radius: 2,
            chunk_grid: Vec::new(),
        };
        assert(grid_views(body.chunk_grid@) =~= Seq::<Map<[u32; 3], crate::world::grid::Chunks>>::empty());
        body
    }

    /// A sun at `position` with `rotation`.
    pub fn new_sun(position: [u64; 3], rotation: [u64; 3]) -> (body: FixedFreeBody)
        ensures
            body@ == FixedFreeBody::placed(position, rotation),
    {
        let body = FixedFreeBody {
            velocity: [F64_ZERO_BITS, F64_ZERO_BITS, F64_THREE_BITS],
            position: position,
            rotation: rotation,
            mass: 2,
            atmosphere_radius: 2,
            chunk_grid: Vec::with_capacity(1),
        };
        assert(grid_views(body.chunk_grid@) =~= Seq::<Map<[u32; 3], crate::world::grid::Chunks>>::empty());
        body
    }

    /// A planet with one empty chunk grid per face; `radius` is not used.
    pub fn new_planet(radius: u8) -> (planet: FixedFreeBody)
        ensures
            planet@ == FixedFreeBody::planet(),
    {
        let mut planet = FixedFreeBody {
            velocity: [F64_ZERO_BITS, F64_ZERO_BITS, F64_THREE_BITS],
            position: [F64_ZERO_BITS, F64_ZERO_BITS, F64_THREE_BITS],
            rotation: [F64_ZERO_BITS, F64_ZERO_BITS, F64_THREE_BITS],
            mass: 2,
            atmosphere_radius: 10,  // in chunks
            chunk_grid: Vec::with_capacity(6),
        };
        for x in 0..6
            invariant
                planet@.chunk_grid.len() == x,
                forall|i: int| 0 <= i < x ==> #[trigger] planet@.chunk_grid[i] == Map::<[u32; 3], crate::world::grid::Chunks>::empty(),
                planet@.velocity == drift_vector(),
                planet@.position == drift_vector(),
                planet@.rotation == drift_vector(),
                planet@.mass == 2,
                planet@.atmosphere_radius == 10,
        {
            let ghost before = planet.chunk_grid@;
            let grid = ChunkGrid::new();
            assert(grid@ =~= Map::<[u32; 3], crate::world::grid::Chunks>::empty());
            planet.chunk_grid.push(grid);
            assert(grid_views(planet.chunk_grid@) =~= grid_views(before).push(grid@));
        }
        assert(planet@.chunk_grid =~= FixedFreeBody::planet().chunk_grid);
        planet
    }

    /// The number of chunk grids of the body.
    pub fn grid_count(&self) -> (count: usize)
        ensures
            count == self@.chunk_grid.len(),
    {
        self.chunk_grid.len()
    }
}

/// A player, an animal, a monster.
pub struct Entity {
    x: u32,
    y: u32,
    z: u32,
}

impl View for Entity {
    /// `(x, y, z)`
    type V = (u32, u32, u32);

    closed spec fn view(&self) -> (u32, u32, u32) {
        (self.x, self.y, self.z)
    }
}

impl Entity {
    /// An entity at `(x, y)` on the ground level `z = 0`.
    pub fn new(x: u32, y: u32) -> (entity: Entity)
        ensures
            entity@ == (x, y, 0u32),
    {
        Entity { x: x, y: y, z: 0 }
    }
}

/// A position in block coordinates.
pub struct Position3 {
    pub x: u32,
    pub y: u32,
    pub z: u32,
}

} // verus!
