//! The universe: a chart of galaxies made of solar systems, and a map of the
//! sectors of space that hold the bodies near the players.
use crate::tables::{coordinate_table, sector_table, BrownMap};
use crate::world::freebodies::{
    zero_vector, FixedFreeBody, FixedFreeBodyView, FreeBody, FreeBodyView, F64_ZERO_BITS,
};
use vstd::prelude::*;

pub mod freebodies;
pub mod grid;

verus! {

/// What the universe holds: its sectors by sector coordinates, its seed, and the
/// star chart, a list of galaxies.
pub struct UniverseView {
    pub sector_map: Map<[u64; 3], SectorView>,
    pub seed: u64,
    pub star_chart: Seq<Seq<SolarSystemView>>,
}

/// Space, divided into sectors; a sector is kept in memory while players are in
/// it. Galaxies are charted separately, as they move as a function of time.
pub struct Universe {
    sector_map: BrownMap<[u64; 3], Sector>,
    seed: u64,
    star_chart: Vec<Galaxy>,
}

/// The views of a list of galaxies.
pub open spec fn galaxy_views(galaxies: Seq<Galaxy>) -> Seq<Seq<SolarSystemView>> {
    galaxies.map_values(|g: Galaxy| g@)
}

/// The views of batches of galaxies, one batch after the other.
pub open spec fn batch_views(batches: Seq<Vec<Galaxy>>) -> Seq<Seq<SolarSystemView>> {
    batches.map_values(|batch: Vec<Galaxy>| galaxy_views(batch@)).flatten()
}

/// Charting law of batches: no batches chart nothing, and one more batch charts
/// every galaxy of that batch, in its order, after those of the earlier batches.
/// So the chart gains exactly the galaxies of all batches, batch after batch.
pub proof fn lemma_batches_chart_every_galaxy(batches: Seq<Vec<Galaxy>>, batch: Vec<Galaxy>)
    ensures
        batch_views(Seq::empty()) == Seq::<Seq<SolarSystemView>>::empty(),
        batch_views(batches.push(batch)) == batch_views(batches) + galaxy_views(batch@),
        batch_views(batches.push(batch)).len() == batch_views(batches).len() + batch@.len(),
        forall|i: int|
            0 <= i < batch@.len() ==> #[trigger] batch_views(batches.push(batch))[batch_views(
                batches,
            ).len() + i] == batch@[i]@,
{
    broadcast use vstd::seq_lib::group_seq_properties;

    let per_batch = batches.map_values(|b: Vec<Galaxy>| galaxy_views(b@));
    assert(batches.push(batch).map_values(|b: Vec<Galaxy>| galaxy_views(b@)) =~= per_batch.push(
        galaxy_views(batch@),
    ));
    per_batch.lemma_flatten_push(galaxy_views(batch@));
    assert(Seq::<Vec<Galaxy>>::empty().map_values(|b: Vec<Galaxy>| galaxy_views(b@)) =~= Seq::<Seq<Seq<SolarSystemView>>>::empty());
}

/// The views of a table of sectors.
pub open spec fn sector_views(sectors: Map<[u64; 3], Sector>) -> Map<[u64; 3], SectorView> {
    sectors.map_values(|s: Sector| s@)
}

/// The sector that [`Universe::get_sector`] finds at `sector`: the one the
/// universe holds there, or an empty one.
pub open spec fn sector_found(universe: UniverseView, sector: [u64; 3]) -> SectorView {
    if universe.sector_map.dom().contains(sector) {
        universe.sector_map[sector]
    } else {
        Sector::empty_view()
    }
}

/// The universe after [`Universe::get_sector`] at `sector`, when the borrowed
/// sector was left as `left`.
pub open spec fn sector_left(universe: UniverseView, sector: [u64; 3], left: SectorView) -> UniverseView {
    UniverseView { sector_map: universe.sector_map.insert(sector, left), ..universe }
}

/// Sector persistence law: a sector that was fetched and changed is found again,
/// as it was left, by the next fetch at the same coordinates; fetching it changes
/// no other sector (a sector that was not there is found empty), and leaves the
/// seed and the star chart as they were.
pub proof fn lemma_sector_persists(universe: UniverseView, sector: [u64; 3], left: SectorView)
    ensures
        sector_found(sector_left(universe, sector, left), sector) == left,
        forall|other: [u64; 3]|
            other != sector ==> #[trigger] sector_found(sector_left(universe, sector, left), other)
                == sector_found(universe, other),
        sector_left(universe, sector, left).seed == universe.seed,
        sector_left(universe, sector, left).star_chart == universe.star_chart,
{
}

impl View for Universe {
    type V = UniverseView;

    closed spec fn view(&self) -> UniverseView {
        UniverseView {
            sector_map: sector_views(sector_table(&self.sector_map)),
            seed: self.seed,
            star_chart: galaxy_views(self.star_chart@),
        }
    }
}

impl Universe {
    /// An empty universe with seed 4: no sectors, no galaxies.
    pub fn new() -> (universe: Universe)
        ensures
            universe@.sector_map == Map::<[u64; 3], SectorView>::empty(),
            universe@.seed == 4,
            universe@.star_chart == Seq::<Seq<SolarSystemView>>::empty(),
    {
        let universe = Universe {
            sector_map: BrownMap::new_sector_table(100),
            seed: 4,
            star_chart: Vec::new(),
        };
        assert(universe@.sector_map =~= Map::<[u64; 3], SectorView>::empty());
        assert(universe@.star_chart =~= Seq::<Seq<SolarSystemView>>::empty());
        universe
    }

    /// Adds to the star chart the galaxies that generation produced, batch after
    /// batch, each batch in its own order.
    pub fn generate_universe(&mut self, received: Vec<Vec<Galaxy>>)
        ensures
            final(self)@.star_chart == old(self)@.star_chart + batch_views(received@),
            final(self)@.sector_map == old(self)@.sector_map,
            final(self)@.seed == old(self)@.seed,
    {
        broadcast use vstd::std_specs::vec::axiom_spec_into_iter;
        let ghost batches = received@;
        let ghost chart = self@.star_chart;
        for batch in it: received
            invariant
                it.seq() == batches,
                self@.star_chart == chart + batch_views(batches.take(it.index() as int)),
                self@.sector_map == old(self)@.sector_map,
                self@.seed == old(self)@.seed,
                chart == old(self)@.star_chart,
        {
            let ghost i = it.index() as int;
            let ghost before = self.star_chart@;
            assert(batch == batches[i]);
            let mut batch = batch;
            let ghost added = batch@;
            self.star_chart.append(&mut batch);
            let ghost per_batch = batches.take(i).map_values(|b: Vec<Galaxy>| galaxy_views(b@));
            assert(batches.take(i + 1).map_values(|b: Vec<Galaxy>| galaxy_views(b@)) =~= per_batch.push(
                galaxy_views(added),
            ));
            proof {
                per_batch.lemma_flatten_push(galaxy_views(added));
            }
            assert(galaxy_views(self.star_chart@) =~= galaxy_views(before) + galaxy_views(added));
        }
        assert(batches.take(batches.len() as int) =~= batches);
    }

    /// Adds to the star chart a galaxy built from the stars that generation
    /// proposed (see [`Galaxy::new`]).
    pub fn generate_galaxy(&mut self, candidates: Vec<StarCandidate>)
        ensures
            final(self)@.star_chart == old(self)@.star_chart.push(
                galaxy_from(candidate_views(candidates@)),
            ),
            final(self)@.sector_map == old(self)@.sector_map,
            final(self)@.seed == old(self)@.seed,
    {
        let ghost before = self.star_chart@;
        let galaxy = Galaxy::new(candidates);
        self.star_chart.push(galaxy);
        assert(galaxy_views(self.star_chart@) =~= galaxy_views(before).push(galaxy@));
    }

    /// The sector at `sector`, created empty first if the universe has none there.
    /// The universe afterwards holds, at `sector`, whatever the borrow left there.
    pub fn get_sector(&mut self, sector: [u64; 3]) -> (found: Option<&mut Sector>)
        ensures
            match found {
                Some(s) => {
                    &&& (*s)@ == sector_found(old(self)@, sector)
                    &&& final(self)@ == sector_left(old(self)@, sector, (*final(s))@)
                },
                None => false,
            },
    {
        let ghost table = sector_table(&self.sector_map);
        if !self.sector_map.contains_sector(&sector) {
            let _ = self.sector_map.insert_sector(sector, Sector::new());
        }
        let ghost filled = sector_table(&self.sector_map);
        assert(filled.dom().contains(sector));
        assert forall|left: Sector|
            #[trigger] sector_views(filled.insert(sector, left)) == sector_views(table).insert(
                sector,
                left@,
            ) by {
            assert(filled.insert(sector, left) =~= table.insert(sector, left));
            assert(sector_views(table.insert(sector, left)) =~= sector_views(table).insert(
                sector,
                left@,
            ));
        }
        self.sector_map.sector_mut(&sector)
    }

    /// Whether the universe holds a sector at `sector`.
    pub fn has_sector(&self, sector: [u64; 3]) -> (present: bool)
        ensures
            present == self@.sector_map.dom().contains(sector),
    {
        self.sector_map.contains_sector(&sector)
    }

    /// The galaxies of the star chart.
    pub fn star_chart(&self) -> (galaxies: &Vec<Galaxy>)
        ensures
            galaxy_views(galaxies@) == self@.star_chart,
    {
        &self.star_chart
    }
}

/// A star that galaxy generation proposes: its position (as `f64` bit patterns)
/// and `key`, the text of its coordinates rounded to the precision at which two
/// stars count as the same one.
pub struct StarCandidate {
    pub key: String,
    pub position: [u64; 3],
}

impl View for StarCandidate {
    /// `(key, position)`
    type V = (Seq<char>, [u64; 3]);

    open spec fn view(&self) -> (Seq<char>, [u64; 3]) {
        (self.key@, self.position)
    }
}

/// The views of a list of candidates.
pub open spec fn candidate_views(candidates: Seq<StarCandidate>) -> Seq<(Seq<char>, [u64; 3])> {
    candidates.map_values(|c: StarCandidate| c@)
}

/// Whether some candidate among `candidates` has the given key.
pub open spec fn key_taken(candidates: Seq<(Seq<char>, [u64; 3])>, key: Seq<char>) -> bool {
    exists|i: int| 0 <= i < candidates.len() && #[trigger] candidates[i].0 == key
}

/// The candidates that galaxy generation keeps: for each key, the first candidate
/// with that key, in the order the candidates came.
pub open spec fn first_of_each_key(candidates: Seq<(Seq<char>, [u64; 3])>) -> Seq<(Seq<char>, [u64; 3])>
    decreases candidates.len(),
{
    if candidates.len() == 0 {
        Seq::empty()
    } else {
        let earlier = candidates.drop_last();
        if key_taken(earlier, candidates.last().0) {
            first_of_each_key(earlier)
        } else {
            first_of_each_key(earlier).push(candidates.last())
        }
    }
}

/// Galaxy generation law: of the proposed stars, exactly one per key is kept.
/// The kept stars have pairwise different keys; a key is among the kept stars
/// exactly when some proposed star has it; and every kept star is a proposed one
/// that no earlier proposed star shares its key with.
pub proof fn lemma_one_star_per_key(candidates: Seq<(Seq<char>, [u64; 3])>)
    ensures
        forall|i: int, j: int|
            0 <= i < j < first_of_each_key(candidates).len() ==> #[trigger] first_of_each_key(
                candidates,
            )[i].0 != #[trigger] first_of_each_key(candidates)[j].0,
        forall|key: Seq<char>|
            #[trigger] key_taken(first_of_each_key(candidates), key) <==> key_taken(candidates, key),
        forall|j: int|
            0 <= j < first_of_each_key(candidates).len() ==> exists|i: int|
                0 <= i < candidates.len() && candidates[i] == #[trigger] first_of_each_key(
                    candidates,
                )[j] && !key_taken(candidates.take(i), candidates[i].0),
    decreases candidates.len(),
{
    if candidates.len() > 0 {
        let earlier = candidates.drop_last();
        let last = candidates.last();
        let kept = first_of_each_key(earlier);
        lemma_one_star_per_key(earlier);
        assert forall|key: Seq<char>| key_taken(earlier, key) implies key_taken(candidates, key) by {
            let i = choose|i: int| 0 <= i < earlier.len() && #[trigger] earlier[i].0 == key;
            assert(candidates[i] == earlier[i]);
        }
        assert forall|key: Seq<char>|
            key_taken(candidates, key) implies key_taken(earlier, key) || key == last.0 by {
            let i = choose|i: int| 0 <= i < candidates.len() && #[trigger] candidates[i].0 == key;
            if i < earlier.len() {
                assert(earlier[i] == candidates[i]);
            }
        }
        assert(candidates.take(candidates.len() - 1) =~= earlier);
        assert forall|j: int| 0 <= j < kept.len() implies exists|i: int|
            0 <= i < candidates.len() && candidates[i] == #[trigger] kept[j] && !key_taken(
                candidates.take(i),
                candidates[i].0,
            ) by {
            let i = choose|i: int|
                0 <= i < earlier.len() && earlier[i] == #[trigger] kept[j] && !key_taken(
                    earlier.take(i),
                    earlier[i].0,
                );
            assert(candidates[i] == earlier[i]);
            assert(candidates.take(i) =~= earlier.take(i));
        }
        if key_taken(earlier, last.0) {
            assert forall|key: Seq<char>|
                #[trigger] key_taken(first_of_each_key(candidates), key) <==> key_taken(
                    candidates,
                    key,
                ) by {}
        } else {
            let all = kept.push(last);
            assert(first_of_each_key(candidates) == all);
            assert forall|key: Seq<char>| key_taken(all, key) <==> key_taken(kept, key) || key == last.0 by {
                if key_taken(all, key) {
                    let i = choose|i: int| 0 <= i < all.len() && #[trigger] all[i].0 == key;
                    if i < kept.len() {
                        assert(kept[i] == all[i]);
                    }
                }
                if key_taken(kept, key) {
                    let i = choose|i: int| 0 <= i < kept.len() && #[trigger] kept[i].0 == key;
                    assert(all[i] == kept[i]);
                }
                if key == last.0 {
                    assert(all[kept.len() as int].0 == key);
                }
            }
            assert forall|i: int, j: int| 0 <= i < j < all.len() implies #[trigger] all[i].0
                != #[trigger] all[j].0 by {
                if j == kept.len() {
                    assert(all[i] == kept[i]);
                    if all[i].0 == last.0 {
                        assert(key_taken(kept, last.0));
                    }
                } else {
                    assert(all[i] == kept[i]);
                    assert(all[j] == kept[j]);
                }
            }
            assert forall|j: int| 0 <= j < all.len() implies exists|i: int|
                0 <= i < candidates.len() && candidates[i] == #[trigger] all[j] && !key_taken(
                    candidates.take(i),
                    candidates[i].0,
                ) by {
                if j < kept.len() {
                    assert(all[j] == kept[j]);
                } else {
                    let i = candidates.len() - 1;
                    assert(candidates[i] == all[j]);
                }
            }
        }
    }
}

/// The solar systems of a galaxy generated from `candidates`: one around each
/// kept candidate's position.
pub open spec fn galaxy_from(candidates: Seq<(Seq<char>, [u64; 3])>) -> Seq<SolarSystemView> {
    first_of_each_key(candidates).map_values(|c: (Seq<char>, [u64; 3])| SolarSystem::around(c.1))
}

/// The keys of a list of candidates.
pub open spec fn candidate_keys(candidates: Seq<(Seq<char>, [u64; 3])>) -> Seq<Seq<char>> {
    candidates.map_values(|c: (Seq<char>, [u64; 3])| c.0)
}

/// Galaxy size law: a galaxy generated from `candidates` has exactly one solar
/// system per distinct key among them, and every candidate that is the first of
/// its key has a solar system around its position.
pub proof fn lemma_galaxy_has_system_per_key(candidates: Seq<(Seq<char>, [u64; 3])>)
    ensures
        galaxy_from(candidates).len() == candidate_keys(candidates).to_set().len(),
        forall|i: int|
            0 <= i < candidates.len() && !key_taken(candidates.take(i), candidates[i].0)
                ==> exists|j: int|
                0 <= j < galaxy_from(candidates).len() && #[trigger] galaxy_from(candidates)[j]
                    == SolarSystem::around(candidates[i].1),
{
    let kept = first_of_each_key(candidates);
    lemma_one_star_per_key(candidates);
    // every first candidate of its key is kept
    assert forall|i: int|
        0 <= i < candidates.len() && !key_taken(candidates.take(i), candidates[i].0) implies exists|j: int|
        0 <= j < galaxy_from(candidates).len() && #[trigger] galaxy_from(candidates)[j]
            == SolarSystem::around(candidates[i].1) by {
        let key = candidates[i].0;
        assert(key_taken(candidates, key));
        assert(key_taken(kept, key));
        let j = choose|j: int| 0 <= j < kept.len() && #[trigger] kept[j].0 == key;
        let i2 = choose|i2: int|
            0 <= i2 < candidates.len() && candidates[i2] == #[trigger] kept[j] && !key_taken(
                candidates.take(i2),
                candidates[i2].0,
            );
        if i2 < i {
            assert(candidates.take(i)[i2].0 == key);
        } else if i2 > i {
            assert(candidates.take(i2)[i].0 == key);
        }
        assert(galaxy_from(candidates)[j] == SolarSystem::around(kept[j].1));
    }
    // the kept keys are the distinct keys
    let kept_keys = candidate_keys(kept);
    let all_keys = candidate_keys(candidates);
    assert(kept_keys.no_duplicates()) by {
        assert forall|a: int, b: int|
            0 <= a < kept_keys.len() && 0 <= b < kept_keys.len() && a != b implies kept_keys[a]
            != kept_keys[b] by {
            if a < b {
                assert(kept[a].0 != kept[b].0);
            } else {
                assert(kept[b].0 != kept[a].0);
            }
        }
    }
    kept_keys.unique_seq_to_set();
    assert forall|key: Seq<char>| kept_keys.contains(key) <==> all_keys.contains(key) by {
        if kept_keys.contains(key) {
            let a = choose|a: int| 0 <= a < kept_keys.len() && kept_keys[a] == key;
            assert(kept[a].0 == key);
            assert(key_taken(kept, key));
            let b = choose|b: int| 0 <= b < candidates.len() && #[trigger] candidates[b].0 == key;
            assert(all_keys[b] == key);
        }
        if all_keys.contains(key) {
            let b = choose|b: int| 0 <= b < all_keys.len() && all_keys[b] == key;
            assert(candidates[b].0 == key);
            assert(key_taken(candidates, key));
            assert(key_taken(kept, key));
            let a = choose|a: int| 0 <= a < kept.len() && #[trigger] kept[a].0 == key;
            assert(kept_keys[a] == key);
        }
    }
    assert(kept_keys.to_set() =~= all_keys.to_set());
}

/// A spiral galaxy of solar systems.
pub struct Galaxy {
    solar_system: Vec<SolarSystem>,
}

/// The views of a list of solar systems.
pub open spec fn system_views(systems: Seq<SolarSystem>) -> Seq<SolarSystemView> {
    systems.map_values(|s: SolarSystem| s@)
}

impl View for Galaxy {
    type V = Seq<SolarSystemView>;

    closed spec fn view(&self) -> Seq<SolarSystemView> {
        system_views(self.solar_system@)
    }
}

impl Galaxy {
    /// Builds the galaxy from the stars that generation proposed, in order: a
    /// candidate whose key was already taken by an earlier one is dropped, every
    /// other one becomes a solar system around its position.
    pub fn new(candidates: Vec<StarCandidate>) -> (galaxy: Galaxy)
        ensures
            galaxy@ == galaxy_from(candidate_views(candidates@)),
    {
        let ghost cands = candidate_views(candidates@);
        let mut coordinates = BrownMap::new_coordinate_table();
        let mut galaxy = Galaxy { solar_system: Vec::new() };
        let count = candidates.len();
        for i in 0..count
            invariant
                count == candidates@.len(),
                cands == candidate_views(candidates@),
                forall|key: Seq<char>|
                    #[trigger] coordinate_table(&coordinates).dom().contains(key) <==> key_taken(
                        cands.take(i as int),
                        key,
                    ),
                galaxy@ == galaxy_from(cands.take(i as int)),
        {
            let candidate = &candidates[i];
            let ghost prefix = cands.take(i as int);
            let ghost next = cands.take(i + 1);
            assert(next.drop_last() =~= prefix);
            assert(next.last() == cands[i as int]);
            assert(cands[i as int] == candidate@);
            if !coordinates.contains_coordinates(&candidate.key) {
                let _ = coordinates.insert_coordinates(candidate.key.clone(), candidate.position);
                let ghost before = galaxy.solar_system@;
                galaxy.solar_system.push(SolarSystem::new(candidate.position));
                assert(system_views(galaxy.solar_system@) =~= system_views(before).push(
                    SolarSystem::around(candidate.position),
                ));
                assert(galaxy_from(next) =~= galaxy_from(prefix).push(
                    SolarSystem::around(candidate.position),
                ));
                assert forall|key: Seq<char>|
                    #[trigger] coordinate_table(&coordinates).dom().contains(key) <==> key_taken(
                        next,
                        key,
                    ) by {
                    if key_taken(prefix, key) {
                        let j = choose|j: int| 0 <= j < prefix.len() && #[trigger] prefix[j].0 == key;
                        assert(next[j] == prefix[j]);
                    }
                    if key == candidate.key@ {
                        assert(next[i as int].0 == key);
                    }
                    if key_taken(next, key) && key != candidate.key@ {
                        let j = choose|j: int| 0 <= j < next.len() && #[trigger] next[j].0 == key;
                        assert(prefix[j] == next[j]);
                    }
                }
            } else {
                assert forall|key: Seq<char>|
                    #[trigger] coordinate_table(&coordinates).dom().contains(key) <==> key_taken(
                        next,
                        key,
                    ) by {
                    if key_taken(prefix, key) {
                        let j = choose|j: int| 0 <= j < prefix.len() && #[trigger] prefix[j].0 == key;
                        assert(next[j] == prefix[j]);
                    }
                    if key_taken(next, key) {
                        let j = choose|j: int| 0 <= j < next.len() && #[trigger] next[j].0 == key;
                        if j < i {
                            assert(prefix[j] == next[j]);
                        }
                    }
                }
            }
        }
        assert(cands.take(count as int) =~= cands);
        galaxy
    }

    /// The solar systems of the galaxy.
    pub fn solar_systems(&self) -> (systems: &Vec<SolarSystem>)
        ensures
            system_views(systems@) == self@,
    {
        &self.solar_system
    }
}

/// What a solar system holds.
pub struct SolarSystemView {
    pub sun: FixedFreeBodyView,
    pub planets: Seq<PlanetsView>,
}

/// A sun and its planets.
pub struct SolarSystem {
    sun: FixedFreeBody,
    planets: Vec<Planets>,
}

/// The views of a list of planets.
pub open spec fn planet_views(planets: Seq<Planets>) -> Seq<PlanetsView> {
    planets.map_values(|p: Planets| p@)
}

impl View for SolarSystem {
    type V = SolarSystemView;

    closed spec fn view(&self) -> SolarSystemView {
        SolarSystemView { sun: self.sun@, planets: planet_views(self.planets@) }
    }
}

impl SolarSystem {
    /// A solar system with its sun at `position` and no planets yet.
    pub open spec fn around(position: [u64; 3]) -> SolarSystemView {
        SolarSystemView {
            sun: FixedFreeBody::placed(position, zero_vector()),
            planets: Seq::empty(),
        }
    }

    /// A solar system with its sun at `position`, unrotated, and no planets yet.
    pub fn new(position: [u64; 3]) -> (system: SolarSystem)
        ensures
            system@ == SolarSystem::around(position),
    {
        let system = SolarSystem {
            sun: FixedFreeBody::new_sun(position, [F64_ZERO_BITS, F64_ZERO_BITS, F64_ZERO_BITS]),
            planets: Vec::new(),
        };
        assert(planet_views(system.planets@) =~= Seq::<PlanetsView>::empty());
        system
    }

    /// The sun of the system.
    pub fn sun(&self) -> (sun: &FixedFreeBody)
        ensures
            sun@ == self@.sun,
    {
        &self.sun
    }
}

/// What a planet holds.
pub struct PlanetsView {
    pub planet: FixedFreeBodyView,
    pub satellites: Seq<FixedFreeBodyView>,
}

/// The views of a list of fixed free bodies.
pub open spec fn fixed_body_views(bodies: Seq<FixedFreeBody>) -> Seq<FixedFreeBodyView> {
    bodies.map_values(|b: FixedFreeBody| b@)
}

/// A planet and the satellites around it.
pub struct Planets {
    planet: FixedFreeBody,
    satellites: Vec<FixedFreeBody>,
}

impl View for Planets {
    type V = PlanetsView;

    closed spec fn view(&self) -> PlanetsView {
        PlanetsView { planet: self.planet@, satellites: fixed_body_views(self.satellites@) }
    }
}

impl Planets {
    /// A planet at the origin, unrotated, with no satellites.
    pub fn new() -> (planets: Planets)
        ensures
            planets@ == (PlanetsView {
                planet: FixedFreeBody::placed(zero_vector(), zero_vector()),
                satellites: Seq::empty(),
            }),
    {
        let planets = Planets {
            planet: FixedFreeBody::new(
                [F64_ZERO_BITS, F64_ZERO_BITS, F64_ZERO_BITS],
                [F64_ZERO_BITS, F64_ZERO_BITS, F64_ZERO_BITS],
            ),
            satellites: Vec::new(),
        };
        assert(fixed_body_views(planets.satellites@) =~= Seq::<FixedFreeBodyView>::empty());
        planets
    }
}

/// What a sector holds.
pub struct SectorView {
    pub freebodies: Seq<FreeBodyView>,
    pub fixedfreebodies: Seq<FixedFreeBodyView>,
}

/// The views of a list of free bodies.
pub open spec fn free_body_views(bodies: Seq<FreeBody>) -> Seq<FreeBodyView> {
    bodies.map_values(|b: FreeBody| b@)
}

/// A region of space and the bodies in it.
pub struct Sector {
    freebodies: Vec<FreeBody>,
    fixedfreebodies: Vec<FixedFreeBody>,
}

impl View for Sector {
    type V = SectorView;

    closed spec fn view(&self) -> SectorView {
        SectorView {
            freebodies: free_body_views(self.freebodies@),
            fixedfreebodies: fixed_body_views(self.fixedfreebodies@),
        }
    }
}

impl Sector {
    /// A sector with no bodies.
    pub open spec fn empty_view() -> SectorView {
        SectorView { freebodies: Seq::empty(), fixedfreebodies: Seq::empty() }
    }

    /// A sector with no bodies.
    pub fn new() -> (sector: Sector)
        ensures
            sector@ == Sector::empty_view(),
    {
        let sector = Sector { freebodies: Vec::new(), fixedfreebodies: Vec::new() };
        assert(sector@.freebodies =~= Seq::<FreeBodyView>::empty());
        assert(sector@.fixedfreebodies =~= Seq::<FixedFreeBodyView>::empty());
        sector
    }

    /// Adds a free body after the ones the sector holds.
    pub fn add_freebodies(&mut self, freebody: FreeBody)
        ensures
            final(self)@.freebodies == old(self)@.freebodies.push(freebody@),
            final(self)@.fixedfreebodies == old(self)@.fixedfreebodies,
    {
        let ghost before = self.freebodies@;
        self.freebodies.push(freebody);
        assert(free_body_views(self.freebodies@) =~= free_body_views(before).push(freebody@));
    }

    /// Adds a fixed free body after the ones the sector holds.
    pub fn add_fixedfreebodies(&mut self, fixedfreebodies: FixedFreeBody)
        ensures
            final(self)@.fixedfreebodies == old(self)@.fixedfreebodies.push(fixedfreebodies@),
            final(self)@.freebodies == old(self)@.freebodies,
    {
        let ghost before = self.fixedfreebodies@;
        self.fixedfreebodies.push(fixedfreebodies);
        assert(fixed_body_views(self.fixedfreebodies@) =~= fixed_body_views(before).push(
            fixedfreebodies@,
        ));
    }

    /// The number of free bodies in the sector.
    pub fn freebody_count(&self) -> (count: usize)
        ensures
            count == self@.freebodies.len(),
    {
        self.freebodies.len()
    }

    /// The number of fixed free bodies in the sector.
    pub fn fixedfreebody_count(&self) -> (count: usize)
        ensures
            count == self@.fixedfreebodies.len(),
    {
        self.fixedfreebodies.len()
    }
}

} // verus!
