use minestar::world::freebodies::{Entity, FixedFreeBody, FreeBody, F64_THREE_BITS, F64_ZERO_BITS};
use minestar::world::grid::ChunkGrid;
use minestar::world::{Galaxy, Planets, Sector, SolarSystem, StarCandidate, Universe};

fn bits(v: [f64; 3]) -> [u64; 3] {
    [v[0].to_bits(), v[1].to_bits(), v[2].to_bits()]
}

fn candidate(key: &str, position: [f64; 3]) -> StarCandidate {
    StarCandidate { key: key.to_string(), position: bits(position) }
}

fn free_body() -> FreeBody {
    FreeBody::new(7, [1, 2, 3], bits([0.0, 1.0, 0.0]), bits([5.0, 5.0, 5.0]), bits([0.0; 3]), 10, ChunkGrid::new())
}

#[test]
fn float_bit_constants() {
    assert_eq!(F64_ZERO_BITS, 0.0f64.to_bits());
    assert_eq!(F64_THREE_BITS, 3.0f64.to_bits());
}

#[test]
fn galaxy_keeps_first_star_of_each_key() {
    let galaxy = Galaxy::new(vec![
        candidate("1.000,2.000", [1.0, 2.0, 0.0]),
        candidate("3.000,4.000", [3.0, 4.0, 0.0]),
        candidate("1.000,2.000", [1.0001, 2.0, 0.0]),
        candidate("5.000,6.000", [5.0, 6.0, 0.0]),
        candidate("3.000,4.000", [3.0, 3.9999, 0.0]),
    ]);
    let systems = galaxy.solar_systems();
    assert_eq!(systems.len(), 3);
    assert_eq!(systems[0].sun().position, bits([1.0, 2.0, 0.0]));
    assert_eq!(systems[1].sun().position, bits([3.0, 4.0, 0.0]));
    assert_eq!(systems[2].sun().position, bits([5.0, 6.0, 0.0]));
}

#[test]
fn galaxy_from_no_candidates_is_empty() {
    assert_eq!(Galaxy::new(Vec::new()).solar_systems().len(), 0);
}

#[test]
fn solar_system_has_sun_at_position() {
    let system = SolarSystem::new(bits([1.5, -2.0, 0.0]));
    assert_eq!(system.sun().position, bits([1.5, -2.0, 0.0]));
    assert_eq!(system.sun().grid_count(), 0);
}

#[test]
fn planets_start_at_origin() {
    let _ = Planets::new();
}

#[test]
fn fixed_free_bodies() {
    let body = FixedFreeBody::new(bits([1.0, 2.0, 3.0]), bits([0.0; 3]));
    assert_eq!(body.position, bits([1.0, 2.0, 3.0]));
    assert_eq!(body.grid_count(), 0);
    let sun = FixedFreeBody::new_sun(bits([4.0, 0.0, 0.0]), bits([0.0; 3]));
    assert_eq!(sun.position, bits([4.0, 0.0, 0.0]));
    let planet = FixedFreeBody::new_planet(5);
    assert_eq!(planet.grid_count(), 6);
    assert_eq!(planet.position, [F64_ZERO_BITS, F64_ZERO_BITS, F64_THREE_BITS]);
}

#[test]
fn sector_collects_bodies() {
    let mut sector = Sector::new();
    assert_eq!(sector.freebody_count(), 0);
    assert_eq!(sector.fixedfreebody_count(), 0);
    sector.add_freebodies(free_body());
    sector.add_fixedfreebodies(FixedFreeBody::new_planet(1));
    sector.add_fixedfreebodies(FixedFreeBody::new_planet(2));
    assert_eq!(sector.freebody_count(), 1);
    assert_eq!(sector.fixedfreebody_count(), 2);
}

#[test]
fn entity_on_ground() {
    let _ = Entity::new(3, 4);
}

#[test]
fn new_universe_is_empty() {
    let universe = Universe::new();
    assert_eq!(universe.star_chart().len(), 0);
}

#[test]
fn generate_galaxy_charts_it() {
    let mut universe = Universe::new();
    universe.generate_galaxy(vec![candidate("0.000,0.000", [0.0, 0.0, 0.0])]);
    universe.generate_galaxy(vec![
        candidate("1.000,0.000", [1.0, 0.0, 0.0]),
        candidate("2.000,0.000", [2.0, 0.0, 0.0]),
    ]);
    let chart = universe.star_chart();
    assert_eq!(chart.len(), 2);
    assert_eq!(chart[0].solar_systems().len(), 1);
    assert_eq!(chart[1].solar_systems().len(), 2);
}

#[test]
fn generate_universe_keeps_batch_order() {
    let mut universe = Universe::new();
    let batch = |x: f64| vec![Galaxy::new(vec![candidate(&format!("{:.3},0.000", x), [x, 0.0, 0.0])])];
    universe.generate_universe(vec![batch(1.0), Vec::new(), vec![Galaxy::new(Vec::new())], batch(2.0)]);
    let chart = universe.star_chart();
    assert_eq!(chart.len(), 3);
    assert_eq!(chart[0].solar_systems()[0].sun().position, bits([1.0, 0.0, 0.0]));
    assert_eq!(chart[1].solar_systems().len(), 0);
    assert_eq!(chart[2].solar_systems()[0].sun().position, bits([2.0, 0.0, 0.0]));
}

#[test]
fn get_sector_creates_and_keeps_sectors() {
    let mut universe = Universe::new();
    assert!(!universe.has_sector([9, 9, 9]));
    {
        let sector = universe.get_sector([9, 9, 9]).unwrap();
        assert_eq!(sector.fixedfreebody_count(), 0);
        sector.add_fixedfreebodies(FixedFreeBody::new_planet(5));
    }
    {
        let sector = universe.get_sector([9, 9, 9]).unwrap();
        assert_eq!(sector.fixedfreebody_count(), 1);
        sector.add_freebodies(free_body());
    }
    assert!(universe.has_sector([9, 9, 9]));
    assert!(!universe.has_sector([0, 9, 9]));
    let other = universe.get_sector([0, 9, 9]).unwrap();
    assert_eq!(other.fixedfreebody_count(), 0);
    assert_eq!(other.freebody_count(), 0);
    let again = universe.get_sector([9, 9, 9]).unwrap();
    assert_eq!(again.fixedfreebody_count(), 1);
    assert_eq!(again.freebody_count(), 1);
}
