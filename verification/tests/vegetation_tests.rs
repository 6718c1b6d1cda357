//! Viability, vigor and stress, and the vegetation life-cycle kernels.

use ecosim::ecosystem::Ecosystem;
use ecosim::grid::CellIndex;
use ecosim::vegetation::{apply_bushes_event, apply_grasses_event, apply_trees_event};
use ecosim::viability::{
    compute_illumination_viability, compute_moisture_viability, compute_piecewise,
    compute_temperature_viability, compute_viability, compute_vigor_and_stress, Species,
};

/// A cell at (2, 2) with half a meter of humus over bedrock and trees.
fn tree_cell() -> Ecosystem {
    let mut eco = Ecosystem::init();
    eco.set_trees_at(2, 2, 1, 10_000_000, 10_000_000);
    eco.remove_bedrock_at(2, 2, 500_000);
    eco.add_humus_at(2, 2, 500_000);
    eco
}

#[test]
fn test_tree_compute_viability() {
    let mut eco = tree_cell();
    let index = CellIndex::new(2, 2);

    // January: temperature viability 0.735, bone dry soil, full light
    let t = compute_temperature_viability(&eco, index, Species::Trees, 0);
    assert_eq!(t, 735_000);
    let m = compute_moisture_viability(&eco, index, Species::Trees, 0);
    assert_eq!(m, -1_000_000);
    let l = compute_illumination_viability(&eco, index, Species::Trees, 0);
    assert_eq!(l, 1_000_000);
    // the worst of the three rules
    let v = compute_viability(&eco, index, Species::Trees, 0);
    assert_eq!(v, -1_000_000);

    // enough water brings moisture into the ideal band
    eco.set_soil_moisture_at(2, 2, 180_000_000);
    let m = compute_moisture_viability(&eco, index, Species::Trees, 0);
    assert_eq!(m, 1_000_000);
    let v = compute_viability(&eco, index, Species::Trees, 0);
    assert_eq!(v, 735_000);

    // a thinner humus layer concentrates the same water: fraction 0.5, on
    // the descending ramp toward the wet limit
    let mut eco2 = Ecosystem::init();
    eco2.set_trees_at(2, 2, 1, 10_000_000, 10_000_000);
    eco2.remove_bedrock_at(2, 2, 300_000);
    eco2.add_humus_at(2, 2, 300_000);
    eco2.set_soil_moisture_at(2, 2, 180_000_000);
    let m = compute_moisture_viability(&eco2, index, Species::Trees, 0);
    assert!((m - 750_000).abs() < 10_000, "moisture viability {}", m);
    let v = compute_viability(&eco2, index, Species::Trees, 0);
    assert!((v - 735_000).abs() < 10_000, "viability {}", v);

    // far too much water drowns the trees
    eco2.set_soil_moisture_at(2, 2, 300_000_000);
    let m = compute_moisture_viability(&eco2, index, Species::Trees, 0);
    assert_eq!(m, -1_000_000);
    let v = compute_viability(&eco2, index, Species::Trees, 0);
    assert_eq!(v, -1_000_000);
}

#[test]
fn test_tree_compute_vigor_and_stress() {
    let mut eco = tree_cell();
    eco.set_soil_moisture_at(2, 2, 180_000_000);
    let index = CellIndex::new(2, 2);

    let mut viabilities = vec![];
    for i in 0..12 {
        viabilities.push(compute_viability(&eco, index, Species::Trees, i));
    }
    let (vigor, stress) = compute_vigor_and_stress(&eco, index, Species::Trees);

    // the growing season is the eight months above five degrees
    let expected_vigor: i64 = viabilities[3..11].iter().sum::<i64>() / 8;
    assert_eq!(vigor, expected_vigor);
    // every month is hospitable here
    assert_eq!(stress, 0);
}

#[test]
fn test_apply_trees_event() {
    let mut eco = Ecosystem::init();
    let index = CellIndex::new(0, 0);

    // simple growth: one tree, perfect conditions
    eco.set_trees_at(0, 0, 1, 10_000_000, 20_000_000);
    eco.remove_bedrock_at(0, 0, 500_000);
    eco.add_humus_at(0, 0, 500_000);
    eco.set_soil_moisture_at(0, 0, 180_000_000);

    apply_trees_event(&mut eco, index);

    let cell = eco.get_cell(index);
    let trees = cell.trees.as_ref().expect("trees survive");
    assert!(trees.number_of_plants >= 1);
    assert!(trees.plant_height_sum > 10_000_000);
    assert!(trees.plant_age_sum > 20_000_000);
    assert_eq!(cell.get_humus_height(), 500_000);
    assert_eq!(cell.get_dead_vegetation_biomass(), 0);

    // overpopulation: five twenty-meter trees on one cell
    eco.set_trees_at(0, 0, 5, 100_000_000, 100_000_000);
    apply_trees_event(&mut eco, index);
    let cell = eco.get_cell(index);
    let trees = cell.trees.as_ref().expect("some trees survive");
    assert!(trees.number_of_plants < 5);
    assert!(trees.plant_height_sum < 100_000_000);
    assert!(trees.plant_age_sum < 100_000_000);
    assert_eq!(cell.get_humus_height(), 500_000);
    assert!(cell.get_dead_vegetation_biomass() > 0);

    // a year later the corpses have become humus
    apply_trees_event(&mut eco, index);
    let cell = eco.get_cell(index);
    assert!(cell.trees.is_some());
    assert!(cell.get_humus_height() > 500_000);
    assert_eq!(cell.get_dead_vegetation_biomass(), 0);
}

#[test]
fn test_apply_bushes_event() {
    let mut eco = Ecosystem::init();
    let index = CellIndex::new(0, 0);

    // simple growth
    set_bushes(&mut eco, 1, 2_000_000, 10_000_000);
    eco.remove_bedrock_at(0, 0, 500_000);
    eco.add_humus_at(0, 0, 500_000);
    eco.set_soil_moisture_at(0, 0, 180_000_000);

    apply_bushes_event(&mut eco, index);
    let cell = eco.get_cell(index);
    let bushes = cell.bushes.as_ref().expect("bushes survive");
    assert!(bushes.number_of_plants >= 1);
    assert!(bushes.plant_height_sum > 2_000_000);
    assert!(bushes.plant_age_sum > 10_000_000);
    assert_eq!(cell.get_humus_height(), 500_000);
    assert_eq!(cell.get_dead_vegetation_biomass(), 0);

    // overpopulation: a hundred bushes
    set_bushes(&mut eco, 100, 200_000_000, 1_000_000_000);
    apply_bushes_event(&mut eco, index);
    let cell = eco.get_cell(index);
    let bushes = cell.bushes.as_ref().expect("some bushes survive");
    assert!(bushes.number_of_plants < 100);
    assert!(bushes.plant_height_sum < 200_000_000);
    assert!(bushes.plant_age_sum < 1_000_000_000);
    assert_eq!(cell.get_humus_height(), 500_000);
    assert!(cell.get_dead_vegetation_biomass() > 0);

    // the corpses convert to humus the next year; the surviving bushes
    // grow past full cover again, so this year's overpopulation produces
    // fresh dead matter
    let dead_before = eco.get_cell(index).get_dead_vegetation_biomass();
    apply_bushes_event(&mut eco, index);
    let cell = eco.get_cell(index);
    assert!(cell.bushes.is_some());
    assert!(cell.get_humus_height() > 500_000);
    assert!(cell.get_dead_vegetation_biomass() < dead_before);
}

fn set_bushes(eco: &mut Ecosystem, count: u32, height_sum: u64, age_sum: u64) {
    eco.cells[0].bushes = Some(ecosim::cell::Bushes {
        number_of_plants: count,
        plant_height_sum: height_sum,
        plant_age_sum: age_sum,
    });
}

#[test]
fn test_apply_grasses_event() {
    let mut eco = Ecosystem::init();
    let index = CellIndex::new(0, 0);

    // growth from bare cover under good conditions
    set_grasses(&mut eco, 0);
    eco.remove_bedrock_at(0, 0, 500_000);
    eco.add_humus_at(0, 0, 500_000);
    eco.set_soil_moisture_at(0, 0, 180_000_000);

    apply_grasses_event(&mut eco, index);
    let cell = eco.get_cell(index);
    let grasses = cell.grasses.as_ref().expect("grass grows");
    assert!(grasses.coverage_density > 0);
    assert_eq!(cell.get_humus_height(), 500_000);
    assert_eq!(cell.get_dead_vegetation_biomass(), 0);

    // coverage never exceeds full cover; the overflow dies
    set_grasses(&mut eco, 900_000);
    apply_grasses_event(&mut eco, index);
    let cell = eco.get_cell(index);
    let grasses = cell.grasses.as_ref().expect("grass persists");
    assert!(grasses.coverage_density <= 1_000_000);
}

fn set_grasses(eco: &mut Ecosystem, coverage: u64) {
    eco.cells[0].grasses = Some(ecosim::cell::Grasses { coverage_density: coverage });
}

#[test]
fn viability_profile_meets_its_plateaus() {
    // the profile is exactly one across the ideal band, exactly minus one
    // beyond the limits, and continuous at the ideal knots
    let (lmin, imin, imax, lmax) = (-10_000_000i64, 0i64, 35_000_000i64, 38_000_000i64);
    assert_eq!(compute_piecewise(imin, lmin, imin, imax, lmax), 1_000_000);
    assert_eq!(compute_piecewise(imax, lmin, imin, imax, lmax), 1_000_000);
    assert_eq!(compute_piecewise(lmin - 1, lmin, imin, imax, lmax), -1_000_000);
    assert_eq!(compute_piecewise(lmax + 1, lmin, imin, imax, lmax), -1_000_000);
    // one step outside an ideal knot moves by at most one ramp unit
    let below = compute_piecewise(imin - 1, lmin, imin, imax, lmax);
    assert!(1_000_000 - below <= 1_000_000 / (imin - lmin) + 1);
    let above = compute_piecewise(imax + 1, lmin, imin, imax, lmax);
    assert!(1_000_000 - above <= 1_000_000 / (lmax - imax) + 1);
    // the ramps cross zero at the survival limits
    assert_eq!(compute_piecewise(lmin, lmin, imin, imax, lmax), 0);
}
