//! Grid, cell and layer-store behavior.

use ecosim::cell::{Bedrock, Cell, Humus, Rock, Sand, Trees};
use ecosim::constants::{AREA_SIDE_LENGTH, DEFAULT_BEDROCK_HEIGHT};
use ecosim::ecosystem::Ecosystem;
use ecosim::grid::CellIndex;

#[test]
fn test_ecosystem_init() {
    let ecosystem = Ecosystem::init();
    assert_eq!(ecosystem.cells.len(), AREA_SIDE_LENGTH * AREA_SIDE_LENGTH);
    for i in 0..AREA_SIDE_LENGTH {
        for j in 0..AREA_SIDE_LENGTH {
            let index = CellIndex::new(i, j);
            let cell = ecosystem.get_cell(index);
            assert_eq!(cell.get_height(), DEFAULT_BEDROCK_HEIGHT);
        }
    }
}

#[test]
fn test_get_neighbors() {
    let x = 2;
    let y = 3;
    let index = CellIndex::new(x, y);
    let neighbors = index.get_neighbors();
    assert!(neighbors.west == Some(CellIndex::new(x - 1, y)));
    assert!(neighbors.north == Some(CellIndex::new(x, y - 1)));
    assert!(neighbors.south == Some(CellIndex::new(x, y + 1)));
    assert!(neighbors.east == Some(CellIndex::new(x + 1, y)));
    assert!(neighbors.northeast == Some(CellIndex::new(x + 1, y - 1)));
    assert!(neighbors.southeast == Some(CellIndex::new(x + 1, y + 1)));
    assert!(neighbors.northwest == Some(CellIndex::new(x - 1, y - 1)));
    assert!(neighbors.southwest == Some(CellIndex::new(x - 1, y + 1)));

    let index = CellIndex::new(0, 0);
    let neighbors = index.get_neighbors();
    assert!(neighbors.south == Some(CellIndex::new(0, 1)));
    assert!(neighbors.east == Some(CellIndex::new(1, 0)));
    assert!(neighbors.north.is_none());
    assert!(neighbors.west.is_none());
    assert!(neighbors.northeast.is_none());
    assert!(neighbors.southeast == Some(CellIndex::new(1, 1)));
    assert!(neighbors.northwest.is_none());
    assert!(neighbors.southwest.is_none());

    let x = 2;
    let y = 0;
    let index = CellIndex::new(x, y);
    let neighbors = index.get_neighbors();
    assert!(neighbors.north.is_none());
    assert_eq!(neighbors.east, Some(CellIndex::new(x + 1, y)));
    assert_eq!(neighbors.west, Some(CellIndex::new(x - 1, y)));
    assert_eq!(neighbors.south, Some(CellIndex::new(x, y + 1)));
    assert!(neighbors.northeast.is_none());
    assert_eq!(neighbors.southeast, Some(CellIndex::new(x + 1, y + 1)));
    assert!(neighbors.northwest.is_none());
    assert_eq!(neighbors.southwest, Some(CellIndex::new(x - 1, y + 1)));
}

#[test]
fn neighbor_counts_shrink_at_the_boundary() {
    // corner, edge, interior cells have 3, 5 and 8 neighbors
    let n = AREA_SIDE_LENGTH;
    assert_eq!(CellIndex::new(0, 0).get_neighbors().len(), 3);
    assert_eq!(CellIndex::new(n - 1, 0).get_neighbors().len(), 3);
    assert_eq!(CellIndex::new(0, n - 1).get_neighbors().len(), 3);
    assert_eq!(CellIndex::new(n - 1, n - 1).get_neighbors().len(), 3);
    assert_eq!(CellIndex::new(5, 0).get_neighbors().len(), 5);
    assert_eq!(CellIndex::new(0, 5).get_neighbors().len(), 5);
    assert_eq!(CellIndex::new(n - 1, 5).get_neighbors().len(), 5);
    assert_eq!(CellIndex::new(5, n - 1).get_neighbors().len(), 5);
    assert_eq!(CellIndex::new(5, 5).get_neighbors().len(), 8);
}

#[test]
fn flat_index_round_trip() {
    let i = CellIndex::new(37, 101);
    let flat = 37 + 101 * AREA_SIDE_LENGTH;
    let back = CellIndex::get_from_flat_index(flat);
    assert_eq!(back, i);
}

fn bare_cell() -> Cell {
    Cell::init()
}

#[test]
fn test_get_height() {
    // 100 m bedrock + 10 m rock + 5 m sand + 1.1 m humus = 116.1 m
    let mut cell = bare_cell();
    cell.bedrock = Some(Bedrock { height: 100_000_000 });
    cell.rock = Some(Rock { height: 10_000_000 });
    cell.sand = Some(Sand { height: 5_000_000 });
    cell.humus = Some(Humus { height: 1_100_000 });
    cell.trees = Some(Trees {
        number_of_plants: 1,
        plant_height_sum: 10_000_000,
        plant_age_sum: 10_000_000,
    });
    assert_eq!(cell.get_height(), 116_100_000);
}

#[test]
fn test_get_temperature() {
    let mut cell = bare_cell();
    let table = ecosim::constants::AVERAGE_MONTHLY_TEMPERATURES;
    assert_eq!(cell.get_monthly_temperature(0), table[0]);
    assert_eq!(cell.get_monthly_temperature(11), table[11]);

    // 100 m of ground lowers the temperature by 0.65 degrees
    cell.add_bedrock(100_000_000);
    assert_eq!(cell.get_monthly_temperature(0), table[0] - 650_000);

    cell.add_rocks(10_000_000);
    cell.add_sand(10_000_000);
    cell.add_dead_vegetation(10_000_000);
    assert_eq!(cell.get_monthly_temperature(0), table[0] - 780_000);
}

#[test]
fn test_get_monthly_soil_moisture() {
    let mut ecosystem = Ecosystem::init();
    let index = CellIndex::new(2, 2);
    let cell = ecosystem.get_cell(index);
    // January, dry cell
    assert_eq!(cell.get_monthly_soil_moisture(0), 0);

    // one liter of moisture
    ecosystem.set_soil_moisture_at(2, 2, 1000);
    let cell = ecosystem.get_cell(index);
    assert_eq!(cell.get_monthly_soil_moisture(0), 1000 * 96 / 1151);

    // fifty liters
    ecosystem.set_soil_moisture_at(2, 2, 50_000);
    let cell = ecosystem.get_cell(index);
    assert_eq!(cell.get_monthly_soil_moisture(0), 50_000 * 96 / 1151);

    // July
    assert_eq!(cell.get_monthly_soil_moisture(6), 50_000 * 87 / 1151);
}

#[test]
fn test_get_normal() {
    let mut ecosystem = Ecosystem::init();
    let normal = ecosystem.get_normal(CellIndex::new(2, 2));
    assert_eq!((normal.x, normal.y, normal.z), (0, 0, 1_000_000_000));

    // tilt the ground along x: one meter down north of the cell, one meter
    // up south of it
    ecosystem.set_bedrock_at(1, 2, 99_000_000);
    ecosystem.set_bedrock_at(3, 2, 101_000_000);
    let normal = ecosystem.get_normal(CellIndex::new(2, 2));
    let expected = 707_106_781;
    assert!((normal.x - expected).abs() < 1_000_000, "normal.x {}", normal.x);
    assert!(normal.y.abs() < 1_000_000, "normal.y {}", normal.y);
    assert!((normal.z - expected).abs() < 1_000_000, "normal.z {}", normal.z);
}

#[test]
fn test_get_slope() {
    let mut ecosystem = Ecosystem::init();
    let slope = ecosystem.get_slope_between_points(CellIndex::new(3, 3), CellIndex::new(3, 2));
    assert_eq!(slope, 0);

    ecosystem.set_bedrock_at(3, 3, 1_000_000);
    ecosystem.set_bedrock_at(3, 2, 2_000_000);
    let slope = ecosystem.get_slope_between_points(CellIndex::new(3, 3), CellIndex::new(3, 2));
    // minus the sine of forty-five degrees
    let expected = -707_107;
    assert!((slope - expected).abs() < 1_000, "slope {}", slope);

    let slope = ecosystem.get_slope_between_points(CellIndex::new(3, 2), CellIndex::new(3, 3));
    let expected = 707_107;
    assert!((slope - expected).abs() < 1_000, "slope {}", slope);
}

#[test]
fn ln_and_exp_kernels_round_trip() {
    // exp(0) = 1 and ln(1) = 0, exactly at scale
    assert_eq!(ecosim::math::exp_s9(0), 1_000_000_000);
    assert_eq!(ecosim::math::ln_s9(1_000_000_000), 0);
    // a round trip through both stays within a hair of the input
    let x: u64 = 2_000_000_000;
    let back = ecosim::math::exp_s9(ecosim::math::ln_s9(x));
    assert!((back as i64 - x as i64).abs() < 1_000, "round trip {}", back);
}

#[test]
fn imported_heights_seed_humus_by_slope() {
    // a uniform heightfield has no slope anywhere, so every cell gets the
    // full default humus on top of its bedrock
    let heights = vec![50_000_000u64; ecosim::constants::NUM_CELLS];
    let eco = Ecosystem::init_with_heights(&heights);
    let cell = eco.get_cell(CellIndex::new(10, 10));
    assert_eq!(cell.get_bedrock_height(), 50_000_000);
    assert_eq!(cell.get_humus_height(), 500_000);
}
