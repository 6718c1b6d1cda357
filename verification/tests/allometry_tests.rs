//! Allometric estimators, the export maps, and the solar table helpers.

use ecosim::cell::{Bushes, Cell, Trees};
use ecosim::ecosystem::Ecosystem;
use ecosim::grid::CellIndex;

#[test]
fn test_estimate_diameter_from_height() {
    // a ten-meter red maple has a ten-centimeter trunk
    let d = Trees::estimate_diameter_from_height(10_000_000) as i64;
    assert!((d - 10_000_000).abs() <= 10, "diameter {}", d);
}

#[test]
fn test_estimate_tree_biomass() {
    // one ten-meter tree weighs 31.3472 kilograms
    let trees = Trees {
        number_of_plants: 1,
        plant_height_sum: 10_000_000,
        plant_age_sum: 10_000_000,
    };
    let biomass = trees.estimate_biomass() as i64;
    assert!((biomass - 31_347_200).abs() < 1_000, "biomass {}", biomass);

    // five such trees weigh five times as much
    let trees = Trees {
        number_of_plants: 5,
        plant_height_sum: 50_000_000,
        plant_age_sum: 10_000_000,
    };
    let biomass = trees.estimate_biomass() as i64;
    assert!((biomass - 156_736_000).abs() < 1_000, "biomass {}", biomass);
}

#[test]
fn test_estimate_tree_density() {
    // one ten-meter tree covers 7.74 percent of the cell
    let trees = Trees {
        number_of_plants: 1,
        plant_height_sum: 10_000_000,
        plant_age_sum: 10_000_000,
    };
    let density = Cell::estimate_tree_density(&trees) as i64;
    assert!((density - 77_400).abs() < 1_000, "density {}", density);

    // two trees cover twice that
    let trees = Trees {
        number_of_plants: 2,
        plant_height_sum: 20_000_000,
        plant_age_sum: 10_000_000,
    };
    let density = Cell::estimate_tree_density(&trees) as i64;
    assert!((density - 154_800).abs() < 2_000, "density {}", density);

    // fifteen cover more than the whole cell
    let trees = Trees {
        number_of_plants: 15,
        plant_height_sum: 150_000_000,
        plant_age_sum: 10_000_000,
    };
    let density = Cell::estimate_tree_density(&trees) as i64;
    assert!((density - 1_161_000).abs() < 15_000, "density {}", density);
}

#[test]
fn test_estimate_bush_biomass() {
    // one bush a meter and a half tall weighs 0.3104 kilograms
    let bushes = Bushes {
        number_of_plants: 1,
        plant_height_sum: 1_500_000,
        plant_age_sum: 1_000_000,
    };
    let biomass = bushes.estimate_biomass() as i64;
    assert!((biomass - 310_400).abs() < 1_000, "biomass {}", biomass);

    // five of them weigh five times as much
    let bushes = Bushes {
        number_of_plants: 5,
        plant_height_sum: 7_500_000,
        plant_age_sum: 1_000_000,
    };
    let biomass = bushes.estimate_biomass() as i64;
    assert!((biomass - 1_552_300).abs() < 1_000, "biomass {}", biomass);
}

#[test]
fn test_estimate_bushes_density() {
    // one two-meter bush covers 1.26 percent of the cell
    let bushes = Bushes {
        number_of_plants: 1,
        plant_height_sum: 2_000_000,
        plant_age_sum: 10_000_000,
    };
    let density = Cell::estimate_bushes_density(&bushes) as i64;
    assert!((density - 12_600).abs() < 1_000, "density {}", density);

    // ten cover ten times that
    let bushes = Bushes {
        number_of_plants: 10,
        plant_height_sum: 20_000_000,
        plant_age_sum: 10_000_000,
    };
    let density = Cell::estimate_bushes_density(&bushes) as i64;
    assert!((density - 126_000).abs() < 1_000, "density {}", density);
}

#[test]
fn kill_trees() {
    // lightning turns the whole population into exactly its own biomass of
    // dead matter
    let mut ecosystem = Ecosystem::init();
    let index = CellIndex::new(4, 4);
    ecosystem.set_trees_at(4, 4, 1, 30_000_000, 10_000_000);
    let expected = ecosystem.get_cell(index).estimate_tree_biomass();
    ecosim::lightning::apply_lightning_event_helper(&mut ecosystem, index, 1_000_000);
    let cell = ecosystem.get_cell(index);
    assert!(cell.trees.is_none());
    assert_eq!(cell.get_dead_vegetation_biomass(), expected);
}

#[test]
fn test_get_initial_humus_height() {
    // flat ground carries the full default humus
    let h = Ecosystem::get_initial_humus_height(0);
    assert_eq!(h, 500_000);

    // a thirty-degree slope carries about half of it
    let h = Ecosystem::get_initial_humus_height(500_000) as i64;
    assert!((h - 250_000).abs() < 30_000, "humus {}", h);

    // a sheer face carries about none
    let h = Ecosystem::get_initial_humus_height(1_000_000) as i64;
    assert!(h < 30_000, "humus {}", h);
}

#[test]
fn test_get_color() {
    // pure rock ground is rock gray
    let mut eco = Ecosystem::init();
    eco.add_rocks_at(7, 7, 1_000_000);
    let (red, green, blue) = ecosim::export::get_color(&eco, CellIndex::new(7, 7));
    assert_eq!((red, green, blue), (400_000, 400_000, 400_000));

    // equal rock and sand average the two colors
    eco.add_sand_at(7, 7, 1_000_000);
    let (red, green, blue) = ecosim::export::get_color(&eco, CellIndex::new(7, 7));
    assert_eq!(red, (400_000 + 760_780) / 2);
    assert_eq!(green, (400_000 + 698_040) / 2);
    assert_eq!(blue, (400_000 + 501_960) / 2);
}

#[test]
fn hypsometric_tint_interpolates_between_bands() {
    // the lowest band starts exactly at the first control tint
    let (red, green, blue) = ecosim::export::get_hypsometric_color_helper(0);
    assert_eq!((red, green, blue), (150, 170, 101));
    // the top of the range reaches the last control tint
    let (red, green, blue) = ecosim::export::get_hypsometric_color_helper(255);
    assert_eq!((red, green, blue), (199, 196, 195));
    // halfway through the middle band sits between its two tints
    let (red, _, _) = ecosim::export::get_hypsometric_color_helper(120);
    assert_eq!(red as i64, (234 * 60 + 146 * 60) / 120);
}

#[test]
fn height_and_tint_maps_cover_the_grid() {
    let eco = Ecosystem::init_dunes();
    let heights = ecosim::export::build_height_map(&eco);
    assert_eq!(heights.len(), ecosim::constants::NUM_CELLS * 3);
    let tinted = ecosim::export::build_hypsometrically_tinted_map(&heights);
    assert_eq!(tinted.len(), ecosim::constants::NUM_CELLS * 3);
    let veg = ecosim::export::build_vegetation_map(&eco);
    assert_eq!(veg.len(), ecosim::constants::NUM_CELLS * 3);
}

#[test]
fn test_get_flat_index() {
    assert_eq!(ecosim::export::get_flat_index(0, 0), 0);
    assert_eq!(
        ecosim::export::get_flat_index(3, 2),
        2 * ecosim::constants::AREA_SIDE_LENGTH as i32 + 3
    );
}

#[test]
fn solar_calendar_tables() {
    assert_eq!(ecosim::solar::days_since_start_of_year(0), 0);
    assert_eq!(ecosim::solar::days_since_start_of_year(1), 31);
    assert_eq!(ecosim::solar::days_since_start_of_year(6), 181);
    assert_eq!(ecosim::solar::days_since_start_of_year(11), 334);
    assert_eq!(ecosim::solar::get_local_standard_time_meridian(), -75);
}
