//! Event kernels: slides, lightning, thermal stress.

use ecosim::constants::DEFAULT_BEDROCK_HEIGHT;
use ecosim::ecosystem::Ecosystem;
use ecosim::events::Events;
use ecosim::grid::CellIndex;
use ecosim::lightning::apply_lightning_event_helper;
use ecosim::slide::{
    apply_humus_slide_event, apply_rock_slide_event, apply_sand_slide_event,
};
use ecosim::thermal::compute_thermal_fracture_probability;

#[test]
fn test_compute_max_slide_height() {
    // a sand pile one meter above a neighbor one cell away settles at the
    // critical angle: tan(34 degrees) = 0.676 meters above the neighbor
    let offset = ecosim::constants::IDEAL_OFFSET_SAND_STRAIGHT as i64;
    assert!((offset - 676_000).abs() < 10_000, "offset {}", offset);
}

#[test]
fn test_apply_sand_slide_event() {
    let mut ecosystem = Ecosystem::init();
    ecosystem.set_bedrock_at(3, 3, 0);
    ecosystem.add_sand_at(3, 3, 1_000_000);
    ecosystem.set_bedrock_at(3, 2, 0);

    let propagation = apply_sand_slide_event(&mut ecosystem, CellIndex::new(3, 3));
    assert!(propagation.is_some());
    let (event, index) = propagation.unwrap();
    assert_eq!(event, Events::SandSlide);
    assert_eq!(index, CellIndex::new(3, 2));

    let sand = ecosystem.get_cell(CellIndex::new(3, 3)).get_sand_height() as i64;
    assert!((sand - 838_000).abs() < 10_000, "sand {}", sand);
    let sand = ecosystem.get_cell(CellIndex::new(3, 2)).get_sand_height() as i64;
    assert!((sand - 162_000).abs() < 10_000, "sand {}", sand);
}

#[test]
fn test_apply_rock_slide_event() {
    let mut ecosystem = Ecosystem::init();
    ecosystem.set_bedrock_at(3, 3, 0);
    ecosystem.add_rocks_at(3, 3, 2_000_000);
    ecosystem.set_bedrock_at(3, 2, 0);

    let propagation = apply_rock_slide_event(&mut ecosystem, CellIndex::new(3, 3));
    assert!(propagation.is_some());
    let (event, index) = propagation.unwrap();
    assert_eq!(event, Events::RockSlide);
    assert_eq!(index, CellIndex::new(3, 2));

    // rock rests at 45 degrees: the ideal height over the target is one
    // meter, so half the meter above that slides: (2 - 1) / 2 = 0.5
    let rock = ecosystem.get_cell(CellIndex::new(3, 3)).get_rock_height() as i64;
    assert!((rock - 1_500_000).abs() < 10_000, "rock {}", rock);
    let rock = ecosystem.get_cell(CellIndex::new(3, 2)).get_rock_height() as i64;
    assert!((rock - 500_000).abs() < 10_000, "rock {}", rock);
}

#[test]
fn test_apply_humus_slide_event() {
    let mut ecosystem = Ecosystem::init();
    ecosystem.set_bedrock_at(3, 3, 0);
    ecosystem.add_humus_at(3, 3, 1_000_000);
    ecosystem.set_bedrock_at(3, 2, 0);

    let propagation = apply_humus_slide_event(&mut ecosystem, CellIndex::new(3, 3));
    assert!(propagation.is_some());
    let (event, index) = propagation.unwrap();
    assert_eq!(event, Events::HumusSlide);
    assert_eq!(index, CellIndex::new(3, 2));

    // humus rests at 40 degrees: ideal height 0.839, transfer (1 - 0.839)/2
    let humus = ecosystem.get_cell(CellIndex::new(3, 3)).get_humus_height() as i64;
    assert!((humus - 916_000).abs() < 10_000, "humus {}", humus);
    let humus = ecosystem.get_cell(CellIndex::new(3, 2)).get_humus_height() as i64;
    assert!((humus - 84_000).abs() < 10_000, "humus {}", humus);
}

#[test]
fn slide_conserves_material() {
    let mut ecosystem = Ecosystem::init();
    ecosystem.set_bedrock_at(3, 3, 0);
    ecosystem.add_sand_at(3, 3, 1_000_000);
    ecosystem.set_bedrock_at(3, 2, 0);
    let before: u64 = (0..ecosim::constants::NUM_CELLS)
        .map(|k| {
            ecosystem.get_cell(CellIndex::get_from_flat_index(k)).get_sand_height()
        })
        .sum();
    apply_sand_slide_event(&mut ecosystem, CellIndex::new(3, 3));
    let after: u64 = (0..ecosim::constants::NUM_CELLS)
        .map(|k| {
            ecosystem.get_cell(CellIndex::get_from_flat_index(k)).get_sand_height()
        })
        .sum();
    assert_eq!(before, after);
}

#[test]
fn slide_without_material_is_a_no_op() {
    // a steep cell with none of the sliding material does nothing and does
    // not propagate
    let mut ecosystem = Ecosystem::init();
    ecosystem.set_bedrock_at(3, 3, 10_000_000);
    let r = apply_sand_slide_event(&mut ecosystem, CellIndex::new(3, 3));
    assert!(r.is_none());
    let r = apply_rock_slide_event(&mut ecosystem, CellIndex::new(3, 3));
    assert!(r.is_none());
    let r = apply_humus_slide_event(&mut ecosystem, CellIndex::new(3, 3));
    assert!(r.is_none());
    assert_eq!(
        ecosystem.get_cell(CellIndex::new(3, 3)).get_height(),
        10_000_000
    );
}

#[test]
fn test_lightning_event() {
    lightning_helper(CellIndex::new(2, 2));
    lightning_helper(CellIndex::new(0, 0));
    lightning_helper(CellIndex::new(2, 0));
}

fn lightning_helper(index: CellIndex) {
    let mut ecosystem = Ecosystem::init();
    ecosystem.set_trees_at(index.x, index.y, 1, 30_000_000, 10_000_000);

    let result = apply_lightning_event_helper(&mut ecosystem, index, 1_000_000);
    assert!(result.is_none());

    // the trees are dead
    let cell = ecosystem.get_cell(index);
    assert!(cell.trees.is_none());
    assert!(cell.get_dead_vegetation_biomass() > 0);

    // the bedrock has dropped by 4 cubic meters over the cell: 0.04 m
    assert_eq!(
        cell.get_bedrock_height(),
        DEFAULT_BEDROCK_HEIGHT - 40_000
    );

    // the cell and every neighbor share the volume, half rock half sand
    let neighbors = index.get_neighbors();
    let num_affected = neighbors.len() as u64 + 1;
    let half = (40_000 / num_affected) / 2;
    assert_eq!(cell.get_rock_height(), half);
    assert_eq!(cell.get_sand_height(), half);
    for slot in neighbors.as_array().into_iter().flatten() {
        let neighbor = ecosystem.get_cell(slot);
        assert_eq!(neighbor.get_rock_height(), half);
        assert_eq!(neighbor.get_sand_height(), half);
    }
}

#[test]
fn lightning_balances_lost_bedrock_against_scattered_debris() {
    // interior strike: the rock and sand handed out across the nine cells
    // recover the lost bedrock up to integer rounding
    let mut ecosystem = Ecosystem::init();
    let index = CellIndex::new(5, 5);
    apply_lightning_event_helper(&mut ecosystem, index, 1_000_000);
    let mut gained: u64 = 0;
    let cell = ecosystem.get_cell(index);
    gained += cell.get_rock_height() + cell.get_sand_height();
    for slot in index.get_neighbors().as_array().into_iter().flatten() {
        let n = ecosystem.get_cell(slot);
        gained += n.get_rock_height() + n.get_sand_height();
    }
    let lost = DEFAULT_BEDROCK_HEIGHT - cell.get_bedrock_height();
    assert!(gained <= lost);
    assert!(lost - gained < 18, "rounding left {}", lost - gained);
}

#[test]
fn test_compute_thermal_fracture_probability() {
    // flat terrain never fractures
    let mut ecosystem = Ecosystem::init();
    let index = CellIndex::new(2, 2);
    let prob = compute_thermal_fracture_probability(&ecosystem, index);
    assert_eq!(prob, 0);

    // a one-meter hill gives probability 0.1 * sin(45 degrees) = 0.0707
    ecosystem.set_bedrock_at(2, 2, 101_000_000);
    let prob = compute_thermal_fracture_probability(&ecosystem, index) as i64;
    assert!((prob - 70_700).abs() < 1_000, "prob {}", prob);

    // the hill on a neighbor instead gives the same slope
    ecosystem.set_bedrock_at(2, 2, 100_000_000);
    ecosystem.set_bedrock_at(2, 1, 101_000_000);
    let prob = compute_thermal_fracture_probability(&ecosystem, index) as i64;
    assert!((prob - 70_700).abs() < 1_000, "prob {}", prob);

    // two meters of granular cover halve the probability
    ecosystem.set_bedrock_at(2, 2, 98_000_000);
    ecosystem.add_sand_at(2, 2, 1_000_000);
    ecosystem.add_humus_at(2, 2, 1_000_000);
    let prob = compute_thermal_fracture_probability(&ecosystem, index) as i64;
    assert!((prob - 35_355).abs() < 1_000, "prob {}", prob);
}
