//! The wind subsystem, rainfall, and the simulation driver pieces.

use ecosim::constants::{DEFAULT_BEDROCK_HEIGHT, NUM_CELLS};
use ecosim::ecosystem::Ecosystem;
use ecosim::grid::CellIndex;
use ecosim::wind::{
    apply_wind_event, get_bounce_probability, get_two_steepest_neighbors, get_wind_shadowing,
    perform_reptation, WindRose, WindState, CARRYING_CAPACITY_UM, REPTATION_HEIGHT_UM,
};

/// The unit direction of wind from the west (270 degrees): toward negative x.
const WEST_WIND: (i64, i64) = (-1_000_000, 0);

#[test]
fn test_get_local_sand_strength() {
    let mut ecosystem = Ecosystem::init();
    let index = CellIndex::new(3, 3);
    let strength_of = |shadow: i64| -> i64 { 10_000_000 * (1_000_000 - shadow) / 1_000_000 };

    // flat ground casts no shadow
    let shadow = get_wind_shadowing(&ecosystem, index, WEST_WIND);
    assert_eq!(strength_of(shadow), 10_000_000);

    // a small hill downwind (east) has no effect
    ecosystem.add_bedrock_at(4, 3, 2_000_000);
    let shadow = get_wind_shadowing(&ecosystem, index, WEST_WIND);
    assert_eq!(strength_of(shadow), 10_000_000);

    // a tall hill upwind shelters the cell completely
    ecosystem.add_bedrock_at(2, 3, 1_000_000);
    let shadow = get_wind_shadowing(&ecosystem, index, WEST_WIND);
    assert_eq!(strength_of(shadow), 0);

    // a lower hill shelters it partially
    ecosystem.remove_bedrock_at(2, 3, 800_000);
    let shadow = get_wind_shadowing(&ecosystem, index, WEST_WIND);
    let strength = strength_of(shadow);
    let expected = (1_000_000 - 220_000) * 10;
    assert!(
        (strength - expected).abs() < 100_000,
        "strength {} expected {}",
        strength,
        expected
    );

    // a taller hill further away shadows more
    ecosystem.add_bedrock_at(1, 3, 500_000);
    let shadow = get_wind_shadowing(&ecosystem, index, WEST_WIND);
    let strength = strength_of(shadow);
    let expected = (1_000_000 - 720_000) * 10;
    assert!(
        (strength - expected).abs() < 100_000,
        "strength {} expected {}",
        strength,
        expected
    );

    // at the boundary the walk stops harmlessly
    let shadow = get_wind_shadowing(&ecosystem, CellIndex::new(0, 0), WEST_WIND);
    assert_eq!(strength_of(shadow), 10_000_000);

    // a descent gentler than ten degrees casts no shadow at all: the
    // mapping clamps at zero instead of going negative
    let mut gentle = Ecosystem::init();
    gentle.remove_bedrock_at(2, 3, 150_000);
    let shadow = get_wind_shadowing(&gentle, CellIndex::new(3, 3), WEST_WIND);
    assert_eq!(shadow, 0);
    assert_eq!(strength_of(shadow), 10_000_000);
}

#[test]
fn test_get_bounce_probability() {
    let mut ecosystem = Ecosystem::init();
    let index = CellIndex::new(2, 2);
    // bare rock: 0.4 for no sand plus 1.0 for no vegetation, clamped
    let prob = get_bounce_probability(&ecosystem, index, 0);
    assert_eq!(prob, 1_000_000);

    // heavy vegetation absorbs the slab
    ecosystem.set_trees_at(2, 2, 2, 45_000_000, 40_000_000);
    ecosystem.cells[2 + 2 * ecosim::constants::AREA_SIDE_LENGTH].bushes =
        Some(ecosim::cell::Bushes {
            number_of_plants: 20,
            plant_height_sum: 70_000_000,
            plant_age_sum: 40_000_000,
        });
    ecosystem.cells[2 + 2 * ecosim::constants::AREA_SIDE_LENGTH].grasses =
        Some(ecosim::cell::Grasses { coverage_density: 1_000_000 });
    let prob = get_bounce_probability(&ecosystem, index, 0);
    assert_eq!(prob, 400_000);

    // sand on the ground encourages bouncing
    ecosystem.add_sand_at(2, 2, 500_000);
    let prob = get_bounce_probability(&ecosystem, index, 0);
    assert_eq!(prob, 600_000);

    // so does shadowing
    let prob = get_bounce_probability(&ecosystem, index, 200_000);
    assert_eq!(prob, 800_000);
}

#[test]
fn test_get_two_steepest_neighbors() {
    let mut ecosystem = Ecosystem::init();
    let index = CellIndex::new(2, 2);

    ecosystem.add_sand_at(2, 2, 1_000_000);
    ecosystem.remove_bedrock_at(2, 2, 1_000_000);
    ecosystem.add_sand_at(1, 1, 1_000_000);
    ecosystem.add_sand_at(1, 3, 2_000_000);
    ecosystem.remove_bedrock_at(3, 2, 2_000_000);
    ecosystem.remove_bedrock_at(2, 1, 1_000_000);

    let (n1, n2) = get_two_steepest_neighbors(&ecosystem, index);
    assert_eq!(n1.unwrap().1, CellIndex::new(3, 2));
    assert_eq!(n2.unwrap().1, CellIndex::new(2, 1));
}

#[test]
fn test_perform_reptation() {
    let mut ecosystem = Ecosystem::init();
    let index = CellIndex::new(2, 2);

    ecosystem.add_sand_at(2, 2, 1_000_000);
    ecosystem.remove_bedrock_at(2, 2, 1_000_000);
    ecosystem.add_sand_at(1, 1, 1_000_000);
    ecosystem.add_sand_at(1, 3, 2_000_000);
    ecosystem.remove_bedrock_at(3, 2, 2_000_000);
    ecosystem.remove_bedrock_at(2, 1, 1_000_000);

    perform_reptation(&mut ecosystem, index, CARRYING_CAPACITY_UM);
    // the two steepest neighbors share the reptation height in proportion
    // to their slopes: 0.894 and 0.707, a 0.558 ratio
    assert_eq!(
        ecosystem.get_cell(index).get_sand_height(),
        1_000_000 - REPTATION_HEIGHT_UM
    );
    let got = ecosystem.get_cell(CellIndex::new(3, 2)).get_sand_height() as i64;
    let expected = 558 * (REPTATION_HEIGHT_UM as i64) / 1000;
    assert!((got - expected).abs() < 1_000, "reptation {}", got);
    let got = ecosystem.get_cell(CellIndex::new(2, 1)).get_sand_height() as i64;
    let expected = 442 * (REPTATION_HEIGHT_UM as i64) / 1000;
    assert!((got - expected).abs() < 1_000, "reptation {}", got);
}

#[test]
fn test_wind_rose() {
    let wind_rose = WindRose::new(0, 10_000_000, 10_000_000);
    let mut expected_speed = [0u64; 8];
    expected_speed[0] = 10_000_000;
    assert_eq!(wind_rose.min_speed, expected_speed);
    assert_eq!(wind_rose.max_speed, expected_speed);
    let mut expected_weights = [0u64; 8];
    expected_weights[0] = 1_000_000;
    assert_eq!(wind_rose.weights, expected_weights);
}

#[test]
fn test_sample_wind() {
    let mut wind_rose = WindRose::new(0, 10_000_000, 10_000_000);
    let (dir, strength) = wind_rose.sample_wind();
    assert_eq!(dir, 0);
    assert_eq!(strength, 10_000_000);

    wind_rose.max_speed[0] = 15_000_000;
    let (dir, strength) = wind_rose.sample_wind();
    assert_eq!(dir, 0);
    assert!((10_000_000..=15_000_000).contains(&strength));

    wind_rose.min_speed[4] = 5_000_000;
    wind_rose.max_speed[4] = 10_000_000;
    wind_rose.weights[4] = 1_000_000;
    let (dir, strength) = wind_rose.sample_wind();
    assert!(dir == 0 || dir == 180_000);
    if dir == 0 {
        assert!((10_000_000..=15_000_000).contains(&strength));
    } else {
        assert!((5_000_000..=10_000_000).contains(&strength));
    }
}

#[test]
fn wind_saltation_carries_sand_downwind() {
    // wind from the east bucket (90 degrees) at strength 10 moves a slab of
    // sand ten cells east, wrapping toroidally, and conserves sand overall
    let mut ecosystem = Ecosystem::init();
    let mut ws = WindState::new();
    ws.wind_rose = WindRose::new(90_000, 10_000_000, 10_000_000);
    ws.wind_direction = 90_000;
    ws.wind_strength = 10_000_000;
    ecosystem.wind_state = Some(ws);
    // ground at sea level along the transport corridor, so neither the
    // Venturi boost nor wind shadowing bends the hop
    for x in 2..=15 {
        ecosystem.set_bedrock_at(x, 3, 0);
    }
    ecosystem.add_sand_at(3, 3, 1_000_000);

    let total_before: u64 = total_sand(&ecosystem);
    let r = apply_wind_event(&mut ecosystem, CellIndex::new(3, 3));
    if let Some((event, target)) = r {
        assert_eq!(event, ecosim::events::Events::Wind);
        assert_eq!(target, CellIndex::new(13, 3));
    }

    // the source lost exactly the carrying capacity
    assert_eq!(
        ecosystem.get_cell(CellIndex::new(3, 3)).get_sand_height(),
        1_000_000 - CARRYING_CAPACITY_UM
    );
    // the slab landed at the target and reptation spread at most the
    // reptation height to its neighbors
    let landed = ecosystem.get_cell(CellIndex::new(13, 3)).get_sand_height();
    assert!(landed >= CARRYING_CAPACITY_UM - REPTATION_HEIGHT_UM);
    // sand is conserved across the grid
    assert_eq!(total_sand(&ecosystem), total_before);
}

fn total_sand(eco: &Ecosystem) -> u64 {
    (0..NUM_CELLS)
        .map(|k| eco.get_cell(CellIndex::get_from_flat_index(k)).get_sand_height())
        .sum()
}

#[test]
fn rainfall_moves_material_downhill_only() {
    // a wet cell on a slope sheds sediment without ever growing bedrock
    let mut ecosystem = Ecosystem::init();
    ecosystem.set_bedrock_at(5, 5, 110_000_000);
    ecosystem.add_humus_at(5, 5, 1_000_000);
    ecosystem.add_sand_at(5, 5, 1_000_000);
    let bedrock_before: Vec<u64> = (0..NUM_CELLS)
        .map(|k| {
            ecosystem.get_cell(CellIndex::get_from_flat_index(k)).get_bedrock_height()
        })
        .collect();
    let r = ecosim::rainfall::apply_rainfall_event(&mut ecosystem, CellIndex::new(5, 5));
    assert!(r.is_none());
    for k in 0..NUM_CELLS {
        let after = ecosystem
            .get_cell(CellIndex::get_from_flat_index(k))
            .get_bedrock_height();
        assert!(after <= bedrock_before[k]);
    }
}

#[test]
fn rainfall_with_draws_is_exact() {
    // a ten-meter sand pile: the first hop (draw 0 picks the northwest
    // neighbor, far downhill, so the water lifts) carries exactly the
    // remaining capacity of sand; the draws then run out and the load is
    // dropped on the neighbor
    let mut ecosystem = Ecosystem::init();
    ecosystem.add_sand_at(5, 5, 10_000_000);
    let a = CellIndex::new(5, 5);
    let nw = CellIndex::new(4, 4);
    let ha0 = ecosystem.height_at(a);
    let hnw0 = ecosystem.height_at(nw);
    let draws = vec![0u64];
    let r = ecosim::rainfall::apply_rainfall_event_with(&mut ecosystem, a, &draws);
    assert!(r.is_none());
    let lifted = ha0 / 2000;
    assert_eq!(ecosystem.height_at(a), ha0 - lifted);
    assert_eq!(ecosystem.height_at(nw), hnw0 + lifted);
    assert_eq!(ecosystem.get_cell(nw).get_sand_height(), lifted);

    // with no draws at all, nothing moves anywhere
    let mut calm = Ecosystem::init();
    calm.add_sand_at(5, 5, 10_000_000);
    let h0 = calm.height_at(a);
    let r2 = ecosim::rainfall::apply_rainfall_event_with(&mut calm, a, &Vec::new());
    assert!(r2.is_none());
    for k in 0..NUM_CELLS {
        let i = CellIndex::get_from_flat_index(k);
        let expected = if i == a { h0 } else { DEFAULT_BEDROCK_HEIGHT };
        assert_eq!(calm.height_at(i), expected);
    }
}

#[test]
fn blurred_terrain_smooths_a_spike() {
    // one very tall column: after convolution, the blurred height at the
    // spike is far below the raw height, so the blur really ran
    let mut ecosystem = Ecosystem::init();
    ecosystem.wind_state = Some(WindState::new());
    ecosystem.add_bedrock_at(50, 50, 100_000_000);
    ecosim::wind::convolve_terrain(&mut ecosystem);
    let ws = ecosystem.wind_state.as_ref().unwrap();
    let flat = 50 + 50 * ecosim::constants::AREA_SIDE_LENGTH;
    let blurred = ws.high_freq_convolution[flat];
    assert!(
        blurred < 50_000_000,
        "the spike should be smoothed, got {}",
        blurred
    );
    assert_eq!(ws.low_freq_convolution.len(), NUM_CELLS);
}

#[test]
fn a_full_tick_keeps_the_grid_sound() {
    // one simulated year over the whole grid leaves every invariant intact
    let mut ecosystem = Ecosystem::init_piles();
    ecosystem.take_time_step();
    assert_eq!(ecosystem.cells.len(), NUM_CELLS);
    for k in 0..NUM_CELLS {
        let cell = ecosystem.get_cell(CellIndex::get_from_flat_index(k));
        if let Some(g) = &cell.grasses {
            assert!(g.coverage_density <= 1_000_000);
        }
        if let Some(t) = &cell.trees {
            assert!(t.number_of_plants > 0);
        }
    }
}
