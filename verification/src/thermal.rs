//! Thermal stress: day/night temperature swings fracture exposed bedrock
//! into loose rock. The fracture probability grows with the steepest local
//! slope and is dampened by granular cover (sand and humus) and by
//! vegetation.

use vstd::prelude::*;
use crate::cell::{Cell, Bedrock, Rock, sat_add_cap, sat_sub};
use crate::allometry::spec_vegetation_density_ppm;
use crate::constants::{NUM_CELLS, PPM};
use crate::ecosystem::{flat_of, lemma_flat_in_range, spec_slope_ppm, Ecosystem};
use crate::events::Events;
use crate::grid::{in_bounds, spec_neighbors, CellIndex};
use crate::rng::rng_below;

verus! {

/// Bedrock height fractured into rock by one event, in micrometers (1 m).
pub const FRACTURE_HEIGHT_UM: u64 = 1000000;

/// The magnitude of the slope between two cells, in parts per million.
pub open spec fn spec_abs_slope(eco: Ecosystem, i: CellIndex, j: CellIndex) -> int {
    let s = spec_slope_ppm(
        eco.cell_at(i).height_um(),
        eco.cell_at(j).height_um(),
        crate::ecosystem::dist2_cells(i, j),
    );
    if s >= 0 {
        s
    } else {
        -s
    }
}

/// The steepest slope magnitude toward any neighbor, in parts per million.
pub open spec fn spec_max_abs_slope(eco: Ecosystem, i: CellIndex) -> int {
    let n = spec_neighbors(i);
    let m0 = 0int;
    let m1 = slope_step(eco, i, n.northwest, m0);
    let m2 = slope_step(eco, i, n.north, m1);
    let m3 = slope_step(eco, i, n.northeast, m2);
    let m4 = slope_step(eco, i, n.west, m3);
    let m5 = slope_step(eco, i, n.east, m4);
    let m6 = slope_step(eco, i, n.southwest, m5);
    let m7 = slope_step(eco, i, n.south, m6);
    slope_step(eco, i, n.southeast, m7)
}

/// Folds one neighbor slot into the running slope maximum.
pub open spec fn slope_step(eco: Ecosystem, i: CellIndex, o: Option<CellIndex>, acc: int) -> int {
    match o {
        Some(j) => if spec_abs_slope(eco, i, j) > acc {
            spec_abs_slope(eco, i, j)
        } else {
            acc
        },
        None => acc,
    }
}

/// The fracture probability in parts per million:
/// `0.1 * slope / (1 + granular/2 + 5 * density)` with the granular height
/// in meters and the density a fraction.
pub open spec fn spec_fracture_probability(eco: Ecosystem, i: CellIndex) -> int {
    let c = eco.cell_at(i);
    let denom = 1000000 + (c.sand_um() + c.humus_um()) / 2 + 5 * spec_vegetation_density_ppm(c);
    100000 * spec_max_abs_slope(eco, i) / denom
}

/// The magnitude of the slope toward one neighbor.
pub(crate) fn abs_slope(eco: &Ecosystem, i: CellIndex, j: CellIndex) -> (r: i64)
    requires
        eco.wf(),
        in_bounds(i),
        in_bounds(j),
        i != j,
    ensures
        r == spec_abs_slope(*eco, i, j),
        0 <= r <= 1000000,
{
    let s = eco.get_slope_between_points(i, j);
    if s >= 0 {
        s
    } else {
        -s
    }
}

/// Computes the fracture probability of `spec_fracture_probability`.
pub fn compute_thermal_fracture_probability(eco: &Ecosystem, index: CellIndex) -> (r: u64)
    requires
        eco.wf(),
        in_bounds(index),
    ensures
        r == spec_fracture_probability(*eco, index),
        r <= 100000,
{
    proof {
        crate::slide::lemma_neighbor_slots(index);
    }
    let n = index.get_neighbors();
    let mut max_slope: i64 = 0;
    if let Some(j) = n.northwest {
        let s = abs_slope(eco, index, j);
        if s > max_slope { max_slope = s; }
    }
    if let Some(j) = n.north {
        let s = abs_slope(eco, index, j);
        if s > max_slope { max_slope = s; }
    }
    if let Some(j) = n.northeast {
        let s = abs_slope(eco, index, j);
        if s > max_slope { max_slope = s; }
    }
    if let Some(j) = n.west {
        let s = abs_slope(eco, index, j);
        if s > max_slope { max_slope = s; }
    }
    if let Some(j) = n.east {
        let s = abs_slope(eco, index, j);
        if s > max_slope { max_slope = s; }
    }
    if let Some(j) = n.southwest {
        let s = abs_slope(eco, index, j);
        if s > max_slope { max_slope = s; }
    }
    if let Some(j) = n.south {
        let s = abs_slope(eco, index, j);
        if s > max_slope { max_slope = s; }
    }
    if let Some(j) = n.southeast {
        let s = abs_slope(eco, index, j);
        if s > max_slope { max_slope = s; }
    }
    let cell = eco.get_cell(index);
    let granular: u64 = cell.get_sand_height() + cell.get_humus_height();
    let density = cell.estimate_vegetation_density();
    let denom: u128 = 1000000u128 + (granular as u128) / 2 + 5 * (density as u128);
    let num: u128 = 100000 * (max_slope as u128);
    proof {
        vstd::arithmetic::div_mod::lemma_div_is_ordered(
            num as int, 100000000000, denom as int);
        vstd::arithmetic::div_mod::lemma_div_is_ordered_by_denominator(
            100000000000, 1000000, denom as int);
        vstd::arithmetic::div_mod::lemma_div_pos_is_pos(num as int, denom as int);
    }
    (num / denom) as u64
}

/// Thermal stress kernel: with the fracture probability, up to one meter of
/// bedrock becomes the same height of rock, so the cell's total height is
/// unchanged; otherwise nothing changes. Never propagates. Both possible
/// outcomes are exact.
pub fn apply_thermal_stress_event(eco: &mut Ecosystem, index: CellIndex) -> (r: Option<
    (Events, CellIndex),
>)
    requires
        old(eco).wf(),
        in_bounds(index),
    ensures
        final(eco).wf(),
        final(eco).wind_state == old(eco).wind_state,
        crate::events::climate_preserved(*old(eco), *final(eco)),
        r is None,
        final(eco).cells@ == old(eco).cells@
            || final(eco).cells@ == spec_fractured_grid(*old(eco), index),
        spec_fracture_probability(*old(eco), index) == 0
            ==> final(eco).cells@ == old(eco).cells@,
        final(eco).cell_at(index).height_um() == old(eco).cell_at(index).height_um(),
        forall|q: CellIndex| in_bounds(q) && q != index
            ==> final(eco).cell_at(q) == old(eco).cell_at(q),
{
    let ghost pre = *eco;
    let p = compute_thermal_fracture_probability(eco, index);
    let draw = rng_below(PPM);
    if draw < p {
        proof {
            lemma_flat_in_range(index);
        }
        let cell = eco.cell_mut(index);
        let converted = {
            let b = cell.get_bedrock_height();
            let amount = if b < FRACTURE_HEIGHT_UM {
                b
            } else {
                FRACTURE_HEIGHT_UM
            };
            let room = crate::constants::LAYER_CAP - cell.get_rock_height();
            if amount < room {
                amount
            } else {
                room
            }
        };
        cell.remove_bedrock(converted);
        cell.add_rocks(converted);
        proof {
            assert(eco.cells@ =~= spec_fractured_grid(pre, index));
            assert(eco.wf()) by {
                assert forall|k2: int| 0 <= k2 < NUM_CELLS
                    implies (#[trigger] eco.cells@[k2]).wf() by {
                    if k2 != flat_of(index) {
                        assert(eco.cells@[k2] == pre.cells@[k2]);
                    }
                }
            }
        }
    }
    proof {
        assert forall|q: CellIndex| in_bounds(q) && q != index
            implies eco.cell_at(q) == pre.cell_at(q) by {
            lemma_flat_in_range(q);
            lemma_flat_in_range(index);
            crate::ecosystem::lemma_flat_injective(q, index);
        }
        lemma_flat_in_range(index);
        assert forall|k2: int| 0 <= k2 < pre.cells@.len() implies {
            &&& (#[trigger] eco.cells@[k2]).soil_moisture == pre.cells@[k2].soil_moisture
            &&& eco.cells@[k2].hours_of_sunlight == pre.cells@[k2].hours_of_sunlight
        } by {
            if k2 != flat_of(index) {
                assert(eco.cells@[k2] == pre.cells@[k2]);
            }
        }
    }
    None
}

/// The grid after a fracture at `index`: the smaller of one meter, the
/// whole bedrock layer and the rock layer's remaining headroom has become
/// rock, leaving the column height exactly as it was.
pub open spec fn spec_fractured_grid(pre: Ecosystem, index: CellIndex) -> Seq<Cell> {
    let c = pre.cell_at(index);
    let capped: u64 = if c.bedrock_um() < FRACTURE_HEIGHT_UM {
        c.bedrock_um()
    } else {
        FRACTURE_HEIGHT_UM
    };
    let amount: u64 = if (capped as int) < crate::constants::LAYER_CAP - c.rock_um() {
        capped
    } else {
        (crate::constants::LAYER_CAP - c.rock_um()) as u64
    };
    let c1 = Cell {
        bedrock: match c.bedrock {
            Some(b) => Some(Bedrock { height: sat_sub(b.height, amount) }),
            None => None,
        },
        ..c
    };
    let c2 = Cell { rock: Some(Rock { height: sat_add_cap(c1.rock_um(), amount) }), ..c1 };
    pre.cells@.update(flat_of(index), c2)
}

} // verus!
