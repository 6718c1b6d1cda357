//! Lightning: a strike kills all vegetation in the cell, blasts a fixed
//! volume of bedrock out of it, and scatters that volume evenly over the
//! cell and its neighbors, half as rock and half as sand. The strike
//! probability grows with the negative curvature of the terrain (peaks and
//! ridges attract strikes).

use vstd::prelude::*;
use crate::cell::{Cell, DeadVegetation, Rock, Sand, sat_add_cap, sat_sub};
use crate::allometry::{spec_bush_biomass_ukg, spec_tree_biomass_ukg, spec_clamp};
use crate::constants::{NUM_CELLS, PPM};
use crate::ecosystem::{flat_of, lemma_flat_in_range, lemma_flat_injective, Ecosystem};
use crate::events::Events;
use crate::grid::{in_bounds, spec_neighbors, CellIndex};
use crate::math::{exp_s9, spec_exp_s9};
use crate::rng::rng_below;
use crate::slide::neighbor_opts;

verus! {

/// Total bedrock height lost at the struck cell, in micrometers: the
/// displaced volume of 4 cubic meters over the 100 square meter cell.
pub const LIGHTNING_LOST_UM: u64 = 40000;

/// The cell after its tree population is converted to dead biomass.
pub open spec fn spec_kill_trees(c: Cell) -> Cell {
    match c.trees {
        Some(t) => Cell {
            trees: None,
            dead_vegetation: Some(DeadVegetation {
                biomass: sat_add_cap(
                    c.dead_biomass_ukg(),
                    spec_tree_biomass_ukg(
                        t.number_of_plants as int, t.plant_height_sum as int) as u64,
                ),
            }),
            ..c
        },
        None => c,
    }
}

/// The cell after its bush population is converted to dead biomass.
pub open spec fn spec_kill_bushes(c: Cell) -> Cell {
    match c.bushes {
        Some(b) => Cell {
            bushes: None,
            dead_vegetation: Some(DeadVegetation {
                biomass: sat_add_cap(
                    c.dead_biomass_ukg(),
                    spec_bush_biomass_ukg(
                        b.number_of_plants as int, b.plant_height_sum as int) as u64,
                ),
            }),
            ..c
        },
        None => c,
    }
}

/// The cell after its grass cover is converted to dead biomass.
pub open spec fn spec_kill_grasses(c: Cell) -> Cell {
    match c.grasses {
        Some(g) => Cell {
            grasses: None,
            dead_vegetation: Some(DeadVegetation {
                biomass: sat_add_cap(c.dead_biomass_ukg(), (g.coverage_density * 100) as u64),
            }),
            ..c
        },
        None => c,
    }
}

/// The struck cell: all vegetation killed, the displaced bedrock removed,
/// and its own share of rock and sand added.
pub open spec fn spec_struck_center(c: Cell, half: u64) -> Cell {
    let k = spec_kill_grasses(spec_kill_bushes(spec_kill_trees(c)));
    let b = Cell {
        bedrock: match k.bedrock {
            Some(bed) => Some(crate::cell::Bedrock {
                height: sat_sub(bed.height, LIGHTNING_LOST_UM),
            }),
            None => None,
        },
        ..k
    };
    spec_gain(b, half)
}

/// A cell after receiving its share of scattered rock and sand.
pub open spec fn spec_gain(c: Cell, half: u64) -> Cell {
    let r = Cell { rock: Some(Rock { height: sat_add_cap(c.rock_um(), half) }), ..c };
    Cell { sand: Some(Sand { height: sat_add_cap(r.sand_um(), half) }), ..r }
}

/// What a lightning strike at `index` does to the whole grid: the center is
/// struck and every neighbor gains the per-cell share, everything else is
/// untouched. `half` is the rock (and equally sand) height each affected
/// cell gains: the displaced volume spread over the affected cells, half in
/// each material.
pub open spec fn spec_strike_post(pre: Ecosystem, post: Ecosystem, index: CellIndex) -> bool {
    let n = spec_neighbors(index).spec_len() + 1;
    let half = ((LIGHTNING_LOST_UM as int / n) / 2) as u64;
    let opts = neighbor_opts(index);
    &&& post.cell_at(index) == spec_struck_center(pre.cell_at(index), half)
    &&& forall|k: int| 0 <= k < 8 ==> ((#[trigger] opts[k]) matches Some(j)
        ==> post.cell_at(j) == spec_gain(pre.cell_at(j), half))
    &&& forall|q: CellIndex| in_bounds(q) && q != index
        && (forall|k: int| 0 <= k < 8 ==> (#[trigger] opts[k]) != Some(q))
        ==> post.cell_at(q) == pre.cell_at(q)
    &&& post.cells@.len() == pre.cells@.len()
}

/// Two filled neighbor slots never hold the same cell.
pub proof fn lemma_neighbor_slots_distinct(i: CellIndex)
    requires
        in_bounds(i),
    ensures
        forall|k1: int, k2: int| 0 <= k1 < 8 && 0 <= k2 < 8 && k1 != k2
            && (#[trigger] neighbor_opts(i)[k1]) is Some
            && (#[trigger] neighbor_opts(i)[k2]) is Some
            ==> neighbor_opts(i)[k1]->0 != neighbor_opts(i)[k2]->0,
{
    let opts = neighbor_opts(i);
    assert forall|k1: int, k2: int| 0 <= k1 < 8 && 0 <= k2 < 8 && k1 != k2
        && (#[trigger] opts[k1]) is Some && (#[trigger] opts[k2]) is Some
        implies opts[k1]->0 != opts[k2]->0 by {
        assert(k1 == 0 || k1 == 1 || k1 == 2 || k1 == 3 || k1 == 4 || k1 == 5 || k1 == 6
            || k1 == 7);
        assert(k2 == 0 || k2 == 1 || k2 == 2 || k2 == 3 || k2 == 4 || k2 == 5 || k2 == 6
            || k2 == 7);
    }
}

/// Converts all trees in a cell into dead vegetation.
fn kill_trees(cell: &mut Cell)
    requires
        old(cell).wf(),
    ensures
        final(cell).wf(),
        *final(cell) == spec_kill_trees(*old(cell)),
{
    if cell.trees.is_some() {
        let biomass = match &cell.trees {
            Some(trees) => trees.estimate_biomass(),
            None => 0,
        };
        cell.add_dead_vegetation(biomass);
        cell.trees = None;
    }
}

/// Converts all bushes in a cell into dead vegetation.
fn kill_bushes(cell: &mut Cell)
    requires
        old(cell).wf(),
    ensures
        final(cell).wf(),
        *final(cell) == spec_kill_bushes(*old(cell)),
{
    if cell.bushes.is_some() {
        let biomass = match &cell.bushes {
            Some(bushes) => bushes.estimate_biomass(),
            None => 0,
        };
        cell.add_dead_vegetation(biomass);
        cell.bushes = None;
    }
}

/// Converts all grasses in a cell into dead vegetation.
fn kill_grasses(cell: &mut Cell)
    requires
        old(cell).wf(),
    ensures
        final(cell).wf(),
        *final(cell) == spec_kill_grasses(*old(cell)),
{
    if cell.grasses.is_some() {
        let coverage = match &cell.grasses {
            Some(grasses) => grasses.coverage_density,
            None => 0,
        };
        let biomass = crate::cell::Grasses::estimate_biomass_for_coverage_density(coverage);
        cell.add_dead_vegetation(biomass);
        cell.grasses = None;
    }
}

/// Applies a lightning event whose strike probability (in parts per
/// million) has already been determined. A strike probability of one
/// million forces a strike; zero forces a no-op; in between, the outcome
/// depends on the draw, but both possible outcomes are exact.
#[verifier::rlimit(100)]
#[verifier::spinoff_prover]
pub fn apply_lightning_event_helper(
    eco: &mut Ecosystem,
    index: CellIndex,
    strike_probability_ppm: u64,
) -> (r: Option<(Events, CellIndex)>)
    requires
        old(eco).wf(),
        in_bounds(index),
    ensures
        final(eco).wf(),
        final(eco).wind_state == old(eco).wind_state,
        crate::events::climate_preserved(*old(eco), *final(eco)),
        r is None,
        final(eco).cells@ == old(eco).cells@
            || spec_strike_post(*old(eco), *final(eco), index),
        strike_probability_ppm == 0 ==> final(eco).cells@ == old(eco).cells@,
        strike_probability_ppm >= PPM ==> spec_strike_post(*old(eco), *final(eco), index),
{
    let ghost pre = *eco;
    let draw = rng_below(PPM);
    if draw >= strike_probability_ppm {
        return None;
    }
    proof {
        crate::slide::lemma_neighbor_slots(index);
        lemma_neighbor_slots_distinct(index);
        lemma_flat_in_range(index);
    }
    let neighbors = index.get_neighbors();
    let num_affected = neighbors.len() + 1;
    let half = (LIGHTNING_LOST_UM / (num_affected as u64)) / 2;

    // strike the center: kill vegetation, blast bedrock, add debris
    let cell = eco.cell_mut(index);
    kill_trees(cell);
    kill_bushes(cell);
    kill_grasses(cell);
    let bh = cell.get_bedrock_height();
    cell.remove_bedrock(LIGHTNING_LOST_UM);
    let rh = cell.get_rock_height();
    cell.add_rocks(half);
    cell.add_sand(half);
    proof {
        assert(eco.cell_at(index) == spec_struck_center(pre.cell_at(index), half));
        assert(eco.wf()) by {
            assert forall|k2: int| 0 <= k2 < NUM_CELLS
                implies (#[trigger] eco.cells@[k2]).wf() by {
                if k2 != flat_of(index) {
                    assert(eco.cells@[k2] == pre.cells@[k2]);
                }
            }
        }
    }

    // scatter debris to the neighbors
    let arr = neighbors.as_array();
    let ghost opts = neighbor_opts(index);
    let ghost mid = *eco;
    proof {
        assert(arr@ =~= opts);
    }
    let mut k: usize = 0;
    while k < 8
        invariant
            eco.wf(),
            in_bounds(index),
            k <= 8,
            arr@ == opts,
            opts == neighbor_opts(index),
            eco.wind_state == mid.wind_state,
            eco.cells@.len() == mid.cells@.len() == NUM_CELLS,
            eco.cell_at(index) == mid.cell_at(index),
            forall|kk: int| 0 <= kk < 8 ==> ((#[trigger] opts[kk]) matches Some(j)
                ==> in_bounds(j) && j != index && 1 <= crate::ecosystem::dist2_cells(index, j)
                    <= 2),
            forall|k1: int, k2: int| 0 <= k1 < 8 && 0 <= k2 < 8 && k1 != k2
                && (#[trigger] opts[k1]) is Some && (#[trigger] opts[k2]) is Some
                ==> opts[k1]->0 != opts[k2]->0,
            forall|kk: int| 0 <= kk < k ==> ((#[trigger] opts[kk]) matches Some(j)
                ==> eco.cell_at(j) == spec_gain(mid.cell_at(j), half)),
            forall|q: CellIndex| in_bounds(q) && q != index
                && (forall|kk: int| 0 <= kk < k ==> (#[trigger] opts[kk]) != Some(q))
                ==> eco.cell_at(q) == mid.cell_at(q),
        decreases 8 - k,
    {
        if let Some(j) = arr[k] {
            proof {
                lemma_flat_in_range(j);
                lemma_flat_injective(index, j);
            }
            let ghost before = *eco;
            let neighbor = eco.cell_mut(j);
            neighbor.add_rocks(half);
            neighbor.add_sand(half);
            proof {
                assert(eco.cell_at(j) == spec_gain(before.cell_at(j), half));
                assert(eco.cell_at(j) == spec_gain(mid.cell_at(j), half));
                assert forall|q: CellIndex| in_bounds(q) && q != j
                    implies eco.cell_at(q) == before.cell_at(q) by {
                    lemma_flat_in_range(q);
                    lemma_flat_injective(q, j);
                }
                assert(eco.wf()) by {
                    assert forall|k2: int| 0 <= k2 < NUM_CELLS
                        implies (#[trigger] eco.cells@[k2]).wf() by {
                        if k2 != flat_of(j) {
                            assert(eco.cells@[k2] == before.cells@[k2]);
                        }
                    }
                }
            }
        }
        k += 1;
    }
    proof {
        assert(spec_strike_post(pre, *eco, index)) by {
            assert(eco.cell_at(index) == spec_struck_center(
                pre.cell_at(index),
                ((LIGHTNING_LOST_UM as int / (spec_neighbors(index).spec_len() + 1)) / 2) as u64,
            ));
        }
        assert forall|q: CellIndex| in_bounds(q) implies {
            &&& (#[trigger] eco.cell_at(q)).soil_moisture == pre.cell_at(q).soil_moisture
            &&& eco.cell_at(q).hours_of_sunlight == pre.cell_at(q).hours_of_sunlight
        } by {
            let opts2 = neighbor_opts(index);
            if q == index {
            } else if exists|kk: int| 0 <= kk < 8 && (#[trigger] opts2[kk]) == Some(q) {
                let kk = choose|kk: int| 0 <= kk < 8 && (#[trigger] opts2[kk]) == Some(q);
                assert(eco.cell_at(q) == spec_gain(pre.cell_at(q),
                    ((LIGHTNING_LOST_UM as int
                        / (spec_neighbors(index).spec_len() + 1)) / 2) as u64));
            } else {
                assert(forall|kk: int| 0 <= kk < 8 ==> (#[trigger] opts2[kk]) != Some(q));
                assert(eco.cell_at(q) == pre.cell_at(q));
            }
        }
        crate::events::lemma_climate_from_cells(pre, *eco);
    }
    None
}

/// The probability, in parts per million, that lightning strikes a cell:
/// the maximum rate scaled by an exponential of the negative curvature,
/// clamped to at most one.
pub fn compute_lightning_damage_probability(eco: &Ecosystem, index: CellIndex) -> (r: u64)
    requires
        eco.wf(),
        in_bounds(index),
    ensures
        r == spec_lightning_probability(*eco, index),
        r <= 2000,
{
    let curvature = eco.estimate_curvature(index);
    let arg: i64 = -curvature - 4000000000;
    let e = exp_s9(clamp_exp_arg(arg));
    let m = if e > 1000000000 { 1000000000u64 } else { e };
    2000 * m / 1000000000
}

/// The strike probability in parts per million: the maximum probability of
/// 2000 scaled by `min(1, exp(-curvature - 4))`.
pub open spec fn spec_lightning_probability(eco: Ecosystem, index: CellIndex) -> int {
    let e = spec_exp_s9(spec_clamp(-eco.spec_curvature(index) - 4000000000, -64000000000,
        21000000000));
    let m = if e > 1000000000 { 1000000000int } else { e };
    2000 * m / 1000000000
}

/// Clamps into the domain of the exponential kernel.
fn clamp_exp_arg(a: i64) -> (r: i64)
    ensures
        r == spec_clamp(a as int, -64000000000, 21000000000),
        -64000000000 <= r <= 21000000000,
{
    if a < -64000000000 {
        -64000000000
    } else if a > 21000000000 {
        21000000000
    } else {
        a
    }
}

/// Lightning kernel: decides a strike from the terrain curvature and, when
/// it strikes, applies the exact blast; never propagates.
pub fn apply_lightning_event(eco: &mut Ecosystem, index: CellIndex) -> (r: Option<
    (Events, CellIndex),
>)
    requires
        old(eco).wf(),
        in_bounds(index),
    ensures
        final(eco).wf(),
        final(eco).wind_state == old(eco).wind_state,
        crate::events::climate_preserved(*old(eco), *final(eco)),
        r is None,
        final(eco).cells@ == old(eco).cells@
            || spec_strike_post(*old(eco), *final(eco), index),
{
    let p = compute_lightning_damage_probability(eco, index);
    apply_lightning_event_helper(eco, index, p)
}

/// Conservation under lightning: with `n` affected cells, the rock and sand
/// heights handed out across all of them recover the lost bedrock height up
/// to the rounding of the two integer divisions (strictly less than `2n`
/// micrometers in total).
pub proof fn lemma_lightning_conservation(n: int)
    requires
        1 <= n <= 9,
    ensures
        ({
            let half = (LIGHTNING_LOST_UM as int / n) / 2;
            &&& 0 <= LIGHTNING_LOST_UM - n * (2 * half) < 2 * n
        }),
{
    let hpc = LIGHTNING_LOST_UM as int / n;
    let half = hpc / 2;
    vstd::arithmetic::div_mod::lemma_fundamental_div_mod(LIGHTNING_LOST_UM as int, n);
    vstd::arithmetic::div_mod::lemma_fundamental_div_mod(hpc, 2);
    assert(n * hpc <= LIGHTNING_LOST_UM < n * hpc + n) by (nonlinear_arith)
        requires
            LIGHTNING_LOST_UM == n * hpc + (LIGHTNING_LOST_UM as int % n),
            0 <= LIGHTNING_LOST_UM as int % n < n,
            n >= 1,
    ;
    assert(n * (2 * half) <= n * hpc <= n * (2 * half) + n) by (nonlinear_arith)
        requires
            hpc == 2 * half + (hpc % 2),
            0 <= hpc % 2 <= 1,
            n >= 1,
    ;
}

} // verus!
