//! Scenario initializers: small prepared landscapes used to exercise the
//! kernels, and the humus seeding rule for imported terrain.

use vstd::prelude::*;
use crate::cell::{Cell, Trees};
use crate::constants::{AREA_SIDE_LENGTH, DEFAULT_HUMUS_HEIGHT, LAYER_CAP, NUM_CELLS, SUM_CAP};
use crate::ecosystem::{dist2_cells, flat_of, is_flat_cell, lemma_flat_in_range,
    lemma_index_surjective, spec_index_of, spec_slope_ppm, Ecosystem};
use crate::grid::{in_bounds, spec_neighbors, CellIndex};
use crate::math::{exp_s9, spec_exp_s9};
use crate::thermal::spec_max_abs_slope;
use crate::wind::{WindRose, WindState};

verus! {

impl Ecosystem {
    /// Adds bedrock height at one cell, keeping the grid well-formed.
    pub fn add_bedrock_at(&mut self, x: usize, y: usize, height: u64)
        requires
            old(self).wf(),
            x < AREA_SIDE_LENGTH,
            y < AREA_SIDE_LENGTH,
        ensures
            final(self).wf(),
            final(self).wind_state == old(self).wind_state,
            ({
                let i = CellIndex { x: x as usize, y: y as usize };
                let c0 = old(self).cell_at(i);
                &&& final(self).cell_at(i) == (Cell { bedrock: Some(crate::cell::Bedrock { height: crate::cell::sat_add_cap(c0.bedrock_um(), height) }), ..c0 })
                &&& final(self).cells@
                    == old(self).cells@.update(flat_of(i), final(self).cell_at(i))
            }),
    {
        let i = CellIndex::new(x, y);
        let ghost pre = *self;
        proof {
            lemma_flat_in_range(i);
        }
        let cell = self.cell_mut(i);
        cell.add_bedrock(height);
        proof {
            lemma_one_cell_wf(pre, *self, i);
        }
    }

    /// Removes bedrock height at one cell.
    pub fn remove_bedrock_at(&mut self, x: usize, y: usize, height: u64)
        requires
            old(self).wf(),
            x < AREA_SIDE_LENGTH,
            y < AREA_SIDE_LENGTH,
        ensures
            final(self).wf(),
            final(self).wind_state == old(self).wind_state,
            ({
                let i = CellIndex { x: x as usize, y: y as usize };
                let c0 = old(self).cell_at(i);
                &&& final(self).cell_at(i) == (Cell { bedrock: match c0.bedrock {
                    Some(b) => Some(crate::cell::Bedrock {
                        height: crate::cell::sat_sub(b.height, height),
                    }),
                    None => None,
                }, ..c0 })
                &&& final(self).cells@
                    == old(self).cells@.update(flat_of(i), final(self).cell_at(i))
            }),
    {
        let i = CellIndex::new(x, y);
        let ghost pre = *self;
        proof {
            lemma_flat_in_range(i);
        }
        let cell = self.cell_mut(i);
        cell.remove_bedrock(height);
        proof {
            lemma_one_cell_wf(pre, *self, i);
        }
    }

    /// Sets the bedrock layer of one cell to an exact height.
    pub fn set_bedrock_at(&mut self, x: usize, y: usize, height: u64)
        requires
            old(self).wf(),
            x < AREA_SIDE_LENGTH,
            y < AREA_SIDE_LENGTH,
            height <= LAYER_CAP,
        ensures
            final(self).wf(),
            final(self).wind_state == old(self).wind_state,
            ({
                let i = CellIndex { x: x as usize, y: y as usize };
                let c0 = old(self).cell_at(i);
                &&& final(self).cell_at(i) == (Cell { bedrock: Some(crate::cell::Bedrock { height }), ..c0 })
                &&& final(self).cells@
                    == old(self).cells@.update(flat_of(i), final(self).cell_at(i))
            }),
    {
        let i = CellIndex::new(x, y);
        let ghost pre = *self;
        proof {
            lemma_flat_in_range(i);
        }
        let cell = self.cell_mut(i);
        cell.set_height_of_bedrock(height);
        proof {
            lemma_one_cell_wf(pre, *self, i);
        }
    }

    /// Adds sand at one cell.
    pub fn add_sand_at(&mut self, x: usize, y: usize, height: u64)
        requires
            old(self).wf(),
            x < AREA_SIDE_LENGTH,
            y < AREA_SIDE_LENGTH,
        ensures
            final(self).wf(),
            final(self).wind_state == old(self).wind_state,
            ({
                let i = CellIndex { x: x as usize, y: y as usize };
                let c0 = old(self).cell_at(i);
                &&& final(self).cell_at(i) == (Cell { sand: Some(crate::cell::Sand { height: crate::cell::sat_add_cap(c0.sand_um(), height) }), ..c0 })
                &&& final(self).cells@
                    == old(self).cells@.update(flat_of(i), final(self).cell_at(i))
            }),
    {
        let i = CellIndex::new(x, y);
        let ghost pre = *self;
        proof {
            lemma_flat_in_range(i);
        }
        let cell = self.cell_mut(i);
        cell.add_sand(height);
        proof {
            lemma_one_cell_wf(pre, *self, i);
        }
    }

    /// Adds rock at one cell.
    pub fn add_rocks_at(&mut self, x: usize, y: usize, height: u64)
        requires
            old(self).wf(),
            x < AREA_SIDE_LENGTH,
            y < AREA_SIDE_LENGTH,
        ensures
            final(self).wf(),
            final(self).wind_state == old(self).wind_state,
            ({
                let i = CellIndex { x: x as usize, y: y as usize };
                let c0 = old(self).cell_at(i);
                &&& final(self).cell_at(i) == (Cell { rock: Some(crate::cell::Rock { height: crate::cell::sat_add_cap(c0.rock_um(), height) }), ..c0 })
                &&& final(self).cells@
                    == old(self).cells@.update(flat_of(i), final(self).cell_at(i))
            }),
    {
        let i = CellIndex::new(x, y);
        let ghost pre = *self;
        proof {
            lemma_flat_in_range(i);
        }
        let cell = self.cell_mut(i);
        cell.add_rocks(height);
        proof {
            lemma_one_cell_wf(pre, *self, i);
        }
    }

    /// Adds humus at one cell.
    pub fn add_humus_at(&mut self, x: usize, y: usize, height: u64)
        requires
            old(self).wf(),
            x < AREA_SIDE_LENGTH,
            y < AREA_SIDE_LENGTH,
        ensures
            final(self).wf(),
            final(self).wind_state == old(self).wind_state,
            ({
                let i = CellIndex { x: x as usize, y: y as usize };
                let c0 = old(self).cell_at(i);
                &&& final(self).cell_at(i) == (Cell { humus: Some(crate::cell::Humus { height: crate::cell::sat_add_cap(c0.humus_um(), height) }), ..c0 })
                &&& final(self).cells@
                    == old(self).cells@.update(flat_of(i), final(self).cell_at(i))
            }),
    {
        let i = CellIndex::new(x, y);
        let ghost pre = *self;
        proof {
            lemma_flat_in_range(i);
        }
        let cell = self.cell_mut(i);
        cell.add_humus(height);
        proof {
            lemma_one_cell_wf(pre, *self, i);
        }
    }

    /// Sets the resident soil moisture of one cell, in milliliters.
    pub fn set_soil_moisture_at(&mut self, x: usize, y: usize, moisture_ml: u64)
        requires
            old(self).wf(),
            x < AREA_SIDE_LENGTH,
            y < AREA_SIDE_LENGTH,
        ensures
            final(self).wf(),
            final(self).wind_state == old(self).wind_state,
            ({
                let i = CellIndex { x: x as usize, y: y as usize };
                let c0 = old(self).cell_at(i);
                &&& final(self).cell_at(i) == (Cell { soil_moisture: moisture_ml, ..c0 })
                &&& final(self).cells@
                    == old(self).cells@.update(flat_of(i), final(self).cell_at(i))
            }),
    {
        let i = CellIndex::new(x, y);
        let ghost pre = *self;
        proof {
            lemma_flat_in_range(i);
        }
        let cell = self.cell_mut(i);
        cell.soil_moisture = moisture_ml;
        proof {
            lemma_one_cell_wf(pre, *self, i);
        }
    }

    /// Plants a tree population at one cell.
    pub fn set_trees_at(
        &mut self,
        x: usize,
        y: usize,
        count: u32,
        height_sum_um: u64,
        age_sum_uyr: u64,
    )
        requires
            old(self).wf(),
            x < AREA_SIDE_LENGTH,
            y < AREA_SIDE_LENGTH,
            count > 0,
            height_sum_um <= SUM_CAP,
            age_sum_uyr <= SUM_CAP,
        ensures
            final(self).wf(),
            final(self).wind_state == old(self).wind_state,
            ({
                let i = CellIndex { x: x as usize, y: y as usize };
                let c0 = old(self).cell_at(i);
                &&& final(self).cell_at(i) == (Cell {
                    trees: Some(Trees {
                        number_of_plants: count,
                        plant_height_sum: height_sum_um,
                        plant_age_sum: age_sum_uyr,
                    }),
                    ..c0
                })
                &&& final(self).cells@
                    == old(self).cells@.update(flat_of(i), final(self).cell_at(i))
            }),
    {
        let i = CellIndex::new(x, y);
        let ghost pre = *self;
        proof {
            lemma_flat_in_range(i);
        }
        let cell = self.cell_mut(i);
        cell.trees = Some(Trees {
            number_of_plants: count,
            plant_height_sum: height_sum_um,
            plant_age_sum: age_sum_uyr,
        });
        proof {
            lemma_one_cell_wf(pre, *self, i);
        }
    }

    /// A five-cell test knoll: the center raised two meters over its ring,
    /// half a meter of humus everywhere nearby, trees and moisture on a few
    /// cells.
    pub fn init_test() -> (r: Self)
        ensures
            r.wf(),
    {
        let mut eco = Ecosystem::init();
        let c: usize = 2;
        eco.add_bedrock_at(c, c, 2000000);
        eco.add_humus_at(c, c, 500000);
        eco.add_bedrock_at(c, c - 1, 1000000);
        eco.add_humus_at(c, c - 1, 500000);
        eco.add_bedrock_at(c, c + 1, 1000000);
        eco.add_humus_at(c, c + 1, 500000);
        eco.add_bedrock_at(c - 1, c, 1000000);
        eco.add_humus_at(c - 1, c, 500000);
        eco.set_soil_moisture_at(c - 1, c, 180000000);
        eco.set_trees_at(c - 1, c, 2, 20000000, 40000000);
        eco.add_bedrock_at(c + 1, c, 1000000);
        eco.add_humus_at(c + 1, c, 500000);
        eco.add_bedrock_at(c - 1, c - 1, 1000000);
        eco.add_humus_at(c - 1, c - 1, 500000);
        eco.set_soil_moisture_at(c - 1, c - 1, 180000000);
        eco.set_trees_at(c - 1, c - 1, 2, 20000000, 40000000);
        eco.add_bedrock_at(c + 1, c - 1, 1000000);
        eco.add_humus_at(c + 1, c - 1, 500000);
        eco.add_bedrock_at(c - 1, c + 1, 1000000);
        eco.add_humus_at(c - 1, c + 1, 500000);
        eco.set_trees_at(c - 1, c + 1, 2, 20000000, 40000000);
        eco.add_bedrock_at(c + 1, c + 1, 1000000);
        eco.add_humus_at(c + 1, c + 1, 500000);
        eco
    }

    /// Small piles of each granular material, ready to slide.
    pub fn init_piles() -> (r: Self)
        ensures
            r.wf(),
    {
        let mut eco = Ecosystem::init();
        let c: usize = 3;
        eco.add_sand_at(c, c, 1000000);
        eco.add_sand_at(c, c + 1, 1000000);
        eco.add_sand_at(c + 1, c, 1000000);
        eco.add_sand_at(c + 1, c + 1, 3000000);
        eco.add_rocks_at(c - 2, c, 1000000);
        eco.add_rocks_at(c - 2, c + 1, 1000000);
        eco.add_rocks_at(c - 3, c, 1000000);
        eco.add_rocks_at(c - 3, c + 1, 3000000);
        eco.add_humus_at(c - 3, c - 1, 3000000);
        eco
    }

    /// A short sand ridge along one edge.
    pub fn init_dunes() -> (r: Self)
        ensures
            r.wf(),
    {
        let mut eco = Ecosystem::init();
        eco.add_sand_at(0, 1, 1000000);
        eco.add_sand_at(0, 2, 2000000);
        eco.add_sand_at(0, 3, 3000000);
        eco.add_sand_at(0, 4, 4000000);
        eco
    }

    /// A sand sheet over the whole grid with wind enabled and a bedrock
    /// obstacle in the middle.
    pub fn init_sand() -> (r: Self)
        ensures
            r.wf(),
            r.wind_state is Some,
    {
        let mut eco = Ecosystem::init();
        let mut k: usize = 0;
        while k < NUM_CELLS
            invariant
                eco.wf(),
                k <= NUM_CELLS,
            decreases NUM_CELLS - k,
        {
            let i = CellIndex::get_from_flat_index(k);
            eco.add_sand_at(i.x, i.y, 10000000);
            k += 1;
        }
        let mut ws = WindState::new();
        ws.wind_rose = WindRose::new(90000, 10000000, 15000000);
        eco.wind_state = Some(ws);
        let mut x: usize = 100;
        while x < 160
            invariant
                eco.wf(),
                eco.wind_state is Some,
                x <= 160,
            decreases 160 - x,
        {
            let mut y: usize = 100;
            while y < 160
                invariant
                    eco.wf(),
                    eco.wind_state is Some,
                    x < 160,
                    y <= 160,
                decreases 160 - y,
            {
                eco.add_bedrock_at(x, y, 40000000);
                y += 1;
            }
            x += 1;
        }
        eco
    }

    /// The humus height seeded on imported ground of the given slope (in
    /// parts per million): the default humus scaled by `exp(-3 s^2)`, so a
    /// thirty-degree slope carries about half the humus of flat ground.
    pub fn get_initial_humus_height(slope_ppm: i64) -> (r: u64)
        requires
            -1000000 <= slope_ppm <= 1000000,
        ensures
            r == DEFAULT_HUMUS_HEIGHT as int
                * spec_exp_s9(-(3 * (slope_ppm * slope_ppm) / 1000)) / 1000000000,
            r <= 7000000,
    {
        proof {
            assert(0 <= slope_ppm * slope_ppm <= 1000000000000) by (nonlinear_arith)
                requires -1000000 <= slope_ppm <= 1000000;
            vstd::arithmetic::div_mod::lemma_div_pos_is_pos(
                3 * ((slope_ppm as int) * (slope_ppm as int)), 1000);
            vstd::arithmetic::div_mod::lemma_div_is_ordered(
                3 * ((slope_ppm as int) * (slope_ppm as int)), 3000000000000, 1000);
        }
        let sq: i64 = slope_ppm * slope_ppm;
        let arg: i64 = -(3 * sq / 1000);
        let e = exp_s9(arg);
        proof {
            crate::math::lemma_exp_nonpos_bound(arg as int);
            assert((DEFAULT_HUMUS_HEIGHT as int) * (e as int)
                <= 500000 * 14000000000) by (nonlinear_arith)
                requires e <= 14000000000, DEFAULT_HUMUS_HEIGHT == 500000;
            vstd::arithmetic::div_mod::lemma_div_pos_is_pos(
                (DEFAULT_HUMUS_HEIGHT as int) * (e as int), 1000000000);
            vstd::arithmetic::div_mod::lemma_div_is_ordered(
                (DEFAULT_HUMUS_HEIGHT as int) * (e as int), 7000000000000000, 1000000000);
        }
        let wide: u128 = (DEFAULT_HUMUS_HEIGHT as u128) * (e as u128) / 1000000000;
        wide as u64
    }
}

/// A grid differing from a well-formed one in a single well-formed cell is
/// well-formed.
proof fn lemma_one_cell_wf(pre: Ecosystem, post: Ecosystem, index: CellIndex)
    requires
        pre.wf(),
        in_bounds(index),
        post.cells@ == pre.cells@.update(flat_of(index), post.cell_at(index)),
        post.cell_at(index).wf(),
        post.wind_state == pre.wind_state,
    ensures
        post.wf(),
{
    lemma_flat_in_range(index);
    assert forall|k2: int| 0 <= k2 < NUM_CELLS
        implies (#[trigger] post.cells@[k2]).wf() by {
        if k2 != flat_of(index) {
            assert(post.cells@[k2] == pre.cells@[k2]);
        }
    }
}

/// The humus height seeded at `i` on the grid `eco`: what
/// `get_initial_humus_height` assigns to the steepest local slope.
pub open spec fn spec_seed_amount(eco: Ecosystem, i: CellIndex) -> u64 {
    let s = spec_max_abs_slope(eco, i);
    (DEFAULT_HUMUS_HEIGHT as int * spec_exp_s9(-(3 * (s * s) / 1000)) / 1000000000) as u64
}

/// An imported bedrock height, clamped to the layer cap.
pub open spec fn spec_clamped_height(heights: Seq<u64>, k: int) -> u64 {
    if heights[k] > LAYER_CAP {
        LAYER_CAP
    } else {
        heights[k]
    }
}

/// The slope magnitude between two positions of an imported height vector.
pub open spec fn spec_import_slope(heights: Seq<u64>, i: CellIndex, j: CellIndex) -> int {
    let s = spec_slope_ppm(
        spec_clamped_height(heights, flat_of(i)) as int,
        spec_clamped_height(heights, flat_of(j)) as int,
        dist2_cells(i, j),
    );
    if s >= 0 {
        s
    } else {
        -s
    }
}

/// Folds one neighbor slot into the running maximum of imported slopes.
pub open spec fn import_slope_step(
    heights: Seq<u64>,
    i: CellIndex,
    o: Option<CellIndex>,
    acc: int,
) -> int {
    match o {
        Some(j) => if spec_import_slope(heights, i, j) > acc {
            spec_import_slope(heights, i, j)
        } else {
            acc
        },
        None => acc,
    }
}

/// The steepest slope magnitude of an imported height vector at `i`.
pub open spec fn spec_import_steepest(heights: Seq<u64>, i: CellIndex) -> int {
    let n = spec_neighbors(i);
    let m0 = 0int;
    let m1 = import_slope_step(heights, i, n.northwest, m0);
    let m2 = import_slope_step(heights, i, n.north, m1);
    let m3 = import_slope_step(heights, i, n.northeast, m2);
    let m4 = import_slope_step(heights, i, n.west, m3);
    let m5 = import_slope_step(heights, i, n.east, m4);
    let m6 = import_slope_step(heights, i, n.southwest, m5);
    let m7 = import_slope_step(heights, i, n.south, m6);
    import_slope_step(heights, i, n.southeast, m7)
}

/// The humus seeded on an imported landscape at `i`.
pub open spec fn spec_import_humus(heights: Seq<u64>, i: CellIndex) -> u64 {
    let s = spec_import_steepest(heights, i);
    (DEFAULT_HUMUS_HEIGHT as int * spec_exp_s9(-(3 * (s * s) / 1000)) / 1000000000) as u64
}

/// On a grid whose cell heights equal the clamped imported heights, the
/// steepest local slope is the one of the imported height vector, and so is
/// the humus seeded from it.
proof fn lemma_import_steepest_matches(eco: Ecosystem, heights: Seq<u64>, i: CellIndex)
    requires
        in_bounds(i),
        forall|q: CellIndex| in_bounds(q) ==> #[trigger] eco.cell_at(q).height_um()
            == spec_clamped_height(heights, flat_of(q)) as int,
    ensures
        spec_max_abs_slope(eco, i) == spec_import_steepest(heights, i),
        spec_seed_amount(eco, i) == spec_import_humus(heights, i),
{
    crate::slide::lemma_neighbor_slots(i);
    let opts = crate::slide::neighbor_opts(i);
    let n = spec_neighbors(i);
    assert(opts[0] == n.northwest && opts[1] == n.north && opts[2] == n.northeast
        && opts[3] == n.west && opts[4] == n.east && opts[5] == n.southwest
        && opts[6] == n.south && opts[7] == n.southeast);
    assert forall|j: CellIndex| in_bounds(j) implies crate::thermal::spec_abs_slope(eco, i, j)
        == #[trigger] spec_import_slope(heights, i, j) by {
        assert(eco.cell_at(i).height_um() == spec_clamped_height(heights, flat_of(i)) as int);
        assert(eco.cell_at(j).height_um() == spec_clamped_height(heights, flat_of(j)) as int);
    };
    assert(spec_max_abs_slope(eco, i) == spec_import_steepest(heights, i));
}

impl Ecosystem {
    /// Builds a landscape from a flat vector of bedrock heights (in
    /// micrometers, clamped to the layer cap), then seeds each cell with
    /// humus according to its steepest local slope.
    pub fn init_with_heights(heights_um: &Vec<u64>) -> (r: Ecosystem)
        requires
            heights_um@.len() == NUM_CELLS,
        ensures
            r.wf(),
            r.wind_state is None,
            forall|k: int| 0 <= k < NUM_CELLS ==> {
                let c = #[trigger] r.cells@[k];
                &&& c.bedrock == Some(crate::cell::Bedrock {
                    height: spec_clamped_height(heights_um@, k),
                })
                &&& c.rock is None && c.sand is None
                &&& c.humus == Some(crate::cell::Humus {
                    height: spec_import_humus(heights_um@, spec_index_of(k)),
                })
                &&& c.trees is None && c.bushes is None && c.grasses is None
                &&& c.dead_vegetation is None
                &&& c.soil_moisture == 0
            },
    {
        let mut eco = Ecosystem::init();
        let ghost base = eco;
        let mut k: usize = 0;
        while k < NUM_CELLS
            invariant
                eco.wf(),
                eco.wind_state is None,
                heights_um@.len() == NUM_CELLS,
                k <= NUM_CELLS,
                eco.cells@.len() == NUM_CELLS,
                base.cells@.len() == NUM_CELLS,
                forall|j: int| 0 <= j < NUM_CELLS ==> is_flat_cell(#[trigger] base.cells@[j]),
                forall|j: int| 0 <= j < k ==> #[trigger] eco.cells@[j]
                    == (Cell {
                        bedrock: Some(crate::cell::Bedrock {
                            height: spec_clamped_height(heights_um@, j),
                        }),
                        ..base.cells@[j]
                    }),
                forall|j: int| k <= j < NUM_CELLS ==> #[trigger] eco.cells@[j] == base.cells@[j],
            decreases NUM_CELLS - k,
        {
            let i = CellIndex::get_from_flat_index(k);
            let ghost pre = eco;
            let h = heights_um[k];
            let clamped = if h > LAYER_CAP {
                LAYER_CAP
            } else {
                h
            };
            eco.set_bedrock_at(i.x, i.y, clamped);
            proof {
                assert(flat_of(i) == k as int);
                assert(pre.cell_at(i) == base.cells@[k as int]);
                assert forall|j: int| 0 <= j < k + 1 implies #[trigger] eco.cells@[j]
                    == (Cell {
                        bedrock: Some(crate::cell::Bedrock {
                            height: spec_clamped_height(heights_um@, j),
                        }),
                        ..base.cells@[j]
                    }) by {
                    if j < k as int {
                        assert(eco.cells@[j] == pre.cells@[j]);
                    }
                };
                assert forall|j: int| k + 1 <= j < NUM_CELLS
                    implies #[trigger] eco.cells@[j] == base.cells@[j] by {
                    assert(eco.cells@[j] == pre.cells@[j]);
                };
            }
            k += 1;
        }
        let ghost mid = eco;
        eco.seed_humus();
        proof {
            assert forall|q: CellIndex| in_bounds(q) implies #[trigger] mid.cell_at(q).height_um()
                == spec_clamped_height(heights_um@, flat_of(q)) as int by {
                lemma_flat_in_range(q);
                assert(is_flat_cell(base.cells@[flat_of(q)]));
            };
            assert forall|k2: int| 0 <= k2 < NUM_CELLS implies {
                let c = #[trigger] eco.cells@[k2];
                &&& c.bedrock == Some(crate::cell::Bedrock {
                    height: spec_clamped_height(heights_um@, k2),
                })
                &&& c.rock is None && c.sand is None
                &&& c.humus == Some(crate::cell::Humus {
                    height: spec_import_humus(heights_um@, spec_index_of(k2)),
                })
                &&& c.trees is None && c.bushes is None && c.grasses is None
                &&& c.dead_vegetation is None
                &&& c.soil_moisture == 0
            } by {
                lemma_index_surjective(k2);
                let i2 = spec_index_of(k2);
                lemma_import_steepest_matches(mid, heights_um@, i2);
                assert(is_flat_cell(base.cells@[k2]));
                assert(mid.cells@[k2].humus_um() == 0);
                assert(crate::cell::sat_add_cap(0, spec_seed_amount(mid, i2))
                    == spec_seed_amount(mid, i2));
            };
        }
        eco
    }

    /// Seeds every cell with the slope-dependent initial humus: flat ground
    /// gets the full default height, steep ground close to none.
    pub fn seed_humus(&mut self)
        requires
            old(self).wf(),
        ensures
            final(self).wf(),
            final(self).wind_state == old(self).wind_state,
            forall|k: int| 0 <= k < NUM_CELLS ==> #[trigger] final(self).cells@[k]
                == (Cell {
                    humus: Some(crate::cell::Humus {
                        height: crate::cell::sat_add_cap(
                            old(self).cells@[k].humus_um(),
                            spec_seed_amount(*old(self), spec_index_of(k)),
                        ),
                    }),
                    ..old(self).cells@[k]
                }),
            forall|k: int| 0 <= k < NUM_CELLS
                ==> #[trigger] spec_seed_amount(*old(self), spec_index_of(k)) <= 7000000,
    {
        let mut planned: Vec<u64> = Vec::new();
        let mut k: usize = 0;
        while k < NUM_CELLS
            invariant
                self.wf(),
                self == old(self),
                planned@.len() == k,
                k <= NUM_CELLS,
                forall|kk: int| 0 <= kk < k ==> #[trigger] planned@[kk]
                    == spec_seed_amount(*self, spec_index_of(kk)),
                forall|kk: int| 0 <= kk < k ==> #[trigger] planned@[kk] <= 7000000,
            decreases NUM_CELLS - k,
        {
            let index = CellIndex::get_from_flat_index(k);
            proof {
                crate::slide::lemma_neighbor_slots(index);
                vstd::arithmetic::div_mod::lemma_fundamental_div_mod_converse(
                    k as int, AREA_SIDE_LENGTH as int, index.y as int, index.x as int);
                assert(index == spec_index_of(k as int));
            }
            let n = index.get_neighbors();
            let mut steepest: i64 = 0;
            if let Some(j) = n.northwest {
                let a = crate::thermal::abs_slope(self, index, j);
                if a > steepest {
                    steepest = a;
                }
            }
            if let Some(j) = n.north {
                let a = crate::thermal::abs_slope(self, index, j);
                if a > steepest {
                    steepest = a;
                }
            }
            if let Some(j) = n.northeast {
                let a = crate::thermal::abs_slope(self, index, j);
                if a > steepest {
                    steepest = a;
                }
            }
            if let Some(j) = n.west {
                let a = crate::thermal::abs_slope(self, index, j);
                if a > steepest {
                    steepest = a;
                }
            }
            if let Some(j) = n.east {
                let a = crate::thermal::abs_slope(self, index, j);
                if a > steepest {
                    steepest = a;
                }
            }
            if let Some(j) = n.southwest {
                let a = crate::thermal::abs_slope(self, index, j);
                if a > steepest {
                    steepest = a;
                }
            }
            if let Some(j) = n.south {
                let a = crate::thermal::abs_slope(self, index, j);
                if a > steepest {
                    steepest = a;
                }
            }
            if let Some(j) = n.southeast {
                let a = crate::thermal::abs_slope(self, index, j);
                if a > steepest {
                    steepest = a;
                }
            }
            proof {
                assert(steepest == spec_max_abs_slope(*self, index));
            }
            planned.push(Ecosystem::get_initial_humus_height(steepest));
            k += 1;
        }
        let mut k2: usize = 0;
        while k2 < NUM_CELLS
            invariant
                self.wf(),
                self.wind_state == old(self).wind_state,
                self.cells@.len() == NUM_CELLS,
                planned@.len() == NUM_CELLS,
                k2 <= NUM_CELLS,
                forall|kk: int| 0 <= kk < NUM_CELLS ==> #[trigger] planned@[kk]
                    == spec_seed_amount(*old(self), spec_index_of(kk)),
                forall|kk: int| 0 <= kk < NUM_CELLS ==> #[trigger] planned@[kk] <= 7000000,
                forall|j: int| 0 <= j < k2 ==> #[trigger] self.cells@[j]
                    == (Cell {
                        humus: Some(crate::cell::Humus {
                            height: crate::cell::sat_add_cap(
                                old(self).cells@[j].humus_um(),
                                spec_seed_amount(*old(self), spec_index_of(j)),
                            ),
                        }),
                        ..old(self).cells@[j]
                    }),
                forall|j: int| k2 <= j < NUM_CELLS
                    ==> #[trigger] self.cells@[j] == old(self).cells@[j],
            decreases NUM_CELLS - k2,
        {
            let index = CellIndex::get_from_flat_index(k2);
            let ghost mid = *self;
            let amount = planned[k2];
            self.add_humus_at(index.x, index.y, amount);
            proof {
                assert(flat_of(index) == k2 as int);
                assert(mid.cell_at(index) == old(self).cells@[k2 as int]);
                assert forall|j: int| 0 <= j < k2 + 1 implies #[trigger] self.cells@[j]
                    == (Cell {
                        humus: Some(crate::cell::Humus {
                            height: crate::cell::sat_add_cap(
                                old(self).cells@[j].humus_um(),
                                spec_seed_amount(*old(self), spec_index_of(j)),
                            ),
                        }),
                        ..old(self).cells@[j]
                    }) by {
                    if j < k2 as int {
                        assert(self.cells@[j] == mid.cells@[j]);
                    }
                };
                assert forall|j: int| k2 + 1 <= j < NUM_CELLS
                    implies #[trigger] self.cells@[j] == old(self).cells@[j] by {
                    assert(self.cells@[j] == mid.cells@[j]);
                };
            }
            k2 += 1;
        }
        proof {
            assert forall|k3: int| 0 <= k3 < NUM_CELLS
                implies #[trigger] spec_seed_amount(*old(self), spec_index_of(k3)) <= 7000000 by {
                assert(planned@[k3] == spec_seed_amount(*old(self), spec_index_of(k3)));
                assert(planned@[k3] <= 7000000);
            };
        }
    }
}

} // verus!
