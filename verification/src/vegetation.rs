//! Vegetation life cycles. Trees and bushes are individualized populations:
//! each year seedlings may establish, every plant grows and ages, and
//! plants die of overpopulation, stress and old age; the dead become
//! biomass. Grasses are a collective cover fraction moved by vigor and
//! stress. Dead biomass from the previous year is partially converted to
//! humus at the start of each kernel invocation.
//!
//! The kernels touch exactly one cell and preserve every invariant: layer
//! heights stay capped, populations present keep positive counts, grass
//! coverage stays within [0, 1], and the previous year's dead biomass is
//! converted to exactly `biomass / 500000` micrometers of humus (the 30%
//! conversion rate over the cell area and humus density).

use vstd::prelude::*;
use crate::cell::{Bushes, Cell, DeadVegetation, Grasses, Trees, sat_add_cap};
use crate::constants::{NUM_CELLS, PPM, SUM_CAP};
use crate::ecosystem::{flat_of, lemma_flat_in_range, Ecosystem};
use crate::events::Events;
use crate::grid::{in_bounds, CellIndex};
use crate::rng::rng_below;
use crate::viability::{compute_vigor_and_stress, Species};
use crate::allometry::{spec_bush_density_ppm, spec_tree_density_ppm};

verus! {

/// What every vegetation kernel guarantees: only the one cell changes, its
/// material layers other than humus are untouched, the previous year's
/// dead biomass has been converted to humus at the fixed rate, and the cell
/// stays well-formed.
pub open spec fn veg_kernel_post(
    pre: Ecosystem,
    post: Ecosystem,
    index: CellIndex,
    converts_dead: bool,
) -> bool {
    let c0 = pre.cell_at(index);
    let c1 = post.cell_at(index);
    &&& post.cells@ == pre.cells@.update(flat_of(index), c1)
    &&& c1.wf()
    &&& c1.bedrock == c0.bedrock
    &&& c1.rock == c0.rock
    &&& c1.sand == c0.sand
    &&& c1.soil_moisture == c0.soil_moisture
    &&& c1.hours_of_sunlight == c0.hours_of_sunlight
    &&& (converts_dead ==> c1.humus_um()
        == sat_add_cap(c0.humus_um(), (c0.dead_biomass_ukg() / 500000) as u64))
    &&& (!converts_dead ==> c1.humus_um() == c0.humus_um())
}


/// Coverage density of a population by the species' allometry.
pub open spec fn spec_density_of(s: Species, count: int, height_sum: int) -> int {
    match s {
        Species::Trees => spec_tree_density_ppm(count, height_sum),
        Species::Bushes => spec_bush_density_ppm(count, height_sum),
        Species::Grasses => 0,
    }
}

/// Total biomass of a population by the species' allometry.
pub open spec fn spec_biomass_of(s: Species, count: int, height_sum: int) -> int {
    if count == 0 {
        0
    } else {
        match s {
            Species::Trees => crate::allometry::spec_tree_biomass_ukg(count, height_sum),
            Species::Bushes => crate::allometry::spec_bush_biomass_ukg(count, height_sum),
            Species::Grasses => 0,
        }
    }
}

/// Removing `amount` plants at the population's average height and age.
pub open spec fn spec_kill(count: u32, h: u64, a: u64, amount: u32) -> (u32, u64, u64) {
    if count == 0 || amount == 0 {
        (count, h, a)
    } else {
        (
            (count - amount) as u32,
            (h - amount * (h as int / count as int)) as u64,
            (a - amount * (a as int / count as int)) as u64,
        )
    }
}

/// Overpopulation deaths: one plant at a time while the canopy covers more
/// than the whole cell and more than one plant stands.
pub open spec fn spec_overpop(s: Species, count: u32, h: u64, a: u64) -> (u32, u64, u64)
    decreases count,
{
    if count > 1 && spec_density_of(s, count as int, h as int) > 1000000 {
        let k = spec_kill(count, h, a, 1);
        spec_overpop(s, k.0, k.1, k.2)
    } else {
        (count, h, a)
    }
}

/// One year of an individualized population: a possible seedling, growth
/// of every plant's height and age, then deaths from overpopulation,
/// stress and old age. Yields the surviving population, the number of
/// deaths, and the pre-death average height (at which the dead are
/// weighed).
pub open spec fn spec_pop_step(
    s: Species,
    c0: u32,
    h0: u64,
    a0: u64,
    stress: int,
    seeded: bool,
) -> (u32, u64, u64, u32, u64) {
    let c1 = if seeded && c0 < 0xffffffffu32 { (c0 + 1) as u32 } else { c0 };
    if c1 == 0 {
        (0u32, h0, a0, 0u32, 0u64)
    } else {
        let rate: u64 = match s {
            Species::Trees => 300000,
            _ => 200000,
        };
        let life: u64 = match s {
            Species::Trees => 80000000,
            _ => 20000000,
        };
        let h1 = sat_add_cap(h0, (c1 * rate) as u64);
        let a1 = sat_add_cap(a0, (c1 * 1000000) as u64);
        let pre_avg = (h1 as int / c1 as int) as u64;
        let op = spec_overpop(s, c1, h1, a1);
        let sd0 = ((-stress) / 1000000) as u32;
        let sd = if sd0 > op.0 { op.0 } else { sd0 };
        let k1 = spec_kill(op.0, op.1, op.2, sd);
        let k2 = if k1.0 > 0 && k1.2 as int / k1.0 as int > life {
            let od64 = (k1.0 * 19 + 19) as int / 20;
            let od = if od64 > k1.0 { k1.0 as u32 } else { od64 as u32 };
            spec_kill(k1.0, k1.1, k1.2, od)
        } else {
            k1
        };
        (k2.0, k2.1, k2.2, (c1 - k2.0) as u32, pre_avg)
    }
}

/// The dead biomass a year's deaths produce, weighed at the pre-death
/// average height, with the height sum capped like every population sum.
pub open spec fn spec_dead_biomass(s: Species, total_dead: u32, pre_avg: u64) -> u64 {
    let dh = if total_dead * pre_avg > SUM_CAP { SUM_CAP as int } else { total_dead * pre_avg };
    let b = spec_biomass_of(s, total_dead as int, dh);
    b as u64
}

/// The cell after one individualized vegetation year: the stepped
/// population written back (absent at count zero), the previous year's
/// dead biomass converted to humus, and this year's deaths resting as the
/// only dead biomass.
pub open spec fn spec_veg_cell(s: Species, c0: Cell, stress: int, seeded: bool) -> Cell {
    let p0: (u32, u64, u64) = match s {
        Species::Trees => match c0.trees {
            Some(t) => (t.number_of_plants, t.plant_height_sum, t.plant_age_sum),
            None => (0u32, 0u64, 0u64),
        },
        _ => match c0.bushes {
            Some(b) => (b.number_of_plants, b.plant_height_sum, b.plant_age_sum),
            None => (0u32, 0u64, 0u64),
        },
    };
    let st = spec_pop_step(s, p0.0, p0.1, p0.2, stress, seeded);
    let new_dead = spec_dead_biomass(s, st.3, st.4);
    let with_pop = match s {
        Species::Trees => Cell {
            trees: if st.0 > 0 {
                Some(Trees {
                    number_of_plants: st.0,
                    plant_height_sum: st.1,
                    plant_age_sum: st.2,
                })
            } else {
                None
            },
            ..c0
        },
        _ => Cell {
            bushes: if st.0 > 0 {
                Some(Bushes {
                    number_of_plants: st.0,
                    plant_height_sum: st.1,
                    plant_age_sum: st.2,
                })
            } else {
                None
            },
            ..c0
        },
    };
    let new_humus = (c0.dead_biomass_ukg() / 500000) as u64;
    Cell {
        humus: Some(crate::cell::Humus {
            height: sat_add_cap(with_pop.humus_um(), new_humus),
        }),
        dead_vegetation: Some(DeadVegetation { biomass: sat_add_cap(0, new_dead) }),
        ..with_pop
    }
}

/// A working copy of an individualized population.
struct Population {
    count: u32,
    height_sum: u64,
    age_sum: u64,
}

impl Population {
    spec fn wf(self) -> bool {
        self.height_sum <= SUM_CAP && self.age_sum <= SUM_CAP
    }
}

/// The coverage density of a population, in parts per million, by the
/// species' allometry.
fn density_of(s: Species, p: &Population) -> (r: u64)
    requires
        p.count > 0,
        s != Species::Grasses,
    ensures
        r == spec_density_of(s, p.count as int, p.height_sum as int),
        r <= 1000000000000,
{
    match s {
        Species::Trees => Cell::estimate_tree_density(&Trees {
            number_of_plants: p.count,
            plant_height_sum: p.height_sum,
            plant_age_sum: p.age_sum,
        }),
        Species::Bushes => Cell::estimate_bushes_density(&Bushes {
            number_of_plants: p.count,
            plant_height_sum: p.height_sum,
            plant_age_sum: p.age_sum,
        }),
        Species::Grasses => 0,
    }
}

/// Total biomass of a population of `count` plants whose heights sum to
/// `height_sum`, by the species' allometry.
fn biomass_of(s: Species, count: u32, height_sum: u64) -> (r: u64)
    ensures
        r == spec_biomass_of(s, count as int, height_sum as int),
        r <= SUM_CAP,
{
    if count == 0 {
        return 0;
    }
    match s {
        Species::Trees => Trees {
            number_of_plants: count,
            plant_height_sum: height_sum,
            plant_age_sum: 0,
        }.estimate_biomass(),
        Species::Bushes => Bushes {
            number_of_plants: count,
            plant_height_sum: height_sum,
            plant_age_sum: 0,
        }.estimate_biomass(),
        Species::Grasses => 0,
    }
}

/// Removes `amount` plants at the population's average height and age.
fn kill_plants(p: &mut Population, amount: u32)
    requires
        old(p).wf(),
        amount <= old(p).count,
    ensures
        final(p).wf(),
        (final(p).count, final(p).height_sum, final(p).age_sum)
            == spec_kill(old(p).count, old(p).height_sum, old(p).age_sum, amount),
        final(p).count == old(p).count - amount,
        final(p).height_sum <= old(p).height_sum,
        final(p).age_sum <= old(p).age_sum,
{
    if p.count == 0 || amount == 0 {
        return;
    }
    let avg_h = p.height_sum / (p.count as u64);
    let avg_a = p.age_sum / (p.count as u64);
    proof {
        lemma_avg_share(p.height_sum as int, p.count as int, amount as int);
        lemma_avg_share(p.age_sum as int, p.count as int, amount as int);
    }
    p.height_sum = p.height_sum - (amount as u64) * avg_h;
    p.age_sum = p.age_sum - (amount as u64) * avg_a;
    p.count = p.count - amount;
}

/// `amount` shares of the average never exceed the total.
proof fn lemma_avg_share(total: int, count: int, amount: int)
    requires
        count >= 1,
        0 <= amount <= count,
        total >= 0,
    ensures
        amount * (total / count) <= total,
        amount * (total / count) >= 0,
{
    vstd::arithmetic::div_mod::lemma_fundamental_div_mod(total, count);
    vstd::arithmetic::div_mod::lemma_div_pos_is_pos(total, count);
    assert(amount * (total / count) <= count * (total / count)) by (nonlinear_arith)
        requires 0 <= amount <= count, total / count >= 0;
    assert(count * (total / count) <= total);
}

/// One individualized vegetation step (trees or bushes) at a cell.
#[verifier::rlimit(100)]
#[verifier::spinoff_prover]
fn apply_individualized_vegetation_event(
    eco: &mut Ecosystem,
    index: CellIndex,
    s: Species,
) -> (r: Option<(Events, CellIndex)>)
    requires
        old(eco).wf(),
        in_bounds(index),
        s == Species::Trees || s == Species::Bushes,
    ensures
        final(eco).wf(),
        final(eco).wind_state == old(eco).wind_state,
        r is None,
        veg_kernel_post(*old(eco), *final(eco), index, true),
        crate::events::climate_preserved(*old(eco), *final(eco)),
        ({
            let c0 = old(eco).cell_at(index);
            let st = crate::viability::spec_stress(*old(eco), index, s);
            let p0: (u32, u64, u64) = match s {
                Species::Trees => match c0.trees {
                    Some(t) => (t.number_of_plants, t.plant_height_sum, t.plant_age_sum),
                    None => (0u32, 0u64, 0u64),
                },
                _ => match c0.bushes {
                    Some(b) => (b.number_of_plants, b.plant_height_sum, b.plant_age_sum),
                    None => (0u32, 0u64, 0u64),
                },
            };
            final(eco).cell_at(index) == spec_veg_cell(s, c0, st, false)
                || (st == 0 && spec_density_of(s, p0.0 as int, p0.1 as int) < 1000000
                    && final(eco).cell_at(index) == spec_veg_cell(s, c0, st, true))
        }),
{
    let ghost pre = *eco;
    let (vigor, stress) = compute_vigor_and_stress(eco, index, s);

    let cell_ro = eco.get_cell(index);
    let mut p = match s {
        Species::Trees => match &cell_ro.trees {
            Some(t) => Population {
                count: t.number_of_plants,
                height_sum: t.plant_height_sum,
                age_sum: t.plant_age_sum,
            },
            None => Population { count: 0, height_sum: 0, age_sum: 0 },
        },
        _ => match &cell_ro.bushes {
            Some(b) => Population {
                count: b.number_of_plants,
                height_sum: b.plant_height_sum,
                age_sum: b.plant_age_sum,
            },
            None => Population { count: 0, height_sum: 0, age_sum: 0 },
        },
    };
    proof {
        assert(p.wf());
    }
    let ghost c0: u32 = p.count;
    let ghost h0: u64 = p.height_sum;
    let ghost a0: u64 = p.age_sum;
    let ghost mut seeded: bool = false;

    let mut new_dead_biomass: u64 = 0;

    // germination: only an unstressed, uncrowded population gains seedlings
    let mut density: u64 = if p.count > 0 {
        density_of(s, &p)
    } else {
        0
    };
    let ghost density0: u64 = density;
    if stress == 0 && density < 1000000 {
        // expected seedlings: 0.6 * (1 - density) * vigor, always below one
        // plant, so it acts as a probability
        let v: u64 = if vigor > 0 {
            vigor as u64
        } else {
            0
        };
        proof {
            assert((1000000 - density) * v <= 1000000 * 1000000) by (nonlinear_arith)
                requires 0 <= 1000000 - density <= 1000000, 0 <= v <= 1000000;
            assert((1000000 - density) * v >= 0) by (nonlinear_arith)
                requires density <= 1000000, v >= 0;
        }
        let b: u64 = (1000000 - density) * v / 1000000;
        let seed_ppm: u64 = b * 600000 / 1000000;
        if seed_ppm > 0 {
            let draw = rng_below(PPM);
            if draw < seed_ppm && p.count < 0xffffffffu32 {
                p.count = p.count + 1;
                proof {
                    seeded = true;
                }
            }
        }
    }
    let ghost c1: u32 = p.count;
    proof {
        assert(c1 == if seeded && c0 < 0xffffffffu32 { (c0 + 1) as u32 } else { c0 });
        assert(seeded ==> stress == 0 && density0 < 1000000
            && spec_density_of(s, c0 as int, h0 as int) < 1000000) by {
            if seeded && c0 > 0 {
                assert(density0 == spec_density_of(s, c0 as int, h0 as int));
            }
            if seeded && c0 == 0 {
                assert(density0 == 0);
            }
        }
    }

    if p.count > 0 {
        // growth: every plant grows one year's height and ages one year
        let growth: u64 = match s {
            Species::Trees => 300000,
            _ => 200000,
        };
        p.height_sum = add_to_sum(p.height_sum, (p.count as u64) * growth);
        p.age_sum = add_to_sum(p.age_sum, (p.count as u64) * 1000000);

        let pre_death_count = p.count;
        let pre_avg_height = p.height_sum / (p.count as u64);
        let ghost h1: u64 = p.height_sum;
        let ghost a1: u64 = p.age_sum;

        // deaths from overpopulation
        if p.count > 0 {
            density = density_of(s, &p);
        }
        while density > 1000000 && p.count > 1
            invariant
                p.wf(),
                s != Species::Grasses,
                1 <= p.count <= pre_death_count,
                density == spec_density_of(s, p.count as int, p.height_sum as int),
                spec_overpop(s, p.count, p.height_sum, p.age_sum)
                    == spec_overpop(s, c1, h1, a1),
                pre_death_count == c1,
            decreases p.count,
        {
            kill_plants(&mut p, 1);
            density = density_of(s, &p);
        }
        proof {
            assert((p.count, p.height_sum, p.age_sum) == spec_overpop(s, c1, h1, a1));
        }

        // deaths from stress (at most one plant per unit of stress)
        let stress_deaths: u32 = ((-stress) / 1000000) as u32;
        let sd = if stress_deaths > p.count {
            p.count
        } else {
            stress_deaths
        };
        kill_plants(&mut p, sd);

        // deaths from old age
        if p.count > 0 {
            let life: u64 = match s {
                Species::Trees => 80000000,
                _ => 20000000,
            };
            let avg_age = p.age_sum / (p.count as u64);
            if avg_age > life {
                // 95% of the population dies of senescence, rounded up
                let old_deaths64: u64 = ((p.count as u64) * 19 + 19) / 20;
                let old_deaths: u32 = if old_deaths64 > p.count as u64 {
                    p.count
                } else {
                    old_deaths64 as u32
                };
                kill_plants(&mut p, old_deaths);
            }
        }

        // the combined corpse mass, at the pre-death average height
        let total_dead: u32 = pre_death_count - p.count;
        let dead_h: u64 = mul_capped(total_dead as u64, pre_avg_height);
        new_dead_biomass = biomass_of(s, total_dead, dead_h);
        proof {
            assert((p.count, p.height_sum, p.age_sum, total_dead, pre_avg_height)
                == spec_pop_step(s, c0, h0, a0, stress as int, seeded));
            assert(new_dead_biomass == spec_dead_biomass(s, total_dead, pre_avg_height));
        }
    }

    // write the population back and run the dead-to-humus conversion
    proof {
        lemma_flat_in_range(index);
    }
    let cell = eco.cell_mut(index);
    match s {
        Species::Trees => {
            if p.count > 0 {
                cell.trees = Some(Trees {
                    number_of_plants: p.count,
                    plant_height_sum: p.height_sum,
                    plant_age_sum: p.age_sum,
                });
            } else {
                cell.trees = None;
            }
        },
        _ => {
            if p.count > 0 {
                cell.bushes = Some(Bushes {
                    number_of_plants: p.count,
                    plant_height_sum: p.height_sum,
                    plant_age_sum: p.age_sum,
                });
            } else {
                cell.bushes = None;
            }
        },
    }
    let prior_dead = cell.get_dead_vegetation_biomass();
    let new_humus = prior_dead / 500000;
    cell.remove_all_dead_vegetation();
    cell.add_humus(new_humus);
    cell.add_dead_vegetation(new_dead_biomass);
    proof {
        lemma_wf_after_update(pre, *eco, index);
        lemma_climate_one_cell(pre, *eco, index);
        assert(eco.cell_at(index)
            == spec_veg_cell(s, pre.cell_at(index), stress as int, seeded));
    }
    None
}

/// Saturating add into a population sum.
fn add_to_sum(a: u64, b: u64) -> (r: u64)
    requires
        a <= SUM_CAP,
    ensures
        r == sat_add_cap(a, b),
        r <= SUM_CAP,
{
    if b >= SUM_CAP - a {
        SUM_CAP
    } else {
        a + b
    }
}

/// Product capped at `SUM_CAP`.
fn mul_capped(a: u64, b: u64) -> (r: u64)
    ensures
        r as int == if a * b > SUM_CAP { SUM_CAP as int } else { a * b },
        r <= SUM_CAP,
{
    let wide = crate::math::mul_wide(a, b);
    if wide > SUM_CAP as u128 {
        SUM_CAP
    } else {
        wide as u64
    }
}

/// A one-cell update that keeps the climate fields preserves the climate
/// everywhere.
proof fn lemma_climate_one_cell(pre: Ecosystem, post: Ecosystem, index: CellIndex)
    requires
        in_bounds(index),
        pre.cells@.len() == NUM_CELLS,
        post.cells@ == pre.cells@.update(flat_of(index), post.cell_at(index)),
        post.cell_at(index).soil_moisture == pre.cell_at(index).soil_moisture,
        post.cell_at(index).hours_of_sunlight == pre.cell_at(index).hours_of_sunlight,
    ensures
        crate::events::climate_preserved(pre, post),
{
    lemma_flat_in_range(index);
    assert forall|k: int| 0 <= k < pre.cells@.len() implies {
        &&& (#[trigger] post.cells@[k]).soil_moisture == pre.cells@[k].soil_moisture
        &&& post.cells@[k].hours_of_sunlight == pre.cells@[k].hours_of_sunlight
    } by {
        if k != flat_of(index) {
            assert(post.cells@[k] == pre.cells@[k]);
        }
    }
}

/// A grid whose only change is one well-formed cell stays well-formed.
proof fn lemma_wf_after_update(pre: Ecosystem, post: Ecosystem, index: CellIndex)
    requires
        pre.wf(),
        in_bounds(index),
        post.cells@.len() == pre.cells@.len(),
        post.cells@ == pre.cells@.update(flat_of(index), post.cell_at(index)),
        post.cell_at(index).wf(),
        post.wind_state matches Some(w) ==> w.wf(),
    ensures
        post.wf(),
{
    lemma_flat_in_range(index);
    assert forall|k2: int| 0 <= k2 < NUM_CELLS
        implies (#[trigger] post.cells@[k2]).wf() by {
        if k2 != flat_of(index) {
            assert(post.cells@[k2] == pre.cells@[k2]);
        }
    }
}

/// Tree life-cycle kernel.
pub fn apply_trees_event(eco: &mut Ecosystem, index: CellIndex) -> (r: Option<
    (Events, CellIndex),
>)
    requires
        old(eco).wf(),
        in_bounds(index),
    ensures
        final(eco).wf(),
        final(eco).wind_state == old(eco).wind_state,
        r is None,
        veg_kernel_post(*old(eco), *final(eco), index, true),
        crate::events::climate_preserved(*old(eco), *final(eco)),
        ({
            let c0 = old(eco).cell_at(index);
            let st = crate::viability::spec_stress(*old(eco), index, Species::Trees);
            let p0: (u32, u64, u64) = match c0.trees {
                Some(t) => (t.number_of_plants, t.plant_height_sum, t.plant_age_sum),
                None => (0u32, 0u64, 0u64),
            };
            final(eco).cell_at(index) == spec_veg_cell(Species::Trees, c0, st, false)
                || (st == 0
                    && spec_density_of(Species::Trees, p0.0 as int, p0.1 as int) < 1000000
                    && final(eco).cell_at(index) == spec_veg_cell(Species::Trees, c0, st, true))
        }),
{
    apply_individualized_vegetation_event(eco, index, Species::Trees)
}

/// Bush life-cycle kernel.
pub fn apply_bushes_event(eco: &mut Ecosystem, index: CellIndex) -> (r: Option<
    (Events, CellIndex),
>)
    requires
        old(eco).wf(),
        in_bounds(index),
    ensures
        final(eco).wf(),
        final(eco).wind_state == old(eco).wind_state,
        r is None,
        veg_kernel_post(*old(eco), *final(eco), index, true),
        crate::events::climate_preserved(*old(eco), *final(eco)),
        ({
            let c0 = old(eco).cell_at(index);
            let st = crate::viability::spec_stress(*old(eco), index, Species::Bushes);
            let p0: (u32, u64, u64) = match c0.bushes {
                Some(t) => (t.number_of_plants, t.plant_height_sum, t.plant_age_sum),
                None => (0u32, 0u64, 0u64),
            };
            final(eco).cell_at(index) == spec_veg_cell(Species::Bushes, c0, st, false)
                || (st == 0
                    && spec_density_of(Species::Bushes, p0.0 as int, p0.1 as int) < 1000000
                    && final(eco).cell_at(index) == spec_veg_cell(Species::Bushes, c0, st, true))
        }),
{
    apply_individualized_vegetation_event(eco, index, Species::Bushes)
}

/// Coverage and dead-biomass outcome of one grass year on a cell: under
/// stress the cover grows by a tenth of the stress magnitude as dying
/// mass, otherwise by half the vigor; cover above one clamps to one and
/// the excess also dies; all dying cover converts to biomass at one
/// hundred micro-kilograms per part per million.
pub open spec fn spec_grasses_outcome(c0: Cell, vigor: int, stress: int) -> (u64, u64) {
    let coverage = (match c0.grasses {
        Some(g) => g.coverage_density,
        None => 0u64,
    }) as int;
    let grown = if stress < 0 {
        coverage + (-stress) / 10
    } else if vigor > 0 {
        coverage + vigor / 2
    } else {
        coverage
    };
    let dying = if stress < 0 { ((-stress) / 10) * 100 } else { 0int };
    if grown > PPM {
        (PPM as u64, (dying + (grown - PPM) * 100) as u64)
    } else {
        (grown as u64, dying as u64)
    }
}

/// Grass cover kernel: coverage moves by vigor when unstressed, sheds dying
/// mass under stress, clamps at full cover, and disappears at zero; the
/// outcome is exactly `spec_grasses_outcome`. The material layers are
/// untouched (grasses do not run the humus conversion).
pub fn apply_grasses_event(eco: &mut Ecosystem, index: CellIndex) -> (r: Option<
    (Events, CellIndex),
>)
    requires
        old(eco).wf(),
        in_bounds(index),
    ensures
        final(eco).wf(),
        final(eco).wind_state == old(eco).wind_state,
        r is None,
        veg_kernel_post(*old(eco), *final(eco), index, false),
        crate::events::climate_preserved(*old(eco), *final(eco)),
        ({
            let c0 = old(eco).cell_at(index);
            let o = spec_grasses_outcome(
                c0,
                crate::viability::spec_vigor(*old(eco), index, Species::Grasses),
                crate::viability::spec_stress(*old(eco), index, Species::Grasses),
            );
            final(eco).cell_at(index) == (Cell {
                grasses: if o.0 > 0 {
                    Some(Grasses { coverage_density: o.0 })
                } else {
                    None
                },
                dead_vegetation: Some(DeadVegetation {
                    biomass: sat_add_cap(c0.dead_biomass_ukg(), o.1),
                }),
                ..c0
            })
        }),
        final(eco).cell_at(index).grasses matches Some(g) ==> 0 < g.coverage_density <= PPM,
{
    let ghost pre = *eco;
    let (vigor, stress) = compute_vigor_and_stress(eco, index, Species::Grasses);
    let coverage: u64 = match &eco.get_cell(index).grasses {
        Some(g) => g.coverage_density,
        None => 0,
    };
    let mut new_coverage = coverage;
    let mut dead_biomass: u64 = 0;
    if stress < 0 {
        // dying mass: a tenth of the stress magnitude
        let death_coverage = ((-stress) as u64) / 10;
        new_coverage = new_coverage + death_coverage;
        dead_biomass = dead_biomass + death_coverage * 100;
    } else if vigor > 0 {
        // growth: half the vigor
        new_coverage = new_coverage + (vigor as u64) / 2;
    }
    if new_coverage > PPM {
        let excess = new_coverage - PPM;
        new_coverage = PPM;
        dead_biomass = dead_biomass + excess * 100;
    }
    proof {
        lemma_flat_in_range(index);
    }
    let cell = eco.cell_mut(index);
    if new_coverage > 0 {
        cell.grasses = Some(Grasses { coverage_density: new_coverage });
    } else {
        cell.grasses = None;
    }
    cell.add_dead_vegetation(dead_biomass);
    proof {
        lemma_wf_after_update(pre, *eco, index);
        lemma_climate_one_cell(pre, *eco, index);
    }
    None
}

} // verus!
