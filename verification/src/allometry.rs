//! Allometric estimators for plant geometry and mass, after red maple
//! (trees) and rhododendron (bushes) reference equations: diameter from
//! height, crown area, biomass, and the per-cell densities they induce.
//! Each estimator clamps its input to a physically sensible interval so that
//! the fixed-point logarithm and exponential kernels stay in their domains;
//! within those intervals the formulas are exact integer recurrences.

use vstd::prelude::*;
use crate::cell::{Bushes, Cell, Grasses, Trees};
use crate::constants::SUM_CAP;
use crate::math::{exp_s9, ln_s9, mul_wide, spec_exp_s9, spec_ln_s9, lemma_ln_s9_bounds};

verus! {

/// `x` clamped to `[lo, hi]`.
pub open spec fn spec_clamp(x: int, lo: int, hi: int) -> int {
    if x < lo {
        lo
    } else if x > hi {
        hi
    } else {
        x
    }
}

/// `a * num / den` with the division truncated toward zero, as the
/// executable code computes it on signed values.
pub open spec fn spec_scale_signed(a: int, num: int, den: int) -> int {
    if a >= 0 {
        a * num / den
    } else {
        -((-a) * num / den)
    }
}

/// An exponential argument clamped into the kernel's domain.
pub open spec fn spec_exp_arg(a: int) -> int {
    spec_clamp(a, -64000000000, 21000000000)
}

/// Trunk diameter in micro-centimeters of a tree of the given height in
/// micrometers: `d = (h * 10^-0.4)^(5/3)` with height in meters and diameter
/// in centimeters, height clamped to [1 cm, 1000 m].
pub open spec fn spec_diameter_ucm(h_um: int) -> int {
    let h = spec_clamp(h_um, 10000, 1000000000);
    let x = h * 398107171 / 1000000;
    let a = spec_scale_signed(spec_ln_s9(x), 5, 3);
    spec_exp_s9(spec_exp_arg(a)) / 1000
}

/// Crown area in micro-square-meters of a tree with the given trunk
/// diameter in micro-centimeters (clamped to [0, 300 cm]): the crown
/// diameter is quadratic in the trunk diameter, and the crown is a disc.
pub open spec fn spec_tree_crown_area_um2(d_ucm: int) -> int {
    let ds = spec_clamp(d_ucm, 0, 300000000) * 1000;
    let cd = 725450000 + 2537 * ds / 10000 - 123 * (ds * ds / 1000000000) / 100000;
    let cd2 = cd * cd / 1000000000;
    3141592653 * cd2 / 1000000000 / 4 / 1000
}

/// Biomass in micro-kilograms of one tree of the given height in
/// micrometers: `ln(m) = -2.047 + 2.3852 ln(d)`, diameter clamped to
/// [10^-6 cm, 20 m].
pub open spec fn spec_tree_plant_biomass_ukg(h_um: int) -> int {
    let d = spec_clamp(spec_diameter_ucm(h_um), 1, 2000000000);
    let a = spec_scale_signed(spec_ln_s9(d * 1000), 23852, 10000) - 2047000000;
    spec_exp_s9(spec_exp_arg(a)) / 1000
}

/// Total biomass of a tree population: the per-plant biomass at the average
/// height, times the count, saturated at `SUM_CAP`.
pub open spec fn spec_tree_biomass_ukg(count: int, height_sum_um: int) -> int {
    if count == 0 {
        0
    } else {
        let tot = spec_tree_plant_biomass_ukg(height_sum_um / count) * count;
        if tot > SUM_CAP {
            SUM_CAP as int
        } else {
            tot
        }
    }
}

/// Biomass in micro-kilograms of one bush of the given height in
/// micrometers: `ln(m) = -2.635 + 3.614 ln(h)`, height clamped to
/// [1 cm, 100 m].
pub open spec fn spec_bush_plant_biomass_ukg(h_um: int) -> int {
    let h = spec_clamp(h_um, 10000, 100000000);
    let a = spec_scale_signed(spec_ln_s9(h * 1000), 3614, 1000) - 2635000000;
    spec_exp_s9(spec_exp_arg(a)) / 1000
}

/// Total biomass of a bush population, saturated at `SUM_CAP`.
pub open spec fn spec_bush_biomass_ukg(count: int, height_sum_um: int) -> int {
    if count == 0 {
        0
    } else {
        let tot = spec_bush_plant_biomass_ukg(height_sum_um / count) * count;
        if tot > SUM_CAP {
            SUM_CAP as int
        } else {
            tot
        }
    }
}

/// Crown area in micro-square-meters of a bush of the given biomass in
/// micro-kilograms: `ln(area) = (ln(m) + 0.435) / 1.324`, biomass clamped
/// to [10^-5 kg, 10^5 kg].
pub open spec fn spec_bush_crown_area_um2(biomass_ukg: int) -> int {
    let m = spec_clamp(biomass_ukg, 10, 100000000000);
    let a = spec_scale_signed(spec_ln_s9(m * 1000) + 435000000, 1000, 1324);
    spec_exp_s9(spec_exp_arg(a)) / 1000
}

/// Fraction of the cell covered by a tree population, in parts per million
/// (may exceed one million when overpopulated), capped at 10^12.
pub open spec fn spec_tree_density_ppm(count: int, height_sum_um: int) -> int {
    if count == 0 {
        0
    } else {
        let area = spec_tree_crown_area_um2(spec_diameter_ucm(height_sum_um / count));
        spec_clamp(area * count / 100, 0, 1000000000000)
    }
}

/// Fraction of the cell covered by a bush population, in parts per million,
/// capped at 10^12.
pub open spec fn spec_bush_density_ppm(count: int, height_sum_um: int) -> int {
    if count == 0 {
        0
    } else {
        let avg = spec_bush_biomass_ukg(count, height_sum_um) / count;
        let area = spec_bush_crown_area_um2(avg);
        spec_clamp(area * count / 100, 0, 1000000000000)
    }
}

/// Total vegetation density of a cell: tree, bush, and grass coverage.
pub open spec fn spec_vegetation_density_ppm(c: Cell) -> int {
    (match c.trees {
        Some(t) => spec_tree_density_ppm(t.number_of_plants as int, t.plant_height_sum as int),
        None => 0,
    }) + (match c.bushes {
        Some(b) => spec_bush_density_ppm(b.number_of_plants as int, b.plant_height_sum as int),
        None => 0,
    }) + (match c.grasses {
        Some(g) => g.coverage_density as int,
        None => 0,
    })
}

/// `x` clamped to `[lo, hi]`.
fn clamp_u64(x: u64, lo: u64, hi: u64) -> (r: u64)
    requires
        lo <= hi,
    ensures
        r == spec_clamp(x as int, lo as int, hi as int),
        lo <= r <= hi,
{
    if x < lo {
        lo
    } else if x > hi {
        hi
    } else {
        x
    }
}

/// `a` clamped to `[lo, hi]` on signed values.
fn clamp_i64(a: i64, lo: i64, hi: i64) -> (r: i64)
    requires
        lo <= hi,
    ensures
        r == spec_clamp(a as int, lo as int, hi as int),
        lo <= r <= hi,
{
    if a < lo {
        lo
    } else if a > hi {
        hi
    } else {
        a
    }
}

/// `a * num / den` truncated toward zero.
fn scale_signed(a: i64, num: i64, den: i64) -> (r: i64)
    requires
        0 < num <= 100000,
        0 < den <= 100000,
        -60000000000 <= a <= 60000000000,
    ensures
        r == spec_scale_signed(a as int, num as int, den as int),
{
    proof {
        assert(0 <= 60000000000 * num <= 60000000000 * 100000) by (nonlinear_arith)
            requires 0 < num <= 100000;
    }
    if a >= 0 {
        proof {
            assert(0 <= a * num <= 60000000000 * num) by (nonlinear_arith)
                requires 0 <= a <= 60000000000, num > 0;
            vstd::arithmetic::div_mod::lemma_div_pos_is_pos((a * num) as int, den as int);
            vstd::arithmetic::div_mod::lemma_div_is_ordered(
                (a * num) as int, 60000000000 * num, den as int);
            vstd::arithmetic::div_mod::lemma_div_is_ordered_by_denominator(
                60000000000 * num, 1, den as int);
        }
        a * num / den
    } else {
        let na = -a;
        proof {
            assert(0 <= na * num <= 60000000000 * num) by (nonlinear_arith)
                requires 0 <= na <= 60000000000, num > 0;
            vstd::arithmetic::div_mod::lemma_div_pos_is_pos((na * num) as int, den as int);
            vstd::arithmetic::div_mod::lemma_div_is_ordered(
                (na * num) as int, 60000000000 * num, den as int);
            vstd::arithmetic::div_mod::lemma_div_is_ordered_by_denominator(
                60000000000 * num, 1, den as int);
        }
        -(na * num / den)
    }
}

/// The exponential kernel on a clamped argument.
fn exp_clamped(a: i64) -> (r: u64)
    ensures
        r == spec_exp_s9(spec_exp_arg(a as int)),
{
    let c = clamp_i64(a, -64000000000, 21000000000);
    exp_s9(c)
}

impl Trees {
    /// Trunk diameter in micro-centimeters from a tree height in
    /// micrometers.
    pub fn estimate_diameter_from_height(height_um: u64) -> (r: u64)
        ensures
            r == spec_diameter_ucm(height_um as int),
    {
        let h = clamp_u64(height_um, 10000, 1000000000);
        let x: u64 = h * 398107171 / 1000000;
        proof {
            vstd::arithmetic::div_mod::lemma_div_is_ordered(
                3981071710000int, (h * 398107171) as int, 1000000);
            lemma_ln_s9_bounds(x as int);
        }
        let l = ln_s9(x);
        let a = scale_signed(l, 5, 3);
        exp_clamped(a) / 1000
    }

    /// Crown area in micro-square-meters from a trunk diameter in
    /// micro-centimeters.
    pub fn estimate_crown_area_from_diameter(d_ucm: u64) -> (r: u64)
        ensures
            r == spec_tree_crown_area_um2(d_ucm as int),
    {
        let d = clamp_u64(d_ucm, 0, 300000000);
        let ds: i128 = (d as i128) * 1000;
        proof {
            assert(0 <= (ds as int) * (ds as int) <= 300000000000 * 300000000000)
                by (nonlinear_arith)
                requires 0 <= ds as int <= 300000000000;
        }
        let cd: i128 = 725450000 + 2537 * ds / 10000 - 123 * (ds * ds / 1000000000) / 100000;
        proof {
            vstd::arithmetic::div_mod::lemma_div_pos_is_pos(
                ((ds * ds) / 1000000000) as int, 1);
            assert(-200000000000 <= cd as int <= 200000000000);
            assert(0 <= (cd as int) * (cd as int) <= 200000000000 * 200000000000)
                by (nonlinear_arith)
                requires -200000000000 <= cd as int <= 200000000000;
        }
        let cd2: i128 = cd * cd / 1000000000;
        let area: i128 = 3141592653 * cd2 / 1000000000 / 4 / 1000;
        area as u64
    }

    /// Total biomass of this population, in micro-kilograms.
    pub fn estimate_biomass(&self) -> (r: u64)
        requires
            self.number_of_plants > 0,
        ensures
            r == spec_tree_biomass_ukg(
                self.number_of_plants as int, self.plant_height_sum as int),
    {
        let avg = self.plant_height_sum / (self.number_of_plants as u64);
        let d0 = Trees::estimate_diameter_from_height(avg);
        let d = clamp_u64(d0, 1, 2000000000);
        proof {
            lemma_ln_s9_bounds((d * 1000) as int);
        }
        let l = ln_s9(d * 1000);
        let a = scale_signed(l, 23852, 10000);
        let per = exp_clamped(a - 2047000000) / 1000;
        let tot: u128 = mul_wide(per, self.number_of_plants as u64);
        if tot > SUM_CAP as u128 {
            SUM_CAP
        } else {
            tot as u64
        }
    }
}

impl Bushes {
    /// Total biomass of this population, in micro-kilograms.
    pub fn estimate_biomass(&self) -> (r: u64)
        requires
            self.number_of_plants > 0,
        ensures
            r == spec_bush_biomass_ukg(
                self.number_of_plants as int, self.plant_height_sum as int),
    {
        let avg = self.plant_height_sum / (self.number_of_plants as u64);
        let per = Bushes::estimate_plant_biomass(avg);
        let tot: u128 = mul_wide(per, self.number_of_plants as u64);
        if tot > SUM_CAP as u128 {
            SUM_CAP
        } else {
            tot as u64
        }
    }

    /// Biomass of one bush of the given height in micrometers.
    pub fn estimate_plant_biomass(height_um: u64) -> (r: u64)
        ensures
            r == spec_bush_plant_biomass_ukg(height_um as int),
    {
        let h = clamp_u64(height_um, 10000, 100000000);
        proof {
            lemma_ln_s9_bounds((h * 1000) as int);
        }
        let l = ln_s9(h * 1000);
        let a = scale_signed(l, 3614, 1000);
        exp_clamped(a - 2635000000) / 1000
    }

    /// Crown area in micro-square-meters of a bush of the given biomass in
    /// micro-kilograms.
    pub fn estimate_crown_area_from_biomass(biomass_ukg: u64) -> (r: u64)
        ensures
            r == spec_bush_crown_area_um2(biomass_ukg as int),
    {
        let m = clamp_u64(biomass_ukg, 10, 100000000000);
        proof {
            lemma_ln_s9_bounds((m * 1000) as int);
        }
        let l = ln_s9(m * 1000);
        let a = scale_signed(l + 435000000, 1000, 1324);
        exp_clamped(a) / 1000
    }
}

impl Cell {
    /// Coverage density of a tree population, in parts per million.
    pub fn estimate_tree_density(trees: &Trees) -> (r: u64)
        requires
            trees.number_of_plants > 0,
        ensures
            r == spec_tree_density_ppm(
                trees.number_of_plants as int, trees.plant_height_sum as int),
    {
        let avg = trees.plant_height_sum / (trees.number_of_plants as u64);
        let d = Trees::estimate_diameter_from_height(avg);
        let area = Trees::estimate_crown_area_from_diameter(d);
        let dens: u128 = mul_wide(area, trees.number_of_plants as u64) / 100;
        if dens > 1000000000000 {
            1000000000000
        } else {
            dens as u64
        }
    }

    /// Coverage density of a bush population, in parts per million.
    pub fn estimate_bushes_density(bushes: &Bushes) -> (r: u64)
        requires
            bushes.number_of_plants > 0,
        ensures
            r == spec_bush_density_ppm(
                bushes.number_of_plants as int, bushes.plant_height_sum as int),
    {
        let biomass = bushes.estimate_biomass();
        let avg = biomass / (bushes.number_of_plants as u64);
        let area = Bushes::estimate_crown_area_from_biomass(avg);
        let dens: u128 = mul_wide(area, bushes.number_of_plants as u64) / 100;
        if dens > 1000000000000 {
            1000000000000
        } else {
            dens as u64
        }
    }

    /// Total vegetation density of this cell, in parts per million.
    pub fn estimate_vegetation_density(&self) -> (r: u64)
        requires
            self.wf(),
        ensures
            r == spec_vegetation_density_ppm(*self),
    {
        let mut density: u64 = 0;
        if let Some(trees) = &self.trees {
            density = density + Cell::estimate_tree_density(trees);
        }
        if let Some(bushes) = &self.bushes {
            density = density + Cell::estimate_bushes_density(bushes);
        }
        if let Some(grasses) = &self.grasses {
            density = density + grasses.coverage_density;
        }
        density
    }

    /// Biomass of this cell's tree population, 0 when absent.
    pub fn estimate_tree_biomass(&self) -> (r: u64)
        requires
            self.wf(),
        ensures
            r == (match self.trees {
                Some(t) => spec_tree_biomass_ukg(
                    t.number_of_plants as int, t.plant_height_sum as int),
                None => 0,
            }),
    {
        match &self.trees {
            Some(trees) => trees.estimate_biomass(),
            None => 0,
        }
    }

    /// Biomass of this cell's bush population, 0 when absent.
    pub fn estimate_bush_biomass(&self) -> (r: u64)
        requires
            self.wf(),
        ensures
            r == (match self.bushes {
                Some(b) => spec_bush_biomass_ukg(
                    b.number_of_plants as int, b.plant_height_sum as int),
                None => 0,
            }),
    {
        match &self.bushes {
            Some(bushes) => bushes.estimate_biomass(),
            None => 0,
        }
    }
}

impl Grasses {
    /// Dead biomass in micro-kilograms produced by losing the given coverage
    /// fraction of grass: the coverage times the cell area times the grass
    /// density of one kilogram per square meter.
    pub fn estimate_biomass_for_coverage_density(coverage_ppm: u64) -> (r: u64)
        requires
            coverage_ppm <= 100000000,
        ensures
            r == coverage_ppm * 100,
    {
        coverage_ppm * 100
    }
}

} // verus!
