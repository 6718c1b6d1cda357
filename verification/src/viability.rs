//! Plant viability: how hospitable a cell is to a species in a month, as a
//! five-segment piecewise function of temperature, soil moisture and
//! sunlight, combined by the law of the minimum; and the yearly aggregates
//! vigor (mean growing-season viability) and stress (mean of the worst
//! negative monthly viabilities).

use vstd::prelude::*;
use vstd::seq_lib::lemma_sorted_unique;
use vstd::relations::{sorted_by, total_ordering};
use crate::allometry::{spec_bush_density_ppm, spec_tree_density_ppm};
use crate::cell::Cell;
use crate::constants::{AVERAGE_MONTHLY_TEMPERATURES, AVERAGE_SUNLIGHT_HOURS};
use crate::ecosystem::Ecosystem;
use crate::geometry::spec_div_trunc;
use crate::grid::{in_bounds, CellIndex};

verus! {

/// The species whose viability the kernels evaluate.
#[derive(PartialEq, Eq, Structural, Clone, Copy, Debug)]
pub enum Species {
    Trees,
    Bushes,
    Grasses,
}

/// The five-segment viability profile: -1 outside the survivable limits,
/// 1 across the ideal range, linear ramps between, at scale one million.
/// The segments are tested in order, as the environmental value rises.
pub open spec fn spec_piecewise(v: int, lmin: int, imin: int, imax: int, lmax: int) -> int {
    if v < lmin {
        -1000000
    } else if v < imin {
        (v - lmin) * 1000000 / (imin - lmin)
    } else if v <= imax {
        1000000
    } else if v <= lmax {
        (lmax - v) * 1000000 / (lmax - imax)
    } else {
        -1000000
    }
}

/// Temperature knots per species, in microdegrees Celsius:
/// (limit min, ideal min, ideal max, limit max).
pub open spec fn spec_temp_knots(s: Species) -> (int, int, int, int) {
    match s {
        Species::Trees => (-10000000, 0, 35000000, 38000000),
        Species::Bushes => (-30000000, 4000000, 16000000, 30000000),
        Species::Grasses => (-5000000, 20000000, 30000000, 38000000),
    }
}

/// Moisture knots per species, as fractions in parts per million.
pub open spec fn spec_moisture_knots(s: Species) -> (int, int, int, int) {
    match s {
        Species::Trees => (100000, 200000, 400000, 800000),
        Species::Bushes => (200000, 400000, 600000, 800000),
        Species::Grasses => (200000, 400000, 600000, 800000),
    }
}

/// Illumination knots per species, in micro-hours of daily sunlight.
pub open spec fn spec_illum_knots(s: Species) -> (int, int, int, int) {
    match s {
        Species::Trees => (4000000, 6000000, 10000000, 14000000),
        Species::Bushes => (2000000, 4000000, 6000000, 12000000),
        Species::Grasses => (4000000, 6000000, 8000000, 12000000),
    }
}

/// The moisture fraction of a cell in a month, in parts per million: the
/// month's share of resident water over the water capacity of the humus
/// layer, 0 with no humus, capped at ten million.
pub open spec fn spec_moisture_fraction(c: Cell, month: int) -> int {
    let monthly = c.soil_moisture * crate::constants::AVERAGE_MONTHLY_RAINFALL[month]
        / (crate::constants::ANNUAL_RAINFALL as int);
    if c.humus_um() == 0 {
        0
    } else {
        let f = monthly * 10000 / (c.humus_um() as int);
        if f > 10000000 {
            10000000
        } else {
            f
        }
    }
}

/// How much of the cell's sunlight reaches the species, in parts per
/// million: trees take full light, bushes lose light under a tree canopy,
/// grasses under both taller layers.
pub open spec fn spec_illum_modifier(c: Cell, s: Species) -> int {
    match s {
        Species::Trees => 1000000,
        Species::Bushes => match c.trees {
            Some(t) => spec_tree_density_ppm(
                t.number_of_plants as int, t.plant_height_sum as int) / 2,
            None => 1000000,
        },
        Species::Grasses => {
            let m1 = match c.trees {
                Some(t) => spec_tree_density_ppm(
                    t.number_of_plants as int, t.plant_height_sum as int) / 2,
                None => 1000000,
            };
            match c.bushes {
                Some(b) => m1 * (spec_bush_density_ppm(
                    b.number_of_plants as int, b.plant_height_sum as int) / 2) / 1000000,
                None => m1,
            }
        },
    }
}

/// Monthly temperature viability of a species at a cell.
pub open spec fn spec_temperature_viability(
    eco: Ecosystem,
    i: CellIndex,
    s: Species,
    month: int,
) -> int {
    let t = AVERAGE_MONTHLY_TEMPERATURES[month] - eco.cell_at(i).height_um() * 13 / 2000;
    let k = spec_temp_knots(s);
    spec_piecewise(t, k.0, k.1, k.2, k.3)
}

/// Monthly moisture viability of a species at a cell.
pub open spec fn spec_moisture_viability(
    eco: Ecosystem,
    i: CellIndex,
    s: Species,
    month: int,
) -> int {
    let k = spec_moisture_knots(s);
    spec_piecewise(spec_moisture_fraction(eco.cell_at(i), month), k.0, k.1, k.2, k.3)
}

/// Monthly illumination viability of a species at a cell, using the climate
/// table's average sunlight hours shaded by taller vegetation layers.
pub open spec fn spec_illumination_viability(
    eco: Ecosystem,
    i: CellIndex,
    s: Species,
    month: int,
) -> int {
    let light = AVERAGE_SUNLIGHT_HOURS[month]
        * spec_illum_modifier(eco.cell_at(i), s) / 1000000;
    let k = spec_illum_knots(s);
    spec_piecewise(light, k.0, k.1, k.2, k.3)
}

/// Monthly viability: the worst of the three environmental viabilities.
#[verifier::opaque]
pub open spec fn spec_viability(eco: Ecosystem, i: CellIndex, s: Species, month: int) -> int {
    let t = spec_temperature_viability(eco, i, s, month);
    let m = spec_moisture_viability(eco, i, s, month);
    let l = spec_illumination_viability(eco, i, s, month);
    if t <= m && t <= l {
        t
    } else if m <= l {
        m
    } else {
        l
    }
}

/// Vigor: the mean monthly viability across the growing season (the eight
/// months whose table temperature exceeds five degrees).
pub open spec fn spec_vigor(eco: Ecosystem, i: CellIndex, s: Species) -> int {
    spec_div_trunc(
        spec_viability(eco, i, s, 3) + spec_viability(eco, i, s, 4)
            + spec_viability(eco, i, s, 5) + spec_viability(eco, i, s, 6)
            + spec_viability(eco, i, s, 7) + spec_viability(eco, i, s, 8)
            + spec_viability(eco, i, s, 9) + spec_viability(eco, i, s, 10),
        8,
    )
}

/// The twelve monthly viabilities, in month order.
pub open spec fn spec_viabilities(eco: Ecosystem, i: CellIndex, s: Species) -> Seq<i64> {
    Seq::new(12, |m: int| spec_viability(eco, i, s, m) as i64)
}

/// The negative entries of a sequence, kept in order.
pub open spec fn spec_negatives(s: Seq<i64>) -> Seq<i64>
    decreases s.len(),
{
    if s.len() == 0 {
        Seq::empty()
    } else {
        let rest = spec_negatives(s.subrange(1, s.len() as int));
        if s[0] < 0 {
            seq![s[0]] + rest
        } else {
            rest
        }
    }
}

/// Sum of the first `k` entries of a sequence.
pub open spec fn spec_prefix_sum(s: Seq<i64>, k: int) -> int
    decreases k,
{
    if k <= 0 || s.len() == 0 {
        0
    } else if k > s.len() {
        spec_prefix_sum(s, s.len() as int)
    } else {
        s[k - 1] + spec_prefix_sum(s, k - 1)
    }
}

/// Stress of a sequence of monthly viabilities: zero when no month is
/// hostile; otherwise the mean of the (at most four) most negative
/// entries.
pub open spec fn spec_stress_seq(vs: Seq<i64>) -> int {
    let negs = spec_negatives(vs);
    if negs.len() == 0 {
        0
    } else {
        let sorted = negs.sort_by(|a: i64, b: i64| a <= b);
        let k = if negs.len() < 4 { negs.len() as int } else { 4 };
        spec_div_trunc(spec_prefix_sum(sorted, k), k)
    }
}

/// Stress of a species at a cell.
pub open spec fn spec_stress(eco: Ecosystem, i: CellIndex, s: Species) -> int {
    spec_stress_seq(spec_viabilities(eco, i, s))
}

/// Evaluates a viability profile. The two outer segments sit at minus one
/// million; the ideal plateau at one million; the ramps stay within.
pub fn compute_piecewise(v: i64, lmin: i64, imin: i64, imax: i64, lmax: i64) -> (r: i64)
    requires
        -1000000000000000000 <= v <= 1000000000000000000,
        -100000000 <= lmin < imin <= 100000000,
        -100000000 <= imax < lmax <= 100000000,
    ensures
        r == spec_piecewise(v as int, lmin as int, imin as int, imax as int, lmax as int),
        -1000000 <= r <= 1000000,
{
    if v < lmin {
        -1000000
    } else if v < imin {
        let d = imin - lmin;
        proof {
            assert((v - lmin) * 1000000 < d * 1000000) by (nonlinear_arith)
                requires v - lmin < d;
            assert(0 <= (v - lmin) * 1000000) by (nonlinear_arith) requires v >= lmin;
            vstd::arithmetic::div_mod::lemma_multiply_divide_lt(
                ((v - lmin) as int) * 1000000, d as int, 1000000);
            vstd::arithmetic::div_mod::lemma_div_pos_is_pos(
                ((v - lmin) as int) * 1000000, d as int);
        }
        (v - lmin) * 1000000 / d
    } else if v <= imax {
        1000000
    } else if v <= lmax {
        let d = lmax - imax;
        proof {
            assert((lmax - v) * 1000000 < d * 1000000) by (nonlinear_arith)
                requires lmax - v < d;
            assert(0 <= (lmax - v) * 1000000) by (nonlinear_arith) requires v <= lmax;
            vstd::arithmetic::div_mod::lemma_multiply_divide_lt(
                ((lmax - v) as int) * 1000000, d as int, 1000000);
            vstd::arithmetic::div_mod::lemma_div_pos_is_pos(
                ((lmax - v) as int) * 1000000, d as int);
        }
        (lmax - v) * 1000000 / d
    } else {
        -1000000
    }
}

/// The viability profile meets its ideal plateau exactly at both ideal
/// knots, steps by at most one ramp unit just outside them, and sits at
/// exactly minus one on the outer plateaus and exactly one across the
/// ideal range.
pub proof fn lemma_viability_profile(lmin: int, imin: int, imax: int, lmax: int, v: int)
    requires
        lmin < imin <= imax < lmax,
    ensures
        spec_piecewise(imin, lmin, imin, imax, lmax) == 1000000,
        spec_piecewise(imax, lmin, imin, imax, lmax) == 1000000,
        v < lmin ==> spec_piecewise(v, lmin, imin, imax, lmax) == -1000000,
        v > lmax ==> spec_piecewise(v, lmin, imin, imax, lmax) == -1000000,
        imin <= v <= imax ==> spec_piecewise(v, lmin, imin, imax, lmax) == 1000000,
        v == imin - 1 && v >= lmin
            ==> 1000000 - spec_piecewise(v, lmin, imin, imax, lmax)
                <= 1000000int / (imin - lmin) + 1,
        v == imax + 1 && v <= lmax
            ==> 1000000 - spec_piecewise(v, lmin, imin, imax, lmax)
                <= 1000000int / (lmax - imax) + 1,
{
    if v == imin - 1 && v >= lmin {
        let d = imin - lmin;
        lemma_ramp_step(d);
        assert(spec_piecewise(v, lmin, imin, imax, lmax) == (d - 1) * 1000000 / d);
    }
    if v == imax + 1 && v <= lmax {
        let d = lmax - imax;
        lemma_ramp_step(d);
        assert(spec_piecewise(v, lmin, imin, imax, lmax) == (d - 1) * 1000000 / d);
    }
}

/// One step down a ramp of width `d` loses at most `10^6 / d` plus one.
proof fn lemma_ramp_step(d: int)
    requires
        d >= 1,
    ensures
        1000000 - (d - 1) * 1000000 / d <= 1000000int / d + 1,
{
    let a = (d - 1) * 1000000;
    vstd::arithmetic::div_mod::lemma_fundamental_div_mod(a, d);
    vstd::arithmetic::div_mod::lemma_fundamental_div_mod(1000000, d);
    let q = a / d;
    let ra = a % d;
    let p = 1000000int / d;
    let rp = 1000000int % d;
    assert(a == d * 1000000 - 1000000) by (nonlinear_arith)
        requires a == (d - 1) * 1000000;
    assert(d * q == d * 1000000 - d * p - rp - ra);
    assert(q >= 1000000 - p - 1) by (nonlinear_arith)
        requires
            d * q == d * 1000000 - d * p - rp - ra,
            0 <= ra < d,
            0 <= rp < d,
            d >= 1,
    ;
}

/// Evaluates the temperature viability of a species at a cell for a month.
pub fn compute_temperature_viability(
    eco: &Ecosystem,
    index: CellIndex,
    s: Species,
    month: usize,
) -> (r: i64)
    requires
        eco.wf(),
        in_bounds(index),
        month < 12,
    ensures
        r == spec_temperature_viability(*eco, index, s, month as int),
        -1000000 <= r <= 1000000,
{
    let t = eco.get_cell(index).get_monthly_temperature(month);
    let (lmin, imin, imax, lmax) = temp_knots(s);
    proof {
        crate::ecosystem::lemma_cell_height_bound(eco.cell_at(index));
    }
    compute_piecewise(t, lmin, imin, imax, lmax)
}

/// Evaluates the moisture viability of a species at a cell for a month.
pub fn compute_moisture_viability(
    eco: &Ecosystem,
    index: CellIndex,
    s: Species,
    month: usize,
) -> (r: i64)
    requires
        eco.wf(),
        in_bounds(index),
        month < 12,
    ensures
        r == spec_moisture_viability(*eco, index, s, month as int),
        -1000000 <= r <= 1000000,
{
    let cell = eco.get_cell(index);
    let monthly = cell.get_monthly_soil_moisture(month);
    let humus = cell.get_humus_height();
    let f: i64 = if humus == 0 {
        0
    } else {
        let raw: u128 = (monthly as u128) * 10000 / (humus as u128);
        if raw > 10000000 {
            10000000
        } else {
            raw as i64
        }
    };
    let (lmin, imin, imax, lmax) = moisture_knots(s);
    compute_piecewise(f, lmin, imin, imax, lmax)
}

/// Evaluates the illumination viability of a species at a cell for a month.
pub fn compute_illumination_viability(
    eco: &Ecosystem,
    index: CellIndex,
    s: Species,
    month: usize,
) -> (r: i64)
    requires
        eco.wf(),
        in_bounds(index),
        month < 12,
    ensures
        r == spec_illumination_viability(*eco, index, s, month as int),
        -1000000 <= r <= 1000000,
{
    let cell = eco.get_cell(index);
    let modifier: u128 = match s {
        Species::Trees => 1000000,
        Species::Bushes => match &cell.trees {
            Some(t) => (Cell::estimate_tree_density(t) / 2) as u128,
            None => 1000000,
        },
        Species::Grasses => {
            let m1: u128 = match &cell.trees {
                Some(t) => (Cell::estimate_tree_density(t) / 2) as u128,
                None => 1000000,
            };
            match &cell.bushes {
                Some(b) => {
                    let bd: u128 = (Cell::estimate_bushes_density(b) / 2) as u128;
                    proof {
                        assert(m1 * bd <= 500000000000u128 * 500000000000u128)
                            by (nonlinear_arith)
                            requires 0 <= m1 <= 500000000000u128, 0 <= bd <= 500000000000u128;
                    }
                    m1 * bd / 1000000
                },
                None => m1,
            }
        },
    };
    proof {
        assert((AVERAGE_SUNLIGHT_HOURS[month as int] as u128) * modifier
            <= 11250000u128 * 250000000000000000u128) by (nonlinear_arith)
            requires
                AVERAGE_SUNLIGHT_HOURS[month as int] <= 11250000,
                0 <= modifier <= 250000000000000000u128,
        ;
    }
    let light128: u128 = (AVERAGE_SUNLIGHT_HOURS[month] as u128) * modifier / 1000000;
    let light: i64 = if light128 > 1000000000000000000 {
        1000000000000000000
    } else {
        light128 as i64
    };
    proof {
        if light128 > 1000000000000000000 {
            assert(spec_piecewise(light128 as int, spec_illum_knots(s).0, spec_illum_knots(s).1,
                spec_illum_knots(s).2, spec_illum_knots(s).3) == -1000000);
        }
    }
    let (lmin, imin, imax, lmax) = illum_knots(s);
    compute_piecewise(light, lmin, imin, imax, lmax)
}

/// Evaluates the overall viability: the worst of the three.
pub fn compute_viability(eco: &Ecosystem, index: CellIndex, s: Species, month: usize) -> (r: i64)
    requires
        eco.wf(),
        in_bounds(index),
        month < 12,
    ensures
        r == spec_viability(*eco, index, s, month as int),
        -1000000 <= r <= 1000000,
{
    proof {
        reveal(spec_viability);
    }
    let t = compute_temperature_viability(eco, index, s, month);
    let m = compute_moisture_viability(eco, index, s, month);
    let l = compute_illumination_viability(eco, index, s, month);
    if t <= m && t <= l {
        t
    } else if m <= l {
        m
    } else {
        l
    }
}

/// Temperature knots of a species.
fn temp_knots(s: Species) -> (r: (i64, i64, i64, i64))
    ensures
        (r.0 as int, r.1 as int, r.2 as int, r.3 as int) == spec_temp_knots(s),
        -100000000 <= r.0 < r.1 <= 100000000,
        -100000000 <= r.2 < r.3 <= 100000000,
{
    match s {
        Species::Trees => (-10000000, 0, 35000000, 38000000),
        Species::Bushes => (-30000000, 4000000, 16000000, 30000000),
        Species::Grasses => (-5000000, 20000000, 30000000, 38000000),
    }
}

/// Moisture knots of a species.
fn moisture_knots(s: Species) -> (r: (i64, i64, i64, i64))
    ensures
        (r.0 as int, r.1 as int, r.2 as int, r.3 as int) == spec_moisture_knots(s),
        -100000000 <= r.0 < r.1 <= 100000000,
        -100000000 <= r.2 < r.3 <= 100000000,
{
    match s {
        Species::Trees => (100000, 200000, 400000, 800000),
        Species::Bushes => (200000, 400000, 600000, 800000),
        Species::Grasses => (200000, 400000, 600000, 800000),
    }
}

/// Illumination knots of a species.
fn illum_knots(s: Species) -> (r: (i64, i64, i64, i64))
    ensures
        (r.0 as int, r.1 as int, r.2 as int, r.3 as int) == spec_illum_knots(s),
        -100000000 <= r.0 < r.1 <= 100000000,
        -100000000 <= r.2 < r.3 <= 100000000,
{
    match s {
        Species::Trees => (4000000, 6000000, 10000000, 14000000),
        Species::Bushes => (2000000, 4000000, 6000000, 12000000),
        Species::Grasses => (4000000, 6000000, 8000000, 12000000),
    }
}

/// Splitting off the last element of a sequence splits its negatives.
proof fn lemma_negatives_snoc(s: Seq<i64>, x: i64)
    ensures
        spec_negatives(s.push(x)) == spec_negatives(s)
            + (if x < 0 { seq![x] } else { Seq::<i64>::empty() }),
    decreases s.len(),
{
    let sp = s.push(x);
    assert(sp.len() == s.len() + 1);
    if s.len() == 0 {
        let e = sp.subrange(1, sp.len() as int);
        assert(e =~= Seq::<i64>::empty());
        assert(spec_negatives(e) == Seq::<i64>::empty());
        assert(sp[0] == x);
        assert(spec_negatives(s) == Seq::<i64>::empty());
        if x < 0 {
            assert(spec_negatives(sp) == seq![x] + spec_negatives(e));
            assert(spec_negatives(sp) =~= spec_negatives(s) + seq![x]);
        } else {
            assert(spec_negatives(sp) == spec_negatives(e));
            assert(spec_negatives(sp) =~= spec_negatives(s) + Seq::<i64>::empty());
        }
    } else {
        let rest = s.subrange(1, s.len() as int);
        assert(sp[0] == s[0]);
        assert(sp.subrange(1, sp.len() as int) =~= rest.push(x));
        lemma_negatives_snoc(rest, x);
        if s[0] < 0 {
            assert(spec_negatives(sp) =~= spec_negatives(s)
                + (if x < 0 { seq![x] } else { Seq::<i64>::empty() }));
        } else {
            assert(spec_negatives(sp) =~= spec_negatives(s)
                + (if x < 0 { seq![x] } else { Seq::<i64>::empty() }));
        }
    }
}

/// Sorts in ascending order by selection, preserving the multiset of
/// entries.
fn sort_i64(v: &mut Vec<i64>)
    ensures
        final(v)@.len() == old(v)@.len(),
        final(v)@.to_multiset() == old(v)@.to_multiset(),
        sorted_by(final(v)@, |a: i64, b: i64| a <= b),
{
    let n = v.len();
    let mut i: usize = 0;
    while i < n
        invariant
            v@.len() == n == old(v)@.len(),
            v@.to_multiset() == old(v)@.to_multiset(),
            i <= n,
            forall|a: int, b: int| 0 <= a < b < i ==> v@[a] <= v@[b],
            forall|a: int, b: int| 0 <= a < i && i <= b < n ==> v@[a] <= v@[b],
        decreases n - i,
    {
        let mut m: usize = i;
        let mut k: usize = i + 1;
        while k < n
            invariant
                v@.len() == n,
                i <= m < k,
                k <= n,
                forall|t: int| i <= t < k ==> v@[m as int] <= v@[t],
            decreases n - k,
        {
            if v[k] < v[m] {
                m = k;
            }
            k += 1;
        }
        if m != i {
            let ghost before = v@;
            let vi = v[i];
            let vm = v[m];
            v[i] = vm;
            v[m] = vi;
            proof {
                broadcast use vstd::seq_lib::group_to_multiset_ensures;
                vstd::seq_lib::to_multiset_update(before, i as int, vm);
                vstd::seq_lib::to_multiset_update(before.update(i as int, vm), m as int, vi);
                assert(v@ =~= before.update(i as int, vm).update(m as int, vi));
                assert(v@.to_multiset() =~= before.to_multiset());
            }
        }
        i += 1;
    }
}

/// The twelve monthly viabilities of a species at a cell, in month order.
fn monthly_viabilities(eco: &Ecosystem, index: CellIndex, s: Species) -> (r: Vec<i64>)
    requires
        eco.wf(),
        in_bounds(index),
    ensures
        r@ == spec_viabilities(*eco, index, s),
        r@.len() == 12,
        forall|mm: int| 0 <= mm < 12 ==> -1000000 <= #[trigger] r@[mm] <= 1000000,
{
    let mut viabs: Vec<i64> = Vec::new();
    let mut m: usize = 0;
    while m < 12
        invariant
            eco.wf(),
            in_bounds(index),
            viabs@.len() == m,
            m <= 12,
            forall|mm: int| 0 <= mm < m ==> #[trigger] viabs@[mm]
                == spec_viability(*eco, index, s, mm) as i64,
            forall|mm: int| 0 <= mm < m ==> -1000000 <= #[trigger] viabs@[mm] <= 1000000,
        decreases 12 - m,
    {
        let value = compute_viability(eco, index, s, m);
        viabs.push(value);
        m += 1;
    }
    proof {
        assert(viabs@ =~= spec_viabilities(*eco, index, s));
    }
    viabs
}

/// Computes the stress aggregate of twelve monthly viabilities, exactly as
/// `spec_stress_seq` defines it.
#[verifier::rlimit(60)]
fn stress_of(viabs: &Vec<i64>) -> (r: i64)
    requires
        viabs@.len() == 12,
        forall|mm: int| 0 <= mm < 12 ==> -1000000 <= #[trigger] viabs@[mm] <= 1000000,
    ensures
        r == spec_stress_seq(viabs@),
        -1000000 <= r <= 0,
{
    let ghost leq = |a: i64, b: i64| a <= b;
    let mut negs: Vec<i64> = Vec::new();
    let mut m2: usize = 0;
    while m2 < 12
        invariant
            viabs@.len() == 12,
            forall|mm: int| 0 <= mm < 12 ==> -1000000 <= #[trigger] viabs@[mm] <= 1000000,
            m2 <= 12,
            negs@ == spec_negatives(viabs@.take(m2 as int)),
            negs@.len() <= m2,
            forall|t: int| 0 <= t < negs@.len() ==> -1000000 <= #[trigger] negs@[t] < 0,
        decreases 12 - m2,
    {
        proof {
            assert(viabs@.take(m2 as int).push(viabs@[m2 as int]) =~= viabs@.take(m2 + 1));
            lemma_negatives_snoc(viabs@.take(m2 as int), viabs@[m2 as int]);
        }
        let x = viabs[m2];
        if x < 0 {
            negs.push(x);
        }
        m2 += 1;
    }
    proof {
        assert(viabs@.take(12) =~= viabs@);
    }
    if negs.len() == 0 {
        return 0;
    }
    let count = negs.len();
    let ghost negs_pre = negs@;
    sort_i64(&mut negs);
    proof {
        negs_pre.lemma_sort_by_ensures(leq);
        assert(total_ordering(leq));
        lemma_sorted_unique(negs@, negs_pre.sort_by(leq), leq);
        assert(negs@ == spec_negatives(viabs@).sort_by(leq));
        broadcast use vstd::seq_lib::group_to_multiset_ensures;
        assert forall|tt: int| 0 <= tt < negs@.len()
            implies -1000000 <= #[trigger] negs@[tt] < 0 by {
            assert(negs@.contains(negs@[tt]));
            assert(negs@.to_multiset().count(negs@[tt]) > 0);
            assert(negs_pre.to_multiset().count(negs@[tt]) > 0);
            assert(negs_pre.contains(negs@[tt]));
        }
    }
    let k: usize = if count < 4 {
        count
    } else {
        4
    };
    let mut acc: i64 = 0;
    let mut t: usize = 0;
    while t < k
        invariant
            negs@.len() == count,
            t <= k <= count,
            k <= 4,
            forall|tt: int| 0 <= tt < count ==> -1000000 <= #[trigger] negs@[tt] <= 0,
            acc == spec_prefix_sum(negs@, t as int),
            -1000000 * t <= acc <= 0,
        decreases k - t,
    {
        acc = acc + negs[t];
        t += 1;
    }
    proof {
        assert(-acc <= 1000000 * (k as int));
        vstd::arithmetic::div_mod::lemma_div_by_multiple(1000000, k as int);
        vstd::arithmetic::div_mod::lemma_div_is_ordered(
            (-acc) as int, 1000000 * (k as int), k as int);
        vstd::arithmetic::div_mod::lemma_div_pos_is_pos((-acc) as int, k as int);
    }
    -((-acc) / (k as i64))
}

/// Computes the vigor and stress of a species at a cell, exactly as
/// `spec_vigor` and `spec_stress` define them.
#[verifier::rlimit(100)]
#[verifier::spinoff_prover]
pub fn compute_vigor_and_stress(eco: &Ecosystem, index: CellIndex, s: Species) -> (r: (i64, i64))
    requires
        eco.wf(),
        in_bounds(index),
    ensures
        r.0 == spec_vigor(*eco, index, s),
        r.1 == spec_stress(*eco, index, s),
        -1000000 <= r.0 <= 1000000,
        -1000000 <= r.1 <= 0,
{
    let viabs = monthly_viabilities(eco, index, s);
    proof {
        lemma_viability_bounds(*eco, index, s, 3);
        lemma_viability_bounds(*eco, index, s, 4);
        lemma_viability_bounds(*eco, index, s, 5);
        lemma_viability_bounds(*eco, index, s, 6);
        lemma_viability_bounds(*eco, index, s, 7);
        lemma_viability_bounds(*eco, index, s, 8);
        lemma_viability_bounds(*eco, index, s, 9);
        lemma_viability_bounds(*eco, index, s, 10);
    }
    let sum: i64 = viabs[3] + viabs[4] + viabs[5] + viabs[6] + viabs[7] + viabs[8] + viabs[9]
        + viabs[10];
    let vigor: i64 = if sum >= 0 {
        sum / 8
    } else {
        -((-sum) / 8)
    };
    proof {
        vstd::arithmetic::div_mod::lemma_div_is_ordered(
            (if sum >= 0 { sum as int } else { -(sum as int) }), 8000000, 8);
        vstd::arithmetic::div_mod::lemma_div_pos_is_pos(
            (if sum >= 0 { sum as int } else { -(sum as int) }), 8);
    }
    let stress = stress_of(&viabs);
    (vigor, stress)
}

/// Every viability profile value lies within one unit of scale.
pub proof fn lemma_piecewise_bounds(v: int, lmin: int, imin: int, imax: int, lmax: int)
    requires
        lmin < imin,
        imax < lmax,
    ensures
        -1000000 <= spec_piecewise(v, lmin, imin, imax, lmax) <= 1000000,
{
    if lmin <= v && v < imin {
        assert((v - lmin) * 1000000 < (imin - lmin) * 1000000) by (nonlinear_arith)
            requires v - lmin < imin - lmin;
        assert(0 <= (v - lmin) * 1000000) by (nonlinear_arith) requires v >= lmin;
        vstd::arithmetic::div_mod::lemma_multiply_divide_lt(
            (v - lmin) * 1000000, imin - lmin, 1000000);
        vstd::arithmetic::div_mod::lemma_div_pos_is_pos((v - lmin) * 1000000, imin - lmin);
    }
    if imax < v && v <= lmax {
        assert((lmax - v) * 1000000 < (lmax - imax) * 1000000) by (nonlinear_arith)
            requires lmax - v < lmax - imax;
        assert(0 <= (lmax - v) * 1000000) by (nonlinear_arith) requires v <= lmax;
        vstd::arithmetic::div_mod::lemma_multiply_divide_lt(
            (lmax - v) * 1000000, lmax - imax, 1000000);
        vstd::arithmetic::div_mod::lemma_div_pos_is_pos((lmax - v) * 1000000, lmax - imax);
    }
}

/// A monthly viability lies within one unit of scale.
pub proof fn lemma_viability_bounds(eco: Ecosystem, i: CellIndex, s: Species, month: int)
    ensures
        -1000000 <= spec_viability(eco, i, s, month) <= 1000000,
{
    reveal(spec_viability);
    let kt = spec_temp_knots(s);
    let km = spec_moisture_knots(s);
    let kl = spec_illum_knots(s);
    lemma_piecewise_bounds(
        crate::constants::AVERAGE_MONTHLY_TEMPERATURES[month]
            - eco.cell_at(i).height_um() * 13 / 2000, kt.0, kt.1, kt.2, kt.3);
    lemma_piecewise_bounds(spec_moisture_fraction(eco.cell_at(i), month), km.0, km.1, km.2, km.3);
    lemma_piecewise_bounds(
        crate::constants::AVERAGE_SUNLIGHT_HOURS[month]
            * spec_illum_modifier(eco.cell_at(i), s) / 1000000, kl.0, kl.1, kl.2, kl.3);
}

} // verus!