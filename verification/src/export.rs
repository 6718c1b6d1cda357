//! Map rendering into plain pixel buffers: grayscale heights, hypsometric
//! tints, vegetation channels, and the standard soil/grass color mix. The
//! buffers are RGB byte triples; writing them to image files happens
//! outside the verified library.

use vstd::prelude::*;
use crate::cell::Cell;
use crate::constants::{AREA_SIDE_LENGTH, NUM_CELLS};
use crate::ecosystem::{flat_of, Ecosystem};
use crate::grid::CellIndex;
use crate::math::{exp_s9, spec_exp_s9};
use crate::wind::{spec_hmin, spec_hrange};

verus! {

/// Converts an (x, y) cell position to its flat buffer index.
pub fn get_flat_index(x: i32, y: i32) -> (r: i32)
    requires
        0 <= x < AREA_SIDE_LENGTH,
        0 <= y < AREA_SIDE_LENGTH,
    ensures
        r == y * AREA_SIDE_LENGTH + x,
{
    proof {
        assert((y as int) * (AREA_SIDE_LENGTH as int) <= 255 * 256) by (nonlinear_arith)
            requires y <= 255, AREA_SIDE_LENGTH == 256;
        assert((y as int) * (AREA_SIDE_LENGTH as int) >= 0) by (nonlinear_arith)
            requires y >= 0;
    }
    y * (AREA_SIDE_LENGTH as i32) + x
}

/// The gray byte of one cell in the height map: the height scaled into
/// [0, 255] over the grid's current range.
pub open spec fn spec_height_gray(cells: Seq<Cell>, k: int) -> u8 {
    let mn = spec_hmin(cells, NUM_CELLS as int);
    let range = spec_hrange(cells);
    let h = cells[k].height_um();
    if range == 0 || h < mn {
        0u8
    } else {
        let scaled = (h - mn) * 256 / range;
        if scaled > 255 { 255u8 } else { scaled as u8 }
    }
}

/// A grayscale height map: each cell's height normalized into [0, 255] by
/// the current minimum and maximum, written as an RGB triple.
pub fn build_height_map(eco: &Ecosystem) -> (r: Vec<u8>)
    requires
        eco.wf(),
    ensures
        r@.len() == NUM_CELLS * 3,
        forall|k: int| 0 <= k < NUM_CELLS ==> {
            let g = spec_height_gray(eco.cells@, k);
            &&& (#[trigger] r@[3 * k]) == g
            &&& r@[3 * k + 1] == g
            &&& r@[3 * k + 2] == g
        },
{
    let ghost cells0 = eco.cells@;
    let mut heights: Vec<u64> = Vec::new();
    let mut min_h: u64 = 0xffffffffffffffff;
    let mut max_h: u64 = 0;
    let mut k0: usize = 0;
    while k0 < NUM_CELLS
        invariant
            eco.wf(),
            cells0 == eco.cells@,
            heights@.len() == k0,
            k0 <= NUM_CELLS,
            forall|j: int| 0 <= j < k0 ==> #[trigger] heights@[j] == cells0[j].height_um(),
            min_h == spec_hmin(cells0, k0 as int),
            max_h == crate::wind::spec_hmax(cells0, k0 as int),
            max_h <= 0x8000000000000000,
        decreases NUM_CELLS - k0,
    {
        let index = CellIndex::get_from_flat_index(k0);
        proof {
            crate::ecosystem::lemma_cell_height_bound(eco.cell_at(index));
            assert(flat_of(index) == k0);
        }
        let h = eco.height_at(index);
        if h < min_h {
            min_h = h;
        }
        if h > max_h {
            max_h = h;
        }
        heights.push(h);
        k0 += 1;
    }
    let range: u64 = if max_h > min_h {
        max_h - min_h
    } else {
        0
    };
    proof {
        assert(range == spec_hrange(cells0));
    }
    let mut buffer: Vec<u8> = Vec::new();
    let mut k: usize = 0;
    while k < NUM_CELLS
        invariant
            heights@.len() == NUM_CELLS,
            forall|j: int| 0 <= j < NUM_CELLS ==> #[trigger] heights@[j]
                == cells0[j].height_um(),
            min_h == spec_hmin(cells0, NUM_CELLS as int),
            range == spec_hrange(cells0),
            buffer@.len() == 3 * k,
            k <= NUM_CELLS,
            range <= 0x8000000000000000,
            forall|j: int| 0 <= j < k ==> {
                let g = spec_height_gray(cells0, j);
                &&& (#[trigger] buffer@[3 * j]) == g
                &&& buffer@[3 * j + 1] == g
                &&& buffer@[3 * j + 2] == g
            },
        decreases NUM_CELLS - k,
    {
        let h = heights[k];
        let p: u8 = if range == 0 || h < min_h {
            0
        } else {
            let scaled = ((h - min_h) as u128) * 256 / (range as u128);
            if scaled > 255 {
                255
            } else {
                scaled as u8
            }
        };
        let ghost prior = buffer@;
        buffer.push(p);
        buffer.push(p);
        buffer.push(p);
        proof {
            assert(p == spec_height_gray(cells0, k as int));
            assert forall|j: int| 0 <= j < k + 1 implies {
                let g = spec_height_gray(cells0, j);
                &&& (#[trigger] buffer@[3 * j]) == g
                &&& buffer@[3 * j + 1] == g
                &&& buffer@[3 * j + 2] == g
            } by {
                if j < k {
                    assert(buffer@[3 * j] == prior[3 * j]);
                    assert(buffer@[3 * j + 1] == prior[3 * j + 1]);
                    assert(buffer@[3 * j + 2] == prior[3 * j + 2]);
                }
            }
        }
        k += 1;
    }
    buffer
}

/// The four hypsometric control tints, dark lowland green through pale
/// mountain gray, and their height thresholds.
pub open spec fn spec_tint(i: int) -> (int, int, int) {
    if i == 0 { (150, 170, 101) }
    else if i == 1 { (234, 225, 148) }
    else if i == 2 { (146, 109, 61) }
    else { (199, 196, 195) }
}

/// The hypsometric tint of a normalized height byte: a linear blend of two
/// control tints across the band the height falls in (thresholds 0, 60,
/// 180, 255).
pub open spec fn spec_hypsometric_rgb(h: int) -> (int, int, int) {
    if h < 60 {
        spec_blend(spec_tint(0), spec_tint(1), h - 0, 60)
    } else if h < 180 {
        spec_blend(spec_tint(1), spec_tint(2), h - 60, 120)
    } else {
        spec_blend(spec_tint(2), spec_tint(3), h - 180, 75)
    }
}

/// Linear interpolation of two tints: `lo + (hi - lo) * t / range` per
/// channel, with the blend fraction `t / range`.
pub open spec fn spec_blend(lo: (int, int, int), hi: (int, int, int), t: int, range: int)
    -> (int, int, int) {
    (
        (lo.0 * (range - t) + hi.0 * t) / range,
        (lo.1 * (range - t) + hi.1 * t) / range,
        (lo.2 * (range - t) + hi.2 * t) / range,
    )
}

/// Computes the hypsometric tint of one normalized height byte.
pub fn get_hypsometric_color_helper(height: u8) -> (r: (u8, u8, u8))
    ensures
        (r.0 as int, r.1 as int, r.2 as int) == spec_hypsometric_rgb(height as int),
{
    let h = height as u32;
    let (lo, hi, t, range): ((u32, u32, u32), (u32, u32, u32), u32, u32) = if h < 60 {
        ((150, 170, 101), (234, 225, 148), h, 60)
    } else if h < 180 {
        ((234, 225, 148), (146, 109, 61), h - 60, 120)
    } else {
        ((146, 109, 61), (199, 196, 195), h - 180, 75)
    };
    proof {
        assert(t <= range);
        assert(lo.0 * (range - t) + hi.0 * t <= 255 * range + 255 * range) by (nonlinear_arith)
            requires lo.0 <= 255, hi.0 <= 255, 0 <= t <= range;
        assert(lo.1 * (range - t) + hi.1 * t <= 255 * range + 255 * range) by (nonlinear_arith)
            requires lo.1 <= 255, hi.1 <= 255, 0 <= t <= range;
        assert(lo.2 * (range - t) + hi.2 * t <= 255 * range + 255 * range) by (nonlinear_arith)
            requires lo.2 <= 255, hi.2 <= 255, 0 <= t <= range;
        lemma_blend_byte(lo.0 as int, hi.0 as int, t as int, range as int);
        lemma_blend_byte(lo.1 as int, hi.1 as int, t as int, range as int);
        lemma_blend_byte(lo.2 as int, hi.2 as int, t as int, range as int);
    }
    let red = (lo.0 * (range - t) + hi.0 * t) / range;
    let green = (lo.1 * (range - t) + hi.1 * t) / range;
    let blue = (lo.2 * (range - t) + hi.2 * t) / range;
    (red as u8, green as u8, blue as u8)
}

/// A convex blend of two bytes is a byte.
proof fn lemma_blend_byte(lo: int, hi: int, t: int, range: int)
    requires
        0 <= lo <= 255,
        0 <= hi <= 255,
        0 <= t <= range,
        range >= 1,
    ensures
        0 <= (lo * (range - t) + hi * t) / range <= 255,
{
    assert(lo * (range - t) + hi * t <= 255 * range) by (nonlinear_arith)
        requires 0 <= lo <= 255, 0 <= hi <= 255, 0 <= t <= range;
    assert(lo * (range - t) + hi * t >= 0) by (nonlinear_arith)
        requires 0 <= lo, 0 <= hi, 0 <= t <= range;
    vstd::arithmetic::div_mod::lemma_div_is_ordered(
        lo * (range - t) + hi * t, 255 * range, range);
    vstd::arithmetic::div_mod::lemma_div_by_multiple(255, range);
    vstd::arithmetic::div_mod::lemma_div_pos_is_pos(lo * (range - t) + hi * t, range);
}

/// Applies the hypsometric tint to a grayscale RGB height map.
pub fn build_hypsometrically_tinted_map(height_map: &Vec<u8>) -> (r: Vec<u8>)
    requires
        height_map@.len() == NUM_CELLS * 3,
    ensures
        r@.len() == NUM_CELLS * 3,
        forall|k: int| 0 <= k < NUM_CELLS ==> {
            let c = spec_hypsometric_rgb(height_map@[3 * k] as int);
            &&& (#[trigger] r@[3 * k]) == c.0
            &&& r@[3 * k + 1] == c.1
            &&& r@[3 * k + 2] == c.2
        },
{
    let mut buffer: Vec<u8> = Vec::new();
    let mut k: usize = 0;
    while k < NUM_CELLS
        invariant
            height_map@.len() == NUM_CELLS * 3,
            buffer@.len() == 3 * k,
            k <= NUM_CELLS,
            forall|kk: int| 0 <= kk < k ==> {
                let c = spec_hypsometric_rgb(height_map@[3 * kk] as int);
                &&& (#[trigger] buffer@[3 * kk]) == c.0
                &&& buffer@[3 * kk + 1] == c.1
                &&& buffer@[3 * kk + 2] == c.2
            },
        decreases NUM_CELLS - k,
    {
        let h = height_map[3 * k];
        let (red, green, blue) = get_hypsometric_color_helper(h);
        let ghost prior = buffer@;
        buffer.push(red);
        buffer.push(green);
        buffer.push(blue);
        proof {
            assert forall|kk: int| 0 <= kk < k + 1 implies {
                let c = spec_hypsometric_rgb(height_map@[3 * kk] as int);
                &&& (#[trigger] buffer@[3 * kk]) == c.0
                &&& buffer@[3 * kk + 1] == c.1
                &&& buffer@[3 * kk + 2] == c.2
            } by {
                if kk < k {
                    assert(buffer@[3 * kk] == prior[3 * kk]);
                    assert(buffer@[3 * kk + 1] == prior[3 * kk + 1]);
                    assert(buffer@[3 * kk + 2] == prior[3 * kk + 2]);
                } else {
                    assert(buffer@[3 * kk] == red);
                    assert(buffer@[3 * kk + 1] == green);
                    assert(buffer@[3 * kk + 2] == blue);
                }
            }
        }
        k += 1;
    }
    buffer
}

/// The red byte of the vegetation map: the average tree height in meters
/// times eight, clamped to a byte; absent populations read zero.
pub open spec fn spec_tree_byte(c: Cell) -> u8 {
    match c.trees {
        Some(t) => {
            let v = (t.plant_height_sum as int / t.number_of_plants as int) / 1000000 * 8;
            if v > 255 { 255u8 } else { v as u8 }
        },
        None => 0u8,
    }
}

/// The green byte of the vegetation map: the average bush height in meters
/// times sixty, clamped to a byte.
pub open spec fn spec_bush_byte(c: Cell) -> u8 {
    match c.bushes {
        Some(b) => {
            let v = (b.plant_height_sum as int / b.number_of_plants as int) / 1000000 * 60;
            if v > 255 { 255u8 } else { v as u8 }
        },
        None => 0u8,
    }
}

/// A vegetation map: the red channel carries average tree height, the
/// green channel average bush height, the blue channel is empty.
pub fn build_vegetation_map(eco: &Ecosystem) -> (r: Vec<u8>)
    requires
        eco.wf(),
    ensures
        r@.len() == NUM_CELLS * 3,
        forall|k: int| 0 <= k < NUM_CELLS ==> {
            &&& (#[trigger] r@[3 * k]) == spec_tree_byte(eco.cells@[k])
            &&& r@[3 * k + 1] == spec_bush_byte(eco.cells@[k])
            &&& r@[3 * k + 2] == 0
        },
{
    let mut buffer: Vec<u8> = Vec::new();
    let mut k: usize = 0;
    while k < NUM_CELLS
        invariant
            eco.wf(),
            buffer@.len() == 3 * k,
            k <= NUM_CELLS,
            forall|j: int| 0 <= j < k ==> {
                &&& (#[trigger] buffer@[3 * j]) == spec_tree_byte(eco.cells@[j])
                &&& buffer@[3 * j + 1] == spec_bush_byte(eco.cells@[j])
                &&& buffer@[3 * j + 2] == 0
            },
        decreases NUM_CELLS - k,
    {
        let index = CellIndex::get_from_flat_index(k);
        proof {
            assert(flat_of(index) == k);
        }
        let cell = eco.get_cell(index);
        let trees_color: u8 = match &cell.trees {
            Some(t) => {
                let avg_m = t.plant_height_sum / (t.number_of_plants as u64) / 1000000;
                let v = avg_m * 8;
                if v > 255 { 255 } else { v as u8 }
            },
            None => 0,
        };
        let bushes_color: u8 = match &cell.bushes {
            Some(b) => {
                let avg_m = b.plant_height_sum / (b.number_of_plants as u64) / 1000000;
                let v = avg_m * 60;
                if v > 255 { 255 } else { v as u8 }
            },
            None => 0,
        };
        let ghost prior = buffer@;
        buffer.push(trees_color);
        buffer.push(bushes_color);
        buffer.push(0);
        proof {
            assert forall|j: int| 0 <= j < k + 1 implies {
                &&& (#[trigger] buffer@[3 * j]) == spec_tree_byte(eco.cells@[j])
                &&& buffer@[3 * j + 1] == spec_bush_byte(eco.cells@[j])
                &&& buffer@[3 * j + 2] == 0
            } by {
                if j < k {
                    assert(buffer@[3 * j] == prior[3 * j]);
                    assert(buffer@[3 * j + 1] == prior[3 * j + 1]);
                    assert(buffer@[3 * j + 2] == prior[3 * j + 2]);
                }
            }
        }
        k += 1;
    }
    buffer
}

/// The bare-soil color in parts-per-million channels: rock gray, sand
/// yellow and humus brown blended by their heights (humus five-fold), the
/// bedrock gray when no soil covers the rock.
pub open spec fn spec_soil_ppm(c: Cell) -> (int, int, int) {
    let rock = c.rock_um() as int;
    let sand = c.sand_um() as int;
    let humus5 = c.humus_um() * 5;
    let total = rock + sand + humus5;
    if total == 0 {
        (200000int, 200000int, 200000int)
    } else {
        (
            (rock * 400000 + sand * 760780 + humus5 * 462740) / total,
            (rock * 400000 + sand * 698040 + humus5 * 333330) / total,
            (rock * 400000 + sand * 501960 + humus5 * 168630) / total,
        )
    }
}

/// `base * (1 - alpha) + over * alpha` in parts per million.
pub open spec fn spec_blend_ppm(base: int, over: int, alpha: int) -> int {
    (base * (1000000 - alpha) + over * alpha) / 1000000
}

/// The sigmoid grass-blending weight for a coverage fraction:
/// `1 / (1 + e^(4 - 7 c))`, clamped to at most one.
pub open spec fn spec_grass_alpha(coverage_ppm: int) -> int {
    let e = spec_exp_s9(4000000000 - 7000 * coverage_ppm);
    let a = (1000000000000000int / (1000000000 + e)) / 1000;
    if a > 1000000 { 1000000int } else { a }
}

/// The standard color of a cell: the soil blend, overlaid with grass green
/// through the sigmoid of the coverage.
pub open spec fn spec_cell_color_ppm(c: Cell) -> (int, int, int) {
    let s = spec_soil_ppm(c);
    match c.grasses {
        Some(g) => {
            let a = spec_grass_alpha(g.coverage_density as int);
            (
                spec_blend_ppm(s.0, 0, a),
                spec_blend_ppm(s.1, 400000, a),
                spec_blend_ppm(s.2, 100000, a),
            )
        },
        None => s,
    }
}

/// The standard soil color of a cell, exactly `spec_cell_color_ppm`.
pub fn get_color(eco: &Ecosystem, index: CellIndex) -> (r: (u64, u64, u64))
    requires
        eco.wf(),
        crate::grid::in_bounds(index),
    ensures
        (r.0 as int, r.1 as int, r.2 as int) == spec_cell_color_ppm(eco.cell_at(index)),
        r.0 <= 1000000 && r.1 <= 1000000 && r.2 <= 1000000,
{
    let cell = eco.get_cell(index);
    proof {
        crate::ecosystem::lemma_cell_height_bound(*cell);
    }
    let rock_amt: u128 = cell.get_rock_height() as u128;
    let sand_amt: u128 = cell.get_sand_height() as u128;
    let humus_amt: u128 = (cell.get_humus_height() as u128) * 5;
    let total = rock_amt + sand_amt + humus_amt;
    let (mut red, mut green, mut blue): (u64, u64, u64) = if total == 0 {
        (200000, 200000, 200000)
    } else {
        let r128 = (rock_amt * 400000 + sand_amt * 760780 + humus_amt * 462740) / total;
        let g128 = (rock_amt * 400000 + sand_amt * 698040 + humus_amt * 333330) / total;
        let b128 = (rock_amt * 400000 + sand_amt * 501960 + humus_amt * 168630) / total;
        proof {
            lemma_weighted_channel(rock_amt as int, sand_amt as int, humus_amt as int,
                400000, 760780, 462740);
            lemma_weighted_channel(rock_amt as int, sand_amt as int, humus_amt as int,
                400000, 698040, 333330);
            lemma_weighted_channel(rock_amt as int, sand_amt as int, humus_amt as int,
                400000, 501960, 168630);
        }
        (r128 as u64, g128 as u64, b128 as u64)
    };
    if let Some(grass) = &cell.grasses {
        // sigmoid blending toward grass green: 1 / (1 + e^(4 - 7c))
        let c = grass.coverage_density;
        let arg_s9: i64 = 4000000000 - 7000 * (c as i64);
        proof {
            assert(-3000000000 <= arg_s9 <= 4000000000);
        }
        let e = exp_s9(arg_s9);
        let denom: u128 = 1000000000u128 + e as u128;
        let alpha: u64 = ((1000000000000000u128 / denom) / 1000) as u64;
        let a = if alpha > 1000000 { 1000000 } else { alpha };
        red = blend_ppm(red, 0, a);
        green = blend_ppm(green, 400000, a);
        blue = blend_ppm(blue, 100000, a);
    }
    (red, green, blue)
}

/// `base * (1 - alpha) + over * alpha`, all in parts per million.
fn blend_ppm(base: u64, over: u64, alpha: u64) -> (r: u64)
    requires
        base <= 1000000,
        over <= 1000000,
        alpha <= 1000000,
    ensures
        r == spec_blend_ppm(base as int, over as int, alpha as int),
        r <= 1000000,
{
    proof {
        assert(base * (1000000 - alpha) + over * alpha <= 1000000 * 1000000)
            by (nonlinear_arith)
            requires base <= 1000000, over <= 1000000, alpha <= 1000000;
        assert(base * (1000000 - alpha) + over * alpha >= 0) by (nonlinear_arith)
            requires base >= 0, over >= 0, 0 <= alpha <= 1000000;
        vstd::arithmetic::div_mod::lemma_div_is_ordered(
            (base as int) * (1000000 - alpha) + (over as int) * (alpha as int),
            1000000000000int, 1000000);
        vstd::arithmetic::div_mod::lemma_div_pos_is_pos(
            (base as int) * (1000000 - alpha) + (over as int) * (alpha as int), 1000000);
    }
    (base * (1000000 - alpha) + over * alpha) / 1000000
}

/// A weight-normalized channel blend stays within one unit.
proof fn lemma_weighted_channel(a: int, b: int, c: int, wa: int, wb: int, wc: int)
    requires
        a >= 0,
        b >= 0,
        c >= 0,
        a + b + c >= 1,
        0 <= wa <= 1000000,
        0 <= wb <= 1000000,
        0 <= wc <= 1000000,
    ensures
        0 <= (a * wa + b * wb + c * wc) / (a + b + c) <= 1000000,
{
    assert(a * wa + b * wb + c * wc <= (a + b + c) * 1000000) by (nonlinear_arith)
        requires
            a >= 0, b >= 0, c >= 0,
            0 <= wa <= 1000000, 0 <= wb <= 1000000, 0 <= wc <= 1000000,
    ;
    assert(a * wa + b * wb + c * wc >= 0) by (nonlinear_arith)
        requires a >= 0, b >= 0, c >= 0, wa >= 0, wb >= 0, wc >= 0;
    vstd::arithmetic::div_mod::lemma_div_is_ordered(
        a * wa + b * wb + c * wc, (a + b + c) * 1000000, a + b + c);
    vstd::arithmetic::div_mod::lemma_div_by_multiple(1000000, a + b + c);
    vstd::arithmetic::div_mod::lemma_div_pos_is_pos(a * wa + b * wb + c * wc, a + b + c);
}

/// The full color map of the grid, bytes per channel: every pixel is the
/// cell's standard color scaled to a byte.
pub fn build_color_map(eco: &Ecosystem) -> (r: Vec<u8>)
    requires
        eco.wf(),
    ensures
        r@.len() == NUM_CELLS * 3,
        forall|k: int| 0 <= k < NUM_CELLS ==> {
            let c = spec_cell_color_ppm(eco.cells@[k]);
            &&& (#[trigger] r@[3 * k]) == c.0 * 255 / 1000000
            &&& r@[3 * k + 1] == c.1 * 255 / 1000000
            &&& r@[3 * k + 2] == c.2 * 255 / 1000000
        },
{
    let mut buffer: Vec<u8> = Vec::new();
    let mut k: usize = 0;
    while k < NUM_CELLS
        invariant
            eco.wf(),
            buffer@.len() == 3 * k,
            k <= NUM_CELLS,
            forall|j: int| 0 <= j < k ==> {
                let c = spec_cell_color_ppm(eco.cells@[j]);
                &&& (#[trigger] buffer@[3 * j]) == c.0 * 255 / 1000000
                &&& buffer@[3 * j + 1] == c.1 * 255 / 1000000
                &&& buffer@[3 * j + 2] == c.2 * 255 / 1000000
            },
        decreases NUM_CELLS - k,
    {
        let index = CellIndex::get_from_flat_index(k);
        proof {
            assert(flat_of(index) == k);
        }
        let (red, green, blue) = get_color(eco, index);
        proof {
            vstd::arithmetic::div_mod::lemma_div_is_ordered(
                (red as int) * 255, 255000000int, 1000000);
            vstd::arithmetic::div_mod::lemma_div_is_ordered(
                (green as int) * 255, 255000000int, 1000000);
            vstd::arithmetic::div_mod::lemma_div_is_ordered(
                (blue as int) * 255, 255000000int, 1000000);
            vstd::arithmetic::div_mod::lemma_div_pos_is_pos((red as int) * 255, 1000000);
            vstd::arithmetic::div_mod::lemma_div_pos_is_pos((green as int) * 255, 1000000);
            vstd::arithmetic::div_mod::lemma_div_pos_is_pos((blue as int) * 255, 1000000);
        }
        let ghost prior = buffer@;
        buffer.push((red * 255 / 1000000) as u8);
        buffer.push((green * 255 / 1000000) as u8);
        buffer.push((blue * 255 / 1000000) as u8);
        proof {
            assert forall|j: int| 0 <= j < k + 1 implies {
                let c = spec_cell_color_ppm(eco.cells@[j]);
                &&& (#[trigger] buffer@[3 * j]) == c.0 * 255 / 1000000
                &&& buffer@[3 * j + 1] == c.1 * 255 / 1000000
                &&& buffer@[3 * j + 2] == c.2 * 255 / 1000000
            } by {
                if j < k {
                    assert(buffer@[3 * j] == prior[3 * j]);
                    assert(buffer@[3 * j + 1] == prior[3 * j + 1]);
                    assert(buffer@[3 * j + 2] == prior[3 * j + 2]);
                }
            }
        }
        k += 1;
    }
    buffer
}

} // verus!
