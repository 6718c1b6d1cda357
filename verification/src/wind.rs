//! Wind state: the wind rose distribution, the per-tick sampled wind, and
//! the two blurred copies of the heightfield used to warp the local wind.
//! Directions are millidegrees clockwise from north; strengths and weights
//! are micro-units (parts per million).

use vstd::prelude::*;
use crate::cell::{Cell, Sand, sat_add_cap, sat_sub};
use crate::constants::{AREA_SIDE_LENGTH, NUM_CELLS, PPM, WIND_DIRECTION_MILLIDEG,
    WIND_STRENGTH_U};
use crate::ecosystem::{flat_of, lemma_flat_in_range, Ecosystem};
use crate::events::Events;
use crate::grid::{in_bounds, CellIndex};
use crate::rng::rng_below;

verus! {

/// Height of sand one wind event can carry, in micrometers (0.2 m).
pub const CARRYING_CAPACITY_UM: u64 = 200000;

/// Height of sand redistributed on landing, in micrometers (0.1 m).
pub const REPTATION_HEIGHT_UM: u64 = 100000;

/// Eight 45-degree buckets, each with a speed range and a sampling weight.
#[derive(Clone, Debug)]
pub struct WindRose {
    pub min_speed: [u64; 8],
    pub max_speed: [u64; 8],
    pub weights: [u64; 8],
}

impl WindRose {
    /// Well-formed: every weight is at most one (in parts per million) and
    /// each bucket's speed range is ordered.
    pub open spec fn wf(self) -> bool {
        &&& forall|i: int| 0 <= i < 8 ==> #[trigger] self.weights@[i] <= PPM
        &&& forall|i: int| 0 <= i < 8 ==> #[trigger] self.min_speed@[i] <= self.max_speed@[i]
        &&& forall|i: int| 0 <= i < 8 ==> #[trigger] self.max_speed@[i] <= 0x8000000000000000u64
    }

    /// A rose with all weight on the bucket of the given direction.
    pub fn new(direction_millideg: u64, min_strength: u64, max_strength: u64) -> (r: Self)
        requires
            direction_millideg < 360000,
            min_strength <= max_strength,
            max_strength <= 0x8000000000000000,
        ensures
            r.wf(),
            ({
                let bucket = direction_millideg as int / 45000;
                &&& r.min_speed@ == Seq::new(8, |i: int| 0u64).update(bucket, min_strength)
                &&& r.max_speed@ == Seq::new(8, |i: int| 0u64).update(bucket, max_strength)
                &&& r.weights@ == Seq::new(8, |i: int| 0u64).update(bucket, PPM as u64)
            }),
    {
        let mut min_speed: [u64; 8] = [0; 8];
        let mut max_speed: [u64; 8] = [0; 8];
        let mut weights: [u64; 8] = [0; 8];
        let bucket = (direction_millideg / 45000) as usize;
        min_speed[bucket] = min_strength;
        max_speed[bucket] = max_strength;
        weights[bucket] = PPM;
        proof {
            assert(min_speed@ =~= Seq::new(8, |i: int| 0u64).update(
                direction_millideg as int / 45000, min_strength));
            assert(max_speed@ =~= Seq::new(8, |i: int| 0u64).update(
                direction_millideg as int / 45000, max_strength));
            assert(weights@ =~= Seq::new(8, |i: int| 0u64).update(
                direction_millideg as int / 45000, PPM as u64));
        }
        WindRose { min_speed, max_speed, weights }
    }

    /// Replaces one bucket of the rose.
    pub fn update_wind(
        &mut self,
        direction_millideg: u64,
        min_strength: u64,
        max_strength: u64,
        weight: u64,
    )
        requires
            old(self).wf(),
            direction_millideg < 360000,
            min_strength <= max_strength,
            max_strength <= 0x8000000000000000,
            weight <= PPM,
        ensures
            final(self).wf(),
            ({
                let bucket = direction_millideg as int / 45000;
                &&& final(self).min_speed@ == old(self).min_speed@.update(bucket, min_strength)
                &&& final(self).max_speed@ == old(self).max_speed@.update(bucket, max_strength)
                &&& final(self).weights@ == old(self).weights@.update(bucket, weight)
            }),
    {
        let bucket = (direction_millideg / 45000) as usize;
        self.min_speed[bucket] = min_strength;
        self.max_speed[bucket] = max_strength;
        self.weights[bucket] = weight;
    }
}

/// The wind subsystem of an ecosystem.
#[derive(Clone, Debug)]
pub struct WindState {
    pub wind_rose: WindRose,
    pub wind_direction: u64,
    pub wind_strength: u64,
    pub high_freq_convolution: Vec<u64>,
    pub low_freq_convolution: Vec<u64>,
}

impl WindState {
    /// Well-formed: the rose is well-formed and both blurred heightfields
    /// cover the whole grid.
    pub open spec fn wf(self) -> bool {
        &&& self.wind_rose.wf()
        &&& self.high_freq_convolution@.len() == NUM_CELLS
        &&& self.low_freq_convolution@.len() == NUM_CELLS
        &&& self.wind_direction < 360000
    }

    /// Wind state for the default direction and strength, with flat blurred
    /// fields.
    pub fn new() -> (r: Self)
        ensures
            r.wf(),
            r.wind_direction == WIND_DIRECTION_MILLIDEG,
            r.wind_strength == WIND_STRENGTH_U,
    {
        let mut high: Vec<u64> = Vec::new();
        let mut low: Vec<u64> = Vec::new();
        let mut k: usize = 0;
        while k < NUM_CELLS
            invariant
                high@.len() == k,
                low@.len() == k,
                k <= NUM_CELLS,
            decreases NUM_CELLS - k,
        {
            high.push(0);
            low.push(0);
            k += 1;
        }
        WindState {
            wind_rose: WindRose::new(WIND_DIRECTION_MILLIDEG, WIND_STRENGTH_U, WIND_STRENGTH_U),
            wind_direction: WIND_DIRECTION_MILLIDEG,
            wind_strength: WIND_STRENGTH_U,
            high_freq_convolution: high,
            low_freq_convolution: low,
        }
    }
}

/// The pixels that a stackblur pass produces from the given pixels, width
/// and radius. The blur is a pure function of its inputs.
pub uninterp spec fn blurred(pixels: Seq<u32>, width: usize, radius: usize) -> Seq<u32>;

/// Relies on stackblur_iter::blur_argb: blurs an ARGB image in place,
/// keeping its dimensions; the result depends only on the pixels, width,
/// height and radius. A zero width would make the image constructor panic,
/// and very large radii overflow the blur's 8-bit channel sums, so both are
/// excluded here (the terrain convolutions use radii 11 and 25).
#[verifier::external_body]
fn blur_image(pixels: Vec<u32>, width: usize, height: usize, radius: usize) -> (r: Vec<u32>)
    requires
        pixels@.len() == width * height,
        0 < width <= 0xffffffff,
        0 < height <= 0xffffffff,
        radius <= 1024,
    ensures
        r@ == blurred(pixels@, width, radius),
        r@.len() == pixels@.len(),
{
    let mut img = stackblur_iter::imgref::Img::new(pixels, width, height);
    stackblur_iter::blur_argb(&mut img.as_mut(), radius);
    img.into_buf()
}

/// The unit direction vector of a wind-rose bucket direction (a multiple of
/// 45 degrees clockwise from north), at scale 10^6: x east, y north.
pub open spec fn spec_dir_vector(direction_millideg: int) -> (int, int) {
    let b = direction_millideg / 45000;
    if b == 0 { (0, 1000000) }
    else if b == 1 { (707107, 707107) }
    else if b == 2 { (1000000, 0) }
    else if b == 3 { (707107, -707107) }
    else if b == 4 { (0, -1000000) }
    else if b == 5 { (-707107, -707107) }
    else if b == 6 { (-1000000, 0) }
    else { (-707107, 707107) }
}

/// Computes `spec_dir_vector`.
fn dir_vector(direction_millideg: u64) -> (r: (i64, i64))
    requires
        direction_millideg < 360000,
    ensures
        (r.0 as int, r.1 as int) == spec_dir_vector(direction_millideg as int),
        -1000000 <= r.0 <= 1000000,
        -1000000 <= r.1 <= 1000000,
{
    let b = direction_millideg / 45000;
    if b == 0 { (0, 1000000) }
    else if b == 1 { (707107, 707107) }
    else if b == 2 { (1000000, 0) }
    else if b == 3 { (707107, -707107) }
    else if b == 4 { (0, -1000000) }
    else if b == 5 { (-707107, -707107) }
    else if b == 6 { (-1000000, 0) }
    else { (-707107, 707107) }
}

/// Sum of the first `k` bucket weights of a rose.
pub open spec fn spec_weight_prefix(w: Seq<u64>, k: int) -> int
    decreases k,
{
    if k <= 0 {
        0
    } else {
        spec_weight_prefix(w, k - 1) + w[k - 1]
    }
}

impl WindRose {
    /// Samples a direction and strength from the rose: a bucket is chosen
    /// with probability proportional to its weight, and the strength is
    /// drawn uniformly from that bucket's range. A rose with no weight
    /// yields a calm (0, 0); otherwise the chosen bucket always has
    /// positive weight.
    pub fn sample_wind(&self) -> (r: (u64, u64))
        requires
            self.wf(),
        ensures
            r.0 < 360000 && r.0 % 45000 == 0,
            spec_weight_prefix(self.weights@, 8) == 0 ==> r == (0u64, 0u64),
            spec_weight_prefix(self.weights@, 8) > 0 ==> exists|b: int| 0 <= b < 8
                && (#[trigger] self.weights@[b]) > 0 && r.0 == b * 45000
                && self.min_speed@[b] <= r.1 <= self.max_speed@[b],
    {
        let mut weight_sum: u64 = 0;
        let mut i: usize = 0;
        while i < 8
            invariant
                self.wf(),
                i <= 8,
                weight_sum <= i * 1000000,
                weight_sum == spec_weight_prefix(self.weights@, i as int),
            decreases 8 - i,
        {
            weight_sum = weight_sum + self.weights[i];
            i += 1;
        }
        if weight_sum == 0 {
            return (0, 0);
        }

        // choose the bucket by cumulative weight: the draw always falls
        // inside some bucket's span
        let draw = rng_below(weight_sum);
        let mut acc: u64 = 0;
        let mut bucket: usize = 0;
        let mut chosen: usize = 0;
        let mut found = false;
        while bucket < 8
            invariant
                self.wf(),
                bucket <= 8,
                chosen < 8,
                acc <= bucket * 1000000,
                acc == spec_weight_prefix(self.weights@, bucket as int),
                draw < spec_weight_prefix(self.weights@, 8),
                found ==> self.weights@[chosen as int] > 0,
                !found ==> draw >= acc,
            decreases 8 - bucket,
        {
            acc = acc + self.weights[bucket];
            if !found && draw < acc {
                chosen = bucket;
                found = true;
            }
            bucket += 1;
        }
        proof {
            assert(found);
        }

        // strength uniform in the chosen bucket's range
        let draw2 = rng_below(PPM);
        let lo = self.min_speed[chosen];
        let hi = self.max_speed[chosen];
        let diff = hi - lo;
        proof {
            assert((draw2 as int) * (diff as int) <= 1000000 * (diff as int))
                by (nonlinear_arith)
                requires draw2 <= 1000000, diff >= 0;
            assert((draw2 as int) * (diff as int) >= 0) by (nonlinear_arith)
                requires draw2 >= 0, diff >= 0;
        }
        let inc128: u128 = (draw2 as u128) * (diff as u128) / 1000000;
        proof {
            vstd::arithmetic::div_mod::lemma_div_is_ordered(
                (draw2 as int) * (diff as int), 1000000 * (diff as int), 1000000);
            vstd::arithmetic::div_mod::lemma_div_by_multiple(diff as int, 1000000);
            vstd::arithmetic::div_mod::lemma_div_pos_is_pos(
                (draw2 as int) * (diff as int), 1000000);
        }
        let strength = lo + (inc128 as u64);
        proof {
            assert((chosen as int) * 45000 < 360000) by (nonlinear_arith)
                requires chosen < 8;
            assert(((chosen as int) * 45000) % 45000 == 0) by (nonlinear_arith);
            assert(self.min_speed@[chosen as int] <= strength <= self.max_speed@[chosen as int]);
        }
        ((chosen as u64) * 45000, strength)
    }
}

/// True when two cells differ only in their sand layer.
pub open spec fn sand_only_change(c0: Cell, c1: Cell) -> bool {
    c1 == (Cell { sand: c1.sand, ..c0 })
}

/// The smallest cell height among the first `n` cells (the full range
/// marker when none).
pub open spec fn spec_hmin(cells: Seq<Cell>, n: int) -> int
    decreases n,
{
    if n <= 0 {
        0xffffffffffffffff
    } else {
        let m = spec_hmin(cells, n - 1);
        if cells[n - 1].height_um() < m { cells[n - 1].height_um() } else { m }
    }
}

/// The largest cell height among the first `n` cells.
pub open spec fn spec_hmax(cells: Seq<Cell>, n: int) -> int
    decreases n,
{
    if n <= 0 {
        0
    } else {
        let m = spec_hmax(cells, n - 1);
        if cells[n - 1].height_um() > m { cells[n - 1].height_um() } else { m }
    }
}

/// The height span the convolution normalizes over.
pub open spec fn spec_hrange(cells: Seq<Cell>) -> int {
    let mn = spec_hmin(cells, NUM_CELLS as int);
    let mx = spec_hmax(cells, NUM_CELLS as int);
    if mx > mn { mx - mn } else { 0 }
}

/// One normalized ARGB pixel of the heightfield: the height scaled into
/// [0, 255] over the current range, replicated into the three channels.
pub open spec fn spec_height_pixel(cells: Seq<Cell>, k: int) -> u32 {
    let mn = spec_hmin(cells, NUM_CELLS as int);
    let range = spec_hrange(cells);
    let h = cells[k].height_um();
    let p: u32 = if range == 0 || h < mn {
        0u32
    } else {
        let scaled = (h - mn) * 256 / range;
        if scaled > 255 { 255u32 } else { scaled as u32 }
    };
    0xff000000u32 | (p << 16) | (p << 8) | p
}

/// The normalized pixel image of the whole grid.
pub open spec fn spec_height_pixels(cells: Seq<Cell>) -> Seq<u32> {
    Seq::new(NUM_CELLS as nat, |k: int| spec_height_pixel(cells, k))
}

/// A blurred pixel mapped back to a height: the low byte rescaled by the
/// range.
pub open spec fn spec_decode(pixels: Seq<u32>, range: int, k: int) -> u64 {
    (((pixels[k] & 0xff) as u64) * ((range / 256) as u64)) as u64
}

/// Rebuilds the blurred heightfields from the current terrain: the heights
/// are normalized to 8-bit pixels, blurred at the high- and low-frequency
/// radii, and mapped back to micrometer heights. The resulting fields are
/// exactly the decoded blurs of the normalized heightfield; the cells and
/// the rest of the wind state are untouched.
#[verifier::rlimit(100)]
#[verifier::spinoff_prover]
pub fn convolve_terrain(eco: &mut Ecosystem)
    requires
        old(eco).wf(),
        old(eco).wind_state is Some,
    ensures
        final(eco).wf(),
        final(eco).cells@ == old(eco).cells@,
        final(eco).wind_state is Some,
        ({
            let cells = old(eco).cells@;
            let range = spec_hrange(cells);
            let ws0 = old(eco).wind_state->0;
            let ws1 = final(eco).wind_state->0;
            &&& ws1.wind_rose == ws0.wind_rose
            &&& ws1.wind_direction == ws0.wind_direction
            &&& ws1.wind_strength == ws0.wind_strength
            &&& ws1.high_freq_convolution@ == Seq::new(NUM_CELLS as nat, |k: int|
                spec_decode(blurred(spec_height_pixels(cells), AREA_SIDE_LENGTH, 11),
                    range, k))
            &&& ws1.low_freq_convolution@ == Seq::new(NUM_CELLS as nat, |k: int|
                spec_decode(blurred(spec_height_pixels(cells), AREA_SIDE_LENGTH, 25),
                    range, k))
        }),
{
    let ghost cells0 = eco.cells@;
    let mut heights: Vec<u64> = Vec::new();
    let mut min_h: u64 = 0xffffffffffffffff;
    let mut max_h: u64 = 0;
    let mut k: usize = 0;
    while k < NUM_CELLS
        invariant
            eco.wf(),
            eco == old(eco),
            cells0 == eco.cells@,
            heights@.len() == k,
            k <= NUM_CELLS,
            forall|j: int| 0 <= j < k ==> #[trigger] heights@[j]
                == cells0[j].height_um(),
            min_h == spec_hmin(cells0, k as int),
            max_h == spec_hmax(cells0, k as int),
            max_h <= 0x8000000000000000,
        decreases NUM_CELLS - k,
    {
        let idx = crate::grid::CellIndex::get_from_flat_index(k);
        proof {
            crate::ecosystem::lemma_cell_height_bound(eco.cell_at(idx));
            assert(flat_of(idx) == k);
        }
        let h = eco.height_at(idx);
        if h < min_h {
            min_h = h;
        }
        if h > max_h {
            max_h = h;
        }
        heights.push(h);
        k += 1;
    }
    let range: u64 = if max_h > min_h {
        max_h - min_h
    } else {
        0
    };
    proof {
        assert(range == spec_hrange(cells0));
    }

    // normalize to 8-bit gray packed as ARGB
    let mut pixels: Vec<u32> = Vec::new();
    let mut k2: usize = 0;
    while k2 < NUM_CELLS
        invariant
            heights@.len() == NUM_CELLS,
            forall|j: int| 0 <= j < NUM_CELLS ==> #[trigger] heights@[j]
                == cells0[j].height_um(),
            pixels@.len() == k2,
            k2 <= NUM_CELLS,
            min_h == spec_hmin(cells0, NUM_CELLS as int),
            range == spec_hrange(cells0),
            range <= 0x8000000000000000,
            forall|j: int| 0 <= j < k2 ==> #[trigger] pixels@[j]
                == spec_height_pixel(cells0, j),
        decreases NUM_CELLS - k2,
    {
        let h = heights[k2];
        let p: u32 = if range == 0 || h < min_h {
            0
        } else {
            let scaled = ((h - min_h) as u128) * 256 / (range as u128);
            if scaled > 255 {
                255
            } else {
                scaled as u32
            }
        };
        pixels.push(0xff000000u32 | (p << 16) | (p << 8) | p);
        k2 += 1;
    }
    proof {
        assert(pixels@ =~= spec_height_pixels(cells0));
        assert(pixels@.len() == AREA_SIDE_LENGTH * AREA_SIDE_LENGTH);
    }
    let high = blur_image(pixels.clone(), AREA_SIDE_LENGTH, AREA_SIDE_LENGTH, 11);
    let low = blur_image(pixels, AREA_SIDE_LENGTH, AREA_SIDE_LENGTH, 25);

    // map the blurred pixels back to heights
    let mut high_h: Vec<u64> = Vec::new();
    let mut low_h: Vec<u64> = Vec::new();
    let mut k3: usize = 0;
    while k3 < NUM_CELLS
        invariant
            high@.len() == NUM_CELLS,
            low@.len() == NUM_CELLS,
            high@ == blurred(spec_height_pixels(cells0), AREA_SIDE_LENGTH, 11),
            low@ == blurred(spec_height_pixels(cells0), AREA_SIDE_LENGTH, 25),
            high_h@.len() == k3,
            low_h@.len() == k3,
            k3 <= NUM_CELLS,
            range == spec_hrange(cells0),
            range <= 0x8000000000000000,
            forall|j: int| 0 <= j < k3 ==> #[trigger] high_h@[j]
                == spec_decode(high@, range as int, j),
            forall|j: int| 0 <= j < k3 ==> #[trigger] low_h@[j]
                == spec_decode(low@, range as int, j),
        decreases NUM_CELLS - k3,
    {
        let hraw: u32 = high[k3];
        let lraw: u32 = low[k3];
        let hm: u32 = hraw & 0xff;
        let lm: u32 = lraw & 0xff;
        proof {
            assert(hm <= 0xff && lm <= 0xff) by (bit_vector)
                requires hm == hraw & 0xff, lm == lraw & 0xff;
            assert((hm as int) * ((range as int) / 256) <= 255 * ((range as int) / 256))
                by (nonlinear_arith)
                requires hm <= 255, range >= 0;
            assert((lm as int) * ((range as int) / 256) <= 255 * ((range as int) / 256))
                by (nonlinear_arith)
                requires lm <= 255, range >= 0;
            vstd::arithmetic::div_mod::lemma_div_is_ordered(
                range as int, 0x8000000000000000, 256);
        }
        high_h.push((hm as u64) * (range / 256));
        low_h.push((lm as u64) * (range / 256));
        k3 += 1;
    }

    if let Some(ws) = &mut eco.wind_state {
        ws.high_freq_convolution = high_h;
        ws.low_freq_convolution = low_h;
    }
    proof {
        assert(final(eco).wind_state->0.high_freq_convolution@
            =~= Seq::new(NUM_CELLS as nat, |kk: int|
                spec_decode(blurred(spec_height_pixels(cells0), AREA_SIDE_LENGTH, 11),
                    spec_hrange(cells0), kk)));
        assert(final(eco).wind_state->0.low_freq_convolution@
            =~= Seq::new(NUM_CELLS as nat, |kk: int|
                spec_decode(blurred(spec_height_pixels(cells0), AREA_SIDE_LENGTH, 25),
                    spec_hrange(cells0), kk)));
    }
}

/// One truncated-toward-zero division by a million.
pub open spec fn spec_trunc_million(v: int) -> int {
    if v >= 0 { v / 1000000 } else { -((-v) / 1000000) }
}

/// The most negative slope met walking along the wind: step `i` lands at
/// `index + dir * i`, the walk stops at the boundary, and the landing cell
/// itself contributes nothing.
pub open spec fn spec_shadow_walk(
    cells: Seq<Cell>,
    index: CellIndex,
    dir: (i64, i64),
    i: int,
    acc: int,
) -> int
    decreases 10 - i,
{
    if i >= 10 {
        acc
    } else {
        let ox = spec_trunc_million(dir.0 * i);
        let oy = spec_trunc_million(dir.1 * i);
        let tx = index.x + ox;
        let ty = index.y + oy;
        if tx < 0 || tx >= AREA_SIDE_LENGTH || ty < 0 || ty >= AREA_SIDE_LENGTH {
            acc
        } else {
            let t = CellIndex { x: tx as usize, y: ty as usize };
            let acc2 = if t.x != index.x || t.y != index.y {
                let s = crate::ecosystem::spec_slope_ppm(
                    cells[flat_of(index)].height_um(),
                    cells[flat_of(t)].height_um(),
                    crate::ecosystem::dist2_cells(index, t),
                );
                if s < acc { s } else { acc }
            } else {
                acc
            };
            spec_shadow_walk(cells, index, dir, i + 1, acc2)
        }
    }
}

/// The shadow fraction, in [0, 1]: zero without a descent steeper than ten
/// degrees on the walk, else the steepest descent interpolated linearly
/// between the gradients of ten and fifteen degrees (tan 10 deg = 0.176327
/// and a band width of 0.091622), clamped into the unit interval.
pub open spec fn spec_wind_shadow_ppm(cells: Seq<Cell>, index: CellIndex, dir: (i64, i64))
    -> int {
    let steepest = spec_shadow_walk(cells, index, dir, 0, 0);
    if steepest < 0 {
        let a = -steepest - 176327;
        let frac = a * 1000000 / 91622;
        if a < 0 { 0int } else if frac > 1000000 { 1000000int } else { frac }
    } else {
        0
    }
}

/// Computes `spec_wind_shadow_ppm`: how sheltered the cell is from the
/// given unit wind direction.
pub fn get_wind_shadowing(eco: &Ecosystem, index: CellIndex, dir: (i64, i64)) -> (r: i64)
    requires
        eco.wf(),
        in_bounds(index),
        -1000000 <= dir.0 <= 1000000,
        -1000000 <= dir.1 <= 1000000,
    ensures
        r == spec_wind_shadow_ppm(eco.cells@, index, dir),
        0 <= r <= 1000000,
{
    let mut steepest: i64 = 0;
    let mut i: u64 = 0;
    let mut stopped = false;
    while i < 10 && !stopped
        invariant
            eco.wf(),
            in_bounds(index),
            -1000000 <= dir.0 <= 1000000,
            -1000000 <= dir.1 <= 1000000,
            i <= 10,
            -1000000 <= steepest <= 0,
            !stopped ==> spec_shadow_walk(eco.cells@, index, dir, i as int, steepest as int)
                == spec_shadow_walk(eco.cells@, index, dir, 0, 0),
            stopped ==> steepest as int == spec_shadow_walk(eco.cells@, index, dir, 0, 0),
        decreases 10 - i,
    {
        let ox: i64 = step_offset(dir.0, i as i64);
        let oy: i64 = step_offset(dir.1, i as i64);
        let tx: i64 = index.x as i64 + ox;
        let ty: i64 = index.y as i64 + oy;
        if tx < 0 || tx >= AREA_SIDE_LENGTH as i64 || ty < 0 || ty >= AREA_SIDE_LENGTH as i64 {
            stopped = true;
            i = 10;
        } else {
            let target = CellIndex::new(tx as usize, ty as usize);
            if target.x != index.x || target.y != index.y {
                let slope = eco.get_slope_between_points(index, target);
                if slope < steepest {
                    steepest = slope;
                }
            }
            i += 1;
        }
    }
    proof {
        assert(steepest as int == spec_shadow_walk(eco.cells@, index, dir, 0, 0));
    }
    if steepest < 0 {
        // interpolate between the ten- and fifteen-degree descent
        // gradients, clamped into the unit interval
        let a: i64 = -steepest - 176327;
        if a < 0 {
            0
        } else {
            proof {
                vstd::arithmetic::div_mod::lemma_div_pos_is_pos(a as int * 1000000, 91622);
            }
            let frac: i64 = a * 1000000 / 91622;
            if frac > 1000000 {
                1000000
            } else {
                frac
            }
        }
    } else {
        0
    }
}

/// `dir * i / 10^6`, truncated toward zero: one walking step along a unit
/// direction component.
fn step_offset(d: i64, i: i64) -> (r: i64)
    requires
        -1000000 <= d <= 1000000,
        0 <= i <= 10,
    ensures
        r == spec_trunc_million(d * i),
        -10 <= r <= 10,
{
    proof {
        assert(-10000000 <= d * i <= 10000000) by (nonlinear_arith)
            requires -1000000 <= d <= 1000000, 0 <= i <= 10;
        if d * i >= 0 {
            vstd::arithmetic::div_mod::lemma_div_is_ordered((d * i) as int, 10000000, 1000000);
            vstd::arithmetic::div_mod::lemma_div_pos_is_pos((d * i) as int, 1000000);
        } else {
            vstd::arithmetic::div_mod::lemma_div_is_ordered(-((d * i) as int), 10000000, 1000000);
            vstd::arithmetic::div_mod::lemma_div_pos_is_pos(-((d * i) as int), 1000000);
        }
    }
    let p = d * i;
    if p >= 0 {
        p / 1000000
    } else {
        -((-p) / 1000000)
    }
}

/// The clamped bounce probability formula: shadowing, plus 0.4 on bare
/// ground or 0.6 on sand, plus one minus a third of the vegetation density
/// (itself capped at one), all clamped into [0, 1].
pub open spec fn spec_bounce_ppm(c: Cell, wind_shadowing: int) -> int {
    let fs = if c.sand_um() == 0 { 400000int } else { 600000int };
    let third = crate::allometry::spec_vegetation_density_ppm(c) / 3;
    let capped = if third > 1000000 { 1000000int } else { third };
    let sum = wind_shadowing + fs + (1000000 - capped);
    if sum < 0 { 0int } else if sum > 1000000 { 1000000int } else { sum }
}

/// The probability that a landing sand slab bounces onward rather than
/// settling, exactly `spec_bounce_ppm`.
pub fn get_bounce_probability(eco: &Ecosystem, index: CellIndex, wind_shadowing: i64) -> (r: u64)
    requires
        eco.wf(),
        in_bounds(index),
        0 <= wind_shadowing <= 1000000,
    ensures
        r == spec_bounce_ppm(eco.cell_at(index), wind_shadowing as int),
        r <= 1000000,
{
    let cell = eco.get_cell(index);
    let fs: i64 = if cell.get_sand_height() == 0 {
        400000
    } else {
        600000
    };
    let density = cell.estimate_vegetation_density();
    let third = density / 3;
    let capped: i64 = if third > 1000000 {
        1000000
    } else {
        third as i64
    };
    let fv: i64 = 1000000 - capped;
    let sum: i64 = wind_shadowing + fs + fv;
    if sum < 0 {
        0
    } else if sum > 1000000 {
        1000000
    } else {
        sum as u64
    }
}


/// One step of the two-steepest scan: a neighbor with nonnegative slope
/// displaces the best or second slot exactly as the kernel's scan does.
pub open spec fn spec_two_steepest_step(
    cells: Seq<Cell>,
    i: CellIndex,
    o: Option<CellIndex>,
    acc: (Option<(i64, CellIndex)>, Option<(i64, CellIndex)>),
) -> (Option<(i64, CellIndex)>, Option<(i64, CellIndex)>) {
    match o {
        None => acc,
        Some(j) => {
            let s = crate::ecosystem::spec_slope_ppm(
                cells[flat_of(i)].height_um(),
                cells[flat_of(j)].height_um(),
                crate::ecosystem::dist2_cells(i, j),
            ) as i64;
            if s < 0 {
                acc
            } else {
                match acc.0 {
                    None => (Some((s, j)), acc.1),
                    Some(b) => if s > b.0 {
                        if j != b.1 {
                            (Some((s, j)), Some(b))
                        } else {
                            (Some((s, j)), acc.1)
                        }
                    } else {
                        match acc.1 {
                            Some(s2) => if s > s2.0 && j != b.1 {
                                (acc.0, Some((s, j)))
                            } else {
                                acc
                            },
                            None => if j != b.1 {
                                (acc.0, Some((s, j)))
                            } else {
                                acc
                            },
                        }
                    },
                }
            }
        },
    }
}

/// The two-steepest scan folded over a list of neighbor slots.
pub open spec fn spec_two_steepest_from(
    cells: Seq<Cell>,
    i: CellIndex,
    opts: Seq<Option<CellIndex>>,
    acc: (Option<(i64, CellIndex)>, Option<(i64, CellIndex)>),
) -> (Option<(i64, CellIndex)>, Option<(i64, CellIndex)>)
    decreases opts.len(),
{
    if opts.len() == 0 {
        acc
    } else {
        spec_two_steepest_from(
            cells, i, opts.subrange(1, opts.len() as int),
            spec_two_steepest_step(cells, i, opts[0], acc),
        )
    }
}

/// The two neighbors toward which the ground falls most steeply, in the
/// kernel's fixed scan order.
pub open spec fn spec_two_steepest(cells: Seq<Cell>, i: CellIndex)
    -> (Option<(i64, CellIndex)>, Option<(i64, CellIndex)>) {
    spec_two_steepest_from(cells, i, crate::slide::neighbor_opts(i), (None, None))
}

/// The reptation height moved off a landing cell: the smaller of the
/// reptation cap and the sand beyond what just arrived.
pub open spec fn spec_reptation_height(cells: Seq<Cell>, target: CellIndex, moved: u64) -> u64 {
    let sand = cells[flat_of(target)].sand_um();
    let usable = if sand >= moved { (sand - moved) as u64 } else { 0u64 };
    if REPTATION_HEIGHT_UM < usable { REPTATION_HEIGHT_UM } else { usable }
}

/// The share of the reptation height sent to the steeper of the two
/// receiving neighbors: proportional to its slope, half on level ground.
pub open spec fn spec_reptation_share(s1: i64, s2: i64, rh: u64) -> u64 {
    let ratio = if s1 + s2 == 0 { 500000int } else { s1 * 1000000 / (s1 + s2) };
    let raw = rh * ratio / 1000000;
    if raw > rh { rh } else { raw as u64 }
}

/// The grid after reptation at `target`: nothing without a receiving
/// neighbor; everything to a lone neighbor; a slope-proportional split
/// between two.
pub open spec fn spec_reptation_grid(cells: Seq<Cell>, target: CellIndex, moved: u64)
    -> Seq<Cell> {
    let rh = spec_reptation_height(cells, target, moved);
    let picks = spec_two_steepest(cells, target);
    match picks.0 {
        None => cells,
        Some(first) => {
            let ct = Cell {
                sand: match cells[flat_of(target)].sand {
                    Some(s) => Some(Sand { height: sat_sub(s.height, rh) }),
                    None => None,
                },
                ..cells[flat_of(target)]
            };
            let mid = cells.update(flat_of(target), ct);
            match picks.1 {
                None => {
                    let c1 = Cell {
                        sand: Some(Sand { height: sat_add_cap(mid[flat_of(first.1)].sand_um(), rh) }),
                        ..mid[flat_of(first.1)]
                    };
                    mid.update(flat_of(first.1), c1)
                },
                Some(second) => {
                    let for_one = spec_reptation_share(first.0, second.0, rh);
                    let for_two = (rh - for_one) as u64;
                    let c1 = Cell {
                        sand: Some(Sand { height: sat_add_cap(mid[flat_of(first.1)].sand_um(), for_one) }),
                        ..mid[flat_of(first.1)]
                    };
                    let mid2 = mid.update(flat_of(first.1), c1);
                    let c2 = Cell {
                        sand: Some(Sand { height: sat_add_cap(mid2[flat_of(second.1)].sand_um(), for_two) }),
                        ..mid2[flat_of(second.1)]
                    };
                    mid2.update(flat_of(second.1), c2)
                },
            }
        },
    }
}

/// The two neighbors toward which the ground falls most steeply (with
/// nonnegative slope), and the slopes toward them, steepest first.
pub fn get_two_steepest_neighbors(eco: &Ecosystem, index: CellIndex) -> (r: (
    Option<(i64, CellIndex)>,
    Option<(i64, CellIndex)>,
))
    requires
        eco.wf(),
        in_bounds(index),
    ensures
        r == spec_two_steepest(eco.cells@, index),
        r.0 matches Some(p) ==> in_bounds(p.1) && p.1 != index && 0 <= p.0 <= 1000000,
        r.1 matches Some(p) ==> in_bounds(p.1) && p.1 != index && 0 <= p.0 <= 1000000,
        r.0 is None ==> r.1 is None,
        r.0 is Some && r.1 is Some ==> (r.0->0).0 >= (r.1->0).0 && (r.0->0).1 != (r.1->0).1,
{
    proof {
        crate::slide::lemma_neighbor_slots(index);
    }
    let neighbors = index.get_neighbors();
    let arr = neighbors.as_array();
    let ghost opts = crate::slide::neighbor_opts(index);
    proof {
        assert(arr@ =~= opts);
        assert(opts.skip(0) =~= opts);
    }
    let mut best: Option<(i64, CellIndex)> = None;
    let mut second: Option<(i64, CellIndex)> = None;
    let mut k: usize = 0;
    while k < 8
        invariant
            eco.wf(),
            in_bounds(index),
            k <= 8,
            arr@ == opts,
            opts == crate::slide::neighbor_opts(index),
            spec_two_steepest_from(eco.cells@, index, opts.skip(k as int), (best, second))
                == spec_two_steepest(eco.cells@, index),
            forall|kk: int| 0 <= kk < 8 ==> ((#[trigger] arr@[kk]) matches Some(j)
                ==> in_bounds(j) && j != index && 1 <= crate::ecosystem::dist2_cells(index, j)
                    <= 2),
            best matches Some(p) ==> in_bounds(p.1) && p.1 != index && 0 <= p.0 <= 1000000,
            second matches Some(p) ==> in_bounds(p.1) && p.1 != index && 0 <= p.0 <= 1000000,
            best is None ==> second is None,
            best is Some && second is Some ==> (best->0).0 >= (second->0).0
                && (best->0).1 != (second->0).1,
        decreases 8 - k,
    {
        proof {
            assert(opts.skip(k as int).subrange(1, opts.skip(k as int).len() as int)
                =~= opts.skip(k + 1));
            assert(opts.skip(k as int)[0] == opts[k as int]);
        }
        if let Some(j) = arr[k] {
            let slope = eco.get_slope_between_points(index, j);
            if slope >= 0 {
                match best {
                    Some(b) => {
                        if slope > b.0 {
                            if j != b.1 {
                                second = Some(b);
                            }
                            best = Some((slope, j));
                        } else {
                            match second {
                                Some(s2) => {
                                    if slope > s2.0 && j != b.1 {
                                        second = Some((slope, j));
                                    }
                                },
                                None => {
                                    if j != b.1 {
                                        second = Some((slope, j));
                                    }
                                },
                            }
                        }
                    },
                    None => {
                        best = Some((slope, j));
                    },
                }
            }
        }
        k += 1;
    }
    proof {
        assert(opts.skip(8) =~= Seq::<Option<CellIndex>>::empty());
    }
    (best, second)
}

/// Redistributes up to the reptation height of freshly landed sand from the
/// target cell to its two steepest descending neighbors, split in
/// proportion to the slopes: the grid afterwards is exactly
/// `spec_reptation_grid`. Only sand layers change, and only at the target
/// and those neighbors.
#[verifier::rlimit(100)]
#[verifier::spinoff_prover]
pub fn perform_reptation(eco: &mut Ecosystem, target_index: CellIndex, moved_height: u64)
    requires
        old(eco).wf(),
        in_bounds(target_index),
    ensures
        final(eco).wf(),
        final(eco).wind_state == old(eco).wind_state,
        final(eco).cells@ == spec_reptation_grid(old(eco).cells@, target_index, moved_height),
        forall|q: CellIndex| in_bounds(q)
            ==> sand_only_change(old(eco).cell_at(q), #[trigger] final(eco).cell_at(q)),
        final(eco).cells@.len() == old(eco).cells@.len(),
{
    let ghost pre = *eco;
    let sand = eco.get_cell(target_index).get_sand_height();
    let usable = if sand >= moved_height {
        sand - moved_height
    } else {
        0
    };
    let reptation_height = if REPTATION_HEIGHT_UM < usable {
        REPTATION_HEIGHT_UM
    } else {
        usable
    };
    let (n1, n2) = get_two_steepest_neighbors(eco, target_index);
    if let Some((slope_1, neighbor_1)) = n1 {
        proof {
            lemma_flat_in_range(target_index);
            lemma_flat_in_range(neighbor_1);
        }
        let t = eco.cell_mut(target_index);
        t.remove_sand(reptation_height);
        if let Some((slope_2, neighbor_2)) = n2 {
            proof {
                lemma_flat_in_range(neighbor_2);
            }
            // split the sand in proportion to the two slopes
            let ssum = slope_1 + slope_2;
            let ratio_ppm: u64 = if ssum == 0 {
                500000
            } else {
                proof {
                    vstd::arithmetic::div_mod::lemma_div_pos_is_pos(
                        (slope_1 as int) * 1000000, ssum as int);
                }
                ((slope_1 as u64) * 1000000 / (ssum as u64)) as u64
            };
            proof {
                if ssum != 0 {
                    assert((slope_1 as int) * 1000000 <= (ssum as int) * 1000000)
                        by (nonlinear_arith)
                        requires 0 <= slope_1 <= ssum;
                    vstd::arithmetic::div_mod::lemma_div_by_multiple(1000000, ssum as int);
                    vstd::arithmetic::div_mod::lemma_div_is_ordered(
                        (slope_1 as int) * 1000000, (ssum as int) * 1000000, ssum as int);
                }
                assert((reptation_height as int) * (ratio_ppm as int)
                    <= (reptation_height as int) * 2000000) by (nonlinear_arith)
                    requires 0 <= ratio_ppm <= 2000000, reptation_height >= 0;
                vstd::arithmetic::div_mod::lemma_div_pos_is_pos(
                    (reptation_height as int) * (ratio_ppm as int), 1000000);
            }
            let for_one128: u128 = (reptation_height as u128) * (ratio_ppm as u128) / 1000000;
            let for_one: u64 = if for_one128 > reptation_height as u128 {
                reptation_height
            } else {
                for_one128 as u64
            };
            let for_two = reptation_height - for_one;
            let c1 = eco.cell_mut(neighbor_1);
            c1.add_sand(for_one);
            let c2 = eco.cell_mut(neighbor_2);
            c2.add_sand(for_two);
            proof {
                assert(eco.cells@ =~= spec_reptation_grid(pre.cells@, target_index, moved_height));
            }
        } else {
            let c1 = eco.cell_mut(neighbor_1);
            c1.add_sand(reptation_height);
            proof {
                assert(eco.cells@ =~= spec_reptation_grid(pre.cells@, target_index, moved_height));
            }
        }
    }
    proof {
        assert(eco.cells@ =~= spec_reptation_grid(pre.cells@, target_index, moved_height));
        lemma_sand_only_wf(pre, *eco);
    }
}

/// A grid whose cells changed only in their sand layers, each staying
/// within the cap, is still well-formed; saturating sand writes guarantee
/// the cap.
proof fn lemma_sand_only_wf(pre: Ecosystem, post: Ecosystem)
    requires
        pre.wf(),
        post.cells@.len() == pre.cells@.len(),
        forall|k: int| 0 <= k < pre.cells@.len()
            ==> sand_only_change(pre.cells@[k], #[trigger] post.cells@[k]),
        forall|k: int| 0 <= k < pre.cells@.len()
            ==> (#[trigger] post.cells@[k]).sand_um() <= crate::constants::LAYER_CAP,
        post.wind_state matches Some(w) ==> w.wf(),
    ensures
        post.wf(),
{
    assert forall|k: int| 0 <= k < NUM_CELLS implies (#[trigger] post.cells@[k]).wf() by {
        assert(sand_only_change(pre.cells@[k], post.cells@[k]));
        assert(pre.cells@[k].wf());
    }
}


/// A strength-vector component turned into a whole-cell hop count:
/// truncated toward zero, capped at a thousand cells.
pub open spec fn spec_offset_cells(v: int) -> int {
    let q = if v >= 0 { v / 1000000 } else { -((-v) / 1000000) };
    if q > 1000 { 1000int } else if q < -1000 { -1000int } else { q }
}

/// The toroidally wrapped cell a hop of the given vector reaches. Hops are
/// capped at a thousand cells, so adding four grid widths makes the
/// wrapped coordinate nonnegative before the modulus.
pub open spec fn spec_wind_target(index: CellIndex, vec: (i64, i64)) -> CellIndex {
    let n = AREA_SIDE_LENGTH as int;
    let tx = (index.x + spec_offset_cells(vec.0 as int) + 4 * n) % n;
    let ty = (index.y + spec_offset_cells(vec.1 as int) + 4 * n) % n;
    CellIndex { x: tx as usize, y: ty as usize }
}

/// The grid after the saltation lift and landing (before reptation): the
/// struck cell loses the smaller of the carrying capacity and its sand,
/// and the target cell gains it.
pub open spec fn spec_saltation_mid(pre: Seq<Cell>, index: CellIndex, vec: (i64, i64))
    -> Seq<Cell> {
    let moved = spec_moved_height(pre, index);
    let target = spec_wind_target(index, vec);
    let ci = Cell {
        sand: match pre[flat_of(index)].sand {
            Some(s) => Some(Sand { height: sat_sub(s.height, moved) }),
            None => None,
        },
        ..pre[flat_of(index)]
    };
    let mid = pre.update(flat_of(index), ci);
    let ct = Cell {
        sand: Some(Sand { height: sat_add_cap(mid[flat_of(target)].sand_um(), moved) }),
        ..mid[flat_of(target)]
    };
    mid.update(flat_of(target), ct)
}

/// The sand height one wind event lifts from a cell.
pub open spec fn spec_moved_height(pre: Seq<Cell>, index: CellIndex) -> u64 {
    let sand = pre[flat_of(index)].sand_um();
    if CARRYING_CAPACITY_UM < sand { CARRYING_CAPACITY_UM } else { sand }
}


/// The effective transport vector of a wind event: the locally warped wind
/// when wind state is present, the default global wind otherwise.
pub open spec fn spec_wind_vec(eco: Ecosystem, index: CellIndex) -> (i64, i64) {
    match eco.wind_state {
        Some(ws) => {
            let v = spec_local_wind(
                eco.cells@,
                ws.high_freq_convolution@,
                ws.low_freq_convolution@,
                index,
                ws.wind_direction as int,
                ws.wind_strength,
            );
            (v.0 as i64, v.1 as i64)
        },
        None => {
            let capped: u64 = if WIND_STRENGTH_U > 1000000000000 {
                1000000000000u64
            } else {
                WIND_STRENGTH_U
            };
            let unit = spec_dir_vector(WIND_DIRECTION_MILLIDEG as int);
            (
                spec_trunc_million(unit.0 * capped) as i64,
                spec_trunc_million(unit.1 * capped) as i64,
            )
        },
    }
}

/// Wind kernel: lifts up to the carrying capacity of sand, transports it
/// downwind to a toroidally wrapped target, lets it bounce onward or
/// settle by the bounce probability, and performs reptation at the landing
/// cell. The whole transport is pinned up to the local wind vector: for
/// that vector the struck cell loses exactly the lifted height, the
/// wrapped target gains it, and reptation redistributes exactly as
/// `spec_reptation_grid` says; only the bounce-or-settle return depends on
/// the draw.
#[verifier::rlimit(100)]
#[verifier::spinoff_prover]
pub fn apply_wind_event(eco: &mut Ecosystem, index: CellIndex) -> (r: Option<
    (Events, CellIndex),
>)
    requires
        old(eco).wf(),
        in_bounds(index),
    ensures
        final(eco).wf(),
        final(eco).wind_state == old(eco).wind_state,
        crate::events::climate_preserved(*old(eco), *final(eco)),
        ({
            let vec = spec_wind_vec(*old(eco), index);
            let target = spec_wind_target(index, vec);
            &&& final(eco).cells@ == spec_reptation_grid(
                spec_saltation_mid(old(eco).cells@, index, vec),
                target,
                spec_moved_height(old(eco).cells@, index),
            )
            &&& (r is None || r == Some((Events::Wind, target)))
        }),
        forall|q: CellIndex| in_bounds(q)
            ==> sand_only_change(old(eco).cell_at(q), #[trigger] final(eco).cell_at(q)),
        r matches Some(p) ==> p.0 == Events::Wind && in_bounds(p.1),
{
    let ghost pre = *eco;
    let (wind_dir, wind_str) = match &eco.wind_state {
        Some(ws) => (ws.wind_direction, ws.wind_strength),
        None => (WIND_DIRECTION_MILLIDEG, WIND_STRENGTH_U),
    };
    proof {
        assert(wind_dir < 360000);
    }

    // the transport vector: the locally warped wind where wind state is
    // present, the global wind otherwise
    let vec: (i64, i64) = if eco.wind_state.is_some() {
        get_local_wind(eco, index, wind_dir, wind_str)
    } else {
        let capped = if wind_str > 1000000000000 { 1000000000000 } else { wind_str };
        let unit = dir_vector(wind_dir);
        (scale_unit(unit.0, capped), scale_unit(unit.1, capped))
    };

    // saltation: lift a slab of sand
    proof {
        lemma_flat_in_range(index);
    }
    let cell = eco.cell_mut(index);
    let sand_height = cell.get_sand_height();
    let moved_height = if CARRYING_CAPACITY_UM < sand_height {
        CARRYING_CAPACITY_UM
    } else {
        sand_height
    };
    cell.remove_sand(moved_height);

    // transport downwind, wrapping toroidally
    let dir = dir_vector(wind_dir);
    let shadow = get_wind_shadowing(eco, index, dir);
    let off_x: i64 = offset_cells(vec.0);
    let off_y: i64 = offset_cells(vec.1);
    let n = AREA_SIDE_LENGTH as i64;
    let tx = (index.x as i64 + off_x + 4 * n) % n;
    let ty = (index.y as i64 + off_y + 4 * n) % n;
    let target_index = CellIndex::new(tx as usize, ty as usize);
    proof {
        assert(target_index == spec_wind_target(index, vec));
        lemma_flat_in_range(target_index);
    }
    let target = eco.cell_mut(target_index);
    target.add_sand(moved_height);
    let ghost mid_cells = eco.cells@;
    proof {
        assert(mid_cells =~= spec_saltation_mid(pre.cells@, index, vec));
    }

    // the slab bounces onward or settles
    let bounce_probability = get_bounce_probability(eco, index, shadow);
    let draw = rng_below(PPM);
    let result = if draw > bounce_probability {
        Some((Events::Wind, target_index))
    } else {
        None
    };

    proof {
        lemma_sand_only_wf(pre, *eco);
        assert forall|q: CellIndex| in_bounds(q)
            implies sand_only_change(pre.cell_at(q), #[trigger] eco.cell_at(q)) by {
            lemma_flat_in_range(q);
        }
    }
    perform_reptation(eco, target_index, moved_height);
    proof {
        assert forall|q: CellIndex| in_bounds(q)
            implies sand_only_change(pre.cell_at(q), #[trigger] eco.cell_at(q)) by {
            lemma_flat_in_range(q);
        }
        // the computed local wind vector is exactly the specified one
        assert(vec == spec_wind_vec(pre, index));
        assert(moved_height == spec_moved_height(pre.cells@, index));
        assert(target_index == spec_wind_target(index, vec));
        assert(eco.cells@ == spec_reptation_grid(mid_cells, target_index, moved_height));
        assert(mid_cells == spec_saltation_mid(pre.cells@, index, vec));
        assert(eco.cells@ == spec_reptation_grid(
            spec_saltation_mid(pre.cells@, index, vec),
            spec_wind_target(index, vec),
            spec_moved_height(pre.cells@, index),
        ));
        assert(result is None || result == Some((Events::Wind, spec_wind_target(index, vec))));
        crate::events::lemma_climate_from_cells(pre, *eco);
    }
    result
}

/// Sign-split division by ten.
fn div10(v: i64) -> (r: i64)
    requires
        -3000000000000 <= v <= 3000000000000,
    ensures
        r == spec_div10(v as int),
        -300000000000 <= r <= 300000000000,
{
    proof {
        if v >= 0 {
            vstd::arithmetic::div_mod::lemma_div_is_ordered(v as int, 3000000000000, 10);
            vstd::arithmetic::div_mod::lemma_div_pos_is_pos(v as int, 10);
        } else {
            vstd::arithmetic::div_mod::lemma_div_is_ordered(-(v as int), 3000000000000, 10);
            vstd::arithmetic::div_mod::lemma_div_pos_is_pos(-(v as int), 10);
        }
    }
    if v >= 0 {
        v / 10
    } else {
        -((-v) / 10)
    }
}

/// A strength-vector component turned into a whole-cell hop count,
/// truncated toward zero and capped at a thousand cells.
fn offset_cells(v: i64) -> (r: i64)
    requires
        -1000000000000 <= v <= 1000000000000,
    ensures
        r == spec_offset_cells(v as int),
        -1000 <= r <= 1000,
{
    proof {
        if v >= 0 {
            vstd::arithmetic::div_mod::lemma_div_pos_is_pos(v as int, 1000000);
        } else {
            vstd::arithmetic::div_mod::lemma_div_pos_is_pos(-(v as int), 1000000);
        }
    }
    let q: i64 = if v >= 0 {
        v / 1000000
    } else {
        -((-v) / 1000000)
    };
    if q > 1000 {
        1000
    } else if q < -1000 {
        -1000
    } else {
        q
    }
}

/// The blurred height at a flat position, clamped into the range the slope
/// kernel accepts.
pub open spec fn spec_blurred_height(field: Seq<u64>, flat: int) -> u64 {
    if field[flat] > 0x8000000000000000 { 0x8000000000000000u64 } else { field[flat] }
}

/// Computes `spec_blurred_height`.
fn blurred_height(field: &Vec<u64>, flat: usize) -> (r: u64)
    requires
        field@.len() == NUM_CELLS,
        flat < NUM_CELLS,
    ensures
        r == spec_blurred_height(field@, flat as int),
        r <= 0x8000000000000000,
{
    let h = field[flat];
    if h > 0x8000000000000000 {
        0x8000000000000000
    } else {
        h
    }
}

/// The slope between two adjacent cells of a blurred heightfield, in parts
/// per million.
pub open spec fn spec_slope_blurred(field: Seq<u64>, i1: CellIndex, i2: CellIndex) -> int {
    crate::ecosystem::spec_slope_ppm(
        spec_blurred_height(field, flat_of(i1)) as int,
        spec_blurred_height(field, flat_of(i2)) as int,
        crate::ecosystem::dist2_cells(i1, i2),
    )
}

/// Computes `spec_slope_blurred`.
fn slope_blurred(
    field: &Vec<u64>,
    i1: CellIndex,
    i2: CellIndex,
) -> (r: i64)
    requires
        field@.len() == NUM_CELLS,
        in_bounds(i1),
        in_bounds(i2),
        i1 != i2,
        crate::ecosystem::dist2_cells(i1, i2) <= 2,
    ensures
        r == spec_slope_blurred(field@, i1, i2),
        -1000000 <= r <= 1000000,
{
    proof {
        crate::ecosystem::lemma_flat_in_range(i1);
        crate::ecosystem::lemma_flat_in_range(i2);
    }
    let h1 = blurred_height(field, i1.flat());
    let h2 = blurred_height(field, i2.flat());
    let dx: i64 = i1.x as i64 - i2.x as i64;
    let dy: i64 = i1.y as i64 - i2.y as i64;
    proof {
        assert(1 <= dx * dx + dy * dy <= 2 && dx * dx >= 0 && dy * dy >= 0)
            by (nonlinear_arith)
            requires
                dx == i1.x - i2.x,
                dy == i1.y - i2.y,
                (i1.x - i2.x) * (i1.x - i2.x) + (i1.y - i2.y) * (i1.y - i2.y) <= 2,
                i1.x != i2.x || i1.y != i2.y,
        ;
    }
    let dist2: u128 = (dx * dx + dy * dy) as u128;
    let (dh, neg) = if h1 >= h2 {
        (h1 - h2, false)
    } else {
        (h2 - h1, true)
    };
    proof {
        assert((dh as int) * (dh as int) <= 0x8000000000000000 * 0x8000000000000000)
            by (nonlinear_arith)
            requires 0 <= dh as int <= 0x8000000000000000;
    }
    let rad: u128 = dist2 * 1000000000000u128 + (dh as u128) * (dh as u128);
    let root = crate::math::isqrt_u128(rad);
    proof {
        crate::math::lemma_sqrt_floor_bounds(rad as int);
        crate::math::lemma_sqrt_floor_ge(rad as int, dh as int);
        crate::math::lemma_sqrt_floor_ge(rad as int, 1);
        if dh > 0 {
            vstd::arithmetic::div_mod::lemma_div_is_ordered_by_denominator(
                (dh as int) * 1000000, dh as int, root as int);
            assert((dh as int) * 1000000 / (dh as int) == 1000000) by (nonlinear_arith)
                requires dh as int > 0;
            vstd::arithmetic::div_mod::lemma_div_pos_is_pos(
                (dh as int) * 1000000, root as int);
        }
    }
    let q: u128 = (dh as u128) * 1000000 / root;
    if neg {
        -(q as i64)
    } else {
        q as i64
    }
}

/// One step of the gradient scan: a neighbor with a larger blurred slope
/// displaces the running maximum and records the direction from it toward
/// the cell.
pub open spec fn spec_gradient_step(
    field: Seq<u64>,
    index: CellIndex,
    o: Option<CellIndex>,
    acc: (i64, (i64, i64)),
) -> (i64, (i64, i64)) {
    match o {
        None => acc,
        Some(j) => {
            let s = spec_slope_blurred(field, index, j) as i64;
            if s > acc.0 {
                (s, ((index.x - j.x) as i64, (index.y - j.y) as i64))
            } else {
                acc
            }
        },
    }
}

/// The gradient scan folded over a list of neighbor slots.
pub open spec fn spec_gradient_from(
    field: Seq<u64>,
    index: CellIndex,
    opts: Seq<Option<CellIndex>>,
    acc: (i64, (i64, i64)),
) -> (i64, (i64, i64))
    decreases opts.len(),
{
    if opts.len() == 0 {
        acc
    } else {
        spec_gradient_from(field, index, opts.subrange(1, opts.len() as int),
            spec_gradient_step(field, index, opts[0], acc))
    }
}

/// The steepest blurred rise around a cell and its direction.
pub open spec fn spec_gradient(field: Seq<u64>, index: CellIndex) -> (i64, (i64, i64)) {
    spec_gradient_from(field, index, crate::slide::neighbor_opts(index),
        (-1000000i64, (0i64, 0i64)))
}

/// The steepest rise of a blurred heightfield around a cell, and the grid
/// direction it comes from: exactly `spec_gradient`.
fn get_slope_at_point_blurred(
    eco: &Ecosystem,
    index: CellIndex,
    high_freq: bool,
) -> (r: (i64, (i64, i64)))
    requires
        eco.wf(),
        eco.wind_state is Some,
        in_bounds(index),
    ensures
        r == spec_gradient(
            if high_freq {
                eco.wind_state->0.high_freq_convolution@
            } else {
                eco.wind_state->0.low_freq_convolution@
            },
            index,
        ),
        -1000000 <= r.0 <= 1000000,
        -1 <= r.1.0 <= 1 && -1 <= r.1.1 <= 1,
{
    proof {
        crate::slide::lemma_neighbor_slots(index);
    }
    let field = match &eco.wind_state {
        Some(ws) => if high_freq {
            &ws.high_freq_convolution
        } else {
            &ws.low_freq_convolution
        },
        None => {
            return (0, (0, 0));
        },
    };
    let arr = index.get_neighbors().as_array();
    let ghost opts = crate::slide::neighbor_opts(index);
    proof {
        assert(arr@ =~= opts);
        assert(opts.skip(0) =~= opts);
    }
    let mut max_slope: i64 = -1000000;
    let mut dir: (i64, i64) = (0, 0);
    let mut k: usize = 0;
    while k < 8
        invariant
            field@.len() == NUM_CELLS,
            in_bounds(index),
            k <= 8,
            arr@ == opts,
            opts == crate::slide::neighbor_opts(index),
            spec_gradient_from(field@, index, opts.skip(k as int), (max_slope, dir))
                == spec_gradient(field@, index),
            -1000000 <= max_slope <= 1000000,
            -1 <= dir.0 <= 1 && -1 <= dir.1 <= 1,
            forall|kk: int| 0 <= kk < 8 ==> ((#[trigger] arr@[kk]) matches Some(j)
                ==> in_bounds(j) && j != index
                    && 1 <= crate::ecosystem::dist2_cells(index, j) <= 2),
        decreases 8 - k,
    {
        proof {
            assert(opts.skip(k as int).subrange(1, opts.skip(k as int).len() as int)
                =~= opts.skip(k + 1));
            assert(opts.skip(k as int)[0] == opts[k as int]);
        }
        if let Some(j) = arr[k] {
            let s = slope_blurred(field, index, j);
            if s > max_slope {
                max_slope = s;
                dir = (index.x as i64 - j.x as i64, index.y as i64 - j.y as i64);
                proof {
                    assert(-1 <= index.x - j.x <= 1 && -1 <= index.y - j.y <= 1)
                        by (nonlinear_arith)
                        requires
                            (index.x - j.x) * (index.x - j.x)
                                + (index.y - j.y) * (index.y - j.y) <= 2,
                    ;
                }
            }
        }
        k += 1;
    }
    proof {
        assert(opts.skip(8) =~= Seq::<Option<CellIndex>>::empty());
    }
    (max_slope, dir)
}


/// Sign-split division by ten, as the executable combiner computes it.
pub open spec fn spec_div10(v: int) -> int {
    if v >= 0 { v / 10 } else { -((-v) / 10) }
}

/// One gradient warp of the wind vector: the across-slope direction is
/// aligned with the wind, and the vector turns toward it by the gradient
/// magnitude times the deviation.
pub open spec fn spec_warp(
    field: Seq<u64>,
    index: CellIndex,
    base: (i64, i64),
    unit: (i64, i64),
    deviation: int,
) -> (int, int) {
    let g = spec_gradient(field, index);
    let alpha = g.0 as int;
    let orth0: (int, int) = (g.1.1 as int, -(g.1.0 as int));
    let orth: (int, int) = if orth0.0 * unit.0 + orth0.1 * unit.1 < 0 {
        (-orth0.0, -orth0.1)
    } else {
        orth0
    };
    let keep = 1000000 - alpha;
    (
        spec_warp_component(base.0 as int, keep, alpha, deviation, orth.0),
        spec_warp_component(base.1 as int, keep, alpha, deviation, orth.1),
    )
}

/// The local wind vector at a cell, in micro-strength units: the sampled
/// wind accelerated by altitude, warped by the high- and low-frequency
/// terrain gradients with weights one fifth and four fifths, then
/// attenuated by wind shadowing.
pub open spec fn spec_local_wind(
    cells: Seq<Cell>,
    hf: Seq<u64>,
    lf: Seq<u64>,
    index: CellIndex,
    wind_dir: int,
    wind_str: u64,
) -> (int, int) {
    let h = cells[flat_of(index)].height_um();
    let venturi = if h / 200 > 9000000 { 9000000int } else { h / 200 };
    let strength0 = wind_str * (1000000 + venturi) / 1000000;
    let strength = if strength0 > 1000000000000 { 1000000000000int } else { strength0 };
    let unit = spec_dir_vector(wind_dir);
    let base: (i64, i64) = (
        spec_trunc_million(unit.0 * strength) as i64,
        spec_trunc_million(unit.1 * strength) as i64,
    );
    let uvec: (i64, i64) = (unit.0 as i64, unit.1 as i64);
    let wh = spec_warp(hf, index, base, uvec, 5);
    let wl = spec_warp(lf, index, base, uvec, 30);
    let combined: (int, int) = (
        2 * spec_div10(wh.0) + 8 * spec_div10(wl.0),
        2 * spec_div10(wh.1) + 8 * spec_div10(wl.1),
    );
    let shadow = spec_wind_shadow_ppm(cells, index, uvec);
    (
        spec_attenuate(combined.0, 1000000 - shadow),
        spec_attenuate(combined.1, 1000000 - shadow),
    )
}

/// The local wind at a cell, as a vector in micro-strength units: the
/// sampled wind accelerated by altitude (Venturi effect), steered twice by
/// the blurred terrain gradients (a strong low-frequency warp and a gentler
/// high-frequency one), then attenuated by wind shadowing. Components are
/// clamped to a million strength units.
pub fn get_local_wind(
    eco: &Ecosystem,
    index: CellIndex,
    wind_dir_millideg: u64,
    wind_str: u64,
) -> (r: (i64, i64))
    requires
        eco.wf(),
        eco.wind_state is Some,
        in_bounds(index),
        wind_dir_millideg < 360000,
    ensures
        (r.0 as int, r.1 as int) == spec_local_wind(
            eco.cells@,
            eco.wind_state->0.high_freq_convolution@,
            eco.wind_state->0.low_freq_convolution@,
            index,
            wind_dir_millideg as int,
            wind_str,
        ),
        -1000000000000 <= r.0 <= 1000000000000,
        -1000000000000 <= r.1 <= 1000000000000,
{
    proof {
        crate::ecosystem::lemma_cell_height_bound(eco.cell_at(index));
    }
    // Venturi acceleration with altitude
    let height = eco.height_at(index);
    let venturi: u64 = {
        let v = height / 200;
        if v > 9000000 { 9000000 } else { v }
    };
    let sc: u128 = 1000000 + venturi as u128;
    proof {
        assert((wind_str as int) * (sc as int) <= 0xffffffffffffffff * 10000000)
            by (nonlinear_arith)
            requires wind_str <= 0xffffffffffffffff, 0 <= sc <= 10000000;
        assert((wind_str as int) * (sc as int) >= 0) by (nonlinear_arith)
            requires wind_str >= 0, sc >= 0;
    }
    let strength: u64 = {
        let s = (wind_str as u128) * sc / 1000000;
        if s > 1000000000000u128 { 1000000000000 } else { s as u64 }
    };
    let unit = dir_vector(wind_dir_millideg);
    let base: (i64, i64) = (
        scale_unit(unit.0, strength),
        scale_unit(unit.1, strength),
    );

    // two gradient warps, high frequency gentle and low frequency strong
    let warp_high = warp_by_gradient(eco, index, base, unit, true, 5);
    let warp_low = warp_by_gradient(eco, index, base, unit, false, 30);
    let combined: (i64, i64) = (
        2 * div10(warp_high.0) + 8 * div10(warp_low.0),
        2 * div10(warp_high.1) + 8 * div10(warp_low.1),
    );

    // wind shadowing attenuates the whole vector
    let shadow = get_wind_shadowing(eco, index, unit);
    let keep: i64 = 1000000 - shadow;
    (attenuate(combined.0, keep), attenuate(combined.1, keep))
}

/// `unit * strength / 10^6` for a unit component in [-10^6, 10^6].
fn scale_unit(unit: i64, strength: u64) -> (r: i64)
    requires
        -1000000 <= unit <= 1000000,
        strength <= 1000000000000,
    ensures
        r == spec_trunc_million(unit * strength),
        -1000000000000 <= r <= 1000000000000,
{
    proof {
        assert(-1000000000000000000 <= unit * strength <= 1000000000000000000)
            by (nonlinear_arith)
            requires -1000000 <= unit <= 1000000, 0 <= strength <= 1000000000000;
        if unit >= 0 {
            vstd::arithmetic::div_mod::lemma_div_is_ordered(
                (unit as int) * (strength as int), 1000000000000000000, 1000000);
            vstd::arithmetic::div_mod::lemma_div_pos_is_pos(
                (unit as int) * (strength as int), 1000000);
        } else {
            assert((unit as int) * (strength as int) < 0 || (unit as int) * (strength as int)
                >= 0) by (nonlinear_arith);
            if (unit as int) * (strength as int) < 0 {
                vstd::arithmetic::div_mod::lemma_div_is_ordered(
                    -((unit as int) * (strength as int)), 1000000000000000000, 1000000);
                vstd::arithmetic::div_mod::lemma_div_pos_is_pos(
                    -((unit as int) * (strength as int)), 1000000);
            }
        }
    }
    let p: i128 = (unit as i128) * (strength as i128);
    if p >= 0 {
        (p / 1000000) as i64
    } else {
        (-((-p) / 1000000)) as i64
    }
}

/// One gradient warp: `(1 - a) * base + a * deviation * orth`, where `a` is
/// the blurred gradient magnitude and `orth` the across-slope direction
/// aligned with the wind.
fn warp_by_gradient(
    eco: &Ecosystem,
    index: CellIndex,
    base: (i64, i64),
    unit: (i64, i64),
    high_freq: bool,
    deviation: i64,
) -> (r: (i64, i64))
    requires
        eco.wf(),
        eco.wind_state is Some,
        in_bounds(index),
        -1000000000000 <= base.0 <= 1000000000000,
        -1000000000000 <= base.1 <= 1000000000000,
        -1000000 <= unit.0 <= 1000000,
        -1000000 <= unit.1 <= 1000000,
        0 < deviation <= 30,
    ensures
        (r.0 as int, r.1 as int) == spec_warp(
            if high_freq {
                eco.wind_state->0.high_freq_convolution@
            } else {
                eco.wind_state->0.low_freq_convolution@
            },
            index, base, unit, deviation as int,
        ),
        -3000000000000 <= r.0 <= 3000000000000,
        -3000000000000 <= r.1 <= 3000000000000,
{
    let (alpha, gdir) = get_slope_at_point_blurred(eco, index, high_freq);
    let mut orth: (i64, i64) = (gdir.1, -gdir.0);
    proof {
        assert(-1000000 <= orth.0 * unit.0 <= 1000000 && -1000000 <= orth.1 * unit.1
            <= 1000000) by (nonlinear_arith)
            requires
                -1 <= orth.0 <= 1,
                -1 <= orth.1 <= 1,
                -1000000 <= unit.0 <= 1000000,
                -1000000 <= unit.1 <= 1000000,
        ;
    }
    if orth.0 * unit.0 + orth.1 * unit.1 < 0 {
        orth = (-orth.0, -orth.1);
    }
    let keep: i64 = 1000000 - alpha;
    (
        warp_component(base.0, keep, alpha, deviation, orth.0),
        warp_component(base.1, keep, alpha, deviation, orth.1),
    )
}

/// `keep * base / 10^6 + alpha * deviation * orth` for one component.
pub open spec fn spec_warp_component(base: int, keep: int, alpha: int, deviation: int, orth: int)
    -> int {
    spec_trunc_million(keep * base) + alpha * deviation * orth
}

/// Computes `spec_warp_component`.
fn warp_component(base: i64, keep: i64, alpha: i64, deviation: i64, orth: i64) -> (r: i64)
    requires
        -1000000000000 <= base <= 1000000000000,
        0 <= keep <= 2000000,
        -1000000 <= alpha <= 1000000,
        0 < deviation <= 30,
        -1 <= orth <= 1,
    ensures
        r == spec_warp_component(base as int, keep as int, alpha as int, deviation as int,
            orth as int),
        -3000000000000 <= r <= 3000000000000,
{
    proof {
        assert(-2000000000000000000 <= (keep as int) * (base as int)
            <= 2000000000000000000) by (nonlinear_arith)
            requires 0 <= keep <= 2000000, -1000000000000 <= base <= 1000000000000;
        let kb = (keep as int) * (base as int);
        if kb >= 0 {
            vstd::arithmetic::div_mod::lemma_div_is_ordered(kb, 2000000000000000000, 1000000);
            vstd::arithmetic::div_mod::lemma_div_pos_is_pos(kb, 1000000);
        } else {
            vstd::arithmetic::div_mod::lemma_div_is_ordered(-kb, 2000000000000000000, 1000000);
            vstd::arithmetic::div_mod::lemma_div_pos_is_pos(-kb, 1000000);
        }
        assert(-30000000 <= (alpha as int) * (deviation as int) * (orth as int) <= 30000000)
            by (nonlinear_arith)
            requires
                -1000000 <= alpha <= 1000000,
                0 < deviation <= 30,
                -1 <= orth <= 1,
        ;
    }
    let kb: i128 = (keep as i128) * (base as i128);
    let scaled: i64 = if kb >= 0 {
        (kb / 1000000) as i64
    } else {
        (-((-kb) / 1000000)) as i64
    };
    proof {
        assert(-30000000 <= (alpha as int) * (deviation as int) <= 30000000
            && -30000000 <= (alpha as int) * (deviation as int) * (orth as int) <= 30000000)
            by (nonlinear_arith)
            requires
                -1000000 <= alpha <= 1000000,
                0 < deviation <= 30,
                -1 <= orth <= 1,
        ;
    }
    scaled + alpha * deviation * orth
}

/// `v * keep / 10^6`, clamped to a million strength units.
pub open spec fn spec_attenuate(v: int, keep: int) -> int {
    let q = spec_trunc_million(v * keep);
    if q > 1000000000000 { 1000000000000int }
    else if q < -1000000000000 { -1000000000000int }
    else { q }
}

/// Computes `spec_attenuate`: shadow attenuation of one component.
fn attenuate(v: i64, keep: i64) -> (r: i64)
    requires
        -3000000000000 <= v <= 3000000000000,
        -1000000 <= keep <= 3000000,
    ensures
        r == spec_attenuate(v as int, keep as int),
        -1000000000000 <= r <= 1000000000000,
{
    proof {
        assert(-9000000000000000000 <= (v as int) * (keep as int) <= 9000000000000000000)
            by (nonlinear_arith)
            requires -3000000000000 <= v <= 3000000000000, -1000000 <= keep <= 3000000;
        let p = (v as int) * (keep as int);
        if p >= 0 {
            vstd::arithmetic::div_mod::lemma_div_is_ordered(p, 9000000000000000000, 1000000);
            vstd::arithmetic::div_mod::lemma_div_pos_is_pos(p, 1000000);
        } else {
            vstd::arithmetic::div_mod::lemma_div_is_ordered(-p, 9000000000000000000, 1000000);
            vstd::arithmetic::div_mod::lemma_div_pos_is_pos(-p, 1000000);
        }
    }
    let p: i128 = (v as i128) * (keep as i128);
    let q: i64 = if p >= 0 {
        (p / 1000000) as i64
    } else {
        (-((-p) / 1000000)) as i64
    };
    if q > 1000000000000 {
        1000000000000
    } else if q < -1000000000000 {
        -1000000000000
    } else {
        q
    }
}

} // verus!
