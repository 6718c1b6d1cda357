//! Granular slides: sand, rock and humus avalanche onto a neighbor once the
//! descending slope exceeds the material's angle of repose. The three kernels
//! share one verified core; the neighbor is chosen by a weighted draw over
//! the critical neighbors' slopes, and the transferred height is exactly the
//! amount that moves the slope halfway back toward the critical angle.
//!
//! A slide conserves material: what leaves the source cell arrives at the
//! chosen neighbor, and no other cell changes.

use vstd::prelude::*;
use vstd::arithmetic::div_mod::lemma_div_is_ordered_by_denominator;
use crate::cell::{Cell, Humus, Rock, Sand, sat_add_cap};
use crate::constants::{
    IDEAL_OFFSET_HUMUS_DIAG, IDEAL_OFFSET_HUMUS_STRAIGHT, IDEAL_OFFSET_ROCK_DIAG,
    IDEAL_OFFSET_ROCK_STRAIGHT, IDEAL_OFFSET_SAND_DIAG, IDEAL_OFFSET_SAND_STRAIGHT, LAYER_CAP,
    PPM, TAN2_HUMUS_E12, TAN2_ROCK_E12, TAN2_SAND_E12,
};
use crate::ecosystem::{
    dist2_cells, flat_of, lemma_cell_height_bound, lemma_flat_injective, lemma_flat_in_range,
    spec_slope_ppm, Ecosystem,
};
use crate::events::Events;
use crate::grid::{in_bounds, spec_neighbors, CellIndex};
use crate::math::{lemma_sqrt_floor_bounds, lemma_sqrt_floor_ge, lemma_sqrt_floor_le, sqrt_floor};
use crate::rng::rng_below;

verus! {

/// The three materials that can slide.
#[derive(PartialEq, Eq, Structural, Clone, Copy, Debug)]
pub enum Material {
    Sand,
    Rock,
    Humus,
}

/// Height of the given material layer in a cell.
pub open spec fn mat_um(m: Material, c: Cell) -> u64 {
    match m {
        Material::Sand => c.sand_um(),
        Material::Rock => c.rock_um(),
        Material::Humus => c.humus_um(),
    }
}

/// tan^2 of the material's critical angle, scaled by 10^12.
pub open spec fn spec_tan2_e12(m: Material) -> int {
    match m {
        Material::Sand => TAN2_SAND_E12 as int,
        Material::Rock => TAN2_ROCK_E12 as int,
        Material::Humus => TAN2_HUMUS_E12 as int,
    }
}

/// tan of the critical angle times the neighbor distance, in micrometers.
pub open spec fn spec_ideal_offset(m: Material, diagonal: bool) -> u64 {
    match m {
        Material::Sand => if diagonal { IDEAL_OFFSET_SAND_DIAG } else { IDEAL_OFFSET_SAND_STRAIGHT },
        Material::Rock => if diagonal { IDEAL_OFFSET_ROCK_DIAG } else { IDEAL_OFFSET_ROCK_STRAIGHT },
        Material::Humus => if diagonal {
            IDEAL_OFFSET_HUMUS_DIAG
        } else {
            IDEAL_OFFSET_HUMUS_STRAIGHT
        },
    }
}

/// The propagated event kind for each material.
pub open spec fn spec_event_of(m: Material) -> Events {
    match m {
        Material::Sand => Events::SandSlide,
        Material::Rock => Events::RockSlide,
        Material::Humus => Events::HumusSlide,
    }
}

/// The slope from `i` down to `j` is at least the material's critical angle:
/// equivalently, the squared height drop beats tan^2 of the critical angle
/// times the squared planar distance.
pub open spec fn is_critical(eco: Ecosystem, i: CellIndex, j: CellIndex, m: Material) -> bool {
    let hi = eco.cell_at(i).height_um();
    let hj = eco.cell_at(j).height_um();
    hi > hj && (hi - hj) * (hi - hj) >= spec_tan2_e12(m) * dist2_cells(i, j)
}

/// Selection weight of a neighbor: the slope toward it, in parts per million.
pub open spec fn weight_of(eco: Ecosystem, i: CellIndex, j: CellIndex) -> int {
    spec_slope_ppm(eco.cell_at(i).height_um(), eco.cell_at(j).height_um(), dist2_cells(i, j))
}

/// The neighbor slots of `i` in the fixed scan order.
pub open spec fn neighbor_opts(i: CellIndex) -> Seq<Option<CellIndex>> {
    let n = spec_neighbors(i);
    seq![n.northwest, n.north, n.northeast, n.west, n.east, n.southwest, n.south, n.southeast]
}

/// Sum of the selection weights of the critical neighbors among `opts`.
pub open spec fn total_weight(
    eco: Ecosystem,
    i: CellIndex,
    m: Material,
    opts: Seq<Option<CellIndex>>,
) -> int
    decreases opts.len(),
{
    if opts.len() == 0 {
        0
    } else {
        (match opts[0] {
            Some(j) => if is_critical(eco, i, j, m) { weight_of(eco, i, j) } else { 0 },
            None => 0,
        }) + total_weight(eco, i, m, opts.subrange(1, opts.len() as int))
    }
}

/// Weighted selection: scanning `opts` in order, the first critical neighbor
/// whose weight exceeds the remaining draw is chosen; otherwise the draw is
/// reduced by that weight and the scan continues.
pub open spec fn pick_from(
    eco: Ecosystem,
    i: CellIndex,
    m: Material,
    opts: Seq<Option<CellIndex>>,
    draw: int,
) -> Option<CellIndex>
    decreases opts.len(),
{
    if opts.len() == 0 {
        None
    } else {
        let rest = opts.subrange(1, opts.len() as int);
        match opts[0] {
            Some(j) => if is_critical(eco, i, j, m) {
                if draw < weight_of(eco, i, j) {
                    Some(j)
                } else {
                    pick_from(eco, i, m, rest, draw - weight_of(eco, i, j))
                }
            } else {
                pick_from(eco, i, m, rest, draw)
            },
            None => pick_from(eco, i, m, rest, draw),
        }
    }
}

/// The height of material that slides from `i` to its neighbor `j`: half the
/// material if even the non-material base reaches the critical profile over
/// `j`, otherwise half of what stands above that profile, and nothing when
/// the whole column is below it.
pub open spec fn slide_transfer_um(eco: Ecosystem, i: CellIndex, j: CellIndex, m: Material) -> u64 {
    let c = eco.cell_at(i);
    let mat = mat_um(m, c);
    let non_mat = c.height_um() - mat;
    let ideal = eco.cell_at(j).height_um()
        + spec_ideal_offset(m, dist2_cells(i, j) == 2);
    if non_mat >= ideal {
        (mat / 2) as u64
    } else if non_mat + mat >= ideal {
        ((non_mat + mat - ideal) / 2) as u64
    } else {
        0
    }
}

/// A copy of `c` whose layer of material `m` holds exactly height `h`.
pub open spec fn with_mat(c: Cell, m: Material, h: u64) -> Cell {
    match m {
        Material::Sand => Cell { sand: Some(Sand { height: h }), ..c },
        Material::Rock => Cell { rock: Some(Rock { height: h }), ..c },
        Material::Humus => Cell { humus: Some(Humus { height: h }), ..c },
    }
}

/// The grid after the slide `i -> j` of material `m`.
pub open spec fn spec_slide_grid(
    eco: Ecosystem,
    i: CellIndex,
    j: CellIndex,
    m: Material,
) -> Seq<Cell> {
    let t = slide_transfer_um(eco, i, j, m);
    let ci = with_mat(eco.cell_at(i), m, (mat_um(m, eco.cell_at(i)) - t) as u64);
    let cj = with_mat(eco.cell_at(j), m, sat_add_cap(mat_um(m, eco.cell_at(j)), t));
    eco.cells@.update(flat_of(i), ci).update(flat_of(j), cj)
}

/// Every filled neighbor slot holds an in-bounds index distinct from `i`, at
/// squared distance 1 or 2.
pub proof fn lemma_neighbor_slots(i: CellIndex)
    requires
        in_bounds(i),
    ensures
        forall|k: int| 0 <= k < 8 ==> ((#[trigger] neighbor_opts(i)[k]) matches Some(j)
            ==> in_bounds(j) && j != i && 1 <= dist2_cells(i, j) <= 2),
{
    let opts = neighbor_opts(i);
    assert forall|k: int| 0 <= k < 8 && (#[trigger] opts[k]) matches Some(j)
        implies (opts[k]->0).x < crate::constants::AREA_SIDE_LENGTH
            && (opts[k]->0).y < crate::constants::AREA_SIDE_LENGTH
            && opts[k]->0 != i && 1 <= dist2_cells(i, opts[k]->0) <= 2 by {
        let j = opts[k]->0;
        assert(1 <= dist2_cells(i, j) <= 2) by (nonlinear_arith)
            requires
                (i.x - j.x == 1 || i.x - j.x == 0 || i.x - j.x == -1),
                (i.y - j.y == 1 || i.y - j.y == 0 || i.y - j.y == -1),
                i.x != j.x || i.y != j.y,
                dist2_cells(i, j) == (i.x - j.x) * (i.x - j.x) + (i.y - j.y) * (i.y - j.y),
        ;
    }
}

/// A critical neighbor's selection weight lies between 1 and one million.
pub proof fn lemma_critical_weight(eco: Ecosystem, i: CellIndex, j: CellIndex, m: Material)
    requires
        eco.wf(),
        in_bounds(i),
        in_bounds(j),
        1 <= dist2_cells(i, j) <= 2,
        is_critical(eco, i, j, m),
    ensures
        1 <= weight_of(eco, i, j) <= 1000000,
{
    lemma_cell_height_bound(eco.cell_at(i));
    lemma_cell_height_bound(eco.cell_at(j));
    let hi = eco.cell_at(i).height_um() as int;
    let hj = eco.cell_at(j).height_um() as int;
    let dh = hi - hj;
    let d2 = dist2_cells(i, j);
    let rad = d2 * 1000000000000 + dh * dh;
    assert(dh >= 3) by (nonlinear_arith)
        requires dh >= 1, dh * dh >= spec_tan2_e12(m) * d2, spec_tan2_e12(m) >= 454961739293,
            d2 >= 1;
    lemma_sqrt_floor_bounds(rad);
    let root = sqrt_floor(rad);
    // root >= dh, so the quotient is at most one million
    lemma_sqrt_floor_ge(rad, dh);
    lemma_div_is_ordered_by_denominator(dh * 1000000, dh, root);
    assert(dh * 1000000 / dh == 1000000) by (nonlinear_arith) requires dh > 0;
    // root <= dh * 10^6, so the quotient is at least one
    assert((dh * 1000000) * (dh * 1000000) >= rad) by (nonlinear_arith)
        requires dh >= 3, d2 <= 2, rad == d2 * 1000000000000 + dh * dh;
    lemma_sqrt_floor_le(rad, dh * 1000000);
    lemma_div_is_ordered_by_denominator(dh * 1000000, root, dh * 1000000);
    assert((dh * 1000000) / (dh * 1000000) == 1) by (nonlinear_arith) requires dh >= 1;
    assert(root >= 1) by {
        lemma_sqrt_floor_ge(rad, 1);
    }
}

/// A draw below the total weight always selects some critical neighbor from
/// the list.
pub proof fn lemma_pick_some(
    eco: Ecosystem,
    i: CellIndex,
    m: Material,
    opts: Seq<Option<CellIndex>>,
    draw: int,
)
    requires
        0 <= draw < total_weight(eco, i, m, opts),
    ensures
        pick_from(eco, i, m, opts, draw) is Some,
        ({
            let j = pick_from(eco, i, m, opts, draw)->0;
            is_critical(eco, i, j, m) && exists|k: int|
                0 <= k < opts.len() && opts[k] == Some(j)
        }),
    decreases opts.len(),
{
    let rest = opts.subrange(1, opts.len() as int);
    match opts[0] {
        Some(j) => {
            if is_critical(eco, i, j, m) {
                if draw < weight_of(eco, i, j) {
                    assert(opts[0] == Some(j));
                } else {
                    lemma_pick_some(eco, i, m, rest, draw - weight_of(eco, i, j));
                    let jj = pick_from(eco, i, m, rest, draw - weight_of(eco, i, j))->0;
                    let k = choose|k: int| 0 <= k < rest.len() && rest[k] == Some(jj);
                    assert(opts[k + 1] == Some(jj));
                }
            } else {
                lemma_pick_some(eco, i, m, rest, draw);
                let jj = pick_from(eco, i, m, rest, draw)->0;
                let k = choose|k: int| 0 <= k < rest.len() && rest[k] == Some(jj);
                assert(opts[k + 1] == Some(jj));
            }
        },
        None => {
            lemma_pick_some(eco, i, m, rest, draw);
            let jj = pick_from(eco, i, m, rest, draw)->0;
            let k = choose|k: int| 0 <= k < rest.len() && rest[k] == Some(jj);
            assert(opts[k + 1] == Some(jj));
        },
    }
}

/// Selection weight of neighbor `j` as seen from `i`: positive exactly when
/// the slope toward `j` is critical for material `m`.
fn neighbor_weight(eco: &Ecosystem, i: CellIndex, j: CellIndex, m: Material) -> (w: u64)
    requires
        eco.wf(),
        in_bounds(i),
        in_bounds(j),
        j != i,
        1 <= dist2_cells(i, j) <= 2,
    ensures
        (w > 0) == is_critical(*eco, i, j, m),
        is_critical(*eco, i, j, m) ==> w == weight_of(*eco, i, j),
        w <= 1000000,
{
    let hi = eco.height_at(i);
    let hj = eco.height_at(j);
    if hi <= hj {
        return 0;
    }
    let dh = hi - hj;
    let dx: i64 = i.x as i64 - j.x as i64;
    let dy: i64 = i.y as i64 - j.y as i64;
    proof {
        assert(dx * dx + dy * dy == dist2_cells(i, j) && dx * dx >= 0 && dy * dy >= 0)
            by (nonlinear_arith)
            requires
                -256 <= dx <= 256,
                -256 <= dy <= 256,
                dist2_cells(i, j) == (i.x - j.x) * (i.x - j.x) + (i.y - j.y) * (i.y - j.y),
                dx == i.x - j.x,
                dy == i.y - j.y,
        ;
        lemma_cell_height_bound(eco.cell_at(i));
        lemma_cell_height_bound(eco.cell_at(j));
        assert((dh as int) * (dh as int) <= 0x8000000000000000 * 0x8000000000000000)
            by (nonlinear_arith)
            requires 0 <= dh as int <= 0x8000000000000000;
    }
    let dist2: u64 = (dx * dx + dy * dy) as u64;
    let tan2 = match m {
        Material::Sand => TAN2_SAND_E12,
        Material::Rock => TAN2_ROCK_E12,
        Material::Humus => TAN2_HUMUS_E12,
    };
    if (dh as u128) * (dh as u128) >= tan2 * (dist2 as u128) {
        proof {
            lemma_critical_weight(*eco, i, j, m);
        }
        let w = eco.get_slope_between_points(i, j);
        w as u64
    } else {
        0
    }
}

/// Applies one granular slide of material `m` at `index`, deciding the
/// target neighbor with the given draw (a fraction of one million). Returns
/// the propagation target, or `None` when no neighbor is below the critical
/// angle or the cell holds none of the material.
pub fn apply_slide_event_with(
    eco: &mut Ecosystem,
    index: CellIndex,
    m: Material,
    draw: u64,
) -> (r: Option<(Events, CellIndex)>)
    requires
        old(eco).wf(),
        in_bounds(index),
        draw < PPM,
    ensures
        final(eco).wf(),
        final(eco).wind_state == old(eco).wind_state,
        crate::events::climate_preserved(*old(eco), *final(eco)),
        ({
            let pre = *old(eco);
            let mat = mat_um(m, pre.cell_at(index));
            let total = total_weight(pre, index, m, neighbor_opts(index));
            let scaled = draw * total / (PPM as int);
            &&& (mat == 0 ==> r is None && final(eco).cells@ == pre.cells@)
            &&& (mat > 0 && total == 0 ==> r is None && final(eco).cells@ == pre.cells@)
            &&& (mat > 0 && total > 0 ==> {
                let picked = pick_from(pre, index, m, neighbor_opts(index), scaled);
                &&& picked is Some
                &&& r == Some((spec_event_of(m), picked->0))
                &&& final(eco).cells@ == spec_slide_grid(pre, index, picked->0, m)
            })
            &&& (r matches Some(p) ==> {
                let j = p.1;
                &&& p.0 == spec_event_of(m)
                &&& in_bounds(j) && j != index
                &&& is_critical(pre, index, j, m)
                &&& final(eco).cells@ == spec_slide_grid(pre, index, j, m)
                &&& (mat_um(m, pre.cell_at(index)) + mat_um(m, pre.cell_at(j)) <= LAYER_CAP
                    ==> mat_um(m, final(eco).cell_at(index)) + mat_um(m, final(eco).cell_at(j))
                        == mat_um(m, pre.cell_at(index)) + mat_um(m, pre.cell_at(j)))
                &&& forall|q: CellIndex| in_bounds(q) && q != index && q != j
                    ==> final(eco).cell_at(q) == pre.cell_at(q)
            })
        }),
{
    let ghost pre = *eco;
    let mat = match m {
        Material::Sand => eco.get_cell(index).get_sand_height(),
        Material::Rock => eco.get_cell(index).get_rock_height(),
        Material::Humus => eco.get_cell(index).get_humus_height(),
    };
    if mat == 0 {
        return None;
    }
    proof {
        lemma_neighbor_slots(index);
    }
    let neighbors = index.get_neighbors();
    let arr = neighbors.as_array();
    let ghost opts = neighbor_opts(index);
    proof {
        assert(arr@ =~= opts);
    }

    // total selection weight over all critical neighbors
    let mut total: u64 = 0;
    let mut k: usize = 0;
    while k < 8
        invariant
            eco.wf(),
            *eco == pre,
            in_bounds(index),
            k <= 8,
            arr@ == opts,
            opts == neighbor_opts(index),
            total == total_weight(pre, index, m, opts.take(k as int)),
            total as int <= k * 1000000,
            forall|kk: int| 0 <= kk < 8 ==> ((#[trigger] opts[kk]) matches Some(j)
                ==> in_bounds(j) && j != index && 1 <= dist2_cells(index, j) <= 2),
        decreases 8 - k,
    {
        proof {
            assert(opts.take(k as int).push(opts[k as int]) =~= opts.take(k + 1));
            lemma_total_weight_snoc(pre, index, m, opts.take(k as int), opts[k as int]);
        }
        if let Some(j) = arr[k] {
            let w = neighbor_weight(eco, index, j, m);
            proof {
                if is_critical(pre, index, j, m) {
                    lemma_critical_weight(pre, index, j, m);
                }
            }
            total += w;
        }
        k += 1;
    }
    proof {
        assert(opts.take(8) =~= opts);
    }
    if total == 0 {
        return None;
    }

    // weighted draw: scale the unit draw to the weight total and scan
    proof {
        assert(draw * total <= 1000000 * 8000000) by (nonlinear_arith)
            requires 0 <= draw <= 1000000, 0 <= total <= 8000000;
    }
    let scaled: u64 = draw * total / PPM;
    proof {
        assert(draw * total / (PPM as int) < total) by (nonlinear_arith)
            requires
                0 <= draw < PPM,
                total > 0,
                PPM == 1000000,
        ;
        lemma_pick_some(pre, index, m, opts, scaled as int);
    }
    let ghost picked = pick_from(pre, index, m, opts, scaled as int);
    proof {
        assert(opts.skip(0) =~= opts);
    }
    let mut rem: u64 = scaled;
    let mut k: usize = 0;
    while k < 8
        invariant
            eco.wf(),
            *eco == pre,
            pre == *old(eco),
            in_bounds(index),
            draw < PPM,
            k <= 8,
            arr@ == opts,
            opts == neighbor_opts(index),
            mat == mat_um(m, pre.cell_at(index)),
            mat > 0,
            total == total_weight(pre, index, m, opts),
            total > 0,
            scaled == draw * total / (PPM as int),
            picked == pick_from(pre, index, m, opts, draw * total / (PPM as int)),
            picked is Some,
            0 <= rem < total_weight(pre, index, m, opts.skip(k as int)),
            pick_from(pre, index, m, opts.skip(k as int), rem as int) == picked,
            forall|kk: int| 0 <= kk < 8 ==> ((#[trigger] opts[kk]) matches Some(j)
                ==> in_bounds(j) && j != index && 1 <= dist2_cells(index, j) <= 2),
        decreases 8 - k,
    {
        proof {
            assert(opts.skip(k as int).subrange(1, opts.skip(k as int).len() as int)
                =~= opts.skip(k + 1));
            assert(opts.skip(k as int)[0] == opts[k as int]);
        }
        if let Some(j) = arr[k] {
            let w = neighbor_weight(eco, index, j, m);
            if w > 0 {
                if rem < w {
                    // this neighbor is chosen: perform the transfer
                    proof {
                        assert(picked == Some(j));
                    }
                    let t = compute_height_to_slide(eco, index, j, m);
                    transfer(eco, index, j, m, t);
                    return Some((event_of(m), j));
                } else {
                    rem -= w;
                }
            }
        }
        k += 1;
    }
    proof {
        assert(opts.skip(8) =~= Seq::<Option<CellIndex>>::empty());
        assert(false);
    }
    None
}

/// Sum of weights over a list extended by one slot.
proof fn lemma_total_weight_snoc(
    eco: Ecosystem,
    i: CellIndex,
    m: Material,
    opts: Seq<Option<CellIndex>>,
    x: Option<CellIndex>,
)
    ensures
        total_weight(eco, i, m, opts.push(x)) == total_weight(eco, i, m, opts)
            + (match x {
                Some(j) => if is_critical(eco, i, j, m) { weight_of(eco, i, j) } else { 0 },
                None => 0,
            }),
    decreases opts.len(),
{
    let s = opts.push(x);
    assert(s.len() == opts.len() + 1);
    if opts.len() == 0 {
        let e = s.subrange(1, s.len() as int);
        assert(e =~= Seq::<Option<CellIndex>>::empty());
        assert(total_weight(eco, i, m, e) == 0);
        assert(s[0] == x);
    } else {
        let rest = opts.subrange(1, opts.len() as int);
        assert(s[0] == opts[0]);
        assert(s.subrange(1, s.len() as int) =~= rest.push(x));
        lemma_total_weight_snoc(eco, i, m, rest, x);
        assert(total_weight(eco, i, m, s) == (match s[0] {
            Some(j) => if is_critical(eco, i, j, m) { weight_of(eco, i, j) } else { 0 },
            None => 0,
        }) + total_weight(eco, i, m, s.subrange(1, s.len() as int)));
    }
}

/// The event kind for a material.
fn event_of(m: Material) -> (r: Events)
    ensures
        r == spec_event_of(m),
{
    match m {
        Material::Sand => Events::SandSlide,
        Material::Rock => Events::RockSlide,
        Material::Humus => Events::HumusSlide,
    }
}

/// The height of material `m` that should slide from `origin` to `target`.
fn compute_height_to_slide(
    eco: &Ecosystem,
    origin: CellIndex,
    target: CellIndex,
    m: Material,
) -> (t: u64)
    requires
        eco.wf(),
        in_bounds(origin),
        in_bounds(target),
        origin != target,
        1 <= dist2_cells(origin, target) <= 2,
    ensures
        t == slide_transfer_um(*eco, origin, target, m),
        t <= mat_um(m, eco.cell_at(origin)),
{
    let c = eco.get_cell(origin);
    let mat = match m {
        Material::Sand => c.get_sand_height(),
        Material::Rock => c.get_rock_height(),
        Material::Humus => c.get_humus_height(),
    };
    let total = c.get_height();
    let non_mat = total - mat;
    let hj = eco.height_at(target);
    proof {
        lemma_cell_height_bound(eco.cell_at(target));
        assert(dist2_cells(origin, target) == 2 || dist2_cells(origin, target) == 1);
    }
    let dx: i64 = origin.x as i64 - target.x as i64;
    let dy: i64 = origin.y as i64 - target.y as i64;
    proof {
        assert(dx * dx + dy * dy == dist2_cells(origin, target) && 0 <= dx * dx
            && 0 <= dy * dy && dx * dx <= 65536 && dy * dy <= 65536)
            by (nonlinear_arith)
            requires
                -256 <= dx <= 256,
                -256 <= dy <= 256,
                dist2_cells(origin, target)
                    == (origin.x - target.x) * (origin.x - target.x)
                        + (origin.y - target.y) * (origin.y - target.y),
                dx == origin.x - target.x,
                dy == origin.y - target.y,
        ;
    }
    let diagonal = (dx * dx + dy * dy) as u64 == 2;
    let offset = match m {
        Material::Sand => if diagonal { IDEAL_OFFSET_SAND_DIAG } else { IDEAL_OFFSET_SAND_STRAIGHT },
        Material::Rock => if diagonal { IDEAL_OFFSET_ROCK_DIAG } else { IDEAL_OFFSET_ROCK_STRAIGHT },
        Material::Humus => if diagonal {
            IDEAL_OFFSET_HUMUS_DIAG
        } else {
            IDEAL_OFFSET_HUMUS_STRAIGHT
        },
    };
    let ideal = hj + offset;
    if non_mat >= ideal {
        mat / 2
    } else if non_mat + mat >= ideal {
        (non_mat + mat - ideal) / 2
    } else {
        0
    }
}

/// Moves height `t` of material `m` from cell `i` to cell `j`.
fn transfer(eco: &mut Ecosystem, i: CellIndex, j: CellIndex, m: Material, t: u64)
    requires
        old(eco).wf(),
        in_bounds(i),
        in_bounds(j),
        i != j,
        t <= mat_um(m, old(eco).cell_at(i)),
        mat_um(m, old(eco).cell_at(i)) > 0,
        t == slide_transfer_um(*old(eco), i, j, m),
    ensures
        final(eco).wf(),
        final(eco).wind_state == old(eco).wind_state,
        crate::events::climate_preserved(*old(eco), *final(eco)),
        final(eco).cells@ == spec_slide_grid(*old(eco), i, j, m),
        mat_um(m, old(eco).cell_at(i)) + mat_um(m, old(eco).cell_at(j)) <= LAYER_CAP
            ==> mat_um(m, final(eco).cell_at(i)) + mat_um(m, final(eco).cell_at(j))
                == mat_um(m, old(eco).cell_at(i)) + mat_um(m, old(eco).cell_at(j)),
        forall|q: CellIndex| in_bounds(q) && q != i && q != j
            ==> final(eco).cell_at(q) == old(eco).cell_at(q),
{
    let ghost pre = *eco;
    proof {
        lemma_flat_in_range(i);
        lemma_flat_in_range(j);
        lemma_flat_injective(i, j);
    }
    let ci = eco.cell_mut(i);
    match m {
        Material::Sand => ci.remove_sand(t),
        Material::Rock => ci.remove_rocks(t),
        Material::Humus => ci.remove_humus(t),
    }
    let cj = eco.cell_mut(j);
    match m {
        Material::Sand => cj.add_sand(t),
        Material::Rock => cj.add_rocks(t),
        Material::Humus => cj.add_humus(t),
    }
    proof {
        assert(final(eco).cells@ =~= spec_slide_grid(pre, i, j, m));
        assert forall|q: CellIndex| in_bounds(q) && q != i && q != j
            implies final(eco).cell_at(q) == pre.cell_at(q) by {
            lemma_flat_in_range(q);
            lemma_flat_injective(q, i);
            lemma_flat_injective(q, j);
        }
        assert forall|k2: int| 0 <= k2 < crate::constants::NUM_CELLS
            implies (#[trigger] final(eco).cells@[k2]).wf() by {
            if k2 != flat_of(i) && k2 != flat_of(j) {
                assert(final(eco).cells@[k2] == pre.cells@[k2]);
            }
        }
        assert forall|k2: int| 0 <= k2 < pre.cells@.len() implies {
            &&& (#[trigger] final(eco).cells@[k2]).soil_moisture
                == pre.cells@[k2].soil_moisture
            &&& final(eco).cells@[k2].hours_of_sunlight == pre.cells@[k2].hours_of_sunlight
        } by {
            if k2 != flat_of(i) && k2 != flat_of(j) {
                assert(final(eco).cells@[k2] == pre.cells@[k2]);
            }
        }
    }
}

/// Sand slide kernel: for any draw, either no neighbor is critically steep
/// (or there is no sand) and nothing changes, or exactly the computed sand
/// height moves to one critical neighbor and the event propagates there.
pub fn apply_sand_slide_event(eco: &mut Ecosystem, index: CellIndex) -> (r: Option<
    (Events, CellIndex),
>)
    requires
        old(eco).wf(),
        in_bounds(index),
    ensures
        final(eco).wf(),
        final(eco).wind_state == old(eco).wind_state,
        crate::events::climate_preserved(*old(eco), *final(eco)),
        slide_kernel_post(*old(eco), *final(eco), index, Material::Sand, r),
{
    let draw = rng_below(PPM);
    apply_slide_event_with(eco, index, Material::Sand, draw)
}

/// Rock slide kernel; see `apply_sand_slide_event`.
pub fn apply_rock_slide_event(eco: &mut Ecosystem, index: CellIndex) -> (r: Option<
    (Events, CellIndex),
>)
    requires
        old(eco).wf(),
        in_bounds(index),
    ensures
        final(eco).wf(),
        final(eco).wind_state == old(eco).wind_state,
        crate::events::climate_preserved(*old(eco), *final(eco)),
        slide_kernel_post(*old(eco), *final(eco), index, Material::Rock, r),
{
    let draw = rng_below(PPM);
    apply_slide_event_with(eco, index, Material::Rock, draw)
}

/// Humus slide kernel; see `apply_sand_slide_event`.
pub fn apply_humus_slide_event(eco: &mut Ecosystem, index: CellIndex) -> (r: Option<
    (Events, CellIndex),
>)
    requires
        old(eco).wf(),
        in_bounds(index),
    ensures
        final(eco).wf(),
        final(eco).wind_state == old(eco).wind_state,
        crate::events::climate_preserved(*old(eco), *final(eco)),
        slide_kernel_post(*old(eco), *final(eco), index, Material::Humus, r),
{
    let draw = rng_below(PPM);
    apply_slide_event_with(eco, index, Material::Humus, draw)
}

/// What a slide kernel guarantees for every possible draw: a cell without
/// the material, or without a critically steep neighbor, is left untouched
/// with no propagation; otherwise the exact transfer is made toward the
/// returned critical neighbor, conserving the material between the two cells
/// and leaving every other cell unchanged.
pub open spec fn slide_kernel_post(
    pre: Ecosystem,
    post: Ecosystem,
    index: CellIndex,
    m: Material,
    r: Option<(Events, CellIndex)>,
) -> bool {
    let mat = mat_um(m, pre.cell_at(index));
    let total = total_weight(pre, index, m, neighbor_opts(index));
    &&& (mat == 0 ==> r is None && post.cells@ == pre.cells@)
    &&& (total == 0 ==> r is None && post.cells@ == pre.cells@)
    &&& (mat > 0 && total > 0 ==> r is Some)
    &&& (r matches Some(p) ==> {
        let j = p.1;
        &&& p.0 == spec_event_of(m)
        &&& in_bounds(j) && j != index
        &&& is_critical(pre, index, j, m)
        &&& post.cells@ == spec_slide_grid(pre, index, j, m)
        &&& (mat_um(m, pre.cell_at(index)) + mat_um(m, pre.cell_at(j)) <= LAYER_CAP
            ==> mat_um(m, post.cell_at(index)) + mat_um(m, post.cell_at(j))
                == mat_um(m, pre.cell_at(index)) + mat_um(m, pre.cell_at(j)))
        &&& forall|q: CellIndex| in_bounds(q) && q != index && q != j
            ==> post.cell_at(q) == pre.cell_at(q)
    })
}

} // verus!
