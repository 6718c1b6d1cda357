//! Rainfall erosion: a parcel of water runs downhill from the struck cell
//! for up to a thousand hops. On steep ground it lifts loose sediment
//! (humus, rock, sand, in proportion to their heights) up to its carrying
//! capacity and erodes bedrock into carried rock when capacity remains; on
//! gentle ground it deposits a tenth of each carried component; whatever is
//! left is dropped where the descent ends (or where the hop cap fires).
//!
//! The kernel only moves material: vegetation, moisture and sunlight are
//! untouched everywhere, no cell's bedrock ever grows, and the total
//! material height over the grid is conserved — exactly so whenever no
//! layer ends at its saturation cap.

use vstd::prelude::*;
use crate::cell::{sat_add_cap, sat_sub, Bedrock, Cell, Humus, Rock, Sand};
use crate::constants::{LAYER_CAP, NUM_CELLS};
use crate::ecosystem::{dist2_cells, flat_of, lemma_flat_in_range, spec_slope_ppm, Ecosystem};
use crate::events::Events;
use crate::grid::{in_bounds, CellIndex};
use crate::rng::rng_below;
use crate::slide::neighbor_opts;

verus! {

/// True when two cells differ only in their four material layers, and the
/// bedrock has not grown.
pub open spec fn material_only_change(c0: Cell, c1: Cell) -> bool {
    &&& c1 == (Cell {
        bedrock: c1.bedrock,
        rock: c1.rock,
        sand: c1.sand,
        humus: c1.humus,
        ..c0
    })
    &&& c1.bedrock_um() <= c0.bedrock_um()
}

/// Total material height over a grid of cells.
pub open spec fn grid_material_sum(cells: Seq<Cell>) -> int
    decreases cells.len(),
{
    if cells.len() == 0 {
        0
    } else {
        cells[0].height_um() + grid_material_sum(cells.subrange(1, cells.len() as int))
    }
}

/// Every layer of the cell is strictly below the saturation cap.
pub open spec fn below_caps(c: Cell) -> bool {
    c.bedrock_um() < LAYER_CAP && c.rock_um() < LAYER_CAP && c.sand_um() < LAYER_CAP
        && c.humus_um() < LAYER_CAP
}

/// The flow weight of one neighbor slot: the positive part of the downhill
/// slope from `i`, 0 for a missing neighbor or uphill ground.
pub open spec fn rain_weight(cells: Seq<Cell>, i: CellIndex, o: Option<CellIndex>) -> int {
    match o {
        Some(j) => {
            let s = spec_slope_ppm(
                cells[flat_of(i)].height_um(),
                cells[flat_of(j)].height_um(),
                dist2_cells(i, j),
            );
            if s > 0 {
                s
            } else {
                0
            }
        },
        None => 0,
    }
}

/// Weighted selection of the next cell of the descent: scanning `opts` in
/// order, the first neighbor whose flow weight exceeds the remaining draw
/// is chosen; otherwise the draw is reduced by that weight and the scan
/// continues. `None` when the draw outlasts every weight — in particular
/// whenever no neighbor lies downhill.
pub open spec fn rain_pick(
    cells: Seq<Cell>,
    i: CellIndex,
    opts: Seq<Option<CellIndex>>,
    draw: int,
) -> Option<CellIndex>
    decreases opts.len(),
{
    if opts.len() == 0 {
        None
    } else {
        let rest = opts.subrange(1, opts.len() as int);
        let w = rain_weight(cells, i, opts[0]);
        if draw < w {
            Some(opts[0]->0)
        } else {
            rain_pick(cells, i, rest, draw - w)
        }
    }
}

/// One lift: with `carried` load already afloat (clamped to the layer cap),
/// the water has `capacity` minus that as headroom. Sediment that can fill
/// the headroom is lifted in proportion to the layer heights; otherwise all
/// loose sediment is taken and three tenths of the still-missing load is
/// eroded out of the bedrock as carried rock.
pub open spec fn spec_rain_lift(c: Cell, capacity: u64, lh: int, lr: int, ls: int) -> (
    Cell,
    int,
    int,
    int,
) {
    let carried = if lh + lr + ls > LAYER_CAP {
        LAYER_CAP as int
    } else {
        lh + lr + ls
    };
    let remaining = if capacity > carried {
        capacity - carried
    } else {
        0
    };
    let h = c.humus_um() as int;
    let r = c.rock_um() as int;
    let s = c.sand_um() as int;
    let sediment = h + r + s;
    if sediment >= remaining && sediment != 0 {
        let lift_h = remaining * h / sediment;
        let lift_r = remaining * r / sediment;
        let lift_s = remaining * s / sediment;
        (
            Cell {
                humus: match c.humus {
                    Some(l) => Some(Humus { height: sat_sub(l.height, lift_h as u64) }),
                    None => None,
                },
                rock: match c.rock {
                    Some(l) => Some(Rock { height: sat_sub(l.height, lift_r as u64) }),
                    None => None,
                },
                sand: match c.sand {
                    Some(l) => Some(Sand { height: sat_sub(l.height, lift_s as u64) }),
                    None => None,
                },
                ..c
            },
            lh + lift_h,
            lr + lift_r,
            ls + lift_s,
        )
    } else {
        let carried2 = if lh + h + lr + r + ls + s > LAYER_CAP {
            LAYER_CAP as int
        } else {
            lh + h + lr + r + ls + s
        };
        let short = if capacity > carried2 {
            capacity - carried2
        } else {
            0
        };
        let eroded = if short * 3 / 10 > c.bedrock_um() {
            c.bedrock_um() as int
        } else {
            short * 3 / 10
        };
        (
            Cell {
                humus: match c.humus {
                    Some(_) => Some(Humus { height: 0 }),
                    None => None,
                },
                rock: match c.rock {
                    Some(_) => Some(Rock { height: 0 }),
                    None => None,
                },
                sand: match c.sand {
                    Some(_) => Some(Sand { height: 0 }),
                    None => None,
                },
                bedrock: match c.bedrock {
                    Some(b) => Some(Bedrock { height: (b.height - eroded) as u64 }),
                    None => None,
                },
                ..c
            },
            lh + h,
            lr + r + eroded,
            ls + s,
        )
    }
}

/// One deposit on gentle ground: a tenth of each carried component, as far
/// as it fits under the layer's cap.
pub open spec fn spec_rain_deposit(c: Cell, lh: int, lr: int, ls: int) -> (Cell, int, int, int) {
    let dh = spec_fit(lh / 10, LAYER_CAP - c.humus_um());
    let dr = spec_fit(lr / 10, LAYER_CAP - c.rock_um());
    let ds = spec_fit(ls / 10, LAYER_CAP - c.sand_um());
    (
        Cell {
            humus: Some(Humus { height: sat_add_cap(c.humus_um(), dh as u64) }),
            rock: Some(Rock { height: sat_add_cap(c.rock_um(), dr as u64) }),
            sand: Some(Sand { height: sat_add_cap(c.sand_um(), ds as u64) }),
            ..c
        },
        lh - dh,
        lr - dr,
        ls - ds,
    )
}

/// The terminal deposit: the whole carried load, as far as each layer's cap
/// allows; what cannot fit stays afloat (and the layer stands at its cap).
pub open spec fn spec_deposit_full(c: Cell, lh: int, lr: int, ls: int) -> (Cell, int, int, int) {
    let dh = spec_fit(lh, LAYER_CAP - c.humus_um());
    let dr = spec_fit(lr, LAYER_CAP - c.rock_um());
    let ds = spec_fit(ls, LAYER_CAP - c.sand_um());
    (
        Cell {
            humus: Some(Humus { height: sat_add_cap(c.humus_um(), dh as u64) }),
            rock: Some(Rock { height: sat_add_cap(c.rock_um(), dr as u64) }),
            sand: Some(Sand { height: sat_add_cap(c.sand_um(), ds as u64) }),
            ..c
        },
        lh - dh,
        lr - dr,
        ls - ds,
    )
}

/// One hop of the rainfall walk, deterministic in the draw: the next cell
/// is picked by slope-weighted selection, and the current cell undergoes a
/// lift (steep chosen slope) or a deposit (gentle one). When no neighbor is
/// picked the state is unchanged and the walk is over (the last component
/// is `None`).
pub open spec fn spec_rain_hop(
    cells: Seq<Cell>,
    capacity: u64,
    lh: int,
    lr: int,
    ls: int,
    current: CellIndex,
    draw: u64,
) -> (Seq<Cell>, int, int, int, Option<CellIndex>) {
    match rain_pick(cells, current, neighbor_opts(current), draw as int) {
        None => (cells, lh, lr, ls, None),
        Some(next) => {
            let s = rain_weight(cells, current, Some(next));
            let c = cells[flat_of(current)];
            let m = if s > 200000 {
                spec_rain_lift(c, capacity, lh, lr, ls)
            } else {
                spec_rain_deposit(c, lh, lr, ls)
            };
            (cells.update(flat_of(current), m.0), m.1, m.2, m.3, Some(next))
        },
    }
}

/// The whole rainfall walk as a fold of hops over a draw sequence: one hop
/// per draw until the descent ends, the draws run out, or the hop budget
/// `fuel` fires; the carried load is then dropped where the water stands.
pub open spec fn spec_rain_run(
    cells: Seq<Cell>,
    capacity: u64,
    lh: int,
    lr: int,
    ls: int,
    current: CellIndex,
    draws: Seq<u64>,
    fuel: nat,
) -> Seq<Cell>
    decreases fuel,
{
    if fuel == 0 || draws.len() == 0 {
        cells.update(flat_of(current), spec_deposit_full(cells[flat_of(current)], lh, lr, ls).0)
    } else {
        let h = spec_rain_hop(cells, capacity, lh, lr, ls, current, draws[0]);
        match h.4 {
            None => cells.update(
                flat_of(current),
                spec_deposit_full(cells[flat_of(current)], lh, lr, ls).0,
            ),
            Some(next) => spec_rain_run(
                h.0,
                capacity,
                h.1,
                h.2,
                h.3,
                next,
                draws.subrange(1, draws.len() as int),
                (fuel - 1) as nat,
            ),
        }
    }
}

/// Replacing one cell changes the grid total by exactly that cell's height
/// difference.
pub proof fn lemma_sum_update(cells: Seq<Cell>, k: int, c: Cell)
    requires
        0 <= k < cells.len(),
    ensures
        grid_material_sum(cells.update(k, c))
            == grid_material_sum(cells) - cells[k].height_um() + c.height_um(),
    decreases cells.len(),
{
    let up = cells.update(k, c);
    if k == 0 {
        assert(up.subrange(1, up.len() as int) =~= cells.subrange(1, cells.len() as int));
    } else {
        assert(up.subrange(1, up.len() as int)
            =~= cells.subrange(1, cells.len() as int).update(k - 1, c));
        lemma_sum_update(cells.subrange(1, cells.len() as int), k - 1, c);
        assert(up[0] == cells[0]);
    }
}

/// A grid of well-formed cells totals at most four caps per cell.
pub proof fn lemma_sum_bound(cells: Seq<Cell>)
    requires
        forall|k: int| 0 <= k < cells.len() ==> (#[trigger] cells[k]).wf(),
    ensures
        grid_material_sum(cells) <= cells.len() * (4 * LAYER_CAP),
    decreases cells.len(),
{
    if cells.len() > 0 {
        let rest = cells.subrange(1, cells.len() as int);
        assert(forall|k: int| 0 <= k < rest.len() ==> (#[trigger] rest[k]).wf());
        lemma_sum_bound(rest);
        assert(cells[0].height_um() <= 4 * LAYER_CAP);
        assert((cells.len() - 1) * (4 * LAYER_CAP) + 4 * LAYER_CAP
            == cells.len() * (4 * LAYER_CAP)) by (nonlinear_arith);
    }
}

/// Grid totals are nonnegative.
pub proof fn lemma_sum_nonneg(cells: Seq<Cell>)
    ensures
        grid_material_sum(cells) >= 0,
    decreases cells.len(),
{
    if cells.len() > 0 {
        lemma_sum_nonneg(cells.subrange(1, cells.len() as int));
    }
}

/// One hop of the rainfall walk, exactly `spec_rain_hop` of the draw: the
/// next cell is picked by slope-weighted selection and the current cell
/// undergoes the lift or the deposit; `None`, with nothing changed, when
/// the draw outlasts every downhill weight.
#[verifier::rlimit(100)]
#[verifier::spinoff_prover]
fn rain_hop(
    eco: &mut Ecosystem,
    capacity: u64,
    lifted_humus: &mut u128,
    lifted_rock: &mut u128,
    lifted_sand: &mut u128,
    current: CellIndex,
    draw: u64,
) -> (r: Option<CellIndex>)
    requires
        old(eco).wf(),
        in_bounds(current),
        capacity <= LAYER_CAP,
        *old(lifted_humus) + *old(lifted_rock) + *old(lifted_sand) <= NUM_CELLS * (4
            * LAYER_CAP),
    ensures
        final(eco).wf(),
        final(eco).wind_state == old(eco).wind_state,
        final(eco).cells@.len() == old(eco).cells@.len(),
        r matches Some(j) ==> in_bounds(j) && j != current,
        ({
            let h = spec_rain_hop(old(eco).cells@, capacity, *old(lifted_humus) as int,
                *old(lifted_rock) as int, *old(lifted_sand) as int, current, draw);
            &&& final(eco).cells@ == h.0
            &&& *final(lifted_humus) as int == h.1
            &&& *final(lifted_rock) as int == h.2
            &&& *final(lifted_sand) as int == h.3
            &&& r == h.4
        }),
        grid_material_sum(final(eco).cells@) + *final(lifted_humus) + *final(lifted_rock)
            + *final(lifted_sand)
            == grid_material_sum(old(eco).cells@) + *old(lifted_humus) + *old(lifted_rock)
                + *old(lifted_sand),
        forall|q: CellIndex| in_bounds(q)
            ==> material_only_change(old(eco).cell_at(q), #[trigger] final(eco).cell_at(q)),
{
    let ghost pre = *eco;
    proof {
        crate::slide::lemma_neighbor_slots(current);
    }
    let neighbors = current.get_neighbors();
    let arr = neighbors.as_array();
    let ghost opts = neighbor_opts(current);
    proof {
        assert(arr@ =~= opts);
        assert(opts.skip(0) =~= opts);
    }
    let ghost picked = rain_pick(pre.cells@, current, opts, draw as int);

    let mut rem: u64 = draw;
    let mut next = current;
    let mut chosen_slope: u64 = 0;
    let mut found = false;
    let mut k: usize = 0;
    while k < 8
        invariant
            eco.wf(),
            *eco == pre,
            in_bounds(current),
            k <= 8,
            arr@ == opts,
            opts == neighbor_opts(current),
            picked == rain_pick(pre.cells@, current, opts, draw as int),
            forall|kk: int| 0 <= kk < 8 ==> ((#[trigger] opts[kk]) matches Some(j)
                ==> in_bounds(j) && j != current),
            !found ==> rem <= draw
                && rain_pick(pre.cells@, current, opts.skip(k as int), rem as int) == picked,
            found ==> picked == Some(next) && in_bounds(next) && next != current
                && chosen_slope == rain_weight(pre.cells@, current, Some(next))
                && 0 < chosen_slope <= 1000000,
        decreases 8 - k,
    {
        proof {
            assert(opts.skip(k as int).subrange(1, opts.skip(k as int).len() as int)
                =~= opts.skip(k + 1));
            assert(opts.skip(k as int)[0] == opts[k as int]);
        }
        if let Some(j) = arr[k] {
            let s = eco.get_slope_between_points(current, j);
            if s > 0 {
                if !found {
                    if rem < s as u64 {
                        next = j;
                        chosen_slope = s as u64;
                        found = true;
                        proof {
                            assert(picked == Some(j));
                        }
                    } else {
                        rem = rem - s as u64;
                    }
                }
            }
        }
        k += 1;
    }
    if !found {
        proof {
            assert(opts.skip(8) =~= Seq::<Option<CellIndex>>::empty());
            assert(picked is None);
        }
        return None;
    }

    proof {
        lemma_flat_in_range(current);
    }
    let ghost lh0 = *lifted_humus;
    let ghost lr0 = *lifted_rock;
    let ghost ls0 = *lifted_sand;
    if chosen_slope > 200000 {
        // lift mode
        let carried128 = *lifted_humus + *lifted_rock + *lifted_sand;
        let carried: u64 = if carried128 > LAYER_CAP as u128 {
            LAYER_CAP
        } else {
            carried128 as u64
        };
        let remaining = if capacity > carried {
            capacity - carried
        } else {
            0
        };
        let cell = eco.cell_mut(current);
        let h_amt = cell.get_humus_height();
        let r_amt = cell.get_rock_height();
        let s_amt = cell.get_sand_height();
        let sediment = h_amt + r_amt + s_amt;
        if sediment >= remaining && sediment != 0 {
            // lift the remaining capacity, in proportion to the shares
            let lift_h = share(remaining, h_amt, sediment);
            let lift_r = share(remaining, r_amt, sediment);
            let lift_s = share(remaining, s_amt, sediment);
            cell.remove_humus(lift_h);
            cell.remove_rocks(lift_r);
            cell.remove_sand(lift_s);
            *lifted_humus = *lifted_humus + lift_h as u128;
            *lifted_rock = *lifted_rock + lift_r as u128;
            *lifted_sand = *lifted_sand + lift_s as u128;
        } else {
            // pick up all loose sediment, then erode bedrock
            cell.remove_humus(h_amt);
            cell.remove_rocks(r_amt);
            cell.remove_sand(s_amt);
            *lifted_humus = *lifted_humus + h_amt as u128;
            *lifted_rock = *lifted_rock + r_amt as u128;
            *lifted_sand = *lifted_sand + s_amt as u128;
            let carried2: u64 = {
                let c2 = *lifted_humus + *lifted_rock + *lifted_sand;
                if c2 > LAYER_CAP as u128 {
                    LAYER_CAP
                } else {
                    c2 as u64
                }
            };
            let short = if capacity > carried2 {
                capacity - carried2
            } else {
                0
            };
            let mut eroded = short * 3 / 10;
            let bh = cell.get_bedrock_height();
            if eroded > bh {
                eroded = bh;
            }
            cell.remove_bedrock(eroded);
            *lifted_rock = *lifted_rock + eroded as u128;
        }
    } else {
        // deposit mode: a tenth of each carried component, kept exact by
        // never writing past a layer's cap
        let cell = eco.cell_mut(current);
        let dep_h = fit(*lifted_humus / 10, LAYER_CAP - cell.get_humus_height());
        let dep_r = fit(*lifted_rock / 10, LAYER_CAP - cell.get_rock_height());
        let dep_s = fit(*lifted_sand / 10, LAYER_CAP - cell.get_sand_height());
        cell.add_humus(dep_h);
        cell.add_rocks(dep_r);
        cell.add_sand(dep_s);
        *lifted_humus = *lifted_humus - dep_h as u128;
        *lifted_rock = *lifted_rock - dep_r as u128;
        *lifted_sand = *lifted_sand - dep_s as u128;
    }
    proof {
        let m = if chosen_slope > 200000 {
            spec_rain_lift(pre.cell_at(current), capacity, lh0 as int, lr0 as int, ls0 as int)
        } else {
            spec_rain_deposit(pre.cell_at(current), lh0 as int, lr0 as int, ls0 as int)
        };
        assert(eco.cell_at(current) == m.0);
        assert(*lifted_humus as int == m.1);
        assert(*lifted_rock as int == m.2);
        assert(*lifted_sand as int == m.3);
        lemma_pointwise(pre, pre, *eco, current);
        lemma_material_wf(pre, *eco);
        lemma_sum_step(pre, pre, *eco, current);
    }
    Some(next)
}

/// Rainfall kernel. Never propagates through the dispatcher: the hops are
/// internal.
#[verifier::rlimit(100)]
#[verifier::spinoff_prover]
pub fn apply_rainfall_event(eco: &mut Ecosystem, index: CellIndex) -> (r: Option<
    (Events, CellIndex),
>)
    requires
        old(eco).wf(),
        in_bounds(index),
    ensures
        final(eco).wf(),
        final(eco).wind_state == old(eco).wind_state,
        r is None,
        forall|q: CellIndex| in_bounds(q)
            ==> material_only_change(old(eco).cell_at(q), #[trigger] final(eco).cell_at(q)),
        crate::events::climate_preserved(*old(eco), *final(eco)),
        grid_material_sum(final(eco).cells@) <= grid_material_sum(old(eco).cells@),
        (forall|k: int| 0 <= k < NUM_CELLS ==> below_caps(#[trigger] final(eco).cells@[k]))
            ==> grid_material_sum(final(eco).cells@) == grid_material_sum(old(eco).cells@),
{
    let ghost pre = *eco;
    proof {
        crate::ecosystem::lemma_cell_height_bound(eco.cell_at(index));
    }
    let height = eco.height_at(index);
    // carrying capacity: five times the water level of one ten-thousandth
    // of the column height
    let capacity: u64 = height / 2000;

    let mut lifted_humus: u128 = 0;
    let mut lifted_rock: u128 = 0;
    let mut lifted_sand: u128 = 0;
    let mut current = index;
    let mut steps: u64 = 0;

    while steps < 1000
        invariant
            pre == *old(eco),
            pre.wf(),
            eco.wf(),
            eco.wind_state == pre.wind_state,
            eco.cells@.len() == pre.cells@.len(),
            in_bounds(current),
            capacity <= LAYER_CAP,
            grid_material_sum(eco.cells@) + lifted_humus + lifted_rock + lifted_sand
                == grid_material_sum(pre.cells@),
            lifted_humus + lifted_rock + lifted_sand
                <= NUM_CELLS * (4 * LAYER_CAP),
            forall|q: CellIndex| in_bounds(q)
                ==> material_only_change(pre.cell_at(q), #[trigger] eco.cell_at(q)),
        decreases 1000 - steps,
    {
        proof {
            crate::slide::lemma_neighbor_slots(current);
            lemma_sum_nonneg(eco.cells@);
            lemma_sum_bound(pre.cells@);
        }
        let neighbors = current.get_neighbors();
        let arr = neighbors.as_array();

        // neighbors the water can flow to, weighted by slope
        let mut slope_sum: u64 = 0;
        let mut k: usize = 0;
        while k < 8
            invariant
                eco.wf(),
                in_bounds(current),
                k <= 8,
                slope_sum <= k * 1000000,
                forall|kk: int| 0 <= kk < 8 ==> ((#[trigger] arr@[kk]) matches Some(j)
                    ==> in_bounds(j) && j != current),
            decreases 8 - k,
        {
            if let Some(j) = arr[k] {
                let s = eco.get_slope_between_points(current, j);
                if s > 0 {
                    slope_sum = slope_sum + (s as u64);
                }
            }
            k += 1;
        }

        if slope_sum == 0 {
            // the descent ends: drop everything that is still carried
            deposit_all(eco, current, &mut lifted_humus, &mut lifted_rock, &mut lifted_sand);
            proof {
                lemma_final_exit(pre, *eco, current, lifted_humus, lifted_rock, lifted_sand);
                lemma_climate_from_material(pre, *eco);
            }
            return None;
        }

        // choose the next cell in proportion to the slopes and perform
        // the hop; a hop that picks nothing ends the descent here
        let draw = rng_below(slope_sum);
        let ghost before = *eco;
        let hop = rain_hop(eco, capacity, &mut lifted_humus, &mut lifted_rock,
            &mut lifted_sand, current, draw);
        match hop {
            None => {
                deposit_all(eco, current, &mut lifted_humus, &mut lifted_rock,
                    &mut lifted_sand);
                proof {
                    lemma_final_exit(pre, *eco, current, lifted_humus, lifted_rock,
                        lifted_sand);
                    lemma_climate_from_material(pre, *eco);
                }
                return None;
            },
            Some(j) => {
                proof {
                    lemma_sum_nonneg(eco.cells@);
                    assert forall|q: CellIndex| in_bounds(q)
                        implies material_only_change(pre.cell_at(q),
                            #[trigger] eco.cell_at(q)) by {
                        assert(material_only_change(pre.cell_at(q), before.cell_at(q)));
                        assert(material_only_change(before.cell_at(q), eco.cell_at(q)));
                    };
                }
                current = j;
            },
        }
        steps += 1;
    }
    // the hop cap fired: drop the load where the water stands
    deposit_all(eco, current, &mut lifted_humus, &mut lifted_rock, &mut lifted_sand);
    proof {
        lemma_final_exit(pre, *eco, current, lifted_humus, lifted_rock, lifted_sand);
        lemma_climate_from_material(pre, *eco);
    }
    None
}

/// Rainfall, deterministic in its draws: the same walk as
/// `apply_rainfall_event`, with the slope-weighted choices taken from
/// `draws` (one per hop, in order) instead of the random source. The final
/// grid is pinned exactly as the fold of `spec_rain_hop` over the draw
/// sequence, the carried load dropped where the walk ends.
#[verifier::rlimit(100)]
#[verifier::spinoff_prover]
pub fn apply_rainfall_event_with(eco: &mut Ecosystem, index: CellIndex, draws: &Vec<u64>) -> (r:
    Option<(Events, CellIndex)>)
    requires
        old(eco).wf(),
        in_bounds(index),
    ensures
        final(eco).wf(),
        final(eco).wind_state == old(eco).wind_state,
        r is None,
        crate::events::climate_preserved(*old(eco), *final(eco)),
        final(eco).cells@ == spec_rain_run(old(eco).cells@,
            (old(eco).cell_at(index).height_um() / 2000) as u64, 0, 0, 0, index, draws@, 1000),
{
    let ghost pre = *eco;
    proof {
        crate::ecosystem::lemma_cell_height_bound(eco.cell_at(index));
    }
    let height = eco.height_at(index);
    let capacity: u64 = height / 2000;

    let mut lifted_humus: u128 = 0;
    let mut lifted_rock: u128 = 0;
    let mut lifted_sand: u128 = 0;
    let mut current = index;
    let mut steps: u64 = 0;
    proof {
        assert(draws@.skip(0) =~= draws@);
    }

    while steps < 1000
        invariant
            pre == *old(eco),
            pre.wf(),
            eco.wf(),
            eco.wind_state == pre.wind_state,
            eco.cells@.len() == pre.cells@.len(),
            in_bounds(current),
            capacity <= LAYER_CAP,
            capacity == (pre.cell_at(index).height_um() / 2000) as u64,
            steps <= 1000,
            steps as int <= draws@.len(),
            grid_material_sum(eco.cells@) + lifted_humus + lifted_rock + lifted_sand
                == grid_material_sum(pre.cells@),
            lifted_humus + lifted_rock + lifted_sand <= NUM_CELLS * (4 * LAYER_CAP),
            forall|q: CellIndex| in_bounds(q)
                ==> material_only_change(pre.cell_at(q), #[trigger] eco.cell_at(q)),
            spec_rain_run(pre.cells@, capacity, 0, 0, 0, index, draws@, 1000)
                == spec_rain_run(eco.cells@, capacity, lifted_humus as int, lifted_rock as int,
                    lifted_sand as int, current, draws@.skip(steps as int),
                    (1000 - steps) as nat),
        decreases 1000 - steps,
    {
        proof {
            lemma_sum_nonneg(eco.cells@);
            lemma_sum_bound(pre.cells@);
        }
        if steps as usize >= draws.len() {
            // the draws ran out: the walk ends where the water stands
            let ghost mid = *eco;
            let ghost lh0 = lifted_humus;
            let ghost lr0 = lifted_rock;
            let ghost ls0 = lifted_sand;
            deposit_all(eco, current, &mut lifted_humus, &mut lifted_rock, &mut lifted_sand);
            proof {
                lemma_flat_in_range(current);
                assert(draws@.skip(steps as int).len() == 0);
                assert(eco.cells@ == spec_rain_run(mid.cells@, capacity, lh0 as int, lr0 as int,
                    ls0 as int, current, draws@.skip(steps as int), (1000 - steps) as nat));
                lemma_climate_from_material(pre, *eco);
            }
            return None;
        }
        let draw = draws[steps as usize];
        let ghost mid = *eco;
        let ghost lh0 = lifted_humus;
        let ghost lr0 = lifted_rock;
        let ghost ls0 = lifted_sand;
        let hop = rain_hop(eco, capacity, &mut lifted_humus, &mut lifted_rock, &mut lifted_sand,
            current, draw);
        proof {
            assert(draws@.skip(steps as int)[0] == draws@[steps as int]);
            assert(draws@.skip(steps as int).subrange(1, draws@.skip(steps as int).len() as int)
                =~= draws@.skip(steps as int + 1));
        }
        match hop {
            None => {
                // the hop picked nothing and changed nothing: drop the load
                let ghost mid2 = *eco;
                deposit_all(eco, current, &mut lifted_humus, &mut lifted_rock, &mut lifted_sand);
                proof {
                    lemma_flat_in_range(current);
                    assert(mid2.cells@ == mid.cells@);
                    assert(eco.cells@ == spec_rain_run(mid.cells@, capacity, lh0 as int,
                        lr0 as int, ls0 as int, current, draws@.skip(steps as int),
                        (1000 - steps) as nat));
                    lemma_climate_from_material(pre, *eco);
                }
                return None;
            },
            Some(j) => {
                proof {
                    lemma_sum_nonneg(eco.cells@);
                    assert forall|q: CellIndex| in_bounds(q)
                        implies material_only_change(pre.cell_at(q),
                            #[trigger] eco.cell_at(q)) by {
                        assert(material_only_change(pre.cell_at(q), mid.cell_at(q)));
                        assert(material_only_change(mid.cell_at(q), eco.cell_at(q)));
                    };
                    assert(spec_rain_run(mid.cells@, capacity, lh0 as int, lr0 as int,
                        ls0 as int, current, draws@.skip(steps as int), (1000 - steps) as nat)
                        == spec_rain_run(eco.cells@, capacity, lifted_humus as int,
                            lifted_rock as int, lifted_sand as int, j,
                            draws@.skip(steps as int + 1), (1000 - (steps + 1)) as nat));
                }
                current = j;
            },
        }
        steps += 1;
    }
    // the hop budget fired: drop the load where the water stands
    let ghost mid = *eco;
    let ghost lh0 = lifted_humus;
    let ghost lr0 = lifted_rock;
    let ghost ls0 = lifted_sand;
    deposit_all(eco, current, &mut lifted_humus, &mut lifted_rock, &mut lifted_sand);
    proof {
        lemma_flat_in_range(current);
        assert(eco.cells@ == spec_rain_run(mid.cells@, capacity, lh0 as int, lr0 as int,
            ls0 as int, current, draws@.skip(1000), 0));
        lemma_climate_from_material(pre, *eco);
    }
    None
}

/// The largest part of `want` that fits under `room`.
fn fit(want: u128, room: u64) -> (r: u64)
    ensures
        r as int == if want > room { room as int } else { want as int },
        r <= room,
{
    if want > room as u128 {
        room
    } else {
        want as u64
    }
}

/// The part of a wanted deposit that fits under the remaining room.
pub open spec fn spec_fit(want: int, room: int) -> int {
    if want > room {
        room
    } else {
        want
    }
}

/// Deposits as much of the carried load as the cell's caps allow; whatever
/// cannot fit leaves the layer exactly at its cap. Exactly the fitting part
/// of each component lands on the cell, and only that cell changes.
fn deposit_all(
    eco: &mut Ecosystem,
    current: CellIndex,
    lifted_humus: &mut u128,
    lifted_rock: &mut u128,
    lifted_sand: &mut u128,
)
    requires
        old(eco).wf(),
        in_bounds(current),
    ensures
        final(eco).wf(),
        final(eco).wind_state == old(eco).wind_state,
        final(eco).cells@.len() == old(eco).cells@.len(),
        grid_material_sum(final(eco).cells@) + *final(lifted_humus) + *final(lifted_rock)
            + *final(lifted_sand)
            == grid_material_sum(old(eco).cells@) + *old(lifted_humus) + *old(lifted_rock)
                + *old(lifted_sand),
        *final(lifted_humus) > 0 ==> final(eco).cell_at(current).humus_um() == LAYER_CAP,
        *final(lifted_rock) > 0 ==> final(eco).cell_at(current).rock_um() == LAYER_CAP,
        *final(lifted_sand) > 0 ==> final(eco).cell_at(current).sand_um() == LAYER_CAP,
        forall|q: CellIndex| in_bounds(q)
            ==> material_only_change(old(eco).cell_at(q), #[trigger] final(eco).cell_at(q)),
        final(eco).cells@ == old(eco).cells@.update(flat_of(current), final(eco).cell_at(current)),
        ({
            let d = spec_deposit_full(old(eco).cell_at(current), *old(lifted_humus) as int,
                *old(lifted_rock) as int, *old(lifted_sand) as int);
            &&& final(eco).cell_at(current) == d.0
            &&& *final(lifted_humus) as int == d.1
            &&& *final(lifted_rock) as int == d.2
            &&& *final(lifted_sand) as int == d.3
        }),
{
    let ghost pre = *eco;
    proof {
        lemma_flat_in_range(current);
    }
    let cell = eco.cell_mut(current);
    let dep_h = fit(*lifted_humus, LAYER_CAP - cell.get_humus_height());
    let dep_r = fit(*lifted_rock, LAYER_CAP - cell.get_rock_height());
    let dep_s = fit(*lifted_sand, LAYER_CAP - cell.get_sand_height());
    cell.add_humus(dep_h);
    cell.add_rocks(dep_r);
    cell.add_sand(dep_s);
    *lifted_humus = *lifted_humus - dep_h as u128;
    *lifted_rock = *lifted_rock - dep_r as u128;
    *lifted_sand = *lifted_sand - dep_s as u128;
    proof {
        lemma_pointwise(pre, pre, *eco, current);
        lemma_material_wf(pre, *eco);
        lemma_sum_step(pre, pre, *eco, current);
    }
}

/// The loop invariant plus a terminal deposit yields the kernel's
/// conservation postconditions.
proof fn lemma_final_exit(
    pre: Ecosystem,
    post: Ecosystem,
    current: CellIndex,
    lh: u128,
    lr: u128,
    ls: u128,
)
    requires
        in_bounds(current),
        pre.cells@.len() == NUM_CELLS,
        post.cells@.len() == NUM_CELLS,
        grid_material_sum(post.cells@) + lh + lr + ls == grid_material_sum(pre.cells@),
        lh > 0 ==> post.cell_at(current).humus_um() == LAYER_CAP,
        lr > 0 ==> post.cell_at(current).rock_um() == LAYER_CAP,
        ls > 0 ==> post.cell_at(current).sand_um() == LAYER_CAP,
    ensures
        grid_material_sum(post.cells@) <= grid_material_sum(pre.cells@),
        (forall|k: int| 0 <= k < NUM_CELLS ==> below_caps(#[trigger] post.cells@[k]))
            ==> grid_material_sum(post.cells@) == grid_material_sum(pre.cells@),
{
    lemma_flat_in_range(current);
    if forall|k: int| 0 <= k < NUM_CELLS ==> below_caps(#[trigger] post.cells@[k]) {
        assert(below_caps(post.cells@[flat_of(current)]));
        assert(lh == 0 && lr == 0 && ls == 0);
    }
}

/// One mutated cell's material change moves exactly between the grid total
/// and the carried load; restated for the caller as a sum fact.
proof fn lemma_sum_step(pre: Ecosystem, before: Ecosystem, post: Ecosystem, touched: CellIndex)
    requires
        in_bounds(touched),
        before.cells@.len() == pre.cells@.len(),
        pre.cells@.len() == NUM_CELLS,
        post.cells@ == before.cells@.update(flat_of(touched), post.cell_at(touched)),
    ensures
        grid_material_sum(post.cells@) == grid_material_sum(before.cells@)
            - before.cells@[flat_of(touched)].height_um()
            + post.cell_at(touched).height_um(),
{
    lemma_flat_in_range(touched);
    lemma_sum_update(before.cells@, flat_of(touched), post.cell_at(touched));
}

/// `remaining * part / total`: the proportional share of one component.
fn share(remaining: u64, part: u64, total: u64) -> (r: u64)
    requires
        total >= 1,
        part <= total,
        remaining <= total,
        remaining <= LAYER_CAP,
    ensures
        r == (remaining as int) * (part as int) / (total as int),
        r <= remaining,
        r <= LAYER_CAP,
        r <= part,
{
    let wide: u128 = crate::math::mul_wide(remaining, part) / (total as u128);
    proof {
        assert((remaining as int) * (part as int) <= (remaining as int) * (total as int))
            by (nonlinear_arith)
            requires part <= total, remaining >= 0;
        vstd::arithmetic::div_mod::lemma_div_is_ordered(
            (remaining as int) * (part as int), (remaining as int) * (total as int),
            total as int);
        assert((remaining as int) * (total as int) / (total as int) == remaining)
            by (nonlinear_arith)
            requires total >= 1;
        assert((remaining as int) * (part as int) <= (total as int) * (part as int))
            by (nonlinear_arith)
            requires remaining <= total, part >= 0;
        vstd::arithmetic::div_mod::lemma_div_is_ordered(
            (remaining as int) * (part as int), (total as int) * (part as int), total as int);
        assert((total as int) * (part as int) == (part as int) * (total as int))
            by (nonlinear_arith);
        vstd::arithmetic::div_mod::lemma_div_by_multiple(part as int, total as int);
        assert((part as int) * (total as int) / (total as int) == part);
        vstd::arithmetic::div_mod::lemma_div_pos_is_pos(
            (remaining as int) * (part as int), total as int);
    }
    wide as u64
}

/// Material-only changes everywhere leave the climate fields untouched.
proof fn lemma_climate_from_material(pre: Ecosystem, post: Ecosystem)
    requires
        pre.cells@.len() == NUM_CELLS,
        post.cells@.len() == NUM_CELLS,
        forall|q: CellIndex| in_bounds(q)
            ==> material_only_change(pre.cell_at(q), #[trigger] post.cell_at(q)),
    ensures
        crate::events::climate_preserved(pre, post),
{
    crate::events::lemma_climate_from_cells(pre, post);
}

/// Material-only changes compose across one more touched cell.
proof fn lemma_pointwise(pre: Ecosystem, mid: Ecosystem, post: Ecosystem, touched: CellIndex)
    requires
        in_bounds(touched),
        mid.cells@.len() == pre.cells@.len(),
        post.cells@.len() == mid.cells@.len(),
        pre.cells@.len() == NUM_CELLS,
        forall|q: CellIndex| in_bounds(q)
            ==> material_only_change(pre.cell_at(q), #[trigger] mid.cell_at(q)),
        post.cells@ == mid.cells@.update(flat_of(touched), post.cell_at(touched)),
        material_only_change(mid.cell_at(touched), post.cell_at(touched)),
    ensures
        forall|q: CellIndex| in_bounds(q)
            ==> material_only_change(pre.cell_at(q), #[trigger] post.cell_at(q)),
{
    assert forall|q: CellIndex| in_bounds(q)
        implies material_only_change(pre.cell_at(q), #[trigger] post.cell_at(q)) by {
        lemma_flat_in_range(q);
        lemma_flat_in_range(touched);
        if flat_of(q) == flat_of(touched) {
            if q != touched {
                crate::ecosystem::lemma_flat_injective(q, touched);
            }
            assert(q == touched);
        } else {
            assert(post.cell_at(q) == mid.cell_at(q));
        }
    }
}

/// A grid whose cells changed only in their material layers, within the
/// caps, stays well-formed.
proof fn lemma_material_wf(pre: Ecosystem, post: Ecosystem)
    requires
        pre.wf(),
        post.cells@.len() == pre.cells@.len(),
        forall|q: CellIndex| in_bounds(q)
            ==> material_only_change(pre.cell_at(q), #[trigger] post.cell_at(q)),
        forall|q: CellIndex| in_bounds(q) ==> {
            &&& (#[trigger] post.cell_at(q)).bedrock_um() <= LAYER_CAP
            &&& post.cell_at(q).rock_um() <= LAYER_CAP
            &&& post.cell_at(q).sand_um() <= LAYER_CAP
            &&& post.cell_at(q).humus_um() <= LAYER_CAP
        },
        post.wind_state matches Some(w) ==> w.wf(),
    ensures
        post.wf(),
{
    assert forall|k: int| 0 <= k < NUM_CELLS implies (#[trigger] post.cells@[k]).wf() by {
        crate::ecosystem::lemma_index_surjective(k);
        let q = crate::ecosystem::spec_index_of(k);
        assert(material_only_change(pre.cell_at(q), post.cell_at(q)));
        assert(pre.cells@[k].wf());
    }
}

} // verus!
