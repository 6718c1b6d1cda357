//! The ecosystem: the square grid of cells, plus the optional wind state.
//! Cells are stored in one flat vector indexed by `x + y * AREA_SIDE_LENGTH`.

use vstd::prelude::*;
use vstd::arithmetic::div_mod::lemma_div_is_ordered_by_denominator;
use crate::cell::{Bedrock, Cell};
use crate::constants::{AREA_SIDE_LENGTH, DEFAULT_BEDROCK_HEIGHT, NUM_CELLS};
use crate::grid::{in_bounds, CellIndex};
use crate::math::{isqrt_u128, lemma_sqrt_floor_bounds, lemma_sqrt_floor_ge, sqrt_floor};
use crate::wind::WindState;

verus! {

/// The whole simulated landscape.
pub struct Ecosystem {
    pub cells: Vec<Cell>,
    pub wind_state: Option<WindState>,
}

/// The flat index of a 2D cell index.
pub open spec fn flat_of(i: CellIndex) -> int {
    i.x + i.y * AREA_SIDE_LENGTH
}

/// Squared planar distance between two cell indices, in cells.
pub open spec fn dist2_cells(i1: CellIndex, i2: CellIndex) -> int {
    (i1.x - i2.x) * (i1.x - i2.x) + (i1.y - i2.y) * (i1.y - i2.y)
}

/// The slope from height `h1` down to `h2` over squared planar distance
/// `dist2` (in cells): the sine of the inclination angle, in parts per
/// million, computed with floor arithmetic. Positive when `h1` is higher.
pub open spec fn spec_slope_ppm(h1: int, h2: int, dist2: int) -> int {
    if h1 >= h2 {
        (h1 - h2) * 1000000 / sqrt_floor(dist2 * 1000000000000 + (h1 - h2) * (h1 - h2))
    } else {
        -((h2 - h1) * 1000000 / sqrt_floor(dist2 * 1000000000000 + (h2 - h1) * (h2 - h1)))
    }
}

impl Ecosystem {
    /// The cell at a 2D index.
    pub open spec fn cell_at(self, i: CellIndex) -> Cell {
        self.cells@[flat_of(i)]
    }

    /// Well-formed: the grid covers the whole square and every cell is
    /// well-formed, as is the wind state when present.
    pub open spec fn wf(self) -> bool {
        &&& self.cells@.len() == NUM_CELLS
        &&& forall|k: int| 0 <= k < NUM_CELLS ==> (#[trigger] self.cells@[k]).wf()
        &&& (self.wind_state matches Some(w) ==> w.wf())
    }

    /// A flat landscape: every cell is pure bedrock at the default height,
    /// with no wind state.
    pub fn init() -> (r: Self)
        ensures
            r.wf(),
            r.wind_state is None,
            forall|k: int| 0 <= k < NUM_CELLS ==> is_flat_cell(#[trigger] r.cells@[k]),
    {
        let mut cells: Vec<Cell> = Vec::new();
        let mut k: usize = 0;
        while k < NUM_CELLS
            invariant
                cells@.len() == k,
                k <= NUM_CELLS,
                forall|j: int| 0 <= j < k ==> is_flat_cell(#[trigger] cells@[j]),
                forall|j: int| 0 <= j < k ==> (#[trigger] cells@[j]).wf(),
            decreases NUM_CELLS - k,
        {
            let mut c = Cell::init();
            c.bedrock = Some(Bedrock { height: DEFAULT_BEDROCK_HEIGHT });
            cells.push(c);
            k += 1;
        }
        Ecosystem { cells, wind_state: None }
    }

    /// Read access to the cell at `index`.
    pub fn get_cell(&self, index: CellIndex) -> (c: &Cell)
        requires
            self.wf(),
            in_bounds(index),
        ensures
            *c == self.cell_at(index),
    {
        proof {
            lemma_flat_in_range(index);
        }
        let f = index.flat();
        &self.cells[f]
    }

    /// Write access to the cell at `index`. The caller is responsible for
    /// leaving the cell well-formed.
    pub fn cell_mut(&mut self, index: CellIndex) -> (c: &mut Cell)
        requires
            old(self).wf(),
            in_bounds(index),
        ensures
            *c == old(self).cell_at(index),
            c.wf(),
            final(self).cells@ == old(self).cells@.update(flat_of(index), *final(c)),
            final(self).wind_state == old(self).wind_state,
            *final(c) == final(self).cell_at(index),
    {
        proof {
            lemma_flat_in_range(index);
        }
        let f = index.flat();
        &mut self.cells[f]
    }

    /// Total terrain height of the cell at `index`.
    pub fn height_at(&self, index: CellIndex) -> (r: u64)
        requires
            self.wf(),
            in_bounds(index),
        ensures
            r == self.cell_at(index).height_um(),
    {
        self.get_cell(index).get_height()
    }

    /// Slope from the cell at `i1` down to the cell at `i2`: the sine of the
    /// inclination, in parts per million (negative when `i1` is lower).
    pub fn get_slope_between_points(&self, i1: CellIndex, i2: CellIndex) -> (r: i64)
        requires
            self.wf(),
            in_bounds(i1),
            in_bounds(i2),
            i1 != i2,
        ensures
            r == spec_slope_ppm(
                self.cell_at(i1).height_um(),
                self.cell_at(i2).height_um(),
                dist2_cells(i1, i2),
            ),
            -1000000 <= r <= 1000000,
    {
        let h1 = self.height_at(i1);
        let h2 = self.height_at(i2);
        proof {
            lemma_cell_height_bound(self.cell_at(i1));
            lemma_cell_height_bound(self.cell_at(i2));
        }
        let dx: i64 = i1.x as i64 - i2.x as i64;
        let dy: i64 = i1.y as i64 - i2.y as i64;
        proof {
            if i1.x == i2.x && i1.y == i2.y {
                assert(i1 == i2);
            }
            assert(1 <= dx * dx + dy * dy <= 200000 && dx * dx >= 0 && dy * dy >= 0)
                by (nonlinear_arith)
                requires
                    -256 <= dx <= 256,
                    -256 <= dy <= 256,
                    dx != 0 || dy != 0,
            ;
        }
        let dist2: u128 = (dx * dx + dy * dy) as u128;
        let (dh, neg) = if h1 >= h2 {
            (h1 - h2, false)
        } else {
            (h2 - h1, true)
        };
        proof {
            assert((dh as int) * (dh as int) <= 0x8000000000000000 * 0x8000000000000000)
                by (nonlinear_arith)
                requires 0 <= dh as int <= 0x8000000000000000;
        }
        let rad: u128 = dist2 * 1000000000000u128 + (dh as u128) * (dh as u128);
        let root = isqrt_u128(rad);
        proof {
            lemma_sqrt_floor_bounds(rad as int);
            assert(rad as int >= (dh as int) * (dh as int));
            lemma_sqrt_floor_ge(rad as int, dh as int);
            assert(rad as int >= 1 * 1);
            lemma_sqrt_floor_ge(rad as int, 1);
            if dh > 0 {
                lemma_div_is_ordered_by_denominator(
                    (dh as int) * 1000000, dh as int, root as int);
                assert((dh as int) * 1000000 / (dh as int) == 1000000) by (nonlinear_arith)
                    requires dh as int > 0;
            }
        }
        let q: u128 = (dh as u128) * 1000000 / root;
        let qi = q as i64;
        if neg {
            -qi
        } else {
            qi
        }
    }
}

/// True of the cell every position of a fresh flat landscape holds: pure
/// bedrock at the default height and nothing else.
pub open spec fn is_flat_cell(c: Cell) -> bool {
    &&& c.bedrock == Some(Bedrock { height: DEFAULT_BEDROCK_HEIGHT })
    &&& c.rock is None && c.sand is None && c.humus is None
    &&& c.trees is None && c.bushes is None && c.grasses is None
    &&& c.dead_vegetation is None
    &&& c.soil_moisture == 0
    &&& c.hours_of_sunlight@ == Seq::new(12, |i: int| 0u64)
}

/// The flat index of an in-bounds cell lies inside the grid vector.
pub proof fn lemma_flat_in_range(i: CellIndex)
    requires
        in_bounds(i),
    ensures
        0 <= flat_of(i) < NUM_CELLS,
{
    assert(i.x + i.y * AREA_SIDE_LENGTH < NUM_CELLS) by (nonlinear_arith)
        requires i.x < AREA_SIDE_LENGTH, i.y < AREA_SIDE_LENGTH,
            NUM_CELLS == AREA_SIDE_LENGTH * AREA_SIDE_LENGTH;
}

/// Distinct in-bounds indices have distinct flat indices.
pub proof fn lemma_flat_injective(i1: CellIndex, i2: CellIndex)
    requires
        in_bounds(i1),
        in_bounds(i2),
        i1 != i2,
    ensures
        flat_of(i1) != flat_of(i2),
{
    assert(i1.x + i1.y * AREA_SIDE_LENGTH != i2.x + i2.y * AREA_SIDE_LENGTH) by (nonlinear_arith)
        requires
            i1.x < AREA_SIDE_LENGTH,
            i2.x < AREA_SIDE_LENGTH,
            i1.x != i2.x || i1.y != i2.y,
    ;
}

/// A well-formed cell's total height is at most four layer caps.
pub proof fn lemma_cell_height_bound(c: Cell)
    requires
        c.wf(),
    ensures
        0 <= c.height_um() <= 0x8000000000000000,
{
}

/// The cell index whose flat index is `k`.
pub open spec fn spec_index_of(k: int) -> CellIndex {
    CellIndex { x: (k % (AREA_SIDE_LENGTH as int)) as usize, y: (k / (AREA_SIDE_LENGTH as int)) as usize }
}

/// Every flat position is some in-bounds cell index.
pub proof fn lemma_index_surjective(k: int)
    requires
        0 <= k < NUM_CELLS,
    ensures
        in_bounds(spec_index_of(k)),
        flat_of(spec_index_of(k)) == k,
{
    let n = AREA_SIDE_LENGTH as int;
    vstd::arithmetic::div_mod::lemma_fundamental_div_mod(k, n);
    assert(k / n < n) by (nonlinear_arith)
        requires k < n * n, n >= 1, n * (k / n) <= k;
}

} // verus!
