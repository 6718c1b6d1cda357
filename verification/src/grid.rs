//! Cell addressing: 2D indices, the flat-index mapping, and the up-to-eight
//! directional neighbors of a cell, clipped to the grid boundary.

use vstd::prelude::*;
use crate::constants::AREA_SIDE_LENGTH;

verus! {

/// Position of a cell in the grid: `0 <= x, y < AREA_SIDE_LENGTH`.
#[derive(PartialEq, Eq, Structural, Clone, Copy, Debug, Hash)]
pub struct CellIndex {
    pub x: usize,
    pub y: usize,
}

/// True when the index lies inside the grid.
pub open spec fn in_bounds(i: CellIndex) -> bool {
    i.x < AREA_SIDE_LENGTH && i.y < AREA_SIDE_LENGTH
}

impl CellIndex {
    /// Builds the index (x, y).
    pub fn new(x: usize, y: usize) -> (r: Self)
        ensures
            r.x == x,
            r.y == y,
    {
        Self { x, y }
    }

    /// Recovers the 2D index from a flat index `i = x + y * AREA_SIDE_LENGTH`.
    pub fn get_from_flat_index(i: usize) -> (r: Self)
        requires
            i < AREA_SIDE_LENGTH * AREA_SIDE_LENGTH,
        ensures
            in_bounds(r),
            i == r.x + r.y * AREA_SIDE_LENGTH,
    {
        let y = i / AREA_SIDE_LENGTH;
        let x = i % AREA_SIDE_LENGTH;
        CellIndex::new(x, y)
    }

    /// The flat index of this cell: `x + y * AREA_SIDE_LENGTH`.
    pub fn flat(&self) -> (r: usize)
        requires
            in_bounds(*self),
        ensures
            r == self.x + self.y * AREA_SIDE_LENGTH,
            r < AREA_SIDE_LENGTH * AREA_SIDE_LENGTH,
    {
        proof {
            assert(self.y * AREA_SIDE_LENGTH <= (AREA_SIDE_LENGTH - 1) * AREA_SIDE_LENGTH)
                by (nonlinear_arith)
                requires self.y <= AREA_SIDE_LENGTH - 1;
        }
        self.x + self.y * AREA_SIDE_LENGTH
    }

    /// The up-to-eight neighbors of this cell, clipped to the boundary.
    pub fn get_neighbors(&self) -> (r: Neighbors)
        requires
            in_bounds(*self),
        ensures
            r == spec_neighbors(*self),
    {
        let x = self.x;
        let y = self.y;
        let mut neighbors = Neighbors::init();
        if x > 0 {
            neighbors.west = Some(CellIndex { x: x - 1, y });
            if y > 0 {
                neighbors.northwest = Some(CellIndex { x: x - 1, y: y - 1 });
            }
            if y < AREA_SIDE_LENGTH - 1 {
                neighbors.southwest = Some(CellIndex { x: x - 1, y: y + 1 });
            }
        }
        if x < AREA_SIDE_LENGTH - 1 {
            neighbors.east = Some(CellIndex { x: x + 1, y });
            if y > 0 {
                neighbors.northeast = Some(CellIndex { x: x + 1, y: y - 1 });
            }
            if y < AREA_SIDE_LENGTH - 1 {
                neighbors.southeast = Some(CellIndex { x: x + 1, y: y + 1 });
            }
        }
        if y > 0 {
            neighbors.north = Some(CellIndex { x, y: y - 1 });
        }
        if y < AREA_SIDE_LENGTH - 1 {
            neighbors.south = Some(CellIndex { x, y: y + 1 });
        }
        neighbors
    }
}

/// The eight directional neighbor slots of a cell; a slot holds `None` where
/// the neighbor would fall outside the grid.
#[derive(PartialEq, Eq, Structural, Clone, Copy, Debug)]
pub struct Neighbors {
    pub northwest: Option<CellIndex>,
    pub north: Option<CellIndex>,
    pub northeast: Option<CellIndex>,
    pub west: Option<CellIndex>,
    pub east: Option<CellIndex>,
    pub southwest: Option<CellIndex>,
    pub south: Option<CellIndex>,
    pub southeast: Option<CellIndex>,
}

/// The neighbors of `i`, as `get_neighbors` computes them.
pub open spec fn spec_neighbors(i: CellIndex) -> Neighbors {
    Neighbors {
        west: if i.x > 0 { Some(CellIndex { x: (i.x - 1) as usize, y: i.y }) } else { None },
        east: if i.x < AREA_SIDE_LENGTH - 1 {
            Some(CellIndex { x: (i.x + 1) as usize, y: i.y })
        } else {
            None
        },
        north: if i.y > 0 { Some(CellIndex { x: i.x, y: (i.y - 1) as usize }) } else { None },
        south: if i.y < AREA_SIDE_LENGTH - 1 {
            Some(CellIndex { x: i.x, y: (i.y + 1) as usize })
        } else {
            None
        },
        northwest: if i.x > 0 && i.y > 0 {
            Some(CellIndex { x: (i.x - 1) as usize, y: (i.y - 1) as usize })
        } else {
            None
        },
        northeast: if i.x < AREA_SIDE_LENGTH - 1 && i.y > 0 {
            Some(CellIndex { x: (i.x + 1) as usize, y: (i.y - 1) as usize })
        } else {
            None
        },
        southwest: if i.x > 0 && i.y < AREA_SIDE_LENGTH - 1 {
            Some(CellIndex { x: (i.x - 1) as usize, y: (i.y + 1) as usize })
        } else {
            None
        },
        southeast: if i.x < AREA_SIDE_LENGTH - 1 && i.y < AREA_SIDE_LENGTH - 1 {
            Some(CellIndex { x: (i.x + 1) as usize, y: (i.y + 1) as usize })
        } else {
            None
        },
    }
}

impl Neighbors {
    /// All slots empty.
    pub fn init() -> (r: Self)
        ensures
            r.northwest is None && r.north is None && r.northeast is None,
            r.west is None && r.east is None,
            r.southwest is None && r.south is None && r.southeast is None,
    {
        Neighbors {
            north: None,
            south: None,
            west: None,
            east: None,
            northwest: None,
            northeast: None,
            southwest: None,
            southeast: None,
        }
    }

    /// The slots in a fixed order: NW, N, NE, W, E, SW, S, SE.
    pub fn as_array(&self) -> (r: [Option<CellIndex>; 8])
        ensures
            r@ == seq![
                self.northwest, self.north, self.northeast, self.west,
                self.east, self.southwest, self.south, self.southeast,
            ],
    {
        let r = [
            self.northwest,
            self.north,
            self.northeast,
            self.west,
            self.east,
            self.southwest,
            self.south,
            self.southeast,
        ];
        proof {
            assert(r@ =~= seq![
                self.northwest, self.north, self.northeast, self.west,
                self.east, self.southwest, self.south, self.southeast,
            ]);
        }
        r
    }

    /// How many slots are filled.
    pub open spec fn spec_len(&self) -> int {
        (if self.northwest is Some { 1int } else { 0 })
            + (if self.north is Some { 1int } else { 0 })
            + (if self.northeast is Some { 1int } else { 0 })
            + (if self.west is Some { 1int } else { 0 })
            + (if self.east is Some { 1int } else { 0 })
            + (if self.southwest is Some { 1int } else { 0 })
            + (if self.south is Some { 1int } else { 0 })
            + (if self.southeast is Some { 1int } else { 0 })
    }

    /// Number of neighbors present.
    pub fn len(&self) -> (r: usize)
        ensures
            r == self.spec_len(),
    {
        let mut count: usize = 0;
        if self.northwest.is_some() { count += 1; }
        if self.north.is_some() { count += 1; }
        if self.northeast.is_some() { count += 1; }
        if self.west.is_some() { count += 1; }
        if self.east.is_some() { count += 1; }
        if self.southwest.is_some() { count += 1; }
        if self.south.is_some() { count += 1; }
        if self.southeast.is_some() { count += 1; }
        count
    }
}

/// Boundary cells have correspondingly fewer neighbors: a corner cell has 3,
/// a non-corner edge cell has 5, and an interior cell has all 8, and every
/// neighbor returned lies inside the grid.
pub proof fn lemma_neighbor_counts(i: CellIndex)
    requires
        in_bounds(i),
    ensures
        ({
            let n = spec_neighbors(i);
            let on_x_edge = i.x == 0 || i.x == AREA_SIDE_LENGTH - 1;
            let on_y_edge = i.y == 0 || i.y == AREA_SIDE_LENGTH - 1;
            &&& (on_x_edge && on_y_edge ==> n.spec_len() == 3)
            &&& ((on_x_edge && !on_y_edge) || (!on_x_edge && on_y_edge) ==> n.spec_len() == 5)
            &&& (!on_x_edge && !on_y_edge ==> n.spec_len() == 8)
            &&& (n.north is Some ==> in_bounds(n.north->0))
            &&& (n.south is Some ==> in_bounds(n.south->0))
            &&& (n.west is Some ==> in_bounds(n.west->0))
            &&& (n.east is Some ==> in_bounds(n.east->0))
            &&& (n.northwest is Some ==> in_bounds(n.northwest->0))
            &&& (n.northeast is Some ==> in_bounds(n.northeast->0))
            &&& (n.southwest is Some ==> in_bounds(n.southwest->0))
            &&& (n.southeast is Some ==> in_bounds(n.southeast->0))
        }),
{
}

} // verus!
