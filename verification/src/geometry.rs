//! Geometry services over the grid: triangle normals, vertex normals, and
//! the curvature estimate that modulates lightning. Positions mix units as
//! the renderer does: x and y are cell coordinates scaled by 10^6, z is the
//! terrain height in micrometers, with height differences clamped to a
//! million meters so every product fits its integer type. Normals are unit
//! vectors at scale 10^9. Because everything is integer arithmetic, no
//! geometry function can produce a NaN or infinity.

use vstd::prelude::*;
use crate::ecosystem::{dist2_cells, Ecosystem};
use crate::grid::{in_bounds, spec_neighbors, CellIndex};
use crate::math::{isqrt_u128, lemma_sqrt_floor_bounds, lemma_sqrt_floor_ge, lemma_sqrt_floor_le,
    sqrt_floor};

verus! {

/// A three-component integer vector.
#[derive(PartialEq, Eq, Structural, Clone, Copy, Debug)]
pub struct Vec3 {
    pub x: i64,
    pub y: i64,
    pub z: i64,
}

/// Height difference clamp, in micrometers (one million meters): keeps all
/// geometry products inside 128 bits.
pub const GEOM_DZ_CAP: u64 = 1000000000000;

/// The clamped, signed height difference `h1 - h2` in micrometers.
pub open spec fn spec_dz(h1: int, h2: int) -> int {
    if h1 - h2 > GEOM_DZ_CAP {
        GEOM_DZ_CAP as int
    } else if h1 - h2 < -(GEOM_DZ_CAP as int) {
        -(GEOM_DZ_CAP as int)
    } else {
        h1 - h2
    }
}

/// Components of the cross product of two vectors.
pub open spec fn spec_cross_x(a: Vec3, b: Vec3) -> int {
    a.y * b.z - a.z * b.y
}

pub open spec fn spec_cross_y(a: Vec3, b: Vec3) -> int {
    a.z * b.x - a.x * b.z
}

pub open spec fn spec_cross_z(a: Vec3, b: Vec3) -> int {
    a.x * b.y - a.y * b.x
}

/// Squared Euclidean norm.
pub open spec fn spec_norm_sq(x: int, y: int, z: int) -> int {
    x * x + y * y + z * z
}

/// One component of a vector normalized to scale 10^9 with floor division
/// toward zero.
pub open spec fn spec_norm_div(c: int, root: int) -> int {
    if c >= 0 {
        c * 1000000000 / root
    } else {
        -((-c) * 1000000000 / root)
    }
}

/// True of a vector whose components all lie within `bound`.
pub open spec fn vec_bounded(v: Vec3, bound: int) -> bool {
    -bound <= v.x <= bound && -bound <= v.y <= bound && -bound <= v.z <= bound
}

/// True of an edge vector: x and y within one micro-cell, z within the
/// height clamp.
pub open spec fn edge_bounded(v: Vec3) -> bool {
    -1000000 <= v.x <= 1000000 && -1000000 <= v.y <= 1000000
        && -(GEOM_DZ_CAP as int) <= v.z <= GEOM_DZ_CAP as int
}

/// Normalizes an integer vector to a unit vector at scale 10^9.
fn normalize_s9(v: Vec3) -> (r: Vec3)
    requires
        vec_bounded(v, 0x2000000000000000),
        !(v.x == 0 && v.y == 0 && v.z == 0),
    ensures
        ({
            let root = sqrt_floor(spec_norm_sq(v.x as int, v.y as int, v.z as int));
            r.x == spec_norm_div(v.x as int, root) && r.y == spec_norm_div(v.y as int, root)
                && r.z == spec_norm_div(v.z as int, root)
        }),
        vec_bounded(r, 1000000000),
{
    let (ax, ay, az) = (abs_i64(v.x), abs_i64(v.y), abs_i64(v.z));
    proof {
        assert((ax as int) * (ax as int) <= 0x2000000000000000 * 0x2000000000000000
            && (ax as int) * (ax as int) >= 0) by (nonlinear_arith)
            requires 0 <= ax as int <= 0x2000000000000000;
        assert((ay as int) * (ay as int) <= 0x2000000000000000 * 0x2000000000000000
            && (ay as int) * (ay as int) >= 0) by (nonlinear_arith)
            requires 0 <= ay as int <= 0x2000000000000000;
        assert((az as int) * (az as int) <= 0x2000000000000000 * 0x2000000000000000
            && (az as int) * (az as int) >= 0) by (nonlinear_arith)
            requires 0 <= az as int <= 0x2000000000000000;
    }
    let nsq: u128 = (ax as u128) * (ax as u128) + (ay as u128) * (ay as u128)
        + (az as u128) * (az as u128);
    proof {
        assert(nsq as int == spec_norm_sq(v.x as int, v.y as int, v.z as int)) by {
            assert((ax as int) * (ax as int) == (v.x as int) * (v.x as int))
                by (nonlinear_arith)
                requires ax as int == v.x as int || ax as int == -(v.x as int);
            assert((ay as int) * (ay as int) == (v.y as int) * (v.y as int))
                by (nonlinear_arith)
                requires ay as int == v.y as int || ay as int == -(v.y as int);
            assert((az as int) * (az as int) == (v.z as int) * (v.z as int))
                by (nonlinear_arith)
                requires az as int == v.z as int || az as int == -(v.z as int);
        }
        assert(nsq >= 1) by {
            if ax >= 1 {
                assert((ax as int) * (ax as int) >= 1) by (nonlinear_arith)
                    requires ax as int >= 1;
            } else if ay >= 1 {
                assert((ay as int) * (ay as int) >= 1) by (nonlinear_arith)
                    requires ay as int >= 1;
            } else {
                assert(az >= 1);
                assert((az as int) * (az as int) >= 1) by (nonlinear_arith)
                    requires az as int >= 1;
            }
        }
    }
    let root = isqrt_u128(nsq);
    proof {
        lemma_sqrt_floor_bounds(nsq as int);
        lemma_sqrt_floor_ge(nsq as int, 1);
        lemma_sqrt_floor_ge(nsq as int, ax as int);
        lemma_sqrt_floor_ge(nsq as int, ay as int);
        lemma_sqrt_floor_ge(nsq as int, az as int);
        assert(0x40000000000000000 * 0x40000000000000000 >= nsq as int);
        lemma_sqrt_floor_le(nsq as int, 0x40000000000000000);
    }
    Vec3 {
        x: norm_component(v.x, ax, root),
        y: norm_component(v.y, ay, root),
        z: norm_component(v.z, az, root),
    }
}

/// `|a|`.
fn abs_i64(a: i64) -> (r: i64)
    requires
        a > i64::MIN,
    ensures
        r == (if a >= 0 { a as int } else { -(a as int) }),
        r >= 0,
{
    if a >= 0 {
        a
    } else {
        -a
    }
}

/// One normalized component: `c * S9 / root`, truncated toward zero.
fn norm_component(c: i64, a: i64, root: u128) -> (r: i64)
    requires
        a == (if c >= 0 { c as int } else { -(c as int) }),
        1 <= root,
        a <= root,
        root <= 0x40000000000000000,
    ensures
        r == spec_norm_div(c as int, root as int),
        -1000000000 <= r <= 1000000000,
{
    proof {
        assert(0 <= (a as int) * 1000000000) by (nonlinear_arith) requires a >= 0;
        assert((a as int) * 1000000000 <= (root as int) * 1000000000) by (nonlinear_arith)
            requires 0 <= a as int <= root as int;
        vstd::arithmetic::div_mod::lemma_div_is_ordered(
            (a as int) * 1000000000, (root as int) * 1000000000, root as int);
        assert((root as int) * 1000000000 / (root as int) == 1000000000) by (nonlinear_arith)
            requires root >= 1;
        vstd::arithmetic::div_mod::lemma_div_pos_is_pos((a as int) * 1000000000, root as int);
    }
    let q: u128 = (a as u128) * 1000000000 / root;
    if c >= 0 {
        q as i64
    } else {
        -(q as i64)
    }
}

impl Ecosystem {
    /// The edge vector from cell `from` to cell `to`: x and y in micro-cells,
    /// z the clamped height difference in micrometers.
    pub open spec fn spec_edge(self, from: CellIndex, to: CellIndex) -> Vec3 {
        Vec3 {
            x: ((to.x - from.x) * 1000000) as i64,
            y: ((to.y - from.y) * 1000000) as i64,
            z: spec_dz(self.cell_at(to).height_um(), self.cell_at(from).height_um()) as i64,
        }
    }

    /// The edge vector as `spec_edge` describes it.
    fn edge(&self, from: CellIndex, to: CellIndex) -> (r: Vec3)
        requires
            self.wf(),
            in_bounds(from),
            in_bounds(to),
        ensures
            r == self.spec_edge(from, to),
            -1 <= to.x - from.x <= 1 && -1 <= to.y - from.y <= 1 ==> edge_bounded(r),
    {
        let hf = self.height_at(from);
        let ht = self.height_at(to);
        let dz: i64 = if ht >= hf {
            let d = ht - hf;
            if d > GEOM_DZ_CAP { GEOM_DZ_CAP as i64 } else { d as i64 }
        } else {
            let d = hf - ht;
            if d > GEOM_DZ_CAP { -(GEOM_DZ_CAP as i64) } else { -(d as i64) }
        };
        Vec3 {
            x: (to.x as i64 - from.x as i64) * 1000000,
            y: (to.y as i64 - from.y as i64) * 1000000,
            z: dz,
        }
    }

    /// The unit normal (scale 10^9) of the triangle over cells `i1`, `i2`,
    /// `i3`, flipped so its z-component is nonnegative.
    pub open spec fn spec_triangle_normal(self, i1: CellIndex, i2: CellIndex, i3: CellIndex)
        -> Vec3 {
        let ba = self.spec_edge(i1, i2);
        let ca = self.spec_edge(i1, i3);
        let cx = spec_cross_x(ba, ca);
        let cy = spec_cross_y(ba, ca);
        let cz = spec_cross_z(ba, ca);
        let root = sqrt_floor(spec_norm_sq(cx, cy, cz));
        let n = Vec3 {
            x: spec_norm_div(cx, root) as i64,
            y: spec_norm_div(cy, root) as i64,
            z: spec_norm_div(cz, root) as i64,
        };
        if n.z < 0 {
            Vec3 { x: n.x, y: n.y, z: (-n.z) as i64 }
        } else {
            n
        }
    }

    /// Computes `spec_triangle_normal` for three pairwise-distinct cells of
    /// a neighborhood (so the triangle never degenerates).
    pub fn get_normal_of_triangle(&self, i1: CellIndex, i2: CellIndex, i3: CellIndex) -> (r: Vec3)
        requires
            self.wf(),
            in_bounds(i1),
            in_bounds(i2),
            in_bounds(i3),
            (i2.x - i1.x) * (i3.y - i1.y) != (i2.y - i1.y) * (i3.x - i1.x),
            dist2_cells(i1, i2) <= 2,
            dist2_cells(i1, i3) <= 2,
        ensures
            r == self.spec_triangle_normal(i1, i2, i3),
            vec_bounded(r, 1000000000),
            r.z >= 0,
    {
        let ba = self.edge(i1, i2);
        let ca = self.edge(i1, i3);
        proof {
            lemma_edge_small(*self, i1, i2);
            lemma_edge_small(*self, i1, i3);
            lemma_cross_bounds(ba, ca);
            assert forall|p: int, q: int|
                -1000000000000 <= p <= 1000000000000 && -1000000000000 <= q <= 1000000000000
                implies -1000000000000000000000000 <= #[trigger] (p * q)
                    <= 1000000000000000000000000 by {
                assert(-1000000000000000000000000 <= p * q <= 1000000000000000000000000)
                    by (nonlinear_arith)
                    requires
                        -1000000000000 <= p <= 1000000000000,
                        -1000000000000 <= q <= 1000000000000,
                ;
            }
        }
        let cx: i128 = (ba.y as i128) * (ca.z as i128) - (ba.z as i128) * (ca.y as i128);
        let cy: i128 = (ba.z as i128) * (ca.x as i128) - (ba.x as i128) * (ca.z as i128);
        let cz: i128 = (ba.x as i128) * (ca.y as i128) - (ba.y as i128) * (ca.x as i128);
        proof {
            assert(cz != 0) by (nonlinear_arith)
                requires
                    cz == (ba.x as int) * (ca.y as int) - (ba.y as int) * (ca.x as int),
                    ba.x == (i2.x - i1.x) * 1000000,
                    ba.y == (i2.y - i1.y) * 1000000,
                    ca.x == (i3.x - i1.x) * 1000000,
                    ca.y == (i3.y - i1.y) * 1000000,
                    (i2.x - i1.x) * (i3.y - i1.y) != (i2.y - i1.y) * (i3.x - i1.x),
            ;
        }
        let n = normalize_s9(Vec3 { x: cx as i64, y: cy as i64, z: cz as i64 });
        if n.z < 0 {
            Vec3 { x: n.x, y: n.y, z: -n.z }
        } else {
            n
        }
    }
}

/// Edges toward cells at most one step away stay bounded.
proof fn lemma_edge_small(eco: Ecosystem, from: CellIndex, to: CellIndex)
    requires
        dist2_cells(from, to) <= 2,
    ensures
        -1 <= to.x - from.x <= 1 && -1 <= to.y - from.y <= 1,
        edge_bounded(eco.spec_edge(from, to)),
{
    assert(-1 <= to.x - from.x <= 1 && -1 <= to.y - from.y <= 1) by (nonlinear_arith)
        requires
            (from.x - to.x) * (from.x - to.x) + (from.y - to.y) * (from.y - to.y) <= 2,
    ;
}

/// Cross products of bounded edges stay within 62 bits.
proof fn lemma_cross_bounds(a: Vec3, b: Vec3)
    requires
        edge_bounded(a),
        edge_bounded(b),
    ensures
        -0x2000000000000000 <= spec_cross_x(a, b) <= 0x2000000000000000,
        -0x2000000000000000 <= spec_cross_y(a, b) <= 0x2000000000000000,
        -0x2000000000000000 <= spec_cross_z(a, b) <= 0x2000000000000000,
{
    assert(-0x2000000000000000 <= (a.y as int) * (b.z as int) - (a.z as int) * (b.y as int)
        <= 0x2000000000000000) by (nonlinear_arith)
        requires
            -1000000 <= a.y as int <= 1000000,
            -1000000000000 <= a.z as int <= 1000000000000,
            -1000000 <= b.y as int <= 1000000,
            -1000000000000 <= b.z as int <= 1000000000000,
    ;
    assert(-0x2000000000000000 <= (a.z as int) * (b.x as int) - (a.x as int) * (b.z as int)
        <= 0x2000000000000000) by (nonlinear_arith)
        requires
            -1000000 <= a.x as int <= 1000000,
            -1000000000000 <= a.z as int <= 1000000000000,
            -1000000 <= b.x as int <= 1000000,
            -1000000000000 <= b.z as int <= 1000000000000,
    ;
    assert(-0x2000000000000000 <= (a.x as int) * (b.y as int) - (a.y as int) * (b.x as int)
        <= 0x2000000000000000) by (nonlinear_arith)
        requires
            -1000000 <= a.x as int <= 1000000,
            -1000000 <= a.y as int <= 1000000,
            -1000000 <= b.x as int <= 1000000,
            -1000000 <= b.y as int <= 1000000,
    ;
}

/// A sum of three squares is nonnegative.
proof fn lemma_norm_sq_nonneg(x: int, y: int, z: int)
    ensures
        spec_norm_sq(x, y, z) >= 0,
{
    assert(x * x >= 0 && y * y >= 0 && z * z >= 0) by (nonlinear_arith);
}

/// The four face triangles around a cell use straight neighbors at distance
/// one whose edge directions are never colinear.
proof fn lemma_face_pairs(i: CellIndex)
    requires
        in_bounds(i),
    ensures
        ({
            let n = spec_neighbors(i);
            &&& (n.north is Some ==> dist2_cells(i, n.north->0) == 1)
            &&& (n.south is Some ==> dist2_cells(i, n.south->0) == 1)
            &&& (n.west is Some ==> dist2_cells(i, n.west->0) == 1)
            &&& (n.east is Some ==> dist2_cells(i, n.east->0) == 1)
            &&& (n.north is Some && n.west is Some ==> {
                let a = n.north->0;
                let b = n.west->0;
                (a.x - i.x) * (b.y - i.y) != (a.y - i.y) * (b.x - i.x)
            })
            &&& (n.west is Some && n.south is Some ==> {
                let a = n.west->0;
                let b = n.south->0;
                (a.x - i.x) * (b.y - i.y) != (a.y - i.y) * (b.x - i.x)
            })
            &&& (n.east is Some && n.north is Some ==> {
                let a = n.east->0;
                let b = n.north->0;
                (a.x - i.x) * (b.y - i.y) != (a.y - i.y) * (b.x - i.x)
            })
            &&& (n.south is Some && n.east is Some ==> {
                let a = n.south->0;
                let b = n.east->0;
                (a.x - i.x) * (b.y - i.y) != (a.y - i.y) * (b.x - i.x)
            })
        }),
{
    let n = spec_neighbors(i);
    if n.north is Some {
        let a = n.north->0;
        assert(dist2_cells(i, a) == 1) by (nonlinear_arith)
            requires
                dist2_cells(i, a) == (i.x - a.x) * (i.x - a.x) + (i.y - a.y) * (i.y - a.y),
                a.x == i.x,
                i.y - a.y == 1,
        ;
    }
    if n.south is Some {
        let a = n.south->0;
        assert(dist2_cells(i, a) == 1) by (nonlinear_arith)
            requires
                dist2_cells(i, a) == (i.x - a.x) * (i.x - a.x) + (i.y - a.y) * (i.y - a.y),
                a.x == i.x,
                i.y - a.y == -1,
        ;
    }
    if n.west is Some {
        let a = n.west->0;
        assert(dist2_cells(i, a) == 1) by (nonlinear_arith)
            requires
                dist2_cells(i, a) == (i.x - a.x) * (i.x - a.x) + (i.y - a.y) * (i.y - a.y),
                a.y == i.y,
                i.x - a.x == 1,
        ;
    }
    if n.east is Some {
        let a = n.east->0;
        assert(dist2_cells(i, a) == 1) by (nonlinear_arith)
            requires
                dist2_cells(i, a) == (i.x - a.x) * (i.x - a.x) + (i.y - a.y) * (i.y - a.y),
                a.y == i.y,
                i.x - a.x == -1,
        ;
    }
    if n.north is Some && n.west is Some {
        let a = n.north->0;
        let b = n.west->0;
        assert((a.x - i.x) * (b.y - i.y) != (a.y - i.y) * (b.x - i.x)) by (nonlinear_arith)
            requires a.x - i.x == 0, b.y - i.y == 0, a.y - i.y == -1, b.x - i.x == -1;
    }
    if n.west is Some && n.south is Some {
        let a = n.west->0;
        let b = n.south->0;
        assert((a.x - i.x) * (b.y - i.y) != (a.y - i.y) * (b.x - i.x)) by (nonlinear_arith)
            requires a.x - i.x == -1, b.y - i.y == 1, a.y - i.y == 0, b.x - i.x == 0;
    }
    if n.east is Some && n.north is Some {
        let a = n.east->0;
        let b = n.north->0;
        assert((a.x - i.x) * (b.y - i.y) != (a.y - i.y) * (b.x - i.x)) by (nonlinear_arith)
            requires a.x - i.x == 1, b.y - i.y == -1, a.y - i.y == 0, b.x - i.x == 0;
    }
    if n.south is Some && n.east is Some {
        let a = n.south->0;
        let b = n.east->0;
        assert((a.x - i.x) * (b.y - i.y) != (a.y - i.y) * (b.x - i.x)) by (nonlinear_arith)
            requires a.x - i.x == 0, b.y - i.y == 0, a.y - i.y == 1, b.x - i.x == 1;
    }
}

/// Truncating signed division (toward zero), for positive divisors.
pub open spec fn spec_div_trunc(a: int, b: int) -> int {
    if a >= 0 {
        a / b
    } else {
        -((-a) / b)
    }
}

impl Ecosystem {
    /// The unit normal at a cell: the normalized sum of the normals of the
    /// up-to-four triangles the cell forms with its straight neighbors
    /// (center-up-left, center-left-down, center-right-up, center-down-right).
    pub open spec fn spec_vertex_normal(self, index: CellIndex) -> Vec3 {
        let s = self.spec_normal_sum(index);
        let root = sqrt_floor(spec_norm_sq(s.x as int, s.y as int, s.z as int));
        Vec3 {
            x: spec_norm_div(s.x as int, root) as i64,
            y: spec_norm_div(s.y as int, root) as i64,
            z: spec_norm_div(s.z as int, root) as i64,
        }
    }

    /// Sum of the face normals around a cell.
    pub open spec fn spec_normal_sum(self, index: CellIndex) -> Vec3 {
        let n = spec_neighbors(index);
        let f1 = if n.north is Some && n.west is Some {
            self.spec_triangle_normal(index, n.north->0, n.west->0)
        } else {
            Vec3 { x: 0, y: 0, z: 0 }
        };
        let f2 = if n.west is Some && n.south is Some {
            self.spec_triangle_normal(index, n.west->0, n.south->0)
        } else {
            Vec3 { x: 0, y: 0, z: 0 }
        };
        let f3 = if n.east is Some && n.north is Some {
            self.spec_triangle_normal(index, n.east->0, n.north->0)
        } else {
            Vec3 { x: 0, y: 0, z: 0 }
        };
        let f4 = if n.south is Some && n.east is Some {
            self.spec_triangle_normal(index, n.south->0, n.east->0)
        } else {
            Vec3 { x: 0, y: 0, z: 0 }
        };
        Vec3 {
            x: (f1.x + f2.x + f3.x + f4.x) as i64,
            y: (f1.y + f2.y + f3.y + f4.y) as i64,
            z: (f1.z + f2.z + f3.z + f4.z) as i64,
        }
    }

    /// Computes the vertex normal of `spec_vertex_normal`.
    #[verifier::rlimit(100)]
    #[verifier::spinoff_prover]
    pub fn get_normal(&self, index: CellIndex) -> (r: Vec3)
        requires
            self.wf(),
            in_bounds(index),
        ensures
            r == self.spec_vertex_normal(index),
            vec_bounded(r, 1000000000),
            r.z >= 0,
    {
        proof {
            lemma_face_pairs(index);
        }
        let n = index.get_neighbors();
        let mut sx: i64 = 0;
        let mut sy: i64 = 0;
        let mut sz: i64 = 0;
        if let (Some(up), Some(left)) = (n.north, n.west) {
            let f = self.get_normal_of_triangle(index, up, left);
            sx = sx + f.x; sy = sy + f.y; sz = sz + f.z;
        }
        if let (Some(left), Some(down)) = (n.west, n.south) {
            let f = self.get_normal_of_triangle(index, left, down);
            sx = sx + f.x; sy = sy + f.y; sz = sz + f.z;
        }
        if let (Some(right), Some(up)) = (n.east, n.north) {
            let f = self.get_normal_of_triangle(index, right, up);
            sx = sx + f.x; sy = sy + f.y; sz = sz + f.z;
        }
        if let (Some(down), Some(right)) = (n.south, n.east) {
            let f = self.get_normal_of_triangle(index, down, right);
            sx = sx + f.x; sy = sy + f.y; sz = sz + f.z;
        }
        proof {
            lemma_some_face(*self, index);
        }
        let r = normalize_s9(Vec3 { x: sx, y: sy, z: sz });
        proof {
            // the face-normal sum points upward, so the normalized vector
            // does too
            assert(sz == self.spec_normal_sum(index).z);
            lemma_face_normals_bounded(*self, index);
            assert(sz >= 1);
            let nsq = spec_norm_sq(sx as int, sy as int, sz as int);
            assert(nsq >= 1) by (nonlinear_arith)
                requires
                    nsq == sx * sx + sy * sy + sz * sz,
                    sz >= 1,
            ;
            lemma_sqrt_floor_bounds(nsq);
            lemma_sqrt_floor_ge(nsq, 1);
            vstd::arithmetic::div_mod::lemma_div_pos_is_pos(
                (sz as int) * 1000000000, sqrt_floor(nsq));
        }
        r
    }

    /// Curvature along the edge from `i1` to its neighbor `i2`: the change
    /// of the vertex normal projected on the edge direction, divided by the
    /// edge length, at scale 10^9 per meter-ish mixed unit.
    pub open spec fn spec_curvature_between(self, i1: CellIndex, i2: CellIndex) -> int {
        let n1 = self.spec_vertex_normal(i1);
        let n2 = self.spec_vertex_normal(i2);
        let d = self.spec_edge(i1, i2);
        let rd = sqrt_floor(spec_norm_sq(d.x as int, d.y as int, d.z as int));
        let nd = Vec3 {
            x: spec_norm_div(d.x as int, rd) as i64,
            y: spec_norm_div(d.y as int, rd) as i64,
            z: spec_norm_div(d.z as int, rd) as i64,
        };
        let dot = spec_div_trunc(
            (n2.x - n1.x) * nd.x + (n2.y - n1.y) * nd.y + (n2.z - n1.z) * nd.z,
            1000000000,
        );
        spec_div_trunc(dot * 1000000, rd)
    }

    /// Computes `spec_curvature_between` for adjacent cells.
    #[verifier::rlimit(60)]
    fn estimate_curvature_between_points(&self, i1: CellIndex, i2: CellIndex) -> (r: i64)
        requires
            self.wf(),
            in_bounds(i1),
            in_bounds(i2),
            i1 != i2,
            dist2_cells(i1, i2) <= 2,
        ensures
            r == self.spec_curvature_between(i1, i2),
            -7000000000 <= r <= 7000000000,
    {
        let n1 = self.get_normal(i1);
        let n2 = self.get_normal(i2);
        let d = self.edge(i1, i2);
        proof {
            lemma_edge_small(*self, i1, i2);
            assert(d.x != 0 || d.y != 0) by {
                if i1.x == i2.x && i1.y == i2.y {
                    assert(i1 == i2);
                }
            }
        }
        let nd = normalize_s9(d);
        let ghost rd = sqrt_floor(spec_norm_sq(d.x as int, d.y as int, d.z as int));
        proof {
            lemma_norm_sq_nonneg(d.x as int, d.y as int, d.z as int);
            lemma_sqrt_floor_bounds(spec_norm_sq(d.x as int, d.y as int, d.z as int));
            assert(spec_norm_sq(d.x as int, d.y as int, d.z as int) >= 1000000 * 1000000) by {
                assert(d.x * d.x + d.y * d.y >= 1000000 * 1000000 && d.x * d.x >= 0
                    && d.y * d.y >= 0 && d.z * d.z >= 0) by (nonlinear_arith)
                    requires
                        d.x == -1000000 || d.x == 0 || d.x == 1000000,
                        d.y == -1000000 || d.y == 0 || d.y == 1000000,
                        d.x != 0 || d.y != 0,
                ;
            }
            lemma_sqrt_floor_ge(spec_norm_sq(d.x as int, d.y as int, d.z as int), 1000000);
            assert forall|p: int, q: int|
                -2000000000 <= p <= 2000000000 && -1000000000 <= q <= 1000000000
                implies -2000000000000000000 <= #[trigger] (p * q) <= 2000000000000000000 by {
                assert(-2000000000000000000 <= p * q <= 2000000000000000000)
                    by (nonlinear_arith)
                    requires
                        -2000000000 <= p <= 2000000000,
                        -1000000000 <= q <= 1000000000,
                ;
            }
        }
        let raw: i128 = ((n2.x - n1.x) as i128) * (nd.x as i128)
            + ((n2.y - n1.y) as i128) * (nd.y as i128)
            + ((n2.z - n1.z) as i128) * (nd.z as i128);
        let dot: i128 = div_trunc_i128(raw, 1000000000);
        proof {
            assert(-7000000000000000000 <= raw <= 7000000000000000000);
            if raw >= 0 {
                vstd::arithmetic::div_mod::lemma_div_is_ordered(
                    raw as int, 7000000000000000000, 1000000000);
                vstd::arithmetic::div_mod::lemma_div_pos_is_pos(raw as int, 1000000000);
            } else {
                vstd::arithmetic::div_mod::lemma_div_is_ordered(
                    -(raw as int), 7000000000000000000, 1000000000);
                vstd::arithmetic::div_mod::lemma_div_pos_is_pos(-(raw as int), 1000000000);
            }
            assert(-7000000000 <= dot <= 7000000000);
            assert(-7000000000000000 <= dot * 1000000 <= 7000000000000000);
        }
        let num: i128 = dot * 1000000;
        let nsq = norm_sq_exec(d);
        let rde = isqrt_u128(nsq);
        proof {
            assert(rde == rd);
            assert(2000000000000 * 2000000000000 >= nsq as int);
            lemma_sqrt_floor_le(nsq as int, 2000000000000);
            lemma_div_trunc_scaled(num as int, rde as int);
        }
        let c = div_trunc_i128(num, rde as i128);
        c as i64
    }

    /// Mean curvature at a cell: the average of the edge curvatures toward
    /// the present straight neighbors.
    pub open spec fn spec_curvature(self, index: CellIndex) -> int {
        let n = spec_neighbors(index);
        let c1 = if n.north is Some { self.spec_curvature_between(index, n.north->0) } else { 0 };
        let c2 = if n.south is Some { self.spec_curvature_between(index, n.south->0) } else { 0 };
        let c3 = if n.west is Some { self.spec_curvature_between(index, n.west->0) } else { 0 };
        let c4 = if n.east is Some { self.spec_curvature_between(index, n.east->0) } else { 0 };
        let cnt = (if n.north is Some { 1int } else { 0 }) + (if n.south is Some { 1int } else { 0 })
            + (if n.west is Some { 1int } else { 0 }) + (if n.east is Some { 1int } else { 0 });
        spec_div_trunc(c1 + c2 + c3 + c4, cnt)
    }

    /// Computes `spec_curvature`.
    #[verifier::rlimit(100)]
    #[verifier::spinoff_prover]
    pub fn estimate_curvature(&self, index: CellIndex) -> (r: i64)
        requires
            self.wf(),
            in_bounds(index),
        ensures
            r == self.spec_curvature(index),
            -28000000000 <= r <= 28000000000,
    {
        proof {
            lemma_face_pairs(index);
        }
        let n = index.get_neighbors();
        let mut sum: i64 = 0;
        let mut cnt: i64 = 0;
        if let Some(up) = n.north {
            sum = sum + self.estimate_curvature_between_points(index, up);
            cnt = cnt + 1;
        }
        if let Some(down) = n.south {
            sum = sum + self.estimate_curvature_between_points(index, down);
            cnt = cnt + 1;
        }
        if let Some(left) = n.west {
            sum = sum + self.estimate_curvature_between_points(index, left);
            cnt = cnt + 1;
        }
        if let Some(right) = n.east {
            sum = sum + self.estimate_curvature_between_points(index, right);
            cnt = cnt + 1;
        }
        proof {
            assert(cnt >= 2);
            lemma_div_trunc_bound(sum as int, cnt as int, 28000000000);
        }
        if sum >= 0 {
            sum / cnt
        } else {
            -((-sum) / cnt)
        }
    }
}

/// Truncating division on `i128`, for positive divisors.
fn div_trunc_i128(a: i128, b: i128) -> (r: i128)
    requires
        b > 0,
        -0x10000000000000000000000000000 <= a <= 0x10000000000000000000000000000,
    ensures
        r == spec_div_trunc(a as int, b as int),
        -0x10000000000000000000000000000 <= r <= 0x10000000000000000000000000000,
{
    proof {
        if a >= 0 {
            vstd::arithmetic::div_mod::lemma_div_is_ordered(
                a as int, 0x10000000000000000000000000000, b as int);
            vstd::arithmetic::div_mod::lemma_div_is_ordered_by_denominator(
                0x10000000000000000000000000000, 1, b as int);
            vstd::arithmetic::div_mod::lemma_div_pos_is_pos(a as int, b as int);
        } else {
            vstd::arithmetic::div_mod::lemma_div_is_ordered(
                (-a) as int, 0x10000000000000000000000000000, b as int);
            vstd::arithmetic::div_mod::lemma_div_is_ordered_by_denominator(
                0x10000000000000000000000000000, 1, b as int);
            vstd::arithmetic::div_mod::lemma_div_pos_is_pos((-a) as int, b as int);
        }
    }
    if a >= 0 {
        a / b
    } else {
        -((-a) / b)
    }
}

/// A bounded dividend over a large divisor gives a small quotient.
proof fn lemma_div_trunc_scaled(a: int, b: int)
    requires
        -7000000000000000 <= a <= 7000000000000000,
        b >= 1000000,
    ensures
        -7000000000 <= spec_div_trunc(a, b) <= 7000000000,
{
    if a >= 0 {
        vstd::arithmetic::div_mod::lemma_div_is_ordered_by_denominator(a, 1000000, b);
        vstd::arithmetic::div_mod::lemma_div_is_ordered(a, 7000000000000000, 1000000);
        vstd::arithmetic::div_mod::lemma_div_pos_is_pos(a, b);
    } else {
        vstd::arithmetic::div_mod::lemma_div_is_ordered_by_denominator(-a, 1000000, b);
        vstd::arithmetic::div_mod::lemma_div_is_ordered(-a, 7000000000000000, 1000000);
        vstd::arithmetic::div_mod::lemma_div_pos_is_pos(-a, b);
    }
}

/// Truncating toward zero never grows the magnitude.
proof fn lemma_div_trunc_bound(a: int, b: int, cap: int)
    requires
        b >= 1,
        0 <= cap,
        -cap <= a <= cap,
    ensures
        -cap <= spec_div_trunc(a, b) <= cap,
{
    if a >= 0 {
        vstd::arithmetic::div_mod::lemma_div_is_ordered(a, cap, b);
        vstd::arithmetic::div_mod::lemma_div_is_ordered_by_denominator(cap, 1, b);
        vstd::arithmetic::div_mod::lemma_div_pos_is_pos(a, b);
    } else {
        vstd::arithmetic::div_mod::lemma_div_is_ordered(-a, cap, b);
        vstd::arithmetic::div_mod::lemma_div_is_ordered_by_denominator(cap, 1, b);
        vstd::arithmetic::div_mod::lemma_div_pos_is_pos(-a, b);
    }
}

/// Squared norm of an edge vector, exactly.
fn norm_sq_exec(d: Vec3) -> (r: u128)
    requires
        edge_bounded(d),
    ensures
        r == spec_norm_sq(d.x as int, d.y as int, d.z as int),
        r <= 3000000000000000000000000,
{
    proof {
        assert forall|p: int| -1000000000000 <= p <= 1000000000000
            implies 0 <= #[trigger] (p * p) <= 1000000000000000000000000 by {
            assert(0 <= p * p <= 1000000000000000000000000) by (nonlinear_arith)
                requires -1000000000000 <= p <= 1000000000000;
        }
    }
    let xx: i128 = (d.x as i128) * (d.x as i128);
    let yy: i128 = (d.y as i128) * (d.y as i128);
    let zz: i128 = (d.z as i128) * (d.z as i128);
    (xx + yy + zz) as u128
}

/// Every cell has at least one full triangle around it, so the face-normal
/// sum is never the zero vector, and it stays within four unit lengths.
proof fn lemma_some_face(eco: Ecosystem, index: CellIndex)
    requires
        eco.wf(),
        in_bounds(index),
    ensures
        ({
            let s = eco.spec_normal_sum(index);
            &&& !(s.x == 0 && s.y == 0 && s.z == 0)
            &&& vec_bounded(s, 4000000000)
            &&& s.z >= 0
        }),
{
    lemma_face_normals_bounded(eco, index);
}

/// Each face normal is a unit vector with nonnegative z, and at least one
/// face around any in-bounds cell exists with positive z.
proof fn lemma_face_normals_bounded(eco: Ecosystem, index: CellIndex)
    requires
        eco.wf(),
        in_bounds(index),
    ensures
        ({
            let s = eco.spec_normal_sum(index);
            vec_bounded(s, 4000000000) && s.z >= 1 && !(s.x == 0 && s.y == 0 && s.z == 0)
        }),
{
    lemma_face_pairs(index);
    let n = spec_neighbors(index);
    if n.north is Some && n.west is Some {
        lemma_triangle_normal_unit(eco, index, n.north->0, n.west->0);
    }
    if n.west is Some && n.south is Some {
        lemma_triangle_normal_unit(eco, index, n.west->0, n.south->0);
    }
    if n.east is Some && n.north is Some {
        lemma_triangle_normal_unit(eco, index, n.east->0, n.north->0);
    }
    if n.south is Some && n.east is Some {
        lemma_triangle_normal_unit(eco, index, n.south->0, n.east->0);
    }
}

/// A triangle normal over two distinct straight neighbors is a unit-bounded
/// vector whose z-component is at least one.
proof fn lemma_triangle_normal_unit(eco: Ecosystem, i1: CellIndex, i2: CellIndex, i3: CellIndex)
    requires
        eco.wf(),
        in_bounds(i1),
        in_bounds(i2),
        in_bounds(i3),
        dist2_cells(i1, i2) == 1,
        dist2_cells(i1, i3) == 1,
        (i2.x - i1.x) * (i3.y - i1.y) != (i2.y - i1.y) * (i3.x - i1.x),
    ensures
        ({
            let t = eco.spec_triangle_normal(i1, i2, i3);
            vec_bounded(t, 1000000000) && t.z >= 1
        }),
{
    let ba = eco.spec_edge(i1, i2);
    let ca = eco.spec_edge(i1, i3);
    assert((i2.x - i1.x) * (i2.x - i1.x) == (i1.x - i2.x) * (i1.x - i2.x)
        && (i2.y - i1.y) * (i2.y - i1.y) == (i1.y - i2.y) * (i1.y - i2.y)
        && (i3.x - i1.x) * (i3.x - i1.x) == (i1.x - i3.x) * (i1.x - i3.x)
        && (i3.y - i1.y) * (i3.y - i1.y) == (i1.y - i3.y) * (i1.y - i3.y)) by (nonlinear_arith);
    lemma_edge_small(eco, i1, i2);
    lemma_edge_small(eco, i1, i3);
    lemma_cross_bounds(ba, ca);
    let cx = spec_cross_x(ba, ca);
    let cy = spec_cross_y(ba, ca);
    let cz = spec_cross_z(ba, ca);
    assert(cz == 1000000000000 || cz == -1000000000000) by (nonlinear_arith)
        requires
            cz == ba.x * ca.y - ba.y * ca.x,
            ba.x == (i2.x - i1.x) * 1000000,
            ba.y == (i2.y - i1.y) * 1000000,
            ca.x == (i3.x - i1.x) * 1000000,
            ca.y == (i3.y - i1.y) * 1000000,
            -1 <= i2.x - i1.x <= 1,
            -1 <= i2.y - i1.y <= 1,
            -1 <= i3.x - i1.x <= 1,
            -1 <= i3.y - i1.y <= 1,
            (i2.x - i1.x) * (i2.x - i1.x) + (i2.y - i1.y) * (i2.y - i1.y) == 1,
            (i3.x - i1.x) * (i3.x - i1.x) + (i3.y - i1.y) * (i3.y - i1.y) == 1,
            (i2.x - i1.x) * (i3.y - i1.y) != (i2.y - i1.y) * (i3.x - i1.x),
    ;
    let nsq = spec_norm_sq(cx, cy, cz);
    assert(cz * cz == 1000000000000000000000000 && cx * cx >= 0 && cy * cy >= 0)
        by (nonlinear_arith)
        requires cz == 1000000000000 || cz == -1000000000000;
    lemma_sqrt_floor_bounds(nsq);
    let root = sqrt_floor(nsq);
    lemma_sqrt_floor_ge(nsq, 1);
    let az = if cz >= 0 { cz } else { -cz };
    lemma_sqrt_floor_ge(nsq, az);
    // magnitude of each component at most the root: unit-bounded after division
    let axx = if cx >= 0 { cx } else { -cx };
    let ayy = if cy >= 0 { cy } else { -cy };
    assert(axx * axx <= nsq && ayy * ayy <= nsq) by (nonlinear_arith)
        requires
            nsq == cx * cx + cy * cy + cz * cz,
            axx == cx || axx == -cx,
            ayy == cy || ayy == -cy,
            cz * cz >= 0,
    ;
    lemma_sqrt_floor_ge(nsq, axx);
    lemma_sqrt_floor_ge(nsq, ayy);
    lemma_norm_div_unit(cx, root);
    lemma_norm_div_unit(cy, root);
    lemma_norm_div_unit(cz, root);
    // the root stays below 4 * 10^18, so the z-component divides to at
    // least one
    assert(nsq <= 12000000000000000000000000000000000000) by (nonlinear_arith)
        requires
            nsq == cx * cx + cy * cy + cz * cz,
            -0x2000000000000000 <= cx <= 0x2000000000000000,
            -0x2000000000000000 <= cy <= 0x2000000000000000,
            cz == 1000000000000 || cz == -1000000000000,
    ;
    assert(4000000000000000000 * 4000000000000000000 >= nsq);
    lemma_sqrt_floor_le(nsq, 4000000000000000000);
    assert(az * 1000000000 == 1000000000000000000000int) by (nonlinear_arith)
        requires az == 1000000000000;
    vstd::arithmetic::div_mod::lemma_div_is_ordered_by_denominator(
        az * 1000000000, root, 4000000000000000000);
    assert(az * 1000000000 / 4000000000000000000 >= 1);
    vstd::arithmetic::div_mod::lemma_div_pos_is_pos(az * 1000000000, root);
}

/// A component no larger in magnitude than the root normalizes to within one
/// unit.
proof fn lemma_norm_div_unit(c: int, root: int)
    requires
        root >= 1,
        root >= (if c >= 0 { c } else { -c }),
    ensures
        -1000000000 <= spec_norm_div(c, root) <= 1000000000,
{
    let a = if c >= 0 { c } else { -c };
    assert(0 <= a * 1000000000 <= root * 1000000000) by (nonlinear_arith)
        requires 0 <= a <= root;
    vstd::arithmetic::div_mod::lemma_div_is_ordered(a * 1000000000, root * 1000000000, root);
    assert(root * 1000000000 / root == 1000000000) by (nonlinear_arith) requires root >= 1;
    vstd::arithmetic::div_mod::lemma_div_pos_is_pos(a * 1000000000, root);
}

} // verus!
