//! Flat three-component positions in micro-units. The animators treat every
//! joint transform as one of these plus an orientation target; composition
//! and hierarchy belong to the host.

use vstd::prelude::*;
use crate::fx::{div_floor, isqrt, lemma_square_range, sqrt_floor};

verus! {

/// Bound on coordinates handled by the animators, in micro-units.
pub const GEOM_LIM: i64 = 500_000_000;

/// A position or offset: x forward, y lateral, z up.
#[derive(Clone, Copy, PartialEq, Eq, Structural, Debug)]
pub struct Vec3Fx {
    pub x: i64,
    pub y: i64,
    pub z: i64,
}

/// The components as unbounded integers.
pub open spec fn view3(v: Vec3Fx) -> (int, int, int) {
    (v.x as int, v.y as int, v.z as int)
}

/// All components within `lim` in magnitude.
pub open spec fn in_geom(v: Vec3Fx, lim: int) -> bool {
    &&& -lim <= v.x <= lim
    &&& -lim <= v.y <= lim
    &&& -lim <= v.z <= lim
}

/// The component-wise midpoint, each component rounded down.
pub open spec fn midpoint_v(a: Vec3Fx, b: Vec3Fx) -> (int, int, int) {
    ((a.x + b.x) / 2, (a.y + b.y) / 2, (a.z + b.z) / 2)
}

/// The distance between two points, rounded down.
pub open spec fn dist_v(a: Vec3Fx, b: Vec3Fx) -> int {
    sqrt_floor(
        (a.x - b.x) * (a.x - b.x) + (a.y - b.y) * (a.y - b.y) + (a.z - b.z) * (a.z - b.z),
    )
}

/// The midpoint of two points.
pub fn midpoint(a: Vec3Fx, b: Vec3Fx) -> (m: Vec3Fx)
    requires
        in_geom(a, 2 * GEOM_LIM as int),
        in_geom(b, 2 * GEOM_LIM as int),
    ensures
        view3(m) == midpoint_v(a, b),
        in_geom(m, 2 * GEOM_LIM as int),
{
    Vec3Fx {
        x: div_floor(a.x + b.x, 2),
        y: div_floor(a.y + b.y, 2),
        z: div_floor(a.z + b.z, 2),
    }
}

/// The distance between two points.
pub fn dist(a: Vec3Fx, b: Vec3Fx) -> (d: i64)
    requires
        in_geom(a, GEOM_LIM as int),
        in_geom(b, GEOM_LIM as int),
    ensures
        d == dist_v(a, b),
        0 <= d <= 1_800_000_000,
{
    let dx = a.x - b.x;
    let dy = a.y - b.y;
    let dz = a.z - b.z;
    proof {
        lemma_square_range(dx as int, 1_000_000_000);
        lemma_square_range(dy as int, 1_000_000_000);
        lemma_square_range(dz as int, 1_000_000_000);
    }
    let d = isqrt(dx * dx + dy * dy + dz * dz);
    proof {
        assert(d <= 1_800_000_000) by (nonlinear_arith)
            requires
                0 <= d,
                d as int * d as int <= 3_000_000_000_000_000_000,
        ;
    }
    d
}

} // verus!
