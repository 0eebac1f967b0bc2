//! Axial hex-grid coordinates and the hex distance metric.

use vstd::prelude::*;

verus! {

/// Coordinates are kept well inside `i32` so that distance arithmetic
/// (which adds two coordinates) cannot overflow.
pub const MAX_COORD: i32 = 1_000_000;

/// An axial hex coordinate. The implicit third cube coordinate is
/// `-(x + y)`.
#[derive(Clone, Copy, PartialEq, Eq, Structural, Debug, Hash)]
pub struct Hex {
    pub x: i32,
    pub y: i32,
}

/// The coordinate is within the supported play area.
pub open spec fn hex_ok(h: Hex) -> bool {
    &&& -MAX_COORD <= h.x <= MAX_COORD
    &&& -MAX_COORD <= h.y <= MAX_COORD
}

/// A looser bound met by every hex a bounded-range enumeration can
/// produce around a well-placed center; distances between such
/// coordinates still fit a `u32`.
pub open spec fn hex_calc_ok(h: Hex) -> bool {
    &&& -8_000_000 <= h.x <= 8_000_000
    &&& -8_000_000 <= h.y <= 8_000_000
}

pub open spec fn abs3(v: int) -> int {
    if v < 0 {
        -v
    } else {
        v
    }
}

pub open spec fn max3(a: int, b: int, c: int) -> int {
    if a >= b && a >= c {
        a
    } else if b >= a && b >= c {
        b
    } else {
        c
    }
}

/// Hex grid distance between two axial coordinates: the largest
/// absolute difference over the three cube axes.
pub open spec fn hex_dist(a: Hex, b: Hex) -> int {
    max3(
        abs3(a.x - b.x),
        abs3(a.y - b.y),
        abs3((a.x + a.y) - (b.x + b.y)),
    )
}

pub fn hex_distance(a: Hex, b: Hex) -> (d: u32)
    requires
        hex_calc_ok(a),
        hex_calc_ok(b),
    ensures
        d == hex_dist(a, b),
{
    let dx: i64 = a.x as i64 - b.x as i64;
    let dy: i64 = a.y as i64 - b.y as i64;
    let dz: i64 = dx + dy;
    let ax: i64 = if dx < 0 { -dx } else { dx };
    let ay: i64 = if dy < 0 { -dy } else { dy };
    let az: i64 = if dz < 0 { -dz } else { dz };
    let m: i64 = if ax >= ay && ax >= az {
        ax
    } else if ay >= ax && ay >= az {
        ay
    } else {
        az
    };
    m as u32
}

} // verus!
