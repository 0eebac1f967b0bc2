//! Filled-hexagon enumeration: every hex within a given radius of a
//! center, produced in a stable row order. The enumeration itself is
//! done by the hex-grid crate; its output is pinned down exactly by
//! the spec functions here.

use vstd::prelude::*;
use crate::hex::{Hex, hex_ok, hex_calc_ok, hex_dist, abs3};

verus! {

/// Range queries are bounded so that enumerated coordinates stay well
/// inside `i32` and the enumeration's own size arithmetic (three
/// times radius times radius-plus-one, in `u32`) cannot overflow.
pub const MAX_RANGE: u32 = 30_000;

/// Smallest y offset of the row at column offset `dx`.
pub open spec fn row_y_min(r: int, dx: int) -> int {
    if -r >= -dx - r {
        -r
    } else {
        -dx - r
    }
}

/// Largest y offset of the row at column offset `dx`.
pub open spec fn row_y_max(r: int, dx: int) -> int {
    if r <= r - dx {
        r
    } else {
        r - dx
    }
}

/// The row of hexes at column offset `dx` from `c`, smallest y first.
pub open spec fn hexagon_row(c: Hex, r: int, dx: int) -> Seq<Hex> {
    Seq::new(
        (row_y_max(r, dx) - row_y_min(r, dx) + 1) as nat,
        |i: int| (Hex { x: (c.x + dx) as i32, y: (c.y + row_y_min(r, dx) + i) as i32 }),
    )
}

/// The rows for column offsets `-r ..= dx`, concatenated in order.
pub open spec fn hexagon_rows(c: Hex, r: int, dx: int) -> Seq<Hex>
    decreases dx + r + 1,
{
    if dx < -r {
        Seq::empty()
    } else {
        hexagon_rows(c, r, dx - 1) + hexagon_row(c, r, dx)
    }
}

/// The filled hexagon of radius `r` around `c`: all hexes within
/// distance `r`, row by row in increasing column offset, each row in
/// increasing y.
pub open spec fn hexagon_seq(c: Hex, r: int) -> Seq<Hex> {
    hexagon_rows(c, r, r)
}

/// Relies on hexx::shapes::hexagon (backed by hexx::Hex::range): it
/// yields exactly the hexes of the filled hexagon of the given radius
/// around the center, iterating column offsets from `-radius` to
/// `radius` and, within a column, y offsets in increasing order.
#[verifier::external_body]
pub fn hexagon_hexes(center: Hex, radius: u32) -> (r: Vec<Hex>)
    requires
        hex_ok(center),
        radius <= MAX_RANGE,
    ensures
        r@ == hexagon_seq(center, radius as int),
{
    hexx::shapes::hexagon(hexx::Hex::new(center.x, center.y), radius)
        .map(|h| Hex { x: h.x, y: h.y })
        .collect()
}

/// Every enumerated hex lies within `radius` of the center and within
/// the calculation bounds.
pub proof fn lemma_hexagon_rows_elems(c: Hex, r: int, dx: int)
    requires
        hex_ok(c),
        0 <= r <= MAX_RANGE,
        -r - 1 <= dx <= r,
    ensures
        forall|k: int| 0 <= k < hexagon_rows(c, r, dx).len() ==> {
            let h = #[trigger] hexagon_rows(c, r, dx)[k];
            hex_calc_ok(h) && hex_dist(c, h) <= r
        },
    decreases dx + r + 1,
{
    if dx >= -r {
        lemma_hexagon_rows_elems(c, r, dx - 1);
        let row = hexagon_row(c, r, dx);
        assert forall|i: int| 0 <= i < row.len() implies hex_calc_ok(row[i])
            && hex_dist(c, row[i]) <= r by {
            let dy = row_y_min(r, dx) + i;
            assert(row[i].x == c.x + dx && row[i].y == c.y + dy);
            assert(-r <= dy <= r);
            assert(-r <= dx + dy <= r);
        }
        assert(forall|k: int| 0 <= k < hexagon_rows(c, r, dx).len() ==> {
            let h = #[trigger] hexagon_rows(c, r, dx)[k];
            h == if k < hexagon_rows(c, r, dx - 1).len() {
                hexagon_rows(c, r, dx - 1)[k]
            } else {
                row[k - hexagon_rows(c, r, dx - 1).len()]
            }
        });
    }
}

/// The enumeration is complete: a hex is in the filled hexagon if and
/// only if its distance from the center is at most the radius.
pub proof fn lemma_hexagon_seq_complete(c: Hex, r: int, h: Hex)
    requires
        hex_ok(c),
        0 <= r <= MAX_RANGE,
    ensures
        hexagon_seq(c, r).contains(h) <==> hex_dist(c, h) <= r,
{
    if hexagon_seq(c, r).contains(h) {
        lemma_hexagon_rows_elems(c, r, r);
        let k = choose|k: int| 0 <= k < hexagon_seq(c, r).len() && hexagon_seq(c, r)[k] == h;
        assert(hex_dist(c, h) <= r);
    }
    if hex_dist(c, h) <= r {
        let dx = h.x - c.x;
        let dy = h.y - c.y;
        assert(abs3(dx) <= r && abs3(dy) <= r && abs3(dx + dy) <= r);
        assert(row_y_min(r, dx) <= dy <= row_y_max(r, dx));
        lemma_hexagon_rows_contains(c, r, r, dx, dy);
        assert(hexagon_seq(c, r)[choose|k: int|
            0 <= k < hexagon_seq(c, r).len() && hexagon_seq(c, r)[k] == h] == h);
    }
}

/// A hex whose column offset has been reached and whose y offset lies
/// in its row is one of the enumerated hexes.
proof fn lemma_hexagon_rows_contains(c: Hex, r: int, dx_hi: int, dx: int, dy: int)
    requires
        hex_ok(c),
        0 <= r <= MAX_RANGE,
        -r <= dx <= dx_hi <= r,
        row_y_min(r, dx) <= dy <= row_y_max(r, dx),
    ensures
        hexagon_rows(c, r, dx_hi).contains(
            Hex { x: (c.x + dx) as i32, y: (c.y + dy) as i32 },
        ),
    decreases dx_hi + r + 1,
{
    let h = Hex { x: (c.x + dx) as i32, y: (c.y + dy) as i32 };
    if dx == dx_hi {
        let row = hexagon_row(c, r, dx);
        let i = dy - row_y_min(r, dx);
        assert(row[i] == h);
        let prefix = hexagon_rows(c, r, dx - 1);
        assert(hexagon_rows(c, r, dx_hi)[prefix.len() + i] == h);
    } else {
        lemma_hexagon_rows_contains(c, r, dx_hi - 1, dx, dy);
        let s = hexagon_rows(c, r, dx_hi - 1);
        let k = choose|k: int| 0 <= k < s.len() && s[k] == h;
        assert(hexagon_rows(c, r, dx_hi)[k] == h);
    }
}

} // verus!
