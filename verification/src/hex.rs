//! Hexes in axial coordinates and where they lie on the screen.

use vstd::prelude::*;

use crate::surd::Surd;

verus! {

/// Circumradius of a hex in pixels.
pub const HEX_SIZE: i64 = 12;

/// A hex of a flat-top grid, in axial coordinates.
#[derive(Clone, Copy, Debug, PartialEq, Eq, Hash, Structural)]
pub struct Hex {
    pub q: i32,
    pub r: i32,
}

/// A point of the world, in half pixels; `y` grows upwards.
#[derive(Clone, Copy, Debug, PartialEq, Eq, Structural)]
pub struct Point {
    pub x: i64,
    pub y: Surd,
}

/// A place in the world; `z` is in half thousandths of a layer, and what has the
/// larger `z` is drawn over the other.
#[derive(Clone, Copy, Debug, PartialEq, Eq, Structural)]
pub struct Placement {
    pub at: Point,
    pub z: Surd,
}

/// The size of an integer.
pub open spec fn magnitude(n: int) -> int {
    if n < 0 {
        -n
    } else {
        n
    }
}

/// The number of steps between two hexes that differ by `dq` columns and `dr` rows.
pub open spec fn steps(dq: int, dr: int) -> int {
    let column = magnitude(dq);
    let row = magnitude(dr);
    let diagonal = magnitude(dq + dr);
    if column >= row && column >= diagonal {
        column
    } else if row >= diagonal {
        row
    } else {
        diagonal
    }
}

/// How far down the screen a hex lies, in half rows: one column to the right is
/// half a row further down.
pub open spec fn half_rows(hex: Hex) -> int {
    2 * hex.r + hex.q
}

/// The world position of the centre of a hex that lies flat on the ground.
///
/// With a circumradius of 12 pixels that is, in pixels, `x = 3/2 * 12 * q` and
/// `y = -√3 * 12 * (r + q / 2)`.
pub open spec fn world_point(hex: Hex) -> Point {
    Point {
        x: (36 * hex.q) as i64,
        y: Surd { whole: 0, root: (-(12 * half_rows(hex))) as i64 },
    }
}

fn absolute(n: i64) -> (size: i64)
    requires
        n > i64::MIN,
    ensures
        size == magnitude(n as int),
{
    if n < 0 {
        -n
    } else {
        n
    }
}

impl Hex {
    pub fn new(q: i32, r: i32) -> (hex: Hex)
        ensures
            hex == (Hex { q, r }),
    {
        Hex { q, r }
    }

    /// The number of steps from one hex to another.
    pub fn distance(self, other: Hex) -> (count: i64)
        ensures
            count == steps(self.q - other.q, self.r - other.r),
    {
        let dq: i64 = self.q as i64 - other.q as i64;
        let dr: i64 = self.r as i64 - other.r as i64;
        let column: i64 = absolute(dq);
        let row: i64 = absolute(dr);
        let diagonal: i64 = absolute(dq + dr);
        if column >= row && column >= diagonal {
            column
        } else if row >= diagonal {
            row
        } else {
            diagonal
        }
    }
}

/// Flat-top axial coordinates to world coordinates.
pub fn hex_to_world(hex: Hex) -> (point: Point)
    ensures
        point == world_point(hex),
{
    let rows: i64 = 2 * hex.r as i64 + hex.q as i64;
    Point { x: 36 * hex.q as i64, y: Surd { whole: 0, root: -(12 * rows) } }
}

/// A hex is within one step of another exactly if it is that hex or one of its six
/// neighbours.
pub proof fn law_neighbours(a: Hex, b: Hex)
    ensures
        steps(a.q - b.q, a.r - b.r) <= 1 <==> {
            let dq = a.q - b.q;
            let dr = a.r - b.r;
            ||| dq == 0 && dr == 0
            ||| dq == 1 && dr == 0
            ||| dq == 1 && dr == -1
            ||| dq == 0 && dr == -1
            ||| dq == -1 && dr == 0
            ||| dq == -1 && dr == 1
            ||| dq == 0 && dr == 1
        },
{
}

/// Distance is symmetric, zero exactly between a hex and itself, and no detour is
/// shorter than the direct way.
pub proof fn law_distance_is_metric(a: Hex, b: Hex, c: Hex)
    ensures
        steps(a.q - b.q, a.r - b.r) == steps(b.q - a.q, b.r - a.r),
        steps(a.q - b.q, a.r - b.r) == 0 <==> a == b,
        steps(a.q - c.q, a.r - c.r) <= steps(a.q - b.q, a.r - b.r) + steps(
            b.q - c.q,
            b.r - c.r,
        ),
{
}

/// Whether two hexes that differ by `dq` columns and `dr` rows share an edge.
pub open spec fn are_adjacent(dq: int, dr: int) -> bool {
    ||| dq == 1 && dr == 0
    ||| dq == 1 && dr == -1
    ||| dq == 0 && dr == -1
    ||| dq == -1 && dr == 0
    ||| dq == -1 && dr == 1
    ||| dq == 0 && dr == 1
}

/// Distance is the number of steps from neighbour to neighbour: the way to another hex
/// can be begun by a step that leaves one fewer to go, and no step saves more than one.
pub proof fn law_distance_counts_steps(dq: int, dr: int)
    requires
        dq != 0 || dr != 0,
    ensures
        steps(0, 0) == 0,
        exists|eq: int, er: int|
            #[trigger] are_adjacent(eq, er) && steps(dq - eq, dr - er) == steps(dq, dr) - 1,
        forall|eq: int, er: int| #[trigger]
            are_adjacent(eq, er) ==> steps(dq - eq, dr - er) >= steps(dq, dr) - 1,
{
    let (eq, er): (int, int) = if dq > 0 && dr < 0 {
        (1, -1)
    } else if dq < 0 && dr > 0 {
        (-1, 1)
    } else if dq > 0 {
        (1, 0)
    } else if dq < 0 {
        (-1, 0)
    } else if dr > 0 {
        (0, 1)
    } else {
        (0, -1)
    };
    assert(are_adjacent(eq, er) && steps(dq - eq, dr - er) == steps(dq, dr) - 1);
}

/// The hexes lie in a lattice: the central one at the origin, each column 18 pixels
/// (36 half pixels) further right and half a row down, each row one hex height, `12√3`
/// pixels (24 halves of `√3`), down.
pub proof fn law_world_is_a_lattice(a: Hex, b: Hex)
    ensures
        world_point(Hex { q: 0, r: 0 }) == (Point { x: 0, y: Surd { whole: 0, root: 0 } }),
        world_point(a).x - world_point(b).x == 36 * (a.q - b.q),
        world_point(a).y.whole == 0,
        world_point(a).y.root - world_point(b).y.root == -(24 * (a.r - b.r)) - 12 * (a.q
            - b.q),
{
}

/// Neighbours are equally far apart in the world, whichever edge they share: the squared
/// distance of their centres is that of `12√3` pixels, `3 * 24 * 24` in half pixels.
pub proof fn law_neighbours_equally_far(a: Hex, b: Hex)
    requires
        steps(a.q - b.q, a.r - b.r) == 1,
    ensures
        ({
            let dx = world_point(a).x - world_point(b).x;
            let dy = world_point(a).y.root - world_point(b).y.root;
            dx * dx + 3 * (dy * dy) == 3 * 576
        }),
{
    law_neighbours(a, b);
    law_world_is_a_lattice(a, b);
    let dx = world_point(a).x - world_point(b).x;
    let dy = world_point(a).y.root - world_point(b).y.root;
    assert({
        ||| dx == 36 && dy == -12
        ||| dx == 36 && dy == 12
        ||| dx == 0 && dy == 24
        ||| dx == -36 && dy == 12
        ||| dx == -36 && dy == -12
        ||| dx == 0 && dy == -24
    });
    assert(dx * dx + 3 * (dy * dy) == 1728) by (nonlinear_arith)
        requires
            (dx == 36 || dx == -36) && (dy == 12 || dy == -12) || dx == 0 && (dy == 24 || dy == -24),
    ;
}

} // verus!
