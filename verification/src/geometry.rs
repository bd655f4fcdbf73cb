use vstd::prelude::*;

verus! {

/// A point in screen pixels (x grows east, y grows south).
#[derive(Clone, Copy, Debug, PartialEq, Eq, Structural)]
pub struct Point {
    pub x: i32,
    pub y: i32,
}

/// Builds a point.
pub fn pt(x: i32, y: i32) -> (p: Point)
    ensures
        p.x == x,
        p.y == y,
{
    Point { x, y }
}

/// `q` reduced to a quarter turn in 0..4.
pub open spec fn quarter_mod(q: int) -> int {
    q % 4
}

/// x component of the unit vector at angle `q * PI / 2` (screen coordinates).
pub open spec fn unit_x(q: int) -> int {
    let r = quarter_mod(q);
    if r == 0 {
        1
    } else if r == 2 {
        -1
    } else {
        0
    }
}

/// y component of the unit vector at angle `q * PI / 2` (screen coordinates).
pub open spec fn unit_y(q: int) -> int {
    let r = quarter_mod(q);
    if r == 1 {
        1
    } else if r == 3 {
        -1
    } else {
        0
    }
}

/// The unit vector at angle `q * PI / 2`, for `q` within two turns of zero.
pub fn quarter_unit(q: i32) -> (u: (i32, i32))
    requires
        -4 <= q < 8,
    ensures
        u.0 == unit_x(q as int),
        u.1 == unit_y(q as int),
{
    let r: i32 = if q < 0 {
        q + 4
    } else if q >= 4 {
        q - 4
    } else {
        q
    };
    if r == 0 {
        (1, 0)
    } else if r == 1 {
        (0, 1)
    } else if r == 2 {
        (-1, 0)
    } else {
        (0, -1)
    }
}

} // verus!
