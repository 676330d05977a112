use vstd::prelude::*;

verus! {

/// Identity of a live entity of the simulation: an enemy, a projectile, a
/// wall or the player.
pub type EntityId = u64;

/// A point or a direction in the plane, in thousandths of a world unit.
#[derive(Clone, Copy, Debug, PartialEq, Eq, Structural)]
pub struct Point {
    pub x: i32,
    pub y: i32,
}

/// Squared distance between two points, in squared thousandths of a unit.
pub open spec fn distance_squared_spec(a: Point, b: Point) -> int {
    (a.x - b.x) * (a.x - b.x) + (a.y - b.y) * (a.y - b.y)
}

/// The quotient of `a` by `b`, rounded toward zero.
pub open spec fn div_toward_zero(a: int, b: nat) -> int {
    if a >= 0 {
        a / (b as int)
    } else {
        -((-a) / (b as int))
    }
}

impl Point {
    /// The point `(x, y)`.
    pub fn new(x: i32, y: i32) -> (r: Point)
        ensures
            r.x == x,
            r.y == y,
    {
        Point { x, y }
    }

    /// The component-wise sum, saturating at the bounds of `i32`.
    pub open spec fn plus_spec(self, o: Point) -> Point {
        Point { x: clamp_i32(self.x + o.x), y: clamp_i32(self.y + o.y) }
    }

    /// The component-wise sum, saturating at the bounds of `i32`.
    pub fn plus(self, o: Point) -> (r: Point)
        ensures
            r == self.plus_spec(o),
    {
        Point { x: clamp_to_i32(self.x as i64 + o.x as i64), y: clamp_to_i32(self.y as i64 + o.y as i64) }
    }

    /// Squared distance to `o`.
    pub fn distance_squared(self, o: Point) -> (r: i128)
        ensures
            r == distance_squared_spec(self, o),
    {
        let dx: i128 = self.x as i128 - o.x as i128;
        let dy: i128 = self.y as i128 - o.y as i128;
        assert(dx * dx <= 0x1_0000_0000i128 * 0x1_0000_0000i128) by (nonlinear_arith)
            requires
                -0x1_0000_0000i128 <= dx <= 0x1_0000_0000i128,
        ;
        assert(dy * dy <= 0x1_0000_0000i128 * 0x1_0000_0000i128) by (nonlinear_arith)
            requires
                -0x1_0000_0000i128 <= dy <= 0x1_0000_0000i128,
        ;
        assert(0 <= dx * dx && 0 <= dy * dy) by (nonlinear_arith);
        dx * dx + dy * dy
    }
}

/// `v` clamped to the range of `i32`.
pub open spec fn clamp_i32(v: int) -> i32 {
    if v > i32::MAX {
        i32::MAX
    } else if v < i32::MIN {
        i32::MIN
    } else {
        v as i32
    }
}

/// `v` clamped to the range of `i32`.
pub fn clamp_to_i32(v: i64) -> (r: i32)
    ensures
        r == clamp_i32(v as int),
{
    if v > i32::MAX as i64 {
        i32::MAX
    } else if v < i32::MIN as i64 {
        i32::MIN
    } else {
        v as i32
    }
}

} // verus!
