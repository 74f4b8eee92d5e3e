use vstd::prelude::*;

verus! {

/// A point or displacement on the pitch, in whole centimetres.
#[derive(Clone, Copy, Debug, PartialEq, Eq, Structural)]
pub struct Position {
    pub x: i16,
    pub y: i16,
    pub z: i16,
}

/// Dot product of the displacements `a - o` and `b - o`.
pub open spec fn dot_from(o: Position, a: Position, b: Position) -> int {
    (a.x - o.x) * (b.x - o.x) + (a.y - o.y) * (b.y - o.y) + (a.z - o.z) * (b.z - o.z)
}

/// Squared Euclidean distance between two points.
pub open spec fn dist2(a: Position, b: Position) -> int {
    dot_from(a, b, b)
}

/// The unit directions from `o` towards `a` and towards `b` make an angle whose
/// cosine exceeds four fifths. A zero displacement has no direction (it normalises
/// to the zero vector), so it is never aligned with anything.
pub open spec fn aligned_from(o: Position, a: Position, b: Position) -> bool {
    let d = dot_from(o, a, b);
    d > 0 && 25 * (d * d) > 16 * (dist2(o, a) * dist2(o, b))
}

/// The square of a coordinate difference.
fn square(d: i64) -> (r: i64)
    requires
        -65536 <= d <= 65536,
    ensures
        r == d * d,
        0 <= r <= 0x1_0000_0000,
{
    assert(0 <= d * d <= 65536 * 65536) by (nonlinear_arith)
        requires
            -65536 <= d <= 65536,
    ;
    d * d
}

/// The product of two coordinate differences.
fn product(a: i64, b: i64) -> (r: i64)
    requires
        -65536 <= a <= 65536,
        -65536 <= b <= 65536,
    ensures
        r == a * b,
        -0x1_0000_0000 <= r <= 0x1_0000_0000,
{
    assert(-65536 * 65536 <= a * b <= 65536 * 65536) by (nonlinear_arith)
        requires
            -65536 <= a <= 65536,
            -65536 <= b <= 65536,
    ;
    a * b
}

impl Position {
    pub fn new(x: i16, y: i16, z: i16) -> (r: Position)
        ensures
            r.x == x && r.y == y && r.z == z,
    {
        Position { x, y, z }
    }

    /// The origin of the pitch's coordinate system.
    pub fn zero() -> (r: Position)
        ensures
            r.x == 0 && r.y == 0 && r.z == 0,
    {
        Position { x: 0, y: 0, z: 0 }
    }

    /// Squared distance to `other`.
    pub fn distance_squared_to(&self, other: &Position) -> (r: i64)
        ensures
            r == dist2(*self, *other),
            0 <= r <= 0x3_0000_0000,
    {
        let dx = square(other.x as i64 - self.x as i64);
        let dy = square(other.y as i64 - self.y as i64);
        let dz = square(other.z as i64 - self.z as i64);
        dx + dy + dz
    }

    /// Dot product of the displacements from `self` to `a` and from `self` to `b`.
    pub fn dot_from(&self, a: &Position, b: &Position) -> (r: i64)
        ensures
            r == dot_from(*self, *a, *b),
            -0x3_0000_0000 <= r <= 0x3_0000_0000,
    {
        let px = product(a.x as i64 - self.x as i64, b.x as i64 - self.x as i64);
        let py = product(a.y as i64 - self.y as i64, b.y as i64 - self.y as i64);
        let pz = product(a.z as i64 - self.z as i64, b.z as i64 - self.z as i64);
        px + py + pz
    }

    /// Whether the direction from `self` to `b` lies within the cone of cosine
    /// four fifths around the direction from `self` to `a`.
    pub fn is_aligned(&self, a: &Position, b: &Position) -> (r: bool)
        ensures
            r == aligned_from(*self, *a, *b),
    {
        let d = self.dot_from(a, b);
        if d <= 0 {
            return false;
        }
        let na = self.distance_squared_to(a) as i128;
        let nb = self.distance_squared_to(b) as i128;
        let d = d as i128;
        assert(0 <= d * d <= 0x3_0000_0000 * 0x3_0000_0000) by (nonlinear_arith)
            requires
                0 <= d <= 0x3_0000_0000,
        ;
        assert(0 <= na * nb <= 0x3_0000_0000 * 0x3_0000_0000) by (nonlinear_arith)
            requires
                0 <= na <= 0x3_0000_0000,
                0 <= nb <= 0x3_0000_0000,
        ;
        25 * (d * d) > 16 * (na * nb)
    }
}

} // verus!
