//! Points and axis-aligned rectangles on the tile grid.

use vstd::prelude::*;

verus! {

/// A tile coordinate.
#[derive(Clone, Copy, PartialEq, Eq, Debug, Structural)]
pub struct Point {
    pub x: i32,
    pub y: i32,
}

impl Point {
    /// The point `(x, y)`.
    pub fn new(x: i32, y: i32) -> (p: Point)
        ensures
            p == (Point { x, y }),
    {
        Point { x, y }
    }

    /// Squared Euclidean distance between two points.
    pub open spec fn dist2(self, other: Point) -> int {
        (self.x - other.x) * (self.x - other.x) + (self.y - other.y) * (self.y - other.y)
    }

    /// Computes the squared Euclidean distance to `other`.
    pub fn distance_squared(&self, other: &Point) -> (d: i128)
        ensures
            d == self.dist2(*other),
    {
        let dx: i128 = self.x as i128 - other.x as i128;
        let dy: i128 = self.y as i128 - other.y as i128;
        assert(-4294967296 <= dx <= 4294967296 && -4294967296 <= dy <= 4294967296);
        assert(0 <= dx * dx <= 18446744073709551616) by (nonlinear_arith)
            requires
                -4294967296 <= dx <= 4294967296,
        ;
        assert(0 <= dy * dy <= 18446744073709551616) by (nonlinear_arith)
            requires
                -4294967296 <= dy <= 4294967296,
        ;
        dx * dx + dy * dy
    }
}

/// Whether `p` is one of `tiles`.
pub fn contains_point(tiles: &Vec<Point>, p: Point) -> (b: bool)
    ensures
        b == tiles@.contains(p),
{
    let mut k: usize = 0;
    while k < tiles.len()
        invariant
            k <= tiles@.len(),
            forall|j: int| 0 <= j < k ==> tiles@[j] != p,
        decreases tiles@.len() - k,
    {
        if tiles[k] == p {
            assert(tiles@[k as int] == p);
            return true;
        }
        k = k + 1;
    }
    false
}

/// Half of `s`, rounded towards zero.
pub open spec fn half(s: int) -> int {
    if s >= 0 {
        s / 2
    } else {
        -((-s) / 2)
    }
}

/// A rectangle given by two opposite corners, `(x1, y1)` the smaller one.
#[derive(Clone, Copy, PartialEq, Eq, Debug, Structural)]
pub struct Rect {
    pub x1: i32,
    pub x2: i32,
    pub y1: i32,
    pub y2: i32,
}

impl Rect {
    /// The rectangle with corner `(x, y)`, `w` tiles wide and `h` tiles high.
    pub fn new(x: i32, y: i32, w: i32, h: i32) -> (r: Rect)
        requires
            i32::MIN <= x + w <= i32::MAX,
            i32::MIN <= y + h <= i32::MAX,
        ensures
            r == (Rect { x1: x, y1: y, x2: (x + w) as i32, y2: (y + h) as i32 }),
    {
        Rect { x1: x, y1: y, x2: x + w, y2: y + h }
    }

    /// Two rectangles intersect when they share a point, borders included.
    pub open spec fn overlaps(self, other: Rect) -> bool {
        self.x1 <= other.x2 && self.x2 >= other.x1 && self.y1 <= other.y2 && self.y2 >= other.y1
    }

    /// Returns true if this rectangle overlaps with `other`.
    pub fn intersect(&self, other: &Rect) -> (b: bool)
        ensures
            b == self.overlaps(*other),
    {
        self.x1 <= other.x2 && self.x2 >= other.x1 && self.y1 <= other.y2 && self.y2 >= other.y1
    }

    /// The middle of the rectangle, each coordinate rounded towards zero.
    pub open spec fn mid(self) -> (int, int) {
        (half(self.x1 + self.x2), half(self.y1 + self.y2))
    }

    /// The center tile of the rectangle.
    pub fn center(&self) -> (c: (i32, i32))
        ensures
            c.0 == self.mid().0,
            c.1 == self.mid().1,
    {
        (halve(self.x1 as i64 + self.x2 as i64), halve(self.y1 as i64 + self.y2 as i64))
    }
}

/// Halves the sum of two `i32` values, rounding towards zero.
pub(crate) fn halve(s: i64) -> (r: i32)
    requires
        2 * i32::MIN <= s <= 2 * i32::MAX,
    ensures
        r == half(s as int),
{
    if s >= 0 {
        let q: u64 = (s as u64) / 2;
        q as i32
    } else {
        let q: u64 = ((-s) as u64) / 2;
        -(q as i64) as i32
    }
}

} // verus!
