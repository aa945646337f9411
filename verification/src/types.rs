//! Integer 2-D coordinates with vector arithmetic and Manhattan distance.

use vstd::prelude::*;

verus! {

/// A 2-D integer coordinate. Copied freely; value semantics.
#[derive(Clone, Copy, PartialEq, Eq, Structural, Debug)]
pub struct Position {
    /// The x coordinate (row).
    pub x: i32,
    /// The y coordinate (column).
    pub y: i32,
}

/// The absolute value of a mathematical integer.
pub open spec fn abs(v: int) -> int {
    if v >= 0 {
        v
    } else {
        -v
    }
}

/// The Manhattan distance between two positions.
pub open spec fn manhattan(a: Position, b: Position) -> int {
    abs(a.x - b.x) + abs(a.y - b.y)
}

impl Position {
    pub fn new(x: i32, y: i32) -> (p: Position)
        ensures
            p == (Position { x, y }),
    {
        Position { x, y }
    }

    /// Component-wise sum of two positions.
    pub fn add(self, rhs: Position) -> (p: Position)
        requires
            i32::MIN <= self.x + rhs.x <= i32::MAX,
            i32::MIN <= self.y + rhs.y <= i32::MAX,
        ensures
            p.x == self.x + rhs.x,
            p.y == self.y + rhs.y,
    {
        Position { x: self.x + rhs.x, y: self.y + rhs.y }
    }

    /// Component-wise difference of two positions.
    pub fn sub(self, rhs: Position) -> (p: Position)
        requires
            i32::MIN <= self.x - rhs.x <= i32::MAX,
            i32::MIN <= self.y - rhs.y <= i32::MAX,
        ensures
            p.x == self.x - rhs.x,
            p.y == self.y - rhs.y,
    {
        Position { x: self.x - rhs.x, y: self.y - rhs.y }
    }

    /// The Manhattan distance between `self` and `other`.
    pub fn manhattan_dist(&self, other: &Position) -> (d: i32)
        requires
            i32::MIN < self.x - other.x <= i32::MAX,
            i32::MIN < self.y - other.y <= i32::MAX,
            abs(self.x - other.x) + abs(self.y - other.y) <= i32::MAX,
        ensures
            d == manhattan(*self, *other),
    {
        let dx = self.x - other.x;
        let dy = self.y - other.y;
        let ax = if dx >= 0 { dx } else { -dx };
        let ay = if dy >= 0 { dy } else { -dy };
        ax + ay
    }
}

} // verus!
