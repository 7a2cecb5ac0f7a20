//! Axis-aligned rectangles in integer pixel coordinates.
//!
//! Rectangles serve as UV windows, destination rectangles and scissor/crop
//! regions.  The type does not enforce `min <= max`; callers are expected to
//! pass well-formed rectangles, and every operation is specified for
//! arbitrary corner values.

use vstd::prelude::*;

verus! {

/// An axis-aligned box given by its two corners.
#[derive(Clone, Copy, PartialEq, Eq, Structural, Debug)]
pub struct Rect {
    pub min_x: i32,
    pub min_y: i32,
    pub max_x: i32,
    pub max_y: i32,
}

impl Rect {
    /// Width as a mathematical integer (may be negative for a malformed rectangle).
    pub open spec fn width(self) -> int {
        self.max_x - self.min_x
    }

    /// Height as a mathematical integer (may be negative for a malformed rectangle).
    pub open spec fn height(self) -> int {
        self.max_y - self.min_y
    }

    /// True when the interiors of the two rectangles overlap.
    pub open spec fn spec_intersect(self, other: Rect) -> bool {
        &&& self.min_x < other.max_x
        &&& self.max_x > other.min_x
        &&& self.max_y > other.min_y
        &&& self.min_y < other.max_y
    }

    /// The smallest rectangle containing both inputs.
    pub open spec fn spec_combine(self, other: Rect) -> Rect {
        Rect {
            min_x: if self.min_x < other.min_x { self.min_x } else { other.min_x },
            min_y: if self.min_y < other.min_y { self.min_y } else { other.min_y },
            max_x: if self.max_x > other.max_x { self.max_x } else { other.max_x },
            max_y: if self.max_y > other.max_y { self.max_y } else { other.max_y },
        }
    }

    /// The rectangle with both corners at the origin.
    pub fn zero() -> (r: Rect)
        ensures
            r == (Rect { min_x: 0, min_y: 0, max_x: 0, max_y: 0 }),
    {
        Rect { min_x: 0, min_y: 0, max_x: 0, max_y: 0 }
    }

    /// Width and height of the rectangle.
    pub fn size(&self) -> (s: (i32, i32))
        requires
            i32::MIN <= self.width() <= i32::MAX,
            i32::MIN <= self.height() <= i32::MAX,
        ensures
            s.0 == self.width(),
            s.1 == self.height(),
    {
        (self.max_x - self.min_x, self.max_y - self.min_y)
    }

    /// Whether this rectangle overlaps `rect`.
    pub fn intersect(&self, rect: &Rect) -> (r: bool)
        ensures
            r == self.spec_intersect(*rect),
    {
        self.min_x < rect.max_x && self.max_x > rect.min_x && self.max_y > rect.min_y
            && self.min_y < rect.max_y
    }

    /// The smallest rectangle containing both `self` and `other`.
    pub fn combine(&self, other: &Rect) -> (r: Rect)
        ensures
            r == self.spec_combine(*other),
    {
        let mut result = Rect::zero();
        result.min_x = if self.min_x < other.min_x { self.min_x } else { other.min_x };
        result.min_y = if self.min_y < other.min_y { self.min_y } else { other.min_y };
        result.max_x = if self.max_x > other.max_x { self.max_x } else { other.max_x };
        result.max_y = if self.max_y > other.max_y { self.max_y } else { other.max_y };
        result
    }
}

} // verus!
