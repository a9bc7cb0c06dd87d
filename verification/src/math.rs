//! Plane geometry used by the UI layer: points and axis-aligned rectangles.
//!
//! Coordinates are fixed-point values kept inside [`COORD_LIMIT`] so that the
//! sums and differences the rectangle operations form never overflow `i64`.

use vstd::prelude::*;

verus! {

/// Largest magnitude a coordinate may have; small enough that adding or
/// subtracting three in-range coordinates stays inside `i64`.
pub const COORD_LIMIT: i64 = 0x1000_0000_0000_0000;

/// A point or extent in the plane.
#[derive(Clone, Copy, PartialEq, Eq, Structural, Debug)]
pub struct Vector2 {
    pub x: i64,
    pub y: i64,
}

/// True when both coordinates lie inside [`COORD_LIMIT`].
pub open spec fn vec_in_range(v: Vector2) -> bool {
    -COORD_LIMIT <= v.x <= COORD_LIMIT && -COORD_LIMIT <= v.y <= COORD_LIMIT
}

impl Vector2 {
    pub fn new(x: i64, y: i64) -> (r: Vector2)
        ensures
            r.x == x && r.y == y,
    {
        Vector2 { x, y }
    }

    /// Component-wise sum.
    pub fn add(self, other: Vector2) -> (r: Vector2)
        requires
            i64::MIN <= self.x + other.x <= i64::MAX,
            i64::MIN <= self.y + other.y <= i64::MAX,
        ensures
            r.x == self.x + other.x,
            r.y == self.y + other.y,
    {
        Vector2 { x: self.x + other.x, y: self.y + other.y }
    }

    /// Component-wise difference.
    pub fn sub(self, other: Vector2) -> (r: Vector2)
        requires
            i64::MIN <= self.x - other.x <= i64::MAX,
            i64::MIN <= self.y - other.y <= i64::MAX,
        ensures
            r.x == self.x - other.x,
            r.y == self.y - other.y,
    {
        Vector2 { x: self.x - other.x, y: self.y - other.y }
    }
}

/// An axis-aligned rectangle, described by its bottom-left (`min`) and
/// top-right (`max`) corners.
#[derive(Clone, Copy, PartialEq, Eq, Structural, Debug)]
pub struct Rect {
    pub min: Vector2,
    pub max: Vector2,
}

impl Rect {
    /// Both corners are in range; `min` is at or below-left of `max`.
    pub open spec fn wf(self) -> bool {
        vec_in_range(self.min) && vec_in_range(self.max) && self.min.x <= self.max.x
            && self.min.y <= self.max.y
    }

    pub fn from_min_max(min: Vector2, max: Vector2) -> (r: Rect)
        ensures
            r.min == min && r.max == max,
    {
        Rect { min, max }
    }

    /// Rectangle of the given size centred on `pos`. An odd size loses its
    /// half-unit remainder to the `max` corner staying `size/2` away.
    pub fn from_center(pos: Vector2, size: Vector2) -> (r: Rect)
        requires
            vec_in_range(pos),
            vec_in_range(size),
            size.x >= 0 && size.y >= 0,
        ensures
            r.min.x == pos.x - size.x / 2 && r.min.y == pos.y - size.y / 2,
            r.max.x == pos.x + size.x / 2 && r.max.y == pos.y + size.y / 2,
    {
        let hx: i64 = size.x / 2;
        let hy: i64 = size.y / 2;
        let min = Vector2 { x: pos.x - hx, y: pos.y - hy };
        let max = Vector2 { x: pos.x + hx, y: pos.y + hy };
        Rect { min, max }
    }

    /// Width and height as a vector.
    pub fn size(self) -> (r: Vector2)
        requires
            self.wf(),
        ensures
            r.x == self.max.x - self.min.x,
            r.y == self.max.y - self.min.y,
    {
        Vector2 { x: self.max.x - self.min.x, y: self.max.y - self.min.y }
    }

    /// Midpoint of the rectangle.
    pub fn center(self) -> (r: Vector2)
        requires
            self.wf(),
        ensures
            r.x == self.min.x + (self.max.x - self.min.x) / 2,
            r.y == self.min.y + (self.max.y - self.min.y) / 2,
    {
        let w: i64 = self.max.x - self.min.x;
        let h: i64 = self.max.y - self.min.y;
        Vector2 { x: self.min.x + w / 2, y: self.min.y + h / 2 }
    }

    pub fn bottom_left(self) -> (r: Vector2)
        ensures
            r == self.min,
    {
        self.min
    }

    pub fn top_right(self) -> (r: Vector2)
        ensures
            r == self.max,
    {
        self.max
    }

    pub fn bottom_right(self) -> (r: Vector2)
        ensures
            r.x == self.max.x && r.y == self.min.y,
    {
        Vector2 { x: self.max.x, y: self.min.y }
    }

    pub fn top_left(self) -> (r: Vector2)
        ensures
            r.x == self.min.x && r.y == self.max.y,
    {
        Vector2 { x: self.min.x, y: self.max.y }
    }

    /// True when `point` lies inside the rectangle, edges included.
    pub fn point_overlap(self, point: Vector2) -> (r: bool)
        ensures
            r == (self.min.x <= point.x && point.x <= self.max.x && self.min.y <= point.y
                && point.y <= self.max.y),
    {
        self.min.x <= point.x && self.max.x >= point.x && self.min.y <= point.y && self.max.y
            >= point.y
    }

    /// Largest rectangle contained in both; the corners invert when the two
    /// do not overlap, exactly as the corner arithmetic gives them.
    pub fn intersect(self, other: Rect) -> (r: Rect)
        ensures
            r.min.x == if self.min.x >= other.min.x { self.min.x } else { other.min.x },
            r.min.y == if self.min.y >= other.min.y { self.min.y } else { other.min.y },
            r.max.x == if self.max.x <= other.max.x { self.max.x } else { other.max.x },
            r.max.y == if self.max.y <= other.max.y { self.max.y } else { other.max.y },
    {
        let min_x: i64 = if self.min.x >= other.min.x { self.min.x } else { other.min.x };
        let min_y: i64 = if self.min.y >= other.min.y { self.min.y } else { other.min.y };
        let max_x: i64 = if self.max.x <= other.max.x { self.max.x } else { other.max.x };
        let max_y: i64 = if self.max.y <= other.max.y { self.max.y } else { other.max.y };
        Rect { min: Vector2 { x: min_x, y: min_y }, max: Vector2 { x: max_x, y: max_y } }
    }

    /// True when the rectangles share at least one point, edges included.
    pub fn overlaps(self, other: Rect) -> (r: bool)
        ensures
            r == (self.min.x <= other.max.x && other.min.x <= self.max.x && self.min.y
                <= other.max.y && other.min.y <= self.max.y),
    {
        self.min.x <= other.max.x && other.min.x <= self.max.x && self.min.y <= other.max.y
            && other.min.y <= self.max.y
    }

    /// The rectangle shifted by `amount`.
    pub fn translate(self, amount: Vector2) -> (r: Rect)
        requires
            vec_in_range(self.min) && vec_in_range(self.max) && vec_in_range(amount),
        ensures
            r.min.x == self.min.x + amount.x && r.min.y == self.min.y + amount.y,
            r.max.x == self.max.x + amount.x && r.max.y == self.max.y + amount.y,
    {
        Rect { min: self.min.add(amount), max: self.max.add(amount) }
    }

    /// Horizontal extent.
    pub fn width(self) -> (r: i64)
        requires
            i64::MIN <= self.max.x - self.min.x <= i64::MAX,
        ensures
            r == self.max.x - self.min.x,
    {
        self.max.x - self.min.x
    }

    /// Vertical extent.
    pub fn height(self) -> (r: i64)
        requires
            i64::MIN <= self.max.y - self.min.y <= i64::MAX,
        ensures
            r == self.max.y - self.min.y,
    {
        self.max.y - self.min.y
    }

    pub fn left(self) -> (r: i64)
        ensures
            r == self.min.x,
    {
        self.min.x
    }

    pub fn right(self) -> (r: i64)
        ensures
            r == self.max.x,
    {
        self.max.x
    }

    pub fn top(self) -> (r: i64)
        ensures
            r == self.max.y,
    {
        self.max.y
    }

    pub fn bottom(self) -> (r: i64)
        ensures
            r == self.min.y,
    {
        self.min.y
    }

    /// Cuts a band of the given height off the top; the remainder stays in
    /// `self` and the band is returned.
    pub fn split_top(&mut self, size: i64) -> (r: Rect)
        requires
            i64::MIN <= old(self).max.y - size <= i64::MAX,
        ensures
            final(self).min == old(self).min,
            final(self).max.x == old(self).max.x,
            final(self).max.y == old(self).max.y - size,
            r.min.x == old(self).min.x && r.min.y == old(self).max.y - size,
            r.max == old(self).max,
    {
        let max = self.max;
        self.max.y = self.max.y - size;
        Rect { min: Vector2 { x: self.min.x, y: self.max.y }, max }
    }

    /// Cuts a band of the given height off the bottom.
    pub fn split_bottom(&mut self, size: i64) -> (r: Rect)
        requires
            i64::MIN <= old(self).min.y + size <= i64::MAX,
        ensures
            final(self).max == old(self).max,
            final(self).min.x == old(self).min.x,
            final(self).min.y == old(self).min.y + size,
            r.min == old(self).min,
            r.max.x == old(self).max.x && r.max.y == old(self).min.y + size,
    {
        let min = self.min;
        self.min.y = self.min.y + size;
        Rect { min, max: Vector2 { x: self.max.x, y: self.min.y } }
    }

    /// Cuts a band of the given width off the left side.
    pub fn split_left(&mut self, size: i64) -> (r: Rect)
        requires
            i64::MIN <= old(self).min.x + size <= i64::MAX,
        ensures
            final(self).max == old(self).max,
            final(self).min.y == old(self).min.y,
            final(self).min.x == old(self).min.x + size,
            r.min == old(self).min,
            r.max.x == old(self).min.x + size && r.max.y == old(self).max.y,
    {
        let min = self.min;
        self.min.x = self.min.x + size;
        Rect { min, max: Vector2 { x: self.min.x, y: self.max.y } }
    }

    /// Cuts a band of the given width off the right side.
    pub fn split_right(&mut self, size: i64) -> (r: Rect)
        requires
            i64::MIN <= old(self).max.x - size <= i64::MAX,
        ensures
            final(self).min == old(self).min,
            final(self).max.y == old(self).max.y,
            final(self).max.x == old(self).max.x - size,
            r.min.x == old(self).max.x - size && r.min.y == old(self).min.y,
            r.max == old(self).max,
    {
        let max = self.max;
        self.max.x = self.max.x - size;
        Rect { min: Vector2 { x: self.max.x, y: self.min.y }, max }
    }

    /// Smallest rectangle containing both.
    pub fn expand(self, other: Rect) -> (r: Rect)
        ensures
            r.min.x == if self.min.x <= other.min.x { self.min.x } else { other.min.x },
            r.min.y == if self.min.y <= other.min.y { self.min.y } else { other.min.y },
            r.max.x == if self.max.x >= other.max.x { self.max.x } else { other.max.x },
            r.max.y == if self.max.y >= other.max.y { self.max.y } else { other.max.y },
    {
        let min_x: i64 = if self.min.x <= other.min.x { self.min.x } else { other.min.x };
        let min_y: i64 = if self.min.y <= other.min.y { self.min.y } else { other.min.y };
        let max_x: i64 = if self.max.x >= other.max.x { self.max.x } else { other.max.x };
        let max_y: i64 = if self.max.y >= other.max.y { self.max.y } else { other.max.y };
        Rect { min: Vector2 { x: min_x, y: min_y }, max: Vector2 { x: max_x, y: max_y } }
    }
}

} // verus!

