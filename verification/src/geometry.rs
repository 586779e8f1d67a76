//! Points and axis-aligned rectangles in integer screen coordinates.

use vstd::prelude::*;

verus! {

/// A position in integer screen coordinates; a 16-bit range is enough for
/// the level extents and sprite sizes this game uses.
#[derive(Clone, Copy, Debug, PartialEq, Eq, Structural)]
pub struct Point {
    pub x: i16,
    pub y: i16,
}

/// An axis-aligned box: a top-left corner plus a width and a height.
#[derive(Clone, Copy, Debug, PartialEq, Eq, Structural)]
pub struct Rect {
    pub position: Point,
    pub width: i16,
    pub height: i16,
}

impl Rect {
    /// The left edge, as a mathematical integer.
    pub open spec fn left(self) -> int {
        self.position.x as int
    }

    /// The top edge, as a mathematical integer.
    pub open spec fn top(self) -> int {
        self.position.y as int
    }

    /// The right edge, as a mathematical integer (never overflows in spec).
    pub open spec fn spec_right(self) -> int {
        self.position.x + self.width
    }

    /// The bottom edge, as a mathematical integer.
    pub open spec fn spec_bottom(self) -> int {
        self.position.y + self.height
    }

    /// Two boxes intersect iff their projections overlap strictly on both
    /// axes; boxes that merely touch along an edge do not intersect.
    pub open spec fn spec_intersects(self, other: Rect) -> bool {
        &&& self.left() < other.spec_right()
        &&& self.spec_right() > other.left()
        &&& self.top() < other.spec_bottom()
        &&& self.spec_bottom() > other.top()
    }

    /// The edge sums fit in `i16`, so `right()` and `bottom()` can be
    /// computed without overflow.
    pub open spec fn edges_fit(self) -> bool {
        &&& i16::MIN <= self.spec_right() <= i16::MAX
        &&& i16::MIN <= self.spec_bottom() <= i16::MAX
    }

    pub fn new(position: Point, width: i16, height: i16) -> (r: Rect)
        ensures
            r == (Rect { position, width, height }),
    {
        Rect { position, width, height }
    }

    pub fn new_from_x_y(x: i16, y: i16, width: i16, height: i16) -> (r: Rect)
        ensures
            r == (Rect { position: Point { x, y }, width, height }),
    {
        Rect { position: Point { x, y }, width, height }
    }

    pub fn x(&self) -> (r: i16)
        ensures
            r as int == self.left(),
    {
        self.position.x
    }

    pub fn y(&self) -> (r: i16)
        ensures
            r as int == self.top(),
    {
        self.position.y
    }

    pub fn right(&self) -> (r: i16)
        requires
            i16::MIN <= self.spec_right() <= i16::MAX,
        ensures
            r as int == self.spec_right(),
    {
        self.position.x + self.width
    }

    pub fn bottom(&self) -> (r: i16)
        requires
            i16::MIN <= self.spec_bottom() <= i16::MAX,
        ensures
            r as int == self.spec_bottom(),
    {
        self.position.y + self.height
    }

    /// True iff the two boxes overlap strictly on both axes.
    pub fn intersects(&self, rect: &Rect) -> (r: bool)
        requires
            self.edges_fit(),
            rect.edges_fit(),
        ensures
            r == self.spec_intersects(*rect),
    {
        self.x() < rect.right() && self.right() > rect.x() && self.y() < rect.bottom()
            && self.bottom() > rect.y()
    }

    pub fn set_x(&mut self, x: i16)
        ensures
            *final(self) == (Rect {
                position: Point { x, y: old(self).position.y },
                ..*old(self)
            }),
    {
        self.position.x = x;
    }

    pub fn add_x(&mut self, delta: i16)
        requires
            i16::MIN <= old(self).position.x + delta <= i16::MAX,
        ensures
            *final(self) == (Rect {
                position: Point {
                    x: (old(self).position.x + delta) as i16,
                    y: old(self).position.y,
                },
                ..*old(self)
            }),
    {
        self.position.x = self.position.x + delta;
    }

    pub fn add_y(&mut self, delta: i16)
        requires
            i16::MIN <= old(self).position.y + delta <= i16::MAX,
        ensures
            *final(self) == (Rect {
                position: Point {
                    x: old(self).position.x,
                    y: (old(self).position.y + delta) as i16,
                },
                ..*old(self)
            }),
    {
        self.position.y = self.position.y + delta;
    }
}

/// Intersection does not depend on the order of the two boxes.
pub proof fn lemma_intersects_symmetric(a: Rect, b: Rect)
    ensures
        a.spec_intersects(b) == b.spec_intersects(a),
{
}

/// Boxes separated on some axis — one entirely at or past the other's edge,
/// touching allowed — never intersect; in particular a touching-only pair
/// (zero-area overlap) does not intersect.
pub proof fn lemma_separated_boxes_do_not_intersect(a: Rect, b: Rect)
    requires
        a.spec_right() <= b.left() || b.spec_right() <= a.left() || a.spec_bottom() <= b.top()
            || b.spec_bottom() <= a.top(),
    ensures
        !a.spec_intersects(b),
        !b.spec_intersects(a),
{
}

/// Boxes with positive overlap on both axes always intersect.
pub proof fn lemma_overlapping_boxes_intersect(a: Rect, b: Rect)
    requires
        a.left() < b.spec_right(),
        b.left() < a.spec_right(),
        a.top() < b.spec_bottom(),
        b.top() < a.spec_bottom(),
    ensures
        a.spec_intersects(b),
        b.spec_intersects(a),
{
}

} // verus!
