//! Points and axis-aligned rectangles on an integer plane.
//!
//! A rectangle is given by its least and its greatest corner and contains both: two
//! rectangles that only touch do intersect.

use vstd::prelude::*;

verus! {

#[derive(Clone, Copy, Debug, PartialEq, Eq, Structural)]
pub struct Point {
    pub x: i64,
    pub y: i64,
}

/// The rectangle from `(min_x, min_y)` to `(max_x, max_y)`, corners included.
#[derive(Clone, Copy, Debug, PartialEq, Eq, Structural)]
pub struct Rect {
    pub min_x: i64,
    pub min_y: i64,
    pub max_x: i64,
    pub max_y: i64,
}

/// The lesser of two numbers.
pub open spec fn least(a: int, b: int) -> int {
    if a <= b {
        a
    } else {
        b
    }
}

/// The greater of two numbers.
pub open spec fn greatest(a: int, b: int) -> int {
    if a >= b {
        a
    } else {
        b
    }
}

/// `m` is the least element of `values`, or 0 where there is none.
pub open spec fn is_least(values: Seq<int>, m: int) -> bool {
    if values.len() == 0 {
        m == 0
    } else {
        values.contains(m) && forall|i: int| 0 <= i < values.len() ==> m <= values[i]
    }
}

/// `m` is the greatest element of `values`, or 0 where there is none.
pub open spec fn is_greatest(values: Seq<int>, m: int) -> bool {
    if values.len() == 0 {
        m == 0
    } else {
        values.contains(m) && forall|i: int| 0 <= i < values.len() ==> values[i] <= m
    }
}

impl Rect {
    /// The least corner is not beyond the greatest.
    pub open spec fn wf(&self) -> bool {
        self.min_x <= self.max_x && self.min_y <= self.max_y
    }

    /// The point `(x, y)` lies in the rectangle.
    pub open spec fn contains(&self, x: int, y: int) -> bool {
        self.min_x <= x <= self.max_x && self.min_y <= y <= self.max_y
    }

    /// On each axis, neither rectangle ends before the other begins.
    pub open spec fn overlaps(&self, other: &Rect) -> bool {
        &&& self.min_x <= other.max_x
        &&& self.max_x >= other.min_x
        &&& self.min_y <= other.max_y
        &&& self.max_y >= other.min_y
    }

    /// Tests whether two rectangles intersect.
    pub fn intersects(&self, other: &Rect) -> (hit: bool)
        ensures
            hit == self.overlaps(other),
    {
        self.min_x <= other.max_x && self.max_x >= other.min_x && self.min_y <= other.max_y
            && self.max_y >= other.min_y
    }

    /// Two rectangles overlap exactly when they have a point in common.
    pub proof fn lemma_overlap_is_common_point(&self, other: &Rect)
        requires
            self.wf(),
            other.wf(),
        ensures
            self.overlaps(other) <==> exists|x: int, y: int|
                #![trigger self.contains(x, y), other.contains(x, y)]
                self.contains(x, y) && other.contains(x, y),
    {
        if self.overlaps(other) {
            let x = greatest(self.min_x as int, other.min_x as int);
            let y = greatest(self.min_y as int, other.min_y as int);
            assert(self.contains(x, y) && other.contains(x, y));
        }
    }

    /// The smallest rectangle around both: the least of the least corners and the
    /// greatest of the greatest.
    pub open spec fn joined(&self, other: &Rect) -> Rect {
        Rect {
            min_x: least(self.min_x as int, other.min_x as int) as i64,
            min_y: least(self.min_y as int, other.min_y as int) as i64,
            max_x: greatest(self.max_x as int, other.max_x as int) as i64,
            max_y: greatest(self.max_y as int, other.max_y as int) as i64,
        }
    }

    /// Computes `joined`.
    pub fn union(&self, other: &Rect) -> (all: Rect)
        ensures
            all == self.joined(other),
    {
        Rect {
            min_x: if self.min_x <= other.min_x {
                self.min_x
            } else {
                other.min_x
            },
            min_y: if self.min_y <= other.min_y {
                self.min_y
            } else {
                other.min_y
            },
            max_x: if self.max_x >= other.max_x {
                self.max_x
            } else {
                other.max_x
            },
            max_y: if self.max_y >= other.max_y {
                self.max_y
            } else {
                other.max_y
            },
        }
    }

    /// The rectangle that reaches `half_x` to both sides of `center` and `half_y` up and
    /// down.
    pub open spec fn centered(center: Point, half_x: int, half_y: int) -> Rect {
        Rect {
            min_x: (center.x - half_x) as i64,
            min_y: (center.y - half_y) as i64,
            max_x: (center.x + half_x) as i64,
            max_y: (center.y + half_y) as i64,
        }
    }

    /// The corners of `centered` can be written in 64 bits.
    pub open spec fn centered_fits(center: Point, half_x: int, half_y: int) -> bool {
        &&& i64::MIN <= center.x - half_x <= i64::MAX
        &&& i64::MIN <= center.x + half_x <= i64::MAX
        &&& i64::MIN <= center.y - half_y <= i64::MAX
        &&& i64::MIN <= center.y + half_y <= i64::MAX
    }

    /// The view box of an observer at `center`, where its corners can be written.
    pub fn around(center: Point, half_x: i64, half_y: i64) -> (view: Option<Rect>)
        ensures
            view is Some <==> Rect::centered_fits(center, half_x as int, half_y as int),
            view matches Some(rect) ==> rect == Rect::centered(
                center,
                half_x as int,
                half_y as int,
            ),
    {
        let min_x = center.x.checked_sub(half_x);
        let min_y = center.y.checked_sub(half_y);
        let max_x = center.x.checked_add(half_x);
        let max_y = center.y.checked_add(half_y);
        match (min_x, min_y, max_x, max_y) {
            (Some(min_x), Some(min_y), Some(max_x), Some(max_y)) => Some(
                Rect { min_x, min_y, max_x, max_y },
            ),
            _ => None,
        }
    }

    /// Twice the centre of the rectangle can be written in 64 bits.
    pub open spec fn center_fits(&self) -> bool {
        &&& i64::MIN <= self.min_x + self.max_x <= i64::MAX
        &&& i64::MIN <= self.min_y + self.max_y <= i64::MAX
    }

    /// Twice the centre of the rectangle: the sum of its least and its greatest corner.
    /// Halved, it is the centre, also where that lies between two integers.
    pub open spec fn doubled_center(&self) -> Point {
        Point { x: (self.min_x + self.max_x) as i64, y: (self.min_y + self.max_y) as i64 }
    }

    /// Tests `center_fits`.
    pub fn check_center_fits(&self) -> (ok: bool)
        ensures
            ok == self.center_fits(),
    {
        self.min_x.checked_add(self.max_x).is_some() && self.min_y.checked_add(
            self.max_y,
        ).is_some()
    }

    /// Computes `doubled_center`.
    pub fn twice_center(&self) -> (twice: Point)
        requires
            self.center_fits(),
        ensures
            twice == self.doubled_center(),
    {
        Point { x: self.min_x + self.max_x, y: self.min_y + self.max_y }
    }

    /// The smallest rectangle that contains four points.
    pub open spec fn hull(a: Point, b: Point, c: Point, d: Point) -> Rect {
        Rect {
            min_x: least(least(a.x as int, b.x as int), least(c.x as int, d.x as int)) as i64,
            min_y: least(least(a.y as int, b.y as int), least(c.y as int, d.y as int)) as i64,
            max_x: greatest(
                greatest(a.x as int, b.x as int),
                greatest(c.x as int, d.x as int),
            ) as i64,
            max_y: greatest(
                greatest(a.y as int, b.y as int),
                greatest(c.y as int, d.y as int),
            ) as i64,
        }
    }

    /// The bounding box of the four corners of a transformed rectangle.
    pub fn bounding(a: Point, b: Point, c: Point, d: Point) -> (hull: Rect)
        ensures
            hull == Rect::hull(a, b, c, d),
            hull.wf(),
            hull.contains(a.x as int, a.y as int),
            hull.contains(b.x as int, b.y as int),
            hull.contains(c.x as int, c.y as int),
            hull.contains(d.x as int, d.y as int),
    {
        let first = Rect { min_x: a.x, min_y: a.y, max_x: a.x, max_y: a.y };
        let second = Rect { min_x: b.x, min_y: b.y, max_x: b.x, max_y: b.y };
        let third = Rect { min_x: c.x, min_y: c.y, max_x: c.x, max_y: c.y };
        let fourth = Rect { min_x: d.x, min_y: d.y, max_x: d.x, max_y: d.y };
        first.union(&second).union(&third.union(&fourth))
    }

    /// The four corners of the rectangle, counter-clockwise from the least.
    pub fn corners(&self) -> (corners: (Point, Point, Point, Point))
        ensures
            corners.0 == (Point { x: self.min_x, y: self.min_y }),
            corners.1 == (Point { x: self.min_x, y: self.max_y }),
            corners.2 == (Point { x: self.max_x, y: self.max_y }),
            corners.3 == (Point { x: self.max_x, y: self.min_y }),
    {
        (
            Point { x: self.min_x, y: self.min_y },
            Point { x: self.min_x, y: self.max_y },
            Point { x: self.max_x, y: self.max_y },
            Point { x: self.max_x, y: self.min_y },
        )
    }

    /// A well-formed rectangle is the bounding box of its own corners.
    pub proof fn lemma_hull_of_corners(&self)
        requires
            self.wf(),
        ensures
            Rect::hull(
                Point { x: self.min_x, y: self.min_y },
                Point { x: self.min_x, y: self.max_y },
                Point { x: self.max_x, y: self.max_y },
                Point { x: self.max_x, y: self.min_y },
            ) == *self,
    {
    }
}

} // verus!
