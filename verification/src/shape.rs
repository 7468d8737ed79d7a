//! Axis-aligned rectangles and rounded rectangles.
//!
//! A [`Rectangle`] stores its top-left and bottom-right vertices. The
//! arithmetic operations are provided on the integer instantiations
//! [`URect`] and [`IRect`]; the unverified shell keeps its own
//! floating-point rectangle for screen-space math.

use vstd::prelude::*;

use crate::dimen::Vector2;

verus! {

/// A rectangle with `u32` coordinates.
pub type URect = Rectangle<u32>;

/// A rectangle with `i32` coordinates.
pub type IRect = Rectangle<i32>;

/// A rounded rectangle with `u32` coordinates.
pub type URoundRect = RoundedRectangle<u32>;

/// A rounded rectangle with `i32` coordinates.
pub type IRoundRect = RoundedRectangle<i32>;

/// A struct representing an axis-aligned rectangle. Two points are stored:
/// the top left vertex, and the bottom right vertex.
#[derive(Debug, PartialEq, Eq, Clone)]
pub struct Rectangle<T> {
    top_left: Vector2<T>,
    bottom_right: Vector2<T>,
}

impl<T> Rectangle<T> {
    /// The stored top left vertex.
    pub closed spec fn spec_top_left(self) -> Vector2<T> {
        self.top_left
    }

    /// The stored bottom right vertex.
    pub closed spec fn spec_bottom_right(self) -> Vector2<T> {
        self.bottom_right
    }

    /// Constructs a new `Rectangle`. The top left vertex must be above and
    /// to the left of the bottom right vertex.
    pub fn new(top_left: Vector2<T>, bottom_right: Vector2<T>) -> (r: Self)
        ensures
            r.spec_top_left() == top_left,
            r.spec_bottom_right() == bottom_right,
    {
        Rectangle { top_left, bottom_right }
    }

    /// Constructs a new `Rectangle` from coordinate pairs. The top left
    /// vertex must be above and to the left of the bottom right vertex.
    pub fn from_tuples(top_left: (T, T), bottom_right: (T, T)) -> (r: Self)
        ensures
            r.spec_top_left() == (Vector2 { x: top_left.0, y: top_left.1 }),
            r.spec_bottom_right() == (Vector2 { x: bottom_right.0, y: bottom_right.1 }),
    {
        Rectangle {
            top_left: Vector2::new(top_left.0, top_left.1),
            bottom_right: Vector2::new(bottom_right.0, bottom_right.1),
        }
    }

    /// Returns a reference to the top left vertex.
    pub fn top_left(&self) -> (v: &Vector2<T>)
        ensures
            *v == self.spec_top_left(),
    {
        &self.top_left
    }

    /// Returns a reference to the bottom right vertex.
    pub fn bottom_right(&self) -> (v: &Vector2<T>)
        ensures
            *v == self.spec_bottom_right(),
    {
        &self.bottom_right
    }
}

impl<T: Copy> Rectangle<T> {
    /// Returns a new `RoundedRectangle` with the same vertices as `self`
    /// and the given corner radius.
    pub fn rounded(&self, radius: T) -> (r: RoundedRectangle<T>)
        ensures
            r.spec_rect() == *self,
            r.spec_radius() == radius,
    {
        RoundedRectangle { rect: Rectangle { top_left: self.top_left, bottom_right: self.bottom_right }, radius }
    }

    /// Returns a vector representing the top right vertex.
    pub fn top_right(&self) -> (v: Vector2<T>)
        ensures
            v == (Vector2 { x: self.spec_bottom_right().x, y: self.spec_top_left().y }),
    {
        Vector2::new(self.bottom_right.x, self.top_left.y)
    }

    /// Returns a vector representing the bottom left vertex.
    pub fn bottom_left(&self) -> (v: Vector2<T>)
        ensures
            v == (Vector2 { x: self.spec_top_left().x, y: self.spec_bottom_right().y }),
    {
        Vector2::new(self.top_left.x, self.bottom_right.y)
    }

    /// Returns the x value of the left border.
    pub fn left(&self) -> (v: T)
        ensures
            v == self.spec_top_left().x,
    {
        self.top_left.x
    }

    /// Returns the x value of the right border.
    pub fn right(&self) -> (v: T)
        ensures
            v == self.spec_bottom_right().x,
    {
        self.bottom_right.x
    }

    /// Returns the y value of the top border.
    pub fn top(&self) -> (v: T)
        ensures
            v == self.spec_top_left().y,
    {
        self.top_left.y
    }

    /// Returns the y value of the bottom border.
    pub fn bottom(&self) -> (v: T)
        ensures
            v == self.spec_bottom_right().y,
    {
        self.bottom_right.y
    }
}

impl Rectangle<u32> {
    /// The point lies inside the rectangle: inclusive of the top and left
    /// coordinates, exclusive of the bottom and right coordinates.
    pub open spec fn spec_contains(self, point: Vector2<u32>) -> bool {
        &&& point.x >= self.spec_top_left().x
        &&& point.y >= self.spec_top_left().y
        &&& point.x < self.spec_bottom_right().x
        &&& point.y < self.spec_bottom_right().y
    }

    /// The rectangle covers at least one point.
    pub open spec fn spec_positive_area(self) -> bool {
        &&& self.spec_top_left().x < self.spec_bottom_right().x
        &&& self.spec_top_left().y < self.spec_bottom_right().y
    }

    /// The largest rectangle covered by both `self` and `other`; it has
    /// positive area exactly when the two overlap.
    pub open spec fn spec_intersect(self, other: Self) -> (Vector2<int>, Vector2<int>) {
        (
            Vector2 {
                x: if self.spec_top_left().x >= other.spec_top_left().x {
                    self.spec_top_left().x as int
                } else {
                    other.spec_top_left().x as int
                },
                y: if self.spec_top_left().y >= other.spec_top_left().y {
                    self.spec_top_left().y as int
                } else {
                    other.spec_top_left().y as int
                },
            },
            Vector2 {
                x: if self.spec_bottom_right().x <= other.spec_bottom_right().x {
                    self.spec_bottom_right().x as int
                } else {
                    other.spec_bottom_right().x as int
                },
                y: if self.spec_bottom_right().y <= other.spec_bottom_right().y {
                    self.spec_bottom_right().y as int
                } else {
                    other.spec_bottom_right().y as int
                },
            },
        )
    }

    /// Returns the width of the rectangle.
    pub fn width(&self) -> (w: u32)
        requires
            self.spec_top_left().x <= self.spec_bottom_right().x,
        ensures
            w == self.spec_bottom_right().x - self.spec_top_left().x,
    {
        self.bottom_right.x - self.top_left.x
    }

    /// Returns the height of the rectangle.
    pub fn height(&self) -> (h: u32)
        requires
            self.spec_top_left().y <= self.spec_bottom_right().y,
        ensures
            h == self.spec_bottom_right().y - self.spec_top_left().y,
    {
        self.bottom_right.y - self.top_left.y
    }

    /// Returns a `Vector2` containing the width and height of the
    /// rectangle.
    pub fn size(&self) -> (s: Vector2<u32>)
        requires
            self.spec_top_left().x <= self.spec_bottom_right().x,
            self.spec_top_left().y <= self.spec_bottom_right().y,
        ensures
            s.x == self.spec_bottom_right().x - self.spec_top_left().x,
            s.y == self.spec_bottom_right().y - self.spec_top_left().y,
    {
        Vector2::new(self.width(), self.height())
    }

    /// Returns true if the specified point is inside this rectangle. This
    /// is inclusive of the top and left coordinates, and exclusive of the
    /// bottom and right coordinates.
    pub fn contains(&self, point: Vector2<u32>) -> (r: bool)
        ensures
            r == self.spec_contains(point),
    {
        point.x >= self.top_left.x
            && point.y >= self.top_left.y
            && point.x < self.bottom_right.x
            && point.y < self.bottom_right.y
    }

    /// Returns `true` if the rectangle has zero area.
    pub fn is_zero_area(&self) -> (r: bool)
        ensures
            r == (self.spec_top_left().x == self.spec_bottom_right().x
                || self.spec_top_left().y == self.spec_bottom_right().y),
    {
        self.top_left.x == self.bottom_right.x || self.top_left.y == self.bottom_right.y
    }

    /// Returns `true` if the rectangle has an area greater than zero.
    pub fn is_positive_area(&self) -> (r: bool)
        ensures
            r == self.spec_positive_area(),
    {
        self.top_left.x < self.bottom_right.x && self.top_left.y < self.bottom_right.y
    }

    /// Finds the intersection of two rectangles — the area common to both
    /// of them — or `None` if no area is common.
    pub fn intersect(&self, other: &Self) -> (r: Option<Self>)
        ensures
            match r {
                Some(res) => {
                    &&& res.spec_top_left().x == self.spec_intersect(*other).0.x
                    &&& res.spec_top_left().y == self.spec_intersect(*other).0.y
                    &&& res.spec_bottom_right().x == self.spec_intersect(*other).1.x
                    &&& res.spec_bottom_right().y == self.spec_intersect(*other).1.y
                    &&& res.spec_positive_area()
                },
                None => {
                    ||| self.spec_intersect(*other).0.x >= self.spec_intersect(*other).1.x
                    ||| self.spec_intersect(*other).0.y >= self.spec_intersect(*other).1.y
                },
            },
    {
        let tlx = if self.top_left.x >= other.top_left.x {
            self.top_left.x
        } else {
            other.top_left.x
        };
        let tly = if self.top_left.y >= other.top_left.y {
            self.top_left.y
        } else {
            other.top_left.y
        };
        let brx = if self.bottom_right.x <= other.bottom_right.x {
            self.bottom_right.x
        } else {
            other.bottom_right.x
        };
        let bry = if self.bottom_right.y <= other.bottom_right.y {
            self.bottom_right.y
        } else {
            other.bottom_right.y
        };
        let result = Rectangle {
            top_left: Vector2::new(tlx, tly),
            bottom_right: Vector2::new(brx, bry),
        };
        if result.is_positive_area() {
            Some(result)
        } else {
            None
        }
    }

    /// Returns a new rectangle whose vertices are offset relative to the
    /// current rectangle by the specified amount.
    pub fn with_offset(&self, offset: Vector2<u32>) -> (r: Self)
        requires
            self.spec_top_left().x + offset.x <= u32::MAX,
            self.spec_top_left().y + offset.y <= u32::MAX,
            self.spec_bottom_right().x + offset.x <= u32::MAX,
            self.spec_bottom_right().y + offset.y <= u32::MAX,
        ensures
            r.spec_top_left().x == self.spec_top_left().x + offset.x,
            r.spec_top_left().y == self.spec_top_left().y + offset.y,
            r.spec_bottom_right().x == self.spec_bottom_right().x + offset.x,
            r.spec_bottom_right().y == self.spec_bottom_right().y + offset.y,
    {
        Rectangle {
            top_left: Vector2::new(self.top_left.x + offset.x, self.top_left.y + offset.y),
            bottom_right: Vector2::new(
                self.bottom_right.x + offset.x,
                self.bottom_right.y + offset.y,
            ),
        }
    }

    /// Returns a new rectangle whose vertices are negatively offset
    /// relative to the current rectangle by the specified amount.
    pub fn with_negative_offset(&self, offset: Vector2<u32>) -> (r: Self)
        requires
            offset.x <= self.spec_top_left().x,
            offset.y <= self.spec_top_left().y,
            offset.x <= self.spec_bottom_right().x,
            offset.y <= self.spec_bottom_right().y,
        ensures
            r.spec_top_left().x == self.spec_top_left().x - offset.x,
            r.spec_top_left().y == self.spec_top_left().y - offset.y,
            r.spec_bottom_right().x == self.spec_bottom_right().x - offset.x,
            r.spec_bottom_right().y == self.spec_bottom_right().y - offset.y,
    {
        Rectangle {
            top_left: Vector2::new(self.top_left.x - offset.x, self.top_left.y - offset.y),
            bottom_right: Vector2::new(
                self.bottom_right.x - offset.x,
                self.bottom_right.y - offset.y,
            ),
        }
    }
}

impl Rectangle<i32> {
    /// The point lies inside the rectangle: inclusive of the top and left
    /// coordinates, exclusive of the bottom and right coordinates.
    pub open spec fn spec_contains_i(self, point: Vector2<i32>) -> bool {
        &&& point.x >= self.spec_top_left().x
        &&& point.y >= self.spec_top_left().y
        &&& point.x < self.spec_bottom_right().x
        &&& point.y < self.spec_bottom_right().y
    }

    /// The rectangle covers at least one point.
    pub open spec fn spec_positive_area_i(self) -> bool {
        &&& self.spec_top_left().x < self.spec_bottom_right().x
        &&& self.spec_top_left().y < self.spec_bottom_right().y
    }

    /// Returns the width of the rectangle.
    pub fn width(&self) -> (w: i32)
        requires
            self.spec_top_left().x <= self.spec_bottom_right().x,
            self.spec_bottom_right().x - self.spec_top_left().x <= i32::MAX,
        ensures
            w == self.spec_bottom_right().x - self.spec_top_left().x,
    {
        self.bottom_right.x - self.top_left.x
    }

    /// Returns the height of the rectangle.
    pub fn height(&self) -> (h: i32)
        requires
            self.spec_top_left().y <= self.spec_bottom_right().y,
            self.spec_bottom_right().y - self.spec_top_left().y <= i32::MAX,
        ensures
            h == self.spec_bottom_right().y - self.spec_top_left().y,
    {
        self.bottom_right.y - self.top_left.y
    }

    /// Returns true if the specified point is inside this rectangle. This
    /// is inclusive of the top and left coordinates, and exclusive of the
    /// bottom and right coordinates.
    pub fn contains(&self, point: Vector2<i32>) -> (r: bool)
        ensures
            r == self.spec_contains_i(point),
    {
        point.x >= self.top_left.x
            && point.y >= self.top_left.y
            && point.x < self.bottom_right.x
            && point.y < self.bottom_right.y
    }

    /// Returns `true` if the rectangle has zero area.
    pub fn is_zero_area(&self) -> (r: bool)
        ensures
            r == (self.spec_top_left().x == self.spec_bottom_right().x
                || self.spec_top_left().y == self.spec_bottom_right().y),
    {
        self.top_left.x == self.bottom_right.x || self.top_left.y == self.bottom_right.y
    }

    /// Returns `true` if the rectangle has an area greater than zero.
    pub fn is_positive_area(&self) -> (r: bool)
        ensures
            r == self.spec_positive_area_i(),
    {
        self.top_left.x < self.bottom_right.x && self.top_left.y < self.bottom_right.y
    }

    /// Finds the intersection of two rectangles — the area common to both
    /// of them — or `None` if no area is common.
    pub fn intersect(&self, other: &Self) -> (r: Option<Self>)
        ensures
            match r {
                Some(res) => {
                    &&& res.spec_top_left().x == if self.spec_top_left().x
                        >= other.spec_top_left().x {
                        self.spec_top_left().x
                    } else {
                        other.spec_top_left().x
                    }
                    &&& res.spec_top_left().y == if self.spec_top_left().y
                        >= other.spec_top_left().y {
                        self.spec_top_left().y
                    } else {
                        other.spec_top_left().y
                    }
                    &&& res.spec_bottom_right().x == if self.spec_bottom_right().x
                        <= other.spec_bottom_right().x {
                        self.spec_bottom_right().x
                    } else {
                        other.spec_bottom_right().x
                    }
                    &&& res.spec_bottom_right().y == if self.spec_bottom_right().y
                        <= other.spec_bottom_right().y {
                        self.spec_bottom_right().y
                    } else {
                        other.spec_bottom_right().y
                    }
                    &&& res.spec_positive_area_i()
                },
                None => !(exists|p: Vector2<i32>| self.spec_contains_i(p)
                    && other.spec_contains_i(p)),
            },
    {
        let tlx = if self.top_left.x >= other.top_left.x {
            self.top_left.x
        } else {
            other.top_left.x
        };
        let tly = if self.top_left.y >= other.top_left.y {
            self.top_left.y
        } else {
            other.top_left.y
        };
        let brx = if self.bottom_right.x <= other.bottom_right.x {
            self.bottom_right.x
        } else {
            other.bottom_right.x
        };
        let bry = if self.bottom_right.y <= other.bottom_right.y {
            self.bottom_right.y
        } else {
            other.bottom_right.y
        };
        let result = Rectangle {
            top_left: Vector2::new(tlx, tly),
            bottom_right: Vector2::new(brx, bry),
        };
        if result.is_positive_area() {
            Some(result)
        } else {
            None
        }
    }
}

impl Rectangle<i32> {
    /// Returns a `Vector2` containing the width and height of the
    /// rectangle.
    pub fn size(&self) -> (s: Vector2<i32>)
        requires
            self.spec_top_left().x <= self.spec_bottom_right().x,
            self.spec_top_left().y <= self.spec_bottom_right().y,
            self.spec_bottom_right().x - self.spec_top_left().x <= i32::MAX,
            self.spec_bottom_right().y - self.spec_top_left().y <= i32::MAX,
        ensures
            s.x == self.spec_bottom_right().x - self.spec_top_left().x,
            s.y == self.spec_bottom_right().y - self.spec_top_left().y,
    {
        Vector2::new(self.width(), self.height())
    }

    /// Returns a new rectangle whose vertices are offset relative to the
    /// current rectangle by the specified amount.
    pub fn with_offset(&self, offset: Vector2<i32>) -> (r: Self)
        requires
            i32::MIN <= self.spec_top_left().x + offset.x <= i32::MAX,
            i32::MIN <= self.spec_top_left().y + offset.y <= i32::MAX,
            i32::MIN <= self.spec_bottom_right().x + offset.x <= i32::MAX,
            i32::MIN <= self.spec_bottom_right().y + offset.y <= i32::MAX,
        ensures
            r.spec_top_left().x == self.spec_top_left().x + offset.x,
            r.spec_top_left().y == self.spec_top_left().y + offset.y,
            r.spec_bottom_right().x == self.spec_bottom_right().x + offset.x,
            r.spec_bottom_right().y == self.spec_bottom_right().y + offset.y,
    {
        Rectangle {
            top_left: Vector2::new(self.top_left.x + offset.x, self.top_left.y + offset.y),
            bottom_right: Vector2::new(
                self.bottom_right.x + offset.x,
                self.bottom_right.y + offset.y,
            ),
        }
    }

    /// Returns a new rectangle whose vertices are negatively offset
    /// relative to the current rectangle by the specified amount.
    pub fn with_negative_offset(&self, offset: Vector2<i32>) -> (r: Self)
        requires
            i32::MIN <= self.spec_top_left().x - offset.x <= i32::MAX,
            i32::MIN <= self.spec_top_left().y - offset.y <= i32::MAX,
            i32::MIN <= self.spec_bottom_right().x - offset.x <= i32::MAX,
            i32::MIN <= self.spec_bottom_right().y - offset.y <= i32::MAX,
        ensures
            r.spec_top_left().x == self.spec_top_left().x - offset.x,
            r.spec_top_left().y == self.spec_top_left().y - offset.y,
            r.spec_bottom_right().x == self.spec_bottom_right().x - offset.x,
            r.spec_bottom_right().y == self.spec_bottom_right().y - offset.y,
    {
        Rectangle {
            top_left: Vector2::new(self.top_left.x - offset.x, self.top_left.y - offset.y),
            bottom_right: Vector2::new(
                self.bottom_right.x - offset.x,
                self.bottom_right.y - offset.y,
            ),
        }
    }
}

/// A struct representing an axis-aligned rounded rectangle: a rectangle
/// plus the radius of its rounded corners.
#[derive(Debug, PartialEq, Eq, Clone)]
pub struct RoundedRectangle<T> {
    rect: Rectangle<T>,
    radius: T,
}

impl<T> RoundedRectangle<T> {
    /// The enclosing rectangle.
    pub closed spec fn spec_rect(self) -> Rectangle<T> {
        self.rect
    }

    /// The corner radius.
    pub closed spec fn spec_radius(self) -> T {
        self.radius
    }

    /// Constructs a new `RoundedRectangle`. The top left vertex must be
    /// above and to the left of the bottom right vertex; the radius should
    /// be at most half the width and height.
    pub fn new(top_left: Vector2<T>, bottom_right: Vector2<T>, radius: T) -> (r: Self)
        ensures
            r.spec_rect().spec_top_left() == top_left,
            r.spec_rect().spec_bottom_right() == bottom_right,
            r.spec_radius() == radius,
    {
        RoundedRectangle { rect: Rectangle::new(top_left, bottom_right), radius }
    }

    /// Constructs a new `RoundedRectangle` from coordinate pairs.
    pub fn from_tuples(top_left: (T, T), bottom_right: (T, T), radius: T) -> (r: Self)
        ensures
            r.spec_rect().spec_top_left() == (Vector2 { x: top_left.0, y: top_left.1 }),
            r.spec_rect().spec_bottom_right()
                == (Vector2 { x: bottom_right.0, y: bottom_right.1 }),
            r.spec_radius() == radius,
    {
        RoundedRectangle { rect: Rectangle::from_tuples(top_left, bottom_right), radius }
    }

    /// Constructs a new `RoundedRectangle` from a `Rectangle` and a radius.
    pub fn from_rectangle(rect: Rectangle<T>, radius: T) -> (r: Self)
        ensures
            r.spec_rect() == rect,
            r.spec_radius() == radius,
    {
        RoundedRectangle { rect, radius }
    }

    /// Returns a reference to the top left vertex.
    pub fn top_left(&self) -> (v: &Vector2<T>)
        ensures
            *v == self.spec_rect().spec_top_left(),
    {
        self.rect.top_left()
    }

    /// Returns a reference to the bottom right vertex.
    pub fn bottom_right(&self) -> (v: &Vector2<T>)
        ensures
            *v == self.spec_rect().spec_bottom_right(),
    {
        self.rect.bottom_right()
    }

    /// Returns a reference to the rectangle that encloses this rounded
    /// rectangle.
    pub fn as_rectangle(&self) -> (r: &Rectangle<T>)
        ensures
            *r == self.spec_rect(),
    {
        &self.rect
    }
}

impl<T: Copy> RoundedRectangle<T> {
    /// Returns a vector representing the top right vertex.
    pub fn top_right(&self) -> (v: Vector2<T>)
        ensures
            v == (Vector2 {
                x: self.spec_rect().spec_bottom_right().x,
                y: self.spec_rect().spec_top_left().y,
            }),
    {
        self.rect.top_right()
    }

    /// Returns a vector representing the bottom left vertex.
    pub fn bottom_left(&self) -> (v: Vector2<T>)
        ensures
            v == (Vector2 {
                x: self.spec_rect().spec_top_left().x,
                y: self.spec_rect().spec_bottom_right().y,
            }),
    {
        self.rect.bottom_left()
    }

    /// Returns the radius of the rounded corners.
    pub fn radius(&self) -> (v: T)
        ensures
            v == self.spec_radius(),
    {
        self.radius
    }

    /// Returns the x value of the left border.
    pub fn left(&self) -> (v: T)
        ensures
            v == self.spec_rect().spec_top_left().x,
    {
        self.rect.left()
    }

    /// Returns the x value of the right border.
    pub fn right(&self) -> (v: T)
        ensures
            v == self.spec_rect().spec_bottom_right().x,
    {
        self.rect.right()
    }

    /// Returns the y value of the top border.
    pub fn top(&self) -> (v: T)
        ensures
            v == self.spec_rect().spec_top_left().y,
    {
        self.rect.top()
    }

    /// Returns the y value of the bottom border.
    pub fn bottom(&self) -> (v: T)
        ensures
            v == self.spec_rect().spec_bottom_right().y,
    {
        self.rect.bottom()
    }
}

impl RoundedRectangle<i32> {
    /// Returns the width of the rounded rectangle.
    pub fn width(&self) -> (w: i32)
        requires
            self.spec_rect().spec_top_left().x <= self.spec_rect().spec_bottom_right().x,
            self.spec_rect().spec_bottom_right().x - self.spec_rect().spec_top_left().x
                <= i32::MAX,
        ensures
            w == self.spec_rect().spec_bottom_right().x - self.spec_rect().spec_top_left().x,
    {
        self.rect.width()
    }

    /// Returns the height of the rounded rectangle.
    pub fn height(&self) -> (h: i32)
        requires
            self.spec_rect().spec_top_left().y <= self.spec_rect().spec_bottom_right().y,
            self.spec_rect().spec_bottom_right().y - self.spec_rect().spec_top_left().y
                <= i32::MAX,
        ensures
            h == self.spec_rect().spec_bottom_right().y - self.spec_rect().spec_top_left().y,
    {
        self.rect.height()
    }

    /// Returns a `Vector2` containing the width and height of the rounded
    /// rectangle.
    pub fn size(&self) -> (s: Vector2<i32>)
        requires
            self.spec_rect().spec_top_left().x <= self.spec_rect().spec_bottom_right().x,
            self.spec_rect().spec_top_left().y <= self.spec_rect().spec_bottom_right().y,
            self.spec_rect().spec_bottom_right().x - self.spec_rect().spec_top_left().x
                <= i32::MAX,
            self.spec_rect().spec_bottom_right().y - self.spec_rect().spec_top_left().y
                <= i32::MAX,
        ensures
            s.x == self.spec_rect().spec_bottom_right().x - self.spec_rect().spec_top_left().x,
            s.y == self.spec_rect().spec_bottom_right().y - self.spec_rect().spec_top_left().y,
    {
        self.rect.size()
    }

    /// Returns `true` if the rectangle containing this rounded rectangle
    /// has zero area; the radius is not taken into account.
    pub fn is_zero_area(&self) -> (r: bool)
        ensures
            r == (self.spec_rect().spec_top_left().x == self.spec_rect().spec_bottom_right().x
                || self.spec_rect().spec_top_left().y
                    == self.spec_rect().spec_bottom_right().y),
    {
        self.rect.is_zero_area()
    }

    /// Returns `true` if the rectangle containing this rounded rectangle
    /// has positive area; the radius is not taken into account.
    pub fn is_positive_area(&self) -> (r: bool)
        ensures
            r == self.spec_rect().spec_positive_area_i(),
    {
        self.rect.is_positive_area()
    }

    /// Returns a new rounded rectangle whose vertices are offset relative
    /// to the current one by the specified amount.
    pub fn with_offset(&self, offset: Vector2<i32>) -> (r: Self)
        requires
            i32::MIN <= self.spec_rect().spec_top_left().x + offset.x <= i32::MAX,
            i32::MIN <= self.spec_rect().spec_top_left().y + offset.y <= i32::MAX,
            i32::MIN <= self.spec_rect().spec_bottom_right().x + offset.x <= i32::MAX,
            i32::MIN <= self.spec_rect().spec_bottom_right().y + offset.y <= i32::MAX,
        ensures
            r.spec_rect().spec_top_left().x == self.spec_rect().spec_top_left().x + offset.x,
            r.spec_rect().spec_top_left().y == self.spec_rect().spec_top_left().y + offset.y,
            r.spec_rect().spec_bottom_right().x
                == self.spec_rect().spec_bottom_right().x + offset.x,
            r.spec_rect().spec_bottom_right().y
                == self.spec_rect().spec_bottom_right().y + offset.y,
            r.spec_radius() == self.spec_radius(),
    {
        RoundedRectangle { rect: self.rect.with_offset(offset), radius: self.radius }
    }

    /// Returns a new rounded rectangle whose vertices are negatively
    /// offset relative to the current one by the specified amount.
    pub fn with_negative_offset(&self, offset: Vector2<i32>) -> (r: Self)
        requires
            i32::MIN <= self.spec_rect().spec_top_left().x - offset.x <= i32::MAX,
            i32::MIN <= self.spec_rect().spec_top_left().y - offset.y <= i32::MAX,
            i32::MIN <= self.spec_rect().spec_bottom_right().x - offset.x <= i32::MAX,
            i32::MIN <= self.spec_rect().spec_bottom_right().y - offset.y <= i32::MAX,
        ensures
            r.spec_rect().spec_top_left().x == self.spec_rect().spec_top_left().x - offset.x,
            r.spec_rect().spec_top_left().y == self.spec_rect().spec_top_left().y - offset.y,
            r.spec_rect().spec_bottom_right().x
                == self.spec_rect().spec_bottom_right().x - offset.x,
            r.spec_rect().spec_bottom_right().y
                == self.spec_rect().spec_bottom_right().y - offset.y,
            r.spec_radius() == self.spec_radius(),
    {
        RoundedRectangle { rect: self.rect.with_negative_offset(offset), radius: self.radius }
    }

    /// The inner rectangle: the enclosing rectangle shrunk by the radius on
    /// every side. Points inside it are inside the rounded rectangle
    /// regardless of the corner arcs.
    pub fn inner(&self) -> (r: Rectangle<i32>)
        requires
            i32::MIN <= self.spec_rect().spec_top_left().x + self.spec_radius() <= i32::MAX,
            i32::MIN <= self.spec_rect().spec_top_left().y + self.spec_radius() <= i32::MAX,
            i32::MIN <= self.spec_rect().spec_bottom_right().x - self.spec_radius() <= i32::MAX,
            i32::MIN <= self.spec_rect().spec_bottom_right().y - self.spec_radius() <= i32::MAX,
        ensures
            r.spec_top_left().x == self.spec_rect().spec_top_left().x + self.spec_radius(),
            r.spec_top_left().y == self.spec_rect().spec_top_left().y + self.spec_radius(),
            r.spec_bottom_right().x
                == self.spec_rect().spec_bottom_right().x - self.spec_radius(),
            r.spec_bottom_right().y
                == self.spec_rect().spec_bottom_right().y - self.spec_radius(),
    {
        Rectangle::new(
            Vector2::new(self.rect.top_left.x + self.radius, self.rect.top_left.y + self.radius),
            Vector2::new(
                self.rect.bottom_right.x - self.radius,
                self.rect.bottom_right.y - self.radius,
            ),
        )
    }

    /// The point lies inside the rounded rectangle: inside the enclosing
    /// rectangle, and — in the corner regions — within the corner radius of
    /// the inner rectangle's matching corner. Inclusive everywhere, in
    /// contrast to `Rectangle::contains`.
    pub open spec fn spec_contains_rounded(self, point: Vector2<i32>) -> bool {
        let tl = self.spec_rect().spec_top_left();
        let br = self.spec_rect().spec_bottom_right();
        let rad = self.spec_radius() as int;
        let ilx = tl.x + rad;
        let ily = tl.y + rad;
        let irx = br.x - rad;
        let iry = br.y - rad;
        let dx = if ilx - point.x >= point.x - irx {
            if ilx - point.x >= 0 { ilx - point.x } else { 0 }
        } else {
            if point.x - irx >= 0 { point.x - irx } else { 0 }
        };
        let dy = if ily - point.y >= point.y - iry {
            if ily - point.y >= 0 { ily - point.y } else { 0 }
        } else {
            if point.y - iry >= 0 { point.y - iry } else { 0 }
        };
        &&& self.spec_rect().spec_contains_i(point)
        &&& dx * dx + dy * dy <= rad * rad
    }

    /// Returns true if the specified point is inside this rounded
    /// rectangle.
    pub fn contains(&self, point: Vector2<i32>) -> (r: bool)
        requires
            0 <= self.spec_radius(),
            -0x8000 <= self.spec_rect().spec_top_left().x <= 0x8000,
            -0x8000 <= self.spec_rect().spec_top_left().y <= 0x8000,
            -0x8000 <= self.spec_rect().spec_bottom_right().x <= 0x8000,
            -0x8000 <= self.spec_rect().spec_bottom_right().y <= 0x8000,
            self.spec_radius() <= 0x8000,
            -0x8000 <= point.x <= 0x8000,
            -0x8000 <= point.y <= 0x8000,
        ensures
            r == self.spec_contains_rounded(point),
    {
        if !self.rect.contains(point) {
            return false;
        }
        let ilx = self.rect.top_left.x + self.radius;
        let ily = self.rect.top_left.y + self.radius;
        let irx = self.rect.bottom_right.x - self.radius;
        let iry = self.rect.bottom_right.y - self.radius;

        let dx_left = ilx - point.x;
        let dx_right = point.x - irx;
        let dx_raw = if dx_left >= dx_right {
            dx_left
        } else {
            dx_right
        };
        let dx: i32 = if dx_raw >= 0 {
            dx_raw
        } else {
            0
        };

        let dy_top = ily - point.y;
        let dy_bottom = point.y - iry;
        let dy_raw = if dy_top >= dy_bottom {
            dy_top
        } else {
            dy_bottom
        };
        let dy: i32 = if dy_raw >= 0 {
            dy_raw
        } else {
            0
        };

        let dx64 = dx as i64;
        let dy64 = dy as i64;
        let rad64 = self.radius as i64;
        proof {
            assert(dx64 * dx64 <= 0x40000 * 0x40000) by (nonlinear_arith)
                requires
                    0 <= dx64 <= 0x40000,
            {}
            assert(dy64 * dy64 <= 0x40000 * 0x40000) by (nonlinear_arith)
                requires
                    0 <= dy64 <= 0x40000,
            {}
            assert(rad64 * rad64 <= 0x40000 * 0x40000) by (nonlinear_arith)
                requires
                    0 <= rad64 <= 0x40000,
            {}
        }
        dx64 * dx64 + dy64 * dy64 <= rad64 * rad64
    }
}

} // verus!
