//! Integer points and sizes on the screen.
use vstd::prelude::*;

verus! {

/// A pair of integers: a position or a size in pixels.
#[derive(Clone, Copy, PartialEq, Eq, Structural, Debug)]
pub struct Point(pub i32, pub i32);

/// Whether a value lies in the range of `i32`.
pub open spec fn fits_i32(v: int) -> bool {
    i32::MIN <= v <= i32::MAX
}

/// `p` lies in the half-open rectangle whose corner is `position` and whose
/// extent is `size`.
pub open spec fn inside(p: Point, position: Point, size: Point) -> bool {
    &&& p.0 >= position.0
    &&& p.1 >= position.1
    &&& p.0 < position.0 + size.0
    &&& p.1 < position.1 + size.1
}

/// The additions that `is_inside` evaluates stay in range: it evaluates the
/// right edge only once the left and top edges hold, and the bottom edge only
/// once the right edge holds too.
pub open spec fn is_inside_defined(p: Point, position: Point, size: Point) -> bool {
    &&& (p.0 >= position.0 && p.1 >= position.1) ==> fits_i32(position.0 + size.0)
    &&& (p.0 >= position.0 && p.1 >= position.1 && p.0 < position.0 + size.0) ==> fits_i32(
        position.1 + size.1,
    )
}

/// Component-wise sum.
pub open spec fn point_add(a: Point, b: Point) -> Point {
    Point((a.0 + b.0) as i32, (a.1 + b.1) as i32)
}

/// Component-wise difference.
pub open spec fn point_sub(a: Point, b: Point) -> Point {
    Point((a.0 - b.0) as i32, (a.1 - b.1) as i32)
}

/// Component-wise product.
pub open spec fn point_mul(a: Point, b: Point) -> Point {
    Point((a.0 * b.0) as i32, (a.1 * b.1) as i32)
}

/// The component-wise sum of `a` and `b` is representable.
pub open spec fn add_fits(a: Point, b: Point) -> bool {
    fits_i32(a.0 + b.0) && fits_i32(a.1 + b.1)
}

/// The component-wise difference of `a` and `b` is representable.
pub open spec fn sub_fits(a: Point, b: Point) -> bool {
    fits_i32(a.0 - b.0) && fits_i32(a.1 - b.1)
}

/// The component-wise product of `a` and `b` is representable.
pub open spec fn mul_fits(a: Point, b: Point) -> bool {
    fits_i32(a.0 * b.0) && fits_i32(a.1 * b.1)
}

impl Point {
    /// Whether the point lies inside the rectangle `(position, size)`.
    pub fn is_inside(&self, rect: (Self, Self)) -> (r: bool)
        requires
            is_inside_defined(*self, rect.0, rect.1),
        ensures
            r == inside(*self, rect.0, rect.1),
    {
        let (position, size) = rect;
        self.0 >= position.0 && self.1 >= position.1 && self.0 < position.0 + size.0 && self.1
            < position.1 + size.1
    }

    /// Adds `rhs` to this point in place.
    pub fn add_assign(&mut self, rhs: Self)
        requires
            add_fits(*old(self), rhs),
        ensures
            *final(self) == point_add(*old(self), rhs),
    {
        self.0 = self.0 + rhs.0;
        self.1 = self.1 + rhs.1;
    }

    /// Subtracts `rhs` from this point in place.
    pub fn sub_assign(&mut self, rhs: Self)
        requires
            sub_fits(*old(self), rhs),
        ensures
            *final(self) == point_sub(*old(self), rhs),
    {
        self.0 = self.0 - rhs.0;
        self.1 = self.1 - rhs.1;
    }

    /// Multiplies this point by `rhs` component-wise, in place.
    pub fn mul_assign(&mut self, rhs: Self)
        requires
            mul_fits(*old(self), rhs),
        ensures
            *final(self) == point_mul(*old(self), rhs),
    {
        self.0 = self.0 * rhs.0;
        self.1 = self.1 * rhs.1;
    }
}

impl Default for Point {
    fn default() -> (r: Self)
        ensures
            r == Point(0, 0),
    {
        Point(0, 0)
    }
}

impl std::ops::Add for Point {
    type Output = Self;

    fn add(self, rhs: Self) -> (r: Self) {
        Point(self.0 + rhs.0, self.1 + rhs.1)
    }
}

impl vstd::std_specs::ops::AddSpecImpl for Point {
    open spec fn obeys_add_spec() -> bool {
        true
    }

    open spec fn add_req(self, rhs: Self) -> bool {
        add_fits(self, rhs)
    }

    open spec fn add_spec(self, rhs: Self) -> Self {
        point_add(self, rhs)
    }
}

impl std::ops::Sub for Point {
    type Output = Self;

    fn sub(self, rhs: Self) -> (r: Self) {
        Point(self.0 - rhs.0, self.1 - rhs.1)
    }
}

impl vstd::std_specs::ops::SubSpecImpl for Point {
    open spec fn obeys_sub_spec() -> bool {
        true
    }

    open spec fn sub_req(self, rhs: Self) -> bool {
        sub_fits(self, rhs)
    }

    open spec fn sub_spec(self, rhs: Self) -> Self {
        point_sub(self, rhs)
    }
}

impl std::ops::Mul for Point {
    type Output = Self;

    fn mul(self, rhs: Self) -> (r: Self) {
        Point(self.0 * rhs.0, self.1 * rhs.1)
    }
}

impl vstd::std_specs::ops::MulSpecImpl for Point {
    open spec fn obeys_mul_spec() -> bool {
        true
    }

    open spec fn mul_req(self, rhs: Self) -> bool {
        mul_fits(self, rhs)
    }

    open spec fn mul_spec(self, rhs: Self) -> Self {
        point_mul(self, rhs)
    }
}

/// Moving a point and a rectangle by the same offset does not change whether
/// the point lies inside the rectangle.
pub proof fn lemma_inside_translate(p: Point, position: Point, size: Point, offset: Point)
    requires
        sub_fits(p, offset),
        sub_fits(position, offset),
    ensures
        inside(p, position, size) == inside(
            point_sub(p, offset),
            point_sub(position, offset),
            size,
        ),
{
}

/// A rectangle with a size that is not positive in either direction contains
/// no point.
pub proof fn lemma_inside_empty(p: Point, position: Point, size: Point)
    requires
        size.0 <= 0 || size.1 <= 0,
    ensures
        !inside(p, position, size),
{
}

/// A rectangle contains its own corner exactly when its size is positive.
pub proof fn lemma_inside_corner(position: Point, size: Point)
    ensures
        inside(position, position, size) <==> (size.0 > 0 && size.1 > 0),
{
}

} // verus!
