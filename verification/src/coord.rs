use vstd::prelude::*;

verus! {

/// Integer pixel coordinate `(x, y)`.
#[derive(Clone, Copy, Debug, PartialEq, Eq, Structural)]
pub struct Coord(pub i32, pub i32);

/// Quotient of `a` by `b` rounded towards zero, for `b != 0`.
///
/// The operator `/` of specifications rounds downwards for a positive
/// divisor and upwards for a negative one, so the quotient of the
/// magnitudes is taken and the sign put back.
pub open spec fn trunc_div(a: int, b: int) -> int {
    if a >= 0 {
        a / b
    } else {
        -((-a) / b)
    }
}

/// Whether `v` can be held in an `i32`.
pub open spec fn fits_i32(v: int) -> bool {
    i32::MIN <= v <= i32::MAX
}

/// The quotient of a non-negative `a` lies between `-a` and `a`.
proof fn lemma_quotient_bounds(a: int, b: int)
    requires
        a >= 0,
        b != 0,
    ensures
        -a <= a / b <= a,
{
    if b > 0 {
        assert(0 <= a / b <= a) by (nonlinear_arith)
            requires
                a >= 0,
                b > 0,
        ;
    } else {
        assert(-a <= a / b <= 0) by (nonlinear_arith)
            requires
                a >= 0,
                b < 0,
        ;
    }
}

/// Quotient of two `i32` values, rounded towards zero.
fn quotient(a: i32, b: i32) -> (q: i32)
    requires
        b != 0,
        !(a == i32::MIN && b == -1),
    ensures
        q == trunc_div(a as int, b as int),
{
    proof {
        if a >= 0 {
            lemma_quotient_bounds(a as int, b as int);
        } else {
            lemma_quotient_bounds(-(a as int), b as int);
            if b < -1 {
                assert((-(a as int)) / (b as int) > (a as int)) by (nonlinear_arith)
                    requires
                        a < 0,
                        b < -1,
                ;
            }
        }
    }
    a / b
}

impl Coord {
    /// Componentwise sum.
    pub fn add(&self, rhs: Self) -> (r: Self)
        requires
            fits_i32(self.0 + rhs.0),
            fits_i32(self.1 + rhs.1),
        ensures
            r.0 == self.0 + rhs.0,
            r.1 == self.1 + rhs.1,
    {
        Coord(self.0 + rhs.0, self.1 + rhs.1)
    }

    /// Componentwise difference.
    pub fn sub(&self, rhs: Self) -> (r: Self)
        requires
            fits_i32(self.0 - rhs.0),
            fits_i32(self.1 - rhs.1),
        ensures
            r.0 == self.0 - rhs.0,
            r.1 == self.1 - rhs.1,
    {
        Coord(self.0 - rhs.0, self.1 - rhs.1)
    }

    /// Scales the two components by `x` and `y`.
    pub fn emul(&self, x: i32, y: i32) -> (r: Self)
        requires
            fits_i32(self.0 * x),
            fits_i32(self.1 * y),
        ensures
            r.0 == self.0 * x,
            r.1 == self.1 * y,
    {
        Coord(self.0 * x, self.1 * y)
    }

    /// Scales both components by `rhs`.
    pub fn mul(&self, rhs: i32) -> (r: Self)
        requires
            fits_i32(self.0 * rhs),
            fits_i32(self.1 * rhs),
        ensures
            r.0 == self.0 * rhs,
            r.1 == self.1 * rhs,
    {
        self.emul(rhs, rhs)
    }

    /// Componentwise quotient, rounded towards zero.
    pub fn ediv(&self, rhs: Self) -> (r: Self)
        requires
            rhs.0 != 0,
            rhs.1 != 0,
            !(self.0 == i32::MIN && rhs.0 == -1),
            !(self.1 == i32::MIN && rhs.1 == -1),
        ensures
            r.0 == trunc_div(self.0 as int, rhs.0 as int),
            r.1 == trunc_div(self.1 as int, rhs.1 as int),
    {
        Coord(quotient(self.0, rhs.0), quotient(self.1, rhs.1))
    }

    /// Quotient of both components by `rhs`, rounded towards zero.
    pub fn div(&self, rhs: i32) -> (r: Self)
        requires
            rhs != 0,
            !(self.0 == i32::MIN && rhs == -1),
            !(self.1 == i32::MIN && rhs == -1),
        ensures
            r.0 == trunc_div(self.0 as int, rhs as int),
            r.1 == trunc_div(self.1 as int, rhs as int),
    {
        self.ediv(Coord(rhs, rhs))
    }

    /// Whether the point lies in the half-open rectangle that starts at
    /// `top_left` and ends before `bottom_right`.
    pub open spec fn contained(self, top_left: Self, bottom_right: Self) -> bool {
        &&& top_left.0 <= self.0 < bottom_right.0
        &&& top_left.1 <= self.1 < bottom_right.1
    }

    /// Half-open containment test: `top_left <= self < bottom_right` in
    /// both components.
    pub fn is_contained(&self, top_left: Self, bottom_right: Self) -> (r: bool)
        ensures
            r == self.contained(top_left, bottom_right),
    {
        top_left.0 <= self.0 && self.0 < bottom_right.0 && top_left.1 <= self.1
            && self.1 < bottom_right.1
    }
}

impl From<(i32, i32)> for Coord {
    fn from(value: (i32, i32)) -> (r: Self) {
        Coord(value.0, value.1)
    }
}

impl vstd::std_specs::convert::FromSpecImpl<(i32, i32)> for Coord {
    open spec fn obeys_from_spec() -> bool {
        true
    }

    open spec fn from_spec(v: (i32, i32)) -> Self {
        Coord(v.0, v.1)
    }
}

impl From<Coord> for (i32, i32) {
    fn from(value: Coord) -> (r: Self) {
        (value.0, value.1)
    }
}

impl vstd::std_specs::convert::FromSpecImpl<Coord> for (i32, i32) {
    open spec fn obeys_from_spec() -> bool {
        true
    }

    open spec fn from_spec(v: Coord) -> Self {
        (v.0, v.1)
    }
}

} // verus!
