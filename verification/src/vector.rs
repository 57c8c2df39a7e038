use vstd::prelude::*;

use crate::fx::{
    abs_i, fits_i64, fx_div_v, fx_mul_v, fx_sqrt, fx_sqrt_v, lemma_mul_bound, lemma_tdiv_shrinks,
    Fx, COORD_LIMIT, SCALE,
};

verus! {

/// A point or free vector with three fixed-point components; also used for a
/// colour, one channel per component.
#[derive(Clone, Copy, PartialEq, Eq, Structural, Debug)]
pub struct Vector {
    pub x: Fx,
    pub y: Fx,
    pub z: Fx,
}

/// A point in space is the same value type as a free vector.
pub type Point = Vector;

/// Every component's raw magnitude is within the world coordinate bound.
pub open spec fn in_range(v: Vector) -> bool {
    &&& abs_i(v.x@) <= COORD_LIMIT
    &&& abs_i(v.y@) <= COORD_LIMIT
    &&& abs_i(v.z@) <= COORD_LIMIT
}

/// Twice the world coordinate bound: the room a difference of two in-range
/// points needs.
pub open spec fn in_range2(v: Vector) -> bool {
    &&& abs_i(v.x@) <= 2 * (COORD_LIMIT as int)
    &&& abs_i(v.y@) <= 2 * (COORD_LIMIT as int)
    &&& abs_i(v.z@) <= 2 * (COORD_LIMIT as int)
}

/// Runtime test for `in_range`.
pub fn check_in_range(v: Vector) -> (r: bool)
    ensures
        r == in_range(v),
{
    -COORD_LIMIT <= v.x.raw && v.x.raw <= COORD_LIMIT && -COORD_LIMIT <= v.y.raw && v.y.raw
        <= COORD_LIMIT && -COORD_LIMIT <= v.z.raw && v.z.raw <= COORD_LIMIT
}

/// Runtime test for `in_range2`.
pub fn check_in_range2(v: Vector) -> (r: bool)
    ensures
        r == in_range2(v),
{
    -0x4000000 <= v.x.raw && v.x.raw <= 0x4000000 && -0x4000000 <= v.y.raw && v.y.raw
        <= 0x4000000 && -0x4000000 <= v.z.raw && v.z.raw <= 0x4000000
}

/// Raw value of a fixed-point dot product: each pairwise product is scaled
/// back down before the three terms are summed.
pub open spec fn dot_v(a: Vector, b: Vector) -> int {
    fx_mul_v(a.x@, b.x@) + fx_mul_v(a.y@, b.y@) + fx_mul_v(a.z@, b.z@)
}

/// Raw squared magnitude of a vector.
pub open spec fn mag2_v(v: Vector) -> int {
    dot_v(v, v)
}

/// The vector `add` returns.
pub open spec fn vadd_v(a: Vector, b: Vector) -> Vector {
    Vector {
        x: Fx { raw: (a.x@ + b.x@) as i64 },
        y: Fx { raw: (a.y@ + b.y@) as i64 },
        z: Fx { raw: (a.z@ + b.z@) as i64 },
    }
}

/// The vector `sub` returns.
pub open spec fn vsub_v(a: Vector, b: Vector) -> Vector {
    Vector {
        x: Fx { raw: (a.x@ - b.x@) as i64 },
        y: Fx { raw: (a.y@ - b.y@) as i64 },
        z: Fx { raw: (a.z@ - b.z@) as i64 },
    }
}

/// The vector `neg` returns.
pub open spec fn vneg_v(a: Vector) -> Vector {
    Vector {
        x: Fx { raw: (-a.x@) as i64 },
        y: Fx { raw: (-a.y@) as i64 },
        z: Fx { raw: (-a.z@) as i64 },
    }
}

/// The vector `scale` returns, for a raw scalar value.
pub open spec fn vscale_v(a: Vector, s: int) -> Vector {
    Vector {
        x: Fx { raw: fx_mul_v(a.x@, s) as i64 },
        y: Fx { raw: fx_mul_v(a.y@, s) as i64 },
        z: Fx { raw: fx_mul_v(a.z@, s) as i64 },
    }
}

/// The vector `div_scalar` returns, for a raw scalar value.
pub open spec fn vdiv_v(a: Vector, s: int) -> Vector {
    Vector {
        x: Fx { raw: fx_div_v(a.x@, s) as i64 },
        y: Fx { raw: fx_div_v(a.y@, s) as i64 },
        z: Fx { raw: fx_div_v(a.z@, s) as i64 },
    }
}

/// The vector `cross` returns.
pub open spec fn cross_v(a: Vector, b: Vector) -> Vector {
    Vector {
        x: Fx { raw: (fx_mul_v(a.y@, b.z@) - fx_mul_v(a.z@, b.y@)) as i64 },
        y: Fx { raw: (fx_mul_v(a.z@, b.x@) - fx_mul_v(a.x@, b.z@)) as i64 },
        z: Fx { raw: (fx_mul_v(a.x@, b.y@) - fx_mul_v(a.y@, b.x@)) as i64 },
    }
}

/// The vector `normalize` returns: each component divided by the rounded
/// square root of the squared magnitude.
pub open spec fn unit_of(v: Vector) -> Vector {
    Vector {
        x: Fx { raw: fx_div_v(v.x@, fx_sqrt_v(mag2_v(v))) as i64 },
        y: Fx { raw: fx_div_v(v.y@, fx_sqrt_v(mag2_v(v))) as i64 },
        z: Fx { raw: fx_div_v(v.z@, fx_sqrt_v(mag2_v(v))) as i64 },
    }
}

impl Vector {
    pub fn new(x: Fx, y: Fx, z: Fx) -> (r: Vector)
        ensures
            r.x == x && r.y == y && r.z == z,
    {
        Vector { x, y, z }
    }

    pub fn add(self, other: Vector) -> (r: Vector)
        requires
            fits_i64(self.x@ + other.x@),
            fits_i64(self.y@ + other.y@),
            fits_i64(self.z@ + other.z@),
        ensures
            r.x@ == self.x@ + other.x@,
            r.y@ == self.y@ + other.y@,
            r.z@ == self.z@ + other.z@,
            r == vadd_v(self, other),
    {
        Vector { x: self.x.add(other.x), y: self.y.add(other.y), z: self.z.add(other.z) }
    }

    pub fn sub(self, other: Vector) -> (r: Vector)
        requires
            fits_i64(self.x@ - other.x@),
            fits_i64(self.y@ - other.y@),
            fits_i64(self.z@ - other.z@),
        ensures
            r.x@ == self.x@ - other.x@,
            r.y@ == self.y@ - other.y@,
            r.z@ == self.z@ - other.z@,
            r == vsub_v(self, other),
    {
        Vector { x: self.x.sub(other.x), y: self.y.sub(other.y), z: self.z.sub(other.z) }
    }

    pub fn neg(self) -> (r: Vector)
        requires
            fits_i64(-self.x@),
            fits_i64(-self.y@),
            fits_i64(-self.z@),
        ensures
            r.x@ == -self.x@,
            r.y@ == -self.y@,
            r.z@ == -self.z@,
            r == vneg_v(self),
    {
        Vector { x: self.x.neg(), y: self.y.neg(), z: self.z.neg() }
    }

    pub fn scale(self, s: Fx) -> (r: Vector)
        requires
            fits_i64(fx_mul_v(self.x@, s@)),
            fits_i64(fx_mul_v(self.y@, s@)),
            fits_i64(fx_mul_v(self.z@, s@)),
        ensures
            r.x@ == fx_mul_v(self.x@, s@),
            r.y@ == fx_mul_v(self.y@, s@),
            r.z@ == fx_mul_v(self.z@, s@),
            r == vscale_v(self, s@),
    {
        Vector { x: self.x.mul(s), y: self.y.mul(s), z: self.z.mul(s) }
    }

    pub fn div_scalar(self, s: Fx) -> (r: Vector)
        requires
            s@ != 0,
            fits_i64(fx_div_v(self.x@, s@)),
            fits_i64(fx_div_v(self.y@, s@)),
            fits_i64(fx_div_v(self.z@, s@)),
        ensures
            r.x@ == fx_div_v(self.x@, s@),
            r.y@ == fx_div_v(self.y@, s@),
            r.z@ == fx_div_v(self.z@, s@),
            r == vdiv_v(self, s@),
    {
        Vector { x: self.x.div(s), y: self.y.div(s), z: self.z.div(s) }
    }

    pub fn mul_element_wise(self, other: Vector) -> (r: Vector)
        requires
            fits_i64(fx_mul_v(self.x@, other.x@)),
            fits_i64(fx_mul_v(self.y@, other.y@)),
            fits_i64(fx_mul_v(self.z@, other.z@)),
        ensures
            r.x@ == fx_mul_v(self.x@, other.x@),
            r.y@ == fx_mul_v(self.y@, other.y@),
            r.z@ == fx_mul_v(self.z@, other.z@),
    {
        Vector { x: self.x.mul(other.x), y: self.y.mul(other.y), z: self.z.mul(other.z) }
    }

    pub fn cross(self, other: Vector) -> (r: Vector)
        requires
            in_range2(self),
            in_range2(other),
        ensures
            r.x@ == fx_mul_v(self.y@, other.z@) - fx_mul_v(self.z@, other.y@),
            r.y@ == fx_mul_v(self.z@, other.x@) - fx_mul_v(self.x@, other.z@),
            r.z@ == fx_mul_v(self.x@, other.y@) - fx_mul_v(self.y@, other.x@),
            r == cross_v(self, other),
    {
        proof {
            lemma_fx_mul_bound(self.y@, other.z@, 0x4000000, 0x4000000);
            lemma_fx_mul_bound(self.z@, other.y@, 0x4000000, 0x4000000);
            lemma_fx_mul_bound(self.z@, other.x@, 0x4000000, 0x4000000);
            lemma_fx_mul_bound(self.x@, other.z@, 0x4000000, 0x4000000);
            lemma_fx_mul_bound(self.x@, other.y@, 0x4000000, 0x4000000);
            lemma_fx_mul_bound(self.y@, other.x@, 0x4000000, 0x4000000);
        }
        Vector {
            x: self.y.mul(other.z).sub(self.z.mul(other.y)),
            y: self.z.mul(other.x).sub(self.x.mul(other.z)),
            z: self.x.mul(other.y).sub(self.y.mul(other.x)),
        }
    }

    pub fn magnitude2(self) -> (r: Fx)
        requires
            in_range2(self),
        ensures
            r@ == mag2_v(self),
            0 <= r@ <= 0x3000000000,
    {
        proof {
            lemma_mag2_bounds(self);
        }
        self.x.mul(self.x).add(self.y.mul(self.y)).add(self.z.mul(self.z))
    }

    pub fn magnitude(self) -> (r: Fx)
        requires
            in_range2(self),
        ensures
            r@ == fx_sqrt_v(mag2_v(self)),
            0 <= r@,
            r@ * r@ <= mag2_v(self) * (SCALE as int),
            mag2_v(self) * (SCALE as int) < (r@ + 1) * (r@ + 1),
    {
        proof {
            lemma_mag2_bounds(self);
        }
        fx_sqrt(self.magnitude2())
    }

    pub fn normalize(self) -> (r: Vector)
        requires
            in_range2(self),
            mag2_v(self) >= 1,
        ensures
            r.x@ == fx_div_v(self.x@, fx_sqrt_v(mag2_v(self))),
            r.y@ == fx_div_v(self.y@, fx_sqrt_v(mag2_v(self))),
            r.z@ == fx_div_v(self.z@, fx_sqrt_v(mag2_v(self))),
            abs_i(r.x@) <= 2 * (SCALE as int),
            abs_i(r.y@) <= 2 * (SCALE as int),
            abs_i(r.z@) <= 2 * (SCALE as int),
            r == unit_of(self),
            !(r.x@ == 0 && r.y@ == 0 && r.z@ == 0),
    {
        proof {
            lemma_normalize_bounds(self);
            lemma_normalize_nonzero(self);
        }
        let m = self.magnitude();
        self.div_scalar(m)
    }
}

pub fn dot(a: Vector, b: Vector) -> (r: Fx)
    requires
        in_range2(a),
        in_range2(b),
    ensures
        r@ == dot_v(a, b),
        abs_i(r@) <= 0x3000000000,
{
    proof {
        lemma_pair_products_fit(a, b);
    }
    a.x.mul(b.x).add(a.y.mul(b.y)).add(a.z.mul(b.z))
}

/// Each scaled pairwise product of two vectors within twice the coordinate
/// bound fits comfortably in 64 bits: `(2 * COORD_LIMIT)^2 / SCALE == 2^36`.
pub proof fn lemma_pair_products_fit(a: Vector, b: Vector)
    requires
        in_range2(a),
        in_range2(b),
    ensures
        abs_i(fx_mul_v(a.x@, b.x@)) <= 0x1000000000,
        abs_i(fx_mul_v(a.y@, b.y@)) <= 0x1000000000,
        abs_i(fx_mul_v(a.z@, b.z@)) <= 0x1000000000,
{
    lemma_fx_mul_bound(a.x@, b.x@, 0x4000000, 0x4000000);
    lemma_fx_mul_bound(a.y@, b.y@, 0x4000000, 0x4000000);
    lemma_fx_mul_bound(a.z@, b.z@, 0x4000000, 0x4000000);
}

/// A scaled product of bounded factors is bounded by the scaled product of
/// the bounds.
pub proof fn lemma_fx_mul_bound(a: int, b: int, ba: int, bb: int)
    requires
        abs_i(a) <= ba,
        abs_i(b) <= bb,
    ensures
        abs_i(fx_mul_v(a, b)) <= (ba * bb) / (SCALE as int),
{
    lemma_mul_bound(a, b, ba, bb);
    lemma_tdiv_shrinks(a * b, SCALE as int);
    vstd::arithmetic::div_mod::lemma_div_is_ordered(abs_i(a * b), ba * bb, SCALE as int);
}

/// The squared magnitude of a vector within twice the coordinate bound is
/// nonnegative and at most `3 * (2 * COORD_LIMIT)^2 / SCALE`.
pub proof fn lemma_mag2_bounds(v: Vector)
    requires
        in_range2(v),
    ensures
        0 <= mag2_v(v) <= 0x3000000000,
        0 <= fx_mul_v(v.x@, v.x@) <= 0x1000000000,
        0 <= fx_mul_v(v.y@, v.y@) <= 0x1000000000,
        0 <= fx_mul_v(v.z@, v.z@) <= 0x1000000000,
{
    lemma_pair_products_fit(v, v);
    lemma_fx_square_nonneg(v.x@);
    lemma_fx_square_nonneg(v.y@);
    lemma_fx_square_nonneg(v.z@);
}

/// A scaled square is never negative.
pub proof fn lemma_fx_square_nonneg(a: int)
    ensures
        fx_mul_v(a, a) >= 0,
{
    assert(a * a >= 0) by (nonlinear_arith);
    lemma_tdiv_shrinks(a * a, SCALE as int);
}

/// One component of a vector divided by the rounded square root of the
/// vector's squared magnitude is at most two units: the core bound behind
/// normalization producing a near-unit vector.
pub proof fn lemma_normalize_component(x: int, m2: int)
    requires
        1 <= m2,
        0 <= fx_mul_v(x, x) <= m2,
    ensures
        fx_sqrt_v(m2) >= 256,
        abs_i(fx_div_v(x, fx_sqrt_v(m2))) <= 2 * (SCALE as int),
        fits_i64(fx_div_v(x, fx_sqrt_v(m2))),
{
    let s = SCALE as int;
    let ms = m2 * s;
    assert(m2 * s >= s) by (nonlinear_arith)
        requires
            m2 >= 1,
            s == 65536,
    ;
    crate::fx::lemma_sqrt_floor_bounds(ms);
    let m = crate::fx::sqrt_floor(ms);
    assert(m >= 256) by (nonlinear_arith)
        requires
            (m + 1) * (m + 1) > 65536,
            m >= 0,
    ;
    assert(x * x >= 0) by (nonlinear_arith);
    assert(fx_mul_v(x, x) == (x * x) / s);
    vstd::arithmetic::div_mod::lemma_fundamental_div_mod(x * x, s);
    vstd::arithmetic::div_mod::lemma_mod_division_less_than_divisor(x * x, s);
    assert(x * x < s * m2 + s) by (nonlinear_arith)
        requires
            x * x == s * ((x * x) / s) + (x * x) % s,
            (x * x) % s < s,
            (x * x) / s <= m2,
            s == 65536,
    ;
    assert(x * x < (m + 1) * (m + 1) + s);
    assert((m + 130) * (m + 130) >= (m + 1) * (m + 1) + s) by (nonlinear_arith)
        requires
            m >= 256,
            s == 65536,
    ;
    assert(abs_i(x) <= m + 130) by (nonlinear_arith)
        requires
            x * x < (m + 130) * (m + 130),
            m >= 0,
    ;
    lemma_mul_bound(x, s, m + 130, s);
    lemma_tdiv_shrinks(x * s, m);
    vstd::arithmetic::div_mod::lemma_div_is_ordered(abs_i(x * s), (m + 130) * s, m);
    assert((m + 130) * s <= m * (2 * s)) by (nonlinear_arith)
        requires
            m >= 256,
            s == 65536,
    ;
    vstd::arithmetic::div_mod::lemma_multiply_divide_le((m + 130) * s, m, 2 * s);
}

/// A rounded quotient by a positive divisor is zero exactly when the
/// dividend's magnitude is below the divisor.
proof fn lemma_tdiv_zero_iff_small(p: int, q: int)
    requires
        q >= 1,
    ensures
        (crate::fx::tdiv(p, q) == 0) == (abs_i(p) < q),
{
    lemma_tdiv_shrinks(p, q);
    if abs_i(p) < q {
        vstd::arithmetic::div_mod::lemma_basic_div(abs_i(p), q);
    } else {
        vstd::arithmetic::div_mod::lemma_div_is_ordered(q, abs_i(p), q);
        vstd::arithmetic::div_mod::lemma_div_by_self(q);
    }
}

/// A vector whose squared magnitude is at least one raw unit does not
/// normalize to the zero vector: some component survives the division.
pub proof fn lemma_normalize_nonzero(v: Vector)
    requires
        in_range2(v),
        mag2_v(v) >= 1,
    ensures
        !(fx_div_v(v.x@, fx_sqrt_v(mag2_v(v))) == 0 && fx_div_v(v.y@, fx_sqrt_v(mag2_v(v)))
            == 0 && fx_div_v(v.z@, fx_sqrt_v(mag2_v(v))) == 0),
{
    let s = SCALE as int;
    let m2 = mag2_v(v);
    lemma_mag2_bounds(v);
    lemma_fx_square_nonneg(v.x@);
    lemma_fx_square_nonneg(v.y@);
    lemma_fx_square_nonneg(v.z@);
    lemma_normalize_component(v.x@, m2);
    let m = crate::fx::sqrt_floor(m2 * s);
    crate::fx::lemma_sqrt_floor_bounds(m2 * s);
    lemma_tdiv_zero_iff_small(v.x@ * s, m);
    lemma_tdiv_zero_iff_small(v.y@ * s, m);
    lemma_tdiv_zero_iff_small(v.z@ * s, m);
    if fx_div_v(v.x@, m) == 0 && fx_div_v(v.y@, m) == 0 && fx_div_v(v.z@, m) == 0 {
        assert(abs_i(v.x@ * s) < m && abs_i(v.y@ * s) < m && abs_i(v.z@ * s) < m);
        assert(abs_i(v.x@ * s) == abs_i(v.x@) * s) by (nonlinear_arith)
            requires
                s == 65536,
        ;
        assert(abs_i(v.y@ * s) == abs_i(v.y@) * s) by (nonlinear_arith)
            requires
                s == 65536,
        ;
        assert(abs_i(v.z@ * s) == abs_i(v.z@) * s) by (nonlinear_arith)
            requires
                s == 65536,
        ;
        // each squared component is then below (m / s)^2, so the squared
        // magnitude cannot reach one raw unit
        assert(v.x@ * v.x@ * (s * s) < m * m) by (nonlinear_arith)
            requires
                abs_i(v.x@) * s < m,
                s >= 1,
        ;
        assert(v.y@ * v.y@ * (s * s) < m * m) by (nonlinear_arith)
            requires
                abs_i(v.y@) * s < m,
                s >= 1,
        ;
        assert(v.z@ * v.z@ * (s * s) < m * m) by (nonlinear_arith)
            requires
                abs_i(v.z@) * s < m,
                s >= 1,
        ;
        // floor division back up: m2 * s <= sum of squared components
        vstd::arithmetic::div_mod::lemma_fundamental_div_mod(v.x@ * v.x@, s);
        vstd::arithmetic::div_mod::lemma_mod_division_less_than_divisor(v.x@ * v.x@, s);
        vstd::arithmetic::div_mod::lemma_fundamental_div_mod(v.y@ * v.y@, s);
        vstd::arithmetic::div_mod::lemma_mod_division_less_than_divisor(v.y@ * v.y@, s);
        vstd::arithmetic::div_mod::lemma_fundamental_div_mod(v.z@ * v.z@, s);
        vstd::arithmetic::div_mod::lemma_mod_division_less_than_divisor(v.z@ * v.z@, s);
        assert(fx_mul_v(v.x@, v.x@) == (v.x@ * v.x@) / s) by {
            assert(v.x@ * v.x@ >= 0) by (nonlinear_arith);
        }
        assert(fx_mul_v(v.y@, v.y@) == (v.y@ * v.y@) / s) by {
            assert(v.y@ * v.y@ >= 0) by (nonlinear_arith);
        }
        assert(fx_mul_v(v.z@, v.z@) == (v.z@ * v.z@) / s) by {
            assert(v.z@ * v.z@ >= 0) by (nonlinear_arith);
        }
        assert(m2 * s <= v.x@ * v.x@ + v.y@ * v.y@ + v.z@ * v.z@) by (nonlinear_arith)
            requires
                m2 == (v.x@ * v.x@) / s + (v.y@ * v.y@) / s + (v.z@ * v.z@) / s,
                v.x@ * v.x@ == s * ((v.x@ * v.x@) / s) + (v.x@ * v.x@) % s,
                v.y@ * v.y@ == s * ((v.y@ * v.y@) / s) + (v.y@ * v.y@) % s,
                v.z@ * v.z@ == s * ((v.z@ * v.z@) / s) + (v.z@ * v.z@) % s,
                (v.x@ * v.x@) % s >= 0,
                (v.y@ * v.y@) % s >= 0,
                (v.z@ * v.z@) % s >= 0,
                s == 65536,
        ;
        // combine: m^2 * s^2 <= (sum of squares) * s^2 < 3 m^2, absurd
        assert(false) by (nonlinear_arith)
            requires
                m * m <= m2 * s,
                m2 * s <= v.x@ * v.x@ + v.y@ * v.y@ + v.z@ * v.z@,
                v.x@ * v.x@ * (s * s) < m * m,
                v.y@ * v.y@ * (s * s) < m * m,
                v.z@ * v.z@ * (s * s) < m * m,
                m >= 256,
                s == 65536,
        ;
    }
}

/// Magnitudes, quotients and the near-unit bound for every component of a
/// normalized vector.
pub proof fn lemma_normalize_bounds(v: Vector)
    requires
        in_range2(v),
        mag2_v(v) >= 1,
    ensures
        fx_sqrt_v(mag2_v(v)) >= 256,
        abs_i(fx_div_v(v.x@, fx_sqrt_v(mag2_v(v)))) <= 2 * (SCALE as int),
        abs_i(fx_div_v(v.y@, fx_sqrt_v(mag2_v(v)))) <= 2 * (SCALE as int),
        abs_i(fx_div_v(v.z@, fx_sqrt_v(mag2_v(v)))) <= 2 * (SCALE as int),
        fits_i64(fx_div_v(v.x@, fx_sqrt_v(mag2_v(v)))),
        fits_i64(fx_div_v(v.y@, fx_sqrt_v(mag2_v(v)))),
        fits_i64(fx_div_v(v.z@, fx_sqrt_v(mag2_v(v)))),
{
    lemma_mag2_bounds(v);
    lemma_fx_square_nonneg(v.x@);
    lemma_fx_square_nonneg(v.y@);
    lemma_fx_square_nonneg(v.z@);
    lemma_normalize_component(v.x@, mag2_v(v));
    lemma_normalize_component(v.y@, mag2_v(v));
    lemma_normalize_component(v.z@, mag2_v(v));
}

} // verus!
