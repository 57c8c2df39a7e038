use vstd::prelude::*;

verus! {

/// Number of raw units per 1.0 of value: every scalar in this crate is a
/// fixed-point number whose value is `raw / SCALE`.
pub const SCALE: i64 = 65536;

/// Largest raw magnitude allowed for a world coordinate, a radius or a colour
/// channel (a value of 512.0).  Keeping coordinates under this bound lets the
/// intersection arithmetic fit in 64 bits after every scaling step.
pub const COORD_LIMIT: i64 = 33554432;

/// Largest raw magnitude allowed for a ray parameter bound (a value of
/// 524288.0); stands in for an unbounded upper limit when intersecting.
pub const T_LIMIT: i64 = 34359738368;

/// Magnitude of an integer.
pub open spec fn abs_i(x: int) -> int {
    if x >= 0 {
        x
    } else {
        -x
    }
}

/// Quotient of `p / q` rounded toward zero, the rounding used by every scaled
/// multiplication and division in this crate.
pub open spec fn tdiv(p: int, q: int) -> int
    recommends
        q > 0,
{
    if p >= 0 {
        p / q
    } else {
        -((-p) / q)
    }
}

/// Raw result of multiplying two fixed-point raw values: `a * b` carries a
/// factor of `SCALE * SCALE`, so one factor of `SCALE` is divided back out.
pub open spec fn fx_mul_v(a: int, b: int) -> int {
    tdiv(a * b, SCALE as int)
}

/// Raw result of dividing two fixed-point raw values.
pub open spec fn fx_div_v(a: int, b: int) -> int
    recommends
        b != 0,
{
    if b >= 0 {
        tdiv(a * (SCALE as int), b)
    } else {
        tdiv(-(a * (SCALE as int)), -b)
    }
}

pub open spec fn fits_i64(x: int) -> bool {
    i64::MIN <= x <= i64::MAX
}

/// A fixed-point scalar: the value represented is `raw / SCALE`.
#[derive(Clone, Copy, PartialEq, Eq, Structural, Debug)]
pub struct Fx {
    pub raw: i64,
}

impl Fx {
    pub open spec fn view(self) -> int {
        self.raw as int
    }

    pub fn new(raw: i64) -> (r: Fx)
        ensures
            r@ == raw as int,
    {
        Fx { raw }
    }

    pub fn zero() -> (r: Fx)
        ensures
            r@ == 0,
    {
        Fx { raw: 0 }
    }

    pub fn one() -> (r: Fx)
        ensures
            r@ == SCALE as int,
    {
        Fx { raw: SCALE }
    }

    pub fn add(self, other: Fx) -> (r: Fx)
        requires
            fits_i64(self@ + other@),
        ensures
            r@ == self@ + other@,
    {
        Fx { raw: self.raw + other.raw }
    }

    pub fn sub(self, other: Fx) -> (r: Fx)
        requires
            fits_i64(self@ - other@),
        ensures
            r@ == self@ - other@,
    {
        Fx { raw: self.raw - other.raw }
    }

    pub fn neg(self) -> (r: Fx)
        requires
            fits_i64(-self@),
        ensures
            r@ == -self@,
    {
        Fx { raw: -self.raw }
    }

    pub fn mul(self, other: Fx) -> (r: Fx)
        requires
            fits_i64(fx_mul_v(self@, other@)),
        ensures
            r@ == fx_mul_v(self@, other@),
    {
        proof {
            lemma_mul_bound(
                self.raw as int,
                other.raw as int,
                0x8000000000000000,
                0x8000000000000000,
            );
        }
        let p: i128 = (self.raw as i128) * (other.raw as i128);
        let q: i128 = tdiv_i128(p, SCALE as i128);
        Fx { raw: q as i64 }
    }

    pub fn div(self, other: Fx) -> (r: Fx)
        requires
            other@ != 0,
            fits_i64(fx_div_v(self@, other@)),
        ensures
            r@ == fx_div_v(self@, other@),
    {
        let scaled: i128 = (self.raw as i128) * (SCALE as i128);
        let q: i128 = if other.raw >= 0 {
            tdiv_i128(scaled, other.raw as i128)
        } else {
            tdiv_i128(-scaled, -(other.raw as i128))
        };
        Fx { raw: q as i64 }
    }

    /// The whole units of the value, rounded toward zero.
    pub fn trunc(self) -> (r: i64)
        ensures
            r as int == tdiv(self@, SCALE as int),
    {
        let q: i128 = tdiv_i128(self.raw as i128, SCALE as i128);
        q as i64
    }

    /// The fixed-point value of a whole number of units.
    pub fn from_int(n: i64) -> (r: Fx)
        requires
            -0x10000000000 <= n <= 0x10000000000,
        ensures
            r@ == n * (SCALE as int),
    {
        Fx { raw: n * SCALE }
    }

    pub fn lt(self, other: Fx) -> (r: bool)
        ensures
            r == (self@ < other@),
    {
        self.raw < other.raw
    }

    pub fn le(self, other: Fx) -> (r: bool)
        ensures
            r == (self@ <= other@),
    {
        self.raw <= other.raw
    }
}

/// Quotient of two 128-bit integers rounded toward zero, computed through
/// unsigned division on the magnitudes.
pub fn tdiv_i128(p: i128, q: i128) -> (r: i128)
    requires
        q > 0,
        p > i128::MIN,
    ensures
        r == tdiv(p as int, q as int),
        abs_i(r as int) <= abs_i(p as int),
{
    proof {
        lemma_tdiv_shrinks(p as int, q as int);
    }
    if p >= 0 {
        let m: u128 = (p as u128) / (q as u128);
        m as i128
    } else {
        let m: u128 = ((-p) as u128) / (q as u128);
        proof {
            assert(((-p) as u128) as int == -(p as int));
            assert((((-p) as u128) / (q as u128)) as int == (-(p as int)) / (q as int));
        }
        -(m as i128)
    }
}

/// Division by a positive number never grows a magnitude, and the magnitude
/// of a rounded-toward-zero quotient is the rounded-down quotient of the
/// magnitudes.
pub proof fn lemma_tdiv_shrinks(p: int, q: int)
    requires
        q >= 1,
    ensures
        abs_i(tdiv(p, q)) == abs_i(p) / q,
        abs_i(tdiv(p, q)) <= abs_i(p),
        p >= 0 ==> 0 <= tdiv(p, q) <= p,
        p <= 0 ==> p <= tdiv(p, q) <= 0,
{
    if p >= 0 {
        assert(0 <= p / q <= p) by (nonlinear_arith)
            requires
                p >= 0,
                q >= 1,
        ;
    } else {
        assert(0 <= (-p) / q <= -p) by (nonlinear_arith)
            requires
                -p >= 0,
                q >= 1,
        ;
    }
}

/// Dividing a product by one of its factors is exact.
pub proof fn lemma_tdiv_of_multiple(a: int, q: int)
    requires
        q >= 1,
    ensures
        tdiv(a * q, q) == a,
{
    if a >= 0 {
        vstd::arithmetic::div_mod::lemma_div_by_multiple(a, q);
    } else {
        vstd::arithmetic::div_mod::lemma_div_by_multiple(-a, q);
        assert(-(a * q) == (-a) * q) by (nonlinear_arith);
    }
}

/// Where the divisor divides evenly, the rounded quotient recovers the
/// dividend when multiplied back.
pub proof fn lemma_tdiv_exact(p: int, q: int)
    requires
        q >= 1,
        p % q == 0,
    ensures
        q * tdiv(p, q) == p,
{
    if p >= 0 {
        vstd::arithmetic::div_mod::lemma_fundamental_div_mod(p, q);
    } else {
        assert((-p) % q == 0) by (nonlinear_arith)
            requires
                p % q == 0,
                q >= 1,
        ;
        vstd::arithmetic::div_mod::lemma_fundamental_div_mod(-p, q);
        assert(q * tdiv(p, q) == p) by (nonlinear_arith)
            requires
                tdiv(p, q) == -((-p) / q),
                -p == q * ((-p) / q) + (-p) % q,
                (-p) % q == 0,
        ;
    }
}

/// Product bound: magnitudes at most `ba` and `bb` multiply to at most
/// `ba * bb`.
pub proof fn lemma_mul_bound(a: int, b: int, ba: int, bb: int)
    by (nonlinear_arith)
    requires
        abs_i(a) <= ba,
        abs_i(b) <= bb,
    ensures
        abs_i(a * b) <= ba * bb,
{
}

/// Floor of the square root of a nonnegative integer.
pub open spec fn sqrt_floor(x: int) -> int
    decreases x,
{
    if x < 1 {
        0
    } else {
        let s = sqrt_floor(x - 1);
        if (s + 1) * (s + 1) <= x {
            s + 1
        } else {
            s
        }
    }
}

/// `sqrt_floor` is the integer square root: it squares to at most its
/// argument, and one more squares to more.
pub proof fn lemma_sqrt_floor_bounds(x: int)
    requires
        x >= 0,
    ensures
        0 <= sqrt_floor(x),
        sqrt_floor(x) * sqrt_floor(x) <= x,
        x < (sqrt_floor(x) + 1) * (sqrt_floor(x) + 1),
    decreases x,
{
    if x < 1 {
    } else {
        lemma_sqrt_floor_bounds(x - 1);
        let s = sqrt_floor(x - 1);
        if (s + 1) * (s + 1) <= x {
            assert(x - 1 < (s + 1) * (s + 1));
            assert(x < (s + 2) * (s + 2)) by (nonlinear_arith)
                requires
                    x - 1 < (s + 1) * (s + 1),
                    s >= 0,
            ;
        }
    }
}

/// Any integer bracketed the way `sqrt_floor(x)` is must equal it.
pub proof fn lemma_sqrt_floor_unique(x: int, r: int)
    requires
        x >= 0,
        r >= 0,
        r * r <= x,
        x < (r + 1) * (r + 1),
    ensures
        r == sqrt_floor(x),
{
    lemma_sqrt_floor_bounds(x);
    let s = sqrt_floor(x);
    if r < s {
        assert((r + 1) * (r + 1) <= s * s) by (nonlinear_arith)
            requires
                0 <= r,
                r < s,
        ;
    }
    if s < r {
        assert((s + 1) * (s + 1) <= r * r) by (nonlinear_arith)
            requires
                0 <= s,
                s < r,
        ;
    }
}

/// Raw result of the fixed-point square root: the value of the result is the
/// rounded-down square root of the value of the argument.
pub open spec fn fx_sqrt_v(x: int) -> int {
    sqrt_floor(x * (SCALE as int))
}

/// Integer square root of an unsigned number below `2^120`, by bisection.
pub fn isqrt_u128(x: u128) -> (r: u128)
    requires
        x < 0x1000000000000000000000000000000,
    ensures
        r * r <= x,
        x < (r + 1) * (r + 1),
{
    let mut lo: u128 = 0;
    let mut hi: u128 = 0x1000000000000001;
    proof {
        assert(hi * hi > x) by (nonlinear_arith)
            requires
                hi == 0x1000000000000001,
                x < 0x1000000000000000000000000000000,
        ;
    }
    while lo + 1 < hi
        invariant
            lo < hi,
            hi <= 0x1000000000000001,
            lo * lo <= x,
            x < hi * hi,
        decreases hi - lo,
    {
        let mid: u128 = lo + (hi - lo) / 2;
        proof {
            assert(mid * mid < 0x100000000000000000000000000000000) by (nonlinear_arith)
                requires
                    mid <= 0x1000000000000001,
            ;
        }
        if mid * mid <= x {
            lo = mid;
        } else {
            hi = mid;
        }
    }
    lo
}

/// Fixed-point square root, rounding down.
pub fn fx_sqrt(x: Fx) -> (r: Fx)
    requires
        x@ >= 0,
    ensures
        r@ == fx_sqrt_v(x@),
        r@ >= 0,
        r@ * r@ <= x@ * (SCALE as int),
        x@ * (SCALE as int) < (r@ + 1) * (r@ + 1),
{
    let wide: u128 = (x.raw as u128) * (SCALE as u128);
    proof {
        let a: int = (x.raw as u128) as int;
        let b: int = (SCALE as u128) as int;
        assert(wide == a * b);
        assert(a * b < 0x80000000000000000000) by (nonlinear_arith)
            requires
                0 <= a < 0x8000000000000000,
                b == 0x10000,
        ;
    }
    let root: u128 = isqrt_u128(wide);
    proof {
        assert(root < 0x10000000000) by (nonlinear_arith)
            requires
                root * root <= wide,
                wide < 0x80000000000000000000,
        ;
        lemma_sqrt_floor_unique(wide as int, root as int);
    }
    Fx { raw: root as i64 }
}

} // verus!
