//! Fixed-point vector arithmetic.
//!
//! Coordinates are integers with [`SCALE`] units per world unit. The
//! tolerance used for approximate vertex equality ([`TOLERANCE`]) and the
//! coordinate range accepted by the mesh engine ([`MAX_COORD`]) are expressed
//! in the same units, so every geometric computation is exact.

use vstd::prelude::*;

verus! {

/// Fixed-point units per world unit.
pub const SCALE: i64 = 1000;

/// Two coordinates closer than this (strictly) are considered equal.
pub const TOLERANCE: i64 = 10;

/// Largest coordinate magnitude the mesh engine accepts.
pub const MAX_COORD: i64 = 100_000_000;

/// Absolute value of a mathematical integer.
pub open spec fn abs_int(a: int) -> int {
    if a < 0 {
        -a
    } else {
        a
    }
}

/// Integer square root, defined by counting up: the unique `r` with
/// `r * r <= n < (r + 1) * (r + 1)`.
pub open spec fn isqrt_spec(n: nat) -> nat
    decreases n,
{
    if n == 0 {
        0
    } else {
        let r = isqrt_spec((n - 1) as nat);
        if (r + 1) * (r + 1) <= n {
            r + 1
        } else {
            r
        }
    }
}

pub proof fn lemma_isqrt_bounds(n: nat)
    ensures
        isqrt_spec(n) * isqrt_spec(n) <= n,
        n < (isqrt_spec(n) + 1) * (isqrt_spec(n) + 1),
    decreases n,
{
    let q = isqrt_spec(n);
    if n == 0 {
        assert(q == 0);
        assert(n < (q + 1) * (q + 1)) by (nonlinear_arith)
            requires
                n == 0,
                q == 0,
        ;
    } else {
        lemma_isqrt_bounds((n - 1) as nat);
        let r = isqrt_spec((n - 1) as nat);
        assert(r * r <= n - 1);
        assert(n - 1 < (r + 1) * (r + 1));
        if (r + 1) * (r + 1) <= n {
            assert(q == r + 1);
            assert(n <= (r + 1) * (r + 1));
            assert(n < (q + 1) * (q + 1)) by (nonlinear_arith)
                requires
                    q >= 0,
                    n <= q * q,
            ;
        } else {
            assert(q == r);
            assert(n < (q + 1) * (q + 1));
        }
    }
}

pub proof fn lemma_isqrt_unique(n: nat, r: nat)
    requires
        r * r <= n,
        n < (r + 1) * (r + 1),
    ensures
        r == isqrt_spec(n),
{
    lemma_isqrt_bounds(n);
    let s = isqrt_spec(n);
    if r < s {
        assert((r + 1) * (r + 1) <= s * s) by (nonlinear_arith)
            requires
                r + 1 <= s,
                r >= 0,
        ;
    } else if s < r {
        assert((s + 1) * (s + 1) <= r * r) by (nonlinear_arith)
            requires
                s + 1 <= r,
                s >= 0,
        ;
    }
}

/// Product magnitude bound used to discharge overflow obligations.
pub proof fn lemma_mul_bound(a: int, b: int, m: int, n: int)
    by (nonlinear_arith)
    requires
        abs_int(a) <= m,
        abs_int(b) <= n,
    ensures
        abs_int(a * b) <= m * n,
{
}

/// Executable integer square root by bisection.
pub fn isqrt(n: u128) -> (r: u64)
    ensures
        r as nat == isqrt_spec(n as nat),
{
    let mut lo: u128 = 0;
    let mut hi: u128 = 0x1_0000_0000_0000_0000;
    while lo + 1 < hi
        invariant
            lo < hi <= 0x1_0000_0000_0000_0000,
            lo * lo <= n,
            n < hi * hi,
        decreases hi - lo,
    {
        let mid = lo + (hi - lo) / 2;
        assert(mid * mid <= 0xffff_ffff_ffff_ffff * 0xffff_ffff_ffff_ffff) by (nonlinear_arith)
            requires
                0 <= mid <= 0xffff_ffff_ffff_ffff,
        ;
        if mid * mid <= n {
            lo = mid;
        } else {
            hi = mid;
        }
    }
    proof {
        lemma_isqrt_unique(n as nat, lo as nat);
    }
    lo as u64
}

/// A fixed-point 3D vector ([`SCALE`] units per world unit).
#[derive(Clone, Copy, Debug, PartialEq, Eq, Structural)]
pub struct Vec3i {
    pub x: i64,
    pub y: i64,
    pub z: i64,
}

/// A fixed-point 2D vector, used for texture coordinates.
#[derive(Clone, Copy, Debug, PartialEq, Eq, Structural)]
pub struct Vec2i {
    pub x: i64,
    pub y: i64,
}

/// Componentwise approximate equality: every coordinate pair differs by
/// strictly less than [`TOLERANCE`]. A difference of exactly the tolerance
/// keeps the two vectors distinct.
pub open spec fn spec_approx_eq(a: Vec3i, b: Vec3i) -> bool {
    &&& abs_int(a.x - b.x) < TOLERANCE
    &&& abs_int(a.y - b.y) < TOLERANCE
    &&& abs_int(a.z - b.z) < TOLERANCE
}

pub open spec fn spec_approx_eq2(a: Vec2i, b: Vec2i) -> bool {
    &&& abs_int(a.x - b.x) < TOLERANCE
    &&& abs_int(a.y - b.y) < TOLERANCE
}

/// Componentwise sum, as a value (meaningful when the sums fit in `i64`).
pub open spec fn spec_plus(a: Vec3i, b: Vec3i) -> Vec3i {
    Vec3i { x: (a.x + b.x) as i64, y: (a.y + b.y) as i64, z: (a.z + b.z) as i64 }
}

/// Componentwise difference, as a value (meaningful when the differences
/// fit in `i64`).
pub open spec fn spec_minus(a: Vec3i, b: Vec3i) -> Vec3i {
    Vec3i { x: (a.x - b.x) as i64, y: (a.y - b.y) as i64, z: (a.z - b.z) as i64 }
}

/// The tolerance rule at its boundary: vertices differing by exactly the
/// tolerance in some component stay distinct; vertices differing by less
/// than the tolerance in every component are merged.
pub proof fn lemma_tolerance_boundary(a: Vec3i, b: Vec3i)
    ensures
        abs_int(a.x - b.x) == TOLERANCE ==> !spec_approx_eq(a, b),
        abs_int(a.y - b.y) == TOLERANCE ==> !spec_approx_eq(a, b),
        abs_int(a.z - b.z) == TOLERANCE ==> !spec_approx_eq(a, b),
        (abs_int(a.x - b.x) < TOLERANCE && abs_int(a.y - b.y) < TOLERANCE && abs_int(a.z - b.z)
            < TOLERANCE) ==> spec_approx_eq(a, b),
{
}

impl Vec3i {
    pub open spec fn spec_in_bounds(self) -> bool {
        &&& abs_int(self.x as int) <= MAX_COORD
        &&& abs_int(self.y as int) <= MAX_COORD
        &&& abs_int(self.z as int) <= MAX_COORD
    }

    pub open spec fn spec_is_zero(self) -> bool {
        self.x == 0 && self.y == 0 && self.z == 0
    }

    pub fn new(x: i64, y: i64, z: i64) -> (r: Vec3i)
        ensures
            r == (Vec3i { x, y, z }),
    {
        Vec3i { x, y, z }
    }

    /// Componentwise sum.
    pub fn plus(self, o: Vec3i) -> (r: Vec3i)
        requires
            i64::MIN <= self.x + o.x <= i64::MAX,
            i64::MIN <= self.y + o.y <= i64::MAX,
            i64::MIN <= self.z + o.z <= i64::MAX,
        ensures
            r == spec_plus(self, o),
            r.x == self.x + o.x,
            r.y == self.y + o.y,
            r.z == self.z + o.z,
    {
        Vec3i { x: self.x + o.x, y: self.y + o.y, z: self.z + o.z }
    }

    /// Componentwise difference.
    pub fn minus(self, o: Vec3i) -> (r: Vec3i)
        requires
            i64::MIN <= self.x - o.x <= i64::MAX,
            i64::MIN <= self.y - o.y <= i64::MAX,
            i64::MIN <= self.z - o.z <= i64::MAX,
        ensures
            r == spec_minus(self, o),
            r.x == self.x - o.x,
            r.y == self.y - o.y,
            r.z == self.z - o.z,
    {
        Vec3i { x: self.x - o.x, y: self.y - o.y, z: self.z - o.z }
    }

    /// Approximate equality under [`TOLERANCE`].
    pub fn approx_eq(self, o: Vec3i) -> (r: bool)
        ensures
            r == spec_approx_eq(self, o),
    {
        let dx = self.x as i128 - o.x as i128;
        let dy = self.y as i128 - o.y as i128;
        let dz = self.z as i128 - o.z as i128;
        let t = TOLERANCE as i128;
        dx < t && -dx < t && dy < t && -dy < t && dz < t && -dz < t
    }
}

/// Largest coordinate magnitude accepted by [`Vec3i::cross`].
pub const CROSS_IN_MAX: i64 = 200_000_000;

/// Largest coordinate magnitude accepted by [`Vec3i::normalize`].
pub const NORM_IN_MAX: i64 = 100_000_000_000_000_000;

pub open spec fn spec_cross(a: Vec3i, b: Vec3i) -> Vec3i {
    Vec3i {
        x: (a.y * b.z - a.z * b.y) as i64,
        y: (a.z * b.x - a.x * b.z) as i64,
        z: (a.x * b.y - a.y * b.x) as i64,
    }
}

/// The squared length of `v`, as a mathematical integer.
pub open spec fn spec_mag_sq(v: Vec3i) -> int {
    v.x * v.x + v.y * v.y + v.z * v.z
}

/// The length of `v`, rounded down to an integer.
pub open spec fn spec_mag(v: Vec3i) -> int {
    isqrt_spec(spec_mag_sq(v) as nat) as int
}

/// One component of the normalized vector: `c` scaled to a length-`SCALE`
/// basis, with the quotient rounded towards zero.
pub open spec fn spec_norm_comp(c: int, m: int) -> int {
    if c >= 0 {
        (c * SCALE) / m
    } else {
        -(((-c) * SCALE) / m)
    }
}

/// The fixed-point unit vector in the direction of `v`.
pub open spec fn spec_normalize(v: Vec3i) -> Vec3i {
    let m = spec_mag(v);
    Vec3i {
        x: spec_norm_comp(v.x as int, m) as i64,
        y: spec_norm_comp(v.y as int, m) as i64,
        z: spec_norm_comp(v.z as int, m) as i64,
    }
}

/// `c` scaled by `num / den`, with the quotient rounded towards zero.
pub open spec fn spec_scale_frac(c: int, num: int, den: int) -> int {
    if c >= 0 {
        (c * num) / den
    } else {
        -(((-c) * num) / den)
    }
}

impl Vec3i {
    /// Cross product, exact in fixed-point units.
    pub fn cross(self, o: Vec3i) -> (r: Vec3i)
        requires
            abs_int(self.x as int) <= CROSS_IN_MAX,
            abs_int(self.y as int) <= CROSS_IN_MAX,
            abs_int(self.z as int) <= CROSS_IN_MAX,
            abs_int(o.x as int) <= CROSS_IN_MAX,
            abs_int(o.y as int) <= CROSS_IN_MAX,
            abs_int(o.z as int) <= CROSS_IN_MAX,
        ensures
            r == spec_cross(self, o),
            r.x == self.y * o.z - self.z * o.y,
            r.y == self.z * o.x - self.x * o.z,
            r.z == self.x * o.y - self.y * o.x,
            abs_int(r.x as int) <= 2 * CROSS_IN_MAX * CROSS_IN_MAX,
            abs_int(r.y as int) <= 2 * CROSS_IN_MAX * CROSS_IN_MAX,
            abs_int(r.z as int) <= 2 * CROSS_IN_MAX * CROSS_IN_MAX,
    {
        proof {
            lemma_mul_bound(self.x as int, o.y as int, CROSS_IN_MAX as int, CROSS_IN_MAX as int);
            lemma_mul_bound(self.x as int, o.z as int, CROSS_IN_MAX as int, CROSS_IN_MAX as int);
            lemma_mul_bound(self.y as int, o.x as int, CROSS_IN_MAX as int, CROSS_IN_MAX as int);
            lemma_mul_bound(self.y as int, o.z as int, CROSS_IN_MAX as int, CROSS_IN_MAX as int);
            lemma_mul_bound(self.z as int, o.x as int, CROSS_IN_MAX as int, CROSS_IN_MAX as int);
            lemma_mul_bound(self.z as int, o.y as int, CROSS_IN_MAX as int, CROSS_IN_MAX as int);
        }
        let x = (self.y as i128) * (o.z as i128) - (self.z as i128) * (o.y as i128);
        let y = (self.z as i128) * (o.x as i128) - (self.x as i128) * (o.z as i128);
        let z = (self.x as i128) * (o.y as i128) - (self.y as i128) * (o.x as i128);
        Vec3i { x: x as i64, y: y as i64, z: z as i64 }
    }

    /// Fixed-point normalization: the result has each component equal to the
    /// corresponding component of `self` times `SCALE`, divided by the
    /// rounded-down length of `self`, rounded towards zero.
    pub fn normalize(self) -> (r: Vec3i)
        requires
            abs_int(self.x as int) <= NORM_IN_MAX,
            abs_int(self.y as int) <= NORM_IN_MAX,
            abs_int(self.z as int) <= NORM_IN_MAX,
            !self.spec_is_zero(),
        ensures
            r == spec_normalize(self),
            abs_int(r.x as int) <= SCALE,
            abs_int(r.y as int) <= SCALE,
            abs_int(r.z as int) <= SCALE,
    {
        proof {
            lemma_mul_bound(self.x as int, self.x as int, NORM_IN_MAX as int, NORM_IN_MAX as int);
            lemma_mul_bound(self.y as int, self.y as int, NORM_IN_MAX as int, NORM_IN_MAX as int);
            lemma_mul_bound(self.z as int, self.z as int, NORM_IN_MAX as int, NORM_IN_MAX as int);
            lemma_square_nonneg(self.x as int);
            lemma_square_nonneg(self.y as int);
            lemma_square_nonneg(self.z as int);
        }
        let xx = (self.x as i128) * (self.x as i128);
        let yy = (self.y as i128) * (self.y as i128);
        let zz = (self.z as i128) * (self.z as i128);
        let m2 = xx + yy + zz;
        let m = isqrt(m2 as u128);
        proof {
            lemma_isqrt_bounds(m2 as nat);
            if m == 0 {
                let mn = m as nat;
                assert((m2 as nat) < (mn + 1) * (mn + 1));
                assert((mn + 1) * (mn + 1) == 1) by (nonlinear_arith)
                    requires
                        mn == 0,
                ;
                assert(m2 < 1);
                lemma_square_zero(self.x as int);
                lemma_square_zero(self.y as int);
                lemma_square_zero(self.z as int);
            }
            lemma_comp_le_mag(self.x as int, m2 as int, m as int);
            lemma_comp_le_mag(self.y as int, m2 as int, m as int);
            lemma_comp_le_mag(self.z as int, m2 as int, m as int);
        }
        let rx = norm_div(self.x, m);
        let ry = norm_div(self.y, m);
        let rz = norm_div(self.z, m);
        Vec3i { x: rx, y: ry, z: rz }
    }
}

proof fn lemma_square_nonneg(a: int)
    by (nonlinear_arith)
    ensures
        a * a >= 0,
{
}

proof fn lemma_square_zero(a: int)
    by (nonlinear_arith)
    requires
        a * a == 0,
    ensures
        a == 0,
{
}

/// If `c * c` is at most `m2` and `m` is the rounded-down square root of
/// `m2`, then `|c| <= m`.
proof fn lemma_comp_le_mag(c: int, m2: int, m: int)
    requires
        c * c <= m2,
        m >= 0,
        m2 < (m + 1) * (m + 1),
    ensures
        abs_int(c) <= m,
{
    if abs_int(c) > m {
        assert((m + 1) * (m + 1) <= c * c) by (nonlinear_arith)
            requires
                m + 1 <= abs_int(c),
                m >= 0,
        ;
    }
}

/// One component of a normalization: `c * SCALE / m`, rounded towards zero.
fn norm_div(c: i64, m: u64) -> (r: i64)
    requires
        m >= 1,
        abs_int(c as int) <= m,
    ensures
        r == spec_norm_comp(c as int, m as int),
        abs_int(r as int) <= SCALE,
{
    let a: u128 = if c >= 0 {
        c as u128
    } else {
        (-(c as i128)) as u128
    };
    let q: u128 = (a * (SCALE as u128)) / (m as u128);
    proof {
        assert(a * 1000 <= m * 1000) by (nonlinear_arith)
            requires
                0 <= a <= m,
        ;
        vstd::arithmetic::div_mod::lemma_div_is_ordered(
            (a * 1000) as int,
            (m as int) * 1000,
            m as int,
        );
        vstd::arithmetic::div_mod::lemma_div_multiples_vanish(1000, m as int);
    }
    if c >= 0 {
        q as i64
    } else {
        -(q as i64)
    }
}

/// `c` scaled by `num / den` with the quotient rounded towards zero;
/// used for fractional offsets such as the wall thickness.
pub fn scale_frac(c: i64, num: u64, den: u64) -> (r: i64)
    requires
        1 <= den,
        num <= den,
        den <= 1_000_000,
        abs_int(c as int) <= 1_000_000,
    ensures
        r == spec_scale_frac(c as int, num as int, den as int),
        abs_int(r as int) <= abs_int(c as int),
{
    let a: u128 = if c >= 0 {
        c as u128
    } else {
        (-(c as i128)) as u128
    };
    proof {
        lemma_mul_bound(a as int, num as int, 1_000_000, 1_000_000);
    }
    let q: u128 = (a * (num as u128)) / (den as u128);
    proof {
        assert(a * (num as int) <= a * (den as int)) by (nonlinear_arith)
            requires
                0 <= a,
                num <= den,
        ;
        vstd::arithmetic::div_mod::lemma_div_is_ordered(
            (a as int) * (num as int),
            (a as int) * (den as int),
            den as int,
        );
        vstd::arithmetic::div_mod::lemma_div_by_multiple(a as int, den as int);
    }
    if c >= 0 {
        q as i64
    } else {
        -(q as i64)
    }
}

pub fn approx_eq2(a: Vec2i, b: Vec2i) -> (r: bool)
    ensures
        r == spec_approx_eq2(a, b),
{
    let dx = a.x as i128 - b.x as i128;
    let dy = a.y as i128 - b.y as i128;
    let t = TOLERANCE as i128;
    dx < t && -dx < t && dy < t && -dy < t
}

} // verus!
