use vstd::prelude::*;

verus! {

/// A vector of three integer coordinates.
#[derive(Clone, Copy, Debug, PartialEq, Eq, Structural)]
pub struct Vec3 {
    pub x: i64,
    pub y: i64,
    pub z: i64,
}

/// `x` clamped into the range of `i64`.
pub open spec fn clamp(x: int) -> int {
    if x < i64::MIN {
        i64::MIN as int
    } else if x > i64::MAX {
        i64::MAX as int
    } else {
        x
    }
}

pub open spec fn sq(x: int) -> int {
    x * x
}

/// Squared euclidean distance between two points.
pub open spec fn dist_sq(a: Vec3, b: Vec3) -> int {
    sq(a.x - b.x) + sq(a.y - b.y) + sq(a.z - b.z)
}

/// Squared euclidean length of a vector.
pub open spec fn norm_sq(a: Vec3) -> int {
    sq(a.x as int) + sq(a.y as int) + sq(a.z as int)
}

/// `a + b * k`, coordinate by coordinate, each saturated to `i64`.
pub open spec fn add_scaled_spec(a: Vec3, b: Vec3, k: int) -> Vec3 {
    Vec3 {
        x: clamp(a.x + clamp(b.x * k)) as i64,
        y: clamp(a.y + clamp(b.y * k)) as i64,
        z: clamp(a.z + clamp(b.z * k)) as i64,
    }
}

/// `b * k`, coordinate by coordinate, each saturated to `i64`.
pub open spec fn scaled_spec(b: Vec3, k: int) -> Vec3 {
    Vec3 { x: clamp(b.x * k) as i64, y: clamp(b.y * k) as i64, z: clamp(b.z * k) as i64 }
}

impl Vec3 {
    pub fn zero() -> (r: Vec3)
        ensures
            r == (Vec3 { x: 0, y: 0, z: 0 }),
    {
        Vec3 { x: 0, y: 0, z: 0 }
    }

    pub fn new(x: i64, y: i64, z: i64) -> (r: Vec3)
        ensures
            r == (Vec3 { x, y, z }),
    {
        Vec3 { x, y, z }
    }

    /// `self + b * k`, saturating in each coordinate.
    pub fn add_scaled(&self, b: &Vec3, k: i64) -> (r: Vec3)
        ensures
            r == add_scaled_spec(*self, *b, k as int),
    {
        Vec3 {
            x: sat_add(self.x, sat_mul(b.x, k)),
            y: sat_add(self.y, sat_mul(b.y, k)),
            z: sat_add(self.z, sat_mul(b.z, k)),
        }
    }

    /// `self * k`, saturating in each coordinate.
    pub fn scaled(&self, k: i64) -> (r: Vec3)
        ensures
            r == scaled_spec(*self, k as int),
    {
        Vec3 { x: sat_mul(self.x, k), y: sat_mul(self.y, k), z: sat_mul(self.z, k) }
    }
}

/// Saturating addition on `i64`.
pub fn sat_add(a: i64, b: i64) -> (r: i64)
    ensures
        r == clamp(a + b),
{
    let s: i128 = a as i128 + b as i128;
    if s > i64::MAX as i128 {
        i64::MAX
    } else if s < i64::MIN as i128 {
        i64::MIN
    } else {
        s as i64
    }
}

/// Saturating multiplication on `i64`.
pub fn sat_mul(a: i64, b: i64) -> (r: i64)
    ensures
        r == clamp(a * b),
{
    let a2: i128 = a as i128;
    let b2: i128 = b as i128;
    proof {
        let ai = a as int;
        let bi = b as int;
        assert(-0x8000_0000_0000_0000 <= ai <= 0x7fff_ffff_ffff_ffff);
        assert(-0x8000_0000_0000_0000 <= bi <= 0x7fff_ffff_ffff_ffff);
        assert(-0x4000_0000_0000_0000_0000_0000_0000_0000 <= ai * bi
            <= 0x4000_0000_0000_0000_0000_0000_0000_0000) by (nonlinear_arith)
            requires
                -0x8000_0000_0000_0000 <= ai <= 0x7fff_ffff_ffff_ffff,
                -0x8000_0000_0000_0000 <= bi <= 0x7fff_ffff_ffff_ffff,
        ;
    }
    let p: i128 = a2 * b2;
    if p > i64::MAX as i128 {
        i64::MAX
    } else if p < i64::MIN as i128 {
        i64::MIN
    } else {
        p as i64
    }
}

/// Saturating subtraction on `i64`.
pub fn sat_sub(a: i64, b: i64) -> (r: i64)
    ensures
        r == clamp(a - b),
{
    let s: i128 = a as i128 - b as i128;
    if s > i64::MAX as i128 {
        i64::MAX
    } else if s < i64::MIN as i128 {
        i64::MIN
    } else {
        s as i64
    }
}

/// Absolute value of a coordinate difference, widened so that it cannot overflow.
fn abs_diff(a: i64, b: i64) -> (r: i128)
    ensures
        r >= 0,
        r == a - b || r == b - a,
        r * r == sq(a - b),
{
    let d: i128 = a as i128 - b as i128;
    let r: i128 = if d < 0 { -d } else { d };
    proof {
        let di = a - b;
        assert(r * r == di * di) by (nonlinear_arith)
            requires r == di || r == -di;
    }
    r
}

proof fn lemma_sq_monotone(a: int, b: int)
    requires
        0 <= b <= a,
    ensures
        sq(b) <= sq(a),
{
    assert(b * b <= a * a) by (nonlinear_arith)
        requires 0 <= b <= a;
}

/// Largest reach (nano-units) for which the distance tests square without overflow.
pub const MAX_REACH: u64 = 0x200_0000_0000;

/// Whether the distance between `a` and `b` is strictly less than `reach`.
pub fn closer_than(a: &Vec3, b: &Vec3, reach: u64) -> (r: bool)
    requires
        reach <= MAX_REACH,
    ensures
        r == (dist_sq(*a, *b) < sq(reach as int)),
{
    let dx = abs_diff(a.x, b.x);
    let dy = abs_diff(a.y, b.y);
    let dz = abs_diff(a.z, b.z);
    let rr: i128 = reach as i128;
    if dx >= rr || dy >= rr || dz >= rr {
        proof {
            if dx >= rr {
                lemma_sq_monotone(dx as int, rr as int);
            } else if dy >= rr {
                lemma_sq_monotone(dy as int, rr as int);
            } else {
                lemma_sq_monotone(dz as int, rr as int);
            }
            assert(sq(dx as int) >= 0 && sq(dy as int) >= 0 && sq(dz as int) >= 0) by (nonlinear_arith);
        }
        return false;
    }
    proof {
        lemma_sq_monotone(rr as int, dx as int);
        lemma_sq_monotone(rr as int, dy as int);
        lemma_sq_monotone(rr as int, dz as int);
        lemma_sq_monotone(MAX_REACH as int, rr as int);
        assert(sq(MAX_REACH as int) == 0x4_0000_0000_0000_0000_0000);
    }
    let rsq: i128 = rr * rr;
    let total: i128 = dx * dx + dy * dy + dz * dz;
    total < rsq
}

/// Whether the distance of `p` from the origin strictly exceeds `limit`.
pub fn farther_than(p: &Vec3, limit: u64) -> (r: bool)
    requires
        limit <= MAX_REACH,
    ensures
        r == (norm_sq(*p) > sq(limit as int)),
{
    let dx = abs_diff(p.x, 0);
    let dy = abs_diff(p.y, 0);
    let dz = abs_diff(p.z, 0);
    let rr: i128 = limit as i128;
    if dx > rr || dy > rr || dz > rr {
        proof {
            assert(sq(dx as int) > sq(rr as int) || sq(dy as int) > sq(rr as int)
                || sq(dz as int) > sq(rr as int)) by (nonlinear_arith)
                requires dx > rr || dy > rr || dz > rr, rr >= 0;
            assert(sq(dx as int) >= 0 && sq(dy as int) >= 0 && sq(dz as int) >= 0) by (nonlinear_arith);
        }
        return true;
    }
    proof {
        lemma_sq_monotone(rr as int, dx as int);
        lemma_sq_monotone(rr as int, dy as int);
        lemma_sq_monotone(rr as int, dz as int);
        lemma_sq_monotone(MAX_REACH as int, rr as int);
        assert(sq(MAX_REACH as int) == 0x4_0000_0000_0000_0000_0000);
    }
    let rsq: i128 = rr * rr;
    let total: i128 = dx * dx + dy * dy + dz * dz;
    total > rsq
}

/// Whether `r` is the integer square root of `n`.
pub open spec fn is_isqrt(n: int, r: int) -> bool {
    0 <= r && r * r <= n < (r + 1) * (r + 1)
}

/// Integer square root, by bisection.
pub fn isqrt(n: u64) -> (r: u64)
    ensures
        is_isqrt(n as int, r as int),
{
    let mut lo: u128 = 0;
    let mut hi: u128 = 0x1_0000_0000;
    assert(hi * hi == 0x1_0000_0000_0000_0000);
    while hi - lo > 1
        invariant
            lo < hi <= 0x1_0000_0000,
            lo * lo <= n,
            n < hi * hi,
        decreases hi - lo,
    {
        let mid: u128 = lo + (hi - lo) / 2;
        assert(mid * mid <= 0x1_0000_0000_0000_0000) by (nonlinear_arith)
            requires mid <= 0x1_0000_0000;
        if mid * mid <= n as u128 {
            lo = mid;
        } else {
            hi = mid;
        }
    }
    assert(hi == lo + 1);
    lo as u64
}

} // verus!
