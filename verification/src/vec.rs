//! Fixed-point vectors.
//!
//! [`Vec3`] is the executable carrier of a world-space point or
//! displacement; [`V3`] is its mathematical model with unbounded
//! integer coordinates, in which all contracts are stated.

use vstd::prelude::*;

verus! {

use crate::fixed::{SCALE, isqrt, isqrt_spec, lemma_isqrt_bounds, lemma_tdiv_bound, mul_div, tdiv};

/// Mathematical model of a 3D fixed-point vector.
pub ghost struct V3 {
    pub x: int,
    pub y: int,
    pub z: int,
}

impl V3 {
    pub open spec fn zero() -> V3 {
        V3 { x: 0, y: 0, z: 0 }
    }

    pub open spec fn add(self, o: V3) -> V3 {
        V3 { x: self.x + o.x, y: self.y + o.y, z: self.z + o.z }
    }

    pub open spec fn sub(self, o: V3) -> V3 {
        V3 { x: self.x - o.x, y: self.y - o.y, z: self.z - o.z }
    }

    /// Fixed-point scalar product: each coordinate is `k * c / SCALE`,
    /// rounded toward zero.
    pub open spec fn scale(self, k: int) -> V3 {
        V3 {
            x: tdiv(k * self.x, SCALE as int),
            y: tdiv(k * self.y, SCALE as int),
            z: tdiv(k * self.z, SCALE as int),
        }
    }

    /// Cross product with the fixed up vector `(0, 1, 0)`.
    pub open spec fn cross_up(self) -> V3 {
        V3 { x: -self.z, y: 0, z: self.x }
    }

    /// The horizontal direction of the vector, as a fixed-point unit
    /// vector (length close to `SCALE`): each of `x` and `z` is scaled
    /// by `SCALE` and divided by the integer length of `(x, z)`. The
    /// zero vector stays zero.
    pub open spec fn unit_xz(self) -> V3 {
        if self.x == 0 && self.z == 0 {
            V3::zero()
        } else {
            let len = isqrt_spec((self.x * self.x + self.z * self.z) as nat) as int;
            V3 { x: tdiv(self.x * SCALE, len), y: 0, z: tdiv(self.z * SCALE, len) }
        }
    }

    /// Every coordinate lies within `b` of zero.
    pub open spec fn in_range(self, b: int) -> bool {
        &&& -b <= self.x <= b
        &&& -b <= self.y <= b
        &&& -b <= self.z <= b
    }
}

/// A 3D vector of fixed-point coordinates: `1000` stands for one world
/// unit along an axis.
#[derive(Clone, Copy, PartialEq, Eq, Structural, Debug)]
pub struct Vec3 {
    pub x: i64,
    pub y: i64,
    pub z: i64,
}

impl View for Vec3 {
    type V = V3;

    open spec fn view(&self) -> V3 {
        V3 { x: self.x as int, y: self.y as int, z: self.z as int }
    }
}

impl Vec3 {
    pub fn new(x: i64, y: i64, z: i64) -> (r: Vec3)
        ensures
            r@ == (V3 { x: x as int, y: y as int, z: z as int }),
    {
        Vec3 { x, y, z }
    }

    pub fn zero() -> (r: Vec3)
        ensures
            r@ == V3::zero(),
    {
        Vec3 { x: 0, y: 0, z: 0 }
    }

    pub fn add(self, o: Vec3) -> (r: Vec3)
        requires
            i64::MIN <= self@.x + o@.x <= i64::MAX,
            i64::MIN <= self@.y + o@.y <= i64::MAX,
            i64::MIN <= self@.z + o@.z <= i64::MAX,
        ensures
            r@ == self@.add(o@),
    {
        Vec3 { x: self.x + o.x, y: self.y + o.y, z: self.z + o.z }
    }

    pub fn sub(self, o: Vec3) -> (r: Vec3)
        requires
            i64::MIN <= self@.x - o@.x <= i64::MAX,
            i64::MIN <= self@.y - o@.y <= i64::MAX,
            i64::MIN <= self@.z - o@.z <= i64::MAX,
        ensures
            r@ == self@.sub(o@),
    {
        Vec3 { x: self.x - o.x, y: self.y - o.y, z: self.z - o.z }
    }

    /// Fixed-point scalar product `k * self / SCALE`.
    pub fn scale_fx(self, k: i64) -> (r: Vec3)
        requires
            -0x7fff_ffff_ffff_ffff <= k * self@.x <= 0x7fff_ffff_ffff_ffff,
            -0x7fff_ffff_ffff_ffff <= k * self@.y <= 0x7fff_ffff_ffff_ffff,
            -0x7fff_ffff_ffff_ffff <= k * self@.z <= 0x7fff_ffff_ffff_ffff,
        ensures
            r@ == self@.scale(k as int),
    {
        Vec3 {
            x: mul_div(k, self.x, SCALE),
            y: mul_div(k, self.y, SCALE),
            z: mul_div(k, self.z, SCALE),
        }
    }

    /// Cross product with the fixed up vector `(0, 1, 0)`.
    pub fn cross_up(self) -> (r: Vec3)
        requires
            -0x7fff_ffff_ffff_ffff <= self@.z,
        ensures
            r@ == self@.cross_up(),
    {
        Vec3 { x: -self.z, y: 0, z: self.x }
    }

    /// The horizontal direction of the vector as a fixed-point unit
    /// vector; the zero vector stays zero. Every coordinate of the
    /// result lies within `SCALE` of zero.
    pub fn unit_xz(self) -> (r: Vec3)
        requires
            -2_000_000_000 <= self@.x <= 2_000_000_000,
            -2_000_000_000 <= self@.z <= 2_000_000_000,
        ensures
            r@ == self@.unit_xz(),
            r@.in_range(SCALE as int),
    {
        if self.x == 0 && self.z == 0 {
            Vec3 { x: 0, y: 0, z: 0 }
        } else {
            proof {
                assert(self@.x * self@.x >= 0 && self@.z * self@.z >= 0
                    && self@.x * self@.x <= 4_000_000_000_000_000_000
                    && self@.z * self@.z <= 4_000_000_000_000_000_000
                    && (self@.x != 0 ==> self@.x * self@.x >= 1)
                    && (self@.z != 0 ==> self@.z * self@.z >= 1)) by (nonlinear_arith)
                    requires
                        -2_000_000_000 <= self@.x <= 2_000_000_000,
                        -2_000_000_000 <= self@.z <= 2_000_000_000;
            }
            let sq: i64 = self.x * self.x + self.z * self.z;
            let ghost n = (self@.x * self@.x + self@.z * self@.z) as nat;
            proof {
                assert(sq as u64 as nat == n);
            }
            let len64: u64 = isqrt(sq as u64);
            proof {
                lemma_isqrt_bounds(n);
                let len = isqrt_spec(n) as int;
                assert(len64 == len);
                assert(n >= 1);
                assert(1 <= len <= n) by (nonlinear_arith)
                    requires
                        len >= 0,
                        len * len <= n,
                        n < (len + 1) * (len + 1),
                        n >= 1;
                assert(-len <= self@.x <= len && -len <= self@.z <= len) by (nonlinear_arith)
                    requires
                        len >= 0,
                        n == self@.x * self@.x + self@.z * self@.z,
                        self@.x * self@.x >= 0,
                        self@.z * self@.z >= 0,
                        n < (len + 1) * (len + 1);
                lemma_tdiv_bound(self@.x * (SCALE as int), len, SCALE as int);
                lemma_tdiv_bound(self@.z * (SCALE as int), len, SCALE as int);
            }
            let len: i64 = len64 as i64;
            Vec3 { x: mul_div(self.x, SCALE, len), y: 0, z: mul_div(self.z, SCALE, len) }
        }
    }

    /// True exactly when every coordinate is zero.
    pub fn is_zero(self) -> (r: bool)
        ensures
            r == (self@ == V3::zero()),
    {
        self.x == 0 && self.y == 0 && self.z == 0
    }
}

/// A pair of analog axis values in fixed point: `1000` stands for a
/// fully deflected axis.
#[derive(Clone, Copy, PartialEq, Eq, Structural, Debug)]
pub struct Vec2 {
    pub x: i64,
    pub y: i64,
}

impl Vec2 {
    pub fn new(x: i64, y: i64) -> (r: Vec2)
        ensures
            r.x == x,
            r.y == y,
    {
        Vec2 { x, y }
    }

    pub fn zero() -> (r: Vec2)
        ensures
            r.x == 0,
            r.y == 0,
    {
        Vec2 { x: 0, y: 0 }
    }
}

} // verus!
