//! Three-component fixed-point vectors, used as points, directions and
//! colours.
//!
//! The mathematical model is [`V3`], a triple of unbounded integers; every
//! operation has a spec-level twin (`v3_add`, `v3_dot`, ...) built from the
//! exact saturating fixed-point scalar operations, and each executable method
//! returns precisely its twin's value.

use vstd::prelude::*;
use crate::fixed::{
    SCALE, HALF_SCALE, fx_add, fx_sub, fx_mul, fx_div, fx_sqrt, fx_clamp, tdiv, spec_add,
    spec_sub, spec_mul, spec_div, spec_sqrt, spec_clamp, lemma_tdiv_bounds,
};
use crate::rng::Sampler;

verus! {

/// The model of a vector: three unbounded integers, each denoting a
/// fixed-point scalar (the integer divided by `SCALE`).
pub ghost struct V3 {
    pub x: int,
    pub y: int,
    pub z: int,
}

/// Component-wise saturating addition.
pub open spec fn v3_add(a: V3, b: V3) -> V3 {
    V3 { x: spec_add(a.x, b.x), y: spec_add(a.y, b.y), z: spec_add(a.z, b.z) }
}

/// Component-wise saturating subtraction.
pub open spec fn v3_sub(a: V3, b: V3) -> V3 {
    V3 { x: spec_sub(a.x, b.x), y: spec_sub(a.y, b.y), z: spec_sub(a.z, b.z) }
}

/// Component-wise negation (saturating at the `i64` minimum).
pub open spec fn v3_neg(a: V3) -> V3 {
    V3 { x: spec_sub(0, a.x), y: spec_sub(0, a.y), z: spec_sub(0, a.z) }
}

/// Scaling by a fixed-point scalar.
pub open spec fn v3_scale(a: V3, k: int) -> V3 {
    V3 { x: spec_mul(a.x, k), y: spec_mul(a.y, k), z: spec_mul(a.z, k) }
}

/// Component-wise (Hadamard) product; attenuation of a colour by a colour.
pub open spec fn v3_cmul(a: V3, b: V3) -> V3 {
    V3 { x: spec_mul(a.x, b.x), y: spec_mul(a.y, b.y), z: spec_mul(a.z, b.z) }
}

/// Division by a positive fixed-point scalar.
pub open spec fn v3_divide(a: V3, k: int) -> V3
    recommends
        k > 0,
{
    V3 { x: spec_div(a.x, k), y: spec_div(a.y, k), z: spec_div(a.z, k) }
}

/// Component-wise division by a positive integer (not a fixed-point
/// scalar): the scale is kept, as when averaging a sum of samples.
pub open spec fn v3_div_int(a: V3, k: int) -> V3
    recommends
        k >= 1,
{
    V3 { x: tdiv(a.x, k), y: tdiv(a.y, k), z: tdiv(a.z, k) }
}

/// Dot product: the three fixed-point products, summed with saturation.
pub open spec fn v3_dot(a: V3, b: V3) -> int {
    spec_add(spec_add(spec_mul(a.x, b.x), spec_mul(a.y, b.y)), spec_mul(a.z, b.z))
}

/// Squared length.
pub open spec fn v3_len_sq(a: V3) -> int {
    v3_dot(a, a)
}

/// Length: fixed-point square root of the squared length.
pub open spec fn v3_len(a: V3) -> int {
    spec_sqrt(v3_len_sq(a))
}

/// Normalization: division of each component by the length.
pub open spec fn v3_unit(a: V3) -> V3
    recommends
        v3_len_sq(a) >= 1,
{
    v3_divide(a, v3_len(a))
}

/// Cross product.
pub open spec fn v3_cross(a: V3, b: V3) -> V3 {
    V3 {
        x: spec_sub(spec_mul(a.y, b.z), spec_mul(a.z, b.y)),
        y: spec_sub(spec_mul(a.z, b.x), spec_mul(a.x, b.z)),
        z: spec_sub(spec_mul(a.x, b.y), spec_mul(a.y, b.x)),
    }
}

/// Reflection of `d` about the normal `n`: `d - 2 (d . n) n`.
pub open spec fn v3_reflect(d: V3, n: V3) -> V3 {
    v3_sub(d, v3_scale(n, spec_add(v3_dot(d, n), v3_dot(d, n))))
}

/// Refraction of the unit direction `d` at a surface with unit normal `n`
/// and index ratio `ratio` (Snell's law). The cosine is clamped to the unit
/// range before use; the radicand is taken by absolute value, both guards
/// against fixed-point rounding pushing the exact quantity out of range.
pub open spec fn v3_refract(d: V3, n: V3, ratio: int) -> V3 {
    let cos = spec_clamp(v3_dot(v3_neg(d), n), -SCALE as int, SCALE as int);
    let r_perp = v3_scale(v3_add(d, v3_scale(n, cos)), ratio);
    let k = spec_sub(SCALE as int, v3_len_sq(r_perp));
    let ka = if k < 0 { spec_sub(0, k) } else { k };
    v3_add(r_perp, v3_scale(n, spec_sub(0, spec_sqrt(ka))))
}

/// Linear interpolation of a draw `u` in `[0, SCALE)` into `[lo, hi)`.
pub open spec fn spec_lerp(u: int, lo: int, hi: int) -> int
    recommends
        0 <= u < SCALE,
        lo < hi,
{
    lo + tdiv(u * (hi - lo), SCALE as int)
}

/// The candidate a fixed sampler yielding `u` proposes for a point in the
/// unit ball: all three components drawn alike from `[-1, 1)`.
pub open spec fn spec_ball_candidate(u: int) -> V3 {
    let c = spec_lerp(u, -SCALE as int, SCALE as int);
    V3 { x: c, y: c, z: c }
}

/// What rejection sampling under a fixed sampler yielding `u` settles on:
/// the candidate when it lies measurably and strictly inside the unit
/// ball, else an interior fallback half a unit up the axis.
pub open spec fn spec_ball_point(u: int) -> V3 {
    if 1 <= v3_len_sq(spec_ball_candidate(u)) < SCALE {
        spec_ball_candidate(u)
    } else {
        V3 { x: 0int, y: 0int, z: HALF_SCALE as int }
    }
}

/// The candidate a fixed sampler yielding `u` proposes for a point in the
/// unit disk: both planar components drawn alike from `[-1, 1)`.
pub open spec fn spec_disk_candidate(u: int) -> V3 {
    let c = spec_lerp(u, -SCALE as int, SCALE as int);
    V3 { x: c, y: c, z: 0int }
}

/// What disk rejection sampling under a fixed sampler yielding `u` settles
/// on: the candidate when it lies strictly inside the unit disk, else the
/// centre.
pub open spec fn spec_disk_point(u: int) -> V3 {
    if v3_len_sq(spec_disk_candidate(u)) < SCALE {
        spec_disk_candidate(u)
    } else {
        V3 { x: 0int, y: 0int, z: 0int }
    }
}

/// A vector's model components always lie in the `i64` range.
pub proof fn lemma_vec3_bounds(v: Vec3)
    ensures
        i64::MIN <= v@.x <= i64::MAX,
        i64::MIN <= v@.y <= i64::MAX,
        i64::MIN <= v@.z <= i64::MAX,
{
}

/// Each fixed-point square in a dot product is nonnegative, so a squared
/// length is nonnegative.
pub proof fn lemma_v3_len_sq_nonneg(a: V3)
    ensures
        v3_len_sq(a) >= 0,
        spec_mul(a.x, a.x) >= 0,
        spec_mul(a.y, a.y) >= 0,
        spec_mul(a.z, a.z) >= 0,
{
    lemma_square_nonneg(a.x);
    lemma_square_nonneg(a.y);
    lemma_square_nonneg(a.z);
}

proof fn lemma_square_nonneg(x: int)
    ensures
        spec_mul(x, x) >= 0,
{
    assert(x * x >= 0) by (nonlinear_arith);
    lemma_tdiv_bounds(x * x, SCALE as int);
}

/// A vector: three fixed-point components. Context decides whether it is a
/// point, a direction or a colour.
#[derive(Clone, Copy, PartialEq, Eq, Structural, Debug)]
pub struct Vec3 {
    x: i64,
    y: i64,
    z: i64,
}

impl View for Vec3 {
    type V = V3;

    closed spec fn view(&self) -> V3 {
        V3 { x: self.x as int, y: self.y as int, z: self.z as int }
    }
}

impl Vec3 {
    /// The vector with the given components, as a spec-level value.
    pub closed spec fn spec_xyz(x: i64, y: i64, z: i64) -> Vec3 {
        Vec3 { x, y, z }
    }

    pub fn new(x: i64, y: i64, z: i64) -> (r: Self)
        ensures
            r@ == (V3 { x: x as int, y: y as int, z: z as int }),
            r == Vec3::spec_xyz(x, y, z),
    {
        Vec3 { x, y, z }
    }

    /// The zero vector.
    pub fn default() -> (r: Self)
        ensures
            r@ == (V3 { x: 0int, y: 0int, z: 0int }),
    {
        Vec3 { x: 0, y: 0, z: 0 }
    }

    pub fn x(&self) -> (r: i64)
        ensures
            r == self@.x,
    {
        self.x
    }

    pub fn y(&self) -> (r: i64)
        ensures
            r == self@.y,
    {
        self.y
    }

    pub fn z(&self) -> (r: i64)
        ensures
            r == self@.z,
    {
        self.z
    }

    pub fn add(&self, o: &Vec3) -> (r: Vec3)
        ensures
            r@ == v3_add(self@, o@),
    {
        Vec3 { x: fx_add(self.x, o.x), y: fx_add(self.y, o.y), z: fx_add(self.z, o.z) }
    }

    pub fn sub(&self, o: &Vec3) -> (r: Vec3)
        ensures
            r@ == v3_sub(self@, o@),
    {
        Vec3 { x: fx_sub(self.x, o.x), y: fx_sub(self.y, o.y), z: fx_sub(self.z, o.z) }
    }

    pub fn neg(&self) -> (r: Vec3)
        ensures
            r@ == v3_neg(self@),
    {
        Vec3 { x: fx_sub(0, self.x), y: fx_sub(0, self.y), z: fx_sub(0, self.z) }
    }

    /// Scaling by a fixed-point scalar.
    pub fn scale(&self, k: i64) -> (r: Vec3)
        ensures
            r@ == v3_scale(self@, k as int),
    {
        Vec3 { x: fx_mul(self.x, k), y: fx_mul(self.y, k), z: fx_mul(self.z, k) }
    }

    /// Component-wise product.
    pub fn mul(&self, o: &Vec3) -> (r: Vec3)
        ensures
            r@ == v3_cmul(self@, o@),
    {
        Vec3 { x: fx_mul(self.x, o.x), y: fx_mul(self.y, o.y), z: fx_mul(self.z, o.z) }
    }

    /// Division by a positive fixed-point scalar.
    pub fn div(&self, k: i64) -> (r: Vec3)
        requires
            k > 0,
        ensures
            r@ == v3_divide(self@, k as int),
    {
        Vec3 { x: fx_div(self.x, k), y: fx_div(self.y, k), z: fx_div(self.z, k) }
    }

    /// Division by a positive integer count, component-wise.
    pub fn div_int(&self, k: i64) -> (r: Vec3)
        requires
            k >= 1,
        ensures
            r@ == v3_div_int(self@, k as int),
    {
        Vec3 {
            x: crate::fixed::fx_idiv(self.x, k),
            y: crate::fixed::fx_idiv(self.y, k),
            z: crate::fixed::fx_idiv(self.z, k),
        }
    }

    pub fn dot(&self, o: &Vec3) -> (r: i64)
        ensures
            r == v3_dot(self@, o@),
    {
        fx_add(fx_add(fx_mul(self.x, o.x), fx_mul(self.y, o.y)), fx_mul(self.z, o.z))
    }

    pub fn length_squared(&self) -> (r: i64)
        ensures
            r == v3_len_sq(self@),
            r >= 0,
    {
        proof {
            lemma_v3_len_sq_nonneg(self@);
        }
        self.dot(self)
    }

    pub fn length(&self) -> (r: i64)
        ensures
            r == v3_len(self@),
            r >= 0,
    {
        fx_sqrt(self.length_squared())
    }

    pub fn cross(&self, o: &Vec3) -> (r: Vec3)
        ensures
            r@ == v3_cross(self@, o@),
    {
        Vec3 {
            x: fx_sub(fx_mul(self.y, o.z), fx_mul(self.z, o.y)),
            y: fx_sub(fx_mul(self.z, o.x), fx_mul(self.x, o.z)),
            z: fx_sub(fx_mul(self.x, o.y), fx_mul(self.y, o.x)),
        }
    }

    /// Normalization. Undefined for a vector too short to measure at the
    /// grid, which the caller must exclude.
    pub fn unit(&self) -> (r: Vec3)
        requires
            v3_len_sq(self@) >= 1,
        ensures
            r@ == v3_unit(self@),
    {
        let lsq = self.length_squared();
        let len = fx_sqrt(lsq);
        proof {
            assert(len >= 256) by (nonlinear_arith)
                requires
                    len >= 0,
                    (len + 1) * (len + 1) > lsq * SCALE,
                    lsq >= 1,
            ;
        }
        Vec3 { x: fx_div(self.x, len), y: fx_div(self.y, len), z: fx_div(self.z, len) }
    }

    /// Whether the vector is too short to normalize at the fixed-point
    /// grid: its squared length rounds to zero. This is the grid analogue
    /// of a near-zero test on the components.
    pub fn near_zero(&self) -> (r: bool)
        ensures
            r == (v3_len_sq(self@) == 0),
    {
        self.length_squared() == 0
    }

    /// Reflection about a normal.
    pub fn reflect(&self, n: &Vec3) -> (r: Vec3)
        ensures
            r@ == v3_reflect(self@, n@),
    {
        let k = self.dot(n);
        self.sub(&n.scale(fx_add(k, k)))
    }

    /// Refraction at a surface by Snell's law; `self` and `n` are unit
    /// vectors and `ratio` the ratio of refraction indices.
    pub fn refract(&self, n: &Vec3, ratio: i64) -> (r: Vec3)
        ensures
            r@ == v3_refract(self@, n@, ratio as int),
    {
        let cos = fx_clamp(self.neg().dot(n), -SCALE, SCALE);
        let r_perp = self.add(&n.scale(cos)).scale(ratio);
        let k = fx_sub(SCALE, r_perp.length_squared());
        let ka = if k < 0 {
            fx_sub(0, k)
        } else {
            k
        };
        proof {
            assert(ka >= 0);
        }
        r_perp.add(&n.scale(fx_sub(0, fx_sqrt(ka))))
    }

    /// A vector with each component drawn uniformly from `[0, 1)`.
    pub fn random(s: &mut Sampler) -> (r: Vec3)
        ensures
            0 <= r@.x < SCALE && 0 <= r@.y < SCALE && 0 <= r@.z < SCALE,
            final(s).is_fixed() == old(s).is_fixed(),
            old(s).is_fixed() ==> *final(s) == *old(s) && r@ == (V3 {
                x: old(s).fixed_value(),
                y: old(s).fixed_value(),
                z: old(s).fixed_value(),
            }),
    {
        let x = s.next_unit();
        let y = s.next_unit();
        let z = s.next_unit();
        Vec3 { x, y, z }
    }

    /// A vector with each component drawn uniformly from `[min, max)`.
    pub fn random_in_interval(s: &mut Sampler, min: i64, max: i64) -> (r: Vec3)
        requires
            min < max,
        ensures
            min <= r@.x < max && min <= r@.y < max && min <= r@.z < max,
            final(s).is_fixed() == old(s).is_fixed(),
            old(s).is_fixed() ==> *final(s) == *old(s) && r@ == (V3 {
                x: spec_lerp(old(s).fixed_value(), min as int, max as int),
                y: spec_lerp(old(s).fixed_value(), min as int, max as int),
                z: spec_lerp(old(s).fixed_value(), min as int, max as int),
            }),
    {
        let x = draw_in(s, min, max);
        let y = draw_in(s, min, max);
        let z = draw_in(s, min, max);
        Vec3 { x, y, z }
    }

    /// A point strictly inside the unit ball, found by rejection sampling:
    /// candidates are drawn from the enclosing cube until one has a
    /// measurable squared length strictly below one. After a bounded number
    /// of rejections — which a seeded sampler leaves astronomically
    /// unlikely and a fixed sampler makes definitive — an interior point on
    /// the axis stands in, keeping the function total.
    pub fn random_in_unit_sphere(s: &mut Sampler) -> (r: Vec3)
        ensures
            1 <= v3_len_sq(r@) < SCALE,
            final(s).is_fixed() == old(s).is_fixed(),
            old(s).is_fixed() ==> *final(s) == *old(s) && r@ == spec_ball_point(
                old(s).fixed_value(),
            ),
    {
        let mut i: u32 = 0;
        while i < 64
            invariant
                s.is_fixed() == old(s).is_fixed(),
                old(s).is_fixed() ==> *s == *old(s),
                old(s).is_fixed() && i > 0 ==> !(1 <= v3_len_sq(
                    spec_ball_candidate(old(s).fixed_value()),
                ) < SCALE),
            decreases 64 - i,
        {
            let p = Vec3::random_in_interval(s, -SCALE, SCALE);
            let lsq = p.length_squared();
            if 1 <= lsq && lsq < SCALE {
                return p;
            }
            i = i + 1;
        }
        Vec3 { x: 0, y: 0, z: HALF_SCALE }
    }

    /// A point strictly inside the unit disk in the xy-plane, found by
    /// rejection sampling with the same bounded-retry fallback as the ball
    /// sampler; the fallback is the disk's centre.
    pub fn random_in_unit_disk(s: &mut Sampler) -> (r: Vec3)
        ensures
            v3_len_sq(r@) < SCALE,
            r@.z == 0,
            final(s).is_fixed() == old(s).is_fixed(),
            old(s).is_fixed() ==> *final(s) == *old(s) && r@ == spec_disk_point(
                old(s).fixed_value(),
            ),
    {
        let mut i: u32 = 0;
        while i < 64
            invariant
                s.is_fixed() == old(s).is_fixed(),
                old(s).is_fixed() ==> *s == *old(s),
                old(s).is_fixed() && i > 0 ==> !(v3_len_sq(
                    spec_disk_candidate(old(s).fixed_value()),
                ) < SCALE),
            decreases 64 - i,
        {
            let x = draw_in(s, -SCALE, SCALE);
            let y = draw_in(s, -SCALE, SCALE);
            let p = Vec3 { x, y, z: 0 };
            let lsq = p.length_squared();
            if lsq < SCALE {
                return p;
            }
            i = i + 1;
        }
        let f = Vec3 { x: 0, y: 0, z: 0 };
        proof {
            lemma_v3_len_sq_nonneg(f@);
        }
        f
    }

    /// A uniformly distributed unit direction: a point of the unit ball,
    /// normalized.
    pub fn random_unit_vector(s: &mut Sampler) -> (r: Vec3)
        ensures
            exists|p: V3| 1 <= #[trigger] v3_len_sq(p) < SCALE && r@ == v3_unit(p),
            final(s).is_fixed() == old(s).is_fixed(),
            old(s).is_fixed() ==> *final(s) == *old(s) && r@ == v3_unit(
                spec_ball_point(old(s).fixed_value()),
            ),
    {
        let p = Vec3::random_in_unit_sphere(s);
        let u = p.unit();
        proof {
            assert(1 <= v3_len_sq(p@) < SCALE && u@ == v3_unit(p@));
        }
        u
    }

    /// A unit direction in the hemisphere around `normal`: a random unit
    /// vector, negated when it points against the normal.
    pub fn random_on_hemisphere(s: &mut Sampler, normal: &Vec3) -> (r: Vec3)
        ensures
            exists|p: V3|
                1 <= #[trigger] v3_len_sq(p) < SCALE && r@ == (if v3_dot(
                    v3_unit(p),
                    normal@,
                ) > 0 {
                    v3_unit(p)
                } else {
                    v3_neg(v3_unit(p))
                }),
            final(s).is_fixed() == old(s).is_fixed(),
            old(s).is_fixed() ==> *final(s) == *old(s),
    {
        let v = Vec3::random_unit_vector(s);
        let ghost p = choose|p: V3| 1 <= #[trigger] v3_len_sq(p) < SCALE && v@ == v3_unit(p);
        if v.dot(normal) > 0 {
            proof {
                assert(1 <= v3_len_sq(p) < SCALE);
            }
            v
        } else {
            let w = v.neg();
            proof {
                assert(1 <= v3_len_sq(p) < SCALE && w@ == v3_neg(v3_unit(p)));
            }
            w
        }
    }
}

fn draw_in(s: &mut Sampler, lo: i64, hi: i64) -> (r: i64)
    requires
        lo < hi,
    ensures
        lo <= r < hi,
        final(s).is_fixed() == old(s).is_fixed(),
        old(s).is_fixed() ==> *final(s) == *old(s) && r == spec_lerp(
            old(s).fixed_value(),
            lo as int,
            hi as int,
        ),
{
    let u = s.next_unit();
    let d: i128 = hi as i128 - lo as i128;
    proof {
        assert(0 <= u as int * d < i128::MAX && u as int * d < SCALE * (d as int))
            by (nonlinear_arith)
            requires
                0 <= u < SCALE,
                0 < d <= u64::MAX,
        ;
    }
    let q: i128 = (u as i128 * d) / (SCALE as i128);
    proof {
        vstd::arithmetic::div_mod::lemma_div_pos_is_pos(u as int * d, SCALE as int);
        vstd::arithmetic::div_mod::lemma_multiply_divide_lt(u as int * d, SCALE as int, d as int);
    }
    (lo as i128 + q) as i64
}

} // verus!
