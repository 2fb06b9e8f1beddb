//! The scattering model: how light reflects, refracts or is absorbed at a
//! surface. Three behaviours — diffuse, metallic, dielectric — form a closed
//! tagged-variant type dispatched by [`Material::scatter`].

use vstd::prelude::*;
use crate::fixed::{
    SCALE, fx_add, fx_sub, fx_mul, fx_div, fx_sqrt, fx_clamp, spec_add, spec_sub, spec_mul,
    spec_div, spec_sqrt, spec_clamp,
};
use crate::hittable::{HitRecord, HitV, hit_wf};
use crate::ray::{Ray, RayV};
use crate::rng::Sampler;
use crate::vec3::{
    Vec3, V3, v3_add, v3_dot, v3_len_sq, v3_neg, v3_reflect, v3_refract, v3_scale, v3_unit,
    spec_ball_point,
};

verus! {

/// A diffuse surface: scatters into the hemisphere around the normal,
/// attenuating by its base colour.
pub struct Lambertian {
    pub albedo: Vec3,
}

/// A metallic surface: mirrors the incoming ray, perturbed by `fuzz`.
pub struct Metal {
    pub albedo: Vec3,
    pub fuzz: i64,
}

/// A transparent refractive surface (glass); `color` tints every path
/// through it, and is plain white for ordinary glass.
pub struct Dielectric {
    refraction_index: i64,
    color: Vec3,
}

/// The closed set of scattering behaviours.
pub enum Material {
    Lambertian(Lambertian),
    Metal(Metal),
    Dielectric(Dielectric),
}

impl View for Material {
    type V = Material;

    open spec fn view(&self) -> Material {
        *self
    }
}

/// The attenuation a material applies to every path it scatters: its base
/// colour or tint.
pub open spec fn mat_attenuation(m: Material) -> V3 {
    match m {
        Material::Lambertian(l) => l.albedo@,
        Material::Metal(me) => me.albedo@,
        Material::Dielectric(d) => d.spec_color(),
    }
}

/// The direction a diffuse surface scatters to, given the unit-ball point
/// `p` behind the random unit vector: normal plus that unit vector, with
/// the normal itself standing in when the sum degenerates at the grid.
pub open spec fn lambertian_dir(normal: V3, p: V3) -> V3 {
    let d = v3_add(normal, v3_unit(p));
    if v3_len_sq(d) == 0 {
        normal
    } else {
        d
    }
}

/// The view of a scatter outcome: the attenuation and ray models.
pub open spec fn scatter_view(r: Option<(Vec3, Ray)>) -> Option<(V3, RayV)> {
    match r {
        Some((att, sc)) => Some((att@, sc@)),
        None => None,
    }
}

/// What a diffuse surface does under a fixed sampler yielding `u`.
pub open spec fn lambertian_scatter_det(l: Lambertian, h: HitV, u: int) -> Option<(V3, RayV)> {
    Some(
        (
            l.albedo@,
            RayV { orig: h.p, dir: lambertian_dir(h.normal, spec_ball_point(u)) },
        ),
    )
}

/// What a metallic surface does under a fixed sampler yielding `u`: the
/// perturbed mirror direction, or absorption when the reflection
/// degenerates at the grid or the perturbed direction leaves the surface's
/// outside.
pub open spec fn metal_scatter_det(m: Metal, ray: RayV, h: HitV, u: int) -> Option<(V3, RayV)> {
    let rf = v3_reflect(ray.dir, h.normal);
    if v3_len_sq(rf) == 0 {
        None
    } else {
        let dir = v3_add(v3_unit(rf), v3_scale(v3_unit(spec_ball_point(u)), m.fuzz as int));
        if v3_dot(dir, h.normal) > 0 && v3_len_sq(dir) >= 1 {
            Some((m.albedo@, RayV { orig: h.p, dir }))
        } else {
            None
        }
    }
}

/// What a dielectric does under a fixed sampler yielding `u`.
pub open spec fn dielectric_scatter_det(d: Dielectric, ray: RayV, h: HitV, u: int) -> Option<
    (V3, RayV),
> {
    Some(
        (
            d.spec_color(),
            RayV {
                orig: h.p,
                dir: dielectric_dir(d.spec_refraction_index(), ray.dir, h.normal, h.front_face, u),
            },
        ),
    )
}

/// Scattering under a fixed sampler, over the closed set of behaviours.
pub open spec fn mat_scatter_det(m: Material, ray: RayV, h: HitV, u: int) -> Option<(V3, RayV)> {
    match m {
        Material::Lambertian(l) => lambertian_scatter_det(l, h, u),
        Material::Metal(me) => metal_scatter_det(me, ray, h, u),
        Material::Dielectric(d) => dielectric_scatter_det(d, ray, h, u),
    }
}

impl Lambertian {
    pub fn new(albedo: Vec3) -> (r: Self)
        ensures
            r.albedo == albedo,
    {
        Lambertian { albedo }
    }

    /// Diffuse scattering always succeeds: the attenuation is exactly the
    /// albedo and the scattered ray starts at the hit point.
    pub fn scatter(&self, _ray: &Ray, rec: &HitRecord, s: &mut Sampler) -> (r: Option<
        (Vec3, Ray),
    >)
        requires
            hit_wf(rec@),
        ensures
            r is Some,
            r matches Some((att, sc)) ==> att@ == self.albedo@ && sc@.orig == rec@.p
                && v3_len_sq(sc@.dir) >= 1 && exists|p: V3|
                1 <= #[trigger] v3_len_sq(p) < SCALE && sc@.dir == lambertian_dir(
                    rec@.normal,
                    p,
                ),
            final(s).is_fixed() == old(s).is_fixed(),
            old(s).is_fixed() ==> *final(s) == *old(s) && scatter_view(r)
                == lambertian_scatter_det(*self, rec@, old(s).fixed_value()),
    {
        let ruv = Vec3::random_unit_vector(s);
        let ghost pw = choose|p: V3| 1 <= #[trigger] v3_len_sq(p) < SCALE && ruv@ == v3_unit(p);
        let sum = rec.normal().add(&ruv);
        proof {
            crate::vec3::lemma_v3_len_sq_nonneg(sum@);
        }
        let dir = if sum.near_zero() {
            *rec.normal()
        } else {
            sum
        };
        proof {
            assert(1 <= v3_len_sq(pw) < SCALE && dir@ == lambertian_dir(rec@.normal, pw));
        }
        let scattered = Ray::new(*rec.p(), dir);
        Some((self.albedo, scattered))
    }
}

impl Metal {
    /// The fuzz is clamped into `[0, 1]` at construction.
    pub fn new(albedo: Vec3, fuzz: i64) -> (r: Self)
        ensures
            r.albedo == albedo,
            r.fuzz == spec_clamp(fuzz as int, 0, SCALE as int),
    {
        Metal { albedo, fuzz: fx_clamp(fuzz, 0, SCALE) }
    }

    /// Metallic scattering: the mirrored direction, perturbed by the fuzz
    /// times a random unit vector. The ray is absorbed — `None` — when the
    /// perturbed direction points into the surface or degenerates at the
    /// grid. With zero fuzz the scattered direction is exactly the
    /// normalized mirror reflection.
    pub fn scatter(&self, ray: &Ray, rec: &HitRecord, s: &mut Sampler) -> (r: Option<(Vec3, Ray)>)
        requires
            v3_len_sq(ray@.dir) >= 1,
            hit_wf(rec@),
        ensures
            r matches Some((att, sc)) ==> att@ == self.albedo@ && sc@.orig == rec@.p && v3_dot(
                sc@.dir,
                rec@.normal,
            ) > 0 && v3_len_sq(sc@.dir) >= 1,
            r matches Some((att, sc)) ==> exists|p: V3|
                1 <= #[trigger] v3_len_sq(p) < SCALE && sc@.dir == v3_add(
                    v3_unit(v3_reflect(ray@.dir, rec@.normal)),
                    v3_scale(v3_unit(p), self.fuzz as int),
                ),
            self.fuzz == 0 ==> (r matches Some((att, sc)) ==> sc@.dir == v3_unit(
                v3_reflect(ray@.dir, rec@.normal),
            )),
            self.fuzz == 0 ==> (r is Some <==> v3_len_sq(v3_reflect(ray@.dir, rec@.normal)) != 0
                && v3_dot(v3_unit(v3_reflect(ray@.dir, rec@.normal)), rec@.normal) > 0
                && v3_len_sq(v3_unit(v3_reflect(ray@.dir, rec@.normal))) >= 1),
            final(s).is_fixed() == old(s).is_fixed(),
            old(s).is_fixed() ==> *final(s) == *old(s) && scatter_view(r) == metal_scatter_det(
                *self,
                ray@,
                rec@,
                old(s).fixed_value(),
            ),
    {
        let reflected = ray.direction().reflect(rec.normal());
        if reflected.length_squared() == 0 {
            // The reflection collapsed at the grid: treat as absorbed.
            return None;
        }
        let ruv = Vec3::random_unit_vector(s);
        let ghost pw = choose|p: V3| 1 <= #[trigger] v3_len_sq(p) < SCALE && ruv@ == v3_unit(p);
        let fuzzed = ruv.scale(self.fuzz);
        let dir = reflected.unit().add(&fuzzed);
        proof {
            assert(1 <= v3_len_sq(pw) < SCALE && dir@ == v3_add(
                v3_unit(v3_reflect(ray@.dir, rec@.normal)),
                v3_scale(v3_unit(pw), self.fuzz as int),
            ));
        }
        let scattered = Ray::new(*rec.p(), dir);
        if scattered.direction().dot(rec.normal()) > 0 && scattered.direction().length_squared()
            >= 1 {
            Some((self.albedo, scattered))
        } else {
            None
        }
    }
}

/// The refraction ratio a dielectric applies: the reciprocal index when the
/// ray enters from outside, the index itself when it leaves from inside.
pub open spec fn dielectric_ratio(ri: int, front_face: bool) -> int
    recommends
        ri > 0,
{
    if front_face {
        spec_div(SCALE as int, ri)
    } else {
        ri
    }
}

/// The Schlick approximation of the Fresnel reflectance:
/// `r0 + (1 - r0) (1 - cos)^5` with `r0 = ((1 - n) / (1 + n))^2`.
pub open spec fn schlick(ratio: int, cos: int) -> int
    recommends
        ratio >= 0,
{
    let a = spec_div(spec_sub(SCALE as int, ratio), spec_add(SCALE as int, ratio));
    let r0 = spec_mul(a, a);
    let x = spec_sub(SCALE as int, cos);
    let x5 = spec_mul(x, spec_mul(x, spec_mul(x, spec_mul(x, x))));
    spec_add(r0, spec_mul(spec_sub(SCALE as int, r0), x5))
}

/// The direction a dielectric scatters to, as a function of the draw `u`
/// deciding the stochastic Fresnel mix: a mirror reflection under total
/// internal reflection or a reflectance-favoured draw, otherwise the Snell
/// refraction; the normal stands in if the result degenerates at the grid.
pub open spec fn dielectric_dir(ri: int, dir: V3, normal: V3, front_face: bool, u: int) -> V3
    recommends
        ri > 0,
        v3_len_sq(dir) >= 1,
{
    let ratio = dielectric_ratio(ri, front_face);
    let ud = v3_unit(dir);
    let cos = spec_clamp(v3_dot(v3_neg(ud), normal), -SCALE as int, SCALE as int);
    let sin = spec_sqrt(spec_sub(SCALE as int, spec_mul(cos, cos)));
    let cannot_refract = spec_mul(ratio, sin) > SCALE;
    let d0 = if cannot_refract || schlick(ratio, cos) > u {
        v3_reflect(ud, normal)
    } else {
        v3_refract(ud, normal, ratio)
    };
    if v3_len_sq(d0) >= 1 {
        d0
    } else {
        normal
    }
}

impl Dielectric {
    #[verifier::type_invariant]
    spec fn type_inv(self) -> bool {
        self.refraction_index > 0
    }

    /// The refraction index; positive by construction.
    pub closed spec fn spec_refraction_index(&self) -> int {
        self.refraction_index as int
    }

    /// The tint; plain white unless constructed with another colour.
    pub closed spec fn spec_color(&self) -> V3 {
        self.color@
    }

    /// Ordinary clear glass: a positive refraction index, a white tint.
    pub fn new(refraction_index: i64) -> (r: Self)
        requires
            refraction_index > 0,
        ensures
            r.spec_refraction_index() == refraction_index,
            r.spec_color() == (V3 { x: SCALE as int, y: SCALE as int, z: SCALE as int }),
    {
        Dielectric { refraction_index, color: Vec3::new(SCALE, SCALE, SCALE) }
    }

    /// Tinted glass: the tint multiplies every path through the material,
    /// channel by channel.
    pub fn tinted(refraction_index: i64, color: Vec3) -> (r: Self)
        requires
            refraction_index > 0,
        ensures
            r.spec_refraction_index() == refraction_index,
            r.spec_color() == color@,
    {
        Dielectric { refraction_index, color }
    }

    /// Dielectric scattering always succeeds; the attenuation is the tint.
    /// Whatever the draw, the direction is `dielectric_dir` at some draw in
    /// the unit range, and under a fixed sampler it is pinned to its value.
    pub fn scatter(&self, ray: &Ray, rec: &HitRecord, s: &mut Sampler) -> (r: Option<(Vec3, Ray)>)
        requires
            v3_len_sq(ray@.dir) >= 1,
            hit_wf(rec@),
        ensures
            r is Some,
            r matches Some((att, sc)) ==> att@ == self.spec_color() && sc@.orig == rec@.p
                && v3_len_sq(sc@.dir) >= 1 && exists|u: int|
                0 <= u < SCALE && sc@.dir == dielectric_dir(
                    self.spec_refraction_index(),
                    ray@.dir,
                    rec@.normal,
                    rec@.front_face,
                    u,
                ),
            final(s).is_fixed() == old(s).is_fixed(),
            old(s).is_fixed() ==> *final(s) == *old(s) && scatter_view(r)
                == dielectric_scatter_det(*self, ray@, rec@, old(s).fixed_value()),
    {
        proof {
            use_type_invariant(self);
        }
        let ratio = if rec.front_face() {
            fx_div(SCALE, self.refraction_index)
        } else {
            self.refraction_index
        };
        let unit_direction = ray.direction().unit();
        let cos_theta = fx_clamp(unit_direction.neg().dot(rec.normal()), -SCALE, SCALE);
        let cos_sq = fx_mul(cos_theta, cos_theta);
        proof {
            crate::fixed::lemma_unit_cos_sq(cos_theta as int);
        }
        let sin_theta = fx_sqrt(fx_sub(SCALE, cos_sq));
        let cannot_refract = fx_mul(ratio, sin_theta) > SCALE;

        proof {
            crate::fixed::lemma_tdiv_bounds(
                SCALE as int * SCALE,
                self.refraction_index as int,
            );
        }
        let a = fx_div(fx_sub(SCALE, ratio), fx_add(SCALE, ratio));
        let r0 = fx_mul(a, a);
        let x = fx_sub(SCALE, cos_theta);
        let x5 = fx_mul(x, fx_mul(x, fx_mul(x, fx_mul(x, x))));
        let reflectance = fx_add(r0, fx_mul(fx_sub(SCALE, r0), x5));

        let u = s.next_unit();
        let d0 = if cannot_refract || reflectance > u {
            unit_direction.reflect(rec.normal())
        } else {
            unit_direction.refract(rec.normal(), ratio)
        };
        let dir = if d0.length_squared() >= 1 {
            d0
        } else {
            // The chosen direction collapsed at the grid; scatter along the
            // normal rather than absorb, since a dielectric never absorbs.
            *rec.normal()
        };
        let scattered = Ray::new(*rec.p(), dir);
        proof {
            assert(0 <= u < SCALE && scattered@.dir == dielectric_dir(
                self.spec_refraction_index(),
                ray@.dir,
                rec@.normal,
                rec@.front_face,
                u as int,
            ));
        }
        Some((self.color, scattered))
    }
}

/// The exact (unrounded) dot product of two integer vectors; when both
/// carry fixed-point components, the value sits at the square of the scale.
pub open spec fn dot_exact(a: V3, b: V3) -> int {
    a.x * b.x + a.y * b.y + a.z * b.z
}

/// The exact reflection of `d` about `n`, written at the cube of the scale
/// to stay in integers: `SCALE^2 * d - 2 (d . n) n`. The executable
/// [`Vec3::reflect`] computes its fixed-point rounding.
pub open spec fn reflect_exact(d: V3, n: V3) -> V3 {
    V3 {
        x: SCALE * SCALE * d.x - 2 * dot_exact(d, n) * n.x,
        y: SCALE * SCALE * d.y - 2 * dot_exact(d, n) * n.y,
        z: SCALE * SCALE * d.z - 2 * dot_exact(d, n) * n.z,
    }
}

/// The exact perpendicular part of refraction at index ratio one, at the
/// cube of the scale: `SCALE^2 * d + cos * n` with `cos = -(d . n)`.
pub open spec fn refract_perp_exact(d: V3, n: V3) -> V3 {
    V3 {
        x: SCALE * SCALE * d.x - dot_exact(d, n) * n.x,
        y: SCALE * SCALE * d.y - dot_exact(d, n) * n.y,
        z: SCALE * SCALE * d.z - dot_exact(d, n) * n.z,
    }
}

proof fn lemma_expand_reflect(
    dx: int,
    dy: int,
    dz: int,
    nx: int,
    ny: int,
    nz: int,
    q: int,
    w: int,
)
    requires
        w == dx * nx + dy * ny + dz * nz,
        q == nx * nx + ny * ny + nz * nz,
    ensures
        (q * dx - 2 * w * nx) * nx + (q * dy - 2 * w * ny) * ny + (q * dz - 2 * w * nz) * nz == -q
            * w,
{
    assert((q * dx - 2 * w * nx) * nx == q * (dx * nx) - 2 * (w * (nx * nx))) by (nonlinear_arith);
    assert((q * dy - 2 * w * ny) * ny == q * (dy * ny) - 2 * (w * (ny * ny))) by (nonlinear_arith);
    assert((q * dz - 2 * w * nz) * nz == q * (dz * nz) - 2 * (w * (nz * nz))) by (nonlinear_arith);
    assert(q * (dx * nx + dy * ny + dz * nz) == q * (dx * nx) + q * (dy * ny) + q * (dz * nz))
        by (nonlinear_arith);
    assert(w * (nx * nx + ny * ny + nz * nz) == w * (nx * nx) + w * (ny * ny) + w * (nz * nz))
        by (nonlinear_arith);
    assert(q * w - 2 * (w * q) == -q * w) by (nonlinear_arith);
}

/// Mirror law of metallic reflection with zero fuzz: against an exactly
/// unit normal, the reflected direction's component along the normal is the
/// negation of the incoming one — the angle of incidence equals the angle
/// of reflection. Stated in the exact integer model, of which the
/// executable reflection is the fixed-point rounding.
pub proof fn lemma_reflect_mirror(d: V3, n: V3)
    requires
        dot_exact(n, n) == SCALE * SCALE,
    ensures
        dot_exact(reflect_exact(d, n), n) == -(SCALE * SCALE) * dot_exact(d, n),
{
    lemma_expand_reflect(d.x, d.y, d.z, n.x, n.y, n.z, SCALE * SCALE, dot_exact(d, n));
}

proof fn lemma_sq_expand(u: int, v: int, a: int, b: int)
    ensures
        (u * a - v * b) * (u * a - v * b) == u * (u * (a * a)) - 2 * (u * (v * (a * b))) + v * (v
            * (b * b)),
{
    assert((u * a - v * b) * (u * a - v * b) == (u * a) * (u * a) - 2 * ((u * a) * (v * b)) + (v
        * b) * (v * b)) by (nonlinear_arith);
    assert((u * a) * (u * a) == u * (u * (a * a))) by (nonlinear_arith);
    assert((u * a) * (v * b) == u * (v * (a * b))) by (nonlinear_arith);
    assert((v * b) * (v * b) == v * (v * (b * b))) by (nonlinear_arith);
}

proof fn lemma_expand_refract(
    dx: int,
    dy: int,
    dz: int,
    nx: int,
    ny: int,
    nz: int,
    q: int,
    w: int,
)
    requires
        w == dx * nx + dy * ny + dz * nz,
        q == nx * nx + ny * ny + nz * nz,
        q == dx * dx + dy * dy + dz * dz,
    ensures
        (q * dx - w * nx) * (q * dx - w * nx) + (q * dy - w * ny) * (q * dy - w * ny) + (q * dz - w
            * nz) * (q * dz - w * nz) == q * q * q - q * (w * w),
{
    lemma_sq_expand(q, w, dx, nx);
    lemma_sq_expand(q, w, dy, ny);
    lemma_sq_expand(q, w, dz, nz);
    assert(q * (q * (dx * dx + dy * dy + dz * dz)) == q * (q * (dx * dx)) + q * (q * (dy * dy)) + q
        * (q * (dz * dz))) by (nonlinear_arith);
    assert(q * (w * (dx * nx + dy * ny + dz * nz)) == q * (w * (dx * nx)) + q * (w * (dy * ny)) + q
        * (w * (dz * nz))) by (nonlinear_arith);
    assert(w * (w * (nx * nx + ny * ny + nz * nz)) == w * (w * (nx * nx)) + w * (w * (ny * ny)) + w
        * (w * (nz * nz))) by (nonlinear_arith);
    assert(q * (q * q) - 2 * (q * (w * w)) + w * (w * q) == q * q * q - q * (w * w))
        by (nonlinear_arith);
}

/// Refraction through a medium of matching index bends nothing: at ratio
/// one, for exactly unit `d` and `n` with the ray against the normal, the
/// perpendicular part's radicand `1 - |perp|^2` is exactly the square of
/// the cosine, so the parallel coefficient is exactly the cosine, and
/// perpendicular plus parallel parts reassemble the incident direction.
/// Stated in the exact integer model at the cube of the scale; the
/// executable refraction rounds it. The stochastic Fresnel mix is outside
/// this law: Schlick reflectance is positive even at ratio one, and a draw
/// below it mirrors the ray instead.
pub proof fn lemma_refraction_identity(d: V3, n: V3)
    requires
        dot_exact(d, d) == SCALE * SCALE,
        dot_exact(n, n) == SCALE * SCALE,
        dot_exact(d, n) <= 0,
    ensures
        SCALE * SCALE * SCALE * SCALE * SCALE * SCALE - dot_exact(
            refract_perp_exact(d, n),
            refract_perp_exact(d, n),
        ) == (-dot_exact(d, n) * SCALE) * (-dot_exact(d, n) * SCALE),
        -dot_exact(d, n) * SCALE >= 0,
        SCALE * refract_perp_exact(d, n).x - (-dot_exact(d, n) * SCALE) * n.x == SCALE * SCALE
            * SCALE * d.x,
        SCALE * refract_perp_exact(d, n).y - (-dot_exact(d, n) * SCALE) * n.y == SCALE * SCALE
            * SCALE * d.y,
        SCALE * refract_perp_exact(d, n).z - (-dot_exact(d, n) * SCALE) * n.z == SCALE * SCALE
            * SCALE * d.z,
{
    let q = SCALE * SCALE;
    let w = dot_exact(d, n);
    lemma_expand_refract(d.x, d.y, d.z, n.x, n.y, n.z, q, w);
    assert(dot_exact(refract_perp_exact(d, n), refract_perp_exact(d, n)) == q * q * q - q * (w
        * w));
    lemma_refract_algebra(d.x, d.y, d.z, n.x, n.y, n.z, q, w);
}

proof fn lemma_refract_algebra(
    dx: int,
    dy: int,
    dz: int,
    nx: int,
    ny: int,
    nz: int,
    q: int,
    w: int,
)
    requires
        q == SCALE * SCALE,
        w <= 0,
    ensures
        q * q * q - (q * q * q - q * (w * w)) == (-w * SCALE) * (-w * SCALE),
        -w * SCALE >= 0,
        SCALE * (q * dx - w * nx) - (-w * SCALE) * nx == SCALE * q * dx,
        SCALE * (q * dy - w * ny) - (-w * SCALE) * ny == SCALE * q * dy,
        SCALE * (q * dz - w * nz) - (-w * SCALE) * nz == SCALE * q * dz,
{
    assert(q * q * q - (q * q * q - q * (w * w)) == q * (w * w)) by (nonlinear_arith);
    assert((-w * 65536) * (-w * 65536) == (65536 * 65536) * (w * w)) by (nonlinear_arith);
    assert(-w * 65536 >= 0) by (nonlinear_arith)
        requires
            w <= 0,
    ;
    assert(65536 * (q * dx - w * nx) - (-w * 65536) * nx == 65536 * (q * dx))
        by (nonlinear_arith);
    assert(65536 * (q * dy - w * ny) - (-w * 65536) * ny == 65536 * (q * dy))
        by (nonlinear_arith);
    assert(65536 * (q * dz - w * nz) - (-w * 65536) * nz == 65536 * (q * dz))
        by (nonlinear_arith);
    assert(SCALE * q * dx == 65536 * (q * dx) && SCALE * q * dy == 65536 * (q * dy) && SCALE * q
        * dz == 65536 * (q * dz)) by (nonlinear_arith);
}

impl Material {
    /// Scattering, dispatched over the closed set of behaviours. Every
    /// scattered ray starts at the hit point with a measurable direction,
    /// and the attenuation is the material's base colour or tint; diffuse
    /// and dielectric materials always scatter.
    pub fn scatter(&self, ray: &Ray, rec: &HitRecord, s: &mut Sampler) -> (r: Option<(Vec3, Ray)>)
        requires
            v3_len_sq(ray@.dir) >= 1,
            hit_wf(rec@),
        ensures
            r matches Some((att, sc)) ==> att@ == mat_attenuation(*self) && sc@.orig == rec@.p
                && v3_len_sq(sc@.dir) >= 1,
            self is Lambertian || self is Dielectric ==> r is Some,
            final(s).is_fixed() == old(s).is_fixed(),
            old(s).is_fixed() ==> *final(s) == *old(s) && scatter_view(r) == mat_scatter_det(
                *self,
                ray@,
                rec@,
                old(s).fixed_value(),
            ),
    {
        match self {
            Material::Lambertian(l) => l.scatter(ray, rec, s),
            Material::Metal(m) => m.scatter(ray, rec, s),
            Material::Dielectric(d) => d.scatter(ray, rec, s),
        }
    }
}

} // verus!
