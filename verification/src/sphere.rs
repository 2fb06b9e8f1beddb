//! The sphere, the one concrete intersectable primitive.

use vstd::prelude::*;
use std::sync::Arc;
use crate::fixed::{fx_add, fx_sub, fx_mul, fx_div, fx_sqrt, spec_add, spec_sub, spec_mul, spec_div, spec_sqrt};
use crate::hittable::{HitRecord, HitV, hit_wf};
use crate::interval::Interval;
use crate::material::Material;
use crate::ray::{Ray, RayV, spec_ray_at};
use crate::vec3::{Vec3, V3, v3_dot, v3_divide, v3_len_sq, v3_neg, v3_sub};

verus! {

/// The model of a sphere: centre, radius, and the shared material.
pub ghost struct SphereV {
    pub center: V3,
    pub radius: int,
    pub mat: Material,
}

/// Half of the linear coefficient of the hit quadratic:
/// `dot(direction, center - origin)`.
pub open spec fn sphere_half_b(s: SphereV, r: RayV) -> int {
    v3_dot(r.dir, v3_sub(s.center, r.orig))
}

/// The constant coefficient: `|center - origin|^2 - radius^2`.
pub open spec fn sphere_c(s: SphereV, r: RayV) -> int {
    spec_sub(v3_len_sq(v3_sub(s.center, r.orig)), spec_mul(s.radius, s.radius))
}

/// The discriminant of the hit quadratic, in its half-b form.
pub open spec fn sphere_disc(s: SphereV, r: RayV) -> int {
    spec_sub(
        spec_mul(sphere_half_b(s, r), sphere_half_b(s, r)),
        spec_mul(v3_len_sq(r.dir), sphere_c(s, r)),
    )
}

/// The nearest root of the hit quadratic strictly inside `(tmin, tmax)`:
/// the smaller root when it qualifies, else the larger root when it does,
/// else nothing.
pub open spec fn sphere_root(s: SphereV, r: RayV, tmin: int, tmax: int) -> Option<int>
    recommends
        v3_len_sq(r.dir) >= 1,
{
    let a = v3_len_sq(r.dir);
    let hb = sphere_half_b(s, r);
    let disc = sphere_disc(s, r);
    if disc < 0 {
        None
    } else {
        let sq = spec_sqrt(disc);
        let r1 = spec_div(spec_sub(hb, sq), a);
        if tmin < r1 < tmax {
            Some(r1)
        } else {
            let r2 = spec_div(spec_add(hb, sq), a);
            if tmin < r2 < tmax {
                Some(r2)
            } else {
                None
            }
        }
    }
}

/// A sphere's full intersection answer. A degenerate sphere — radius
/// rounding to zero — reports no hit, as does a hit whose oriented normal
/// collapses at the grid; both would otherwise divide by nothing the
/// reference arithmetic turns into non-numbers.
#[verifier::opaque]
pub open spec fn spec_sphere_hit(s: SphereV, r: RayV, tmin: int, tmax: int) -> Option<HitV>
    recommends
        v3_len_sq(r.dir) >= 1,
{
    if s.radius <= 0 {
        None
    } else {
        match sphere_root(s, r, tmin, tmax) {
            None => None,
            Some(t) => {
                let p = spec_ray_at(r, t);
                let outward = v3_divide(v3_sub(p, s.center), s.radius);
                let ff = v3_dot(r.dir, outward) < 0;
                let normal = if ff {
                    outward
                } else {
                    v3_neg(outward)
                };
                if v3_len_sq(normal) == 0 {
                    None
                } else {
                    Some(HitV { p, normal, t, front_face: ff, mat: s.mat })
                }
            },
        }
    }
}

/// A sphere: centre, radius, and a shared reference to its material.
pub struct Sphere {
    center: Vec3,
    radius: i64,
    mat: Arc<Material>,
}

impl View for Sphere {
    type V = SphereV;

    closed spec fn view(&self) -> SphereV {
        SphereV { center: self.center@, radius: self.radius as int, mat: self.mat@ }
    }
}

impl Sphere {
    /// The radius is clamped to be nonnegative at construction.
    pub fn new(center: Vec3, radius: i64, mat: Arc<Material>) -> (r: Self)
        ensures
            r@.center == center@,
            r@.radius == if radius >= 0 { radius as int } else { 0int },
            r@.mat == mat@,
    {
        Sphere {
            center,
            radius: if radius >= 0 { radius } else { 0 },
            mat,
        }
    }

    /// Intersection with a ray, restricted to parameters strictly inside
    /// the interval: the nearest root in range, solved from the half-b form
    /// of the quadratic `|ray.at(t) - center|^2 = radius^2`.
    pub fn hit(&self, ray: &Ray, ray_t: &Interval) -> (r: Option<HitRecord>)
        requires
            v3_len_sq(ray@.dir) >= 1,
        ensures
            match r {
                Some(h) => spec_sphere_hit(self@, ray@, ray_t.spec_min(), ray_t.spec_max())
                    == Some(h@) && hit_wf(h@),
                None => spec_sphere_hit(self@, ray@, ray_t.spec_min(), ray_t.spec_max()) is None,
            },
    {
        proof {
            reveal(spec_sphere_hit);
        }
        if self.radius <= 0 {
            return None;
        }
        let oc = self.center.sub(ray.origin());
        let a = ray.direction().length_squared();
        let half_b = ray.direction().dot(&oc);
        let c = fx_sub(oc.length_squared(), fx_mul(self.radius, self.radius));

        let discriminant = fx_sub(fx_mul(half_b, half_b), fx_mul(a, c));
        if discriminant < 0 {
            return None;
        }

        let sqrt_d = fx_sqrt(discriminant);

        // Find the nearest root that lies in the acceptable range.
        let mut root = fx_div(fx_sub(half_b, sqrt_d), a);
        if !ray_t.surrounds(root) {
            root = fx_div(fx_add(half_b, sqrt_d), a);
            if !ray_t.surrounds(root) {
                return None;
            }
        }

        let t = root;
        let p = ray.at(t);
        let outward_normal = p.sub(&self.center).div(self.radius);
        let mut rec = HitRecord::new(p, Vec3::default(), Arc::clone(&self.mat), t);
        rec.set_face_normal(ray, outward_normal);
        if rec.normal().length_squared() == 0 {
            // The oriented normal collapsed at the grid: discard the hit as
            // degenerate rather than hand out an unusable record.
            return None;
        }
        Some(rec)
    }
}

} // verus!
