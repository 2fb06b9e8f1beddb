//! Rays: an origin point and a direction vector.

use vstd::prelude::*;
use crate::vec3::{Vec3, V3, v3_add, v3_scale};

verus! {

/// The model of a ray.
pub ghost struct RayV {
    pub orig: V3,
    pub dir: V3,
}

/// The point a ray reaches at parameter `t`: `origin + t * direction`.
pub open spec fn spec_ray_at(r: RayV, t: int) -> V3 {
    v3_add(r.orig, v3_scale(r.dir, t))
}

/// A ray: origin and direction. The direction need not be normalized, but
/// the tracing pipeline keeps it measurable at the grid (squared length at
/// least one) so that it can always be normalized.
#[derive(Clone, Copy)]
pub struct Ray {
    orig: Vec3,
    dir: Vec3,
}

impl View for Ray {
    type V = RayV;

    closed spec fn view(&self) -> RayV {
        RayV { orig: self.orig@, dir: self.dir@ }
    }
}

impl Ray {
    pub fn new(origin: Vec3, direction: Vec3) -> (r: Self)
        ensures
            r@.orig == origin@ && r@.dir == direction@,
    {
        Ray { orig: origin, dir: direction }
    }

    pub fn origin(&self) -> (r: &Vec3)
        ensures
            r@ == self@.orig,
    {
        &self.orig
    }

    pub fn direction(&self) -> (r: &Vec3)
        ensures
            r@ == self@.dir,
    {
        &self.dir
    }

    /// The point at parameter `t` along the ray.
    pub fn at(&self, t: i64) -> (r: Vec3)
        ensures
            r@ == spec_ray_at(self@, t as int),
    {
        self.orig.add(&self.dir.scale(t))
    }
}

} // verus!
