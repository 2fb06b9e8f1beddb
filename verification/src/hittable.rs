//! Hit records: the transient result of a ray/geometry intersection.

use vstd::prelude::*;
use std::sync::Arc;
use crate::material::Material;
use crate::ray::Ray;
use crate::vec3::{Vec3, V3, v3_dot, v3_neg, v3_len_sq};

verus! {

/// The model of a hit: point, oriented unit-adjacent normal, parameter,
/// face orientation, and the struck material.
pub ghost struct HitV {
    pub p: V3,
    pub normal: V3,
    pub t: int,
    pub front_face: bool,
    pub mat: Material,
}

/// A well-formed hit carries a normal that is measurable at the grid, so a
/// scattered ray built on it can always be normalized.
pub open spec fn hit_wf(h: HitV) -> bool {
    v3_len_sq(h.normal) >= 1
}

/// The record of an intersection. The material is shared, never owned: many
/// geometries may reference one material instance.
pub struct HitRecord {
    p: Vec3,
    normal: Vec3,
    mat: Arc<Material>,
    t: i64,
    front_face: bool,
}

impl View for HitRecord {
    type V = HitV;

    closed spec fn view(&self) -> HitV {
        HitV {
            p: self.p@,
            normal: self.normal@,
            t: self.t as int,
            front_face: self.front_face,
            mat: self.mat@,
        }
    }
}

impl HitRecord {
    /// A record before orientation: the front-face flag starts false and is
    /// settled by `set_face_normal`.
    pub fn new(p: Vec3, normal: Vec3, mat: Arc<Material>, t: i64) -> (r: Self)
        ensures
            r@ == (HitV { p: p@, normal: normal@, t: t as int, front_face: false, mat: mat@ }),
    {
        HitRecord { p, normal, mat, t, front_face: false }
    }

    /// Whether the ray approaches from the outward side of the surface.
    pub open spec fn spec_is_front_face(ray_dir: V3, outward_normal: V3) -> bool {
        v3_dot(ray_dir, outward_normal) < 0
    }

    fn is_front_face(ray: &Ray, outward_normal: &Vec3) -> (r: bool)
        ensures
            r == Self::spec_is_front_face(ray@.dir, outward_normal@),
    {
        ray.direction().dot(outward_normal) < 0
    }

    /// Stores the outward normal oriented against the incoming ray, and the
    /// flag saying which side the ray came from.
    pub fn set_face_normal(&mut self, ray: &Ray, outward_normal: Vec3)
        ensures
            final(self)@ == (HitV {
                normal: if Self::spec_is_front_face(ray@.dir, outward_normal@) {
                    outward_normal@
                } else {
                    v3_neg(outward_normal@)
                },
                front_face: Self::spec_is_front_face(ray@.dir, outward_normal@),
                ..old(self)@
            }),
    {
        self.front_face = Self::is_front_face(ray, &outward_normal);
        self.normal = if self.front_face {
            outward_normal
        } else {
            outward_normal.neg()
        };
    }

    pub fn normal(&self) -> (r: &Vec3)
        ensures
            r@ == self@.normal,
    {
        &self.normal
    }

    pub fn t(&self) -> (r: i64)
        ensures
            r == self@.t,
    {
        self.t
    }

    pub fn p(&self) -> (r: &Vec3)
        ensures
            r@ == self@.p,
    {
        &self.p
    }

    pub fn front_face(&self) -> (r: bool)
        ensures
            r == self@.front_face,
    {
        self.front_face
    }

    /// The shared material that was struck.
    pub fn material(&self) -> (r: &Arc<Material>)
        ensures
            r@ == self@.mat,
    {
        &self.mat
    }
}

} // verus!
