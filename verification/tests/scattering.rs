use std::sync::Arc;

use ray_tracer::fixed::SCALE;
use ray_tracer::hittable::HitRecord;
use ray_tracer::interval::Interval;
use ray_tracer::material::{Dielectric, Lambertian, Material, Metal};
use ray_tracer::ray::Ray;
use ray_tracer::rng::Sampler;
use ray_tracer::sphere::Sphere;
use ray_tracer::vec3::Vec3;

fn white() -> Arc<Material> {
    Arc::new(Material::Lambertian(Lambertian::new(Vec3::new(SCALE, SCALE, SCALE))))
}

/// A record for a ray striking a horizontal floor from above at the origin.
fn floor_record(ray: &Ray) -> HitRecord {
    let mut rec = HitRecord::new(Vec3::new(0, 0, 0), Vec3::new(0, 0, 0), white(), SCALE);
    rec.set_face_normal(ray, Vec3::new(0, SCALE, 0));
    rec
}

#[test]
fn lambertian_always_scatters_with_exact_albedo() {
    let albedo = Vec3::new(SCALE / 2, SCALE / 4, SCALE / 8);
    let mat = Lambertian::new(albedo);
    let ray = Ray::new(Vec3::new(0, SCALE, 0), Vec3::new(0, -SCALE, 0));
    let mut s = Sampler::from_seed(3);
    for _ in 0..8 {
        let rec = floor_record(&ray);
        let (attenuation, scattered) = mat.scatter(&ray, &rec, &mut s).expect("diffuse scatter");
        assert_eq!(
            (attenuation.x(), attenuation.y(), attenuation.z()),
            (SCALE / 2, SCALE / 4, SCALE / 8),
        );
        // The scattered ray starts exactly at the hit point.
        assert_eq!(
            (scattered.origin().x(), scattered.origin().y(), scattered.origin().z()),
            (rec.p().x(), rec.p().y(), rec.p().z()),
        );
        assert!(scattered.direction().length_squared() >= 1);
    }
}

#[test]
fn metal_zero_fuzz_is_an_exact_mirror() {
    let mat = Metal::new(Vec3::new(SCALE, SCALE, SCALE), 0);
    let ray = Ray::new(Vec3::new(-SCALE, SCALE, 0), Vec3::new(SCALE, -SCALE, 0));
    let rec = floor_record(&ray);
    let mut s = Sampler::fixed(0);
    let (_, scattered) = mat.scatter(&ray, &rec, &mut s).expect("mirror scatter");
    // Angle of incidence equals angle of reflection: the component of the
    // scattered direction along the normal is the negation of the incoming
    // unit direction's.
    let n = Vec3::new(0, SCALE, 0);
    let incoming_cos = ray.direction().unit().dot(&n);
    let outgoing_cos = scattered.direction().dot(&n);
    assert_eq!(outgoing_cos, -incoming_cos);
    assert_eq!(outgoing_cos, 46341); // cos(45 degrees) at the grid
    let d = scattered.direction();
    assert_eq!((d.x(), d.y(), d.z()), (46341, 46341, 0));
}

#[test]
fn metal_absorbs_rays_reflected_into_the_surface() {
    let mat = Metal::new(Vec3::new(SCALE, SCALE, SCALE), 0);
    // A ray leaving along the stored normal mirrors to point into the
    // surface, and the sample is absorbed.
    let ray = Ray::new(Vec3::new(0, -SCALE, 0), Vec3::new(0, SCALE, 0));
    let rec = HitRecord::new(Vec3::new(0, 0, 0), Vec3::new(0, SCALE, 0), white(), SCALE);
    let mut s = Sampler::fixed(0);
    assert!(mat.scatter(&ray, &rec, &mut s).is_none());
}

#[test]
fn metal_clamps_fuzz_at_construction() {
    let m = Metal::new(Vec3::new(SCALE, SCALE, SCALE), 3 * SCALE);
    assert_eq!(m.fuzz, SCALE);
    let m = Metal::new(Vec3::new(SCALE, SCALE, SCALE), -5);
    assert_eq!(m.fuzz, 0);
}

#[test]
fn dielectric_matched_index_does_not_bend() {
    let mat = Dielectric::new(SCALE); // refraction index 1: matching medium
    let ray = Ray::new(Vec3::new(0, 0, SCALE), Vec3::new(0, 0, -SCALE));
    let mut rec = HitRecord::new(Vec3::new(0, 0, 0), Vec3::new(0, 0, 0), white(), SCALE);
    rec.set_face_normal(&ray, Vec3::new(0, 0, SCALE));
    assert!(rec.front_face());
    let mut s = Sampler::fixed(SCALE - 1);
    let (attenuation, scattered) = mat.scatter(&ray, &rec, &mut s).expect("glass scatter");
    // Output direction equals input direction: no bending at ratio one.
    let d = scattered.direction();
    assert_eq!((d.x(), d.y(), d.z()), (0, 0, -SCALE));
    // Clear glass tints nothing.
    assert_eq!((attenuation.x(), attenuation.y(), attenuation.z()), (SCALE, SCALE, SCALE));
}

#[test]
fn dielectric_tint_is_the_attenuation() {
    let tint = Vec3::new(SCALE, SCALE / 2, SCALE / 4);
    let mat = Dielectric::tinted(3 * SCALE / 2, tint);
    let ray = Ray::new(Vec3::new(0, 0, SCALE), Vec3::new(0, 0, -SCALE));
    let mut rec = HitRecord::new(Vec3::new(0, 0, 0), Vec3::new(0, 0, 0), white(), SCALE);
    rec.set_face_normal(&ray, Vec3::new(0, 0, SCALE));
    let mut s = Sampler::from_seed(9);
    let (attenuation, _) = mat.scatter(&ray, &rec, &mut s).expect("glass always scatters");
    assert_eq!(
        (attenuation.x(), attenuation.y(), attenuation.z()),
        (SCALE, SCALE / 2, SCALE / 4),
    );
}

#[test]
fn sphere_hit_on_axis() {
    // A sphere at (0, 0, -1) with radius 1/2, a ray from the origin aimed
    // straight at it: hit at t = 1/2, point (0, 0, -1/2), normal (0, 0, 1),
    // front face.
    let sphere = Sphere::new(Vec3::new(0, 0, -SCALE), SCALE / 2, white());
    let ray = Ray::new(Vec3::new(0, 0, 0), Vec3::new(0, 0, -SCALE));
    let rec = sphere.hit(&ray, &Interval::new(66, i64::MAX)).expect("direct hit");
    assert_eq!(rec.t(), SCALE / 2);
    assert_eq!((rec.p().x(), rec.p().y(), rec.p().z()), (0, 0, -SCALE / 2));
    assert_eq!((rec.normal().x(), rec.normal().y(), rec.normal().z()), (0, 0, SCALE));
    assert!(rec.front_face());
}

#[test]
fn sphere_inside_hit_flips_normal() {
    // From the centre of the sphere the ray leaves through the far wall:
    // back face, normal flipped against the ray.
    let sphere = Sphere::new(Vec3::new(0, 0, 0), SCALE, white());
    let ray = Ray::new(Vec3::new(0, 0, 0), Vec3::new(0, 0, -SCALE));
    let rec = sphere.hit(&ray, &Interval::new(66, i64::MAX)).expect("inside hit");
    assert_eq!(rec.t(), SCALE);
    assert!(!rec.front_face());
    assert_eq!((rec.normal().x(), rec.normal().y(), rec.normal().z()), (0, 0, SCALE));
}

#[test]
fn sphere_miss_and_behind() {
    let sphere = Sphere::new(Vec3::new(0, 0, -SCALE), SCALE / 2, white());
    // Aimed away from the sphere.
    let away = Ray::new(Vec3::new(0, 0, 0), Vec3::new(0, 0, SCALE));
    assert!(sphere.hit(&away, &Interval::new(66, i64::MAX)).is_none());
    // Aimed well off to the side.
    let aside = Ray::new(Vec3::new(0, 0, 0), Vec3::new(0, 4 * SCALE, -SCALE));
    assert!(sphere.hit(&aside, &Interval::new(66, i64::MAX)).is_none());
}

#[test]
fn sphere_degenerate_radius_reports_nothing() {
    let point = Sphere::new(Vec3::new(0, 0, -SCALE), 0, white());
    let ray = Ray::new(Vec3::new(0, 0, 0), Vec3::new(0, 0, -SCALE));
    assert!(point.hit(&ray, &Interval::new(66, i64::MAX)).is_none());
    // A negative radius is clamped to zero at construction.
    let clamped = Sphere::new(Vec3::new(0, 0, -SCALE), -SCALE, white());
    assert!(clamped.hit(&ray, &Interval::new(66, i64::MAX)).is_none());
}
