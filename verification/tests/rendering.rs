use std::sync::Arc;

use ray_tracer::camera::{Camera, CameraError};
use ray_tracer::color::{linear_to_gamma, to_rgb8};
use ray_tracer::fixed::SCALE;
use ray_tracer::hittable_list::HittableList;
use ray_tracer::material::{Lambertian, Material};
use ray_tracer::ray::Ray;
use ray_tracer::rng::Sampler;
use ray_tracer::sphere::Sphere;
use ray_tracer::vec3::Vec3;

fn gray() -> Arc<Material> {
    Arc::new(Material::Lambertian(Lambertian::new(Vec3::new(SCALE / 2, SCALE / 2, SCALE / 2))))
}

#[test]
fn nearest_hit_wins_in_either_order() {
    // Two spheres straddling one ray's path: the reported record is always
    // the one with the smaller parameter, whatever the member order.
    let near = Sphere::new(Vec3::new(0, 0, -SCALE), SCALE / 4, gray());
    let far = Sphere::new(Vec3::new(0, 0, -2 * SCALE), SCALE / 2, gray());
    let ray = Ray::new(Vec3::new(0, 0, 0), Vec3::new(0, 0, -SCALE));
    let range = ray_tracer::interval::Interval::new(66, i64::MAX);

    let mut world_a = HittableList::default();
    world_a.add(Sphere::new(Vec3::new(0, 0, -SCALE), SCALE / 4, gray()));
    world_a.add(far);
    let rec_a = world_a.hit(&ray, &range).expect("hit");

    let mut world_b = HittableList::new(Sphere::new(Vec3::new(0, 0, -2 * SCALE), SCALE / 2, gray()));
    world_b.add(near);
    let rec_b = world_b.hit(&ray, &range).expect("hit");

    // t = 1 - 1/4 on the near sphere.
    assert_eq!(rec_a.t(), 3 * SCALE / 4);
    assert_eq!(rec_b.t(), 3 * SCALE / 4);
    assert_eq!(rec_a.p().z(), rec_b.p().z());
    assert_eq!(rec_a.normal().z(), SCALE);
}

#[test]
fn empty_scene_never_hits() {
    let world = HittableList::default();
    let ray = Ray::new(Vec3::new(0, 0, 0), Vec3::new(0, 0, -SCALE));
    let range = ray_tracer::interval::Interval::new(66, i64::MAX);
    assert!(world.hit(&ray, &range).is_none());
    let mut once = HittableList::new(Sphere::new(Vec3::new(0, 0, -SCALE), SCALE / 2, gray()));
    once.clear();
    assert!(once.hit(&ray, &range).is_none());
}

#[test]
fn ray_color_depth_zero_is_black() {
    let mut world = HittableList::default();
    world.add(Sphere::new(Vec3::new(0, 0, -SCALE), SCALE / 2, gray()));
    let ray = Ray::new(Vec3::new(0, 0, 0), Vec3::new(0, 0, -SCALE));
    let mut s = Sampler::from_seed(1);
    let c = Camera::ray_color(&ray, 0, &world, &mut s);
    assert_eq!((c.x(), c.y(), c.z()), (0, 0, 0));
}

#[test]
fn straight_up_ray_sees_the_zenith() {
    // An empty scene and a ray aimed straight up: blend factor one, pure
    // sky-blue (0.5, 0.7, 1.0).
    let world = HittableList::default();
    let ray = Ray::new(Vec3::new(0, 0, 0), Vec3::new(0, SCALE, 0));
    let mut s = Sampler::from_seed(1);
    let c = Camera::ray_color(&ray, 10, &world, &mut s);
    assert_eq!((c.x(), c.y(), c.z()), (SCALE / 2, 45875, SCALE));
}

#[test]
fn gamma_encoding_edges() {
    assert_eq!(linear_to_gamma(0), 0);
    assert_eq!(linear_to_gamma(-5), 0);
    assert_eq!(linear_to_gamma(SCALE), SCALE);
    // Channel 0 for zero radiance, channel 255 for radiance one.
    assert_eq!(to_rgb8(&Vec3::new(0, 0, 0)), (0, 0, 0));
    assert_eq!(to_rgb8(&Vec3::new(SCALE, SCALE, SCALE)), (255, 255, 255));
    // Anything above the clamp still quantizes to 255.
    assert_eq!(to_rgb8(&Vec3::new(4 * SCALE, SCALE, 0)).0, 255);
    // A quarter of full radiance gamma-encodes to a half.
    assert_eq!(to_rgb8(&Vec3::new(SCALE / 4, 0, 0)).0, 128);
}

#[test]
fn camera_builder_validates_configuration() {
    assert!(Camera::builder().build().is_ok());
    assert_eq!(
        Camera::builder().image_width(0).build().unwrap_err(),
        CameraError::InvalidImageWidth,
    );
    assert_eq!(
        Camera::builder().samples_per_pixel(0).build().unwrap_err(),
        CameraError::InvalidSamples,
    );
    assert_eq!(
        Camera::builder().aspect_ratio(0).build().unwrap_err(),
        CameraError::InvalidAspectRatio,
    );
    assert_eq!(Camera::builder().vfov(0).build().unwrap_err(), CameraError::InvalidVfov);
    assert_eq!(
        Camera::builder().vfov(180 * SCALE).build().unwrap_err(),
        CameraError::InvalidVfov,
    );
    assert_eq!(
        Camera::builder().focus_dist(0).build().unwrap_err(),
        CameraError::InvalidFocusDistance,
    );
    assert_eq!(
        Camera::builder().defocus_angle(180 * SCALE).build().unwrap_err(),
        CameraError::InvalidDefocusAngle,
    );
    assert_eq!(
        Camera::builder().look_at(Vec3::new(0, 0, 0)).build().unwrap_err(),
        CameraError::DegenerateLookDirection,
    );
    assert_eq!(
        Camera::builder().vup(Vec3::new(0, 0, SCALE)).build().unwrap_err(),
        CameraError::DegenerateUp,
    );
}

#[test]
fn camera_derives_height_from_aspect_ratio() {
    let cam = Camera::builder().image_width(200).aspect_ratio(2 * SCALE).build().unwrap();
    assert_eq!(cam.image_width(), 200);
    assert_eq!(cam.image_height(), 100);
    // The quotient rounds to the nearest integer: 3 / 2 gives 2, not 1.
    let odd = Camera::builder().image_width(3).aspect_ratio(2 * SCALE).build().unwrap();
    assert_eq!(odd.image_height(), 2);
    // A height that would round to zero is clamped to one pixel.
    let thin = Camera::builder().image_width(1).aspect_ratio(8 * SCALE).build().unwrap();
    assert_eq!(thin.image_height(), 1);
}

#[test]
fn render_empty_scene_matches_projection_closed_form() {
    // A 2x2 render of an empty scene with one sample per pixel and the
    // jitter pinned to zero must reproduce, pixel for pixel, the background
    // gradient of each pixel's un-jittered ray.
    let cam = Camera::builder()
        .image_width(2)
        .samples_per_pixel(1)
        .max_depth(10)
        .build()
        .unwrap();
    assert_eq!(cam.image_height(), 2);
    let world = HittableList::default();
    let mut s = Sampler::fixed(SCALE / 2); // jitter = draw - 1/2 = 0
    let buf = cam.render(&world, &mut s);
    assert_eq!(buf.len(), 12);

    for y in 0..2u32 {
        for x in 0..2u32 {
            let sample = cam
                .pixel00_loc()
                .add(&cam.pixel_delta_u().scale(x as i64 * SCALE))
                .add(&cam.pixel_delta_v().scale(y as i64 * SCALE));
            let dir = sample.sub(&cam.center());
            let expected = to_rgb8(&Camera::background(&Ray::new(cam.center(), dir)));
            let base = (3 * (y * 2 + x)) as usize;
            assert_eq!((buf[base], buf[base + 1], buf[base + 2]), expected);
        }
    }
    // The blue channel of the gradient is full everywhere, and the upper
    // row, seeing more sky, has no more red than the lower.
    assert!(buf[2] == 255 && buf[11] == 255);
    assert!(buf[0] <= buf[6]);
}

#[test]
fn fixed_renders_are_reproducible() {
    // Under a fixed sampler the whole pipeline is a function of the scene
    // and camera alone: two renders agree byte for byte, sphere included.
    let cam = Camera::builder().image_width(3).samples_per_pixel(1).max_depth(6).build().unwrap();
    let mut world = HittableList::default();
    world.add(Sphere::new(Vec3::new(0, 0, -SCALE), SCALE / 2, gray()));
    let mut s1 = Sampler::fixed(SCALE / 2);
    let mut s2 = Sampler::fixed(SCALE / 2);
    let a = cam.render(&world, &mut s1);
    let b = cam.render(&world, &mut s2);
    assert_eq!(a, b);
    assert_eq!(a.len(), 3 * 3 * 3);
}

#[test]
fn render_scene_with_sphere_darkens_center() {
    // A small render against a single gray sphere: the buffer has the right
    // shape and the sphere's pixels differ from the pure background.
    let cam = Camera::builder().image_width(4).samples_per_pixel(2).max_depth(4).build().unwrap();
    let mut world = HittableList::default();
    world.add(Sphere::new(Vec3::new(0, 0, -SCALE), SCALE / 2, gray()));
    let mut s = Sampler::from_seed(42);
    let buf = cam.render(&world, &mut s);
    assert_eq!(buf.len(), 4 * 4 * 3);
    let empty = HittableList::default();
    let mut s2 = Sampler::fixed(SCALE / 2);
    let sky = cam.render(&empty, &mut s2);
    assert_ne!(buf, sky);
}
