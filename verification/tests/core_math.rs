use ray_tracer::fixed::{fx_add, fx_div, fx_mul, fx_sqrt, fx_sub, SCALE};
use ray_tracer::interval::Interval;
use ray_tracer::ray::Ray;
use ray_tracer::rng::Sampler;
use ray_tracer::vec3::Vec3;

#[test]
fn fixed_point_multiplication_rescales() {
    assert_eq!(fx_mul(SCALE, SCALE), SCALE);
    assert_eq!(fx_mul(SCALE / 2, SCALE / 2), SCALE / 4);
    assert_eq!(fx_mul(-SCALE, SCALE), -SCALE);
    assert_eq!(fx_mul(0, 12345), 0);
}

#[test]
fn fixed_point_division_truncates_toward_zero() {
    assert_eq!(fx_div(SCALE, 2 * SCALE), SCALE / 2);
    assert_eq!(fx_div(-SCALE, 2 * SCALE), -(SCALE / 2));
    assert_eq!(fx_div(1, 3), 21845); // 1/3 of 65536, truncated
}

#[test]
fn fixed_point_addition_saturates() {
    assert_eq!(fx_add(i64::MAX, 1), i64::MAX);
    assert_eq!(fx_sub(i64::MIN, 1), i64::MIN);
    assert_eq!(fx_add(1, 2), 3);
}

#[test]
fn fixed_point_square_root_exact_squares() {
    assert_eq!(fx_sqrt(0), 0);
    assert_eq!(fx_sqrt(SCALE), SCALE); // sqrt(1) = 1
    assert_eq!(fx_sqrt(4 * SCALE), 2 * SCALE); // sqrt(4) = 2
    assert_eq!(fx_sqrt(SCALE / 4), SCALE / 2); // sqrt(1/4) = 1/2
    assert_eq!(fx_sqrt(2 * SCALE), 92681); // sqrt(2), floored at the grid
}

#[test]
fn interval_queries() {
    let i = Interval::new(0, SCALE);
    assert!(i.contains(0));
    assert!(i.contains(SCALE));
    assert!(!i.surrounds(0));
    assert!(!i.surrounds(SCALE));
    assert!(i.surrounds(1));
    assert_eq!(i.size(), SCALE);
    assert_eq!(i.min(), 0);
    assert_eq!(i.max(), SCALE);
    assert_eq!(i.clamp(-5), 0);
    assert_eq!(i.clamp(SCALE + 5), SCALE);
    assert_eq!(i.clamp(42), 42);
}

#[test]
fn interval_empty_and_universe() {
    let empty = Interval::empty();
    assert!(!empty.contains(0));
    let all = Interval::universe();
    assert!(all.contains(i64::MIN));
    assert!(all.contains(i64::MAX));
    let d = Interval::default();
    assert!(!d.contains(0));
}

#[test]
fn vector_arithmetic() {
    let a = Vec3::new(SCALE, 2 * SCALE, -SCALE);
    let b = Vec3::new(SCALE, -SCALE, SCALE);
    let s = a.add(&b);
    assert_eq!((s.x(), s.y(), s.z()), (2 * SCALE, SCALE, 0));
    let d = a.sub(&b);
    assert_eq!((d.x(), d.y(), d.z()), (0, 3 * SCALE, -2 * SCALE));
    let n = a.neg();
    assert_eq!((n.x(), n.y(), n.z()), (-SCALE, -2 * SCALE, SCALE));
    let m = a.mul(&b);
    assert_eq!((m.x(), m.y(), m.z()), (SCALE, -2 * SCALE, -SCALE));
    let sc = a.scale(SCALE / 2);
    assert_eq!((sc.x(), sc.y(), sc.z()), (SCALE / 2, SCALE, -SCALE / 2));
    let dv = a.div(2 * SCALE);
    assert_eq!((dv.x(), dv.y(), dv.z()), (SCALE / 2, SCALE, -SCALE / 2));
}

#[test]
fn vector_dot_cross_length() {
    let x = Vec3::new(SCALE, 0, 0);
    let y = Vec3::new(0, SCALE, 0);
    assert_eq!(x.dot(&y), 0);
    assert_eq!(x.dot(&x), SCALE);
    let z = x.cross(&y);
    assert_eq!((z.x(), z.y(), z.z()), (0, 0, SCALE));
    assert_eq!(x.length_squared(), SCALE);
    assert_eq!(x.length(), SCALE);
    let diag = Vec3::new(SCALE, SCALE, 0);
    assert_eq!(diag.length_squared(), 2 * SCALE);
    assert_eq!(diag.length(), 92681);
}

#[test]
fn vector_unit_normalizes() {
    let v = Vec3::new(0, 0, -3 * SCALE);
    let u = v.unit();
    assert_eq!((u.x(), u.y(), u.z()), (0, 0, -SCALE));
    let diag = Vec3::new(SCALE, SCALE, 0).unit();
    assert_eq!((diag.x(), diag.y(), diag.z()), (46341, 46341, 0));
}

#[test]
fn vector_near_zero_at_grid() {
    assert!(Vec3::new(0, 0, 0).near_zero());
    assert!(Vec3::new(255, 255, 255).near_zero());
    assert!(!Vec3::new(256, 0, 0).near_zero());
    assert!(!Vec3::new(0, 0, SCALE).near_zero());
}

#[test]
fn vector_reflection() {
    let d = Vec3::new(SCALE, -SCALE, 0);
    let n = Vec3::new(0, SCALE, 0);
    let r = d.reflect(&n);
    assert_eq!((r.x(), r.y(), r.z()), (SCALE, SCALE, 0));
}

#[test]
fn ray_evaluates_points() {
    let r = Ray::new(Vec3::new(0, SCALE, 0), Vec3::new(0, 0, -SCALE));
    assert_eq!(r.origin().y(), SCALE);
    assert_eq!(r.direction().z(), -SCALE);
    let p = r.at(SCALE / 2);
    assert_eq!((p.x(), p.y(), p.z()), (0, SCALE, -SCALE / 2));
}

#[test]
fn fixed_sampler_repeats_its_value() {
    let mut s = Sampler::fixed(5);
    for _ in 0..10 {
        assert_eq!(s.next_unit(), 5);
    }
}

#[test]
fn seeded_sampler_draws_in_unit_range() {
    let mut s = Sampler::from_seed(7);
    let draws: Vec<i64> = (0..32).map(|_| s.next_unit()).collect();
    for &d in &draws {
        assert!((0..SCALE).contains(&d));
    }
    // A generator that ignored its state would repeat one value forever.
    assert!(draws.iter().any(|&d| d != draws[0]));
}

#[test]
fn random_unit_vector_is_normalized_at_grid() {
    let mut s = Sampler::from_seed(11);
    for _ in 0..16 {
        let v = Vec3::random_unit_vector(&mut s);
        let lsq = v.length_squared();
        assert!(lsq >= 1);
        // A unit vector's squared length sits near one at the grid.
        assert!(lsq <= 2 * SCALE);
    }
}
