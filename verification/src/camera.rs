//! The camera: projection geometry derived once from user parameters,
//! per-pixel stochastic sample rays, the recursive light transport, and the
//! render loop that turns a scene into an 8-bit RGB pixel buffer.

use vstd::prelude::*;
use crate::color::{to_rgb8, spec_channel};
use crate::fixed::{
    SCALE, HALF_SCALE, fx_add, fx_sub, fx_mul, fx_div, fx_idiv, spec_add, spec_sub, spec_mul,
    spec_div, spec_clamp, tdiv, lemma_tdiv_bounds, lemma_tdiv_one,
};
use crate::hittable_list::{HittableList, spec_list_hit};
use crate::material::{mat_attenuation, mat_scatter_det};
use crate::sphere::SphereV;
use crate::interval::Interval;
use crate::ray::{Ray, RayV};
use crate::rng::Sampler;
use crate::vec3::{
    Vec3, V3, v3_add, v3_sub, v3_neg, v3_scale, v3_cmul, v3_cross, v3_div_int, v3_len_sq,
    v3_unit, spec_disk_point, lemma_v3_len_sq_nonneg,
};

verus! {

/// Radians per degree in fixed point: the nearest grid value to pi / 180.
pub const PI_OVER_180: i64 = 1144;

/// The lower bound of every hit search, about one thousandth: a ray never
/// re-intersects the surface it just left ("shadow acne").
pub const T_MIN: i64 = 66;

/// Sine by its Taylor polynomial through the seventh power, in fixed
/// point; accurate on the half-angles the camera feeds it (below a right
/// angle).
pub open spec fn spec_sin(x: int) -> int {
    let x2 = spec_mul(x, x);
    let x3 = spec_mul(x2, x);
    let x5 = spec_mul(x3, x2);
    let x7 = spec_mul(x5, x2);
    spec_sub(spec_add(spec_sub(x, tdiv(x3, 6)), tdiv(x5, 120)), tdiv(x7, 5040))
}

/// Cosine by its Taylor polynomial through the eighth power, in fixed
/// point.
pub open spec fn spec_cos(x: int) -> int {
    let x2 = spec_mul(x, x);
    let x4 = spec_mul(x2, x2);
    let x6 = spec_mul(x4, x2);
    let x8 = spec_mul(x6, x2);
    spec_add(
        spec_sub(spec_add(spec_sub(SCALE as int, tdiv(x2, 2)), tdiv(x4, 24)), tdiv(x6, 720)),
        tdiv(x8, 40320),
    )
}

fn fx_sin(x: i64) -> (r: i64)
    ensures
        r == spec_sin(x as int),
{
    let x2 = fx_mul(x, x);
    let x3 = fx_mul(x2, x);
    let x5 = fx_mul(x3, x2);
    let x7 = fx_mul(x5, x2);
    fx_sub(fx_add(fx_sub(x, fx_idiv(x3, 6)), fx_idiv(x5, 120)), fx_idiv(x7, 5040))
}

fn fx_cos(x: i64) -> (r: i64)
    ensures
        r == spec_cos(x as int),
{
    let x2 = fx_mul(x, x);
    let x4 = fx_mul(x2, x2);
    let x6 = fx_mul(x4, x2);
    let x8 = fx_mul(x6, x2);
    fx_add(
        fx_sub(fx_add(fx_sub(SCALE, fx_idiv(x2, 2)), fx_idiv(x4, 24)), fx_idiv(x6, 720)),
        fx_idiv(x8, 40320),
    )
}

/// The sky gradient a missed ray contributes: a blend between white and
/// sky-blue keyed on the normalized direction's vertical component,
/// `(1 - a) * white + a * blue` with `a = (y + 1) / 2`.
#[verifier::opaque]
pub open spec fn spec_background(r: RayV) -> V3
    recommends
        v3_len_sq(r.dir) >= 1,
{
    let a = spec_mul(HALF_SCALE as int, spec_add(v3_unit(r.dir).y, SCALE as int));
    v3_add(
        v3_scale(
            V3 { x: SCALE as int, y: SCALE as int, z: SCALE as int },
            spec_sub(SCALE as int, a),
        ),
        v3_scale(V3 { x: HALF_SCALE as int, y: 45875int, z: SCALE as int }, a),
    )
}

/// The colour a ray gathers under a fixed sampler yielding `u`: with the
/// bounce budget spent, black; on a miss, the background; on a hit, the
/// struck material's deterministic scatter outcome, black when absorbed and
/// otherwise the attenuated colour of the followed ray.
pub open spec fn spec_ray_color_det(world: Seq<SphereV>, ray: RayV, depth: int, u: int) -> V3
    decreases depth,
{
    if depth <= 0 {
        V3 { x: 0int, y: 0int, z: 0int }
    } else {
        match spec_list_hit(world, ray, T_MIN as int, i64::MAX as int) {
            None => spec_background(ray),
            Some(h) => match mat_scatter_det(h.mat, ray, h, u) {
                None => V3 { x: 0int, y: 0int, z: 0int },
                Some((att, sc)) => v3_cmul(att, spec_ray_color_det(world, sc, depth - 1, u)),
            },
        }
    }
}

/// Whatever a ray gathers, each channel lies in the `i64` range: every
/// branch of the deterministic colour ends in a saturating operation or a
/// literal.
proof fn lemma_ray_color_det_bounded(world: Seq<SphereV>, ray: RayV, depth: int, u: int)
    ensures
        i64::MIN <= spec_ray_color_det(world, ray, depth, u).x <= i64::MAX,
        i64::MIN <= spec_ray_color_det(world, ray, depth, u).y <= i64::MAX,
        i64::MIN <= spec_ray_color_det(world, ray, depth, u).z <= i64::MAX,
{
    reveal(spec_background);
}

/// The model of a camera: the configuration that survives construction and
/// the projection geometry derived from it.
pub ghost struct CameraV {
    pub image_width: int,
    pub samples_per_pixel: int,
    pub max_depth: int,
    pub defocus_angle: int,
    pub image_height: int,
    pub center: V3,
    pub pixel00_loc: V3,
    pub pixel_delta_u: V3,
    pub pixel_delta_v: V3,
    pub defocus_disk_u: V3,
    pub defocus_disk_v: V3,
}

/// Why a configuration was rejected.
#[derive(Clone, Copy, PartialEq, Eq, Structural, Debug)]
pub enum CameraError {
    InvalidImageWidth,
    InvalidSamples,
    InvalidAspectRatio,
    InvalidVfov,
    InvalidFocusDistance,
    InvalidDefocusAngle,
    DegenerateLookDirection,
    DegenerateUp,
}

/// The camera's forward axis, from the configuration: the normalized
/// direction from the look-at point back to the eye.
pub open spec fn spec_w_axis(b: CamBuilder) -> V3 {
    v3_unit(v3_sub(b.look_from@, b.look_at@))
}

/// A vertical field of view is usable when it is strictly between zero and
/// a straight angle and its half-angle cosine is measurably positive at
/// the grid, so the tangent can be formed.
pub open spec fn spec_vfov_ok(b: CamBuilder) -> bool {
    0 < b.vfov < 180 * SCALE && spec_cos(tdiv(spec_mul(b.vfov as int, PI_OVER_180 as int), 2)) > 0
}

/// A defocus angle is usable when it is zero or negative (a pinhole), or
/// small enough that its half-angle tangent can be formed.
pub open spec fn spec_defocus_ok(b: CamBuilder) -> bool {
    b.defocus_angle <= 0 || (b.defocus_angle < 180 * SCALE && spec_cos(
        spec_mul(tdiv(b.defocus_angle as int, 2), PI_OVER_180 as int),
    ) > 0)
}

/// The first reason to reject a configuration, or nothing if it is
/// acceptable.
pub open spec fn spec_build_err(b: CamBuilder) -> Option<CameraError> {
    if b.image_width < 1 {
        Some(CameraError::InvalidImageWidth)
    } else if b.samples_per_pixel < 1 {
        Some(CameraError::InvalidSamples)
    } else if b.aspect_ratio <= 0 {
        Some(CameraError::InvalidAspectRatio)
    } else if !spec_vfov_ok(b) {
        Some(CameraError::InvalidVfov)
    } else if b.focus_dist <= 0 {
        Some(CameraError::InvalidFocusDistance)
    } else if !spec_defocus_ok(b) {
        Some(CameraError::InvalidDefocusAngle)
    } else if v3_len_sq(v3_sub(b.look_from@, b.look_at@)) == 0 {
        Some(CameraError::DegenerateLookDirection)
    } else if v3_len_sq(v3_cross(b.vup@, spec_w_axis(b))) == 0 {
        Some(CameraError::DegenerateUp)
    } else {
        None
    }
}

/// The projection geometry a valid configuration builds: viewport height
/// from the half-angle tangent at the focus distance, an orthonormal-
/// adjacent basis from the look and up directions, per-pixel step vectors,
/// the upper-left pixel centre, and the defocus disk basis.
pub open spec fn spec_build_cam(b: CamBuilder) -> CameraV
    recommends
        spec_build_err(b) is None,
{
    let image_height = spec_clamp(
        tdiv(2 * b.image_width * SCALE + b.aspect_ratio, 2 * b.aspect_ratio as int),
        1,
        u32::MAX as int,
    );
    let half_theta = tdiv(spec_mul(b.vfov as int, PI_OVER_180 as int), 2);
    let h = spec_div(spec_sin(half_theta), spec_cos(half_theta));
    let viewport_height = spec_mul(spec_add(h, h), b.focus_dist as int);
    let viewport_width = spec_mul(
        viewport_height,
        spec_div(b.image_width as int * SCALE, image_height * SCALE),
    );
    let w_axis = spec_w_axis(b);
    let u_axis = v3_unit(v3_cross(b.vup@, w_axis));
    let v_axis = v3_cross(w_axis, u_axis);
    let viewport_u = v3_scale(u_axis, viewport_width);
    let viewport_v = v3_scale(v3_neg(v_axis), viewport_height);
    let pixel_delta_u = v3_div_int(viewport_u, b.image_width as int);
    let pixel_delta_v = v3_div_int(viewport_v, image_height);
    let viewport_upper_left = v3_sub(
        v3_sub(
            v3_sub(b.look_from@, v3_scale(w_axis, b.focus_dist as int)),
            v3_div_int(viewport_u, 2),
        ),
        v3_div_int(viewport_v, 2),
    );
    let pixel00_loc = v3_add(
        viewport_upper_left,
        v3_scale(v3_add(pixel_delta_u, pixel_delta_v), HALF_SCALE as int),
    );
    let half_defocus = spec_mul(tdiv(b.defocus_angle as int, 2), PI_OVER_180 as int);
    let defocus_radius = if b.defocus_angle <= 0 {
        0int
    } else {
        spec_mul(b.focus_dist as int, spec_div(spec_sin(half_defocus), spec_cos(half_defocus)))
    };
    CameraV {
        image_width: b.image_width as int,
        samples_per_pixel: b.samples_per_pixel as int,
        max_depth: b.max_depth as int,
        defocus_angle: b.defocus_angle as int,
        image_height,
        center: b.look_from@,
        pixel00_loc,
        pixel_delta_u,
        pixel_delta_v,
        defocus_disk_u: v3_scale(u_axis, defocus_radius),
        defocus_disk_v: v3_scale(v_axis, defocus_radius),
    }
}

/// The sample ray for pixel `(x, y)` built from a jitter `(jx, jy)` on the
/// pixel axes and a defocus-disk point `p`: the origin is the centre
/// offset along the disk basis, the direction runs from there to the
/// jittered pixel sample; a direction that collapses at the grid is
/// replaced by the fixed downrange axis.
#[verifier::opaque]
pub open spec fn spec_ray_sample(c: CameraV, x: int, y: int, jx: int, jy: int, p: V3) -> RayV {
    let sample = v3_add(
        v3_add(c.pixel00_loc, v3_scale(c.pixel_delta_u, spec_add(x * SCALE, jx))),
        v3_scale(c.pixel_delta_v, spec_add(y * SCALE, jy)),
    );
    let origin = v3_add(
        v3_add(c.center, v3_scale(c.defocus_disk_u, p.x)),
        v3_scale(c.defocus_disk_v, p.y),
    );
    let dir0 = v3_sub(sample, origin);
    let dir = if v3_len_sq(dir0) == 0 {
        V3 { x: 0int, y: 0int, z: -SCALE as int }
    } else {
        dir0
    };
    RayV { orig: origin, dir }
}

/// The sample ray under a fixed sampler yielding `u`: jitter `u - 1/2` on
/// both pixel axes and the disk point the fixed draws settle on.
#[verifier::opaque]
pub open spec fn spec_get_ray(c: CameraV, x: int, y: int, u: int) -> RayV {
    spec_ray_sample(c, x, y, u - HALF_SCALE, u - HALF_SCALE, spec_disk_point(u))
}

/// The immutable-after-construction camera.
#[derive(Debug)]
pub struct Camera {
    image_width: u32,
    samples_per_pixel: u32,
    max_depth: u32,
    defocus_angle: i64,
    image_height: u32,
    center: Vec3,
    pixel00_loc: Vec3,
    pixel_delta_u: Vec3,
    pixel_delta_v: Vec3,
    defocus_disk_u: Vec3,
    defocus_disk_v: Vec3,
}

impl View for Camera {
    type V = CameraV;

    closed spec fn view(&self) -> CameraV {
        CameraV {
            image_width: self.image_width as int,
            samples_per_pixel: self.samples_per_pixel as int,
            max_depth: self.max_depth as int,
            defocus_angle: self.defocus_angle as int,
            image_height: self.image_height as int,
            center: self.center@,
            pixel00_loc: self.pixel00_loc@,
            pixel_delta_u: self.pixel_delta_u@,
            pixel_delta_v: self.pixel_delta_v@,
            defocus_disk_u: self.defocus_disk_u@,
            defocus_disk_v: self.defocus_disk_v@,
        }
    }
}

/// The configuration surface: every parameter has a documented default and
/// is validated once, by `build`.
pub struct CamBuilder {
    /// Ratio of image width over height, in fixed point; default one.
    pub aspect_ratio: i64,
    /// Rendered image width in pixels; positive, default 100.
    pub image_width: u32,
    /// Random samples per pixel; positive, default 10.
    pub samples_per_pixel: u32,
    /// Maximum ray bounces; default 10.
    pub max_depth: u32,
    /// Vertical field of view in fixed-point degrees; default 90.
    pub vfov: i64,
    /// The eye point; default the origin.
    pub look_from: Vec3,
    /// The point looked at; default one unit down the negative z axis.
    pub look_at: Vec3,
    /// The camera-relative up direction; default the positive y axis.
    pub vup: Vec3,
    /// Variation angle of ray origins, fixed-point degrees; default 0.
    pub defocus_angle: i64,
    /// Distance to the plane of perfect focus; default 10.
    pub focus_dist: i64,
}

impl Camera {
    #[verifier::type_invariant]
    spec fn type_inv(self) -> bool {
        self.image_width >= 1 && self.image_height >= 1 && self.samples_per_pixel >= 1
    }

    /// A builder loaded with the documented defaults.
    pub fn builder() -> (r: CamBuilder)
        ensures
            r == CamBuilder::default_config(),
    {
        CamBuilder::default()
    }

    pub fn image_width(&self) -> (r: u32)
        ensures
            r == self@.image_width,
    {
        self.image_width
    }

    pub fn image_height(&self) -> (r: u32)
        ensures
            r == self@.image_height,
    {
        self.image_height
    }

    pub fn samples_per_pixel(&self) -> (r: u32)
        ensures
            r == self@.samples_per_pixel,
    {
        self.samples_per_pixel
    }

    pub fn max_depth(&self) -> (r: u32)
        ensures
            r == self@.max_depth,
    {
        self.max_depth
    }

    pub fn center(&self) -> (r: Vec3)
        ensures
            r@ == self@.center,
    {
        self.center
    }

    pub fn pixel00_loc(&self) -> (r: Vec3)
        ensures
            r@ == self@.pixel00_loc,
    {
        self.pixel00_loc
    }

    pub fn pixel_delta_u(&self) -> (r: Vec3)
        ensures
            r@ == self@.pixel_delta_u,
    {
        self.pixel_delta_u
    }

    pub fn pixel_delta_v(&self) -> (r: Vec3)
        ensures
            r@ == self@.pixel_delta_v,
    {
        self.pixel_delta_v
    }

    /// One stochastic sample ray through pixel `(x, y)`: a jittered point
    /// on the pixel square, aimed from the defocus disk. The single code
    /// path covers the pinhole camera too: with both disk basis vectors
    /// zero the origin is exactly the centre, whatever was drawn.
    pub fn get_ray(&self, x: u32, y: u32, s: &mut Sampler) -> (r: Ray)
        ensures
            v3_len_sq(r@.dir) >= 1,
            exists|jx: int, jy: int, p: V3|
                -HALF_SCALE <= jx < HALF_SCALE && -HALF_SCALE <= jy < HALF_SCALE && v3_len_sq(p)
                    < SCALE && p.z == 0 && r@ == #[trigger] spec_ray_sample(
                    self@,
                    x as int,
                    y as int,
                    jx,
                    jy,
                    p,
                ),
            final(s).is_fixed() == old(s).is_fixed(),
            old(s).is_fixed() ==> *final(s) == *old(s) && r@ == spec_get_ray(
                self@,
                x as int,
                y as int,
                old(s).fixed_value(),
            ),
            self@.defocus_disk_u == (V3 { x: 0int, y: 0int, z: 0int }) && self@.defocus_disk_v
                == (V3 { x: 0int, y: 0int, z: 0int }) ==> r@.orig == self@.center,
    {
        proof {
            reveal(spec_get_ray);
            reveal(spec_ray_sample);
        }
        let jx = fx_sub(s.next_unit(), HALF_SCALE);
        let jy = fx_sub(s.next_unit(), HALF_SCALE);
        let sx = fx_add((x as i64) * SCALE, jx);
        let sy = fx_add((y as i64) * SCALE, jy);
        let pixel_sample = self
            .pixel00_loc
            .add(&self.pixel_delta_u.scale(sx))
            .add(&self.pixel_delta_v.scale(sy));

        let p = Vec3::random_in_unit_disk(s);
        let ray_origin = self
            .center
            .add(&self.defocus_disk_u.scale(p.x()))
            .add(&self.defocus_disk_v.scale(p.y()));

        let dir0 = pixel_sample.sub(&ray_origin);
        proof {
            lemma_v3_len_sq_nonneg(dir0@);
            if self@.defocus_disk_u == (V3 { x: 0int, y: 0int, z: 0int })
                && self@.defocus_disk_v == (V3 { x: 0int, y: 0int, z: 0int }) {
                assert(0int * p@.x == 0 && 0int * p@.y == 0);
                crate::vec3::lemma_vec3_bounds(self.center);
                vstd::arithmetic::div_mod::lemma_div_of0(SCALE as int);
                assert(tdiv(0int * p@.x, SCALE as int) == 0);
                assert(tdiv(0int * p@.y, SCALE as int) == 0);
                assert(ray_origin@ == self@.center);
            }
        }
        let ray_direction = if dir0.length_squared() == 0 {
            // The sampled origin landed on the pixel sample itself; aim
            // down the axis rather than hand out an unusable direction.
            Vec3::new(0, 0, -SCALE)
        } else {
            dir0
        };
        let ray = Ray::new(ray_origin, ray_direction);
        proof {
            assert(-HALF_SCALE <= jx < HALF_SCALE && -HALF_SCALE <= jy < HALF_SCALE && v3_len_sq(
                p@,
            ) < SCALE && p@.z == 0 && ray@ == spec_ray_sample(
                self@,
                x as int,
                y as int,
                jx as int,
                jy as int,
                p@,
            ));
        }
        ray
    }

    /// The sky gradient for a ray that missed everything.
    pub fn background(ray: &Ray) -> (r: Vec3)
        requires
            v3_len_sq(ray@.dir) >= 1,
        ensures
            r@ == spec_background(ray@),
    {
        proof {
            reveal(spec_background);
        }
        let unit_direction = ray.direction().unit();
        let a = fx_mul(HALF_SCALE, fx_add(unit_direction.y(), SCALE));
        let white = Vec3::new(SCALE, SCALE, SCALE);
        let blue = Vec3::new(HALF_SCALE, 45875, SCALE);
        white.scale(fx_sub(SCALE, a)).add(&blue.scale(a))
    }

    /// Recursive light transport. A zero bounce budget contributes black —
    /// the sole termination guarantee. A miss contributes the background
    /// gradient. A hit asks the struck material to scatter: absorption
    /// contributes black, a scattered ray recurses with the attenuation
    /// applied component-wise.
    pub fn ray_color(ray: &Ray, depth: u32, world: &HittableList, s: &mut Sampler) -> (r: Vec3)
        requires
            v3_len_sq(ray@.dir) >= 1,
        ensures
            depth == 0 ==> r@ == (V3 { x: 0int, y: 0int, z: 0int }),
            depth > 0 && spec_list_hit(world@, ray@, T_MIN as int, i64::MAX as int) is None
                ==> r@ == spec_background(ray@),
            depth > 0 ==> (spec_list_hit(world@, ray@, T_MIN as int, i64::MAX as int) matches
                Some(h) ==> (r@ == (V3 { x: 0int, y: 0int, z: 0int }) || exists|c: V3|
                r@ == #[trigger] v3_cmul(mat_attenuation(h.mat), c))),
            final(s).is_fixed() == old(s).is_fixed(),
            old(s).is_fixed() ==> *final(s) == *old(s) && r@ == spec_ray_color_det(
                world@,
                ray@,
                depth as int,
                old(s).fixed_value(),
            ),
        decreases depth,
    {
        // The bounce budget is exhausted: no more light is gathered.
        if depth == 0 {
            return Vec3::default();
        }

        if let Some(hit_record) = world.hit(ray, &Interval::new(T_MIN, i64::MAX)) {
            if let Some((attenuation, scattered)) = hit_record.material().scatter(
                ray,
                &hit_record,
                s,
            ) {
                let followed = Self::ray_color(&scattered, depth - 1, world, s);
                let shaded = attenuation.mul(&followed);
                proof {
                    assert(shaded@ == v3_cmul(mat_attenuation(hit_record@.mat), followed@));
                }
                return shaded;
            }
            return Vec3::default();
        }

        Self::background(ray)
    }

    /// The colour of pixel `(x, y)`: the average of `samples_per_pixel`
    /// independent sample evaluations. With one sample per pixel and a
    /// fixed sampler the value is exactly the deterministic colour of the
    /// pixel's un-jittered ray, whatever the scene.
    pub fn sample_pixel(&self, world: &HittableList, x: u32, y: u32, s: &mut Sampler) -> (r: Vec3)
        ensures
            final(s).is_fixed() == old(s).is_fixed(),
            old(s).is_fixed() ==> *final(s) == *old(s),
            old(s).is_fixed() && self@.samples_per_pixel == 1 ==> r@ == spec_ray_color_det(
                world@,
                spec_get_ray(self@, x as int, y as int, old(s).fixed_value()),
                self@.max_depth,
                old(s).fixed_value(),
            ),
    {
        proof {
            use_type_invariant(&*self);
        }
        let ghost u = old(s).fixed_value();
        let ghost det_ray = spec_get_ray(self@, x as int, y as int, u);
        let ghost det_case = old(s).is_fixed() && self@.samples_per_pixel == 1;
        let ghost det_color = spec_ray_color_det(world@, det_ray, self@.max_depth, u);
        let mut pixel_color = Vec3::default();
        let mut k: u32 = 0;
        while k < self.samples_per_pixel
            invariant
                k <= self.samples_per_pixel,
                s.is_fixed() == old(s).is_fixed(),
                old(s).is_fixed() ==> *s == *old(s),
                u == old(s).fixed_value(),
                det_ray == spec_get_ray(self@, x as int, y as int, u),
                det_case == (old(s).is_fixed() && self@.samples_per_pixel == 1),
                det_color == spec_ray_color_det(world@, det_ray, self@.max_depth, u),
                self@.samples_per_pixel == self.samples_per_pixel as int,
                self@.max_depth == self.max_depth as int,
                det_case && k == 0 ==> pixel_color@ == (V3 { x: 0int, y: 0int, z: 0int }),
                det_case && k >= 1 ==> pixel_color@ == v3_add(
                    V3 { x: 0int, y: 0int, z: 0int },
                    det_color,
                ),
            decreases self.samples_per_pixel - k,
        {
            let ray = self.get_ray(x, y, s);
            let sample = Self::ray_color(&ray, self.max_depth, world, s);
            pixel_color = pixel_color.add(&sample);
            k = k + 1;
        }
        let r = pixel_color.div_int(self.samples_per_pixel as i64);
        proof {
            if det_case {
                lemma_ray_color_det_bounded(world@, det_ray, self@.max_depth, u);
                lemma_tdiv_one(pixel_color@.x);
                lemma_tdiv_one(pixel_color@.y);
                lemma_tdiv_one(pixel_color@.z);
            }
        }
        r
    }

    /// Renders the scene into a row-major RGB8 buffer, three bytes per
    /// pixel. Pixels are independent: each is the tone-mapped average of
    /// its samples, and under a one-sample fixed sampler every pixel holds
    /// exactly the quantized deterministic colour of its un-jittered ray.
    pub fn render(&self, world: &HittableList, s: &mut Sampler) -> (buf: Vec<u8>)
        ensures
            buf@.len() == 3 * self@.image_height * self@.image_width,
            final(s).is_fixed() == old(s).is_fixed(),
            old(s).is_fixed() ==> *final(s) == *old(s),
            forall|px: int, py: int|
                0 <= px < self@.image_width && 0 <= py < self@.image_height && old(s).is_fixed()
                    && self@.samples_per_pixel == 1 ==> {
                    let c = spec_ray_color_det(
                        world@,
                        #[trigger] spec_get_ray(self@, px, py, old(s).fixed_value()),
                        self@.max_depth,
                        old(s).fixed_value(),
                    );
                    let base = 3 * (py * self@.image_width + px);
                    buf@[base] == spec_channel(c.x) && buf@[base + 1] == spec_channel(c.y)
                        && buf@[base + 2] == spec_channel(c.z)
                },
    {
        let ghost u = old(s).fixed_value();
        let ghost det = old(s).is_fixed() && self@.samples_per_pixel == 1;
        let mut buf: Vec<u8> = Vec::new();
        let mut y: u32 = 0;
        while y < self.image_height
            invariant
                y <= self.image_height,
                buf@.len() == 3 * y * self@.image_width,
                s.is_fixed() == old(s).is_fixed(),
                old(s).is_fixed() ==> *s == *old(s),
                u == old(s).fixed_value(),
                det == (old(s).is_fixed() && self@.samples_per_pixel == 1),
                self@.image_height == self.image_height as int,
                self@.image_width == self.image_width as int,
                self@.max_depth == self.max_depth as int,
                forall|px: int, py: int|
                    0 <= px < self@.image_width && 0 <= py < y && det ==> {
                        let c = spec_ray_color_det(
                            world@,
                            #[trigger] spec_get_ray(self@, px, py, u),
                            self@.max_depth,
                            u,
                        );
                        let base = 3 * (py * self@.image_width + px);
                        buf@[base] == spec_channel(c.x) && buf@[base + 1] == spec_channel(c.y)
                            && buf@[base + 2] == spec_channel(c.z)
                    },
            decreases self.image_height - y,
        {
            let mut x: u32 = 0;
            while x < self.image_width
                invariant
                    x <= self.image_width,
                    y < self.image_height,
                    buf@.len() == 3 * y * self@.image_width + 3 * x,
                    s.is_fixed() == old(s).is_fixed(),
                    old(s).is_fixed() ==> *s == *old(s),
                    u == old(s).fixed_value(),
                    det == (old(s).is_fixed() && self@.samples_per_pixel == 1),
                    self@.image_height == self.image_height as int,
                    self@.image_width == self.image_width as int,
                    self@.max_depth == self.max_depth as int,
                    forall|px: int, py: int|
                        0 <= px < self@.image_width && 0 <= py < self@.image_height && (py < y || (
                        py == y && px < x)) && det ==> {
                            let c = spec_ray_color_det(
                                world@,
                                #[trigger] spec_get_ray(self@, px, py, u),
                                self@.max_depth,
                                u,
                            );
                            let base = 3 * (py * self@.image_width + px);
                            buf@[base] == spec_channel(c.x) && buf@[base + 1] == spec_channel(c.y)
                                && buf@[base + 2] == spec_channel(c.z)
                        },
                decreases self.image_width - x,
            {
                let c = self.sample_pixel(world, x, y, s);
                let (cr, cg, cb) = to_rgb8(&c);
                buf.push(cr);
                buf.push(cg);
                buf.push(cb);
                proof {
                    let gw = self@.image_width;
                    assert forall|px: int, py: int|
                        0 <= px < gw && 0 <= py < self@.image_height && (py < y || (py == y && px
                            <= x)) && det implies ({
                        let cc = spec_ray_color_det(
                            world@,
                            #[trigger] spec_get_ray(self@, px, py, u),
                            self@.max_depth,
                            u,
                        );
                        let base = 3 * (py * gw + px);
                        buf@[base] == spec_channel(cc.x) && buf@[base + 1] == spec_channel(cc.y)
                            && buf@[base + 2] == spec_channel(cc.z)
                    }) by {
                        let cc = spec_ray_color_det(
                            world@,
                            spec_get_ray(self@, px, py, u),
                            self@.max_depth,
                            u,
                        );
                        let base = 3 * (py * gw + px);
                        if py == y && px == x {
                            assert(c@ == cc);
                            assert(base == 3 * y * gw + 3 * x) by (nonlinear_arith)
                                requires
                                    base == 3 * (py * gw + px),
                                    py == y,
                                    px == x,
                            ;
                        } else {
                            assert(py * gw + px < y * gw + x) by (nonlinear_arith)
                                requires
                                    0 <= px < gw,
                                    0 <= py,
                                    py < y || (py == y && px < x),
                            ;
                            assert(base + 2 < 3 * y * gw + 3 * x) by (nonlinear_arith)
                                requires
                                    py * gw + px < y * gw + x,
                                    base == 3 * (py * gw + px),
                            ;
                            assert(0 <= base);
                        }
                    }
                }
                x = x + 1;
            }
            proof {
                assert(3 * (y + 1) * self@.image_width == 3 * y * self@.image_width + 3
                    * self@.image_width) by (nonlinear_arith);
            }
            y = y + 1;
        }
        buf
    }
}

impl CamBuilder {
    /// The documented defaults: a unit aspect ratio, a 100-pixel width, 10
    /// samples, 10 bounces, a 90-degree field of view, looking down the
    /// negative z axis from the origin with y up, a pinhole aperture, and
    /// a focus distance of 10.
    pub open spec fn default_config() -> CamBuilder {
        CamBuilder {
            aspect_ratio: SCALE,
            image_width: 100u32,
            samples_per_pixel: 10u32,
            max_depth: 10u32,
            vfov: (90 * SCALE) as i64,
            look_from: Vec3::spec_xyz(0, 0, 0),
            look_at: Vec3::spec_xyz(0, 0, (-SCALE) as i64),
            vup: Vec3::spec_xyz(0, SCALE, 0),
            defocus_angle: 0i64,
            focus_dist: (10 * SCALE) as i64,
        }
    }

    pub fn default() -> (r: Self)
        ensures
            r == Self::default_config(),
    {
        CamBuilder {
            aspect_ratio: SCALE,
            image_width: 100,
            samples_per_pixel: 10,
            max_depth: 10,
            vfov: 90 * SCALE,
            look_from: Vec3::new(0, 0, 0),
            look_at: Vec3::new(0, 0, -SCALE),
            vup: Vec3::new(0, SCALE, 0),
            defocus_angle: 0,
            focus_dist: 10 * SCALE,
        }
    }

    pub fn aspect_ratio(self, aspect_ratio: i64) -> (r: Self)
        ensures
            r == (CamBuilder { aspect_ratio, ..self }),
    {
        CamBuilder { aspect_ratio, ..self }
    }

    pub fn image_width(self, image_width: u32) -> (r: Self)
        ensures
            r == (CamBuilder { image_width, ..self }),
    {
        CamBuilder { image_width, ..self }
    }

    pub fn samples_per_pixel(self, samples_per_pixel: u32) -> (r: Self)
        ensures
            r == (CamBuilder { samples_per_pixel, ..self }),
    {
        CamBuilder { samples_per_pixel, ..self }
    }

    pub fn max_depth(self, max_depth: u32) -> (r: Self)
        ensures
            r == (CamBuilder { max_depth, ..self }),
    {
        CamBuilder { max_depth, ..self }
    }

    pub fn vfov(self, vfov: i64) -> (r: Self)
        ensures
            r == (CamBuilder { vfov, ..self }),
    {
        CamBuilder { vfov, ..self }
    }

    pub fn look_from(self, look_from: Vec3) -> (r: Self)
        ensures
            r == (CamBuilder { look_from, ..self }),
    {
        CamBuilder { look_from, ..self }
    }

    pub fn look_at(self, look_at: Vec3) -> (r: Self)
        ensures
            r == (CamBuilder { look_at, ..self }),
    {
        CamBuilder { look_at, ..self }
    }

    pub fn vup(self, vup: Vec3) -> (r: Self)
        ensures
            r == (CamBuilder { vup, ..self }),
    {
        CamBuilder { vup, ..self }
    }

    pub fn defocus_angle(self, defocus_angle: i64) -> (r: Self)
        ensures
            r == (CamBuilder { defocus_angle, ..self }),
    {
        CamBuilder { defocus_angle, ..self }
    }

    pub fn focus_dist(self, focus_dist: i64) -> (r: Self)
        ensures
            r == (CamBuilder { focus_dist, ..self }),
    {
        CamBuilder { focus_dist, ..self }
    }

    /// Validates the configuration and derives the projection geometry.
    /// Success comes exactly on an acceptable configuration, and each
    /// error names the first requirement the configuration broke.
    pub fn build(self) -> (r: Result<Camera, CameraError>)
        ensures
            r is Ok <==> spec_build_err(self) is None,
            r matches Err(e) ==> Some(e) == spec_build_err(self),
            r matches Ok(cam) ==> cam@ == spec_build_cam(self),
    {
        if self.image_width < 1 {
            return Err(CameraError::InvalidImageWidth);
        }
        if self.samples_per_pixel < 1 {
            return Err(CameraError::InvalidSamples);
        }
        if self.aspect_ratio <= 0 {
            return Err(CameraError::InvalidAspectRatio);
        }
        let half_theta = fx_idiv(fx_mul(self.vfov, PI_OVER_180), 2);
        let cos_half_theta = fx_cos(half_theta);
        if !(0 < self.vfov && self.vfov < 180 * SCALE) || cos_half_theta <= 0 {
            return Err(CameraError::InvalidVfov);
        }
        if self.focus_dist <= 0 {
            return Err(CameraError::InvalidFocusDistance);
        }
        let half_defocus = fx_mul(fx_idiv(self.defocus_angle, 2), PI_OVER_180);
        let cos_half_defocus = fx_cos(half_defocus);
        if self.defocus_angle > 0 && (self.defocus_angle >= 180 * SCALE || cos_half_defocus
            <= 0) {
            return Err(CameraError::InvalidDefocusAngle);
        }
        let look_dir = self.look_from.sub(&self.look_at);
        proof {
            lemma_v3_len_sq_nonneg(look_dir@);
        }
        if look_dir.length_squared() == 0 {
            return Err(CameraError::DegenerateLookDirection);
        }
        let w_axis = look_dir.unit();
        let up_cross = self.vup.cross(&w_axis);
        proof {
            lemma_v3_len_sq_nonneg(up_cross@);
        }
        if up_cross.length_squared() == 0 {
            return Err(CameraError::DegenerateUp);
        }

        let image_height = Self::calculate_image_height(self.image_width, self.aspect_ratio);

        let h = fx_div(fx_sin(half_theta), cos_half_theta);
        let viewport_height = fx_mul(fx_add(h, h), self.focus_dist);
        let viewport_width = fx_mul(
            viewport_height,
            fx_div((self.image_width as i64) * SCALE, (image_height as i64) * SCALE),
        );

        let u_axis = up_cross.unit();
        let v_axis = w_axis.cross(&u_axis);

        let viewport_u = u_axis.scale(viewport_width);
        let viewport_v = v_axis.neg().scale(viewport_height);

        let pixel_delta_u = viewport_u.div_int(self.image_width as i64);
        let pixel_delta_v = viewport_v.div_int(image_height as i64);

        let viewport_upper_left = self
            .look_from
            .sub(&w_axis.scale(self.focus_dist))
            .sub(&viewport_u.div_int(2))
            .sub(&viewport_v.div_int(2));
        let pixel00_loc = viewport_upper_left.add(
            &pixel_delta_u.add(&pixel_delta_v).scale(HALF_SCALE),
        );

        let defocus_radius = if self.defocus_angle <= 0 {
            0
        } else {
            fx_mul(self.focus_dist, fx_div(fx_sin(half_defocus), cos_half_defocus))
        };
        let defocus_disk_u = u_axis.scale(defocus_radius);
        let defocus_disk_v = v_axis.scale(defocus_radius);

        Ok(
            Camera {
                image_width: self.image_width,
                samples_per_pixel: self.samples_per_pixel,
                max_depth: self.max_depth,
                defocus_angle: self.defocus_angle,
                image_height,
                center: self.look_from,
                pixel00_loc,
                pixel_delta_u,
                pixel_delta_v,
                defocus_disk_u,
                defocus_disk_v,
            },
        )
    }

    /// The image height implied by the width and aspect ratio: the quotient
    /// rounded to the nearest integer (halves round up), at least one
    /// pixel.
    fn calculate_image_height(image_width: u32, aspect_ratio: i64) -> (r: u32)
        requires
            image_width >= 1,
            aspect_ratio > 0,
        ensures
            r == spec_clamp(
                tdiv(2 * image_width * SCALE + aspect_ratio, 2 * aspect_ratio as int),
                1,
                u32::MAX as int,
            ),
            r >= 1,
    {
        proof {
            lemma_tdiv_bounds(
                2 * image_width * SCALE + aspect_ratio,
                2 * aspect_ratio as int,
            );
        }
        let q: i128 = (2 * (image_width as i128) * (SCALE as i128) + (aspect_ratio as i128)) / (
        2 * (aspect_ratio as i128));
        if q < 1 {
            1
        } else if q > u32::MAX as i128 {
            u32::MAX
        } else {
            q as u32
        }
    }
}

} // verus!
