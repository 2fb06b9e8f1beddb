//! The scene: an ordered collection of spheres that reports the nearest hit
//! among its members. The order of members never changes the answer, which
//! the nearest-hit law below pins down.

use vstd::prelude::*;
use crate::fixed::{
    spec_add, spec_sub, spec_div, spec_sqrt, lemma_tdiv_mono_num, lemma_sqrt_floor_props, SCALE,
};
use crate::hittable::{HitRecord, HitV, hit_wf};
use crate::interval::Interval;
use crate::ray::{Ray, RayV};
use crate::sphere::{Sphere, SphereV, spec_sphere_hit, sphere_half_b, sphere_disc};
use crate::vec3::v3_len_sq;

verus! {

/// The fold the search performs: each member is tested against the range
/// narrowed to the best parameter found so far, and a success replaces the
/// running record.
pub open spec fn spec_list_hit(objs: Seq<SphereV>, r: RayV, tmin: int, tmax: int) -> Option<HitV>
    decreases objs.len(),
{
    if objs.len() == 0 {
        None
    } else {
        let prefix = spec_list_hit(objs.drop_last(), r, tmin, tmax);
        let bound = match prefix {
            Some(h) => h.t,
            None => tmax,
        };
        match spec_sphere_hit(objs.last(), r, tmin, bound) {
            Some(h) => Some(h),
            None => prefix,
        }
    }
}

/// Narrowing the upper bound to `b` keeps a sphere's hit exactly when its
/// parameter beats `b`, and can never produce a new or different hit.
proof fn lemma_sphere_hit_narrow(s: SphereV, r: RayV, tmin: int, tmax: int, b: int)
    requires
        v3_len_sq(r.dir) >= 1,
        b <= tmax,
    ensures
        match spec_sphere_hit(s, r, tmin, tmax) {
            Some(g) => spec_sphere_hit(s, r, tmin, b) == (if g.t < b {
                Some(g)
            } else {
                None::<HitV>
            }),
            None => spec_sphere_hit(s, r, tmin, b) is None,
        },
{
    reveal(spec_sphere_hit);
    if s.radius <= 0 {
        return ;
    }
    let a = v3_len_sq(r.dir);
    let hb = sphere_half_b(s, r);
    let disc = sphere_disc(s, r);
    if disc < 0 {
        return ;
    }
    let sq = spec_sqrt(disc);
    let r1 = spec_div(spec_sub(hb, sq), a);
    let r2 = spec_div(spec_add(hb, sq), a);
    assert(r1 <= r2) by {
        lemma_sqrt_floor_props(disc * SCALE);
        assert(spec_sub(hb, sq) <= spec_add(hb, sq));
        lemma_tdiv_mono_num(spec_sub(hb, sq) * SCALE, spec_add(hb, sq) * SCALE, a);
    }
}

/// The nearest-hit law: whatever the member order, the fold returns a hit
/// exactly when some member hits the full range, and then it is a member's
/// hit with the least parameter among all members' hits — with two
/// overlapping spheres along a ray, always the closer intersection.
pub proof fn lemma_list_hit_nearest(objs: Seq<SphereV>, r: RayV, tmin: int, tmax: int)
    requires
        v3_len_sq(r.dir) >= 1,
    ensures
        match spec_list_hit(objs, r, tmin, tmax) {
            Some(h) => (exists|i: int|
                0 <= i < objs.len() && #[trigger] spec_sphere_hit(objs[i], r, tmin, tmax) == Some(
                    h,
                )) && (forall|j: int|
                0 <= j < objs.len() ==> (#[trigger] spec_sphere_hit(objs[j], r, tmin, tmax)
                    matches Some(g) ==> h.t <= g.t)),
            None => forall|j: int|
                0 <= j < objs.len() ==> (#[trigger] spec_sphere_hit(
                    objs[j],
                    r,
                    tmin,
                    tmax,
                )) is None,
        },
    decreases objs.len(),
{
    if objs.len() == 0 {
        return ;
    }
    let pre = objs.drop_last();
    let last = objs.last();
    let n = objs.len() - 1;
    lemma_list_hit_nearest(pre, r, tmin, tmax);
    assert(forall|i: int| 0 <= i < pre.len() ==> pre[i] == objs[i]);
    assert(last == objs[n]);
    match spec_list_hit(pre, r, tmin, tmax) {
        Some(h0) => {
            // A previous best exists: the last member is tested against the
            // range narrowed to its parameter.
            let iw = choose|i: int|
                0 <= i < pre.len() && #[trigger] spec_sphere_hit(pre[i], r, tmin, tmax) == Some(
                    h0,
                );
            assert(tmin < h0.t < tmax) by {
                lemma_sphere_root_in_range(pre[iw], r, tmin, tmax);
            }
            lemma_sphere_hit_narrow(last, r, tmin, tmax, h0.t);
            match spec_sphere_hit(last, r, tmin, tmax) {
                Some(g) => {
                    if g.t < h0.t {
                        // The last member improves on the previous best.
                        assert(spec_list_hit(objs, r, tmin, tmax) == Some(g));
                        assert(spec_sphere_hit(objs[n], r, tmin, tmax) == Some(g));
                        assert(forall|j: int|
                            0 <= j < n ==> (#[trigger] spec_sphere_hit(objs[j], r, tmin, tmax)
                                matches Some(gg) ==> g.t <= gg.t));
                    } else {
                        // The last member's hit is no nearer: the previous
                        // best stands.
                        assert(spec_list_hit(objs, r, tmin, tmax) == Some(h0));
                        assert(spec_sphere_hit(objs[iw], r, tmin, tmax) == Some(h0));
                    }
                },
                None => {
                    assert(spec_list_hit(objs, r, tmin, tmax) == Some(h0));
                    assert(spec_sphere_hit(objs[iw], r, tmin, tmax) == Some(h0));
                    assert(spec_sphere_hit(objs[n], r, tmin, tmax) is None);
                },
            }
        },
        None => {
            // No prefix member hits; the last is tested against the full
            // range, and its answer is the fold's answer.
            assert(forall|j: int|
                0 <= j < n ==> (#[trigger] spec_sphere_hit(objs[j], r, tmin, tmax)) is None);
            match spec_sphere_hit(last, r, tmin, tmax) {
                Some(g) => {
                    assert(spec_list_hit(objs, r, tmin, tmax) == Some(g));
                    assert(spec_sphere_hit(objs[n], r, tmin, tmax) == Some(g));
                },
                None => {
                    assert(spec_list_hit(objs, r, tmin, tmax) is None);
                },
            }
        },
    }
}

/// Member order is irrelevant to the scene's answer: two scenes holding
/// the same spheres, in whatever order, agree on whether a ray hits and on
/// the parameter of the hit.
pub proof fn lemma_list_hit_order_irrelevant(
    a: Seq<SphereV>,
    b: Seq<SphereV>,
    r: RayV,
    tmin: int,
    tmax: int,
)
    requires
        v3_len_sq(r.dir) >= 1,
        a.to_multiset() == b.to_multiset(),
    ensures
        spec_list_hit(a, r, tmin, tmax) is Some == spec_list_hit(b, r, tmin, tmax) is Some,
        spec_list_hit(a, r, tmin, tmax) matches Some(ha) ==> (spec_list_hit(b, r, tmin, tmax)
            matches Some(hb) && ha.t == hb.t),
{
    lemma_list_hit_nearest(a, r, tmin, tmax);
    lemma_list_hit_nearest(b, r, tmin, tmax);
    a.to_multiset_ensures();
    b.to_multiset_ensures();
    match spec_list_hit(a, r, tmin, tmax) {
        Some(ha) => {
            let i = choose|i: int|
                0 <= i < a.len() && #[trigger] spec_sphere_hit(a[i], r, tmin, tmax) == Some(ha);
            assert(a.contains(a[i]));
            assert(b.to_multiset().count(a[i]) > 0);
            assert(b.contains(a[i]));
            let j = choose|j: int| 0 <= j < b.len() && b[j] == a[i];
            assert(spec_sphere_hit(b[j], r, tmin, tmax) == Some(ha));
            match spec_list_hit(b, r, tmin, tmax) {
                Some(hb) => {
                    assert(hb.t <= ha.t);
                    let k = choose|k: int|
                        0 <= k < b.len() && #[trigger] spec_sphere_hit(b[k], r, tmin, tmax)
                            == Some(hb);
                    assert(b.contains(b[k]));
                    assert(a.to_multiset().count(b[k]) > 0);
                    assert(a.contains(b[k]));
                    let m = choose|m: int| 0 <= m < a.len() && a[m] == b[k];
                    assert(spec_sphere_hit(a[m], r, tmin, tmax) == Some(hb));
                    assert(ha.t <= hb.t);
                },
                None => {
                    assert(spec_sphere_hit(b[j], r, tmin, tmax) is None);
                },
            }
        },
        None => {
            match spec_list_hit(b, r, tmin, tmax) {
                Some(hb) => {
                    let k = choose|k: int|
                        0 <= k < b.len() && #[trigger] spec_sphere_hit(b[k], r, tmin, tmax)
                            == Some(hb);
                    assert(b.contains(b[k]));
                    assert(a.to_multiset().count(b[k]) > 0);
                    assert(a.contains(b[k]));
                    let m = choose|m: int| 0 <= m < a.len() && a[m] == b[k];
                    assert(spec_sphere_hit(a[m], r, tmin, tmax) == Some(hb));
                },
                None => {},
            }
        },
    }
}

/// A reported hit parameter lies strictly inside the search range.
proof fn lemma_sphere_root_in_range(s: SphereV, r: RayV, tmin: int, tmax: int)
    requires
        v3_len_sq(r.dir) >= 1,
    ensures
        spec_sphere_hit(s, r, tmin, tmax) matches Some(h) ==> tmin < h.t < tmax,
{
    reveal(spec_sphere_hit);
}

/// The ordered collection of spheres making up a scene.
pub struct HittableList {
    objects: Vec<Sphere>,
}

impl View for HittableList {
    type V = Seq<SphereV>;

    closed spec fn view(&self) -> Seq<SphereV> {
        self.objects@.map_values(|s: Sphere| s@)
    }
}

impl Default for HittableList {
    /// An empty scene.
    fn default() -> (r: Self)
        ensures
            r@ == Seq::<SphereV>::empty(),
    {
        let r = HittableList { objects: Vec::new() };
        proof {
            assert(r@ =~= Seq::<SphereV>::empty());
        }
        r
    }
}

impl HittableList {
    /// A scene holding one object.
    pub fn new(object: Sphere) -> (r: Self)
        ensures
            r@ =~= seq![object@],
    {
        let mut objects = Vec::new();
        objects.push(object);
        HittableList { objects }
    }

    /// Removes every object.
    pub fn clear(&mut self)
        ensures
            final(self)@ =~= Seq::<SphereV>::empty(),
    {
        self.objects.clear()
    }

    /// Appends an object; it is tested after the ones already present,
    /// which by the nearest-hit law never changes which hit is reported.
    pub fn add(&mut self, object: Sphere)
        ensures
            final(self)@ =~= old(self)@.push(object@),
    {
        self.objects.push(object)
    }

    /// The nearest hit among all members strictly inside the interval: the
    /// search narrows its upper bound to the best parameter seen so far, so
    /// the returned record has the least parameter among all members' hits,
    /// regardless of member order.
    pub fn hit(&self, ray: &Ray, ray_t: &Interval) -> (r: Option<HitRecord>)
        requires
            v3_len_sq(ray@.dir) >= 1,
        ensures
            match r {
                Some(h) => spec_list_hit(self@, ray@, ray_t.spec_min(), ray_t.spec_max()) == Some(
                    h@,
                ) && hit_wf(h@),
                None => spec_list_hit(self@, ray@, ray_t.spec_min(), ray_t.spec_max()) is None,
            },
            r matches Some(h) ==> (exists|i: int|
                0 <= i < self@.len() && #[trigger] spec_sphere_hit(
                    self@[i],
                    ray@,
                    ray_t.spec_min(),
                    ray_t.spec_max(),
                ) == Some(h@)) && (forall|j: int|
                0 <= j < self@.len() ==> (#[trigger] spec_sphere_hit(
                    self@[j],
                    ray@,
                    ray_t.spec_min(),
                    ray_t.spec_max(),
                ) matches Some(g) ==> h@.t <= g.t)),
            r is None ==> forall|j: int|
                0 <= j < self@.len() ==> (#[trigger] spec_sphere_hit(
                    self@[j],
                    ray@,
                    ray_t.spec_min(),
                    ray_t.spec_max(),
                )) is None,
    {
        let mut closest_so_far = ray_t.max();
        let mut maybe_record: Option<HitRecord> = None;
        let mut i: usize = 0;
        while i < self.objects.len()
            invariant
                0 <= i <= self.objects.len(),
                v3_len_sq(ray@.dir) >= 1,
                self@.len() == self.objects@.len(),
                match maybe_record {
                    Some(h) => spec_list_hit(
                        self@.take(i as int),
                        ray@,
                        ray_t.spec_min(),
                        ray_t.spec_max(),
                    ) == Some(h@) && hit_wf(h@) && closest_so_far == h@.t,
                    None => spec_list_hit(
                        self@.take(i as int),
                        ray@,
                        ray_t.spec_min(),
                        ray_t.spec_max(),
                    ) is None && closest_so_far == ray_t.spec_max(),
                },
            decreases self.objects.len() - i,
        {
            let object = &self.objects[i];
            proof {
                assert(self@[i as int] == object@);
            }
            let narrowed = Interval::new(ray_t.min(), closest_so_far);
            if let Some(hit_record) = object.hit(ray, &narrowed) {
                closest_so_far = hit_record.t();
                maybe_record = Some(hit_record);
            }
            proof {
                assert(self@.take(i + 1).drop_last() =~= self@.take(i as int));
                assert(self@.take(i + 1).last() == self@[i as int]);
            }
            i = i + 1;
        }
        proof {
            assert(self@.take(self.objects@.len() as int) =~= self@);
            lemma_list_hit_nearest(self@, ray@, ray_t.spec_min(), ray_t.spec_max());
        }
        maybe_record
    }
}

} // verus!
