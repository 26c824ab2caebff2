//! The scene aggregate: every surface is tested and the nearest hit wins.

use vstd::prelude::*;
use crate::rat::{Rat, RAT_MAX, lemma_rat_lt_le_trans};
use crate::vec3::dot3;
use crate::ray::Ray;
use crate::hittable::{HitRecord, Hittable};
use crate::material::Material;

verus! {

/// The rest of the closest-hit fold from member `i` on, with the current
/// upper bound and best record so far.
pub open spec fn list_hit_from(
    objs: Seq<Hittable>,
    i: int,
    ray: Ray,
    t_min: Rat,
    closest: Rat,
    acc: Option<HitRecord>,
) -> Option<HitRecord>
    decreases objs.len() - i,
{
    if i < 0 || i >= objs.len() {
        acc
    } else {
        match objs[i].hit_spec(ray, t_min, closest) {
            Some(hr) => list_hit_from(objs, i + 1, ray, t_min, hr.t, Some(hr)),
            None => list_hit_from(objs, i + 1, ray, t_min, closest, acc),
        }
    }
}

/// The closest-hit law: for two spheres both hit individually by the ray on
/// `(t_min, t_max)`, the aggregate reports the smaller of the two individual
/// parameters, whichever order the spheres were added in (on an exact tie
/// the first-added sphere's record is kept, with the same parameter value).
pub proof fn lemma_closest_hit_two_spheres(
    s1: crate::sphere::Sphere,
    s2: crate::sphere::Sphere,
    ray: Ray,
    t_min: Rat,
    t_max: Rat,
)
    requires
        s1.wf(),
        s2.wf(),
        ray.wf(),
        t_min.wf(),
        t_max.wf(),
        s1.hit_t(ray, t_min, t_max) is Some,
        s2.hit_t(ray, t_min, t_max) is Some,
    ensures
        ({
            let t1 = s1.hit_t(ray, t_min, t_max).unwrap();
            let t2 = s2.hit_t(ray, t_min, t_max).unwrap();
            let fwd = list_hit_from(
                seq![Hittable::Sphere(s1), Hittable::Sphere(s2)],
                0,
                ray,
                t_min,
                t_max,
                None,
            );
            let rev = list_hit_from(
                seq![Hittable::Sphere(s2), Hittable::Sphere(s1)],
                0,
                ray,
                t_min,
                t_max,
                None,
            );
            &&& fwd is Some && rev is Some
            &&& fwd.unwrap().t == (if t2.lt_spec(t1) {
                t2
            } else {
                t1
            })
            &&& rev.unwrap().t == (if t1.lt_spec(t2) {
                t1
            } else {
                t2
            })
            &&& fwd.unwrap().t.eq_spec(rev.unwrap().t)
        }),
{
    let t1 = s1.hit_t(ray, t_min, t_max).unwrap();
    let t2 = s2.hit_t(ray, t_min, t_max).unwrap();
    let objs_f = seq![Hittable::Sphere(s1), Hittable::Sphere(s2)];
    let objs_r = seq![Hittable::Sphere(s2), Hittable::Sphere(s1)];
    s1.lemma_coeff_bounds(ray);
    s2.lemma_coeff_bounds(ray);
    crate::rat::lemma_rat_total(t1, t_max);
    crate::rat::lemma_rat_total(t2, t_max);
    crate::rat::lemma_rat_total(t1, t2);
    crate::rat::lemma_rat_total(t2, t1);
    crate::sphere::lemma_sphere_hit_shrink(s2, ray, t_min, t_max, t1);
    crate::sphere::lemma_sphere_hit_shrink(s1, ray, t_min, t_max, t2);
    assert(objs_f[0] == Hittable::Sphere(s1) && objs_f[1] == Hittable::Sphere(s2));
    assert(objs_r[0] == Hittable::Sphere(s2) && objs_r[1] == Hittable::Sphere(s1));
    let hr1 = s1.hit_rec(ray, t1);
    let hr2 = s2.hit_rec(ray, t2);
    assert(hr1.t == t1 && hr2.t == t2);
    // Forward order: the first sphere's hit shrinks the bound to t1; the
    // second is reported only when strictly nearer.
    assert(list_hit_from(objs_f, 0, ray, t_min, t_max, None) == list_hit_from(
        objs_f,
        1,
        ray,
        t_min,
        t1,
        Some(hr1),
    ));
    if t2.lt_spec(t1) {
        assert(list_hit_from(objs_f, 1, ray, t_min, t1, Some(hr1)) == list_hit_from(
            objs_f,
            2,
            ray,
            t_min,
            t2,
            Some(hr2),
        ));
    } else {
        assert(list_hit_from(objs_f, 1, ray, t_min, t1, Some(hr1)) == list_hit_from(
            objs_f,
            2,
            ray,
            t_min,
            t1,
            Some(hr1),
        ));
    }
    // Reverse order, symmetrically.
    assert(list_hit_from(objs_r, 0, ray, t_min, t_max, None) == list_hit_from(
        objs_r,
        1,
        ray,
        t_min,
        t2,
        Some(hr2),
    ));
    if t1.lt_spec(t2) {
        assert(list_hit_from(objs_r, 1, ray, t_min, t2, Some(hr2)) == list_hit_from(
            objs_r,
            2,
            ray,
            t_min,
            t1,
            Some(hr1),
        ));
    } else {
        assert(list_hit_from(objs_r, 1, ray, t_min, t2, Some(hr2)) == list_hit_from(
            objs_r,
            2,
            ray,
            t_min,
            t2,
            Some(hr2),
        ));
    }
}

/// A scene: an ordered sequence of surfaces and an arena of the materials
/// they reference by index (several surfaces may share one material).
pub struct HittableList {
    pub objects: Vec<Hittable>,
    pub materials: Vec<Material>,
}

impl HittableList {
    /// Every surface is well formed and references an existing, well-formed
    /// material.
    pub open spec fn wf(self) -> bool {
        &&& forall|i: int|
            0 <= i < self.objects@.len() ==> (#[trigger] self.objects@[i]).wf()
                && self.objects@[i].mat_index() < self.materials@.len()
        &&& forall|j: int| 0 <= j < self.materials@.len() ==> (#[trigger] self.materials@[j]).wf()
    }

    /// An empty scene.
    pub fn new() -> (w: HittableList)
        ensures
            w.objects@.len() == 0,
            w.materials@.len() == 0,
            w.wf(),
    {
        HittableList { objects: Vec::new(), materials: Vec::new() }
    }

    /// Register a material and return the index surfaces refer to it by.
    pub fn add_material(&mut self, m: Material) -> (idx: usize)
        requires
            m.wf(),
        ensures
            idx as int == old(self).materials@.len(),
            final(self).materials@ == old(self).materials@.push(m),
            final(self).objects@ == old(self).objects@,
            old(self).wf() ==> final(self).wf(),
    {
        let idx = self.materials.len();
        self.materials.push(m);
        idx
    }

    /// Add a surface to the scene.
    pub fn add(&mut self, object: Hittable)
        requires
            object.wf(),
            object.mat_index() < old(self).materials@.len(),
        ensures
            final(self).objects@ == old(self).objects@.push(object),
            final(self).materials@ == old(self).materials@,
            old(self).wf() ==> final(self).wf(),
    {
        self.objects.push(object);
    }

    /// What the scene reports for the ray on `(t_min, t_max)`: the nearest
    /// member hit, found by shrinking the upper bound to each accepted hit in
    /// turn.
    pub open spec fn hit_spec(self, ray: Ray, t_min: Rat, t_max: Rat) -> Option<HitRecord> {
        list_hit_from(self.objects@, 0, ray, t_min, t_max, None)
    }

    /// Test the ray against every member, keeping the nearest hit: later
    /// members must beat the current closest parameter strictly, so on equal
    /// parameters the earlier member wins.
    pub fn hit(&self, r: &Ray, t_min: Rat, t_max: Rat, rec: &mut HitRecord) -> (ret: bool)
        requires
            self.wf(),
            r.wf(),
            t_min.wf(),
            t_min.bounded(RAT_MAX as int),
            t_max.wf(),
            t_max.bounded(RAT_MAX as int),
            old(rec).in_caps(),
        ensures
            ret == (self.hit_spec(*r, t_min, t_max) is Some),
            !ret ==> *final(rec) == *old(rec),
            ret ==> ({
                let hr = self.hit_spec(*r, t_min, t_max).unwrap();
                &&& *final(rec) == hr
                &&& t_min.lt_spec(hr.t) && hr.t.lt_spec(t_max)
                &&& hr.in_caps()
                &&& (hr.mat matches Some(mi) && mi < self.materials@.len())
                &&& dot3(r.dir, hr.normal) <= 0
            }),
    {
        let mut temp = HitRecord::new();
        let mut hit_anything = false;
        let mut closest = t_max;
        let mut i: usize = 0;
        while i < self.objects.len()
            invariant
                self.wf(),
                r.wf(),
                t_min.wf(),
                t_min.bounded(RAT_MAX as int),
                t_max.wf(),
                t_max.bounded(RAT_MAX as int),
                0 <= i <= self.objects@.len(),
                temp.in_caps(),
                closest.wf(),
                closest.bounded(RAT_MAX as int),
                closest.le_spec(t_max),
                self.hit_spec(*r, t_min, t_max) == list_hit_from(
                    self.objects@,
                    i as int,
                    *r,
                    t_min,
                    closest,
                    if hit_anything {
                        Some(temp)
                    } else {
                        None
                    },
                ),
                hit_anything ==> ({
                    &&& temp.t == closest
                    &&& t_min.lt_spec(temp.t) && temp.t.lt_spec(t_max)
                    &&& (temp.mat matches Some(mi) && mi < self.materials@.len())
                    &&& dot3(r.dir, temp.normal) <= 0
                }),
            decreases self.objects@.len() - i,
        {
            let obj = &self.objects[i];
            let ghost prev_closest = closest;
            if obj.hit(r, t_min, closest, &mut temp) {
                proof {
                    lemma_rat_lt_le_trans(
                        obj.hit_spec(*r, t_min, prev_closest).unwrap().t,
                        prev_closest,
                        t_max,
                    );
                }
                hit_anything = true;
                closest = temp.t;
            }
            i = i + 1;
        }
        if hit_anything {
            *rec = temp;
            true
        } else {
            false
        }
    }
}

} // verus!
