//! Hit records, and the scene as a list of spheres that is searched for the
//! nearest hit.
use vstd::prelude::*;
use crate::material::{Material, MaterialModel};
use crate::ray::{Ray, RayModel};
use crate::scalar::Scalar;
use crate::sphere::{
    lemma_sphere_hit_in_range, lemma_sphere_hit_shrink, sphere_hit, Sphere, SphereModel,
};
use crate::vec::{Point3, Vec3, V3};

verus! {

/// What a [`HitRecord`] stands for.
pub struct HitModel {
    pub p: V3,
    pub normal: V3,
    pub mat: MaterialModel,
    pub t: int,
    pub front_face: bool,
}

/// Where a ray met a surface: the point, the normal turned against the ray,
/// the material there, the ray's parameter, and whether the ray came from
/// outside.
#[derive(Clone, Copy, Debug)]
pub struct HitRecord {
    pub p: Point3,
    pub normal: Vec3,
    pub mat: Material,
    pub t: Scalar,
    pub front_face: bool,
}

impl View for HitRecord {
    type V = HitModel;

    open spec fn view(&self) -> HitModel {
        HitModel {
            p: self.p@,
            normal: self.normal@,
            mat: self.mat@,
            t: self.t@,
            front_face: self.front_face,
        }
    }
}

/// What an optional hit record stands for.
pub open spec fn hit_view(h: Option<HitRecord>) -> Option<HitModel> {
    match h {
        Some(rec) => Some(rec@),
        None => None,
    }
}

/// The upper end of the interval that is left for the next sphere: the
/// parameter of the best hit so far, or the caller's `t_max` without one.
pub open spec fn closest_so_far(best: Option<HitModel>, t_max: int) -> int {
    match best {
        Some(h) => h.t,
        None => t_max,
    }
}

/// The nearest hit of the ray with the spheres, with the parameter strictly
/// between `t_min` and `t_max`: each sphere in turn is asked for a hit that is
/// nearer than the best so far.
pub open spec fn world_hit(
    objects: Seq<SphereModel>,
    r: RayModel,
    t_min: int,
    t_max: int,
) -> Option<HitModel>
    decreases objects.len(),
{
    if objects.len() == 0 {
        None
    } else {
        let before = world_hit(objects.drop_last(), r, t_min, t_max);
        match sphere_hit(objects.last(), r, t_min, closest_so_far(before, t_max)) {
            Some(h) => Some(h),
            None => before,
        }
    }
}

/// Whether `h` is a nearest hit of the ray with the spheres: it lies inside
/// the interval, one of the spheres gives it when asked alone, and no sphere
/// gives a nearer one.
pub open spec fn is_nearest_hit(
    objects: Seq<SphereModel>,
    r: RayModel,
    t_min: int,
    t_max: int,
    h: HitModel,
) -> bool {
    &&& t_min < h.t < t_max
    &&& exists|i: int|
        0 <= i < objects.len() && #[trigger] sphere_hit(objects[i], r, t_min, t_max) == Some(h)
    &&& forall|i: int|
        0 <= i < objects.len() ==> match #[trigger] sphere_hit(objects[i], r, t_min, t_max) {
            Some(g) => h.t <= g.t,
            None => true,
        }
}

/// Whether no sphere is hit inside the interval.
pub open spec fn nothing_hit(
    objects: Seq<SphereModel>,
    r: RayModel,
    t_min: int,
    t_max: int,
) -> bool {
    forall|i: int|
        0 <= i < objects.len() ==> (#[trigger] sphere_hit(objects[i], r, t_min, t_max)) is None
}

/// The scene reports a nearest hit, wherever in the list the sphere stands
/// that gives it, and reports none only where no sphere is hit.
pub proof fn lemma_world_hit_nearest(objects: Seq<SphereModel>, r: RayModel, t_min: int, t_max: int)
    ensures
        match world_hit(objects, r, t_min, t_max) {
            Some(h) => is_nearest_hit(objects, r, t_min, t_max, h),
            None => nothing_hit(objects, r, t_min, t_max),
        },
    decreases objects.len(),
{
    if objects.len() > 0 {
        let front = objects.drop_last();
        let before = world_hit(front, r, t_min, t_max);
        let closest = closest_so_far(before, t_max);
        lemma_world_hit_nearest(front, r, t_min, t_max);
        lemma_sphere_hit_shrink(objects.last(), r, t_min, closest, t_max);
        lemma_sphere_hit_in_range(objects.last(), r, t_min, t_max);
        let alone = sphere_hit(objects.last(), r, t_min, t_max);
        assert forall|i: int| 0 <= i < front.len() implies objects[i] == front[i] by {}
        match world_hit(objects, r, t_min, t_max) {
            Some(h) => {
                match sphere_hit(objects.last(), r, t_min, closest) {
                    Some(g) => {
                        assert(sphere_hit(objects[objects.len() - 1], r, t_min, t_max) == Some(h));
                    },
                    None => {
                        let i = choose|i: int|
                            0 <= i < front.len() && #[trigger] sphere_hit(
                                front[i],
                                r,
                                t_min,
                                t_max,
                            ) == Some(h);
                        assert(sphere_hit(objects[i], r, t_min, t_max) == Some(h));
                    },
                }
                assert forall|i: int| 0 <= i < objects.len() implies match #[trigger] sphere_hit(
                    objects[i],
                    r,
                    t_min,
                    t_max,
                ) {
                    Some(g) => h.t <= g.t,
                    None => true,
                } by {
                    if i < front.len() {
                        assert(objects[i] == front[i]);
                    }
                }
            },
            None => {
                assert forall|i: int| 0 <= i < objects.len() implies (#[trigger] sphere_hit(
                    objects[i],
                    r,
                    t_min,
                    t_max,
                )) is None by {
                    if i < front.len() {
                        assert(objects[i] == front[i]);
                    }
                }
            },
        }
    }
}

/// The parameter of the hit that the scene reports, if it reports one.
pub open spec fn world_hit_t(
    objects: Seq<SphereModel>,
    r: RayModel,
    t_min: int,
    t_max: int,
) -> Option<int> {
    match world_hit(objects, r, t_min, t_max) {
        Some(h) => Some(h.t),
        None => None,
    }
}

/// The distance of the reported hit does not depend on the order in which
/// the spheres were added.
pub proof fn lemma_world_hit_any_order(
    first: Seq<SphereModel>,
    second: Seq<SphereModel>,
    r: RayModel,
    t_min: int,
    t_max: int,
)
    requires
        first.to_multiset() == second.to_multiset(),
    ensures
        world_hit_t(first, r, t_min, t_max) == world_hit_t(second, r, t_min, t_max),
{
    lemma_world_hit_nearest(first, r, t_min, t_max);
    lemma_world_hit_nearest(second, r, t_min, t_max);
    first.to_multiset_ensures();
    second.to_multiset_ensures();
    assert forall|i: int| 0 <= i < first.len() implies second.contains(#[trigger] first[i]) by {
        assert(first.contains(first[i]));
        assert(first.to_multiset().count(first[i]) > 0);
    }
    assert forall|i: int| 0 <= i < second.len() implies first.contains(#[trigger] second[i]) by {
        assert(second.contains(second[i]));
        assert(second.to_multiset().count(second[i]) > 0);
    }
    match world_hit(first, r, t_min, t_max) {
        Some(h) => {
            let i = choose|i: int|
                0 <= i < first.len() && #[trigger] sphere_hit(first[i], r, t_min, t_max) == Some(h);
            assert(second.contains(first[i]));
            let j = choose|j: int| 0 <= j < second.len() && second[j] == first[i];
            assert(sphere_hit(second[j], r, t_min, t_max) == Some(h));
        },
        None => {},
    }
    match world_hit(second, r, t_min, t_max) {
        Some(h) => {
            let i = choose|i: int|
                0 <= i < second.len() && #[trigger] sphere_hit(second[i], r, t_min, t_max) == Some(
                    h,
                );
            assert(first.contains(second[i]));
            let j = choose|j: int| 0 <= j < first.len() && first[j] == second[i];
            assert(sphere_hit(first[j], r, t_min, t_max) == Some(h));
        },
        None => {},
    }
}

/// A scene: spheres in no particular order.
#[derive(Clone, Debug)]
pub struct World {
    objects: Vec<Sphere>,
}

impl View for World {
    type V = Seq<SphereModel>;

    closed spec fn view(&self) -> Seq<SphereModel> {
        Seq::new(self.objects@.len(), |i: int| self.objects@[i]@)
    }
}

impl World {
    /// The empty scene.
    pub fn new() -> (w: World)
        ensures
            w@ == Seq::<SphereModel>::empty(),
    {
        let w = World { objects: Vec::new() };
        assert(w@ =~= Seq::<SphereModel>::empty());
        w
    }

    /// Adds a sphere to the scene.
    pub fn push(&mut self, sphere: Sphere)
        ensures
            final(self)@ == old(self)@.push(sphere@),
    {
        self.objects.push(sphere);
        assert(self@ =~= old(self)@.push(sphere@));
    }

    /// The number of spheres.
    pub fn len(&self) -> (n: usize)
        ensures
            n == self@.len(),
    {
        self.objects.len()
    }

    /// The nearest hit of the ray with the scene, with the parameter strictly
    /// between `t_min` and `t_max`.
    pub fn hit(&self, r: &Ray, t_min: Scalar, t_max: Scalar) -> (rec: Option<HitRecord>)
        ensures
            hit_view(rec) == world_hit(self@, r@, t_min@, t_max@),
            match hit_view(rec) {
                Some(h) => is_nearest_hit(self@, r@, t_min@, t_max@, h),
                None => nothing_hit(self@, r@, t_min@, t_max@),
            },
    {
        let mut best: Option<HitRecord> = None;
        let mut closest: Scalar = t_max;
        let mut i: usize = 0;
        while i < self.objects.len()
            invariant
                i <= self.objects.len(),
                hit_view(best) == world_hit(self@.take(i as int), r@, t_min@, t_max@),
                closest@ == closest_so_far(hit_view(best), t_max@),
            decreases self.objects.len() - i,
        {
            proof {
                assert(self@.take(i + 1).drop_last() =~= self@.take(i as int));
                assert(self@.take(i + 1).last() == self.objects@[i as int]@);
            }
            match self.objects[i].hit(r, t_min, closest) {
                Some(rec) => {
                    closest = rec.t;
                    best = Some(rec);
                },
                None => {},
            }
            i = i + 1;
        }
        proof {
            assert(self@.take(i as int) =~= self@);
            lemma_world_hit_nearest(self@, r@, t_min@, t_max@);
        }
        best
    }
}

} // verus!
