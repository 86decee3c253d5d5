//! Spheres, and the test of a ray against one.
use vstd::prelude::*;
use core::ops::Neg;
use crate::hit::{hit_view, HitModel, HitRecord};
use crate::material::{Material, MaterialModel};
use crate::ray::{ray_at, Ray, RayModel};
use crate::scalar::{
    add_raw, div_raw, is_floor_sqrt, lemma_div_raw_monotone, lemma_floor_sqrt_unique,
    lemma_mul_raw_neg, lemma_mul_raw_unit, lemma_sqrt_raw_sign, lemma_tdiv_bound, lemma_tdiv_exact,
    mul_raw, neg_raw, sqrt_raw, sub_raw, tdiv, Scalar, ONE_RAW,
};
use crate::vec::{
    axis_vector, lemma_dot_neg, lemma_len_sq_nonnegative, v3_div, v3_dot, v3_in_range, v3_len_sq,
    v3_neg, v3_sub, Point3, Vec3, V3,
};

verus! {

/// What a [`Sphere`] stands for.
pub struct SphereModel {
    pub center: V3,
    pub radius: int,
    pub mat: MaterialModel,
}

/// A quarter of the discriminant of `|origin + t direction - center|^2 = radius^2`
/// as an equation in `t`.
pub open spec fn sphere_discriminant(s: SphereModel, r: RayModel) -> int {
    let oc = v3_sub(r.origin, s.center);
    let a = v3_len_sq(r.direction);
    let half_b = v3_dot(oc, r.direction);
    let c = sub_raw(v3_len_sq(oc), mul_raw(s.radius, s.radius));
    sub_raw(mul_raw(half_b, half_b), mul_raw(a, c))
}

/// The smaller root of the equation; meant for a discriminant that is not negative.
pub open spec fn sphere_near_root(s: SphereModel, r: RayModel) -> int {
    let oc = v3_sub(r.origin, s.center);
    let a = v3_len_sq(r.direction);
    let half_b = v3_dot(oc, r.direction);
    div_raw(sub_raw(neg_raw(half_b), sqrt_raw(sphere_discriminant(s, r))), a)
}

/// The larger root of the equation; meant for a discriminant that is not negative.
pub open spec fn sphere_far_root(s: SphereModel, r: RayModel) -> int {
    let oc = v3_sub(r.origin, s.center);
    let a = v3_len_sq(r.direction);
    let half_b = v3_dot(oc, r.direction);
    div_raw(add_raw(neg_raw(half_b), sqrt_raw(sphere_discriminant(s, r))), a)
}

/// The normal that points away from the centre at the point `p`. A negative
/// radius turns it inwards.
pub open spec fn outward_normal(s: SphereModel, p: V3) -> V3 {
    v3_div(v3_sub(p, s.center), s.radius)
}

/// The record of the hit at parameter `t`. The normal is the outward normal,
/// turned against the ray.
pub open spec fn sphere_hit_at(s: SphereModel, r: RayModel, t: int) -> HitModel {
    let p = ray_at(r, t);
    let outward = outward_normal(s, p);
    let front_face = v3_dot(r.direction, outward) < 0;
    HitModel {
        p,
        normal: if front_face {
            outward
        } else {
            v3_neg(outward)
        },
        mat: s.mat,
        t,
        front_face,
    }
}

/// The hit of the ray with the sphere at the smallest root strictly between
/// `t_min` and `t_max`, if there is one.
///
/// The definition is opaque, so that proofs about many spheres stay small;
/// `reveal(sphere_hit)` unfolds it.
#[verifier::opaque]
pub open spec fn sphere_hit(s: SphereModel, r: RayModel, t_min: int, t_max: int) -> Option<
    HitModel,
> {
    if sphere_discriminant(s, r) < 0 {
        None
    } else if t_min < sphere_near_root(s, r) < t_max {
        Some(sphere_hit_at(s, r, sphere_near_root(s, r)))
    } else if t_min < sphere_far_root(s, r) < t_max {
        Some(sphere_hit_at(s, r, sphere_far_root(s, r)))
    } else {
        None
    }
}

/// The smaller root is no larger than the larger one.
pub proof fn lemma_sphere_roots_ordered(s: SphereModel, r: RayModel)
    ensures
        sphere_near_root(s, r) <= sphere_far_root(s, r),
{
    let oc = v3_sub(r.origin, s.center);
    let a = v3_len_sq(r.direction);
    let half_b = v3_dot(oc, r.direction);
    let root = sqrt_raw(sphere_discriminant(s, r));
    lemma_sqrt_raw_sign(sphere_discriminant(s, r));
    let low = sub_raw(neg_raw(half_b), root);
    let high = add_raw(neg_raw(half_b), root);
    lemma_len_sq_nonnegative(r.direction);
    lemma_div_raw_monotone(low, high, a);
}

/// The normal of a hit lies along the line from the centre to the hit point:
/// it is the outward normal where that is turned against the ray, which is
/// where the hit counts as coming from outside, and its opposite elsewhere.
/// Either way it is turned against the ray.
pub proof fn lemma_sphere_hit_faces_ray(s: SphereModel, r: RayModel, t_min: int, t_max: int)
    ensures
        match sphere_hit(s, r, t_min, t_max) {
            Some(h) => {
                &&& v3_dot(r.direction, h.normal) <= 0
                &&& h.front_face == (v3_dot(r.direction, outward_normal(s, h.p)) < 0)
                &&& h.normal == (if h.front_face {
                    outward_normal(s, h.p)
                } else {
                    v3_neg(outward_normal(s, h.p))
                })
                &&& h.p == ray_at(r, h.t)
                &&& h.mat == s.mat
                &&& v3_in_range(h.p)
                &&& v3_in_range(h.normal)
            },
            None => true,
        },
{
    reveal(sphere_hit);
    match sphere_hit(s, r, t_min, t_max) {
        Some(h) => {
            lemma_dot_neg(r.direction, outward_normal(s, h.p));
        },
        None => {},
    }
}

/// A hit lies strictly inside the interval that was asked for.
pub proof fn lemma_sphere_hit_in_range(s: SphereModel, r: RayModel, t_min: int, t_max: int)
    ensures
        match sphere_hit(s, r, t_min, t_max) {
            Some(h) => t_min < h.t < t_max,
            None => true,
        },
{
    reveal(sphere_hit);
}

/// Asking with a smaller upper end gives the same hit where that hit lies
/// below the new end, and none where it does not.
pub proof fn lemma_sphere_hit_shrink(
    s: SphereModel,
    r: RayModel,
    t_min: int,
    closer: int,
    t_max: int,
)
    requires
        closer <= t_max,
    ensures
        sphere_hit(s, r, t_min, closer) == match sphere_hit(s, r, t_min, t_max) {
            Some(h) => if h.t < closer {
                Some(h)
            } else {
                None
            },
            None => None,
        },
{
    reveal(sphere_hit);
    lemma_sphere_roots_ordered(s, r);
}

/// How far from the origin, in raw units, the exact statements about rays
/// along an axis reach: up to here no step of the hit test saturates.
pub const AXIS_REACH_RAW: i64 = 1_000_000_000_000;

/// The size of a number.
pub open spec fn size_of(a: int) -> int {
    if a < 0 {
        -a
    } else {
        a
    }
}

/// Whether the ray runs along a coordinate axis, forwards (`sign` one) or
/// backwards (`sign` minus one), with a direction of length one, and starts
/// on the line through the centre of the sphere, `distance` before the
/// centre and outside the sphere; all within `AXIS_REACH_RAW`, and with a
/// radius that is a whole number of thousandths, so that its square is exact.
pub open spec fn axis_ray_through_center(
    s: SphereModel,
    r: RayModel,
    axis: int,
    sign: int,
    distance: int,
) -> bool {
    &&& 0 <= axis <= 2
    &&& sign == 1 || sign == -1
    &&& r.direction == axis_vector(axis, sign * ONE_RAW)
    &&& r.origin == V3 {
        x: s.center.x - axis_vector(axis, sign * distance).x,
        y: s.center.y - axis_vector(axis, sign * distance).y,
        z: s.center.z - axis_vector(axis, sign * distance).z,
    }
    &&& -AXIS_REACH_RAW <= s.center.x <= AXIS_REACH_RAW
    &&& -AXIS_REACH_RAW <= s.center.y <= AXIS_REACH_RAW
    &&& -AXIS_REACH_RAW <= s.center.z <= AXIS_REACH_RAW
    &&& 0 < size_of(s.radius) < distance <= AXIS_REACH_RAW
    &&& s.radius % 1000 == 0
}

proof fn lemma_centered_roots(distance: int, radius: int)
    requires
        0 < size_of(radius) < distance <= AXIS_REACH_RAW,
        radius % 1000 == 0,
    ensures
        mul_raw(-distance, -distance) == mul_raw(distance, distance),
        sub_raw(
            mul_raw(-distance, -distance),
            mul_raw(
                ONE_RAW as int,
                sub_raw(mul_raw(distance, distance), mul_raw(radius, radius)),
            ),
        ) == mul_raw(radius, radius),
        mul_raw(radius, radius) > 0,
        sqrt_raw(mul_raw(radius, radius)) == size_of(radius),
        div_raw(sub_raw(neg_raw(-distance), size_of(radius)), ONE_RAW as int) == distance - size_of(
            radius,
        ),
        div_raw(add_raw(neg_raw(-distance), size_of(radius)), ONE_RAW as int) == distance + size_of(
            radius,
        ),
{
    let k = distance;
    let m = radius / 1000;
    assert(radius == 1000 * m);
    assert(radius * radius == (m * m) * 1_000_000) by (nonlinear_arith)
        requires
            radius == 1000 * m,
    {
    }
    assert(m * m > 0) by (nonlinear_arith)
        requires
            m != 0,
    {
    }
    assert(m * m <= 1_000_000_000_000_000_000) by (nonlinear_arith)
        requires
            -1_000_000_000 <= m <= 1_000_000_000,
    {
    }
    lemma_tdiv_exact(m * m, ONE_RAW as int);
    assert(mul_raw(radius, radius) == m * m);
    assert(0 <= k * k <= 1_000_000_000_000_000_000_000_000) by (nonlinear_arith)
        requires
            0 < k <= 1_000_000_000_000,
    {
    }
    assert((-k) * (-k) == k * k) by (nonlinear_arith);
    lemma_tdiv_bound(k * k, ONE_RAW as int);
    let kk = mul_raw(k, k);
    assert(kk == (k * k) / (ONE_RAW as int));
    assert(0 <= kk <= 1_000_000_000_000_000_000);
    let c = sub_raw(kk, m * m);
    lemma_mul_raw_unit(c);
    assert(size_of(radius) * size_of(radius) == radius * radius) by (nonlinear_arith)
        requires
            size_of(radius) == radius || size_of(radius) == -radius,
    {
    }
    assert((m * m) * ONE_RAW == radius * radius);
    assert(is_floor_sqrt(radius * radius, size_of(radius))) by (nonlinear_arith)
        requires
            size_of(radius) * size_of(radius) == radius * radius,
            size_of(radius) >= 0,
    {
    }
    lemma_floor_sqrt_unique(radius * radius, size_of(radius));
    lemma_tdiv_exact(k - size_of(radius), ONE_RAW as int);
    lemma_tdiv_exact(k + size_of(radius), ONE_RAW as int);
}

proof fn lemma_axis_component(c: int, sign: int, distance: int, radius: int, t: int)
    requires
        sign == 1 || sign == -1,
        -AXIS_REACH_RAW <= c <= AXIS_REACH_RAW,
        0 < size_of(radius) < distance <= AXIS_REACH_RAW,
        radius % 1000 == 0,
        t == distance - size_of(radius) || t == distance + size_of(radius),
    ensures
        sub_raw(c - sign * distance, c) == -sign * distance,
        mul_raw(sign * ONE_RAW, sign * ONE_RAW) == ONE_RAW,
        mul_raw(-sign * distance, sign * ONE_RAW) == -distance,
        mul_raw(-sign * distance, -sign * distance) == mul_raw(distance, distance),
        add_raw(c - sign * distance, mul_raw(sign * ONE_RAW, t)) == c + sign * (t - distance),
        div_raw(sub_raw(c + sign * (t - distance), c), radius) == (if (t < distance) == (radius
            > 0) {
            -sign * ONE_RAW
        } else {
            sign * ONE_RAW
        }),
        mul_raw(sign * ONE_RAW, -sign * ONE_RAW) == -ONE_RAW,
        neg_raw(sign * ONE_RAW) == -sign * ONE_RAW,
        neg_raw(-sign * ONE_RAW) == sign * ONE_RAW,
{
    let k = distance;
    lemma_mul_raw_unit(ONE_RAW as int);
    lemma_mul_raw_unit(-(ONE_RAW as int));
    lemma_mul_raw_unit(k);
    lemma_mul_raw_unit(-k);
    lemma_mul_raw_unit(t);
    lemma_mul_raw_neg(ONE_RAW as int, ONE_RAW as int);
    lemma_mul_raw_neg(-(ONE_RAW as int), ONE_RAW as int);
    lemma_mul_raw_neg(k, ONE_RAW as int);
    lemma_mul_raw_neg(-k, ONE_RAW as int);
    lemma_mul_raw_neg(t, ONE_RAW as int);
    lemma_mul_raw_neg(ONE_RAW as int, t);
    assert((-k) * (-k) == k * k) by (nonlinear_arith);
    let m = size_of(radius);
    lemma_tdiv_exact(ONE_RAW as int, m);
    assert(ONE_RAW * m == m * ONE_RAW) by (nonlinear_arith);
    assert((m * ONE_RAW) / m == ONE_RAW);
}

/// The record of the hit of a ray along an axis, aimed at the centre from
/// `distance` away, at the parameter `t`: the point lies `t - distance`
/// behind the centre, the normal is the opposite of the direction, and the
/// ray comes from outside at the near side of a sphere of positive radius and
/// at the far side of one of negative radius.
pub open spec fn axis_hit(s: SphereModel, axis: int, sign: int, distance: int, t: int) -> HitModel {
    HitModel {
        p: V3 {
            x: s.center.x + axis_vector(axis, sign * (t - distance)).x,
            y: s.center.y + axis_vector(axis, sign * (t - distance)).y,
            z: s.center.z + axis_vector(axis, sign * (t - distance)).z,
        },
        normal: axis_vector(axis, -sign * ONE_RAW),
        mat: s.mat,
        t,
        front_face: (t < distance) == (s.radius > 0),
    }
}

/// A ray along an axis that is aimed at the centre of a sphere from outside
/// meets it at the distance less the radius and leaves it at the distance
/// plus the radius, and at both points the outward normal lies along the line
/// from the centre to the point, away from the centre for a positive radius
/// and towards it for a negative one.
pub proof fn lemma_axis_ray_through_center(
    s: SphereModel,
    r: RayModel,
    axis: int,
    sign: int,
    distance: int,
)
    requires
        axis_ray_through_center(s, r, axis, sign, distance),
    ensures
        sphere_discriminant(s, r) >= 0,
        sphere_near_root(s, r) == distance - size_of(s.radius),
        sphere_far_root(s, r) == distance + size_of(s.radius),
        sphere_hit_at(s, r, sphere_near_root(s, r)) == axis_hit(
            s,
            axis,
            sign,
            distance,
            distance - size_of(s.radius),
        ),
        sphere_hit_at(s, r, sphere_far_root(s, r)) == axis_hit(
            s,
            axis,
            sign,
            distance,
            distance + size_of(s.radius),
        ),
        outward_normal(s, ray_at(r, sphere_near_root(s, r))) == axis_vector(
            axis,
            if s.radius > 0 {
                -sign * ONE_RAW
            } else {
                sign * ONE_RAW
            },
        ),
        outward_normal(s, ray_at(r, sphere_far_root(s, r))) == axis_vector(
            axis,
            if s.radius > 0 {
                sign * ONE_RAW
            } else {
                -sign * ONE_RAW
            },
        ),
{
    let k = distance;
    let m = size_of(s.radius);
    let c = if axis == 0 {
        s.center.x
    } else if axis == 1 {
        s.center.y
    } else {
        s.center.z
    };
    lemma_centered_roots(k, s.radius);
    lemma_axis_component(c, sign, k, s.radius, k - m);
    lemma_axis_component(c, sign, k, s.radius, k + m);
    lemma_mul_raw_unit(0);
    lemma_mul_raw_unit(k - m);
    lemma_mul_raw_unit(k + m);
    lemma_mul_raw_unit(sign * ONE_RAW);
    lemma_mul_raw_unit(-sign * ONE_RAW);
    lemma_mul_raw_unit(-sign * k);
    assert(tdiv(0, s.radius) == 0) by {
        lemma_tdiv_exact(0, m);
    }
    let oc = v3_sub(r.origin, s.center);
    assert(oc == axis_vector(axis, -sign * k));
    assert(v3_len_sq(r.direction) == ONE_RAW);
    assert(v3_dot(oc, r.direction) == -k);
    assert(v3_len_sq(oc) == mul_raw(k, k));
    assert(sphere_discriminant(s, r) == mul_raw(s.radius, s.radius));
    assert(sphere_near_root(s, r) == k - m);
    assert(sphere_far_root(s, r) == k + m);
    let near = ray_at(r, k - m);
    let far = ray_at(r, k + m);
    assert(near == axis_hit(s, axis, sign, k, k - m).p);
    assert(far == axis_hit(s, axis, sign, k, k + m).p);
    assert(outward_normal(s, near) == axis_vector(
        axis,
        if s.radius > 0 {
            -sign * ONE_RAW
        } else {
            sign * ONE_RAW
        },
    ));
    assert(outward_normal(s, far) == axis_vector(
        axis,
        if s.radius > 0 {
            sign * ONE_RAW
        } else {
            -sign * ONE_RAW
        },
    ));
}

/// What the hit test gives for a ray along an axis that is aimed at the
/// centre of a sphere from outside: the near point where it lies inside the
/// interval, else the far point where that does, else nothing.
pub proof fn lemma_axis_ray_hit(
    s: SphereModel,
    r: RayModel,
    axis: int,
    sign: int,
    distance: int,
    t_min: int,
    t_max: int,
)
    requires
        axis_ray_through_center(s, r, axis, sign, distance),
    ensures
        sphere_hit(s, r, t_min, t_max) == (if t_min < distance - size_of(s.radius) < t_max {
            Some(axis_hit(s, axis, sign, distance, distance - size_of(s.radius)))
        } else if t_min < distance + size_of(s.radius) < t_max {
            Some(axis_hit(s, axis, sign, distance, distance + size_of(s.radius)))
        } else {
            None
        }),
{
    reveal(sphere_hit);
    lemma_axis_ray_through_center(s, r, axis, sign, distance);
}

/// A sphere. A negative radius keeps the surface and turns the normals
/// inwards, which makes the inside of a hollow shell.
#[derive(Clone, Copy, Debug)]
pub struct Sphere {
    center: Point3,
    radius: Scalar,
    mat: Material,
}

impl View for Sphere {
    type V = SphereModel;

    closed spec fn view(&self) -> SphereModel {
        SphereModel { center: self.center@, radius: self.radius@, mat: self.mat@ }
    }
}

impl Sphere {
    /// The sphere about `center` with the given radius and material.
    pub fn new(center: Point3, radius: Scalar, mat: Material) -> (s: Sphere)
        ensures
            s@ == (SphereModel { center: center@, radius: radius@, mat: mat@ }),
    {
        Sphere { center, radius, mat }
    }

    /// The hit of the ray with the sphere at the smallest root strictly
    /// between `t_min` and `t_max`, if there is one.
    pub fn hit(&self, r: &Ray, t_min: Scalar, t_max: Scalar) -> (rec: Option<HitRecord>)
        ensures
            hit_view(rec) == sphere_hit(self@, r@, t_min@, t_max@),
            match hit_view(rec) {
                Some(h) => t_min@ < h.t < t_max@ && v3_dot(r@.direction, h.normal) <= 0,
                None => true,
            },
            forall|axis: int, sign: int, distance: int| #[trigger]
                axis_ray_through_center(self@, r@, axis, sign, distance) ==> hit_view(rec) == (
                if t_min@ < distance - size_of(self@.radius) < t_max@ {
                    Some(axis_hit(self@, axis, sign, distance, distance - size_of(self@.radius)))
                } else if t_min@ < distance + size_of(self@.radius) < t_max@ {
                    Some(axis_hit(self@, axis, sign, distance, distance + size_of(self@.radius)))
                } else {
                    None
                }),
    {
        proof {
            reveal(sphere_hit);
            lemma_sphere_hit_faces_ray(self@, r@, t_min@, t_max@);
            assert forall|axis: int, sign: int, distance: int| #[trigger]
                axis_ray_through_center(self@, r@, axis, sign, distance) implies sphere_hit(
                self@,
                r@,
                t_min@,
                t_max@,
            ) == (if t_min@ < distance - size_of(self@.radius) < t_max@ {
                Some(axis_hit(self@, axis, sign, distance, distance - size_of(self@.radius)))
            } else if t_min@ < distance + size_of(self@.radius) < t_max@ {
                Some(axis_hit(self@, axis, sign, distance, distance + size_of(self@.radius)))
            } else {
                None
            }) by {
                lemma_axis_ray_hit(self@, r@, axis, sign, distance, t_min@, t_max@);
            }
        }
        let oc: Vec3 = r.origin() - self.center;
        let a: Scalar = r.direction().length_squared();
        let half_b: Scalar = oc.dot(r.direction());
        let c: Scalar = oc.length_squared() - self.radius * self.radius;
        let discriminant: Scalar = half_b * half_b - a * c;
        if discriminant.raw < 0 {
            return None;
        }
        let sqrtd: Scalar = discriminant.sqrt();
        let mut root: Scalar = (half_b.neg() - sqrtd) / a;
        if root.raw <= t_min.raw || t_max.raw <= root.raw {
            root = (half_b.neg() + sqrtd) / a;
            if root.raw <= t_min.raw || t_max.raw <= root.raw {
                return None;
            }
        }
        let p: Point3 = r.at(root);
        let outward: Vec3 = (p - self.center) / self.radius;
        let front_face: bool = r.direction().dot(outward).raw < 0;
        let normal: Vec3 = if front_face {
            outward
        } else {
            outward.neg()
        };
        Some(HitRecord { p, normal, mat: self.mat, t: root, front_face })
    }
}

} // verus!
