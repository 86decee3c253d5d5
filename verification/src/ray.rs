//! Rays: an origin and a direction, which need not have unit length.
use vstd::prelude::*;
use crate::scalar::Scalar;
use crate::vec::{v3_add, v3_is_vec, v3_scale, Point3, Vec3, V3};

verus! {

/// What a [`Ray`] stands for.
pub struct RayModel {
    pub origin: V3,
    pub direction: V3,
}

/// The point of the ray at parameter `t`: `origin + t * direction`.
pub open spec fn ray_at(r: RayModel, t: int) -> V3 {
    v3_add(r.origin, v3_scale(r.direction, t))
}

/// A ray; it does not change once it is made.
#[derive(Clone, Copy, Debug)]
pub struct Ray {
    orig: Point3,
    dir: Vec3,
}

impl View for Ray {
    type V = RayModel;

    closed spec fn view(&self) -> RayModel {
        RayModel { origin: self.orig@, direction: self.dir@ }
    }
}

impl Ray {
    /// The components of a ray are values that a [`Vec3`] can hold.
    pub proof fn lemma_is_vec(&self)
        ensures
            v3_is_vec(self@.origin),
            v3_is_vec(self@.direction),
    {
    }

    /// The ray from `origin` along `direction`.
    pub fn new(origin: Point3, direction: Vec3) -> (r: Ray)
        ensures
            r@ == (RayModel { origin: origin@, direction: direction@ }),
    {
        Ray { orig: origin, dir: direction }
    }

    /// Where the ray starts.
    pub fn origin(&self) -> (p: Point3)
        ensures
            p@ == self@.origin,
    {
        self.orig
    }

    /// Where the ray points.
    pub fn direction(&self) -> (d: Vec3)
        ensures
            d@ == self@.direction,
    {
        self.dir
    }

    /// The point of the ray at parameter `t`.
    pub fn at(&self, t: Scalar) -> (p: Point3)
        ensures
            p@ == ray_at(self@, t@),
    {
        self.orig + t * self.dir
    }
}

} // verus!
