//! The camera: a thin lens in front of a focus plane, which turns a position
//! in the image into a ray.
use vstd::prelude::*;
use crate::random::random_between;
use crate::ray::{Ray, RayModel};
use crate::scalar::{div_raw, mul_raw, Scalar, ONE_RAW};
use crate::vec::{
    v3_add, v3_cross, v3_div, v3_in_unit_sphere, v3_scale, v3_sub, v3_unit, v3_within, Point3, Vec3,
    SPHERE_DRAWS, V3,
};

verus! {

/// What a [`Camera`] stands for.
pub struct CameraModel {
    pub origin: V3,
    pub lower_left_corner: V3,
    pub horizontal: V3,
    pub vertical: V3,
    pub cu: V3,
    pub cv: V3,
    pub lens_radius: int,
}

/// The camera at `lookfrom` that looks at `lookat`, with `vup` pointing up in
/// the image. `viewport_height` is the height of the image plane at distance
/// one, `aspect_ratio` its width over its height, `aperture` the diameter of
/// the lens, and `focus_dist` the distance of the plane that is in focus.
pub open spec fn camera_new(
    lookfrom: V3,
    lookat: V3,
    vup: V3,
    viewport_height: int,
    aspect_ratio: int,
    aperture: int,
    focus_dist: int,
) -> CameraModel {
    let viewport_width = mul_raw(aspect_ratio, viewport_height);
    let cw = v3_unit(v3_sub(lookfrom, lookat));
    let cu = v3_unit(v3_cross(vup, cw));
    let cv = v3_cross(cw, cu);
    let horizontal = v3_scale(cu, mul_raw(focus_dist, viewport_width));
    let vertical = v3_scale(cv, mul_raw(focus_dist, viewport_height));
    let two = 2 * ONE_RAW;
    CameraModel {
        origin: lookfrom,
        lower_left_corner: v3_sub(
            v3_sub(v3_sub(lookfrom, v3_div(horizontal, two)), v3_div(vertical, two)),
            v3_scale(cw, focus_dist),
        ),
        horizontal,
        vertical,
        cu,
        cv,
        lens_radius: div_raw(aperture, two),
    }
}

/// Whether `lens` is a point that can be drawn on the lens: strictly inside
/// the unit circle of the plane `z = 0`.
pub open spec fn lens_ok(lens: V3) -> bool {
    v3_in_unit_sphere(lens) && v3_within(lens, -ONE_RAW, ONE_RAW as int) && lens.z == 0
}

/// The ray through the image position `(s, t)`, both from zero at the lower
/// left to one at the upper right, that leaves the lens at the point `lens`.
pub open spec fn camera_ray(c: CameraModel, s: int, t: int, lens: V3) -> RayModel {
    let rd = v3_scale(lens, c.lens_radius);
    let offset = v3_add(v3_scale(c.cu, rd.x), v3_scale(c.cv, rd.y));
    RayModel {
        origin: v3_add(c.origin, offset),
        direction: v3_sub(
            v3_sub(
                v3_add(
                    v3_add(c.lower_left_corner, v3_scale(c.horizontal, s)),
                    v3_scale(c.vertical, t),
                ),
                c.origin,
            ),
            offset,
        ),
    }
}

/// A camera; it does not change once it is made.
#[derive(Clone, Copy, Debug)]
pub struct Camera {
    origin: Point3,
    lower_left_corner: Point3,
    horizontal: Vec3,
    vertical: Vec3,
    cu: Vec3,
    cv: Vec3,
    lens_radius: Scalar,
}

impl View for Camera {
    type V = CameraModel;

    closed spec fn view(&self) -> CameraModel {
        CameraModel {
            origin: self.origin@,
            lower_left_corner: self.lower_left_corner@,
            horizontal: self.horizontal@,
            vertical: self.vertical@,
            cu: self.cu@,
            cv: self.cv@,
            lens_radius: self.lens_radius@,
        }
    }
}

/// A random point strictly inside the unit circle of the plane `z = 0`, found
/// by drawing from the enclosing square until a draw falls inside. After
/// `SPHERE_DRAWS` draws that all fell outside, the centre is returned.
pub fn random_in_unit_disk() -> (p: Vec3)
    ensures
        exists|draws: Seq<V3>| #[trigger]
            lens_draws_ok(draws) && p@ == crate::vec::rejection_pick(draws),
        lens_ok(p@),
{
    let mut draws: u32 = 0;
    let ghost mut tried: Seq<V3> = Seq::empty();
    while draws < SPHERE_DRAWS
        invariant
            draws <= SPHERE_DRAWS,
            tried.len() == draws,
            forall|i: int|
                0 <= i < tried.len() ==> v3_within(#[trigger] tried[i], -ONE_RAW, ONE_RAW as int)
                    && tried[i].z == 0 && !v3_in_unit_sphere(tried[i]),
        decreases SPHERE_DRAWS - draws,
    {
        let x: Scalar = random_between(Scalar { raw: -ONE_RAW }, Scalar { raw: ONE_RAW });
        let y: Scalar = random_between(Scalar { raw: -ONE_RAW }, Scalar { raw: ONE_RAW });
        let p: Vec3 = Vec3 { x, y, z: Scalar { raw: 0 } };
        proof {
            tried = tried.push(p@);
        }
        if p.in_unit_sphere() {
            assert(lens_draws_ok(tried) && p@ == crate::vec::rejection_pick(tried));
            return p;
        }
        draws = draws + 1;
    }
    assert(lens_draws_ok(tried));
    assert(crate::vec::rejection_pick(tried) == (V3 { x: 0, y: 0, z: 0 }));
    Vec3::from_raw(0, 0, 0)
}

/// Whether the draws are such as rejection sampling from the square about
/// the unit circle makes: draws of the plane `z = 0` that rejection sampling
/// from the cube could make as well.
pub open spec fn lens_draws_ok(draws: Seq<V3>) -> bool {
    &&& crate::vec::rejection_draws_ok(draws)
    &&& forall|i: int| 0 <= i < draws.len() ==> (#[trigger] draws[i]).z == 0
}

impl Camera {
    /// The camera at `lookfrom` that looks at `lookat`; see [`camera_new`].
    pub fn new(
        lookfrom: Point3,
        lookat: Point3,
        vup: Vec3,
        viewport_height: Scalar,
        aspect_ratio: Scalar,
        aperture: Scalar,
        focus_dist: Scalar,
    ) -> (c: Camera)
        ensures
            c@ == camera_new(
                lookfrom@,
                lookat@,
                vup@,
                viewport_height@,
                aspect_ratio@,
                aperture@,
                focus_dist@,
            ),
    {
        let viewport_width: Scalar = aspect_ratio * viewport_height;
        let cw: Vec3 = (lookfrom - lookat).normalized();
        let cu: Vec3 = vup.cross(cw).normalized();
        let cv: Vec3 = cw.cross(cu);
        let horizontal: Vec3 = (focus_dist * viewport_width) * cu;
        let vertical: Vec3 = (focus_dist * viewport_height) * cv;
        let two: Scalar = Scalar { raw: 2 * ONE_RAW };
        Camera {
            origin: lookfrom,
            lower_left_corner: lookfrom - horizontal / two - vertical / two - focus_dist * cw,
            horizontal,
            vertical,
            cu,
            cv,
            lens_radius: aperture / two,
        }
    }

    /// The ray through the image position `(s, t)` that leaves the lens at
    /// the point `lens`.
    pub fn get_ray_through(&self, s: Scalar, t: Scalar, lens: Vec3) -> (r: Ray)
        ensures
            r@ == camera_ray(self@, s@, t@, lens@),
    {
        let rd: Vec3 = self.lens_radius * lens;
        let offset: Vec3 = self.cu * rd.x + self.cv * rd.y;
        Ray::new(
            self.origin + offset,
            self.lower_left_corner + s * self.horizontal + t * self.vertical - self.origin
                - offset,
        )
    }

    /// The ray through the image position `(s, t)` that leaves the lens at a
    /// random point.
    pub fn get_ray(&self, s: Scalar, t: Scalar) -> (r: Ray)
        ensures
            exists|lens: V3| #[trigger] lens_ok(lens) && r@ == camera_ray(self@, s@, t@, lens),
    {
        let lens: Vec3 = random_in_unit_disk();
        self.get_ray_through(s, t, lens)
    }
}

} // verus!
