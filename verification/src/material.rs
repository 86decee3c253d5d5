//! Materials: what becomes of a ray that meets a surface.
use vstd::prelude::*;
use core::ops::Neg;
use crate::hit::{HitModel, HitRecord};
use crate::random::random_fraction;
use crate::ray::{Ray, RayModel};
use crate::scalar::{
    add_raw, clamp_raw, div_raw, is_floor_sqrt, lemma_floor_sqrt_exists, lemma_floor_sqrt_unique,
    lemma_mul_raw_neg, lemma_mul_raw_square, lemma_mul_raw_unit, lemma_tdiv_exact, min_raw, mul_raw,
    sqrt_raw, sub_raw, tdiv, Scalar, MAX_RAW, ONE_RAW,
};
use crate::vec::{
    axis_vector, v3_add, v3_dot, v3_in_range, v3_in_unit_sphere, v3_len, v3_near_zero, v3_neg,
    v3_reflect, v3_refract, v3_refract_perp, v3_scale, v3_unit, v3_within, Color, Vec3, V3,
};

verus! {

/// What a [`Material`] stands for.
pub enum MaterialModel {
    Lambertian { albedo: V3 },
    Metal { albedo: V3, fuzz: int },
    Dielectric { ior: int },
}

/// What a [`Sample`] stands for.
pub struct SampleModel {
    pub v: V3,
    pub u: int,
}

/// Whether the sample is one that can be drawn: a point strictly inside the
/// unit sphere and a number that is at least zero and less than one.
pub open spec fn sample_ok(s: SampleModel) -> bool {
    &&& v3_in_unit_sphere(s.v)
    &&& v3_within(s.v, -ONE_RAW, ONE_RAW as int)
    &&& 0 <= s.u < ONE_RAW
}

/// The colour white, which takes nothing from the light.
pub open spec fn white() -> V3 {
    V3 { x: ONE_RAW as int, y: ONE_RAW as int, z: ONE_RAW as int }
}

/// The fifth power of `x`.
pub open spec fn pow5_raw(x: int) -> int {
    let x2 = mul_raw(x, x);
    mul_raw(mul_raw(x2, x2), x)
}

/// Schlick's estimate of how much of the light a surface reflects, seen
/// under an angle with the given cosine, for the given ratio of refractive
/// indices.
pub open spec fn reflectance(cosine: int, ratio: int) -> int {
    let r = div_raw(sub_raw(ONE_RAW as int, ratio), add_raw(ONE_RAW as int, ratio));
    let r0 = mul_raw(r, r);
    add_raw(r0, mul_raw(sub_raw(ONE_RAW as int, r0), pow5_raw(sub_raw(ONE_RAW as int, cosine))))
}

/// Scattering at a diffuse surface: along the normal plus a random direction,
/// or along the normal alone where the two cancel.
pub open spec fn scatter_lambertian(albedo: V3, rec: HitModel, v: V3) -> Option<(V3, RayModel)> {
    let d = v3_add(rec.normal, v3_unit(v));
    let direction = if v3_near_zero(d) {
        rec.normal
    } else {
        d
    };
    Some((albedo, RayModel { origin: rec.p, direction }))
}

/// The direction in which a metal sends the ray on: the mirror image of the
/// incoming direction, moved by `fuzz` times a random point.
pub open spec fn metal_direction(fuzz: int, r_in: RayModel, rec: HitModel, v: V3) -> V3 {
    v3_add(v3_reflect(v3_unit(r_in.direction), rec.normal), v3_scale(v, fuzz))
}

/// Scattering at a metal: the ray is taken up where the fuzz has turned it
/// into the surface.
pub open spec fn scatter_metal(
    albedo: V3,
    fuzz: int,
    r_in: RayModel,
    rec: HitModel,
    v: V3,
) -> Option<(V3, RayModel)> {
    let direction = metal_direction(fuzz, r_in, rec, v);
    if v3_dot(direction, rec.normal) > 0 {
        Some((albedo, RayModel { origin: rec.p, direction }))
    } else {
        None
    }
}

/// The ratio of refractive indices that the ray meets: from outside it enters
/// the material, from inside it leaves it.
pub open spec fn refraction_ratio(ior: int, front_face: bool) -> int {
    if front_face {
        div_raw(ONE_RAW as int, ior)
    } else {
        ior
    }
}

/// The cosine of the angle between the incoming ray and the normal, at most one.
pub open spec fn incidence_cosine(r_in: RayModel, rec: HitModel) -> int {
    min_raw(v3_dot(v3_neg(v3_unit(r_in.direction)), rec.normal), ONE_RAW as int)
}

/// Whether Snell's law has no solution, so that all light is reflected.
pub open spec fn cannot_refract(ior: int, r_in: RayModel, rec: HitModel) -> bool {
    let cos_theta = incidence_cosine(r_in, rec);
    let sin_theta = sqrt_raw(sub_raw(ONE_RAW as int, mul_raw(cos_theta, cos_theta)));
    mul_raw(refraction_ratio(ior, rec.front_face), sin_theta) > ONE_RAW
}

/// Whether a clear material reflects the ray: always where it cannot refract
/// it, else with the probability that Schlick's estimate gives.
pub open spec fn dielectric_reflects(ior: int, r_in: RayModel, rec: HitModel, u: int) -> bool {
    cannot_refract(ior, r_in, rec) || reflectance(
        incidence_cosine(r_in, rec),
        refraction_ratio(ior, rec.front_face),
    ) > u
}

/// Scattering at a clear material: reflected or refracted, never taken up and
/// never coloured.
pub open spec fn scatter_dielectric(ior: int, r_in: RayModel, rec: HitModel, u: int) -> Option<
    (V3, RayModel),
> {
    let unit = v3_unit(r_in.direction);
    let direction = if dielectric_reflects(ior, r_in, rec, u) {
        v3_reflect(unit, rec.normal)
    } else {
        v3_refract(unit, rec.normal, refraction_ratio(ior, rec.front_face))
    };
    Some((white(), RayModel { origin: rec.p, direction }))
}

/// What becomes of the ray `r_in` at the hit `rec`, for the random sample `s`:
/// the attenuation and the ray that goes on, or nothing where the ray is taken up.
pub open spec fn scatter_spec(
    m: MaterialModel,
    r_in: RayModel,
    rec: HitModel,
    s: SampleModel,
) -> Option<(V3, RayModel)> {
    match m {
        MaterialModel::Lambertian { albedo } => scatter_lambertian(albedo, rec, s.v),
        MaterialModel::Metal { albedo, fuzz } => scatter_metal(albedo, fuzz, r_in, rec, s.v),
        MaterialModel::Dielectric { ior } => scatter_dielectric(ior, r_in, rec, s.u),
    }
}

/// Whether every channel lies between zero and one.
pub open spec fn is_color(c: V3) -> bool {
    v3_within(c, 0, ONE_RAW + 1)
}

/// Whether the material gives back no more light than it gets: its colour
/// has every channel between zero and one.
pub open spec fn albedo_ok(m: MaterialModel) -> bool {
    match m {
        MaterialModel::Lambertian { albedo } => is_color(albedo),
        MaterialModel::Metal { albedo, fuzz } => is_color(albedo),
        MaterialModel::Dielectric { ior } => true,
    }
}

/// A ray that goes on from a hit starts at the hit point, is attenuated by
/// the colour of the material, or by white where the material is clear, and
/// has a direction that a [`Vec3`] can hold.
pub proof fn lemma_scatter_shape(m: MaterialModel, r_in: RayModel, rec: HitModel, s: SampleModel)
    requires
        v3_in_range(rec.normal),
    ensures
        match scatter_spec(m, r_in, rec, s) {
            Some((attenuation, scattered)) => {
                &&& scattered.origin == rec.p
                &&& v3_in_range(scattered.direction)
                &&& albedo_ok(m) ==> is_color(attenuation)
            },
            None => m is Metal,
        },
{
}

/// What a metal without fuzz does to the ray: the mirror image goes on, or
/// nothing where the mirror image points into the surface.
pub open spec fn scatter_mirror(albedo: V3, r_in: RayModel, rec: HitModel) -> Option<
    (V3, RayModel),
> {
    let direction = v3_reflect(v3_unit(r_in.direction), rec.normal);
    if v3_dot(direction, rec.normal) > 0 {
        Some((albedo, RayModel { origin: rec.p, direction }))
    } else {
        None
    }
}

/// A metal without fuzz is a mirror, whatever the random point.
pub proof fn lemma_metal_without_fuzz(albedo: V3, r_in: RayModel, rec: HitModel, v: V3)
    ensures
        metal_direction(0, r_in, rec, v) == v3_reflect(v3_unit(r_in.direction), rec.normal),
        scatter_metal(albedo, 0, r_in, rec, v) == scatter_mirror(albedo, r_in, rec),
{
    lemma_mul_raw_unit(v.x);
    lemma_mul_raw_unit(v.y);
    lemma_mul_raw_unit(v.z);
}

/// Between two materials of the same refractive index the ratio is one from
/// either side, and no angle reflects all the light.
pub proof fn lemma_matched_index_refracts(r_in: RayModel, rec: HitModel)
    ensures
        refraction_ratio(ONE_RAW as int, rec.front_face) == ONE_RAW,
        !cannot_refract(ONE_RAW as int, r_in, rec),
{
    assert(tdiv(ONE_RAW * ONE_RAW, ONE_RAW as int) == ONE_RAW);
    let cos_theta = incidence_cosine(r_in, rec);
    lemma_mul_raw_square(cos_theta);
    let rest = sub_raw(ONE_RAW as int, mul_raw(cos_theta, cos_theta));
    assert(rest <= ONE_RAW);
    let sin_theta = sqrt_raw(rest);
    if rest > 0 {
        lemma_floor_sqrt_exists(rest * ONE_RAW);
        assert(sin_theta <= ONE_RAW) by (nonlinear_arith)
            requires
                0 <= sin_theta,
                sin_theta * sin_theta <= rest * 1_000_000,
                rest <= 1_000_000,
        {
        }
    }
    lemma_mul_raw_unit(sin_theta);
}

/// Between two materials of the same refractive index the ray is refracted
/// with a ratio of one, unless Schlick's estimate has it reflected.
pub proof fn lemma_matched_index_direction(r_in: RayModel, rec: HitModel, u: int)
    requires
        reflectance(incidence_cosine(r_in, rec), ONE_RAW as int) <= u,
    ensures
        scatter_dielectric(ONE_RAW as int, r_in, rec, u) == Some(
            (
                white(),
                RayModel {
                    origin: rec.p,
                    direction: v3_refract(v3_unit(r_in.direction), rec.normal, ONE_RAW as int),
                },
            ),
        ),
{
    lemma_matched_index_refracts(r_in, rec);
}

/// A ray that meets a surface head-on along a coordinate axis passes
/// straight through a clear material of refractive index one: for every
/// sample the ray that goes on has the direction of the incoming ray,
/// normalized.
pub proof fn lemma_matched_index_head_on(
    r_in: RayModel,
    rec: HitModel,
    axis: int,
    sign: int,
    length: int,
    u: int,
)
    requires
        0 <= axis <= 2,
        sign == 1 || sign == -1,
        0 < length <= MAX_RAW,
        r_in.direction == axis_vector(axis, sign * length),
        rec.normal == axis_vector(axis, -sign * ONE_RAW),
        0 <= u,
    ensures
        v3_unit(r_in.direction) == axis_vector(axis, sign * ONE_RAW),
        scatter_dielectric(ONE_RAW as int, r_in, rec, u) == Some(
            (white(), RayModel { origin: rec.p, direction: v3_unit(r_in.direction) }),
        ),
{
    lemma_matched_index_refracts(r_in, rec);
    assert((sign * length) * (sign * length) == length * length) by (nonlinear_arith)
        requires
            sign == 1 || sign == -1,
    {
    }
    assert(is_floor_sqrt(length * length, length)) by (nonlinear_arith)
        requires
            length > 0,
    {
    }
    lemma_floor_sqrt_unique(length * length, length);
    assert(v3_len(r_in.direction) == length);
    lemma_tdiv_exact(ONE_RAW as int, length);
    lemma_tdiv_exact(0, length);
    assert(ONE_RAW * length == length * ONE_RAW) by (nonlinear_arith);
    assert((sign * length) * ONE_RAW == sign * (length * ONE_RAW)) by (nonlinear_arith);
    let unit = v3_unit(r_in.direction);
    assert(unit == axis_vector(axis, sign * ONE_RAW));
    lemma_mul_raw_unit(0);
    lemma_mul_raw_unit(ONE_RAW as int);
    lemma_mul_raw_unit(-(ONE_RAW as int));
    lemma_mul_raw_neg(ONE_RAW as int, ONE_RAW as int);
    lemma_mul_raw_neg(-(ONE_RAW as int), ONE_RAW as int);
    assert(incidence_cosine(r_in, rec) == ONE_RAW);
    assert(tdiv(0, 2 * ONE_RAW) == 0);
    assert(reflectance(ONE_RAW as int, ONE_RAW as int) == 0);
    let perp = v3_refract_perp(unit, rec.normal, ONE_RAW as int);
    assert(perp == V3 { x: 0, y: 0, z: 0 });
    assert(is_floor_sqrt(ONE_RAW * ONE_RAW, ONE_RAW as int));
    lemma_floor_sqrt_unique(ONE_RAW * ONE_RAW, ONE_RAW as int);
    assert(v3_refract(unit, rec.normal, ONE_RAW as int) == unit);
}

/// What an optional pair of attenuation and ray stands for.
pub open spec fn scatter_view(out: Option<(Color, Ray)>) -> Option<(V3, RayModel)> {
    match out {
        Some((attenuation, ray)) => Some((attenuation@, ray@)),
        None => None,
    }
}

/// The random numbers that one scattering may use: a point inside the unit
/// sphere and a fraction.
#[derive(Clone, Copy, Debug)]
pub struct Sample {
    pub v: Vec3,
    pub u: Scalar,
}

impl View for Sample {
    type V = SampleModel;

    open spec fn view(&self) -> SampleModel {
        SampleModel { v: self.v@, u: self.u@ }
    }
}

/// The behaviour of a surface.
#[derive(Clone, Copy, Debug)]
pub enum Material {
    /// A diffuse surface of the given colour.
    Lambertian { albedo: Color },
    /// A mirror of the given colour, blurred by `fuzz`.
    Metal { albedo: Color, fuzz: Scalar },
    /// A clear material with the given refractive index.
    Dielectric { ior: Scalar },
}

impl View for Material {
    type V = MaterialModel;

    open spec fn view(&self) -> MaterialModel {
        match *self {
            Material::Lambertian { albedo } => MaterialModel::Lambertian { albedo: albedo@ },
            Material::Metal { albedo, fuzz } => MaterialModel::Metal {
                albedo: albedo@,
                fuzz: fuzz@,
            },
            Material::Dielectric { ior } => MaterialModel::Dielectric { ior: ior@ },
        }
    }
}

fn pow5(x: Scalar) -> (r: Scalar)
    ensures
        r@ == pow5_raw(x@),
{
    let x2: Scalar = x * x;
    x2 * x2 * x
}

fn reflectance_of(cosine: Scalar, ratio: Scalar) -> (r: Scalar)
    ensures
        r@ == reflectance(cosine@, ratio@),
{
    let one: Scalar = Scalar { raw: ONE_RAW };
    let r: Scalar = (one - ratio) / (one + ratio);
    let r0: Scalar = r * r;
    r0 + (one - r0) * pow5(one - cosine)
}

impl Material {
    /// A diffuse surface of the given colour.
    pub fn lambertian(albedo: Color) -> (m: Material)
        ensures
            m@ == (MaterialModel::Lambertian { albedo: albedo@ }),
    {
        Material::Lambertian { albedo }
    }

    /// A mirror of the given colour. The fuzz is held between zero and one.
    pub fn metal(albedo: Color, fuzz: Scalar) -> (m: Material)
        ensures
            m@ == (MaterialModel::Metal {
                albedo: albedo@,
                fuzz: clamp_raw(fuzz@, 0, ONE_RAW as int),
            }),
    {
        Material::Metal {
            albedo,
            fuzz: fuzz.clamp(Scalar { raw: 0 }, Scalar { raw: ONE_RAW }),
        }
    }

    /// A clear material with the given refractive index.
    pub fn dielectric(ior: Scalar) -> (m: Material)
        ensures
            m@ == (MaterialModel::Dielectric { ior: ior@ }),
    {
        Material::Dielectric { ior }
    }

    /// What becomes of the ray `r_in` at the hit `rec`, for the given sample.
    pub fn scatter_with(&self, r_in: &Ray, rec: &HitRecord, sample: Sample) -> (out: Option<
        (Color, Ray),
    >)
        ensures
            scatter_view(out) == scatter_spec(self@, r_in@, rec@, sample@),
    {
        match *self {
            Material::Lambertian { albedo } => {
                let mut direction: Vec3 = rec.normal + sample.v.normalized();
                if direction.near_zero() {
                    direction = rec.normal;
                }
                Some((albedo, Ray::new(rec.p, direction)))
            },
            Material::Metal { albedo, fuzz } => {
                let reflected: Vec3 = r_in.direction().normalized().reflect(rec.normal);
                let direction: Vec3 = reflected + fuzz * sample.v;
                if direction.dot(rec.normal).raw > 0 {
                    Some((albedo, Ray::new(rec.p, direction)))
                } else {
                    None
                }
            },
            Material::Dielectric { ior } => {
                let one: Scalar = Scalar { raw: ONE_RAW };
                let ratio: Scalar = if rec.front_face {
                    one / ior
                } else {
                    ior
                };
                let unit: Vec3 = r_in.direction().normalized();
                let cos_theta: Scalar = unit.neg().dot(rec.normal).min(one);
                let sin_theta: Scalar = (one - cos_theta * cos_theta).sqrt();
                let direction: Vec3 = if (ratio * sin_theta).raw > ONE_RAW || reflectance_of(
                    cos_theta,
                    ratio,
                ).raw > sample.u.raw {
                    unit.reflect(rec.normal)
                } else {
                    unit.refract(rec.normal, ratio)
                };
                Some((Vec3::from_raw(ONE_RAW, ONE_RAW, ONE_RAW), Ray::new(rec.p, direction)))
            },
        }
    }

    /// What becomes of the ray `r_in` at the hit `rec`: the random numbers
    /// that the material needs are drawn, and the rest is `scatter_with`.
    pub fn scatter(&self, r_in: &Ray, rec: &HitRecord) -> (out: Option<(Color, Ray)>)
        ensures
            exists|s: SampleModel| #[trigger]
                sample_ok(s) && scatter_view(out) == scatter_spec(self@, r_in@, rec@, s),
            match self@ {
                MaterialModel::Metal { albedo, fuzz } => fuzz == 0 ==> scatter_view(out)
                    == scatter_mirror(albedo, r_in@, rec@),
                _ => out is Some,
            },
    {
        let sample: Sample = match *self {
            Material::Dielectric { ior } => Sample {
                v: Vec3::from_raw(0, 0, 0),
                u: random_fraction(),
            },
            _ => Sample { v: Vec3::random_in_unit_sphere(), u: Scalar { raw: 0 } },
        };
        assert(sample_ok(sample@));
        proof {
            match self@ {
                MaterialModel::Metal { albedo, fuzz } => {
                    lemma_metal_without_fuzz(albedo, r_in@, rec@, sample@.v);
                },
                _ => {},
            }
        }
        self.scatter_with(r_in, rec, sample)
    }
}

} // verus!
