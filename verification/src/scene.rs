//! A scene to render: a large ground sphere, a field of small random spheres
//! and three large ones.
use vstd::prelude::*;
use crate::hit::World;
use crate::material::{Material, MaterialModel};
use crate::random::{random_between, random_fraction};
use crate::scalar::{add_raw, clamp_raw, sat, Scalar, ONE_RAW};
use crate::sphere::{Sphere, SphereModel};
use crate::vec::{v3_mul, v3_within, Color, Point3, Vec3, V3};

verus! {

/// The small spheres lie on a square grid from `-GRID_REACH` to `GRID_REACH`.
pub const GRID_REACH: i64 = 11;

/// The number of grid positions along one side.
pub const GRID_SIDE: i64 = 23;

/// The radius of a small sphere, and the height of its centre.
pub const SMALL_RADIUS_RAW: i64 = 200_000;

/// How far, at most, a small sphere is moved from its grid position.
pub const SCATTER_RAW: i64 = 900_000;

/// Below this choice a small sphere is diffuse.
pub const DIFFUSE_BELOW_RAW: i64 = 800_000;

/// Below this choice, and not diffuse, a small sphere is metal; from it on, glass.
pub const METAL_BELOW_RAW: i64 = 950_000;

/// The smallest channel of a random metal colour.
pub const METAL_TINT_FROM_RAW: i64 = 400_000;

/// The upper bound of a random fuzz.
pub const FUZZ_BELOW_RAW: i64 = 500_000;

/// The refractive index of glass.
pub const GLASS_IOR_RAW: i64 = 1_500_000;

/// What a [`Knobs`] stands for.
pub struct KnobsModel {
    pub choose_mat: int,
    pub dx: int,
    pub dz: int,
    pub tint_a: V3,
    pub tint_b: V3,
    pub fuzz: int,
}

/// Whether the random numbers are such as can be drawn for a small sphere.
pub open spec fn knobs_ok(k: KnobsModel) -> bool {
    &&& 0 <= k.choose_mat < ONE_RAW
    &&& 0 <= k.dx < SCATTER_RAW
    &&& 0 <= k.dz < SCATTER_RAW
    &&& v3_within(k.tint_a, 0, ONE_RAW as int)
    &&& v3_within(k.tint_b, 0, ONE_RAW as int)
    &&& 0 <= k.fuzz < FUZZ_BELOW_RAW
    &&& DIFFUSE_BELOW_RAW <= k.choose_mat < METAL_BELOW_RAW ==> v3_within(
        k.tint_a,
        METAL_TINT_FROM_RAW as int,
        ONE_RAW as int,
    )
}

/// The material of a small sphere: diffuse with the product of the two tints,
/// metal with the first tint, or glass, as `choose_mat` says.
pub open spec fn small_material(k: KnobsModel) -> MaterialModel {
    if k.choose_mat < DIFFUSE_BELOW_RAW {
        MaterialModel::Lambertian { albedo: v3_mul(k.tint_a, k.tint_b) }
    } else if k.choose_mat < METAL_BELOW_RAW {
        MaterialModel::Metal { albedo: k.tint_a, fuzz: clamp_raw(k.fuzz, 0, ONE_RAW as int) }
    } else {
        MaterialModel::Dielectric { ior: GLASS_IOR_RAW as int }
    }
}

/// The small sphere at the grid position `(a, b)`.
pub open spec fn small_sphere(a: int, b: int, k: KnobsModel) -> SphereModel {
    SphereModel {
        center: V3 {
            x: add_raw(sat(a * ONE_RAW), k.dx),
            y: SMALL_RADIUS_RAW as int,
            z: add_raw(sat(b * ONE_RAW), k.dz),
        },
        radius: SMALL_RADIUS_RAW as int,
        mat: small_material(k),
    }
}

/// The ground: a grey sphere so large that its top is nearly flat.
pub open spec fn ground_sphere() -> SphereModel {
    SphereModel {
        center: V3 { x: 0, y: -1000 * ONE_RAW, z: 0 },
        radius: 1000 * ONE_RAW,
        mat: MaterialModel::Lambertian { albedo: V3 { x: 500_000, y: 500_000, z: 500_000 } },
    }
}

/// The three large spheres: a mirror in the middle, a brown diffuse one
/// behind it and a glass one in front.
pub open spec fn large_spheres() -> Seq<SphereModel> {
    seq![
        SphereModel {
            center: V3 { x: 0, y: ONE_RAW as int, z: 0 },
            radius: ONE_RAW as int,
            mat: MaterialModel::Metal {
                albedo: V3 { x: 700_000, y: 600_000, z: 500_000 },
                fuzz: 0,
            },
        },
        SphereModel {
            center: V3 { x: -4 * ONE_RAW, y: ONE_RAW as int, z: 0 },
            radius: ONE_RAW as int,
            mat: MaterialModel::Lambertian { albedo: V3 { x: 400_000, y: 200_000, z: 100_000 } },
        },
        SphereModel {
            center: V3 { x: 4 * ONE_RAW, y: ONE_RAW as int, z: 0 },
            radius: ONE_RAW as int,
            mat: MaterialModel::Dielectric { ior: GLASS_IOR_RAW as int },
        },
    ]
}

/// The small spheres for the given random numbers, one grid position after
/// the other, row by row.
pub open spec fn small_spheres(knobs: Seq<KnobsModel>) -> Seq<SphereModel> {
    Seq::new(
        knobs.len(),
        |k: int|
            small_sphere(
                k / (GRID_SIDE as int) - GRID_REACH,
                k % (GRID_SIDE as int) - GRID_REACH,
                knobs[k],
            ),
    )
}

/// The scene for the given random numbers: the ground, the small spheres and
/// the three large ones.
pub open spec fn scene_of(knobs: Seq<KnobsModel>) -> Seq<SphereModel> {
    seq![ground_sphere()] + small_spheres(knobs) + large_spheres()
}

/// Whether all the random numbers are such as can be drawn.
pub open spec fn all_knobs_ok(knobs: Seq<KnobsModel>) -> bool {
    forall|k: int| 0 <= k < knobs.len() ==> knobs_ok(#[trigger] knobs[k])
}

/// The random numbers that shape one small sphere: the choice of material,
/// the move from the grid position, two tints and a fuzz.
#[derive(Clone, Copy, Debug)]
pub struct Knobs {
    pub choose_mat: Scalar,
    pub dx: Scalar,
    pub dz: Scalar,
    pub tint_a: Color,
    pub tint_b: Color,
    pub fuzz: Scalar,
}

impl View for Knobs {
    type V = KnobsModel;

    open spec fn view(&self) -> KnobsModel {
        KnobsModel {
            choose_mat: self.choose_mat@,
            dx: self.dx@,
            dz: self.dz@,
            tint_a: self.tint_a@,
            tint_b: self.tint_b@,
            fuzz: self.fuzz@,
        }
    }
}

/// The small sphere at the grid position `(a, b)` for the given random numbers.
pub fn small_sphere_of(a: i64, b: i64, knobs: &Knobs) -> (s: Sphere)
    ensures
        s@ == small_sphere(a as int, b as int, knobs@),
{
    let center: Point3 = Vec3::new(
        Scalar::from_int(a) + knobs.dx,
        Scalar { raw: SMALL_RADIUS_RAW },
        Scalar::from_int(b) + knobs.dz,
    );
    let mat: Material = if knobs.choose_mat.raw < DIFFUSE_BELOW_RAW {
        Material::lambertian(knobs.tint_a * knobs.tint_b)
    } else if knobs.choose_mat.raw < METAL_BELOW_RAW {
        Material::metal(knobs.tint_a, knobs.fuzz)
    } else {
        Material::dielectric(Scalar { raw: GLASS_IOR_RAW })
    };
    Sphere::new(center, Scalar { raw: SMALL_RADIUS_RAW }, mat)
}

/// Draws the random numbers for one small sphere. Tints and fuzz are drawn
/// only for the material that the choice falls on.
pub fn draw_knobs() -> (k: Knobs)
    ensures
        knobs_ok(k@),
{
    let choose_mat: Scalar = random_fraction();
    let dx: Scalar = random_between(Scalar { raw: 0 }, Scalar { raw: SCATTER_RAW });
    let dz: Scalar = random_between(Scalar { raw: 0 }, Scalar { raw: SCATTER_RAW });
    let zero: Scalar = Scalar { raw: 0 };
    let one: Scalar = Scalar { raw: ONE_RAW };
    let mut tint_a: Color = Vec3::from_raw(0, 0, 0);
    let mut tint_b: Color = Vec3::from_raw(0, 0, 0);
    let mut fuzz: Scalar = zero;
    if choose_mat.raw < DIFFUSE_BELOW_RAW {
        tint_a = Vec3::random(zero, one);
        tint_b = Vec3::random(zero, one);
    } else if choose_mat.raw < METAL_BELOW_RAW {
        tint_a = Vec3::random(Scalar { raw: METAL_TINT_FROM_RAW }, one);
        fuzz = random_between(zero, Scalar { raw: FUZZ_BELOW_RAW });
    }
    Knobs { choose_mat, dx, dz, tint_a, tint_b, fuzz }
}

/// A random scene: the ground, one small sphere at each grid position and the
/// three large spheres.
pub fn random_scene() -> (world: World)
    ensures
        exists|knobs: Seq<KnobsModel>| #[trigger]
            all_knobs_ok(knobs) && knobs.len() == GRID_SIDE * GRID_SIDE && world@ == scene_of(
                knobs,
            ),
{
    let mut world: World = World::new();
    world.push(
        Sphere::new(
            Vec3::from_raw(0, -1000 * ONE_RAW, 0),
            Scalar { raw: 1000 * ONE_RAW },
            Material::lambertian(Vec3::from_raw(500_000, 500_000, 500_000)),
        ),
    );
    let ghost mut knobs: Seq<KnobsModel> = Seq::empty();
    assert(world@ =~= seq![ground_sphere()] + small_spheres(knobs));
    let mut a: i64 = -GRID_REACH;
    while a <= GRID_REACH
        invariant
            -GRID_REACH <= a <= GRID_REACH + 1,
            knobs.len() == (a + GRID_REACH) * GRID_SIDE,
            all_knobs_ok(knobs),
            world@ == seq![ground_sphere()] + small_spheres(knobs),
        decreases GRID_REACH + 1 - a,
    {
        let mut b: i64 = -GRID_REACH;
        while b <= GRID_REACH
            invariant
                -GRID_REACH <= a <= GRID_REACH,
                -GRID_REACH <= b <= GRID_REACH + 1,
                knobs.len() == (a + GRID_REACH) * GRID_SIDE + (b + GRID_REACH),
                all_knobs_ok(knobs),
                world@ == seq![ground_sphere()] + small_spheres(knobs),
            decreases GRID_REACH + 1 - b,
        {
            let k: Knobs = draw_knobs();
            let sphere: Sphere = small_sphere_of(a, b, &k);
            world.push(sphere);
            proof {
                let before = knobs;
                knobs = knobs.push(k@);
                let at = before.len() as int;
                assert(at / (GRID_SIDE as int) == a + GRID_REACH && at % (GRID_SIDE as int) == b
                    + GRID_REACH);
                assert(small_spheres(knobs) =~= small_spheres(before).push(sphere@));
                assert(world@ =~= seq![ground_sphere()] + small_spheres(knobs));
            }
            b = b + 1;
        }
        a = a + 1;
    }
    world.push(
        Sphere::new(
            Vec3::from_raw(0, ONE_RAW, 0),
            Scalar { raw: ONE_RAW },
            Material::metal(Vec3::from_raw(700_000, 600_000, 500_000), Scalar { raw: 0 }),
        ),
    );
    world.push(
        Sphere::new(
            Vec3::from_raw(-4 * ONE_RAW, ONE_RAW, 0),
            Scalar { raw: ONE_RAW },
            Material::lambertian(Vec3::from_raw(400_000, 200_000, 100_000)),
        ),
    );
    world.push(
        Sphere::new(
            Vec3::from_raw(4 * ONE_RAW, ONE_RAW, 0),
            Scalar { raw: ONE_RAW },
            Material::dielectric(Scalar { raw: GLASS_IOR_RAW }),
        ),
    );
    assert(world@ =~= scene_of(knobs));
    world
}

} // verus!
