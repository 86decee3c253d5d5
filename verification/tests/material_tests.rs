use raytracer::hit::HitRecord;
use raytracer::material::{Material, Sample};
use raytracer::ray::Ray;
use raytracer::scalar::Scalar;
use raytracer::vec::Vec3;

const ONE: i64 = 1_000_000;

fn s(raw: i64) -> Scalar {
    Scalar::from_raw(raw)
}

fn v(x: i64, y: i64, z: i64) -> Vec3 {
    Vec3::from_raw(x, y, z)
}

fn raw(a: Vec3) -> (i64, i64, i64) {
    (a.x().raw(), a.y().raw(), a.z().raw())
}

fn floor_hit(mat: Material, front_face: bool) -> HitRecord {
    HitRecord { p: v(ONE, 0, 2 * ONE), normal: v(0, ONE, 0), mat, t: s(3 * ONE), front_face }
}

fn sample(x: i64, y: i64, z: i64, u: i64) -> Sample {
    Sample { v: v(x, y, z), u: s(u) }
}

#[test]
fn constructors_keep_their_arguments() {
    match Material::lambertian(v(1, 2, 3)) {
        Material::Lambertian { albedo } => assert_eq!(raw(albedo), (1, 2, 3)),
        _ => panic!("not diffuse"),
    }
    match Material::metal(v(1, 2, 3), s(250_000)) {
        Material::Metal { albedo, fuzz } => {
            assert_eq!(raw(albedo), (1, 2, 3));
            assert_eq!(fuzz.raw(), 250_000);
        }
        _ => panic!("not metal"),
    }
    match Material::dielectric(s(1_500_000)) {
        Material::Dielectric { ior } => assert_eq!(ior.raw(), 1_500_000),
        _ => panic!("not clear"),
    }
}

#[test]
fn metal_fuzz_is_held_between_zero_and_one() {
    match Material::metal(v(1, 2, 3), s(5 * ONE)) {
        Material::Metal { fuzz, .. } => assert_eq!(fuzz.raw(), ONE),
        _ => panic!("not metal"),
    }
    match Material::metal(v(1, 2, 3), s(-5)) {
        Material::Metal { fuzz, .. } => assert_eq!(fuzz.raw(), 0),
        _ => panic!("not metal"),
    }
}

#[test]
fn lambertian_scatters_along_normal_plus_random_direction() {
    let mat = Material::lambertian(v(100_000, 200_000, 300_000));
    let rec = floor_hit(mat, true);
    let r_in = Ray::new(v(0, ONE, 0), v(ONE, -ONE, 2 * ONE));
    let (attenuation, scattered) = mat.scatter_with(&r_in, &rec, sample(0, 0, ONE / 2, 0)).unwrap();
    assert_eq!(raw(attenuation), (100_000, 200_000, 300_000));
    assert_eq!(raw(scattered.origin()), (ONE, 0, 2 * ONE));
    assert_eq!(raw(scattered.direction()), (0, ONE, ONE));
    let (_, scattered) = mat.scatter_with(&r_in, &rec, sample(300_000, 400_000, 0, 0)).unwrap();
    assert_eq!(raw(scattered.direction()), (600_000, 1_800_000, 0));
}

#[test]
fn lambertian_falls_back_to_the_normal() {
    let mat = Material::lambertian(v(100_000, 200_000, 300_000));
    let rec = floor_hit(mat, true);
    let r_in = Ray::new(v(0, ONE, 0), v(ONE, -ONE, 2 * ONE));
    // the random direction is the opposite of the normal
    let (_, scattered) = mat.scatter_with(&r_in, &rec, sample(0, -ONE / 2, 0, 0)).unwrap();
    assert_eq!(raw(scattered.direction()), (0, ONE, 0));
    // a draw of the centre adds nothing
    let (_, scattered) = mat.scatter_with(&r_in, &rec, sample(0, 0, 0, 0)).unwrap();
    assert_eq!(raw(scattered.direction()), (0, ONE, 0));
}

#[test]
fn lambertian_always_scatters() {
    let mat = Material::lambertian(v(100_000, 200_000, 300_000));
    let rec = floor_hit(mat, true);
    let r_in = Ray::new(v(0, ONE, 0), v(ONE, -ONE, 2 * ONE));
    for _ in 0..100 {
        let (attenuation, scattered) = mat.scatter(&r_in, &rec).unwrap();
        assert_eq!(raw(attenuation), (100_000, 200_000, 300_000));
        assert_eq!(raw(scattered.origin()), (ONE, 0, 2 * ONE));
        assert!(!scattered.direction().near_zero());
        // normal plus a direction of length one: never below the surface
        assert!(scattered.direction().y().raw() >= 0);
    }
}

#[test]
fn metal_without_fuzz_is_a_mirror() {
    let mat = Material::metal(v(800_000, 600_000, 200_000), s(0));
    let rec = floor_hit(mat, true);
    let r_in = Ray::new(v(0, ONE, ONE), v(ONE, -ONE, 0));
    let mirrored = r_in.direction().normalized().reflect(rec.normal);
    // the length of (1, -1, 0) is rounded down to 1.414213, so each
    // component of the normalized direction comes out as 0.707107
    assert_eq!(raw(mirrored), (707_107, 707_107, 0));
    for _ in 0..100 {
        let (attenuation, scattered) = mat.scatter(&r_in, &rec).unwrap();
        assert_eq!(raw(attenuation), (800_000, 600_000, 200_000));
        assert_eq!(raw(scattered.origin()), (ONE, 0, 2 * ONE));
        assert_eq!(raw(scattered.direction()), (707_107, 707_107, 0));
    }
    // and for any sample that is handed in
    for smp in [sample(0, 0, 0, 0), sample(0, -900_000, 0, 5), sample(500_000, 500_000, 500_000, 7)] {
        let (_, scattered) = mat.scatter_with(&r_in, &rec, smp).unwrap();
        assert_eq!(raw(scattered.direction()), raw(mirrored));
    }
}

#[test]
fn metal_with_fuzz_moves_the_mirror_image() {
    let mat = Material::metal(v(800_000, 600_000, 200_000), s(ONE / 2));
    let rec = floor_hit(mat, true);
    let r_in = Ray::new(v(0, ONE, ONE), v(ONE, -ONE, 0));
    let (_, scattered) = mat.scatter_with(&r_in, &rec, sample(200_000, -400_000, 600_000, 0)).unwrap();
    assert_eq!(raw(scattered.direction()), (807_107, 507_107, 300_000));
}

#[test]
fn metal_takes_up_a_ray_that_is_turned_into_the_surface() {
    let mat = Material::metal(v(800_000, 600_000, 200_000), s(ONE));
    let rec = floor_hit(mat, true);
    let r_in = Ray::new(v(0, ONE, ONE), v(ONE, -ONE / 10, 0));
    assert!(mat.scatter_with(&r_in, &rec, sample(0, -900_000, 0, 0)).is_none());
    assert!(mat.scatter_with(&r_in, &rec, sample(0, 900_000, 0, 0)).is_some());
    // a mirror image along the surface is taken up as well
    let along = Ray::new(v(0, 0, 0), v(ONE, 0, 0));
    let mirror = Material::metal(v(800_000, 600_000, 200_000), s(0));
    assert!(mirror.scatter_with(&along, &rec, sample(0, 0, 0, 0)).is_none());
    assert!(mirror.scatter(&along, &rec).is_none());
}

#[test]
fn glass_of_index_one_lets_a_head_on_ray_pass() {
    let mat = Material::dielectric(s(ONE));
    let r_in = Ray::new(v(ONE, 5 * ONE, 2 * ONE), v(0, -3 * ONE, 0));
    for front_face in [true, false] {
        let rec = floor_hit(mat, front_face);
        for _ in 0..100 {
            let (attenuation, scattered) = mat.scatter(&r_in, &rec).unwrap();
            assert_eq!(raw(attenuation), (ONE, ONE, ONE));
            assert_eq!(raw(scattered.origin()), (ONE, 0, 2 * ONE));
            assert_eq!(raw(scattered.direction()), (0, -ONE, 0));
        }
    }
}

#[test]
fn glass_of_index_one_does_not_bend() {
    let mat = Material::dielectric(s(ONE));
    let rec = floor_hit(mat, true);
    let r_in = Ray::new(v(0, ONE, 2 * ONE), v(ONE, -ONE, 0));
    // (1 - cos 45)^5 = 0.0022: any fraction above it refracts
    let (_, scattered) = mat.scatter_with(&r_in, &rec, sample(0, 0, 0, 10_000)).unwrap();
    // the incoming direction, normalized, is (0.707107, -0.707107, 0); the
    // square root in the refraction rounds the second component down in size
    assert_eq!(raw(scattered.direction()), (707_107, -707_106, 0));
    // a fraction below it reflects
    let (_, scattered) = mat.scatter_with(&r_in, &rec, sample(0, 0, 0, 1_000)).unwrap();
    assert_eq!(raw(scattered.direction()), (707_107, 707_107, 0));
    // the estimate itself is 0.002155
    let (_, scattered) = mat.scatter_with(&r_in, &rec, sample(0, 0, 0, 2_155)).unwrap();
    assert_eq!(raw(scattered.direction()), (707_107, -707_106, 0));
    let (_, scattered) = mat.scatter_with(&r_in, &rec, sample(0, 0, 0, 2_154)).unwrap();
    assert_eq!(raw(scattered.direction()), (707_107, 707_107, 0));
}

#[test]
fn glass_refracts_or_reflects_by_the_fraction() {
    let mat = Material::dielectric(s(1_500_000));
    let rec = floor_hit(mat, true);
    let r_in = Ray::new(v(0, ONE, 2 * ONE), v(ONE, -ONE, 0));
    // Schlick at 45 degrees for 1 / 1.5: r0 = 0.04, plus 0.96 * 0.002155,
    // which comes to 0.042068
    let (attenuation, scattered) =
        mat.scatter_with(&r_in, &rec, sample(0, 0, 0, 999_999)).unwrap();
    assert_eq!(raw(attenuation), (ONE, ONE, ONE));
    assert_eq!(raw(scattered.direction()), (471_404, -881_917, 0));
    let (_, scattered) = mat.scatter_with(&r_in, &rec, sample(0, 0, 0, 42_068)).unwrap();
    assert_eq!(raw(scattered.direction()), (471_404, -881_917, 0));
    let (_, scattered) = mat.scatter_with(&r_in, &rec, sample(0, 0, 0, 42_067)).unwrap();
    assert_eq!(raw(scattered.direction()), (707_107, 707_107, 0));
    let (_, scattered) = mat.scatter_with(&r_in, &rec, sample(0, 0, 0, 0)).unwrap();
    assert_eq!(raw(scattered.direction()), (707_107, 707_107, 0));
}

#[test]
fn glass_reflects_all_light_beyond_the_critical_angle() {
    let mat = Material::dielectric(s(1_500_000));
    // from inside: 1.5 * sin 45 is above one
    let rec = floor_hit(mat, false);
    let r_in = Ray::new(v(0, ONE, 2 * ONE), v(ONE, -ONE, 0));
    for u in [0, 500_000, 999_999] {
        let (attenuation, scattered) = mat.scatter_with(&r_in, &rec, sample(0, 0, 0, u)).unwrap();
        assert_eq!(raw(attenuation), (ONE, ONE, ONE));
        assert_eq!(raw(scattered.direction()), (707_107, 707_107, 0));
    }
    for _ in 0..50 {
        let (_, scattered) = mat.scatter(&r_in, &rec).unwrap();
        assert_eq!(raw(scattered.direction()), (707_107, 707_107, 0));
    }
}
