use raytracer::camera::Camera;
use raytracer::hit::World;
use raytracer::material::Material;
use raytracer::ray::Ray;
use raytracer::render::{render_image, Settings};
use raytracer::scalar::Scalar;
use raytracer::scene::{draw_knobs, random_scene, small_sphere_of, Knobs};
use raytracer::vec::Vec3;

const ONE: i64 = 1_000_000;

fn s(raw: i64) -> Scalar {
    Scalar::from_raw(raw)
}

fn v(x: i64, y: i64, z: i64) -> Vec3 {
    Vec3::from_raw(x, y, z)
}

fn raw(a: Vec3) -> (i64, i64, i64) {
    (a.x().raw(), a.y().raw(), a.z().raw())
}

fn knobs(choose_mat: i64) -> Knobs {
    Knobs {
        choose_mat: s(choose_mat),
        dx: s(100_000),
        dz: s(800_000),
        tint_a: v(500_000, 600_000, 700_000),
        tint_b: v(ONE / 2, ONE / 2, ONE / 2),
        fuzz: s(300_000),
    }
}

fn probe(a: i64, b: i64, k: &Knobs) -> (i64, Material) {
    let sphere = small_sphere_of(a, b, k);
    let mut world = World::new();
    world.push(sphere);
    // straight down on the centre, from a height of ten
    let r = Ray::new(v(a * ONE + k.dx.raw(), 10 * ONE, b * ONE + k.dz.raw()), v(0, -ONE, 0));
    let rec = world.hit(&r, s(1_000), Scalar::max_value()).unwrap();
    (rec.t.raw(), rec.mat)
}

#[test]
fn small_spheres_sit_on_the_ground_near_their_grid_position() {
    for (a, b) in [(-11, -11), (0, 0), (3, -7), (11, 11)] {
        // the top of a sphere of radius 0.2 about height 0.2 is at 0.4
        let (t, _) = probe(a, b, &knobs(0));
        assert_eq!(t, 9_600_000);
    }
}

#[test]
fn small_sphere_material_follows_the_choice() {
    match probe(2, 3, &knobs(0)).1 {
        Material::Lambertian { albedo } => assert_eq!(raw(albedo), (250_000, 300_000, 350_000)),
        _ => panic!("not diffuse"),
    }
    match probe(2, 3, &knobs(799_999)).1 {
        Material::Lambertian { .. } => {}
        _ => panic!("not diffuse"),
    }
    match probe(2, 3, &knobs(800_000)).1 {
        Material::Metal { albedo, fuzz } => {
            assert_eq!(raw(albedo), (500_000, 600_000, 700_000));
            assert_eq!(fuzz.raw(), 300_000);
        }
        _ => panic!("not metal"),
    }
    match probe(2, 3, &knobs(949_999)).1 {
        Material::Metal { .. } => {}
        _ => panic!("not metal"),
    }
    match probe(2, 3, &knobs(950_000)).1 {
        Material::Dielectric { ior } => assert_eq!(ior.raw(), 1_500_000),
        _ => panic!("not glass"),
    }
    match probe(2, 3, &knobs(999_999)).1 {
        Material::Dielectric { .. } => {}
        _ => panic!("not glass"),
    }
}

#[test]
fn drawn_knobs_are_in_range() {
    let mut kinds = [false; 3];
    for _ in 0..2000 {
        let k = draw_knobs();
        let c = k.choose_mat.raw();
        assert!(0 <= c && c < ONE);
        assert!(0 <= k.dx.raw() && k.dx.raw() < 900_000);
        assert!(0 <= k.dz.raw() && k.dz.raw() < 900_000);
        assert!(0 <= k.fuzz.raw() && k.fuzz.raw() < 500_000);
        for t in [k.tint_a, k.tint_b] {
            for ch in [t.x().raw(), t.y().raw(), t.z().raw()] {
                assert!(0 <= ch && ch < ONE);
            }
        }
        if c < 800_000 {
            kinds[0] = true;
        } else if c < 950_000 {
            kinds[1] = true;
            let t = k.tint_a;
            for ch in [t.x().raw(), t.y().raw(), t.z().raw()] {
                assert!(400_000 <= ch);
            }
        } else {
            kinds[2] = true;
            assert_eq!(raw(k.tint_a), (0, 0, 0));
        }
    }
    assert_eq!(kinds, [true, true, true]);
}

#[test]
fn random_scene_has_ground_field_and_three_large_spheres() {
    let world = random_scene();
    assert_eq!(world.len(), 1 + 23 * 23 + 3);
    // from far above the origin the mirror sphere, of radius one about height one, comes first
    let down = Ray::new(v(0, 10 * ONE, 0), v(0, -ONE, 0));
    let rec = world.hit(&down, s(1_000), Scalar::max_value()).unwrap();
    assert_eq!(rec.t.raw(), 8 * ONE);
    match rec.mat {
        Material::Metal { albedo, fuzz } => {
            assert_eq!(raw(albedo), (700_000, 600_000, 500_000));
            assert_eq!(fuzz.raw(), 0);
        }
        _ => panic!("not the mirror"),
    }
    let left = Ray::new(v(-4 * ONE, 10 * ONE, 0), v(0, -ONE, 0));
    match world.hit(&left, s(1_000), Scalar::max_value()).unwrap().mat {
        Material::Lambertian { albedo } => assert_eq!(raw(albedo), (400_000, 200_000, 100_000)),
        _ => panic!("not the diffuse sphere"),
    }
    let right = Ray::new(v(4 * ONE, 10 * ONE, 0), v(0, -ONE, 0));
    match world.hit(&right, s(1_000), Scalar::max_value()).unwrap().mat {
        Material::Dielectric { ior } => assert_eq!(ior.raw(), 1_500_000),
        _ => panic!("not the glass sphere"),
    }
    // outside the field only the ground is left, ten below the ray's origin
    let outside = Ray::new(v(20 * ONE, 10 * ONE, 20 * ONE), v(0, -ONE, 0));
    let rec = world.hit(&outside, s(1_000), Scalar::max_value()).unwrap();
    match rec.mat {
        Material::Lambertian { albedo } => assert_eq!(raw(albedo), (500_000, 500_000, 500_000)),
        _ => panic!("not the ground"),
    }
    assert!((rec.t.raw() - 10_400_000).abs() <= 100);
}

#[test]
fn random_scene_renders_to_a_small_image() {
    let world = random_scene();
    // from (13, 2, 3) towards the origin, with a viewport height of
    // 2 tan(10 degrees) = 0.352654, an aperture of 0.1 and the focus at 10
    let cam = Camera::new(
        v(13 * ONE, 2 * ONE, 3 * ONE),
        v(0, 0, 0),
        v(0, ONE, 0),
        s(352_654),
        s(1_777_778),
        s(100_000),
        s(10 * ONE),
    );
    let settings = Settings { width: 16, height: 9, samples_per_pixel: 2, max_depth: 6 };
    let text = render_image(&cam, &world, &settings);
    let mut lines = text.lines();
    assert_eq!(lines.next(), Some("P3"));
    assert_eq!(lines.next(), Some("16 9"));
    assert_eq!(lines.next(), Some("255"));
    let mut count = 0;
    let mut lit = 0;
    for line in lines {
        let parts: Vec<u32> = line.split(' ').map(|p| p.parse().unwrap()).collect();
        assert_eq!(parts.len(), 3);
        for p in &parts {
            assert!(*p <= 255);
        }
        if parts[0] + parts[1] + parts[2] > 0 {
            lit += 1;
        }
        count += 1;
    }
    assert_eq!(count, 16 * 9);
    // the sky alone lights more than a quarter of the image
    assert!(lit > count / 4);
}
