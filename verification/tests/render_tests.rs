use raytracer::camera::{random_in_unit_disk, Camera};
use raytracer::hit::World;
use raytracer::material::{Material, Sample};
use raytracer::ppm::{channel_byte_of, ppm_header, push_decimal};
use raytracer::random::{random_between, random_fraction};
use raytracer::ray::Ray;
use raytracer::render::{
    background_color, image_coordinate_of, ray_color, ray_color_along, render_image, render_pixel,
    Settings,
};
use raytracer::scalar::Scalar;
use raytracer::sphere::Sphere;
use raytracer::vec::Vec3;
use rayon::iter::{IntoParallelIterator, ParallelIterator};

const ONE: i64 = 1_000_000;

fn s(raw: i64) -> Scalar {
    Scalar::from_raw(raw)
}

fn v(x: i64, y: i64, z: i64) -> Vec3 {
    Vec3::from_raw(x, y, z)
}

fn raw(a: Vec3) -> (i64, i64, i64) {
    (a.x().raw(), a.y().raw(), a.z().raw())
}

fn still() -> Sample {
    Sample { v: v(0, 0, 0), u: s(0) }
}

fn pinhole() -> Camera {
    Camera::new(v(0, 0, 0), v(0, 0, -ONE), v(0, ONE, 0), s(2 * ONE), s(1_777_777), s(0), s(ONE))
}

fn two_spheres() -> World {
    let mut world = World::new();
    world.push(Sphere::new(
        v(0, -100_500_000, -ONE),
        s(100 * ONE),
        Material::lambertian(v(800_000, 800_000, 0)),
    ));
    world.push(Sphere::new(
        v(0, 0, -ONE),
        s(ONE / 2),
        Material::lambertian(v(700_000, 300_000, 300_000)),
    ));
    world
}

#[test]
fn random_fractions_lie_between_zero_and_one() {
    let mut low = false;
    let mut high = false;
    for _ in 0..1000 {
        let f = random_fraction().raw();
        assert!(0 <= f && f < ONE);
        if f < ONE / 2 {
            low = true;
        } else {
            high = true;
        }
    }
    assert!(low && high);
}

#[test]
fn random_numbers_lie_in_their_range() {
    let mut low = false;
    let mut high = false;
    for _ in 0..1000 {
        let f = random_between(s(-3), s(3)).raw();
        assert!(-3 <= f && f < 3);
        if f < 0 {
            low = true;
        } else {
            high = true;
        }
    }
    assert!(low && high);
    for _ in 0..10 {
        assert_eq!(random_between(s(41), s(42)).raw(), 41);
    }
}

#[test]
fn random_lens_points_lie_in_the_unit_disk() {
    let mut distinct = false;
    let first = raw(random_in_unit_disk());
    for _ in 0..200 {
        let p = random_in_unit_disk();
        assert_eq!(p.z().raw(), 0);
        assert!(p.length_squared().raw() < ONE);
        if raw(p) != first {
            distinct = true;
        }
    }
    assert!(distinct);
}

#[test]
fn header_names_the_format_the_size_and_the_depth() {
    assert_eq!(ppm_header(100, 56), "P3\n100 56\n255\n");
    assert_eq!(ppm_header(1200, 675), "P3\n1200 675\n255\n");
    assert_eq!(ppm_header(0, 0), "P3\n0 0\n255\n");
    assert_eq!(
        ppm_header(u64::MAX, 1),
        "P3\n18446744073709551615 1\n255\n"
    );
}

#[test]
fn decimal_numerals_have_no_leading_zeros() {
    for (n, text) in [(0u64, "0"), (7, "7"), (10, "10"), (255, "255"), (1009, "1009")] {
        let mut out = String::from("x");
        push_decimal(&mut out, n);
        assert_eq!(out, format!("x{}", text));
    }
}

#[test]
fn channel_bytes_follow_the_tone_curve() {
    assert_eq!(channel_byte_of(s(0), 1), 0);
    assert_eq!(channel_byte_of(s(ONE), 1), 255);
    assert_eq!(channel_byte_of(s(250_000), 1), 128);
    assert_eq!(channel_byte_of(s(500_000), 1), 181);
    assert_eq!(channel_byte_of(s(10_000), 1), 25);
    assert_eq!(channel_byte_of(s(90_000), 1), 76);
    // just below the cap: sqrt(0.998) = 0.998999
    assert_eq!(channel_byte_of(s(998_000), 1), 255);
    // the mean of 500 samples
    assert_eq!(channel_byte_of(s(125 * ONE), 500), 128);
    assert_eq!(channel_byte_of(s(i64::MAX), 500), 255);
    assert_eq!(channel_byte_of(s(-ONE), 500), 0);
    assert_eq!(v(250_000, 0, ONE).format_color(1), "128 0 255");
}

#[test]
fn background_runs_from_white_to_sky_blue() {
    let from = v(0, 0, 0);
    assert_eq!(raw(background_color(&Ray::new(from, v(0, -ONE, 0)))), (ONE, ONE, ONE));
    assert_eq!(raw(background_color(&Ray::new(from, v(0, ONE, 0)))), (500_000, 700_000, ONE));
    assert_eq!(raw(background_color(&Ray::new(from, v(ONE, 0, 0)))), (750_000, 850_000, ONE));
    assert_eq!(raw(background_color(&Ray::new(from, v(0, 0, 2 * ONE)))), (750_000, 850_000, ONE));
    assert_eq!(raw(background_color(&Ray::new(from, v(ONE, ONE, 0)))), (573_223, 743_934, ONE));
    assert_eq!(
        raw(background_color(&Ray::new(from, v(3 * ONE, -4 * ONE, 0)))),
        (950_000, 970_000, ONE)
    );
    // the origin of the ray does not matter
    assert_eq!(
        raw(background_color(&Ray::new(v(5, -7, 9 * ONE), v(ONE, 0, 0)))),
        (750_000, 850_000, ONE)
    );
}

#[test]
fn missing_rays_get_the_background() {
    let empty = World::new();
    let scene = two_spheres();
    let up = Ray::new(v(0, 0, 0), v(0, ONE, 0));
    for depth in [1, 2, 50] {
        assert_eq!(raw(ray_color(&up, &empty, depth)), (500_000, 700_000, ONE));
        assert_eq!(raw(ray_color(&up, &scene, depth)), (500_000, 700_000, ONE));
    }
    assert_eq!(raw(ray_color_along(&up, &scene, &vec![still()])), (500_000, 700_000, ONE));
}

#[test]
fn background_is_monotone_in_the_height_of_the_direction() {
    let empty = World::new();
    let mut last = (ONE + 1, ONE + 1, ONE);
    for y in [-ONE, -800_000, -300_000, -1, 0, 1, 250_000, 999_999, ONE, 50 * ONE] {
        let r = Ray::new(v(0, 0, 0), v(ONE / 2, y, -ONE / 4));
        let c = raw(ray_color(&r, &empty, 3));
        assert!(500_000 <= c.0 && c.0 <= ONE);
        assert!(700_000 <= c.1 && c.1 <= ONE);
        assert_eq!(c.2, ONE);
        assert!(c.0 <= last.0 && c.1 <= last.1);
        last = c;
    }
}

#[test]
fn depth_zero_is_black() {
    let empty = World::new();
    let scene = two_spheres();
    for d in [v(0, ONE, 0), v(0, 0, -ONE), v(0, -ONE, -ONE), v(0, 0, 0)] {
        let r = Ray::new(v(0, 0, 0), d);
        assert_eq!(raw(ray_color(&r, &empty, 0)), (0, 0, 0));
        assert_eq!(raw(ray_color(&r, &scene, 0)), (0, 0, 0));
        assert_eq!(raw(ray_color_along(&r, &scene, &vec![])), (0, 0, 0));
    }
}

#[test]
fn one_bounce_off_a_diffuse_sphere() {
    let mut world = World::new();
    world.push(Sphere::new(
        v(0, 0, -5 * ONE),
        s(ONE),
        Material::lambertian(v(ONE / 2, ONE / 2, ONE / 2)),
    ));
    let r = Ray::new(v(0, 0, 0), v(0, 0, -ONE));
    let towards = Sample { v: v(0, 0, ONE / 2), u: s(0) };
    // with one sample the path ends at the sphere
    assert_eq!(raw(ray_color_along(&r, &world, &vec![towards])), (0, 0, 0));
    // with two it leaves along (0, 0, 2) and brings back half of the horizon's colour;
    // the sphere it has just left, at parameter zero, does not count as hit
    assert_eq!(
        raw(ray_color_along(&r, &world, &vec![towards, still()])),
        (375_000, 425_000, 500_000)
    );
    assert_eq!(
        raw(ray_color_along(&r, &world, &vec![towards, still(), still()])),
        (375_000, 425_000, 500_000)
    );
}

#[test]
fn a_metal_that_takes_the_ray_up_gives_black() {
    let mut world = World::new();
    world.push(Sphere::new(v(0, 0, 0), s(ONE), Material::metal(v(ONE, ONE, ONE), s(ONE))));
    // the sphere is met at (0.6, 0, 0.8); the mirror image of the ray is (0.96, 0, 0.28)
    let r = Ray::new(v(600_000, 0, 5 * ONE), v(0, 0, -ONE));
    // this sample pushes the mirror image back into the sphere
    let into = Sample { v: v(-600_000, 0, -790_000), u: s(0) };
    assert_eq!(raw(ray_color_along(&r, &world, &vec![into, still()])), (0, 0, 0));
    // without a push the ray leaves for the sky
    let away = Sample { v: v(0, 0, 0), u: s(0) };
    assert_eq!(raw(ray_color_along(&r, &world, &vec![away, still()])), (750_000, 850_000, ONE));
}

#[test]
fn mirror_bounce_is_the_same_on_every_run() {
    let mut world = World::new();
    world.push(Sphere::new(
        v(0, 0, -5 * ONE),
        s(ONE),
        Material::metal(v(800_000, 600_000, 400_000), s(0)),
    ));
    let r = Ray::new(v(0, 0, 0), v(0, 0, -ONE));
    for _ in 0..20 {
        assert_eq!(raw(ray_color(&r, &world, 5)), (600_000, 510_000, 400_000));
    }
}

#[test]
fn image_coordinates_run_from_zero_to_one() {
    assert_eq!(image_coordinate_of(0, s(0), 100).raw(), 0);
    assert_eq!(image_coordinate_of(0, s(ONE / 2), 100).raw(), 5_050);
    assert_eq!(image_coordinate_of(99, s(0), 100).raw(), ONE);
    assert_eq!(image_coordinate_of(99, s(ONE / 2), 100).raw(), 1_005_050);
    assert_eq!(image_coordinate_of(55, s(0), 56).raw(), ONE);
    assert_eq!(image_coordinate_of(3, s(250_000), 2).raw(), 3_250_000);
    // an image of one pixel has no extent to divide by
    assert_eq!(image_coordinate_of(0, s(0), 1).raw(), 0);
    assert_eq!(image_coordinate_of(0, s(1), 1).raw(), i64::MAX);
}

#[test]
fn camera_looks_down_the_negative_z_axis() {
    let cam = pinhole();
    let centre = cam.get_ray_through(s(ONE / 2), s(ONE / 2), v(0, 0, 0));
    assert_eq!(raw(centre.origin()), (0, 0, 0));
    assert_eq!(raw(centre.direction()), (0, 0, -ONE));
    let corner = cam.get_ray_through(s(0), s(0), v(0, 0, 0));
    assert_eq!(raw(corner.direction()), (-1_777_777, -ONE, -ONE));
    let opposite = cam.get_ray_through(s(ONE), s(ONE), v(0, 0, 0));
    assert_eq!(raw(opposite.direction()), (1_777_777, ONE, -ONE));
    // without an aperture the lens point does not matter
    let through = cam.get_ray_through(s(ONE / 2), s(ONE / 2), v(300_000, -400_000, 0));
    assert_eq!(raw(through.origin()), (0, 0, 0));
    assert_eq!(raw(through.direction()), (0, 0, -ONE));
    for _ in 0..20 {
        let r = cam.get_ray(s(ONE / 4), s(3 * ONE / 4));
        assert_eq!(raw(r.origin()), (0, 0, 0));
        assert_eq!(raw(r.direction()), (-888_889, ONE / 2, -ONE));
    }
}

#[test]
fn camera_lens_moves_the_origin_and_keeps_the_focus() {
    let cam =
        Camera::new(v(0, 0, 0), v(0, 0, -ONE), v(0, ONE, 0), s(2 * ONE), s(ONE), s(2 * ONE), s(ONE));
    let r = cam.get_ray_through(s(ONE / 2), s(ONE / 2), v(ONE / 2, 0, 0));
    assert_eq!(raw(r.origin()), (ONE / 2, 0, 0));
    assert_eq!(raw(r.direction()), (-ONE / 2, 0, -ONE));
    // at parameter one every such ray passes the same point of the focus plane
    assert_eq!(raw(r.at(s(ONE))), (0, 0, -ONE));
    let r = cam.get_ray_through(s(ONE / 2), s(ONE / 2), v(0, -250_000, 0));
    assert_eq!(raw(r.origin()), (0, -250_000, 0));
    assert_eq!(raw(r.at(s(ONE))), (0, 0, -ONE));
    for _ in 0..50 {
        let r = cam.get_ray(s(ONE / 2), s(ONE / 2));
        assert_eq!(raw(r.at(s(ONE))), (0, 0, -ONE));
        assert!(r.origin().length_squared().raw() < ONE);
        assert_eq!(r.origin().z().raw(), 0);
    }
}

#[test]
fn pixel_sums_stay_between_black_and_the_sample_count() {
    let cam = pinhole();
    let world = two_spheres();
    let settings = Settings { width: 20, height: 11, samples_per_pixel: 4, max_depth: 5 };
    for (i, j) in [(0, 0), (10, 5), (19, 10), (10, 0)] {
        let c = raw(render_pixel(&cam, &world, &settings, i, j));
        for channel in [c.0, c.1, c.2] {
            assert!(0 <= channel && channel <= 4 * ONE);
        }
    }
    // the top of the image sees the sky, whose blue channel is always one
    let top = raw(render_pixel(&cam, &world, &settings, 10, 10));
    assert_eq!(top.2, 4 * ONE);
    // no samples, no light
    let none = Settings { width: 20, height: 11, samples_per_pixel: 0, max_depth: 5 };
    assert_eq!(raw(render_pixel(&cam, &world, &none, 10, 5)), (0, 0, 0));
    // no depth, no light
    let flat = Settings { width: 20, height: 11, samples_per_pixel: 4, max_depth: 0 };
    assert_eq!(raw(render_pixel(&cam, &world, &flat, 10, 5)), (0, 0, 0));
}

#[test]
fn two_spheres_render_to_a_complete_pixel_map() {
    let cam = pinhole();
    let world = two_spheres();
    let settings = Settings { width: 100, height: 56, samples_per_pixel: 2, max_depth: 5 };
    let text = render_image(&cam, &world, &settings);
    assert!(text.ends_with('\n'));
    let mut lines = text.lines();
    assert_eq!(lines.next(), Some("P3"));
    assert_eq!(lines.next(), Some("100 56"));
    assert_eq!(lines.next(), Some("255"));
    let mut triplets = 0;
    let mut rows: Vec<Vec<[u32; 3]>> = vec![Vec::new(); 56];
    for line in lines {
        let parts: Vec<&str> = line.split(' ').collect();
        assert_eq!(parts.len(), 3);
        let mut rgb = [0u32; 3];
        for (k, part) in parts.iter().enumerate() {
            let value: u32 = part.parse().unwrap();
            assert!(value <= 255);
            rgb[k] = value;
        }
        rows[triplets / 100].push(rgb);
        triplets += 1;
    }
    assert_eq!(triplets, 5600);
    // the top row comes first: sky, with the blue channel at its cap
    for px in &rows[0] {
        assert_eq!(px[2], 255);
        assert!(px[0] >= 181 && px[1] >= 214);
    }
    // the bottom row shows the ground, which has no blue of its own
    for px in &rows[55] {
        assert!(px[2] == 0);
    }
    // the small sphere in the middle is redder than it is green
    let mid = rows[28][50];
    assert!(mid[0] >= mid[1]);
}

#[test]
fn pixels_of_a_scanline_render_in_parallel() {
    let cam = pinhole();
    let world = two_spheres();
    let settings = Settings { width: 40, height: 22, samples_per_pixel: 3, max_depth: 4 };
    // the top scanline sees only sky: whatever the draws, blue is one for each sample
    let top: Vec<Vec3> =
        (0..40u64).into_par_iter().map(|i| render_pixel(&cam, &world, &settings, i, 21)).collect();
    assert_eq!(top.len(), 40);
    for c in &top {
        assert_eq!(c.z().raw(), 3 * ONE);
        assert!(3 * 500_000 <= c.x().raw() && c.x().raw() <= 3 * ONE);
        assert!(3 * 700_000 <= c.y().raw() && c.y().raw() <= 3 * ONE);
    }
    // the bottom scanline sees the ground, which has no blue
    let bottom: Vec<Vec3> =
        (0..40u64).into_par_iter().map(|i| render_pixel(&cam, &world, &settings, i, 0)).collect();
    for c in &bottom {
        assert_eq!(c.z().raw(), 0);
        assert!(0 <= c.x().raw() && c.x().raw() <= 3 * ONE);
    }
}

#[test]
fn an_image_without_pixels_is_its_header() {
    let cam = pinhole();
    let world = two_spheres();
    let settings = Settings { width: 0, height: 3, samples_per_pixel: 2, max_depth: 5 };
    assert_eq!(render_image(&cam, &world, &settings), "P3\n0 3\n255\n");
    let settings = Settings { width: 3, height: 0, samples_per_pixel: 2, max_depth: 5 };
    assert_eq!(render_image(&cam, &world, &settings), "P3\n3 0\n255\n");
}

#[test]
fn an_image_without_depth_is_black() {
    let cam = pinhole();
    let world = two_spheres();
    let settings = Settings { width: 2, height: 2, samples_per_pixel: 3, max_depth: 0 };
    assert_eq!(
        render_image(&cam, &world, &settings),
        "P3\n2 2\n255\n0 0 0\n0 0 0\n0 0 0\n0 0 0\n"
    );
}
