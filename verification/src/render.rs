//! The integrator: the colour that a ray brings back from the scene, and the
//! sum of such colours over the random rays through one pixel.
use vstd::prelude::*;
use vstd::string::StringExecFns;
use crate::camera::{camera_ray, lens_ok, Camera, CameraModel};
use crate::hit::{lemma_world_hit_nearest, world_hit, World};
use crate::material::{
    albedo_ok, is_color, lemma_scatter_shape, sample_ok, scatter_spec, scatter_view, white, Sample,
    SampleModel,
};
use crate::ppm::{color_text, header_text, ppm_header};
use crate::random::random_fraction;
use crate::ray::{Ray, RayModel};
use crate::scalar::{
    add_raw, div_raw, lemma_mul_raw_fraction, lemma_mul_raw_unit, lemma_tdiv_exact,
    lemma_tdiv_monotone, mul_raw, narrow, sat, sub_raw, Scalar, MAX_RAW, ONE_RAW,
};
use crate::sphere::{lemma_sphere_hit_faces_ray, sphere_hit, SphereModel};
use crate::vec::{
    lemma_unit_bounded, v3_add, v3_is_vec, v3_mul, v3_scale, v3_unit, v3_within, Color, Vec3, V3,
};

verus! {

/// The smallest ray parameter at which a hit counts. It keeps a scattered ray
/// from hitting the surface that it has just left.
pub const T_MIN_RAW: i64 = 1_000;

/// The colour black: no light.
pub open spec fn black() -> V3 {
    V3 { x: 0, y: 0, z: 0 }
}

/// The colour of the sky overhead.
pub open spec fn sky_blue() -> V3 {
    V3 { x: 500_000, y: 700_000, z: ONE_RAW as int }
}

/// How far the background has gone from white to sky blue for a direction
/// whose normalized vertical component is `unit_y`: half of `unit_y + 1`.
pub open spec fn background_blend(unit_y: int) -> int {
    mul_raw(ONE_RAW / 2, add_raw(unit_y, ONE_RAW as int))
}

/// The colour of the blend `t` between white, at zero, and sky blue, at one.
pub open spec fn blend_color(t: int) -> V3 {
    v3_add(v3_scale(white(), sub_raw(ONE_RAW as int, t)), v3_scale(sky_blue(), t))
}

/// The colour of the background in the given direction.
pub open spec fn background(direction: V3) -> V3 {
    blend_color(background_blend(v3_unit(direction).y))
}

/// One channel of the blend `t` between white and a sky of the given channel.
pub open spec fn blend_channel(sky: int, t: int) -> int {
    add_raw(mul_raw(ONE_RAW as int, sub_raw(ONE_RAW as int, t)), mul_raw(sky, t))
}

/// A channel of the blend lies between that of the sky and one, and does not
/// grow as the blend goes on towards the sky.
pub proof fn lemma_blend_channel(sky: int, t: int, later: int)
    requires
        0 <= sky <= ONE_RAW,
        0 <= t <= later <= ONE_RAW,
    ensures
        sky <= blend_channel(sky, later) <= blend_channel(sky, t) <= ONE_RAW,
{
    let d = later - t;
    lemma_mul_raw_unit(ONE_RAW - t);
    lemma_mul_raw_unit(ONE_RAW - later);
    lemma_mul_raw_fraction(sky, t);
    lemma_mul_raw_fraction(sky, later);
    assert(sky * later == sky * t + sky * d && 0 <= sky * d <= d * ONE_RAW) by (nonlinear_arith)
        requires
            later == t + d,
            0 <= d,
            0 <= sky <= ONE_RAW,
    {
    }
    lemma_tdiv_monotone(sky * t, sky * later, ONE_RAW as int);
    lemma_tdiv_monotone(sky * later, sky * t + d * ONE_RAW, ONE_RAW as int);
    assert(sky * t >= 0) by (nonlinear_arith)
        requires
            0 <= sky,
            0 <= t,
    {
    }
    assert((sky * t + d * ONE_RAW) / (ONE_RAW as int) == (sky * t) / (ONE_RAW as int) + d);
    // the sky's share of the last step: one minus `later` of white is left
    assert(sky * later + (ONE_RAW - later) * ONE_RAW >= sky * ONE_RAW) by (nonlinear_arith)
        requires
            0 <= sky <= ONE_RAW,
            0 <= later <= ONE_RAW,
    {
    }
    lemma_tdiv_monotone(
        sky * ONE_RAW,
        sky * later + (ONE_RAW - later) * ONE_RAW,
        ONE_RAW as int,
    );
    lemma_tdiv_exact(sky, ONE_RAW as int);
    assert(sky * later >= 0) by (nonlinear_arith)
        requires
            0 <= sky,
            0 <= later,
    {
    }
    assert((sky * later + (ONE_RAW - later) * ONE_RAW) / (ONE_RAW as int) == (sky * later) / (
    ONE_RAW as int) + (ONE_RAW - later));
}

/// The blend of a normalized vertical component that lies between minus one
/// and one lies between zero and one, and grows with the component.
pub proof fn lemma_background_blend(unit_y: int, higher: int)
    requires
        -ONE_RAW <= unit_y <= higher <= ONE_RAW,
    ensures
        0 <= background_blend(unit_y) <= background_blend(higher) <= ONE_RAW,
{
    let half: int = ONE_RAW / 2;
    let w = unit_y + ONE_RAW;
    let v = higher + ONE_RAW;
    assert(0 <= half * w <= half * v <= ONE_RAW * ONE_RAW) by (nonlinear_arith)
        requires
            half == 500_000,
            0 <= w <= v <= 2_000_000,
    {
    }
    lemma_tdiv_monotone(half * w, half * v, ONE_RAW as int);
    lemma_tdiv_monotone(0, half * w, ONE_RAW as int);
    lemma_tdiv_monotone(half * v, ONE_RAW * ONE_RAW, ONE_RAW as int);
}

/// The background lies between sky blue and white in every channel.
pub proof fn lemma_background_between(direction: V3)
    requires
        v3_is_vec(direction),
    ensures
        sky_blue().x <= background(direction).x <= white().x,
        sky_blue().y <= background(direction).y <= white().y,
        sky_blue().z <= background(direction).z <= white().z,
{
    lemma_unit_bounded(direction);
    let t = background_blend(v3_unit(direction).y);
    lemma_background_blend(v3_unit(direction).y, v3_unit(direction).y);
    lemma_blend_channel(sky_blue().x, t, t);
    lemma_blend_channel(sky_blue().y, t, t);
    lemma_blend_channel(sky_blue().z, t, t);
    assert(background(direction).x == blend_channel(sky_blue().x, t));
    assert(background(direction).y == blend_channel(sky_blue().y, t));
    assert(background(direction).z == blend_channel(sky_blue().z, t));
}

/// The higher a direction points, the further the background has gone from
/// white to sky blue: no channel grows with the normalized vertical component.
pub proof fn lemma_background_monotone(lower: V3, higher: V3)
    requires
        v3_is_vec(lower),
        v3_is_vec(higher),
        v3_unit(lower).y <= v3_unit(higher).y,
    ensures
        background_blend(v3_unit(lower).y) <= background_blend(v3_unit(higher).y),
        background(lower).x >= background(higher).x,
        background(lower).y >= background(higher).y,
        background(lower).z >= background(higher).z,
{
    lemma_unit_bounded(lower);
    lemma_unit_bounded(higher);
    let t = background_blend(v3_unit(lower).y);
    let later = background_blend(v3_unit(higher).y);
    lemma_background_blend(v3_unit(lower).y, v3_unit(higher).y);
    lemma_blend_channel(sky_blue().x, t, later);
    lemma_blend_channel(sky_blue().y, t, later);
    lemma_blend_channel(sky_blue().z, t, later);
    assert(background(lower).x == blend_channel(sky_blue().x, t));
    assert(background(lower).y == blend_channel(sky_blue().y, t));
    assert(background(lower).z == blend_channel(sky_blue().z, t));
    assert(background(higher).x == blend_channel(sky_blue().x, later));
    assert(background(higher).y == blend_channel(sky_blue().y, later));
    assert(background(higher).z == blend_channel(sky_blue().z, later));
}

/// Whether no material of the scene gives back more light than it gets.
pub open spec fn albedos_ok(world: Seq<SphereModel>) -> bool {
    forall|i: int| 0 <= i < world.len() ==> albedo_ok(#[trigger] world[i].mat)
}

/// Light never grows along a path: where no material gives back more than
/// it gets, every channel of the colour that a ray brings back lies between
/// zero and one.
pub proof fn lemma_radiance_is_color(
    world: Seq<SphereModel>,
    r: RayModel,
    samples: Seq<SampleModel>,
)
    requires
        albedos_ok(world),
        v3_is_vec(r.direction),
    ensures
        is_color(radiance(world, r, samples)),
    decreases samples.len(),
{
    if samples.len() > 0 {
        let t_min = T_MIN_RAW as int;
        let t_max = MAX_RAW as int;
        match world_hit(world, r, t_min, t_max) {
            Some(rec) => {
                lemma_world_hit_nearest(world, r, t_min, t_max);
                let i = choose|i: int|
                    0 <= i < world.len() && #[trigger] sphere_hit(world[i], r, t_min, t_max)
                        == Some(rec);
                lemma_sphere_hit_faces_ray(world[i], r, t_min, t_max);
                assert(albedo_ok(world[i].mat));
                lemma_scatter_shape(rec.mat, r, rec, samples[0]);
                match scatter_spec(rec.mat, r, rec, samples[0]) {
                    Some((attenuation, scattered)) => {
                        lemma_radiance_is_color(world, scattered, samples.drop_first());
                        let deeper = radiance(world, scattered, samples.drop_first());
                        lemma_mul_raw_fraction(attenuation.x, deeper.x);
                        lemma_mul_raw_fraction(attenuation.y, deeper.y);
                        lemma_mul_raw_fraction(attenuation.z, deeper.z);
                    },
                    None => {},
                }
            },
            None => {
                lemma_background_between(r.direction);
            },
        }
    }
}

/// Whether every sample is one that can be drawn.
pub open spec fn samples_ok(samples: Seq<SampleModel>) -> bool {
    forall|i: int| 0 <= i < samples.len() ==> sample_ok(#[trigger] samples[i])
}

/// The colour that the ray brings back when the scatterings on its way use
/// the given samples in turn. The number of samples is the depth: a path that
/// has used them all brings back no light.
pub open spec fn radiance(world: Seq<SphereModel>, r: RayModel, samples: Seq<SampleModel>) -> V3
    decreases samples.len(),
{
    if samples.len() == 0 {
        black()
    } else {
        match world_hit(world, r, T_MIN_RAW as int, MAX_RAW as int) {
            Some(rec) => match scatter_spec(rec.mat, r, rec, samples[0]) {
                Some((attenuation, scattered)) => v3_mul(
                    attenuation,
                    radiance(world, scattered, samples.drop_first()),
                ),
                None => black(),
            },
            None => background(r.direction),
        }
    }
}

/// What a list of samples stands for.
pub open spec fn samples_view(samples: Seq<Sample>) -> Seq<SampleModel> {
    Seq::new(samples.len(), |i: int| samples[i]@)
}

/// A sample that uses no randomness: the centre of the sphere and zero.
pub open spec fn still_sample() -> SampleModel {
    SampleModel { v: V3 { x: 0, y: 0, z: 0 }, u: 0 }
}

/// The numbers that shape a rendering.
#[derive(Clone, Copy, Debug)]
pub struct Settings {
    /// The number of pixels in a row.
    pub width: u64,
    /// The number of rows.
    pub height: u64,
    /// The number of random rays through each pixel.
    pub samples_per_pixel: u64,
    /// The largest number of scatterings along one path.
    pub max_depth: u64,
}

/// The random numbers behind one ray through a pixel: where in the pixel it
/// passes, where it leaves the lens, and the samples of its scatterings.
pub struct DrawModel {
    pub du: int,
    pub dv: int,
    pub lens: V3,
    pub samples: Seq<SampleModel>,
}

/// Whether the draw is one that can come up for a path of the given depth.
pub open spec fn draw_ok(d: DrawModel, depth: nat) -> bool {
    &&& 0 <= d.du < ONE_RAW
    &&& 0 <= d.dv < ONE_RAW
    &&& lens_ok(d.lens)
    &&& samples_ok(d.samples)
    &&& d.samples.len() == depth
}

/// Whether every draw is one that can come up.
pub open spec fn draws_ok(draws: Seq<DrawModel>, depth: nat) -> bool {
    forall|k: int| 0 <= k < draws.len() ==> draw_ok(#[trigger] draws[k], depth)
}

/// The image position, from zero to one, of the pixel at `index` of `extent`,
/// moved by `jitter` within the pixel: `(index + jitter) / (extent - 1)`.
pub open spec fn image_coordinate(index: int, jitter: int, extent: int) -> int {
    div_raw(add_raw(sat(index * ONE_RAW), jitter), sat((extent - 1) * ONE_RAW))
}

/// The colour that one draw brings to the pixel in column `i` and row `j`,
/// rows counted from the bottom.
pub open spec fn draw_color(
    world: Seq<SphereModel>,
    cam: CameraModel,
    settings: Settings,
    i: int,
    j: int,
    d: DrawModel,
) -> V3 {
    radiance(
        world,
        camera_ray(
            cam,
            image_coordinate(i, d.du, settings.width as int),
            image_coordinate(j, d.dv, settings.height as int),
            d.lens,
        ),
        d.samples,
    )
}

/// The sum of the colours that the draws bring to the pixel, added in order.
pub open spec fn pixel_sum(
    world: Seq<SphereModel>,
    cam: CameraModel,
    settings: Settings,
    i: int,
    j: int,
    draws: Seq<DrawModel>,
) -> V3
    decreases draws.len(),
{
    if draws.len() == 0 {
        black()
    } else {
        v3_add(
            pixel_sum(world, cam, settings, i, j, draws.drop_last()),
            draw_color(world, cam, settings, i, j, draws.last()),
        )
    }
}

/// Where no material gives back more light than it gets, no channel of a
/// pixel's sum is negative or larger than the number of draws.
pub proof fn lemma_pixel_sum_bounded(
    world: Seq<SphereModel>,
    cam: CameraModel,
    settings: Settings,
    i: int,
    j: int,
    draws: Seq<DrawModel>,
)
    requires
        albedos_ok(world),
    ensures
        v3_within(pixel_sum(world, cam, settings, i, j, draws), 0, draws.len() * ONE_RAW + 1),
    decreases draws.len(),
{
    if draws.len() > 0 {
        lemma_pixel_sum_bounded(world, cam, settings, i, j, draws.drop_last());
        let d = draws.last();
        let r = camera_ray(
            cam,
            image_coordinate(i, d.du, settings.width as int),
            image_coordinate(j, d.dv, settings.height as int),
            d.lens,
        );
        lemma_radiance_is_color(world, r, d.samples);
        assert(draws.len() * ONE_RAW == draws.drop_last().len() * ONE_RAW + ONE_RAW)
            by (nonlinear_arith)
            requires
                draws.len() == draws.drop_last().len() + 1,
        {
        }
    }
}

/// Whether `c` is a sum that the pixel can get: the sum over
/// `samples_per_pixel` draws that can come up.
///
/// The definition is opaque, so that proofs about many pixels stay small;
/// `reveal(is_pixel_sum)` unfolds it.
#[verifier::opaque]
pub open spec fn is_pixel_sum(
    world: Seq<SphereModel>,
    cam: CameraModel,
    settings: Settings,
    i: int,
    j: int,
    c: V3,
) -> bool {
    exists|draws: Seq<DrawModel>| #[trigger]
        draws_ok(draws, settings.max_depth as nat) && draws.len() == settings.samples_per_pixel
            && c == pixel_sum(world, cam, settings, i, j, draws)
}

/// The lines of the pixels whose sums are given, each ended by a line feed.
pub open spec fn pixels_text(sums: Seq<V3>, samples: nat) -> Seq<char>
    decreases sums.len(),
{
    if sums.len() == 0 {
        Seq::empty()
    } else {
        pixels_text(sums.drop_last(), samples) + color_text(sums.last(), samples) + seq!['\n']
    }
}

/// The text of an image: the header, then the pixels row by row, the top row
/// first and each row from left to right.
pub open spec fn image_text(settings: Settings, sums: Seq<V3>) -> Seq<char> {
    header_text(settings.width as nat, settings.height as nat) + pixels_text(
        sums,
        settings.samples_per_pixel as nat,
    )
}

/// Whether each sum is one that its pixel can get, where the sum at index `k`
/// belongs to column `k % width` of the row `k / width` from the top.
pub open spec fn sums_ok(
    world: Seq<SphereModel>,
    cam: CameraModel,
    settings: Settings,
    sums: Seq<V3>,
) -> bool {
    forall|k: int|
        0 <= k < sums.len() ==> is_pixel_sum(
            world,
            cam,
            settings,
            k % (settings.width as int),
            settings.height - 1 - k / (settings.width as int),
            #[trigger] sums[k],
        )
}

/// The colour of the background behind the ray: between sky blue and white.
pub fn background_color(r: &Ray) -> (c: Color)
    ensures
        c@ == background(r@.direction),
        sky_blue().x <= c@.x <= white().x,
        sky_blue().y <= c@.y <= white().y,
        sky_blue().z <= c@.z <= white().z,
{
    let direction: Vec3 = r.direction();
    proof {
        lemma_background_between(direction@);
    }
    let unit: Vec3 = direction.normalized();
    let t: Scalar = Scalar { raw: ONE_RAW / 2 } * (unit.y + Scalar { raw: ONE_RAW });
    (Scalar { raw: ONE_RAW } - t) * Vec3::from_raw(ONE_RAW, ONE_RAW, ONE_RAW) + t * Vec3::from_raw(
        500_000,
        700_000,
        ONE_RAW,
    )
}

fn trace(r: &Ray, world: &World, samples: &Vec<Sample>, from: usize) -> (c: Color)
    requires
        from <= samples.len(),
    ensures
        c@ == radiance(world@, r@, samples_view(samples@).skip(from as int)),
    decreases samples.len() - from,
{
    let ghost rest = samples_view(samples@).skip(from as int);
    if from == samples.len() {
        return Vec3::from_raw(0, 0, 0);
    }
    assert(rest[0] == samples@[from as int]@);
    assert(rest.drop_first() =~= samples_view(samples@).skip(from + 1));
    match world.hit(r, Scalar { raw: T_MIN_RAW }, Scalar { raw: MAX_RAW }) {
        Some(rec) => match rec.mat.scatter_with(r, &rec, samples[from]) {
            Some((attenuation, scattered)) => attenuation * trace(
                &scattered,
                world,
                samples,
                from + 1,
            ),
            None => Vec3::from_raw(0, 0, 0),
        },
        None => background_color(r),
    }
}

/// The colour that the ray brings back when the scatterings on its way use
/// the given samples in turn.
pub fn ray_color_along(r: &Ray, world: &World, samples: &Vec<Sample>) -> (c: Color)
    ensures
        c@ == radiance(world@, r@, samples_view(samples@)),
        albedos_ok(world@) ==> is_color(c@),
{
    assert(samples_view(samples@).skip(0) =~= samples_view(samples@));
    proof {
        r.lemma_is_vec();
        if albedos_ok(world@) {
            lemma_radiance_is_color(world@, r@, samples_view(samples@));
        }
    }
    trace(r, world, samples, 0)
}

/// The colour that the ray brings back from the scene along a random path of
/// at most `depth` scatterings. With a depth of zero the colour is black.
pub fn ray_color(r: &Ray, world: &World, depth: u64) -> (c: Color)
    ensures
        exists|samples: Seq<SampleModel>| #[trigger]
            samples_ok(samples) && samples.len() == depth && c@ == radiance(world@, r@, samples),
        depth == 0 ==> c@ == black(),
        depth > 0 && world_hit(world@, r@, T_MIN_RAW as int, MAX_RAW as int) is None ==> {
            &&& c@ == background(r@.direction)
            &&& sky_blue().x <= c@.x <= white().x
            &&& sky_blue().y <= c@.y <= white().y
            &&& sky_blue().z <= c@.z <= white().z
        },
        albedos_ok(world@) ==> is_color(c@),
    decreases depth,
{
    proof {
        r.lemma_is_vec();
    }
    if depth == 0 {
        proof {
            let none = Seq::<SampleModel>::empty();
            assert(samples_ok(none) && radiance(world@, r@, none) == black());
        }
        return Vec3::from_raw(0, 0, 0);
    }
    let ghost still = Seq::new((depth - 1) as nat, |i: int| still_sample());
    assert(sample_ok(still_sample()));
    match world.hit(r, Scalar { raw: T_MIN_RAW }, Scalar { raw: MAX_RAW }) {
        Some(rec) => {
            let out = rec.mat.scatter(r, &rec);
            let ghost first = choose|s: SampleModel| #[trigger]
                sample_ok(s) && scatter_view(out) == scatter_spec(rec.mat@, r@, rec@, s);
            match out {
                Some((attenuation, scattered)) => {
                    let deeper: Color = ray_color(&scattered, world, depth - 1);
                    proof {
                        let rest = choose|samples: Seq<SampleModel>| #[trigger]
                            samples_ok(samples) && samples.len() == depth - 1 && deeper@
                                == radiance(world@, scattered@, samples);
                        let all = seq![first] + rest;
                        assert(all.drop_first() =~= rest);
                        assert(samples_ok(all));
                        assert(radiance(world@, r@, all) == v3_mul(attenuation@, deeper@));
                        if albedos_ok(world@) {
                            lemma_radiance_is_color(world@, r@, all);
                        }
                    }
                    attenuation * deeper
                },
                None => {
                    proof {
                        let all = seq![first] + still;
                        assert(samples_ok(all));
                        assert(radiance(world@, r@, all) == black());
                    }
                    Vec3::from_raw(0, 0, 0)
                },
            }
        },
        None => {
            proof {
                let all = seq![still_sample()] + still;
                assert(samples_ok(all));
                assert(radiance(world@, r@, all) == background(r@.direction));
            }
            background_color(r)
        },
    }
}

/// The image position of the pixel at `index` of `extent`, moved by `jitter`.
pub fn image_coordinate_of(index: u64, jitter: Scalar, extent: u64) -> (c: Scalar)
    ensures
        c@ == image_coordinate(index as int, jitter@, extent as int),
{
    let at: Scalar = Scalar { raw: narrow(index as i128 * ONE_RAW as i128) };
    let span: Scalar = Scalar { raw: narrow((extent as i128 - 1) * ONE_RAW as i128) };
    (at + jitter) / span
}

/// The sum of the colours of `samples_per_pixel` random rays through the
/// pixel in column `i` and row `j`, rows counted from the bottom.
pub fn render_pixel(cam: &Camera, world: &World, settings: &Settings, i: u64, j: u64) -> (c: Color)
    ensures
        is_pixel_sum(world@, cam@, *settings, i as int, j as int, c@),
        albedos_ok(world@) ==> v3_within(c@, 0, settings.samples_per_pixel * ONE_RAW + 1),
{
    let mut pixel_color: Color = Vec3::from_raw(0, 0, 0);
    let ghost mut draws: Seq<DrawModel> = Seq::empty();
    let mut n: u64 = 0;
    while n < settings.samples_per_pixel
        invariant
            n <= settings.samples_per_pixel,
            draws.len() == n,
            draws_ok(draws, settings.max_depth as nat),
            pixel_color@ == pixel_sum(world@, cam@, *settings, i as int, j as int, draws),
        decreases settings.samples_per_pixel - n,
    {
        let du: Scalar = random_fraction();
        let dv: Scalar = random_fraction();
        let u: Scalar = image_coordinate_of(i, du, settings.width);
        let v: Scalar = image_coordinate_of(j, dv, settings.height);
        let r: Ray = cam.get_ray(u, v);
        let c: Color = ray_color(&r, world, settings.max_depth);
        proof {
            let lens = choose|lens: V3| #[trigger]
                lens_ok(lens) && r@ == camera_ray(cam@, u@, v@, lens);
            let samples = choose|samples: Seq<SampleModel>| #[trigger]
                samples_ok(samples) && samples.len() == settings.max_depth && c@ == radiance(
                    world@,
                    r@,
                    samples,
                );
            let d = DrawModel { du: du@, dv: dv@, lens, samples };
            let before = draws;
            draws = draws.push(d);
            assert(draws.drop_last() =~= before);
            assert(draws.last() == d);
        }
        pixel_color = pixel_color + c;
        n = n + 1;
    }
    proof {
        reveal(is_pixel_sum);
        if albedos_ok(world@) {
            lemma_pixel_sum_bounded(world@, cam@, *settings, i as int, j as int, draws);
        }
    }
    pixel_color
}

proof fn lemma_sums_push(
    world: Seq<SphereModel>,
    cam: CameraModel,
    settings: Settings,
    sums: Seq<V3>,
    row: int,
    i: int,
    c: V3,
)
    requires
        sums_ok(world, cam, settings, sums),
        0 <= row,
        0 <= i < settings.width,
        sums.len() == row * settings.width + i,
        is_pixel_sum(world, cam, settings, i, settings.height - 1 - row, c),
    ensures
        sums_ok(world, cam, settings, sums.push(c)),
        pixels_text(sums.push(c), settings.samples_per_pixel as nat) == pixels_text(
            sums,
            settings.samples_per_pixel as nat,
        ) + color_text(c, settings.samples_per_pixel as nat) + seq!['\n'],
{
    let k = sums.len() as int;
    vstd::arithmetic::div_mod::lemma_fundamental_div_mod_converse(
        k,
        settings.width as int,
        row,
        i,
    );
    assert(sums.push(c).drop_last() =~= sums);
    assert forall|m: int| 0 <= m < sums.push(c).len() implies is_pixel_sum(
        world,
        cam,
        settings,
        m % (settings.width as int),
        settings.height - 1 - m / (settings.width as int),
        #[trigger] sums.push(c)[m],
    ) by {
        if m < k {
            assert(sums.push(c)[m] == sums[m]);
        }
    }
}

/// Renders the scene: the text of the image, with every pixel computed in turn.
pub fn render_image(cam: &Camera, world: &World, settings: &Settings) -> (text: String)
    ensures
        exists|sums: Seq<V3>| #[trigger]
            sums_ok(world@, cam@, *settings, sums) && sums.len() == settings.width
                * settings.height && text@ == image_text(*settings, sums),
{
    let width: u64 = settings.width;
    let height: u64 = settings.height;
    let mut text: String = ppm_header(width, height);
    let ghost head = text@;
    let ghost samples = settings.samples_per_pixel as nat;
    let ghost mut sums: Seq<V3> = Seq::empty();
    let mut row: u64 = 0;
    assert(text@ =~= head + pixels_text(sums, samples));
    while row < height
        invariant
            width == settings.width,
            height == settings.height,
            samples == settings.samples_per_pixel,
            row <= height,
            head == header_text(width as nat, height as nat),
            sums.len() == row * width,
            sums_ok(world@, cam@, *settings, sums),
            text@ == head + pixels_text(sums, samples),
        decreases height - row,
    {
        let j: u64 = height - 1 - row;
        let mut i: u64 = 0;
        while i < width
            invariant
                width == settings.width,
                height == settings.height,
                samples == settings.samples_per_pixel,
                row < height,
                j == height - 1 - row,
                i <= width,
                sums.len() == row * width + i,
                sums_ok(world@, cam@, *settings, sums),
                text@ == head + pixels_text(sums, samples),
            decreases width - i,
        {
            let c: Color = render_pixel(cam, world, settings, i, j);
            let line: String = c.format_color(settings.samples_per_pixel);
            let ghost before_text = text@;
            text.append(line.as_str());
            text.append("\n");
            proof {
                reveal_strlit("\n");
                assert("\n"@ =~= seq!['\n']);
                lemma_sums_push(world@, cam@, *settings, sums, row as int, i as int, c@);
                assert(text@ =~= head + (pixels_text(sums, samples) + color_text(c@, samples)
                    + seq!['\n']));
                sums = sums.push(c@);
            }
            i = i + 1;
        }
        proof {
            assert((row + 1) * width == row * width + width) by (nonlinear_arith);
        }
        row = row + 1;
    }
    proof {
        assert(row * width == settings.width * settings.height) by (nonlinear_arith)
            requires
                row == settings.height,
                width == settings.width,
        ;
        assert(text@ == image_text(*settings, sums));
    }
    text
}

} // verus!
