//! Three-component vectors of fixed-point numbers: points, directions and colours.
use vstd::prelude::*;
use vstd::string::StringExecFns;
use core::ops::Neg;
use crate::ppm::{channel_byte_of, color_text, push_decimal};
use crate::random::random_between;
use crate::scalar::{
    abs_raw, add_raw, div_raw, floor_sqrt, floor_sqrt_exec, lemma_floor_sqrt_exists,
    lemma_mul_raw_neg, lemma_mul_raw_square, min_raw, mul_raw, narrow, neg_raw, sat, scalar_of,
    sqrt_raw, sub_raw, Scalar, MAX_RAW, ONE_RAW,
};

verus! {

/// What a [`Vec3`] stands for: three raw values.
pub struct V3 {
    pub x: int,
    pub y: int,
    pub z: int,
}

/// The component-wise sum.
pub open spec fn v3_add(a: V3, b: V3) -> V3 {
    V3 { x: add_raw(a.x, b.x), y: add_raw(a.y, b.y), z: add_raw(a.z, b.z) }
}

/// The component-wise difference.
pub open spec fn v3_sub(a: V3, b: V3) -> V3 {
    V3 { x: sub_raw(a.x, b.x), y: sub_raw(a.y, b.y), z: sub_raw(a.z, b.z) }
}

/// The opposite vector.
pub open spec fn v3_neg(a: V3) -> V3 {
    V3 { x: neg_raw(a.x), y: neg_raw(a.y), z: neg_raw(a.z) }
}

/// The vector `a` stretched by the number `k`.
pub open spec fn v3_scale(a: V3, k: int) -> V3 {
    V3 { x: mul_raw(a.x, k), y: mul_raw(a.y, k), z: mul_raw(a.z, k) }
}

/// The component-wise product.
pub open spec fn v3_mul(a: V3, b: V3) -> V3 {
    V3 { x: mul_raw(a.x, b.x), y: mul_raw(a.y, b.y), z: mul_raw(a.z, b.z) }
}

/// The vector `a` with each component divided by the number `k`.
pub open spec fn v3_div(a: V3, k: int) -> V3 {
    V3 { x: div_raw(a.x, k), y: div_raw(a.y, k), z: div_raw(a.z, k) }
}

/// The dot product: the three products, each rounded, summed in order.
pub open spec fn v3_dot(a: V3, b: V3) -> int {
    add_raw(add_raw(mul_raw(a.x, b.x), mul_raw(a.y, b.y)), mul_raw(a.z, b.z))
}

/// The squared length.
pub open spec fn v3_len_sq(a: V3) -> int {
    v3_dot(a, a)
}

/// The exact sum of the squared raw components.
pub open spec fn v3_square_sum(a: V3) -> int {
    a.x * a.x + a.y * a.y + a.z * a.z
}

/// The length: the integer square root of the exact sum of the squared raw
/// components, so that even a vector shorter than a thousandth has a length.
pub open spec fn v3_len(a: V3) -> int {
    sat(floor_sqrt(v3_square_sum(a)))
}

/// The cross product.
pub open spec fn v3_cross(a: V3, b: V3) -> V3 {
    V3 {
        x: sub_raw(mul_raw(a.y, b.z), mul_raw(a.z, b.y)),
        y: sub_raw(mul_raw(a.z, b.x), mul_raw(a.x, b.z)),
        z: sub_raw(mul_raw(a.x, b.y), mul_raw(a.y, b.x)),
    }
}

/// The vector divided by its length; the zero vector stays zero. The length
/// is rounded down to a whole millionth before the division, which shows in
/// the result only for vectors shorter than a thousandth; no component comes
/// out larger in size than one.
pub open spec fn v3_unit(a: V3) -> V3 {
    v3_div(a, v3_len(a))
}

/// Whether every component is smaller in size than one millionth.
pub open spec fn v3_near_zero(a: V3) -> bool {
    a.x == 0 && a.y == 0 && a.z == 0
}

/// The mirror image of `v` at a surface with normal `n`: `v - 2 (v . n) n`.
pub open spec fn v3_reflect(v: V3, n: V3) -> V3 {
    v3_sub(v, v3_scale(n, mul_raw(2 * ONE_RAW, v3_dot(v, n))))
}

/// The part of a refracted direction that lies across the normal.
pub open spec fn v3_refract_perp(uv: V3, n: V3, ratio: int) -> V3 {
    let cos_theta = min_raw(v3_dot(v3_neg(uv), n), ONE_RAW as int);
    v3_scale(v3_add(uv, v3_scale(n, cos_theta)), ratio)
}

/// The direction of `uv` after it crosses a surface with normal `n`, where
/// `ratio` is the refractive index before the surface over the one after it.
pub open spec fn v3_refract(uv: V3, n: V3, ratio: int) -> V3 {
    let perp = v3_refract_perp(uv, n, ratio);
    let along = neg_raw(sqrt_raw(abs_raw(sub_raw(ONE_RAW as int, v3_len_sq(perp)))));
    v3_add(perp, v3_scale(n, along))
}

/// `v` if it points to the side of `normal`, else its opposite.
pub open spec fn v3_facing(v: V3, normal: V3) -> V3 {
    if v3_dot(v, normal) > 0 {
        v
    } else {
        v3_neg(v)
    }
}

/// Whether every component is at least `lo` and less than `hi`.
pub open spec fn v3_within(a: V3, lo: int, hi: int) -> bool {
    lo <= a.x < hi && lo <= a.y < hi && lo <= a.z < hi
}

/// Whether `a` lies strictly inside the sphere of radius one about the origin.
pub open spec fn v3_in_unit_sphere(a: V3) -> bool {
    v3_len_sq(a) < ONE_RAW
}

/// Whether every component is a raw value that the operations return.
pub open spec fn v3_in_range(a: V3) -> bool {
    -MAX_RAW <= a.x <= MAX_RAW && -MAX_RAW <= a.y <= MAX_RAW && -MAX_RAW <= a.z <= MAX_RAW
}

/// How many draws `Vec3::random_in_unit_sphere` makes before it gives up.
pub const SPHERE_DRAWS: u32 = 64;

/// A squared length is never negative.
pub proof fn lemma_len_sq_nonnegative(a: V3)
    ensures
        v3_len_sq(a) >= 0,
{
    lemma_mul_raw_square(a.x);
    lemma_mul_raw_square(a.y);
    lemma_mul_raw_square(a.z);
}

/// The vector of the given signed length along the axis `0`, `1` or `2`.
pub open spec fn axis_vector(axis: int, length: int) -> V3 {
    V3 {
        x: if axis == 0 { length } else { 0 },
        y: if axis == 1 { length } else { 0 },
        z: if axis == 2 { length } else { 0 },
    }
}

/// Whether every component is a value that a [`Vec3`] can hold.
pub open spec fn v3_is_vec(a: V3) -> bool {
    -MAX_RAW - 1 <= a.x <= MAX_RAW && -MAX_RAW - 1 <= a.y <= MAX_RAW && -MAX_RAW - 1 <= a.z
        <= MAX_RAW
}

/// The length is the true length rounded down: its square is at most the sum
/// of the squares, and below the largest number the square of the next
/// millionth is above that sum.
pub proof fn lemma_length_is_floor(a: V3)
    ensures
        0 <= v3_len(a),
        v3_len(a) * v3_len(a) <= v3_square_sum(a),
        v3_len(a) < MAX_RAW ==> v3_square_sum(a) < (v3_len(a) + 1) * (v3_len(a) + 1),
{
    assert(a.x * a.x >= 0 && a.y * a.y >= 0 && a.z * a.z >= 0) by (nonlinear_arith);
    lemma_floor_sqrt_exists(v3_square_sum(a));
    let root = floor_sqrt(v3_square_sum(a));
    let len = v3_len(a);
    assert(len * len <= root * root) by (nonlinear_arith)
        requires
            0 <= len <= root,
    {
    }
}

/// The dot product with the opposite vector is the opposite number.
pub proof fn lemma_dot_neg(a: V3, b: V3)
    requires
        v3_in_range(b),
    ensures
        v3_dot(a, v3_neg(b)) == -v3_dot(a, b),
{
    lemma_mul_raw_neg(a.x, b.x);
    lemma_mul_raw_neg(a.y, b.y);
    lemma_mul_raw_neg(a.z, b.z);
}

proof fn lemma_unit_one_component(c: int, sum: int)
    requires
        -MAX_RAW - 1 <= c <= MAX_RAW,
        c * c <= sum,
    ensures
        -ONE_RAW <= div_raw(c, sat(floor_sqrt(sum))) <= ONE_RAW,
{
    assert(c * c >= 0) by (nonlinear_arith);
    lemma_floor_sqrt_exists(sum);
    let root = floor_sqrt(sum);
    let len = sat(root);
    let size = if c >= 0 { c } else { -c };
    assert(size * size == c * c) by (nonlinear_arith)
        requires
            size == c || size == -c,
    {
    }
    assert(size <= root) by (nonlinear_arith)
        requires
            size * size <= sum,
            sum < (root + 1) * (root + 1),
            0 <= root,
            0 <= size,
    {
    }
    if len != 0 {
        if size <= len {
            assert(0 <= (size * ONE_RAW) / len <= ONE_RAW) by (nonlinear_arith)
                requires
                    0 <= size <= len,
                    len > 0,
            {
            }
        } else {
            assert(len == MAX_RAW && size == MAX_RAW + 1);
            assert(0 <= (size * ONE_RAW) / len <= ONE_RAW) by (nonlinear_arith)
                requires
                    len == 0x7fff_ffff_ffff_ffff,
                    size == len + 1,
            {
            }
        }
        assert(c * ONE_RAW == size * ONE_RAW || -(c * ONE_RAW) == size * ONE_RAW)
            by (nonlinear_arith)
            requires
                size == c || size == -c,
        {
        }
    }
}

/// No component of a normalized vector is larger in size than one.
pub proof fn lemma_unit_bounded(a: V3)
    requires
        v3_is_vec(a),
    ensures
        v3_within(v3_unit(a), -ONE_RAW, ONE_RAW + 1),
{
    let sum = a.x * a.x + a.y * a.y + a.z * a.z;
    assert(a.x * a.x >= 0 && a.y * a.y >= 0 && a.z * a.z >= 0) by (nonlinear_arith);
    lemma_unit_one_component(a.x, sum);
    lemma_unit_one_component(a.y, sum);
    lemma_unit_one_component(a.z, sum);
}

/// A vector of three fixed-point numbers.
#[derive(Clone, Copy, Debug, PartialEq, Eq, Structural)]
pub struct Vec3 {
    pub x: Scalar,
    pub y: Scalar,
    pub z: Scalar,
}

/// A position in space.
pub type Point3 = Vec3;

/// Red, green and blue.
pub type Color = Vec3;

impl View for Vec3 {
    type V = V3;

    open spec fn view(&self) -> V3 {
        V3 { x: self.x@, y: self.y@, z: self.z@ }
    }
}

/// The vector with the given raw components; meant for components within the range of `i64`.
pub open spec fn vec3_of(m: V3) -> Vec3 {
    Vec3 { x: scalar_of(m.x), y: scalar_of(m.y), z: scalar_of(m.z) }
}

impl Vec3 {
    /// The vector with the given components.
    pub fn new(e0: Scalar, e1: Scalar, e2: Scalar) -> (r: Vec3)
        ensures
            r@ == (V3 { x: e0@, y: e1@, z: e2@ }),
    {
        Vec3 { x: e0, y: e1, z: e2 }
    }

    /// The vector with the given raw components.
    pub fn from_raw(x: i64, y: i64, z: i64) -> (r: Vec3)
        ensures
            r@ == (V3 { x: x as int, y: y as int, z: z as int }),
    {
        Vec3 { x: Scalar { raw: x }, y: Scalar { raw: y }, z: Scalar { raw: z } }
    }

    /// The first component.
    pub fn x(self) -> (r: Scalar)
        ensures
            r@ == self@.x,
    {
        self.x
    }

    /// The second component.
    pub fn y(self) -> (r: Scalar)
        ensures
            r@ == self@.y,
    {
        self.y
    }

    /// The third component.
    pub fn z(self) -> (r: Scalar)
        ensures
            r@ == self@.z,
    {
        self.z
    }

    /// The dot product.
    pub fn dot(self, other: Vec3) -> (r: Scalar)
        ensures
            r@ == v3_dot(self@, other@),
    {
        self.x * other.x + self.y * other.y + self.z * other.z
    }

    /// The length, rounded down to a whole millionth.
    pub fn length(self) -> (r: Scalar)
        ensures
            r@ == v3_len(self@),
            0 <= r@,
            r@ * r@ <= v3_square_sum(self@),
            r@ < MAX_RAW ==> v3_square_sum(self@) < (r@ + 1) * (r@ + 1),
    {
        let x: i128 = self.x.raw as i128;
        let y: i128 = self.y.raw as i128;
        let z: i128 = self.z.raw as i128;
        assert(0 <= x * x <= 0x4000_0000_0000_0000_0000_0000_0000_0000) by (nonlinear_arith)
            requires
                -0x8000_0000_0000_0000 <= x <= 0x7fff_ffff_ffff_ffff,
        ;
        assert(0 <= y * y <= 0x4000_0000_0000_0000_0000_0000_0000_0000) by (nonlinear_arith)
            requires
                -0x8000_0000_0000_0000 <= y <= 0x7fff_ffff_ffff_ffff,
        ;
        assert(0 <= z * z <= 0x4000_0000_0000_0000_0000_0000_0000_0000) by (nonlinear_arith)
            requires
                -0x8000_0000_0000_0000 <= z <= 0x7fff_ffff_ffff_ffff,
        ;
        let sum: u128 = (x * x) as u128 + (y * y) as u128 + (z * z) as u128;
        let root: u64 = floor_sqrt_exec(sum);
        proof {
            lemma_length_is_floor(self@);
        }
        Scalar { raw: narrow(root as i128) }
    }

    /// The squared length.
    pub fn length_squared(self) -> (r: Scalar)
        ensures
            r@ == v3_len_sq(self@),
    {
        self.dot(self)
    }

    /// The cross product.
    pub fn cross(self, other: Vec3) -> (r: Vec3)
        ensures
            r@ == v3_cross(self@, other@),
    {
        Vec3 {
            x: self.y * other.z - self.z * other.y,
            y: self.z * other.x - self.x * other.z,
            z: self.x * other.y - self.y * other.x,
        }
    }

    /// The vector divided by its length; the zero vector stays zero.
    pub fn normalized(self) -> (r: Vec3)
        ensures
            r@ == v3_unit(self@),
    {
        self / self.length()
    }

    /// Whether every component is smaller in size than one millionth.
    pub fn near_zero(self) -> (r: bool)
        ensures
            r == v3_near_zero(self@),
    {
        self.x.raw == 0 && self.y.raw == 0 && self.z.raw == 0
    }

    /// The mirror image of the vector at a surface with normal `n`.
    pub fn reflect(self, n: Vec3) -> (r: Vec3)
        ensures
            r@ == v3_reflect(self@, n@),
    {
        self - (Scalar { raw: 2 * ONE_RAW } * self.dot(n)) * n
    }

    /// The direction of the vector after it crosses a surface with normal `n`.
    pub fn refract(self, n: Vec3, etai_over_etat: Scalar) -> (r: Vec3)
        ensures
            r@ == v3_refract(self@, n@, etai_over_etat@),
    {
        let cos_theta: Scalar = self.neg().dot(n).min(Scalar { raw: ONE_RAW });
        let r_out_perp: Vec3 = etai_over_etat * (self + cos_theta * n);
        let rest: Scalar = Scalar { raw: ONE_RAW } - r_out_perp.length_squared();
        let r_out_parallel: Vec3 = rest.abs().sqrt().neg() * n;
        r_out_perp + r_out_parallel
    }

    /// The colour, summed over `samples_per_pixel` draws, as a line of the
    /// pixel map: red, green and blue as bytes in decimal.
    pub fn format_color(self, samples_per_pixel: u64) -> (s: String)
        ensures
            s@ == color_text(self@, samples_per_pixel as nat),
    {
        let mut s: String = String::new();
        push_decimal(&mut s, channel_byte_of(self.x, samples_per_pixel));
        s.append(" ");
        push_decimal(&mut s, channel_byte_of(self.y, samples_per_pixel));
        s.append(" ");
        push_decimal(&mut s, channel_byte_of(self.z, samples_per_pixel));
        proof {
            reveal_strlit(" ");
            assert(" "@ =~= seq![' ']);
            assert(s@ =~= color_text(self@, samples_per_pixel as nat));
        }
        s
    }

    /// Whether the vector lies strictly inside the sphere of radius one about the origin.
    pub fn in_unit_sphere(self) -> (r: bool)
        ensures
            r == v3_in_unit_sphere(self@),
    {
        self.length_squared().raw < ONE_RAW
    }

    /// A vector whose components are drawn independently, each at least `lo`
    /// and less than `hi`.
    pub fn random(lo: Scalar, hi: Scalar) -> (r: Vec3)
        requires
            lo@ < hi@,
        ensures
            v3_within(r@, lo@, hi@),
    {
        let x: Scalar = random_between(lo, hi);
        let y: Scalar = random_between(lo, hi);
        let z: Scalar = random_between(lo, hi);
        Vec3 { x, y, z }
    }

    /// A random point strictly inside the unit sphere, found by drawing from
    /// the enclosing cube until a draw falls inside. After `SPHERE_DRAWS`
    /// draws that all fell outside, the centre is returned.
    pub fn random_in_unit_sphere() -> (r: Vec3)
        ensures
            exists|draws: Seq<V3>| #[trigger]
                rejection_draws_ok(draws) && r@ == rejection_pick(draws),
            v3_in_unit_sphere(r@),
            v3_within(r@, -ONE_RAW, ONE_RAW as int),
    {
        let mut draws: u32 = 0;
        let ghost mut tried: Seq<V3> = Seq::empty();
        while draws < SPHERE_DRAWS
            invariant
                draws <= SPHERE_DRAWS,
                tried.len() == draws,
                forall|i: int|
                    0 <= i < tried.len() ==> v3_within(
                        #[trigger] tried[i],
                        -ONE_RAW,
                        ONE_RAW as int,
                    ) && !v3_in_unit_sphere(tried[i]),
            decreases SPHERE_DRAWS - draws,
        {
            let v: Vec3 = Vec3::random(Scalar { raw: -ONE_RAW }, Scalar { raw: ONE_RAW });
            proof {
                tried = tried.push(v@);
            }
            if v.in_unit_sphere() {
                assert(rejection_draws_ok(tried) && v@ == rejection_pick(tried));
                return v;
            }
            draws = draws + 1;
        }
        assert(rejection_draws_ok(tried) && rejection_pick(tried) == (V3 { x: 0, y: 0, z: 0 }));
        Vec3::from_raw(0, 0, 0)
    }

    /// A random direction: a random point inside the unit sphere, normalized.
    pub fn random_unit_vector() -> (r: Vec3)
        ensures
            exists|v: V3| #[trigger]
                v3_in_unit_sphere(v) && v3_within(v, -ONE_RAW, ONE_RAW as int) && r@ == v3_unit(v),
    {
        let v: Vec3 = Vec3::random_in_unit_sphere();
        v.normalized()
    }

    /// A random point inside the unit sphere, on the side of `normal`.
    pub fn random_in_hemisphere(normal: Vec3) -> (r: Vec3)
        ensures
            exists|v: V3| #[trigger]
                v3_in_unit_sphere(v) && v3_within(v, -ONE_RAW, ONE_RAW as int) && r@ == v3_facing(
                    v,
                    normal@,
                ),
    {
        let v: Vec3 = Vec3::random_in_unit_sphere();
        v.facing(normal)
    }

    /// The vector if it points to the side of `normal`, else its opposite.
    pub fn facing(self, normal: Vec3) -> (r: Vec3)
        ensures
            r@ == v3_facing(self@, normal@),
    {
        if self.dot(normal).raw > 0 {
            self
        } else {
            self.neg()
        }
    }
}

impl vstd::std_specs::ops::AddSpecImpl for Vec3 {
    open spec fn obeys_add_spec() -> bool {
        true
    }

    open spec fn add_req(self, rhs: Vec3) -> bool {
        true
    }

    open spec fn add_spec(self, rhs: Vec3) -> Vec3 {
        vec3_of(v3_add(self@, rhs@))
    }
}

impl core::ops::Add for Vec3 {
    type Output = Vec3;

    fn add(self, rhs: Vec3) -> (r: Vec3)
        ensures
            r@ == v3_add(self@, rhs@),
    {
        Vec3 { x: self.x + rhs.x, y: self.y + rhs.y, z: self.z + rhs.z }
    }
}

impl vstd::std_specs::ops::SubSpecImpl for Vec3 {
    open spec fn obeys_sub_spec() -> bool {
        true
    }

    open spec fn sub_req(self, rhs: Vec3) -> bool {
        true
    }

    open spec fn sub_spec(self, rhs: Vec3) -> Vec3 {
        vec3_of(v3_sub(self@, rhs@))
    }
}

impl core::ops::Sub for Vec3 {
    type Output = Vec3;

    fn sub(self, rhs: Vec3) -> (r: Vec3)
        ensures
            r@ == v3_sub(self@, rhs@),
    {
        Vec3 { x: self.x - rhs.x, y: self.y - rhs.y, z: self.z - rhs.z }
    }
}

impl vstd::std_specs::ops::NegSpecImpl for Vec3 {
    open spec fn obeys_neg_spec() -> bool {
        true
    }

    open spec fn neg_req(self) -> bool {
        true
    }

    open spec fn neg_spec(self) -> Vec3 {
        vec3_of(v3_neg(self@))
    }
}

impl core::ops::Neg for Vec3 {
    type Output = Vec3;

    fn neg(self) -> (r: Vec3)
        ensures
            r@ == v3_neg(self@),
    {
        Vec3 { x: self.x.neg(), y: self.y.neg(), z: self.z.neg() }
    }
}

impl vstd::std_specs::ops::MulSpecImpl<Scalar> for Vec3 {
    open spec fn obeys_mul_spec() -> bool {
        true
    }

    open spec fn mul_req(self, rhs: Scalar) -> bool {
        true
    }

    open spec fn mul_spec(self, rhs: Scalar) -> Vec3 {
        vec3_of(v3_scale(self@, rhs@))
    }
}

impl core::ops::Mul<Scalar> for Vec3 {
    type Output = Vec3;

    fn mul(self, rhs: Scalar) -> (r: Vec3)
        ensures
            r@ == v3_scale(self@, rhs@),
    {
        Vec3 { x: self.x * rhs, y: self.y * rhs, z: self.z * rhs }
    }
}

impl vstd::std_specs::ops::MulSpecImpl<Vec3> for Scalar {
    open spec fn obeys_mul_spec() -> bool {
        true
    }

    open spec fn mul_req(self, rhs: Vec3) -> bool {
        true
    }

    open spec fn mul_spec(self, rhs: Vec3) -> Vec3 {
        vec3_of(v3_scale(rhs@, self@))
    }
}

impl core::ops::Mul<Vec3> for Scalar {
    type Output = Vec3;

    fn mul(self, rhs: Vec3) -> (r: Vec3)
        ensures
            r@ == v3_scale(rhs@, self@),
    {
        Vec3 { x: rhs.x * self, y: rhs.y * self, z: rhs.z * self }
    }
}

impl vstd::std_specs::ops::MulSpecImpl for Vec3 {
    open spec fn obeys_mul_spec() -> bool {
        true
    }

    open spec fn mul_req(self, rhs: Vec3) -> bool {
        true
    }

    open spec fn mul_spec(self, rhs: Vec3) -> Vec3 {
        vec3_of(v3_mul(self@, rhs@))
    }
}

impl core::ops::Mul for Vec3 {
    type Output = Vec3;

    fn mul(self, rhs: Vec3) -> (r: Vec3)
        ensures
            r@ == v3_mul(self@, rhs@),
    {
        Vec3 { x: self.x * rhs.x, y: self.y * rhs.y, z: self.z * rhs.z }
    }
}

impl vstd::std_specs::ops::DivSpecImpl<Scalar> for Vec3 {
    open spec fn obeys_div_spec() -> bool {
        true
    }

    open spec fn div_req(self, rhs: Scalar) -> bool {
        true
    }

    open spec fn div_spec(self, rhs: Scalar) -> Vec3 {
        vec3_of(v3_div(self@, rhs@))
    }
}

impl core::ops::Div<Scalar> for Vec3 {
    type Output = Vec3;

    fn div(self, rhs: Scalar) -> (r: Vec3)
        ensures
            r@ == v3_div(self@, rhs@),
    {
        Vec3 { x: self.x / rhs, y: self.y / rhs, z: self.z / rhs }
    }
}

impl core::ops::AddAssign for Vec3 {
    fn add_assign(&mut self, rhs: Vec3)
        ensures
            final(self)@ == v3_add(old(self)@, rhs@),
    {
        *self = Vec3 { x: self.x + rhs.x, y: self.y + rhs.y, z: self.z + rhs.z };
    }
}

impl core::ops::SubAssign for Vec3 {
    fn sub_assign(&mut self, rhs: Vec3)
        ensures
            final(self)@ == v3_sub(old(self)@, rhs@),
    {
        *self = Vec3 { x: self.x - rhs.x, y: self.y - rhs.y, z: self.z - rhs.z };
    }
}

impl core::ops::MulAssign<Scalar> for Vec3 {
    fn mul_assign(&mut self, rhs: Scalar)
        ensures
            final(self)@ == v3_scale(old(self)@, rhs@),
    {
        *self = Vec3 { x: self.x * rhs, y: self.y * rhs, z: self.z * rhs };
    }
}

impl core::ops::DivAssign<Scalar> for Vec3 {
    fn div_assign(&mut self, rhs: Scalar)
        ensures
            final(self)@ == v3_div(old(self)@, rhs@),
    {
        *self = Vec3 { x: self.x / rhs, y: self.y / rhs, z: self.z / rhs };
    }
}

/// Whether the draws are such as rejection sampling from the cube about the
/// unit sphere makes: each has its components at least minus one and less
/// than one, every draw before the last lies outside the sphere, and there
/// are `SPHERE_DRAWS` of them unless the last one lies inside.
pub open spec fn rejection_draws_ok(draws: Seq<V3>) -> bool {
    &&& draws.len() <= SPHERE_DRAWS
    &&& forall|i: int|
        0 <= i < draws.len() ==> v3_within(#[trigger] draws[i], -ONE_RAW, ONE_RAW as int)
    &&& forall|i: int| 0 <= i < draws.len() - 1 ==> !v3_in_unit_sphere(#[trigger] draws[i])
    &&& draws.len() < SPHERE_DRAWS ==> draws.len() > 0 && v3_in_unit_sphere(draws.last())
}

/// What rejection sampling returns for the given draws: the last draw where
/// it lies inside the unit sphere, and the centre where every draw was
/// rejected.
pub open spec fn rejection_pick(draws: Seq<V3>) -> V3 {
    if draws.len() > 0 && v3_in_unit_sphere(draws.last()) {
        draws.last()
    } else {
        V3 { x: 0, y: 0, z: 0 }
    }
}

} // verus!
