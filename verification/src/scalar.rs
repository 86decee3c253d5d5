//! Saturating fixed-point numbers with six decimal places.
//!
//! A [`Scalar`] holds a signed count of millionths. Sums, products and
//! quotients are computed exactly, rounded towards zero and then brought into
//! the range `-MAX_RAW ..= MAX_RAW`, so no operation overflows and none has a
//! precondition. A quotient by zero saturates by the sign of the dividend, and
//! the square root of a negative number is zero.
use vstd::prelude::*;

verus! {

/// The raw value of the number one.
pub const ONE_RAW: i64 = 1_000_000;

/// The largest raw value that an operation returns; the smallest is its negation.
pub const MAX_RAW: i64 = 0x7fff_ffff_ffff_ffff;

/// `x` brought into the range of raw values.
pub open spec fn sat(x: int) -> int {
    if x > MAX_RAW {
        MAX_RAW as int
    } else if x < -MAX_RAW {
        -MAX_RAW
    } else {
        x
    }
}

/// The quotient of `n` by `d`, rounded towards zero.
pub open spec fn tdiv(n: int, d: int) -> int
    recommends
        d != 0,
{
    if d > 0 {
        if n >= 0 {
            n / d
        } else {
            -((-n) / d)
        }
    } else {
        if n >= 0 {
            -(n / (-d))
        } else {
            (-n) / (-d)
        }
    }
}

/// Whether `r` is the integer square root of `n`.
pub open spec fn is_floor_sqrt(n: int, r: int) -> bool {
    0 <= r && r * r <= n && n < (r + 1) * (r + 1)
}

/// The integer square root of `n`: the largest `r` with `r * r <= n`.
pub open spec fn floor_sqrt(n: int) -> int
    recommends
        n >= 0,
{
    choose|r: int| is_floor_sqrt(n, r)
}

/// The raw value of a sum.
pub open spec fn add_raw(a: int, b: int) -> int {
    sat(a + b)
}

/// The raw value of a difference.
pub open spec fn sub_raw(a: int, b: int) -> int {
    sat(a - b)
}

/// The raw value of a negation.
pub open spec fn neg_raw(a: int) -> int {
    sat(-a)
}

/// The raw value of an absolute value.
pub open spec fn abs_raw(a: int) -> int {
    if a < 0 {
        sat(-a)
    } else {
        sat(a)
    }
}

/// The raw value of a product.
pub open spec fn mul_raw(a: int, b: int) -> int {
    sat(tdiv(a * b, ONE_RAW as int))
}

/// The raw value of a quotient.
pub open spec fn div_raw(a: int, b: int) -> int {
    if b == 0 {
        if a > 0 {
            MAX_RAW as int
        } else if a < 0 {
            -MAX_RAW
        } else {
            0
        }
    } else {
        sat(tdiv(a * ONE_RAW, b))
    }
}

/// The raw value of a square root.
pub open spec fn sqrt_raw(a: int) -> int {
    if a <= 0 {
        0
    } else {
        floor_sqrt(a * ONE_RAW)
    }
}

/// The smaller of two raw values.
pub open spec fn min_raw(a: int, b: int) -> int {
    if a <= b {
        a
    } else {
        b
    }
}

/// The larger of two raw values.
pub open spec fn max_raw(a: int, b: int) -> int {
    if a >= b {
        a
    } else {
        b
    }
}

/// `a` held between `lo` and `hi`; `lo` wins where the two cross.
pub open spec fn clamp_raw(a: int, lo: int, hi: int) -> int {
    max_raw(lo, min_raw(a, hi))
}

/// An integer square root is unique, so `floor_sqrt` names it.
pub proof fn lemma_floor_sqrt_unique(n: int, r: int)
    requires
        is_floor_sqrt(n, r),
    ensures
        floor_sqrt(n) == r,
{
    let s = floor_sqrt(n);
    assert(is_floor_sqrt(n, s));
    assert(s == r) by (nonlinear_arith)
        requires
            0 <= r,
            r * r <= n,
            n < (r + 1) * (r + 1),
            0 <= s,
            s * s <= n,
            n < (s + 1) * (s + 1),
    ;
}

/// Every number that is not negative has an integer square root.
pub proof fn lemma_floor_sqrt_exists(n: int)
    requires
        n >= 0,
    ensures
        is_floor_sqrt(n, floor_sqrt(n)),
    decreases n,
{
    if n == 0 {
        assert(is_floor_sqrt(0, 0));
    } else {
        lemma_floor_sqrt_exists(n - 1);
        let r = floor_sqrt(n - 1);
        if n < (r + 1) * (r + 1) {
            assert(is_floor_sqrt(n, r));
        } else {
            assert(is_floor_sqrt(n, r + 1)) by (nonlinear_arith)
                requires
                    0 <= r,
                    n - 1 < (r + 1) * (r + 1),
                    n >= (r + 1) * (r + 1),
            ;
        }
    }
}

/// A square root is never negative, and it is zero only of zero.
pub proof fn lemma_sqrt_raw_sign(a: int)
    ensures
        sqrt_raw(a) >= 0,
        a > 0 ==> sqrt_raw(a) > 0,
{
    if a > 0 {
        lemma_floor_sqrt_exists(a * ONE_RAW);
        let r = floor_sqrt(a * ONE_RAW);
        assert(r > 0) by (nonlinear_arith)
            requires
                a > 0,
                0 <= r,
                a * 1_000_000 < (r + 1) * (r + 1),
        ;
    }
}

/// Rounding towards zero commutes with negation.
pub proof fn lemma_tdiv_neg(n: int, d: int)
    requires
        d != 0,
    ensures
        tdiv(-n, d) == -tdiv(n, d),
{
    if n == 0 {
        if d > 0 {
            assert(0int / d == 0) by (nonlinear_arith)
                requires
                    d > 0,
            ;
        } else {
            assert(0int / (-d) == 0) by (nonlinear_arith)
                requires
                    d < 0,
            ;
        }
    }
}

/// A quotient rounded towards zero is no larger in size than the dividend.
pub proof fn lemma_tdiv_bound(n: int, d: int)
    requires
        d != 0,
    ensures
        n >= 0 ==> -n <= tdiv(n, d) <= n,
        n <= 0 ==> n <= tdiv(n, d) <= -n,
{
    let m = if n >= 0 { n } else { -n };
    let e = if d > 0 { d } else { -d };
    assert(0 <= m / e <= m) by (nonlinear_arith)
        requires
            m >= 0,
            e > 0,
    ;
}

/// For a positive divisor, rounding towards zero keeps the order of the dividends.
pub proof fn lemma_tdiv_monotone(m: int, n: int, d: int)
    requires
        d > 0,
        m <= n,
    ensures
        tdiv(m, d) <= tdiv(n, d),
{
    if m >= 0 {
        assert(m / d <= n / d) by (nonlinear_arith)
            requires
                d > 0,
                0 <= m <= n,
        ;
    } else if n >= 0 {
        assert(0 <= (-m) / d) by (nonlinear_arith)
            requires
                d > 0,
                -m >= 0,
        ;
        assert(0 <= n / d) by (nonlinear_arith)
            requires
                d > 0,
                n >= 0,
        ;
    } else {
        assert((-n) / d <= (-m) / d) by (nonlinear_arith)
            requires
                d > 0,
                0 <= -n <= -m,
        ;
    }
}

/// A product changes sign with either factor.
pub proof fn lemma_mul_raw_neg(a: int, b: int)
    ensures
        mul_raw(a, -b) == -mul_raw(a, b),
        mul_raw(-a, b) == -mul_raw(a, b),
{
    assert(a * (-b) == -(a * b) && (-a) * b == -(a * b)) by (nonlinear_arith);
    lemma_tdiv_neg(a * b, ONE_RAW as int);
}

/// A product with zero is zero, and a product with one is the other factor.
pub proof fn lemma_mul_raw_unit(a: int)
    ensures
        mul_raw(a, 0) == 0,
        mul_raw(0, a) == 0,
        mul_raw(a, ONE_RAW as int) == sat(a),
        mul_raw(ONE_RAW as int, a) == sat(a),
{
    assert(a * 0 == 0 && 0 * a == 0) by (nonlinear_arith);
    assert(ONE_RAW * a == a * ONE_RAW) by (nonlinear_arith);
    lemma_tdiv_exact(a, ONE_RAW as int);
}

/// The product of two numbers between zero and one lies between zero and one.
pub proof fn lemma_mul_raw_fraction(a: int, b: int)
    requires
        0 <= a <= ONE_RAW,
        0 <= b <= ONE_RAW,
    ensures
        0 <= mul_raw(a, b) <= ONE_RAW,
        mul_raw(a, b) <= a,
        mul_raw(a, b) <= b,
{
    assert(0 <= a * b <= a * ONE_RAW && a * b <= b * ONE_RAW) by (nonlinear_arith)
        requires
            0 <= a <= ONE_RAW,
            0 <= b <= ONE_RAW,
    {
    }
    lemma_tdiv_monotone(a * b, a * ONE_RAW, ONE_RAW as int);
    lemma_tdiv_monotone(a * b, b * ONE_RAW, ONE_RAW as int);
    lemma_tdiv_exact(a, ONE_RAW as int);
    lemma_tdiv_exact(b, ONE_RAW as int);
}

/// A square is never negative.
pub proof fn lemma_mul_raw_square(a: int)
    ensures
        mul_raw(a, a) >= 0,
{
    assert(a * a >= 0) by (nonlinear_arith);
    lemma_tdiv_bound(a * a, ONE_RAW as int);
}

/// For a divisor that is not negative, a quotient keeps the order of the dividends.
pub proof fn lemma_div_raw_monotone(a: int, b: int, d: int)
    requires
        a <= b,
        d >= 0,
    ensures
        div_raw(a, d) <= div_raw(b, d),
{
    if d > 0 {
        lemma_tdiv_monotone(a * ONE_RAW, b * ONE_RAW, d);
    }
}

/// A multiple of the divisor is divided exactly.
pub proof fn lemma_tdiv_exact(q: int, d: int)
    requires
        d > 0,
    ensures
        tdiv(q * d, d) == q,
{
    if q >= 0 {
        assert((q * d) / d == q && q * d >= 0) by (nonlinear_arith)
            requires
                d > 0,
                q >= 0,
        ;
    } else {
        assert((-(q * d)) / d == -q && q * d < 0) by (nonlinear_arith)
            requires
                d > 0,
                q < 0,
        ;
    }
}

/// A fixed-point number: `raw` millionths.
#[derive(Clone, Copy, Debug, PartialEq, Eq, PartialOrd, Ord, Structural)]
pub struct Scalar {
    pub raw: i64,
}

impl View for Scalar {
    type V = int;

    open spec fn view(&self) -> int {
        self.raw as int
    }
}

/// `x` as a raw value; meant for `x` within the range of `i64`.
pub open spec fn scalar_of(x: int) -> Scalar {
    Scalar { raw: x as i64 }
}

/// `x` brought into the range of raw values.
pub fn narrow(x: i128) -> (r: i64)
    ensures
        r == sat(x as int),
{
    if x > MAX_RAW as i128 {
        MAX_RAW
    } else if x < -(MAX_RAW as i128) {
        -MAX_RAW
    } else {
        x as i64
    }
}

/// The quotient of `n` by `d`, rounded towards zero.
pub(crate) fn tdiv_exec(n: i128, d: i128) -> (q: i128)
    requires
        d != 0,
        n > i128::MIN,
        d > i128::MIN,
    ensures
        q == tdiv(n as int, d as int),
{
    let m: i128 = if n >= 0 { n } else { -n };
    let e: i128 = if d > 0 { d } else { -d };
    proof {
        lemma_tdiv_bound(n as int, d as int);
    }
    let q: i128 = m / e;
    if (n >= 0) == (d > 0) {
        q
    } else {
        -q
    }
}

/// The integer square root of `n`.
pub fn floor_sqrt_exec(n: u128) -> (r: u64)
    ensures
        is_floor_sqrt(n as int, r as int),
        r == floor_sqrt(n as int),
{
    let mut lo: u128 = 0;
    let mut hi: u128 = 0x1_0000_0000_0000_0000;
    assert(hi * hi > n) by (nonlinear_arith)
        requires
            hi == 0x1_0000_0000_0000_0000,
            n <= 0xffff_ffff_ffff_ffff_ffff_ffff_ffff_ffff,
    ;
    while hi - lo > 1
        invariant
            lo < hi <= 0x1_0000_0000_0000_0000,
            lo * lo <= n < hi * hi,
        decreases hi - lo,
    {
        let mid: u128 = lo + (hi - lo) / 2;
        assert(mid * mid <= 0xffff_ffff_ffff_ffff_ffff_ffff_ffff_ffff) by (nonlinear_arith)
            requires
                0 <= mid < 0x1_0000_0000_0000_0000,
        ;
        if mid * mid <= n {
            lo = mid;
        } else {
            hi = mid;
        }
    }
    proof {
        assert(hi == lo + 1);
        lemma_floor_sqrt_unique(n as int, lo as int);
    }
    lo as u64
}

impl Scalar {
    /// The number with the given count of millionths.
    pub fn from_raw(raw: i64) -> (r: Scalar)
        ensures
            r@ == raw,
    {
        Scalar { raw }
    }

    /// The whole number `n`.
    pub fn from_int(n: i64) -> (r: Scalar)
        ensures
            r@ == sat(n * ONE_RAW),
    {
        Scalar { raw: narrow(n as i128 * ONE_RAW as i128) }
    }

    /// The count of millionths.
    pub fn raw(self) -> (r: i64)
        ensures
            r == self@,
    {
        self.raw
    }

    /// The number zero.
    pub fn zero() -> (r: Scalar)
        ensures
            r@ == 0,
    {
        Scalar { raw: 0 }
    }

    /// The number one.
    pub fn one() -> (r: Scalar)
        ensures
            r@ == ONE_RAW,
    {
        Scalar { raw: ONE_RAW }
    }

    /// The largest number.
    pub fn max_value() -> (r: Scalar)
        ensures
            r@ == MAX_RAW,
    {
        Scalar { raw: MAX_RAW }
    }

    /// The absolute value.
    pub fn abs(self) -> (r: Scalar)
        ensures
            r@ == abs_raw(self@),
    {
        let a: i128 = self.raw as i128;
        if a < 0 {
            Scalar { raw: narrow(-a) }
        } else {
            Scalar { raw: narrow(a) }
        }
    }

    /// The square root, rounded down; zero for a negative number.
    pub fn sqrt(self) -> (r: Scalar)
        ensures
            r@ == sqrt_raw(self@),
            self@ > 0 ==> is_floor_sqrt(self@ * ONE_RAW, r@),
    {
        if self.raw <= 0 {
            Scalar { raw: 0 }
        } else {
            let n: u128 = self.raw as u128 * (ONE_RAW as u128);
            let root: u64 = floor_sqrt_exec(n);
            assert(root < 0x4000_0000_0000_0000) by (nonlinear_arith)
                requires
                    0 <= root,
                    root * root <= n,
                    n <= 0x7fff_ffff_ffff_ffff * 1_000_000,
            ;
            Scalar { raw: root as i64 }
        }
    }

    /// The smaller of two numbers.
    pub fn min(self, other: Scalar) -> (r: Scalar)
        ensures
            r@ == min_raw(self@, other@),
    {
        if self.raw <= other.raw {
            self
        } else {
            other
        }
    }

    /// The larger of two numbers.
    pub fn max(self, other: Scalar) -> (r: Scalar)
        ensures
            r@ == max_raw(self@, other@),
    {
        if self.raw >= other.raw {
            self
        } else {
            other
        }
    }

    /// The number held between `lo` and `hi`.
    pub fn clamp(self, lo: Scalar, hi: Scalar) -> (r: Scalar)
        ensures
            r@ == clamp_raw(self@, lo@, hi@),
    {
        lo.max(self.min(hi))
    }
}

impl vstd::std_specs::ops::AddSpecImpl for Scalar {
    open spec fn obeys_add_spec() -> bool {
        true
    }

    open spec fn add_req(self, rhs: Scalar) -> bool {
        true
    }

    open spec fn add_spec(self, rhs: Scalar) -> Scalar {
        scalar_of(add_raw(self@, rhs@))
    }
}

impl core::ops::Add for Scalar {
    type Output = Scalar;

    fn add(self, rhs: Scalar) -> (r: Scalar)
        ensures
            r@ == add_raw(self@, rhs@),
    {
        Scalar { raw: narrow(self.raw as i128 + rhs.raw as i128) }
    }
}

impl vstd::std_specs::ops::SubSpecImpl for Scalar {
    open spec fn obeys_sub_spec() -> bool {
        true
    }

    open spec fn sub_req(self, rhs: Scalar) -> bool {
        true
    }

    open spec fn sub_spec(self, rhs: Scalar) -> Scalar {
        scalar_of(sub_raw(self@, rhs@))
    }
}

impl core::ops::Sub for Scalar {
    type Output = Scalar;

    fn sub(self, rhs: Scalar) -> (r: Scalar)
        ensures
            r@ == sub_raw(self@, rhs@),
    {
        Scalar { raw: narrow(self.raw as i128 - rhs.raw as i128) }
    }
}

impl vstd::std_specs::ops::NegSpecImpl for Scalar {
    open spec fn obeys_neg_spec() -> bool {
        true
    }

    open spec fn neg_req(self) -> bool {
        true
    }

    open spec fn neg_spec(self) -> Scalar {
        scalar_of(neg_raw(self@))
    }
}

impl core::ops::Neg for Scalar {
    type Output = Scalar;

    fn neg(self) -> (r: Scalar)
        ensures
            r@ == neg_raw(self@),
    {
        Scalar { raw: narrow(-(self.raw as i128)) }
    }
}

impl vstd::std_specs::ops::MulSpecImpl for Scalar {
    open spec fn obeys_mul_spec() -> bool {
        true
    }

    open spec fn mul_req(self, rhs: Scalar) -> bool {
        true
    }

    open spec fn mul_spec(self, rhs: Scalar) -> Scalar {
        scalar_of(mul_raw(self@, rhs@))
    }
}

impl core::ops::Mul for Scalar {
    type Output = Scalar;

    fn mul(self, rhs: Scalar) -> (r: Scalar)
        ensures
            r@ == mul_raw(self@, rhs@),
    {
        let a: i128 = self.raw as i128;
        let b: i128 = rhs.raw as i128;
        assert(-0x4000_0000_0000_0000_0000_0000_0000_0000 <= a * b
            <= 0x4000_0000_0000_0000_0000_0000_0000_0000) by (nonlinear_arith)
            requires
                -0x8000_0000_0000_0000 <= a <= 0x7fff_ffff_ffff_ffff,
                -0x8000_0000_0000_0000 <= b <= 0x7fff_ffff_ffff_ffff,
        ;
        Scalar { raw: narrow(tdiv_exec(a * b, ONE_RAW as i128)) }
    }
}

impl vstd::std_specs::ops::DivSpecImpl for Scalar {
    open spec fn obeys_div_spec() -> bool {
        true
    }

    open spec fn div_req(self, rhs: Scalar) -> bool {
        true
    }

    open spec fn div_spec(self, rhs: Scalar) -> Scalar {
        scalar_of(div_raw(self@, rhs@))
    }
}

impl core::ops::Div for Scalar {
    type Output = Scalar;

    fn div(self, rhs: Scalar) -> (r: Scalar)
        ensures
            r@ == div_raw(self@, rhs@),
    {
        if rhs.raw == 0 {
            if self.raw > 0 {
                Scalar { raw: MAX_RAW }
            } else if self.raw < 0 {
                Scalar { raw: -MAX_RAW }
            } else {
                Scalar { raw: 0 }
            }
        } else {
            let n: i128 = self.raw as i128 * ONE_RAW as i128;
            Scalar { raw: narrow(tdiv_exec(n, rhs.raw as i128)) }
        }
    }
}

} // verus!
