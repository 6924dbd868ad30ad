//! Saturating fixed-point scalars.
//!
//! A [`Fixed`] holds a signed 64-bit raw value `r` that stands for the number
//! `r / 2^32`. Every operation returns the exact mathematical result, rounded
//! down to the nearest representable number and clamped to the representable
//! range. Nothing wraps and nothing panics: a result that is too large sticks
//! at the largest value, one that is too small at the smallest, and a division
//! by zero sticks at the end of the range that the dividend points to.
//!
//! The specification functions of this module work on raw values as
//! mathematical integers.
use vstd::arithmetic::div_mod::lemma_div_multiples_vanish;
use vstd::arithmetic::div_mod::lemma_fundamental_div_mod;
use vstd::arithmetic::div_mod::lemma_fundamental_div_mod_converse;
use vstd::prelude::*;

verus! {

/// Raw value of the number one.
pub const SCALE: i64 = 0x1_0000_0000;

/// Largest raw value.
pub const RAW_MAX: i64 = 0x7fff_ffff_ffff_ffff;

/// Smallest raw value.
pub const RAW_MIN: i64 = -0x8000_0000_0000_0000;

/// `v` clamped to the range of raw values.
pub open spec fn saturate(v: int) -> int {
    if v < RAW_MIN {
        RAW_MIN as int
    } else if v > RAW_MAX {
        RAW_MAX as int
    } else {
        v
    }
}

/// Whether `v` is a raw value, so that clamping leaves it alone.
pub open spec fn in_range(v: int) -> bool {
    RAW_MIN <= v <= RAW_MAX
}

/// Raw value of `a + b`.
pub open spec fn sum(a: int, b: int) -> int {
    saturate(a + b)
}

/// Raw value of `a - b`.
pub open spec fn difference(a: int, b: int) -> int {
    saturate(a - b)
}

/// Raw value of `-a`.
pub open spec fn negation(a: int) -> int {
    saturate(-a)
}

/// Raw value of `a * b`, rounded down, before clamping.
pub open spec fn scaled_product(a: int, b: int) -> int {
    (a * b) / (SCALE as int)
}

/// Raw value of `a * b`.
pub open spec fn product(a: int, b: int) -> int {
    saturate(scaled_product(a, b))
}

/// Raw value of `a * b + c`, rounded and clamped once.
pub open spec fn product_plus(a: int, b: int, c: int) -> int {
    saturate(scaled_product(a, b) + c)
}

/// Raw value of `a * b - c`, rounded and clamped once.
pub open spec fn product_minus(a: int, b: int, c: int) -> int {
    saturate(scaled_product(a, b) - c)
}

/// The largest integer not above `n / d`, for a divisor other than zero.
pub open spec fn floor_ratio(n: int, d: int) -> int {
    if d > 0 {
        n / d
    } else {
        (-n) / (-d)
    }
}

/// Raw value of `a / b`. A division by zero gives the largest value for a
/// positive dividend, the smallest for a negative one, and zero for zero.
pub open spec fn quotient(a: int, b: int) -> int {
    if b == 0 {
        if a > 0 {
            RAW_MAX as int
        } else if a < 0 {
            RAW_MIN as int
        } else {
            0
        }
    } else {
        saturate(floor_ratio(a * SCALE, b))
    }
}

/// Raw value of `1 / a`.
pub open spec fn reciprocal(a: int) -> int {
    quotient(SCALE as int, a)
}

/// Whether `r` is the integer square root of `n`: the largest integer whose
/// square is not above `n`.
pub open spec fn is_int_sqrt(n: int, r: int) -> bool {
    0 <= r && r * r <= n < (r + 1) * (r + 1)
}

/// The integer square root of `n`, for `n >= 0`.
pub open spec fn int_sqrt(n: int) -> int {
    choose|r: int| is_int_sqrt(n, r)
}

/// Raw value of the square root of `a`, rounded down. The root of a negative
/// number is zero.
pub open spec fn root(a: int) -> int {
    if a <= 0 {
        0
    } else {
        int_sqrt(a * SCALE)
    }
}

/// Every number from zero on has an integer square root.
pub proof fn lemma_int_sqrt_exists(n: int)
    requires
        n >= 0,
    ensures
        is_int_sqrt(n, int_sqrt(n)),
    decreases n,
{
    if n == 0 {
        assert(is_int_sqrt(0, 0));
    } else {
        lemma_int_sqrt_exists(n - 1);
        let r = int_sqrt(n - 1);
        if (r + 1) * (r + 1) <= n {
            assert((r + 2) * (r + 2) > (r + 1) * (r + 1)) by (nonlinear_arith)
                requires
                    r >= 0,
            ;
            assert(is_int_sqrt(n, r + 1));
        } else {
            assert(is_int_sqrt(n, r));
        }
    }
}

/// A number has one integer square root only.
pub proof fn lemma_int_sqrt_unique(n: int, r: int)
    requires
        is_int_sqrt(n, r),
    ensures
        int_sqrt(n) == r,
{
    let q = int_sqrt(n);
    assert(is_int_sqrt(n, q));
    if q < r {
        assert((q + 1) * (q + 1) <= r * r) by (nonlinear_arith)
            requires
                0 <= q,
                q + 1 <= r,
        ;
    } else if r < q {
        assert((r + 1) * (r + 1) <= q * q) by (nonlinear_arith)
            requires
                0 <= r,
                r + 1 <= q,
        ;
    }
}

/// The root of a positive number is the largest raw value whose square is
/// not above it: with `r` the root of `a`, `r^2 <= a * 2^32 < (r + 1)^2` in
/// raw values.
pub proof fn lemma_root_rounds_down(a: int)
    requires
        a > 0,
    ensures
        is_int_sqrt(a * SCALE, root(a)),
{
    assert(a * SCALE >= 0) by (nonlinear_arith)
        requires
            a > 0,
            SCALE == 0x1_0000_0000,
    ;
    lemma_int_sqrt_exists(a * SCALE);
}

/// Multiplying by one changes nothing.
pub proof fn lemma_product_with_one(a: int)
    requires
        in_range(a),
    ensures
        product(a, SCALE as int) == a,
        product(SCALE as int, a) == a,
{
    lemma_div_multiples_vanish(a, SCALE as int);
    assert(a * SCALE == SCALE * a) by (nonlinear_arith);
}

/// Multiplying by zero gives zero.
pub proof fn lemma_product_with_zero(a: int)
    ensures
        product(a, 0) == 0,
        product(0, a) == 0,
{
    assert(a * 0 == 0 && 0 * a == 0) by (nonlinear_arith);
}

/// Zero divided by anything is zero.
pub proof fn lemma_quotient_of_zero(b: int)
    ensures
        quotient(0, b) == 0,
{
    assert(0 * SCALE == 0);
    if b > 0 {
        assert(0int / b == 0);
    } else if b < 0 {
        assert(0int / (-b) == 0);
    }
}

/// `v` clamped to the range of raw values.
pub(crate) fn clamp(v: i128) -> (r: i64)
    ensures
        r == saturate(v as int),
{
    if v < RAW_MIN as i128 {
        RAW_MIN
    } else if v > RAW_MAX as i128 {
        RAW_MAX
    } else {
        v as i64
    }
}

/// Quotient and remainder of `n` by a positive divisor, the quotient rounded
/// down.
pub(crate) fn floor_div_rem(n: i128, d: i128) -> (qr: (i128, i128))
    requires
        d > 0,
    ensures
        qr.0 == (n as int) / (d as int),
        qr.1 == (n as int) % (d as int),
        n == qr.0 * d + qr.1,
        0 <= qr.1 < d,
{
    if n >= 0 {
        proof {
            lemma_fundamental_div_mod(n as int, d as int);
            assert((d as int) * ((n as int) / (d as int)) == ((n as int) / (d as int)) * (d as int))
                by (nonlinear_arith);
        }
        (n / d, n % d)
    } else {
        let m: i128 = -(n + 1);
        let k: i128 = m / d;
        let r: i128 = m % d;
        proof {
            lemma_fundamental_div_mod(m as int, d as int);
            assert((k as int) * (d as int) == (d as int) * (k as int)) by (nonlinear_arith);
            assert((n as int) == (-(k as int) - 1) * (d as int) + ((d as int) - 1 - (r as int)))
                by (nonlinear_arith)
                requires
                    (m as int) == (k as int) * (d as int) + (r as int),
                    (n as int) == -(m as int) - 1,
            ;
            lemma_fundamental_div_mod_converse(
                n as int,
                d as int,
                -(k as int) - 1,
                (d as int) - 1 - (r as int),
            );
        }
        (-k - 1, d - 1 - r)
    }
}

/// The largest integer not above `n / d`, for a positive divisor.
pub(crate) fn floor_div(n: i128, d: i128) -> (q: i128)
    requires
        d > 0,
    ensures
        q == (n as int) / (d as int),
{
    floor_div_rem(n, d).0
}

/// The ratio of a number, given by its sign and magnitude, to a positive
/// divisor, rounded down and clamped.
pub(crate) fn saturating_ratio(negative: bool, magnitude: u128, d: u128) -> (r: i64)
    requires
        d > 0,
    ensures
        r == saturate(
            if negative {
                (-(magnitude as int)) / (d as int)
            } else {
                (magnitude as int) / (d as int)
            },
        ),
{
    let q: u128 = magnitude / d;
    let rem: u128 = magnitude % d;
    proof {
        lemma_fundamental_div_mod(magnitude as int, d as int);
        assert((d as int) * (q as int) == (q as int) * (d as int)) by (nonlinear_arith);
    }
    if !negative {
        if q > RAW_MAX as u128 {
            RAW_MAX
        } else {
            q as i64
        }
    } else {
        let exact: bool = rem == 0;
        proof {
            if exact {
                assert(-(magnitude as int) == (-(q as int)) * (d as int) + 0) by (nonlinear_arith)
                    requires
                        (magnitude as int) == (q as int) * (d as int),
                ;
                lemma_fundamental_div_mod_converse(
                    -(magnitude as int),
                    d as int,
                    -(q as int),
                    0,
                );
            } else {
                assert(-(magnitude as int) == (-(q as int) - 1) * (d as int) + ((d as int) - (
                rem as int))) by (nonlinear_arith)
                    requires
                        (magnitude as int) == (q as int) * (d as int) + (rem as int),
                ;
                lemma_fundamental_div_mod_converse(
                    -(magnitude as int),
                    d as int,
                    -(q as int) - 1,
                    (d as int) - (rem as int),
                );
            }
        }
        if q >= 0x8000_0000_0000_0000 {
            RAW_MIN
        } else if exact {
            -(q as i64)
        } else {
            -(q as i64) - 1
        }
    }
}

/// The magnitude of `a`.
pub(crate) fn magnitude(a: i64) -> (r: u128)
    ensures
        r == if a < 0 {
            -(a as int)
        } else {
            a as int
        },
        r <= 0x8000_0000_0000_0000,
{
    let wide: i128 = a as i128;
    if wide < 0 {
        (-wide) as u128
    } else {
        wide as u128
    }
}

/// The integer square root of `n`, found by bisection.
pub(crate) fn isqrt(n: u128) -> (r: u64)
    requires
        n < 0x1_0000_0000_0000_0000_0000_0000,
    ensures
        is_int_sqrt(n as int, r as int),
        r as int == int_sqrt(n as int),
{
    let mut lo: u64 = 0;
    let mut hi: u64 = 0x1_0000_0000_0000;
    assert(0x1_0000_0000_0000int * 0x1_0000_0000_0000int == 0x1_0000_0000_0000_0000_0000_0000int)
        by (nonlinear_arith);
    while hi - lo > 1
        invariant
            lo < hi <= 0x1_0000_0000_0000,
            (lo as int) * (lo as int) <= n,
            n < (hi as int) * (hi as int),
        decreases hi - lo,
    {
        let mid: u64 = lo + (hi - lo) / 2;
        assert((mid as int) * (mid as int) < 0x1_0000_0000_0000_0000_0000_0000int)
            by (nonlinear_arith)
            requires
                0 <= mid < 0x1_0000_0000_0000,
        ;
        let sq: u128 = (mid as u128) * (mid as u128);
        if sq <= n {
            lo = mid;
        } else {
            hi = mid;
        }
    }
    proof {
        lemma_int_sqrt_unique(n as int, lo as int);
    }
    lo
}

/// A fixed-point number: the raw value `raw` stands for `raw / 2^32`.
#[derive(Clone, Copy, Debug, PartialEq, Eq, Structural)]
pub struct Fixed {
    /// The raw value.
    pub raw: i64,
}

impl View for Fixed {
    type V = int;

    /// The raw value as a mathematical integer.
    open spec fn view(&self) -> int {
        self.raw as int
    }
}

impl Fixed {
    /// The number with the given raw value.
    pub fn from_raw(raw: i64) -> (r: Fixed)
        ensures
            r@ == raw,
    {
        Fixed { raw }
    }

    /// The raw value.
    pub fn raw(self) -> (r: i64)
        ensures
            r == self@,
    {
        self.raw
    }

    /// The whole number `n`.
    pub fn from_int(n: i32) -> (r: Fixed)
        ensures
            r@ == n * SCALE,
    {
        let wide: i64 = n as i64;
        assert(in_range(n * SCALE)) by (nonlinear_arith)
            requires
                -0x8000_0000 <= n <= 0x7fff_ffff,
                SCALE == 0x1_0000_0000,
        ;
        Fixed { raw: wide * SCALE }
    }

    /// Zero.
    pub fn zero() -> (r: Fixed)
        ensures
            r@ == 0,
    {
        Fixed { raw: 0 }
    }

    /// One.
    pub fn one() -> (r: Fixed)
        ensures
            r@ == SCALE,
    {
        Fixed { raw: SCALE }
    }

    /// `self + rhs`.
    pub fn add(self, rhs: Fixed) -> (r: Fixed)
        ensures
            r@ == sum(self@, rhs@),
    {
        let wide: i128 = self.raw as i128 + rhs.raw as i128;
        Fixed { raw: clamp(wide) }
    }

    /// `self - rhs`.
    pub fn sub(self, rhs: Fixed) -> (r: Fixed)
        ensures
            r@ == difference(self@, rhs@),
    {
        let wide: i128 = self.raw as i128 - rhs.raw as i128;
        Fixed { raw: clamp(wide) }
    }

    /// `-self`.
    pub fn neg(self) -> (r: Fixed)
        ensures
            r@ == negation(self@),
    {
        let wide: i128 = -(self.raw as i128);
        Fixed { raw: clamp(wide) }
    }

    /// `self * rhs`, rounded down.
    pub fn mul(self, rhs: Fixed) -> (r: Fixed)
        ensures
            r@ == product(self@, rhs@),
    {
        Fixed { raw: clamp(wide_product(self.raw, rhs.raw)) }
    }

    /// `self * factor + addend`, rounded and clamped once.
    pub fn mul_add(self, factor: Fixed, addend: Fixed) -> (r: Fixed)
        ensures
            r@ == product_plus(self@, factor@, addend@),
    {
        let wide: i128 = wide_product(self.raw, factor.raw) + addend.raw as i128;
        Fixed { raw: clamp(wide) }
    }

    /// `self * factor - subtrahend`, rounded and clamped once.
    pub fn mul_sub(self, factor: Fixed, subtrahend: Fixed) -> (r: Fixed)
        ensures
            r@ == product_minus(self@, factor@, subtrahend@),
    {
        let wide: i128 = wide_product(self.raw, factor.raw) - subtrahend.raw as i128;
        Fixed { raw: clamp(wide) }
    }

    /// `self / rhs`, rounded down. A division by zero sticks at the end of the
    /// range that `self` points to.
    pub fn div(self, rhs: Fixed) -> (r: Fixed)
        ensures
            r@ == quotient(self@, rhs@),
    {
        if rhs.raw == 0 {
            if self.raw > 0 {
                Fixed { raw: RAW_MAX }
            } else if self.raw < 0 {
                Fixed { raw: RAW_MIN }
            } else {
                Fixed { raw: 0 }
            }
        } else {
            assert(in_wide_range(self.raw * SCALE)) by (nonlinear_arith)
                requires
                    RAW_MIN <= self.raw <= RAW_MAX,
                    SCALE == 0x1_0000_0000,
                    RAW_MIN == -0x8000_0000_0000_0000,
                    RAW_MAX == 0x7fff_ffff_ffff_ffff,
            ;
            let n: i128 = (self.raw as i128) * (SCALE as i128);
            let d: i128 = rhs.raw as i128;
            if d > 0 {
                Fixed { raw: clamp(floor_div(n, d)) }
            } else {
                Fixed { raw: clamp(floor_div(-n, -d)) }
            }
        }
    }

    /// `1 / self`, rounded down.
    pub fn recip(self) -> (r: Fixed)
        ensures
            r@ == reciprocal(self@),
    {
        Fixed::one().div(self)
    }

    /// The square root of `self`, rounded down; zero for a negative number.
    pub fn sqrt(self) -> (r: Fixed)
        ensures
            r@ == root(self@),
    {
        if self.raw <= 0 {
            Fixed { raw: 0 }
        } else {
            assert(0 < self.raw * SCALE < 0x8000_0000_0000_0000_0000_0000int)
                by (nonlinear_arith)
                requires
                    0 < self.raw <= RAW_MAX,
                    SCALE == 0x1_0000_0000,
                    RAW_MAX == 0x7fff_ffff_ffff_ffff,
            ;
            let n: u128 = (self.raw as u128) * (SCALE as u128);
            let r: u64 = isqrt(n);
            assert(r < 0x1_0000_0000_0000) by (nonlinear_arith)
                requires
                    0 <= r,
                    (r as int) * (r as int) <= n,
                    n < 0x8000_0000_0000_0000_0000_0000int,
            ;
            Fixed { raw: r as i64 }
        }
    }
}

/// Whether `v` is far enough inside the 128-bit range for the sums that
/// follow a widening product.
pub open spec fn in_wide_range(v: int) -> bool {
    -0x4000_0000_0000_0000_0000_0000_0000_0000 <= v <= 0x4000_0000_0000_0000_0000_0000_0000_0000
}

/// `a * b` over `2^32` in 128 bits: the quotient, rounded down, and the
/// remainder.
pub(crate) fn wide_product_parts(a: i64, b: i64) -> (qr: (i128, i128))
    ensures
        qr.0 == scaled_product(a as int, b as int),
        a * b == qr.0 * SCALE + qr.1,
        0 <= qr.1 < SCALE,
        -0x4000_0000_0000_0000_0000_0000 <= qr.0 <= 0x4000_0000_0000_0000_0000_0000,
{
    assert(in_wide_range(a * b)) by (nonlinear_arith)
        requires
            -0x8000_0000_0000_0000 <= a <= 0x7fff_ffff_ffff_ffff,
            -0x8000_0000_0000_0000 <= b <= 0x7fff_ffff_ffff_ffff,
    ;
    let p: i128 = (a as i128) * (b as i128);
    floor_div_rem(p, SCALE as i128)
}

/// `a * b` over `2^32`, rounded down, in 128 bits.
pub(crate) fn wide_product(a: i64, b: i64) -> (r: i128)
    ensures
        r == scaled_product(a as int, b as int),
        -0x4000_0000_0000_0000_0000_0000 <= r <= 0x4000_0000_0000_0000_0000_0000,
{
    wide_product_parts(a, b).0
}

} // verus!
