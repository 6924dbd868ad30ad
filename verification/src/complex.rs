//! Complex numbers in fixed point, for evaluating transfer functions.
//!
//! Sums, differences and scalings work on the two parts one by one.
//! [`Complex::mul`] and [`Complex::recip`] round and clamp each part of the
//! exact result once.
use crate::fixed;
use crate::fixed::Fixed;
use vstd::arithmetic::div_mod::lemma_fundamental_div_mod_converse;
use vstd::prelude::*;

verus! {

/// A complex number as the raw values of its two parts.
pub struct Cx {
    /// Raw value of the real part.
    pub re: int,
    /// Raw value of the imaginary part.
    pub im: int,
}

/// `a + b`.
pub open spec fn sum(a: Cx, b: Cx) -> Cx {
    Cx { re: fixed::sum(a.re, b.re), im: fixed::sum(a.im, b.im) }
}

/// `a - b`.
pub open spec fn difference(a: Cx, b: Cx) -> Cx {
    Cx { re: fixed::difference(a.re, b.re), im: fixed::difference(a.im, b.im) }
}

/// `-a`.
pub open spec fn negation(a: Cx) -> Cx {
    Cx { re: fixed::negation(a.re), im: fixed::negation(a.im) }
}

/// `a + t` for a real `t`.
pub open spec fn plus_real(a: Cx, t: int) -> Cx {
    Cx { re: fixed::sum(a.re, t), im: a.im }
}

/// `a * t` for a real `t`.
pub open spec fn scaled(a: Cx, t: int) -> Cx {
    Cx { re: fixed::product(a.re, t), im: fixed::product(a.im, t) }
}

/// `a / t` for a real `t`.
pub open spec fn unscaled(a: Cx, t: int) -> Cx {
    Cx { re: fixed::quotient(a.re, t), im: fixed::quotient(a.im, t) }
}

/// `a * b`: the parts of the exact product, each rounded down and clamped.
pub open spec fn product(a: Cx, b: Cx) -> Cx {
    Cx {
        re: fixed::saturate((a.re * b.re - a.im * b.im) / (fixed::SCALE as int)),
        im: fixed::saturate((a.re * b.im + a.im * b.re) / (fixed::SCALE as int)),
    }
}

/// The square of the absolute value of `a`, in squared raw units.
pub open spec fn norm_sqr(a: Cx) -> int {
    a.re * a.re + a.im * a.im
}

/// `1 / a`: the parts of the exact reciprocal, the conjugate over the square
/// of the absolute value, each rounded down and clamped. The reciprocal of
/// zero is the largest real number.
pub open spec fn reciprocal(a: Cx) -> Cx {
    if norm_sqr(a) == 0 {
        Cx { re: fixed::RAW_MAX as int, im: 0 }
    } else {
        Cx {
            re: fixed::saturate((a.re * fixed::SCALE * fixed::SCALE) / norm_sqr(a)),
            im: fixed::saturate(((-a.im) * fixed::SCALE * fixed::SCALE) / norm_sqr(a)),
        }
    }
}

/// `a / b`, as `a` times the reciprocal of `b`.
pub open spec fn quotient(a: Cx, b: Cx) -> Cx {
    product(a, reciprocal(b))
}

/// A complex number with fixed-point parts.
#[derive(Clone, Copy, Debug, PartialEq, Eq, Structural)]
pub struct Complex {
    /// The real part.
    pub re: Fixed,
    /// The imaginary part.
    pub im: Fixed,
}

impl View for Complex {
    type V = Cx;

    /// The raw values of the two parts.
    open spec fn view(&self) -> Cx {
        Cx { re: self.re@, im: self.im@ }
    }
}

impl Complex {
    /// The number `re + i * im`.
    pub fn new(re: Fixed, im: Fixed) -> (r: Complex)
        ensures
            r@ == (Cx { re: re@, im: im@ }),
    {
        Complex { re, im }
    }

    /// The number one.
    pub fn one() -> (r: Complex)
        ensures
            r@ == (Cx { re: fixed::SCALE as int, im: 0 }),
    {
        Complex { re: Fixed::one(), im: Fixed::zero() }
    }

    /// `self + rhs`.
    pub fn add(self, rhs: Complex) -> (r: Complex)
        ensures
            r@ == sum(self@, rhs@),
    {
        Complex { re: self.re.add(rhs.re), im: self.im.add(rhs.im) }
    }

    /// `self - rhs`.
    pub fn sub(self, rhs: Complex) -> (r: Complex)
        ensures
            r@ == difference(self@, rhs@),
    {
        Complex { re: self.re.sub(rhs.re), im: self.im.sub(rhs.im) }
    }

    /// `-self`.
    pub fn neg(self) -> (r: Complex)
        ensures
            r@ == negation(self@),
    {
        Complex { re: self.re.neg(), im: self.im.neg() }
    }

    /// `self + t` for a real `t`.
    pub fn add_real(self, t: Fixed) -> (r: Complex)
        ensures
            r@ == plus_real(self@, t@),
    {
        Complex { re: self.re.add(t), im: self.im }
    }

    /// `self * t` for a real `t`.
    pub fn scale(self, t: Fixed) -> (r: Complex)
        ensures
            r@ == scaled(self@, t@),
    {
        Complex { re: self.re.mul(t), im: self.im.mul(t) }
    }

    /// `self / t` for a real `t`.
    pub fn unscale(self, t: Fixed) -> (r: Complex)
        ensures
            r@ == unscaled(self@, t@),
    {
        Complex { re: self.re.div(t), im: self.im.div(t) }
    }

    /// `self * rhs`.
    pub fn mul(self, rhs: Complex) -> (r: Complex)
        ensures
            r@ == product(self@, rhs@),
    {
        let one: i128 = fixed::SCALE as i128;
        let (q1, r1) = fixed::wide_product_parts(self.re.raw, rhs.re.raw);
        let (q2, r2) = fixed::wide_product_parts(self.im.raw, rhs.im.raw);
        let borrow: i128 = if r1 < r2 {
            1
        } else {
            0
        };
        let re: i128 = q1 - q2 - borrow;
        let (q3, r3) = fixed::wide_product_parts(self.re.raw, rhs.im.raw);
        let (q4, r4) = fixed::wide_product_parts(self.im.raw, rhs.re.raw);
        let carry: i128 = if r3 + r4 >= one {
            1
        } else {
            0
        };
        let im: i128 = q3 + q4 + carry;
        proof {
            let s = fixed::SCALE as int;
            let a = self@;
            let b = rhs@;
            assert(a.re * b.re - a.im * b.im == re * s + (r1 - r2 + borrow * s))
                by (nonlinear_arith)
                requires
                    a.re * b.re == q1 * s + r1,
                    a.im * b.im == q2 * s + r2,
                    re == q1 - q2 - borrow,
            ;
            lemma_fundamental_div_mod_converse(
                a.re * b.re - a.im * b.im,
                s,
                re as int,
                r1 - r2 + borrow * s,
            );
            assert(a.re * b.im + a.im * b.re == im * s + (r3 + r4 - carry * s))
                by (nonlinear_arith)
                requires
                    a.re * b.im == q3 * s + r3,
                    a.im * b.re == q4 * s + r4,
                    im == q3 + q4 + carry,
            ;
            lemma_fundamental_div_mod_converse(
                a.re * b.im + a.im * b.re,
                s,
                im as int,
                r3 + r4 - carry * s,
            );
        }
        Complex { re: Fixed { raw: fixed::clamp(re) }, im: Fixed { raw: fixed::clamp(im) } }
    }

    /// `1 / self`.
    pub fn recip(self) -> (r: Complex)
        ensures
            r@ == reciprocal(self@),
    {
        let re_mag: u128 = fixed::magnitude(self.re.raw);
        let im_mag: u128 = fixed::magnitude(self.im.raw);
        assert(re_mag * re_mag <= 0x4000_0000_0000_0000_0000_0000_0000_0000) by (nonlinear_arith)
            requires
                re_mag <= 0x8000_0000_0000_0000,
        ;
        assert(im_mag * im_mag <= 0x4000_0000_0000_0000_0000_0000_0000_0000) by (nonlinear_arith)
            requires
                im_mag <= 0x8000_0000_0000_0000,
        ;
        let d: u128 = re_mag * re_mag + im_mag * im_mag;
        proof {
            let a = self@;
            assert(d == norm_sqr(a)) by (nonlinear_arith)
                requires
                    d == re_mag * re_mag + im_mag * im_mag,
                    re_mag == a.re || re_mag == -a.re,
                    im_mag == a.im || im_mag == -a.im,
                    norm_sqr(a) == a.re * a.re + a.im * a.im,
            ;
        }
        if d == 0 {
            Complex { re: Fixed { raw: fixed::RAW_MAX }, im: Fixed::zero() }
        } else {
            let unit: u128 = 0x1_0000_0000_0000_0000;
            assert(re_mag * unit <= 0x8000_0000_0000_0000_0000_0000_0000_0000) by (nonlinear_arith)
                requires
                    re_mag <= 0x8000_0000_0000_0000,
                    unit == 0x1_0000_0000_0000_0000,
            ;
            assert(im_mag * unit <= 0x8000_0000_0000_0000_0000_0000_0000_0000) by (nonlinear_arith)
                requires
                    im_mag <= 0x8000_0000_0000_0000,
                    unit == 0x1_0000_0000_0000_0000,
            ;
            let re_neg: bool = self.re.raw < 0;
            let im_neg: bool = self.im.raw > 0;
            proof {
                let a = self@;
                let s = fixed::SCALE as int;
                assert(a.re * s * s == a.re * 0x1_0000_0000_0000_0000) by (nonlinear_arith)
                    requires
                        s == 0x1_0000_0000,
                ;
                assert((-a.im) * s * s == (-a.im) * 0x1_0000_0000_0000_0000) by (nonlinear_arith)
                    requires
                        s == 0x1_0000_0000,
                ;
                assert(re_neg ==> -((re_mag * unit) as int) == a.re * 0x1_0000_0000_0000_0000)
                    by (nonlinear_arith)
                    requires
                        re_neg ==> re_mag == -a.re,
                        unit == 0x1_0000_0000_0000_0000,
                        re_mag * unit <= 0x8000_0000_0000_0000_0000_0000_0000_0000,
                ;
                assert(!re_neg ==> ((re_mag * unit) as int) == a.re * 0x1_0000_0000_0000_0000)
                    by (nonlinear_arith)
                    requires
                        !re_neg ==> re_mag == a.re,
                        unit == 0x1_0000_0000_0000_0000,
                        re_mag * unit <= 0x8000_0000_0000_0000_0000_0000_0000_0000,
                ;
                assert(im_neg ==> -((im_mag * unit) as int) == (-a.im) * 0x1_0000_0000_0000_0000)
                    by (nonlinear_arith)
                    requires
                        im_neg ==> im_mag == a.im,
                        unit == 0x1_0000_0000_0000_0000,
                        im_mag * unit <= 0x8000_0000_0000_0000_0000_0000_0000_0000,
                ;
                assert(!im_neg ==> ((im_mag * unit) as int) == (-a.im) * 0x1_0000_0000_0000_0000)
                    by (nonlinear_arith)
                    requires
                        !im_neg ==> im_mag == -a.im,
                        unit == 0x1_0000_0000_0000_0000,
                        im_mag * unit <= 0x8000_0000_0000_0000_0000_0000_0000_0000,
                ;
            }
            let re: i64 = fixed::saturating_ratio(re_neg, re_mag * unit, d);
            let im: i64 = fixed::saturating_ratio(im_neg, im_mag * unit, d);
            Complex { re: Fixed { raw: re }, im: Fixed { raw: im } }
        }
    }

    /// `self / rhs`, as `self` times the reciprocal of `rhs`.
    pub fn div(self, rhs: Complex) -> (r: Complex)
        ensures
            r@ == quotient(self@, rhs@),
    {
        self.mul(rhs.recip())
    }
}

} // verus!
