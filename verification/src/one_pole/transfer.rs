//! Transfer functions of the analogue one-pole filter, with the cutoff at
//! one radian per second: the response of each shape at the complex
//! frequency `s`.
use crate::complex;
use crate::complex::Complex;
use crate::complex::Cx;
use crate::fixed;
use crate::fixed::Fixed;
use vstd::prelude::*;

verus! {

/// The denominator that the shapes share: `s + 1`.
pub open spec fn denominator(s: Cx) -> Cx {
    complex::plus_real(s, fixed::SCALE as int)
}

/// The lowpass response: `1 / (s + 1)`.
pub open spec fn low_pass_response(s: Cx) -> Cx {
    complex::reciprocal(denominator(s))
}

/// The allpass response: `(1 - s) / (s + 1)`.
pub open spec fn all_pass_response(s: Cx) -> Cx {
    complex::quotient(complex::plus_real(complex::negation(s), fixed::SCALE as int), denominator(s))
}

/// The highpass response: `s / (s + 1)`.
pub open spec fn high_pass_response(s: Cx) -> Cx {
    complex::quotient(s, denominator(s))
}

/// The tilting response for the gain `gain`, with `m` its square root:
/// `(m * s + 1) / (s + m)`.
pub open spec fn tilting_response(s: Cx, gain: int) -> Cx {
    let m = fixed::root(gain);
    complex::quotient(
        complex::plus_real(complex::scaled(s, m), fixed::SCALE as int),
        complex::plus_real(s, m),
    )
}

/// The low-shelf response for the gain `gain`: the tilting response for
/// `1 / gain`, times the square root of `gain`.
pub open spec fn low_shelf_response(s: Cx, gain: int) -> Cx {
    complex::scaled(tilting_response(s, fixed::reciprocal(gain)), fixed::root(gain))
}

/// The high-shelf response for the gain `gain`: the tilting response for
/// `gain`, times the square root of `gain`.
pub open spec fn high_shelf_response(s: Cx, gain: int) -> Cx {
    complex::scaled(tilting_response(s, gain), fixed::root(gain))
}

fn h_denominator(s: Complex) -> (r: Complex)
    ensures
        r@ == denominator(s@),
{
    s.add_real(Fixed::one())
}

/// The lowpass response at `s`.
pub fn low_pass(s: Complex) -> (r: Complex)
    ensures
        r@ == low_pass_response(s@),
{
    h_denominator(s).recip()
}

/// The allpass response at `s`.
pub fn all_pass(s: Complex) -> (r: Complex)
    ensures
        r@ == all_pass_response(s@),
{
    s.neg().add_real(Fixed::one()).div(h_denominator(s))
}

/// The highpass response at `s`.
pub fn high_pass(s: Complex) -> (r: Complex)
    ensures
        r@ == high_pass_response(s@),
{
    s.div(h_denominator(s))
}

/// The low-shelf response at `s`, for a shelf of gain `gain`.
pub fn low_shelf(s: Complex, gain: Fixed) -> (r: Complex)
    ensures
        r@ == low_shelf_response(s@, gain@),
{
    tilting(s, gain.recip()).scale(gain.sqrt())
}

/// The tilting response at `s`, for a tilt of gain `gain`.
pub fn tilting(s: Complex, gain: Fixed) -> (r: Complex)
    ensures
        r@ == tilting_response(s@, gain@),
{
    let m: Fixed = gain.sqrt();
    s.scale(m).add_real(Fixed::one()).div(s.add_real(m))
}

/// The high-shelf response at `s`, for a shelf of gain `gain`.
pub fn high_shelf(s: Complex, gain: Fixed) -> (r: Complex)
    ensures
        r@ == high_shelf_response(s@, gain@),
{
    tilting(s, gain).scale(gain.sqrt())
}

} // verus!
