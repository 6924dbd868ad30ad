//! Transfer functions of the analogue state-variable filter, with the cutoff
//! at one radian per second: the response of each shape at the complex
//! frequency `s`, for the resonance `res`.
use crate::complex;
use crate::complex::Complex;
use crate::complex::Cx;
use crate::fixed;
use crate::fixed::Fixed;
use vstd::prelude::*;

verus! {

/// `2 * res`.
pub open spec fn twice(res: int) -> int {
    fixed::sum(res, res)
}

/// The denominator that the shapes share: `s * (s + 2 * res) + 1`.
pub open spec fn denominator(s: Cx, res: int) -> Cx {
    complex::plus_real(
        complex::product(s, complex::plus_real(s, twice(res))),
        fixed::SCALE as int,
    )
}

/// The lowpass response: `1 / (s^2 + 2 * res * s + 1)`.
pub open spec fn low_pass_response(s: Cx, res: int) -> Cx {
    complex::reciprocal(denominator(s, res))
}

/// The bandpass response: `s / (s^2 + 2 * res * s + 1)`.
pub open spec fn band_pass_response(s: Cx, res: int) -> Cx {
    complex::quotient(s, denominator(s, res))
}

/// The unit bandpass response: the bandpass response times `2 * res`.
pub open spec fn unit_band_pass_response(s: Cx, res: int) -> Cx {
    complex::scaled(band_pass_response(s, res), twice(res))
}

/// The highpass response: `s^2 / (s^2 + 2 * res * s + 1)`.
pub open spec fn high_pass_response(s: Cx, res: int) -> Cx {
    complex::quotient(complex::product(s, s), denominator(s, res))
}

/// The allpass response: twice the unit bandpass response, minus one.
pub open spec fn all_pass_response(s: Cx, res: int) -> Cx {
    let bp1 = unit_band_pass_response(s, res);
    complex::difference(complex::sum(bp1, bp1), Cx { re: fixed::SCALE as int, im: 0 })
}

/// The notch response: one minus the unit bandpass response.
pub open spec fn notch_response(s: Cx, res: int) -> Cx {
    complex::difference(Cx { re: fixed::SCALE as int, im: 0 }, unit_band_pass_response(s, res))
}

/// The tilting response for the gain `gain`. With `m2` the square root of
/// `gain`, `m` the square root of `m2` and `sm = s / m`:
///
/// `(s^2 + 2 * res * sm + 1 / m2) / (sm^2 + 2 * res * sm + 1)`
pub open spec fn tilting_response(s: Cx, res: int, gain: int) -> Cx {
    let m2 = fixed::root(gain);
    let m = fixed::root(m2);
    let sm = complex::unscaled(s, m);
    complex::quotient(
        complex::plus_real(
            complex::sum(complex::product(s, s), complex::scaled(sm, twice(res))),
            fixed::reciprocal(m2),
        ),
        denominator(sm, res),
    )
}

/// The low-shelf response for the gain `gain`: the tilting response for
/// `1 / gain`, times the square root of `gain`.
pub open spec fn low_shelf_response(s: Cx, res: int, gain: int) -> Cx {
    complex::scaled(tilting_response(s, res, fixed::reciprocal(gain)), fixed::root(gain))
}

/// The band-shelf response for the gain `gain`, with `m` its square root:
///
/// `(s^2 + 2 * res * m * s + 1) / (s^2 + 2 * (res / m) * s + 1)`
pub open spec fn band_shelf_response(s: Cx, res: int, gain: int) -> Cx {
    let m = fixed::root(gain);
    complex::quotient(
        complex::plus_real(
            complex::product(s, complex::plus_real(s, fixed::product(twice(res), m))),
            fixed::SCALE as int,
        ),
        denominator(s, fixed::quotient(res, m)),
    )
}

/// The high-shelf response for the gain `gain`: the tilting response for
/// `gain`, times the square root of `gain`.
pub open spec fn high_shelf_response(s: Cx, res: int, gain: int) -> Cx {
    complex::scaled(tilting_response(s, res, gain), fixed::root(gain))
}

fn two(res: Fixed) -> (r: Fixed)
    ensures
        r@ == twice(res@),
{
    res.add(res)
}

fn h_denominator(s: Complex, res: Fixed) -> (r: Complex)
    ensures
        r@ == denominator(s@, res@),
{
    s.mul(s.add_real(two(res))).add_real(Fixed::one())
}

/// The lowpass response at `s`.
pub fn low_pass(s: Complex, res: Fixed) -> (r: Complex)
    ensures
        r@ == low_pass_response(s@, res@),
{
    h_denominator(s, res).recip()
}

/// The bandpass response at `s`.
pub fn band_pass(s: Complex, res: Fixed) -> (r: Complex)
    ensures
        r@ == band_pass_response(s@, res@),
{
    s.div(h_denominator(s, res))
}

/// The unit bandpass response at `s`.
pub fn unit_band_pass(s: Complex, res: Fixed) -> (r: Complex)
    ensures
        r@ == unit_band_pass_response(s@, res@),
{
    band_pass(s, res).scale(two(res))
}

/// The highpass response at `s`.
pub fn high_pass(s: Complex, res: Fixed) -> (r: Complex)
    ensures
        r@ == high_pass_response(s@, res@),
{
    s.mul(s).div(h_denominator(s, res))
}

/// The allpass response at `s`.
pub fn all_pass(s: Complex, res: Fixed) -> (r: Complex)
    ensures
        r@ == all_pass_response(s@, res@),
{
    let bp1: Complex = unit_band_pass(s, res);
    bp1.add(bp1).sub(Complex::one())
}

/// The notch response at `s`.
pub fn notch(s: Complex, res: Fixed) -> (r: Complex)
    ensures
        r@ == notch_response(s@, res@),
{
    Complex::one().sub(unit_band_pass(s, res))
}

/// The tilting response at `s`, for a tilt of gain `gain`.
pub fn tilting(s: Complex, res: Fixed, gain: Fixed) -> (r: Complex)
    ensures
        r@ == tilting_response(s@, res@, gain@),
{
    let m2: Fixed = gain.sqrt();
    let m: Fixed = m2.sqrt();
    let sm: Complex = s.unscale(m);
    s.mul(s).add(sm.scale(two(res))).add_real(m2.recip()).div(h_denominator(sm, res))
}

/// The low-shelf response at `s`, for a shelf of gain `gain`.
pub fn low_shelf(s: Complex, res: Fixed, gain: Fixed) -> (r: Complex)
    ensures
        r@ == low_shelf_response(s@, res@, gain@),
{
    let m2: Fixed = gain.sqrt();
    tilting(s, res, gain.recip()).scale(m2)
}

/// The band-shelf response at `s`, for a shelf of gain `gain`.
pub fn band_shelf(s: Complex, res: Fixed, gain: Fixed) -> (r: Complex)
    ensures
        r@ == band_shelf_response(s@, res@, gain@),
{
    let m: Fixed = gain.sqrt();
    s.mul(s.add_real(two(res).mul(m))).add_real(Fixed::one()).div(h_denominator(s, res.div(m)))
}

/// The high-shelf response at `s`, for a shelf of gain `gain`.
pub fn high_shelf(s: Complex, res: Fixed, gain: Fixed) -> (r: Complex)
    ensures
        r@ == high_shelf_response(s@, res@, gain@),
{
    let m2: Fixed = gain.sqrt();
    tilting(s, res, gain).scale(m2)
}

} // verus!
