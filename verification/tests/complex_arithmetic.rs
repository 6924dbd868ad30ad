use zdf_filters::complex::Complex;
use zdf_filters::fixed::Fixed;
use zdf_filters::fixed::RAW_MAX;
use zdf_filters::fixed::RAW_MIN;

fn fx(v: f64) -> Fixed {
    Fixed::from_raw((v * 4294967296.0).round() as i64)
}

fn cx(re: f64, im: f64) -> Complex {
    Complex::new(fx(re), fx(im))
}

fn raw(re: i64, im: i64) -> Complex {
    Complex::new(Fixed::from_raw(re), Fixed::from_raw(im))
}

#[test]
fn new_and_one() {
    let z = Complex::new(fx(1.5), fx(-2.0));
    assert_eq!(z.re, fx(1.5));
    assert_eq!(z.im, fx(-2.0));
    assert_eq!(Complex::one(), cx(1.0, 0.0));
}

#[test]
fn sums_work_part_by_part() {
    assert_eq!(cx(1.0, 2.0).add(cx(0.5, -3.0)), cx(1.5, -1.0));
    assert_eq!(cx(1.0, 2.0).sub(cx(0.5, -3.0)), cx(0.5, 5.0));
    assert_eq!(cx(1.0, -2.0).neg(), cx(-1.0, 2.0));
    assert_eq!(cx(1.0, -2.0).add_real(fx(0.25)), cx(1.25, -2.0));
    assert_eq!(raw(RAW_MAX, RAW_MIN).add(cx(1.0, -1.0)), raw(RAW_MAX, RAW_MIN));
    assert_eq!(raw(RAW_MIN, RAW_MAX).neg(), raw(RAW_MAX, RAW_MIN + 1));
}

#[test]
fn scalings_work_part_by_part() {
    assert_eq!(cx(1.5, -3.0).scale(fx(0.5)), cx(0.75, -1.5));
    assert_eq!(cx(1.5, -3.0).unscale(fx(3.0)), cx(0.5, -1.0));
    assert_eq!(cx(1.0, -1.0).unscale(Fixed::zero()), raw(RAW_MAX, RAW_MIN));
}

#[test]
fn mul_is_the_complex_product() {
    assert_eq!(cx(1.0, 2.0).mul(cx(3.0, 4.0)), cx(-5.0, 10.0));
    assert_eq!(cx(0.0, 1.0).mul(cx(0.0, 1.0)), cx(-1.0, 0.0));
    assert_eq!(cx(1.5, -0.5).mul(Complex::one()), cx(1.5, -0.5));
}

#[test]
fn complex_mul_rounds_each_part_once() {
    // (1 + i) raw units times (1/2 + i/2): the two halves of a unit in the
    // imaginary part add up to one unit, and cancel in the real part
    assert_eq!(raw(1, 1).mul(cx(0.5, 0.5)), raw(0, 1));
    assert_eq!(raw(3, -1).mul(cx(0.5, 0.25)), raw(1, 0));
}

#[test]
fn complex_mul_sticks_at_the_ends_of_the_range() {
    assert_eq!(raw(RAW_MIN, RAW_MIN).mul(raw(RAW_MIN, RAW_MIN)), raw(0, RAW_MAX));
    assert_eq!(raw(RAW_MAX, 0).mul(cx(2.0, -2.0)), raw(RAW_MAX, RAW_MIN));
}

#[test]
fn recip_is_the_conjugate_over_the_squared_absolute_value() {
    assert_eq!(cx(1.0, 1.0).recip(), cx(0.5, -0.5));
    assert_eq!(cx(0.0, -2.0).recip(), cx(0.0, 0.5));
    assert_eq!(cx(2.0, 0.0).recip(), cx(0.5, 0.0));
    // 1 / (3 + 4i) = 0.12 - 0.16i, each part rounded down
    assert_eq!(cx(3.0, 4.0).recip(), raw(515396075, -687194768));
}

#[test]
fn complex_recip_rounds_down() {
    assert_eq!(cx(3.0, 0.0).recip(), raw(0x5555_5555, 0));
    assert_eq!(cx(-3.0, 0.0).recip(), raw(-0x5555_5556, 0));
    assert_eq!(cx(0.0, 3.0).recip(), raw(0, -0x5555_5556));
    assert_eq!(raw(RAW_MIN, RAW_MIN).recip(), raw(-1, 1));
    assert_eq!(raw(RAW_MAX, RAW_MAX).recip(), raw(1, -2));
}

#[test]
fn recip_of_a_real_number_is_the_real_reciprocal() {
    for v in [3.0, -3.0, 0.125, -7.5, 1000.0] {
        assert_eq!(cx(v, 0.0).recip(), Complex::new(fx(v).recip(), Fixed::zero()));
    }
    assert_eq!(cx(0.0, 0.0).recip(), Complex::new(Fixed::zero().recip(), Fixed::zero()));
}

#[test]
fn complex_recip_sticks_at_the_ends_of_the_range() {
    assert_eq!(cx(0.0, 0.0).recip(), raw(RAW_MAX, 0));
    assert_eq!(raw(1, 0).recip(), raw(RAW_MAX, 0));
    assert_eq!(raw(-1, 0).recip(), raw(RAW_MIN, 0));
    assert_eq!(raw(0, 1).recip(), raw(0, RAW_MIN));
    assert_eq!(raw(0, -1).recip(), raw(0, RAW_MAX));
}

#[test]
fn div_is_the_product_with_the_reciprocal() {
    assert_eq!(cx(1.0, 1.0).div(cx(1.0, -1.0)), cx(0.0, 1.0));
    assert_eq!(cx(3.0, -5.0).div(Complex::one()), cx(3.0, -5.0));
    // (1 + 2i) / (3 + 4i) = 0.44 + 0.08i
    let q = cx(1.0, 2.0).div(cx(3.0, 4.0));
    assert_eq!(q, raw(1889785611, 343597382));
    assert_eq!(q, cx(1.0, 2.0).mul(cx(3.0, 4.0).recip()));
}
