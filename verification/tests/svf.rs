use zdf_filters::fixed::Fixed;
use zdf_filters::fixed::RAW_MAX;
use zdf_filters::fixed::RAW_MIN;
use zdf_filters::lanes::Lanes;
use zdf_filters::svf::SVF;

fn fx(v: f64) -> Fixed {
    Fixed::from_raw((v * 4294967296.0).round() as i64)
}

fn one(v: f64) -> Lanes<1> {
    Lanes::splat(fx(v))
}

fn raw(v: i64) -> Fixed {
    Fixed::from_raw(v)
}

/// tan(pi / 8) = sqrt(2) - 1, rounded down
const TAN_PI_8: i64 = 0x6a09_e667;

#[test]
fn a_new_svf_is_at_rest() {
    let f: SVF<2> = SVF::new();
    assert_eq!(f.get_passthrough().to_array(), [Fixed::zero(); 2]);
    assert_eq!(f.get_lowpass().to_array(), [Fixed::zero(); 2]);
    assert_eq!(f.get_bandpass().to_array(), [Fixed::zero(); 2]);
    assert_eq!(f.get_unit_bandpass().to_array(), [Fixed::zero(); 2]);
    assert_eq!(f.get_highpass().to_array(), [Fixed::zero(); 2]);
    let d: SVF<2> = SVF::default();
    assert_eq!(d.get_lowpass().to_array(), [Fixed::zero(); 2]);
    assert_eq!(d.get_highpass().to_array(), [Fixed::zero(); 2]);
}

#[test]
fn svf_process_gives_the_expected_raw_values() {
    let mut f: SVF<1> = SVF::new();
    f.process(one(1.0), one(0.5), one(1.0));
    // hp = 1 / (1 + 1.5 * 0.5) = 4/7, bp = hp / 2, lp = bp / 2
    assert_eq!(f.get_passthrough().lane(0), fx(1.0));
    assert_eq!(f.get_highpass().lane(0), raw(2454267026));
    assert_eq!(f.get_bandpass().lane(0), raw(1227133513));
    assert_eq!(f.get_unit_bandpass().lane(0), raw(1227133513));
    assert_eq!(f.get_lowpass().lane(0), raw(613566756));
    assert_eq!(f.get_allpass().lane(0), raw(-1840700270));
    assert_eq!(f.get_notch().lane(0), raw(3067833783));
    assert_eq!(f.get_high_shelf(one(2.0)).lane(0), raw(12884901886));
    assert_eq!(f.get_band_shelf(one(2.0)).lane(0), raw(5522100809));
    assert_eq!(f.get_low_shelf(one(2.0)).lane(0), raw(7362801076));

    f.process(one(-0.25), one(0.5), one(1.0));
    assert_eq!(f.get_passthrough().lane(0), fx(-0.25));
    assert_eq!(f.get_highpass().lane(0), raw(-3418443358));
    assert_eq!(f.get_bandpass().lane(0), raw(745045347));
    assert_eq!(f.get_unit_bandpass().lane(0), raw(745045347));
    assert_eq!(f.get_lowpass().lane(0), raw(1599656185));
    assert_eq!(f.get_allpass().lane(0), raw(2563832518));
    assert_eq!(f.get_notch().lane(0), raw(-1818787171));
    assert_eq!(f.get_high_shelf(one(1.5)).lane(0), raw(-4974273350));
    assert_eq!(f.get_band_shelf(one(1.5)).lane(0), raw(-701219151));
    assert_eq!(f.get_low_shelf(one(1.5)).lane(0), raw(1298351078));
}

#[test]
fn unit_bandpass_is_bandpass_times_resonance() {
    let mut f: SVF<1> = SVF::new();
    for x in [1.0, 0.0, -0.5, 0.25] {
        f.process(one(x), one(0.3), one(0.75));
        assert_eq!(f.get_unit_bandpass().lane(0), f.get_bandpass().lane(0).mul(fx(0.75)));
    }
}

#[test]
fn notch_and_allpass_follow_from_the_unit_bandpass() {
    let mut f: SVF<2> = SVF::new();
    let g = Lanes::from_array([fx(0.5), raw(TAN_PI_8)]);
    let res = Lanes::from_array([fx(1.0), fx(0.1)]);
    let inputs = [[1.0, 1.0], [0.0, -1.0], [-0.75, 0.5], [0.3, 0.3], [100.0, -0.001]];
    for row in inputs {
        let x = Lanes::from_array([fx(row[0]), fx(row[1])]);
        f.process(x, g, res);
        let bp1 = *f.get_unit_bandpass();
        assert_eq!(f.get_notch().to_array(), x.sub(&bp1).to_array());
        let allpass = f.get_allpass().to_array();
        for i in 0..2 {
            assert_eq!(allpass[i].raw(), 2 * bp1.lane(i).raw() - x.lane(i).raw());
        }
        assert_eq!(allpass, bp1.add(&bp1).sub(&x).to_array());
    }
}

#[test]
fn allpass_is_clamped_once() {
    // twice the unit bandpass is out of range, the difference is not
    let mut f: SVF<1> = SVF::new();
    let big = raw(RAW_MAX / 4 * 3);
    f.process(Lanes::splat(big), one(1.0), one(1.0));
    let bp1 = f.get_unit_bandpass().lane(0).raw();
    let x = f.get_passthrough().lane(0).raw();
    let exact = 2 * (bp1 as i128) - (x as i128);
    let expected = exact.clamp(RAW_MIN as i128, RAW_MAX as i128) as i64;
    assert_eq!(f.get_allpass().lane(0).raw(), expected);
}

#[test]
fn shelves_combine_the_three_outputs() {
    let mut f: SVF<1> = SVF::new();
    for x in [1.0, -0.5, 0.25] {
        f.process(one(x), one(0.4), one(0.9));
        let m = fx(1.25);
        let hp = f.get_highpass().lane(0);
        let bp1 = f.get_unit_bandpass().lane(0);
        let lp = f.get_lowpass().lane(0);
        let input = f.get_passthrough().lane(0);
        assert_eq!(f.get_high_shelf(Lanes::splat(m)).lane(0), m.mul_add(m.mul_add(hp, bp1), lp));
        assert_eq!(f.get_low_shelf(Lanes::splat(m)).lane(0), m.mul_add(m.mul_add(lp, bp1), hp));
        assert_eq!(f.get_band_shelf(Lanes::splat(m)).lane(0), bp1.mul_add(m, input.sub(bp1)));
    }
}

#[test]
fn a_band_shelf_of_gain_one_is_the_input() {
    let mut f: SVF<1> = SVF::new();
    for x in [1.0, -0.5, 0.25, 0.0] {
        f.process(one(x), one(0.4), one(0.9));
        assert_eq!(f.get_band_shelf(one(1.0)).lane(0), fx(x));
    }
}

#[test]
fn impulse_response_keeps_the_shape_identities() {
    let mut f: SVF<1> = SVF::new();
    let g: Lanes<1> = Lanes::splat(raw(TAN_PI_8));
    let first: [(i64, i64, i64); 4] = [
        (2708414699, 1121862100, 464690496),
        (-2587035739, 1172138911, 1414896825),
        (-1288078210, -432985842, 1721064050),
        (-110255860, -1012194779, 1122450636),
    ];
    for n in 0..64 {
        let x = if n == 0 { fx(1.0) } else { fx(0.0) };
        f.process(Lanes::splat(x), g, one(1.0));
        let hp = f.get_highpass().lane(0).raw();
        let bp = f.get_bandpass().lane(0).raw();
        let bp1 = f.get_unit_bandpass().lane(0).raw();
        let lp = f.get_lowpass().lane(0).raw();
        if n < 4 {
            assert_eq!((hp, bp, lp), first[n]);
        }
        // with a resonance of one the unit bandpass is the bandpass
        assert_eq!(bp1, bp);
        // x = hp + res * bp + lp, but for the rounding of the products
        assert!((hp + bp1 + lp - x.raw()).abs() <= 4);
        assert_eq!(f.get_notch().lane(0).raw(), x.raw() - bp1);
        assert_eq!(f.get_allpass().lane(0).raw(), 2 * bp1 - x.raw());
    }
    // the response dies away
    assert!(f.get_lowpass().lane(0).raw().abs() < 16);
    assert!(f.get_bandpass().lane(0).raw().abs() < 16);
    assert!(f.get_highpass().lane(0).raw().abs() < 16);
}

#[test]
fn lowpass_settles_on_a_constant_input() {
    let mut f: SVF<1> = SVF::new();
    let g: Lanes<1> = Lanes::splat(raw(TAN_PI_8));
    for _ in 0..400 {
        f.process(one(1.0), g, one(1.0));
    }
    assert!((f.get_lowpass().lane(0).raw() - fx(1.0).raw()).abs() <= 4);
    assert!(f.get_bandpass().lane(0).raw().abs() <= 4);
    assert!(f.get_highpass().lane(0).raw().abs() <= 4);
    assert!((f.get_notch().lane(0).raw() - fx(1.0).raw()).abs() <= 4);
}

#[test]
fn bandpass_stays_bounded_at_resonance() {
    // a sine at the cutoff: the bandpass settles at an amplitude of 1 / res
    let cutoff = std::f64::consts::PI / 4.0;
    let g = one((cutoff / 2.0).tan());
    for res in [1.999, 1.0, 0.05, 0.001] {
        let mut f: SVF<1> = SVF::new();
        let mut peak: i64 = 0;
        for n in 0..20000 {
            let x = (cutoff * n as f64).sin();
            f.process(one(x), g, one(res));
            peak = peak.max(f.get_bandpass().lane(0).raw().abs());
        }
        let bound = 1.05 / res;
        assert!((peak as f64) / 4294967296.0 <= bound);
    }
}

#[test]
fn svf_reset_zeroes_both_integrators() {
    let mut f: SVF<1> = SVF::new();
    f.process(one(1.0), one(0.5), one(1.0));
    f.reset();
    // the outputs are those of the last sample until the next one
    assert_eq!(f.get_passthrough().lane(0), fx(1.0));
    assert_eq!(f.get_highpass().lane(0), raw(2454267026));
    assert_eq!(f.get_unit_bandpass().lane(0), raw(1227133513));
    assert_eq!(f.get_bandpass().lane(0), raw(1227133513));
    assert_eq!(f.get_lowpass().lane(0), raw(613566756));
    for _ in 0..10 {
        f.process(one(0.0), one(0.5), one(1.0));
        assert_eq!(f.get_highpass().lane(0), Fixed::zero());
        assert_eq!(f.get_bandpass().lane(0), Fixed::zero());
        assert_eq!(f.get_unit_bandpass().lane(0), Fixed::zero());
        assert_eq!(f.get_lowpass().lane(0), Fixed::zero());
    }
}

#[test]
fn a_reset_filter_answers_like_a_new_one() {
    let mut used: SVF<1> = SVF::new();
    used.process(one(1.0), one(0.5), one(1.0));
    used.process(one(-3.0), one(0.5), one(1.0));
    used.reset();
    let mut fresh: SVF<1> = SVF::new();
    for x in [0.5, -0.25, 0.125] {
        used.process(one(x), one(0.5), one(1.0));
        fresh.process(one(x), one(0.5), one(1.0));
        assert_eq!(used.get_lowpass().lane(0), fresh.get_lowpass().lane(0));
        assert_eq!(used.get_bandpass().lane(0), fresh.get_bandpass().lane(0));
        assert_eq!(used.get_highpass().lane(0), fresh.get_highpass().lane(0));
    }
}

#[test]
fn a_zero_denominator_sticks_instead_of_failing() {
    // g = 1, res = -2: 1 + (res + g) * g = 0
    let mut f: SVF<1> = SVF::new();
    f.process(one(1.0), one(1.0), one(-2.0));
    assert_eq!(f.get_highpass().lane(0).raw(), RAW_MAX);
    f.reset();
    f.process(one(-1.0), one(1.0), one(-2.0));
    assert_eq!(f.get_highpass().lane(0).raw(), RAW_MIN);
}

#[test]
fn svf_lanes_are_filtered_apart() {
    let mut both: SVF<2> = SVF::new();
    let mut left: SVF<1> = SVF::new();
    let mut right: SVF<1> = SVF::new();
    let inputs = [[0.3, -0.7], [0.9, 0.9], [-1.0, 0.001]];
    for row in inputs {
        both.process(
            Lanes::from_array([fx(row[0]), fx(row[1])]),
            Lanes::from_array([fx(0.1), fx(0.8)]),
            Lanes::from_array([fx(1.5), fx(0.2)]),
        );
        left.process(one(row[0]), one(0.1), one(1.5));
        right.process(one(row[1]), one(0.8), one(0.2));
        assert_eq!(both.get_lowpass().lane(0), left.get_lowpass().lane(0));
        assert_eq!(both.get_lowpass().lane(1), right.get_lowpass().lane(0));
        assert_eq!(both.get_highpass().lane(0), left.get_highpass().lane(0));
        assert_eq!(both.get_highpass().lane(1), right.get_highpass().lane(0));
        assert_eq!(both.get_allpass().lane(0), left.get_allpass().lane(0));
        assert_eq!(both.get_allpass().lane(1), right.get_allpass().lane(0));
    }
}
