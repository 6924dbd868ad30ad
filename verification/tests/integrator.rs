use zdf_filters::fixed::Fixed;
use zdf_filters::fixed::RAW_MAX;
use zdf_filters::lanes::Lanes;
use zdf_filters::Integrator;

fn fx(v: f64) -> Fixed {
    Fixed::from_raw((v * 4294967296.0).round() as i64)
}

fn one(v: f64) -> Lanes<1> {
    Lanes::splat(fx(v))
}

#[test]
fn a_new_integrator_is_at_rest() {
    let i: Integrator<2> = Integrator::new();
    assert_eq!(i.state().to_array(), [Fixed::zero(); 2]);
    assert_eq!(i.output().to_array(), [Fixed::zero(); 2]);
    let d: Integrator<2> = Integrator::default();
    assert_eq!(d.state().to_array(), [Fixed::zero(); 2]);
    assert_eq!(d.output().to_array(), [Fixed::zero(); 2]);
}

#[test]
fn process_follows_the_difference_equations() {
    let mut i: Integrator<1> = Integrator::new();
    i.process(one(1.0));
    assert_eq!(i.output().lane(0), fx(1.0));
    assert_eq!(i.state().lane(0), fx(2.0));
    i.process(one(2.0));
    assert_eq!(i.output().lane(0), fx(4.0));
    assert_eq!(i.state().lane(0), fx(6.0));
    i.process(one(-0.5));
    assert_eq!(i.output().lane(0), fx(5.5));
    assert_eq!(i.state().lane(0), fx(5.0));
}

#[test]
fn state_is_output_plus_input_after_every_process() {
    let mut i: Integrator<3> = Integrator::new();
    let inputs = [
        [0.5, -1.0, 3.0],
        [0.125, 2.0, -7.5],
        [-4.0, 0.0, 0.001],
        [9.0, -9.0, 1.0e-6],
    ];
    for row in inputs {
        let x = Lanes::from_array([fx(row[0]), fx(row[1]), fx(row[2])]);
        i.process(x);
        assert_eq!(i.state().to_array(), i.output().add(&x).to_array());
    }
}

#[test]
fn state_is_output_plus_input_where_the_sum_sticks() {
    let mut i: Integrator<1> = Integrator::new();
    let x: Lanes<1> = Lanes::splat(Fixed::from_raw(RAW_MAX));
    i.process(x);
    assert_eq!(i.output().lane(0).raw(), RAW_MAX);
    assert_eq!(i.state().lane(0).raw(), RAW_MAX);
    assert_eq!(i.state().to_array(), i.output().add(&x).to_array());
}

#[test]
fn reset_zeroes_the_state_and_leaves_the_output() {
    let mut i: Integrator<1> = Integrator::new();
    i.process(one(1.0));
    i.reset();
    assert_eq!(i.state().lane(0), Fixed::zero());
    assert_eq!(i.output().lane(0), fx(1.0));
}

#[test]
fn zero_input_after_reset_gives_zero_output() {
    let mut i: Integrator<2> = Integrator::new();
    i.process(Lanes::from_array([fx(3.0), fx(-0.25)]));
    i.process(Lanes::from_array([fx(1.0), fx(8.0)]));
    i.reset();
    for _ in 0..100 {
        i.process(Lanes::splat(Fixed::zero()));
        assert_eq!(i.output().to_array(), [Fixed::zero(); 2]);
        assert_eq!(i.state().to_array(), [Fixed::zero(); 2]);
    }
}

#[test]
fn a_copy_goes_its_own_way() {
    let mut a: Integrator<1> = Integrator::new();
    a.process(one(1.0));
    let mut b = a;
    b.process(one(1.0));
    assert_eq!(a.output().lane(0), fx(1.0));
    assert_eq!(b.output().lane(0), fx(3.0));
}
