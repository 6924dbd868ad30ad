//! The one-pole filter.
use crate::fixed;
use crate::lanes;
use crate::lanes::Lanes;
use crate::Integrator;
use crate::IntegratorState;
use vstd::prelude::*;

pub mod transfer;

verus! {

/// The filtering factor for the integrator gain `g`, lane by lane:
/// `g / (1 + g)`.
pub open spec fn factor(g: Seq<int>) -> Seq<int> {
    lanes::quotient(g, lanes::sum(lanes::constant(g.len(), fixed::SCALE as int), g))
}

/// The filtering factor `g / (1 + g)` for the integrator gain `g`, lane by
/// lane.
///
/// For a cutoff of `w_c` radians per sample, `0 <= w_c < pi`, the gain is
/// `g = tan(w_c / 2)`.
pub fn theta<const N: usize>(g: Lanes<N>) -> (r: Lanes<N>)
    ensures
        r@ == factor(g@),
{
    let one: Lanes<N> = Lanes::splat(fixed::Fixed::one());
    g.div(&one.add(&g))
}

/// The filtering factor of a low shelf of gain `gain`: that of the gain `g`
/// divided by the square root of `gain`.
pub fn theta_low_shelf<const N: usize>(g: Lanes<N>, gain: Lanes<N>) -> (r: Lanes<N>)
    ensures
        r@ == factor(lanes::quotient(g@, lanes::root(gain@))),
{
    theta(g.div(&gain.sqrt()))
}

/// The filtering factor of a high shelf of gain `gain`: that of the gain `g`
/// multiplied by the square root of `gain`.
pub fn theta_high_shelf<const N: usize>(g: Lanes<N>, gain: Lanes<N>) -> (r: Lanes<N>)
    ensures
        r@ == factor(lanes::product(g@, lanes::root(gain@))),
{
    theta(g.mul(&gain.sqrt()))
}

/// What a [`OnePole`] holds, as raw values lane by lane.
pub struct OnePoleState {
    /// The integrator, whose output is the lowpass.
    pub lp: IntegratorState,
    /// The last input.
    pub x: Seq<int>,
}

/// The state of a filter of `n` lanes at rest: all zero.
pub open spec fn at_rest(n: nat) -> OnePoleState {
    OnePoleState { lp: crate::at_rest(n), x: lanes::constant(n, 0) }
}

/// The state after the input `x`, filtered with the factor `theta`: the
/// integrator is fed `(x - v[n-1]) * theta`.
pub open spec fn advance(st: OnePoleState, x: Seq<int>, theta: Seq<int>) -> OnePoleState {
    OnePoleState {
        lp: crate::advance(st.lp, lanes::product(lanes::difference(x, st.lp.s), theta)),
        x,
    }
}

/// The state after the inputs `xs`, fed one after the other and all filtered
/// with the factor `theta`.
pub open spec fn advance_all(st: OnePoleState, xs: Seq<Seq<int>>, theta: Seq<int>) -> OnePoleState
    decreases xs.len(),
{
    if xs.len() == 0 {
        st
    } else {
        advance(advance_all(st, xs.drop_last(), theta), xs.last(), theta)
    }
}

/// The state after a reset: the integrator's state is zero, the rest stays
/// until the next `process`.
pub open spec fn cleared(st: OnePoleState) -> OnePoleState {
    OnePoleState { lp: crate::cleared(st.lp), x: st.x }
}

/// The lowpass output: the integrator's output.
pub open spec fn lowpass(st: OnePoleState) -> Seq<int> {
    st.lp.out
}

/// The highpass output: `x - lowpass`.
pub open spec fn highpass(st: OnePoleState) -> Seq<int> {
    lanes::difference(st.x, lowpass(st))
}

/// The allpass output: `lowpass - highpass`.
pub open spec fn allpass(st: OnePoleState) -> Seq<int> {
    lanes::difference(lowpass(st), highpass(st))
}

/// The low-shelf output: `gain * lowpass + highpass`.
pub open spec fn low_shelf(st: OnePoleState, gain: Seq<int>) -> Seq<int> {
    lanes::product_plus(gain, lowpass(st), highpass(st))
}

/// The high-shelf output: `gain * highpass + lowpass`.
pub open spec fn high_shelf(st: OnePoleState, gain: Seq<int>) -> Seq<int> {
    lanes::product_plus(gain, highpass(st), lowpass(st))
}

/// Digital form of the analogue one-pole filter, after Vadim Zavalishin's
/// "The Art of VA Filter Design".
///
/// One `process` per sample gives all of its shapes at once: lowpass,
/// highpass, allpass and the two shelves.
#[derive(Clone, Copy, Debug)]
pub struct OnePole<const N: usize> {
    lp: Integrator<N>,
    x: Lanes<N>,
}

impl<const N: usize> View for OnePole<N> {
    type V = OnePoleState;

    closed spec fn view(&self) -> OnePoleState {
        OnePoleState { lp: self.lp@, x: self.x@ }
    }
}

impl<const N: usize> OnePole<N> {
    /// A filter at rest: state, output and last input are zero in every lane.
    pub fn new() -> (r: Self)
        ensures
            r@ == at_rest(N as nat),
    {
        OnePole { lp: Integrator::new(), x: Lanes::splat(fixed::Fixed::zero()) }
    }

    /// State, output and last input hold one raw value per lane.
    pub proof fn lemma_valid(&self)
        ensures
            lanes::valid(self@.lp.s, N as nat),
            lanes::valid(self@.lp.out, N as nat),
            lanes::valid(self@.x, N as nat),
    {
        self.lp.lemma_valid();
    }

    /// Sets the integrator's state to zero.
    pub fn reset(&mut self)
        ensures
            final(self)@ == cleared(old(self)@),
    {
        self.lp.reset()
    }

    /// Updates the filter's state. Call it once per sample, every sample, and
    /// read the outputs with the `get_*` methods afterwards.
    ///
    /// `x` is the input sample. `theta` is the filtering factor, which the
    /// caller keeps within `0 <= theta <= 1`: outside of it the filter may
    /// become unstable. For a cutoff of `w_c` radians per sample, with
    /// `g = tan(w_c / 2)`, it is `g / (1 + g)`, as [`theta`] computes it.
    ///
    /// With `theta = 0` the lowpass stays where it is; with `theta = 1` it is
    /// the input.
    pub fn process(&mut self, x: Lanes<N>, theta: Lanes<N>)
        ensures
            final(self)@ == advance(old(self)@, x@, theta@),
    {
        self.x = x;
        let fed: Lanes<N> = x.sub(self.lp.state()).mul(&theta);
        self.lp.process(fed);
    }

    /// The last input.
    pub fn get_passthrough(&self) -> (r: &Lanes<N>)
        ensures
            r@ == self@.x,
    {
        &self.x
    }

    /// The lowpass output.
    pub fn get_lowpass(&self) -> (r: &Lanes<N>)
        ensures
            r@ == lowpass(self@),
    {
        self.lp.output()
    }

    /// The highpass output, `x - lowpass`.
    pub fn get_highpass(&self) -> (r: Lanes<N>)
        ensures
            r@ == highpass(self@),
    {
        self.get_passthrough().sub(self.get_lowpass())
    }

    /// The allpass output, `lowpass - highpass`.
    pub fn get_allpass(&self) -> (r: Lanes<N>)
        ensures
            r@ == allpass(self@),
            r@ == lanes::difference(lowpass(self@), highpass(self@)),
    {
        self.get_lowpass().sub(&self.get_highpass())
    }

    /// The low-shelf output, `gain * lowpass + highpass`.
    pub fn get_low_shelf(&self, gain: Lanes<N>) -> (r: Lanes<N>)
        ensures
            r@ == low_shelf(self@, gain@),
    {
        gain.mul_add(self.get_lowpass(), &self.get_highpass())
    }

    /// The high-shelf output, `gain * highpass + lowpass`.
    pub fn get_high_shelf(&self, gain: Lanes<N>) -> (r: Lanes<N>)
        ensures
            r@ == high_shelf(self@, gain@),
    {
        gain.mul_add(&self.get_highpass(), self.get_lowpass())
    }
}

/// Zero input keeps a filter that was reset silent: after a reset and then
/// any number of zero inputs, at least one, with any filtering factor,
/// lowpass, highpass and the integrator's state are zero in every lane.
pub proof fn lemma_silence_after_reset(st: OnePoleState, theta: Seq<int>, count: nat)
    requires
        count > 0,
    ensures
        ({
            let n = st.lp.s.len();
            let after = advance_all(cleared(st), lanes::silence(n, count), theta);
            &&& lowpass(after) == lanes::constant(n, 0)
            &&& highpass(after) == lanes::constant(n, 0)
            &&& after.lp.s == lanes::constant(n, 0)
        }),
    decreases count,
{
    let n = st.lp.s.len();
    let zero = lanes::constant(n, 0);
    let xs = lanes::silence(n, count);
    let before = advance_all(cleared(st), xs.drop_last(), theta);
    assert(xs.last() == zero);
    if count == 1 {
        assert(xs.drop_last().len() == 0);
        assert(before == cleared(st));
    } else {
        assert(xs.drop_last() =~= lanes::silence(n, (count - 1) as nat));
        lemma_silence_after_reset(st, theta, (count - 1) as nat);
    }
    assert(before.lp.s == zero);
    let fed = lanes::product(lanes::difference(zero, zero), theta);
    assert forall|i: int| 0 <= i < n implies fed[i] == 0 by {
        fixed::lemma_product_with_zero(theta[i]);
    }
    assert(fed =~= zero);
    let after = advance(before, zero, theta);
    assert(after.lp.out =~= zero);
    assert(after.lp.s =~= zero);
    assert(highpass(after) =~= zero);
}

/// Lowpass and highpass add up to the input, wherever `x - lowpass` is not
/// clamped.
pub proof fn lemma_lowpass_plus_highpass(st: OnePoleState, n: nat)
    requires
        lanes::valid(st.x, n),
        lanes::valid(st.lp.out, n),
        lanes::exact_difference(st.x, lowpass(st)),
    ensures
        lanes::sum(lowpass(st), highpass(st)) == st.x,
{
    assert forall|i: int| 0 <= i < n implies lanes::sum(lowpass(st), highpass(st))[i]
        == st.x[i] by {
        assert(fixed::in_range(st.x[i] - st.lp.out[i]));
    }
    assert(lanes::sum(lowpass(st), highpass(st)) =~= st.x);
}

/// With `theta = 0` the filter holds: whatever the inputs, the integrator's
/// state stays what it was, and from the first sample on the lowpass output is
/// that state. For a filter at rest that is zero, its first output.
pub proof fn lemma_theta_zero_holds(st: OnePoleState, xs: Seq<Seq<int>>, n: nat)
    requires
        lanes::valid(st.lp.s, n),
        forall|k: int| 0 <= k < xs.len() ==> (#[trigger] xs[k]).len() == n,
    ensures
        advance_all(st, xs, lanes::constant(n, 0)).lp.s == st.lp.s,
        xs.len() > 0 ==> lowpass(advance_all(st, xs, lanes::constant(n, 0))) == st.lp.s,
    decreases xs.len(),
{
    if xs.len() > 0 {
        let zero = lanes::constant(n, 0);
        let before = advance_all(st, xs.drop_last(), zero);
        lemma_theta_zero_holds(st, xs.drop_last(), n);
        let x = xs.last();
        let fed = lanes::product(lanes::difference(x, before.lp.s), zero);
        assert forall|i: int| 0 <= i < n implies fed[i] == 0 by {
            fixed::lemma_product_with_zero(lanes::difference(x, before.lp.s)[i]);
        }
        let after = advance(before, x, zero);
        assert(after.lp.out =~= st.lp.s);
        assert(after.lp.s =~= st.lp.s);
    }
}

/// With `theta = 1` the lowpass output is the input within one sample,
/// wherever `x - v[n-1]` is not clamped.
pub proof fn lemma_theta_one_passes_input(st: OnePoleState, x: Seq<int>, n: nat)
    requires
        lanes::valid(st.lp.s, n),
        lanes::valid(x, n),
        lanes::exact_difference(x, st.lp.s),
    ensures
        lowpass(advance(st, x, lanes::constant(n, fixed::SCALE as int))) == x,
{
    let one = lanes::constant(n, fixed::SCALE as int);
    let fed = lanes::product(lanes::difference(x, st.lp.s), one);
    assert forall|i: int| 0 <= i < n implies fed[i] == x[i] - st.lp.s[i] by {
        assert(fixed::in_range(x[i] - st.lp.s[i]));
        fixed::lemma_product_with_one(x[i] - st.lp.s[i]);
    }
    assert(lowpass(advance(st, x, one)) =~= x);
}

impl<const N: usize> Default for OnePole<N> {
    /// A filter at rest.
    fn default() -> (r: Self)
        ensures
            r@ == at_rest(N as nat),
    {
        OnePole::new()
    }
}

} // verus!
