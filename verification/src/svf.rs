//! The state-variable filter.
use crate::fixed;
use crate::lanes;
use crate::lanes::Lanes;
use crate::Integrator;
use crate::IntegratorState;
use vstd::arithmetic::div_mod::lemma_div_multiples_vanish;
use vstd::prelude::*;

pub mod transfer;

verus! {

/// What an [`SVF`] holds, as raw values lane by lane.
pub struct SvfState {
    /// The last input.
    pub x: Seq<int>,
    /// The last highpass value.
    pub hp: Seq<int>,
    /// The integrator whose output is the bandpass.
    pub bp: IntegratorState,
    /// The last bandpass value scaled by the resonance: the unit bandpass.
    pub bp1: Seq<int>,
    /// The integrator whose output is the lowpass.
    pub lp: IntegratorState,
}

/// The state of a filter of `n` lanes at rest: all zero.
pub open spec fn at_rest(n: nat) -> SvfState {
    SvfState {
        x: lanes::constant(n, 0),
        hp: lanes::constant(n, 0),
        bp: crate::at_rest(n),
        bp1: lanes::constant(n, 0),
        lp: crate::at_rest(n),
    }
}

/// The highpass value for the input `x`, from the state of the two
/// integrators before either moves:
///
/// `hp = (x - lp_state - (res + g) * bp_state) / (1 + (res + g) * g)`
///
/// One division solves the feedback loop of the analogue structure, without a
/// delay of one sample in it.
pub open spec fn highpass_of(st: SvfState, x: Seq<int>, g: Seq<int>, res: Seq<int>) -> Seq<int> {
    let g1 = lanes::sum(res, g);
    lanes::quotient(
        lanes::product_plus(g1, lanes::negation(st.bp.s), lanes::difference(x, st.lp.s)),
        lanes::product_plus(g1, g, lanes::constant(x.len(), fixed::SCALE as int)),
    )
}

/// The state after the input `x`, with the integrator gain `g` and the
/// resonance `res`: the bandpass integrator is fed `hp * g`, the lowpass
/// integrator `bp * g`.
pub open spec fn advance(st: SvfState, x: Seq<int>, g: Seq<int>, res: Seq<int>) -> SvfState {
    let hp = highpass_of(st, x, g, res);
    let bp = crate::advance(st.bp, lanes::product(hp, g));
    SvfState {
        x,
        hp,
        bp,
        bp1: lanes::product(bp.out, res),
        lp: crate::advance(st.lp, lanes::product(bp.out, g)),
    }
}

/// The state after the inputs `xs`, fed one after the other, all with the
/// integrator gain `g` and the resonance `res`.
pub open spec fn advance_all(st: SvfState, xs: Seq<Seq<int>>, g: Seq<int>, res: Seq<int>) -> SvfState
    decreases xs.len(),
{
    if xs.len() == 0 {
        st
    } else {
        advance(advance_all(st, xs.drop_last(), g, res), xs.last(), g, res)
    }
}

/// The state after a reset: both integrators' states are zero, the rest
/// stays until the next `process`.
pub open spec fn cleared(st: SvfState) -> SvfState {
    SvfState { bp: crate::cleared(st.bp), lp: crate::cleared(st.lp), ..st }
}

/// The lowpass output: the second integrator's output.
pub open spec fn lowpass(st: SvfState) -> Seq<int> {
    st.lp.out
}

/// The bandpass output: the first integrator's output.
pub open spec fn bandpass(st: SvfState) -> Seq<int> {
    st.bp.out
}

/// The unit bandpass output: `bandpass * res`.
pub open spec fn unit_bandpass(st: SvfState) -> Seq<int> {
    st.bp1
}

/// The highpass output.
pub open spec fn highpass(st: SvfState) -> Seq<int> {
    st.hp
}

/// The allpass output: `2 * unit_bandpass - x`, clamped once.
pub open spec fn allpass(st: SvfState) -> Seq<int> {
    Seq::new(st.bp1.len(), |i: int| fixed::saturate(2 * st.bp1[i] - st.x[i]))
}

/// The notch output: `x - unit_bandpass`.
pub open spec fn notch(st: SvfState) -> Seq<int> {
    lanes::difference(st.x, st.bp1)
}

/// The high-shelf output for the root gain `m`:
/// `m * (m * highpass + unit_bandpass) + lowpass`.
pub open spec fn high_shelf(st: SvfState, m: Seq<int>) -> Seq<int> {
    lanes::product_plus(m, lanes::product_plus(m, st.hp, st.bp1), st.lp.out)
}

/// The band-shelf output for the root gain `m`:
/// `unit_bandpass * m + (x - unit_bandpass)`.
pub open spec fn band_shelf(st: SvfState, m: Seq<int>) -> Seq<int> {
    lanes::product_plus(st.bp1, m, lanes::difference(st.x, st.bp1))
}

/// The low-shelf output for the root gain `m`:
/// `m * (m * lowpass + unit_bandpass) + highpass`.
pub open spec fn low_shelf(st: SvfState, m: Seq<int>) -> Seq<int> {
    lanes::product_plus(m, lanes::product_plus(m, st.lp.out, st.bp1), st.hp)
}

/// Digital form of the analogue state-variable filter, after Vadim
/// Zavalishin's "The Art of VA Filter Design".
///
/// One `process` per sample gives all of its shapes at once: lowpass,
/// bandpass, highpass, notch, allpass and the three shelves.
#[derive(Clone, Copy, Debug)]
pub struct SVF<const N: usize> {
    x: Lanes<N>,
    hp: Lanes<N>,
    bp: Integrator<N>,
    bp1: Lanes<N>,
    lp: Integrator<N>,
}

impl<const N: usize> View for SVF<N> {
    type V = SvfState;

    closed spec fn view(&self) -> SvfState {
        SvfState { x: self.x@, hp: self.hp@, bp: self.bp@, bp1: self.bp1@, lp: self.lp@ }
    }
}

impl<const N: usize> SVF<N> {
    /// A filter at rest: everything it holds is zero in every lane.
    pub fn new() -> (r: Self)
        ensures
            r@ == at_rest(N as nat),
    {
        let zero: Lanes<N> = Lanes::splat(fixed::Fixed::zero());
        SVF { x: zero, hp: zero, bp: Integrator::new(), bp1: zero, lp: Integrator::new() }
    }

    /// Everything held is one raw value per lane.
    pub proof fn lemma_valid(&self)
        ensures
            lanes::valid(self@.x, N as nat),
            lanes::valid(self@.hp, N as nat),
            lanes::valid(self@.bp1, N as nat),
            lanes::valid(self@.bp.s, N as nat),
            lanes::valid(self@.bp.out, N as nat),
            lanes::valid(self@.lp.s, N as nat),
            lanes::valid(self@.lp.out, N as nat),
    {
        self.bp.lemma_valid();
        self.lp.lemma_valid();
    }

    /// Sets the state of both integrators to zero.
    pub fn reset(&mut self)
        ensures
            final(self)@ == cleared(old(self)@),
    {
        self.bp.reset();
        self.lp.reset();
    }

    /// Updates the filter's state. Call it once per sample, every sample, and
    /// read the outputs with the `get_*` methods afterwards.
    ///
    /// `x` is the input sample. `g` is the integrator gain: for a cutoff of
    /// `w_c` radians per sample, `0 <= w_c < pi`, it is `tan(w_c / 2)`. `res`
    /// is the resonance, which the caller keeps within `0 <= res < 2`:
    /// outside of it the filter may become unstable.
    pub fn process(&mut self, x: Lanes<N>, g: Lanes<N>, res: Lanes<N>)
        ensures
            final(self)@ == advance(old(self)@, x@, g@, res@),
    {
        self.x = x;
        let bp_s: Lanes<N> = *self.bp.state();
        let lp_s: Lanes<N> = *self.lp.state();
        let one: Lanes<N> = Lanes::splat(fixed::Fixed::one());

        let g1: Lanes<N> = res.add(&g);

        self.hp = g1.mul_add(&bp_s.neg(), &x.sub(&lp_s)).div(&g1.mul_add(&g, &one));

        self.bp.process(self.hp.mul(&g));
        let bp: Lanes<N> = *self.bp.output();
        self.bp1 = bp.mul(&res);
        self.lp.process(bp.mul(&g));
    }

    /// The last input.
    pub fn get_passthrough(&self) -> (r: &Lanes<N>)
        ensures
            r@ == self@.x,
    {
        &self.x
    }

    /// The lowpass output.
    pub fn get_lowpass(&self) -> (r: &Lanes<N>)
        ensures
            r@ == lowpass(self@),
    {
        self.lp.output()
    }

    /// The bandpass output.
    pub fn get_bandpass(&self) -> (r: &Lanes<N>)
        ensures
            r@ == bandpass(self@),
    {
        self.bp.output()
    }

    /// The unit bandpass output, `bandpass * res`.
    pub fn get_unit_bandpass(&self) -> (r: &Lanes<N>)
        ensures
            r@ == unit_bandpass(self@),
    {
        &self.bp1
    }

    /// The highpass output.
    pub fn get_highpass(&self) -> (r: &Lanes<N>)
        ensures
            r@ == highpass(self@),
    {
        &self.hp
    }

    /// The allpass output, `2 * unit_bandpass - x`.
    pub fn get_allpass(&self) -> (r: Lanes<N>)
        ensures
            r@ == allpass(self@),
    {
        let two: Lanes<N> = Lanes::splat(fixed::Fixed::from_int(2));
        let r = self.get_unit_bandpass().mul_sub(&two, &self.x);
        proof {
            assert forall|i: int| 0 <= i < N implies r@[i] == allpass(self@)[i] by {
                let b = self@.bp1[i];
                lemma_div_multiples_vanish(2 * b, fixed::SCALE as int);
                assert(b * (2 * fixed::SCALE) == fixed::SCALE * (2 * b)) by (nonlinear_arith);
            }
            assert(r@ =~= allpass(self@));
        }
        r
    }

    /// The notch output, `x - unit_bandpass`.
    pub fn get_notch(&self) -> (r: Lanes<N>)
        ensures
            r@ == notch(self@),
            r@ == lanes::difference(self@.x, unit_bandpass(self@)),
    {
        self.get_passthrough().sub(self.get_unit_bandpass())
    }

    /// The high-shelf output for the root gain `root_gain`, the square root
    /// of the shelf's gain.
    pub fn get_high_shelf(&self, root_gain: Lanes<N>) -> (r: Lanes<N>)
        ensures
            r@ == high_shelf(self@, root_gain@),
    {
        let hp: &Lanes<N> = self.get_highpass();
        let bp1: &Lanes<N> = self.get_unit_bandpass();
        let lp: &Lanes<N> = self.get_lowpass();
        root_gain.mul_add(&root_gain.mul_add(hp, bp1), lp)
    }

    /// The band-shelf output for the root gain `root_gain`, the square root
    /// of the shelf's gain.
    pub fn get_band_shelf(&self, root_gain: Lanes<N>) -> (r: Lanes<N>)
        ensures
            r@ == band_shelf(self@, root_gain@),
    {
        let bp1: &Lanes<N> = self.get_unit_bandpass();
        let x: &Lanes<N> = self.get_passthrough();
        bp1.mul_add(&root_gain, &x.sub(bp1))
    }

    /// The low-shelf output for the root gain `root_gain`, the square root of
    /// the shelf's gain.
    pub fn get_low_shelf(&self, root_gain: Lanes<N>) -> (r: Lanes<N>)
        ensures
            r@ == low_shelf(self@, root_gain@),
    {
        let hp: &Lanes<N> = self.get_highpass();
        let bp1: &Lanes<N> = self.get_unit_bandpass();
        let lp: &Lanes<N> = self.get_lowpass();
        root_gain.mul_add(&root_gain.mul_add(lp, bp1), hp)
    }
}

/// Zero input keeps a filter that was reset silent: after a reset and then
/// any number of zero inputs, at least one, with any gain and any resonance,
/// highpass, bandpass, unit bandpass, lowpass and both integrators' states
/// are zero in every lane.
pub proof fn lemma_silence_after_reset(st: SvfState, g: Seq<int>, res: Seq<int>, count: nat)
    requires
        count > 0,
        st.lp.s.len() == st.bp.s.len(),
        g.len() == st.bp.s.len(),
        res.len() == st.bp.s.len(),
    ensures
        ({
            let n = st.bp.s.len();
            let after = advance_all(cleared(st), lanes::silence(n, count), g, res);
            &&& highpass(after) == lanes::constant(n, 0)
            &&& bandpass(after) == lanes::constant(n, 0)
            &&& unit_bandpass(after) == lanes::constant(n, 0)
            &&& lowpass(after) == lanes::constant(n, 0)
            &&& after.bp.s == lanes::constant(n, 0)
            &&& after.lp.s == lanes::constant(n, 0)
        }),
    decreases count,
{
    let n = st.bp.s.len();
    let zero = lanes::constant(n, 0);
    let xs = lanes::silence(n, count);
    let before = advance_all(cleared(st), xs.drop_last(), g, res);
    assert(xs.last() == zero);
    if count == 1 {
        assert(xs.drop_last().len() == 0);
        assert(before == cleared(st));
    } else {
        assert(xs.drop_last() =~= lanes::silence(n, (count - 1) as nat));
        lemma_silence_after_reset(st, g, res, (count - 1) as nat);
    }
    assert(before.bp.s == zero);
    assert(before.lp.s == zero);
    let g1 = lanes::sum(res, g);
    let num = lanes::product_plus(g1, lanes::negation(zero), lanes::difference(zero, zero));
    let den = lanes::product_plus(g1, g, lanes::constant(n, fixed::SCALE as int));
    assert forall|i: int| 0 <= i < n implies num[i] == 0 by {
        assert(g1[i] * 0 == 0) by (nonlinear_arith);
    }
    let hp = highpass_of(before, zero, g, res);
    assert forall|i: int| 0 <= i < n implies hp[i] == 0 by {
        fixed::lemma_quotient_of_zero(den[i]);
    }
    assert(hp =~= zero);
    assert forall|i: int| 0 <= i < n implies lanes::product(zero, g)[i] == 0 by {
        fixed::lemma_product_with_zero(g[i]);
    }
    assert(lanes::product(zero, g) =~= zero);
    assert forall|i: int| 0 <= i < n implies lanes::product(zero, res)[i] == 0 by {
        fixed::lemma_product_with_zero(res[i]);
    }
    assert(lanes::product(zero, res) =~= zero);
    assert(lanes::sum(zero, zero) =~= zero);
    let after = advance(before, zero, g, res);
    assert(after.bp.out == zero);
    assert(after.bp1 == zero);
    assert(after.lp.out == zero);
}

impl<const N: usize> Default for SVF<N> {
    /// A filter at rest.
    fn default() -> (r: Self)
        ensures
            r@ == at_rest(N as nat),
    {
        SVF::new()
    }
}

} // verus!
