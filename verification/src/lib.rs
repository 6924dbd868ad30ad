//! Zero-delay-feedback filter kernels in saturating fixed-point arithmetic.
//!
//! The building block is the trapezoidal [`Integrator`]. A
//! [`one_pole::OnePole`] filter holds one of them, a state-variable filter
//! [`svf::SVF`] two. Each filter is advanced once per sample by `process` and
//! then read through its `get_*` methods, which give the filter's shapes
//! (lowpass, highpass, allpass, shelves, ...) from the same state.
//!
//! All numbers are [`fixed::Fixed`], held `N` at a time in
//! [`lanes::Lanes`]: each lane is a channel of its own.
use vstd::prelude::*;

pub mod complex;
pub mod fixed;
pub mod lanes;
pub mod one_pole;
pub mod svf;

verus! {

/// What an [`Integrator`] holds, as raw values lane by lane.
pub struct IntegratorState {
    /// The internal state `v[n]`.
    pub s: Seq<int>,
    /// The last output `y[n]`.
    pub out: Seq<int>,
}

/// The state of an integrator of `n` lanes at rest: all zero.
pub open spec fn at_rest(n: nat) -> IntegratorState {
    IntegratorState { s: lanes::constant(n, 0), out: lanes::constant(n, 0) }
}

/// The state after the input `x`:
///
/// `y[n] = x[n] + v[n-1]`
///
/// `v[n] = y[n] + x[n]`
pub open spec fn advance(st: IntegratorState, x: Seq<int>) -> IntegratorState {
    let out = lanes::sum(x, st.s);
    IntegratorState { s: lanes::sum(out, x), out }
}

/// The state after a reset: `v[n]` is zero, the last output stays.
pub open spec fn cleared(st: IntegratorState) -> IntegratorState {
    IntegratorState { s: lanes::constant(st.s.len(), 0), out: st.out }
}

/// The state after the inputs `xs`, fed one after the other.
pub open spec fn advance_all(st: IntegratorState, xs: Seq<Seq<int>>) -> IntegratorState
    decreases xs.len(),
{
    if xs.len() == 0 {
        st
    } else {
        advance(advance_all(st, xs.drop_last()), xs.last())
    }
}

/// Transposed Direct Form II trapezoidal integrator, without the `0.5`
/// pre-gain.
///
/// With `x[n]` the input, `y[n]` the output and `v[n]` the internal state:
///
/// `y[n] = x[n] + v[n-1]`
///
/// `v[n] = y[n] + x[n]`
///
/// Transfer function: `(z + 1) / (z - 1)`.
#[derive(Clone, Copy, Debug)]
pub struct Integrator<const N: usize> {
    s: lanes::Lanes<N>,
    out: lanes::Lanes<N>,
}

impl<const N: usize> View for Integrator<N> {
    type V = IntegratorState;

    closed spec fn view(&self) -> IntegratorState {
        IntegratorState { s: self.s@, out: self.out@ }
    }
}

impl<const N: usize> Integrator<N> {
    /// An integrator at rest: state and output are zero in every lane.
    pub fn new() -> (r: Self)
        ensures
            r@ == at_rest(N as nat),
    {
        let zero = lanes::Lanes::splat(fixed::Fixed::zero());
        Integrator { s: zero, out: zero }
    }

    /// State and output hold one raw value per lane.
    pub proof fn lemma_valid(&self)
        ensures
            lanes::valid(self@.s, N as nat),
            lanes::valid(self@.out, N as nat),
    {
    }

    /// Feeds the input `x[n]`, which the caller has already scaled by any
    /// gain, and updates the output `y[n]` and the state `v[n]`.
    pub fn process(&mut self, x: lanes::Lanes<N>)
        ensures
            final(self)@ == advance(old(self)@, x@),
            final(self)@.out == lanes::sum(x@, old(self)@.s),
            final(self)@.s == lanes::sum(final(self)@.out, x@),
    {
        self.out = x.add(&self.s);
        self.s = self.out.add(&x);
    }

    /// The current output `y[n]`.
    pub fn output(&self) -> (r: &lanes::Lanes<N>)
        ensures
            r@ == self@.out,
    {
        &self.out
    }

    /// Sets the state `v[n]` to zero. The last output stays as it is until
    /// the next `process`.
    pub fn reset(&mut self)
        ensures
            final(self)@ == cleared(old(self)@),
    {
        self.s = lanes::Lanes::splat(fixed::Fixed::zero());
    }

    /// The current state `v[n]`.
    pub fn state(&self) -> (r: &lanes::Lanes<N>)
        ensures
            r@ == self@.s,
    {
        &self.s
    }
}

/// After any inputs, the state is the output plus the last input.
pub proof fn lemma_state_is_output_plus_input(st: IntegratorState, xs: Seq<Seq<int>>)
    requires
        xs.len() > 0,
    ensures
        advance_all(st, xs).s == lanes::sum(advance_all(st, xs).out, xs.last()),
{
}

/// Zero input keeps an integrator that was reset at zero: after a reset and
/// then any number of zero inputs, at least one, output and state are zero in
/// every lane.
pub proof fn lemma_silence_after_reset(st: IntegratorState, count: nat)
    requires
        count > 0,
    ensures
        advance_all(cleared(st), lanes::silence(st.s.len(), count)).out == lanes::constant(
            st.s.len(),
            0,
        ),
        advance_all(cleared(st), lanes::silence(st.s.len(), count)).s == lanes::constant(
            st.s.len(),
            0,
        ),
    decreases count,
{
    let n = st.s.len();
    let zero = lanes::constant(n, 0);
    let xs = lanes::silence(n, count);
    let before = advance_all(cleared(st), xs.drop_last());
    assert(xs.last() == zero);
    if count == 1 {
        assert(xs.drop_last().len() == 0);
        assert(before == cleared(st));
    } else {
        assert(xs.drop_last() =~= lanes::silence(n, (count - 1) as nat));
        lemma_silence_after_reset(st, (count - 1) as nat);
    }
    assert(before.s == zero);
    assert(lanes::sum(zero, zero) =~= zero);
}

impl<const N: usize> Default for Integrator<N> {
    /// An integrator at rest.
    fn default() -> (r: Self)
        ensures
            r@ == at_rest(N as nat),
    {
        Integrator::new()
    }
}

} // verus!
