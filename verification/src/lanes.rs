//! Lane vectors: `N` fixed-point numbers that are worked on side by side.
//!
//! Each lane is a channel of its own. Every operation works lane by lane and
//! no lane ever reads another.
use crate::fixed;
use crate::fixed::Fixed;
use vstd::prelude::*;

verus! {

/// Lane by lane, the raw values of `a + b`.
pub open spec fn sum(a: Seq<int>, b: Seq<int>) -> Seq<int> {
    Seq::new(a.len(), |i: int| fixed::sum(a[i], b[i]))
}

/// Lane by lane, the raw values of `a - b`.
pub open spec fn difference(a: Seq<int>, b: Seq<int>) -> Seq<int> {
    Seq::new(a.len(), |i: int| fixed::difference(a[i], b[i]))
}

/// Lane by lane, the raw values of `-a`.
pub open spec fn negation(a: Seq<int>) -> Seq<int> {
    Seq::new(a.len(), |i: int| fixed::negation(a[i]))
}

/// Lane by lane, the raw values of `a * b`.
pub open spec fn product(a: Seq<int>, b: Seq<int>) -> Seq<int> {
    Seq::new(a.len(), |i: int| fixed::product(a[i], b[i]))
}

/// Lane by lane, the raw values of `a * b + c`, rounded and clamped once.
pub open spec fn product_plus(a: Seq<int>, b: Seq<int>, c: Seq<int>) -> Seq<int> {
    Seq::new(a.len(), |i: int| fixed::product_plus(a[i], b[i], c[i]))
}

/// Lane by lane, the raw values of `a * b - c`, rounded and clamped once.
pub open spec fn product_minus(a: Seq<int>, b: Seq<int>, c: Seq<int>) -> Seq<int> {
    Seq::new(a.len(), |i: int| fixed::product_minus(a[i], b[i], c[i]))
}

/// Lane by lane, the raw values of `a / b`.
pub open spec fn quotient(a: Seq<int>, b: Seq<int>) -> Seq<int> {
    Seq::new(a.len(), |i: int| fixed::quotient(a[i], b[i]))
}

/// Lane by lane, the raw values of the square root of `a`.
pub open spec fn root(a: Seq<int>) -> Seq<int> {
    Seq::new(a.len(), |i: int| fixed::root(a[i]))
}

/// `n` lanes that all hold the raw value `v`.
pub open spec fn constant(n: nat, v: int) -> Seq<int> {
    Seq::new(n, |i: int| v)
}

/// `count` inputs of `n` lanes each, all of them zero.
pub open spec fn silence(n: nat, count: nat) -> Seq<Seq<int>> {
    Seq::new(count, |k: int| constant(n, 0))
}

/// Whether `a` has `n` lanes and holds a raw value in each.
pub open spec fn valid(a: Seq<int>, n: nat) -> bool {
    a.len() == n && forall|i: int| 0 <= i < n ==> fixed::in_range(#[trigger] a[i])
}

/// Whether `a - b` is a raw value in every lane, so that the difference is
/// not clamped.
pub open spec fn exact_difference(a: Seq<int>, b: Seq<int>) -> bool {
    forall|i: int| 0 <= i < a.len() ==> fixed::in_range(#[trigger] a[i] - #[trigger] b[i])
}

/// `N` fixed-point numbers, one per lane.
#[derive(Clone, Copy, Debug)]
pub struct Lanes<const N: usize> {
    /// The numbers, lane by lane.
    pub v: [Fixed; N],
}

impl<const N: usize> View for Lanes<N> {
    type V = Seq<int>;

    /// The raw values, lane by lane.
    open spec fn view(&self) -> Seq<int> {
        Seq::new(N as nat, |i: int| self.v@[i]@)
    }
}

impl<const N: usize> Lanes<N> {
    /// The lanes held by `values`.
    pub fn from_array(values: [Fixed; N]) -> (r: Self)
        ensures
            r@.len() == N,
            forall|i: int| 0 <= i < N ==> r@[i] == values@[i]@,
    {
        Lanes { v: values }
    }

    /// The lanes as an array.
    pub fn to_array(&self) -> (r: [Fixed; N])
        ensures
            forall|i: int| 0 <= i < N ==> r@[i]@ == self@[i],
    {
        self.v
    }

    /// The number in lane `i`.
    pub fn lane(&self, i: usize) -> (r: Fixed)
        requires
            i < N,
        ensures
            r@ == self@[i as int],
    {
        self.v[i]
    }

    /// `value` in every lane.
    pub fn splat(value: Fixed) -> (r: Self)
        ensures
            r@ == constant(N as nat, value@),
    {
        let r = Lanes { v: [value; N] };
        assert(r@ =~= constant(N as nat, value@));
        r
    }

    /// `self + rhs`, lane by lane.
    pub fn add(&self, rhs: &Self) -> (r: Self)
        ensures
            r@ == sum(self@, rhs@),
    {
        let mut out: [Fixed; N] = self.v;
        let mut i: usize = 0;
        while i < N
            invariant
                i <= N,
                forall|j: int| 0 <= j < i ==> out@[j]@ == fixed::sum(self@[j], rhs@[j]),
            decreases N - i,
        {
            out[i] = self.v[i].add(rhs.v[i]);
            i += 1;
        }
        let r = Lanes { v: out };
        assert(r@ =~= sum(self@, rhs@));
        r
    }

    /// `self - rhs`, lane by lane.
    pub fn sub(&self, rhs: &Self) -> (r: Self)
        ensures
            r@ == difference(self@, rhs@),
    {
        let mut out: [Fixed; N] = self.v;
        let mut i: usize = 0;
        while i < N
            invariant
                i <= N,
                forall|j: int| 0 <= j < i ==> out@[j]@ == fixed::difference(self@[j], rhs@[j]),
            decreases N - i,
        {
            out[i] = self.v[i].sub(rhs.v[i]);
            i += 1;
        }
        let r = Lanes { v: out };
        assert(r@ =~= difference(self@, rhs@));
        r
    }

    /// `-self`, lane by lane.
    pub fn neg(&self) -> (r: Self)
        ensures
            r@ == negation(self@),
    {
        let mut out: [Fixed; N] = self.v;
        let mut i: usize = 0;
        while i < N
            invariant
                i <= N,
                forall|j: int| 0 <= j < i ==> out@[j]@ == fixed::negation(self@[j]),
            decreases N - i,
        {
            out[i] = self.v[i].neg();
            i += 1;
        }
        let r = Lanes { v: out };
        assert(r@ =~= negation(self@));
        r
    }

    /// `self * rhs`, lane by lane, each product rounded down.
    pub fn mul(&self, rhs: &Self) -> (r: Self)
        ensures
            r@ == product(self@, rhs@),
    {
        let mut out: [Fixed; N] = self.v;
        let mut i: usize = 0;
        while i < N
            invariant
                i <= N,
                forall|j: int| 0 <= j < i ==> out@[j]@ == fixed::product(self@[j], rhs@[j]),
            decreases N - i,
        {
            out[i] = self.v[i].mul(rhs.v[i]);
            i += 1;
        }
        let r = Lanes { v: out };
        assert(r@ =~= product(self@, rhs@));
        r
    }

    /// `self * factor + addend`, lane by lane, each lane rounded and clamped once.
    pub fn mul_add(&self, factor: &Self, addend: &Self) -> (r: Self)
        ensures
            r@ == product_plus(self@, factor@, addend@),
    {
        let mut out: [Fixed; N] = self.v;
        let mut i: usize = 0;
        while i < N
            invariant
                i <= N,
                forall|j: int|
                    0 <= j < i ==> out@[j]@ == fixed::product_plus(self@[j], factor@[j], addend@[j]),
            decreases N - i,
        {
            out[i] = self.v[i].mul_add(factor.v[i], addend.v[i]);
            i += 1;
        }
        let r = Lanes { v: out };
        assert(r@ =~= product_plus(self@, factor@, addend@));
        r
    }

    /// `self * factor - subtrahend`, lane by lane, each lane rounded and clamped once.
    pub fn mul_sub(&self, factor: &Self, subtrahend: &Self) -> (r: Self)
        ensures
            r@ == product_minus(self@, factor@, subtrahend@),
    {
        let mut out: [Fixed; N] = self.v;
        let mut i: usize = 0;
        while i < N
            invariant
                i <= N,
                forall|j: int|
                    0 <= j < i ==> out@[j]@ == fixed::product_minus(self@[j], factor@[j], subtrahend@[j]),
            decreases N - i,
        {
            out[i] = self.v[i].mul_sub(factor.v[i], subtrahend.v[i]);
            i += 1;
        }
        let r = Lanes { v: out };
        assert(r@ =~= product_minus(self@, factor@, subtrahend@));
        r
    }

    /// `self / rhs`, lane by lane, each quotient rounded down.
    pub fn div(&self, rhs: &Self) -> (r: Self)
        ensures
            r@ == quotient(self@, rhs@),
    {
        let mut out: [Fixed; N] = self.v;
        let mut i: usize = 0;
        while i < N
            invariant
                i <= N,
                forall|j: int| 0 <= j < i ==> out@[j]@ == fixed::quotient(self@[j], rhs@[j]),
            decreases N - i,
        {
            out[i] = self.v[i].div(rhs.v[i]);
            i += 1;
        }
        let r = Lanes { v: out };
        assert(r@ =~= quotient(self@, rhs@));
        r
    }

    /// The square root of `self`, lane by lane, each root rounded down; zero
    /// in a lane that holds a negative number.
    pub fn sqrt(&self) -> (r: Self)
        ensures
            r@ == root(self@),
    {
        let mut out: [Fixed; N] = self.v;
        let mut i: usize = 0;
        while i < N
            invariant
                i <= N,
                forall|j: int| 0 <= j < i ==> out@[j]@ == fixed::root(self@[j]),
            decreases N - i,
        {
            out[i] = self.v[i].sqrt();
            i += 1;
        }
        let r = Lanes { v: out };
        assert(r@ =~= root(self@));
        r
    }
}

} // verus!
