//! The filter capability of a voice's feedback path, and the one-pole
//! exponential damping filter that implements it.

use vstd::prelude::*;
use crate::units::ONE;
use crate::units::STATE_LIMIT;
use crate::units::bounded_sample;
use crate::units::trunc_div;
use crate::units::div_towards_zero;
use crate::units::lemma_trunc_div_bound;

verus! {

/// What a voice asks of its damping element: advance one sample of internal
/// state per `tick`, and retune on demand. Every behaviour is pinned by the
/// implementor's own specification functions, and a tick of a bounded sample
/// stays bounded, which is what keeps the feedback loop stable.
pub trait Filter: Sized {
    /// The implementor's internal well-formedness.
    spec fn inv(&self) -> bool;

    /// The value the next `tick` returns for `input`.
    spec fn tick_out(&self, input: int) -> int;

    /// The state after a `tick` of `input`.
    spec fn ticked(&self, input: int) -> Self;

    /// The state after retuning the cutoff.
    spec fn with_cutoff(&self, cutoff: int) -> Self;

    /// The state after retuning the resonance.
    spec fn with_q(&self, q: int) -> Self;

    /// Advances the internal one-sample state and returns the filtered value.
    fn tick(&mut self, input: i64) -> (r: i64)
        requires
            old(self).inv(),
            bounded_sample(input as int),
        ensures
            final(self).inv(),
            r as int == old(self).tick_out(input as int),
            *final(self) == old(self).ticked(input as int),
            bounded_sample(r as int),
    ;

    /// Retunes the cutoff; the next `tick` reflects it at once.
    fn set_cutoff(&mut self, cutoff: i64)
        requires
            old(self).inv(),
        ensures
            final(self).inv(),
            *final(self) == old(self).with_cutoff(cutoff as int),
    ;

    /// Retunes the resonance; the next `tick` reflects it at once.
    fn set_q(&mut self, q: i64)
        requires
            old(self).inv(),
        ensures
            final(self).inv(),
            *final(self) == old(self).with_q(q as int),
    ;
}

/// A coefficient clamped into `[0, ONE]`.
pub open spec fn clamped_coeff(c: int) -> int {
    if c < 0 {
        0
    } else if c > ONE {
        ONE as int
    } else {
        c
    }
}

/// The comb damping equation: one pole of feedback `b` against feedforward
/// `a = ONE - b`, a convex mix of the previous output and the input.
pub open spec fn comb_out(b: int, x: int, input: int) -> int {
    trunc_div(b * x + (ONE - b) * input, ONE as int)
}

/// A one-pole exponential damping filter: cheap high-frequency damping for a
/// string voice. Its tuning parameter is the feedback coefficient itself, in
/// fixed point: the exponential map from a cutoff in cycles per sample to
/// this coefficient is the caller's concern, and anything outside `[0, ONE]`
/// is clamped.
pub struct CombFilter {
    /// The one-sample history cell: the previous output.
    pub x: i64,
    /// The feedforward coefficient, kept equal to `ONE - b`.
    pub a: i64,
    /// The feedback coefficient, in `[0, ONE]`.
    pub b: i64,
}

impl Filter for CombFilter {
    open spec fn inv(&self) -> bool {
        &&& 0 <= self.b <= ONE
        &&& self.a == ONE - self.b
        &&& bounded_sample(self.x as int)
    }

    open spec fn tick_out(&self, input: int) -> int {
        comb_out(self.b as int, self.x as int, input)
    }

    open spec fn ticked(&self, input: int) -> Self {
        CombFilter { x: self.tick_out(input) as i64, a: self.a, b: self.b }
    }

    open spec fn with_cutoff(&self, cutoff: int) -> Self {
        CombFilter {
            x: self.x,
            a: (ONE - clamped_coeff(cutoff)) as i64,
            b: clamped_coeff(cutoff) as i64,
        }
    }

    open spec fn with_q(&self, q: int) -> Self {
        *self
    }

    fn tick(&mut self, input: i64) -> (r: i64) {
        proof {
            lemma_comb_out_bounded(self.b as int, self.x as int, input as int, STATE_LIMIT as int);
        }
        let t: i64 = self.b * self.x + self.a * input;
        let y: i64 = div_towards_zero(t, ONE);
        self.x = y;
        y
    }

    fn set_cutoff(&mut self, cutoff: i64) {
        let b: i64 = if cutoff < 0 {
            0
        } else if cutoff > ONE {
            ONE
        } else {
            cutoff
        };
        self.b = b;
        self.a = ONE - b;
    }

    fn set_q(&mut self, q: i64) {
    }
}

impl CombFilter {
    /// A comb filter with cleared history and both coefficients at one half.
    pub fn new() -> (r: Self)
        ensures
            r.inv(),
            r.x == 0,
            r.b == ONE / 2,
            r.a == ONE - ONE / 2,
    {
        CombFilter { x: 0, a: ONE - ONE / 2, b: ONE / 2 }
    }
}

impl Default for CombFilter {
    /// Same state as `new`: cleared history, both coefficients at one half.
    fn default() -> (r: Self)
        ensures
            r.inv(),
            r.x == 0,
            r.b == ONE / 2,
            r.a == ONE - ONE / 2,
    {
        CombFilter::new()
    }
}

/// A convex mix of two bounded values is bounded: the comb equation can never
/// grow past the magnitude of its inputs.
pub proof fn lemma_comb_out_bounded(b: int, x: int, input: int, m: int)
    requires
        0 <= b <= ONE,
        m >= 0,
        -m <= x <= m,
        -m <= input <= m,
    ensures
        -(ONE * m) <= b * x <= ONE * m,
        -(ONE * m) <= (ONE - b) * input <= ONE * m,
        -(ONE * m) <= b * x + (ONE - b) * input <= ONE * m,
        -m <= comb_out(b, x, input) <= m,
{
    assert(-(ONE * m) <= b * x <= ONE * m && -(ONE * m) <= (ONE - b) * input <= ONE * m
        && -(ONE * m) <= b * x + (ONE - b) * input <= ONE * m) by (nonlinear_arith)
        requires
            0 <= b <= ONE,
            m >= 0,
            -m <= x <= m,
            -m <= input <= m,
    {}
    lemma_trunc_div_bound(b * x + (ONE - b) * input, ONE as int, m);
}

} // verus!
