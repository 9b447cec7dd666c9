//! A string voice: one delay line and one damping filter coupled into a
//! feedback resonator.

use vstd::prelude::*;
use crate::delay::DelayLine;
use crate::delay::MAX_LENGTH;
use crate::filter::Filter;
use crate::filter::comb_out;
use crate::units::ONE;
use crate::units::DECAY_NUM;
use crate::units::DECAY_DEN;
use crate::units::STATE_LIMIT;
use crate::units::bounded_sample;
use crate::units::bounded_input;
use crate::units::decayed_feedback;
use crate::units::trunc_div;
use crate::units::div_towards_zero;
use crate::units::lemma_trunc_div_bound;
use vstd::arithmetic::div_mod::lemma_fundamental_div_mod;
use vstd::arithmetic::div_mod::lemma_div_pos_is_pos;
use vstd::arithmetic::div_mod::lemma_div_is_ordered;

verus! {

/// One resonating string: a delay line with a damping filter in its feedback
/// path. Always resonating; pitch and timbre come entirely from how the
/// delay and filter are retuned before each call.
pub struct Model<ModelFilter: Filter> {
    pub filter: ModelFilter,
    pub delay: DelayLine<i64>,
}

impl<ModelFilter: Filter> Model<ModelFilter> {
    /// Well-formed: the filter holds its invariant and every sample stored in
    /// the loop is bounded, which keeps the feedback arithmetic in range.
    pub open spec fn wf(&self) -> bool {
        &&& self.filter.inv()
        &&& self.delay.wf()
        &&& forall|i: int|
            0 <= i < self.delay.buf().len() ==> bounded_sample(
                #[trigger] self.delay.buf()[i] as int,
            )
    }

    /// A voice around the given filter, with a silent, untuned delay line.
    pub fn new(f: ModelFilter) -> (r: Self)
        requires
            f.inv(),
        ensures
            r.wf(),
            r.filter == f,
            r.delay.buf() == Seq::new(MAX_LENGTH as nat, |i: int| 0i64),
            r.delay.write_pos() == 0,
            r.delay.lag() == 0,
    {
        Self { filter: f, delay: DelayLine::new(0) }
    }

    /// Retunes the voice's delay to the target frequency (see
    /// `DelayLine::set_frequency`).
    pub fn retune(&mut self, f: i64, sampling: i64)
        requires
            old(self).wf(),
            0 <= sampling <= 0x1000_0000_0000_0000,
            f <= 0x1000_0000_0000_0000,
        ensures
            final(self).wf(),
            final(self).filter == old(self).filter,
            final(self).delay.lag() == crate::delay::delay_amount(f as int, sampling as int),
            final(self).delay.buf() == old(self).delay.buf(),
            final(self).delay.write_pos() == old(self).delay.write_pos(),
    {
        self.delay.set_frequency(f, sampling);
    }

    /// One feedback step. Returns the delay output (the voice's audible
    /// sample, read before filtering), feeds it through the filter, adds the
    /// fresh input, and writes the decayed sum back into the delay line. The
    /// delay and the filter each advance exactly once.
    pub fn process(&mut self, input: i64) -> (out: i64)
        requires
            old(self).wf(),
            bounded_input(input as int),
        ensures
            final(self).wf(),
            out == old(self).delay.read_value(),
            bounded_sample(out as int),
            final(self).filter == old(self).filter.ticked(out as int),
            final(self).delay.buf() == old(self).delay.buf().update(
                old(self).delay.write_pos(),
                decayed_feedback(old(self).filter.tick_out(out as int), input as int) as i64,
            ),
            final(self).delay.write_pos() == (old(self).delay.write_pos() + 1) % (
            MAX_LENGTH as int),
            final(self).delay.lag() == old(self).delay.lag(),
    {
        let delay_out: i64 = self.delay.pop();
        let f_result: i64 = self.filter.tick(delay_out);
        let delay_result: i64 = f_result + input;
        proof {
            lemma_trunc_div_bound(
                DECAY_NUM * delay_result,
                DECAY_DEN as int,
                STATE_LIMIT as int,
            );
        }
        self.delay.push(div_towards_zero(DECAY_NUM * delay_result, DECAY_DEN));
        delay_out
    }
}

/// Feedback stability, for any decay constant `dn / dd` strictly below one:
/// starting from a loop whose delay contents and filter state are all within
/// a bound `m`, one feedback step with no fresh input writes back a sample no
/// larger than `m` decayed by that constant — strictly below `m` whenever `m`
/// is positive. The loop's magnitude can therefore never grow, and every
/// sample it regenerates shrinks geometrically toward zero. A constant at or
/// above one gives no such bound, which is why the engine fixes one below.
pub proof fn lemma_feedback_decay(b: int, x: int, read: int, m: int, dn: int, dd: int)
    requires
        0 <= b <= ONE,
        0 <= m,
        -m <= x <= m,
        -m <= read <= m,
        0 <= dn < dd,
    ensures
        -m <= comb_out(b, x, read) <= m,
        -((dn * m) / dd) <= trunc_div(dn * (comb_out(b, x, read) + 0), dd),
        trunc_div(dn * (comb_out(b, x, read) + 0), dd) <= (dn * m) / dd,
        m > 0 ==> (dn * m) / dd < m,
{
    crate::filter::lemma_comb_out_bounded(b, x, read, m);
    let c: int = comb_out(b, x, read);
    lemma_div_pos_is_pos(dn * m, dd);
    assert(-(dn * m) <= dn * (c + 0) <= dn * m) by (nonlinear_arith)
        requires
            -m <= c <= m,
            0 <= dn,
    {}
    if dn * (c + 0) >= 0 {
        lemma_div_is_ordered(dn * (c + 0), dn * m, dd);
    } else {
        lemma_div_is_ordered(-(dn * (c + 0)), dn * m, dd);
        lemma_div_pos_is_pos(-(dn * (c + 0)), dd);
    }
    if m > 0 {
        lemma_fundamental_div_mod(dn * m, dd);
        let q: int = (dn * m) / dd;
        let r: int = (dn * m) % dd;
        assert(q < m) by (nonlinear_arith)
            requires
                dn * m == dd * q + r,
                0 <= r < dd,
                0 <= dn < dd,
                m > 0,
        {}
    }
}

/// The engine's own decay constant instantiates the stability law: with no
/// fresh input, the sample a comb-damped voice writes back is within
/// `98 / 100` of the loop's current bound.
pub proof fn lemma_voice_step_decay(b: int, x: int, read: int, m: int)
    requires
        0 <= b <= ONE,
        0 <= m,
        -m <= x <= m,
        -m <= read <= m,
    ensures
        -m <= comb_out(b, x, read) <= m,
        -((DECAY_NUM * m) / (DECAY_DEN as int)) <= decayed_feedback(comb_out(b, x, read), 0),
        decayed_feedback(comb_out(b, x, read), 0) <= (DECAY_NUM * m) / (DECAY_DEN as int),
        m > 0 ==> (DECAY_NUM * m) / (DECAY_DEN as int) < m,
{
    lemma_feedback_decay(b, x, read, m, DECAY_NUM as int, DECAY_DEN as int);
}

} // verus!
