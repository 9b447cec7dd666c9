//! Per-sample orchestration: a fixed set of string voices, retuned each
//! sample from caller-supplied target frequencies, stepped once, and mixed
//! with the dry signal into one hard-clipped output sample.

use vstd::prelude::*;
use crate::delay::MAX_LENGTH;
use crate::delay::delay_amount;
use crate::filter::Filter;
use crate::model::Model;
use crate::units::ONE;
use crate::units::INPUT_LIMIT;
use crate::units::STATE_LIMIT;
use crate::units::bounded_input;
use crate::units::decayed_feedback;
use crate::units::trunc_div;
use crate::units::div_towards_zero;
use crate::units::lemma_trunc_div_bound;

verus! {

/// Number of string voices in the engine.
pub const NUM_STRINGS: usize = 4;

/// Largest gain the mixer accepts: sixteen units.
pub const GAIN_LIMIT: i64 = 16 * ONE;

/// Bound on the dry contribution to one output sample: the gain limit, in
/// units, times the input limit.
pub const DRY_MIX_LIMIT: i64 = 16 * INPUT_LIMIT;

/// Bound on one voice's contribution to one output sample: the gain limit,
/// in units, times the feedback state limit.
pub const VOICE_MIX_LIMIT: i64 = 16 * STATE_LIMIT;

/// A gain the mixer accepts.
pub open spec fn bounded_gain(g: int) -> bool {
    0 <= g <= GAIN_LIMIT
}

/// The asymmetric hard clip at the output: a value above `ONE` clamps to
/// `ONE`, and a value below `-ONE` clamps to zero — not to `-ONE`. The
/// low-side rule is deliberate: a sample that undershoots the range mutes to
/// silence rather than slamming to the negative rail.
pub open spec fn clipped(x: int) -> int {
    if x < -ONE {
        0
    } else if x > ONE {
        ONE as int
    } else {
        x
    }
}

/// Hard-clips one mixed sample to the output range (see `clipped`).
pub fn clip(x: i64) -> (r: i64)
    ensures
        r == clipped(x as int),
        -ONE <= r <= ONE,
{
    if x < -ONE {
        0
    } else if x > ONE {
        ONE
    } else {
        x
    }
}

/// The sample a voice contributes at this step: its delay output read under
/// the lag just retuned to `f`.
pub open spec fn voice_out<MF: Filter>(v: Model<MF>, f: int, sampling: int) -> int {
    v.delay.buf()[(v.delay.write_pos() - delay_amount(f, sampling)) % (MAX_LENGTH as int)] as int
}

/// How one voice evolves in a step: retuned to `f`, then one feedback
/// advance fed by the dry input.
pub open spec fn voice_stepped<MF: Filter>(
    v: Model<MF>,
    f: int,
    dry: int,
    sampling: int,
    w: Model<MF>,
) -> bool {
    let vo = voice_out(v, f, sampling);
    &&& w.filter == v.filter.ticked(vo)
    &&& w.delay.lag() == delay_amount(f, sampling)
    &&& w.delay.write_pos() == (v.delay.write_pos() + 1) % (MAX_LENGTH as int)
    &&& w.delay.buf() == v.delay.buf().update(
        v.delay.write_pos(),
        decayed_feedback(v.filter.tick_out(vo), dry) as i64,
    )
}

/// The weighted sum of the first `n` voices' contributions.
pub open spec fn mix_sum<MF: Filter>(
    voices: Seq<Model<MF>>,
    freqs: Seq<i64>,
    gains: Seq<i64>,
    sampling: int,
    n: int,
) -> int
    decreases n,
{
    if n <= 0 {
        0
    } else {
        mix_sum(voices, freqs, gains, sampling, n - 1) + trunc_div(
            gains[n - 1] * voice_out(voices[n - 1], freqs[n - 1] as int, sampling),
            ONE as int,
        )
    }
}

/// The engine: a fixed array of voices. The low-frequency oscillator that
/// modulates the per-voice target frequencies, and the equal-tempered map
/// from notes to frequencies, are transcendental and belong to the caller,
/// which hands `step` one resolved frequency per voice.
pub struct Engine<ModelFilter: Filter> {
    pub voices: Vec<Model<ModelFilter>>,
}

impl<ModelFilter: Filter> Engine<ModelFilter> {
    pub open spec fn wf(&self) -> bool {
        &&& self.voices@.len() == NUM_STRINGS
        &&& forall|i: int| 0 <= i < self.voices@.len() ==> (#[trigger] self.voices@[i]).wf()
    }

    /// An engine over the given voices.
    pub fn new(voices: Vec<Model<ModelFilter>>) -> (r: Self)
        requires
            voices@.len() == NUM_STRINGS,
            forall|i: int| 0 <= i < voices@.len() ==> (#[trigger] voices@[i]).wf(),
        ensures
            r.wf(),
            r.voices@ == voices@,
    {
        Self { voices }
    }

    /// Per-frame retune of one voice's filter cutoff; the other voices are
    /// untouched.
    pub fn set_cutoff(&mut self, i: usize, cutoff: i64)
        requires
            old(self).wf(),
            i < NUM_STRINGS,
        ensures
            final(self).wf(),
            final(self).voices@ == old(self).voices@.update(
                i as int,
                (Model {
                    filter: old(self).voices@[i as int].filter.with_cutoff(cutoff as int),
                    delay: old(self).voices@[i as int].delay,
                }),
            ),
    {
        let v = &mut self.voices[i];
        v.filter.set_cutoff(cutoff);
    }

    /// Per-frame retune of one voice's filter resonance; the other voices
    /// are untouched.
    pub fn set_q(&mut self, i: usize, q: i64)
        requires
            old(self).wf(),
            i < NUM_STRINGS,
        ensures
            final(self).wf(),
            final(self).voices@ == old(self).voices@.update(
                i as int,
                (Model {
                    filter: old(self).voices@[i as int].filter.with_q(q as int),
                    delay: old(self).voices@[i as int].delay,
                }),
            ),
    {
        let v = &mut self.voices[i];
        v.filter.set_q(q);
    }

    /// One output sample: scales the dry input, retunes every voice's delay
    /// to its target frequency, advances every feedback loop once with the
    /// dry input, accumulates each voice's weighted output, and hard-clips.
    pub fn step(
        &mut self,
        dry: i64,
        dry_gain: i64,
        freqs: &Vec<i64>,
        gains: &Vec<i64>,
        sampling: i64,
    ) -> (out: i64)
        requires
            old(self).wf(),
            freqs@.len() == NUM_STRINGS,
            gains@.len() == NUM_STRINGS,
            bounded_input(dry as int),
            bounded_gain(dry_gain as int),
            forall|j: int| 0 <= j < gains@.len() ==> bounded_gain(#[trigger] gains@[j] as int),
            0 <= sampling <= 0x1000_0000_0000_0000,
            forall|j: int| 0 <= j < freqs@.len() ==> #[trigger] freqs@[j] <= 0x1000_0000_0000_0000,
        ensures
            final(self).wf(),
            out == clipped(
                trunc_div(dry_gain * dry, ONE as int) + mix_sum(
                    old(self).voices@,
                    freqs@,
                    gains@,
                    sampling as int,
                    NUM_STRINGS as int,
                ),
            ),
            -ONE <= out <= ONE,
            forall|j: int|
                0 <= j < NUM_STRINGS ==> voice_stepped(
                    old(self).voices@[j],
                    freqs@[j] as int,
                    dry as int,
                    sampling as int,
                    #[trigger] final(self).voices@[j],
                ),
    {
        proof {
            assert(-(ONE * DRY_MIX_LIMIT) <= dry_gain * dry <= ONE * DRY_MIX_LIMIT)
                by (nonlinear_arith)
                requires
                    0 <= dry_gain <= GAIN_LIMIT,
                    -INPUT_LIMIT <= dry <= INPUT_LIMIT,
            {}
            lemma_trunc_div_bound(dry_gain * dry, ONE as int, DRY_MIX_LIMIT as int);
        }
        let mut out: i64 = div_towards_zero(dry_gain * dry, ONE);
        let mut i: usize = 0;
        while i < NUM_STRINGS
            invariant
                i <= NUM_STRINGS,
                self.voices@.len() == NUM_STRINGS,
                freqs@.len() == NUM_STRINGS,
                gains@.len() == NUM_STRINGS,
                bounded_input(dry as int),
                bounded_gain(dry_gain as int),
                forall|j: int| 0 <= j < gains@.len() ==> bounded_gain(#[trigger] gains@[j] as int),
                0 <= sampling <= 0x1000_0000_0000_0000,
                forall|j: int|
                    0 <= j < freqs@.len() ==> #[trigger] freqs@[j] <= 0x1000_0000_0000_0000,
                forall|j: int| i <= j < NUM_STRINGS ==> self.voices@[j] == old(self).voices@[j],
                forall|j: int| 0 <= j < NUM_STRINGS ==> (#[trigger] self.voices@[j]).wf(),
                forall|j: int|
                    0 <= j < i ==> voice_stepped(
                        old(self).voices@[j],
                        freqs@[j] as int,
                        dry as int,
                        sampling as int,
                        #[trigger] self.voices@[j],
                    ),
                out as int == trunc_div(dry_gain * dry, ONE as int) + mix_sum(
                    old(self).voices@,
                    freqs@,
                    gains@,
                    sampling as int,
                    i as int,
                ),
                -(DRY_MIX_LIMIT + (i as int) * VOICE_MIX_LIMIT) <= out as int,
                out as int <= DRY_MIX_LIMIT + (i as int) * VOICE_MIX_LIMIT,
            decreases NUM_STRINGS - i,
        {
            let f: i64 = freqs[i];
            let g: i64 = gains[i];
            let v = &mut self.voices[i];
            v.retune(f, sampling);
            let vo: i64 = v.process(dry);
            proof {
                assert(-(ONE * VOICE_MIX_LIMIT) <= g * vo <= ONE * VOICE_MIX_LIMIT)
                    by (nonlinear_arith)
                    requires
                        0 <= g <= GAIN_LIMIT,
                        -STATE_LIMIT <= vo <= STATE_LIMIT,
                {}
                lemma_trunc_div_bound(g * vo, ONE as int, VOICE_MIX_LIMIT as int);
            }
            let term: i64 = div_towards_zero(g * vo, ONE);
            proof {
                assert((i as int + 1) * VOICE_MIX_LIMIT == (i as int) * VOICE_MIX_LIMIT
                    + VOICE_MIX_LIMIT) by (nonlinear_arith) {}
                assert((i as int) * VOICE_MIX_LIMIT <= 4 * VOICE_MIX_LIMIT) by (nonlinear_arith)
                    requires
                        0 <= i < 4,
                {}
            }
            out = out + term;
            i = i + 1;
        }
        clip(out)
    }
}

} // verus!
