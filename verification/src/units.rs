//! The engine's fixed-point sample domain.
//!
//! Samples, gains and tuning scalars are `i64` values scaled by `ONE`.
//! The bounds here keep every product of the feedback loop inside `i64`
//! and make the loop's stability provable.

use vstd::prelude::*;
use vstd::arithmetic::div_mod::lemma_div_pos_is_pos;
use vstd::arithmetic::div_mod::lemma_div_is_ordered;
use vstd::arithmetic::div_mod::lemma_div_multiples_vanish;
use vstd::arithmetic::div_mod::lemma_div_nonincreasing;

verus! {

/// One, in the fixed-point sample scale.
pub const ONE: i64 = 65536;

/// Largest magnitude the engine accepts for a dry input sample: sixteen
/// units of headroom above the nominal `[-ONE, ONE]` range.
pub const INPUT_LIMIT: i64 = 16 * 65536;

/// Bound kept by every voice's feedback state. With the decay of
/// `DECAY_NUM / DECAY_DEN` per step, `DECAY_NUM * (STATE_LIMIT + INPUT_LIMIT)`
/// is at most `DECAY_DEN * STATE_LIMIT`, so the loop can never grow past it.
pub const STATE_LIMIT: i64 = 49 * INPUT_LIMIT;

/// Numerator of the fixed decay constant applied to every feedback sample.
pub const DECAY_NUM: i64 = 98;

/// Denominator of the fixed decay constant.
pub const DECAY_DEN: i64 = 100;

/// A value the feedback path may carry.
pub open spec fn bounded_sample(x: int) -> bool {
    -STATE_LIMIT <= x <= STATE_LIMIT
}

/// A value acceptable as a dry input sample.
pub open spec fn bounded_input(x: int) -> bool {
    -INPUT_LIMIT <= x <= INPUT_LIMIT
}

/// Division truncating toward zero, as the executable `/` computes it.
pub open spec fn trunc_div(a: int, b: int) -> int {
    if a >= 0 {
        a / b
    } else {
        -((-a) / b)
    }
}

/// The decayed sample a voice writes back into its delay line: the filtered
/// value plus the fresh input, attenuated by the fixed decay constant.
pub open spec fn decayed_feedback(filtered: int, input: int) -> int {
    trunc_div(DECAY_NUM * (filtered + input), DECAY_DEN as int)
}

/// Divides `t` by `d`, truncating toward zero, as `/` behaves on machine
/// integers.
pub fn div_towards_zero(t: i64, d: i64) -> (r: i64)
    requires
        d > 0,
        t > -0x7fff_ffff_ffff_ffff,
    ensures
        r == trunc_div(t as int, d as int),
{
    if t >= 0 {
        proof {
            lemma_div_pos_is_pos(t as int, d as int);
            lemma_div_nonincreasing(t as int, d as int);
        }
        t / d
    } else {
        proof {
            lemma_div_pos_is_pos(-(t as int), d as int);
            lemma_div_nonincreasing(-(t as int), d as int);
        }
        -((-t) / d)
    }
}

/// Truncating division keeps a symmetric bound: if `|t| <= d * bound` then
/// `|t / d| <= bound`.
pub proof fn lemma_trunc_div_bound(t: int, d: int, bound: int)
    requires
        d > 0,
        bound >= 0,
        -(d * bound) <= t <= d * bound,
    ensures
        -bound <= trunc_div(t, d) <= bound,
{
    if t >= 0 {
        lemma_div_pos_is_pos(t, d);
        lemma_div_is_ordered(t, d * bound, d);
        lemma_div_multiples_vanish(bound, d);
    } else {
        lemma_div_pos_is_pos(-t, d);
        lemma_div_is_ordered(-t, d * bound, d);
        lemma_div_multiples_vanish(bound, d);
    }
}

} // verus!
