use string_resonator::engine::{clip, Engine, NUM_STRINGS};
use string_resonator::filter::{CombFilter, Filter};
use string_resonator::model::Model;
use string_resonator::units::ONE;

fn comb_engine() -> Engine<CombFilter> {
    let mut voices: Vec<Model<CombFilter>> = Vec::new();
    for _ in 0..NUM_STRINGS {
        let mut filter = CombFilter::new();
        filter.set_cutoff(0);
        voices.push(Model::new(filter));
    }
    Engine::new(voices)
}

#[test]
fn clip_is_asymmetric() {
    // Inside the range: unchanged.
    assert_eq!(clip(0), 0);
    assert_eq!(clip(123), 123);
    assert_eq!(clip(-123), -123);
    assert_eq!(clip(ONE), ONE);
    assert_eq!(clip(-ONE), -ONE);
    // Above the range: clamps to one.
    assert_eq!(clip(ONE + 1), ONE);
    assert_eq!(clip(2 * ONE), ONE);
    // Below the range: clamps to zero, not to minus one.
    assert_eq!(clip(-ONE - 1), 0);
    assert_eq!(clip(-5 * ONE), 0);
}

#[test]
fn engine_dry_path_scales_the_input() {
    let mut e = comb_engine();
    let freqs: Vec<i64> = vec![ONE; NUM_STRINGS];
    let gains: Vec<i64> = vec![0; NUM_STRINGS];
    // Unity dry gain, silent voices: the input comes back unchanged.
    assert_eq!(e.step(1000, ONE, &freqs, &gains, 441000 * ONE), 1000);
    // Half dry gain.
    assert_eq!(e.step(1000, ONE / 2, &freqs, &gains, 441000 * ONE), 500);
}

#[test]
fn engine_dry_scaling_truncates_toward_zero() {
    let mut e = comb_engine();
    let freqs: Vec<i64> = vec![ONE; NUM_STRINGS];
    let gains: Vec<i64> = vec![0; NUM_STRINGS];
    // Half gain on three steps is one and a half: truncated toward zero on
    // both signs.
    assert_eq!(e.step(3, ONE / 2, &freqs, &gains, 441000 * ONE), 1);
    assert_eq!(e.step(-3, ONE / 2, &freqs, &gains, 441000 * ONE), -1);
}

#[test]
fn engine_clips_a_hot_mix() {
    let mut e = comb_engine();
    let freqs: Vec<i64> = vec![ONE; NUM_STRINGS];
    let gains: Vec<i64> = vec![0; NUM_STRINGS];
    // Four units of dry gain on a full-scale input clips to one.
    assert_eq!(e.step(ONE, 4 * ONE, &freqs, &gains, 441000 * ONE), ONE);
    // The same mix inverted falls below minus one and clamps to zero.
    assert_eq!(e.step(-ONE, 4 * ONE, &freqs, &gains, 441000 * ONE), 0);
}

#[test]
fn engine_voice_echoes_arrive_after_one_period() {
    let mut e = comb_engine();
    // A lag of five samples for the first voice; the rest stay untuned high.
    let mut freqs: Vec<i64> = vec![ONE; NUM_STRINGS];
    freqs[0] = 2 * ONE;
    let sampling: i64 = 10 * ONE;
    let mut gains: Vec<i64> = vec![0; NUM_STRINGS];
    gains[0] = ONE;
    // Feed one impulse with the dry path muted.
    assert_eq!(e.step(ONE, 0, &freqs, &gains, sampling), 0);
    assert_eq!(e.voices[0].delay.amount(), 5);
    // Four silent steps, then the first decayed echo.
    for _ in 0..4 {
        assert_eq!(e.step(0, 0, &freqs, &gains, sampling), 0);
    }
    assert_eq!(e.step(0, 0, &freqs, &gains, sampling), 98 * ONE / 100);
}

#[test]
fn engine_retunes_filters_per_voice() {
    let mut e = comb_engine();
    e.set_cutoff(2, 300);
    e.set_q(2, 500);
    assert_eq!(e.voices[2].filter.b, 300);
    assert_eq!(e.voices[2].filter.a, ONE - 300);
    // The others keep their transparent setting.
    assert_eq!(e.voices[1].filter.b, 0);
    assert_eq!(e.voices[0].filter.a, ONE);
}
