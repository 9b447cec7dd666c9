use string_resonator::filter::{CombFilter, Filter};
use string_resonator::model::Model;
use string_resonator::units::ONE;

fn transparent_voice(lag_f: i64, lag_sampling: i64) -> Model<CombFilter> {
    // Zero feedback makes the comb pass its input unchanged, so the loop's
    // only attenuation is the decay constant.
    let mut filter = CombFilter::new();
    filter.set_cutoff(0);
    let mut voice = Model::new(filter);
    voice.retune(lag_f, lag_sampling);
    voice
}

#[test]
fn voice_echoes_an_impulse_every_period() {
    // A lag of 100 samples: 10 / 0.1 expressed in one shared scale.
    let mut voice = transparent_voice(10, 1000);
    assert_eq!(voice.delay.amount(), 100);
    let mut outs: Vec<i64> = Vec::new();
    outs.push(voice.process(ONE));
    for _ in 0..300 {
        outs.push(voice.process(0));
    }
    // The impulse itself reads a silent buffer.
    assert_eq!(outs[0], 0);
    // One period later the decayed impulse returns: 98% of ONE, truncated.
    assert_eq!(outs[100], 98 * ONE / 100);
    assert_eq!(outs[100], 64225);
    // The next echo is 98% of the previous one, truncated.
    assert_eq!(outs[200], 98 * 64225 / 100);
    assert_eq!(outs[200], 62940);
    assert_eq!(outs[300], 98 * 62940 / 100);
    assert_eq!(outs[300], 61681);
    // Between echoes the voice is silent.
    assert_eq!(outs[50], 0);
    assert_eq!(outs[150], 0);
    assert_eq!(outs[250], 0);
}

#[test]
fn voice_output_decays_and_never_grows() {
    let mut voice = transparent_voice(10, 1000);
    let mut peak: i64 = ONE;
    let mut last_echo: i64 = ONE;
    voice.process(ONE);
    for _ in 0..30 {
        for _ in 0..100 {
            let out = voice.process(0);
            assert!(out.abs() <= peak);
            if out != 0 {
                // Every echo is strictly smaller than the one before.
                assert!(out.abs() < last_echo);
                last_echo = out.abs();
            }
        }
        peak = last_echo;
    }
    // Thirty periods of 2% decay leave roughly half the impulse.
    assert!(last_echo < 36000);
    assert!(last_echo > 33000);
}

#[test]
fn voice_with_full_feedback_holds_its_history() {
    // Full feedback makes the comb return its history cell forever.
    let mut filter = CombFilter::new();
    filter.set_cutoff(ONE);
    let mut voice = Model::new(filter);
    voice.retune(10, 1000);
    // The filter history is zero, so the loop only re-stores decayed input.
    assert_eq!(voice.process(1000), 0);
    for _ in 0..99 {
        assert_eq!(voice.process(0), 0);
    }
    // The echo of the stored sample: 98% of 1000.
    assert_eq!(voice.process(0), 980);
}
