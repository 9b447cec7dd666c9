use string_resonator::delay::{DelayLine, MAX_LENGTH};
use string_resonator::wrap_value;

#[test]
fn delay_new_starts_silent() {
    let mut d: DelayLine<i64> = DelayLine::new(0);
    assert_eq!(d.amount(), 0);
    // Nothing pushed yet: every slot holds the fill value.
    assert_eq!(d.pop(), 0);
}

#[test]
fn delay_pop_returns_value_pushed_amount_ago() {
    let mut d: DelayLine<i64> = DelayLine::new(0);
    d.set_amount(3);
    for k in 1..=10i64 {
        d.push(k);
        if k > 3 {
            // The value pushed exactly three pushes ago.
            assert_eq!(d.pop(), k - 2);
        }
    }
}

#[test]
fn delay_wraparound_past_zero() {
    let mut d: DelayLine<i64> = DelayLine::new(0);
    d.set_amount(10);
    // Push enough values to wrap the write pointer past the end twice.
    for k in 0..(2 * MAX_LENGTH as i64 + 17) {
        d.push(k);
    }
    let last: i64 = 2 * MAX_LENGTH as i64 + 16;
    // The value pushed exactly ten pushes ago.
    assert_eq!(d.pop(), last - 9);
}

#[test]
fn delay_amount_zero_reads_a_full_capacity_back() {
    let mut d: DelayLine<i64> = DelayLine::new(0);
    // With zero lag the read position equals the write position, which holds
    // the oldest sample: the one pushed a full capacity ago.
    for k in 0..(MAX_LENGTH as i64 + 3) {
        d.push(k);
    }
    assert_eq!(d.pop(), 3);
}

#[test]
fn delay_pop_does_not_advance() {
    let mut d: DelayLine<i64> = DelayLine::new(0);
    d.set_amount(1);
    d.push(42);
    assert_eq!(d.pop(), 42);
    assert_eq!(d.pop(), 42);
}

#[test]
fn delay_set_amount_clamps_to_capacity() {
    let mut d: DelayLine<i64> = DelayLine::new(0);
    d.set_amount(7);
    assert_eq!(d.amount(), 7);
    d.set_amount(MAX_LENGTH - 1);
    assert_eq!(d.amount(), MAX_LENGTH - 1);
    d.set_amount(MAX_LENGTH);
    assert_eq!(d.amount(), MAX_LENGTH - 1);
    d.set_amount(usize::MAX);
    assert_eq!(d.amount(), MAX_LENGTH - 1);
}

#[test]
fn delay_set_frequency_rounds_the_period() {
    let mut d: DelayLine<i64> = DelayLine::new(0);
    // 10 / 3 rounds down to 3.
    d.set_frequency(3, 10);
    assert_eq!(d.amount(), 3);
    // 10 / 4 = 2.5 rounds half away from zero to 3.
    d.set_frequency(4, 10);
    assert_eq!(d.amount(), 3);
    // A 441 Hz target at a 441000 Hz rate: a lag of 1000 samples.
    d.set_frequency(441, 441000);
    assert_eq!(d.amount(), 1000);
}

#[test]
fn delay_set_frequency_clamps_low_and_nonpositive_frequencies() {
    let mut d: DelayLine<i64> = DelayLine::new(0);
    // Frequency so low the period exceeds the capacity.
    d.set_frequency(1, 441000);
    assert_eq!(d.amount(), MAX_LENGTH - 1);
    // A period of exactly the capacity is already too long.
    d.set_frequency(1, MAX_LENGTH as i64);
    assert_eq!(d.amount(), MAX_LENGTH - 1);
    // Non-positive frequencies degrade to the maximum lag.
    d.set_frequency(0, 441000);
    assert_eq!(d.amount(), MAX_LENGTH - 1);
    d.set_frequency(-440, 441000);
    assert_eq!(d.amount(), MAX_LENGTH - 1);
    // One sample short of the capacity still fits.
    d.set_frequency(1, MAX_LENGTH as i64 - 1);
    assert_eq!(d.amount(), MAX_LENGTH - 1);
}

#[test]
fn wrap_value_normalizes_negative_offsets() {
    assert_eq!(wrap_value(0), 0);
    assert_eq!(wrap_value(17), 17);
    assert_eq!(wrap_value(MAX_LENGTH as isize), 0);
    assert_eq!(wrap_value(MAX_LENGTH as isize + 5), 5);
    assert_eq!(wrap_value(-1), MAX_LENGTH - 1);
    assert_eq!(wrap_value(-(MAX_LENGTH as isize)), 0);
}
