//! The exactly representable generators: silence and PWM.

use sigen::processing::gen::{generate_pwm_signal, generate_zeros, SignalSpec};

fn spec(amp: u32, fs: u32, d_ns: u64) -> SignalSpec {
    SignalSpec {
        amp,
        ch: String::from("LR"),
        fs,
        d: d_ns,
        taper_spec: None,
    }
}

#[test]
fn sample_count_rounds_to_nearest() {
    assert_eq!(spec(0, 44100, 1_000_000_000).sample_count(), 44100);
    // 0.5 s at 3 Hz is 1.5 samples: rounds up to 2
    assert_eq!(spec(0, 3, 500_000_000).sample_count(), 2);
    // 0.4 s at 1 Hz is 0.4 samples: rounds down to 0
    assert_eq!(spec(0, 1, 400_000_000).sample_count(), 0);
    assert_eq!(spec(0, 48000, 2_500_000_000).sample_count(), 120000);
}

#[test]
fn zeros_is_all_zero_of_exact_length() {
    let s = spec(450_000, 44100, 250_000_000);
    let buf = generate_zeros(&s);
    assert_eq!(buf.len(), 11025);
    assert!(buf.iter().all(|&x| x == 0));
}

#[test]
fn zeros_ignores_amplitude() {
    let quiet = generate_zeros(&spec(0, 8000, 1_000_000_000));
    let loud = generate_zeros(&spec(1_000_000, 8000, 1_000_000_000));
    assert_eq!(quiet, loud);
    assert_eq!(quiet.len(), 8000);
}

#[test]
fn pwm_pattern_is_exact_per_period() {
    // 100 Hz at 10 kHz: a 100-sample period, 50 samples high
    let s = spec(450_000, 10_000, 100_000_000);
    let buf = generate_pwm_signal(&s, 100, 50);
    assert_eq!(buf.len(), 1000);
    for period in 0..10 {
        for i in 0..50 {
            assert_eq!(buf[period * 100 + i], 450_000, "high at {}", period * 100 + i);
        }
        for i in 50..100 {
            assert_eq!(buf[period * 100 + i], 0, "low at {}", period * 100 + i);
        }
    }
}

#[test]
fn pwm_duty_rounds_and_final_period_truncates() {
    // 3 Hz at 10 Hz: a 3-sample period, duty 50% rounds to 2 high samples
    let s = spec(100, 10, 1_000_000_000);
    let buf = generate_pwm_signal(&s, 3, 50);
    assert_eq!(buf.len(), 10);
    // periods start at 0, 3, 6, 9; the final one is cut off after its
    // first high sample, not padded and not blanked
    let expect = [100, 100, 0, 100, 100, 0, 100, 100, 0, 100];
    assert_eq!(buf.as_slice(), &expect);
}

#[test]
fn pwm_partial_period_keeps_its_high_run() {
    // 10 Hz at 1 kHz: a 100-sample period, 50 high; 0.13 s is 130
    // samples, so the final period is cut off mid-run
    let s = spec(200, 1000, 130_000_000);
    let buf = generate_pwm_signal(&s, 10, 50);
    assert_eq!(buf.len(), 130);
    for n in 0..130 {
        let expected = if n % 100 < 50 { 200 } else { 0 };
        assert_eq!(buf[n], expected, "at {}", n);
    }
    assert_eq!(buf[120], 200);
}

#[test]
fn pwm_extremes() {
    let s = spec(7, 10_000, 10_000_000);
    let silent = generate_pwm_signal(&s, 100, 0);
    assert!(silent.iter().all(|&x| x == 0));
    let full = generate_pwm_signal(&s, 100, 100);
    assert!(full.iter().all(|&x| x == 7));
}

#[test]
fn pwm_stays_within_amplitude() {
    let s = spec(123_456, 44100, 50_000_000);
    let buf = generate_pwm_signal(&s, 441, 37);
    assert!(buf.iter().all(|&x| 0 <= x && x <= 123_456));
}
