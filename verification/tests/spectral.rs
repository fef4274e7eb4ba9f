//! End-to-end acceptance of the synthesis numerics, driven by the
//! library's plans and structural functions, with the floating-point
//! work done here as the caller would do it.

use rustfft::num_complex::Complex;
use rustfft::FftPlanner;
use sigen::commands::common::{CommonOptions, TaperSpecOptions};
use sigen::commands::gen::{GenOptions, SineOptions, WaveFormCommands};
use sigen::processing::gen::{conjugate_pairs, finalize_tsp, tsp_working_length};
use sigen::processing::{plan_signal, GeneratorPlan};

/// A small deterministic generator for noise baselines.
struct Lcg(u64);

impl Lcg {
    fn next_f64(&mut self) -> f64 {
        self.0 = self.0.wrapping_mul(6364136223846793005).wrapping_add(1442695040888963407);
        ((self.0 >> 11) as f64) / ((1u64 << 53) as f64) * 2.0 - 1.0
    }
}

#[test]
fn sine_plan_hits_the_quarter_period_peak() {
    let args = GenOptions {
        waveform: WaveFormCommands::Sine(SineOptions {
            frequency: String::from("440"),
            options: CommonOptions {
                duration: String::from("1.0"),
                size_of_file: None,
                amplitude: 1_000_000,
                channels: String::from("LR"),
                rate_of_sample: 44100,
                output_filename: None,
            },
            taper_opt: TaperSpecOptions {
                length_of_taper: 0,
                window_type: String::from("linear"),
            },
        }),
    };
    let plan = plan_signal(&args).unwrap();
    assert_eq!(plan.count, 44100);
    let frequency = match plan.generator {
        GeneratorPlan::Sine { frequency } => frequency,
        other => panic!("unexpected generator: {:?}", other),
    };
    assert_eq!(frequency, 440);
    let amp = plan.spec.amp as f64 / 1e6;
    let fs = plan.spec.fs as f64;
    let samples: Vec<f64> = (0..plan.count)
        .map(|n| amp * (2.0 * std::f64::consts::PI * frequency as f64 * n as f64 / fs).sin())
        .collect();
    assert_eq!(samples[0], 0.0);
    let quarter = (44100.0_f64 / 440.0 / 4.0).round() as usize;
    assert!((samples[quarter] - 1.0).abs() < 1e-3);
    assert!(samples.iter().all(|s| s.abs() <= 1.0));
}

/// Builds a TSP as the caller does: the library gives the working
/// length, the symmetry fill order and the final rotation; the
/// spectrum, the inverse transform and the normalization are floating
/// point done here.
fn build_tsp(count: usize, up: bool) -> Vec<f64> {
    let n = tsp_working_length(count);
    let j = n / 2;
    let sign = if up { 1.0 } else { -1.0 };
    let mut spectrum: Vec<Complex<f64>> = vec![Complex::new(0.0, 0.0); n];
    for k in 0..=j {
        let ratio = (k as f64 / n as f64).powi(2);
        let angle = sign * 2.0 * std::f64::consts::PI * j as f64 * ratio;
        spectrum[k] = Complex::new(0.0, angle).exp();
    }
    for &(dst, src) in conjugate_pairs(n).iter() {
        spectrum[dst] = spectrum[src].conj();
    }
    let mut planner = FftPlanner::new();
    planner.plan_fft_inverse(n).process(&mut spectrum);
    let real: Vec<f64> = spectrum.iter().map(|c| c.re / n as f64).collect();
    let peak = real.iter().map(|x| x.abs()).fold(0.0, f64::max);
    let normalized: Vec<f64> = real.iter().map(|x| x / peak).collect();
    finalize_tsp(&normalized, up, count)
}

fn peak_to_average(xs: &[f64], ys: &[f64]) -> f64 {
    let n = xs.len();
    let mut corr: Vec<f64> = Vec::with_capacity(n);
    for lag in 0..n {
        let mut acc = 0.0;
        for i in 0..n {
            acc += xs[i] * ys[(i + lag) % n];
        }
        corr.push(acc.abs());
    }
    let peak = corr.iter().cloned().fold(0.0, f64::max);
    let mean = corr.iter().sum::<f64>() / n as f64;
    peak / mean
}

#[test]
fn tsp_pair_correlates_sharper_than_noise() {
    let count = 1024;
    let up = build_tsp(count, true);
    let down = build_tsp(count, false);
    assert_eq!(up.len(), count);
    assert_eq!(down.len(), count);
    assert!(up.iter().all(|s| s.abs() <= 1.0 + 1e-12));

    let mut lcg = Lcg(12345);
    let noise_a: Vec<f64> = (0..count).map(|_| lcg.next_f64()).collect();
    let noise_b: Vec<f64> = (0..count).map(|_| lcg.next_f64()).collect();

    let tsp_ratio = peak_to_average(&up, &down);
    let noise_ratio = peak_to_average(&noise_a, &noise_b);
    assert!(
        tsp_ratio > noise_ratio,
        "TSP pair ratio {} not sharper than noise ratio {}",
        tsp_ratio,
        noise_ratio
    );
}

#[test]
fn pink_noise_density_falls_off_with_frequency() {
    let n = 1 << 16;
    let mut lcg = Lcg(99);
    let mut spectrum: Vec<Complex<f64>> =
        (0..n).map(|_| Complex::new(lcg.next_f64(), 0.0)).collect();
    let mut planner = FftPlanner::new();
    planner.plan_fft_forward(n).process(&mut spectrum);
    for (i, bin) in spectrum.iter_mut().enumerate() {
        if i == 0 {
            continue;
        }
        let scale = 1.0 / (i as f64).sqrt();
        bin.re *= scale;
        bin.im *= scale;
    }
    planner.plan_fft_inverse(n).process(&mut spectrum);
    let real: Vec<f64> = spectrum.iter().map(|c| c.re / n as f64).collect();
    let peak = real.iter().map(|x| x.abs()).fold(0.0, f64::max);
    let pink: Vec<f64> = real.iter().map(|x| 0.45 * x / peak).collect();
    assert!(pink.iter().all(|s| s.abs() <= 0.45 + 1e-12));

    // estimate the spectral density of the result
    let mut back: Vec<Complex<f64>> = pink.iter().map(|&x| Complex::new(x, 0.0)).collect();
    planner.plan_fft_forward(n).process(&mut back);
    let octave_mean = |lo: usize, hi: usize| -> f64 {
        back[lo..hi].iter().map(|c| c.norm_sqr()).sum::<f64>() / (hi - lo) as f64
    };
    // power per bin should fall roughly as 1/f: eight octaves down is a
    // factor of about 256, demanded here within an order of magnitude
    let low = octave_mean(16, 32);
    let high = octave_mean(4096, 8192);
    let ratio = low / high;
    assert!(
        ratio > 25.6 && ratio < 2560.0,
        "octave decay ratio {} outside tolerance",
        ratio
    );
}
