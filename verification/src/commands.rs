//! Command descriptions and their defaults.
//!
//! Amplitudes are held in parts per million of full scale, durations as
//! the text the caller typed, sample rates in hertz.

use vstd::prelude::*;

pub mod common;
pub mod gen;
pub mod modurate;
pub mod taper;
pub mod wav;

verus! {

/// Smallest accepted amplitude, in parts per million of full scale.
pub const AMP_MIN: u32 = 0;

/// Largest accepted amplitude, in parts per million of full scale.
pub const AMP_MAX: u32 = 1_000_000;

/// Default amplitude, in parts per million of full scale.
pub const AMP_DEF: u32 = 450_000;

/// Default duration argument, in seconds.
pub const D_DEF: &'static str = "5";

/// Default sine frequency, in hertz.
pub const FREQ_DEF: i32 = 440;

/// Default sweep start frequency, in hertz.
pub const LOW_FREQ_TSP_DEF: i32 = 20;

/// Default sweep end frequency, in hertz.
pub const HIGH_FREQ_TSP_DEF: i32 = 16_000;

/// Default PWM frequency, in hertz.
pub const PWM_FREQ_DEF: i32 = 200;

/// Default PWM duty cycle, in percent.
pub const PWM_DUTY_DEF: u32 = 10;

/// Default sample rate, in hertz.
pub const FS_DEF: u32 = 44_100;

/// Default taper length, in samples.
pub const LEN_TAPER_DEF: usize = 4096;

} // verus!
