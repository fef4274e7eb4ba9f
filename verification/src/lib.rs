//! Deterministic waveform-synthesis engine for a WAV-file signal generator.
//!
//! The library plans and, where the samples are exactly representable,
//! produces test signals (sine, noise, frequency sweeps, time-stretched
//! pulses, PWM pulse trains, silence) from a declarative description.
//! Sample values are kept in a fixed-point scale of parts per million of
//! full scale, so every decision the engine makes — buffer lengths, pulse
//! patterns, spectral index bookkeeping, tapering policy, file naming —
//! is exact integer and string logic with a proved contract.

use vstd::prelude::*;

pub mod commands;
pub mod fileio;
pub mod error;
pub mod processing;
pub mod strutil;

verus! {

} // verus!
