//! Options shared by every waveform subcommand.

use vstd::prelude::*;
use crate::processing::gen::{SignalSpec, TaperSpec};
use crate::processing::value_verify;

verus! {

/// Options common to all waveform commands.  The amplitude is held in
/// parts per million of full scale; the duration is kept as the text the
/// caller typed, so file names can echo it.
#[derive(Clone, Debug)]
pub struct CommonOptions {
    /// Duration of the signal, as typed (seconds unless suffixed).
    pub duration: String,
    /// Requested output file size, mutually exclusive with `duration`.
    pub size_of_file: Option<String>,
    /// Peak amplitude, in parts per million of full scale.
    pub amplitude: u32,
    /// Which channels to generate: `L`, `R` or `LR`.
    pub channels: String,
    /// Sample rate, in hertz.
    pub rate_of_sample: u32,
    /// Output filename override.
    pub output_filename: Option<String>,
}

impl CommonOptions {
    /// Builds the synthesis description: the amplitude is clamped into
    /// the accepted range, everything else is taken as given.
    pub fn get_signal_spec(&self, taper_spec: Option<TaperSpec>, d: u64) -> (r: SignalSpec)
        ensures
            r.amp == if self.amplitude > crate::commands::AMP_MAX {
                crate::commands::AMP_MAX
            } else {
                self.amplitude
            },
            r.amp <= crate::commands::AMP_MAX,
            r.ch@ == self.channels@,
            r.fs == self.rate_of_sample,
            r.d == d,
            r.taper_spec == taper_spec,
    {
        let clamped: i64 = value_verify(
            self.amplitude as i64,
            crate::commands::AMP_MIN as i64,
            crate::commands::AMP_MAX as i64,
        );
        SignalSpec {
            amp: clamped as u32,
            ch: self.channels.clone(),
            fs: self.rate_of_sample,
            d: d,
            taper_spec: taper_spec,
        }
    }
}

/// Taper request attached to a waveform command.
#[derive(Clone, Debug)]
pub struct TaperSpecOptions {
    /// Length of each fade, in samples; zero disables tapering.
    pub length_of_taper: usize,
    /// Window shape name: `linear`, `hann`, `cos` or `blackman`.
    pub window_type: String,
}

} // verus!
