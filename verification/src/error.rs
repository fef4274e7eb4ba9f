//! Typed failures of the synthesis engine and the file commands.

use vstd::prelude::*;
use vstd::string::*;

verus! {

/// Every failure the library can report.  No failure is ever defaulted
/// away: an unsupported variant name, a missing taper, or a degenerate
/// numeric request each surfaces as its own variant.
#[derive(Debug, Clone, PartialEq)]
pub enum SigenError {
    /// The filename does not end in a `.wav` extension.
    NotWavFile { filename: String },
    /// A referenced input file does not exist.
    FileNotFound { filename: String },
    /// A frequency argument could not be read.
    FreqParse { input: String },
    /// A duration argument could not be read, or does not fit the
    /// engine's nanosecond clock.
    DurationParse { input: String },
    /// A noise type other than `white` or `pink` was requested.
    UnknownNoiseType,
    /// A TSP type other than `linear` or `log` was requested.
    UnknownTspType,
    /// A sweep type other than `linear` or `log` was requested.
    UnknownSweepType,
    /// A channel selection other than `L`, `R` or `LR` was requested.
    UnknownChannel,
    /// A TSP was requested without a taper descriptor.
    MissingTaper,
    /// A logarithmic construction was requested with a non-positive
    /// start frequency, or with too short a pulse for a stable logarithm.
    NumericalDegeneracy,
    /// A PWM pulse train was requested with a frequency below one hertz.
    InvalidPwmFrequency,
    /// The requested buffer does not fit in memory.
    BufferTooLong,
    /// The output filename was given but empty.
    EmptyOutputFilename,
    /// The concatenation command list lacks the `cat` marker.
    CatCommandNotGiven,
    /// The concatenation command list lacks the `output` marker.
    OutputCommandNotGiven,
    /// The concatenation command list names no output file.
    OutputFilenameNotGiven,
    /// The concatenation command list names no input file.
    NoInputFiles,
    /// A concatenation command names an unknown input key.
    KeyNotFound { key: String },
    /// A concatenation command is the empty string.
    EmptyCatCommand,
}

impl SigenError {
    /// A human-readable description, for the caller to print.
    pub fn message(&self) -> String {
        match self {
            SigenError::NotWavFile { filename } => {
                let mut m: String = String::from_str("The filename must have a .wav extension. [");
                m.append(filename.as_str());
                m.append("]");
                m
            },
            SigenError::FileNotFound { filename } => {
                let mut m: String = String::from_str("File [");
                m.append(filename.as_str());
                m.append("] not found.");
                m
            },
            SigenError::FreqParse { input } => {
                let mut m: String = String::from_str("cannot parse frequency [");
                m.append(input.as_str());
                m.append("]");
                m
            },
            SigenError::DurationParse { input } => {
                let mut m: String = String::from_str("cannot parse duration [");
                m.append(input.as_str());
                m.append("]");
                m
            },
            SigenError::UnknownNoiseType => String::from_str("unknown noise type"),
            SigenError::UnknownTspType => String::from_str("unexpected type of tsp signal"),
            SigenError::UnknownSweepType => String::from_str("Unknown swept type"),
            SigenError::UnknownChannel => String::from_str("unknown spec ch error"),
            SigenError::MissingTaper => String::from_str("taper spec is not set"),
            SigenError::NumericalDegeneracy => String::from_str(
                "logarithmic construction needs a positive start frequency and enough samples",
            ),
            SigenError::InvalidPwmFrequency => String::from_str(
                "PWM frequency must be at least one hertz",
            ),
            SigenError::BufferTooLong => String::from_str(
                "the requested buffer does not fit in memory",
            ),
            SigenError::EmptyOutputFilename => String::from_str("The output filename is empty!"),
            SigenError::CatCommandNotGiven => String::from_str("cat command not given"),
            SigenError::OutputCommandNotGiven => String::from_str("output command not given"),
            SigenError::OutputFilenameNotGiven => String::from_str(
                "output filename is not given.",
            ),
            SigenError::NoInputFiles => String::from_str("input filename is not given"),
            SigenError::KeyNotFound { key } => {
                let mut m: String = String::from_str("key: [");
                m.append(key.as_str());
                m.append("] is not found");
                m
            },
            SigenError::EmptyCatCommand => String::from_str("empty concatenation command"),
        }
    }
}

} // verus!
