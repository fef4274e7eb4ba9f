//! The waveform subcommands and their option blocks.

use vstd::prelude::*;
use crate::commands::common::{CommonOptions, TaperSpecOptions};

verus! {

/// Arguments of the generation command.
#[derive(Clone, Debug)]
pub struct GenOptions {
    /// The selected waveform and its options.
    pub waveform: WaveFormCommands,
}

/// One waveform family per variant, each carrying only its own options.
#[derive(Clone, Debug)]
pub enum WaveFormCommands {
    /// A sine wave.
    Sine(SineOptions),
    /// White or pink noise.
    Noise(NoiseOptions),
    /// A time-stretched pulse.
    Tsp(TspOptions),
    /// A swept sine.
    Sweep(SweepOptions),
    /// A pulse train.
    Pwm(PwmOptions),
    /// Silence.
    Zeros(ZerosOptions),
}

/// Options of the sine command.
#[derive(Clone, Debug)]
pub struct SineOptions {
    /// Frequency of the sine wave in hertz, as typed.
    pub frequency: String,
    /// Common options.
    pub options: CommonOptions,
    /// Taper request.
    pub taper_opt: TaperSpecOptions,
}

/// Options of the noise command.
#[derive(Clone, Debug)]
pub struct NoiseOptions {
    /// Noise color: `white` or `pink`.
    pub noise_type: String,
    /// Common options.
    pub options: CommonOptions,
    /// Taper request.
    pub taper_opt: TaperSpecOptions,
}

/// Options of the TSP command.  A TSP always fades its trailing edge, so
/// it carries a taper request of its own.
#[derive(Clone, Debug)]
pub struct TspOptions {
    /// Pulse phase law: `linear` or `log`.
    pub tsp_type: String,
    /// Common options.
    pub options: CommonOptions,
    /// Whether to flip the time axis: flipped is the up-chirp.
    pub flip: bool,
    /// Taper request for the trailing edge.
    pub taper_opt: TaperSpecOptions,
}

/// Options of the sweep command.
#[derive(Clone, Debug)]
pub struct SweepOptions {
    /// Sweep law: `linear` or `log`.
    pub type_of_sweep: String,
    /// Start frequency in hertz, as typed.
    pub startf: String,
    /// End frequency in hertz, as typed.
    pub endf: String,
    /// Common options.
    pub options: CommonOptions,
    /// Taper request.
    pub taper_opt: TaperSpecOptions,
}

/// Options of the PWM command.
#[derive(Clone, Debug)]
pub struct PwmOptions {
    /// Frequency of the pulse train in hertz.
    pub frequency: i32,
    /// Duty cycle in percent.
    pub percent_of_duty: u32,
    /// Common options.
    pub options: CommonOptions,
    /// Taper request.
    pub taper_opt: TaperSpecOptions,
}

/// Options of the zeros command.
#[derive(Clone, Debug)]
pub struct ZerosOptions {
    /// Common options.
    pub options: CommonOptions,
}


impl WaveFormCommands {
    /// The common options of the selected waveform.
    pub open spec fn spec_common_opt(&self) -> CommonOptions {
        match self {
            WaveFormCommands::Sine(opt) => opt.options,
            WaveFormCommands::Noise(opt) => opt.options,
            WaveFormCommands::Tsp(opt) => opt.options,
            WaveFormCommands::Sweep(opt) => opt.options,
            WaveFormCommands::Pwm(opt) => opt.options,
            WaveFormCommands::Zeros(opt) => opt.options,
        }
    }

    /// Returns the common options of the selected waveform.
    pub fn get_common_opt(&self) -> (r: &CommonOptions)
        ensures
            *r == self.spec_common_opt(),
    {
        match self {
            WaveFormCommands::Sine(opt) => &opt.options,
            WaveFormCommands::Noise(opt) => &opt.options,
            WaveFormCommands::Tsp(opt) => &opt.options,
            WaveFormCommands::Sweep(opt) => &opt.options,
            WaveFormCommands::Pwm(opt) => &opt.options,
            WaveFormCommands::Zeros(opt) => &opt.options,
        }
    }

    /// The taper the selected waveform asks for: every family carries a
    /// taper request except silence, and a TSP carries one because its
    /// trailing edge must always be faded.
    pub open spec fn spec_taper_spec(&self) -> Option<crate::processing::gen::TaperSpec> {
        match self {
            WaveFormCommands::Sine(opt) => Some(
                crate::processing::gen::spec_taper_of(opt.taper_opt),
            ),
            WaveFormCommands::Noise(opt) => Some(
                crate::processing::gen::spec_taper_of(opt.taper_opt),
            ),
            WaveFormCommands::Tsp(opt) => Some(
                crate::processing::gen::spec_taper_of(opt.taper_opt),
            ),
            WaveFormCommands::Sweep(opt) => Some(
                crate::processing::gen::spec_taper_of(opt.taper_opt),
            ),
            WaveFormCommands::Pwm(opt) => Some(
                crate::processing::gen::spec_taper_of(opt.taper_opt),
            ),
            WaveFormCommands::Zeros(_) => None,
        }
    }

    /// Resolves the taper request of the selected waveform.
    pub fn get_taper_spec(&self) -> (r: Option<crate::processing::gen::TaperSpec>)
        ensures
            r == self.spec_taper_spec(),
    {
        let opt: Option<&TaperSpecOptions> = match self {
            WaveFormCommands::Sine(opt) => Some(&opt.taper_opt),
            WaveFormCommands::Noise(opt) => Some(&opt.taper_opt),
            WaveFormCommands::Tsp(opt) => Some(&opt.taper_opt),
            WaveFormCommands::Sweep(opt) => Some(&opt.taper_opt),
            WaveFormCommands::Pwm(opt) => Some(&opt.taper_opt),
            WaveFormCommands::Zeros(_) => None,
        };
        crate::processing::gen::get_taper_spec(opt)
    }

    /// Returns the duration argument as typed.
    pub fn get_duration_cmd(&self) -> (r: &String)
        ensures
            r@ == self.spec_common_opt().duration@,
    {
        match self {
            WaveFormCommands::Sine(opt) => &opt.options.duration,
            WaveFormCommands::Noise(opt) => &opt.options.duration,
            WaveFormCommands::Tsp(opt) => &opt.options.duration,
            WaveFormCommands::Sweep(opt) => &opt.options.duration,
            WaveFormCommands::Pwm(opt) => &opt.options.duration,
            WaveFormCommands::Zeros(opt) => &opt.options.duration,
        }
    }

    /// Parses the duration argument into nanoseconds.
    pub fn get_duration_in_sec(&self) -> (r: Result<u64, crate::error::SigenError>)
        ensures
            match r {
                Ok(v) => crate::processing::gen::spec_parse_duration(
                    self.spec_common_opt().duration@,
                ) == Some(v as nat),
                Err(e) => e matches crate::error::SigenError::DurationParse { input } && input@
                    == self.spec_common_opt().duration@ && !(
                crate::processing::gen::spec_parse_duration(self.spec_common_opt().duration@)
                    matches Some(v) && v <= u64::MAX as nat),
            },
    {
        let cmd: &String = self.get_duration_cmd();
        crate::processing::gen::parse_duration(cmd.as_str())
    }
}


impl WaveFormCommands {
    /// The signal-type fragment of the derived output filename.
    pub open spec fn spec_fileinfo_name(&self) -> Seq<char> {
        match self {
            WaveFormCommands::Sine(_) => "sine"@,
            WaveFormCommands::Noise(o) => o.noise_type@ + "noise"@,
            WaveFormCommands::Tsp(o) => o.tsp_type@ + "_"@ + (if o.flip {
                "up"@
            } else {
                "down"@
            }) + "TSP"@,
            WaveFormCommands::Sweep(o) => o.type_of_sweep@ + "_sweep"@,
            WaveFormCommands::Pwm(_) => "pwm"@,
            WaveFormCommands::Zeros(_) => "zeros"@,
        }
    }

    /// Resolves the signal-type name and the start and end frequencies
    /// used for the file name and the generators.
    ///
    /// Frequencies that name a tone (sine, PWM) are clamped into the
    /// band `[0, fs / 2]`; sweep endpoints are passed through; a
    /// negative value marks a disabled frequency.  A frequency argument
    /// outside the grammar is the parse error, carrying its text.
    pub fn get_fileinfo(&self, fs: u32) -> (r: Result<(String, i32, i32), crate::error::SigenError>)
        ensures
            match self {
                WaveFormCommands::Sine(o) => match crate::processing::gen::spec_parse_freq(
                    o.frequency@,
                ) {
                    Some(f) => r matches Ok(t) && t.0@ == self.spec_fileinfo_name() && t.1 as int
                        == crate::processing::spec_clamp(f, 0, fs as int / 2) && t.2 == -1,
                    None => r matches Err(e) && (e
                        matches crate::error::SigenError::FreqParse { input } && input@
                        == o.frequency@),
                },
                WaveFormCommands::Sweep(o) => match (crate::processing::gen::spec_parse_freq(
                    o.startf@,
                ), crate::processing::gen::spec_parse_freq(o.endf@)) {
                    (Some(s), Some(e)) => r matches Ok(t) && t.0@ == self.spec_fileinfo_name()
                        && t.1 as int == s && t.2 as int == e,
                    (None, _) => r matches Err(e) && (e
                        matches crate::error::SigenError::FreqParse { input } && input@
                        == o.startf@),
                    (Some(_), None) => r matches Err(e) && (e
                        matches crate::error::SigenError::FreqParse { input } && input@
                        == o.endf@),
                },
                WaveFormCommands::Pwm(o) => r matches Ok(t) && t.0@ == self.spec_fileinfo_name()
                    && t.1 as int == crate::processing::spec_clamp(
                    o.frequency as int,
                    0,
                    fs as int / 2,
                ) && t.2 == -1,
                _ => r matches Ok(t) && t.0@ == self.spec_fileinfo_name() && t.1 == -1 && t.2
                    == -1,
            },
    {
        match self {
            WaveFormCommands::Sine(opt) => {
                let f: i32 = match crate::processing::gen::parse_freq(opt.frequency.as_str()) {
                    Ok(f) => f,
                    Err(e) => {
                        return Err(e);
                    },
                };
                let half: i32 = (fs / 2) as i32;
                let f_verified: i64 = crate::processing::value_verify(f as i64, 0, half as i64);
                Ok((String::from_str("sine"), f_verified as i32, -1))
            },
            WaveFormCommands::Noise(opt) => {
                let mut name: String = opt.noise_type.clone();
                name.append("noise");
                Ok((name, -1, -1))
            },
            WaveFormCommands::Tsp(opt) => {
                let mut name: String = opt.tsp_type.clone();
                name.append("_");
                if opt.flip {
                    name.append("up");
                } else {
                    name.append("down");
                }
                name.append("TSP");
                proof {
                    assert(name@ =~= self.spec_fileinfo_name());
                }
                Ok((name, -1, -1))
            },
            WaveFormCommands::Sweep(opt) => {
                let mut name: String = opt.type_of_sweep.clone();
                name.append("_sweep");
                let s: i32 = match crate::processing::gen::parse_freq(opt.startf.as_str()) {
                    Ok(v) => v,
                    Err(e) => {
                        return Err(e);
                    },
                };
                let e: i32 = match crate::processing::gen::parse_freq(opt.endf.as_str()) {
                    Ok(v) => v,
                    Err(err) => {
                        return Err(err);
                    },
                };
                Ok((name, s, e))
            },
            WaveFormCommands::Pwm(opt) => {
                let half: i32 = (fs / 2) as i32;
                let f_verified: i64 = crate::processing::value_verify(
                    opt.frequency as i64,
                    0,
                    half as i64,
                );
                Ok((String::from_str("pwm"), f_verified as i32, -1))
            },
            WaveFormCommands::Zeros(_) => Ok((String::from_str("zeros"), -1, -1)),
        }
    }
}

} // verus!
