//! Signal-processing entry points shared by the synthesis and file commands.

use vstd::prelude::*;
use vstd::string::*;

pub mod cat;
pub mod gen;

use crate::commands::gen::{GenOptions, WaveFormCommands};
use crate::error::SigenError;
use crate::fileio::{gen_file_name, spec_derived_name, spec_is_wav_file, FileInfo};
use crate::processing::gen::{
    is_pow2, spec_parse_duration, spec_parse_freq, tsp_shift_exec, tsp_working_length,
    SignalSpec, MIN_LOG_TSP_SAMPLES,
};
use crate::strutil::str_eq;

verus! {


/// `value` clamped into the inclusive range `[min, max]`.
pub open spec fn spec_clamp(value: int, min: int, max: int) -> int {
    if value < min {
        min
    } else if value > max {
        max
    } else {
        value
    }
}

/// Clamps `value` into the inclusive range `[min, max]`.
pub fn value_verify(value: i64, min: i64, max: i64) -> (r: i64)
    requires
        min <= max,
    ensures
        r as int == spec_clamp(value as int, min as int, max as int),
{
    if value < min {
        min
    } else if max < value {
        max
    } else {
        value
    }
}


/// Which edges of a buffer the taper capability is to fade.
#[derive(Clone, Copy, Debug, PartialEq, Eq, Structural)]
pub enum TaperEdges {
    /// Fade both the leading and the trailing edge.
    Both,
    /// Fade the trailing edge only.
    End,
}

/// The generator a request selects, with its resolved parameters.
#[derive(Clone, Debug)]
pub enum GeneratorPlan {
    /// A sine wave at the clamped frequency, in hertz.
    Sine { frequency: i32 },
    /// Uniform white noise.
    WhiteNoise,
    /// Spectrally colored pink noise.
    PinkNoise,
    /// A time-stretched pulse: phase law, direction, working length and
    /// the circular shift that makes it causal.
    Tsp { log: bool, up: bool, n: usize, shift: usize },
    /// A frequency sweep between the given endpoint frequencies.
    Sweep { log: bool, startf: i32, endf: i32 },
    /// A pulse train at the clamped frequency and duty cycle.
    Pwm { frequency: i32, duty: u32 },
    /// Silence.
    Zeros,
}

/// Everything the caller needs to synthesize one request: the numeric
/// description, the buffer length, the selected generator, the taper
/// policy, the channel enables, and the output filename.
#[derive(Clone, Debug)]
pub struct GenerationPlan {
    /// The numeric description of the request.
    pub spec: SignalSpec,
    /// The buffer length.
    pub count: usize,
    /// The selected generator.
    pub generator: GeneratorPlan,
    /// Which edges to fade; silence is never faded.
    pub taper_edges: Option<TaperEdges>,
    /// Whether the left channel is written.
    pub enable_l: bool,
    /// Whether the right channel is written.
    pub enable_r: bool,
    /// The output filename.
    pub fileinfo: FileInfo,
}

/// The channel enables and the filename fragment a channel selection
/// stands for.
pub open spec fn spec_channel(ch: Seq<char>) -> Option<(bool, bool, Seq<char>)> {
    if ch == "L"@ {
        Some((true, false, "_l_only"@))
    } else if ch == "R"@ {
        Some((false, true, "_r_only"@))
    } else if ch == "LR"@ {
        Some((true, true, Seq::<char>::empty()))
    } else {
        None
    }
}

/// The start and end frequencies a request resolves to, as used for
/// the file name and the generators; a negative value marks a disabled
/// frequency, and `None` marks an unparseable frequency argument.
pub open spec fn spec_fileinfo_freqs(w: WaveFormCommands, fs: int) -> Option<(int, int)> {
    match w {
        WaveFormCommands::Sine(o) => match spec_parse_freq(o.frequency@) {
            Some(f) => Some((spec_clamp(f, 0, fs / 2), -1)),
            None => None,
        },
        WaveFormCommands::Sweep(o) => match (spec_parse_freq(o.startf@), spec_parse_freq(
            o.endf@,
        )) {
            (Some(s), Some(e)) => Some((s, e)),
            _ => None,
        },
        WaveFormCommands::Pwm(o) => Some((spec_clamp(o.frequency as int, 0, fs / 2), -1)),
        _ => Some((-1, -1)),
    }
}

/// The buffer length a request calls for, when its duration parses.
pub open spec fn spec_plan_count(w: WaveFormCommands) -> Option<nat> {
    match spec_parse_duration(w.spec_common_opt().duration@) {
        Some(d) => if d <= u64::MAX as nat {
            Some((d * (w.spec_common_opt().rate_of_sample as nat) + 500_000_000) / 1_000_000_000)
        } else {
            None
        },
        None => None,
    }
}


/// The generator selection and taper policy a request owes, given the
/// sample rate, the buffer length and the resolved frequencies.
pub open spec fn generator_matches(
    w: WaveFormCommands,
    fs: int,
    count: nat,
    g: GeneratorPlan,
    edges: Option<TaperEdges>,
) -> bool {
    match w {
        WaveFormCommands::Sine(o) => (g matches GeneratorPlan::Sine { frequency }
            && (match spec_fileinfo_freqs(w, fs) {
            Some(fr) => frequency as int == fr.0,
            None => false,
        })) && edges == Some(TaperEdges::Both),
        WaveFormCommands::Noise(o) => ((o.noise_type@ == "white"@ && g is WhiteNoise) || (
        o.noise_type@ == "pink"@ && g is PinkNoise)) && edges == Some(TaperEdges::Both),
        WaveFormCommands::Tsp(o) => (g matches GeneratorPlan::Tsp { log, up, n, shift } && log
            == (o.tsp_type@ == "log"@) && (log || o.tsp_type@ == "linear"@) && up == o.flip
            && is_pow2(n as nat) && n as nat >= 2 * count && (n as nat) / 2 < 2 * count
            && shift as int == (3 * n as int) / 4 && count >= 1 && (log ==> count
            >= MIN_LOG_TSP_SAMPLES as nat)) && edges == Some(TaperEdges::End),
        WaveFormCommands::Sweep(o) => (g matches GeneratorPlan::Sweep { log, startf, endf }
            && log == (o.type_of_sweep@ == "log"@) && (log || o.type_of_sweep@ == "linear"@)
            && (match spec_fileinfo_freqs(w, fs) {
            Some(fr) => startf as int == fr.0 && endf as int == fr.1,
            None => false,
        }) && (log ==> startf >= 1 && endf >= 1)) && edges == Some(TaperEdges::End),
        WaveFormCommands::Pwm(o) => (g matches GeneratorPlan::Pwm { frequency, duty }
            && (match spec_fileinfo_freqs(w, fs) {
            Some(fr) => frequency as int == fr.0,
            None => false,
        }) && frequency >= 1 && duty as int == spec_clamp(o.percent_of_duty as int, 0, 100))
            && edges == Some(TaperEdges::Both),
        WaveFormCommands::Zeros(_) => g is Zeros && edges is None,
    }
}

/// Everything the dispatcher owes for a request it accepts.
pub open spec fn plan_matches(args: GenOptions, p: GenerationPlan) -> bool {
    let w = args.waveform;
    let com = w.spec_common_opt();
    &&& spec_parse_duration(com.duration@) == Some(p.spec.d as nat)
    &&& p.spec.amp as int == spec_clamp(
        com.amplitude as int,
        crate::commands::AMP_MIN as int,
        crate::commands::AMP_MAX as int,
    )
    &&& p.spec.ch@ == com.channels@
    &&& p.spec.fs == com.rate_of_sample
    &&& p.spec.fs >= 1
    &&& p.spec.taper_spec == w.spec_taper_spec()
    &&& p.count as nat == p.spec.spec_sample_count()
    &&& match spec_channel(com.channels@) {
        Some(t) => p.enable_l == t.0 && p.enable_r == t.1,
        None => false,
    }
    &&& spec_is_wav_file(p.fileinfo.name@)
    &&& match (com.output_filename, spec_fileinfo_freqs(w, p.spec.fs as int), spec_channel(
        com.channels@,
    )) {
        (Some(n), _, _) => p.fileinfo.name@ == n@,
        (None, Some(fr), Some(chs)) => p.fileinfo.name@ == spec_derived_name(
            w.spec_fileinfo_name(),
            fr.0,
            fr.1,
            chs.2,
            com.duration@,
        ),
        _ => false,
    }
    &&& generator_matches(w, p.spec.fs as int, p.count as nat, p.generator, p.taper_edges)
}

/// The failure a rejected request is owed: each error variant comes
/// with the condition that produces it.
pub open spec fn plan_error_cause(args: GenOptions, e: SigenError) -> bool {
    let w = args.waveform;
    let com = w.spec_common_opt();
    match e {
        SigenError::DurationParse { input } => input@ == com.duration@ && !(spec_parse_duration(
            com.duration@,
        ) matches Some(v) && v <= u64::MAX as nat),
        SigenError::NumericalDegeneracy => com.rate_of_sample == 0 || (w matches
            WaveFormCommands::Tsp(o) && match spec_plan_count(w) {
            Some(c) => c == 0 || (o.tsp_type@ == "log"@ && c < MIN_LOG_TSP_SAMPLES as nat),
            None => false,
        }) || (w matches WaveFormCommands::Sweep(o) && o.type_of_sweep@ == "log"@
            && match spec_fileinfo_freqs(w, com.rate_of_sample as int) {
            Some(fr) => fr.0 < 1 || fr.1 < 1,
            None => false,
        }),
        SigenError::UnknownChannel => spec_channel(com.channels@) is None,
        SigenError::FreqParse { input } => match w {
            WaveFormCommands::Sine(o) => input@ == o.frequency@ && spec_parse_freq(o.frequency@)
                is None,
            WaveFormCommands::Sweep(o) => (input@ == o.startf@ && spec_parse_freq(o.startf@)
                is None) || (input@ == o.endf@ && spec_parse_freq(o.endf@) is None),
            _ => false,
        },
        SigenError::NotWavFile { filename } => !spec_is_wav_file(filename@) && match (
        com.output_filename, spec_fileinfo_freqs(w, com.rate_of_sample as int), spec_channel(
            com.channels@,
        )) {
            (Some(n), _, _) => filename@ == n@,
            (None, Some(fr), Some(chs)) => filename@ == spec_derived_name(
                w.spec_fileinfo_name(),
                fr.0,
                fr.1,
                chs.2,
                com.duration@,
            ),
            _ => false,
        },
        SigenError::UnknownNoiseType => w matches WaveFormCommands::Noise(o) && o.noise_type@
            != "white"@ && o.noise_type@ != "pink"@,
        SigenError::UnknownTspType => w matches WaveFormCommands::Tsp(o) && o.tsp_type@
            != "linear"@ && o.tsp_type@ != "log"@,
        SigenError::UnknownSweepType => w matches WaveFormCommands::Sweep(o) && o.type_of_sweep@
            != "linear"@ && o.type_of_sweep@ != "log"@,
        SigenError::InvalidPwmFrequency => w matches WaveFormCommands::Pwm(o) && spec_clamp(
            o.frequency as int,
            0,
            com.rate_of_sample as int / 2,
        ) < 1,
        SigenError::BufferTooLong => match spec_plan_count(w) {
            Some(c) => c > usize::MAX as nat || (w matches WaveFormCommands::Tsp(_) && c
                > (usize::MAX / 16) as nat),
            None => false,
        },
        _ => false,
    }
}


/// Plans one synthesis request.
///
/// Every argument is validated: the duration and frequency grammars,
/// the channel selection, the output filename's extension, the noise,
/// TSP and sweep type names, the buffer length against memory, the PWM
/// frequency against its period, and the degeneracies of the
/// logarithmic constructions.  An accepted request yields the resolved
/// generator parameters, taper policy, channel enables and filename;
/// a rejected one yields the error its cause owes.
#[verifier::rlimit(100)]
pub fn plan_signal(args: &GenOptions) -> (r: Result<GenerationPlan, SigenError>)
    ensures
        match r {
            Ok(p) => plan_matches(*args, p),
            Err(e) => plan_error_cause(*args, e),
        },
{
    let waveform: &WaveFormCommands = &args.waveform;
    let d: u64 = match waveform.get_duration_in_sec() {
        Ok(d) => d,
        Err(e) => {
            return Err(e);
        },
    };
    let taper_spec: Option<crate::processing::gen::TaperSpec> = waveform.get_taper_spec();
    let common: &crate::commands::common::CommonOptions = waveform.get_common_opt();
    let signal_spec: SignalSpec = common.get_signal_spec(taper_spec, d);
    if signal_spec.fs == 0 {
        return Err(SigenError::NumericalDegeneracy);
    }
    let ch: &str = common.channels.as_str();
    let enable_l: bool;
    let enable_r: bool;
    let suffix: &str;
    if str_eq(ch, "L") {
        enable_l = true;
        enable_r = false;
        suffix = "_l_only";
    } else if str_eq(ch, "R") {
        enable_l = false;
        enable_r = true;
        suffix = "_r_only";
    } else if str_eq(ch, "LR") {
        enable_l = true;
        enable_r = true;
        suffix = "";
    } else {
        return Err(SigenError::UnknownChannel);
    }
    proof {
        reveal_strlit("");
        assert(("")@ =~= Seq::<char>::empty());
    }
    let tinfo: (String, i32, i32) = match waveform.get_fileinfo(signal_spec.fs) {
        Ok(t) => t,
        Err(e) => {
            return Err(e);
        },
    };
    let startf: i32 = tinfo.1;
    let endf: i32 = tinfo.2;
    let fileinfo: FileInfo = match gen_file_name(
        &common.output_filename,
        tinfo.0,
        startf,
        endf,
        suffix,
        common.duration.as_str(),
    ) {
        Ok(fi) => fi,
        Err(e) => {
            return Err(e);
        },
    };
    let count: usize = match signal_spec.checked_sample_count() {
        Some(c) => c,
        None => {
            return Err(SigenError::BufferTooLong);
        },
    };
    let sel: (GeneratorPlan, Option<TaperEdges>) = match plan_generator(
        waveform,
        signal_spec.fs,
        count,
        startf,
        endf,
    ) {
        Ok(s) => s,
        Err(e) => {
            return Err(e);
        },
    };
    Ok(
        GenerationPlan {
            spec: signal_spec,
            count: count,
            generator: sel.0,
            taper_edges: sel.1,
            enable_l: enable_l,
            enable_r: enable_r,
            fileinfo: fileinfo,
        },
    )
}

/// Selects the generator and taper policy of one request, validating
/// the per-family parameters.
#[verifier::rlimit(100)]
fn plan_generator(w: &WaveFormCommands, fs: u32, count: usize, startf: i32, endf: i32) -> (r:
    Result<(GeneratorPlan, Option<TaperEdges>), SigenError>)
    requires
        fs >= 1,
        match spec_fileinfo_freqs(*w, fs as int) {
            Some(fr) => startf as int == fr.0 && endf as int == fr.1,
            None => false,
        },
        spec_plan_count(*w) == Some(count as nat),
        w.spec_common_opt().rate_of_sample == fs,
    ensures
        match r {
            Ok(s) => generator_matches(*w, fs as int, count as nat, s.0, s.1),
            Err(e) => plan_error_cause(GenOptions { waveform: *w }, e),
        },
{
    match w {
        WaveFormCommands::Sine(_) => Ok(
            (GeneratorPlan::Sine { frequency: startf }, Some(TaperEdges::Both)),
        ),
        WaveFormCommands::Noise(o) => {
            if str_eq(o.noise_type.as_str(), "white") {
                Ok((GeneratorPlan::WhiteNoise, Some(TaperEdges::Both)))
            } else if str_eq(o.noise_type.as_str(), "pink") {
                Ok((GeneratorPlan::PinkNoise, Some(TaperEdges::Both)))
            } else {
                Err(SigenError::UnknownNoiseType)
            }
        },
        WaveFormCommands::Tsp(o) => {
            let log: bool;
            if str_eq(o.tsp_type.as_str(), "log") {
                log = true;
            } else if str_eq(o.tsp_type.as_str(), "linear") {
                log = false;
            } else {
                return Err(SigenError::UnknownTspType);
            }
            if count == 0 {
                return Err(SigenError::NumericalDegeneracy);
            }
            if log && count < MIN_LOG_TSP_SAMPLES {
                return Err(SigenError::NumericalDegeneracy);
            }
            if count > usize::MAX / 16 {
                return Err(SigenError::BufferTooLong);
            }
            let n: usize = tsp_working_length(count);
            let shift: usize = tsp_shift_exec(n);
            Ok(
                (
                    GeneratorPlan::Tsp { log: log, up: o.flip, n: n, shift: shift },
                    Some(TaperEdges::End),
                ),
            )
        },
        WaveFormCommands::Sweep(o) => {
            let log: bool;
            if str_eq(o.type_of_sweep.as_str(), "log") {
                log = true;
            } else if str_eq(o.type_of_sweep.as_str(), "linear") {
                log = false;
            } else {
                return Err(SigenError::UnknownSweepType);
            }
            if log && (startf < 1 || endf < 1) {
                return Err(SigenError::NumericalDegeneracy);
            }
            Ok((GeneratorPlan::Sweep { log: log, startf: startf, endf: endf }, Some(TaperEdges::End)))
        },
        WaveFormCommands::Pwm(o) => {
            let duty: i64 = value_verify(o.percent_of_duty as i64, 0, 100);
            if startf < 1 {
                return Err(SigenError::InvalidPwmFrequency);
            }
            Ok((GeneratorPlan::Pwm { frequency: startf, duty: duty as u32 }, Some(TaperEdges::Both)))
        },
        WaveFormCommands::Zeros(_) => Ok((GeneratorPlan::Zeros, None)),
    }
}

} // verus!
