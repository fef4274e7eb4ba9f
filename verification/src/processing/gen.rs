//! The waveform generators and their numeric model.
//!
//! Sample values are fixed-point: an `i64` holds parts per million of
//! full scale, so a sample of `amp` parts per million is the peak the
//! caller asked for.  Durations are nanoseconds, rates are hertz, and
//! the buffer length is the duration times the rate rounded to nearest.

use vstd::prelude::*;
use vstd::string::*;
use crate::commands::common::TaperSpecOptions;
use crate::strutil::str_eq;

verus! {

/// One full-scale sample, in parts per million.
pub const FULL_SCALE_PPM: u32 = 1_000_000;

/// Nanoseconds in a second.
pub const NS_PER_SEC: u64 = 1_000_000_000;

/// The fewest samples a logarithmic TSP may have: below this the
/// logarithm in its phase law is numerically unstable.
pub const MIN_LOG_TSP_SAMPLES: usize = 64;

/// The window shapes the taper capability offers.
#[derive(Clone, Copy, Debug, PartialEq, Eq, Structural)]
pub enum WindowType {
    /// A straight ramp.
    Linear,
    /// A raised-cosine ramp.
    Hann,
    /// A quarter-cosine ramp.
    Cosine,
    /// A Blackman ramp.
    Blackman,
}

/// An edge-fade request: a window shape and a fade length in samples.
#[derive(Clone, Copy, Debug, PartialEq, Eq, Structural)]
pub struct TaperSpec {
    /// The window shape.
    pub taper_type: WindowType,
    /// The fade length, in samples.
    pub taper_length: usize,
}

/// The window shape a name selects; unknown names fall back to linear.
pub open spec fn spec_window_type(s: Seq<char>) -> WindowType {
    if s == "linear"@ {
        WindowType::Linear
    } else if s == "hann"@ {
        WindowType::Hann
    } else if s == "cos"@ {
        WindowType::Cosine
    } else if s == "blackman"@ {
        WindowType::Blackman
    } else {
        WindowType::Linear
    }
}

/// The taper descriptor a request resolves to.
pub open spec fn spec_taper_of(o: TaperSpecOptions) -> TaperSpec {
    TaperSpec { taper_type: spec_window_type(o.window_type@), taper_length: o.length_of_taper }
}

/// Resolves a taper request into a taper descriptor.
pub fn get_taper_spec(opt: Option<&TaperSpecOptions>) -> (r: Option<TaperSpec>)
    ensures
        match opt {
            None => r is None,
            Some(o) => r == Some(spec_taper_of(*o)),
        },
{
    match opt {
        Some(o) => {
            let name: &str = o.window_type.as_str();
            let taper_type: WindowType = if str_eq(name, "linear") {
                WindowType::Linear
            } else if str_eq(name, "hann") {
                WindowType::Hann
            } else if str_eq(name, "cos") {
                WindowType::Cosine
            } else if str_eq(name, "blackman") {
                WindowType::Blackman
            } else {
                WindowType::Linear
            };
            Some(TaperSpec { taper_type: taper_type, taper_length: o.length_of_taper })
        },
        None => None,
    }
}

/// The complete numeric description of one synthesis request.
#[derive(Clone, Debug)]
pub struct SignalSpec {
    /// Peak amplitude, in parts per million of full scale.
    pub amp: u32,
    /// Channel selection: `L`, `R` or `LR`.
    pub ch: String,
    /// Sample rate, in hertz.
    pub fs: u32,
    /// Duration, in nanoseconds.
    pub d: u64,
    /// Edge-fade request, if any.
    pub taper_spec: Option<TaperSpec>,
}

impl SignalSpec {
    /// A description the engine accepts: a clamped amplitude and a
    /// positive sample rate.
    pub open spec fn wf(&self) -> bool {
        self.amp <= FULL_SCALE_PPM && self.fs >= 1
    }

    /// The buffer length: duration times rate, rounded to nearest.
    pub open spec fn spec_sample_count(&self) -> nat {
        (((self.d as nat) * (self.fs as nat) + 500_000_000) / 1_000_000_000) as nat
    }

    /// Computes the buffer length when it fits in memory.
    pub fn checked_sample_count(&self) -> (r: Option<usize>)
        ensures
            match r {
                Some(c) => c as nat == self.spec_sample_count(),
                None => self.spec_sample_count() > usize::MAX as nat,
            },
    {
        proof {
            assert((self.d as int) * (self.fs as int) <= 0xFFFF_FFFF_FFFF_FFFFu64 as int
                * 0xFFFF_FFFFu32 as int) by (nonlinear_arith)
                requires
                    0 <= self.d as int <= 0xFFFF_FFFF_FFFF_FFFFu64 as int,
                    0 <= self.fs as int <= 0xFFFF_FFFFu32 as int,
            ;
        }
        let prod: u128 = (self.d as u128) * (self.fs as u128) + 500_000_000;
        let wide: u128 = prod / 1_000_000_000;
        if wide > (usize::MAX as u128) {
            None
        } else {
            Some(wide as usize)
        }
    }

    /// Computes the buffer length exactly.
    pub fn sample_count(&self) -> (r: usize)
        requires
            self.spec_sample_count() <= usize::MAX as nat,
        ensures
            r as nat == self.spec_sample_count(),
    {
        let prod: u128 = (self.d as u128) * (self.fs as u128) + 500_000_000;
        let c: u128 = prod / 1_000_000_000;
        c as usize
    }
}

/// The all-zero buffer a description calls for.
pub open spec fn zeros_seq(spec: SignalSpec) -> Seq<i64> {
    Seq::new(spec.spec_sample_count(), |i: int| 0i64)
}

/// Generates silence: a buffer of zeros of exactly the described length.
pub fn generate_zeros(spec: &SignalSpec) -> (r: Vec<i64>)
    requires
        spec.spec_sample_count() <= usize::MAX as nat,
    ensures
        r@ == zeros_seq(*spec),
        r@.len() == spec.spec_sample_count(),
{
    let count: usize = spec.sample_count();
    let mut samples: Vec<i64> = Vec::new();
    let mut n: usize = 0;
    while n < count
        invariant
            n <= count,
            samples@.len() == n,
            count as nat == spec.spec_sample_count(),
            forall|i: int| 0 <= i < n ==> samples@[i] == 0i64,
        decreases count - n,
    {
        samples.push(0i64);
        n = n + 1;
    }
    proof {
        assert(samples@ =~= zeros_seq(*spec));
    }
    samples
}

/// Silence ignores the amplitude: two descriptions that agree on rate
/// and duration call for the same all-zero buffer, whatever their
/// amplitudes, channels or tapers.
pub proof fn lemma_zeros_amplitude_independent(a: SignalSpec, b: SignalSpec)
    requires
        a.fs == b.fs,
        a.d == b.d,
    ensures
        zeros_seq(a) == zeros_seq(b),
{
    assert(zeros_seq(a) =~= zeros_seq(b));
}

/// The value of sample `n` of a pulse train with the given period and
/// high-run length: the first `high` samples of each period sit at
/// `amp`, the rest at zero.  A final partial period is simply cut off
/// at the buffer end, so its leading samples are still high.
pub open spec fn pwm_sample(n: int, period: int, high: int, amp: int) -> int
    recommends
        period >= 1,
{
    if n % period < high {
        amp
    } else {
        0
    }
}

/// The period of a pulse train, in samples.
pub open spec fn pwm_period(fs: u32, freq: i32) -> int
    recommends
        freq >= 1,
{
    (fs as int) / (freq as int)
}

/// The high-run length of a period: the duty percentage of the period,
/// rounded to nearest.
pub open spec fn pwm_high(period: int, duty: u32) -> int {
    (period * (duty as int) + 50) / 100
}

/// Generates a PWM pulse train.
///
/// Within each period of `fs / freq` samples, the first
/// `round(period * duty / 100)` samples sit at the spec's amplitude and
/// the rest at zero; the final partial period is truncated at the
/// buffer end, not padded.
pub fn generate_pwm_signal(spec: &SignalSpec, freq: i32, duty: u32) -> (r: Vec<i64>)
    requires
        spec.wf(),
        1 <= freq,
        freq as u32 <= spec.fs,
        duty <= 100,
        spec.spec_sample_count() <= usize::MAX as nat,
    ensures
        r@.len() == spec.spec_sample_count(),
        forall|i: int|
            0 <= i < r@.len() ==> r@[i] == pwm_sample(
                i,
                pwm_period(spec.fs, freq),
                pwm_high(pwm_period(spec.fs, freq), duty),
                spec.amp as int,
            ),
        forall|i: int| 0 <= i < r@.len() ==> 0 <= #[trigger] r@[i] <= spec.amp,
{
    let count: usize = spec.sample_count();
    let frequ: u32 = freq as u32;
    proof {
        assert(spec.fs as int / frequ as int >= 1 && spec.fs as int / frequ as int
            <= spec.fs as int) by (nonlinear_arith)
            requires
                1 <= frequ as int <= spec.fs as int,
        ;
    }
    let period: usize = (spec.fs / frequ) as usize;
    proof {
        assert((period as int) * (duty as int) + 50 <= 0xFFFF_FFFFi64 * 100 + 50)
            by (nonlinear_arith)
            requires
                0 <= period as int <= 0xFFFF_FFFFi64 as int,
                0 <= duty as int <= 100,
        ;
    }
    let high_wide: u64 = ((period as u64) * (duty as u64) + 50) / 100;
    proof {
        assert(high_wide as int <= period as int) by (nonlinear_arith)
            requires
                high_wide as int == ((period as int) * (duty as int) + 50) / 100,
                0 <= duty as int <= 100,
                0 <= period as int,
        ;
    }
    let high: usize = high_wide as usize;
    let ghost gperiod = pwm_period(spec.fs, freq);
    let ghost ghigh = pwm_high(gperiod, duty);
    let mut samples: Vec<i64> = Vec::new();
    let mut n: usize = 0;
    while n < count
        invariant
            n <= count,
            samples@.len() == n,
            count as nat == spec.spec_sample_count(),
            period as int == gperiod,
            high as int == ghigh,
            1 <= period,
            high <= period,
            spec.amp <= FULL_SCALE_PPM,
            forall|i: int|
                0 <= i < n ==> samples@[i] == pwm_sample(i, gperiod, ghigh, spec.amp as int),
            forall|i: int| 0 <= i < n ==> 0 <= #[trigger] samples@[i] <= spec.amp,
        decreases count - n,
    {
        let rem: usize = n % period;
        let sample: i64 = if rem < high {
            spec.amp as i64
        } else {
            0i64
        };
        samples.push(sample);
        n = n + 1;
    }
    samples
}


/// An optionally plus-signed decimal numeral, which may carry an
/// exponent; a minus sign is rejected, since durations are nonnegative.
pub open spec fn unsigned_sci(s: Seq<char>) -> Option<((nat, Seq<char>), int)> {
    if s.len() >= 1 && s[0] == '-' {
        None
    } else if s.len() >= 1 && s[0] == '+' {
        crate::strutil::sci_parts(s.skip(1))
    } else {
        crate::strutil::sci_parts(s)
    }
}

/// The nanosecond reading of a numeral of seconds: the mantissa with
/// the decimal point moved right by the exponent and nine more places,
/// truncated.
pub open spec fn decimal_ns(s: Seq<char>) -> Option<nat> {
    match unsigned_sci(s) {
        Some(pe) => Some(crate::strutil::shifted_val(pe.0.0, pe.0.1, pe.1 + 9)),
        None => None,
    }
}

/// The nanosecond reading of a numeral carrying the unit suffix `suf`
/// (matched case-insensitively), worth `num / den` seconds.
pub open spec fn suffix_ns(s: Seq<char>, suf: Seq<char>, num: nat, den: nat) -> Option<nat>
    recommends
        suf.len() >= 1,
        den >= 1,
{
    if crate::strutil::ends_with_lower(s, suf) {
        match decimal_ns(crate::strutil::trim_end_matches_seq(s, suf)) {
            Some(b) => Some((b * num) / den),
            None => None,
        }
    } else {
        None
    }
}

/// The duration grammar, in nanoseconds: a bare numeral counts seconds,
/// and the suffixes `m`/`msec` (milliseconds), `s`/`sec` (seconds),
/// `min` (minutes) and `h`/`hour`/`hours` (hours) are tried in that
/// order, each taken only when its numeral also reads.
#[verifier::opaque]
pub open spec fn spec_parse_duration(s: Seq<char>) -> Option<nat> {
    if decimal_ns(s) is Some {
        decimal_ns(s)
    } else if suffix_ns(s, "m"@, 1, 1000) is Some {
        suffix_ns(s, "m"@, 1, 1000)
    } else if suffix_ns(s, "msec"@, 1, 1000) is Some {
        suffix_ns(s, "msec"@, 1, 1000)
    } else if suffix_ns(s, "s"@, 1, 1) is Some {
        suffix_ns(s, "s"@, 1, 1)
    } else if suffix_ns(s, "sec"@, 1, 1) is Some {
        suffix_ns(s, "sec"@, 1, 1)
    } else if suffix_ns(s, "min"@, 60, 1) is Some {
        suffix_ns(s, "min"@, 60, 1)
    } else if suffix_ns(s, "h"@, 3600, 1) is Some {
        suffix_ns(s, "h"@, 3600, 1)
    } else if suffix_ns(s, "hour"@, 3600, 1) is Some {
        suffix_ns(s, "hour"@, 3600, 1)
    } else if suffix_ns(s, "hours"@, 3600, 1) is Some {
        suffix_ns(s, "hours"@, 3600, 1)
    } else {
        None
    }
}

/// Reads a plain numeral of seconds as nanoseconds, three ways: outside
/// the grammar, past the scaled-reading cap, or its value.
fn duration_decimal_ns(s: &str) -> (r: crate::strutil::ScaledReading)
    ensures
        match r {
            crate::strutil::ScaledReading::Invalid => decimal_ns(s@) is None,
            crate::strutil::ScaledReading::TooBig => decimal_ns(s@) matches Some(b) && b
                > crate::strutil::SCALE_CAP as nat,
            crate::strutil::ScaledReading::Value(v) => decimal_ns(s@) == Some(v as nat) && v
                <= crate::strutil::SCALE_CAP,
        },
{
    let sign: (bool, String) = crate::strutil::split_sign(s);
    if sign.0 {
        return crate::strutil::ScaledReading::Invalid;
    }
    crate::strutil::parse_scaled_decimal(sign.1.as_str(), 9)
}

/// A base reading past the cap cannot scale back onto the clock.
proof fn lemma_scaled_overflow(b: nat, num: nat, den: nat)
    requires
        b > crate::strutil::SCALE_CAP as nat,
        1 <= num,
        1 <= den <= 1000,
    ensures
        (b * num) / den > u64::MAX as nat,
{
    assert(b * num >= b) by (nonlinear_arith)
        requires
            num >= 1,
            b >= 0,
    ;
    vstd::arithmetic::div_mod::lemma_div_is_ordered(b as int, (b * num) as int, den as int);
    vstd::arithmetic::div_mod::lemma_div_is_ordered_by_denominator(b as int, den as int, 1000);
    vstd::arithmetic::div_mod::lemma_div_is_ordered(
        crate::strutil::SCALE_CAP as int + 1,
        b as int,
        1000,
    );
    assert((crate::strutil::SCALE_CAP as int + 1) / 1000 > u64::MAX);
}

/// Reads the numeral left of the unit suffix `suf`, worth `num / den`
/// seconds, as nanoseconds, three ways: no suffix or no reading, a
/// reading past the 64-bit clock, or the value.
fn suffix_ns_exec(s: &str, suf: &str, num: u64, den: u64) -> (r: crate::strutil::ScaledReading)
    requires
        suf@.len() >= 1,
        1 <= num <= 3600,
        1 <= den <= 1000,
    ensures
        match r {
            crate::strutil::ScaledReading::Invalid => suffix_ns(
                s@,
                suf@,
                num as nat,
                den as nat,
            ) is None,
            crate::strutil::ScaledReading::TooBig => suffix_ns(s@, suf@, num as nat, den as nat)
                matches Some(v) && v > u64::MAX as nat,
            crate::strutil::ScaledReading::Value(v) => suffix_ns(
                s@,
                suf@,
                num as nat,
                den as nat,
            ) == Some(v as nat) && v <= u64::MAX,
        },
{
    if !crate::strutil::ends_with_lower_exec(s, suf) {
        return crate::strutil::ScaledReading::Invalid;
    }
    let t: String = crate::strutil::trim_end_matches_exec(s, suf);
    match duration_decimal_ns(t.as_str()) {
        crate::strutil::ScaledReading::Invalid => crate::strutil::ScaledReading::Invalid,
        crate::strutil::ScaledReading::TooBig => {
            proof {
                let ghost b = decimal_ns(crate::strutil::trim_end_matches_seq(s@, suf@))->Some_0;
                lemma_scaled_overflow(b, num as nat, den as nat);
            }
            crate::strutil::ScaledReading::TooBig
        },
        crate::strutil::ScaledReading::Value(b) => {
            proof {
                assert(b * (num as u128) <= crate::strutil::SCALE_CAP * 3600)
                    by (nonlinear_arith)
                    requires
                        0 <= b <= crate::strutil::SCALE_CAP,
                        0 <= num as u128 <= 3600,
                ;
            }
            let scaled: u128 = (b * (num as u128)) / (den as u128);
            if scaled <= (u64::MAX as u128) {
                crate::strutil::ScaledReading::Value(scaled)
            } else {
                crate::strutil::ScaledReading::TooBig
            }
        },
    }
}

/// Parses a duration argument into nanoseconds.
///
/// Succeeds exactly on the strings of the duration grammar whose
/// reading fits the 64-bit nanosecond clock; everything else is the
/// parse error, carrying the offending text.
pub fn parse_duration(duration_cmd: &str) -> (r: Result<u64, crate::error::SigenError>)
    ensures
        match r {
            Ok(v) => spec_parse_duration(duration_cmd@) == Some(v as nat),
            Err(e) => e matches crate::error::SigenError::DurationParse { input } && input@
                == duration_cmd@ && !(spec_parse_duration(duration_cmd@) matches Some(v) && v
                <= u64::MAX as nat),
        },
{
    proof {
        reveal(spec_parse_duration);
        reveal_strlit("m");
        reveal_strlit("msec");
        reveal_strlit("s");
        reveal_strlit("sec");
        reveal_strlit("min");
        reveal_strlit("h");
        reveal_strlit("hour");
        reveal_strlit("hours");
    }
    match duration_decimal_ns(duration_cmd) {
        crate::strutil::ScaledReading::Invalid => {},
        crate::strutil::ScaledReading::TooBig => {
            return Err(
                crate::error::SigenError::DurationParse {
                    input: String::from_str(duration_cmd),
                },
            );
        },
        crate::strutil::ScaledReading::Value(v) => {
            if v <= (u64::MAX as u128) {
                return Ok(v as u64);
            } else {
                return Err(
                    crate::error::SigenError::DurationParse {
                        input: String::from_str(duration_cmd),
                    },
                );
            }
        },
    }
    match suffix_ns_exec(duration_cmd, "m", 1, 1000) {
        crate::strutil::ScaledReading::Invalid => {},
        crate::strutil::ScaledReading::TooBig => {
            return Err(
                crate::error::SigenError::DurationParse {
                    input: String::from_str(duration_cmd),
                },
            );
        },
        crate::strutil::ScaledReading::Value(v) => {
            return Ok(v as u64);
        },
    }
    match suffix_ns_exec(duration_cmd, "msec", 1, 1000) {
        crate::strutil::ScaledReading::Invalid => {},
        crate::strutil::ScaledReading::TooBig => {
            return Err(
                crate::error::SigenError::DurationParse {
                    input: String::from_str(duration_cmd),
                },
            );
        },
        crate::strutil::ScaledReading::Value(v) => {
            return Ok(v as u64);
        },
    }
    match suffix_ns_exec(duration_cmd, "s", 1, 1) {
        crate::strutil::ScaledReading::Invalid => {},
        crate::strutil::ScaledReading::TooBig => {
            return Err(
                crate::error::SigenError::DurationParse {
                    input: String::from_str(duration_cmd),
                },
            );
        },
        crate::strutil::ScaledReading::Value(v) => {
            return Ok(v as u64);
        },
    }
    match suffix_ns_exec(duration_cmd, "sec", 1, 1) {
        crate::strutil::ScaledReading::Invalid => {},
        crate::strutil::ScaledReading::TooBig => {
            return Err(
                crate::error::SigenError::DurationParse {
                    input: String::from_str(duration_cmd),
                },
            );
        },
        crate::strutil::ScaledReading::Value(v) => {
            return Ok(v as u64);
        },
    }
    match suffix_ns_exec(duration_cmd, "min", 60, 1) {
        crate::strutil::ScaledReading::Invalid => {},
        crate::strutil::ScaledReading::TooBig => {
            return Err(
                crate::error::SigenError::DurationParse {
                    input: String::from_str(duration_cmd),
                },
            );
        },
        crate::strutil::ScaledReading::Value(v) => {
            return Ok(v as u64);
        },
    }
    match suffix_ns_exec(duration_cmd, "h", 3600, 1) {
        crate::strutil::ScaledReading::Invalid => {},
        crate::strutil::ScaledReading::TooBig => {
            return Err(
                crate::error::SigenError::DurationParse {
                    input: String::from_str(duration_cmd),
                },
            );
        },
        crate::strutil::ScaledReading::Value(v) => {
            return Ok(v as u64);
        },
    }
    match suffix_ns_exec(duration_cmd, "hour", 3600, 1) {
        crate::strutil::ScaledReading::Invalid => {},
        crate::strutil::ScaledReading::TooBig => {
            return Err(
                crate::error::SigenError::DurationParse {
                    input: String::from_str(duration_cmd),
                },
            );
        },
        crate::strutil::ScaledReading::Value(v) => {
            return Ok(v as u64);
        },
    }
    match suffix_ns_exec(duration_cmd, "hours", 3600, 1) {
        crate::strutil::ScaledReading::Invalid => {},
        crate::strutil::ScaledReading::TooBig => {
            return Err(
                crate::error::SigenError::DurationParse {
                    input: String::from_str(duration_cmd),
                },
            );
        },
        crate::strutil::ScaledReading::Value(v) => {
            return Ok(v as u64);
        },
    }
    Err(crate::error::SigenError::DurationParse { input: String::from_str(duration_cmd) })
}

/// The integer reading of an optionally signed decimal numeral, which
/// may carry an exponent; the fraction left after moving the point is
/// discarded (truncation toward zero).
pub open spec fn signed_decimal_int(s: Seq<char>) -> Option<int> {
    if s.len() == 0 {
        None
    } else {
        let body = if s[0] == '-' || s[0] == '+' {
            s.skip(1)
        } else {
            s
        };
        match crate::strutil::sci_parts(body) {
            Some(pe) => {
                let mag = crate::strutil::shifted_val(pe.0.0, pe.0.1, pe.1) as int;
                if s[0] == '-' {
                    Some(-mag)
                } else {
                    Some(mag)
                }
            },
            None => None,
        }
    }
}

/// The frequency grammar: a signed integer numeral in hertz, or a
/// decimal numeral carrying a case-insensitive `k` suffix, truncated to
/// an integer and scaled by a thousand.  Readings outside the 32-bit
/// range are rejected.
pub open spec fn spec_parse_freq(s: Seq<char>) -> Option<int> {
    if crate::strutil::signed_int_val(s) matches Some(v) && i32::MIN as int <= v
        <= i32::MAX as int {
        crate::strutil::signed_int_val(s)
    } else if crate::strutil::ends_with_lower(s, "k"@) {
        match signed_decimal_int(crate::strutil::trim_end_matches_seq(s, "k"@)) {
            Some(w) => if i32::MIN as int <= w * 1000 <= i32::MAX as int {
                Some(w * 1000)
            } else {
                None
            },
            None => None,
        }
    } else {
        None
    }
}

/// Parses a frequency argument into hertz.
///
/// Succeeds exactly on the strings of the frequency grammar whose
/// reading fits an `i32`; everything else is the parse error, carrying
/// the offending text.
pub fn parse_freq(freq_cmd: &str) -> (r: Result<i32, crate::error::SigenError>)
    ensures
        match r {
            Ok(v) => spec_parse_freq(freq_cmd@) == Some(v as int),
            Err(e) => spec_parse_freq(freq_cmd@) is None && (e
                matches crate::error::SigenError::FreqParse { input } && input@ == freq_cmd@),
        },
{
    proof {
        reveal_strlit("k");
    }
    match crate::strutil::parse_i64(freq_cmd) {
        Some(v) => {
            if (i32::MIN as i64) <= v && v <= (i32::MAX as i64) {
                return Ok(v as i32);
            }
        },
        None => {},
    }
    if crate::strutil::ends_with_lower_exec(freq_cmd, "k") {
        let t: String = crate::strutil::trim_end_matches_exec(freq_cmd, "k");
        let sign: (bool, String) = crate::strutil::split_sign(t.as_str());
        match crate::strutil::parse_scaled_decimal(sign.1.as_str(), 0) {
            crate::strutil::ScaledReading::Value(mag) => {
                if mag <= 2_147_483 {
                    let scaled: i32 = (mag as i32) * 1000;
                    if sign.0 {
                        return Ok(-scaled);
                    } else {
                        return Ok(scaled);
                    }
                } else {
                    proof {
                        assert((mag as int) * 1000 > i32::MAX) by (nonlinear_arith)
                            requires
                                mag as int >= 2_147_484,
                        ;
                    }
                    return Err(
                        crate::error::SigenError::FreqParse {
                            input: String::from_str(freq_cmd),
                        },
                    );
                }
            },
            crate::strutil::ScaledReading::TooBig => {
                proof {
                    let ghost w = crate::strutil::shifted_val(
                        crate::strutil::sci_parts(sign.1@)->Some_0.0.0,
                        crate::strutil::sci_parts(sign.1@)->Some_0.0.1,
                        crate::strutil::sci_parts(sign.1@)->Some_0.1,
                    );
                    assert((w as int) * 1000 > i32::MAX) by (nonlinear_arith)
                        requires
                            w as int > crate::strutil::SCALE_CAP as int,
                    ;
                }
                return Err(
                    crate::error::SigenError::FreqParse { input: String::from_str(freq_cmd) },
                );
            },
            crate::strutil::ScaledReading::Invalid => {
                return Err(
                    crate::error::SigenError::FreqParse { input: String::from_str(freq_cmd) },
                );
            },
        }
    }
    Err(crate::error::SigenError::FreqParse { input: String::from_str(freq_cmd) })
}

/// Whether `n` is a power of two.
pub open spec fn is_pow2(n: nat) -> bool
    decreases n,
{
    if n == 0 {
        false
    } else if n == 1 {
        true
    } else {
        n % 2 == 0 && is_pow2(n / 2)
    }
}

/// The working length of a TSP: the smallest power of two that is at
/// least twice the requested sample count, so the later rotation cannot
/// wrap the pulse onto itself.
pub fn tsp_working_length(count: usize) -> (n: usize)
    requires
        1 <= count,
        count <= usize::MAX / 4,
    ensures
        is_pow2(n as nat),
        n >= 2 * count,
        n / 2 < 2 * count,
{
    let target: usize = 2 * count;
    let mut n: usize = 1;
    while n < target
        invariant
            is_pow2(n as nat),
            1 <= n <= 2 * target,
            n / 2 < target,
            target == 2 * count,
            count <= usize::MAX / 4,
        decreases 2 * target - n,
    {
        n = 2 * n;
    }
    n
}

/// The circular shift a TSP is rotated by: three quarters of its
/// working length.
pub open spec fn tsp_shift(n: int) -> int {
    (3 * n) / 4
}

/// Computes the TSP shift.
pub fn tsp_shift_exec(n: usize) -> (r: usize)
    requires
        n <= usize::MAX / 4,
    ensures
        r as int == tsp_shift(n as int),
        r <= n,
{
    proof {
        assert((3 * (n as int)) / 4 <= n as int) by (nonlinear_arith)
            requires
                0 <= n as int,
        ;
    }
    (3 * n) / 4
}

/// The conjugate-symmetry fill order of a spectrum of even length `n`:
/// bin `n - k` takes the conjugate of bin `k`, for every `k` strictly
/// between zero and `n / 2`.  Entry `t` of the result is the pair
/// `(n - (t + 1), t + 1)` of destination and source; destinations cover
/// the upper half of the spectrum, sources its lower half, and each
/// pair sums to `n`, which is the symmetry that makes the inverse
/// transform of the filled spectrum real-valued.
pub fn conjugate_pairs(n: usize) -> (r: Vec<(usize, usize)>)
    requires
        n >= 2,
    ensures
        r@.len() == n / 2 - 1,
        forall|t: int|
            0 <= t < r@.len() ==> #[trigger] r@[t] == (((n - (t + 1)) as usize, (t + 1) as usize)),
        forall|t: int|
            0 <= t < r@.len() ==> 1 <= (#[trigger] r@[t]).1 < n / 2 && n / 2 < r@[t].0 < n
                && r@[t].0 + r@[t].1 == n,
{
    let half: usize = n / 2;
    let mut r: Vec<(usize, usize)> = Vec::new();
    let mut k: usize = 1;
    while k < half
        invariant
            1 <= k <= half || (half == 0 && k == 1),
            half == n / 2,
            n >= 2,
            r@.len() == k - 1,
            forall|t: int|
                0 <= t < r@.len() ==> #[trigger] r@[t] == (((n - (t + 1)) as usize, (t
                    + 1) as usize)),
        decreases half - k,
    {
        r.push((n - k, k));
        k = k + 1;
    }
    r
}

/// The conjugate-symmetry fill order covers the upper half of the
/// spectrum exactly once: for a fill order of the shape
/// `conjugate_pairs` returns on an even length `n`, every bin strictly
/// between `n / 2` and `n` is the destination of exactly one pair, so
/// filling along it makes the whole spectrum conjugate-symmetric and
/// the inverse transform of the result real-valued.
pub proof fn lemma_conjugate_pairs_cover(pairs: Seq<(usize, usize)>, n: int)
    requires
        2 <= n <= usize::MAX as int,
        n % 2 == 0,
        pairs.len() == n / 2 - 1,
        forall|t: int|
            0 <= t < pairs.len() ==> #[trigger] pairs[t] == (((n - (t + 1)) as usize, (t
                + 1) as usize)),
    ensures
        forall|dst: int|
            n / 2 < dst < n ==> 0 <= n - dst - 1 < pairs.len() && (#[trigger] pairs[n - dst
                - 1]).0 as int == dst,
        forall|t1: int, t2: int|
            0 <= t1 < pairs.len() && 0 <= t2 < pairs.len() && (#[trigger] pairs[t1]).0 == (
            #[trigger] pairs[t2]).0 ==> t1 == t2,
{
    assert forall|dst: int| n / 2 < dst < n implies 0 <= n - dst - 1 < pairs.len() && (
    #[trigger] pairs[n - dst - 1]).0 as int == dst by {
        let t = n - dst - 1;
        assert(0 <= t < pairs.len());
        assert(pairs[t].0 as int == dst);
    }
}

/// `s` rotated right by `k` places.
pub open spec fn rotate_right_seq<T>(s: Seq<T>, k: int) -> Seq<T>
    recommends
        0 <= k <= s.len(),
{
    s.subrange(s.len() - k, s.len() as int) + s.subrange(0, s.len() - k)
}

/// `s` rotated left by `k` places.
pub open spec fn rotate_left_seq<T>(s: Seq<T>, k: int) -> Seq<T>
    recommends
        0 <= k <= s.len(),
{
    s.subrange(k, s.len() as int) + s.subrange(0, k)
}

/// Rotates a buffer right by `k` places.
pub fn rotate_right<T: Copy>(v: &Vec<T>, k: usize) -> (r: Vec<T>)
    requires
        k <= v@.len(),
    ensures
        r@ == rotate_right_seq(v@, k as int),
        r@.len() == v@.len(),
{
    let len: usize = v.len();
    let split: usize = len - k;
    let mut r: Vec<T> = Vec::new();
    let mut i: usize = split;
    while i < len
        invariant
            split <= i <= len,
            len == v@.len(),
            split == len - k,
            r@ == v@.subrange(split as int, i as int),
        decreases len - i,
    {
        r.push(v[i]);
        proof {
            assert(r@ =~= v@.subrange(split as int, i + 1));
        }
        i = i + 1;
    }
    let mut j: usize = 0;
    while j < split
        invariant
            0 <= j <= split <= len,
            len == v@.len(),
            split == len - k,
            r@ == v@.subrange(split as int, len as int) + v@.subrange(0, j as int),
        decreases split - j,
    {
        r.push(v[j]);
        proof {
            assert(r@ =~= v@.subrange(split as int, len as int) + v@.subrange(0, j + 1));
        }
        j = j + 1;
    }
    r
}

/// Rotates a buffer left by `k` places.
pub fn rotate_left<T: Copy>(v: &Vec<T>, k: usize) -> (r: Vec<T>)
    requires
        k <= v@.len(),
    ensures
        r@ == rotate_left_seq(v@, k as int),
        r@.len() == v@.len(),
{
    let len: usize = v.len();
    let r: Vec<T> = rotate_right(v, len - k);
    proof {
        assert(rotate_right_seq(v@, (len - k) as int) =~= rotate_left_seq(v@, k as int));
    }
    r
}

/// Ends a TSP construction: rotates the raw pulse by three quarters of
/// its working length — right for an up-chirp, left for a down-chirp —
/// and truncates the result to the requested sample count.
pub fn finalize_tsp<T: Copy>(raw: &Vec<T>, up: bool, count: usize) -> (r: Vec<T>)
    requires
        count <= raw@.len(),
        raw@.len() <= usize::MAX / 4,
    ensures
        r@.len() == count,
        r@ == (if up {
            rotate_right_seq(raw@, tsp_shift(raw@.len() as int))
        } else {
            rotate_left_seq(raw@, tsp_shift(raw@.len() as int))
        }).take(count as int),
{
    let shift: usize = tsp_shift_exec(raw.len());
    let rotated: Vec<T> = if up {
        rotate_right(raw, shift)
    } else {
        rotate_left(raw, shift)
    };
    let mut r: Vec<T> = Vec::new();
    let mut i: usize = 0;
    while i < count
        invariant
            0 <= i <= count <= rotated@.len(),
            r@ == rotated@.subrange(0, i as int),
        decreases count - i,
    {
        r.push(rotated[i]);
        proof {
            assert(r@ =~= rotated@.subrange(0, i + 1));
        }
        i = i + 1;
    }
    proof {
        assert(r@ =~= rotated@.take(count as int));
    }
    r
}

} // verus!
