//! Frequency and duration parsing, formatting, and clamping.

use sigen::fileio::{duration_format, freq_format};
use sigen::processing::gen::{parse_duration, parse_freq};
use sigen::processing::value_verify;
use sigen::processing::gen::{get_taper_spec, WindowType};
use sigen::commands::common::TaperSpecOptions;
use sigen::error::SigenError;

#[test]
fn parse_freq_plain_hertz() {
    assert_eq!(parse_freq("440").unwrap(), 440);
    assert_eq!(parse_freq("0").unwrap(), 0);
    assert_eq!(parse_freq("-100").unwrap(), -100);
    assert_eq!(parse_freq("+20").unwrap(), 20);
}

#[test]
fn parse_freq_kilohertz_suffix() {
    assert_eq!(parse_freq("4k").unwrap(), 4000);
    assert_eq!(parse_freq("16k").unwrap(), 16000);
    // an upper-case suffix passes the case-insensitive check but is
    // trimmed literally, so the numeral no longer reads
    assert!(parse_freq("16K").is_err());
    // the fraction is truncated before scaling
    assert_eq!(parse_freq("1.5k").unwrap(), 1000);
    assert_eq!(parse_freq("-2k").unwrap(), -2000);
}

#[test]
fn parse_freq_reads_exponent_notation_behind_k() {
    // only the kilohertz branch reads a general numeral
    assert_eq!(parse_freq("1.5e2k").unwrap(), 150_000);
    assert_eq!(parse_freq("2e3k").unwrap(), 2_000_000);
    assert_eq!(parse_freq("2e-1k").unwrap(), 0);
    assert!(parse_freq("1e3").is_err());
    assert!(parse_freq("1e7k").is_err());
}

#[test]
fn parse_freq_rejects_garbage() {
    assert!(matches!(
        parse_freq("abc"),
        Err(SigenError::FreqParse { .. })
    ));
    assert!(parse_freq("").is_err());
    assert!(parse_freq("k").is_err());
    assert!(parse_freq("5K").is_err());
    // out of the 32-bit range, directly and after scaling
    assert!(parse_freq("3000000000").is_err());
    assert!(parse_freq("3000000k").is_err());
}

#[test]
fn parse_duration_bare_seconds() {
    assert_eq!(parse_duration("5").unwrap(), 5_000_000_000);
    assert_eq!(parse_duration("1.5").unwrap(), 1_500_000_000);
    assert_eq!(parse_duration("0.001").unwrap(), 1_000_000);
    assert_eq!(parse_duration("0").unwrap(), 0);
    assert_eq!(parse_duration(".5").unwrap(), 500_000_000);
    assert_eq!(parse_duration("2.").unwrap(), 2_000_000_000);
}

#[test]
fn parse_duration_unit_suffixes() {
    assert_eq!(parse_duration("500m").unwrap(), 500_000_000);
    assert_eq!(parse_duration("500msec").unwrap(), 500_000_000);
    assert_eq!(parse_duration("2s").unwrap(), 2_000_000_000);
    assert_eq!(parse_duration("3sec").unwrap(), 3_000_000_000);
    assert_eq!(parse_duration("2min").unwrap(), 120_000_000_000);
    assert_eq!(parse_duration("1.5min").unwrap(), 90_000_000_000);
    assert_eq!(parse_duration("1h").unwrap(), 3_600_000_000_000);
    assert_eq!(parse_duration("1hour").unwrap(), 3_600_000_000_000);
    assert_eq!(parse_duration("2hours").unwrap(), 7_200_000_000_000);
    // case-insensitive suffix, trimmed literally
    assert_eq!(parse_duration("2MIN").is_err(), true);
    assert_eq!(parse_duration("1.5m").unwrap(), 1_500_000);
}

#[test]
fn parse_duration_reads_exponent_notation() {
    assert_eq!(parse_duration("1e3").unwrap(), 1_000_000_000_000);
    assert_eq!(parse_duration("1.5e2").unwrap(), 150_000_000_000);
    assert_eq!(parse_duration("2e-3").unwrap(), 2_000_000);
    assert_eq!(parse_duration("2E2").unwrap(), 200_000_000_000);
    assert_eq!(parse_duration("5e2m").unwrap(), 500_000_000);
    assert_eq!(parse_duration("1e-2min").unwrap(), 600_000_000);
    // a tiny reading truncates to nothing
    assert_eq!(parse_duration("1e-300").unwrap(), 0);
    // a vast reading does not fit the clock
    assert!(parse_duration("1e300").is_err());
    // malformed exponents stay outside the grammar
    assert!(parse_duration("1e").is_err());
    assert!(parse_duration("1e2.5").is_err());
    assert!(parse_duration("e3").is_err());
}

#[test]
fn parse_duration_rejects_garbage() {
    assert!(matches!(
        parse_duration("abc"),
        Err(SigenError::DurationParse { .. })
    ));
    assert!(parse_duration("").is_err());
    assert!(parse_duration("-5").is_err());
    assert!(parse_duration("1.2.3").is_err());
    assert!(parse_duration("5ms").is_err());
}

#[test]
fn value_verify_clamps() {
    assert_eq!(value_verify(5, 0, 10), 5);
    assert_eq!(value_verify(-3, 0, 10), 0);
    assert_eq!(value_verify(42, 0, 10), 10);
    assert_eq!(value_verify(0, 0, 100), 0);
    assert_eq!(value_verify(100, 0, 100), 100);
}

#[test]
fn freq_format_fragments() {
    assert_eq!(freq_format(440, ""), "_440hz");
    assert_eq!(freq_format(2000, ""), "_2khz");
    assert_eq!(freq_format(16000, "to_"), "_to_16khz");
    assert_eq!(freq_format(-1, ""), "");
    assert_eq!(freq_format(999, ""), "_999hz");
    assert_eq!(freq_format(1000, ""), "_1khz");
}

#[test]
fn duration_format_fragments() {
    assert_eq!(duration_format("5"), "_5s");
    assert_eq!(duration_format("59"), "_59s");
    assert_eq!(duration_format("60"), "_1min");
    assert_eq!(duration_format("90"), "_1min30s");
    assert_eq!(duration_format("120"), "_2min");
    assert_eq!(duration_format("1.5"), "_1500msec");
    assert_eq!(duration_format("0.0015"), "_1msec");
    assert_eq!(duration_format("1e3"), "_1000000msec");
    assert_eq!(duration_format("abc"), "_abc");
    assert_eq!(duration_format("-5"), "_-5s");
}

#[test]
fn window_names_resolve_with_linear_fallback() {
    let mk = |name: &str| TaperSpecOptions {
        length_of_taper: 4096,
        window_type: String::from(name),
    };
    assert_eq!(get_taper_spec(Some(&mk("hann"))).unwrap().taper_type, WindowType::Hann);
    assert_eq!(get_taper_spec(Some(&mk("cos"))).unwrap().taper_type, WindowType::Cosine);
    assert_eq!(
        get_taper_spec(Some(&mk("blackman"))).unwrap().taper_type,
        WindowType::Blackman
    );
    assert_eq!(get_taper_spec(Some(&mk("linear"))).unwrap().taper_type, WindowType::Linear);
    assert_eq!(get_taper_spec(Some(&mk("bogus"))).unwrap().taper_type, WindowType::Linear);
    assert_eq!(get_taper_spec(Some(&mk("hann"))).unwrap().taper_length, 4096);
    assert!(get_taper_spec(None).is_none());
}

#[test]
fn error_messages_echo_the_offender() {
    let e = SigenError::FreqParse { input: String::from("x2") };
    assert_eq!(e.message(), "cannot parse frequency [x2]");
    let e = SigenError::NotWavFile { filename: String::from("a.txt") };
    assert_eq!(e.message(), "The filename must have a .wav extension. [a.txt]");
    assert_eq!(SigenError::MissingTaper.message(), "taper spec is not set");
}
