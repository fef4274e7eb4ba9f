//! File-name validation and synthesis.

use sigen::error::SigenError;
use sigen::fileio::{extract_stem, gen_file_name, is_wav_file, set_output_filename, validate_wav_file};

#[test]
fn is_wav_file_checks_extension_and_stem() {
    assert!(is_wav_file("tone.wav"));
    assert!(is_wav_file("dir/tone.wav"));
    assert!(is_wav_file("a.b.wav"));
    assert!(!is_wav_file("tone.WAV"));
    assert!(!is_wav_file("tone.txt"));
    assert!(!is_wav_file(".wav"));
    assert!(!is_wav_file("dir/.wav"));
    assert!(!is_wav_file("wav"));
}

#[test]
fn validate_wav_file_reports_the_name() {
    assert!(validate_wav_file("x.wav").is_ok());
    match validate_wav_file("x.mp3") {
        Err(SigenError::NotWavFile { filename }) => assert_eq!(filename, "x.mp3"),
        other => panic!("unexpected result: {:?}", other),
    }
}

#[test]
fn extract_stem_drops_directory_and_extension() {
    assert_eq!(extract_stem("tone.wav"), "tone");
    assert_eq!(extract_stem("dir/sub/tone.wav"), "tone");
    assert_eq!(extract_stem("noext"), "noext");
    assert_eq!(extract_stem(".bashrc"), ".bashrc");
    assert_eq!(extract_stem("a.b.wav"), "a.b");
}

#[test]
fn gen_file_name_derives_the_name() {
    let fi = gen_file_name(&None, String::from("sine"), 440, -1, "", "5").unwrap();
    assert_eq!(fi.name, "sine_440hz_5s.wav");
    assert_eq!(fi.exists_msg, "");

    let fi = gen_file_name(
        &None,
        String::from("linear_sweep"),
        20,
        16000,
        "_l_only",
        "90",
    )
    .unwrap();
    assert_eq!(fi.name, "linear_sweep_20hz_to_16khz_1min30s_l_only.wav");
}

#[test]
fn gen_file_name_takes_the_given_name() {
    let fi = gen_file_name(
        &Some(String::from("out.wav")),
        String::from("sine"),
        440,
        -1,
        "",
        "5",
    )
    .unwrap();
    assert_eq!(fi.name, "out.wav");

    let err = gen_file_name(
        &Some(String::from("out.txt")),
        String::from("sine"),
        440,
        -1,
        "",
        "5",
    );
    assert!(matches!(err, Err(SigenError::NotWavFile { .. })));
}

#[test]
fn set_output_filename_cases() {
    // explicit name
    let (fi, check) =
        set_output_filename(Some(Some(String::from("out.wav"))), "in.wav").unwrap();
    assert_eq!(fi.name, "out.wav");
    assert!(check);

    // empty explicit name
    assert!(matches!(
        set_output_filename(Some(Some(String::new())), "in.wav"),
        Err(SigenError::EmptyOutputFilename)
    ));

    // overwrite the input
    let (fi, check) = set_output_filename(Some(None), "in.wav").unwrap();
    assert_eq!(fi.name, "in.wav");
    assert!(!check);

    // derived name
    let (fi, check) = set_output_filename(None, "dir/in.wav").unwrap();
    assert_eq!(fi.name, "in_tapered.wav");
    assert!(check);
}
