//! The synthesis dispatcher: generator selection, taper policy,
//! channel enables and file naming.

use sigen::commands::common::{CommonOptions, TaperSpecOptions};
use sigen::commands::gen::{
    GenOptions, NoiseOptions, PwmOptions, SineOptions, SweepOptions, TspOptions, WaveFormCommands,
    ZerosOptions,
};
use sigen::error::SigenError;
use sigen::processing::{plan_signal, GeneratorPlan, TaperEdges};

fn common(duration: &str, amp: u32, ch: &str, fs: u32) -> CommonOptions {
    CommonOptions {
        duration: String::from(duration),
        size_of_file: None,
        amplitude: amp,
        channels: String::from(ch),
        rate_of_sample: fs,
        output_filename: None,
    }
}

fn taper(len: usize, window: &str) -> TaperSpecOptions {
    TaperSpecOptions {
        length_of_taper: len,
        window_type: String::from(window),
    }
}

#[test]
fn sine_plan_clamps_frequency_and_tapers_both_edges() {
    let args = GenOptions {
        waveform: WaveFormCommands::Sine(SineOptions {
            frequency: String::from("30000"),
            options: common("5", 450_000, "LR", 44100),
            taper_opt: taper(4096, "hann"),
        }),
    };
    let plan = plan_signal(&args).unwrap();
    assert_eq!(plan.count, 220_500);
    assert!(plan.enable_l && plan.enable_r);
    assert_eq!(plan.taper_edges, Some(TaperEdges::Both));
    // 30 kHz is above Nyquist at 44.1 kHz: clamped to 22050
    match plan.generator {
        GeneratorPlan::Sine { frequency } => assert_eq!(frequency, 22050),
        other => panic!("unexpected generator: {:?}", other),
    }
    assert_eq!(plan.fileinfo.name, "sine_22khz_5s.wav");
}

#[test]
fn channel_selection_names_the_file() {
    let args = GenOptions {
        waveform: WaveFormCommands::Sine(SineOptions {
            frequency: String::from("440"),
            options: common("5", 450_000, "L", 44100),
            taper_opt: taper(0, "linear"),
        }),
    };
    let plan = plan_signal(&args).unwrap();
    assert!(plan.enable_l && !plan.enable_r);
    assert_eq!(plan.fileinfo.name, "sine_440hz_5s_l_only.wav");

    let bad = GenOptions {
        waveform: WaveFormCommands::Sine(SineOptions {
            frequency: String::from("440"),
            options: common("5", 450_000, "MONO", 44100),
            taper_opt: taper(0, "linear"),
        }),
    };
    assert!(matches!(plan_signal(&bad), Err(SigenError::UnknownChannel)));
}

#[test]
fn noise_plan_selects_color() {
    let mk = |color: &str| GenOptions {
        waveform: WaveFormCommands::Noise(NoiseOptions {
            noise_type: String::from(color),
            options: common("2", 450_000, "LR", 48000),
            taper_opt: taper(1024, "linear"),
        }),
    };
    assert!(matches!(
        plan_signal(&mk("white")).unwrap().generator,
        GeneratorPlan::WhiteNoise
    ));
    assert!(matches!(
        plan_signal(&mk("pink")).unwrap().generator,
        GeneratorPlan::PinkNoise
    ));
    assert!(matches!(
        plan_signal(&mk("brown")),
        Err(SigenError::UnknownNoiseType)
    ));
}

#[test]
fn tsp_plan_doubles_and_rounds_up_to_a_power_of_two() {
    let args = GenOptions {
        waveform: WaveFormCommands::Tsp(TspOptions {
            tsp_type: String::from("linear"),
            options: common("1", 450_000, "LR", 44100),
            flip: true,
            taper_opt: taper(4096, "hann"),
        }),
    };
    let plan = plan_signal(&args).unwrap();
    assert_eq!(plan.count, 44100);
    assert_eq!(plan.taper_edges, Some(TaperEdges::End));
    match plan.generator {
        GeneratorPlan::Tsp { log, up, n, shift } => {
            assert!(!log);
            assert!(up);
            assert_eq!(n, 131072); // smallest power of two >= 88200
            assert_eq!(shift, 98304); // three quarters of n
        },
        other => panic!("unexpected generator: {:?}", other),
    }
    assert_eq!(plan.fileinfo.name, "linear_upTSP_1s.wav");
}

#[test]
fn tsp_plan_rejects_bad_types_and_degenerate_lengths() {
    let mk = |tsp_type: &str, duration: &str| GenOptions {
        waveform: WaveFormCommands::Tsp(TspOptions {
            tsp_type: String::from(tsp_type),
            options: common(duration, 450_000, "LR", 44100),
            flip: false,
            taper_opt: taper(4096, "hann"),
        }),
    };
    assert!(matches!(
        plan_signal(&mk("cubic", "1")),
        Err(SigenError::UnknownTspType)
    ));
    // a log TSP of under a millisecond has too few samples
    assert!(matches!(
        plan_signal(&mk("log", "0.001")),
        Err(SigenError::NumericalDegeneracy)
    ));
    assert!(plan_signal(&mk("linear", "0.001")).is_ok());
}

#[test]
fn sweep_plan_checks_log_endpoints() {
    let mk = |kind: &str, startf: &str, endf: &str| GenOptions {
        waveform: WaveFormCommands::Sweep(SweepOptions {
            type_of_sweep: String::from(kind),
            startf: String::from(startf),
            endf: String::from(endf),
            options: common("5", 450_000, "LR", 44100),
            taper_opt: taper(4096, "cos"),
        }),
    };
    let plan = plan_signal(&mk("linear", "20", "16k")).unwrap();
    assert_eq!(plan.taper_edges, Some(TaperEdges::End));
    match plan.generator {
        GeneratorPlan::Sweep { log, startf, endf } => {
            assert!(!log);
            assert_eq!(startf, 20);
            assert_eq!(endf, 16000);
        },
        other => panic!("unexpected generator: {:?}", other),
    }
    assert_eq!(plan.fileinfo.name, "linear_sweep_20hz_to_16khz_5s.wav");

    assert!(matches!(
        plan_signal(&mk("log", "0", "16k")),
        Err(SigenError::NumericalDegeneracy)
    ));
    assert!(matches!(
        plan_signal(&mk("ramp", "20", "16k")),
        Err(SigenError::UnknownSweepType)
    ));
    assert!(matches!(
        plan_signal(&mk("linear", "x", "16k")),
        Err(SigenError::FreqParse { .. })
    ));
}

#[test]
fn pwm_plan_clamps_duty_and_requires_a_period() {
    let mk = |freq: i32, duty: u32| GenOptions {
        waveform: WaveFormCommands::Pwm(PwmOptions {
            frequency: freq,
            percent_of_duty: duty,
            options: common("1", 450_000, "LR", 10_000),
            taper_opt: taper(0, "linear"),
        }),
    };
    let plan = plan_signal(&mk(100, 150)).unwrap();
    match plan.generator {
        GeneratorPlan::Pwm { frequency, duty } => {
            assert_eq!(frequency, 100);
            assert_eq!(duty, 100); // clamped
        },
        other => panic!("unexpected generator: {:?}", other),
    }
    assert!(matches!(
        plan_signal(&mk(0, 50)),
        Err(SigenError::InvalidPwmFrequency)
    ));
}

#[test]
fn zeros_plan_has_no_taper() {
    let args = GenOptions {
        waveform: WaveFormCommands::Zeros(ZerosOptions {
            options: common("2", 450_000, "R", 8000),
        }),
    };
    let plan = plan_signal(&args).unwrap();
    assert!(matches!(plan.generator, GeneratorPlan::Zeros));
    assert_eq!(plan.taper_edges, None);
    assert_eq!(plan.count, 16000);
    assert!(!plan.enable_l && plan.enable_r);
    assert_eq!(plan.fileinfo.name, "zeros_2s_r_only.wav");
}

#[test]
fn bad_duration_is_reported_with_its_text() {
    let args = GenOptions {
        waveform: WaveFormCommands::Zeros(ZerosOptions {
            options: common("soon", 450_000, "LR", 8000),
        }),
    };
    match plan_signal(&args) {
        Err(SigenError::DurationParse { input }) => assert_eq!(input, "soon"),
        other => panic!("unexpected result: {:?}", other),
    }
}

#[test]
fn amplitude_is_clamped_into_range() {
    let args = GenOptions {
        waveform: WaveFormCommands::Zeros(ZerosOptions {
            options: common("1", 2_000_000, "LR", 8000),
        }),
    };
    let plan = plan_signal(&args).unwrap();
    assert_eq!(plan.spec.amp, 1_000_000);
}
