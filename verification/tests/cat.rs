//! The concatenation grammar: argument splitting, input collection and
//! segment planning.

use sigen::commands::wav::WavOptions;
use sigen::error::SigenError;
use sigen::processing::cat::{
    cat_zeros_points, is_specify_key, parse_cat_commands, parse_input_files, CatSegment,
};

fn strings(items: &[&str]) -> Vec<String> {
    items.iter().map(|s| String::from(*s)).collect()
}

#[test]
fn parse_commands_splits_the_argument_list() {
    let opts = WavOptions {
        inputs: strings(&["a.wav", "b.wav", "cat", "1", "k1", "output", "out.wav"]),
    };
    let (files, cmds, out) = opts.parse_commands().unwrap();
    assert_eq!(files, strings(&["a.wav", "b.wav"]));
    assert_eq!(cmds, Some(strings(&["1", "k1"])));
    assert_eq!(out, "out.wav");
}

#[test]
fn parse_commands_with_no_commands() {
    let opts = WavOptions {
        inputs: strings(&["a.wav", "cat", "output", "out.wav"]),
    };
    let (files, cmds, out) = opts.parse_commands().unwrap();
    assert_eq!(files, strings(&["a.wav"]));
    assert_eq!(cmds, None);
    assert_eq!(out, "out.wav");
}

#[test]
fn parse_commands_reports_missing_markers() {
    let missing_cat = WavOptions {
        inputs: strings(&["a.wav", "b.wav"]),
    };
    assert!(matches!(
        missing_cat.parse_commands(),
        Err(SigenError::CatCommandNotGiven)
    ));

    let missing_output = WavOptions {
        inputs: strings(&["a.wav", "cat", "1"]),
    };
    assert!(matches!(
        missing_output.parse_commands(),
        Err(SigenError::OutputCommandNotGiven)
    ));

    let missing_name = WavOptions {
        inputs: strings(&["a.wav", "cat", "1", "output"]),
    };
    assert!(matches!(
        missing_name.parse_commands(),
        Err(SigenError::OutputFilenameNotGiven)
    ));
}

#[test]
fn parse_input_files_keys_by_position_or_name() {
    let args = strings(&["a.wav", "x=b.wav", "c.wav"]);
    let exists = vec![true, false, true];
    let (map, checks) = parse_input_files(&args, &exists).unwrap();
    assert_eq!(map.len(), 3);
    assert_eq!(map.get("0").map(String::as_str), Some("a.wav"));
    assert_eq!(map.get("x").map(String::as_str), Some("b.wav"));
    assert_eq!(map.get("2").map(String::as_str), Some("c.wav"));
    assert_eq!(checks, strings(&["b.wav"]));
}

#[test]
fn parse_input_files_rejects_bad_arguments() {
    assert!(matches!(
        parse_input_files(&strings(&[]), &vec![]),
        Err(SigenError::NoInputFiles)
    ));
    assert!(matches!(
        parse_input_files(&strings(&["a.txt"]), &vec![true]),
        Err(SigenError::NotWavFile { .. })
    ));
    assert!(matches!(
        parse_input_files(&strings(&["x=b.txt"]), &vec![false]),
        Err(SigenError::NotWavFile { .. })
    ));
    match parse_input_files(&strings(&["ghost.wav"]), &vec![false]) {
        Err(SigenError::FileNotFound { filename }) => assert_eq!(filename, "ghost.wav"),
        other => panic!("unexpected result: {:?}", other),
    }
}

#[test]
fn is_specify_key_looks_at_first_characters() {
    assert!(!is_specify_key(&strings(&["1", "2.5", "30m"])));
    assert!(is_specify_key(&strings(&["1", "k1"])));
    assert!(is_specify_key(&strings(&["intro"])));
}

#[test]
fn cat_plan_without_commands_plays_all_files() {
    let (map, _) = parse_input_files(
        &strings(&["a.wav", "b.wav"]),
        &vec![true, true],
    )
    .unwrap();
    let plan = parse_cat_commands(map, None).unwrap();
    let names: Vec<&str> = plan
        .iter()
        .map(|s| match s {
            CatSegment::File { name } => name.as_str(),
            CatSegment::Zeros { .. } => panic!("unexpected silence"),
        })
        .collect();
    assert_eq!(names, vec!["a.wav", "b.wav"]);
}

#[test]
fn cat_plan_positional_durations_interleave_files() {
    let (map, _) = parse_input_files(
        &strings(&["a.wav", "b.wav", "c.wav"]),
        &vec![true, true, true],
    )
    .unwrap();
    // one second of silence after the first file; remaining files follow
    let plan = parse_cat_commands(map, Some(strings(&["1"]))).unwrap();
    assert_eq!(plan.len(), 4);
    assert!(matches!(&plan[0], CatSegment::File { name } if name == "a.wav"));
    assert!(matches!(&plan[1], CatSegment::Zeros { d: 1_000_000_000 }));
    assert!(matches!(&plan[2], CatSegment::File { name } if name == "b.wav"));
    assert!(matches!(&plan[3], CatSegment::File { name } if name == "c.wav"));
}

#[test]
fn cat_plan_keyed_commands_pick_files() {
    let (map, _) = parse_input_files(
        &strings(&["intro=a.wav", "outro=b.wav"]),
        &vec![false, false],
    )
    .unwrap();
    let plan = parse_cat_commands(
        map,
        Some(strings(&["outro", "500m", "intro"])),
    )
    .unwrap();
    assert_eq!(plan.len(), 3);
    assert!(matches!(&plan[0], CatSegment::File { name } if name == "b.wav"));
    assert!(matches!(&plan[1], CatSegment::Zeros { d: 500_000_000 }));
    assert!(matches!(&plan[2], CatSegment::File { name } if name == "a.wav"));
}

#[test]
fn cat_plan_reports_bad_commands() {
    let (map, _) = parse_input_files(&strings(&["a.wav"]), &vec![true]).unwrap();
    match parse_cat_commands(map, Some(strings(&["missing"]))) {
        Err(SigenError::KeyNotFound { key }) => assert_eq!(key, "missing"),
        other => panic!("unexpected result: {:?}", other),
    }

    let (map, _) = parse_input_files(&strings(&["a.wav"]), &vec![true]).unwrap();
    assert!(matches!(
        parse_cat_commands(map, Some(strings(&["5x"]))),
        Err(SigenError::DurationParse { .. })
    ));

    let (map, _) = parse_input_files(&strings(&["a.wav"]), &vec![true]).unwrap();
    assert!(matches!(
        parse_cat_commands(map, Some(strings(&[""]))),
        Err(SigenError::EmptyCatCommand)
    ));
}

#[test]
fn zeros_points_truncate() {
    // 1.5 s at 3 Hz is 4.5 samples: truncates to 4
    assert_eq!(cat_zeros_points(1_500_000_000, 3), Some(4));
    assert_eq!(cat_zeros_points(1_000_000_000, 44100), Some(44100));
    assert_eq!(cat_zeros_points(0, 44100), Some(0));
}

#[test]
fn repeated_keys_replace_in_place() {
    // a key given twice keeps its position and takes the later file
    let args = strings(&["a=x.wav", "b=y.wav", "a=z.wav"]);
    let exists = vec![false, false, false];
    let (map, checks) = parse_input_files(&args, &exists).unwrap();
    assert_eq!(map.len(), 2);
    assert_eq!(map.get_index(0).map(|(k, v)| (k.as_str(), v.as_str())), Some(("a", "z.wav")));
    assert_eq!(map.get_index(1).map(|(k, v)| (k.as_str(), v.as_str())), Some(("b", "y.wav")));
    assert_eq!(checks, strings(&["x.wav", "y.wav", "z.wav"]));

    let plan = parse_cat_commands(map, Some(strings(&["a"]))).unwrap();
    assert_eq!(plan.len(), 1);
    assert!(matches!(&plan[0], CatSegment::File { name } if name == "z.wav"));
}
