use xeedee_cli::harvest::{
    after_encode, after_remove, converting_text, empty_warning, looking_text, plan_conversions,
    unconverted_text, unlisted_text, AfterEncode, Conversion, ConversionPlan, Harvest,
    OpenedSegment,
};
use xeedee_cli::listing::DirEntry;
use xeedee_cli::paths::CaptureRemotePath;
use xeedee_cli::segments::{select_segments, Segment};
use xeedee_cli::ui::{OutputFormat, UiCtx};

fn entry(name: &str, is_directory: bool) -> DirEntry {
    DirEntry { name: name.to_owned(), size: 4, is_directory, create_time: 0, change_time: 0 }
}

fn place() -> CaptureRemotePath {
    CaptureRemotePath {
        parent: "E:\\".to_owned(),
        stem: "cap".to_owned(),
        ext: ".xbm".to_owned(),
    }
}

fn ui() -> UiCtx {
    UiCtx { format: OutputFormat::Plain, no_progress: true, raw_bytes: true }
}

#[test]
fn selects_segments_by_number() {
    let entries = vec![
        entry("cap10.xbm", false),
        entry("cap2.xbm", false),
        entry("cap.xbm", false),
        entry("cap02.xbm", false),
        entry("cap1.xbm", true),
        entry("capX.xbm", false),
        entry("cap3.bin", false),
        entry("other0.xbm", false),
        entry("cap+1.xbm", false),
        entry("cap4294967295.xbm", false),
        entry("cap4294967296.xbm", false),
        entry("cap-1.xbm", false),
    ];
    let found: Vec<(u32, String)> = select_segments(&entries, "cap", ".xbm")
        .into_iter()
        .map(|s| (s.index, s.name))
        .collect();
    assert_eq!(
        found,
        [
            (1, "cap+1.xbm".to_owned()),
            (2, "cap2.xbm".to_owned()),
            (2, "cap02.xbm".to_owned()),
            (10, "cap10.xbm".to_owned()),
            (u32::MAX, "cap4294967295.xbm".to_owned()),
        ]
    );
}

#[test]
fn passes_overlapping_names_over() {
    let entries = vec![entry("aXa", false), entry("aX7Xa", false), entry("aXXa", false)];
    let found: Vec<(u32, String)> = select_segments(&entries, "aX", "Xa")
        .into_iter()
        .map(|s| (s.index, s.name))
        .collect();
    assert_eq!(found, [(7, "aX7Xa".to_owned())]);
}

#[test]
fn announces_the_search() {
    assert_eq!(
        looking_text(&place(), false),
        format!("looking scanning E:\\ for segments (stem={:?}, ext={:?})", "cap", ".xbm")
    );
    assert_eq!(
        unlisted_text("E:\\", "Refused", false),
        "warn: dirlist failed on E:\\: Refused"
    );
    assert_eq!(empty_warning(&place(), 1, false), None);
    assert_eq!(
        empty_warning(&place(), 0, false).unwrap(),
        "warn: no files matching cap<N>.xbm in E:\\. Either the handler produced no output this \
         run, or the previous segments have already been deleted."
    );
}

#[test]
fn downloads_add_up_and_convert() {
    let segments = vec![
        Segment { index: 0, name: "cap0.xbm".to_owned() },
        Segment { index: 1, name: "cap1.xbm".to_owned() },
        Segment { index: 2, name: "cap2.bin".to_owned() },
    ];
    let mut h = Harvest::new("E:\\", "out", segments);
    assert_eq!(h.next().as_deref(), Some("E:\\cap0.xbm"));
    match h.opened(40, false) {
        OpenedSegment::Save { label, local } => {
            assert_eq!(label, "segment 0");
            assert_eq!(local, "out/cap0.xbm");
        }
        _ => panic!("not empty"),
    }
    let saved = h.saved(40, false);
    assert_eq!(saved.message, "saved segment 0: 40 bytes -> out/cap0.xbm");
    assert_eq!(saved.delete, "E:\\cap0.xbm");
    assert_eq!(h.next().as_deref(), Some("E:\\cap1.xbm"));
    match h.opened(0, false) {
        OpenedSegment::Skip { message, delete } => {
            assert_eq!(message, "skip: segment 1: empty, skipping");
            assert_eq!(delete, "E:\\cap1.xbm");
        }
        _ => panic!("empty"),
    }
    assert_eq!(h.next().as_deref(), Some("E:\\cap2.bin"));
    assert!(matches!(h.opened(2, false), OpenedSegment::Save { .. }));
    assert_eq!(h.saved(2, false).delete, "E:\\cap2.bin");
    assert_eq!(h.next(), None);
    assert_eq!(h.bytes(), 42);
    assert_eq!(h.summary(&ui(), false), "finished downloaded 2/3 segments (42)");
    assert!(h.to_convert(true).is_empty());
    let jobs: Vec<(String, String)> =
        h.to_convert(false).into_iter().map(|c| (c.from, c.to)).collect();
    assert_eq!(
        jobs,
        [
            ("out/cap0.xbm".to_owned(), "out/cap0.mp4".to_owned()),
            ("out/cap2.bin".to_owned(), "out/cap2.bin.mp4".to_owned()),
        ]
    );
}

#[test]
fn nothing_downloaded_nothing_converted() {
    let h = Harvest::new("E:\\", "out", vec![]);
    assert_eq!(h.next(), None);
    assert_eq!(h.summary(&ui(), false), "finished downloaded 0/0 segments (0)");
    assert!(h.to_convert(false).is_empty());
}

fn two_jobs() -> Vec<Conversion> {
    ["b", "a"]
        .iter()
        .map(|name| Conversion { from: format!("{name}.xbm"), to: format!("{name}.mp4") })
        .collect()
}

#[test]
fn conversions_use_the_usual_settings() {
    match plan_conversions(two_jobs(), None, false) {
        ConversionPlan::Encode { jobs, settings } => {
            let order: Vec<(&str, &str)> =
                jobs.iter().map(|j| (j.from.as_str(), j.to.as_str())).collect();
            assert_eq!(order, [("b.xbm", "b.mp4"), ("a.xbm", "a.mp4")]);
            assert_eq!(settings.crop_mode, "frame");
            assert_eq!(settings.asked_rate, None);
            assert_eq!(settings.crf, 20);
            assert!(settings.extra_args.is_empty());
        }
        plan => panic!("{plan:?}"),
    }
}

#[test]
fn no_encoder_no_conversion() {
    assert!(matches!(
        plan_conversions(two_jobs(), Some("no ffmpeg"), false),
        ConversionPlan::Skip { message } if message == unconverted_text("no ffmpeg", false)
    ));
    assert!(matches!(plan_conversions(vec![], Some("no ffmpeg"), false), ConversionPlan::Nothing));
    assert!(matches!(plan_conversions(vec![], None, false), ConversionPlan::Nothing));
}

#[test]
fn conversion_messages() {
    let job = Conversion { from: "a.xbm".to_owned(), to: "a.mp4".to_owned() };
    assert_eq!(converting_text(&job, false), "converting encoding a.xbm -> a.mp4");
    assert_eq!(
        unconverted_text("no ffmpeg", false),
        "warn: skipping conversion: no ffmpeg. Pass --no-conversion to silence."
    );
    assert!(matches!(
        after_encode(&job, None, false),
        AfterEncode::Remove { path } if path == "a.xbm"
    ));
    assert!(matches!(
        after_encode(&job, Some("E"), false),
        AfterEncode::Retain { message }
            if message == "warn: conversion of a.xbm failed: E; raw file retained"
    ));
    assert_eq!(after_remove(&job, None, false), "cleaned removed a.xbm");
    assert_eq!(
        after_remove(&job, Some("busy"), false),
        "warn: could not delete a.xbm after encode: busy"
    );
}
