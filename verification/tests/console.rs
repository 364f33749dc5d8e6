use xeedee_cli::discover::{
    destination_texts, pick_destination, resolve_output, search_output, SearchOutput,
};
use xeedee_cli::drivemap::{
    dumped_text, enabled_text, flash_visible, nand_output, nand_remote, nand_step, persisted_text,
    status_lines, DrivemapStatus, EnableReport, NandStep,
};
use xeedee_cli::error::ErrorKind;
use xeedee_cli::records::FoundConsole;
use xeedee_cli::report::Output;
use xeedee_cli::screenshot::{
    captured_text, picture_pixels, sidecar_path, sidecar_text, wrote_png_text, wrote_raw_text,
    ScreenshotMeta,
};
use xeedee_cli::transfer::{downloaded_file_text, uploaded_text, wrote_range_text};
use xeedee_cli::ui::{OutputFormat, UiCtx};

fn s(text: &str) -> String {
    text.to_owned()
}

fn plain() -> UiCtx {
    UiCtx { format: OutputFormat::Plain, no_progress: true, raw_bytes: true }
}

#[test]
fn finds_flash() {
    assert!(flash_visible(&vec![s("E"), s("Flash")]));
    assert!(!flash_visible(&vec![s("E"), s("FLASH:")]));
    assert!(!flash_visible(&vec![]));
}

#[test]
fn steps_through_a_nand_dump() {
    let with = vec![s("FLASH")];
    let without = vec![s("E")];
    assert!(matches!(nand_step(&with, false, false), NandStep::Download));
    assert!(matches!(nand_step(&with, true, false), NandStep::Download));
    assert!(matches!(
        nand_step(&without, false, false),
        NandStep::Enable { message }
            if message == "note: FLASH: not mounted; running drivemap-enable first"
    ));
    match nand_step(&without, true, false) {
        NandStep::Fail(f) => {
            assert_eq!(f.kind, ErrorKind::EmptyFilename);
            assert_eq!(
                f.note.as_deref(),
                Some("drivemap-enable completed but FLASH: is still not mounted")
            );
        }
        _ => panic!("expected a failure"),
    }
    assert_eq!(nand_output(None), "nand.bin");
    assert_eq!(nand_output(Some(s("x"))), "x");
    assert_eq!(nand_remote(), "FLASH:\\");
    assert_eq!(
        dumped_text(1, 2, "nand.bin", false),
        "done NAND dump: 1 bytes (2 declared) to nand.bin"
    );
}

#[test]
fn reports_the_drive_mapping() {
    let report = |already_enabled, before: usize, after: usize| EnableReport {
        already_enabled,
        drives_before: vec![s("E"); before],
        drives_after: vec![s("E"); after],
    };
    assert_eq!(
        enabled_text(&report(true, 1, 1), false),
        "no-op drivemap flag already set; skipped hijack. 1 drive visible."
    );
    assert_eq!(
        enabled_text(&report(true, 1, 2), false),
        "no-op drivemap flag already set; skipped hijack. 2 drives visible."
    );
    assert_eq!(
        enabled_text(&report(false, 1, 4), false),
        "done drivemap internal enabled. drives went from 1 -> 4 entries."
    );
    let drives = vec![s("E"), s("a\"b")];
    let status = DrivemapStatus {
        module_base: 1,
        drivemap_fn: 2,
        flag_global: 3,
        flag_value: 4,
        altaddr_entry: 5,
        visible_drives: drives.clone(),
    };
    assert_eq!(
        status_lines(&status),
        [
            s("xbdm @ 0x00000001, drivemap_fn @ 0x00000002, flag @ 0x00000003 = 0x00000004, \
               altaddr entry @ 0x00000005"),
            format!("visible drives: {drives:?}"),
        ]
    );
    assert_eq!(
        persisted_text(32, "FLASH:\\recint.ini", false),
        "persisted wrote 32 bytes to FLASH:\\recint.ini"
    );
}

#[test]
fn no_visible_drives() {
    let status = DrivemapStatus {
        module_base: 0,
        drivemap_fn: 0,
        flag_global: 0,
        flag_value: 0,
        altaddr_entry: 0,
        visible_drives: vec![],
    };
    assert_eq!(status_lines(&status)[1], "visible drives: []");
}

#[test]
fn picks_a_broadcast_destination() {
    assert_eq!(destination_texts("10.0.0.255", 730), (s("10.0.0.255"), s("10.0.0.255:730")));
    assert!(!pick_destination("a", true, true).unwrap());
    assert!(pick_destination("a", false, true).unwrap());
    let f = pick_destination("a b", false, false).unwrap_err();
    assert_eq!(f.kind, ErrorKind::QuotedContainsCrlf);
    assert_eq!(f.note.as_deref(), Some("invalid --broadcast value \"a b\""));
}

#[test]
fn shows_what_a_search_found() {
    assert!(matches!(
        search_output(&vec![], &plain(), false),
        SearchOutput::Warning(m) if m == "warning: no consoles responded"
    ));
    let found = vec![FoundConsole { name: s("dev"), addr: s("1.2.3.4:730") }];
    assert!(matches!(
        search_output(&found, &plain(), false),
        SearchOutput::Found(Output::Lines(l)) if l == ["dev\t1.2.3.4:730"]
    ));
}

#[test]
fn resolves_a_name() {
    let found = FoundConsole { name: s("dev"), addr: s("1.2.3.4:730") };
    assert!(matches!(
        resolve_output("dev", Some(found)),
        Ok(Output::Lines(l)) if l == ["dev\t1.2.3.4:730"]
    ));
    let f = resolve_output("d\"", None).unwrap_err();
    assert_eq!(f.kind, ErrorKind::ConnectTimeout);
    assert_eq!(f.note.unwrap(), format!("no reply from console named {:?}", "d\""));
}

fn meta() -> ScreenshotMeta {
    ScreenshotMeta {
        width: 2,
        height: 3,
        pitch: 16,
        framebuffer_size: 48,
        format: s("Argb8888"),
        format_raw: 0x1828_0186,
    }
}

#[test]
fn describes_screenshots() {
    assert_eq!(
        captured_text(&meta(), false),
        "captured 2x3 pitch=16 bytes=48 format=Argb8888"
    );
    assert_eq!(sidecar_path("shot.raw"), "shot.raw.meta");
    assert_eq!(
        sidecar_text(&meta()),
        "pitch=16\nwidth=2\nheight=3\nformat=Argb8888\nframebuffer_size=48\n\
         pitch_hex=0x00000010\nformat_raw=0x18280186\n"
    );
    assert_eq!(
        wrote_raw_text("shot.raw", false),
        "wrote raw framebuffer + metadata to shot.raw (+ shot.raw.meta)"
    );
    assert_eq!(wrote_png_text("shot.png", false), "wrote PNG to shot.png");
}

#[test]
fn checks_picture_pixels() {
    let data: Vec<u8> = (0..24).collect();
    assert_eq!(picture_pixels(&meta(), Some(data.clone())).unwrap(), data);
    let longer: Vec<u8> = (0..30).collect();
    assert_eq!(picture_pixels(&meta(), Some(longer.clone())).unwrap(), longer);
    let f = picture_pixels(&meta(), Some(vec![0; 23])).unwrap_err();
    assert_eq!(f.kind, ErrorKind::EmptyFilename);
    assert_eq!(
        f.note.as_deref(),
        Some("RgbaImage::from_raw rejected the buffer dimensions")
    );
    let f = picture_pixels(&meta(), None).unwrap_err();
    assert_eq!(
        f.note.as_deref(),
        Some("cannot convert format Argb8888 to PNG without de-tiling; re-run with --raw")
    );
    let huge = ScreenshotMeta { width: u32::MAX, height: u32::MAX, ..meta() };
    assert!(picture_pixels(&huge, Some(vec![])).is_err());
    let empty = ScreenshotMeta { width: 0, height: 9, ..meta() };
    assert!(picture_pixels(&empty, Some(vec![])).is_ok());
}

#[test]
fn describes_transfers() {
    assert_eq!(
        downloaded_file_text(3, 4, "out", false),
        "downloaded 3 bytes (4 declared) to out"
    );
    assert_eq!(uploaded_text(3, "E:\\f", false), "uploaded 3 bytes to E:\\f");
    assert_eq!(
        wrote_range_text(3, 16, "E:\\f", false),
        "wrote 3 bytes at offset 16 in E:\\f"
    );
}
