use xeedee_cli::error::ErrorKind;
use xeedee_cli::movie::{
    concat_file, crop_size, encode_outcome, encoding_text, extracted_lines, ffmpeg_args,
    frame_file, frame_lines, frame_rate_parts, header_lines, metadata_file, metadata_text,
    rate_source, require_ffmpeg, require_frames, FrameInfo, MovieHeader, MovieSummary, RateSource,
};

fn header() -> MovieHeader {
    MovieHeader {
        variant: "Xbm2".to_owned(),
        magic: 0x5842_4d32,
        version: 3,
        header_size: 0x200,
        frame_width: 640,
        frame_height: 360,
        aligned_width: 640,
        aligned_height: 384,
        source_width: 632,
        source_height: 352,
        display_width: 1280,
        display_height: 720,
        timestamp_rate: 60,
        pixel_bytes: 368640,
    }
}

fn frame(timestamp: u32, audio_bytes: u64, record_size: u64, magic: u32) -> FrameInfo {
    FrameInfo { magic, timestamp, audio_bytes, record_size }
}

#[test]
fn describes_a_header() {
    assert_eq!(
        header_lines(&header()),
        [
            "magic        Xbm2 (0x58424d32)  version 0x00000003  header_size 0x200",
            "frame        640x360  aligned 640x384  (this drives pixel stride)",
            "source       632x352  display 1280x720",
            "tick rate    60 ticks/s  yuv bytes/frame 368640",
        ]
    );
}

#[test]
fn summarizes_frames() {
    let mut s = MovieSummary::new();
    assert_eq!(s.ticks(), None);
    assert_eq!(s.intervals(), 0);
    assert_eq!(frame_lines(&s, "", ""), ["frames       0", "audio bytes  0"]);
    s.add_frame(frame(100, 5, 1000, 7));
    s.add_frame(frame(130, 6, 2000, 8));
    s.add_frame(frame(160, 7, 3000, 9));
    assert_eq!(s.ticks(), Some(60));
    assert_eq!(s.intervals(), 2);
    assert_eq!(
        frame_lines(&s, "1.000", "2.00"),
        [
            "frames       3",
            "frame magic  0x00000007",
            "timestamps   100 -> 160 (span 60, 1.000s, 2.00 fps)",
            "audio bytes  18",
            "first record 1000 bytes",
        ]
    );
}

#[test]
fn timestamps_wrap_around() {
    let mut s = MovieSummary::new();
    s.add_frame(frame(u32::MAX, 0, 0, 0));
    s.add_frame(frame(4, 0, 0, 0));
    assert_eq!(s.ticks(), Some(5));
    assert_eq!(frame_rate_parts(&vec![u32::MAX, 0, 4]), Some((2, 5)));
}

#[test]
fn rates_need_two_frames_and_time() {
    assert_eq!(frame_rate_parts(&vec![]), None);
    assert_eq!(frame_rate_parts(&vec![9]), None);
    assert_eq!(frame_rate_parts(&vec![9, 10, 9]), None);
    assert_eq!(frame_rate_parts(&vec![9, 10, 12]), Some((2, 3)));
}

#[test]
fn picks_a_rate_source() {
    let stamps = vec![0u32, 2, 4];
    assert_eq!(rate_source(true, &stamps, 60), RateSource::Asked);
    assert_eq!(
        rate_source(false, &stamps, 60),
        RateSource::Derived { intervals: 2, ticks: 4 }
    );
    assert_eq!(rate_source(false, &stamps, 0), RateSource::Fallback);
    assert_eq!(rate_source(false, &vec![1], 60), RateSource::Fallback);
}

#[test]
fn names_extracted_files() {
    assert_eq!(frame_file("out", 7, false), "out/frame-00007.nv12");
    assert_eq!(frame_file("out", 123456, true), "out/frame-123456.tiled");
    assert_ne!(frame_file("out", 1, false), frame_file("out", 10, false));
    assert_eq!(concat_file("out", true, false).as_deref(), Some("out/frames.nv12"));
    assert_eq!(concat_file("out", true, true).as_deref(), Some("out/frames.tiled"));
    assert_eq!(concat_file("out", false, true), None);
    assert_eq!(metadata_file("out"), "out/metadata.txt");
}

#[test]
fn writes_metadata() {
    assert_eq!(
        metadata_text("in.xbm", &header(), false, 3, "29.970", 30),
        "# xbmovie .xbm frame dump\n\
         source: in.xbm\n\
         magic: Xbm2\n\
         frame_width: 640\n\
         frame_height: 360\n\
         aligned_width: 640\n\
         aligned_height: 384\n\
         visible_crop: 632x352\n\
         pixel_format: nv12 (Y plane, then interleaved UV plane; detiled from on-device layout)\n\
         frame_count: 3\n\
         approx_fps: 29.970\n\
         \n\
         # Reconstruct (crops off the 32-alignment padding):\n\
         # ffmpeg -f rawvideo -pix_fmt nv12 -s 640x384 -r 30 \\\n\
         #   -i frames.nv12 -vf crop=640:360:0:0 \\\n\
         #   -c:v libx264 -pix_fmt yuv420p out.mp4\n"
    );
    let raw = metadata_text("in.xbm", &header(), true, 3, "0.000", 0);
    assert!(raw.contains(
        "pixel_format: tiled Xbox 360 16-wide-column NV12 (raw on-device layout)\n"
    ));
    assert!(raw.contains(
        "-pix_fmt nv12  # WILL NOT RENDER -- re-run without --raw -s 640x384 -r 0 \\\n"
    ));
    assert!(raw.contains("-i frames.tiled "));
}

#[test]
fn sums_an_extraction_up() {
    assert_eq!(
        extracted_lines(1, 1536, "out", None, "out/metadata.txt", false),
        [
            "done extracted 1 frame (1.50 KiB pixel bytes each) -> out",
            "done metadata -> out/metadata.txt",
        ]
    );
    assert_eq!(
        extracted_lines(2, 10, "out", Some("out/frames.nv12"), "m", false),
        [
            "done extracted 2 frames (10 B pixel bytes each) -> out",
            "done concatenated stream -> out/frames.nv12",
            "done metadata -> m",
        ]
    );
}

#[test]
fn picks_crops() {
    assert_eq!(crop_size("frame", &header()).unwrap(), (640, 360));
    assert_eq!(crop_size("source", &header()).unwrap(), (632, 352));
    assert_eq!(crop_size("none", &header()).unwrap(), (640, 384));
    let f = crop_size("Frame\t", &header()).unwrap_err();
    assert_eq!(f.kind, ErrorKind::EmptyFilename);
    assert_eq!(
        f.note.unwrap(),
        format!("--crop must be one of `frame`, `source`, `none`; got {:?}", "Frame\t")
    );
}

#[test]
fn needs_frames_and_ffmpeg() {
    assert!(require_frames(1).is_ok());
    let f = require_frames(0).unwrap_err();
    assert_eq!(f.kind, ErrorKind::EmptyFilename);
    assert_eq!(f.note.as_deref(), Some("xbm contains no frame records"));
    assert!(require_ffmpeg(true).is_ok());
    let f = require_ffmpeg(false).unwrap_err();
    assert_eq!(f.kind, ErrorKind::EmptyFilename);
    assert_eq!(
        f.note.as_deref(),
        Some(
            "ffmpeg not found on $PATH. Install it (`nix-shell -p ffmpeg`, \
             `brew install ffmpeg`, etc.) and retry. The `xbm encode` \
             subcommand streams decoded NV12 frames to ffmpeg's stdin."
        )
    );
}

#[test]
fn builds_encoder_arguments() {
    let extra = vec!["-ss".to_owned(), "1 2".to_owned()];
    assert_eq!(
        ffmpeg_args(&header(), "30.000", (632, 352), 20, &extra, "out.mp4"),
        [
            "-hide_banner", "-loglevel", "error", "-stats", "-f", "rawvideo", "-pix_fmt", "nv12",
            "-s", "640x384", "-framerate", "30.000", "-i", "-", "-vf", "crop=632:352:0:0", "-c:v",
            "libx264", "-crf", "20", "-pix_fmt", "yuv420p", "-ss", "1 2", "-y", "out.mp4",
        ]
    );
}

#[test]
fn encoding_messages() {
    assert_eq!(
        encoding_text(&header(), 3, (632, 352), "29.97", "out.mp4", false),
        "encoding encoding 3 frames at 640x384 -> 632x352 @ 29.97 fps -> out.mp4"
    );
    assert_eq!(
        encode_outcome(true, "exit status: 0", "out.mp4", false).unwrap(),
        "done wrote out.mp4"
    );
    let f = encode_outcome(false, "exit status: 1", "out.mp4", false).unwrap_err();
    assert_eq!(f.kind, ErrorKind::EmptyFilename);
    assert_eq!(f.note.as_deref(), Some("ffmpeg exited with exit status: 1"));
}
