use xeedee_cli::notify::{
    event_line, listen_step, subscribed_text, tagged_line, time_left, Heard, ListenStep,
    NoticeKind, Wait,
};

#[test]
fn says_how_listening_stops() {
    assert_eq!(subscribed_text("Ack", 0, false), "subscribed Ack; Ctrl-C to stop");
    assert_eq!(subscribed_text("Ack", 9, false), "subscribed Ack; stopping in 9s");
}

#[test]
fn time_runs_out() {
    assert_eq!(time_left(0, u128::MAX), Wait::Forever);
    assert_eq!(time_left(2, 0), Wait::UpTo { nanos: 2_000_000_000 });
    assert_eq!(time_left(2, 1_999_999_999), Wait::UpTo { nanos: 1 });
    assert_eq!(time_left(2, 2_000_000_000), Wait::Over);
    assert_eq!(time_left(u64::MAX, u128::MAX), Wait::Over);
}

#[test]
fn shows_lines_and_stops() {
    assert!(matches!(
        listen_step(Heard::Line("PIX!x\r\n".to_owned()), false),
        ListenStep::Show(s) if s == "PIX!x"
    ));
    assert!(matches!(listen_step(Heard::Line("\r\n".to_owned()), false), ListenStep::Ignore));
    assert!(matches!(
        listen_step(Heard::Closed, false),
        ListenStep::Stop { message: Some(m) } if m == "eof: notification channel closed"
    ));
    assert!(matches!(
        listen_step(Heard::TimedOut, false),
        ListenStep::Stop { message: None }
    ));
}

#[test]
fn stamps_and_tags_lines() {
    assert_eq!(event_line(12, "hello"), "    12ms hello");
    assert_eq!(event_line(12345678, "x"), "12345678ms x");
    for (kind, tag) in [
        (Some(NoticeKind::CaptureFileCreationEnded), "cap-seg"),
        (Some(NoticeKind::CaptureEnded), "cap-end"),
        (Some(NoticeKind::MovieData), "movie"),
        (Some(NoticeKind::Resource), "rsrc"),
        (Some(NoticeKind::VideoError), "verr"),
        (Some(NoticeKind::VideoOp), "vop"),
        (Some(NoticeKind::Status), "stat"),
        (Some(NoticeKind::Other), "pix?"),
        (None, "line"),
    ] {
        assert_eq!(tagged_line(7, kind, "z"), format!("{:>6}ms [{tag}] z", 7));
    }
}
