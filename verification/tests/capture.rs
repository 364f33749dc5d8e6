use xeedee_cli::capture::{
    session_start, session_step, wait_restarts, CapturePlan, SessionAction, SessionEvent,
    SessionPhase, SessionStep,
};
use xeedee_cli::error::ErrorKind;

fn plan(duration: Option<u64>) -> CapturePlan {
    CapturePlan { remote: "E:\\cap.xbm".to_owned(), size_limit_mb: 12285, duration }
}

fn step(p: &CapturePlan, phase: SessionPhase, event: SessionEvent) -> SessionStep {
    session_step(p, phase, event, false)
}

#[test]
fn runs_through_a_session() {
    let p = plan(Some(7));
    let start = session_start();
    assert!(matches!(start.action, SessionAction::Subscribe));
    assert!(start.messages.is_empty());
    let s = step(&p, start.phase, SessionEvent::Done);
    assert!(matches!(s.action, SessionAction::Open));
    let s = step(&p, s.phase, SessionEvent::Opened { handler_detected: true });
    assert_eq!(s.messages, ["connected PIX handler responded to {Connect}"]);
    assert!(matches!(s.action, SessionAction::LimitSize { megabytes: 12285 }));
    let s = step(&p, s.phase, SessionEvent::Done);
    assert!(matches!(&s.action, SessionAction::CreateFile { remote } if remote == "E:\\cap.xbm"));
    let s = step(&p, s.phase, SessionEvent::Done);
    assert_eq!(
        s.messages,
        ["prepared requested capture file -> E:\\cap.xbm, waiting for \
          {CaptureFileCreationEnded} on notify channel"]
    );
    assert!(matches!(s.action, SessionAction::AwaitNotice { secs: 30 }));
    let s = step(&p, s.phase, SessionEvent::OtherNotice);
    assert!(s.messages.is_empty());
    assert!(matches!(s.action, SessionAction::AwaitNotice { secs: 30 }));
    let s = step(&p, s.phase, SessionEvent::CaptureEnded);
    assert_eq!(s.phase, SessionPhase::AwaitFile);
    let s = step(&p, s.phase, SessionEvent::FileReady { hresult: 0 });
    assert_eq!(s.messages, ["ready capture file ready"]);
    assert!(matches!(s.action, SessionAction::Begin));
    let s = step(&p, s.phase, SessionEvent::Done);
    assert_eq!(s.messages, ["recording capturing; stopping in 7s"]);
    assert!(matches!(s.action, SessionAction::Sleep { secs: 7 }));
    let s = step(&p, s.phase, SessionEvent::Done);
    assert!(matches!(s.action, SessionAction::End));
    let s = step(&p, s.phase, SessionEvent::Done);
    assert!(matches!(s.action, SessionAction::EndFile));
    let s = step(&p, s.phase, SessionEvent::Done);
    assert_eq!(s.messages, ["stopping capture closed, waiting for {CaptureEnded}"]);
    let s = step(&p, s.phase, SessionEvent::FileReady { hresult: 5 });
    assert_eq!(s.phase, SessionPhase::AwaitEnd);
    let s = step(&p, s.phase, SessionEvent::CaptureEnded);
    assert!(matches!(s.action, SessionAction::Leave));
    let s = step(&p, s.phase, SessionEvent::Done);
    assert_eq!(s.messages, ["done capture finalised, downloading segments"]);
    assert!(matches!(s.action, SessionAction::Download));
    assert_eq!(s.phase, SessionPhase::Over);
}

#[test]
fn warns_without_handler() {
    let s = step(
        &plan(None),
        SessionPhase::Open,
        SessionEvent::Opened { handler_detected: false },
    );
    assert_eq!(
        s.messages,
        ["warning: no title has registered as the PIX handler (got plain `OK`). \
          Continuing anyway, but subsequent commands will likely no-op."]
    );
    assert_eq!(s.phase, SessionPhase::Limit);
}

#[test]
fn waits_for_enter_without_duration() {
    let s = step(&plan(None), SessionPhase::Begin, SessionEvent::Done);
    assert_eq!(s.messages, ["recording capturing; press Enter to stop"]);
    assert!(matches!(s.action, SessionAction::AwaitEnter));
}

fn failure_note(event: SessionEvent) -> String {
    let s = step(&plan(None), SessionPhase::AwaitFile, event);
    assert_eq!(s.phase, SessionPhase::Failed);
    assert!(s.messages.is_empty());
    match s.action {
        SessionAction::Fail(f) => {
            assert_eq!(f.kind, ErrorKind::EmptyFilename);
            f.note.unwrap()
        }
        _ => panic!("expected a failure"),
    }
}

#[test]
fn fails_without_capture_file() {
    assert_eq!(
        failure_note(SessionEvent::FileReady { hresult: 0x8007_0005 }),
        "capture file creation failed on console, hresult 0x80070005"
    );
    assert_eq!(
        failure_note(SessionEvent::Closed),
        "notify channel closed before CaptureFileCreationEnded"
    );
    assert_eq!(
        failure_note(SessionEvent::TimedOut),
        "no CaptureFileCreationEnded within 30s; is a title actually rendering D3D frames?"
    );
}

#[test]
fn missing_end_does_not_fail() {
    for event in [SessionEvent::Closed, SessionEvent::TimedOut] {
        let s = step(&plan(None), SessionPhase::AwaitEnd, event);
        assert_eq!(s.phase, SessionPhase::Leave);
        assert!(s.messages.is_empty());
    }
}

#[test]
fn waits_restart_with_each_phase() {
    assert!(!wait_restarts(SessionPhase::AwaitFile, SessionPhase::AwaitFile));
    assert!(wait_restarts(SessionPhase::CreateFile, SessionPhase::AwaitFile));
    assert!(wait_restarts(SessionPhase::EndFile, SessionPhase::AwaitEnd));
}
