//! The course of a movie capture session, from subscribing to leaving.
//!
//! [`session_step`] decides; the caller performs the action of each step and
//! hands back the event.

use vstd::prelude::*;

use crate::error::{ErrorKind, Failure};
use crate::style::{ok_label, ok_tag, warn_label, warn_tag};
use crate::text::{address, address_text, decimal, decimal_text, texts};

verus! {

/// What a capture session is asked to do.
#[derive(Debug)]
pub struct CapturePlan {
    /// Device-side file name, sent verbatim.
    pub remote: String,
    /// Per-segment size cap in megabytes.
    pub size_limit_mb: u32,
    /// Capture duration in seconds. Without one, capture runs until Enter is
    /// pressed.
    pub duration: Option<u64>,
}

/// How long a session waits for a notification, in seconds.
pub const NOTICE_TIMEOUT_SECS: u64 = 30;

/// Where a session stands: the thing that is being done.
#[derive(Copy, Clone, Debug, PartialEq, Eq, Structural)]
pub enum SessionPhase {
    /// Subscribing to notifications, so that no event is missed.
    Subscribe,
    /// Connecting to the capture handler.
    Open,
    /// Setting the size cap.
    Limit,
    /// Requesting the capture file.
    CreateFile,
    /// Waiting until the console has created the file.
    AwaitFile,
    /// Starting the capture.
    Begin,
    /// Recording.
    Record,
    /// Stopping the capture.
    End,
    /// Closing the capture file.
    EndFile,
    /// Waiting until all segments have been flushed.
    AwaitEnd,
    /// Disconnecting and opening a fresh connection for the files.
    Leave,
    /// The segments can be downloaded.
    Over,
    /// The session has failed.
    Failed,
}

/// What happened while a session did its thing.
#[derive(Copy, Clone, Debug, PartialEq, Eq, Structural)]
pub enum SessionEvent {
    /// It was done.
    Done,
    /// The session was opened; tells whether a capture handler answered.
    Opened { handler_detected: bool },
    /// The console reported the outcome of creating the capture file.
    FileReady { hresult: u32 },
    /// The console reported that the capture has ended.
    CaptureEnded,
    /// The console reported something else.
    OtherNotice,
    /// The notification channel was closed.
    Closed,
    /// No awaited notification came in time.
    TimedOut,
}

/// What the caller does next.
#[derive(Debug)]
pub enum SessionAction {
    Subscribe,
    Open,
    LimitSize { megabytes: u32 },
    CreateFile { remote: String },
    /// Wait for a notification, this many seconds in all.
    AwaitNotice { secs: u64 },
    Begin,
    Sleep { secs: u64 },
    AwaitEnter,
    End,
    EndFile,
    Leave,
    Download,
    Fail(Failure),
}

/// One step of a session: where it stands, what is said, what is done.
#[derive(Debug)]
pub struct SessionStep {
    pub phase: SessionPhase,
    pub messages: Vec<String>,
    pub action: SessionAction,
}

/// Whether `event` can happen in `phase`.
pub open spec fn expected(phase: SessionPhase, event: SessionEvent) -> bool {
    match phase {
        SessionPhase::Open => event is Opened,
        SessionPhase::AwaitFile | SessionPhase::AwaitEnd => event is FileReady
            || event is CaptureEnded || event is OtherNotice || event is Closed
            || event is TimedOut,
        SessionPhase::Over | SessionPhase::Failed => false,
        _ => event is Done,
    }
}

/// The phase that follows.
pub open spec fn next_phase(phase: SessionPhase, event: SessionEvent) -> SessionPhase {
    match phase {
        SessionPhase::Subscribe => SessionPhase::Open,
        SessionPhase::Open => SessionPhase::Limit,
        SessionPhase::Limit => SessionPhase::CreateFile,
        SessionPhase::CreateFile => SessionPhase::AwaitFile,
        SessionPhase::AwaitFile => match event {
            SessionEvent::FileReady { hresult } => if hresult == 0 {
                SessionPhase::Begin
            } else {
                SessionPhase::Failed
            },
            SessionEvent::Closed | SessionEvent::TimedOut => SessionPhase::Failed,
            _ => SessionPhase::AwaitFile,
        },
        SessionPhase::Begin => SessionPhase::Record,
        SessionPhase::Record => SessionPhase::End,
        SessionPhase::End => SessionPhase::EndFile,
        SessionPhase::EndFile => SessionPhase::AwaitEnd,
        SessionPhase::AwaitEnd => match event {
            SessionEvent::CaptureEnded
            | SessionEvent::Closed
            | SessionEvent::TimedOut => SessionPhase::Leave,
            _ => SessionPhase::AwaitEnd,
        },
        SessionPhase::Leave => SessionPhase::Over,
        SessionPhase::Over => SessionPhase::Over,
        SessionPhase::Failed => SessionPhase::Failed,
    }
}

/// The note of a session that fails while it waits for its file.
pub open spec fn failure_note(event: SessionEvent) -> Seq<char> {
    match event {
        SessionEvent::FileReady { hresult } => {
            "capture file creation failed on console, hresult "@ + address(hresult)
        },
        SessionEvent::Closed => "notify channel closed before CaptureFileCreationEnded"@,
        _ => {
            "no CaptureFileCreationEnded within "@ + decimal(NOTICE_TIMEOUT_SECS as nat)
                + "s; is a title actually rendering D3D frames?"@
        },
    }
}

/// How a recording is going to stop.
pub open spec fn stop_text(duration: Option<u64>) -> Seq<char> {
    match duration {
        Some(secs) => "stopping in "@ + decimal(secs as nat) + "s"@,
        None => "press Enter to stop"@,
    }
}

/// What is said when `event` ends `phase`.
pub open spec fn said(
    plan: CapturePlan,
    phase: SessionPhase,
    event: SessionEvent,
    colors: bool,
) -> Seq<Seq<char>> {
    match (phase, event) {
        (SessionPhase::Open, SessionEvent::Opened { handler_detected }) => if handler_detected {
            seq![ok_label("connected"@, colors) + " PIX handler responded to {Connect}"@]
        } else {
            seq![
                warn_label("warning:"@, colors)
                    + " no title has registered as the PIX handler (got plain `OK`). Continuing anyway, but subsequent commands will likely no-op."@,
            ]
        },
        (SessionPhase::CreateFile, _) => seq![
            ok_label("prepared"@, colors) + " requested capture file -> "@ + plan.remote@
                + ", waiting for {CaptureFileCreationEnded} on notify channel"@,
        ],
        (SessionPhase::AwaitFile, SessionEvent::FileReady { hresult }) => if hresult == 0 {
            seq![ok_label("ready"@, colors) + " capture file ready"@]
        } else {
            Seq::empty()
        },
        (SessionPhase::Begin, _) => seq![
            ok_label("recording"@, colors) + " capturing; "@ + stop_text(plan.duration),
        ],
        (SessionPhase::EndFile, _) => seq![
            ok_label("stopping"@, colors) + " capture closed, waiting for {CaptureEnded}"@,
        ],
        (SessionPhase::Leave, _) => seq![
            ok_label("done"@, colors) + " capture finalised, downloading segments"@,
        ],
        _ => Seq::empty(),
    }
}

/// What is done in a phase that has not failed.
pub open spec fn does(plan: CapturePlan, phase: SessionPhase, action: SessionAction) -> bool {
    match phase {
        SessionPhase::Subscribe => action is Subscribe,
        SessionPhase::Open => action is Open,
        SessionPhase::Limit => action matches SessionAction::LimitSize { megabytes } && megabytes
            == plan.size_limit_mb,
        SessionPhase::CreateFile => action matches SessionAction::CreateFile { remote } && remote@
            == plan.remote@,
        SessionPhase::AwaitFile | SessionPhase::AwaitEnd => action matches SessionAction::AwaitNotice {
            secs,
        } && secs == NOTICE_TIMEOUT_SECS,
        SessionPhase::Begin => action is Begin,
        SessionPhase::Record => match plan.duration {
            Some(d) => action matches SessionAction::Sleep { secs } && secs == d,
            None => action is AwaitEnter,
        },
        SessionPhase::End => action is End,
        SessionPhase::EndFile => action is EndFile,
        SessionPhase::Leave => action is Leave,
        SessionPhase::Over => action is Download,
        SessionPhase::Failed => action is Fail,
    }
}

/// The first thing that a session does.
pub fn session_start() -> (r: SessionStep)
    ensures
        r.phase == SessionPhase::Subscribe,
        r.action is Subscribe,
        r.messages@.len() == 0,
{
    SessionStep {
        phase: SessionPhase::Subscribe,
        messages: Vec::new(),
        action: SessionAction::Subscribe,
    }
}

fn action_of(plan: &CapturePlan, phase: SessionPhase) -> (r: SessionAction)
    requires
        phase != SessionPhase::Failed,
    ensures
        does(*plan, phase, r),
{
    match phase {
        SessionPhase::Subscribe => SessionAction::Subscribe,
        SessionPhase::Open => SessionAction::Open,
        SessionPhase::Limit => SessionAction::LimitSize { megabytes: plan.size_limit_mb },
        SessionPhase::CreateFile => SessionAction::CreateFile { remote: plan.remote.clone() },
        SessionPhase::AwaitFile => SessionAction::AwaitNotice { secs: NOTICE_TIMEOUT_SECS },
        SessionPhase::AwaitEnd => SessionAction::AwaitNotice { secs: NOTICE_TIMEOUT_SECS },
        SessionPhase::Begin => SessionAction::Begin,
        SessionPhase::Record => match plan.duration {
            Some(secs) => SessionAction::Sleep { secs },
            None => SessionAction::AwaitEnter,
        },
        SessionPhase::End => SessionAction::End,
        SessionPhase::EndFile => SessionAction::EndFile,
        SessionPhase::Leave => SessionAction::Leave,
        _ => SessionAction::Download,
    }
}

fn phase_after(phase: SessionPhase, event: SessionEvent) -> (r: SessionPhase)
    ensures
        r == next_phase(phase, event),
{
    match phase {
        SessionPhase::Subscribe => SessionPhase::Open,
        SessionPhase::Open => SessionPhase::Limit,
        SessionPhase::Limit => SessionPhase::CreateFile,
        SessionPhase::CreateFile => SessionPhase::AwaitFile,
        SessionPhase::AwaitFile => match event {
            SessionEvent::FileReady { hresult } => if hresult == 0 {
                SessionPhase::Begin
            } else {
                SessionPhase::Failed
            },
            SessionEvent::Closed => SessionPhase::Failed,
            SessionEvent::TimedOut => SessionPhase::Failed,
            _ => SessionPhase::AwaitFile,
        },
        SessionPhase::Begin => SessionPhase::Record,
        SessionPhase::Record => SessionPhase::End,
        SessionPhase::End => SessionPhase::EndFile,
        SessionPhase::EndFile => SessionPhase::AwaitEnd,
        SessionPhase::AwaitEnd => match event {
            SessionEvent::CaptureEnded => SessionPhase::Leave,
            SessionEvent::Closed => SessionPhase::Leave,
            SessionEvent::TimedOut => SessionPhase::Leave,
            _ => SessionPhase::AwaitEnd,
        },
        SessionPhase::Leave => SessionPhase::Over,
        SessionPhase::Over => SessionPhase::Over,
        SessionPhase::Failed => SessionPhase::Failed,
    }
}

fn failure_of(event: SessionEvent) -> (r: Failure)
    ensures
        r.reports(ErrorKind::EmptyFilename, Some(failure_note(event))),
{
    let note = match event {
        SessionEvent::FileReady { hresult } => {
            let mut note = "capture file creation failed on console, hresult ".to_owned();
            let code = address_text(hresult);
            note.append(code.as_str());
            note
        },
        SessionEvent::Closed => "notify channel closed before CaptureFileCreationEnded".to_owned(),
        _ => {
            let mut note = "no CaptureFileCreationEnded within ".to_owned();
            let secs = decimal_text(NOTICE_TIMEOUT_SECS);
            note.append(secs.as_str());
            note.append("s; is a title actually rendering D3D frames?");
            note
        },
    };
    Failure::noted(ErrorKind::EmptyFilename, note)
}

fn message_of(
    plan: &CapturePlan,
    phase: SessionPhase,
    event: SessionEvent,
    colors: bool,
) -> (r: Option<String>)
    ensures
        match r {
            Some(s) => said(*plan, phase, event, colors) == seq![s@],
            None => said(*plan, phase, event, colors) == Seq::<Seq<char>>::empty(),
        },
{
    match phase {
        SessionPhase::Open => match event {
            SessionEvent::Opened { handler_detected } => if handler_detected {
                let mut m = ok_tag("connected", colors);
                m.append(" PIX handler responded to {Connect}");
                Some(m)
            } else {
                let mut m = warn_tag("warning:", colors);
                m.append(
                    " no title has registered as the PIX handler (got plain `OK`). Continuing anyway, but subsequent commands will likely no-op.",
                );
                Some(m)
            },
            _ => None,
        },
        SessionPhase::CreateFile => {
            let mut m = ok_tag("prepared", colors);
            m.append(" requested capture file -> ");
            m.append(plan.remote.as_str());
            m.append(", waiting for {CaptureFileCreationEnded} on notify channel");
            Some(m)
        },
        SessionPhase::AwaitFile => match event {
            SessionEvent::FileReady { hresult } => if hresult == 0 {
                let mut m = ok_tag("ready", colors);
                m.append(" capture file ready");
                Some(m)
            } else {
                None
            },
            _ => None,
        },
        SessionPhase::Begin => {
            let mut m = ok_tag("recording", colors);
            m.append(" capturing; ");
            match plan.duration {
                Some(secs) => {
                    let mut s = "stopping in ".to_owned();
                    let n = decimal_text(secs);
                    s.append(n.as_str());
                    s.append("s");
                    m.append(s.as_str());
                },
                None => {
                    m.append("press Enter to stop");
                },
            }
            Some(m)
        },
        SessionPhase::EndFile => {
            let mut m = ok_tag("stopping", colors);
            m.append(" capture closed, waiting for {CaptureEnded}");
            Some(m)
        },
        SessionPhase::Leave => {
            let mut m = ok_tag("done", colors);
            m.append(" capture finalised, downloading segments");
            Some(m)
        },
        _ => None,
    }
}

/// What follows when `event` happens in `phase`.
pub fn session_step(
    plan: &CapturePlan,
    phase: SessionPhase,
    event: SessionEvent,
    colors: bool,
) -> (r: SessionStep)
    requires
        expected(phase, event),
    ensures
        r.phase == next_phase(phase, event),
        texts(r.messages@) == said(*plan, phase, event, colors),
        does(*plan, r.phase, r.action),
        r.phase == SessionPhase::Record ==> match plan.duration {
            Some(d) => r.action matches SessionAction::Sleep { secs } && secs == d,
            None => r.action is AwaitEnter,
        },
        r.phase == SessionPhase::CreateFile ==> (r.action matches SessionAction::CreateFile {
            remote,
        } && remote@ == plan.remote@),
        r.phase == SessionPhase::Limit ==> (r.action matches SessionAction::LimitSize {
            megabytes,
        } && megabytes == plan.size_limit_mb),
        r.action matches SessionAction::Fail(f) ==> f.reports(
            ErrorKind::EmptyFilename,
            Some(failure_note(event)),
        ),
{
    let next = phase_after(phase, event);
    let mut messages: Vec<String> = Vec::new();
    match message_of(plan, phase, event, colors) {
        Some(m) => {
            messages.push(m);
            assert(texts(messages@) =~= seq![m@]);
        },
        None => {
            assert(texts(messages@) =~= Seq::<Seq<char>>::empty());
        },
    }
    let action = match next {
        SessionPhase::Failed => SessionAction::Fail(failure_of(event)),
        _ => action_of(plan, next),
    };
    SessionStep { phase: next, messages, action }
}

/// The time for a wait starts anew.
pub open spec fn restarts(before: SessionPhase, after: SessionPhase) -> bool {
    before != after
}

/// Whether the time for a wait starts anew: with each phase, and not with the
/// notifications that leave a session where it was.
pub fn wait_restarts(before: SessionPhase, after: SessionPhase) -> (r: bool)
    ensures
        r == restarts(before, after),
{
    before != after
}

/// The phases of a session that `events` lead through, from `phase` on.
pub open spec fn led_to(phase: SessionPhase, events: Seq<SessionEvent>) -> SessionPhase
    decreases events.len(),
{
    if events.len() == 0 {
        phase
    } else {
        next_phase(led_to(phase, events.drop_last()), events.last())
    }
}

/// Each event can happen in the phase in which it comes.
pub open spec fn all_expected(phase: SessionPhase, events: Seq<SessionEvent>) -> bool {
    forall|i: int|
        0 <= i < events.len() ==> expected(led_to(phase, events.take(i)), #[trigger] events[i])
}

/// The phases in which the capture has been started.
pub open spec fn has_begun(phase: SessionPhase) -> bool {
    match phase {
        SessionPhase::Begin
        | SessionPhase::Record
        | SessionPhase::End
        | SessionPhase::EndFile
        | SessionPhase::AwaitEnd
        | SessionPhase::Leave
        | SessionPhase::Over => true,
        _ => false,
    }
}

/// A session starts capturing, and gets to its downloads, only after the
/// console reported that its file was created without an error.
pub proof fn capture_needs_ready_file(events: Seq<SessionEvent>)
    requires
        all_expected(SessionPhase::Subscribe, events),
        has_begun(led_to(SessionPhase::Subscribe, events)),
    ensures
        events.contains(SessionEvent::FileReady { hresult: 0 }),
    decreases events.len(),
{
    if events.len() > 0 {
        let front = events.drop_last();
        let before = led_to(SessionPhase::Subscribe, front);
        assert(events.take(events.len() - 1) =~= front);
        assert(expected(before, events[events.len() - 1]));
        if has_begun(before) {
            assert forall|i: int| 0 <= i < front.len() implies expected(
                led_to(SessionPhase::Subscribe, front.take(i)),
                #[trigger] front[i],
            ) by {
                assert(front.take(i) =~= events.take(i));
                assert(expected(led_to(SessionPhase::Subscribe, events.take(i)), events[i]));
            }
            capture_needs_ready_file(front);
            let k = choose|k: int|
                0 <= k < front.len() && front[k] == SessionEvent::FileReady { hresult: 0 };
            assert(events[k] == front[k]);
        } else {
            assert(events.last() == SessionEvent::FileReady { hresult: 0 });
        }
    }
}

/// A session fails exactly when, awaiting its file, it learns of an error, of
/// the channel's end, or of nothing in time.
pub proof fn session_fails_only_awaiting_file(phase: SessionPhase, event: SessionEvent)
    requires
        expected(phase, event),
    ensures
        next_phase(phase, event) == SessionPhase::Failed <==> phase == SessionPhase::AwaitFile && (
        event is Closed || event is TimedOut || (event matches SessionEvent::FileReady { hresult }
            && hresult != 0)),
{
}

/// Once the capture has been started, nothing that happens fails the session:
/// it still gets to its downloads.
pub proof fn begun_session_does_not_fail(phase: SessionPhase, event: SessionEvent)
    requires
        has_begun(phase),
        expected(phase, event),
    ensures
        has_begun(next_phase(phase, event)),
{
}

/// The actions of a session through which `events` lead: the first one is to
/// subscribe, and each event brings the action of the phase that it leads to.
pub open spec fn acts(
    plan: CapturePlan,
    events: Seq<SessionEvent>,
    actions: Seq<SessionAction>,
) -> bool {
    &&& all_expected(SessionPhase::Subscribe, events)
    &&& actions.len() == events.len() + 1
    &&& actions[0] is Subscribe
    &&& forall|i: int|
        1 <= i < actions.len() ==> does(
            plan,
            led_to(SessionPhase::Subscribe, events.take(i)),
            #[trigger] actions[i],
        )
}

/// The actions without the waits for notifications.
pub open spec fn deeds(actions: Seq<SessionAction>) -> Seq<SessionAction> {
    actions.filter(|a: SessionAction| !(a is AwaitNotice))
}

/// What a session does, in this order, until its segments can be downloaded:
/// it subscribes, opens a session, caps the size of the segments as planned,
/// creates the file that is planned, begins, records for as long as is planned
/// or until Enter is pressed, ends the capture, closes the file, leaves, and
/// downloads.
pub open spec fn planned_deed(plan: CapturePlan, k: int, deed: SessionAction) -> bool {
    &&& k == 0 ==> deed is Subscribe
    &&& k == 1 ==> deed is Open
    &&& k == 2 ==> (deed matches SessionAction::LimitSize { megabytes } && megabytes
        == plan.size_limit_mb)
    &&& k == 3 ==> (deed matches SessionAction::CreateFile { remote } && remote@ == plan.remote@)
    &&& k == 4 ==> deed is Begin
    &&& k == 5 ==> (match plan.duration {
        Some(d) => deed matches SessionAction::Sleep { secs } && secs == d,
        None => deed is AwaitEnter,
    })
    &&& k == 6 ==> deed is End
    &&& k == 7 ==> deed is EndFile
    &&& k == 8 ==> deed is Leave
    &&& k == 9 ==> deed is Download
}

spec fn deeds_so_far(phase: SessionPhase) -> int {
    match phase {
        SessionPhase::Subscribe => 1,
        SessionPhase::Open => 2,
        SessionPhase::Limit => 3,
        SessionPhase::CreateFile | SessionPhase::AwaitFile => 4,
        SessionPhase::Begin => 5,
        SessionPhase::Record => 6,
        SessionPhase::End => 7,
        SessionPhase::EndFile | SessionPhase::AwaitEnd => 8,
        SessionPhase::Leave => 9,
        SessionPhase::Over => 10,
        SessionPhase::Failed => 5,
    }
}

spec fn on_course(plan: CapturePlan, phase: SessionPhase, done: Seq<SessionAction>) -> bool {
    &&& done.len() == deeds_so_far(phase)
    &&& forall|k: int|
        0 <= k < done.len() && !(phase == SessionPhase::Failed && k == 4) ==> planned_deed(
            plan,
            k,
            #[trigger] done[k],
        )
}

proof fn one_step_on(
    plan: CapturePlan,
    phase: SessionPhase,
    event: SessionEvent,
    action: SessionAction,
    done: Seq<SessionAction>,
)
    requires
        expected(phase, event),
        does(plan, next_phase(phase, event), action),
        on_course(plan, phase, done),
    ensures
        action is AwaitNotice ==> on_course(plan, next_phase(phase, event), done),
        !(action is AwaitNotice) ==> on_course(plan, next_phase(phase, event), done.push(action)),
{
    let next = next_phase(phase, event);
    let more = done.push(action);
    if !(action is AwaitNotice) {
        assert forall|k: int|
            0 <= k < more.len() && !(next == SessionPhase::Failed && k == 4) implies planned_deed(
            plan,
            k,
            #[trigger] more[k],
        ) by {
            if k < done.len() {
                assert(more[k] == done[k]);
                assert(planned_deed(plan, k, done[k]));
            } else {
                assert(k == deeds_so_far(phase));
            }
        }
    }
}

proof fn deeds_of_phase(
    plan: CapturePlan,
    events: Seq<SessionEvent>,
    actions: Seq<SessionAction>,
)
    requires
        acts(plan, events, actions),
    ensures
        on_course(plan, led_to(SessionPhase::Subscribe, events), deeds(actions)),
    decreases events.len(),
{
    let keep = |a: SessionAction| !(a is AwaitNotice);
    let n = events.len() as int;
    let front = actions.drop_last();
    let last = actions.last();
    assert(deeds(actions) == if keep(last) {
        deeds(front).push(last)
    } else {
        deeds(front)
    }) by {
        reveal(Seq::filter);
    }
    if n == 0 {
        assert(deeds(front) =~= Seq::empty()) by {
            reveal(Seq::filter);
        }
    } else {
        let before = events.drop_last();
        assert forall|i: int| 0 <= i < before.len() implies expected(
            led_to(SessionPhase::Subscribe, before.take(i)),
            #[trigger] before[i],
        ) by {
            assert(before.take(i) =~= events.take(i));
            assert(expected(led_to(SessionPhase::Subscribe, events.take(i)), events[i]));
        }
        assert forall|i: int| 1 <= i < front.len() implies does(
            plan,
            led_to(SessionPhase::Subscribe, before.take(i)),
            #[trigger] front[i],
        ) by {
            assert(before.take(i) =~= events.take(i));
            assert(does(plan, led_to(SessionPhase::Subscribe, events.take(i)), actions[i]));
        }
        deeds_of_phase(plan, before, front);
        assert(events.take(n - 1) =~= before);
        assert(events.take(n) =~= events);
        assert(expected(led_to(SessionPhase::Subscribe, events.take(n - 1)), events[n - 1]));
        assert(does(plan, led_to(SessionPhase::Subscribe, events.take(n)), actions[n]));
        one_step_on(
            plan,
            led_to(SessionPhase::Subscribe, before),
            events.last(),
            last,
            deeds(front),
        );
    }
}

/// A session that gets to its downloads has done ten things, in this order and
/// once each: subscribe, open, cap the size as planned, create the planned file,
/// begin, record for exactly the planned time (or until Enter is pressed, where
/// none is planned), end, close the file, leave, and download. In between it
/// only waits for notifications.
pub proof fn finished_session_follows_plan(
    plan: CapturePlan,
    events: Seq<SessionEvent>,
    actions: Seq<SessionAction>,
)
    requires
        acts(plan, events, actions),
        actions.last() is Download,
    ensures
        ({
            let done = deeds(actions);
            &&& done.len() == 10
            &&& forall|k: int|
                0 <= k < 10 ==> planned_deed(plan, k, #[trigger] done[k])
        }),
{
    deeds_of_phase(plan, events, actions);
    let n = events.len() as int;
    assert(events.take(n) =~= events);
    if n > 0 {
        assert(does(plan, led_to(SessionPhase::Subscribe, events.take(n)), actions[n]));
    }
}

/// Every wait for a notification takes half a minute at most.
pub proof fn waits_last_half_a_minute(
    plan: CapturePlan,
    phase: SessionPhase,
    action: SessionAction,
)
    requires
        does(plan, phase, action),
        action is AwaitNotice,
    ensures
        action matches SessionAction::AwaitNotice { secs } && secs == 30,
        phase == SessionPhase::AwaitFile || phase == SessionPhase::AwaitEnd,
{
}

/// A session waits twice, and only then does it stay where it is: until its file
/// has been created, before it begins, and until the capture has ended, before
/// it leaves.
pub proof fn session_waits_for_its_file_and_its_end(
    plan: CapturePlan,
    phase: SessionPhase,
    event: SessionEvent,
    action: SessionAction,
)
    requires
        expected(phase, event),
        does(plan, next_phase(phase, event), action),
    ensures
        action is Begin <==> phase == SessionPhase::AwaitFile && event
            == (SessionEvent::FileReady { hresult: 0 }),
        action is Leave <==> phase == SessionPhase::AwaitEnd && (event is CaptureEnded
            || event is Closed || event is TimedOut),
        action is Fail <==> phase == SessionPhase::AwaitFile && (event is Closed
            || event is TimedOut || (event matches SessionEvent::FileReady { hresult } && hresult
            != 0)),
        action is AwaitNotice <==> phase == SessionPhase::CreateFile || phase
            == SessionPhase::EndFile || (phase == SessionPhase::AwaitFile && (event is OtherNotice
            || event is CaptureEnded)) || (phase == SessionPhase::AwaitEnd && (event is OtherNotice
            || event is FileReady)),
{
}

/// When a recording begins, it is said in how many seconds it stops, or that
/// Enter stops it; when a file has been requested, it is said which.
pub proof fn session_says_what_it_does(plan: CapturePlan, colors: bool)
    ensures
        ({
            let begun = said(plan, SessionPhase::Begin, SessionEvent::Done, colors);
            let requested = said(plan, SessionPhase::CreateFile, SessionEvent::Done, colors);
            &&& begun.len() == 1
            &&& requested.len() == 1
            &&& plan.duration matches Some(d) ==> crate::text::ends(
                begun[0],
                "stopping in "@ + decimal(d as nat) + "s"@,
            )
            &&& plan.duration is None ==> crate::text::ends(begun[0], "press Enter to stop"@)
            &&& crate::text::ends(
                requested[0],
                " -> "@ + plan.remote@
                    + ", waiting for {CaptureFileCreationEnded} on notify channel"@,
            )
        }),
{
    let begun = said(plan, SessionPhase::Begin, SessionEvent::Done, colors);
    let requested = said(plan, SessionPhase::CreateFile, SessionEvent::Done, colors);
    match plan.duration {
        Some(d) => {
            let tail = "stopping in "@ + decimal(d as nat) + "s"@;
            assert(begun[0].skip(begun[0].len() - tail.len()) =~= tail);
        },
        None => {
            let tail = "press Enter to stop"@;
            assert(begun[0].skip(begun[0].len() - tail.len()) =~= tail);
        },
    }
    reveal_strlit(" -> ");
    reveal_strlit(" requested capture file -> ");
    let tail = " -> "@ + plan.remote@
        + ", waiting for {CaptureFileCreationEnded} on notify channel"@;
    assert(requested[0].skip(requested[0].len() - tail.len()) =~= tail);
}

/// A session that fails says why: with the console's error code, or that the
/// channel was closed, or that half a minute went by.
pub proof fn failed_session_says_why(event: SessionEvent)
    ensures
        event matches SessionEvent::FileReady { hresult } ==> crate::text::ends(
            failure_note(event),
            " hresult "@ + address(hresult),
        ),
        event is TimedOut ==> crate::text::begins(
            failure_note(event),
            "no CaptureFileCreationEnded within 30s; "@,
        ),
        event is Closed ==> crate::text::ends(failure_note(event), "CaptureFileCreationEnded"@),
{
    let note = failure_note(event);
    match event {
        SessionEvent::FileReady { hresult } => {
            reveal_strlit(" hresult ");
            reveal_strlit("capture file creation failed on console, hresult ");
            let tail = " hresult "@ + address(hresult);
            assert(note.skip(note.len() - tail.len()) =~= tail);
        },
        SessionEvent::Closed => {
            reveal_strlit("CaptureFileCreationEnded");
            reveal_strlit("notify channel closed before CaptureFileCreationEnded");
            let tail = "CaptureFileCreationEnded"@;
            assert(note.skip(note.len() - tail.len()) =~= tail);
        },
        SessionEvent::TimedOut => {
            reveal_strlit("no CaptureFileCreationEnded within 30s; ");
            reveal_strlit("no CaptureFileCreationEnded within ");
            reveal_strlit("s; is a title actually rendering D3D frames?");
            reveal_with_fuel(decimal, 2);
            assert(decimal(30) =~= seq!['3', '0']);
            let head = "no CaptureFileCreationEnded within 30s; "@;
            assert(note.take(head.len() as int) =~= head);
        },
        _ => {},
    }
}

/// How many phases lie ahead.
pub open spec fn phases_ahead(phase: SessionPhase) -> nat {
    match phase {
        SessionPhase::Subscribe => 11,
        SessionPhase::Open => 10,
        SessionPhase::Limit => 9,
        SessionPhase::CreateFile => 8,
        SessionPhase::AwaitFile => 7,
        SessionPhase::Begin => 6,
        SessionPhase::Record => 5,
        SessionPhase::End => 4,
        SessionPhase::EndFile => 3,
        SessionPhase::AwaitEnd => 2,
        SessionPhase::Leave => 1,
        SessionPhase::Over | SessionPhase::Failed => 0,
    }
}

/// A notification that is not the one awaited.
pub open spec fn ignored(phase: SessionPhase, event: SessionEvent) -> bool {
    match phase {
        SessionPhase::AwaitFile => event is OtherNotice || event is CaptureEnded,
        SessionPhase::AwaitEnd => event is OtherNotice || event is FileReady,
        _ => false,
    }
}

/// A session moves on with every event but the notifications that it does not
/// wait for, and those leave it as it was: it ends as soon as the waits do.
pub proof fn session_moves_on(phase: SessionPhase, event: SessionEvent)
    requires
        expected(phase, event),
    ensures
        ignored(phase, event) ==> next_phase(phase, event) == phase,
        !ignored(phase, event) ==> phases_ahead(next_phase(phase, event)) < phases_ahead(phase),
{
}

/// It is said whether a capture handler answered: that it did, or a warning that
/// none is registered. When the file is ready, when the capture is closed, and
/// when it is done, that is said too; nothing else is.
pub proof fn session_says_who_answered(plan: CapturePlan, event: SessionEvent, colors: bool)
    ensures
        ({
            let opened = said(plan, SessionPhase::Open, event, colors);
            let ready = said(plan, SessionPhase::AwaitFile, event, colors);
            let closed = said(plan, SessionPhase::EndFile, event, colors);
            let left = said(plan, SessionPhase::Leave, event, colors);
            &&& event matches SessionEvent::Opened { handler_detected } ==> opened.len() == 1 && (
            if handler_detected {
                opened[0] == ok_label("connected"@, colors) + " PIX handler responded to {Connect}"@
            } else {
                crate::text::begins(
                    opened[0],
                    warn_label("warning:"@, colors)
                        + " no title has registered as the PIX handler "@,
                )
            })
            &&& ready.len() == if event == (SessionEvent::FileReady { hresult: 0 }) {
                1nat
            } else {
                0nat
            }
            &&& closed.len() == 1
            &&& left.len() == 1
            &&& crate::text::ends(closed[0], " capture closed, waiting for {CaptureEnded}"@)
            &&& crate::text::ends(left[0], " capture finalised, downloading segments"@)
            &&& said(plan, SessionPhase::Subscribe, event, colors).len() == 0
            &&& said(plan, SessionPhase::Limit, event, colors).len() == 0
            &&& said(plan, SessionPhase::Record, event, colors).len() == 0
            &&& said(plan, SessionPhase::End, event, colors).len() == 0
            &&& said(plan, SessionPhase::AwaitEnd, event, colors).len() == 0
        }),
{
    let opened = said(plan, SessionPhase::Open, event, colors);
    let closed = said(plan, SessionPhase::EndFile, event, colors);
    let left = said(plan, SessionPhase::Leave, event, colors);
    if let SessionEvent::Opened { handler_detected } = event {
        if !handler_detected {
            reveal_strlit(" no title has registered as the PIX handler ");
            reveal_strlit(
                " no title has registered as the PIX handler (got plain `OK`). Continuing anyway, but subsequent commands will likely no-op.",
            );
            let head = warn_label("warning:"@, colors)
                + " no title has registered as the PIX handler "@;
            assert(opened[0].take(head.len() as int) =~= head);
        }
    }
    let a = " capture closed, waiting for {CaptureEnded}"@;
    assert(closed[0].skip(closed[0].len() - a.len()) =~= a);
    let b = " capture finalised, downloading segments"@;
    assert(left[0].skip(left[0].len() - b.len()) =~= b);
}

/// Notifications that a session does not wait for take up the time of its wait;
/// with everything else that happens, the time starts anew.
pub proof fn other_notices_do_not_prolong_a_wait(phase: SessionPhase, event: SessionEvent)
    requires
        expected(phase, event),
    ensures
        restarts(phase, next_phase(phase, event)) <==> !((phase == SessionPhase::AwaitFile && (event
            is OtherNotice || event is CaptureEnded)) || (phase == SessionPhase::AwaitEnd && (event
            is OtherNotice || event is FileReady))),
{
}

} // verus!
