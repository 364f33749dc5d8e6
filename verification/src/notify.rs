//! Listening to the console's notifications.

use vstd::prelude::*;

use crate::parse::{all_digits, decimal_digits, digits_value};
use crate::style::{ok_label, ok_tag, warn_label, warn_tag};
use crate::text::{
    decimal, decimal_text, decimal_wide_text, fill_left, filled, filled_is_right_aligned,
    line_end_is_dropped, strip_line_end, without_line_end,
};

verus! {

/// How listening is going to stop.
pub open spec fn stop_hint(duration_secs: u64) -> Seq<char> {
    if duration_secs == 0 {
        "Ctrl-C to stop"@
    } else {
        "stopping in "@ + decimal(duration_secs as nat) + "s"@
    }
}

/// Says that the console's notifications are listened to. `ack` is its answer.
pub fn subscribed_text(ack: &str, duration_secs: u64, colors: bool) -> (r: String)
    ensures
        r@ == ok_label("subscribed"@, colors) + " "@ + ack@ + "; "@ + stop_hint(duration_secs),
{
    let mut out = ok_tag("subscribed", colors);
    out.append(" ");
    out.append(ack);
    out.append("; ");
    if duration_secs == 0 {
        out.append("Ctrl-C to stop");
    } else {
        let mut hint = "stopping in ".to_owned();
        let secs = decimal_text(duration_secs);
        hint.append(secs.as_str());
        hint.append("s");
        out.append(hint.as_str());
    }
    out
}

/// How long the next notification is waited for.
#[derive(Copy, Clone, Debug, PartialEq, Eq, Structural)]
pub enum Wait {
    Forever,
    UpTo { nanos: u128 },
    /// Not at all: the time is over.
    Over,
}

/// How long is waited after `elapsed_nanos` of `duration_secs`.
pub open spec fn waits(duration_secs: u64, elapsed_nanos: u128) -> Wait {
    if duration_secs == 0 {
        Wait::Forever
    } else if elapsed_nanos >= duration_secs * 1_000_000_000 {
        Wait::Over
    } else {
        (Wait::UpTo { nanos: (duration_secs * 1_000_000_000 - elapsed_nanos) as u128 })
    }
}

/// The time that has passed and the time that is still waited make up the time
/// that was asked for. It is over exactly when it has passed, and never where
/// none was asked for.
pub proof fn waits_add_up(duration_secs: u64, elapsed_nanos: u128)
    ensures
        match waits(duration_secs, elapsed_nanos) {
            Wait::Forever => duration_secs == 0,
            Wait::UpTo { nanos } => {
                &&& nanos > 0
                &&& duration_secs > 0
                &&& elapsed_nanos + nanos == duration_secs as int * 1000000000
            },
            Wait::Over => duration_secs > 0 && elapsed_nanos >= duration_secs as int * 1000000000,
        },
{
}

/// Where nothing is heard in the time that is waited, the time is over.
pub proof fn a_full_wait_is_the_last(duration_secs: u64, elapsed_nanos: u128, more: u128)
    requires
        waits(duration_secs, elapsed_nanos) matches Wait::UpTo { nanos } && nanos <= more,
        elapsed_nanos + more <= u128::MAX,
    ensures
        waits(duration_secs, (elapsed_nanos + more) as u128) == Wait::Over,
{
}

/// How long the next notification is waited for, after `elapsed_nanos` of
/// `duration_secs`; zero seconds are without end.
pub fn time_left(duration_secs: u64, elapsed_nanos: u128) -> (r: Wait)
    ensures
        r == waits(duration_secs, elapsed_nanos),
{
    if duration_secs == 0 {
        return Wait::Forever;
    }
    let deadline: u128 = duration_secs as u128 * 1_000_000_000;
    if elapsed_nanos >= deadline {
        Wait::Over
    } else {
        Wait::UpTo { nanos: deadline - elapsed_nanos }
    }
}

/// What was heard.
#[derive(Debug)]
pub enum Heard {
    Line(String),
    /// The channel was closed.
    Closed,
    /// Nothing, in the time there was.
    TimedOut,
}

/// What follows.
#[derive(Debug)]
pub enum ListenStep {
    /// Listen on; there is nothing to show.
    Ignore,
    /// Show this notification and listen on.
    Show(String),
    /// Stop, after this message where there is one.
    Stop { message: Option<String> },
}

/// The step follows from what was heard.
pub open spec fn follows(heard: Heard, colors: bool, step: ListenStep) -> bool {
    match heard {
        Heard::Line(line) => if without_line_end(line@).len() == 0 {
            step is Ignore
        } else {
            step matches ListenStep::Show(s) && s@ == without_line_end(line@)
        },
        Heard::Closed => step matches ListenStep::Stop { message: Some(m) } && m@ == warn_label(
            "eof:"@,
            colors,
        ) + " notification channel closed"@,
        Heard::TimedOut => step matches ListenStep::Stop { message: None },
    }
}

/// Every line is shown that holds a character other than a line end, all of it
/// but the line ends behind it. Listening stops exactly where the channel was
/// closed, which is said, or the time is over.
pub proof fn every_line_is_shown(heard: Heard, colors: bool, step: ListenStep)
    requires
        follows(heard, colors, step),
    ensures
        step is Stop <==> !(heard is Line),
        heard matches Heard::Line(line) ==> {
            let text = line@;
            &&& step is Ignore <==> forall|i: int|
                0 <= i < text.len() ==> #[trigger] text[i] == '\r' || text[i] == '\n'
            &&& step matches ListenStep::Show(shown) ==> {
                &&& 0 < shown@.len() <= text.len()
                &&& shown@ == text.take(shown@.len() as int)
                &&& shown@.last() != '\r' && shown@.last() != '\n'
                &&& forall|i: int|
                    shown@.len() <= i < text.len() ==> #[trigger] text[i] == '\r' || text[i] == '\n'
            }
        },
        heard is Closed ==> (step matches ListenStep::Stop { message } && message is Some),
        heard is TimedOut ==> (step matches ListenStep::Stop { message } && message is None),
{
    if let Heard::Line(line) = heard {
        let text = line@;
        line_end_is_dropped(text);
        let kept = without_line_end(text);
        if kept.len() > 0 {
            assert(kept.last() == text[kept.len() - 1]);
        }
    }
}

/// What follows from what was heard. Lines are shown without their line ends,
/// empty ones not at all.
pub fn listen_step(heard: Heard, colors: bool) -> (r: ListenStep)
    ensures
        follows(heard, colors, r),
{
    match heard {
        Heard::Line(line) => {
            let trimmed = strip_line_end(line.as_str());
            if trimmed.as_str().unicode_len() == 0 {
                ListenStep::Ignore
            } else {
                ListenStep::Show(trimmed)
            }
        },
        Heard::Closed => {
            let mut m = warn_tag("eof:", colors);
            m.append(" notification channel closed");
            ListenStep::Stop { message: Some(m) }
        },
        Heard::TimedOut => ListenStep::Stop { message: None },
    }
}

/// Milliseconds, right-aligned.
pub open spec fn stamp(millis: nat) -> Seq<char> {
    filled(decimal(millis), 6, ' ') + "ms "@
}

fn stamp_text(millis: u128) -> (r: String)
    ensures
        r@ == stamp(millis as nat),
{
    let digits = decimal_wide_text(millis);
    let mut out = fill_left(digits.as_str(), 6, ' ');
    out.append("ms ");
    out
}

/// A notification as the debugger shows it.
pub fn event_line(millis: u128, line: &str) -> (r: String)
    ensures
        r@ == stamp(millis as nat) + line@,
{
    let mut out = stamp_text(millis);
    out.append(line);
    out
}

/// The kinds of notification that a capture handler sends.
#[derive(Copy, Clone, Debug, PartialEq, Eq, Structural)]
pub enum NoticeKind {
    CaptureFileCreationEnded,
    CaptureEnded,
    MovieData,
    Resource,
    VideoError,
    VideoOp,
    Status,
    Other,
}

/// The tag of a line: the kind of notification that it was read as, if any.
pub open spec fn notice_tag(kind: Option<NoticeKind>) -> Seq<char> {
    match kind {
        Some(NoticeKind::CaptureFileCreationEnded) => "cap-seg"@,
        Some(NoticeKind::CaptureEnded) => "cap-end"@,
        Some(NoticeKind::MovieData) => "movie"@,
        Some(NoticeKind::Resource) => "rsrc"@,
        Some(NoticeKind::VideoError) => "verr"@,
        Some(NoticeKind::VideoOp) => "vop"@,
        Some(NoticeKind::Status) => "stat"@,
        Some(NoticeKind::Other) => "pix?"@,
        None => "line"@,
    }
}

fn notice_tag_text(kind: Option<NoticeKind>) -> (r: &'static str)
    ensures
        r@ == notice_tag(kind),
{
    match kind {
        Some(NoticeKind::CaptureFileCreationEnded) => "cap-seg",
        Some(NoticeKind::CaptureEnded) => "cap-end",
        Some(NoticeKind::MovieData) => "movie",
        Some(NoticeKind::Resource) => "rsrc",
        Some(NoticeKind::VideoError) => "verr",
        Some(NoticeKind::VideoOp) => "vop",
        Some(NoticeKind::Status) => "stat",
        Some(NoticeKind::Other) => "pix?",
        None => "line",
    }
}

/// A notification with its tag.
pub fn tagged_line(millis: u128, kind: Option<NoticeKind>, line: &str) -> (r: String)
    ensures
        r@ == stamp(millis as nat) + "["@ + notice_tag(kind) + "] "@ + line@,
{
    let mut out = stamp_text(millis);
    out.append("[");
    out.append(notice_tag_text(kind));
    out.append("] ");
    out.append(line);
    out
}

/// A time stamp ends in `ms` and a space, and in front of that stands the number
/// of milliseconds, right-aligned in six columns where it takes fewer.
pub proof fn stamp_shows_milliseconds(millis: nat)
    ensures
        ({
            let s = stamp(millis);
            let digits = decimal(millis);
            let at = s.len() - 3 - digits.len();
            &&& s.len() == 3 + if digits.len() < 6 {
                6
            } else {
                digits.len()
            }
            &&& s.skip(s.len() - 3) == "ms "@
            &&& s.subrange(at, s.len() - 3) == digits
            &&& digits_value(s.subrange(at, s.len() - 3), 10) == millis
            &&& forall|i: int| 0 <= i < at ==> #[trigger] s[i] == ' '
        }),
{
    reveal_strlit("ms ");
    let s = stamp(millis);
    let digits = decimal(millis);
    let at = s.len() - 3 - digits.len();
    decimal_digits(millis);
    filled_is_right_aligned(digits, 6, ' ');
    let wide = filled(digits, 6, ' ');
    assert(s.skip(s.len() - 3) =~= "ms "@);
    assert(s.subrange(at, s.len() - 3) =~= wide.skip(wide.len() - digits.len()));
    assert forall|i: int| 0 <= i < at implies #[trigger] s[i] == ' ' by {
        assert(s[i] == wide[i]);
    }
}

proof fn tag_letters(kind: Option<NoticeKind>)
    ensures
        ({
            let tag = notice_tag(kind);
            match kind {
                Some(NoticeKind::CaptureFileCreationEnded) => tag.len() == 7 && tag[4] == 's',
                Some(NoticeKind::CaptureEnded) => tag.len() == 7 && tag[4] == 'e',
                Some(NoticeKind::MovieData) => tag.len() == 5,
                Some(NoticeKind::Resource) => tag.len() == 4 && tag[0] == 'r',
                Some(NoticeKind::VideoError) => tag.len() == 4 && tag[0] == 'v',
                Some(NoticeKind::VideoOp) => tag.len() == 3,
                Some(NoticeKind::Status) => tag.len() == 4 && tag[0] == 's',
                Some(NoticeKind::Other) => tag.len() == 4 && tag[0] == 'p',
                None => tag.len() == 4 && tag[0] == 'l',
            }
        }),
{
    reveal_strlit("cap-seg");
    reveal_strlit("cap-end");
    reveal_strlit("movie");
    reveal_strlit("rsrc");
    reveal_strlit("verr");
    reveal_strlit("vop");
    reveal_strlit("stat");
    reveal_strlit("pix?");
    reveal_strlit("line");
}

/// Notifications of different kinds carry different tags.
pub proof fn tags_tell_kinds_apart(a: Option<NoticeKind>, b: Option<NoticeKind>)
    requires
        notice_tag(a) == notice_tag(b),
    ensures
        a == b,
{
    tag_letters(a);
    tag_letters(b);
}

/// It is said after how many seconds listening stops, or that it is left to the
/// user where none are asked for.
pub proof fn stop_hint_tells_seconds(duration_secs: u64)
    ensures
        duration_secs == 0 ==> stop_hint(duration_secs) == "Ctrl-C to stop"@,
        duration_secs > 0 ==> ({
            let s = stop_hint(duration_secs);
            let head = "stopping in "@.len() as int;
            &&& s.len() > head
            &&& s.take(head) == "stopping in "@
            &&& s.last() == 's'
            &&& all_digits(s.subrange(head, s.len() - 1), 10)
            &&& digits_value(s.subrange(head, s.len() - 1), 10) == duration_secs
        }),
{
    if duration_secs > 0 {
        reveal_strlit("s");
        let s = stop_hint(duration_secs);
        let head = "stopping in "@.len() as int;
        decimal_digits(duration_secs as nat);
        assert(s.take(head) =~= "stopping in "@);
        assert(s.subrange(head, s.len() - 1) =~= decimal(duration_secs as nat));
    }
}

} // verus!
