//! Captured movies: their summary, their frames as files, their encoding.

use vstd::prelude::*;

use crate::error::{ErrorKind, Failure};
use crate::parse::{all_digits, decimal_digits, digits_value, zeros_in_front};
use crate::size::{human_size, humanize_bytes};
use crate::style::{ok_label, ok_tag};
use crate::text::{
    address, address_text, begins, decimal, decimal_text, ends, fill_left, filled, hex_literal,
    hex_literal_text, plural, plural_suffix, quote, quoted, same_text, texts,
};
use crate::transfer::{number_at, number_is_told};

verus! {

/// What the header of a movie file says.
#[derive(Debug)]
pub struct MovieHeader {
    /// The name of the format variant.
    pub variant: String,
    pub magic: u32,
    pub version: u32,
    pub header_size: u64,
    pub frame_width: u32,
    pub frame_height: u32,
    pub aligned_width: u32,
    pub aligned_height: u32,
    pub source_width: u32,
    pub source_height: u32,
    pub display_width: u32,
    pub display_height: u32,
    /// Ticks per second of the frames' timestamps.
    pub timestamp_rate: u32,
    /// Bytes of pixels per frame.
    pub pixel_bytes: u64,
}

/// What a frame's record says.
#[derive(Copy, Clone, Debug)]
pub struct FrameInfo {
    pub magic: u32,
    pub timestamp: u32,
    pub audio_bytes: u64,
    pub record_size: u64,
}

/// What is known of the frames walked so far.
#[derive(Copy, Clone, Debug)]
pub struct MovieSummary {
    pub frames: u64,
    pub audio_bytes: u64,
    pub first_timestamp: Option<u32>,
    pub last_timestamp: Option<u32>,
    pub first_record_size: Option<u64>,
    pub frame_magic: Option<u32>,
}

/// `w` by `h` pixels.
pub open spec fn dimensions(w: u32, h: u32) -> Seq<char> {
    decimal(w as nat) + "x"@ + decimal(h as nat)
}

fn dimensions_text(w: u32, h: u32) -> (r: String)
    ensures
        r@ == dimensions(w, h),
{
    let mut out = decimal_text(w as u64);
    out.append("x");
    let height = decimal_text(h as u64);
    out.append(height.as_str());
    out
}

/// The lines that describe a movie's header.
pub open spec fn header_report(h: MovieHeader) -> Seq<Seq<char>> {
    seq![
        "magic        "@ + h.variant@ + " ("@ + address(h.magic) + ")  version "@ + address(
            h.version,
        ) + "  header_size "@ + hex_literal(h.header_size as nat, 0),
        "frame        "@ + dimensions(h.frame_width, h.frame_height) + "  aligned "@ + dimensions(
            h.aligned_width,
            h.aligned_height,
        ) + "  (this drives pixel stride)"@,
        "source       "@ + dimensions(h.source_width, h.source_height) + "  display "@
            + dimensions(h.display_width, h.display_height),
        "tick rate    "@ + decimal(h.timestamp_rate as nat) + " ticks/s  yuv bytes/frame "@
            + decimal(h.pixel_bytes as nat),
    ]
}

/// Describes a movie's header.
pub fn header_lines(h: &MovieHeader) -> (r: Vec<String>)
    ensures
        texts(r@) == header_report(*h),
{
    let mut magic = "magic        ".to_owned();
    magic.append(h.variant.as_str());
    magic.append(" (");
    let code = address_text(h.magic);
    magic.append(code.as_str());
    magic.append(")  version ");
    let version = address_text(h.version);
    magic.append(version.as_str());
    magic.append("  header_size ");
    let size = hex_literal_text(h.header_size, 0);
    magic.append(size.as_str());

    let mut frame = "frame        ".to_owned();
    let plain = dimensions_text(h.frame_width, h.frame_height);
    frame.append(plain.as_str());
    frame.append("  aligned ");
    let aligned = dimensions_text(h.aligned_width, h.aligned_height);
    frame.append(aligned.as_str());
    frame.append("  (this drives pixel stride)");

    let mut source = "source       ".to_owned();
    let from = dimensions_text(h.source_width, h.source_height);
    source.append(from.as_str());
    source.append("  display ");
    let shown = dimensions_text(h.display_width, h.display_height);
    source.append(shown.as_str());

    let mut rate = "tick rate    ".to_owned();
    let ticks = decimal_text(h.timestamp_rate as u64);
    rate.append(ticks.as_str());
    rate.append(" ticks/s  yuv bytes/frame ");
    let bytes = decimal_text(h.pixel_bytes);
    rate.append(bytes.as_str());

    let out = vec![magic, frame, source, rate];
    assert(texts(out@) =~= header_report(*h));
    out
}

/// `o`, or `v` where there is nothing yet.
pub open spec fn first_of<T>(o: Option<T>, v: T) -> Option<T> {
    match o {
        Some(x) => Some(x),
        None => Some(v),
    }
}

impl MovieSummary {
    /// The summary of no frames.
    pub open spec fn empty() -> MovieSummary {
        MovieSummary {
            frames: 0,
            audio_bytes: 0,
            first_timestamp: None,
            last_timestamp: None,
            first_record_size: None,
            frame_magic: None,
        }
    }

    /// The summary with one more frame.
    pub open spec fn with(self, frame: FrameInfo) -> MovieSummary {
        MovieSummary {
            frames: (self.frames + 1) as u64,
            audio_bytes: (self.audio_bytes + frame.audio_bytes) as u64,
            first_timestamp: first_of(self.first_timestamp, frame.timestamp),
            last_timestamp: Some(frame.timestamp),
            first_record_size: first_of(self.first_record_size, frame.record_size),
            frame_magic: first_of(self.frame_magic, frame.magic),
        }
    }

    /// The ticks from the first frame to the last.
    pub open spec fn span(self) -> Option<u32> {
        match (self.first_timestamp, self.last_timestamp) {
            (Some(a), Some(b)) => Some(b.wrapping_sub(a)),
            _ => None,
        }
    }

    /// A summary of no frames.
    pub fn new() -> (r: MovieSummary)
        ensures
            r == MovieSummary::empty(),
    {
        MovieSummary {
            frames: 0,
            audio_bytes: 0,
            first_timestamp: None,
            last_timestamp: None,
            first_record_size: None,
            frame_magic: None,
        }
    }

    /// Takes one more frame in.
    pub fn add_frame(&mut self, frame: FrameInfo)
        requires
            old(self).frames < u64::MAX,
            old(self).audio_bytes + frame.audio_bytes <= u64::MAX,
        ensures
            *final(self) == old(self).with(frame),
    {
        self.frames = self.frames + 1;
        self.audio_bytes = self.audio_bytes + frame.audio_bytes;
        if self.first_timestamp.is_none() {
            self.first_timestamp = Some(frame.timestamp);
        }
        self.last_timestamp = Some(frame.timestamp);
        if self.first_record_size.is_none() {
            self.first_record_size = Some(frame.record_size);
        }
        if self.frame_magic.is_none() {
            self.frame_magic = Some(frame.magic);
        }
    }

    /// The ticks from the first frame to the last, where there are frames.
    pub fn ticks(&self) -> (r: Option<u32>)
        ensures
            r == self.span(),
    {
        match (self.first_timestamp, self.last_timestamp) {
            (Some(a), Some(b)) => Some(b.wrapping_sub(a)),
            _ => None,
        }
    }

    /// How many times one frame follows another.
    pub open spec fn interval_count(self) -> int {
        if self.frames == 0 {
            0
        } else {
            self.frames - 1
        }
    }

    /// How many times one frame follows another.
    pub fn intervals(&self) -> (r: u64)
        ensures
            r == self.interval_count(),
    {
        if self.frames == 0 {
            0
        } else {
            self.frames - 1
        }
    }
}

/// The summary of the given frames.
pub open spec fn summary_of(frames: Seq<FrameInfo>) -> MovieSummary
    decreases frames.len(),
{
    if frames.len() == 0 {
        MovieSummary::empty()
    } else {
        summary_of(frames.drop_last()).with(frames.last())
    }
}

/// The bytes of audio in all.
pub open spec fn audio_total(frames: Seq<FrameInfo>) -> nat
    decreases frames.len(),
{
    if frames.len() == 0 {
        0
    } else {
        audio_total(frames.drop_last()) + frames.last().audio_bytes as nat
    }
}

/// A summary counts the frames, adds their audio up, and keeps the first
/// frame's timestamp, size and magic and the last frame's timestamp.
pub proof fn summary_describes_frames(frames: Seq<FrameInfo>)
    requires
        frames.len() <= u64::MAX,
        audio_total(frames) <= u64::MAX,
    ensures
        ({
            let s = summary_of(frames);
            &&& s.frames == frames.len()
            &&& s.audio_bytes == audio_total(frames)
            &&& frames.len() == 0 ==> s == MovieSummary::empty()
            &&& frames.len() > 0 ==> s.first_timestamp == Some(frames.first().timestamp)
                && s.last_timestamp == Some(frames.last().timestamp) && s.first_record_size
                == Some(frames.first().record_size) && s.frame_magic == Some(frames.first().magic)
                && s.span() == Some(frames.last().timestamp.wrapping_sub(frames.first().timestamp))
        }),
    decreases frames.len(),
{
    if frames.len() > 0 {
        let front = frames.drop_last();
        summary_describes_frames(front);
        if front.len() > 0 {
            assert(front.first() == frames.first());
        }
    }
}

/// One line, or none.
pub open spec fn maybe_line(o: Option<Seq<char>>) -> Seq<Seq<char>> {
    match o {
        Some(s) => seq![s],
        None => Seq::empty(),
    }
}

/// The lines that sum the frames up; `seconds` and `fps` are what the span
/// amounts to.
pub open spec fn frame_report(
    s: MovieSummary,
    seconds: Seq<char>,
    fps: Seq<char>,
) -> Seq<Seq<char>> {
    let magic = match s.frame_magic {
        Some(m) => Some("frame magic  "@ + address(m)),
        None => None,
    };
    let times = match (s.first_timestamp, s.last_timestamp) {
        (Some(a), Some(b)) => Some(
            "timestamps   "@ + decimal(a as nat) + " -> "@ + decimal(b as nat) + " (span "@
                + decimal(b.wrapping_sub(a) as nat) + ", "@ + seconds + "s, "@ + fps + " fps)"@,
        ),
        _ => None,
    };
    let size = match s.first_record_size {
        Some(n) => Some("first record "@ + decimal(n as nat) + " bytes"@),
        None => None,
    };
    seq!["frames       "@ + decimal(s.frames as nat)] + maybe_line(magic) + maybe_line(times)
        + seq!["audio bytes  "@ + decimal(s.audio_bytes as nat)] + maybe_line(size)
}

/// Sums the frames of a movie up.
pub fn frame_lines(s: &MovieSummary, seconds: &str, fps: &str) -> (r: Vec<String>)
    ensures
        texts(r@) == frame_report(*s, seconds@, fps@),
{
    let mut out: Vec<String> = Vec::new();
    let mut count = "frames       ".to_owned();
    let n = decimal_text(s.frames);
    count.append(n.as_str());
    out.push(count);
    let ghost mut told: Seq<Seq<char>> = seq![count@];
    assert(texts(out@) =~= told);
    if let Some(m) = s.frame_magic {
        let mut line = "frame magic  ".to_owned();
        let code = address_text(m);
        line.append(code.as_str());
        out.push(line);
        proof {
            told = told + seq![line@];
        }
        assert(texts(out@) =~= told);
    } else {
        proof {
            told = told + Seq::<Seq<char>>::empty();
        }
        assert(texts(out@) =~= told);
    }
    match (s.first_timestamp, s.last_timestamp) {
        (Some(a), Some(b)) => {
            let mut line = "timestamps   ".to_owned();
            let from = decimal_text(a as u64);
            line.append(from.as_str());
            line.append(" -> ");
            let to = decimal_text(b as u64);
            line.append(to.as_str());
            line.append(" (span ");
            let ticks = decimal_text(b.wrapping_sub(a) as u64);
            line.append(ticks.as_str());
            line.append(", ");
            line.append(seconds);
            line.append("s, ");
            line.append(fps);
            line.append(" fps)");
            out.push(line);
            proof {
                told = told + seq![line@];
            }
            assert(texts(out@) =~= told);
        },
        _ => {
            proof {
                told = told + Seq::<Seq<char>>::empty();
            }
            assert(texts(out@) =~= told);
        },
    }
    let mut audio = "audio bytes  ".to_owned();
    let bytes = decimal_text(s.audio_bytes);
    audio.append(bytes.as_str());
    out.push(audio);
    proof {
        told = told + seq![audio@];
    }
    assert(texts(out@) =~= told);
    if let Some(size) = s.first_record_size {
        let mut line = "first record ".to_owned();
        let n = decimal_text(size);
        line.append(n.as_str());
        line.append(" bytes");
        out.push(line);
        proof {
            told = told + seq![line@];
        }
        assert(texts(out@) =~= told);
    } else {
        proof {
            told = told + Seq::<Seq<char>>::empty();
        }
        assert(texts(out@) =~= told);
    }
    out
}

/// From the first of the timestamps to the last: how many intervals, and how
/// many ticks. `None` where no rate can be told from them.
pub open spec fn rate_of(timestamps: Seq<u32>) -> Option<(nat, u32)> {
    if timestamps.len() < 2 {
        None
    } else {
        let span = timestamps.last().wrapping_sub(timestamps.first());
        if span > 0 {
            Some(((timestamps.len() - 1) as nat, span))
        } else {
            None
        }
    }
}

/// The intervals and the ticks from which a movie's frame rate is told.
pub fn frame_rate_parts(timestamps: &Vec<u32>) -> (r: Option<(usize, u32)>)
    ensures
        match rate_of(timestamps@) {
            Some((n, span)) => r matches Some((m, t)) && m == n && t == span,
            None => r is None,
        },
{
    if timestamps.len() < 2 {
        return None;
    }
    let last: usize = timestamps.len() - 1;
    let span: u32 = timestamps[last].wrapping_sub(timestamps[0]);
    if span > 0 {
        Some((last, span))
    } else {
        None
    }
}

/// Where an encoding takes its frame rate from.
#[derive(Copy, Clone, Debug, PartialEq, Eq, Structural)]
pub enum RateSource {
    /// The rate asked for.
    Asked,
    /// So many intervals in so many ticks.
    Derived { intervals: usize, ticks: u32 },
    /// Nothing tells: thirty frames a second.
    Fallback,
}

/// A rate that was asked for, else the rate that the timestamps amount to,
/// unless that is none.
pub open spec fn rate_taken_from(
    asked: bool,
    timestamps: Seq<u32>,
    timestamp_rate: u32,
) -> RateSource {
    if asked {
        RateSource::Asked
    } else {
        match rate_of(timestamps) {
            Some((n, span)) => if timestamp_rate > 0 {
                (RateSource::Derived { intervals: n as usize, ticks: span })
            } else {
                RateSource::Fallback
            },
            None => RateSource::Fallback,
        }
    }
}

/// Where an encoding takes its frame rate from: a rate that was asked for, else
/// the rate that the timestamps amount to, unless that is none.
pub fn rate_source(asked: bool, timestamps: &Vec<u32>, timestamp_rate: u32) -> (r: RateSource)
    ensures
        r == rate_taken_from(asked, timestamps@, timestamp_rate),
{
    if asked {
        return RateSource::Asked;
    }
    match frame_rate_parts(timestamps) {
        Some((intervals, ticks)) => if timestamp_rate > 0 {
            RateSource::Derived { intervals, ticks }
        } else {
            RateSource::Fallback
        },
        None => RateSource::Fallback,
    }
}

/// A rate can be told exactly where there are two frames or more and the last
/// does not carry the first one's timestamp. There is one interval less than
/// frames, and the ticks lead from the first timestamp to the last, around the
/// clock of 32 bits.
pub proof fn rate_spans_all_frames(timestamps: Seq<u32>)
    ensures
        match rate_of(timestamps) {
            Some((n, ticks)) => {
                &&& timestamps.len() >= 2
                &&& n + 1 == timestamps.len()
                &&& ticks > 0
                &&& (timestamps[0] + ticks) % 0x1_0000_0000 == timestamps[timestamps.len() - 1]
            },
            None => timestamps.len() < 2 || timestamps[0] == timestamps[timestamps.len() - 1],
        },
{
}

/// Every frame that is appended adds one interval.
pub proof fn one_more_frame_one_more_interval(timestamps: Seq<u32>, next: u32)
    requires
        rate_of(timestamps) is Some,
        rate_of(timestamps.push(next)) is Some,
    ensures
        ({
            let (before, _) = rate_of(timestamps)->0;
            let (after, _) = rate_of(timestamps.push(next))->0;
            after == before + 1
        }),
{
}

/// Frames that follow each other after the same number of ticks are played at
/// that pace: so many intervals take so many times those ticks.
pub proof fn steady_frames_keep_their_pace(timestamps: Seq<u32>, step: nat)
    requires
        timestamps.len() >= 2,
        step > 0,
        forall|k: int|
            0 <= k < timestamps.len() - 1 ==> #[trigger] timestamps[k] + step == timestamps[k + 1],
    ensures
        rate_of(timestamps) matches Some((n, ticks)) && ticks == n * step && n
            == timestamps.len() - 1,
{
    steady_frames_rise(timestamps, step, timestamps.len() - 1);
    let n = timestamps.len() - 1;
    assert(n * step > 0) by (nonlinear_arith)
        requires
            n > 0,
            step > 0,
    ;
}

proof fn steady_frames_rise(timestamps: Seq<u32>, step: nat, upto: int)
    requires
        0 <= upto < timestamps.len(),
        forall|k: int|
            0 <= k < timestamps.len() - 1 ==> #[trigger] timestamps[k] + step == timestamps[k + 1],
    ensures
        timestamps[upto] == timestamps[0] + upto * step,
    decreases upto,
{
    if upto > 0 {
        steady_frames_rise(timestamps, step, upto - 1);
        assert(timestamps[upto - 1] + step == timestamps[upto]);
        assert(upto * step == (upto - 1) * step + step) by (nonlinear_arith);
    } else {
        assert(0 * step == 0) by (nonlinear_arith);
    }
}

/// A rate that is asked for is taken. Else the timestamps of all frames tell
/// it, where there are two of them that differ, first and last, and the movie
/// says how long a tick is.
pub proof fn rate_is_told_by_all_frames(
    asked: bool,
    timestamps: Seq<u32>,
    timestamp_rate: u32,
)
    requires
        timestamps.len() <= usize::MAX,
    ensures
        match rate_taken_from(asked, timestamps, timestamp_rate) {
            RateSource::Asked => asked,
            RateSource::Derived { intervals, ticks } => {
                &&& !asked
                &&& timestamp_rate > 0
                &&& intervals >= 1
                &&& intervals + 1 == timestamps.len()
                &&& ticks > 0
                &&& (timestamps[0] + ticks) % 0x1_0000_0000 == timestamps[intervals as int]
            },
            RateSource::Fallback => {
                &&& !asked
                &&& timestamp_rate == 0 || timestamps.len() < 2 || timestamps[0]
                    == timestamps[timestamps.len() - 1]
            },
        },
{
    rate_spans_all_frames(timestamps);
}

/// The file extension of extracted frames.
pub open spec fn frame_ext(raw: bool) -> Seq<char> {
    if raw {
        "tiled"@
    } else {
        "nv12"@
    }
}

fn frame_extension(raw: bool) -> (r: &'static str)
    ensures
        r@ == frame_ext(raw),
{
    if raw {
        "tiled"
    } else {
        "nv12"
    }
}

/// The file of the `index`th frame.
pub open spec fn frame_path(dir: Seq<char>, index: nat, raw: bool) -> Seq<char> {
    dir + "/frame-"@ + filled(decimal(index), 5, '0') + "."@ + frame_ext(raw)
}

/// The file of one frame.
pub fn frame_file(dir: &str, index: u32, raw: bool) -> (r: String)
    ensures
        r@ == frame_path(dir@, index as nat, raw),
{
    let mut out = dir.to_owned();
    out.append("/frame-");
    let digits = decimal_text(index as u64);
    let number = fill_left(digits.as_str(), 5, '0');
    out.append(number.as_str());
    out.append(".");
    out.append(frame_extension(raw));
    out
}

/// Two frames never share a file.
pub proof fn frame_paths_differ(dir: Seq<char>, i: nat, j: nat, raw: bool)
    requires
        frame_path(dir, i, raw) == frame_path(dir, j, raw),
    ensures
        i == j,
{
    let a = filled(decimal(i), 5, '0');
    let b = filled(decimal(j), 5, '0');
    let p = frame_path(dir, i, raw);
    let q = frame_path(dir, j, raw);
    decimal_digits(i);
    decimal_digits(j);
    zeros_in_front(decimal(i), 5, 10);
    zeros_in_front(decimal(j), 5, 10);
    let head: int = dir.len() + "/frame-"@.len() as int;
    let tail = "."@.len() + frame_ext(raw).len();
    assert(p.len() == head + a.len() + tail);
    assert(q.len() == head + b.len() + tail);
    assert(p.subrange(head, head + a.len()) =~= a);
    assert(q.subrange(head, head + b.len()) =~= b);
    assert(digits_value(a, 10) == i);
    assert(digits_value(b, 10) == j);
}

/// The file that holds all frames one after the other, where it is wanted.
pub fn concat_file(dir: &str, concat: bool, raw: bool) -> (r: Option<String>)
    ensures
        r is Some <==> concat,
        r matches Some(path) ==> path@ == dir@ + "/frames."@ + frame_ext(raw),
{
    if concat {
        let mut out = dir.to_owned();
        out.append("/frames.");
        out.append(frame_extension(raw));
        Some(out)
    } else {
        None
    }
}

/// The file that describes the extracted frames.
pub fn metadata_file(dir: &str) -> (r: String)
    ensures
        r@ == dir@ + "/metadata.txt"@,
{
    let mut out = dir.to_owned();
    out.append("/metadata.txt");
    out
}

/// How extracted pixels are laid out.
pub open spec fn layout_name(raw: bool) -> Seq<char> {
    if raw {
        "tiled Xbox 360 16-wide-column NV12 (raw on-device layout)"@
    } else {
        "nv12 (Y plane, then interleaved UV plane; detiled from on-device layout)"@
    }
}

/// The pixel format to give to ffmpeg.
pub open spec fn pixel_format(raw: bool) -> Seq<char> {
    if raw {
        "nv12  # WILL NOT RENDER -- re-run without --raw"@
    } else {
        "nv12"@
    }
}

/// What is written down about extracted frames. `fps` is their rate, and
/// `rate` the same as a whole number.
pub open spec fn metadata(
    file: Seq<char>,
    h: MovieHeader,
    raw: bool,
    frames: nat,
    fps: Seq<char>,
    rate: u32,
) -> Seq<char> {
    "# xbmovie .xbm frame dump\nsource: "@ + file + "\nmagic: "@ + h.variant@ + "\nframe_width: "@
        + decimal(h.frame_width as nat) + "\nframe_height: "@ + decimal(h.frame_height as nat)
        + "\naligned_width: "@ + decimal(h.aligned_width as nat) + "\naligned_height: "@ + decimal(
        h.aligned_height as nat,
    ) + "\nvisible_crop: "@ + dimensions(h.source_width, h.source_height) + "\npixel_format: "@
        + layout_name(raw) + "\nframe_count: "@ + decimal(frames) + "\napprox_fps: "@ + fps
        + "\n\n# Reconstruct (crops off the 32-alignment padding):\n# ffmpeg -f rawvideo -pix_fmt "@
        + pixel_format(raw) + " -s "@ + dimensions(h.aligned_width, h.aligned_height) + " -r "@
        + decimal(rate as nat) + " \\\n#   -i frames."@ + frame_ext(raw) + " -vf crop="@ + decimal(
        h.frame_width as nat,
    ) + ":"@ + decimal(h.frame_height as nat)
        + ":0:0 \\\n#   -c:v libx264 -pix_fmt yuv420p out.mp4\n"@
}

/// Describes extracted frames.
pub fn metadata_text(
    file: &str,
    h: &MovieHeader,
    raw: bool,
    frames: usize,
    fps: &str,
    rate: u32,
) -> (r: String)
    ensures
        r@ == metadata(file@, *h, raw, frames as nat, fps@, rate),
{
    let width = decimal_text(h.frame_width as u64);
    let height = decimal_text(h.frame_height as u64);
    let aligned_width = decimal_text(h.aligned_width as u64);
    let aligned_height = decimal_text(h.aligned_height as u64);
    let source = dimensions_text(h.source_width, h.source_height);
    let aligned = dimensions_text(h.aligned_width, h.aligned_height);
    let count = decimal_text(frames as u64);
    let whole = decimal_text(rate as u64);
    let layout = if raw {
        "tiled Xbox 360 16-wide-column NV12 (raw on-device layout)"
    } else {
        "nv12 (Y plane, then interleaved UV plane; detiled from on-device layout)"
    };
    let format = if raw {
        "nv12  # WILL NOT RENDER -- re-run without --raw"
    } else {
        "nv12"
    };
    let mut out = "# xbmovie .xbm frame dump\nsource: ".to_owned();
    out.append(file);
    out.append("\nmagic: ");
    out.append(h.variant.as_str());
    out.append("\nframe_width: ");
    out.append(width.as_str());
    out.append("\nframe_height: ");
    out.append(height.as_str());
    out.append("\naligned_width: ");
    out.append(aligned_width.as_str());
    out.append("\naligned_height: ");
    out.append(aligned_height.as_str());
    out.append("\nvisible_crop: ");
    out.append(source.as_str());
    out.append("\npixel_format: ");
    out.append(layout);
    out.append("\nframe_count: ");
    out.append(count.as_str());
    out.append("\napprox_fps: ");
    out.append(fps);
    out.append(
        "\n\n# Reconstruct (crops off the 32-alignment padding):\n# ffmpeg -f rawvideo -pix_fmt ",
    );
    out.append(format);
    out.append(" -s ");
    out.append(aligned.as_str());
    out.append(" -r ");
    out.append(whole.as_str());
    out.append(" \\\n#   -i frames.");
    out.append(frame_extension(raw));
    out.append(" -vf crop=");
    out.append(width.as_str());
    out.append(":");
    out.append(height.as_str());
    out.append(":0:0 \\\n#   -c:v libx264 -pix_fmt yuv420p out.mp4\n");
    out
}

/// The lines about an extraction.
pub open spec fn extraction_report(
    frames: nat,
    pixel_bytes: nat,
    dir: Seq<char>,
    concat_path: Option<Seq<char>>,
    meta_path: Seq<char>,
    colors: bool,
) -> Seq<Seq<char>> {
    seq![
        ok_label("done"@, colors) + " extracted "@ + decimal(frames) + " frame"@ + plural(frames)
            + " ("@ + human_size(pixel_bytes) + " pixel bytes each) -> "@ + dir,
    ] + maybe_line(
        match concat_path {
            Some(p) => Some(ok_label("done"@, colors) + " concatenated stream -> "@ + p),
            None => None,
        },
    ) + seq![ok_label("done"@, colors) + " metadata -> "@ + meta_path]
}

/// Says what was extracted.
pub fn extracted_lines(
    frames: u32,
    pixel_bytes: u64,
    dir: &str,
    concat_path: Option<&str>,
    meta_path: &str,
    colors: bool,
) -> (r: Vec<String>)
    ensures
        texts(r@) == extraction_report(
            frames as nat,
            pixel_bytes as nat,
            dir@,
            match concat_path {
                Some(p) => Some(p@),
                None => None,
            },
            meta_path@,
            colors,
        ),
{
    let mut out: Vec<String> = Vec::new();
    let mut done = ok_tag("done", colors);
    done.append(" extracted ");
    let count = decimal_text(frames as u64);
    done.append(count.as_str());
    done.append(" frame");
    done.append(plural_suffix(frames as u64));
    done.append(" (");
    let size = humanize_bytes(pixel_bytes);
    done.append(size.as_str());
    done.append(" pixel bytes each) -> ");
    done.append(dir);
    out.push(done);
    let ghost mut told: Seq<Seq<char>> = seq![done@];
    assert(texts(out@) =~= told);
    match concat_path {
        Some(path) => {
            let mut line = ok_tag("done", colors);
            line.append(" concatenated stream -> ");
            line.append(path);
            out.push(line);
            proof {
                told = told + seq![line@];
            }
            assert(texts(out@) =~= told);
        },
        None => {
            proof {
                told = told + Seq::<Seq<char>>::empty();
            }
            assert(texts(out@) =~= told);
        },
    }
    let mut meta = ok_tag("done", colors);
    meta.append(" metadata -> ");
    meta.append(meta_path);
    out.push(meta);
    proof {
        told = told + seq![meta@];
    }
    assert(texts(out@) =~= told);
    out
}

/// The size that a crop mode leaves of a movie's frames.
pub open spec fn crop_of(mode: Seq<char>, h: MovieHeader) -> Option<(u32, u32)> {
    if mode == "frame"@ {
        Some((h.frame_width, h.frame_height))
    } else if mode == "source"@ {
        Some((h.source_width, h.source_height))
    } else if mode == "none"@ {
        Some((h.aligned_width, h.aligned_height))
    } else {
        None
    }
}

/// The size that a crop mode leaves, or the failure to name such a mode.
pub fn crop_size(mode: &str, h: &MovieHeader) -> (r: Result<(u32, u32), Failure>)
    ensures
        match crop_of(mode@, *h) {
            Some(size) => r == Ok::<(u32, u32), Failure>(size),
            None => r matches Err(f) && f.reports(
                ErrorKind::EmptyFilename,
                Some("--crop must be one of `frame`, `source`, `none`; got "@ + quoted(mode@)),
            ),
        },
{
    if same_text(mode, "frame") {
        Ok((h.frame_width, h.frame_height))
    } else if same_text(mode, "source") {
        Ok((h.source_width, h.source_height))
    } else if same_text(mode, "none") {
        Ok((h.aligned_width, h.aligned_height))
    } else {
        let mut note = "--crop must be one of `frame`, `source`, `none`; got ".to_owned();
        let word = quote(mode);
        note.append(word.as_str());
        Err(Failure::noted(ErrorKind::EmptyFilename, note))
    }
}

/// A movie without frames cannot be encoded.
pub fn require_frames(frames: usize) -> (r: Result<(), Failure>)
    ensures
        r is Ok <==> frames > 0,
        r matches Err(f) ==> f.reports(
            ErrorKind::EmptyFilename,
            Some("xbm contains no frame records"@),
        ),
{
    if frames == 0 {
        Err(
            Failure::noted(
                ErrorKind::EmptyFilename,
                "xbm contains no frame records".to_owned(),
            ),
        )
    } else {
        Ok(())
    }
}

/// The arguments for ffmpeg: raw frames of the aligned size on its standard
/// input, cropped, encoded at the given quality, written over `output`.
pub open spec fn encoder_arguments(
    h: MovieHeader,
    framerate: Seq<char>,
    crop: (u32, u32),
    crf: u32,
    extra: Seq<Seq<char>>,
    output: Seq<char>,
) -> Seq<Seq<char>> {
    seq![
        "-hide_banner"@,
        "-loglevel"@,
        "error"@,
        "-stats"@,
        "-f"@,
        "rawvideo"@,
        "-pix_fmt"@,
        "nv12"@,
        "-s"@,
        dimensions(h.aligned_width, h.aligned_height),
        "-framerate"@,
        framerate,
        "-i"@,
        "-"@,
        "-vf"@,
        "crop="@ + decimal(crop.0 as nat) + ":"@ + decimal(crop.1 as nat) + ":0:0"@,
        "-c:v"@,
        "libx264"@,
        "-crf"@,
        decimal(crf as nat),
        "-pix_fmt"@,
        "yuv420p"@,
    ] + extra + seq!["-y"@, output]
}

/// Extra arguments reach ffmpeg as they are, in their order, right before the
/// output file, which comes last.
pub proof fn extra_arguments_precede_output(
    h: MovieHeader,
    framerate: Seq<char>,
    crop: (u32, u32),
    crf: u32,
    extra: Seq<Seq<char>>,
    output: Seq<char>,
)
    ensures
        ({
            let args = encoder_arguments(h, framerate, crop, crf, extra, output);
            let n = args.len();
            &&& n >= extra.len() + 2
            &&& args.subrange(n - 2 - extra.len(), n - 2) == extra
            &&& args[n - 2] == "-y"@
            &&& args[n - 1] == output
        }),
{
    let args = encoder_arguments(h, framerate, crop, crf, extra, output);
    assert(args.subrange(args.len() - 2 - extra.len(), args.len() - 2) =~= extra);
}

fn fixed_arguments(h: &MovieHeader, framerate: &str, crop: (u32, u32), crf: u32) -> (r: Vec<String>)
    ensures
        texts(r@) == encoder_arguments(*h, framerate@, crop, crf, Seq::empty(), Seq::empty()).take(
            22,
        ),
{
    let size = dimensions_text(h.aligned_width, h.aligned_height);
    let mut filter = "crop=".to_owned();
    let width = decimal_text(crop.0 as u64);
    filter.append(width.as_str());
    filter.append(":");
    let height = decimal_text(crop.1 as u64);
    filter.append(height.as_str());
    filter.append(":0:0");
    let quality = decimal_text(crf as u64);
    let out = vec![
        "-hide_banner".to_owned(),
        "-loglevel".to_owned(),
        "error".to_owned(),
        "-stats".to_owned(),
        "-f".to_owned(),
        "rawvideo".to_owned(),
        "-pix_fmt".to_owned(),
        "nv12".to_owned(),
        "-s".to_owned(),
        size,
        "-framerate".to_owned(),
        framerate.to_owned(),
        "-i".to_owned(),
        "-".to_owned(),
        "-vf".to_owned(),
        filter,
        "-c:v".to_owned(),
        "libx264".to_owned(),
        "-crf".to_owned(),
        quality,
        "-pix_fmt".to_owned(),
        "yuv420p".to_owned(),
    ];
    assert(texts(out@) =~= encoder_arguments(
        *h,
        framerate@,
        crop,
        crf,
        Seq::empty(),
        Seq::empty(),
    ).take(22));
    out
}

/// The arguments for ffmpeg.
pub fn ffmpeg_args(
    h: &MovieHeader,
    framerate: &str,
    crop: (u32, u32),
    crf: u32,
    extra: &Vec<String>,
    output: &str,
) -> (r: Vec<String>)
    ensures
        texts(r@) == encoder_arguments(*h, framerate@, crop, crf, texts(extra@), output@),
{
    let ghost all = encoder_arguments(*h, framerate@, crop, crf, texts(extra@), output@);
    let mut out = fixed_arguments(h, framerate, crop, crf);
    assert(texts(out@) =~= all.take(22));
    for i in 0..extra.len()
        invariant
            all == encoder_arguments(*h, framerate@, crop, crf, texts(extra@), output@),
            texts(out@) == all.take(22 + i),
    {
        let ghost before = out@;
        out.push(extra[i].clone());
        assert(texts(out@) =~= texts(before).push(extra@[i as int]@));
        assert(all[22 + i] == texts(extra@)[i as int]);
        assert(texts(out@) =~= all.take(22 + i + 1));
    }
    let ghost before = out@;
    out.push("-y".to_owned());
    out.push(output.to_owned());
    assert(texts(out@) =~= texts(before).push("-y"@).push(output@));
    assert(texts(out@) =~= all);
    out
}

/// The line about an encoding.
pub open spec fn encoding_line(
    h: MovieHeader,
    frames: nat,
    crop: (u32, u32),
    fps: Seq<char>,
    output: Seq<char>,
    colors: bool,
) -> Seq<char> {
    ok_label("encoding"@, colors) + " encoding "@ + decimal(frames) + " frames at "@ + dimensions(
        h.aligned_width,
        h.aligned_height,
    ) + " -> "@ + dimensions(crop.0, crop.1) + " @ "@ + fps + " fps -> "@ + output
}

/// Announces an encoding; `fps` is the rate shown.
pub fn encoding_text(
    h: &MovieHeader,
    frames: usize,
    crop: (u32, u32),
    fps: &str,
    output: &str,
    colors: bool,
) -> (r: String)
    ensures
        r@ == encoding_line(*h, frames as nat, crop, fps@, output@, colors),
{
    let mut m = ok_tag("encoding", colors);
    m.append(" encoding ");
    let count = decimal_text(frames as u64);
    m.append(count.as_str());
    m.append(" frames at ");
    let aligned = dimensions_text(h.aligned_width, h.aligned_height);
    m.append(aligned.as_str());
    m.append(" -> ");
    let cropped = dimensions_text(crop.0, crop.1);
    m.append(cropped.as_str());
    m.append(" @ ");
    m.append(fps);
    m.append(" fps -> ");
    m.append(output);
    m
}

/// What an encoding came to: a message where ffmpeg succeeded, else a failure
/// that names its exit status.
pub fn encode_outcome(success: bool, status: &str, output: &str, colors: bool) -> (r: Result<
    String,
    Failure,
>)
    ensures
        match r {
            Ok(m) => success && m@ == ok_label("done"@, colors) + " wrote "@ + output@,
            Err(f) => !success && f.reports(
                ErrorKind::EmptyFilename,
                Some("ffmpeg exited with "@ + status@),
            ),
        },
{
    if success {
        let mut m = ok_tag("done", colors);
        m.append(" wrote ");
        m.append(output);
        Ok(m)
    } else {
        let mut note = "ffmpeg exited with ".to_owned();
        note.append(status);
        Err(Failure::noted(ErrorKind::EmptyFilename, note))
    }
}

/// Fails where ffmpeg could not be run.
pub fn require_ffmpeg(found: bool) -> (r: Result<(), Failure>)
    ensures
        r is Ok <==> found,
        r matches Err(f) ==> f.reports(
            ErrorKind::EmptyFilename,
            Some(
                "ffmpeg not found on $PATH. Install it (`nix-shell -p ffmpeg`, `brew install ffmpeg`, etc.) and retry. The `xbm encode` subcommand streams decoded NV12 frames to ffmpeg's stdin."@,
            ),
        ),
{
    if found {
        Ok(())
    } else {
        Err(
            Failure::noted(
                ErrorKind::EmptyFilename,
                "ffmpeg not found on $PATH. Install it (`nix-shell -p ffmpeg`, `brew install ffmpeg`, etc.) and retry. The `xbm encode` subcommand streams decoded NV12 frames to ffmpeg's stdin.".to_owned(),
            ),
        )
    }
}

/// The first frame has none before it; from then on every frame that is taken in
/// adds one interval.
pub proof fn frames_have_intervals_between(s: MovieSummary, frame: FrameInfo)
    requires
        s.frames < u64::MAX,
    ensures
        MovieSummary::empty().interval_count() == 0,
        s.frames == 0 ==> s.with(frame).interval_count() == 0,
        s.frames > 0 ==> s.with(frame).interval_count() == s.interval_count() + 1,
        s.frames > 0 ==> s.interval_count() + 1 == s.frames,
{
}

/// The line is the label and decimal digits that stand for the number.
pub open spec fn tells(line: Seq<char>, label: Seq<char>, n: nat) -> bool {
    &&& line.len() > label.len()
    &&& begins(line, label)
    &&& all_digits(line.skip(label.len() as int), 10)
    &&& digits_value(line.skip(label.len() as int), 10) == n
}

proof fn label_and_number(label: Seq<char>, n: nat)
    ensures
        tells(label + decimal(n), label, n),
{
    decimal_digits(n);
    let line = label + decimal(n);
    assert(line.take(label.len() as int) =~= label);
    assert(line.skip(label.len() as int) =~= decimal(n));
}

/// The sum of a movie's frames tells first how many there are, then, where there
/// are any, the magic and the first and the last timestamp with the ticks
/// between them, then the bytes of audio, and the size of the first record.
pub proof fn frame_report_tells_all(s: MovieSummary, seconds: Seq<char>, fps: Seq<char>)
    ensures
        ({
            let lines = frame_report(s, seconds, fps);
            let magic: int = if s.frame_magic is Some {
                1
            } else {
                0
            };
            let times: int = if s.first_timestamp is Some && s.last_timestamp is Some {
                1
            } else {
                0
            };
            let size: int = if s.first_record_size is Some {
                1
            } else {
                0
            };
            &&& lines.len() == 2 + magic + times + size
            &&& tells(lines[0], "frames       "@, s.frames as nat)
            &&& s.frame_magic matches Some(m) ==> lines[1] == "frame magic  "@ + address(m)
            &&& (s.first_timestamp matches Some(a) && s.last_timestamp matches Some(b) && lines[1
                + magic] == "timestamps   "@ + decimal(a as nat) + " -> "@ + decimal(b as nat)
                + " (span "@ + decimal(((b - a) % 0x1_0000_0000) as nat) + ", "@ + seconds + "s, "@
                + fps + " fps)"@) || times == 0
            &&& tells(lines[1 + magic + times], "audio bytes  "@, s.audio_bytes as nat)
            &&& s.first_record_size matches Some(n) ==> lines[2 + magic + times]
                == "first record "@ + decimal(n as nat) + " bytes"@
        }),
{
    label_and_number("frames       "@, s.frames as nat);
    label_and_number("audio bytes  "@, s.audio_bytes as nat);
    if let (Some(a), Some(b)) = (s.first_timestamp, s.last_timestamp) {
        assert(b.wrapping_sub(a) == (b - a) % 0x1_0000_0000);
    }
}

/// The name of a frame's file ends, in front of its extension, in the digits of
/// the frame's number, five of them at least, behind `frame-`.
pub proof fn frame_file_tells_its_number(dir: Seq<char>, index: nat, raw: bool)
    ensures
        ({
            let path = frame_path(dir, index, raw);
            let head = dir + "/frame-"@;
            let tail = if raw {
                ".tiled"@
            } else {
                ".nv12"@
            };
            let digits = path.subrange(head.len() as int, path.len() - tail.len());
            &&& begins(path, head)
            &&& ends(path, tail)
            &&& path.len() >= head.len() + 5 + tail.len()
            &&& all_digits(digits, 10)
            &&& digits_value(digits, 10) == index
        }),
{
    reveal_strlit(".");
    reveal_strlit("tiled");
    reveal_strlit(".tiled");
    reveal_strlit("nv12");
    reveal_strlit(".nv12");
    let path = frame_path(dir, index, raw);
    let head = dir + "/frame-"@;
    let tail = "."@ + frame_ext(raw);
    assert("."@ + "tiled"@ =~= ".tiled"@);
    assert("."@ + "nv12"@ =~= ".nv12"@);
    let number = filled(decimal(index), 5, '0');
    decimal_digits(index);
    zeros_in_front(decimal(index), 5, 10);
    assert(path.take(head.len() as int) =~= head);
    assert(path.skip(path.len() - tail.len()) =~= tail);
    assert(path.subrange(head.len() as int, path.len() - tail.len()) =~= number);
}

/// What each mode leaves: `frame` the size of the frames, `source` that of what
/// was captured, `none` all that is stored. There is no other mode.
pub proof fn crop_modes(mode: Seq<char>, h: MovieHeader)
    ensures
        mode == "frame"@ ==> crop_of(mode, h) == Some((h.frame_width, h.frame_height)),
        mode == "source"@ ==> crop_of(mode, h) == Some((h.source_width, h.source_height)),
        mode == "none"@ ==> crop_of(mode, h) == Some((h.aligned_width, h.aligned_height)),
        crop_of(mode, h) is Some <==> mode == "frame"@ || mode == "source"@ || mode == "none"@,
{
    reveal_strlit("frame");
    reveal_strlit("source");
    reveal_strlit("none");
    assert("frame"@.len() == 5 && "source"@.len() == 6 && "none"@.len() == 4);
}

/// Among the arguments, right behind the option stands the value.
pub open spec fn passes(args: Seq<Seq<char>>, option: Seq<char>, value: Seq<char>) -> bool {
    exists|i: int| 0 <= i < args.len() - 1 && #[trigger] args[i] == option && args[i + 1] == value
}

/// ffmpeg reads raw frames of the size in which they are stored from its standard
/// input, at the rate given, cuts them to the size given from the upper left
/// corner, and encodes them at the quality given.
pub proof fn encoder_is_told_what_to_do(
    h: MovieHeader,
    framerate: Seq<char>,
    crop: (u32, u32),
    crf: u32,
    extra: Seq<Seq<char>>,
    output: Seq<char>,
)
    ensures
        ({
            let args = encoder_arguments(h, framerate, crop, crf, extra, output);
            let (width, height) = crop;
            &&& args.len() == 24 + extra.len()
            &&& args[0] == "-hide_banner"@
            &&& passes(args, "-loglevel"@, "error"@)
            &&& args[3] == "-stats"@
            &&& passes(args, "-f"@, "rawvideo"@)
            &&& passes(args, "-pix_fmt"@, "nv12"@)
            &&& passes(
                args,
                "-s"@,
                decimal(h.aligned_width as nat) + "x"@ + decimal(h.aligned_height as nat),
            )
            &&& passes(args, "-framerate"@, framerate)
            &&& passes(args, "-i"@, "-"@)
            &&& passes(
                args,
                "-vf"@,
                "crop="@ + decimal(width as nat) + ":"@ + decimal(height as nat) + ":0:0"@,
            )
            &&& passes(args, "-c:v"@, "libx264"@)
            &&& passes(args, "-crf"@, decimal(crf as nat))
            &&& passes(args, "-pix_fmt"@, "yuv420p"@)
            &&& args.last() == output
        }),
{
    let args = encoder_arguments(h, framerate, crop, crf, extra, output);
    assert(args[1] == "-loglevel"@ && args[2] == "error"@);
    assert(args[4] == "-f"@ && args[5] == "rawvideo"@);
    assert(args[6] == "-pix_fmt"@ && args[7] == "nv12"@);
    assert(args[8] == "-s"@ && args[9] == dimensions(h.aligned_width, h.aligned_height));
    assert(args[10] == "-framerate"@ && args[11] == framerate);
    assert(args[12] == "-i"@ && args[13] == "-"@);
    assert(args[14] == "-vf"@);
    assert(args[16] == "-c:v"@ && args[17] == "libx264"@);
    assert(args[18] == "-crf"@ && args[19] == decimal(crf as nat));
    assert(args[20] == "-pix_fmt"@ && args[21] == "yuv420p"@);
}

/// The lines about a movie's header: its variant, magic, version and size; the
/// size of its frames, and that in which they are stored; the sizes captured and
/// displayed; the ticks to the second and the bytes to the frame.
pub proof fn header_report_tells_all(h: MovieHeader)
    ensures
        ({
            let lines = header_report(h);
            let size = |w: u32, x: u32| decimal(w as nat) + "x"@ + decimal(x as nat);
            &&& lines.len() == 4
            &&& lines[0] == "magic        "@ + h.variant@ + " ("@ + address(h.magic)
                + ")  version "@ + address(h.version) + "  header_size "@ + hex_literal(
                h.header_size as nat,
                0,
            )
            &&& lines[1] == "frame        "@ + size(h.frame_width, h.frame_height) + "  aligned "@
                + size(h.aligned_width, h.aligned_height) + "  (this drives pixel stride)"@
            &&& lines[2] == "source       "@ + size(h.source_width, h.source_height)
                + "  display "@ + size(h.display_width, h.display_height)
            &&& lines[3] == "tick rate    "@ + decimal(h.timestamp_rate as nat)
                + " ticks/s  yuv bytes/frame "@ + decimal(h.pixel_bytes as nat)
        }),
{
}

/// What is written down about extracted frames begins with one value to the line:
/// the file, the variant, the sizes of the frames, as they are and as they are
/// stored, the size captured, the layout of the pixels, the number of frames,
/// and their rate.
pub proof fn metadata_tells_all(
    file: Seq<char>,
    h: MovieHeader,
    raw: bool,
    frames: nat,
    fps: Seq<char>,
    rate: u32,
)
    ensures
        ({
            let text = metadata(file, h, raw, frames, fps, rate);
            let head = "# xbmovie .xbm frame dump\nsource: "@ + file + "\nmagic: "@ + h.variant@;
            let frame = "\nframe_width: "@ + decimal(h.frame_width as nat) + "\nframe_height: "@
                + decimal(h.frame_height as nat);
            let stored = "\naligned_width: "@ + decimal(h.aligned_width as nat)
                + "\naligned_height: "@ + decimal(h.aligned_height as nat);
            let visible = "\nvisible_crop: "@ + decimal(h.source_width as nat) + "x"@ + decimal(
                h.source_height as nat,
            );
            let count = "\nframe_count: "@ + decimal(frames) + "\napprox_fps: "@ + fps;
            let layout = "\npixel_format: "@ + layout_name(raw);
            begins(text, head + frame + stored + visible + layout + count)
        }),
{
    let text = metadata(file, h, raw, frames, fps, rate);
    let head = "# xbmovie .xbm frame dump\nsource: "@ + file + "\nmagic: "@ + h.variant@;
    let frame = "\nframe_width: "@ + decimal(h.frame_width as nat) + "\nframe_height: "@ + decimal(
        h.frame_height as nat,
    );
    let stored = "\naligned_width: "@ + decimal(h.aligned_width as nat) + "\naligned_height: "@
        + decimal(h.aligned_height as nat);
    let visible = "\nvisible_crop: "@ + decimal(h.source_width as nat) + "x"@ + decimal(
        h.source_height as nat,
    );
    let count = "\nframe_count: "@ + decimal(frames) + "\napprox_fps: "@ + fps;
    let layout = "\npixel_format: "@ + layout_name(raw);
    let all = head + frame + stored + visible + layout + count;
    four_on(
        head,
        "\nframe_width: "@,
        decimal(h.frame_width as nat),
        "\nframe_height: "@,
        decimal(h.frame_height as nat),
    );
    four_on(
        head + frame,
        "\naligned_width: "@,
        decimal(h.aligned_width as nat),
        "\naligned_height: "@,
        decimal(h.aligned_height as nat),
    );
    let crop = dimensions(h.source_width, h.source_height);
    assert(visible =~= "\nvisible_crop: "@ + crop);
    two_on(head + frame + stored, "\nvisible_crop: "@, crop);
    two_on(head + frame + stored + visible, "\npixel_format: "@, layout_name(raw));
    four_on(
        head + frame + stored + visible + layout,
        "\nframe_count: "@,
        decimal(frames),
        "\napprox_fps: "@,
        fps,
    );
    let a = "\n\n# Reconstruct (crops off the 32-alignment padding):\n# ffmpeg -f rawvideo -pix_fmt "@;
    let b = all + a + pixel_format(raw) + " -s "@ + dimensions(h.aligned_width, h.aligned_height)
        + " -r "@ + decimal(rate as nat) + " \\\n#   -i frames."@ + frame_ext(raw) + " -vf crop="@
        + decimal(h.frame_width as nat) + ":"@ + decimal(h.frame_height as nat)
        + ":0:0 \\\n#   -c:v libx264 -pix_fmt yuv420p out.mp4\n"@;
    assert(text == b);
    assert(all.take(all.len() as int) =~= all);
    goes_on(all, a, all);
    goes_on(all + a, pixel_format(raw), all);
    let c = all + a + pixel_format(raw);
    goes_on(c, " -s "@, all);
    goes_on(c + " -s "@, dimensions(h.aligned_width, h.aligned_height), all);
    let d = c + " -s "@ + dimensions(h.aligned_width, h.aligned_height);
    goes_on(d, " -r "@, all);
    goes_on(d + " -r "@, decimal(rate as nat), all);
    let e = d + " -r "@ + decimal(rate as nat);
    goes_on(e, " \\\n#   -i frames."@, all);
    goes_on(e + " \\\n#   -i frames."@, frame_ext(raw), all);
    let f = e + " \\\n#   -i frames."@ + frame_ext(raw);
    goes_on(f, " -vf crop="@, all);
    goes_on(f + " -vf crop="@, decimal(h.frame_width as nat), all);
    let g = f + " -vf crop="@ + decimal(h.frame_width as nat);
    goes_on(g, ":"@, all);
    goes_on(g + ":"@, decimal(h.frame_height as nat), all);
    goes_on(
        g + ":"@ + decimal(h.frame_height as nat),
        ":0:0 \\\n#   -c:v libx264 -pix_fmt yuv420p out.mp4\n"@,
        all,
    );
}

proof fn two_on(s: Seq<char>, a: Seq<char>, b: Seq<char>)
    ensures
        s + (a + b) == s + a + b,
{
    assert(s + (a + b) =~= s + a + b);
}

proof fn four_on(s: Seq<char>, a: Seq<char>, b: Seq<char>, c: Seq<char>, d: Seq<char>)
    ensures
        s + (a + b + c + d) == s + a + b + c + d,
{
    assert(s + (a + b + c + d) =~= s + a + b + c + d);
}

proof fn goes_on(s: Seq<char>, more: Seq<char>, head: Seq<char>)
    requires
        begins(s, head),
    ensures
        begins(s + more, head),
{
    assert((s + more).take(head.len() as int) =~= s.take(head.len() as int));
}

/// An extraction tells how many frames it came to and where they are, where the
/// stream of all frames is, if it was wanted, and where they are described.
pub proof fn extraction_report_tells_all(
    frames: nat,
    pixel_bytes: nat,
    dir: Seq<char>,
    concat_path: Option<Seq<char>>,
    meta_path: Seq<char>,
    colors: bool,
)
    ensures
        ({
            let lines = extraction_report(
                frames,
                pixel_bytes,
                dir,
                concat_path,
                meta_path,
                colors,
            );
            let first = ok_label("done"@, colors).len() as int + " extracted "@.len();
            &&& lines.len() == if concat_path is Some {
                3nat
            } else {
                2nat
            }
            &&& number_at(lines[0], first, frames)
            &&& ends(
                lines[0],
                " ("@ + human_size(pixel_bytes) + " pixel bytes each) -> "@ + dir,
            )
            &&& concat_path matches Some(p) ==> ends(lines[1], " concatenated stream -> "@ + p)
            &&& ends(lines.last(), " metadata -> "@ + meta_path)
        }),
{
    reveal_strlit(" frame");
    let lines = extraction_report(frames, pixel_bytes, dir, concat_path, meta_path, colors);
    let head = ok_label("done"@, colors) + " extracted "@;
    let last = " ("@ + human_size(pixel_bytes) + " pixel bytes each) -> "@ + dir;
    let tail = " frame"@ + plural(frames) + last;
    assert(lines[0] =~= head + decimal(frames) + tail);
    number_is_told(head, frames, tail);
    assert(lines[0].skip(lines[0].len() - last.len()) =~= last);
    if let Some(p) = concat_path {
        let end = " concatenated stream -> "@ + p;
        assert(lines[1].skip(lines[1].len() - end.len()) =~= end);
    }
    let end = " metadata -> "@ + meta_path;
    let line = lines.last();
    assert(line.skip(line.len() - end.len()) =~= end);
}

/// The line about an encoding tells how many frames there are, in what size they
/// are stored, to what size they are cut, at what rate, and where they go.
pub proof fn encoding_line_tells_all(
    h: MovieHeader,
    frames: nat,
    width: u32,
    height: u32,
    fps: Seq<char>,
    output: Seq<char>,
    colors: bool,
)
    ensures
        ({
            let line = encoding_line(h, frames, (width, height), fps, output, colors);
            let stored = decimal(h.aligned_width as nat) + "x"@ + decimal(h.aligned_height as nat);
            let cut = decimal(width as nat) + "x"@ + decimal(height as nat);
            &&& number_at(
                line,
                ok_label("encoding"@, colors).len() as int + " encoding "@.len(),
                frames,
            )
            &&& ends(
                line,
                " frames at "@ + stored + " -> "@ + cut + " @ "@ + fps + " fps -> "@ + output,
            )
        }),
{
    reveal_strlit(" frames at ");
    let line = encoding_line(h, frames, (width, height), fps, output, colors);
    let stored = dimensions(h.aligned_width, h.aligned_height);
    let cut = dimensions(width, height);
    let head = ok_label("encoding"@, colors) + " encoding "@;
    let tail = " frames at "@ + stored + " -> "@ + cut + " @ "@ + fps + " fps -> "@ + output;
    assert(line =~= head + decimal(frames) + tail);
    number_is_told(head, frames, tail);
    assert(line.skip(line.len() - tail.len()) =~= tail);
}

/// Frames as they were stored are called tiled, and are not fit for ffmpeg as
/// they are; all others are in its format `nv12`.
pub proof fn layouts(raw: bool)
    ensures
        raw ==> begins(layout_name(raw), "tiled "@) && begins(pixel_format(raw), "nv12  # WILL NOT "@)
            && frame_ext(raw) == "tiled"@,
        !raw ==> begins(layout_name(raw), "nv12 ("@) && pixel_format(raw) == "nv12"@ && frame_ext(
            raw,
        ) == "nv12"@,
{
    reveal_strlit("tiled ");
    reveal_strlit("nv12 (");
    reveal_strlit("nv12  # WILL NOT ");
    reveal_strlit("nv12  # WILL NOT RENDER -- re-run without --raw");
    reveal_strlit("tiled Xbox 360 16-wide-column NV12 (raw on-device layout)");
    reveal_strlit("nv12 (Y plane, then interleaved UV plane; detiled from on-device layout)");
    if raw {
        assert(layout_name(raw).take(6) =~= "tiled "@);
        assert(pixel_format(raw).take(17) =~= "nv12  # WILL NOT "@);
    } else {
        assert(layout_name(raw).take(6) =~= "nv12 ("@);
    }
}

/// What is written down about extracted frames ends with how to make a movie of
/// them: the size in which they are stored, the rate, the file, and the size to
/// which they are cut.
pub proof fn metadata_tells_how_to_rebuild(
    file: Seq<char>,
    h: MovieHeader,
    raw: bool,
    frames: nat,
    fps: Seq<char>,
    rate: u32,
)
    ensures
        ({
            let text = metadata(file, h, raw, frames, fps, rate);
            let size = " -s "@ + (decimal(h.aligned_width as nat) + "x"@ + decimal(
                h.aligned_height as nat,
            ));
            let speed = " -r "@ + decimal(rate as nat);
            let from = " \\\n#   -i frames."@ + frame_ext(raw);
            let cut = " -vf crop="@ + decimal(h.frame_width as nat) + ":"@ + decimal(
                h.frame_height as nat,
            );
            ends(
                text,
                size + speed + from + cut
                    + ":0:0 \\\n#   -c:v libx264 -pix_fmt yuv420p out.mp4\n"@,
            )
        }),
{
    let text = metadata(file, h, raw, frames, fps, rate);
    let stored = dimensions(h.aligned_width, h.aligned_height);
    let size = " -s "@ + stored;
    let speed = " -r "@ + decimal(rate as nat);
    let from = " \\\n#   -i frames."@ + frame_ext(raw);
    let cut = " -vf crop="@ + decimal(h.frame_width as nat) + ":"@ + decimal(
        h.frame_height as nat,
    );
    let last = ":0:0 \\\n#   -c:v libx264 -pix_fmt yuv420p out.mp4\n"@;
    let head = "# xbmovie .xbm frame dump\nsource: "@ + file + "\nmagic: "@ + h.variant@
        + "\nframe_width: "@ + decimal(h.frame_width as nat) + "\nframe_height: "@ + decimal(
        h.frame_height as nat,
    ) + "\naligned_width: "@ + decimal(h.aligned_width as nat) + "\naligned_height: "@ + decimal(
        h.aligned_height as nat,
    ) + "\nvisible_crop: "@ + dimensions(h.source_width, h.source_height) + "\npixel_format: "@
        + layout_name(raw) + "\nframe_count: "@ + decimal(frames) + "\napprox_fps: "@ + fps
        + "\n\n# Reconstruct (crops off the 32-alignment padding):\n# ffmpeg -f rawvideo -pix_fmt "@
        + pixel_format(raw);
    assert(text == head + " -s "@ + stored + " -r "@ + decimal(rate as nat)
        + " \\\n#   -i frames."@ + frame_ext(raw) + " -vf crop="@ + decimal(h.frame_width as nat)
        + ":"@ + decimal(h.frame_height as nat) + last);
    two_on(head, " -s "@, stored);
    two_on(head + size, " -r "@, decimal(rate as nat));
    two_on(head + size + speed, " \\\n#   -i frames."@, frame_ext(raw));
    four_on(
        head + size + speed + from,
        " -vf crop="@,
        decimal(h.frame_width as nat),
        ":"@,
        decimal(h.frame_height as nat),
    );
    assert(text == head + size + speed + from + cut + last);
    five_behind(head, size, speed, from, cut, last);
}

proof fn five_behind(
    head: Seq<char>,
    a: Seq<char>,
    b: Seq<char>,
    c: Seq<char>,
    d: Seq<char>,
    e: Seq<char>,
)
    ensures
        ends(head + a + b + c + d + e, a + b + c + d + e),
{
    let all = head + a + b + c + d + e;
    let tail = a + b + c + d + e;
    assert(all.skip(all.len() - tail.len()) =~= tail);
}

} // verus!
