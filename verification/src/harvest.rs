//! Downloading the segments of a capture and converting what was downloaded.

use vstd::prelude::*;

use crate::paths::{movie_path, mp4_path, CaptureRemotePath};
use crate::segments::{parts, Part, Segment};
use crate::style::{ok_label, ok_tag, warn_label, warn_tag};
use crate::text::{
    decimal, decimal_text, ends, plural, plural_suffix, quote, quoted, texts,
};
use crate::transfer::{number_at, number_is_told};
use crate::ui::UiCtx;

verus! {

/// Announces where segments are looked for.
pub fn looking_text(place: &CaptureRemotePath, colors: bool) -> (r: String)
    ensures
        r@ == ok_label("looking"@, colors) + " scanning "@ + place.parent@
            + " for segments (stem="@ + quoted(place.stem@) + ", ext="@ + quoted(place.ext@)
            + ")"@,
{
    let mut m = ok_tag("looking", colors);
    m.append(" scanning ");
    m.append(place.parent.as_str());
    m.append(" for segments (stem=");
    let stem = quote(place.stem.as_str());
    m.append(stem.as_str());
    m.append(", ext=");
    let ext = quote(place.ext.as_str());
    m.append(ext.as_str());
    m.append(")");
    m
}

/// Warns that the directory of the segments could not be listed; it then
/// counts as empty.
pub fn unlisted_text(parent: &str, reason: &str, colors: bool) -> (r: String)
    ensures
        r@ == warn_label("warn:"@, colors) + " dirlist failed on "@ + parent@ + ": "@ + reason@,
{
    let mut m = warn_tag("warn:", colors);
    m.append(" dirlist failed on ");
    m.append(parent);
    m.append(": ");
    m.append(reason);
    m
}

/// What is said when no segment was found.
pub open spec fn nothing_found(
    parent: Seq<char>,
    stem: Seq<char>,
    ext: Seq<char>,
    colors: bool,
) -> Seq<char> {
    warn_label("warn:"@, colors) + " no files matching "@ + stem + "<N>"@ + ext + " in "@ + parent
        + ". Either the handler produced no output this run, or the previous segments have already been deleted."@
}

/// The warning that is due before the downloads, if any: that there is nothing
/// to download.
pub fn empty_warning(place: &CaptureRemotePath, found: usize, colors: bool) -> (r: Option<String>)
    ensures
        r is Some <==> found == 0,
        r matches Some(m) ==> m@ == nothing_found(
            place.parent@,
            place.stem@,
            place.ext@,
            colors,
        ),
{
    if found != 0 {
        return None;
    }
    let mut m = warn_tag("warn:", colors);
    m.append(" no files matching ");
    m.append(place.stem.as_str());
    m.append("<N>");
    m.append(place.ext.as_str());
    m.append(" in ");
    m.append(place.parent.as_str());
    m.append(
        ". Either the handler produced no output this run, or the previous segments have already been deleted.",
    );
    Some(m)
}

/// The downloads of a capture's segments, one after the other.
#[derive(Debug)]
pub struct Harvest {
    parent: String,
    output_dir: String,
    segments: Vec<Segment>,
    at: usize,
    saved: u32,
    bytes: u64,
    paths: Vec<String>,
}

/// How far the downloads have come.
#[verifier::ext_equal]
pub struct Progress {
    pub parent: Seq<char>,
    pub output_dir: Seq<char>,
    pub segments: Seq<Part>,
    /// The segment whose turn it is.
    pub at: nat,
    /// How many segments have been saved.
    pub saved: nat,
    /// How many bytes have been saved.
    pub bytes: nat,
    /// Where they have been saved.
    pub paths: Seq<Seq<char>>,
}

/// A segment without bytes is not saved.
pub open spec fn is_empty(total: nat) -> bool {
    total == 0
}

/// What a saved segment says.
pub open spec fn saved_line(
    index: u32,
    copied: nat,
    local: Seq<char>,
    colors: bool,
) -> Seq<char> {
    ok_label("saved"@, colors) + " segment "@ + decimal(index as nat) + ": "@ + decimal(copied)
        + " bytes -> "@ + local
}

/// What each saved file is converted to, unless no conversion is wanted.
pub open spec fn wanted_conversions(
    paths: Seq<Seq<char>>,
    no_conversion: bool,
) -> Seq<(Seq<char>, Seq<char>)> {
    if no_conversion {
        Seq::empty()
    } else {
        paths.map_values(|p: Seq<char>| (p, movie_path(p)))
    }
}

impl Progress {
    /// Nothing has been downloaded yet.
    pub open spec fn start(
        parent: Seq<char>,
        output_dir: Seq<char>,
        segments: Seq<Part>,
    ) -> Progress {
        Progress {
            parent,
            output_dir,
            segments,
            at: 0,
            saved: 0,
            bytes: 0,
            paths: Seq::empty(),
        }
    }

    /// Where the `i`th segment lies on the console.
    pub open spec fn remote(self, i: int) -> Seq<char> {
        self.parent + self.segments[i].name
    }

    /// Where the `i`th segment is saved.
    pub open spec fn local(self, i: int) -> Seq<char> {
        self.output_dir + "/"@ + self.segments[i].name
    }

    /// The segment whose turn it is was empty.
    pub open spec fn skipped(self) -> Progress {
        Progress { at: self.at + 1, ..self }
    }

    /// The segment whose turn it is was saved.
    pub open spec fn kept(self, copied: nat) -> Progress {
        Progress {
            at: self.at + 1,
            saved: self.saved + 1,
            bytes: self.bytes + copied,
            paths: self.paths.push(self.local(self.at as int)),
            ..self
        }
    }
}

/// What to do with a segment that was opened.
#[derive(Debug)]
pub enum OpenedSegment {
    /// It is empty: say so, and delete it on the console.
    Skip { message: String, delete: String },
    /// Save it locally, under a progress bar with this label.
    Save { label: String, local: String },
}

/// What to do with a segment that was saved: say so, and delete it on the
/// console.
#[derive(Debug)]
pub struct SavedSegment {
    pub message: String,
    pub delete: String,
}

impl View for Harvest {
    type V = Progress;

    closed spec fn view(&self) -> Progress {
        Progress {
            parent: self.parent@,
            output_dir: self.output_dir@,
            segments: parts(self.segments@),
            at: self.at as nat,
            saved: self.saved as nat,
            bytes: self.bytes as nat,
            paths: texts(self.paths@),
        }
    }
}

impl Harvest {
    /// No segment is counted before its turn has passed.
    pub closed spec fn valid(&self) -> bool {
        &&& self.saved <= self.at <= self.segments@.len()
        &&& self.segments@.len() <= u32::MAX
    }

    /// The downloads of the given segments, none of which is done.
    pub fn new(parent: &str, output_dir: &str, segments: Vec<Segment>) -> (r: Harvest)
        requires
            segments@.len() <= u32::MAX,
        ensures
            r.valid(),
            r@ == Progress::start(parent@, output_dir@, parts(segments@)),
    {
        let r = Harvest {
            parent: parent.to_owned(),
            output_dir: output_dir.to_owned(),
            segments,
            at: 0,
            saved: 0,
            bytes: 0,
            paths: Vec::new(),
        };
        assert(texts(r.paths@) =~= Seq::<Seq<char>>::empty());
        r
    }

    /// The remote file of the segment whose turn it is.
    pub fn next(&self) -> (r: Option<String>)
        requires
            self.valid(),
        ensures
            r is Some <==> self@.at < self@.segments.len(),
            r matches Some(path) ==> path@ == self@.remote(self@.at as int),
    {
        if self.at < self.segments.len() {
            let mut path = self.parent.clone();
            path.append(self.segments[self.at].name.as_str());
            Some(path)
        } else {
            None
        }
    }

    /// The segment whose turn it is was opened and has `total` bytes.
    pub fn opened(&mut self, total: u64, colors: bool) -> (r: OpenedSegment)
        requires
            old(self).valid(),
            old(self)@.at < old(self)@.segments.len(),
        ensures
            final(self).valid(),
            ({
                let before = old(self)@;
                let at = before.at as int;
                let index = decimal(before.segments[at].index as nat);
                if is_empty(total as nat) {
                    &&& final(self)@ == before.skipped()
                    &&& r matches OpenedSegment::Skip { message, delete } && message@ == warn_label(
                        "skip:"@,
                        colors,
                    ) + " segment "@ + index + ": empty, skipping"@ && delete@ == before.remote(at)
                } else {
                    &&& final(self)@ == before
                    &&& r matches OpenedSegment::Save { label, local } && label@ == "segment "@
                        + index && local@ == before.local(at)
                }
            }),
    {
        let index = decimal_text(self.segments[self.at].index as u64);
        if total == 0 {
            let mut message = warn_tag("skip:", colors);
            message.append(" segment ");
            message.append(index.as_str());
            message.append(": empty, skipping");
            let mut delete = self.parent.clone();
            delete.append(self.segments[self.at].name.as_str());
            self.at = self.at + 1;
            OpenedSegment::Skip { message, delete }
        } else {
            let mut label = "segment ".to_owned();
            label.append(index.as_str());
            let mut local = self.output_dir.clone();
            local.append("/");
            local.append(self.segments[self.at].name.as_str());
            OpenedSegment::Save { label, local }
        }
    }

    /// The segment whose turn it is was saved: `copied` bytes of it.
    pub fn saved(&mut self, copied: u64, colors: bool) -> (r: SavedSegment)
        requires
            old(self).valid(),
            old(self)@.at < old(self)@.segments.len(),
            old(self)@.bytes + copied <= u64::MAX,
        ensures
            final(self).valid(),
            ({
                let before = old(self)@;
                let at = before.at as int;
                &&& final(self)@ == before.kept(copied as nat)
                &&& r.message@ == saved_line(
                    before.segments[at].index,
                    copied as nat,
                    before.local(at),
                    colors,
                )
                &&& r.delete@ == before.remote(at)
            }),
    {
        let index = decimal_text(self.segments[self.at].index as u64);
        let bytes = decimal_text(copied);
        let mut local = self.output_dir.clone();
        local.append("/");
        local.append(self.segments[self.at].name.as_str());
        let mut message = ok_tag("saved", colors);
        message.append(" segment ");
        message.append(index.as_str());
        message.append(": ");
        message.append(bytes.as_str());
        message.append(" bytes -> ");
        message.append(local.as_str());
        let mut delete = self.parent.clone();
        delete.append(self.segments[self.at].name.as_str());
        let ghost before = self.paths@;
        self.paths.push(local);
        assert(texts(self.paths@) =~= texts(before).push(local@));
        self.at = self.at + 1;
        self.saved = self.saved + 1;
        self.bytes = self.bytes + copied;
        SavedSegment { message, delete }
    }

    /// How many bytes have been saved.
    pub fn bytes(&self) -> (r: u64)
        ensures
            r == self@.bytes,
    {
        self.bytes
    }

    /// Sums the downloads up.
    pub fn summary(&self, ui: &UiCtx, colors: bool) -> (r: String)
        requires
            self.valid(),
        ensures
            r@ == summary_text(self@, *ui, colors),
    {
        let mut m = ok_tag("finished", colors);
        m.append(" downloaded ");
        let saved = decimal_text(self.saved as u64);
        m.append(saved.as_str());
        m.append("/");
        let total = decimal_text(self.segments.len() as u64);
        m.append(total.as_str());
        m.append(" segment");
        m.append(plural_suffix(self.segments.len() as u64));
        m.append(" (");
        let bytes = ui.fmt_bytes(self.bytes);
        m.append(bytes.as_str());
        m.append(")");
        m
    }

    /// What is converted after the downloads: each saved file, unless no
    /// conversion is wanted.
    pub fn to_convert(&self, no_conversion: bool) -> (r: Vec<Conversion>)
        ensures
            conversions(r@) == wanted_conversions(self@.paths, no_conversion),
    {
        let mut out: Vec<Conversion> = Vec::new();
        let ghost all = self@.paths.map_values(|p: Seq<char>| (p, movie_path(p)));
        assert(conversions(out@) =~= Seq::<(Seq<char>, Seq<char>)>::empty());
        if no_conversion {
            return out;
        }
        for i in 0..self.paths.len()
            invariant
                all == self@.paths.map_values(|p: Seq<char>| (p, movie_path(p))),
                conversions(out@) == all.take(i as int),
        {
            let ghost before = out@;
            let path = &self.paths[i];
            let job = Conversion { from: path.clone(), to: mp4_path(path.as_str()) };
            out.push(job);
            assert(conversions(out@) =~= conversions(before).push((job.from@, job.to@)));
            assert(self@.paths[i as int] == path@);
            assert(conversions(out@) =~= all.take(i + 1));
        }
        assert(all.take(all.len() as int) =~= all);
        out
    }
}

/// What sums the downloads up.
pub open spec fn summary_text(p: Progress, ui: UiCtx, colors: bool) -> Seq<char> {
    ok_label("finished"@, colors) + " downloaded "@ + decimal(p.saved) + "/"@ + decimal(
        p.segments.len(),
    ) + " segment"@ + plural(p.segments.len()) + " ("@ + ui.size_text(p.bytes) + ")"@
}

/// A saved segment and the movie it is converted to.
#[derive(Debug)]
pub struct Conversion {
    pub from: String,
    pub to: String,
}

/// The values of a list of conversions.
pub open spec fn conversions(v: Seq<Conversion>) -> Seq<(Seq<char>, Seq<char>)> {
    v.map_values(|c: Conversion| (c.from@, c.to@))
}

/// What says that no conversion takes place.
pub open spec fn unconverted(reason: Seq<char>, colors: bool) -> Seq<char> {
    warn_label("warn:"@, colors) + " skipping conversion: "@ + reason
        + ". Pass --no-conversion to silence."@
}

/// Says that no conversion takes place.
pub fn unconverted_text(reason: &str, colors: bool) -> (r: String)
    ensures
        r@ == unconverted(reason@, colors),
{
    let mut m = warn_tag("warn:", colors);
    m.append(" skipping conversion: ");
    m.append(reason);
    m.append(". Pass --no-conversion to silence.");
    m
}

/// How a movie is encoded.
#[derive(Debug)]
pub struct EncodeSettings {
    pub crop_mode: String,
    /// Frames per second, where these are not taken from the timestamps.
    pub asked_rate: Option<u32>,
    pub crf: u32,
    pub extra_args: Vec<String>,
}

impl EncodeSettings {
    /// Cropped to the frame, at the movie's own rate and the usual quality, with
    /// no further arguments for the encoder.
    pub open spec fn is_usual(self) -> bool {
        &&& self.crop_mode@ == "frame"@
        &&& self.asked_rate is None
        &&& self.crf == 20
        &&& self.extra_args@.len() == 0
    }
}

/// What is done about the saved segments.
#[derive(Debug)]
pub enum ConversionPlan {
    /// Nothing is to be converted.
    Nothing,
    /// There is no encoder: say so, and let the raw files be.
    Skip { message: String },
    /// Encode each, in this order.
    Encode { jobs: Vec<Conversion>, settings: EncodeSettings },
}

/// What is done about the conversions that are wanted. `missing` is the reason
/// why the encoder cannot be run, where it cannot.
pub fn plan_conversions(
    jobs: Vec<Conversion>,
    missing: Option<&str>,
    colors: bool,
) -> (r: ConversionPlan)
    ensures
        if jobs@.len() == 0 {
            r is Nothing
        } else {
            match missing {
                Some(reason) => r matches ConversionPlan::Skip { message } && message@
                    == unconverted(reason@, colors),
                None => r matches ConversionPlan::Encode { jobs: all, settings } && all@ == jobs@
                    && settings.is_usual(),
            }
        },
{
    if jobs.len() == 0 {
        return ConversionPlan::Nothing;
    }
    match missing {
        Some(reason) => ConversionPlan::Skip { message: unconverted_text(reason, colors) },
        None => ConversionPlan::Encode {
            jobs,
            settings: EncodeSettings {
                crop_mode: "frame".to_owned(),
                asked_rate: None,
                crf: 20,
                extra_args: Vec::new(),
            },
        },
    }
}

/// Announces a conversion.
pub fn converting_text(job: &Conversion, colors: bool) -> (r: String)
    ensures
        r@ == ok_label("converting"@, colors) + " encoding "@ + job.from@ + " -> "@ + job.to@,
{
    let mut m = ok_tag("converting", colors);
    m.append(" encoding ");
    m.append(job.from.as_str());
    m.append(" -> ");
    m.append(job.to.as_str());
    m
}

/// What follows a conversion.
#[derive(Debug)]
pub enum AfterEncode {
    /// The raw file is not needed any more: delete it.
    Remove { path: String },
    /// The raw file stays; say so.
    Retain { message: String },
}

/// What follows a conversion that went well, or failed for a reason.
pub fn after_encode(job: &Conversion, failure: Option<&str>, colors: bool) -> (r: AfterEncode)
    ensures
        match failure {
            None => r matches AfterEncode::Remove { path } && path@ == job.from@,
            Some(reason) => r matches AfterEncode::Retain { message } && message@ == warn_label(
                "warn:"@,
                colors,
            ) + " conversion of "@ + job.from@ + " failed: "@ + reason@
                + "; raw file retained"@,
        },
{
    match failure {
        None => AfterEncode::Remove { path: job.from.clone() },
        Some(reason) => {
            let mut m = warn_tag("warn:", colors);
            m.append(" conversion of ");
            m.append(job.from.as_str());
            m.append(" failed: ");
            m.append(reason);
            m.append("; raw file retained");
            AfterEncode::Retain { message: m }
        },
    }
}

/// Says whether the raw file was deleted, or for what reason not.
pub fn after_remove(job: &Conversion, failure: Option<&str>, colors: bool) -> (r: String)
    ensures
        r@ == match failure {
            None => ok_label("cleaned"@, colors) + " removed "@ + job.from@,
            Some(reason) => warn_label("warn:"@, colors) + " could not delete "@ + job.from@
                + " after encode: "@ + reason@,
        },
{
    match failure {
        None => {
            let mut m = ok_tag("cleaned", colors);
            m.append(" removed ");
            m.append(job.from.as_str());
            m
        },
        Some(reason) => {
            let mut m = warn_tag("warn:", colors);
            m.append(" could not delete ");
            m.append(job.from.as_str());
            m.append(" after encode: ");
            m.append(reason);
            m
        },
    }
}

/// What the console answered for one segment: its size, and how many bytes
/// were copied where it was not empty.
pub struct Reply {
    pub total: nat,
    pub copied: nat,
}

/// The downloads after the replies for the first segments.
pub open spec fn after_replies(start: Progress, replies: Seq<Reply>) -> Progress
    decreases replies.len(),
{
    if replies.len() == 0 {
        start
    } else {
        let before = after_replies(start, replies.drop_last());
        if is_empty(replies.last().total) {
            before.skipped()
        } else {
            before.kept(replies.last().copied)
        }
    }
}

/// The replies that came with bytes.
pub open spec fn full_replies(replies: Seq<Reply>) -> Seq<Reply> {
    replies.filter(|r: Reply| r.total != 0)
}

/// The sum of the bytes copied.
pub open spec fn copied_bytes(replies: Seq<Reply>) -> nat
    decreases replies.len(),
{
    if replies.len() == 0 {
        0
    } else {
        copied_bytes(replies.drop_last()) + replies.last().copied
    }
}

/// The local files of the segments that were not empty.
pub open spec fn kept_paths(start: Progress, replies: Seq<Reply>) -> Seq<Seq<char>>
    decreases replies.len(),
{
    if replies.len() == 0 {
        Seq::empty()
    } else {
        let before = kept_paths(start, replies.drop_last());
        if replies.last().total == 0 {
            before
        } else {
            before.push(start.local(replies.len() - 1))
        }
    }
}

/// Each segment has one turn, in order. Those with bytes, and no others, are
/// saved, counted and summed up; the paths that remain are theirs.
pub proof fn downloads_add_up(start: Progress, replies: Seq<Reply>)
    requires
        start == Progress::start(start.parent, start.output_dir, start.segments),
        replies.len() <= start.segments.len(),
    ensures
        ({
            let end = after_replies(start, replies);
            &&& end.parent == start.parent
            &&& end.output_dir == start.output_dir
            &&& end.segments == start.segments
            &&& end.at == replies.len()
            &&& end.saved == full_replies(replies).len()
            &&& end.saved == end.paths.len()
            &&& end.bytes == copied_bytes(full_replies(replies))
            &&& end.paths == kept_paths(start, replies)
        }),
    decreases replies.len(),
{
    reveal(Seq::filter);
    if replies.len() == 0 {
        assert(full_replies(replies) =~= Seq::empty());
    } else {
        let front = replies.drop_last();
        downloads_add_up(start, front);
        let full = full_replies(replies);
        if replies.last().total != 0 {
            assert(full == full_replies(front).push(replies.last()));
            assert(full.drop_last() =~= full_replies(front));
        }
    }
}

/// The segment whose turn it is, and which is deleted when its turn has passed,
/// is the one that follows those already replied for: each is deleted once.
pub proof fn turns_follow_each_other(start: Progress, replies: Seq<Reply>)
    requires
        start == Progress::start(start.parent, start.output_dir, start.segments),
        replies.len() < start.segments.len(),
    ensures
        ({
            let now = after_replies(start, replies);
            &&& now.at < now.segments.len()
            &&& now.remote(now.at as int) == start.remote(replies.len() as int)
            &&& now.local(now.at as int) == start.local(replies.len() as int)
        }),
{
    downloads_add_up(start, replies);
}

/// A movie never takes the place of the file that it is made from.
pub proof fn movie_is_another_file(xbm: Seq<char>)
    ensures
        movie_path(xbm) != xbm,
{
    reveal_strlit(".xbm");
    reveal_strlit(".mp4");
    let movie = movie_path(xbm);
    if ends(xbm, ".xbm"@) {
        let n = xbm.len();
        assert(xbm.skip(n - 4)[1] == 'x');
        assert(movie[n - 3] == 'm');
        assert(xbm[n - 3] == 'x');
    } else {
        assert(movie.len() == xbm.len() + 4);
    }
}

/// A segment is downloaded from right below the capture's directory, and saved
/// under its own name right below the output directory.
pub proof fn segments_keep_their_names(p: Progress, i: int)
    requires
        0 <= i < p.segments.len(),
    ensures
        ({
            let name = p.segments[i].name;
            &&& p.remote(i).len() == p.parent.len() + name.len()
            &&& p.remote(i).take(p.parent.len() as int) == p.parent
            &&& ends(p.remote(i), name)
            &&& p.local(i).len() == p.output_dir.len() + 1 + name.len()
            &&& p.local(i).take(p.output_dir.len() as int) == p.output_dir
            &&& p.local(i)[p.output_dir.len() as int] == '/'
            &&& ends(p.local(i), name)
        }),
{
    reveal_strlit("/");
    let name = p.segments[i].name;
    assert(p.remote(i).take(p.parent.len() as int) =~= p.parent);
    assert(p.remote(i).skip(p.remote(i).len() - name.len()) =~= name);
    assert(p.local(i).take(p.output_dir.len() as int) =~= p.output_dir);
    assert(p.local(i).skip(p.local(i).len() - name.len()) =~= name);
}

/// The replies leave exactly the files of the segments that had bytes, in order:
/// the path of the `i`th segment is kept where its reply was not empty.
pub proof fn full_segments_are_kept(start: Progress, replies: Seq<Reply>, i: int)
    requires
        0 <= i < replies.len(),
        replies.len() <= start.segments.len(),
    ensures
        replies[i].total > 0 ==> kept_paths(start, replies).contains(start.local(i)),
        kept_paths(start, replies).len() == full_replies(replies).len(),
    decreases replies.len(),
{
    let front = replies.drop_last();
    let paths = kept_paths(start, replies);
    reveal(Seq::filter);
    if i < front.len() {
        full_segments_are_kept(start, front, i);
        if replies[i].total > 0 {
            let before = kept_paths(start, front);
            let k = choose|k: int| 0 <= k < before.len() && before[k] == start.local(i);
            assert(paths[k] == start.local(i));
        }
    } else {
        if replies[i].total > 0 {
            assert(paths[paths.len() - 1] == start.local(i));
        }
        if front.len() > 0 {
            full_segments_are_kept(start, front, 0);
        } else {
            assert(full_replies(front) =~= Seq::empty());
        }
    }
}

/// The sum of a download tells how many segments of how many were saved, and how
/// many bytes.
pub proof fn summary_tells_counts(p: Progress, ui: UiCtx, colors: bool)
    ensures
        ({
            let head = ok_label("finished"@, colors) + " downloaded "@;
            let s = summary_text(p, ui, colors);
            let body = s.skip(head.len() as int);
            &&& s.take(head.len() as int) == head
            &&& body == decimal(p.saved) + "/"@ + decimal(p.segments.len()) + " segment"@ + plural(
                p.segments.len(),
            ) + " ("@ + ui.size_text(p.bytes) + ")"@
        }),
{
    let head = ok_label("finished"@, colors) + " downloaded "@;
    let s = summary_text(p, ui, colors);
    assert(s.take(head.len() as int) =~= head);
    assert(s.skip(head.len() as int) =~= decimal(p.saved) + "/"@ + decimal(p.segments.len())
        + " segment"@ + plural(p.segments.len()) + " ("@ + ui.size_text(p.bytes) + ")"@);
}

/// Every saved file is converted, in order and once, to the movie of its own
/// name; none where that is not wanted.
pub proof fn every_saved_file_is_converted(paths: Seq<Seq<char>>, no_conversion: bool)
    ensures
        ({
            let jobs = wanted_conversions(paths, no_conversion);
            &&& no_conversion ==> jobs.len() == 0
            &&& !no_conversion ==> jobs.len() == paths.len() && forall|i: int|
                #![trigger jobs[i]]
                0 <= i < paths.len() ==> {
                    let (from, to) = jobs[i];
                    from == paths[i] && to == movie_path(paths[i])
                }
        }),
{
}

/// The line about a saved segment tells its number, the bytes that were copied,
/// and ends with where it was saved.
pub proof fn saved_line_tells_bytes(index: u32, copied: nat, local: Seq<char>, colors: bool)
    ensures
        ({
            let line = saved_line(index, copied, local, colors);
            let first = ok_label("saved"@, colors).len() as int + " segment "@.len();
            let second = first + decimal(index as nat).len() + 2;
            &&& number_at(line, first, index as nat)
            &&& number_at(line, second, copied)
            &&& ends(line, " bytes -> "@ + local)
        }),
{
    reveal_strlit(": ");
    reveal_strlit(" bytes -> ");
    let line = saved_line(index, copied, local, colors);
    let head = ok_label("saved"@, colors) + " segment "@;
    let tail = ": "@ + decimal(copied) + " bytes -> "@ + local;
    assert(line =~= head + decimal(index as nat) + tail);
    number_is_told(head, index as nat, tail);
    let head2 = head + decimal(index as nat) + ": "@;
    let tail2 = " bytes -> "@ + local;
    assert(line =~= head2 + decimal(copied) + tail2);
    number_is_told(head2, copied, tail2);
    assert(line.skip(line.len() - tail2.len()) =~= tail2);
}

/// What is encoded without being asked how: the frame as it was captured, at the
/// rate that the movie tells, at quality 20, with no argument added.
pub proof fn usual_settings(s: EncodeSettings)
    ensures
        s.is_usual() <==> s.crop_mode@ == "frame"@ && s.asked_rate is None && s.crf == 20
            && s.extra_args@ == Seq::<String>::empty(),
{
    if s.extra_args@.len() == 0 {
        assert(s.extra_args@ =~= Seq::<String>::empty());
    }
}

/// The warning that nothing was found names what was looked for, and where.
pub proof fn nothing_found_names_what_and_where(
    parent: Seq<char>,
    stem: Seq<char>,
    ext: Seq<char>,
    colors: bool,
)
    ensures
        ({
            let head = warn_label("warn:"@, colors) + " no files matching "@;
            let text = nothing_found(parent, stem, ext, colors);
            let what = stem + "<N>"@ + ext + " in "@ + parent + "."@;
            &&& text.len() >= head.len() + what.len()
            &&& text.take(head.len() as int) == head
            &&& text.subrange(head.len() as int, (head.len() + what.len()) as int) == what
        }),
{
    reveal_strlit(".");
    reveal_strlit(
        ". Either the handler produced no output this run, or the previous segments have already been deleted.",
    );
    let head = warn_label("warn:"@, colors) + " no files matching "@;
    let text = nothing_found(parent, stem, ext, colors);
    let what = stem + "<N>"@ + ext + " in "@ + parent + "."@;
    assert(text.take(head.len() as int) =~= head);
    assert(text.subrange(head.len() as int, (head.len() + what.len()) as int) =~= what);
}

/// The warning that nothing is converted tells why.
pub proof fn unconverted_tells_why(reason: Seq<char>, colors: bool)
    ensures
        unconverted(reason, colors) == warn_label("warn:"@, colors) + (" skipping conversion: "@
            + reason + ". Pass --no-conversion to silence."@),
{
    assert(unconverted(reason, colors) =~= warn_label("warn:"@, colors) + (
    " skipping conversion: "@ + reason + ". Pass --no-conversion to silence."@));
}

/// The files that were saved are kept in the order of their segments.
pub proof fn kept_paths_are_in_order(start: Progress, replies: Seq<Reply>, reply: Reply)
    ensures
        kept_paths(start, Seq::empty()) == Seq::<Seq<char>>::empty(),
        kept_paths(start, replies.push(reply)) == if reply.total > 0 {
            kept_paths(start, replies).push(start.local(replies.len() as int))
        } else {
            kept_paths(start, replies)
        },
        after_replies(start, replies.push(reply)).paths == if reply.total > 0 {
            after_replies(start, replies).paths.push(
                after_replies(start, replies).local(after_replies(start, replies).at as int),
            )
        } else {
            after_replies(start, replies).paths
        },
{
    assert(replies.push(reply).drop_last() =~= replies);
}

} // verus!
