//! Paths on the console and the local files they are saved to.

use vstd::prelude::*;

use crate::error::{ErrorKind, Failure};
use crate::text::{
    begins, chars_of, copy_range, ends, ends_with, ends_with_char, find_first, find_last,
    first_index, first_index_is, first_index_least, last_index, last_index_greatest,
    opt_text, quote, quoted, range_text, same_text, starts_with, trim_end,
};

verus! {

/// A path component separator.
pub open spec fn is_separator(c: char) -> bool {
    c == '\\' || c == '/'
}

/// `s` without a drive prefix such as `FLASH:`.
pub open spec fn after_drive(s: Seq<char>) -> Seq<char> {
    let colon = first_index(s, ':');
    if colon < s.len() {
        s.skip(colon + 1)
    } else {
        s
    }
}

/// The characters of `s` behind its last separator.
pub open spec fn final_segment(s: Seq<char>) -> Seq<char>
    decreases s.len(),
{
    if s.len() == 0 || is_separator(s.last()) {
        Seq::empty()
    } else {
        final_segment(s.drop_last()).push(s.last())
    }
}

/// The last component of a remote path that is not empty, drive left out.
pub open spec fn basename(remote: Seq<char>) -> Option<Seq<char>> {
    let bare = trim_end(after_drive(remote), |c: char| is_separator(c));
    if bare.len() == 0 {
        None
    } else {
        Some(final_segment(bare))
    }
}

/// The last component of a remote path, if it names one.
pub fn remote_basename(remote: &str) -> (r: Option<String>)
    ensures
        opt_text(r) == basename(remote@),
{
    let v = chars_of(remote);
    let colon: usize = find_first(&v, ':');
    let start: usize = if colon < v.len() {
        colon + 1
    } else {
        0
    };
    let ghost path = after_drive(remote@);
    assert(path =~= v@.subrange(start as int, v@.len() as int));
    let ghost drop = |c: char| is_separator(c);
    let mut to: usize = v.len();
    while to > start && (v[to - 1] == '\\' || v[to - 1] == '/')
        invariant
            start <= to <= v@.len(),
            drop == (|c: char| is_separator(c)),
            trim_end(v@.subrange(start as int, to as int), drop) == trim_end(path, drop),
        decreases to,
    {
        assert(v@.subrange(start as int, to as int).drop_last() =~= v@.subrange(
            start as int,
            to - 1,
        ));
        to -= 1;
    }
    let ghost bare = v@.subrange(start as int, to as int);
    assert(bare == trim_end(path, drop));
    if to == start {
        return None;
    }
    let mut from: usize = to;
    assert(bare =~= v@.subrange(start as int, from as int));
    assert(final_segment(bare) =~= final_segment(bare) + v@.subrange(to as int, to as int));
    while from > start && !(v[from - 1] == '\\' || v[from - 1] == '/')
        invariant
            start <= from <= to <= v@.len(),
            final_segment(bare) == final_segment(v@.subrange(start as int, from as int))
                + v@.subrange(from as int, to as int),
        decreases from,
    {
        let ghost front = v@.subrange(start as int, from as int);
        assert(front.drop_last() =~= v@.subrange(start as int, from - 1));
        assert(final_segment(front) + v@.subrange(from as int, to as int) =~= final_segment(
            front.drop_last(),
        ) + v@.subrange(from - 1, to as int));
        from -= 1;
    }
    assert(final_segment(v@.subrange(start as int, from as int)) =~= Seq::empty());
    assert(final_segment(bare) =~= v@.subrange(from as int, to as int));
    Some(range_text(&v, from, to))
}

/// A directory path with a backslash at its end, unless it is empty.
pub open spec fn normalized(path: Seq<char>) -> Seq<char> {
    if path.len() == 0 || path.last() == '\\' {
        path
    } else {
        path + "\\"@
    }
}

/// `child` in the directory `parent`.
pub open spec fn joined(parent: Seq<char>, child: Seq<char>) -> Seq<char> {
    if parent.len() > 0 && parent.last() == '\\' {
        parent + child
    } else {
        parent + "\\"@ + child
    }
}

/// Puts a directory path into the form that listings take.
pub fn normalize_dir_path(input: &str) -> (r: String)
    ensures
        r@ == normalized(input@),
{
    let mut out = input.to_owned();
    if !(ends_with_char(input, '\\') || input.is_empty()) {
        out.append("\\");
    }
    out
}

/// The path of `child` in the directory `parent`.
pub fn join_path(parent: &str, child: &str) -> (r: String)
    ensures
        r@ == joined(parent@, child@),
{
    let mut out = parent.to_owned();
    if !ends_with_char(parent, '\\') {
        out.append("\\");
    }
    out.append(child);
    out
}

/// A character that parts a local path, or begins one anew: a slash
/// everywhere, and on Windows a backslash or a colon too.
pub open spec fn parts_local(c: char, windows: bool) -> bool {
    c == '/' || (windows && (c == '\\' || c == ':'))
}

/// One component of a local path: it names a file or directory right in the
/// directory that it is joined to.
pub open spec fn local_name(name: Seq<char>, windows: bool) -> bool {
    &&& name.len() > 0
    &&& name != "."@
    &&& name != ".."@
    &&& forall|i: int| 0 <= i < name.len() ==> !parts_local(#[trigger] name[i], windows)
}

/// Whether a name is one component of a local path.
pub fn is_local_name(name: &str, windows: bool) -> (r: bool)
    ensures
        r == local_name(name@, windows),
{
    let v = chars_of(name);
    if v.len() == 0 || same_text(name, ".") || same_text(name, "..") {
        return false;
    }
    for i in 0..v.len()
        invariant
            v@ == name@,
            forall|k: int| 0 <= k < i ==> !parts_local(#[trigger] name@[k], windows),
    {
        let c = v[i];
        if c == '/' || (windows && (c == '\\' || c == ':')) {
            assert(parts_local(name@[i as int], windows));
            return false;
        }
    }
    true
}

/// Where a download is saved.
#[derive(Debug)]
pub enum LocalTarget {
    /// At this path.
    Exactly(String),
    /// Under this name in this directory.
    Inside { dir: String, name: String },
}

impl LocalTarget {
    /// The download goes to the explicit path, or, where that is an existing
    /// directory, under `name` in it; without an explicit path, to `name`.
    pub open spec fn resolves(
        self,
        name: Seq<char>,
        output: Option<Seq<char>>,
        output_is_dir: bool,
    ) -> bool {
        match output {
            None => self matches LocalTarget::Exactly(p) && p@ == name,
            Some(path) => if output_is_dir {
                self matches LocalTarget::Inside { dir, name: n } && dir@ == path && n@ == name
            } else {
                self matches LocalTarget::Exactly(p) && p@ == path
            },
        }
    }
}

/// The text of an optional string slice.
pub open spec fn slice_text(o: Option<&str>) -> Option<Seq<char>> {
    match o {
        Some(s) => Some(s@),
        None => None,
    }
}

/// The directory's own name, or `download` for a drive's root.
pub open spec fn tree_name(remote: Seq<char>) -> Seq<char> {
    match basename(remote) {
        Some(name) => name,
        None => "download"@,
    }
}

/// Where a recursive download of `remote` is saved. `output_is_dir` tells
/// whether `output` names an existing directory.
pub fn resolve_get_dir_output(remote: &str, output: Option<&str>, output_is_dir: bool) -> (r:
    LocalTarget)
    ensures
        r.resolves(tree_name(remote@), slice_text(output), output_is_dir),
{
    let name = match remote_basename(remote) {
        Some(name) => name,
        None => "download".to_owned(),
    };
    target_for(name, output, output_is_dir)
}

fn target_for(name: String, output: Option<&str>, output_is_dir: bool) -> (r: LocalTarget)
    ensures
        r.resolves(name@, slice_text(output), output_is_dir),
{
    match output {
        None => LocalTarget::Exactly(name),
        Some(explicit) => {
            if output_is_dir {
                LocalTarget::Inside { dir: explicit.to_owned(), name }
            } else {
                LocalTarget::Exactly(explicit.to_owned())
            }
        },
    }
}

/// The note for a remote path that names no file.
pub open spec fn no_filename_note(remote: Seq<char>) -> Seq<char> {
    "cannot derive local filename from "@ + quoted(remote)
}

/// Where a download of the file `remote` is saved. `output_is_dir` tells
/// whether `output` names an existing directory.
pub fn resolve_get_output(remote: &str, output: Option<&str>, output_is_dir: bool) -> (r: Result<
    LocalTarget,
    Failure,
>)
    ensures
        match basename(remote@) {
            Some(name) => r matches Ok(t) && t.resolves(name, slice_text(output), output_is_dir),
            None => r matches Err(f) && f.reports(
                ErrorKind::EmptyFilename,
                Some(no_filename_note(remote@)),
            ),
        },
{
    match remote_basename(remote) {
        Some(name) => Ok(target_for(name, output, output_is_dir)),
        None => {
            let mut note = "cannot derive local filename from ".to_owned();
            let shown = quote(remote);
            note.append(shown.as_str());
            Err(Failure::noted(ErrorKind::EmptyFilename, note))
        },
    }
}

/// A capture's remote path, taken apart.
#[derive(Debug)]
pub struct CaptureRemotePath {
    /// DOS-form directory, always ending in `\` (e.g. `DEVKIT:\`).
    pub parent: String,
    /// Filename stem, without extension.
    pub stem: String,
    /// Extension with leading `.` (e.g. `.xbm`), or empty if no dot.
    pub ext: String,
}

/// What NT device paths on the console's first partition begin with.
pub open spec fn nt_prefix() -> Seq<char> {
    "\\Device\\Harddisk0\\Partition1\\"@
}

/// A path behind the NT prefix in DOS form: the first backslash becomes `:\`.
pub open spec fn device_to_dos(rest: Seq<char>) -> Seq<char> {
    let slash = first_index(rest, '\\');
    if slash < rest.len() {
        rest.take(slash) + ":\\"@ + rest.skip(slash + 1)
    } else {
        rest + ":\\"@
    }
}

/// A capture's path in DOS form.
pub open spec fn dos_form(remote: Seq<char>) -> Seq<char> {
    if begins(remote, nt_prefix()) {
        device_to_dos(remote.skip(nt_prefix().len() as int))
    } else {
        remote
    }
}

/// The directory of a DOS path, ending in its last backslash. A bare file name
/// lies in the root.
pub open spec fn parent_of(dos: Seq<char>) -> Seq<char> {
    let slash = last_index(dos, '\\');
    if slash >= 0 {
        dos.take(slash + 1)
    } else {
        "\\"@
    }
}

/// The file name of a DOS path: all that stands behind its last backslash.
pub open spec fn name_of(dos: Seq<char>) -> Seq<char> {
    dos.skip(last_index(dos, '\\') + 1)
}

/// Where the extension begins in a file name.
pub open spec fn ext_start(name: Seq<char>) -> int {
    let dot = last_index(name, '.');
    if dot >= 0 {
        dot
    } else {
        name.len() as int
    }
}

impl CaptureRemotePath {
    /// The parts of the path `remote`.
    pub open spec fn splits(self, remote: Seq<char>) -> bool {
        let dos = dos_form(remote);
        let name = name_of(dos);
        &&& self.parent@ == parent_of(dos)
        &&& self.stem@ == name.take(ext_start(name))
        &&& self.ext@ == name.skip(ext_start(name))
    }
}

fn dos_chars(remote: &str) -> (r: Vec<char>)
    ensures
        r@ == dos_form(remote@),
{
    let v = chars_of(remote);
    let head = chars_of("\\Device\\Harddisk0\\Partition1\\");
    if !starts_with(&v, &head) {
        return v;
    }
    let rest = copy_range(&v, head.len(), v.len());
    assert(rest@ =~= remote@.skip(nt_prefix().len() as int));
    let slash: usize = find_first(&rest, '\\');
    let mut out = range_text(&rest, 0, slash);
    assert(rest@.subrange(0, slash as int) =~= rest@.take(slash as int));
    out.append(":\\");
    if slash < rest.len() {
        let tail = range_text(&rest, slash + 1, rest.len());
        assert(rest@.subrange(slash + 1, rest@.len() as int) =~= rest@.skip(slash + 1));
        out.append(tail.as_str());
    } else {
        assert(rest@.take(slash as int) =~= rest@);
    }
    chars_of(out.as_str())
}

/// Splits a capture's remote path into directory, stem and extension.
///
/// Accepts both the NT device form
/// (`\Device\Harddisk0\Partition1\DEVKIT\foo.xbm`) and the DOS form
/// (`DEVKIT:\foo.xbm`), translating the former back to the latter. A bare file
/// name keeps its whole name as stem and extension.
pub fn split_capture_remote(remote: &str) -> (r: CaptureRemotePath)
    ensures
        r.splits(remote@),
        r.parent@.len() > 0,
        r.parent@.last() == '\\',
{
    let dos = dos_chars(remote);
    let total: usize = dos.len();
    let (parent, cut): (String, usize) = match find_last(&dos, '\\') {
        Some(slash) => (range_text(&dos, 0, slash + 1), slash + 1),
        None => ("\\".to_owned(), 0),
    };
    let name = copy_range(&dos, cut, total);
    assert(name@ =~= name_of(dos@));
    let dot: usize = match find_last(&name, '.') {
        Some(dot) => dot,
        None => name.len(),
    };
    let stem = range_text(&name, 0, dot);
    let ext = range_text(&name, dot, name.len());
    assert(parent@ =~= parent_of(dos@));
    assert(stem@ =~= name@.take(dot as int));
    assert(ext@ =~= name@.skip(dot as int));
    let r = CaptureRemotePath { parent, stem, ext };
    proof {
        split_parts_shape(r, remote@);
    }
    r
}

/// The file a capture segment is converted to: `.mp4` in place of `.xbm`.
pub open spec fn movie_path(xbm: Seq<char>) -> Seq<char> {
    if ends(xbm, ".xbm"@) {
        xbm.take(xbm.len() - ".xbm"@.len()) + ".mp4"@
    } else {
        xbm + ".mp4"@
    }
}

/// The file that a downloaded segment is converted to.
pub fn mp4_path(xbm_path: &str) -> (r: String)
    ensures
        r@ == movie_path(xbm_path@),
{
    let v = chars_of(xbm_path);
    let tail = chars_of(".xbm");
    let keep: usize = if ends_with(&v, &tail) {
        v.len() - tail.len()
    } else {
        v.len()
    };
    let mut out = range_text(&v, 0, keep);
    assert(v@.subrange(0, keep as int) =~= v@.take(keep as int));
    assert(v@.take(v@.len() as int) =~= v@);
    out.append(".mp4");
    out
}

/// A normalized path ends in a backslash or is empty.
pub proof fn normalized_ends_in_backslash(path: Seq<char>)
    ensures
        normalized(path).len() == 0 || normalized(path).last() == '\\',
        normalized(path).len() == 0 <==> path.len() == 0,
{
    reveal_strlit("\\");
}

/// Normalizing a path twice is normalizing it once.
pub proof fn normalized_idempotent(path: Seq<char>)
    ensures
        normalized(normalized(path)) == normalized(path),
{
    normalized_ends_in_backslash(path);
}

/// A child of a directory has the same path whether or not the directory was
/// normalized.
pub proof fn joined_to_normalized(parent: Seq<char>, child: Seq<char>)
    ensures
        joined(normalized(parent), child) == joined(parent, child),
{
    reveal_strlit("\\");
    if parent.len() > 0 && parent.last() != '\\' {
        assert(normalized(parent).last() == '\\');
    }
}

/// The last component of a joined path is the child's name.
pub proof fn basename_of_joined(parent: Seq<char>, child: Seq<char>)
    requires
        child.len() > 0,
        forall|i: int| 0 <= i < child.len() ==> !is_separator(#[trigger] child[i]) && child[i] != ':',
    ensures
        basename(joined(parent, child)) == Some(child),
{
    reveal_strlit("\\");
    let path = joined(parent, child);
    let base = path.len() - child.len();
    assert(path.skip(base) =~= child);
    assert(base > 0 && path[base - 1] == '\\');
    first_index_least(path, ':');
    let colon = first_index(path, ':');
    if colon < path.len() {
        assert(colon < base) by {
            if colon >= base {
                assert(path[colon] == child[colon - base]);
            }
        }
        assert(colon != base - 1);
    }
    let rest = after_drive(path);
    let at = rest.len() - child.len();
    assert(at > 0);
    assert(rest.skip(at) =~= child);
    assert(rest[at - 1] == '\\');
    assert(rest.last() == child.last());
    assert(rest.last() == child[child.len() - 1]);
    final_segment_of_tail(rest, child);
}

proof fn final_segment_of_tail(s: Seq<char>, tail: Seq<char>)
    requires
        tail.len() < s.len(),
        s.skip(s.len() - tail.len()) == tail,
        is_separator(s[s.len() - tail.len() - 1]),
        forall|i: int| 0 <= i < tail.len() ==> !is_separator(#[trigger] tail[i]),
    ensures
        final_segment(s) == tail,
    decreases tail.len(),
{
    let at = s.len() - tail.len();
    if tail.len() == 0 {
        assert(final_segment(s) =~= tail);
    } else {
        assert(s.last() == tail[tail.len() - 1]);
        assert(s.drop_last().skip(at) =~= tail.drop_last());
        final_segment_of_tail(s.drop_last(), tail.drop_last());
        assert(tail.drop_last().push(tail.last()) =~= tail);
    }
}

/// A basename is never empty and holds no separator.
pub proof fn basename_is_one_component(remote: Seq<char>)
    requires
        basename(remote) is Some,
    ensures
        basename(remote)->0.len() > 0,
        forall|i: int|
            0 <= i < basename(remote)->0.len() ==> !is_separator(#[trigger] basename(remote)->0[i]),
{
    let drop = |c: char| is_separator(c);
    let bare = trim_end(after_drive(remote), drop);
    trim_end_stops(after_drive(remote), drop);
    final_segment_plain(bare);
}

proof fn trim_end_stops(s: Seq<char>, drop: spec_fn(char) -> bool)
    ensures
        trim_end(s, drop).len() == 0 || !drop(trim_end(s, drop).last()),
    decreases s.len(),
{
    if s.len() > 0 && drop(s.last()) {
        trim_end_stops(s.drop_last(), drop);
    }
}

proof fn final_segment_plain(s: Seq<char>)
    ensures
        forall|i: int|
            0 <= i < final_segment(s).len() ==> !is_separator(#[trigger] final_segment(s)[i]),
        s.len() > 0 && !is_separator(s.last()) ==> final_segment(s).len() > 0,
    decreases s.len(),
{
    if s.len() > 0 && !is_separator(s.last()) {
        let front = final_segment(s.drop_last());
        final_segment_plain(s.drop_last());
        assert forall|i: int| 0 <= i < final_segment(s).len() implies !is_separator(
            #[trigger] final_segment(s)[i],
        ) by {
            if i < front.len() {
                assert(final_segment(s)[i] == front[i]);
            }
        }
    }
}

/// The parts of a split path put together are the path in DOS form; a bare file
/// name gets the root in front.
pub proof fn split_parts_join(r: CaptureRemotePath, remote: Seq<char>)
    requires
        r.splits(remote),
    ensures
        ({
            let dos = dos_form(remote);
            r.parent@ + r.stem@ + r.ext@ == if last_index(dos, '\\') >= 0 {
                dos
            } else {
                "\\"@ + dos
            }
        }),
{
    let dos = dos_form(remote);
    last_index_greatest(dos, '\\');
    let name = name_of(dos);
    last_index_greatest(name, '.');
    assert(r.stem@ + r.ext@ =~= name);
    assert(r.parent@ + r.stem@ + r.ext@ =~= r.parent@ + name);
    if last_index(dos, '\\') >= 0 {
        assert(r.parent@ + name =~= dos);
    } else {
        assert(name =~= dos);
    }
}

/// The directory always ends in a backslash, the file's name holds none, and
/// the extension is empty or begins with its only dot.
pub proof fn split_parts_shape(r: CaptureRemotePath, remote: Seq<char>)
    requires
        r.splits(remote),
    ensures
        r.parent@.len() > 0 && r.parent@.last() == '\\',
        forall|i: int| 0 <= i < r.stem@.len() ==> #[trigger] r.stem@[i] != '\\',
        forall|i: int| 0 <= i < r.ext@.len() ==> #[trigger] r.ext@[i] != '\\',
        r.ext@.len() > 0 ==> r.ext@[0] == '.',
        forall|i: int| 0 < i < r.ext@.len() ==> #[trigger] r.ext@[i] != '.',
{
    reveal_strlit("\\");
    let dos = dos_form(remote);
    last_index_greatest(dos, '\\');
    let cut = last_index(dos, '\\') + 1;
    let name = name_of(dos);
    last_index_greatest(name, '.');
    let dot = ext_start(name);
    assert forall|i: int| 0 <= i < name.len() implies #[trigger] name[i] != '\\' by {
        assert(name[i] == dos[cut + i]);
    }
    assert forall|i: int| 0 <= i < r.stem@.len() implies #[trigger] r.stem@[i] != '\\' by {
        assert(r.stem@[i] == name[i]);
    }
    assert forall|i: int| 0 <= i < r.ext@.len() implies #[trigger] r.ext@[i] != '\\' by {
        assert(r.ext@[i] == name[dot + i]);
    }
    assert forall|i: int| 0 < i < r.ext@.len() implies #[trigger] r.ext@[i] != '.' by {
        assert(r.ext@[i] == name[dot + i]);
    }
}

/// A file named by its NT device path is split as it is under its DOS path.
pub proof fn device_path_splits_as_dos(
    r: CaptureRemotePath,
    drive: Seq<char>,
    path: Seq<char>,
)
    requires
        forall|i: int| 0 <= i < drive.len() ==> #[trigger] drive[i] != '\\',
    ensures
        r.splits(nt_prefix() + drive + "\\"@ + path) == r.splits(drive + ":\\"@ + path),
{
    reveal_strlit("\\");
    let remote = nt_prefix() + drive + "\\"@ + path;
    let rest = drive + "\\"@ + path;
    let dos = drive + ":\\"@ + path;
    reveal_strlit(":\\");
    reveal_strlit("\\Device\\Harddisk0\\Partition1\\");
    assert(dos[0] != '\\');
    if begins(dos, nt_prefix()) {
        assert(dos.take(nt_prefix().len() as int)[0] == nt_prefix()[0]);
    }
    assert(remote.take(nt_prefix().len() as int) =~= nt_prefix());
    assert(remote.skip(nt_prefix().len() as int) =~= rest);
    first_index_is(rest, '\\', drive.len() as int);
    assert(rest.take(drive.len() as int) =~= drive);
    assert(rest.skip(drive.len() as int + 1) =~= path);
}

/// A joined path begins with the directory, ends with the child, and has one
/// backslash between them that the directory did not end in already.
pub proof fn joined_has_one_backslash(parent: Seq<char>, child: Seq<char>)
    ensures
        begins(joined(parent, child), parent),
        ends(joined(parent, child), child),
        parent.len() > 0 && parent.last() == '\\' ==> joined(parent, child).len() == parent.len()
            + child.len(),
        !(parent.len() > 0 && parent.last() == '\\') ==> joined(parent, child).len()
            == parent.len() + 1 + child.len() && joined(parent, child)[parent.len() as int] == '\\',
{
    reveal_strlit("\\");
    let path = joined(parent, child);
    assert(path.take(parent.len() as int) =~= parent);
    assert(path.skip(path.len() - child.len()) =~= child);
}

/// Normalizing adds a backslash at most, and where one is missing.
pub proof fn normalized_adds_one_backslash(path: Seq<char>)
    ensures
        begins(normalized(path), path),
        normalized(path).len() == if path.len() == 0 || path.last() == '\\' {
            path.len()
        } else {
            path.len() + 1
        },
{
    reveal_strlit("\\");
    assert(normalized(path).take(path.len() as int) =~= path);
}

proof fn trim_of_separators(s: Seq<char>, tail: Seq<char>)
    requires
        s.len() > 0,
        !is_separator(s.last()),
        forall|i: int| 0 <= i < tail.len() ==> is_separator(#[trigger] tail[i]),
    ensures
        trim_end(s + tail, |c: char| is_separator(c)) == s,
    decreases tail.len(),
{
    if tail.len() == 0 {
        assert(s + tail =~= s);
    } else {
        assert((s + tail).last() == tail[tail.len() - 1]);
        assert((s + tail).drop_last() =~= s + tail.drop_last());
        assert forall|i: int| 0 <= i < tail.drop_last().len() implies is_separator(
            #[trigger] tail.drop_last()[i],
        ) by {
            assert(tail.drop_last()[i] == tail[i]);
        }
        trim_of_separators(s, tail.drop_last());
    }
}

/// A path's basename is what stands between its last two separators, those at
/// the very end aside; the drive, up to the first colon, is no part of it.
pub proof fn basename_is_last_component(
    drive: Seq<char>,
    above: Seq<char>,
    name: Seq<char>,
    tail: Seq<char>,
)
    requires
        forall|i: int| 0 <= i < drive.len() ==> #[trigger] drive[i] != ':',
        above.len() == 0 || is_separator(above.last()),
        name.len() > 0,
        forall|i: int| 0 <= i < name.len() ==> !is_separator(#[trigger] name[i]),
        forall|i: int| 0 <= i < tail.len() ==> is_separator(#[trigger] tail[i]),
    ensures
        basename(drive + seq![':'] + above + name + tail) == Some(name),
        !(above + name + tail).contains(':') ==> basename(above + name + tail) == Some(name),
{
    let rest = above + name + tail;
    let remote = drive + seq![':'] + above + name + tail;
    first_index_is(remote, ':', drive.len() as int);
    assert(remote.skip(drive.len() as int + 1) =~= rest);
    assert(after_drive(remote) == rest);
    if !rest.contains(':') {
        first_index_is(rest, ':', rest.len() as int);
        assert(after_drive(rest) == rest);
    }
    let bare = above + name;
    assert(bare.last() == name[name.len() - 1]);
    trim_of_separators(bare, tail);
    if above.len() > 0 {
        assert(bare.skip(bare.len() - name.len()) =~= name);
        assert(bare[bare.len() - name.len() - 1] == above.last());
        final_segment_of_tail(bare, name);
    } else {
        assert(bare =~= name);
        final_segment_whole(name);
    }
}

proof fn final_segment_whole(s: Seq<char>)
    requires
        forall|i: int| 0 <= i < s.len() ==> !is_separator(#[trigger] s[i]),
    ensures
        final_segment(s) == s,
    decreases s.len(),
{
    if s.len() > 0 {
        assert(!is_separator(s[s.len() - 1]));
        assert forall|i: int| 0 <= i < s.drop_last().len() implies !is_separator(
            #[trigger] s.drop_last()[i],
        ) by {
            assert(s.drop_last()[i] == s[i]);
        }
        final_segment_whole(s.drop_last());
        assert(s.drop_last().push(s.last()) =~= s);
    } else {
        assert(final_segment(s) =~= s);
    }
}

/// A path that is nothing but a drive and separators names no file, and a
/// recursive download of it is saved as `download`.
pub proof fn drive_names_no_file(drive: Seq<char>, tail: Seq<char>)
    requires
        forall|i: int| 0 <= i < drive.len() ==> #[trigger] drive[i] != ':',
        forall|i: int| 0 <= i < tail.len() ==> is_separator(#[trigger] tail[i]),
    ensures
        basename(drive + seq![':'] + tail) is None,
        basename(tail) is None,
        tree_name(drive + seq![':'] + tail) == "download"@,
{
    let remote = drive + seq![':'] + tail;
    let drop = |c: char| is_separator(c);
    first_index_is(remote, ':', drive.len() as int);
    assert(remote.skip(drive.len() as int + 1) =~= tail);
    assert forall|i: int| 0 <= i < tail.len() implies tail[i] != ':' by {
        assert(is_separator(tail[i]));
    }
    first_index_is(tail, ':', tail.len() as int);
    crate::text::trim_end_keeps_front(tail, drop);
    let bare = trim_end(tail, drop);
    if bare.len() > 0 {
        assert(bare.last() == tail[bare.len() - 1]);
        assert(is_separator(tail[bare.len() - 1]));
    }
}

/// A file `x.xbm` is converted to `x.mp4`; any other name gets `.mp4` at its end.
pub proof fn movie_replaces_extension(stem: Seq<char>)
    ensures
        movie_path(stem + ".xbm"@) == stem + ".mp4"@,
        !ends(stem, ".xbm"@) ==> movie_path(stem) == stem + ".mp4"@,
{
    let xbm = stem + ".xbm"@;
    assert(xbm.skip(xbm.len() - ".xbm"@.len()) =~= ".xbm"@);
    assert(xbm.take(xbm.len() - ".xbm"@.len()) =~= stem);
}

/// What may be a name in a local directory: anything that is not empty, does not
/// stand for the directory itself or the one above, and holds no character that
/// parts paths: the slash, and on Windows the backslash and the colon.
pub proof fn local_names(name: Seq<char>, windows: bool)
    ensures
        local_name(name, windows) <==> {
            &&& name.len() > 0
            &&& name != seq!['.']
            &&& name != seq!['.', '.']
            &&& !name.contains('/')
            &&& windows ==> !name.contains('\\') && !name.contains(':')
        },
{
    reveal_strlit(".");
    reveal_strlit("..");
    assert("."@ =~= seq!['.']);
    assert(".."@ =~= seq!['.', '.']);
    if local_name(name, windows) {
        assert forall|c: char| #[trigger] name.contains(c) implies !parts_local(c, windows) by {
            let i = choose|i: int| 0 <= i < name.len() && name[i] == c;
            assert(!parts_local(name[i], windows));
        }
    } else if name.len() > 0 && name != "."@ && name != ".."@ {
        let i = choose|i: int| 0 <= i < name.len() && parts_local(#[trigger] name[i], windows);
        assert(name.contains(name[i]));
    }
}

/// An explicit path is used as it is, unless it is a directory: then the download
/// keeps its own name in it. Without one it keeps its own name right here.
pub proof fn download_goes_where_asked(
    target: LocalTarget,
    name: Seq<char>,
    output: Option<Seq<char>>,
    output_is_dir: bool,
)
    requires
        target.resolves(name, output, output_is_dir),
    ensures
        match target {
            LocalTarget::Exactly(path) => (output is None && path@ == name) || (output == Some(path@)
                && !output_is_dir),
            LocalTarget::Inside { dir, name: n } => output == Some(dir@) && output_is_dir && n@
                == name,
        },
{
}

/// A path in DOS form is split where its last backslash stands, and its file
/// name at the last dot.
pub proof fn dos_path_is_split(
    r: CaptureRemotePath,
    parent: Seq<char>,
    stem: Seq<char>,
    ext: Seq<char>,
)
    requires
        r.splits(parent + stem + seq!['.'] + ext),
        !begins(parent + stem + seq!['.'] + ext, "\\Device\\Harddisk0\\Partition1\\"@),
        parent.len() > 0,
        parent.last() == '\\',
        !stem.contains('\\'),
        !ext.contains('\\'),
        !ext.contains('.'),
    ensures
        r.parent@ == parent,
        r.stem@ == stem,
        r.ext@ == seq!['.'] + ext,
{
    let remote = parent + stem + seq!['.'] + ext;
    let name = stem + seq!['.'] + ext;
    assert forall|i: int| parent.len() - 1 < i < remote.len() implies remote[i] != '\\' by {
        let k = i - parent.len();
        if k < stem.len() {
            assert(stem.contains(stem[k]));
        } else if k > stem.len() {
            assert(ext.contains(ext[k - stem.len() - 1]));
        }
    }
    crate::text::last_index_is(remote, '\\', parent.len() - 1);
    assert(remote.take(parent.len() as int) =~= parent);
    assert(name_of(remote) =~= name);
    assert forall|i: int| stem.len() < i < name.len() implies name[i] != '.' by {
        assert(ext.contains(ext[i - stem.len() - 1]));
    }
    crate::text::last_index_is(name, '.', stem.len() as int);
    assert(name.take(stem.len() as int) =~= stem);
    assert(name.skip(stem.len() as int) =~= seq!['.'] + ext);
}

/// A device path that names a partition's drive alone stands for the root of that
/// drive.
pub proof fn device_without_path_is_root(drive: Seq<char>)
    requires
        !drive.contains('\\'),
    ensures
        dos_form("\\Device\\Harddisk0\\Partition1\\"@ + drive) == drive + seq![':', '\\'],
{
    reveal_strlit(":\\");
    assert(":\\"@ =~= seq![':', '\\']);
    let prefix = "\\Device\\Harddisk0\\Partition1\\"@;
    let remote = prefix + drive;
    assert(remote.take(prefix.len() as int) =~= prefix);
    assert(remote.skip(prefix.len() as int) =~= drive);
    assert forall|i: int| 0 <= i < drive.len() implies drive[i] != '\\' by {
        assert(drive.contains(drive[i]));
    }
    first_index_is(drive, '\\', drive.len() as int);
}

/// Any other path is in DOS form already.
pub proof fn other_paths_are_kept(remote: Seq<char>)
    requires
        !begins(remote, "\\Device\\Harddisk0\\Partition1\\"@),
    ensures
        dos_form(remote) == remote,
{
}

/// Components of a remote path are parted by backslashes, or by slashes.
pub proof fn separators(c: char)
    ensures
        is_separator(c) <==> c == '\\' || c == '/',
{
}

/// A recursive download is saved under the directory's own name, where it has
/// one.
pub proof fn tree_keeps_its_name(remote: Seq<char>)
    ensures
        basename(remote) matches Some(name) ==> tree_name(remote) == name,
        basename(remote) is None ==> tree_name(remote) == "download"@,
{
}

} // verus!
