//! Recursive downloads, one remote reply at a time.

use vstd::prelude::*;

use crate::error::{ErrorKind, Failure};
use crate::listing::DirEntry;
use crate::paths::{
    is_local_name, join_path, joined, local_name, normalize_dir_path, normalized,
};
use crate::style::{ok_label, ok_tag};
use crate::text::{decimal, decimal_text, ends, plural, plural_suffix, quote, quoted, texts};
use crate::transfer::{number_at, number_is_told};
use crate::ui::UiCtx;

verus! {

/// A step of a recursive download. Local paths are the names below the local
/// root, outermost first.
#[derive(Debug)]
pub enum FetchAction {
    /// List the remote directory; its entries are saved below `local`.
    List { dir: String, local: Vec<String> },
    /// Create the local directory.
    MakeDir { local: Vec<String> },
    /// Download the remote file.
    Fetch { remote: String, local: Vec<String> },
    /// Give up: this name has no place below the local directory.
    Refuse { name: String, failure: Failure },
}

/// A step of a recursive download, as a value.
#[verifier::ext_equal]
pub enum Step {
    List { dir: Seq<char>, local: Seq<Seq<char>> },
    MakeDir { local: Seq<Seq<char>> },
    Fetch { remote: Seq<char>, local: Seq<Seq<char>> },
    Refuse { name: Seq<char> },
}

impl View for FetchAction {
    type V = Step;

    open spec fn view(&self) -> Step {
        match self {
            FetchAction::List { dir, local } => Step::List { dir: dir@, local: texts(local@) },
            FetchAction::MakeDir { local } => Step::MakeDir { local: texts(local@) },
            FetchAction::Fetch { remote, local } => Step::Fetch {
                remote: remote@,
                local: texts(local@),
            },
            FetchAction::Refuse { name, .. } => Step::Refuse { name: name@ },
        }
    }
}

/// The note for a remote name that has no place below a local directory.
pub open spec fn refused_note(name: Seq<char>) -> Seq<char> {
    "remote name "@ + quoted(name) + " has no place below the local directory"@
}

/// A refusal carries the failure that names what is refused.
pub open spec fn tells_refusal(action: FetchAction) -> bool {
    action matches FetchAction::Refuse { name, failure } ==> failure.reports(
        ErrorKind::EmptyFilename,
        Some(refused_note(name@)),
    )
}

fn refusal_of(name: &str) -> (r: FetchAction)
    ensures
        r@ == (Step::Refuse { name: name@ }),
        tells_refusal(r),
{
    let mut note = "remote name ".to_owned();
    let shown = quote(name);
    note.append(shown.as_str());
    note.append(" has no place below the local directory");
    FetchAction::Refuse {
        name: name.to_owned(),
        failure: Failure::noted(ErrorKind::EmptyFilename, note),
    }
}

/// What is done for one entry of a directory. An entry whose name is no local
/// name has no place below the local directory and is refused.
pub open spec fn entry_steps(
    windows: bool,
    dir: Seq<char>,
    local: Seq<Seq<char>>,
    e: DirEntry,
) -> Seq<Step> {
    let remote = joined(dir, e.name@);
    let below = local.push(e.name@);
    if !local_name(e.name@, windows) {
        seq![Step::Refuse { name: e.name@ }]
    } else if e.is_directory {
        seq![Step::MakeDir { local: below }, Step::List { dir: normalized(remote), local: below }]
    } else {
        seq![Step::Fetch { remote, local: below }]
    }
}

/// What is done for the entries from the `i`th on.
pub open spec fn steps_from(
    windows: bool,
    dir: Seq<char>,
    local: Seq<Seq<char>>,
    entries: Seq<DirEntry>,
    i: int,
) -> Seq<Step>
    decreases entries.len() - i,
{
    if i < 0 || i >= entries.len() {
        Seq::empty()
    } else {
        entry_steps(windows, dir, local, entries[i]) + steps_from(windows, dir, local, entries, i + 1)
    }
}

/// Where the directory with the given names below the remote root lies.
pub open spec fn dir_below(root: Seq<char>, names: Seq<Seq<char>>) -> Seq<char>
    decreases names.len(),
{
    if names.len() == 0 {
        normalized(root)
    } else {
        normalized(joined(dir_below(root, names.drop_last()), names.last()))
    }
}

/// Every name is a local one, so that the path stays below where it starts.
pub open spec fn local_names(names: Seq<Seq<char>>, windows: bool) -> bool {
    forall|i: int| 0 <= i < names.len() ==> local_name(#[trigger] names[i], windows)
}

/// Where a file lies whose last name stands in the directory that the others
/// lead to.
pub open spec fn file_below(root: Seq<char>, names: Seq<Seq<char>>) -> Seq<char> {
    joined(dir_below(root, names.drop_last()), names.last())
}

/// The step's local path is made of local names, and these lead to the same
/// place below the remote root. A refusal touches nothing.
pub open spec fn in_place(root: Seq<char>, windows: bool, step: Step) -> bool {
    match step {
        Step::List { dir, local } => local_names(local, windows) && dir == dir_below(root, local),
        Step::MakeDir { local } => local_names(local, windows),
        Step::Fetch { remote, local } => local_names(local, windows) && local.len() > 0 && remote
            == file_below(root, local),
        Step::Refuse { .. } => true,
    }
}

/// All steps are in place.
pub open spec fn all_in_place(root: Seq<char>, windows: bool, steps: Seq<Step>) -> bool {
    forall|i: int| 0 <= i < steps.len() ==> in_place(root, windows, #[trigger] steps[i])
}

/// The steps that a directory's listing adds are in place if its own is,
/// whatever names the console sends.
pub proof fn listed_steps_in_place(
    root: Seq<char>,
    windows: bool,
    dir: Seq<char>,
    local: Seq<Seq<char>>,
    entries: Seq<DirEntry>,
    i: int,
)
    requires
        in_place(root, windows, (Step::List { dir, local })),
    ensures
        all_in_place(root, windows, steps_from(windows, dir, local, entries, i)),
    decreases entries.len() - i,
{
    if 0 <= i < entries.len() {
        listed_steps_in_place(root, windows, dir, local, entries, i + 1);
        let name = entries[i].name@;
        let below = local.push(name);
        assert(below.drop_last() =~= local);
        assert(below.last() == name);
        if local_name(name, windows) {
            assert(local_names(below, windows));
        }
    }
}

pub open spec fn reversed_steps(stack: Seq<FetchAction>) -> Seq<Step> {
    Seq::new(stack.len(), |i: int| stack[stack.len() - 1 - i]@)
}

/// A recursive download and its totals.
#[derive(Debug)]
pub struct RecursiveGet {
    windows: bool,
    stack: Vec<FetchAction>,
    files: u64,
    bytes: u64,
}

fn copy_names(names: &Vec<String>) -> (r: Vec<String>)
    ensures
        texts(r@) == texts(names@),
{
    let mut out: Vec<String> = Vec::new();
    for i in 0..names.len()
        invariant
            texts(out@) == texts(names@).take(i as int),
    {
        let ghost before = out@;
        out.push(names[i].clone());
        assert(texts(out@) =~= texts(before).push(names@[i as int]@));
        assert(texts(out@) =~= texts(names@).take(i + 1));
    }
    assert(texts(out@) =~= texts(names@));
    out
}

fn below(local: &Vec<String>, name: &String) -> (r: Vec<String>)
    ensures
        texts(r@) == texts(local@).push(name@),
{
    let mut out = copy_names(local);
    let ghost before = out@;
    out.push(name.clone());
    assert(texts(out@) =~= texts(before).push(name@));
    out
}

impl RecursiveGet {
    /// Every refusal that is left carries its failure.
    pub closed spec fn valid(self) -> bool {
        forall|i: int| 0 <= i < self.stack@.len() ==> tells_refusal(#[trigger] self.stack@[i])
    }

    /// Whether local paths are those of Windows.
    pub closed spec fn windows(self) -> bool {
        self.windows
    }

    /// What is left to be done, first things first.
    pub closed spec fn steps(self) -> Seq<Step> {
        reversed_steps(self.stack@)
    }

    /// How many files have been saved.
    pub closed spec fn saved_files(self) -> nat {
        self.files as nat
    }

    /// How many bytes have been saved.
    pub closed spec fn saved_bytes(self) -> nat {
        self.bytes as nat
    }

    /// A download of the directory `remote_dir`. `windows` tells whether local
    /// paths are those of Windows.
    pub fn new(remote_dir: &str, windows: bool) -> (r: RecursiveGet)
        ensures
            r.valid(),
            r.windows() == windows,
            r.steps() == seq![
                Step::List { dir: normalized(remote_dir@), local: Seq::<Seq<char>>::empty() },
            ],
            all_in_place(remote_dir@, windows, r.steps()),
            r.saved_files() == 0,
            r.saved_bytes() == 0,
    {
        let mut stack: Vec<FetchAction> = Vec::new();
        let local: Vec<String> = Vec::new();
        let dir = normalize_dir_path(remote_dir);
        assert(texts(local@) =~= Seq::<Seq<char>>::empty());
        stack.push(FetchAction::List { dir, local });
        let r = RecursiveGet { windows, stack, files: 0, bytes: 0 };
        assert(r.steps() =~= seq![
            Step::List { dir: normalized(remote_dir@), local: Seq::<Seq<char>>::empty() },
        ]);
        r
    }

    /// The next thing to do, if anything is left.
    pub fn next(&mut self) -> (r: Option<FetchAction>)
        requires
            old(self).valid(),
        ensures
            final(self).valid(),
            final(self).windows() == old(self).windows(),
            final(self).saved_files() == old(self).saved_files(),
            final(self).saved_bytes() == old(self).saved_bytes(),
            old(self).steps().len() == 0 ==> r is None && final(self).steps().len() == 0,
            old(self).steps().len() > 0 ==> {
                &&& r matches Some(a) && a@ == old(self).steps()[0] && tells_refusal(a)
                &&& final(self).steps() == old(self).steps().drop_first()
            },
            forall|root: Seq<char>| #[trigger]
                all_in_place(root, old(self).windows(), old(self).steps()) ==> {
                    &&& all_in_place(root, old(self).windows(), final(self).steps())
                    &&& r matches Some(a) ==> in_place(root, old(self).windows(), a@)
                },
    {
        let ghost before = self.stack@;
        let r = self.stack.pop();
        proof {
            if before.len() > 0 {
                assert(reversed_steps(self.stack@) =~= reversed_steps(before).drop_first());
            }
        }
        r
    }

    /// Takes the entries of a directory that was listed, in the order in which
    /// the console sent them. What the entries add stays in place.
    pub fn listed(&mut self, dir: &str, local: &Vec<String>, entries: &Vec<DirEntry>)
        requires
            old(self).valid(),
        ensures
            final(self).valid(),
            final(self).windows() == old(self).windows(),
            final(self).saved_files() == old(self).saved_files(),
            final(self).saved_bytes() == old(self).saved_bytes(),
            final(self).steps() == steps_from(
                old(self).windows(),
                dir@,
                texts(local@),
                entries@,
                0,
            ) + old(self).steps(),
            forall|root: Seq<char>| #[trigger]
                all_in_place(root, old(self).windows(), old(self).steps()) && in_place(
                    root,
                    old(self).windows(),
                    (Step::List { dir: dir@, local: texts(local@) }),
                ) ==> all_in_place(root, old(self).windows(), final(self).steps()),
    {
        let windows = self.windows;
        let ghost before = self.stack@;
        let mut i: usize = entries.len();
        assert(reversed_steps(self.stack@) =~= steps_from(
            windows,
            dir@,
            texts(local@),
            entries@,
            i as int,
        ) + reversed_steps(before));
        while i > 0
            invariant
                i <= entries@.len(),
                self.valid(),
                self.windows == windows,
                self.windows == old(self).windows,
                self.files == old(self).files,
                self.bytes == old(self).bytes,
                reversed_steps(self.stack@) == steps_from(
                    windows,
                    dir@,
                    texts(local@),
                    entries@,
                    i as int,
                ) + reversed_steps(before),
            decreases i,
        {
            let ghost rest = self.stack@;
            let ghost done = steps_from(windows, dir@, texts(local@), entries@, i as int);
            i -= 1;
            let e = &entries[i];
            let remote = join_path(dir, e.name.as_str());
            if !is_local_name(e.name.as_str(), windows) {
                self.stack.push(refusal_of(e.name.as_str()));
            } else if e.is_directory {
                let child = normalize_dir_path(remote.as_str());
                let inner = below(local, &e.name);
                self.stack.push(FetchAction::List { dir: child, local: inner });
                let outer = below(local, &e.name);
                self.stack.push(FetchAction::MakeDir { local: outer });
            } else {
                let target = below(local, &e.name);
                self.stack.push(FetchAction::Fetch { remote, local: target });
            }
            assert(reversed_steps(self.stack@) =~= entry_steps(
                windows,
                dir@,
                texts(local@),
                entries@[i as int],
            ) + reversed_steps(rest));
            assert(reversed_steps(self.stack@) =~= (entry_steps(
                windows,
                dir@,
                texts(local@),
                entries@[i as int],
            ) + done) + reversed_steps(before));
        }
        proof {
            let added = steps_from(windows, dir@, texts(local@), entries@, 0);
            assert forall|root: Seq<char>| #[trigger]
                all_in_place(root, windows, reversed_steps(before)) && in_place(
                    root,
                    windows,
                    (Step::List { dir: dir@, local: texts(local@) }),
                ) implies all_in_place(root, windows, added + reversed_steps(before)) by {
                listed_steps_in_place(root, windows, dir@, texts(local@), entries@, 0);
            }
        }
    }

    /// Counts a file that was downloaded.
    pub fn fetched(&mut self, copied: u64)
        requires
            old(self).valid(),
            old(self).saved_files() < u64::MAX,
            old(self).saved_bytes() + copied <= u64::MAX,
        ensures
            final(self).valid(),
            final(self).windows() == old(self).windows(),
            final(self).steps() == old(self).steps(),
            final(self).saved_files() == old(self).saved_files() + 1,
            final(self).saved_bytes() == old(self).saved_bytes() + copied,
    {
        self.files = self.files + 1;
        self.bytes = self.bytes + copied;
    }

    /// How many files have been saved.
    pub fn files(&self) -> (r: u64)
        ensures
            r == self.saved_files(),
    {
        self.files
    }

    /// How many bytes have been saved.
    pub fn bytes(&self) -> (r: u64)
        ensures
            r == self.saved_bytes(),
    {
        self.bytes
    }
}

/// The closing line of a recursive download.
pub open spec fn downloaded_line(
    files: nat,
    bytes: nat,
    root: Seq<char>,
    ui: UiCtx,
    colors: bool,
) -> Seq<char> {
    ok_label("downloaded"@, colors) + " "@ + decimal(files) + " file"@ + plural(files) + " ("@
        + ui.size_text(bytes) + " total) under "@ + root
}

/// The line that closes a recursive download.
pub fn downloaded_text(files: u64, bytes: u64, root: &str, ui: &UiCtx, colors: bool) -> (r: String)
    ensures
        r@ == downloaded_line(files as nat, bytes as nat, root@, *ui, colors),
{
    let mut out = ok_tag("downloaded", colors);
    out.append(" ");
    let count = decimal_text(files);
    out.append(count.as_str());
    out.append(" file");
    out.append(plural_suffix(files));
    out.append(" (");
    let size = ui.fmt_bytes(bytes);
    out.append(size.as_str());
    out.append(" total) under ");
    out.append(root);
    out
}

/// The entries of each remote directory.
pub type Remote = spec_fn(Seq<char>) -> Seq<DirEntry>;

/// The steps that a download performs from the given ones on, if they end
/// within `fuel` steps: each in turn, a listing followed by what it adds.
/// Behind a refusal, where a download gives up, stand the steps that were left.
pub open spec fn performed(
    fs: Remote,
    windows: bool,
    steps: Seq<Step>,
    fuel: nat,
) -> Option<Seq<Step>>
    decreases fuel,
{
    if steps.len() == 0 {
        Some(Seq::empty())
    } else if fuel == 0 {
        None
    } else {
        let added = match steps[0] {
            Step::List { dir, local } => steps_from(windows, dir, local, fs(dir), 0),
            _ => Seq::empty(),
        };
        match performed(fs, windows, added + steps.drop_first(), (fuel - 1) as nat) {
            Some(rest) => Some(seq![steps[0]] + rest),
            None => None,
        }
    }
}

/// The steps that mirror a directory at most `levels` deep: list it, then for
/// each entry fetch the file, or create the directory and mirror it; a name that
/// has no place below the local directory is refused.
pub open spec fn mirror(
    fs: Remote,
    windows: bool,
    dir: Seq<char>,
    local: Seq<Seq<char>>,
    levels: nat,
) -> Option<Seq<Step>>
    decreases levels, 0int,
{
    if levels == 0 {
        None
    } else {
        match mirror_entries(fs, windows, dir, local, fs(dir), 0, (levels - 1) as nat) {
            Some(rest) => Some(seq![Step::List { dir, local }] + rest),
            None => None,
        }
    }
}

/// The part of a mirror that belongs to the entries from `i` on.
pub open spec fn mirror_entries(
    fs: Remote,
    windows: bool,
    dir: Seq<char>,
    local: Seq<Seq<char>>,
    entries: Seq<DirEntry>,
    i: int,
    levels: nat,
) -> Option<Seq<Step>>
    decreases levels, entries.len() - i + 1,
{
    if i < 0 || i >= entries.len() {
        Some(Seq::empty())
    } else {
        let remote = joined(dir, entries[i].name@);
        let below = local.push(entries[i].name@);
        let first = if !local_name(entries[i].name@, windows) {
            Some(seq![Step::Refuse { name: entries[i].name@ }])
        } else if entries[i].is_directory {
            match mirror(fs, windows, normalized(remote), below, levels) {
                Some(inner) => Some(seq![Step::MakeDir { local: below }] + inner),
                None => None,
            }
        } else {
            Some(seq![Step::Fetch { remote, local: below }])
        };
        match (first, mirror_entries(fs, windows, dir, local, entries, i + 1, levels)) {
            (Some(a), Some(b)) => Some(a + b),
            _ => None,
        }
    }
}

/// A download mirrors its next directory, depth first, and then goes on with
/// the steps behind it.
pub proof fn download_mirrors(
    fs: Remote,
    windows: bool,
    dir: Seq<char>,
    local: Seq<Seq<char>>,
    levels: nat,
    rest: Seq<Step>,
    rest_fuel: nat,
) -> (fuel: nat)
    requires
        mirror(fs, windows, dir, local, levels) is Some,
        performed(fs, windows, rest, rest_fuel) is Some,
    ensures
        performed(fs, windows, seq![Step::List { dir, local }] + rest, fuel) == Some(
            mirror(fs, windows, dir, local, levels)->0 + performed(fs, windows, rest, rest_fuel)->0,
        ),
    decreases levels, 0int,
{
    let after = performed(fs, windows, rest, rest_fuel)->0;
    let steps = seq![Step::List { dir, local }] + rest;
    assert(steps.drop_first() =~= rest);
    let inner = download_mirrors_entries(
        fs,
        windows,
        dir,
        local,
        fs(dir),
        0,
        (levels - 1) as nat,
        rest,
        rest_fuel,
    );
    let body = mirror_entries(fs, windows, dir, local, fs(dir), 0, (levels - 1) as nat)->0;
    assert(seq![Step::List { dir, local }] + (body + after) =~= (seq![Step::List { dir, local }]
        + body) + after);
    inner + 1
}

proof fn download_mirrors_entries(
    fs: Remote,
    windows: bool,
    dir: Seq<char>,
    local: Seq<Seq<char>>,
    entries: Seq<DirEntry>,
    i: int,
    levels: nat,
    rest: Seq<Step>,
    rest_fuel: nat,
) -> (fuel: nat)
    requires
        0 <= i <= entries.len(),
        mirror_entries(fs, windows, dir, local, entries, i, levels) is Some,
        performed(fs, windows, rest, rest_fuel) is Some,
    ensures
        performed(fs, windows, steps_from(windows, dir, local, entries, i) + rest, fuel) == Some(
            mirror_entries(fs, windows, dir, local, entries, i, levels)->0 + performed(
                fs,
                windows,
                rest,
                rest_fuel,
            )->0,
        ),
    decreases levels, entries.len() - i + 1,
{
    let after = performed(fs, windows, rest, rest_fuel)->0;
    if i == entries.len() {
        assert(steps_from(windows, dir, local, entries, i) + rest =~= rest);
        assert(Seq::<Step>::empty() + after =~= after);
        rest_fuel
    } else {
        let e = entries[i];
        let remote = joined(dir, e.name@);
        let below = local.push(e.name@);
        let others = mirror_entries(fs, windows, dir, local, entries, i + 1, levels)->0;
        let more = steps_from(windows, dir, local, entries, i + 1) + rest;
        let more_fuel = download_mirrors_entries(
            fs,
            windows,
            dir,
            local,
            entries,
            i + 1,
            levels,
            rest,
            rest_fuel,
        );
        let steps = steps_from(windows, dir, local, entries, i) + rest;
        if !local_name(e.name@, windows) {
            assert(Seq::<Step>::empty() + steps.drop_first() =~= more);
            let refuse = seq![Step::Refuse { name: e.name@ }];
            assert(refuse + (others + after) =~= (refuse + others) + after);
            more_fuel + 1
        } else if e.is_directory {
            let child = normalized(remote);
            let inner = mirror(fs, windows, child, below, levels)->0;
            let fuel = download_mirrors(fs, windows, child, below, levels, more, more_fuel);
            let next = seq![Step::List { dir: child, local: below }] + more;
            assert(Seq::<Step>::empty() + steps.drop_first() =~= next);
            let make = seq![Step::MakeDir { local: below }];
            assert(make + (inner + (others + after)) =~= ((make + inner) + others) + after);
            fuel + 1
        } else {
            assert(Seq::<Step>::empty() + steps.drop_first() =~= more);
            let get = seq![Step::Fetch { remote, local: below }];
            assert(get + (others + after) =~= (get + others) + after);
            more_fuel + 1
        }
    }
}

/// Every step that a download performs keeps below its local root, at the same
/// relative place as its counterpart below the remote root, whatever names the
/// console sends.
pub proof fn download_stays_in_place(
    fs: Remote,
    root: Seq<char>,
    windows: bool,
    steps: Seq<Step>,
    fuel: nat,
)
    requires
        all_in_place(root, windows, steps),
        performed(fs, windows, steps, fuel) is Some,
    ensures
        all_in_place(root, windows, performed(fs, windows, steps, fuel)->0),
    decreases fuel,
{
    if steps.len() > 0 {
        let rest = steps.drop_first();
        let added = match steps[0] {
            Step::List { dir, local } => steps_from(windows, dir, local, fs(dir), 0),
            _ => Seq::empty(),
        };
        assert(in_place(root, windows, steps[0]));
        if let Step::List { dir, local } = steps[0] {
            listed_steps_in_place(root, windows, dir, local, fs(dir), 0);
        }
        assert forall|i: int| 0 <= i < rest.len() implies in_place(root, windows, #[trigger] rest[i]) by {
            assert(rest[i] == steps[i + 1]);
        }
        download_stays_in_place(fs, root, windows, added + rest, (fuel - 1) as nat);
    }
}

/// A directory's entries hold a file, or a directory, of that name.
pub open spec fn lists(entries: Seq<DirEntry>, name: Seq<char>, is_directory: bool) -> bool {
    exists|i: int|
        0 <= i < entries.len() && (#[trigger] entries[i]).name@ == name && entries[i].is_directory
            == is_directory
}

/// The tree below the remote root holds a file, or a directory, at the end of
/// the given names.
pub open spec fn tree_holds(
    fs: Remote,
    root: Seq<char>,
    names: Seq<Seq<char>>,
    is_directory: bool,
) -> bool
    decreases names.len(),
{
    &&& names.len() > 0
    &&& names.len() > 1 ==> tree_holds(fs, root, names.drop_last(), true)
    &&& lists(fs(dir_below(root, names.drop_last())), names.last(), is_directory)
}

/// No step is a refusal.
pub open spec fn nothing_refused(steps: Seq<Step>) -> bool {
    forall|i: int| 0 <= i < steps.len() ==> !(#[trigger] steps[i] is Refuse)
}

proof fn given_steps_are_performed(
    fs: Remote,
    windows: bool,
    steps: Seq<Step>,
    fuel: nat,
    i: int,
)
    requires
        performed(fs, windows, steps, fuel) is Some,
        0 <= i < steps.len(),
    ensures
        performed(fs, windows, steps, fuel)->0.contains(steps[i]),
    decreases fuel,
{
    let done = performed(fs, windows, steps, fuel)->0;
    let added = match steps[0] {
        Step::List { dir, local } => steps_from(windows, dir, local, fs(dir), 0),
        _ => Seq::empty(),
    };
    let more = added + steps.drop_first();
    let rest = performed(fs, windows, more, (fuel - 1) as nat)->0;
    if i == 0 {
        assert(done[0] == steps[0]);
    } else {
        let k = added.len() + i - 1;
        assert(more[k] == steps[i]);
        given_steps_are_performed(fs, windows, more, (fuel - 1) as nat, k);
        let at = choose|at: int| 0 <= at < rest.len() && rest[at] == steps[i];
        assert(done[at + 1] == steps[i]);
    }
}

proof fn listings_are_followed_up(
    fs: Remote,
    windows: bool,
    steps: Seq<Step>,
    fuel: nat,
    dir: Seq<char>,
    local: Seq<Seq<char>>,
    k: int,
)
    requires
        performed(fs, windows, steps, fuel) is Some,
        performed(fs, windows, steps, fuel)->0.contains((Step::List { dir, local })),
        0 <= k < steps_from(windows, dir, local, fs(dir), 0).len(),
    ensures
        performed(fs, windows, steps, fuel)->0.contains(
            steps_from(windows, dir, local, fs(dir), 0)[k],
        ),
    decreases fuel,
{
    let done = performed(fs, windows, steps, fuel)->0;
    let list = Step::List { dir, local };
    let wanted = steps_from(windows, dir, local, fs(dir), 0)[k];
    let at = choose|at: int| 0 <= at < done.len() && done[at] == list;
    assert(done[at] == list);
    let added = match steps[0] {
        Step::List { dir, local } => steps_from(windows, dir, local, fs(dir), 0),
        _ => Seq::empty(),
    };
    let more = added + steps.drop_first();
    let rest = performed(fs, windows, more, (fuel - 1) as nat)->0;
    if at == 0 {
        assert(more[k] == wanted);
        given_steps_are_performed(fs, windows, more, (fuel - 1) as nat, k);
    } else {
        assert(rest[at - 1] == list);
        listings_are_followed_up(fs, windows, more, (fuel - 1) as nat, dir, local, k);
    }
    let b = choose|b: int| 0 <= b < rest.len() && rest[b] == wanted;
    assert(done[b + 1] == wanted);
}

/// Where the steps of the `j`th entry stand among those of its directory.
proof fn entry_steps_among(
    windows: bool,
    dir: Seq<char>,
    local: Seq<Seq<char>>,
    entries: Seq<DirEntry>,
    i: int,
    j: int,
    k: int,
) -> (at: int)
    requires
        0 <= i <= j < entries.len(),
        0 <= k < entry_steps(windows, dir, local, entries[j]).len(),
    ensures
        0 <= at < steps_from(windows, dir, local, entries, i).len(),
        steps_from(windows, dir, local, entries, i)[at] == entry_steps(
            windows,
            dir,
            local,
            entries[j],
        )[k],
    decreases j - i,
{
    if i == j {
        k
    } else {
        let at = entry_steps_among(windows, dir, local, entries, i + 1, j, k);
        entry_steps(windows, dir, local, entries[i]).len() + at
    }
}

/// A download that ends without a refusal is complete: every file of the tree
/// has been fetched to its place, and every directory, empty ones too, has been
/// created and listed.
pub proof fn download_is_complete(
    fs: Remote,
    root: Seq<char>,
    windows: bool,
    fuel: nat,
    names: Seq<Seq<char>>,
    is_directory: bool,
)
    requires
        ({
            let start = seq![
                Step::List { dir: normalized(root), local: Seq::<Seq<char>>::empty() },
            ];
            &&& performed(fs, windows, start, fuel) is Some
            &&& nothing_refused(performed(fs, windows, start, fuel)->0)
        }),
        tree_holds(fs, root, names, is_directory),
    ensures
        ({
            let start = seq![
                Step::List { dir: normalized(root), local: Seq::<Seq<char>>::empty() },
            ];
            let done = performed(fs, windows, start, fuel)->0;
            if is_directory {
                &&& done.contains((Step::MakeDir { local: names }))
                &&& done.contains((Step::List { dir: dir_below(root, names), local: names }))
            } else {
                done.contains((Step::Fetch { remote: file_below(root, names), local: names }))
            }
        }),
    decreases names.len(),
{
    let start = seq![Step::List { dir: normalized(root), local: Seq::<Seq<char>>::empty() }];
    let done = performed(fs, windows, start, fuel)->0;
    let above = names.drop_last();
    let dir = dir_below(root, above);
    let list = Step::List { dir, local: above };
    if names.len() > 1 {
        download_is_complete(fs, root, windows, fuel, above, true);
    } else {
        assert(above =~= Seq::<Seq<char>>::empty());
        given_steps_are_performed(fs, windows, start, fuel, 0);
        assert(start[0] == list);
    }
    let entries = fs(dir);
    let j = choose|j: int|
        0 <= j < entries.len() && (#[trigger] entries[j]).name@ == names.last()
            && entries[j].is_directory == is_directory;
    let e = entries[j];
    let steps = entry_steps(windows, dir, above, e);
    assert(above.push(e.name@) =~= names);
    let at = entry_steps_among(windows, dir, above, entries, 0, j, 0);
    listings_are_followed_up(fs, windows, start, fuel, dir, above, at);
    if !local_name(e.name@, windows) {
        let b = choose|b: int| 0 <= b < done.len() && done[b] == steps[0];
        assert(done[b] is Refuse);
    } else if is_directory {
        let next = entry_steps_among(windows, dir, above, entries, 0, j, 1);
        listings_are_followed_up(fs, windows, start, fuel, dir, above, next);
    }
}

/// What a step stands for in the tree below the root: a directory, a file, or a
/// name that has no place below a local directory.
pub open spec fn from_tree(fs: Remote, root: Seq<char>, windows: bool, step: Step) -> bool {
    match step {
        Step::List { dir, local } => {
            &&& dir == dir_below(root, local)
            &&& local.len() > 0 ==> tree_holds(fs, root, local, true)
        },
        Step::MakeDir { local } => tree_holds(fs, root, local, true),
        Step::Fetch { remote, local } => {
            &&& tree_holds(fs, root, local, false)
            &&& remote == file_below(root, local)
        },
        Step::Refuse { name } => !local_name(name, windows) && exists|dir: Seq<char>, is_dir: bool|
            #[trigger] lists(fs(dir), name, is_dir),
    }
}

spec fn all_from_tree(fs: Remote, root: Seq<char>, windows: bool, steps: Seq<Step>) -> bool {
    forall|i: int| 0 <= i < steps.len() ==> from_tree(fs, root, windows, #[trigger] steps[i])
}

proof fn listed_steps_from_tree(
    fs: Remote,
    root: Seq<char>,
    windows: bool,
    dir: Seq<char>,
    local: Seq<Seq<char>>,
    i: int,
)
    requires
        from_tree(fs, root, windows, (Step::List { dir, local })),
        0 <= i <= fs(dir).len(),
    ensures
        all_from_tree(fs, root, windows, steps_from(windows, dir, local, fs(dir), i)),
    decreases fs(dir).len() - i,
{
    let entries = fs(dir);
    if i < entries.len() {
        listed_steps_from_tree(fs, root, windows, dir, local, i + 1);
        let e = entries[i];
        let name = e.name@;
        let below = local.push(name);
        assert(below.drop_last() =~= local);
        assert(lists(entries, name, e.is_directory));
        assert(tree_holds(fs, root, below, e.is_directory));
        let here = entry_steps(windows, dir, local, e);
        let rest = steps_from(windows, dir, local, entries, i + 1);
        let steps = steps_from(windows, dir, local, entries, i);
        assert forall|k: int| 0 <= k < steps.len() implies from_tree(
            fs,
            root,
            windows,
            #[trigger] steps[k],
        ) by {
            if k < here.len() {
                assert(steps[k] == here[k]);
                if !local_name(name, windows) {
                    assert(lists(fs(dir), name, e.is_directory));
                }
            } else {
                assert(steps[k] == rest[k - here.len()]);
            }
        }
    }
}

proof fn steps_stay_in_tree(
    fs: Remote,
    root: Seq<char>,
    windows: bool,
    steps: Seq<Step>,
    fuel: nat,
)
    requires
        all_from_tree(fs, root, windows, steps),
        performed(fs, windows, steps, fuel) is Some,
    ensures
        all_from_tree(fs, root, windows, performed(fs, windows, steps, fuel)->0),
    decreases fuel,
{
    if steps.len() > 0 {
        let added = match steps[0] {
            Step::List { dir, local } => steps_from(windows, dir, local, fs(dir), 0),
            _ => Seq::empty(),
        };
        if let Step::List { dir, local } = steps[0] {
            listed_steps_from_tree(fs, root, windows, dir, local, 0);
        }
        let more = added + steps.drop_first();
        assert forall|k: int| 0 <= k < more.len() implies from_tree(
            fs,
            root,
            windows,
            #[trigger] more[k],
        ) by {
            if k < added.len() {
                assert(more[k] == added[k]);
            } else {
                assert(more[k] == steps[k - added.len() + 1]);
            }
        }
        steps_stay_in_tree(fs, root, windows, more, (fuel - 1) as nat);
        let rest = performed(fs, windows, more, (fuel - 1) as nat)->0;
        let done = performed(fs, windows, steps, fuel)->0;
        assert forall|k: int| 0 <= k < done.len() implies from_tree(
            fs,
            root,
            windows,
            #[trigger] done[k],
        ) by {
            if k > 0 {
                assert(done[k] == rest[k - 1]);
            }
        }
    }
}

/// A download fetches nothing but files of the tree, each from its own place,
/// creates and lists nothing but its directories, and refuses nothing but names
/// in it that have no place below a local directory.
pub proof fn download_takes_only_the_tree(
    fs: Remote,
    root: Seq<char>,
    windows: bool,
    fuel: nat,
    k: int,
)
    requires
        ({
            let start = seq![
                Step::List { dir: normalized(root), local: Seq::<Seq<char>>::empty() },
            ];
            &&& performed(fs, windows, start, fuel) is Some
            &&& 0 <= k < performed(fs, windows, start, fuel)->0.len()
        }),
    ensures
        ({
            let start = seq![
                Step::List { dir: normalized(root), local: Seq::<Seq<char>>::empty() },
            ];
            from_tree(fs, root, windows, performed(fs, windows, start, fuel)->0[k])
        }),
{
    let start = seq![Step::List { dir: normalized(root), local: Seq::<Seq<char>>::empty() }];
    assert(from_tree(fs, root, windows, start[0]));
    steps_stay_in_tree(fs, root, windows, start, fuel);
}

/// How many of the entries are files, or directories, that have a place below a
/// local directory.
pub open spec fn placed_among(
    entries: Seq<DirEntry>,
    is_directory: bool,
    windows: bool,
    i: int,
) -> nat
    decreases entries.len() - i,
{
    if i < 0 || i >= entries.len() {
        0
    } else {
        placed_among(entries, is_directory, windows, i + 1) + if local_name(
            entries[i].name@,
            windows,
        ) && entries[i].is_directory == is_directory {
            1nat
        } else {
            0nat
        }
    }
}

/// How many of the steps are fetches.
pub open spec fn fetches(steps: Seq<Step>) -> nat
    decreases steps.len(),
{
    if steps.len() == 0 {
        0
    } else {
        fetches(steps.drop_first()) + if steps[0] is Fetch {
            1nat
        } else {
            0nat
        }
    }
}

/// How many of the steps are listings.
pub open spec fn listings(steps: Seq<Step>) -> nat
    decreases steps.len(),
{
    if steps.len() == 0 {
        0
    } else {
        listings(steps.drop_first()) + if steps[0] is List {
            1nat
        } else {
            0nat
        }
    }
}

/// A listing brings one fetch for each file in it and one further listing for
/// each directory, those aside that have no place below a local directory: no
/// file is fetched twice.
pub proof fn listing_brings_one_step_per_entry(
    windows: bool,
    dir: Seq<char>,
    local: Seq<Seq<char>>,
    entries: Seq<DirEntry>,
    i: int,
)
    requires
        0 <= i <= entries.len(),
    ensures
        fetches(steps_from(windows, dir, local, entries, i)) == placed_among(
            entries,
            false,
            windows,
            i,
        ),
        listings(steps_from(windows, dir, local, entries, i)) == placed_among(
            entries,
            true,
            windows,
            i,
        ),
    decreases entries.len() - i,
{
    if i < entries.len() {
        listing_brings_one_step_per_entry(windows, dir, local, entries, i + 1);
        let here = entry_steps(windows, dir, local, entries[i]);
        let rest = steps_from(windows, dir, local, entries, i + 1);
        let steps = steps_from(windows, dir, local, entries, i);
        if here.len() == 2 {
            assert(steps.drop_first().drop_first() =~= rest);
            assert(steps[0] == here[0]);
            assert(steps.drop_first()[0] == here[1]);
            assert(fetches(steps.drop_first()) == fetches(rest));
            assert(listings(steps.drop_first()) == listings(rest) + 1);
        } else {
            assert(steps.drop_first() =~= rest);
        }
    }
}

/// The line that closes a download tells how many files were saved, how large
/// they are in all, and where they are.
pub proof fn closing_line_tells_counts(
    files: nat,
    bytes: nat,
    root: Seq<char>,
    ui: UiCtx,
    colors: bool,
)
    ensures
        ({
            let line = downloaded_line(files, bytes, root, ui, colors);
            &&& number_at(line, ok_label("downloaded"@, colors).len() as int + 1, files)
            &&& ends(line, " ("@ + ui.size_text(bytes) + " total) under "@ + root)
        }),
{
    reveal_strlit(" ");
    reveal_strlit(" file");
    let line = downloaded_line(files, bytes, root, ui, colors);
    let head = ok_label("downloaded"@, colors) + " "@;
    let last = " ("@ + ui.size_text(bytes) + " total) under "@ + root;
    let tail = " file"@ + plural(files) + last;
    assert(line =~= head + decimal(files) + tail);
    number_is_told(head, files, tail);
    assert(line.skip(line.len() - last.len()) =~= last);
}

/// A refusal names what is refused.
pub proof fn refusal_names_what_is_refused(name: Seq<char>)
    ensures
        refused_note(name).take("remote name "@.len() as int) == "remote name "@,
        refused_note(name).subrange(
            "remote name "@.len() as int,
            ("remote name "@.len() + quoted(name).len()) as int,
        ) == quoted(name),
{
    let note = refused_note(name);
    let head = "remote name "@;
    assert(note.take(head.len() as int) =~= head);
    assert(note.subrange(head.len() as int, (head.len() + quoted(name).len()) as int) =~= quoted(
        name,
    ));
}

/// One name more leads one directory further down: its path is the path so far,
/// the name, and a backslash. A file of that name lies at the same path without
/// the backslash.
pub proof fn names_lead_down_the_path(root: Seq<char>, names: Seq<Seq<char>>, name: Seq<char>)
    requires
        root.len() > 0,
        name.len() > 0,
        name.last() != '\\',
    ensures
        dir_below(root, Seq::empty()) == if root.last() == '\\' {
            root
        } else {
            root + seq!['\\']
        },
        dir_below(root, names).len() > 0 && dir_below(root, names).last() == '\\',
        dir_below(root, names.push(name)) == dir_below(root, names) + name + seq!['\\'],
        file_below(root, names.push(name)) == dir_below(root, names) + name,
{
    reveal_strlit("\\");
    assert("\\"@ =~= seq!['\\']);
    assert(names.push(name).drop_last() =~= names);
    path_ends_in_backslash(root, names);
    let above = dir_below(root, names);
    assert(joined(above, name).last() == name.last());
}

proof fn path_ends_in_backslash(root: Seq<char>, names: Seq<Seq<char>>)
    requires
        root.len() > 0,
    ensures
        dir_below(root, names).len() > 0,
        dir_below(root, names).last() == '\\',
    decreases names.len(),
{
    reveal_strlit("\\");
    if names.len() > 0 {
        let above = dir_below(root, names.drop_last());
        path_ends_in_backslash(root, names.drop_last());
        crate::paths::joined_has_one_backslash(above, names.last());
        crate::paths::normalized_ends_in_backslash(joined(above, names.last()));
    } else {
        crate::paths::normalized_ends_in_backslash(root);
    }
}

/// The failure of a refusal is that of an unusable name, and its note names it.
pub proof fn refusal_fails_with_note(name: String, failure: Failure)
    requires
        tells_refusal(FetchAction::Refuse { name, failure }),
    ensures
        failure.kind == ErrorKind::EmptyFilename,
        failure.note matches Some(note) && note@ == "remote name "@ + quoted(name@)
            + " has no place below the local directory"@,
{
}

proof fn steps_of_entry_start(
    windows: bool,
    dir: Seq<char>,
    local: Seq<Seq<char>>,
    entries: Seq<DirEntry>,
    i: int,
    j: int,
) -> (at: int)
    requires
        0 <= i <= j <= entries.len(),
    ensures
        0 <= at <= steps_from(windows, dir, local, entries, i).len(),
        steps_from(windows, dir, local, entries, i).skip(at) == steps_from(
            windows,
            dir,
            local,
            entries,
            j,
        ),
    decreases j - i,
{
    let steps = steps_from(windows, dir, local, entries, i);
    if i == j {
        assert(steps.skip(0) =~= steps);
        0
    } else {
        let here = entry_steps(windows, dir, local, entries[i]);
        let rest = steps_from(windows, dir, local, entries, i + 1);
        let at = steps_of_entry_start(windows, dir, local, entries, i + 1, j);
        assert(steps.skip(here.len() + at) =~= rest.skip(at));
        here.len() + at
    }
}

/// The entries of a directory have their turns in the order in which the console
/// lists them: of two files, the one that is listed first is fetched first, and
/// all of a directory is done with before what is listed behind it.
pub proof fn entries_have_their_turns_in_order(
    windows: bool,
    dir: Seq<char>,
    local: Seq<Seq<char>>,
    entries: Seq<DirEntry>,
    j: int,
) -> (at: int)
    requires
        0 <= j < entries.len(),
        local_name(entries[j].name@, windows),
    ensures
        ({
            let steps = steps_from(windows, dir, local, entries, 0);
            let e = entries[j];
            let below = local.push(e.name@);
            &&& 0 <= at < steps.len()
            &&& !e.is_directory ==> steps[at] == (Step::Fetch {
                remote: joined(dir, e.name@),
                local: below,
            }) && steps.skip(at + 1) == steps_from(windows, dir, local, entries, j + 1)
            &&& e.is_directory ==> {
                &&& at + 1 < steps.len()
                &&& steps[at] == (Step::MakeDir { local: below })
                &&& steps[at + 1] == (Step::List {
                    dir: normalized(joined(dir, e.name@)),
                    local: below,
                })
                &&& steps.skip(at + 2) == steps_from(windows, dir, local, entries, j + 1)
            }
        }),
{
    let steps = steps_from(windows, dir, local, entries, 0);
    let at = steps_of_entry_start(windows, dir, local, entries, 0, j);
    let tail = steps_from(windows, dir, local, entries, j);
    let here = entry_steps(windows, dir, local, entries[j]);
    let rest = steps_from(windows, dir, local, entries, j + 1);
    assert(tail.len() == here.len() + rest.len());
    assert(steps[at] == steps.skip(at)[0]);
    if here.len() == 2 {
        assert(steps[at + 1] == steps.skip(at)[1]);
        assert(steps.skip(at + 2) =~= steps.skip(at).skip(2));
        assert(tail.skip(2) =~= rest);
    } else {
        assert(steps.skip(at + 1) =~= steps.skip(at).skip(1));
        assert(tail.skip(1) =~= rest);
    }
    at
}

} // verus!
