//! Recursive directory listings, one remote reply at a time.
//!
//! A [`TreeWalk`] keeps the tasks that are still to be done. The caller asks
//! for the next action, performs it, and hands back what the console replied.

use vstd::prelude::*;

use crate::fetch::lists;
use crate::listing::{
    sooner, sort_dir_entries, sorted_by_kind_groups, sorted_listing, sorted_listing_exists,
    sorted_listing_keeps_entries, sorted_listing_unique, ties_go_by_name, DirEntry, LsSortBy,
    SortOrder,
};
use crate::paths::{join_path, joined, normalize_dir_path, normalized};
use crate::style::{
    dir_label, note_label, note_style, ok_label, ok_tag, reason_label, reason_style,
    tree_dir_style,
};
use crate::text::{
    decimal, decimal_text, ends, lowered, opt_text, plural, plural_suffix, strip_backslashes, texts,
    without_backslashes,
};
use crate::transfer::{number_at, number_is_told};
use crate::ui::{OutputFormat, UiCtx};

verus! {

/// What a tree listing shows.
#[derive(Copy, Clone, Debug)]
pub struct TreeOptions {
    /// Maximum recursion depth. 0 means unlimited.
    pub max_depth: u32,
    /// Whether files are shown alongside directories.
    pub include_files: bool,
    pub ui: UiCtx,
    /// Whether terminal colors are on.
    pub colors: bool,
}

impl TreeOptions {
    /// Whether lines are colored: plain output never is.
    pub open spec fn is_colored(self) -> bool {
        self.colors && self.ui.is_pretty()
    }

    fn colored(&self) -> (r: bool)
        ensures
            r == self.is_colored(),
    {
        self.colors && self.ui.pretty()
    }
}

/// A directory to be listed.
#[derive(Debug)]
pub struct Visit {
    pub dir: String,
    /// For each ancestor below the root, whether it is the last among its
    /// siblings.
    pub ancestor_is_last: Vec<bool>,
    pub is_root: bool,
}

/// A directory to be listed, as a value.
#[verifier::ext_equal]
pub struct Node {
    pub dir: Seq<char>,
    pub ancestors: Seq<bool>,
    pub is_root: bool,
}

impl View for Visit {
    type V = Node;

    open spec fn view(&self) -> Node {
        Node { dir: self.dir@, ancestors: self.ancestor_is_last@, is_root: self.is_root }
    }
}

/// A step of a walk that is still to be done.
#[derive(Debug)]
pub enum TreeTask {
    Show(String),
    Enter(Visit),
}

/// A step of a walk, as a value.
#[verifier::ext_equal]
pub enum Task {
    Show(Seq<char>),
    Enter(Node),
}

impl View for TreeTask {
    type V = Task;

    open spec fn view(&self) -> Task {
        match self {
            TreeTask::Show(line) => Task::Show(line@),
            TreeTask::Enter(visit) => Task::Enter(visit@),
        }
    }
}

/// What the caller does next.
#[derive(Debug)]
pub enum TreeAction {
    /// Print a line.
    Print(String),
    /// Print the banner, if there is one, and list the directory.
    List { dir: String, banner: Option<String>, dirs: u64 },
    /// Nothing is left.
    Done { dirs: u64 },
}

/// The columns drawn for one ancestor.
pub open spec fn indent_piece(last: bool, pretty: bool) -> Seq<char> {
    if last {
        "    "@
    } else if pretty {
        "│   "@
    } else {
        "|   "@
    }
}

/// The columns drawn for all ancestors.
pub open spec fn indent(ancestors: Seq<bool>, pretty: bool) -> Seq<char>
    decreases ancestors.len(),
{
    if ancestors.len() == 0 {
        Seq::empty()
    } else {
        indent(ancestors.drop_last(), pretty) + indent_piece(ancestors.last(), pretty)
    }
}

/// The indentation of a line below the given ancestors.
pub fn tree_indent(ancestor_is_last: &Vec<bool>, ui: UiCtx) -> (r: String)
    ensures
        r@ == indent(ancestor_is_last@, ui.is_pretty()),
{
    let mut out = String::new();
    for i in 0..ancestor_is_last.len()
        invariant
            out@ == indent(ancestor_is_last@.take(i as int), ui.is_pretty()),
    {
        let last = ancestor_is_last[i];
        if last {
            out.append("    ");
        } else if ui.pretty() {
            out.append("│   ");
        } else {
            out.append("|   ");
        }
        assert(ancestor_is_last@.take(i + 1).drop_last() =~= ancestor_is_last@.take(i as int));
    }
    assert(ancestor_is_last@.take(ancestor_is_last@.len() as int) =~= ancestor_is_last@);
    out
}

/// The connector in front of an entry.
pub open spec fn branch(last: bool, pretty: bool) -> Seq<char> {
    if pretty {
        if last {
            "└── "@
        } else {
            "├── "@
        }
    } else if last {
        "`-- "@
    } else {
        "|-- "@
    }
}

fn branch_text(last: bool, pretty: bool) -> (r: &'static str)
    ensures
        r@ == branch(last, pretty),
{
    if pretty {
        if last {
            "└── "
        } else {
            "├── "
        }
    } else if last {
        "`-- "
    } else {
        "|-- "
    }
}

/// The line of one entry; files carry their size.
pub open spec fn entry_line(o: TreeOptions, node: Node, e: DirEntry, last: bool) -> Seq<char> {
    let pretty = o.ui.is_pretty();
    let name = indent(node.ancestors, pretty) + branch(last, pretty) + dir_label(
        e.name@,
        e.is_directory,
        o.is_colored(),
    );
    if e.is_directory {
        name
    } else {
        name + "  "@ + note_label("("@ + o.ui.size_text(e.size as nat) + ")"@, o.is_colored())
    }
}

/// The line of a directory that could not be listed.
pub open spec fn unreadable_line(o: TreeOptions, node: Node, reason: Seq<char>) -> Seq<char> {
    indent(node.ancestors, o.ui.is_pretty()) + "(unreadable) "@ + reason_label(
        reason,
        o.is_colored(),
    )
}

/// The entries a walk shows, before they are sorted.
pub open spec fn kept(entries: Seq<DirEntry>, include_files: bool) -> Seq<DirEntry> {
    entries.filter(|e: DirEntry| include_files || e.is_directory)
}

/// The entries a walk shows: directories first, then by name.
pub open spec fn shown(entries: Seq<DirEntry>, include_files: bool) -> Seq<DirEntry> {
    choose|t: Seq<DirEntry>|
        sorted_listing(kept(entries, include_files), t, LsSortBy::Kind, SortOrder::Desc)
}

/// Whether a walk lists the subdirectories of `node`.
pub open spec fn descends(o: TreeOptions, node: Node) -> bool {
    o.max_depth == 0 || node.ancestors.len() + 1 < o.max_depth
}

/// The subdirectory `name` of `node`.
pub open spec fn child_node(node: Node, name: Seq<char>, last: bool) -> Node {
    Node {
        dir: normalized(joined(node.dir, name)),
        ancestors: node.ancestors.push(last),
        is_root: false,
    }
}

/// What is done for the `i`th entry shown.
pub open spec fn entry_tasks(o: TreeOptions, node: Node, t: Seq<DirEntry>, i: int) -> Seq<Task> {
    let last = i == t.len() - 1;
    let show = Task::Show(entry_line(o, node, t[i], last));
    if t[i].is_directory && descends(o, node) {
        seq![show, Task::Enter(child_node(node, t[i].name@, last))]
    } else {
        seq![show]
    }
}

/// What is done for the entries shown from the `i`th on.
pub open spec fn tasks_from(o: TreeOptions, node: Node, t: Seq<DirEntry>, i: int) -> Seq<Task>
    decreases t.len() - i,
{
    if i < 0 || i >= t.len() {
        Seq::empty()
    } else {
        entry_tasks(o, node, t, i) + tasks_from(o, node, t, i + 1)
    }
}

/// What is done once the directory has been listed.
pub open spec fn listed_tasks(o: TreeOptions, node: Node, entries: Seq<DirEntry>) -> Seq<Task> {
    tasks_from(o, node, shown(entries, o.include_files), 0)
}

/// What is done once listing the directory has failed.
pub open spec fn unreadable_tasks(o: TreeOptions, node: Node, reason: Seq<char>) -> Seq<Task> {
    seq![Task::Show(unreadable_line(o, node, reason))]
}

/// The line above the tree of a root directory.
pub open spec fn banner(o: TreeOptions, node: Node) -> Option<Seq<char>> {
    if node.is_root {
        Some(dir_label(without_backslashes(node.dir), true, o.is_colored()))
    } else {
        None
    }
}

/// A walk over remote directories.
#[derive(Debug)]
pub struct TreeWalk {
    options: TreeOptions,
    stack: Vec<TreeTask>,
    current: Option<Visit>,
    dirs: u64,
}

pub open spec fn reversed_tasks(stack: Seq<TreeTask>) -> Seq<Task> {
    Seq::new(stack.len(), |i: int| stack[stack.len() - 1 - i]@)
}

impl TreeWalk {
    pub closed spec fn options(self) -> TreeOptions {
        self.options
    }

    /// What is left to be done, first things first.
    pub closed spec fn tasks(self) -> Seq<Task> {
        reversed_tasks(self.stack@)
    }

    /// The directory whose listing is awaited.
    pub closed spec fn awaited(self) -> Option<Node> {
        match self.current {
            Some(visit) => Some(visit@),
            None => None,
        }
    }

    /// How many directories have been visited.
    pub closed spec fn visited(self) -> nat {
        self.dirs as nat
    }

    /// A walk over the given root directories.
    pub fn new(options: TreeOptions, roots: &Vec<String>) -> (r: TreeWalk)
        ensures
            r.options() == options,
            r.tasks() == root_tasks(texts(roots@)),
            r.awaited() is None,
            r.visited() == 0,
    {
        let mut stack: Vec<TreeTask> = Vec::new();
        let mut i: usize = roots.len();
        assert(reversed_tasks(stack@) =~= root_tasks(texts(roots@)).skip(i as int));
        while i > 0
            invariant
                i <= roots@.len(),
                reversed_tasks(stack@) == root_tasks(texts(roots@)).skip(i as int),
            decreases i,
        {
            i -= 1;
            let ghost before = stack@;
            let visit = Visit {
                dir: roots[i].clone(),
                ancestor_is_last: Vec::new(),
                is_root: true,
            };
            assert(visit.ancestor_is_last@ =~= Seq::empty());
            stack.push(TreeTask::Enter(visit));
            assert(reversed_tasks(stack@) =~= seq![stack@.last()@] + reversed_tasks(before));
            assert(root_tasks(texts(roots@)).skip(i as int) =~= seq![
                root_tasks(texts(roots@))[i as int],
            ] + root_tasks(texts(roots@)).skip(i + 1));
        }
        assert(root_tasks(texts(roots@)).skip(0) =~= root_tasks(texts(roots@)));
        TreeWalk { options, stack, current: None, dirs: 0 }
    }

    /// How many directories have been visited.
    pub fn dirs(&self) -> (r: u64)
        ensures
            r == self.visited(),
    {
        self.dirs
    }

    /// The next thing to do.
    pub fn next(&mut self) -> (r: TreeAction)
        requires
            old(self).awaited() is None,
            old(self).visited() < u64::MAX,
        ensures
            final(self).options() == old(self).options(),
            old(self).tasks().len() == 0 ==> {
                &&& r matches TreeAction::Done { dirs } && dirs == old(self).visited()
                &&& final(self).tasks().len() == 0
                &&& final(self).awaited() is None
                &&& final(self).visited() == old(self).visited()
            },
            old(self).tasks().len() > 0 ==> {
                &&& final(self).tasks() == old(self).tasks().drop_first()
                &&& match old(self).tasks()[0] {
                    Task::Show(line) => {
                        &&& r matches TreeAction::Print(s) && s@ == line
                        &&& final(self).awaited() is None
                        &&& final(self).visited() == old(self).visited()
                    },
                    Task::Enter(node) => {
                        &&& r matches TreeAction::List { dir, banner: b, dirs } && dir@ == node.dir
                            && opt_text(b) == banner(old(self).options(), node) && dirs
                            == old(self).visited() + 1
                        &&& final(self).awaited() == Some(node)
                        &&& final(self).visited() == old(self).visited() + 1
                    },
                }
            },
    {
        let ghost before = self.stack@;
        match self.stack.pop() {
            None => TreeAction::Done { dirs: self.dirs },
            Some(task) => {
                assert(reversed_tasks(self.stack@) =~= reversed_tasks(before).drop_first());
                match task {
                    TreeTask::Show(line) => TreeAction::Print(line),
                    TreeTask::Enter(visit) => {
                        self.dirs = self.dirs + 1;
                        let b = if visit.is_root {
                            let bare = strip_backslashes(visit.dir.as_str());
                            Some(tree_dir_style(bare.as_str(), true, self.options.colored()))
                        } else {
                            None
                        };
                        let dir = visit.dir.clone();
                        self.current = Some(visit);
                        TreeAction::List { dir, banner: b, dirs: self.dirs }
                    },
                }
            },
        }
    }

    /// Takes the listing of the awaited directory.
    pub fn listed(&mut self, entries: &Vec<DirEntry>)
        requires
            old(self).awaited() is Some,
        ensures
            final(self).options() == old(self).options(),
            final(self).awaited() is None,
            final(self).visited() == old(self).visited(),
            final(self).tasks() == listed_tasks(
                old(self).options(),
                old(self).awaited()->0,
                entries@,
            ) + old(self).tasks(),
            sorted_listing(
                kept(entries@, old(self).options().include_files),
                shown(entries@, old(self).options().include_files),
                LsSortBy::Kind,
                SortOrder::Desc,
            ),
    {
        let options = self.options;
        let ghost before = self.stack@;
        if let Some(visit) = self.current.take() {
            let ghost node = visit@;
            let mut t = keep_entries(entries, options.include_files);
            sort_dir_entries(&mut t, LsSortBy::Kind, SortOrder::Desc);
            proof {
                let s = kept(entries@, options.include_files);
                sorted_listing_unique(
                    s,
                    t@,
                    shown(entries@, options.include_files),
                    LsSortBy::Kind,
                    SortOrder::Desc,
                );
            }
            let limit = options.max_depth;
            let deeper = limit == 0 || visit.ancestor_is_last.len() < (limit - 1) as usize;
            assert(deeper == descends(options, node));
            let mut i: usize = t.len();
            assert(reversed_tasks(self.stack@) =~= tasks_from(options, node, t@, i as int)
                + reversed_tasks(before));
            while i > 0
                invariant
                    i <= t@.len(),
                    node == visit@,
                    deeper == descends(options, node),
                    self.options == options,
                    self.current is None,
                    self.dirs == old(self).dirs,
                    reversed_tasks(self.stack@) == tasks_from(options, node, t@, i as int)
                        + reversed_tasks(before),
                decreases i,
            {
                let ghost rest = self.stack@;
                let ghost done = tasks_from(options, node, t@, i as int);
                let last = i == t.len();
                i -= 1;
                let show = TreeTask::Show(entry_text(&options, &visit, &t[i], last));
                if t[i].is_directory && deeper {
                    let child = child_visit(&visit, t[i].name.as_str(), last);
                    self.stack.push(TreeTask::Enter(child));
                }
                self.stack.push(show);
                assert(reversed_tasks(self.stack@) =~= entry_tasks(options, node, t@, i as int)
                    + reversed_tasks(rest));
                assert(reversed_tasks(self.stack@) =~= (entry_tasks(options, node, t@, i as int)
                    + done) + reversed_tasks(before));
            }
        }
    }

    /// Takes the failure to list the awaited directory.
    pub fn unreadable(&mut self, reason: &str)
        requires
            old(self).awaited() is Some,
        ensures
            final(self).options() == old(self).options(),
            final(self).awaited() is None,
            final(self).visited() == old(self).visited(),
            final(self).tasks() == unreadable_tasks(
                old(self).options(),
                old(self).awaited()->0,
                reason@,
            ) + old(self).tasks(),
    {
        let options = self.options;
        let ghost before = self.stack@;
        if let Some(visit) = self.current.take() {
            let mut line = tree_indent(&visit.ancestor_is_last, options.ui);
            line.append("(unreadable) ");
            let styled = reason_style(reason, options.colored());
            line.append(styled.as_str());
            self.stack.push(TreeTask::Show(line));
            assert(reversed_tasks(self.stack@) =~= unreadable_tasks(options, visit@, reason@)
                + reversed_tasks(before));
        }
    }
}

/// The tasks of a walk that has not begun.
pub open spec fn root_tasks(roots: Seq<Seq<char>>) -> Seq<Task> {
    Seq::new(
        roots.len(),
        |i: int| Task::Enter(Node { dir: roots[i], ancestors: Seq::empty(), is_root: true }),
    )
}

fn keep_entries(entries: &Vec<DirEntry>, include_files: bool) -> (r: Vec<DirEntry>)
    ensures
        r@ == kept(entries@, include_files),
{
    let ghost keep = |e: DirEntry| include_files || e.is_directory;
    let mut out: Vec<DirEntry> = Vec::new();
    for i in 0..entries.len()
        invariant
            keep == (|e: DirEntry| include_files || e.is_directory),
            out@ == entries@.take(i as int).filter(keep),
    {
        let ghost part = entries@.take(i + 1);
        assert(part.drop_last() =~= entries@.take(i as int));
        assert(part.last() == entries@[i as int]);
        reveal(Seq::filter);
        if include_files || entries[i].is_directory {
            out.push(entries[i].copy());
        }
        assert(out@ =~= part.filter(keep));
    }
    assert(entries@.take(entries@.len() as int) =~= entries@);
    out
}

fn entry_text(o: &TreeOptions, visit: &Visit, e: &DirEntry, last: bool) -> (r: String)
    ensures
        r@ == entry_line(*o, visit@, *e, last),
{
    let mut line = tree_indent(&visit.ancestor_is_last, o.ui);
    line.append(branch_text(last, o.ui.pretty()));
    let label = tree_dir_style(e.name.as_str(), e.is_directory, o.colored());
    line.append(label.as_str());
    if !e.is_directory {
        let mut size = "(".to_owned();
        let count = o.ui.fmt_bytes(e.size);
        size.append(count.as_str());
        size.append(")");
        let note = note_style(size.as_str(), o.colored());
        line.append("  ");
        line.append(note.as_str());
    }
    line
}

fn child_visit(visit: &Visit, name: &str, last: bool) -> (r: Visit)
    ensures
        r@ == child_node(visit@, name@, last),
{
    let path = join_path(visit.dir.as_str(), name);
    let dir = normalize_dir_path(path.as_str());
    let mut ancestor_is_last = visit.ancestor_is_last.clone();
    ancestor_is_last.push(last);
    Visit { dir, ancestor_is_last, is_root: false }
}

/// The roots of a walk: the given path, or every drive.
pub open spec fn roots_of(path: Option<Seq<char>>, drives: Seq<Seq<char>>) -> Seq<Seq<char>> {
    match path {
        Some(p) => seq![normalized(p)],
        None => Seq::new(drives.len(), |i: int| drives[i] + ":\\"@),
    }
}

/// The directories that a walk begins with. Without a path these are the roots
/// of all drives.
pub fn tree_roots(path: Option<String>, drives: &Vec<String>) -> (r: Vec<String>)
    ensures
        texts(r@) == roots_of(opt_text(path), texts(drives@)),
{
    let mut out: Vec<String> = Vec::new();
    match path {
        Some(p) => {
            out.push(normalize_dir_path(p.as_str()));
            assert(texts(out@) =~= seq![normalized(p@)]);
        },
        None => {
            let ghost all = roots_of(None, texts(drives@));
            for i in 0..drives.len()
                invariant
                    all == roots_of(None, texts(drives@)),
                    texts(out@) == all.take(i as int),
            {
                let ghost before = out@;
                let mut root = drives[i].clone();
                root.append(":\\");
                out.push(root);
                assert(texts(out@) =~= texts(before).push(root@));
                assert(texts(out@) =~= all.take(i + 1));
            }
            assert(texts(out@) =~= all);
        },
    }
    out
}

/// The closing line of a walk.
pub open spec fn walked_line(dirs: nat, colors: bool) -> Seq<char> {
    ok_label("walked"@, colors) + " "@ + decimal(dirs) + " dir"@ + plural(dirs)
}

/// The line that closes a walk.
pub fn walked_text(dirs: u64, colors: bool) -> (r: String)
    ensures
        r@ == walked_line(dirs as nat, colors),
{
    let mut out = ok_tag("walked", colors);
    out.append(" ");
    let count = decimal_text(dirs);
    out.append(count.as_str());
    out.append(" dir");
    out.append(plural_suffix(dirs));
    out
}

/// What a console replies to the listing of each directory: its entries, or
/// the reason why there are none.
pub type Console = spec_fn(Seq<char>) -> Result<Seq<DirEntry>, Seq<char>>;

/// The printed lines of a walk and the number of directories it visited.
#[verifier::ext_equal]
pub struct Printed {
    pub lines: Seq<Seq<char>>,
    pub dirs: nat,
}

pub open spec fn nothing() -> Printed {
    Printed { lines: Seq::empty(), dirs: 0 }
}

/// First `a`, then `b`.
pub open spec fn followed_by(a: Printed, b: Printed) -> Printed {
    Printed { lines: a.lines + b.lines, dirs: a.dirs + b.dirs }
}

pub open spec fn one_line(line: Seq<char>) -> Printed {
    Printed { lines: seq![line], dirs: 0 }
}

/// What visiting a directory prints before its entries.
pub open spec fn opening(o: TreeOptions, node: Node) -> Printed {
    Printed {
        lines: match banner(o, node) {
            Some(line) => seq![line],
            None => Seq::empty(),
        },
        dirs: 1,
    }
}

/// The tasks that the console's reply adds.
pub open spec fn reply_tasks(
    o: TreeOptions,
    node: Node,
    reply: Result<Seq<DirEntry>, Seq<char>>,
) -> Seq<Task> {
    match reply {
        Ok(entries) => listed_tasks(o, node, entries),
        Err(reason) => unreadable_tasks(o, node, reason),
    }
}

/// What doing the tasks one after the other prints, if it ends within `steps`
/// steps.
pub open spec fn carried_out(
    fs: Console,
    o: TreeOptions,
    tasks: Seq<Task>,
    steps: nat,
) -> Option<Printed>
    decreases steps,
{
    if tasks.len() == 0 {
        Some(nothing())
    } else if steps == 0 {
        None
    } else {
        match tasks[0] {
            Task::Show(line) => match carried_out(
                fs,
                o,
                tasks.drop_first(),
                (steps - 1) as nat,
            ) {
                Some(rest) => Some(followed_by(one_line(line), rest)),
                None => None,
            },
            Task::Enter(node) => match carried_out(
                fs,
                o,
                reply_tasks(o, node, fs(node.dir)) + tasks.drop_first(),
                (steps - 1) as nat,
            ) {
                Some(rest) => Some(followed_by(opening(o, node), rest)),
                None => None,
            },
        }
    }
}

/// The tree below a directory, if it is at most `levels` deep: its banner, then
/// for each entry its line and, below a directory, that directory's tree.
pub open spec fn tree_of(fs: Console, o: TreeOptions, node: Node, levels: nat) -> Option<Printed>
    decreases levels, 0int,
{
    if levels == 0 {
        None
    } else {
        match fs(node.dir) {
            Err(reason) => Some(
                followed_by(opening(o, node), one_line(unreadable_line(o, node, reason))),
            ),
            Ok(entries) => match entries_tree(
                fs,
                o,
                node,
                shown(entries, o.include_files),
                0,
                (levels - 1) as nat,
            ) {
                Some(rest) => Some(followed_by(opening(o, node), rest)),
                None => None,
            },
        }
    }
}

/// The part of a directory's tree that belongs to its entries from `i` on.
pub open spec fn entries_tree(
    fs: Console,
    o: TreeOptions,
    node: Node,
    t: Seq<DirEntry>,
    i: int,
    levels: nat,
) -> Option<Printed>
    decreases levels, t.len() - i + 1,
{
    if i < 0 || i >= t.len() {
        Some(nothing())
    } else {
        let last = i == t.len() - 1;
        let line = one_line(entry_line(o, node, t[i], last));
        let below = if t[i].is_directory && descends(o, node) {
            tree_of(fs, o, child_node(node, t[i].name@, last), levels)
        } else {
            Some(nothing())
        };
        match (below, entries_tree(fs, o, node, t, i + 1, levels)) {
            (Some(b), Some(rest)) => Some(followed_by(followed_by(line, b), rest)),
            _ => None,
        }
    }
}

/// A walk prints the tree of its next directory and then goes on with the
/// tasks behind it: for every console whose tree is finite, some number of
/// steps carries it out.
pub proof fn walk_prints_tree(
    fs: Console,
    o: TreeOptions,
    node: Node,
    levels: nat,
    rest: Seq<Task>,
    rest_steps: nat,
) -> (steps: nat)
    requires
        tree_of(fs, o, node, levels) is Some,
        carried_out(fs, o, rest, rest_steps) is Some,
    ensures
        carried_out(fs, o, seq![Task::Enter(node)] + rest, steps) == Some(
            followed_by(
                tree_of(fs, o, node, levels)->0,
                carried_out(fs, o, rest, rest_steps)->0,
            ),
        ),
    decreases levels, 0int,
{
    let tasks = seq![Task::Enter(node)] + rest;
    assert(tasks.drop_first() =~= rest);
    let after = carried_out(fs, o, rest, rest_steps)->0;
    match fs(node.dir) {
        Err(reason) => {
            let line = unreadable_line(o, node, reason);
            let more = unreadable_tasks(o, node, reason) + rest;
            assert(more.drop_first() =~= rest);
            assert(carried_out(fs, o, more, rest_steps + 1) == Some(
                followed_by(one_line(line), after),
            ));
            assert(followed_by(opening(o, node), followed_by(one_line(line), after))
                =~= followed_by(followed_by(opening(o, node), one_line(line)), after));
            rest_steps + 2
        },
        Ok(entries) => {
            let t = shown(entries, o.include_files);
            let inner = walk_prints_entries(
                fs,
                o,
                node,
                t,
                0,
                (levels - 1) as nat,
                rest,
                rest_steps,
            );
            let body = entries_tree(fs, o, node, t, 0, (levels - 1) as nat)->0;
            assert(followed_by(opening(o, node), followed_by(body, after)) =~= followed_by(
                followed_by(opening(o, node), body),
                after,
            ));
            inner + 1
        },
    }
}

proof fn walk_prints_entries(
    fs: Console,
    o: TreeOptions,
    node: Node,
    t: Seq<DirEntry>,
    i: int,
    levels: nat,
    rest: Seq<Task>,
    rest_steps: nat,
) -> (steps: nat)
    requires
        0 <= i <= t.len(),
        entries_tree(fs, o, node, t, i, levels) is Some,
        carried_out(fs, o, rest, rest_steps) is Some,
    ensures
        carried_out(fs, o, tasks_from(o, node, t, i) + rest, steps) == Some(
            followed_by(
                entries_tree(fs, o, node, t, i, levels)->0,
                carried_out(fs, o, rest, rest_steps)->0,
            ),
        ),
    decreases levels, t.len() - i + 1,
{
    let after = carried_out(fs, o, rest, rest_steps)->0;
    if i == t.len() {
        assert(tasks_from(o, node, t, i) + rest =~= rest);
        assert(followed_by(nothing(), after) =~= after);
        rest_steps
    } else {
        let last = i == t.len() - 1;
        let line = one_line(entry_line(o, node, t[i], last));
        let others = entries_tree(fs, o, node, t, i + 1, levels)->0;
        let more = tasks_from(o, node, t, i + 1) + rest;
        let more_steps = walk_prints_entries(
            fs,
            o,
            node,
            t,
            i + 1,
            levels,
            rest,
            rest_steps,
        );
        let tasks = tasks_from(o, node, t, i) + rest;
        if t[i].is_directory && descends(o, node) {
            let child = child_node(node, t[i].name@, last);
            let b = tree_of(fs, o, child, levels)->0;
            let steps = walk_prints_tree(fs, o, child, levels, more, more_steps);
            assert(tasks.drop_first() =~= seq![Task::Enter(child)] + more);
            assert(followed_by(line, followed_by(b, followed_by(others, after))) =~= followed_by(
                followed_by(followed_by(line, b), others),
                after,
            ));
            steps + 1
        } else {
            assert(tasks.drop_first() =~= more);
            assert(followed_by(line, followed_by(others, after)) =~= followed_by(
                followed_by(followed_by(line, nothing()), others),
                after,
            ));
            more_steps + 1
        }
    }
}

/// With a depth limit, a walk ends on every console: the tree is finite.
pub proof fn limited_tree_is_finite(fs: Console, o: TreeOptions, node: Node, levels: nat)
    requires
        o.max_depth > 0,
        levels > 0,
        node.ancestors.len() + levels >= o.max_depth,
    ensures
        tree_of(fs, o, node, levels) is Some,
    decreases levels, 0int,
{
    match fs(node.dir) {
        Err(_) => {},
        Ok(entries) => {
            limited_entries_finite(
                fs,
                o,
                node,
                shown(entries, o.include_files),
                0,
                (levels - 1) as nat,
            );
        },
    }
}

proof fn limited_entries_finite(
    fs: Console,
    o: TreeOptions,
    node: Node,
    t: Seq<DirEntry>,
    i: int,
    levels: nat,
)
    requires
        o.max_depth > 0,
        node.ancestors.len() + levels + 1 >= o.max_depth,
        0 <= i <= t.len(),
    ensures
        entries_tree(fs, o, node, t, i, levels) is Some,
    decreases levels, t.len() - i + 1,
{
    if i < t.len() {
        limited_entries_finite(fs, o, node, t, i + 1, levels);
        if t[i].is_directory && descends(o, node) {
            let last = i == t.len() - 1;
            limited_tree_is_finite(fs, o, child_node(node, t[i].name@, last), levels);
        }
    }
}

/// Every directory below a root that a walk lists has a normalized path.
pub proof fn child_paths_are_normalized(node: Node, name: Seq<char>, last: bool)
    ensures
        child_node(node, name, last).dir.last() == '\\',
        child_node(node, name, last).dir.len() > 0,
{
    reveal_strlit("\\");
    crate::paths::normalized_ends_in_backslash(joined(node.dir, name));
}

/// The tasks that a walk does from the given ones on, if they end within
/// `steps` steps: each in turn, a directory followed by what its listing adds.
pub open spec fn done(
    fs: Console,
    o: TreeOptions,
    tasks: Seq<Task>,
    steps: nat,
) -> Option<Seq<Task>>
    decreases steps,
{
    if tasks.len() == 0 {
        Some(Seq::empty())
    } else if steps == 0 {
        None
    } else {
        match done(fs, o, added_tasks(fs, o, tasks[0]) + tasks.drop_first(), (steps - 1) as nat) {
            Some(rest) => Some(seq![tasks[0]] + rest),
            None => None,
        }
    }
}

/// What doing one task adds to the tasks.
pub open spec fn added_tasks(fs: Console, o: TreeOptions, task: Task) -> Seq<Task> {
    match task {
        Task::Show(_) => Seq::empty(),
        Task::Enter(node) => reply_tasks(o, node, fs(node.dir)),
    }
}

/// The directory to which names lead from a root, one below the other.
pub open spec fn path_below(root: Seq<char>, names: Seq<Seq<char>>) -> Seq<char>
    decreases names.len(),
{
    if names.len() == 0 {
        root
    } else {
        normalized(joined(path_below(root, names.drop_last()), names.last()))
    }
}

/// Each name is that of a directory in the one before, as the console lists it.
pub open spec fn leads_down(fs: Console, root: Seq<char>, names: Seq<Seq<char>>) -> bool
    decreases names.len(),
{
    names.len() > 0 ==> {
        &&& leads_down(fs, root, names.drop_last())
        &&& fs(path_below(root, names.drop_last())) matches Ok(entries) && lists(
            entries,
            names.last(),
            true,
        )
    }
}

/// No listing is longer than memory can hold.
pub open spec fn listable(fs: Console) -> bool {
    forall|dir: Seq<char>| (#[trigger] fs(dir)) matches Ok(entries) ==> entries.len() <= usize::MAX
}

/// The line of the entry, as the last among its siblings or not, was printed.
pub open spec fn line_printed(o: TreeOptions, all: Seq<Task>, node: Node, e: DirEntry) -> bool {
    exists|last: bool| all.contains(Task::Show(#[trigger] entry_line(o, node, e, last)))
}

proof fn shown_entries(entries: Seq<DirEntry>, include_files: bool)
    requires
        entries.len() <= usize::MAX,
    ensures
        sorted_listing(
            kept(entries, include_files),
            shown(entries, include_files),
            LsSortBy::Kind,
            SortOrder::Desc,
        ),
        forall|k: int|
            0 <= k < entries.len() && (include_files || (#[trigger] entries[k]).is_directory)
                ==> shown(entries, include_files).contains(entries[k]),
        forall|k: int|
            0 <= k < shown(entries, include_files).len() ==> entries.contains(
                #[trigger] shown(entries, include_files)[k],
            ) && (include_files || shown(entries, include_files)[k].is_directory),
{
    broadcast use vstd::seq_lib::group_to_multiset_ensures;

    let keep = |e: DirEntry| include_files || e.is_directory;
    let s = kept(entries, include_files);
    let t = shown(entries, include_files);
    assert(s == entries.filter(keep));
    entries.lemma_filter_len(keep);
    let u = sorted_listing_exists(s, LsSortBy::Kind, SortOrder::Desc);
    assert(sorted_listing(s, t, LsSortBy::Kind, SortOrder::Desc));
    sorted_listing_keeps_entries(s, t, LsSortBy::Kind, SortOrder::Desc);
    assert forall|k: int|
        0 <= k < entries.len() && (include_files || (#[trigger] entries[k]).is_directory) implies
        t.contains(entries[k]) by {
        entries.lemma_filter_contains(keep, k);
        assert(s.to_multiset().count(entries[k]) > 0);
    }
    assert forall|k: int| 0 <= k < t.len() implies entries.contains(#[trigger] t[k]) && (
    include_files || t[k].is_directory) by {
        assert(t.contains(t[k]));
        assert(t.to_multiset().count(t[k]) > 0);
        assert(s.contains(t[k]));
        entries.lemma_filter_contains_rev(keep, t[k]);
        let m = choose|m: int| 0 <= m < s.len() && s[m] == t[k];
        entries.lemma_filter_pred(keep, m);
    }
}

proof fn given_tasks_are_done(fs: Console, o: TreeOptions, tasks: Seq<Task>, steps: nat, i: int)
    requires
        done(fs, o, tasks, steps) is Some,
        0 <= i < tasks.len(),
    ensures
        done(fs, o, tasks, steps)->0.contains(tasks[i]),
    decreases steps,
{
    let all = done(fs, o, tasks, steps)->0;
    let added = added_tasks(fs, o, tasks[0]);
    let more = added + tasks.drop_first();
    let rest = done(fs, o, more, (steps - 1) as nat)->0;
    if i == 0 {
        assert(all[0] == tasks[0]);
    } else {
        let k = added.len() + i - 1;
        assert(more[k] == tasks[i]);
        given_tasks_are_done(fs, o, more, (steps - 1) as nat, k);
        let at = choose|at: int| 0 <= at < rest.len() && rest[at] == tasks[i];
        assert(all[at + 1] == tasks[i]);
    }
}

proof fn added_tasks_are_done(
    fs: Console,
    o: TreeOptions,
    tasks: Seq<Task>,
    steps: nat,
    task: Task,
    k: int,
)
    requires
        done(fs, o, tasks, steps) is Some,
        done(fs, o, tasks, steps)->0.contains(task),
        0 <= k < added_tasks(fs, o, task).len(),
    ensures
        done(fs, o, tasks, steps)->0.contains(added_tasks(fs, o, task)[k]),
    decreases steps,
{
    let all = done(fs, o, tasks, steps)->0;
    let wanted = added_tasks(fs, o, task)[k];
    let at = choose|at: int| 0 <= at < all.len() && all[at] == task;
    assert(all[at] == task);
    let more = added_tasks(fs, o, tasks[0]) + tasks.drop_first();
    let rest = done(fs, o, more, (steps - 1) as nat)->0;
    if at == 0 {
        assert(more[k] == wanted);
        given_tasks_are_done(fs, o, more, (steps - 1) as nat, k);
    } else {
        assert(rest[at - 1] == task);
        added_tasks_are_done(fs, o, more, (steps - 1) as nat, task, k);
    }
    let b = choose|b: int| 0 <= b < rest.len() && rest[b] == wanted;
    assert(all[b + 1] == wanted);
}

/// Where the `k`th task for the `j`th entry stands among the tasks of all.
proof fn entry_tasks_among(
    o: TreeOptions,
    node: Node,
    t: Seq<DirEntry>,
    i: int,
    j: int,
    k: int,
) -> (at: int)
    requires
        0 <= i <= j < t.len(),
        0 <= k < entry_tasks(o, node, t, j).len(),
    ensures
        0 <= at < tasks_from(o, node, t, i).len(),
        tasks_from(o, node, t, i)[at] == entry_tasks(o, node, t, j)[k],
    decreases j - i,
{
    if i == j {
        k
    } else {
        let at = entry_tasks_among(o, node, t, i + 1, j, k);
        entry_tasks(o, node, t, i).len() + at
    }
}

/// A walk that ends is complete. It has listed every directory to which names
/// of directories lead from one of its roots, within the depth asked for (at any
/// depth where that is zero), and for each entry of such a directory, files
/// only where they are wanted, it has printed a line.
pub proof fn walk_is_complete(
    fs: Console,
    o: TreeOptions,
    roots: Seq<Seq<char>>,
    steps: nat,
    root: int,
    names: Seq<Seq<char>>,
) -> (node: Node)
    requires
        listable(fs),
        done(fs, o, root_tasks(roots), steps) is Some,
        0 <= root < roots.len(),
        leads_down(fs, roots[root], names),
        o.max_depth == 0 || names.len() < o.max_depth,
    ensures
        ({
            let all = done(fs, o, root_tasks(roots), steps)->0;
            &&& all.contains(Task::Enter(node))
            &&& node.dir == path_below(roots[root], names)
            &&& node.ancestors.len() == names.len()
            &&& node.is_root == (names.len() == 0)
            &&& fs(node.dir) matches Ok(entries) ==> forall|k: int|
                0 <= k < entries.len() && (o.include_files || entries[k].is_directory)
                    ==> line_printed(o, all, node, #[trigger] entries[k])
            &&& fs(node.dir) matches Err(reason) ==> all.contains(
                Task::Show(unreadable_line(o, node, reason)),
            )
        }),
    decreases names.len(),
{
    let all = done(fs, o, root_tasks(roots), steps)->0;
    let node = if names.len() == 0 {
        let node = Node { dir: roots[root], ancestors: Seq::empty(), is_root: true };
        assert(root_tasks(roots)[root] == Task::Enter(node));
        given_tasks_are_done(fs, o, root_tasks(roots), steps, root);
        node
    } else {
        let above = walk_is_complete(fs, o, roots, steps, root, names.drop_last());
        let entries = fs(above.dir)->Ok_0;
        let t = shown(entries, o.include_files);
        shown_entries(entries, o.include_files);
        let k = choose|k: int|
            0 <= k < entries.len() && (#[trigger] entries[k]).name@ == names.last()
                && entries[k].is_directory == true;
        let j = choose|j: int| 0 <= j < t.len() && t[j] == entries[k];
        assert(t[j] == entries[k]);
        let last = j == t.len() - 1;
        let node = child_node(above, names.last(), last);
        assert(descends(o, above));
        assert(entry_tasks(o, above, t, j)[1] == Task::Enter(node));
        let at = entry_tasks_among(o, above, t, 0, j, 1);
        added_tasks_are_done(fs, o, root_tasks(roots), steps, Task::Enter(above), at);
        node
    };
    match fs(node.dir) {
        Ok(entries) => {
            let t = shown(entries, o.include_files);
            shown_entries(entries, o.include_files);
            assert forall|k: int|
                0 <= k < entries.len() && (o.include_files || entries[k].is_directory) implies
                line_printed(o, all, node, #[trigger] entries[k]) by {
                let j = choose|j: int| 0 <= j < t.len() && t[j] == entries[k];
                assert(t[j] == entries[k]);
                let last = j == t.len() - 1;
                let show = Task::Show(entry_line(o, node, entries[k], last));
                assert(entry_tasks(o, node, t, j)[0] == show);
                let at = entry_tasks_among(o, node, t, 0, j, 0);
                added_tasks_are_done(fs, o, root_tasks(roots), steps, Task::Enter(node), at);
                assert(all.contains(Task::Show(entry_line(o, node, entries[k], last))));
            }
        },
        Err(reason) => {
            added_tasks_are_done(fs, o, root_tasks(roots), steps, Task::Enter(node), 0);
        },
    }
    node
}

/// Names of directories lead from one of the roots to the node, and it lies
/// within the depth asked for.
pub open spec fn within_tree(
    fs: Console,
    o: TreeOptions,
    roots: Seq<Seq<char>>,
    node: Node,
) -> bool {
    exists|root: int, names: Seq<Seq<char>>|
        {
            &&& 0 <= root < roots.len()
            &&& #[trigger] leads_down(fs, roots[root], names)
            &&& node.dir == path_below(roots[root], names)
            &&& node.ancestors.len() == names.len()
            &&& o.max_depth == 0 || names.len() < o.max_depth
        }
}

spec fn all_within_tree(
    fs: Console,
    o: TreeOptions,
    roots: Seq<Seq<char>>,
    tasks: Seq<Task>,
) -> bool {
    forall|i: int|
        0 <= i < tasks.len() ==> ((#[trigger] tasks[i]) matches Task::Enter(node) ==> within_tree(
            fs,
            o,
            roots,
            node,
        ))
}

proof fn children_within_tree(
    fs: Console,
    o: TreeOptions,
    roots: Seq<Seq<char>>,
    node: Node,
    entries: Seq<DirEntry>,
    i: int,
)
    requires
        within_tree(fs, o, roots, node),
        fs(node.dir) == Ok::<Seq<DirEntry>, Seq<char>>(entries),
        entries.len() <= usize::MAX,
        0 <= i <= shown(entries, o.include_files).len(),
    ensures
        all_within_tree(
            fs,
            o,
            roots,
            tasks_from(o, node, shown(entries, o.include_files), i),
        ),
    decreases shown(entries, o.include_files).len() - i,
{
    let t = shown(entries, o.include_files);
    if i < t.len() {
        children_within_tree(fs, o, roots, node, entries, i + 1);
        shown_entries(entries, o.include_files);
        let here = entry_tasks(o, node, t, i);
        let rest = tasks_from(o, node, t, i + 1);
        let tasks = tasks_from(o, node, t, i);
        if here.len() == 2 {
            let (root, names) = choose|root: int, names: Seq<Seq<char>>|
                {
                    &&& 0 <= root < roots.len()
                    &&& #[trigger] leads_down(fs, roots[root], names)
                    &&& node.dir == path_below(roots[root], names)
                    &&& node.ancestors.len() == names.len()
                    &&& o.max_depth == 0 || names.len() < o.max_depth
                };
            let below = names.push(t[i].name@);
            assert(below.drop_last() =~= names);
            assert(entries.contains(t[i]));
            let m = choose|m: int| 0 <= m < entries.len() && entries[m] == t[i];
            assert(entries[m].name@ == t[i].name@);
            assert(lists(entries, t[i].name@, true));
            assert(leads_down(fs, roots[root], below));
            let child = child_node(node, t[i].name@, i == t.len() - 1);
            assert(child.dir == path_below(roots[root], below));
            assert(within_tree(fs, o, roots, child));
        }
        assert forall|k: int| 0 <= k < tasks.len() implies ((#[trigger] tasks[k]) matches Task::Enter(
            n,
        ) ==> within_tree(fs, o, roots, n)) by {
            if k < here.len() {
                assert(tasks[k] == here[k]);
            } else {
                assert(tasks[k] == rest[k - here.len()]);
            }
        }
    }
}

proof fn tasks_stay_within_tree(
    fs: Console,
    o: TreeOptions,
    roots: Seq<Seq<char>>,
    tasks: Seq<Task>,
    steps: nat,
)
    requires
        listable(fs),
        all_within_tree(fs, o, roots, tasks),
        done(fs, o, tasks, steps) is Some,
    ensures
        all_within_tree(fs, o, roots, done(fs, o, tasks, steps)->0),
    decreases steps,
{
    if tasks.len() > 0 {
        let added = added_tasks(fs, o, tasks[0]);
        let behind = tasks.drop_first();
        let more = added + behind;
        if let Task::Enter(node) = tasks[0] {
            if let Ok(entries) = fs(node.dir) {
                children_within_tree(fs, o, roots, node, entries, 0);
            }
        }
        assert forall|k: int| 0 <= k < more.len() implies ((#[trigger] more[k]) matches Task::Enter(
            n,
        ) ==> within_tree(fs, o, roots, n)) by {
            if k < added.len() {
                assert(more[k] == added[k]);
            } else {
                assert(more[k] == tasks[k - added.len() + 1]);
            }
        }
        tasks_stay_within_tree(fs, o, roots, more, (steps - 1) as nat);
        let rest = done(fs, o, more, (steps - 1) as nat)->0;
        let all = done(fs, o, tasks, steps)->0;
        assert forall|k: int| 0 <= k < all.len() implies ((#[trigger] all[k]) matches Task::Enter(
            n,
        ) ==> within_tree(fs, o, roots, n)) by {
            if k > 0 {
                assert(all[k] == rest[k - 1]);
            }
        }
    }
}

/// A walk lists nothing but directories to which names of directories lead from
/// one of its roots, and with a depth limit only those that are fewer levels
/// below the root than the limit says.
pub proof fn walk_stays_within_depth(
    fs: Console,
    o: TreeOptions,
    roots: Seq<Seq<char>>,
    steps: nat,
    node: Node,
)
    requires
        listable(fs),
        done(fs, o, root_tasks(roots), steps) is Some,
        done(fs, o, root_tasks(roots), steps)->0.contains(Task::Enter(node)),
    ensures
        within_tree(fs, o, roots, node),
        o.max_depth > 0 ==> node.ancestors.len() < o.max_depth,
{
    let tasks = root_tasks(roots);
    assert forall|i: int| 0 <= i < tasks.len() implies ((#[trigger] tasks[i]) matches Task::Enter(n)
        ==> within_tree(fs, o, roots, n)) by {
        assert(leads_down(fs, roots[i], Seq::empty()));
    }
    tasks_stay_within_tree(fs, o, roots, tasks, steps);
    let all = done(fs, o, tasks, steps)->0;
    let k = choose|k: int| 0 <= k < all.len() && all[k] == Task::Enter(node);
    assert(all[k] == Task::Enter(node));
}

/// The lines that doing the tasks prints: those to be shown, and the banner of
/// each root.
pub open spec fn lines_of_tasks(o: TreeOptions, tasks: Seq<Task>) -> Seq<Seq<char>>
    decreases tasks.len(),
{
    if tasks.len() == 0 {
        Seq::empty()
    } else {
        let first = match tasks[0] {
            Task::Show(line) => seq![line],
            Task::Enter(node) => opening(o, node).lines,
        };
        first + lines_of_tasks(o, tasks.drop_first())
    }
}

/// How many directories are entered.
pub open spec fn dirs_entered(tasks: Seq<Task>) -> nat
    decreases tasks.len(),
{
    if tasks.len() == 0 {
        0
    } else {
        dirs_entered(tasks.drop_first()) + if tasks[0] is Enter {
            1nat
        } else {
            0nat
        }
    }
}

/// What is printed are the lines of the tasks that are done, in their order, and
/// the directories that are counted are those that are entered.
pub proof fn printed_is_what_is_done(fs: Console, o: TreeOptions, tasks: Seq<Task>, steps: nat)
    ensures
        match (carried_out(fs, o, tasks, steps), done(fs, o, tasks, steps)) {
            (Some(printed), Some(all)) => {
                &&& printed.lines == lines_of_tasks(o, all)
                &&& printed.dirs == dirs_entered(all)
            },
            (None, None) => true,
            _ => false,
        },
    decreases steps,
{
    if tasks.len() > 0 && steps > 0 {
        let more = added_tasks(fs, o, tasks[0]) + tasks.drop_first();
        printed_is_what_is_done(fs, o, more, (steps - 1) as nat);
        if tasks[0] is Show {
            assert(more =~= tasks.drop_first());
        }
        if let Some(rest) = done(fs, o, more, (steps - 1) as nat) {
            let all = seq![tasks[0]] + rest;
            assert(all.drop_first() =~= rest);
        }
    }
}

proof fn shallow_tree_is_finite(
    fs: Console,
    o: TreeOptions,
    root: Seq<char>,
    depth: nat,
    names: Seq<Seq<char>>,
    node: Node,
    levels: nat,
)
    requires
        listable(fs),
        forall|ns: Seq<Seq<char>>| #[trigger] leads_down(fs, root, ns) ==> ns.len() <= depth,
        leads_down(fs, root, names),
        node.dir == path_below(root, names),
        names.len() + levels > depth,
    ensures
        tree_of(fs, o, node, levels) is Some,
    decreases levels, 0int,
{
    if let Ok(entries) = fs(node.dir) {
        shown_entries(entries, o.include_files);
        shallow_entries_finite(fs, o, root, depth, names, node, entries, 0, (levels - 1) as nat);
    }
}

proof fn shallow_entries_finite(
    fs: Console,
    o: TreeOptions,
    root: Seq<char>,
    depth: nat,
    names: Seq<Seq<char>>,
    node: Node,
    entries: Seq<DirEntry>,
    i: int,
    levels: nat,
)
    requires
        listable(fs),
        forall|ns: Seq<Seq<char>>| #[trigger] leads_down(fs, root, ns) ==> ns.len() <= depth,
        leads_down(fs, root, names),
        node.dir == path_below(root, names),
        fs(node.dir) == Ok::<Seq<DirEntry>, Seq<char>>(entries),
        names.len() + levels + 1 > depth,
        0 <= i <= shown(entries, o.include_files).len(),
    ensures
        entries_tree(fs, o, node, shown(entries, o.include_files), i, levels) is Some,
    decreases levels, shown(entries, o.include_files).len() - i + 1,
{
    let t = shown(entries, o.include_files);
    if i < t.len() {
        shallow_entries_finite(fs, o, root, depth, names, node, entries, i + 1, levels);
        if t[i].is_directory && descends(o, node) {
            shown_entries(entries, o.include_files);
            let below = names.push(t[i].name@);
            assert(below.drop_last() =~= names);
            assert(entries.contains(t[i]));
            let m = choose|m: int| 0 <= m < entries.len() && entries[m] == t[i];
            assert(entries[m].name@ == t[i].name@);
            assert(lists(entries, t[i].name@, true));
            assert(leads_down(fs, root, below));
            let child = child_node(node, t[i].name@, i == t.len() - 1);
            assert(child.dir == path_below(root, below));
            shallow_tree_is_finite(fs, o, root, depth, below, child, levels);
        }
    }
}

proof fn walk_from_ends(
    fs: Console,
    o: TreeOptions,
    roots: Seq<Seq<char>>,
    depth: nat,
    from: int,
) -> (steps: nat)
    requires
        listable(fs),
        forall|root: int, names: Seq<Seq<char>>|
            0 <= root < roots.len() && #[trigger] leads_down(fs, roots[root], names) ==> names.len()
                <= depth,
        0 <= from <= roots.len(),
    ensures
        carried_out(fs, o, root_tasks(roots).skip(from), steps) is Some,
    decreases roots.len() - from,
{
    let tasks = root_tasks(roots).skip(from);
    if from == roots.len() {
        assert(tasks.len() == 0);
        0
    } else {
        let behind = root_tasks(roots).skip(from + 1);
        let steps = walk_from_ends(fs, o, roots, depth, from + 1);
        let node = Node { dir: roots[from], ancestors: Seq::empty(), is_root: true };
        assert(leads_down(fs, roots[from], Seq::empty()));
        shallow_tree_is_finite(fs, o, roots[from], depth, Seq::empty(), node, depth + 1);
        assert(tasks =~= seq![Task::Enter(node)] + behind);
        walk_prints_tree(fs, o, node, depth + 1, behind, steps)
    }
}

/// Where directories are nested at most `depth` deep below the roots, a walk
/// ends, whatever depth was asked for.
pub proof fn walk_ends(
    fs: Console,
    o: TreeOptions,
    roots: Seq<Seq<char>>,
    depth: nat,
) -> (steps: nat)
    requires
        listable(fs),
        forall|root: int, names: Seq<Seq<char>>|
            0 <= root < roots.len() && #[trigger] leads_down(fs, roots[root], names) ==> names.len()
                <= depth,
    ensures
        done(fs, o, root_tasks(roots), steps) is Some,
{
    let steps = walk_from_ends(fs, o, roots, depth, 0);
    assert(root_tasks(roots).skip(0) =~= root_tasks(roots));
    printed_is_what_is_done(fs, o, root_tasks(roots), steps);
    steps
}

/// How many of the entries are directories.
pub open spec fn directories_among(t: Seq<DirEntry>) -> nat
    decreases t.len(),
{
    if t.len() == 0 {
        0
    } else {
        directories_among(t.drop_first()) + if t[0].is_directory {
            1nat
        } else {
            0nat
        }
    }
}

proof fn tasks_of_entries(o: TreeOptions, node: Node, t: Seq<DirEntry>, i: int)
    requires
        0 <= i <= t.len(),
    ensures
        lines_of_tasks(o, tasks_from(o, node, t, i)) == Seq::new(
            (t.len() - i) as nat,
            |k: int| entry_line(o, node, t[i + k], i + k == t.len() - 1),
        ),
        dirs_entered(tasks_from(o, node, t, i)) == if o.max_depth == 0 || node.ancestors.len() + 1
            < o.max_depth {
            directories_among(t.skip(i))
        } else {
            0
        },
    decreases t.len() - i,
{
    let tasks = tasks_from(o, node, t, i);
    let lines = Seq::new(
        (t.len() - i) as nat,
        |k: int| entry_line(o, node, t[i + k], i + k == t.len() - 1),
    );
    if i < t.len() {
        tasks_of_entries(o, node, t, i + 1);
        let rest = tasks_from(o, node, t, i + 1);
        let after = Seq::new(
            (t.len() - (i + 1)) as nat,
            |k: int| entry_line(o, node, t[i + 1 + k], i + 1 + k == t.len() - 1),
        );
        let line = entry_line(o, node, t[i], i == t.len() - 1);
        assert(t.skip(i).drop_first() =~= t.skip(i + 1));
        assert(t.skip(i)[0] == t[i]);
        if entry_tasks(o, node, t, i).len() == 2 {
            let child = child_node(node, t[i].name@, i == t.len() - 1);
            assert(tasks.drop_first().drop_first() =~= rest);
            assert(tasks.drop_first()[0] == Task::Enter(child));
            assert(opening(o, child).lines =~= Seq::<Seq<char>>::empty());
            assert(lines_of_tasks(o, tasks.drop_first()) =~= after);
            assert(dirs_entered(tasks.drop_first()) == dirs_entered(rest) + 1);
        } else {
            assert(tasks.drop_first() =~= rest);
        }
        assert(seq![line] + after =~= lines);
    } else {
        assert(tasks.len() == 0);
        assert(lines.len() == 0);
        assert(t.skip(i).len() == 0);
        assert(lines_of_tasks(o, tasks) =~= lines);
    }
}

/// A listing adds one line for each entry that is shown, in the order shown, and
/// one visit for each directory among them, where the depth asked for is not
/// yet reached.
pub proof fn listing_adds_one_line_per_entry(
    o: TreeOptions,
    node: Node,
    entries: Seq<DirEntry>,
)
    ensures
        ({
            let t = shown(entries, o.include_files);
            let tasks = listed_tasks(o, node, entries);
            &&& lines_of_tasks(o, tasks).len() == t.len()
            &&& forall|k: int|
                0 <= k < t.len() ==> #[trigger] lines_of_tasks(o, tasks)[k] == entry_line(
                    o,
                    node,
                    t[k],
                    k == t.len() - 1,
                )
            &&& o.max_depth == 0 ==> dirs_entered(tasks) == directories_among(t)
            &&& o.max_depth > 0 && node.ancestors.len() + 1 < o.max_depth ==> dirs_entered(tasks)
                == directories_among(t)
            &&& o.max_depth > 0 && node.ancestors.len() + 1 >= o.max_depth ==> dirs_entered(tasks)
                == 0
        }),
{
    let t = shown(entries, o.include_files);
    tasks_of_entries(o, node, t, 0);
    assert(t.skip(0) =~= t);
}

/// The entries of a directory that are shown are those the console gave, files
/// only where they are wanted, each as often as it was given. Directories come
/// before files, and names ascend within each group, case aside.
pub proof fn shown_entries_are_sorted(entries: Seq<DirEntry>, include_files: bool)
    requires
        entries.len() <= usize::MAX,
    ensures
        ({
            let t = shown(entries, include_files);
            &&& t.to_multiset() == entries.filter(
                |e: DirEntry| include_files || e.is_directory,
            ).to_multiset()
            &&& forall|i: int, j: int|
                #![trigger t[i], t[j]]
                0 <= i < t.len() && 0 <= j < t.len() && t[i].is_directory && !t[j].is_directory
                    ==> i < j
            &&& forall|i: int, j: int|
                #![trigger t[i], t[j]]
                0 <= i < t.len() && 0 <= j < t.len() && t[i].is_directory == t[j].is_directory
                    && sooner(lowered(t[i].name@), lowered(t[j].name@)) ==> i < j
        }),
{
    let s = kept(entries, include_files);
    let t = shown(entries, include_files);
    shown_entries(entries, include_files);
    sorted_listing_keeps_entries(s, t, LsSortBy::Kind, SortOrder::Desc);
    assert forall|i: int, j: int|
        #![trigger t[i], t[j]]
        0 <= i < t.len() && 0 <= j < t.len() && t[i].is_directory && !t[j].is_directory implies i
        < j by {
        sorted_by_kind_groups(s, t, SortOrder::Desc, i, j);
    }
    assert forall|i: int, j: int|
        #![trigger t[i], t[j]]
        0 <= i < t.len() && 0 <= j < t.len() && t[i].is_directory == t[j].is_directory && sooner(
            lowered(t[i].name@),
            lowered(t[j].name@),
        ) implies i < j by {
        ties_go_by_name(s, t, LsSortBy::Kind, SortOrder::Desc, i, j);
    }
}

proof fn indent_columns(ancestors: Seq<bool>, pretty: bool)
    ensures
        indent(ancestors, pretty).len() == 4 * ancestors.len(),
        forall|k: int|
            0 <= k < ancestors.len() ==> #[trigger] indent(ancestors, pretty).subrange(
                4 * k,
                4 * k + 4,
            ) == indent_piece(ancestors[k], pretty),
    decreases ancestors.len(),
{
    reveal_strlit("    ");
    reveal_strlit("│   ");
    reveal_strlit("|   ");
    if ancestors.len() > 0 {
        let front = ancestors.drop_last();
        indent_columns(front, pretty);
        let all = indent(ancestors, pretty);
        assert forall|k: int| 0 <= k < ancestors.len() implies #[trigger] all.subrange(
            4 * k,
            4 * k + 4,
        ) == indent_piece(ancestors[k], pretty) by {
            if k < front.len() {
                assert(all.subrange(4 * k, 4 * k + 4) =~= indent(front, pretty).subrange(
                    4 * k,
                    4 * k + 4,
                ));
                assert(front[k] == ancestors[k]);
            } else {
                assert(all.subrange(4 * k, 4 * k + 4) =~= indent_piece(ancestors[k], pretty));
            }
        }
    }
}

/// The line of an entry has four columns for each directory above it, blank
/// where that directory was the last of its siblings and with a bar in front
/// where more follow; four more that connect it, bent where it is the last; and
/// then its name, behind which a file has its size in brackets.
pub proof fn entry_line_shows_place_name_and_size(
    o: TreeOptions,
    node: Node,
    e: DirEntry,
    last: bool,
)
    ensures
        ({
            let line = entry_line(o, node, e, last);
            let pretty = o.ui.format == OutputFormat::Pretty;
            let colored = pretty && o.colors;
            let at = 4 * (node.ancestors.len() as int + 1);
            let label = dir_label(e.name@, e.is_directory, colored);
            &&& line.len() >= at + label.len()
            &&& forall|k: int|
                0 <= k < node.ancestors.len() ==> #[trigger] line.subrange(4 * k, 4 * k + 4)
                    == if node.ancestors[k] {
                    "    "@
                } else if pretty {
                    "│   "@
                } else {
                    "|   "@
                }
            &&& line.subrange(at - 4, at) == if last && pretty {
                "└── "@
            } else if pretty {
                "├── "@
            } else if last {
                "`-- "@
            } else {
                "|-- "@
            }
            &&& line.subrange(at, at + label.len()) == label
            &&& e.is_directory ==> line.len() == at + label.len()
            &&& !e.is_directory ==> line.skip(at + label.len()) == "  "@ + note_label(
                "("@ + o.ui.size_text(e.size as nat) + ")"@,
                colored,
            )
        }),
{
    let line = entry_line(o, node, e, last);
    let pretty = o.ui.is_pretty();
    let columns = indent(node.ancestors, pretty);
    let at = 4 * (node.ancestors.len() as int + 1);
    let label = dir_label(e.name@, e.is_directory, o.is_colored());
    indent_columns(node.ancestors, pretty);
    reveal_strlit("└── ");
    reveal_strlit("├── ");
    reveal_strlit("`-- ");
    reveal_strlit("|-- ");
    assert forall|k: int| 0 <= k < node.ancestors.len() implies #[trigger] line.subrange(
        4 * k,
        4 * k + 4,
    ) == indent_piece(node.ancestors[k], pretty) by {
        assert(line.subrange(4 * k, 4 * k + 4) =~= columns.subrange(4 * k, 4 * k + 4));
    }
    assert(line.subrange(at - 4, at) =~= branch(last, pretty));
    assert(line.subrange(at, at + label.len()) =~= label);
    if !e.is_directory {
        assert(line.skip(at + label.len()) =~= "  "@ + note_label(
            "("@ + o.ui.size_text(e.size as nat) + ")"@,
            o.is_colored(),
        ));
    }
}

/// The line that closes a walk tells how many directories were walked.
pub proof fn closing_line_tells_directories(dirs: nat, colors: bool)
    ensures
        number_at(walked_line(dirs, colors), ok_label("walked"@, colors).len() as int + 1, dirs),
        ends(walked_line(dirs, colors), " dir"@ + plural(dirs)),
{
    reveal_strlit(" ");
    reveal_strlit(" dir");
    let line = walked_line(dirs, colors);
    let head = ok_label("walked"@, colors) + " "@;
    let tail = " dir"@ + plural(dirs);
    assert(line =~= head + decimal(dirs) + tail);
    number_is_told(head, dirs, tail);
    assert(line.skip(line.len() - tail.len()) =~= tail);
}

/// A walk begins at the path that is given, with a backslash at its end, or,
/// where none is, at the root of every drive in turn.
pub proof fn walk_begins_at_path_or_drives(path: Seq<char>, drives: Seq<Seq<char>>)
    ensures
        roots_of(Some(path), drives).len() == 1,
        roots_of(Some(path), drives)[0] == normalized(path),
        roots_of(None, drives).len() == drives.len(),
        forall|i: int|
            0 <= i < drives.len() ==> #[trigger] roots_of(None, drives)[i] == drives[i] + seq![
                ':',
                '\\',
            ],
{
    reveal_strlit(":\\");
    assert(":\\"@ =~= seq![':', '\\']);
}

/// Each root is entered once, in their order, with nothing above it, and its
/// banner is its path without the backslashes at the end.
pub proof fn roots_are_entered_in_order(o: TreeOptions, roots: Seq<Seq<char>>, i: int)
    requires
        0 <= i < roots.len(),
    ensures
        root_tasks(roots).len() == roots.len(),
        root_tasks(roots)[i] matches Task::Enter(node) && node.dir == roots[i]
            && node.ancestors.len() == 0 && node.is_root && banner(o, node) == Some(
            dir_label(
                without_backslashes(roots[i]),
                true,
                o.colors && o.ui.format == OutputFormat::Pretty,
            ),
        ),
        forall|node: Node| !node.is_root ==> banner(o, node) is None,
{
}

/// A directory that cannot be listed has one line in place of its entries, four
/// columns in for each directory above it, with the reason at its end.
pub proof fn unreadable_line_tells_why(o: TreeOptions, node: Node, reason: Seq<char>)
    ensures
        ({
            let line = unreadable_line(o, node, reason);
            let at = 4 * node.ancestors.len() as int;
            let label = "(unreadable) "@;
            let why = reason_label(reason, o.colors && o.ui.format == OutputFormat::Pretty);
            &&& line.len() == at + label.len() + why.len()
            &&& line.subrange(at, at + label.len()) == label
            &&& line.skip(at + label.len()) == why
            &&& reply_tasks(o, node, Err(reason)) == seq![Task::Show(line)]
        }),
{
    indent_columns(node.ancestors, o.ui.is_pretty());
    let line = unreadable_line(o, node, reason);
    let at = 4 * node.ancestors.len() as int;
    let label = "(unreadable) "@;
    let why = reason_label(reason, o.is_colored());
    assert(line.subrange(at, at + label.len()) =~= label);
    assert(line.skip(at + label.len()) =~= why);
}

/// A directory that is shown is entered right behind its own line, where the depth
/// asked for is not yet reached. It lies below the one that was listed, and
/// remembers whether it was the last of its siblings.
pub proof fn directory_is_entered_behind_its_line(
    o: TreeOptions,
    node: Node,
    entries: Seq<DirEntry>,
    j: int,
) -> (at: int)
    requires
        0 <= j < shown(entries, o.include_files).len(),
        shown(entries, o.include_files)[j].is_directory,
        o.max_depth == 0 || node.ancestors.len() + 1 < o.max_depth,
    ensures
        ({
            let t = shown(entries, o.include_files);
            let tasks = listed_tasks(o, node, entries);
            let last = j == t.len() - 1;
            &&& 0 <= at < tasks.len() - 1
            &&& tasks[at] == Task::Show(entry_line(o, node, t[j], last))
            &&& tasks[at + 1] matches Task::Enter(child) && child.dir == normalized(
                joined(node.dir, t[j].name@),
            ) && child.ancestors == node.ancestors.push(last) && !child.is_root
        }),
{
    let t = shown(entries, o.include_files);
    entry_tasks_side_by_side(o, node, t, 0, j)
}

proof fn entry_tasks_side_by_side(
    o: TreeOptions,
    node: Node,
    t: Seq<DirEntry>,
    i: int,
    j: int,
) -> (at: int)
    requires
        0 <= i <= j < t.len(),
        entry_tasks(o, node, t, j).len() == 2,
    ensures
        0 <= at < tasks_from(o, node, t, i).len() - 1,
        tasks_from(o, node, t, i)[at] == entry_tasks(o, node, t, j)[0],
        tasks_from(o, node, t, i)[at + 1] == entry_tasks(o, node, t, j)[1],
    decreases j - i,
{
    if i == j {
        0
    } else {
        let at = entry_tasks_side_by_side(o, node, t, i + 1, j);
        entry_tasks(o, node, t, i).len() + at
    }
}

/// One name more leads one directory further down: its path is the path so far,
/// the name, and a backslash.
pub proof fn names_lead_down_the_path(root: Seq<char>, names: Seq<Seq<char>>, name: Seq<char>)
    requires
        root.len() > 0,
        root.last() == '\\',
        name.len() > 0,
        name.last() != '\\',
    ensures
        path_below(root, Seq::empty()) == root,
        path_below(root, names).len() > 0 && path_below(root, names).last() == '\\',
        path_below(root, names.push(name)) == path_below(root, names) + name + seq!['\\'],
{
    reveal_strlit("\\");
    assert("\\"@ =~= seq!['\\']);
    assert(names.push(name).drop_last() =~= names);
    if names.len() > 0 {
        crate::paths::joined_has_one_backslash(
            path_below(root, names.drop_last()),
            names.last(),
        );
        crate::paths::normalized_ends_in_backslash(
            joined(path_below(root, names.drop_last()), names.last()),
        );
        path_is_not_empty(root, names);
    }
    let above = path_below(root, names);
    assert(joined(above, name).last() == name.last());
}

proof fn path_is_not_empty(root: Seq<char>, names: Seq<Seq<char>>)
    requires
        root.len() > 0,
    ensures
        path_below(root, names).len() > 0,
    decreases names.len(),
{
    if names.len() > 0 {
        let above = path_below(root, names.drop_last());
        path_is_not_empty(root, names.drop_last());
        crate::paths::joined_has_one_backslash(above, names.last());
        crate::paths::normalized_adds_one_backslash(joined(above, names.last()));
    }
}

} // verus!
