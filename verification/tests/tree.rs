use xeedee_cli::listing::DirEntry;
use xeedee_cli::tree::{tree_indent, tree_roots, walked_text, TreeAction, TreeOptions, TreeWalk};
use xeedee_cli::ui::{OutputFormat, UiCtx};

fn dir(name: &str) -> DirEntry {
    DirEntry { name: name.to_owned(), size: 0, is_directory: true, create_time: 0, change_time: 0 }
}

fn file(name: &str, size: u64) -> DirEntry {
    DirEntry { name: name.to_owned(), size, is_directory: false, create_time: 0, change_time: 0 }
}

fn ui(format: OutputFormat) -> UiCtx {
    UiCtx { format, no_progress: true, raw_bytes: true }
}

fn console(path: &str) -> Result<Vec<DirEntry>, String> {
    match path {
        "E:\\" => Ok(vec![file("b.txt", 3), dir("Sub"), file("A.txt", 10), dir("locked")]),
        "E:\\Sub\\" => Ok(vec![dir("deep"), file("x", 1)]),
        "E:\\Sub\\deep\\" => Ok(vec![file("y", 2)]),
        "E:\\locked\\" => Err("Denied".to_owned()),
        "F:\\" => Ok(vec![]),
        _ => panic!("{path}"),
    }
}

fn walk(options: TreeOptions, roots: &[&str]) -> (Vec<String>, u64) {
    let roots: Vec<String> = roots.iter().map(|r| (*r).to_owned()).collect();
    let mut walk = TreeWalk::new(options, &roots);
    let mut lines = Vec::new();
    loop {
        match walk.next() {
            TreeAction::Print(line) => lines.push(line),
            TreeAction::List { dir, banner, dirs } => {
                assert_eq!(dirs, walk.dirs());
                if let Some(line) = banner {
                    lines.push(line);
                }
                match console(&dir) {
                    Ok(entries) => walk.listed(&entries),
                    Err(reason) => walk.unreadable(&reason),
                }
            }
            TreeAction::Done { dirs } => return (lines, dirs),
        }
    }
}

fn options(max_depth: u32, include_files: bool, format: OutputFormat) -> TreeOptions {
    TreeOptions { max_depth, include_files, ui: ui(format), colors: false }
}

#[test]
fn walks_whole_tree() {
    let (lines, dirs) = walk(options(0, true, OutputFormat::Plain), &["E:\\", "F:\\"]);
    assert_eq!(
        lines,
        [
            "E:",
            "|-- locked",
            "|   (unreadable) Denied",
            "|-- Sub",
            "|   |-- deep",
            "|   |   `-- y  (2)",
            "|   `-- x  (1)",
            "|-- A.txt  (10)",
            "`-- b.txt  (3)",
            "F:",
        ]
    );
    assert_eq!(dirs, 5);
}

#[test]
fn walks_pretty_tree() {
    let (lines, _) = walk(options(0, false, OutputFormat::Pretty), &["E:\\"]);
    assert_eq!(
        lines,
        ["E:", "├── locked", "│   (unreadable) Denied", "└── Sub", "    └── deep"]
    );
}

#[test]
fn depth_limit_stops_the_walk() {
    let (lines, dirs) = walk(options(1, false, OutputFormat::Plain), &["E:\\"]);
    assert_eq!(lines, ["E:", "|-- locked", "`-- Sub"]);
    assert_eq!(dirs, 1);
    let (lines, dirs) = walk(options(2, false, OutputFormat::Plain), &["E:\\"]);
    assert_eq!(lines, ["E:", "|-- locked", "|   (unreadable) Denied", "`-- Sub", "    `-- deep"]);
    assert_eq!(dirs, 3);
}

#[test]
fn colors_names_sizes_and_reasons() {
    let mut o = options(0, true, OutputFormat::Pretty);
    o.colors = true;
    let (lines, _) = walk(o, &["E:\\"]);
    assert_eq!(lines[0], "\x1b[1m\x1b[34mE:\x1b[39m\x1b[0m");
    assert_eq!(lines[2], "│   (unreadable) \x1b[31mDenied\x1b[39m");
    assert_eq!(lines[7], "├── A.txt  \x1b[2m(10)\x1b[0m");
}

#[test]
fn plain_trees_have_no_color() {
    let plain = options(0, true, OutputFormat::Plain);
    let mut colored = plain;
    colored.colors = true;
    assert_eq!(walk(colored, &["E:\\"]), walk(plain, &["E:\\"]));
}

#[test]
fn indents_by_ancestors() {
    assert_eq!(tree_indent(&vec![], ui(OutputFormat::Plain)), "");
    assert_eq!(tree_indent(&vec![false, true], ui(OutputFormat::Plain)), "|       ");
    assert_eq!(tree_indent(&vec![true, false], ui(OutputFormat::Pretty)), "    │   ");
}

#[test]
fn roots_are_normalized_or_all_drives() {
    let drives = vec!["E".to_owned(), "FLASH".to_owned()];
    assert_eq!(tree_roots(None, &drives), ["E:\\", "FLASH:\\"]);
    assert_eq!(tree_roots(Some("E:\\x".to_owned()), &drives), ["E:\\x\\"]);
}

#[test]
fn counts_walked_directories() {
    assert_eq!(walked_text(1, false), "walked 1 dir");
    assert_eq!(walked_text(0, false), "walked 0 dirs");
}
