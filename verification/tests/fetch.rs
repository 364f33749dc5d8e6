use xeedee_cli::error::ErrorKind;
use xeedee_cli::fetch::{downloaded_text, FetchAction, RecursiveGet};
use xeedee_cli::listing::DirEntry;
use xeedee_cli::ui::{OutputFormat, UiCtx};

fn entry(name: &str, is_directory: bool) -> DirEntry {
    DirEntry { name: name.to_owned(), size: 0, is_directory, create_time: 0, change_time: 0 }
}

fn console(path: &str) -> Vec<DirEntry> {
    match path {
        "E:\\top\\" => vec![entry("z", false), entry("sub", true), entry("a", false)],
        "E:\\top\\sub\\" => vec![entry("inner", false), entry("empty", true)],
        "E:\\top\\sub\\empty\\" => vec![],
        _ => panic!("{path}"),
    }
}

#[test]
fn mirrors_a_directory() {
    let mut get = RecursiveGet::new("E:\\top", false);
    let mut log = Vec::new();
    while let Some(action) = get.next() {
        match action {
            FetchAction::List { dir, local } => {
                log.push(format!("list {dir} -> {}", local.join("/")));
                get.listed(&dir, &local, &console(&dir));
            }
            FetchAction::MakeDir { local } => log.push(format!("mkdir {}", local.join("/"))),
            FetchAction::Fetch { remote, local } => {
                log.push(format!("get {remote} -> {}", local.join("/")));
                get.fetched(100);
            }
            FetchAction::Refuse { name, .. } => panic!("{name}"),
        }
    }
    assert_eq!(
        log,
        [
            "list E:\\top\\ -> ",
            "get E:\\top\\z -> z",
            "mkdir sub",
            "list E:\\top\\sub\\ -> sub",
            "get E:\\top\\sub\\inner -> sub/inner",
            "mkdir sub/empty",
            "list E:\\top\\sub\\empty\\ -> sub/empty",
            "get E:\\top\\a -> a",
        ]
    );
    assert_eq!(get.files(), 3);
    assert_eq!(get.bytes(), 300);
}

fn steps_for(entries: &Vec<DirEntry>, windows: bool) -> Vec<String> {
    let mut get = RecursiveGet::new("E:\\", windows);
    assert!(matches!(get.next(), Some(FetchAction::List { .. })));
    get.listed("E:\\", &vec![], entries);
    let mut log = Vec::new();
    while let Some(action) = get.next() {
        log.push(match action {
            FetchAction::List { dir, local } => format!("list {dir} -> {}", local.join("|")),
            FetchAction::MakeDir { local } => format!("mkdir {}", local.join("|")),
            FetchAction::Fetch { remote, local } => format!("get {remote} -> {}", local.join("|")),
            FetchAction::Refuse { name, failure } => {
                assert_eq!(failure.kind, ErrorKind::EmptyFilename);
                let note = failure.note.unwrap();
                assert_eq!(
                    note,
                    format!("remote name {name:?} has no place below the local directory")
                );
                format!("refuse {name}")
            }
        });
    }
    log
}

#[test]
fn refuses_what_would_leave_the_local_root() {
    for name in ["../x", "..", ".", "", "/x", "a/b"] {
        for is_directory in [false, true] {
            for windows in [false, true] {
                let entries = vec![entry(name, is_directory), entry("ok", false)];
                assert_eq!(
                    steps_for(&entries, windows),
                    [format!("refuse {name}"), "get E:\\ok -> ok".to_owned()]
                );
            }
        }
    }
}

#[test]
fn refuses_path_parts_of_windows_only_there() {
    let entries = vec![entry("a\\b", false), entry("C:x", true)];
    assert_eq!(steps_for(&entries, true), ["refuse a\\b", "refuse C:x"]);
    assert_eq!(
        steps_for(&entries, false),
        ["get E:\\a\\b -> a\\b", "mkdir C:x", "list E:\\C:x\\ -> C:x"]
    );
}

#[test]
fn sums_a_download_up() {
    let ui = UiCtx { format: OutputFormat::Plain, no_progress: true, raw_bytes: false };
    assert_eq!(
        downloaded_text(1, 2048, "top", &ui, false),
        "downloaded 1 file (2.00 KiB total) under top"
    );
    assert_eq!(
        downloaded_text(0, 0, "top", &ui, false),
        "downloaded 0 files (0 B total) under top"
    );
}
