use xeedee_cli::command::{
    plan_get, plan_request, route, Command, DangerousCommand, FileCommand, FileRange, GetPlan,
    Request, Route,
};
use xeedee_cli::error::{ArgumentKey, ErrorKind};
use xeedee_cli::listing::{LsSortBy, SortOrder};
use xeedee_cli::parse::DataBreakKind;
use xeedee_cli::paths::LocalTarget;

fn s(text: &str) -> String {
    text.to_owned()
}

#[test]
fn routes_commands() {
    let cases = vec![
        (Command::Discover { listen_ms: 1, broadcast: None }, Route::Discover),
        (Command::Resolve { name: s("n"), listen_ms: 1 }, Route::Resolve),
        (Command::Xbm, Route::Movie),
        (Command::Dangerous(DangerousCommand::DrivemapEnable), Route::DrivemapEnable),
        (Command::Dangerous(DangerousCommand::NandDump { output: None }), Route::NandDump),
        (Command::Dangerous(DangerousCommand::DrivemapStatus), Route::Connected),
        (Command::Dangerous(DangerousCommand::DrivemapPersist), Route::Connected),
        (Command::PixNotify { duration: 0, log: None }, Route::PixNotify),
        (
            Command::Capture {
                remote: s("r"),
                size_limit_mb: 1,
                duration: None,
                output_dir: s("o"),
                no_conversion: false,
            },
            Route::Capture,
        ),
        (
            Command::Debugger { do_override: true, name: s("n"), user: s("u") },
            Route::Debugger,
        ),
        (Command::Ping, Route::Connected),
        (Command::Raw { line: s("l") }, Route::Connected),
    ];
    for (cmd, expected) in &cases {
        assert_eq!(route(cmd, true).unwrap(), *expected);
        let local = matches!(expected, Route::Discover | Route::Resolve | Route::Movie);
        match route(cmd, false) {
            Ok(r) => assert!(local && r == *expected),
            Err(f) => {
                assert!(!local);
                assert_eq!(f.kind, ErrorKind::EmptyFilename);
                assert_eq!(f.note.as_deref(), Some("--host is required for this subcommand"));
            }
        }
    }
}

#[test]
fn plans_simple_requests() {
    assert!(matches!(plan_request(Command::Ping), Ok(Request::Nothing)));
    assert!(matches!(
        plan_request(Command::Dbgname { set: Some(s("x")) }),
        Ok(Request::SetName(n)) if n == "x"
    ));
    assert!(matches!(plan_request(Command::Dbgname { set: None }), Ok(Request::GetName)));
    assert!(matches!(
        plan_request(Command::Xbeinfo { name: Some(s("t")) }),
        Ok(Request::NamedTitle(n)) if n == "t"
    ));
    assert!(matches!(plan_request(Command::Xbeinfo { name: None }), Ok(Request::RunningTitle)));
    assert!(matches!(
        plan_request(Command::SetTitle { nopersist: true, name: None }),
        Ok(Request::ForgetTitle)
    ));
    assert!(matches!(
        plan_request(Command::SetTitle { nopersist: false, name: None }),
        Ok(Request::SetTitle { name }) if name.is_empty()
    ));
    assert!(matches!(
        plan_request(Command::SetTitle { nopersist: false, name: Some(s("g")) }),
        Ok(Request::SetTitle { name }) if name == "g"
    ));
    assert!(matches!(
        plan_request(Command::Dangerous(DangerousCommand::DrivemapStatus)),
        Ok(Request::DrivemapStatus)
    ));
    assert!(matches!(
        plan_request(Command::Dangerous(DangerousCommand::DrivemapPersist)),
        Ok(Request::DrivemapPersist)
    ));
    assert!(matches!(
        plan_request(Command::Reboot {
            warm: true,
            stop_on_start: false,
            no_debug: true,
            wait: false,
            title: Some(s("t")),
        }),
        Ok(Request::Reboot {
            warm: true,
            stop_on_start: false,
            no_debug: true,
            wait: false,
            title: Some(_),
        })
    ));
}

#[test]
fn plans_file_requests() {
    assert!(matches!(
        plan_request(Command::File(FileCommand::Tree {
            path: None,
            max_depth: 3,
            dirs_only: true,
        })),
        Ok(Request::Tree { path: None, max_depth: 3, include_files: false })
    ));
    assert!(matches!(
        plan_request(Command::File(FileCommand::Ls {
            path: s("E:\\"),
            sort_by: LsSortBy::Size,
            sort_order: SortOrder::Asc,
        })),
        Ok(Request::ListDir { sort_by: LsSortBy::Size, order: SortOrder::Asc, .. })
    ));
    assert!(matches!(
        plan_request(Command::File(FileCommand::Rm { path: s("p"), dir: true })),
        Ok(Request::Delete { is_directory: true, .. })
    ));
    assert!(matches!(
        plan_request(Command::File(FileCommand::Writeto {
            local: s("l"),
            remote: s("r"),
            offset: 4,
            length: 5,
        })),
        Ok(Request::WriteAt { offset: 4, size: 5, .. })
    ));
    assert!(matches!(
        plan_request(Command::File(FileCommand::Fileeof { path: s("p"), size: 6, create: true })),
        Ok(Request::SetFileEnd { size: 6, create_if_missing: true, .. })
    ));
}

#[test]
fn plans_memory_requests() {
    assert!(matches!(
        plan_request(Command::Getmem { address: s("0x82000000"), length: s("16") }),
        Ok(Request::GetMemory { address: 0x8200_0000, length: 16 })
    ));
    assert!(matches!(
        plan_request(Command::Setmem { address: s("4"), hex: s("0aFF") }),
        Ok(Request::SetMemory { address: 4, data }) if data == [0x0a, 0xff]
    ));
    assert!(matches!(
        plan_request(Command::Bp { address: s("0x10"), clear: true }),
        Ok(Request::Breakpoint { address: 16, clear: true })
    ));
    assert!(matches!(
        plan_request(Command::Databp {
            address: s("0x10"),
            size: 4,
            kind: s("RW"),
            clear: false,
        }),
        Ok(Request::DataBreakpoint {
            address: 16,
            size: 4,
            kind: DataBreakKind::ReadWrite,
            clear: false,
        })
    ));
    assert!(matches!(
        plan_request(Command::Threadinfo { thread: s("0xF8001234") }),
        Ok(Request::ThreadInfo { thread: 0xF800_1234 })
    ));
    assert!(matches!(
        plan_request(Command::Isstopped { thread: s("7") }),
        Ok(Request::IsStopped { thread: 7 })
    ));
}

fn refused(cmd: Command) -> (ErrorKind, Option<String>) {
    let f = plan_request(cmd).unwrap_err();
    (f.kind, f.note)
}

#[test]
fn refuses_bad_arguments() {
    let decimal = ErrorKind::InvalidDecimalU32(ArgumentKey::Cli);
    let hex = ErrorKind::InvalidHexDigits(ArgumentKey::Cli);
    assert_eq!(
        refused(Command::Getmem { address: s("x"), length: s("y") }),
        (decimal, Some(s("--address")))
    );
    assert_eq!(
        refused(Command::Getmem { address: s("1"), length: s("0xy") }),
        (hex, Some(s("--length")))
    );
    assert_eq!(refused(Command::Setmem { address: s("x"), hex: s("0") }), (decimal, None));
    assert_eq!(
        refused(Command::Setmem { address: s("1"), hex: s("0\"") }),
        (
            ErrorKind::InvalidHexDigits(ArgumentKey::HexBytes),
            Some(format!("decoding --data {:?}", "0\""))
        )
    );
    assert_eq!(refused(Command::Bp { address: s(""), clear: false }), (decimal, None));
    assert_eq!(
        refused(Command::Databp { address: s("y"), size: 1, kind: s("z"), clear: false }),
        (decimal, None)
    );
    assert_eq!(
        refused(Command::Databp { address: s("1"), size: 1, kind: s("z"), clear: false }),
        (
            ErrorKind::EmptyFilename,
            Some(s("kind must be one of read/write/readwrite/execute"))
        )
    );
    assert_eq!(
        refused(Command::Isstopped { thread: s("t") }),
        (decimal, Some(s("invalid thread id \"t\"")))
    );
}

#[test]
fn plans_downloads() {
    assert!(matches!(
        plan_get("E:\\d", Some(true), None, false, true, None, None),
        Ok(GetPlan::Tree { root: LocalTarget::Exactly(p) }) if p == "d"
    ));
    assert!(matches!(
        plan_get("E:\\f", Some(false), Some("o"), true, true, None, None),
        Ok(GetPlan::File {
            range: FileRange::WholeFile,
            target: LocalTarget::Inside { dir, name },
        }) if dir == "o" && name == "f"
    ));
    assert!(matches!(
        plan_get("E:\\f", None, None, false, false, Some(3), Some(4)),
        Ok(GetPlan::File { range: FileRange::Range { offset: 3, size: 4 }, .. })
    ));
}

fn get_note(
    remote: &str,
    attributes: Option<bool>,
    recursive: bool,
    offset: Option<u64>,
    size: Option<u64>,
) -> String {
    let f = plan_get(remote, attributes, None, false, recursive, offset, size).unwrap_err();
    assert_eq!(f.kind, ErrorKind::EmptyFilename);
    f.note.unwrap()
}

#[test]
fn refuses_downloads() {
    assert_eq!(
        get_note("E:\\d", Some(true), false, Some(1), None),
        format!("{:?} is a directory; pass -r for recursive download", "E:\\d")
    );
    assert_eq!(
        get_note("E:\\d", Some(true), true, None, Some(1)),
        "--offset / --size are file-mode only, not valid with -r"
    );
    assert_eq!(
        get_note("E:\\", Some(false), false, Some(1), None),
        "--offset and --size must be provided together"
    );
    assert_eq!(
        get_note("E:\\", None, false, None, None),
        "cannot derive local filename from \"E:\\\\\""
    );
}
