//! The commands of the client, where each is run, and what it asks of the
//! console.

use vstd::prelude::*;

use crate::error::{ArgumentKey, ErrorKind, Failure};
use crate::hexdump::{bytes_hex, hex_dump_decodes};
use crate::listing::{LsSortBy, SortOrder};
use crate::parse::{
    argument_value, break_kind, decode_hex, parse_bare, parse_break_kind, parse_hinted,
    parse_thread_id, shown_numbers_read_back, spelled_bytes, spells_bytes, spells_number,
    thread_id_note, DataBreakKind,
};
use crate::paths::{
    basename, no_filename_note, resolve_get_dir_output, resolve_get_output, slice_text, tree_name,
    LocalTarget,
};
use crate::text::{quote, quoted, trimmed};

verus! {

/// A command as given on the command line.
#[derive(Debug)]
pub enum Command {
    Discover { listen_ms: u64, broadcast: Option<String> },
    Resolve { name: String, listen_ms: u64 },
    Ping,
    Dbgname { set: Option<String> },
    Systime,
    Dmversion,
    Consoletype,
    Consolefeatures,
    Drivelist,
    Df { drive: String },
    File(FileCommand),
    Altaddr,
    Getpid,
    Consolemem,
    Netaddrs,
    Modules,
    Modsections { module: String },
    Threads,
    Threadinfo { thread: String },
    Xbeinfo { name: Option<String> },
    Walkmem,
    Getmem { address: String, length: String },
    Pclist,
    Querypc { name: String, kind: u32 },
    Sockets,
    Isstopped { thread: String },
    Reboot {
        warm: bool,
        stop_on_start: bool,
        no_debug: bool,
        wait: bool,
        title: Option<String>,
    },
    SetTitle { nopersist: bool, name: Option<String> },
    Setmem { address: String, hex: String },
    Bp { address: String, clear: bool },
    Databp { address: String, size: u32, kind: String, clear: bool },
    Screenshot { output: String, raw: bool },
    Debugger { do_override: bool, name: String, user: String },
    Capture {
        remote: String,
        size_limit_mb: u32,
        duration: Option<u64>,
        output_dir: String,
        no_conversion: bool,
    },
    PixcmdProbe { subcommand: String },
    PixNotify { duration: u64, log: Option<String> },
    /// A command on a local movie file.
    Xbm,
    Raw { line: String },
    Dangerous(DangerousCommand),
}

/// A command on the console's files.
#[derive(Debug)]
pub enum FileCommand {
    Ls { path: String, sort_by: LsSortBy, sort_order: SortOrder },
    Tree { path: Option<String>, max_depth: u32, dirs_only: bool },
    Stat { path: String },
    Mkdir { path: String },
    Rm { path: String, dir: bool },
    Mv { from: String, to: String },
    Get {
        remote: String,
        output: Option<String>,
        recursive: bool,
        offset: Option<u64>,
        size: Option<u64>,
    },
    Put { local: String, remote: String },
    Writeto { local: String, remote: String, offset: u64, length: u64 },
    Fileeof { path: String, size: u64, create: bool },
}

/// A command that writes into the debug monitor's memory image.
#[derive(Debug)]
pub enum DangerousCommand {
    DrivemapEnable,
    DrivemapStatus,
    DrivemapPersist,
    NandDump { output: Option<String> },
}

/// Where a command is run.
#[derive(Copy, Clone, Debug, PartialEq, Eq, Structural)]
pub enum Route {
    /// By broadcast; no console needs to be named.
    Discover,
    Resolve,
    /// On local files.
    Movie,
    /// On connections of its own.
    DrivemapEnable,
    NandDump,
    PixNotify,
    Capture,
    Debugger,
    /// On one connection to the console, which may be recorded.
    Connected,
}

/// The commands that need no console to be named.
pub open spec fn needs_no_host(cmd: Command) -> bool {
    cmd is Discover || cmd is Resolve || cmd is Xbm
}

/// Where a command is run.
pub open spec fn route_of(cmd: Command) -> Route {
    match cmd {
        Command::Discover { .. } => Route::Discover,
        Command::Resolve { .. } => Route::Resolve,
        Command::Xbm => Route::Movie,
        Command::Dangerous(DangerousCommand::DrivemapEnable) => Route::DrivemapEnable,
        Command::Dangerous(DangerousCommand::NandDump { .. }) => Route::NandDump,
        Command::PixNotify { .. } => Route::PixNotify,
        Command::Capture { .. } => Route::Capture,
        Command::Debugger { .. } => Route::Debugger,
        _ => Route::Connected,
    }
}

/// Decides where a command is run.
pub fn route(cmd: &Command, has_host: bool) -> (r: Result<Route, Failure>)
    ensures
        match r {
            Ok(route) => (has_host || needs_no_host(*cmd)) && route == route_of(*cmd),
            Err(f) => !has_host && !needs_no_host(*cmd) && f.reports(
                ErrorKind::EmptyFilename,
                Some("--host is required for this subcommand"@),
            ),
        },
{
    match cmd {
        Command::Discover { .. } => {
            return Ok(Route::Discover);
        },
        Command::Resolve { .. } => {
            return Ok(Route::Resolve);
        },
        Command::Xbm => {
            return Ok(Route::Movie);
        },
        _ => {},
    }
    if !has_host {
        return Err(
            Failure::noted(
                ErrorKind::EmptyFilename,
                "--host is required for this subcommand".to_owned(),
            ),
        );
    }
    Ok(
        match cmd {
            Command::Dangerous(DangerousCommand::DrivemapEnable) => Route::DrivemapEnable,
            Command::Dangerous(DangerousCommand::NandDump { .. }) => Route::NandDump,
            Command::PixNotify { .. } => Route::PixNotify,
            Command::Capture { .. } => Route::Capture,
            Command::Debugger { .. } => Route::Debugger,
            _ => Route::Connected,
        },
    )
}

/// What is asked of a connected console.
#[derive(Debug)]
pub enum Request {
    /// Nothing: that the connection came up says it all.
    Nothing,
    GetName,
    SetName(String),
    SystemTime,
    MonitorVersion,
    ConsoleType,
    ConsoleFeatures,
    DriveList,
    FreeSpace { drive: String },
    ListDir { path: String, sort_by: LsSortBy, order: SortOrder },
    Tree { path: Option<String>, max_depth: u32, include_files: bool },
    Attributes { path: String },
    MakeDir { path: String },
    Delete { path: String, is_directory: bool },
    Rename { from: String, to: String },
    /// Download; what exactly depends on the remote's attributes.
    Download {
        remote: String,
        output: Option<String>,
        recursive: bool,
        offset: Option<u64>,
        size: Option<u64>,
    },
    Upload { local: String, remote: String },
    WriteAt { local: String, remote: String, offset: u64, size: u64 },
    SetFileEnd { path: String, size: u64, create_if_missing: bool },
    AltAddress,
    ProcessId,
    ConsoleMemory,
    NetAddresses,
    Modules,
    ModuleSections { module: String },
    Threads,
    ThreadInfo { thread: u32 },
    RunningTitle,
    NamedTitle(String),
    WalkMemory,
    GetMemory { address: u32, length: u32 },
    CounterList,
    QueryCounter { name: String, kind: u32 },
    Sockets,
    IsStopped { thread: u32 },
    Reboot {
        warm: bool,
        stop_on_start: bool,
        no_debug: bool,
        wait: bool,
        title: Option<String>,
    },
    ForgetTitle,
    SetTitle { name: String },
    SetMemory { address: u32, data: Vec<u8> },
    Breakpoint { address: u32, clear: bool },
    DataBreakpoint { address: u32, size: u32, kind: DataBreakKind, clear: bool },
    Screenshot { output: String, raw: bool },
    PixCommand { subcommand: String },
    RawLine { line: String },
    DrivemapStatus,
    DrivemapPersist,
}

/// A failure's kind and note.
pub type Refusal = (ErrorKind, Option<Seq<char>>);

/// The refusal of a number, if it is refused.
pub open spec fn bad_number(s: Seq<char>, note: Option<Seq<char>>) -> Option<Refusal> {
    match argument_value(s) {
        Ok(_) => None,
        Err(kind) => Some((kind, note)),
    }
}

/// Why a command is refused before anything is sent, if it is.
pub open spec fn refusal(cmd: Command) -> Option<Refusal> {
    match cmd {
        Command::Threadinfo { thread } => bad_number(thread@, Some(thread_id_note(thread@))),
        Command::Isstopped { thread } => bad_number(thread@, Some(thread_id_note(thread@))),
        Command::Getmem { address, length } => match bad_number(address@, Some("--address"@)) {
            Some(r) => Some(r),
            None => bad_number(length@, Some("--length"@)),
        },
        Command::Setmem { address, hex } => match bad_number(address@, None) {
            Some(r) => Some(r),
            None => if spells_bytes(trimmed(hex@)) {
                None
            } else {
                Some(
                    (
                        ErrorKind::InvalidHexDigits(ArgumentKey::HexBytes),
                        Some("decoding --data "@ + quoted(hex@)),
                    ),
                )
            },
        },
        Command::Bp { address, .. } => bad_number(address@, None),
        Command::Databp { address, kind, .. } => match bad_number(address@, None) {
            Some(r) => Some(r),
            None => if break_kind(kind@) is Some {
                None
            } else {
                Some(
                    (
                        ErrorKind::EmptyFilename,
                        Some("kind must be one of read/write/readwrite/execute"@),
                    ),
                )
            },
        },
        _ => None,
    }
}

/// What a file command asks of the console.
pub open spec fn file_asks(cmd: FileCommand, req: Request) -> bool {
    match cmd {
        FileCommand::Ls { path, sort_by, sort_order } => req == (Request::ListDir {
            path,
            sort_by,
            order: sort_order,
        }),
        FileCommand::Tree { path, max_depth, dirs_only } => req == (Request::Tree {
            path,
            max_depth,
            include_files: !dirs_only,
        }),
        FileCommand::Stat { path } => req == (Request::Attributes { path }),
        FileCommand::Mkdir { path } => req == (Request::MakeDir { path }),
        FileCommand::Rm { path, dir } => req == (Request::Delete { path, is_directory: dir }),
        FileCommand::Mv { from, to } => req == (Request::Rename { from, to }),
        FileCommand::Get { remote, output, recursive, offset, size } => req == (
        Request::Download { remote, output, recursive, offset, size }),
        FileCommand::Put { local, remote } => req == (Request::Upload { local, remote }),
        FileCommand::Writeto { local, remote, offset, length } => req == (Request::WriteAt {
            local,
            remote,
            offset,
            size: length,
        }),
        FileCommand::Fileeof { path, size, create } => req == (Request::SetFileEnd {
            path,
            size,
            create_if_missing: create,
        }),
    }
}

/// What a command that is not refused asks of the console.
pub open spec fn asks(cmd: Command, req: Request) -> bool {
    match cmd {
        Command::Ping => req is Nothing,
        Command::Dbgname { set: Some(value) } => req == Request::SetName(value),
        Command::Dbgname { set: None } => req is GetName,
        Command::Systime => req is SystemTime,
        Command::Dmversion => req is MonitorVersion,
        Command::Consoletype => req is ConsoleType,
        Command::Consolefeatures => req is ConsoleFeatures,
        Command::Drivelist => req is DriveList,
        Command::Df { drive } => req == (Request::FreeSpace { drive }),
        Command::File(file) => file_asks(file, req),
        Command::Altaddr => req is AltAddress,
        Command::Getpid => req is ProcessId,
        Command::Consolemem => req is ConsoleMemory,
        Command::Netaddrs => req is NetAddresses,
        Command::Modules => req is Modules,
        Command::Modsections { module } => req == (Request::ModuleSections { module }),
        Command::Threads => req is Threads,
        Command::Threadinfo { thread } => req matches Request::ThreadInfo { thread: id }
            && argument_value(thread@) == Ok::<u32, ErrorKind>(id),
        Command::Xbeinfo { name: Some(path) } => req == Request::NamedTitle(path),
        Command::Xbeinfo { name: None } => req is RunningTitle,
        Command::Walkmem => req is WalkMemory,
        Command::Getmem { address, length } => req matches Request::GetMemory {
            address: a,
            length: n,
        } && argument_value(address@) == Ok::<u32, ErrorKind>(a) && argument_value(length@) == Ok::<
            u32,
            ErrorKind,
        >(n),
        Command::Pclist => req is CounterList,
        Command::Querypc { name, kind } => req == (Request::QueryCounter { name, kind }),
        Command::Sockets => req is Sockets,
        Command::Isstopped { thread } => req matches Request::IsStopped { thread: id }
            && argument_value(thread@) == Ok::<u32, ErrorKind>(id),
        Command::Reboot { warm, stop_on_start, no_debug, wait, title } => req == (
        Request::Reboot { warm, stop_on_start, no_debug, wait, title }),
        Command::SetTitle { nopersist, name } => if nopersist {
            req is ForgetTitle
        } else {
            req matches Request::SetTitle { name: n } && n@ == match name {
                Some(s) => s@,
                None => Seq::empty(),
            }
        },
        Command::Setmem { address, hex } => req matches Request::SetMemory { address: a, data }
            && argument_value(address@) == Ok::<u32, ErrorKind>(a) && data@ == spelled_bytes(
            trimmed(hex@),
        ),
        Command::Bp { address, clear } => req matches Request::Breakpoint { address: a, clear: c }
            && argument_value(address@) == Ok::<u32, ErrorKind>(a) && c == clear,
        Command::Databp { address, size, kind, clear } => req matches Request::DataBreakpoint {
            address: a,
            size: n,
            kind: k,
            clear: c,
        } && argument_value(address@) == Ok::<u32, ErrorKind>(a) && n == size && break_kind(kind@)
            == Some(k) && c == clear,
        Command::Screenshot { output, raw } => req == (Request::Screenshot { output, raw }),
        Command::PixcmdProbe { subcommand } => req == (Request::PixCommand { subcommand }),
        Command::Raw { line } => req == (Request::RawLine { line }),
        Command::Dangerous(DangerousCommand::DrivemapStatus) => req is DrivemapStatus,
        Command::Dangerous(DangerousCommand::DrivemapPersist) => req is DrivemapPersist,
        _ => false,
    }
}

fn plan_file(cmd: FileCommand) -> (r: Request)
    ensures
        file_asks(cmd, r),
{
    match cmd {
        FileCommand::Ls { path, sort_by, sort_order } => Request::ListDir {
            path,
            sort_by,
            order: sort_order,
        },
        FileCommand::Tree { path, max_depth, dirs_only } => Request::Tree {
            path,
            max_depth,
            include_files: !dirs_only,
        },
        FileCommand::Stat { path } => Request::Attributes { path },
        FileCommand::Mkdir { path } => Request::MakeDir { path },
        FileCommand::Rm { path, dir } => Request::Delete { path, is_directory: dir },
        FileCommand::Mv { from, to } => Request::Rename { from, to },
        FileCommand::Get { remote, output, recursive, offset, size } => Request::Download {
            remote,
            output,
            recursive,
            offset,
            size,
        },
        FileCommand::Put { local, remote } => Request::Upload { local, remote },
        FileCommand::Writeto { local, remote, offset, length } => Request::WriteAt {
            local,
            remote,
            offset,
            size: length,
        },
        FileCommand::Fileeof { path, size, create } => Request::SetFileEnd {
            path,
            size,
            create_if_missing: create,
        },
    }
}

/// What a command asks of the console, or why it is refused.
pub fn plan_request(cmd: Command) -> (r: Result<Request, Failure>)
    requires
        route_of(cmd) == Route::Connected,
    ensures
        match refusal(cmd) {
            Some((kind, note)) => r matches Err(f) && f.reports(kind, note),
            None => r matches Ok(req) && asks(cmd, req),
        },
{
    match cmd {
        Command::Ping => Ok(Request::Nothing),
        Command::Dbgname { set } => Ok(
            match set {
                Some(value) => Request::SetName(value),
                None => Request::GetName,
            },
        ),
        Command::Systime => Ok(Request::SystemTime),
        Command::Dmversion => Ok(Request::MonitorVersion),
        Command::Consoletype => Ok(Request::ConsoleType),
        Command::Consolefeatures => Ok(Request::ConsoleFeatures),
        Command::Drivelist => Ok(Request::DriveList),
        Command::Df { drive } => Ok(Request::FreeSpace { drive }),
        Command::File(file) => Ok(plan_file(file)),
        Command::Altaddr => Ok(Request::AltAddress),
        Command::Getpid => Ok(Request::ProcessId),
        Command::Consolemem => Ok(Request::ConsoleMemory),
        Command::Netaddrs => Ok(Request::NetAddresses),
        Command::Modules => Ok(Request::Modules),
        Command::Modsections { module } => Ok(Request::ModuleSections { module }),
        Command::Threads => Ok(Request::Threads),
        Command::Threadinfo { thread } => match parse_thread_id(thread.as_str()) {
            Ok(id) => Ok(Request::ThreadInfo { thread: id }),
            Err(f) => Err(f),
        },
        Command::Xbeinfo { name } => Ok(
            match name {
                Some(path) => Request::NamedTitle(path),
                None => Request::RunningTitle,
            },
        ),
        Command::Walkmem => Ok(Request::WalkMemory),
        Command::Getmem { address, length } => {
            let a: u32 = match parse_hinted(address.as_str(), "--address") {
                Ok(a) => a,
                Err(f) => {
                    return Err(f);
                },
            };
            match parse_hinted(length.as_str(), "--length") {
                Ok(n) => Ok(Request::GetMemory { address: a, length: n }),
                Err(f) => Err(f),
            }
        },
        Command::Pclist => Ok(Request::CounterList),
        Command::Querypc { name, kind } => Ok(Request::QueryCounter { name, kind }),
        Command::Sockets => Ok(Request::Sockets),
        Command::Isstopped { thread } => match parse_thread_id(thread.as_str()) {
            Ok(id) => Ok(Request::IsStopped { thread: id }),
            Err(f) => Err(f),
        },
        Command::Reboot { warm, stop_on_start, no_debug, wait, title } => Ok(
            Request::Reboot { warm, stop_on_start, no_debug, wait, title },
        ),
        Command::SetTitle { nopersist, name } => if nopersist {
            Ok(Request::ForgetTitle)
        } else {
            Ok(
                Request::SetTitle {
                    name: match name {
                        Some(s) => s,
                        None => String::new(),
                    },
                },
            )
        },
        Command::Setmem { address, hex } => {
            let a: u32 = match parse_bare(address.as_str()) {
                Ok(a) => a,
                Err(f) => {
                    return Err(f);
                },
            };
            match decode_hex(hex.as_str()) {
                Ok(data) => Ok(Request::SetMemory { address: a, data }),
                Err(kind) => {
                    let mut note = "decoding --data ".to_owned();
                    let shown = quote(hex.as_str());
                    note.append(shown.as_str());
                    Err(Failure::noted(kind, note))
                },
            }
        },
        Command::Bp { address, clear } => match parse_bare(address.as_str()) {
            Ok(a) => Ok(Request::Breakpoint { address: a, clear }),
            Err(f) => Err(f),
        },
        Command::Databp { address, size, kind, clear } => {
            let a: u32 = match parse_bare(address.as_str()) {
                Ok(a) => a,
                Err(f) => {
                    return Err(f);
                },
            };
            match parse_break_kind(kind.as_str()) {
                Ok(k) => Ok(Request::DataBreakpoint { address: a, size, kind: k, clear }),
                Err(f) => Err(f),
            }
        },
        Command::Screenshot { output, raw } => Ok(Request::Screenshot { output, raw }),
        Command::PixcmdProbe { subcommand } => Ok(Request::PixCommand { subcommand }),
        Command::Raw { line } => Ok(Request::RawLine { line }),
        Command::Dangerous(DangerousCommand::DrivemapStatus) => Ok(Request::DrivemapStatus),
        _ => Ok(Request::DrivemapPersist),
    }
}

/// Only a command that runs on the one connection asks anything through it, and
/// each of these needs a console to be named.
pub proof fn asking_needs_connection(cmd: Command, req: Request)
    requires
        asks(cmd, req),
    ensures
        route_of(cmd) == Route::Connected,
        !needs_no_host(cmd),
{
}

/// What part of a remote file is downloaded.
#[derive(Copy, Clone, Debug, PartialEq, Eq, Structural)]
pub enum FileRange {
    WholeFile,
    Range { offset: u64, size: u64 },
}

/// How a download is carried out.
#[derive(Debug)]
pub enum GetPlan {
    /// The whole tree below the remote directory.
    Tree { root: LocalTarget },
    /// One file.
    File { range: FileRange, target: LocalTarget },
}

/// The range that an offset and a size ask for; `None` where only one is
/// given.
pub open spec fn range_of(offset: Option<u64>, size: Option<u64>) -> Option<FileRange> {
    match (offset, size) {
        (Some(offset), Some(size)) => Some(FileRange::Range { offset, size }),
        (None, None) => Some(FileRange::WholeFile),
        _ => None,
    }
}

/// Why a download is refused, if it is.
pub open spec fn get_refusal(
    remote: Seq<char>,
    is_directory: bool,
    recursive: bool,
    offset: Option<u64>,
    size: Option<u64>,
) -> Option<Seq<char>> {
    if is_directory {
        if !recursive {
            Some(quoted(remote) + " is a directory; pass -r for recursive download"@)
        } else if offset is Some || size is Some {
            Some("--offset / --size are file-mode only, not valid with -r"@)
        } else {
            None
        }
    } else if range_of(offset, size) is None {
        Some("--offset and --size must be provided together"@)
    } else if basename(remote) is None {
        Some(no_filename_note(remote))
    } else {
        None
    }
}

/// Plans a download. `attributes` tells whether the remote is a directory,
/// where the console could tell; `output_is_dir`, whether `output` names an
/// existing local directory.
pub fn plan_get(
    remote: &str,
    attributes: Option<bool>,
    output: Option<&str>,
    output_is_dir: bool,
    recursive: bool,
    offset: Option<u64>,
    size: Option<u64>,
) -> (r: Result<GetPlan, Failure>)
    ensures
        ({
            let is_directory = attributes == Some(true);
            match get_refusal(remote@, is_directory, recursive, offset, size) {
                Some(note) => r matches Err(f) && f.reports(ErrorKind::EmptyFilename, Some(note)),
                None => if is_directory {
                    r matches Ok(GetPlan::Tree { root }) && root.resolves(
                        tree_name(remote@),
                        slice_text(output),
                        output_is_dir,
                    )
                } else {
                    r matches Ok(GetPlan::File { range, target }) && range_of(offset, size) == Some(
                        range,
                    ) && target.resolves(
                        basename(remote@)->0,
                        slice_text(output),
                        output_is_dir,
                    )
                },
            }
        }),
{
    let is_directory = match attributes {
        Some(d) => d,
        None => false,
    };
    if is_directory {
        if !recursive {
            let mut note = quote(remote);
            note.append(" is a directory; pass -r for recursive download");
            return Err(Failure::noted(ErrorKind::EmptyFilename, note));
        }
        if offset.is_some() || size.is_some() {
            return Err(
                Failure::noted(
                    ErrorKind::EmptyFilename,
                    "--offset / --size are file-mode only, not valid with -r".to_owned(),
                ),
            );
        }
        Ok(GetPlan::Tree { root: resolve_get_dir_output(remote, output, output_is_dir) })
    } else {
        let range = match (offset, size) {
            (Some(offset), Some(size)) => FileRange::Range { offset, size },
            (None, None) => FileRange::WholeFile,
            _ => {
                return Err(
                    Failure::noted(
                        ErrorKind::EmptyFilename,
                        "--offset and --size must be provided together".to_owned(),
                    ),
                );
            },
        };
        match resolve_get_output(remote, output, output_is_dir) {
            Ok(target) => Ok(GetPlan::File { range, target }),
            Err(f) => Err(f),
        }
    }
}

/// A command that reads or writes memory, or sets a breakpoint, names the
/// address, the length and the bytes that were given: numbers that are given as
/// they are shown reach the console as they are.
pub proof fn memory_commands_keep_their_numbers(
    address: String,
    length: String,
    hex: String,
    a: u32,
    n: u32,
    bytes: Seq<u8>,
)
    requires
        spells_number(address@, a),
        spells_number(length@, n),
        hex@ == bytes_hex(bytes),
    ensures
        ({
            let read = Command::Getmem { address, length };
            let write = Command::Setmem { address, hex };
            &&& refusal(read) is None
            &&& refusal(write) is None
            &&& forall|req: Request|
                asks(read, req) <==> req == (Request::GetMemory { address: a, length: n })
            &&& forall|req: Request|
                asks(write, req) <==> (req matches Request::SetMemory { address: b, data } && b == a
                    && data@ == bytes)
        }),
{
    shown_numbers_read_back(address@, a);
    shown_numbers_read_back(length@, n);
    hex_dump_decodes(bytes);
}

/// Breakpoints are set or cleared at the address given, those on data with the
/// size and the kind given.
pub proof fn breakpoints_keep_their_numbers(
    address: String,
    size: u32,
    kind: String,
    clear: bool,
    a: u32,
)
    requires
        spells_number(address@, a),
    ensures
        ({
            let code = Command::Bp { address, clear };
            let data = Command::Databp { address, size, kind, clear };
            &&& refusal(code) is None
            &&& forall|req: Request|
                asks(code, req) <==> req == (Request::Breakpoint { address: a, clear })
            &&& refusal(data) is None <==> break_kind(kind@) is Some
            &&& forall|req: Request|
                asks(data, req) <==> (req matches Request::DataBreakpoint {
                    address: b,
                    size: n,
                    kind: k,
                    clear: c,
                } && b == a && n == size && Some(k) == break_kind(kind@) && c == clear)
        }),
{
    shown_numbers_read_back(address@, a);
}

/// Thread ids reach the console as they are given.
pub proof fn thread_commands_keep_their_id(thread: String, id: u32)
    requires
        spells_number(thread@, id),
    ensures
        ({
            let info = Command::Threadinfo { thread };
            let stopped = Command::Isstopped { thread };
            &&& refusal(info) is None
            &&& refusal(stopped) is None
            &&& forall|req: Request|
                asks(info, req) <==> req == (Request::ThreadInfo { thread: id })
            &&& forall|req: Request|
                asks(stopped, req) <==> req == (Request::IsStopped { thread: id })
        }),
{
    shown_numbers_read_back(thread@, id);
}

/// A command is refused exactly where a number does not parse, bytes are not
/// spelled in hex, or a kind of breakpoint is unknown; the failure says which.
pub proof fn commands_are_refused_for_bad_arguments(cmd: Command)
    ensures
        refusal(cmd) is Some <==> match cmd {
            Command::Threadinfo { thread } => argument_value(thread@) is Err,
            Command::Isstopped { thread } => argument_value(thread@) is Err,
            Command::Getmem { address, length } => argument_value(address@) is Err
                || argument_value(length@) is Err,
            Command::Setmem { address, hex } => argument_value(address@) is Err || !spells_bytes(
                trimmed(hex@),
            ),
            Command::Bp { address, .. } => argument_value(address@) is Err,
            Command::Databp { address, kind, .. } => argument_value(address@) is Err || break_kind(
                kind@,
            ) is None,
            _ => false,
        },
        refusal(cmd) matches Some((kind, note)) ==> match cmd {
            Command::Threadinfo { thread } => argument_value(thread@) == Err::<u32, ErrorKind>(kind)
                && note == Some("invalid thread id "@ + quoted(thread@)),
            Command::Isstopped { thread } => argument_value(thread@) == Err::<u32, ErrorKind>(kind)
                && note == Some("invalid thread id "@ + quoted(thread@)),
            Command::Getmem { address, length } => if argument_value(address@) is Err {
                argument_value(address@) == Err::<u32, ErrorKind>(kind) && note == Some(
                    "--address"@,
                )
            } else {
                argument_value(length@) == Err::<u32, ErrorKind>(kind) && note == Some("--length"@)
            },
            Command::Setmem { address, hex } => if argument_value(address@) is Err {
                argument_value(address@) == Err::<u32, ErrorKind>(kind) && note is None
            } else {
                kind == ErrorKind::InvalidHexDigits(ArgumentKey::HexBytes) && note == Some(
                    "decoding --data "@ + quoted(hex@),
                )
            },
            Command::Bp { address, .. } => argument_value(address@) == Err::<u32, ErrorKind>(kind)
                && note is None,
            Command::Databp { address, .. } => if argument_value(address@) is Err {
                argument_value(address@) == Err::<u32, ErrorKind>(kind) && note is None
            } else {
                kind == ErrorKind::EmptyFilename
            },
            _ => false,
        },
{
}

/// Commands on files reach the console with all that was given for them: paths,
/// offsets, sizes, orders and depths as they are, and `dirs_only` as the wish to
/// see no files.
pub proof fn file_commands_keep_their_arguments(cmd: FileCommand, req: Request)
    requires
        asks(Command::File(cmd), req),
    ensures
        match req {
            Request::ListDir { path, sort_by, order } => cmd == (FileCommand::Ls {
                path,
                sort_by,
                sort_order: order,
            }),
            Request::Tree { path, max_depth, include_files } => cmd == (FileCommand::Tree {
                path,
                max_depth,
                dirs_only: !include_files,
            }),
            Request::Attributes { path } => cmd == (FileCommand::Stat { path }),
            Request::MakeDir { path } => cmd == (FileCommand::Mkdir { path }),
            Request::Delete { path, is_directory } => cmd == (FileCommand::Rm {
                path,
                dir: is_directory,
            }),
            Request::Rename { from, to } => cmd == (FileCommand::Mv { from, to }),
            Request::Download { remote, output, recursive, offset, size } => cmd == (
            FileCommand::Get { remote, output, recursive, offset, size }),
            Request::Upload { local, remote } => cmd == (FileCommand::Put { local, remote }),
            Request::WriteAt { local, remote, offset, size } => cmd == (FileCommand::Writeto {
                local,
                remote,
                offset,
                length: size,
            }),
            Request::SetFileEnd { path, size, create_if_missing } => cmd == (
            FileCommand::Fileeof { path, size, create: create_if_missing }),
            _ => false,
        },
{
}

/// Every other request tells which command asked for it, and what was given for
/// it.
pub proof fn requests_tell_their_command(cmd: Command, req: Request)
    requires
        asks(cmd, req),
        !(cmd is File),
    ensures
        match req {
            Request::Nothing => cmd is Ping,
            Request::GetName => cmd == (Command::Dbgname { set: None }),
            Request::SetName(value) => cmd == (Command::Dbgname { set: Some(value) }),
            Request::SystemTime => cmd is Systime,
            Request::MonitorVersion => cmd is Dmversion,
            Request::ConsoleType => cmd is Consoletype,
            Request::ConsoleFeatures => cmd is Consolefeatures,
            Request::DriveList => cmd is Drivelist,
            Request::FreeSpace { drive } => cmd == (Command::Df { drive }),
            Request::AltAddress => cmd is Altaddr,
            Request::ProcessId => cmd is Getpid,
            Request::ConsoleMemory => cmd is Consolemem,
            Request::NetAddresses => cmd is Netaddrs,
            Request::Modules => cmd is Modules,
            Request::ModuleSections { module } => cmd == (Command::Modsections { module }),
            Request::Threads => cmd is Threads,
            Request::ThreadInfo { .. } => cmd is Threadinfo,
            Request::RunningTitle => cmd == (Command::Xbeinfo { name: None }),
            Request::NamedTitle(path) => cmd == (Command::Xbeinfo { name: Some(path) }),
            Request::WalkMemory => cmd is Walkmem,
            Request::GetMemory { .. } => cmd is Getmem,
            Request::CounterList => cmd is Pclist,
            Request::QueryCounter { name, kind } => cmd == (Command::Querypc { name, kind }),
            Request::Sockets => cmd is Sockets,
            Request::IsStopped { .. } => cmd is Isstopped,
            Request::Reboot { warm, stop_on_start, no_debug, wait, title } => cmd == (
            Command::Reboot { warm, stop_on_start, no_debug, wait, title }),
            Request::ForgetTitle => cmd matches Command::SetTitle { nopersist, .. } && nopersist,
            Request::SetTitle { name } => cmd matches Command::SetTitle { nopersist, name: given }
                && !nopersist && (given matches Some(n) ==> n@ == name@) && (given is None
                ==> name@.len() == 0),
            Request::SetMemory { .. } => cmd is Setmem,
            Request::Breakpoint { .. } => cmd is Bp,
            Request::DataBreakpoint { .. } => cmd is Databp,
            Request::Screenshot { output, raw } => cmd == (Command::Screenshot { output, raw }),
            Request::PixCommand { subcommand } => cmd == (Command::PixcmdProbe { subcommand }),
            Request::RawLine { line } => cmd == (Command::Raw { line }),
            Request::DrivemapStatus => cmd == Command::Dangerous(DangerousCommand::DrivemapStatus),
            Request::DrivemapPersist => cmd == Command::Dangerous(DangerousCommand::DrivemapPersist),
            _ => false,
        },
{
}

/// A command is run where its work is: searches by broadcast, movies on local
/// files, what needs connections of its own on those, and all else on the one
/// connection.
pub proof fn routes_tell_their_command(cmd: Command)
    ensures
        match route_of(cmd) {
            Route::Discover => cmd is Discover,
            Route::Resolve => cmd is Resolve,
            Route::Movie => cmd is Xbm,
            Route::DrivemapEnable => cmd == Command::Dangerous(DangerousCommand::DrivemapEnable),
            Route::NandDump => cmd matches Command::Dangerous(d) && d is NandDump,
            Route::PixNotify => cmd is PixNotify,
            Route::Capture => cmd is Capture,
            Route::Debugger => cmd is Debugger,
            Route::Connected => {
                &&& !(cmd is Discover) && !(cmd is Resolve) && !(cmd is Xbm)
                &&& !(cmd is PixNotify) && !(cmd is Capture) && !(cmd is Debugger)
                &&& cmd matches Command::Dangerous(d) ==> d is DrivemapStatus || d
                    is DrivemapPersist
            },
        },
        needs_no_host(cmd) <==> route_of(cmd) == Route::Discover || route_of(cmd) == Route::Resolve
            || route_of(cmd) == Route::Movie,
{
}

/// A range is downloaded exactly where both its offset and its size are given,
/// and it is that range; the whole file where neither is.
pub proof fn range_needs_offset_and_size(offset: Option<u64>, size: Option<u64>)
    ensures
        match range_of(offset, size) {
            Some(FileRange::Range { offset: o, size: n }) => offset == Some(o) && size == Some(n),
            Some(FileRange::WholeFile) => offset is None && size is None,
            None => offset is Some <==> size is None,
        },
{
}

/// A download is refused exactly where a directory is asked for without
/// recursion or with a range, where only one part of a range is given, or where
/// the path names no file. Each failure says which.
pub proof fn downloads_are_refused_for_a_reason(
    remote: Seq<char>,
    is_directory: bool,
    recursive: bool,
    offset: Option<u64>,
    size: Option<u64>,
)
    ensures
        match get_refusal(remote, is_directory, recursive, offset, size) {
            None => {
                &&& is_directory ==> recursive && offset is None && size is None
                &&& !is_directory ==> (offset is Some <==> size is Some) && basename(remote) is Some
            },
            Some(note) => {
                ||| is_directory && !recursive && note == quoted(remote)
                    + " is a directory; pass -r for recursive download"@
                ||| is_directory && recursive && (offset is Some || size is Some) && note
                    == "--offset / --size are file-mode only, not valid with -r"@
                ||| !is_directory && (offset is Some <==> size is None) && note
                    == "--offset and --size must be provided together"@
                ||| !is_directory && (offset is Some <==> size is Some) && basename(remote) is None
                    && note == "cannot derive local filename from "@ + quoted(remote)
            },
        },
{
}

} // verus!
