use xeedee_cli::listing::{DirEntry, LsSortBy, SortOrder};
use xeedee_cli::records::{
    change_times, consoles_output, counters_output, directory_output, entries_output,
    modules_output, regions_output, sections_output, sockets_output, CounterInfo, FoundConsole,
    ModuleInfo, RegionInfo, SectionInfo, SocketInfo,
};
use xeedee_cli::report::{
    addresses_output, attributes_output, attributes_text, clock_output, clock_report,
    drives_output, features_output, memory_class_output, memory_output, ping_output, plain_output,
    process_output, reboot_output, sample_output, space_output, threads_output, title_output,
    written_output, DriveSpace, Output,
};
use xeedee_cli::ui::{OutputFormat, UiCtx};

fn ui(format: OutputFormat) -> UiCtx {
    UiCtx { format, no_progress: true, raw_bytes: true }
}

fn plain() -> UiCtx {
    ui(OutputFormat::Plain)
}

fn pretty() -> UiCtx {
    ui(OutputFormat::Pretty)
}

fn lines(o: Output) -> Vec<String> {
    match o {
        Output::Lines(lines) => lines,
        Output::Table { .. } => panic!("a table"),
    }
}

fn table(o: Output) -> (String, Vec<String>, Vec<Vec<String>>) {
    match o {
        Output::Lines(_) => panic!("lines"),
        Output::Table { heading, columns, rows } => (heading, columns, rows),
    }
}

fn s(text: &str) -> String {
    text.to_owned()
}

#[test]
fn lists_drives_and_threads() {
    let v = || vec![s("E"), s("FLASH")];
    assert_eq!(lines(drives_output(v(), &plain(), true)), ["E", "FLASH"]);
    let (heading, columns, rows) = table(drives_output(v(), &pretty(), false));
    assert_eq!(heading, "drives");
    assert_eq!(columns, ["drive"]);
    assert_eq!(rows, [[s("E")], [s("FLASH")]]);
    let (heading, columns, _) = table(threads_output(v(), &pretty(), true));
    assert_eq!(heading, "\x1b[1m\x1b[36mthreads\x1b[39m\x1b[0m");
    assert_eq!(columns, ["thread id"]);
    assert_eq!(lines(features_output(v())), ["E", "FLASH"]);
}

#[test]
fn shows_drive_space() {
    let space = DriveSpace { free_to_caller: 1, total: 2, total_free: 3 };
    assert_eq!(
        lines(space_output("E:\\", &space, &plain(), false)),
        ["free_to_caller\t1", "total\t2", "total_free\t3"]
    );
    let (heading, columns, rows) = table(space_output("E:\\", &space, &pretty(), false));
    assert_eq!(heading, "df E:\\");
    assert_eq!(columns, ["metric", "size"]);
    assert_eq!(
        rows,
        [
            [s("free_to_caller"), s("1")],
            [s("total"), s("2")],
            [s("total_free"), s("3")],
        ]
    );
}

#[test]
fn lists_modules() {
    let v = vec![ModuleInfo {
        name: s("xboxkrnl.exe"),
        base: 0xffff_0000,
        size: 0x2_0000,
        checksum: 5,
        is_dll: true,
        osize: 6,
    }];
    assert_eq!(
        lines(modules_output(&v, &plain(), false)),
        ["xboxkrnl.exe\t0xffff0000\t0x00010000\t0x00020000\t0x00000005\ttrue\t0x00000006"]
    );
    let (heading, columns, rows) = table(modules_output(&v, &pretty(), false));
    assert_eq!(heading, "modules");
    assert_eq!(columns, ["name", "base", "end", "size", "check", "dll", "osize"]);
    assert_eq!(
        rows,
        [[
            "xboxkrnl.exe",
            "0xffff0000",
            "0x00010000",
            "0x00020000",
            "0x00000005",
            "yes",
            "0x00000006",
        ]]
    );
}

#[test]
fn lists_sections() {
    let v = vec![SectionInfo {
        name: s(".text"),
        base: 1,
        size: 2,
        index: 10,
        flags: 0x1f,
        readable: true,
        writable: false,
        executable: true,
        uninitialized: false,
    }];
    assert_eq!(
        lines(sections_output("m", &v, &plain(), false)),
        [".text\t0x00000001\t0x00000002\t10\t0x1f\tr-x-"]
    );
    let (heading, columns, rows) = table(sections_output("m", &v, &pretty(), false));
    assert_eq!(heading, "modsections m");
    assert_eq!(columns, ["name", "base", "size", "idx", "flags", "rwxu"]);
    assert_eq!(rows, [[".text", "0x00000001", "0x00000002", "10", "0x1f", "r-x-"]]);
}

#[test]
fn lists_regions_and_counters() {
    let regions = vec![RegionInfo { base: 1, size: 2, protect: 4 }];
    assert_eq!(
        lines(regions_output(&regions, &plain(), false)),
        ["0x00000001\t0x00000002\t0x00000004"]
    );
    assert_eq!(
        table(regions_output(&regions, &pretty(), false)).2,
        [["0x00000001", "0x00000002", "0x00000004"]]
    );
    let counters = vec![CounterInfo { kind: 1, name: s("CPU") }];
    let line = lines(counters_output(&counters, &plain(), false)).remove(0);
    assert_eq!(line, "0x00000001\tCPU");
    assert_eq!(line.split('\t').collect::<Vec<_>>(), ["0x00000001", "CPU"]);
    let (heading, columns, rows) = table(counters_output(&counters, &pretty(), false));
    assert_eq!(heading, "pclist");
    assert_eq!(columns, ["type", "name"]);
    assert_eq!(rows, [["0x00000001", "CPU"]]);
}

#[test]
fn lists_sockets() {
    let v = vec![SocketInfo {
        handle: 1,
        addr_family: 2,
        socket_type: 3,
        protocol: 6,
        local_addr: 0x7f00_0001,
        local_port: 730,
        remote_addr: 0,
        remote_port: 0,
        tcp_state: 4,
        flags: 5,
    }];
    assert_eq!(
        lines(sockets_output(&v, &plain(), false)),
        ["0x00000001\t2\t3\t6\t0x7f000001:0x02da\t0x00000000:0x0000\t4\t0x00000005"]
    );
    let (heading, columns, rows) = table(sockets_output(&v, &pretty(), false));
    assert_eq!(heading, "sockets");
    assert_eq!(
        columns,
        ["handle", "af", "type", "proto", "local", "remote", "tcpstate", "flags"]
    );
    assert_eq!(
        rows,
        [[
            "0x00000001",
            "2",
            "3",
            "6",
            "0x7f000001:0x02da",
            "0x00000000:0x0000",
            "4",
            "0x00000005",
        ]]
    );
}

#[test]
fn lists_consoles() {
    let v = vec![FoundConsole { name: s("dev"), addr: s("10.0.0.1:730") }];
    assert_eq!(lines(consoles_output(&v, &plain(), false)), ["dev\t10.0.0.1:730"]);
    let (heading, columns, rows) = table(consoles_output(&v, &pretty(), false));
    assert_eq!(heading, "discover");
    assert_eq!(columns, ["name", "address"]);
    assert_eq!(rows, [["dev", "10.0.0.1:730"]]);
}

fn entries() -> Vec<DirEntry> {
    vec![
        DirEntry { name: s("b"), size: 7, is_directory: false, create_time: 1, change_time: 2 },
        DirEntry { name: s("a"), size: 9, is_directory: true, create_time: 3, change_time: 4 },
    ]
}

#[test]
fn lists_a_directory() {
    let times = vec![s("t0"), s("t1")];
    assert_eq!(
        lines(entries_output("E:\\", &entries(), &times, &plain(), false)),
        ["b\t7\tFILE\tt0", "a\t-\tDIR\tt1"]
    );
    let (heading, columns, rows) =
        table(entries_output("E:\\", &entries(), &times, &pretty(), false));
    assert_eq!(heading, "ls E:\\");
    assert_eq!(columns, ["name", "size", "kind", "changed"]);
    assert_eq!(rows, [["b", "7", "FILE", "t0"], ["a", "-", "DIR", "t1"]]);
    let shown = change_times(&entries(), &plain());
    let sorted = lines(directory_output(
        "E:\\",
        &entries(),
        LsSortBy::Name,
        SortOrder::Asc,
        &plain(),
        false,
    ));
    assert_eq!(
        sorted,
        [format!("a\t-\tDIR\t{}", shown[1]), format!("b\t7\tFILE\t{}", shown[0])]
    );
}

#[test]
fn shows_attributes() {
    assert_eq!(
        attributes_text(false, 7, "c", "d", &plain()),
        "size=7 created=c changed=d is_directory=false"
    );
    assert_eq!(
        attributes_text(true, 7, "c", "d", &plain()),
        "size=- created=c changed=d is_directory=true"
    );
    assert_eq!(
        lines(attributes_output(false, 7, 1, 2, &plain())),
        [format!(
            "size=7 created={} changed={} is_directory=false",
            plain().fmt_time(1),
            plain().fmt_time(2)
        )]
    );
}

#[test]
fn shows_the_clock_both_ways() {
    assert_eq!(lines(clock_report(0x10, "now")), ["0x0000000000000010", "now"]);
    assert_eq!(
        lines(clock_output(0x10, &plain())),
        [s("0x0000000000000010"), plain().fmt_time(0x10)]
    );
}

#[test]
fn shows_single_replies() {
    assert_eq!(lines(ping_output()), ["connected"]);
    assert_eq!(lines(reboot_output()), ["reboot issued"]);
    assert_eq!(lines(plain_output("x")), ["x"]);
    assert_eq!(lines(process_output(0x12)), ["0x00000012"]);
    assert_eq!(lines(memory_class_output(3)), ["class=0x03"]);
    assert_eq!(
        lines(addresses_output("n", &[1, 2], &[255])),
        ["name=n", "debug=0102", "title=ff"]
    );
    assert_eq!(
        lines(title_output("t", 1, 2)),
        ["name=t", "timestamp=0x00000001", "checksum=0x00000002"]
    );
    assert_eq!(lines(sample_output(1, 2, 3)), ["type=0x00000001 value=2 rate=3"]);
    assert_eq!(lines(written_output(4, 3)), ["requested=4 written=3"]);
    assert_eq!(lines(memory_output(0, &[0x41], &[])).len(), 1);
}
