//! Replies that come as lists of records.

use vstd::prelude::*;

use crate::clock::{clock_text, offset_range, time_text, times_are_shown_up_to_9999};
use crate::error::ErrorKind;
use crate::listing::{sorted_copy, sorted_listing, DirEntry, LsSortBy, SortOrder};
use crate::parse::{
    address_reads_back, address_width, all_digits, argument_value, decimal_reads_back,
    digits_value, hex_literal_stands_for, numbers_hold_no_tab,
};
use crate::report::{
    cells, fields, listing, table, tabbed, tabbed_fields, tabbed_text, Output, Shown,
};
use crate::style::heading_text;
use crate::text::{
    address, address_text, begins, bool_name, bool_text, decimal, decimal_text, hex_literal,
    hex_literal_text, texts,
};
use crate::ui::{OutputFormat, UiCtx};

verus! {

/// Something that is shown as a row of a table, or on a line.
pub trait Record {
    /// Its cells.
    spec fn row(&self) -> Seq<Seq<char>>;

    /// Its line.
    spec fn line(&self) -> Seq<char>;

    fn row_cells(&self) -> (r: Vec<String>)
        ensures
            texts(r@) == self.row(),
    ;

    fn line_text(&self) -> (r: String)
        ensures
            r@ == self.line(),
    ;
}

/// The rows of a list of records.
pub open spec fn rows_of<R: Record>(v: Seq<R>) -> Seq<Seq<Seq<char>>> {
    Seq::new(v.len(), |i: int| v[i].row())
}

/// The lines of a list of records.
pub open spec fn lines_of<R: Record>(v: Seq<R>) -> Seq<Seq<char>> {
    Seq::new(v.len(), |i: int| v[i].line())
}

/// Lists records: a table where output is pretty, else one line each.
fn record_list<R: Record>(
    v: &Vec<R>,
    label: &str,
    columns: Vec<String>,
    ui: &UiCtx,
    colors: bool,
) -> (r: Output)
    ensures
        r@ == listing(*ui, colors, label@, texts(columns@), rows_of(v@), lines_of(v@)),
{
    if ui.pretty() {
        let ghost all = rows_of(v@);
        let mut rows: Vec<Vec<String>> = Vec::new();
        assert(cells(rows@) =~= all.take(0));
        for i in 0..v.len()
            invariant
                all == rows_of(v@),
                cells(rows@) == all.take(i as int),
        {
            let ghost before = rows@;
            let row = v[i].row_cells();
            rows.push(row);
            assert(cells(rows@) =~= cells(before).push(texts(row@)));
            assert(cells(rows@) =~= all.take(i + 1));
        }
        assert(all.take(all.len() as int) =~= all);
        table(label, columns, rows, ui, colors)
    } else {
        let ghost all = lines_of(v@);
        let mut lines: Vec<String> = Vec::new();
        assert(texts(lines@) =~= all.take(0));
        for i in 0..v.len()
            invariant
                all == lines_of(v@),
                texts(lines@) == all.take(i as int),
        {
            let ghost before = lines@;
            let line = v[i].line_text();
            lines.push(line);
            assert(texts(lines@) =~= texts(before).push(line@));
            assert(texts(lines@) =~= all.take(i + 1));
        }
        assert(all.take(all.len() as int) =~= all);
        Output::Lines(lines)
    }
}

/// A loaded module.
#[derive(Debug)]
pub struct ModuleInfo {
    pub name: String,
    pub base: u32,
    pub size: u32,
    pub checksum: u32,
    pub is_dll: bool,
    pub osize: u32,
}

impl ModuleInfo {
    /// The address right behind the module.
    pub open spec fn end(&self) -> u32 {
        self.base.wrapping_add(self.size)
    }
}

/// `yes` or `no`.
pub open spec fn yes_no(b: bool) -> Seq<char> {
    if b {
        "yes"@
    } else {
        "no"@
    }
}

impl Record for ModuleInfo {
    open spec fn row(&self) -> Seq<Seq<char>> {
        seq![
            self.name@,
            address(self.base),
            address(self.end()),
            address(self.size),
            address(self.checksum),
            yes_no(self.is_dll),
            address(self.osize),
        ]
    }

    open spec fn line(&self) -> Seq<char> {
        tabbed(
            seq![
                self.name@,
                address(self.base),
                address(self.end()),
                address(self.size),
                address(self.checksum),
                bool_text(self.is_dll),
                address(self.osize),
            ],
        )
    }

    fn row_cells(&self) -> (r: Vec<String>) {
        let dll = if self.is_dll {
            "yes"
        } else {
            "no"
        };
        let out = vec![
            self.name.clone(),
            address_text(self.base),
            address_text(self.base.wrapping_add(self.size)),
            address_text(self.size),
            address_text(self.checksum),
            dll.to_owned(),
            address_text(self.osize),
        ];
        assert(texts(out@) =~= self.row());
        out
    }

    fn line_text(&self) -> (r: String) {
        let row = vec![
            self.name.clone(),
            address_text(self.base),
            address_text(self.base.wrapping_add(self.size)),
            address_text(self.size),
            address_text(self.checksum),
            bool_name(self.is_dll).to_owned(),
            address_text(self.osize),
        ];
        assert(texts(row@) =~= seq![
            self.name@,
            address(self.base),
            address(self.end()),
            address(self.size),
            address(self.checksum),
            bool_text(self.is_dll),
            address(self.osize),
        ]);
        tabbed_text(&row)
    }
}

/// Lists the loaded modules.
pub fn modules_output(modules: &Vec<ModuleInfo>, ui: &UiCtx, colors: bool) -> (r: Output)
    ensures
        r@ == listing(
            *ui,
            colors,
            "modules"@,
            seq!["name"@, "base"@, "end"@, "size"@, "check"@, "dll"@, "osize"@],
            rows_of(modules@),
            lines_of(modules@),
        ),
{
    let columns = vec![
        "name".to_owned(),
        "base".to_owned(),
        "end".to_owned(),
        "size".to_owned(),
        "check".to_owned(),
        "dll".to_owned(),
        "osize".to_owned(),
    ];
    assert(texts(columns@) =~= seq![
        "name"@,
        "base"@,
        "end"@,
        "size"@,
        "check"@,
        "dll"@,
        "osize"@,
    ]);
    record_list(modules, "modules", columns, ui, colors)
}

/// A section of a module.
#[derive(Debug)]
pub struct SectionInfo {
    pub name: String,
    pub base: u32,
    pub size: u32,
    pub index: u32,
    pub flags: u32,
    pub readable: bool,
    pub writable: bool,
    pub executable: bool,
    pub uninitialized: bool,
}

/// A letter where something holds, else a dash.
pub open spec fn mark(holds: bool, letter: char) -> char {
    if holds {
        letter
    } else {
        '-'
    }
}

fn mark_of(holds: bool, letter: char) -> (r: char)
    ensures
        r == mark(holds, letter),
{
    if holds {
        letter
    } else {
        '-'
    }
}

impl SectionInfo {
    /// What may be done with the section: read, write, execute; and whether it
    /// is uninitialized.
    pub open spec fn permissions(&self) -> Seq<char> {
        seq![
            mark(self.readable, 'r'),
            mark(self.writable, 'w'),
            mark(self.executable, 'x'),
            mark(self.uninitialized, 'u'),
        ]
    }

    fn permission_text(&self) -> (r: String)
        ensures
            r@ == self.permissions(),
    {
        let mut out = String::new();
        out.push(mark_of(self.readable, 'r'));
        out.push(mark_of(self.writable, 'w'));
        out.push(mark_of(self.executable, 'x'));
        out.push(mark_of(self.uninitialized, 'u'));
        assert(out@ =~= self.permissions());
        out
    }
}

impl Record for SectionInfo {
    open spec fn row(&self) -> Seq<Seq<char>> {
        seq![
            self.name@,
            address(self.base),
            address(self.size),
            decimal(self.index as nat),
            hex_literal(self.flags as nat, 0),
            self.permissions(),
        ]
    }

    open spec fn line(&self) -> Seq<char> {
        tabbed(self.row())
    }

    fn row_cells(&self) -> (r: Vec<String>) {
        let out = vec![
            self.name.clone(),
            address_text(self.base),
            address_text(self.size),
            decimal_text(self.index as u64),
            hex_literal_text(self.flags as u64, 0),
            self.permission_text(),
        ];
        assert(texts(out@) =~= self.row());
        out
    }

    fn line_text(&self) -> (r: String) {
        let row = self.row_cells();
        tabbed_text(&row)
    }
}

/// Lists the sections of a module.
pub fn sections_output(module: &str, sections: &Vec<SectionInfo>, ui: &UiCtx, colors: bool) -> (r:
    Output)
    ensures
        r@ == listing(
            *ui,
            colors,
            "modsections "@ + module@,
            seq!["name"@, "base"@, "size"@, "idx"@, "flags"@, "rwxu"@],
            rows_of(sections@),
            lines_of(sections@),
        ),
{
    let columns = vec![
        "name".to_owned(),
        "base".to_owned(),
        "size".to_owned(),
        "idx".to_owned(),
        "flags".to_owned(),
        "rwxu".to_owned(),
    ];
    assert(texts(columns@) =~= seq!["name"@, "base"@, "size"@, "idx"@, "flags"@, "rwxu"@]);
    let mut label = "modsections ".to_owned();
    label.append(module);
    record_list(sections, label.as_str(), columns, ui, colors)
}

/// A range of virtual addresses.
#[derive(Debug)]
pub struct RegionInfo {
    pub base: u32,
    pub size: u32,
    pub protect: u32,
}

impl Record for RegionInfo {
    open spec fn row(&self) -> Seq<Seq<char>> {
        seq![address(self.base), address(self.size), address(self.protect)]
    }

    open spec fn line(&self) -> Seq<char> {
        tabbed(self.row())
    }

    fn row_cells(&self) -> (r: Vec<String>) {
        let out = vec![
            address_text(self.base),
            address_text(self.size),
            address_text(self.protect),
        ];
        assert(texts(out@) =~= self.row());
        out
    }

    fn line_text(&self) -> (r: String) {
        let row = self.row_cells();
        tabbed_text(&row)
    }
}

/// Lists the ranges of virtual addresses.
pub fn regions_output(regions: &Vec<RegionInfo>, ui: &UiCtx, colors: bool) -> (r: Output)
    ensures
        r@ == listing(
            *ui,
            colors,
            "walkmem"@,
            seq!["base"@, "size"@, "protect"@],
            rows_of(regions@),
            lines_of(regions@),
        ),
{
    let columns = vec!["base".to_owned(), "size".to_owned(), "protect".to_owned()];
    assert(texts(columns@) =~= seq!["base"@, "size"@, "protect"@]);
    record_list(regions, "walkmem", columns, ui, colors)
}

/// A performance counter.
#[derive(Debug)]
pub struct CounterInfo {
    pub kind: u32,
    pub name: String,
}

impl Record for CounterInfo {
    open spec fn row(&self) -> Seq<Seq<char>> {
        seq![address(self.kind), self.name@]
    }

    open spec fn line(&self) -> Seq<char> {
        tabbed(self.row())
    }

    fn row_cells(&self) -> (r: Vec<String>) {
        let out = vec![address_text(self.kind), self.name.clone()];
        assert(texts(out@) =~= self.row());
        out
    }

    fn line_text(&self) -> (r: String) {
        let row = self.row_cells();
        tabbed_text(&row)
    }
}

/// Lists the performance counters.
pub fn counters_output(counters: &Vec<CounterInfo>, ui: &UiCtx, colors: bool) -> (r: Output)
    ensures
        r@ == listing(
            *ui,
            colors,
            "pclist"@,
            seq!["type"@, "name"@],
            rows_of(counters@),
            lines_of(counters@),
        ),
{
    let columns = vec!["type".to_owned(), "name".to_owned()];
    assert(texts(columns@) =~= seq!["type"@, "name"@]);
    record_list(counters, "pclist", columns, ui, colors)
}

/// A socket that the console tracks.
#[derive(Debug)]
pub struct SocketInfo {
    pub handle: u32,
    pub addr_family: u32,
    pub socket_type: u32,
    pub protocol: u32,
    pub local_addr: u32,
    pub local_port: u32,
    pub remote_addr: u32,
    pub remote_port: u32,
    pub tcp_state: u32,
    pub flags: u32,
}

/// An address and a port, both in hex.
pub open spec fn endpoint(addr: u32, port: u32) -> Seq<char> {
    address(addr) + ":"@ + hex_literal(port as nat, 4)
}

fn endpoint_text(addr: u32, port: u32) -> (r: String)
    ensures
        r@ == endpoint(addr, port),
{
    let mut out = address_text(addr);
    out.append(":");
    let number = hex_literal_text(port as u64, 4);
    out.append(number.as_str());
    out
}

impl Record for SocketInfo {
    open spec fn row(&self) -> Seq<Seq<char>> {
        seq![
            address(self.handle),
            decimal(self.addr_family as nat),
            decimal(self.socket_type as nat),
            decimal(self.protocol as nat),
            endpoint(self.local_addr, self.local_port),
            endpoint(self.remote_addr, self.remote_port),
            decimal(self.tcp_state as nat),
            address(self.flags),
        ]
    }

    open spec fn line(&self) -> Seq<char> {
        tabbed(self.row())
    }

    fn row_cells(&self) -> (r: Vec<String>) {
        let out = vec![
            address_text(self.handle),
            decimal_text(self.addr_family as u64),
            decimal_text(self.socket_type as u64),
            decimal_text(self.protocol as u64),
            endpoint_text(self.local_addr, self.local_port),
            endpoint_text(self.remote_addr, self.remote_port),
            decimal_text(self.tcp_state as u64),
            address_text(self.flags),
        ];
        assert(texts(out@) =~= self.row());
        out
    }

    fn line_text(&self) -> (r: String) {
        let row = self.row_cells();
        tabbed_text(&row)
    }
}

/// Lists the sockets.
pub fn sockets_output(sockets: &Vec<SocketInfo>, ui: &UiCtx, colors: bool) -> (r: Output)
    ensures
        r@ == listing(
            *ui,
            colors,
            "sockets"@,
            seq![
                "handle"@,
                "af"@,
                "type"@,
                "proto"@,
                "local"@,
                "remote"@,
                "tcpstate"@,
                "flags"@,
            ],
            rows_of(sockets@),
            lines_of(sockets@),
        ),
{
    let columns = vec![
        "handle".to_owned(),
        "af".to_owned(),
        "type".to_owned(),
        "proto".to_owned(),
        "local".to_owned(),
        "remote".to_owned(),
        "tcpstate".to_owned(),
        "flags".to_owned(),
    ];
    assert(texts(columns@) =~= seq![
        "handle"@,
        "af"@,
        "type"@,
        "proto"@,
        "local"@,
        "remote"@,
        "tcpstate"@,
        "flags"@,
    ]);
    record_list(sockets, "sockets", columns, ui, colors)
}

/// A console that answered a probe.
#[derive(Debug)]
pub struct FoundConsole {
    pub name: String,
    pub addr: String,
}

impl Record for FoundConsole {
    open spec fn row(&self) -> Seq<Seq<char>> {
        seq![self.name@, self.addr@]
    }

    open spec fn line(&self) -> Seq<char> {
        tabbed(self.row())
    }

    fn row_cells(&self) -> (r: Vec<String>) {
        let out = vec![self.name.clone(), self.addr.clone()];
        assert(texts(out@) =~= self.row());
        out
    }

    fn line_text(&self) -> (r: String) {
        let row = self.row_cells();
        tabbed_text(&row)
    }
}

/// Lists the consoles that answered.
pub fn consoles_output(found: &Vec<FoundConsole>, ui: &UiCtx, colors: bool) -> (r: Output)
    ensures
        r@ == listing(
            *ui,
            colors,
            "discover"@,
            seq!["name"@, "address"@],
            rows_of(found@),
            lines_of(found@),
        ),
{
    let columns = vec!["name".to_owned(), "address".to_owned()];
    assert(texts(columns@) =~= seq!["name"@, "address"@]);
    record_list(found, "discover", columns, ui, colors)
}

/// An entry of a directory, in words.
#[derive(Debug)]
struct FileRow {
    name: String,
    size: String,
    kind: String,
    changed: String,
}

impl Record for FileRow {
    closed spec fn row(&self) -> Seq<Seq<char>> {
        seq![self.name@, self.size@, self.kind@, self.changed@]
    }

    closed spec fn line(&self) -> Seq<char> {
        tabbed(self.row())
    }

    fn row_cells(&self) -> (r: Vec<String>) {
        let out = vec![
            self.name.clone(),
            self.size.clone(),
            self.kind.clone(),
            self.changed.clone(),
        ];
        assert(texts(out@) =~= self.row());
        out
    }

    fn line_text(&self) -> (r: String) {
        let row = self.row_cells();
        tabbed_text(&row)
    }
}

/// The size of a file; a dash for a directory.
pub open spec fn entry_size(is_directory: bool, size: u64, ui: UiCtx) -> Seq<char> {
    if is_directory {
        "-"@
    } else {
        ui.size_text(size as nat)
    }
}

/// The size of a file, or a dash for a directory.
pub fn entry_size_text(is_directory: bool, size: u64, ui: &UiCtx) -> (r: String)
    ensures
        r@ == entry_size(is_directory, size, *ui),
{
    if is_directory {
        "-".to_owned()
    } else {
        ui.fmt_bytes(size)
    }
}

/// `DIR` or `FILE`.
pub open spec fn entry_kind(e: DirEntry) -> Seq<char> {
    if e.is_directory {
        "DIR"@
    } else {
        "FILE"@
    }
}

/// The cells of an entry that was changed at `changed`.
pub open spec fn entry_row(e: DirEntry, changed: Seq<char>, ui: UiCtx) -> Seq<Seq<char>> {
    seq![e.name@, entry_size(e.is_directory, e.size, ui), entry_kind(e), changed]
}

/// The rows of a directory; `times` tells when each entry was changed.
pub open spec fn entry_rows(entries: Seq<DirEntry>, times: Seq<Seq<char>>, ui: UiCtx) -> Seq<
    Seq<Seq<char>>,
> {
    Seq::new(entries.len(), |i: int| entry_row(entries[i], times[i], ui))
}

/// A directory's listing; `times` tells when each entry was changed.
pub open spec fn directory_listing(
    path: Seq<char>,
    entries: Seq<DirEntry>,
    times: Seq<Seq<char>>,
    ui: UiCtx,
    colors: bool,
) -> Shown {
    let rows = entry_rows(entries, times, ui);
    listing(
        ui,
        colors,
        "ls "@ + path,
        seq!["name"@, "size"@, "kind"@, "changed"@],
        rows,
        Seq::new(rows.len(), |i: int| tabbed(rows[i])),
    )
}

/// Lists the entries in the order given; `times` tells when each was changed.
pub fn entries_output(
    path: &str,
    entries: &Vec<DirEntry>,
    times: &Vec<String>,
    ui: &UiCtx,
    colors: bool,
) -> (r: Output)
    requires
        times@.len() == entries@.len(),
    ensures
        r@ == directory_listing(path@, entries@, texts(times@), *ui, colors),
{
    let ghost all = entry_rows(entries@, texts(times@), *ui);
    let mut rows: Vec<FileRow> = Vec::new();
    assert(rows_of(rows@) =~= all.take(0));
    for i in 0..entries.len()
        invariant
            times@.len() == entries@.len(),
            all == entry_rows(entries@, texts(times@), *ui),
            rows_of(rows@) == all.take(i as int),
            lines_of(rows@) =~= Seq::new(i as nat, |k: int| tabbed(all[k])),
    {
        let ghost before = rows@;
        let e = &entries[i];
        let kind = if e.is_directory {
            "DIR"
        } else {
            "FILE"
        };
        let row = FileRow {
            name: e.name.clone(),
            size: entry_size_text(e.is_directory, e.size, ui),
            kind: kind.to_owned(),
            changed: times[i].clone(),
        };
        assert(row.row() =~= all[i as int]);
        rows.push(row);
        assert(rows_of(rows@) =~= rows_of(before).push(row.row()));
        assert(rows_of(rows@) =~= all.take(i + 1));
        assert(lines_of(rows@) =~= lines_of(before).push(row.line()));
    }
    assert(all.take(all.len() as int) =~= all);
    let columns = vec![
        "name".to_owned(),
        "size".to_owned(),
        "kind".to_owned(),
        "changed".to_owned(),
    ];
    assert(texts(columns@) =~= seq!["name"@, "size"@, "kind"@, "changed"@]);
    let mut label = "ls ".to_owned();
    label.append(path);
    record_list(&rows, label.as_str(), columns, ui, colors)
}

/// `shown` is a local rendering of the given time.
pub open spec fn shows_time(shown: Seq<char>, ticks: u64) -> bool {
    exists|offset: i32| offset_range(offset as int) && shown == #[trigger] time_text(ticks, offset)
}

/// When each entry was changed, in local time.
pub fn change_times(entries: &Vec<DirEntry>, ui: &UiCtx) -> (r: Vec<String>)
    ensures
        r@.len() == entries@.len(),
        forall|i: int|
            0 <= i < r@.len() ==> shows_time((#[trigger] r@[i])@, entries@[i].change_time),
{
    let mut out: Vec<String> = Vec::new();
    for i in 0..entries.len()
        invariant
            out@.len() == i,
            forall|k: int|
                0 <= k < out@.len() ==> shows_time((#[trigger] out@[k])@, entries@[k].change_time),
    {
        out.push(ui.fmt_time(entries[i].change_time));
    }
    out
}

/// Lists a directory: its entries are sorted, and each shows when it was last
/// changed in local time.
pub fn directory_output(
    path: &str,
    entries: &Vec<DirEntry>,
    sort_by: LsSortBy,
    order: SortOrder,
    ui: &UiCtx,
    colors: bool,
) -> (r: Output)
    ensures
        exists|sorted: Seq<DirEntry>, times: Seq<Seq<char>>|
            #![trigger sorted_listing(entries@, sorted, sort_by, order), times.len()]
            {
                &&& sorted_listing(entries@, sorted, sort_by, order)
                &&& times.len() == sorted.len()
                &&& forall|i: int|
                    0 <= i < times.len() ==> shows_time(#[trigger] times[i], sorted[i].change_time)
                &&& r@ == directory_listing(path@, sorted, times, *ui, colors)
            },
{
    let sorted = sorted_copy(entries, sort_by, order);
    let times = change_times(&sorted, ui);
    let out = entries_output(path, &sorted, &times, ui, colors);
    proof {
        let shown = texts(times@);
        assert forall|i: int| 0 <= i < shown.len() implies shows_time(
            #[trigger] shown[i],
            sorted@[i].change_time,
        ) by {
            assert(shown[i] == times@[i]@);
        }
        assert(sorted_listing(entries@, sorted@, sort_by, order) && shown.len() == sorted@.len());
    }
    out
}

/// The cell is read as the number `n`, as an argument would be.
#[verifier::opaque]
pub open spec fn reads_as(cell: Seq<char>, n: u32) -> bool {
    argument_value(cell) == Ok::<u32, ErrorKind>(n)
}

/// An address is read as the number that it shows.
pub proof fn address_reads_as(n: u32)
    ensures
        reads_as(address(n), n),
{
    reveal(reads_as);
    address_reads_back(n);
}

proof fn decimal_reads_as(n: u32)
    ensures
        reads_as(decimal(n as nat), n),
{
    reveal(reads_as);
    decimal_reads_back(n);
}

/// The row of a module: its name; where it begins, where it ends (as many bytes
/// later as its size says, in 32 bits), its size and its checksum, each of which
/// reads back; whether it is a library; and its original size.
pub proof fn module_row_reads_back(m: ModuleInfo)
    ensures
        ({
            let row = m.row();
            &&& row.len() == 7
            &&& row[0] == m.name@
            &&& reads_as(row[1], m.base)
            &&& reads_as(row[2], ((m.base + m.size) % 0x1_0000_0000) as u32)
            &&& reads_as(row[3], m.size)
            &&& reads_as(row[4], m.checksum)
            &&& row[5] == if m.is_dll {
                "yes"@
            } else {
                "no"@
            }
            &&& reads_as(row[6], m.osize)
        }),
{
    address_reads_as(m.base);
    address_reads_as(m.end());
    address_reads_as(m.size);
    address_reads_as(m.checksum);
    address_reads_as(m.osize);
}

/// The line of a module holds what its row holds, with `true` and `false` in
/// place of `yes` and `no`.
pub proof fn module_line_holds_row(m: ModuleInfo)
    requires
        !m.name@.contains('\t'),
    ensures
        fields(m.line()) == m.row().update(
            5,
            if m.is_dll {
                "true"@
            } else {
                "false"@
            },
        ),
{
    let row = m.row().update(5, bool_text(m.is_dll));
    numbers_hold_no_tab(m.base as nat, 8);
    numbers_hold_no_tab(m.end() as nat, 8);
    numbers_hold_no_tab(m.size as nat, 8);
    numbers_hold_no_tab(m.checksum as nat, 8);
    numbers_hold_no_tab(m.osize as nat, 8);
    reveal_strlit("true");
    reveal_strlit("false");
    assert(!bool_text(m.is_dll).contains('\t'));
    assert forall|i: int| 0 <= i < row.len() implies !(#[trigger] row[i]).contains('\t') by {
        assert(i == 0 || i == 1 || i == 2 || i == 3 || i == 4 || i == 5 || i == 6);
    }
    assert(row =~= seq![
        m.name@,
        address(m.base),
        address(m.end()),
        address(m.size),
        address(m.checksum),
        bool_text(m.is_dll),
        address(m.osize),
    ]);
    tabbed_fields(row);
}

/// The row of a section: its name, its place and its size, which read back, its
/// number, its flags, and a letter or a dash for each of its permissions.
pub proof fn section_row_reads_back(s: SectionInfo)
    ensures
        ({
            let row = s.row();
            &&& row.len() == 6
            &&& row[0] == s.name@
            &&& reads_as(row[1], s.base)
            &&& reads_as(row[2], s.size)
            &&& reads_as(row[3], s.index)
            &&& begins(row[4], "0x"@)
            &&& digits_value(row[4].skip(2), 16) == s.flags
            &&& row[5].len() == 4
            &&& row[5][0] == 'r' <==> s.readable
            &&& row[5][1] == 'w' <==> s.writable
            &&& row[5][2] == 'x' <==> s.executable
            &&& row[5][3] == 'u' <==> s.uninitialized
            &&& forall|i: int|
                0 <= i < 4 ==> #[trigger] row[5][i] == '-' || row[5][i] == "rwxu"@[i]
        }),
{
    address_reads_as(s.base);
    address_reads_as(s.size);
    decimal_reads_as(s.index);
    hex_literal_stands_for(s.flags as nat, 0);
    reveal_strlit("rwxu");
}

/// The row of a region: where it begins, its size and its protection, each of
/// which reads back.
pub proof fn region_row_reads_back(r: RegionInfo)
    ensures
        ({
            let row = r.row();
            &&& row.len() == 3
            &&& reads_as(row[0], r.base)
            &&& reads_as(row[1], r.size)
            &&& reads_as(row[2], r.protect)
            &&& fields(r.line()) == row
        }),
{
    address_reads_as(r.base);
    address_reads_as(r.size);
    address_reads_as(r.protect);
    numbers_hold_no_tab(r.base as nat, 8);
    numbers_hold_no_tab(r.size as nat, 8);
    numbers_hold_no_tab(r.protect as nat, 8);
    let row = r.row();
    assert forall|i: int| 0 <= i < row.len() implies !(#[trigger] row[i]).contains('\t') by {
        assert(i == 0 || i == 1 || i == 2);
    }
    tabbed_fields(row);
}

/// The row of a counter: its kind, which reads back, and its name.
pub proof fn counter_row_reads_back(c: CounterInfo)
    ensures
        ({
            let row = c.row();
            &&& row.len() == 2
            &&& reads_as(row[0], c.kind)
            &&& row[1] == c.name@
            &&& !c.name@.contains('\t') ==> fields(c.line()) == row
        }),
{
    address_reads_as(c.kind);
    numbers_hold_no_tab(c.kind as nat, 8);
    let row = c.row();
    if !c.name@.contains('\t') {
        assert forall|i: int| 0 <= i < row.len() implies !(#[trigger] row[i]).contains('\t') by {
            assert(i == 0 || i == 1);
        }
        tabbed_fields(row);
    }
}

/// An end point is an address that reads back, a colon, and the port in hex.
pub open spec fn tells_endpoint(cell: Seq<char>, addr: u32, port: u32) -> bool {
    &&& cell.len() > 13
    &&& reads_as(cell.take(10), addr)
    &&& cell[10] == ':'
    &&& begins(cell.skip(11), "0x"@)
    &&& all_digits(cell.skip(13), 16)
    &&& digits_value(cell.skip(13), 16) == port
}

proof fn endpoint_tells(addr: u32, port: u32)
    ensures
        tells_endpoint(endpoint(addr, port), addr, port),
{
    reveal_strlit(":");
    reveal_strlit("0x");
    let cell = endpoint(addr, port);
    address_reads_as(addr);
    address_width(addr);
    hex_literal_stands_for(port as nat, 4);
    let tail = hex_literal(port as nat, 4);
    assert(cell.take(10) =~= address(addr));
    assert(cell.skip(11) =~= tail);
    assert(cell.skip(13) =~= tail.skip(2));
}

/// The row of a socket: its handle, family, type and protocol, the local end and
/// the remote one, its state and its flags; all of which read back.
pub proof fn socket_row_reads_back(s: SocketInfo)
    ensures
        ({
            let row = s.row();
            &&& row.len() == 8
            &&& reads_as(row[0], s.handle)
            &&& reads_as(row[1], s.addr_family)
            &&& reads_as(row[2], s.socket_type)
            &&& reads_as(row[3], s.protocol)
            &&& tells_endpoint(row[4], s.local_addr, s.local_port)
            &&& tells_endpoint(row[5], s.remote_addr, s.remote_port)
            &&& reads_as(row[6], s.tcp_state)
            &&& reads_as(row[7], s.flags)
        }),
{
    address_reads_as(s.handle);
    decimal_reads_as(s.addr_family);
    decimal_reads_as(s.socket_type);
    decimal_reads_as(s.protocol);
    endpoint_tells(s.local_addr, s.local_port);
    endpoint_tells(s.remote_addr, s.remote_port);
    decimal_reads_as(s.tcp_state);
    address_reads_as(s.flags);
}

/// The line of a section or a socket is its row, separated by tabs, and that of
/// a console its name, a tab, and its address.
pub proof fn lines_are_rows(s: SectionInfo, k: SocketInfo, c: FoundConsole)
    ensures
        s.line() == tabbed(s.row()),
        k.line() == tabbed(k.row()),
        c.row() == seq![c.name@, c.addr@],
        c.line() == c.name@ + "\t"@ + c.addr@,
{
    let row = c.row();
    assert(row.drop_last() =~= seq![c.name@]);
    assert(tabbed(row.drop_last()) == c.name@);
}

/// A listing of a directory has one row for each entry, in their order: the
/// name, the size of a file or a dash, what it is, and when it was changed. The
/// plain lines are these rows, separated by tabs.
pub proof fn directory_rows_show_entries(
    path: Seq<char>,
    entries: Seq<DirEntry>,
    times: Seq<Seq<char>>,
    ui: UiCtx,
    colors: bool,
    i: int,
)
    requires
        times.len() == entries.len(),
        0 <= i < entries.len(),
    ensures
        ({
            let e = entries[i];
            let row = seq![
                e.name@,
                if e.is_directory {
                    "-"@
                } else {
                    ui.size_text(e.size as nat)
                },
                if e.is_directory {
                    "DIR"@
                } else {
                    "FILE"@
                },
                times[i],
            ];
            match directory_listing(path, entries, times, ui, colors) {
                Shown::Table { heading, columns, rows } => {
                    &&& ui.format == OutputFormat::Pretty
                    &&& heading == heading_text("ls "@ + path, true, colors)
                    &&& columns == seq!["name"@, "size"@, "kind"@, "changed"@]
                    &&& rows.len() == entries.len()
                    &&& rows[i] == row
                },
                Shown::Lines(lines) => {
                    &&& ui.format == OutputFormat::Plain
                    &&& lines.len() == entries.len()
                    &&& lines[i] == tabbed(row)
                },
            }
        }),
{
    let row = entry_rows(entries, times, ui)[i];
    assert(row =~= seq![
        entries[i].name@,
        entry_size(entries[i].is_directory, entries[i].size, ui),
        entry_kind(entries[i]),
        times[i],
    ]);
}

/// A list has one row, and one line, for each record, in their order.
pub proof fn records_have_a_row_each<R: Record>(v: Seq<R>)
    ensures
        rows_of(v).len() == v.len(),
        lines_of(v).len() == v.len(),
        forall|i: int| 0 <= i < v.len() ==> #[trigger] rows_of(v)[i] == v[i].row(),
        forall|i: int| 0 <= i < v.len() ==> #[trigger] lines_of(v)[i] == v[i].line(),
{
}

/// A time that is shown is that very instant, as date and time at some offset
/// from UTC; from the end of the year 9999 on it is the FILETIME in hex.
pub proof fn shown_time_is_the_instant(shown: Seq<char>, ticks: u64) -> (offset: i32)
    requires
        shows_time(shown, ticks),
    ensures
        -93599 <= offset <= 93599,
        ticks < (253402207200 + 11644473600 + 1) * 10000000 ==> shown == clock_text(
            (ticks as int / 10000000 - 11644473600) as i64,
            ((ticks as int % 10000000) * 100) as i32,
            offset,
            "%Y-%m-%d %H:%M:%S"@,
        ),
        ticks >= (253402207200 + 11644473600 + 1) * 10000000 ==> shown == hex_literal(
            ticks as nat,
            16,
        ),
{
    let offset = choose|offset: i32|
        offset_range(offset as int) && shown == #[trigger] time_text(ticks, offset);
    times_are_shown_up_to_9999(ticks, offset);
    offset
}

} // verus!
