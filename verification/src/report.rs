//! How the console's replies are shown.

use vstd::prelude::*;

use crate::error::ErrorKind;
use crate::hexdump::{bytes_hex, dump_rows, hex_dump, hex_dump_decodes, hex_dump_rows};
use crate::parse::{
    address_reads_back, address_width, all_digits, argument_value, decimal_digits, digits_value,
    hex_literal_stands_for, spelled_bytes, spells_bytes,
};
use crate::records::{address_reads_as, entry_size, entry_size_text, reads_as, shows_time};
use crate::style::heading_text;
use crate::text::{
    address, address_text, bool_name, bool_text, decimal, decimal_text, hex_literal,
    hex_literal_text, last_index, last_index_greatest, last_index_is, texts, trimmed,
};
use crate::transfer::{number_at, number_is_told};
use crate::ui::{heading_label, OutputFormat, UiCtx};

verus! {

/// What is printed: lines, or a table under a heading.
#[derive(Debug)]
pub enum Output {
    Lines(Vec<String>),
    Table { heading: String, columns: Vec<String>, rows: Vec<Vec<String>> },
}

/// What is printed, as a value.
#[verifier::ext_equal]
pub enum Shown {
    Lines(Seq<Seq<char>>),
    Table { heading: Seq<char>, columns: Seq<Seq<char>>, rows: Seq<Seq<Seq<char>>> },
}

/// The texts of the rows of a table.
pub open spec fn cells(rows: Seq<Vec<String>>) -> Seq<Seq<Seq<char>>> {
    rows.map_values(|row: Vec<String>| texts(row@))
}

impl View for Output {
    type V = Shown;

    open spec fn view(&self) -> Shown {
        match self {
            Output::Lines(lines) => Shown::Lines(texts(lines@)),
            Output::Table { heading, columns, rows } => Shown::Table {
                heading: heading@,
                columns: texts(columns@),
                rows: cells(rows@),
            },
        }
    }
}

/// A listing: a table where output is pretty, else one line for each row.
pub open spec fn listing(
    ui: UiCtx,
    colors: bool,
    label: Seq<char>,
    columns: Seq<Seq<char>>,
    rows: Seq<Seq<Seq<char>>>,
    lines: Seq<Seq<char>>,
) -> Shown {
    if ui.is_pretty() {
        Shown::Table {
            heading: heading_text(label, true, colors),
            columns,
            rows,
        }
    } else {
        Shown::Lines(lines)
    }
}

/// The texts of a row, separated by tabs.
pub open spec fn tabbed(row: Seq<Seq<char>>) -> Seq<char>
    decreases row.len(),
{
    if row.len() == 0 {
        Seq::empty()
    } else if row.len() == 1 {
        row[0]
    } else {
        tabbed(row.drop_last()) + "\t"@ + row.last()
    }
}

/// What stands between the tabs of a line.
pub open spec fn fields(s: Seq<char>) -> Seq<Seq<char>>
    decreases s.len(),
{
    let at = last_index(s, '\t');
    if 0 <= at < s.len() {
        fields(s.take(at)).push(s.skip(at + 1))
    } else {
        seq![s]
    }
}

/// A line of tab-separated values is taken apart into the values it was made
/// of, as long as none of them holds a tab.
pub proof fn tabbed_fields(row: Seq<Seq<char>>)
    requires
        row.len() > 0,
        forall|i: int| 0 <= i < row.len() ==> !(#[trigger] row[i]).contains('\t'),
    ensures
        fields(tabbed(row)) == row,
    decreases row.len(),
{
    let s = tabbed(row);
    if row.len() == 1 {
        last_index_greatest(s, '\t');
        assert(!row[0].contains('\t'));
        assert(fields(s) =~= row);
    } else {
        reveal_strlit("\t");
        let front = row.drop_last();
        let head = tabbed(front);
        let last = row.last();
        assert forall|i: int| 0 <= i < front.len() implies !(#[trigger] front[i]).contains('\t') by {
            assert(front[i] == row[i]);
        }
        tabbed_fields(front);
        assert(!row[row.len() - 1].contains('\t'));
        let at = head.len() as int;
        assert(s[at] == '\t');
        assert forall|k: int| at < k < s.len() implies s[k] != '\t' by {
            assert(s[k] == last[k - at - 1]);
            assert(last.contains(last[k - at - 1]));
        }
        last_index_is(s, '\t', at);
        assert(s.take(at) =~= head);
        assert(s.skip(at + 1) =~= last);
        assert(front.push(last) =~= row);
    }
}

/// The texts of a row, separated by tabs.
pub(crate) fn tabbed_text(row: &Vec<String>) -> (r: String)
    ensures
        r@ == tabbed(texts(row@)),
{
    let mut out = String::new();
    let ghost all = texts(row@);
    for i in 0..row.len()
        invariant
            all == texts(row@),
            out@ == tabbed(all.take(i as int)),
    {
        let ghost before = out@;
        if i > 0 {
            out.append("\t");
        }
        out.append(row[i].as_str());
        assert(all.take(i + 1).drop_last() =~= all.take(i as int));
        assert(all.take(i + 1).last() == row@[i as int]@);
        if i == 0 {
            assert(before =~= Seq::empty());
            assert(out@ =~= row@[0]@);
        }
    }
    assert(all.take(all.len() as int) =~= all);
    out
}

pub(crate) fn table(
    label: &str,
    columns: Vec<String>,
    rows: Vec<Vec<String>>,
    ui: &UiCtx,
    colors: bool,
) -> (r: Output)
    requires
        ui.is_pretty(),
    ensures
        r@ == (Shown::Table {
            heading: heading_text(label@, true, colors),
            columns: texts(columns@),
            rows: cells(rows@),
        }),
{
    Output::Table { heading: heading_label(label, ui, colors), columns, rows }
}

/// One line.
pub open spec fn one_line(s: Seq<char>) -> Shown {
    Shown::Lines(seq![s])
}

pub(crate) fn line_output(line: String) -> (r: Output)
    ensures
        r@ == one_line(line@),
{
    let lines = vec![line];
    assert(texts(lines@) =~= seq![line@]);
    Output::Lines(lines)
}

/// A reply that is shown as it is, such as a name or an address.
pub fn plain_output(text: &str) -> (r: Output)
    ensures
        r@ == one_line(text@),
{
    line_output(text.to_owned())
}

/// Lists texts, one each.
pub open spec fn single_column(v: Seq<Seq<char>>) -> Seq<Seq<Seq<char>>> {
    v.map_values(|s: Seq<char>| seq![s])
}

fn name_list(names: Vec<String>, label: &str, column: &str, ui: &UiCtx, colors: bool) -> (r: Output)
    ensures
        r@ == listing(
            *ui,
            colors,
            label@,
            seq![column@],
            single_column(texts(names@)),
            texts(names@),
        ),
{
    if !ui.pretty() {
        return Output::Lines(names);
    }
    let columns = vec![column.to_owned()];
    assert(texts(columns@) =~= seq![column@]);
    let ghost all = single_column(texts(names@));
    let mut rows: Vec<Vec<String>> = Vec::new();
    assert(cells(rows@) =~= all.take(0));
    for i in 0..names.len()
        invariant
            all == single_column(texts(names@)),
            cells(rows@) == all.take(i as int),
    {
        let ghost before = rows@;
        let row = vec![names[i].clone()];
        assert(texts(row@) =~= seq![names@[i as int]@]);
        rows.push(row);
        assert(cells(rows@) =~= cells(before).push(texts(row@)));
        assert(cells(rows@) =~= all.take(i + 1));
    }
    assert(all.take(all.len() as int) =~= all);
    table(label, columns, rows, ui, colors)
}

/// Shows the feature flags of a console.
pub fn features_output(flags: Vec<String>) -> (r: Output)
    ensures
        r@ == Shown::Lines(texts(flags@)),
{
    Output::Lines(flags)
}

/// Lists the drives.
pub fn drives_output(drives: Vec<String>, ui: &UiCtx, colors: bool) -> (r: Output)
    ensures
        r@ == listing(
            *ui,
            colors,
            "drives"@,
            seq!["drive"@],
            single_column(texts(drives@)),
            texts(drives@),
        ),
{
    name_list(drives, "drives", "drive", ui, colors)
}

/// Lists thread ids.
pub fn threads_output(threads: Vec<String>, ui: &UiCtx, colors: bool) -> (r: Output)
    ensures
        r@ == listing(
            *ui,
            colors,
            "threads"@,
            seq!["thread id"@],
            single_column(texts(threads@)),
            texts(threads@),
        ),
{
    name_list(threads, "threads", "thread id", ui, colors)
}

/// The space on a drive, in bytes.
#[derive(Copy, Clone, Debug)]
pub struct DriveSpace {
    pub free_to_caller: u64,
    pub total: u64,
    pub total_free: u64,
}

/// The rows of a drive's space.
pub open spec fn space_rows(space: DriveSpace, ui: UiCtx) -> Seq<Seq<Seq<char>>> {
    seq![
        seq!["free_to_caller"@, ui.size_text(space.free_to_caller as nat)],
        seq!["total"@, ui.size_text(space.total as nat)],
        seq!["total_free"@, ui.size_text(space.total_free as nat)],
    ]
}

/// Shows the space on a drive.
pub fn space_output(drive: &str, space: &DriveSpace, ui: &UiCtx, colors: bool) -> (r: Output)
    ensures
        ({
            let rows = space_rows(*space, *ui);
            r@ == listing(
                *ui,
                colors,
                "df "@ + drive@,
                seq!["metric"@, "size"@],
                rows,
                seq![tabbed(rows[0]), tabbed(rows[1]), tabbed(rows[2])],
            )
        }),
{
    let first = vec!["free_to_caller".to_owned(), ui.fmt_bytes(space.free_to_caller)];
    let second = vec!["total".to_owned(), ui.fmt_bytes(space.total)];
    let third = vec!["total_free".to_owned(), ui.fmt_bytes(space.total_free)];
    let ghost rows_shown = space_rows(*space, *ui);
    assert(texts(first@) =~= rows_shown[0]);
    assert(texts(second@) =~= rows_shown[1]);
    assert(texts(third@) =~= rows_shown[2]);
    if ui.pretty() {
        let mut label = "df ".to_owned();
        label.append(drive);
        let columns = vec!["metric".to_owned(), "size".to_owned()];
        assert(texts(columns@) =~= seq!["metric"@, "size"@]);
        let rows = vec![first, second, third];
        assert(cells(rows@) =~= rows_shown);
        table(label.as_str(), columns, rows, ui, colors)
    } else {
        let lines = vec![tabbed_text(&first), tabbed_text(&second), tabbed_text(&third)];
        assert(texts(lines@) =~= seq![
            tabbed(rows_shown[0]),
            tabbed(rows_shown[1]),
            tabbed(rows_shown[2]),
        ]);
        Output::Lines(lines)
    }
}

/// Says that the connection came up.
pub fn ping_output() -> (r: Output)
    ensures
        r@ == one_line("connected"@),
{
    plain_output("connected")
}

/// Says that a reboot was asked for.
pub fn reboot_output() -> (r: Output)
    ensures
        r@ == one_line("reboot issued"@),
{
    plain_output("reboot issued")
}

/// A clock reading: the FILETIME in hex, then the same as a date and time.
pub open spec fn clock_lines(ticks: u64, time: Seq<char>) -> Seq<Seq<char>> {
    seq![hex_literal(ticks as nat, 16), time]
}

/// Shows a clock reading whose date and time are given as they are shown.
pub fn clock_report(ticks: u64, time: &str) -> (r: Output)
    ensures
        r@ == Shown::Lines(clock_lines(ticks, time@)),
{
    let raw = hex_literal_text(ticks, 16);
    let lines = vec![raw, time.to_owned()];
    assert(texts(lines@) =~= clock_lines(ticks, time@));
    Output::Lines(lines)
}

/// Shows the console's clock both as a FILETIME and as a local date and time.
pub fn clock_output(ticks: u64, ui: &UiCtx) -> (r: Output)
    ensures
        exists|time: Seq<char>| #[trigger]
            shows_time(time, ticks) && r@ == Shown::Lines(clock_lines(ticks, time)),
{
    let time = ui.fmt_time(ticks);
    assert(shows_time(time@, ticks));
    clock_report(ticks, time.as_str())
}

/// Shows the running title's process id.
pub fn process_output(pid: u32) -> (r: Output)
    ensures
        r@ == one_line(address(pid)),
{
    line_output(address_text(pid))
}

/// The class of the console's memory, in hex.
pub open spec fn class_line(class: u32) -> Seq<char> {
    "class="@ + hex_literal(class as nat, 2)
}

/// Shows the class of the console's memory.
pub fn memory_class_output(class: u32) -> (r: Output)
    ensures
        r@ == one_line(class_line(class)),
{
    let mut line = "class=".to_owned();
    let code = hex_literal_text(class as u64, 2);
    line.append(code.as_str());
    line_output(line)
}

/// The console's name and its two network addresses.
pub open spec fn address_lines(name: Seq<char>, debug: Seq<u8>, title: Seq<u8>) -> Seq<Seq<char>> {
    seq!["name="@ + name, "debug="@ + bytes_hex(debug), "title="@ + bytes_hex(title)]
}

/// Shows the console's network addresses, which are opaque bytes.
pub fn addresses_output(name: &str, debug: &[u8], title: &[u8]) -> (r: Output)
    ensures
        r@ == Shown::Lines(address_lines(name@, debug@, title@)),
{
    let mut first = "name=".to_owned();
    first.append(name);
    let mut second = "debug=".to_owned();
    let debug_hex = hex_dump(debug);
    second.append(debug_hex.as_str());
    let mut third = "title=".to_owned();
    let title_hex = hex_dump(title);
    third.append(title_hex.as_str());
    let lines = vec![first, second, third];
    assert(texts(lines@) =~= seq![first@, second@, third@]);
    Output::Lines(lines)
}

/// What is known of a title.
pub open spec fn title_lines(name: Seq<char>, timestamp: u32, checksum: u32) -> Seq<Seq<char>> {
    seq![
        "name="@ + name,
        "timestamp="@ + address(timestamp),
        "checksum="@ + address(checksum),
    ]
}

/// Shows what is known of a title.
pub fn title_output(name: &str, timestamp: u32, checksum: u32) -> (r: Output)
    ensures
        r@ == Shown::Lines(title_lines(name@, timestamp, checksum)),
{
    let mut first = "name=".to_owned();
    first.append(name);
    let mut second = "timestamp=".to_owned();
    let time = address_text(timestamp);
    second.append(time.as_str());
    let mut third = "checksum=".to_owned();
    let sum = address_text(checksum);
    third.append(sum.as_str());
    let lines = vec![first, second, third];
    assert(texts(lines@) =~= seq![first@, second@, third@]);
    Output::Lines(lines)
}

/// One sample of a performance counter.
pub open spec fn sample_line(kind: u32, value: u64, rate: u64) -> Seq<char> {
    "type="@ + address(kind) + " value="@ + decimal(value as nat) + " rate="@ + decimal(rate as nat)
}

/// Shows one sample of a performance counter.
pub fn sample_output(kind: u32, value: u64, rate: u64) -> (r: Output)
    ensures
        r@ == one_line(sample_line(kind, value, rate)),
{
    let mut line = "type=".to_owned();
    let code = address_text(kind);
    line.append(code.as_str());
    line.append(" value=");
    let total = decimal_text(value);
    line.append(total.as_str());
    line.append(" rate=");
    let speed = decimal_text(rate);
    line.append(speed.as_str());
    line_output(line)
}

/// How much of a write to memory was asked for and carried out.
pub open spec fn written_line(requested: u64, written: u64) -> Seq<char> {
    "requested="@ + decimal(requested as nat) + " written="@ + decimal(written as nat)
}

/// Shows how much of a write to memory was carried out.
pub fn written_output(requested: u64, written: u64) -> (r: Output)
    ensures
        r@ == one_line(written_line(requested, written)),
{
    let mut line = "requested=".to_owned();
    let asked = decimal_text(requested);
    line.append(asked.as_str());
    line.append(" written=");
    let done = decimal_text(written);
    line.append(done.as_str());
    line_output(line)
}

/// The attributes of a remote file; the times are given as they are shown.
pub open spec fn attributes_line(
    is_directory: bool,
    size: u64,
    created: Seq<char>,
    changed: Seq<char>,
    ui: UiCtx,
) -> Seq<char> {
    "size="@ + entry_size(is_directory, size, ui) + " created="@ + created + " changed="@ + changed
        + " is_directory="@ + bool_text(is_directory)
}

/// A line with the attributes of a remote file.
pub fn attributes_text(
    is_directory: bool,
    size: u64,
    created: &str,
    changed: &str,
    ui: &UiCtx,
) -> (r: String)
    ensures
        r@ == attributes_line(is_directory, size, created@, changed@, *ui),
{
    let mut line = "size=".to_owned();
    let bytes = entry_size_text(is_directory, size, ui);
    line.append(bytes.as_str());
    line.append(" created=");
    line.append(created);
    line.append(" changed=");
    line.append(changed);
    line.append(" is_directory=");
    line.append(bool_name(is_directory));
    line
}

/// Shows the attributes of a remote file, its times in local time.
pub fn attributes_output(
    is_directory: bool,
    size: u64,
    create_time: u64,
    change_time: u64,
    ui: &UiCtx,
) -> (r: Output)
    ensures
        exists|created: Seq<char>, changed: Seq<char>|
            #![trigger shows_time(created, create_time), shows_time(changed, change_time)]
            {
                &&& shows_time(created, create_time)
                &&& shows_time(changed, change_time)
                &&& r@ == one_line(attributes_line(is_directory, size, created, changed, *ui))
            },
{
    let created = ui.fmt_time(create_time);
    let changed = ui.fmt_time(change_time);
    let line = attributes_text(is_directory, size, created.as_str(), changed.as_str(), ui);
    assert(shows_time(created@, create_time) && shows_time(changed@, change_time));
    line_output(line)
}

/// Shows a stretch of memory.
pub fn memory_output(base: u32, data: &[u8], unmapped: &[u32]) -> (r: Output)
    ensures
        r@ == Shown::Lines(dump_rows(base, data@, unmapped@)),
{
    Output::Lines(hex_dump_rows(base, data, unmapped))
}

/// A listing is a table exactly where output is pretty. The table carries the
/// rows and the columns as they are, and plain output the lines.
pub proof fn listing_follows_format(
    ui: UiCtx,
    colors: bool,
    label: Seq<char>,
    columns: Seq<Seq<char>>,
    rows: Seq<Seq<Seq<char>>>,
    lines: Seq<Seq<char>>,
)
    ensures
        match listing(ui, colors, label, columns, rows, lines) {
            Shown::Table { heading, columns: c, rows: r } => {
                &&& ui.format == OutputFormat::Pretty
                &&& c == columns
                &&& r == rows
                &&& !colors ==> heading == label
                &&& heading == heading_text(label, true, colors)
            },
            Shown::Lines(l) => ui.format == OutputFormat::Plain && l == lines,
        },
{
}

/// Names are listed one to the row, in their order.
pub proof fn names_have_a_row_each(names: Seq<Seq<char>>)
    ensures
        single_column(names).len() == names.len(),
        forall|i: int|
            0 <= i < names.len() ==> #[trigger] single_column(names)[i] == seq![names[i]],
{
}

/// The space on a drive is told in three rows: what the caller may use, the
/// whole, and what is free in all.
pub proof fn space_is_told_in_three_rows(space: DriveSpace, ui: UiCtx)
    ensures
        ({
            let rows = space_rows(space, ui);
            &&& rows.len() == 3
            &&& rows[0] == seq!["free_to_caller"@, ui.size_text(space.free_to_caller as nat)]
            &&& rows[1] == seq!["total"@, ui.size_text(space.total as nat)]
            &&& rows[2] == seq!["total_free"@, ui.size_text(space.total_free as nat)]
        }),
{
}

/// A clock reading shows the FILETIME in hex, all of its 64 bits, and then the
/// date and time.
pub proof fn clock_shows_filetime(ticks: u64, time: Seq<char>)
    ensures
        ({
            let lines = clock_lines(ticks, time);
            &&& lines.len() == 2
            &&& lines[0].len() >= 18
            &&& lines[0].take(2) == "0x"@
            &&& digits_value(lines[0].skip(2), 16) == ticks
            &&& lines[1] == time
        }),
{
    hex_literal_stands_for(ticks as nat, 16);
    reveal_strlit("0x");
}

/// The attributes of a file begin with its size, or a dash for a directory, go on
/// with the times of its creation and its last change, and end with what it is.
pub proof fn attributes_tell_all(
    is_directory: bool,
    size: u64,
    created: Seq<char>,
    changed: Seq<char>,
    ui: UiCtx,
)
    ensures
        ({
            let line = attributes_line(is_directory, size, created, changed, ui);
            let bytes = if is_directory {
                "-"@
            } else {
                ui.size_text(size as nat)
            };
            let head = "size="@ + bytes + " created="@ + created;
            let tail = " changed="@ + changed + " is_directory="@ + if is_directory {
                "true"@
            } else {
                "false"@
            };
            line == head + tail
        }),
{
    let line = attributes_line(is_directory, size, created, changed, ui);
    let bytes = if is_directory {
        "-"@
    } else {
        ui.size_text(size as nat)
    };
    let head = "size="@ + bytes + " created="@ + created;
    let tail = " changed="@ + changed + " is_directory="@ + bool_text(is_directory);
    assert(line =~= head + tail);
}

/// The line ends with the label and the decimal digits of the number.
pub open spec fn ends_telling(line: Seq<char>, label: Seq<char>, n: nat) -> bool {
    exists|at: int|
        {
            &&& label.len() <= at < line.len()
            &&& #[trigger] line.subrange(at - label.len(), at) == label
            &&& all_digits(line.skip(at), 10)
            &&& digits_value(line.skip(at), 10) == n
        }
}

proof fn number_ends(head: Seq<char>, label: Seq<char>, n: nat)
    ensures
        ends_telling(head + label + decimal(n), label, n),
{
    let line = head + label + decimal(n);
    let at = (head.len() + label.len()) as int;
    decimal_digits(n);
    assert(line.skip(at) =~= decimal(n));
    assert(line.subrange(at - label.len(), at) =~= label);
}

/// A write tells how many bytes were asked for, and how many were written.
pub proof fn write_tells_counts(requested: u64, written: u64)
    ensures
        ({
            let line = written_line(requested, written);
            let label = "requested="@.len() as int;
            &&& line.take(label) == "requested="@
            &&& number_at(line, label, requested as nat)
            &&& ends_telling(line, " written="@, written as nat)
        }),
{
    reveal_strlit(" written=");
    let line = written_line(requested, written);
    let tail = " written="@ + decimal(written as nat);
    assert(line =~= "requested="@ + decimal(requested as nat) + tail);
    number_is_told("requested="@, requested as nat, tail);
    number_ends("requested="@ + decimal(requested as nat), " written="@, written as nat);
    assert(line.take("requested="@.len() as int) =~= "requested="@);
}

/// A sample tells its kind, as an address that reads back, then its value, and
/// last its rate.
pub proof fn sample_tells_value_and_rate(kind: u32, value: u64, rate: u64)
    ensures
        ({
            let line = sample_line(kind, value, rate);
            &&& line.take(5) == "type="@
            &&& reads_as(line.subrange(5, 15), kind)
            &&& line.subrange(15, 22) == " value="@
            &&& number_at(line, 22, value as nat)
            &&& ends_telling(line, " rate="@, rate as nat)
        }),
{
    reveal_strlit("type=");
    reveal_strlit(" value=");
    reveal_strlit(" rate=");
    let line = sample_line(kind, value, rate);
    address_width(kind);
    address_reads_as(kind);
    let head = "type="@ + address(kind) + " value="@;
    let tail = " rate="@ + decimal(rate as nat);
    assert(line =~= head + decimal(value as nat) + tail);
    number_is_told(head, value as nat, tail);
    number_ends(head + decimal(value as nat), " rate="@, rate as nat);
    assert(line.take(5) =~= "type="@);
    assert(line.subrange(5, 15) =~= address(kind));
    assert(line.subrange(15, 22) =~= " value="@);
}

/// A title is told in three lines: its name, and two numbers that read back.
pub proof fn title_tells_numbers(name: Seq<char>, timestamp: u32, checksum: u32)
    ensures
        ({
            let lines = title_lines(name, timestamp, checksum);
            &&& lines.len() == 3
            &&& lines[0].take(5) == "name="@
            &&& lines[0].skip(5) == name
            &&& lines[1].take(10) == "timestamp="@
            &&& argument_value(lines[1].skip(10)) == Ok::<u32, ErrorKind>(timestamp)
            &&& lines[2].take(9) == "checksum="@
            &&& argument_value(lines[2].skip(9)) == Ok::<u32, ErrorKind>(checksum)
        }),
{
    reveal_strlit("name=");
    reveal_strlit("timestamp=");
    reveal_strlit("checksum=");
    let lines = title_lines(name, timestamp, checksum);
    address_reads_back(timestamp);
    address_reads_back(checksum);
    assert(lines[0].take(5) =~= "name="@);
    assert(lines[0].skip(5) =~= name);
    assert(lines[1].take(10) =~= "timestamp="@);
    assert(lines[1].skip(10) =~= address(timestamp));
    assert(lines[2].take(9) =~= "checksum="@);
    assert(lines[2].skip(9) =~= address(checksum));
}

/// The bytes of the network addresses are shown in hex digits that spell them.
pub proof fn network_addresses_spell_bytes(name: Seq<char>, debug: Seq<u8>, title: Seq<u8>)
    ensures
        ({
            let lines = address_lines(name, debug, title);
            &&& lines.len() == 3
            &&& lines[0] == "name="@ + name
            &&& lines[1].take(6) == "debug="@
            &&& spells_bytes(trimmed(lines[1].skip(6)))
            &&& spelled_bytes(trimmed(lines[1].skip(6))) == debug
            &&& lines[2].take(6) == "title="@
            &&& spells_bytes(trimmed(lines[2].skip(6)))
            &&& spelled_bytes(trimmed(lines[2].skip(6))) == title
        }),
{
    reveal_strlit("debug=");
    reveal_strlit("title=");
    let lines = address_lines(name, debug, title);
    hex_dump_decodes(debug);
    hex_dump_decodes(title);
    assert(lines[1].take(6) =~= "debug="@);
    assert(lines[1].skip(6) =~= bytes_hex(debug));
    assert(lines[2].take(6) =~= "title="@);
    assert(lines[2].skip(6) =~= bytes_hex(title));
}

/// The class of the memory is shown as a hex literal of two digits at least.
pub proof fn class_is_told_in_hex(class: u32)
    ensures
        ({
            let line = class_line(class);
            &&& line.len() >= 10
            &&& line.take(8) == "class=0x"@
            &&& all_digits(line.skip(8), 16)
            &&& digits_value(line.skip(8), 16) == class
        }),
{
    reveal_strlit("class=");
    reveal_strlit("class=0x");
    reveal_strlit("0x");
    let line = class_line(class);
    let code = hex_literal(class as nat, 2);
    hex_literal_stands_for(class as nat, 2);
    assert(code.take(2) == "0x"@);
    assert(line.take(8) =~= "class=0x"@) by {
        assert forall|i: int| 6 <= i < 8 implies line[i] == #[trigger] "class=0x"@[i] by {
            assert(line[i] == code.take(2)[i - 6]);
        }
    }
    assert(line.skip(8) =~= code.skip(2));
}

} // verus!
