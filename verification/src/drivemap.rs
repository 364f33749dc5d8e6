//! Mapping the console's internal drives, and dumping its flash memory.

use vstd::prelude::*;

use crate::error::{ErrorKind, Failure};
use crate::style::{ok_label, ok_tag, warn_label, warn_tag};
use crate::text::{
    address, address_text, decimal, decimal_text, ends, lowered, plural, plural_suffix, quote,
    quoted, same_ignoring_case, texts,
};
use crate::transfer::{number_at, number_is_told};

verus! {

/// What enabling the internal drives came to.
#[derive(Debug)]
pub struct EnableReport {
    pub already_enabled: bool,
    pub drives_before: Vec<String>,
    pub drives_after: Vec<String>,
}

/// The line about enabling the internal drives.
pub open spec fn enabled_line(already: bool, before: nat, after: nat, colors: bool) -> Seq<char> {
    if already {
        ok_label("no-op"@, colors) + " drivemap flag already set; skipped hijack. "@ + decimal(after)
            + " drive"@ + plural(after) + " visible."@
    } else {
        ok_label("done"@, colors) + " drivemap internal enabled. drives went from "@ + decimal(
            before,
        ) + " -> "@ + decimal(after) + " entries."@
    }
}

/// Says what enabling the internal drives came to.
pub fn enabled_text(report: &EnableReport, colors: bool) -> (r: String)
    ensures
        r@ == enabled_line(
            report.already_enabled,
            report.drives_before@.len(),
            report.drives_after@.len(),
            colors,
        ),
{
    let after = decimal_text(report.drives_after.len() as u64);
    if report.already_enabled {
        let mut out = ok_tag("no-op", colors);
        out.append(" drivemap flag already set; skipped hijack. ");
        out.append(after.as_str());
        out.append(" drive");
        out.append(plural_suffix(report.drives_after.len() as u64));
        out.append(" visible.");
        out
    } else {
        let before = decimal_text(report.drives_before.len() as u64);
        let mut out = ok_tag("done", colors);
        out.append(" drivemap internal enabled. drives went from ");
        out.append(before.as_str());
        out.append(" -> ");
        out.append(after.as_str());
        out.append(" entries.");
        out
    }
}

/// The flash memory is among the drives, its name in any case of letters.
pub open spec fn has_flash(drives: Seq<Seq<char>>) -> bool {
    exists|i: int| 0 <= i < drives.len() && lowered(#[trigger] drives[i]) == lowered("flash"@)
}

/// Whether the flash memory is among the drives.
pub fn flash_visible(drives: &Vec<String>) -> (r: bool)
    ensures
        r == has_flash(texts(drives@)),
{
    for i in 0..drives.len()
        invariant
            forall|k: int|
                0 <= k < i ==> lowered(#[trigger] texts(drives@)[k]) != lowered("flash"@),
    {
        if same_ignoring_case(drives[i].as_str(), "flash") {
            assert(lowered(texts(drives@)[i as int]) == lowered("flash"@));
            return true;
        }
        assert(texts(drives@)[i as int] == drives@[i as int]@);
    }
    false
}

/// A step of a dump of the flash memory.
#[derive(Debug)]
pub enum NandStep {
    /// The flash memory is mounted: download it.
    Download,
    /// It is not: say so, and enable the internal drives first.
    Enable { message: String },
    /// It is not, though the internal drives are enabled.
    Fail(Failure),
}

/// What follows when `drives` are found mounted, before or after the internal
/// drives were enabled.
pub fn nand_step(drives: &Vec<String>, after_enable: bool, colors: bool) -> (r: NandStep)
    ensures
        has_flash(texts(drives@)) <==> r is Download,
        r is Download <==> exists|i: int|
            0 <= i < drives@.len() && lowered((#[trigger] drives@[i])@) == lowered("flash"@),
        !has_flash(texts(drives@)) && !after_enable ==> (r matches NandStep::Enable { message }
            && message@ == warn_label("note:"@, colors)
            + " FLASH: not mounted; running drivemap-enable first"@),
        !has_flash(texts(drives@)) && after_enable ==> (r matches NandStep::Fail(f) && f.reports(
            ErrorKind::EmptyFilename,
            Some("drivemap-enable completed but FLASH: is still not mounted"@),
        )),
{
    proof {
        let names = texts(drives@);
        assert forall|i: int| 0 <= i < drives@.len() implies #[trigger] names[i]
            == drives@[i]@ by {}
        if has_flash(names) {
            let i = choose|i: int|
                0 <= i < names.len() && lowered(#[trigger] names[i]) == lowered("flash"@);
            assert(lowered(drives@[i]@) == lowered("flash"@));
        }
        if exists|i: int|
            0 <= i < drives@.len() && lowered((#[trigger] drives@[i])@) == lowered("flash"@) {
            let i = choose|i: int|
                0 <= i < drives@.len() && lowered((#[trigger] drives@[i])@) == lowered("flash"@);
            assert(lowered(names[i]) == lowered("flash"@));
        }
    }
    if flash_visible(drives) {
        NandStep::Download
    } else if after_enable {
        NandStep::Fail(
            Failure::noted(
                ErrorKind::EmptyFilename,
                "drivemap-enable completed but FLASH: is still not mounted".to_owned(),
            ),
        )
    } else {
        let mut message = warn_tag("note:", colors);
        message.append(" FLASH: not mounted; running drivemap-enable first");
        NandStep::Enable { message }
    }
}

/// The remote path that stands for the whole flash memory.
pub fn nand_remote() -> (r: String)
    ensures
        r@ == "FLASH:\\"@,
{
    "FLASH:\\".to_owned()
}

/// Where a dump of the flash memory is saved.
pub fn nand_output(output: Option<String>) -> (r: String)
    ensures
        r@ == match output {
            Some(path) => path@,
            None => "nand.bin"@,
        },
{
    match output {
        Some(path) => path,
        None => "nand.bin".to_owned(),
    }
}

/// The line about a dump of the flash memory.
pub open spec fn dumped_line(
    copied: nat,
    total: nat,
    path: Seq<char>,
    colors: bool,
) -> Seq<char> {
    ok_label("done"@, colors) + " NAND dump: "@ + decimal(copied) + " bytes ("@ + decimal(total)
        + " declared) to "@ + path
}

/// Says what a dump of the flash memory came to.
pub fn dumped_text(copied: u64, total: u64, path: &str, colors: bool) -> (r: String)
    ensures
        r@ == dumped_line(copied as nat, total as nat, path@, colors),
{
    let saved = decimal_text(copied);
    let declared = decimal_text(total);
    let mut out = ok_tag("done", colors);
    out.append(" NAND dump: ");
    out.append(saved.as_str());
    out.append(" bytes (");
    out.append(declared.as_str());
    out.append(" declared) to ");
    out.append(path);
    out
}

/// Where the debug monitor keeps what the drive mapping depends on.
#[derive(Debug)]
pub struct DrivemapStatus {
    pub module_base: u32,
    pub drivemap_fn: u32,
    pub flag_global: u32,
    pub flag_value: u32,
    pub altaddr_entry: u32,
    pub visible_drives: Vec<String>,
}

/// Quoted texts between brackets, separated by commas.
pub open spec fn quoted_items(v: Seq<Seq<char>>) -> Seq<char>
    decreases v.len(),
{
    if v.len() == 0 {
        Seq::empty()
    } else if v.len() == 1 {
        quoted(v[0])
    } else {
        quoted_items(v.drop_last()) + ", "@ + quoted(v.last())
    }
}

fn quoted_items_text(v: &Vec<String>) -> (r: String)
    ensures
        r@ == quoted_items(texts(v@)),
{
    let ghost all = texts(v@);
    let mut out = String::new();
    for i in 0..v.len()
        invariant
            all == texts(v@),
            out@ == quoted_items(all.take(i as int)),
    {
        let ghost before = out@;
        if i > 0 {
            out.append(", ");
        }
        let item = quote(v[i].as_str());
        out.append(item.as_str());
        assert(all.take(i + 1).drop_last() =~= all.take(i as int));
        assert(all.take(i + 1).last() == v@[i as int]@);
        if i == 0 {
            assert(before =~= Seq::empty());
            assert(out@ =~= item@);
        }
    }
    assert(all.take(all.len() as int) =~= all);
    out
}

/// The lines that show how the drive mapping stands.
pub open spec fn status_report(s: DrivemapStatus) -> Seq<Seq<char>> {
    seq![
        "xbdm @ "@ + address(s.module_base) + ", drivemap_fn @ "@ + address(s.drivemap_fn)
            + ", flag @ "@ + address(s.flag_global) + " = "@ + address(s.flag_value)
            + ", altaddr entry @ "@ + address(s.altaddr_entry),
        "visible drives: ["@ + quoted_items(texts(s.visible_drives@)) + "]"@,
    ]
}

/// Shows how the drive mapping stands.
pub fn status_lines(s: &DrivemapStatus) -> (r: Vec<String>)
    ensures
        texts(r@) == status_report(*s),
{
    let base = address_text(s.module_base);
    let function = address_text(s.drivemap_fn);
    let flag = address_text(s.flag_global);
    let value = address_text(s.flag_value);
    let entry = address_text(s.altaddr_entry);
    let mut first = "xbdm @ ".to_owned();
    first.append(base.as_str());
    first.append(", drivemap_fn @ ");
    first.append(function.as_str());
    first.append(", flag @ ");
    first.append(flag.as_str());
    first.append(" = ");
    first.append(value.as_str());
    first.append(", altaddr entry @ ");
    first.append(entry.as_str());
    let mut second = "visible drives: [".to_owned();
    let items = quoted_items_text(&s.visible_drives);
    second.append(items.as_str());
    second.append("]");
    let out = vec![first, second];
    assert(texts(out@) =~= status_report(*s));
    out
}

/// The line about a drive mapping that was made permanent.
pub open spec fn persisted_line(bytes: nat, path: Seq<char>, colors: bool) -> Seq<char> {
    ok_label("persisted"@, colors) + " wrote "@ + decimal(bytes) + " bytes to "@ + path
}

/// Says where the drive mapping was made permanent.
pub fn persisted_text(bytes: u64, path: &str, colors: bool) -> (r: String)
    ensures
        r@ == persisted_line(bytes as nat, path@, colors),
{
    let count = decimal_text(bytes);
    let mut out = ok_tag("persisted", colors);
    out.append(" wrote ");
    out.append(count.as_str());
    out.append(" bytes to ");
    out.append(path);
    out
}

/// The flash memory is there exactly where a drive is called `flash`, in whatever
/// case of letters; the order of the drives and the others make no difference.
pub proof fn flash_is_found_by_name(drives: Seq<Seq<char>>, others: Seq<Seq<char>>)
    ensures
        has_flash(drives + others) <==> has_flash(drives) || has_flash(others),
        forall|name: Seq<char>|
            #[trigger] has_flash(seq![name]) <==> lowered(name) == seq!['f', 'l', 'a', 's', 'h'],
        !has_flash(Seq::empty()),
{
    reveal_strlit("flash");
    let all = drives + others;
    assert(lowered("flash"@) =~= seq!['f', 'l', 'a', 's', 'h']);
    if has_flash(drives) {
        let i = choose|i: int|
            0 <= i < drives.len() && lowered(#[trigger] drives[i]) == lowered("flash"@);
        assert(all[i] == drives[i]);
    }
    if has_flash(others) {
        let i = choose|i: int|
            0 <= i < others.len() && lowered(#[trigger] others[i]) == lowered("flash"@);
        assert(all[drives.len() + i] == others[i]);
    }
    if has_flash(all) {
        let i = choose|i: int| 0 <= i < all.len() && lowered(#[trigger] all[i]) == lowered("flash"@);
        if i < drives.len() {
            assert(drives[i] == all[i]);
        } else {
            assert(others[i - drives.len()] == all[i]);
        }
    }
    assert forall|name: Seq<char>| #[trigger] has_flash(seq![name]) <==> lowered(name) == seq![
        'f',
        'l',
        'a',
        's',
        'h',
    ] by {
        let one = seq![name];
        assert(one[0] == name);
    }
}

/// Quoted names are listed in their order, with a comma between two of them.
pub proof fn quoted_names_are_listed(v: Seq<Seq<char>>, name: Seq<char>)
    ensures
        quoted_items(Seq::empty()) == Seq::<char>::empty(),
        quoted_items(seq![name]) == quoted(name),
        v.len() > 0 ==> quoted_items(v.push(name)) == quoted_items(v) + ", "@ + quoted(name),
{
    assert(v.push(name).drop_last() =~= v);
}

/// The state of the mapping shows each address, and the drives that can be seen.
pub proof fn status_tells_addresses(s: DrivemapStatus)
    ensures
        ({
            let lines = status_report(s);
            &&& lines.len() == 2
            &&& lines[0] == "xbdm @ "@ + address(s.module_base) + ", drivemap_fn @ "@ + address(
                s.drivemap_fn,
            ) + ", flag @ "@ + address(s.flag_global) + " = "@ + address(s.flag_value)
                + ", altaddr entry @ "@ + address(s.altaddr_entry)
            &&& lines[1] == "visible drives: ["@ + quoted_items(texts(s.visible_drives@)) + "]"@
        }),
{
}

/// The lines about the drive mapping tell their numbers: how many drives there
/// were and are, how many bytes were copied of how many, how many were written.
pub proof fn drive_lines_tell_numbers(
    before: nat,
    after: nat,
    copied: nat,
    total: nat,
    path: Seq<char>,
    colors: bool,
)
    ensures
        ({
            let done = ok_label("done"@, colors).len() as int;
            let noop = ok_label("no-op"@, colors).len() as int;
            let from = done + " drivemap internal enabled. drives went from "@.len();
            let first = done + " NAND dump: "@.len();
            &&& number_at(
                enabled_line(true, before, after, colors),
                noop + " drivemap flag already set; skipped hijack. "@.len(),
                after,
            )
            &&& number_at(enabled_line(false, before, after, colors), from, before)
            &&& number_at(
                enabled_line(false, before, after, colors),
                from + decimal(before).len() + 4,
                after,
            )
            &&& number_at(dumped_line(copied, total, path, colors), first, copied)
            &&& number_at(
                dumped_line(copied, total, path, colors),
                first + decimal(copied).len() + 8,
                total,
            )
            &&& ends(dumped_line(copied, total, path, colors), " to "@ + path)
            &&& number_at(
                persisted_line(copied, path, colors),
                ok_label("persisted"@, colors).len() as int + 7,
                copied,
            )
            &&& ends(persisted_line(copied, path, colors), " bytes to "@ + path)
        }),
{
    reveal_strlit(" drive");
    reveal_strlit(" -> ");
    reveal_strlit(" entries.");
    reveal_strlit(" bytes (");
    reveal_strlit(" declared) to ");
    reveal_strlit(" to ");
    reveal_strlit(" wrote ");
    reveal_strlit(" bytes to ");
    let a = ok_label("no-op"@, colors) + " drivemap flag already set; skipped hijack. "@;
    let a_tail = " drive"@ + plural(after) + " visible."@;
    assert(enabled_line(true, before, after, colors) =~= a + decimal(after) + a_tail);
    number_is_told(a, after, a_tail);
    let b = ok_label("done"@, colors) + " drivemap internal enabled. drives went from "@;
    let b_tail = " -> "@ + decimal(after) + " entries."@;
    assert(enabled_line(false, before, after, colors) =~= b + decimal(before) + b_tail);
    number_is_told(b, before, b_tail);
    let c = b + decimal(before) + " -> "@;
    assert(enabled_line(false, before, after, colors) =~= c + decimal(after) + " entries."@);
    number_is_told(c, after, " entries."@);
    let d = ok_label("done"@, colors) + " NAND dump: "@;
    let d_tail = " bytes ("@ + decimal(total) + " declared) to "@ + path;
    let dumped = dumped_line(copied, total, path, colors);
    assert(dumped =~= d + decimal(copied) + d_tail);
    number_is_told(d, copied, d_tail);
    let e = d + decimal(copied) + " bytes ("@;
    let e_tail = " declared) to "@ + path;
    assert(dumped =~= e + decimal(total) + e_tail);
    number_is_told(e, total, e_tail);
    let to = " to "@ + path;
    assert(dumped.skip(dumped.len() - to.len()) =~= to);
    let f = ok_label("persisted"@, colors) + " wrote "@;
    let f_tail = " bytes to "@ + path;
    let kept = persisted_line(copied, path, colors);
    assert(kept =~= f + decimal(copied) + f_tail);
    number_is_told(f, copied, f_tail);
    assert(kept.skip(kept.len() - f_tail.len()) =~= f_tail);
}

} // verus!
