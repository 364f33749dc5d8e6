//! What is said of single transfers.

use vstd::prelude::*;

use crate::parse::{all_digits, decimal_digits, digits_value, is_digit};
use crate::style::{ok_label, ok_tag};
use crate::text::{decimal, decimal_text, ends};

verus! {

/// The line about a download.
pub open spec fn downloaded_file(
    copied: nat,
    total: nat,
    path: Seq<char>,
    colors: bool,
) -> Seq<char> {
    ok_label("downloaded"@, colors) + " "@ + decimal(copied) + " bytes ("@ + decimal(total)
        + " declared) to "@ + path
}

/// Says what was downloaded: the bytes saved, the bytes that were declared, and
/// the local path.
pub fn downloaded_file_text(copied: u64, total: u64, path: &str, colors: bool) -> (r: String)
    ensures
        r@ == downloaded_file(copied as nat, total as nat, path@, colors),
{
    let saved = decimal_text(copied);
    let declared = decimal_text(total);
    let mut out = ok_tag("downloaded", colors);
    out.append(" ");
    out.append(saved.as_str());
    out.append(" bytes (");
    out.append(declared.as_str());
    out.append(" declared) to ");
    out.append(path);
    out
}

/// The line about an upload.
pub open spec fn uploaded(size: nat, remote: Seq<char>, colors: bool) -> Seq<char> {
    ok_label("uploaded"@, colors) + " "@ + decimal(size) + " bytes to "@ + remote
}

/// Says what was uploaded.
pub fn uploaded_text(size: u64, remote: &str, colors: bool) -> (r: String)
    ensures
        r@ == uploaded(size as nat, remote@, colors),
{
    let bytes = decimal_text(size);
    let mut out = ok_tag("uploaded", colors);
    out.append(" ");
    out.append(bytes.as_str());
    out.append(" bytes to ");
    out.append(remote);
    out
}

/// The line about a write into a remote file.
pub open spec fn wrote_range(
    length: nat,
    offset: nat,
    remote: Seq<char>,
    colors: bool,
) -> Seq<char> {
    ok_label("wrote"@, colors) + " "@ + decimal(length) + " bytes at offset "@ + decimal(offset)
        + " in "@ + remote
}

/// Says what was written into a remote file.
pub fn wrote_range_text(length: u64, offset: u64, remote: &str, colors: bool) -> (r: String)
    ensures
        r@ == wrote_range(length as nat, offset as nat, remote@, colors),
{
    let bytes = decimal_text(length);
    let from = decimal_text(offset);
    let mut out = ok_tag("wrote", colors);
    out.append(" ");
    out.append(bytes.as_str());
    out.append(" bytes at offset ");
    out.append(from.as_str());
    out.append(" in ");
    out.append(remote);
    out
}

/// At `at` in the line stand the decimal digits of `n`, and behind them no other
/// digit.
pub open spec fn number_at(line: Seq<char>, at: int, n: nat) -> bool {
    exists|to: int|
        {
            &&& 0 <= at < to < line.len()
            &&& #[trigger] number_between(line, at, to, n)
            &&& !is_digit(line[to], 10)
        }
}

/// The characters from `at` up to `to` are the decimal digits of `n`.
pub open spec fn number_between(line: Seq<char>, at: int, to: int, n: nat) -> bool {
    &&& all_digits(line.subrange(at, to), 10)
    &&& digits_value(line.subrange(at, to), 10) == n
}

/// A number between two texts, the second of which does not begin with a digit,
/// can be told from the line.
pub proof fn number_is_told(head: Seq<char>, n: nat, tail: Seq<char>)
    requires
        tail.len() > 0,
        !is_digit(tail[0], 10),
    ensures
        number_at(head + decimal(n) + tail, head.len() as int, n),
{
    let line = head + decimal(n) + tail;
    let to = (head.len() + decimal(n).len()) as int;
    decimal_digits(n);
    assert(line.subrange(head.len() as int, to) =~= decimal(n));
    assert(line[to] == tail[0]);
    assert(number_between(line, head.len() as int, to, n));
}

/// The line about a download tells how many bytes were saved, right behind its
/// label, then how many were declared, and ends with the local path.
pub proof fn download_line_tells_bytes(copied: nat, total: nat, path: Seq<char>, colors: bool)
    ensures
        ({
            let line = downloaded_file(copied, total, path, colors);
            let first = ok_label("downloaded"@, colors).len() as int + 1;
            let second = first + decimal(copied).len() + " bytes ("@.len();
            &&& number_at(line, first, copied)
            &&& number_at(line, second, total)
            &&& ends(line, " to "@ + path)
        }),
{
    reveal_strlit(" ");
    reveal_strlit(" bytes (");
    reveal_strlit(" declared) to ");
    reveal_strlit(" to ");
    let line = downloaded_file(copied, total, path, colors);
    let head = ok_label("downloaded"@, colors) + " "@;
    let tail = " bytes ("@ + decimal(total) + " declared) to "@ + path;
    assert(line =~= head + decimal(copied) + tail);
    number_is_told(head, copied, tail);
    let head2 = head + decimal(copied) + " bytes ("@;
    let tail2 = " declared) to "@ + path;
    assert(line =~= head2 + decimal(total) + tail2);
    number_is_told(head2, total, tail2);
    let to = " to "@ + path;
    assert(line.skip(line.len() - to.len()) =~= to);
}

/// The line about an upload tells how many bytes it was, and ends with the remote
/// path.
pub proof fn upload_line_tells_bytes(size: nat, remote: Seq<char>, colors: bool)
    ensures
        ({
            let line = uploaded(size, remote, colors);
            &&& number_at(line, ok_label("uploaded"@, colors).len() as int + 1, size)
            &&& ends(line, " bytes to "@ + remote)
        }),
{
    reveal_strlit(" ");
    reveal_strlit(" bytes to ");
    let line = uploaded(size, remote, colors);
    let head = ok_label("uploaded"@, colors) + " "@;
    let tail = " bytes to "@ + remote;
    assert(line =~= head + decimal(size) + tail);
    number_is_told(head, size, tail);
    assert(line.skip(line.len() - tail.len()) =~= tail);
}

/// The line about a write tells how many bytes were written, then at which
/// offset, and ends with the remote path.
pub proof fn write_line_tells_range(length: nat, offset: nat, remote: Seq<char>, colors: bool)
    ensures
        ({
            let line = wrote_range(length, offset, remote, colors);
            let first = ok_label("wrote"@, colors).len() as int + 1;
            let second = first + decimal(length).len() + " bytes at offset "@.len();
            &&& number_at(line, first, length)
            &&& number_at(line, second, offset)
            &&& ends(line, " in "@ + remote)
        }),
{
    reveal_strlit(" ");
    reveal_strlit(" bytes at offset ");
    reveal_strlit(" in ");
    let line = wrote_range(length, offset, remote, colors);
    let head = ok_label("wrote"@, colors) + " "@;
    let tail = " bytes at offset "@ + decimal(offset) + " in "@ + remote;
    assert(line =~= head + decimal(length) + tail);
    number_is_told(head, length, tail);
    let head2 = head + decimal(length) + " bytes at offset "@;
    let tail2 = " in "@ + remote;
    assert(line =~= head2 + decimal(offset) + tail2);
    number_is_told(head2, offset, tail2);
    assert(line.skip(line.len() - tail2.len()) =~= tail2);
}

} // verus!
