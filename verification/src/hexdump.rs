//! Bytes shown in hex.

use std::collections::HashSet;

use vstd::prelude::*;

use crate::error::ErrorKind;
use crate::parse::{
    address_reads_back, address_width, all_digits, argument_value, byte_at, byte_reads_back,
    is_digit, spelled_bytes, spells_bytes,
};
use crate::text::{
    address, address_text, filled, fill_left, hex, hex_text, texts, trimmed,
};

verus! {

broadcast use vstd::std_specs::hash::group_hash_axioms;

/// The two hex digits of a byte.
pub open spec fn byte_hex(b: u8) -> Seq<char> {
    filled(hex(b as nat), 2, '0')
}

/// The hex digits of a run of bytes.
pub open spec fn bytes_hex(bytes: Seq<u8>) -> Seq<char>
    decreases bytes.len(),
{
    if bytes.len() == 0 {
        Seq::empty()
    } else {
        bytes_hex(bytes.drop_last()) + byte_hex(bytes.last())
    }
}

fn byte_text(b: u8) -> (r: String)
    ensures
        r@ == byte_hex(b),
{
    let digits = hex_text(b as u64);
    fill_left(digits.as_str(), 2, '0')
}

/// All bytes as one run of hex digits.
pub fn hex_dump(bytes: &[u8]) -> (r: String)
    ensures
        r@ == bytes_hex(bytes@),
{
    let mut out = String::new();
    for i in 0..bytes.len()
        invariant
            out@ == bytes_hex(bytes@.take(i as int)),
    {
        let pair = byte_text(bytes[i]);
        out.append(pair.as_str());
        assert(bytes@.take(i + 1).drop_last() =~= bytes@.take(i as int));
    }
    assert(bytes@.take(bytes@.len() as int) =~= bytes@);
    out
}

/// `n` reduced to 32 bits.
pub open spec fn low_bits(n: int) -> u32 {
    (n % 0x1_0000_0000) as u32
}

/// Whether the byte at `at` was read from an unmapped page.
pub open spec fn is_unmapped(unmapped: Seq<u32>, at: int) -> bool {
    unmapped.contains(low_bits(at))
}

/// The hex column entry of the byte at `at`.
pub open spec fn hex_cell(data: Seq<u8>, unmapped: Seq<u32>, at: int) -> Seq<char> {
    if is_unmapped(unmapped, at) {
        "?? "@
    } else {
        byte_hex(data[at]) + " "@
    }
}

/// The text column entry of the byte at `at`: printable ASCII as it is.
pub open spec fn text_cell(data: Seq<u8>, unmapped: Seq<u32>, at: int) -> char {
    if is_unmapped(unmapped, at) || data[at] < 0x20 || data[at] >= 0x7f {
        '.'
    } else {
        data[at] as char
    }
}

/// The first `n` hex cells of the row at `start`, parted after the eighth.
pub open spec fn hex_cells(data: Seq<u8>, unmapped: Seq<u32>, start: int, n: int) -> Seq<char>
    decreases n,
{
    if n <= 0 {
        Seq::empty()
    } else {
        let before = hex_cells(data, unmapped, start, n - 1);
        let cell = hex_cell(data, unmapped, start + n - 1);
        if n == 8 {
            before + cell + " "@
        } else {
            before + cell
        }
    }
}

/// The first `n` text cells of the row at `start`.
pub open spec fn text_cells(data: Seq<u8>, unmapped: Seq<u32>, start: int, n: int) -> Seq<char> {
    Seq::new(n as nat, |i: int| text_cell(data, unmapped, start + i))
}

/// `n` blank hex cells.
pub open spec fn blank_cells(n: int) -> Seq<char>
    decreases n,
{
    if n <= 0 {
        Seq::empty()
    } else {
        blank_cells(n - 1) + "   "@
    }
}

/// How many bytes the row at `start` shows.
pub open spec fn row_len(data: Seq<u8>, start: int) -> int {
    if data.len() - start < 16 {
        data.len() - start
    } else {
        16
    }
}

/// Row `k` of a dump of memory that begins at `base`.
pub open spec fn dump_row(base: u32, data: Seq<u8>, unmapped: Seq<u32>, k: int) -> Seq<char> {
    let start = 16 * k;
    let n = row_len(data, start);
    address(low_bits(base + start)) + "  "@ + hex_cells(data, unmapped, start, n) + blank_cells(
        16 - n,
    ) + " |"@ + text_cells(data, unmapped, start, n) + "|"@
}

/// How many rows a dump of `n` bytes has.
pub open spec fn row_count(n: nat) -> nat {
    (n + 15) / 16
}

/// A dump of memory that begins at `base`, sixteen bytes to the row.
pub open spec fn dump_rows(base: u32, data: Seq<u8>, unmapped: Seq<u32>) -> Seq<Seq<char>> {
    Seq::new(row_count(data.len()), |k: int| dump_row(base, data, unmapped, k))
}

fn low_bits_of(n: u64) -> (r: u32)
    ensures
        r == low_bits(n as int),
{
    (n % 0x1_0000_0000) as u32
}

fn set_of(v: &[u32]) -> (r: HashSet<u32>)
    ensures
        forall|x: u32| r@.contains(x) == v@.contains(x),
{
    let mut out: HashSet<u32> = HashSet::new();
    for i in 0..v.len()
        invariant
            forall|x: u32| out@.contains(x) == v@.take(i as int).contains(x),
    {
        out.insert(v[i]);
        assert forall|x: u32| out@.contains(x) == v@.take(i + 1).contains(x) by {
            let part = v@.take(i as int);
            let more = v@.take(i + 1);
            assert(more =~= part.push(v@[i as int]));
            if part.contains(x) {
                let k = choose|k: int| 0 <= k < part.len() && part[k] == x;
                assert(more[k] == x);
            }
            if x == v@[i as int] {
                assert(more[i as int] == x);
            }
            if more.contains(x) && x != v@[i as int] {
                let k = choose|k: int| 0 <= k < more.len() && more[k] == x;
                assert(part[k] == x);
            }
        }
    }
    assert(v@.take(v@.len() as int) =~= v@);
    out
}

fn dump_row_text(
    base: u32,
    data: &[u8],
    unmapped: Ghost<Seq<u32>>,
    marked: &HashSet<u32>,
    k: usize,
) -> (r: String)
    requires
        16 * k < data@.len(),
        forall|x: u32| marked@.contains(x) == unmapped@.contains(x),
    ensures
        r@ == dump_row(base, data@, unmapped@, k as int),
{
    let start: usize = 16 * k;
    let n: usize = if data.len() - start < 16 {
        data.len() - start
    } else {
        16
    };
    let addr: u32 = ((base as u64 + start as u64 % 0x1_0000_0000) % 0x1_0000_0000) as u32;
    assert(addr == low_bits(base + start));
    let mut out = address_text(addr);
    out.append("  ");
    let ghost head = out@;
    assert(out@ =~= head + hex_cells(data@, unmapped@, start as int, 0));
    for i in 0..n
        invariant
            start + n <= data@.len(),
            data@.len() == data.len(),
            n <= 16,
            forall|x: u32| marked@.contains(x) == unmapped@.contains(x),
            out@ == head + hex_cells(data@, unmapped@, start as int, i as int),
    {
        let ghost before = hex_cells(data@, unmapped@, start as int, i as int);
        let offset: u32 = low_bits_of((start + i) as u64);
        if marked.contains(&offset) {
            out.append("?? ");
            assert(out@ =~= head + (before + "?? "@));
        } else {
            let pair = byte_text(data[start + i]);
            out.append(pair.as_str());
            out.append(" ");
            assert(out@ =~= head + (before + (byte_hex(data@[start + i]) + " "@)));
        }
        let ghost cell = hex_cell(data@, unmapped@, start + i);
        if i == 7 {
            out.append(" ");
            assert(out@ =~= head + (before + cell + " "@));
        }
    }
    let ghost head2 = out@;
    assert(out@ =~= head2 + blank_cells(0));
    for i in n..16
        invariant
            n <= 16,
            out@ == head2 + blank_cells(i - n),
    {
        out.append("   ");
        assert(out@ =~= head2 + (blank_cells(i - n) + "   "@));
    }
    out.append(" |");
    let ghost head3 = out@;
    assert(out@ =~= head3 + text_cells(data@, unmapped@, start as int, 0));
    for i in 0..n
        invariant
            start + n <= data@.len(),
            data@.len() == data.len(),
            n <= 16,
            forall|x: u32| marked@.contains(x) == unmapped@.contains(x),
            out@ == head3 + text_cells(data@, unmapped@, start as int, i as int),
    {
        let offset: u32 = low_bits_of((start + i) as u64);
        let b: u8 = data[start + i];
        if marked.contains(&offset) || b < 0x20 || b >= 0x7f {
            out.push('.');
        } else {
            out.push(b as char);
        }
        assert(out@ =~= head3 + text_cells(data@, unmapped@, start as int, i + 1));
    }
    out.append("|");
    out
}

/// The rows of a memory dump: addresses, hex bytes with `??` for unmapped
/// ones, and the printable text.
pub fn hex_dump_rows(base: u32, data: &[u8], unmapped: &[u32]) -> (r: Vec<String>)
    ensures
        texts(r@) == dump_rows(base, data@, unmapped@),
        forall|k: int|
            0 <= k < r@.len() ==> argument_value((#[trigger] r@[k])@.take(10)) == Ok::<
                u32,
                ErrorKind,
            >(((base + 16 * k) % 0x1_0000_0000) as u32),
{
    let marked = set_of(unmapped);
    let mut out: Vec<String> = Vec::new();
    let rows: usize = data.len() / 16 + if data.len() % 16 == 0 {
        0
    } else {
        1
    };
    for k in 0..rows
        invariant
            rows == row_count(data@.len()),
            forall|x: u32| marked@.contains(x) == unmapped@.contains(x),
            texts(out@) == dump_rows(base, data@, unmapped@).take(k as int),
    {
        let ghost before = out@;
        let row = dump_row_text(base, data, Ghost(unmapped@), &marked, k);
        out.push(row);
        assert(texts(out@) =~= texts(before).push(row@));
        assert(texts(out@) =~= dump_rows(base, data@, unmapped@).take(k + 1));
    }
    assert(texts(out@) =~= dump_rows(base, data@, unmapped@));
    proof {
        let rows = texts(out@);
        assert forall|k: int| 0 <= k < out@.len() implies argument_value(
            (#[trigger] out@[k])@.take(10),
        ) == Ok::<u32, ErrorKind>(((base + 16 * k) % 0x1_0000_0000) as u32) by {
            assert(rows[k] == out@[k]@);
            rows_show_their_addresses(base, data@, unmapped@, rows, k);
        }
    }
    out
}

/// Each row of a dump begins with the address of its first byte: the first row
/// with that of the memory shown, every other one with sixteen more than the
/// row before, in 32 bits.
pub proof fn rows_show_their_addresses(
    base: u32,
    data: Seq<u8>,
    unmapped: Seq<u32>,
    rows: Seq<Seq<char>>,
    k: int,
)
    requires
        rows == dump_rows(base, data, unmapped),
        0 <= k < rows.len(),
    ensures
        rows[k].len() > 10,
        argument_value(rows[k].take(10)) == Ok::<u32, ErrorKind>(
            ((base + 16 * k) % 0x1_0000_0000) as u32,
        ),
        k == 0 ==> argument_value(rows[k].take(10)) == Ok::<u32, ErrorKind>(base),
        k > 0 ==> argument_value(rows[k].take(10)) == Ok::<u32, ErrorKind>(
            ((argument_value(rows[k - 1].take(10))->Ok_0 + 16) % 0x1_0000_0000) as u32,
        ),
{
    assert(rows[k] == dump_row(base, data, unmapped, k));
    row_address(base, data, unmapped, k);
    if k > 0 {
        assert(rows[k - 1] == dump_row(base, data, unmapped, k - 1));
        row_address(base, data, unmapped, k - 1);
        sixteen_on(base + 16 * (k - 1));
    }
}

proof fn sixteen_on(n: int)
    ensures
        (n % 0x1_0000_0000 + 16) % 0x1_0000_0000 == (n + 16) % 0x1_0000_0000,
{
}

proof fn row_address(base: u32, data: Seq<u8>, unmapped: Seq<u32>, k: int)
    requires
        0 <= k < row_count(data.len()),
    ensures
        dump_row(base, data, unmapped, k).len() > 12,
        argument_value(dump_row(base, data, unmapped, k).take(10)) == Ok::<u32, ErrorKind>(
            ((base + 16 * k) % 0x1_0000_0000) as u32,
        ),
{
    let at = ((base + 16 * k) % 0x1_0000_0000) as u32;
    let row = dump_row(base, data, unmapped, k);
    address_reads_back(at);
    address_width(at);
    reveal_strlit("  ");
    reveal_strlit("|");
    assert(row.take(10) =~= address(at));
}

/// Where the row of the byte at `i` shows it in hex: three columns for each
/// byte, and one more behind the eighth.
pub open spec fn hex_column(i: int) -> int {
    12 + 3 * (i % 16) + if i % 16 < 8 {
        0int
    } else {
        1int
    }
}

proof fn hex_cells_len(data: Seq<u8>, unmapped: Seq<u32>, start: int, n: int)
    requires
        0 <= start,
        0 <= n <= 16,
        start + n <= data.len(),
    ensures
        hex_cells(data, unmapped, start, n).len() == 3 * n + if n < 8 {
            0int
        } else {
            1int
        },
    decreases n,
{
    reveal_strlit("?? ");
    reveal_strlit(" ");
    if n > 0 {
        hex_cells_len(data, unmapped, start, n - 1);
        byte_reads_back(data[start + n - 1]);
    }
}

proof fn hex_cell_place(data: Seq<u8>, unmapped: Seq<u32>, start: int, n: int, c: int)
    requires
        0 <= start,
        0 <= c < n <= 16,
        start + n <= data.len(),
    ensures
        ({
            let at = 3 * c + if c < 8 {
                0int
            } else {
                1int
            };
            &&& at + 3 <= hex_cells(data, unmapped, start, n).len()
            &&& hex_cells(data, unmapped, start, n).subrange(at, at + 3) == hex_cell(
                data,
                unmapped,
                start + c,
            )
        }),
    decreases n,
{
    let at = 3 * c + if c < 8 {
        0int
    } else {
        1int
    };
    let all = hex_cells(data, unmapped, start, n);
    let before = hex_cells(data, unmapped, start, n - 1);
    reveal_strlit("?? ");
    reveal_strlit(" ");
    byte_reads_back(data[start + n - 1]);
    hex_cells_len(data, unmapped, start, n - 1);
    if c < n - 1 {
        hex_cell_place(data, unmapped, start, n - 1, c);
        assert(all.subrange(at, at + 3) =~= before.subrange(at, at + 3));
    } else {
        assert(all.subrange(at, at + 3) =~= hex_cell(data, unmapped, start + c));
    }
}

proof fn blank_cells_len(n: int)
    requires
        0 <= n,
    ensures
        blank_cells(n).len() == 3 * n,
    decreases n,
{
    reveal_strlit("   ");
    if n > 0 {
        blank_cells_len(n - 1);
    }
}

/// A dump shows every byte once, sixteen to the row. In its row and column
/// stand two hex digits that read back as the byte, or two question marks where
/// the byte was not mapped; and among the last characters stands the byte
/// itself, or a dot where it was not mapped or is not printable ASCII.
pub proof fn every_byte_is_shown(
    base: u32,
    data: Seq<u8>,
    unmapped: Seq<u32>,
    rows: Seq<Seq<char>>,
    i: int,
)
    requires
        rows == dump_rows(base, data, unmapped),
        0 <= i < data.len(),
    ensures
        data.len() <= 16 * rows.len() < data.len() + 16,
        ({
            let row = rows[i / 16];
            let at = hex_column(i);
            // How many bytes the row holds.
            let n = if data.len() - 16 * (i / 16) < 16 {
                data.len() - 16 * (i / 16)
            } else {
                16int
            };
            let text = row.len() - 1 - n + i % 16;
            let known = !unmapped.contains((i % 0x1_0000_0000) as u32);
            &&& i / 16 < rows.len()
            &&& at + 2 < text < row.len()
            &&& known ==> spells_bytes(row.subrange(at, at + 2)) && spelled_bytes(
                row.subrange(at, at + 2),
            ) == seq![data[i]]
            &&& !known ==> row[at] == '?' && row[at + 1] == '?'
            &&& row[at + 2] == ' '
            &&& row[text] == if known && 0x20 <= data[i] < 0x7f {
                data[i] as char
            } else {
                '.'
            }
            &&& row.last() == '|'
            &&& row[row.len() - 2 - n] == '|'
        }),
{
    let k = i / 16;
    let start = 16 * k;
    let c = i % 16;
    let n = row_len(data, start);
    let row = dump_row(base, data, unmapped, k);
    let at32 = low_bits(base + start);
    let at = hex_column(i);
    assert(start + c == i);
    address_width(at32);
    reveal_strlit("  ");
    reveal_strlit(" |");
    reveal_strlit("|");
    reveal_strlit("?? ");
    reveal_strlit(" ");
    hex_cells_len(data, unmapped, start, n);
    hex_cell_place(data, unmapped, start, n, c);
    blank_cells_len(16 - n);
    byte_reads_back(data[i]);
    let cells = hex_cells(data, unmapped, start, n);
    let cell = hex_cell(data, unmapped, i);
    assert(row.subrange(at, at + 3) =~= cells.subrange(at - 12, at - 9));
    assert(row[at] == row.subrange(at, at + 3)[0]);
    assert(row[at + 1] == row.subrange(at, at + 3)[1]);
    assert(row[at + 2] == row.subrange(at, at + 3)[2]);
    let pair = row.subrange(at, at + 2);
    if !is_unmapped(unmapped, i) {
        assert(pair =~= byte_hex(data[i]));
        assert(byte_at(pair, 0) == Some(data[i] as int));
        assert(spelled_bytes(pair) =~= seq![data[i]]);
    }
    let text = row.len() - 1 - n + c;
    assert(row[text] == text_cells(data, unmapped, start, n)[c]);
}

proof fn bytes_hex_pairs(bytes: Seq<u8>)
    ensures
        bytes_hex(bytes).len() == 2 * bytes.len(),
        all_digits(bytes_hex(bytes), 16),
        forall|i: int|
            0 <= i < bytes.len() ==> #[trigger] bytes_hex(bytes).subrange(2 * i, 2 * i + 2)
                == byte_hex(bytes[i]),
    decreases bytes.len(),
{
    if bytes.len() > 0 {
        let front = bytes.drop_last();
        bytes_hex_pairs(front);
        byte_reads_back(bytes.last());
        let s = bytes_hex(bytes);
        assert forall|i: int| 0 <= i < bytes.len() implies #[trigger] s.subrange(2 * i, 2 * i + 2)
            == byte_hex(bytes[i]) by {
            if i < front.len() {
                assert(s.subrange(2 * i, 2 * i + 2) =~= bytes_hex(front).subrange(2 * i, 2 * i + 2));
                assert(front[i] == bytes[i]);
            } else {
                assert(s.subrange(2 * i, 2 * i + 2) =~= byte_hex(bytes.last()));
            }
        }
        assert forall|i: int| 0 <= i < s.len() implies is_digit(#[trigger] s[i], 16) by {
            if i < bytes_hex(front).len() {
                assert(s[i] == bytes_hex(front)[i]);
            } else {
                assert(s[i] == byte_hex(bytes.last())[i - bytes_hex(front).len()]);
            }
        }
    }
}

/// Decoding the hex digits of some bytes gives the bytes back.
pub proof fn hex_dump_decodes(bytes: Seq<u8>)
    ensures
        spells_bytes(trimmed(bytes_hex(bytes))),
        spelled_bytes(trimmed(bytes_hex(bytes))) == bytes,
{
    let s = bytes_hex(bytes);
    bytes_hex_pairs(bytes);
    assert(trimmed(s) == s) by {
        if s.len() > 0 {
            assert(is_digit(s[0], 16));
            assert(is_digit(s[s.len() - 1], 16));
        }
    }
    assert forall|i: int| 0 <= i < s.len() / 2 implies (#[trigger] byte_at(s, i)) == Some(
        bytes[i] as int,
    ) by {
        let pair = s.subrange(2 * i, 2 * i + 2);
        assert(pair == byte_hex(bytes[i]));
        assert(pair[0] == s[2 * i] && pair[1] == s[2 * i + 1]);
        byte_reads_back(bytes[i]);
    }
    assert(spelled_bytes(s) =~= bytes);
}

} // verus!
