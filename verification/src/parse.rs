//! Arguments given as text: numbers, byte strings and keywords.

use vstd::prelude::*;

use crate::error::{ArgumentKey, ErrorKind, Failure};
use crate::text::{
    address, begins, chars_of, copy_range, decimal, digit_char, filled, hex, hex_literal,
    lower_char, lower_text, lowered, quote, quoted, same_text, starts_with, trim_chars, trimmed,
};

verus! {

/// The value of a digit in bases up to sixteen, or -1.
pub open spec fn digit_value(c: char) -> int {
    if '0' <= c && c <= '9' {
        c as int - '0' as int
    } else if 'a' <= c && c <= 'f' {
        c as int - 'a' as int + 10
    } else if 'A' <= c && c <= 'F' {
        c as int - 'A' as int + 10
    } else {
        -1
    }
}

/// `c` is a digit in the given base.
pub open spec fn is_digit(c: char, radix: int) -> bool {
    0 <= digit_value(c) < radix
}

/// `s` holds nothing but digits of the given base.
pub open spec fn all_digits(s: Seq<char>, radix: int) -> bool {
    forall|i: int| 0 <= i < s.len() ==> is_digit(#[trigger] s[i], radix)
}

/// The number that a sequence of digits stands for.
pub open spec fn digits_value(s: Seq<char>, radix: int) -> int
    decreases s.len(),
{
    if s.len() == 0 {
        0
    } else {
        digits_value(s.drop_last(), radix) * radix + digit_value(s.last())
    }
}

/// The unsigned number up to `max` that `s` spells: a plus sign or none, then
/// at least one digit, and nothing else.
pub open spec fn number(s: Seq<char>, radix: int, max: int) -> Option<int> {
    let digits = without_plus(s);
    if digits.len() > 0 && all_digits(digits, radix) && digits_value(digits, radix) <= max {
        Some(digits_value(digits, radix))
    } else {
        None
    }
}

/// `s` without the plus sign that a number may begin with.
pub open spec fn without_plus(s: Seq<char>) -> Seq<char> {
    if s.len() > 0 && s[0] == '+' {
        s.drop_first()
    } else {
        s
    }
}

/// Digits never stand for a negative number.
pub proof fn digits_value_not_negative(s: Seq<char>, radix: int)
    requires
        radix > 0,
        all_digits(s, radix),
    ensures
        digits_value(s, radix) >= 0,
    decreases s.len(),
{
    if s.len() > 0 {
        let front = s.drop_last();
        assert forall|i: int| 0 <= i < front.len() implies is_digit(#[trigger] front[i], radix) by {
            assert(is_digit(s[i], radix));
        }
        digits_value_not_negative(front, radix);
        assert(is_digit(s[s.len() - 1], radix));
        assert(digits_value(front, radix) * radix >= 0) by (nonlinear_arith)
            requires
                digits_value(front, radix) >= 0,
                radix > 0,
        ;
    }
}

fn digit_of_char(c: char) -> (r: Option<u32>)
    ensures
        r matches Some(d) ==> d == digit_value(c) && d < 16,
        r is None ==> digit_value(c) == -1,
{
    if '0' <= c && c <= '9' {
        Some(c as u32 - 48)
    } else if 'a' <= c && c <= 'f' {
        Some(c as u32 - 97 + 10)
    } else if 'A' <= c && c <= 'F' {
        Some(c as u32 - 65 + 10)
    } else {
        None
    }
}

/// The number up to `max` that the characters spell in the given base.
pub fn parse_number(text: &Vec<char>, radix: u32, max: u32) -> (r: Option<u32>)
    requires
        2 <= radix <= 16,
    ensures
        match number(text@, radix as int, max as int) {
            Some(n) => r matches Some(m) && m == n,
            None => r is None,
        },
{
    let start: usize = if text.len() > 0 && text[0] == '+' {
        1
    } else {
        0
    };
    let v = copy_range(text, start, text.len());
    assert(v@ =~= without_plus(text@));
    if v.len() == 0 {
        return None;
    }
    let mut acc: u64 = 0;
    let mut over: bool = false;
    for i in 0..v.len()
        invariant
            2 <= radix <= 16,
            v@ == without_plus(text@),
            forall|k: int| 0 <= k < i ==> is_digit(#[trigger] v@[k], radix as int),
            !over ==> acc == digits_value(v@.take(i as int), radix as int) && acc <= max,
            over ==> digits_value(v@.take(i as int), radix as int) > max,
    {
        let ghost k = i as int;
        let d: u32 = match digit_of_char(v[i]) {
            Some(d) => d,
            None => {
                assert(!is_digit(v@[k], radix as int));
                return None;
            },
        };
        if d >= radix {
            assert(!is_digit(v@[k], radix as int));
            return None;
        }
        assert(is_digit(v@[k], radix as int));
        assert(v@.take(k + 1).drop_last() =~= v@.take(k));
        assert(v@.take(k + 1).last() == v@[k]);
        let ghost before = digits_value(v@.take(k), radix as int);
        if over {
            assert(before * radix >= before) by (nonlinear_arith)
                requires
                    before >= 0,
                    radix >= 2,
            ;
        } else {
            assert(acc * radix <= 0xffff_ffff * 16) by (nonlinear_arith)
                requires
                    acc <= 0xffff_ffff,
                    radix <= 16,
            ;
            acc = acc * radix as u64 + d as u64;
            if acc > max as u64 {
                over = true;
            }
        }
    }
    assert(v@.take(v@.len() as int) =~= v@);
    if over {
        None
    } else {
        Some(acc as u32)
    }
}

/// A text that begins with `0x` or `0X`.
pub open spec fn has_hex_prefix(s: Seq<char>) -> bool {
    begins(s, "0x"@) || begins(s, "0X"@)
}

/// The number that a command-line argument spells, in hex behind `0x` or `0X`
/// and in decimal otherwise; white space around it is ignored.
pub open spec fn argument_value(s: Seq<char>) -> Result<u32, ErrorKind> {
    let t = trimmed(s);
    if has_hex_prefix(t) {
        match number(t.skip(2), 16, u32::MAX as int) {
            Some(n) => Ok(n as u32),
            None => Err(ErrorKind::InvalidHexDigits(ArgumentKey::Cli)),
        }
    } else {
        match number(t, 10, u32::MAX as int) {
            Some(n) => Ok(n as u32),
            None => Err(ErrorKind::InvalidDecimalU32(ArgumentKey::Cli)),
        }
    }
}

/// Parses a 32-bit number given in decimal or, behind `0x`, in hex.
pub fn parse_u32(input: &str) -> (r: Result<u32, ErrorKind>)
    ensures
        r == argument_value(input@),
{
    let v = trim_chars(input);
    let small = chars_of("0x");
    let large = chars_of("0X");
    proof {
        reveal_strlit("0x");
        reveal_strlit("0X");
    }
    if starts_with(&v, &small) || starts_with(&v, &large) {
        let rest = copy_range(&v, 2, v.len());
        assert(rest@ =~= v@.skip(2));
        match parse_number(&rest, 16, u32::MAX) {
            Some(n) => Ok(n),
            None => Err(ErrorKind::InvalidHexDigits(ArgumentKey::Cli)),
        }
    } else {
        match parse_number(&v, 10, u32::MAX) {
            Some(n) => Ok(n),
            None => Err(ErrorKind::InvalidDecimalU32(ArgumentKey::Cli)),
        }
    }
}

/// Parses a number; a failure carries the hint.
pub fn parse_hinted(input: &str, hint: &str) -> (r: Result<u32, Failure>)
    ensures
        match argument_value(input@) {
            Ok(n) => r == Ok::<u32, Failure>(n),
            Err(kind) => r matches Err(f) && f.reports(kind, Some(hint@)),
        },
{
    match parse_u32(input) {
        Ok(n) => Ok(n),
        Err(kind) => Err(Failure::noted(kind, hint.to_owned())),
    }
}

/// Parses a number; a failure carries no note.
pub fn parse_bare(input: &str) -> (r: Result<u32, Failure>)
    ensures
        match argument_value(input@) {
            Ok(n) => r == Ok::<u32, Failure>(n),
            Err(kind) => r matches Err(f) && f.reports(kind, None),
        },
{
    match parse_u32(input) {
        Ok(n) => Ok(n),
        Err(kind) => Err(Failure::bare(kind)),
    }
}

/// The note for a thread id that does not parse.
pub open spec fn thread_id_note(input: Seq<char>) -> Seq<char> {
    "invalid thread id "@ + quoted(input)
}

/// Parses a thread id.
pub fn parse_thread_id(input: &str) -> (r: Result<u32, Failure>)
    ensures
        match argument_value(input@) {
            Ok(n) => r == Ok::<u32, Failure>(n),
            Err(kind) => r matches Err(f) && f.reports(kind, Some(thread_id_note(input@))),
        },
{
    match parse_u32(input) {
        Ok(n) => Ok(n),
        Err(kind) => {
            let mut note = "invalid thread id ".to_owned();
            let shown = quote(input);
            note.append(shown.as_str());
            Err(Failure::noted(kind, note))
        },
    }
}

/// The byte that the `i`th pair of characters spells, if both are hex digits.
pub open spec fn byte_at(s: Seq<char>, i: int) -> Option<int> {
    if is_digit(s[2 * i], 16) && is_digit(s[2 * i + 1], 16) {
        Some(16 * digit_value(s[2 * i]) + digit_value(s[2 * i + 1]))
    } else {
        None
    }
}

/// `s` is made of pairs of hex digits, each of which spells a byte.
pub open spec fn spells_bytes(s: Seq<char>) -> bool {
    &&& s.len() % 2 == 0
    &&& forall|i: int| 0 <= i < s.len() / 2 ==> (#[trigger] byte_at(s, i)) is Some
}

/// The bytes that pairs of characters spell.
pub open spec fn spelled_bytes(s: Seq<char>) -> Seq<u8> {
    Seq::new(s.len() / 2, |i: int| byte_at(s, i)->0 as u8)
}

/// Decodes a string of hex bytes; white space around it is ignored.
pub fn decode_hex(input: &str) -> (r: Result<Vec<u8>, ErrorKind>)
    ensures
        match r {
            Ok(bytes) => spells_bytes(trimmed(input@)) && bytes@ == spelled_bytes(trimmed(input@)),
            Err(kind) => !spells_bytes(trimmed(input@)) && kind == ErrorKind::InvalidHexDigits(
                ArgumentKey::HexBytes,
            ),
        },
{
    let v = trim_chars(input);
    if v.len() % 2 != 0 {
        return Err(ErrorKind::InvalidHexDigits(ArgumentKey::HexBytes));
    }
    let count: usize = v.len() / 2;
    let mut out: Vec<u8> = Vec::new();
    for i in 0..count
        invariant
            v@ == trimmed(input@),
            v@.len() == 2 * count,
            v@.len() == v.len(),
            forall|k: int| 0 <= k < i ==> (#[trigger] byte_at(v@, k)) is Some,
            out@ == spelled_bytes(v@).take(i as int),
    {
        match (digit_of_char(v[2 * i]), digit_of_char(v[2 * i + 1])) {
            (Some(high), Some(low)) => {
                assert(byte_at(v@, i as int) is Some);
                out.push((16 * high + low) as u8);
                assert(out@ =~= spelled_bytes(v@).take(i + 1));
            },
            _ => {
                assert(byte_at(v@, i as int) is None);
                return Err(ErrorKind::InvalidHexDigits(ArgumentKey::HexBytes));
            },
        }
    }
    assert(out@ =~= spelled_bytes(v@));
    Ok(out)
}

/// The accesses a data breakpoint traps on.
#[derive(Copy, Clone, Debug, PartialEq, Eq, Structural)]
pub enum DataBreakKind {
    Read,
    Write,
    ReadWrite,
    Execute,
}

/// The access kind that a word names, in any case of its letters.
pub open spec fn break_kind(word: Seq<char>) -> Option<DataBreakKind> {
    let w = lowered(word);
    if w == "read"@ {
        Some(DataBreakKind::Read)
    } else if w == "write"@ {
        Some(DataBreakKind::Write)
    } else if w == "readwrite"@ || w == "rw"@ {
        Some(DataBreakKind::ReadWrite)
    } else if w == "execute"@ || w == "exec"@ {
        Some(DataBreakKind::Execute)
    } else {
        None
    }
}

/// Parses the access kind of a data breakpoint.
pub fn parse_break_kind(word: &str) -> (r: Result<DataBreakKind, Failure>)
    ensures
        match break_kind(word@) {
            Some(kind) => r == Ok::<DataBreakKind, Failure>(kind),
            None => r matches Err(f) && f.reports(
                ErrorKind::EmptyFilename,
                Some("kind must be one of read/write/readwrite/execute"@),
            ),
        },
{
    let low = lower_text(word);
    let w = low.as_str();
    if same_text(w, "read") {
        Ok(DataBreakKind::Read)
    } else if same_text(w, "write") {
        Ok(DataBreakKind::Write)
    } else if same_text(w, "readwrite") || same_text(w, "rw") {
        Ok(DataBreakKind::ReadWrite)
    } else if same_text(w, "execute") || same_text(w, "exec") {
        Ok(DataBreakKind::Execute)
    } else {
        Err(
            Failure::noted(
                ErrorKind::EmptyFilename,
                "kind must be one of read/write/readwrite/execute".to_owned(),
            ),
        )
    }
}

proof fn trimmed_text(s: Seq<char>)
    requires
        s.len() > 0,
        !crate::text::is_space(s[0]),
        !crate::text::is_space(s.last()),
    ensures
        trimmed(s) == s,
{
}

proof fn digit_char_value(d: int)
    requires
        0 <= d < 16,
    ensures
        digit_value(digit_char(d)) == d,
        digit_char(d) != '+',
        !crate::text::is_space(digit_char(d)),
{
}

/// A number in base ten is made of digits that stand for it.
pub proof fn decimal_digits(n: nat)
    ensures
        decimal(n).len() > 0,
        all_digits(decimal(n), 10),
        digits_value(decimal(n), 10) == n,
    decreases n,
{
    digit_char_value((n % 10) as int);
    if n < 10 {
        digit_char_value(n as int);
        assert(decimal(n).drop_last() =~= Seq::empty());
        assert(decimal(n).last() == digit_char(n as int));
        assert(digits_value(decimal(n), 10) == digits_value(decimal(n).drop_last(), 10) * 10
            + digit_value(decimal(n).last()));
    } else {
        decimal_digits(n / 10);
        assert(decimal(n).drop_last() =~= decimal(n / 10));
        assert forall|i: int| 0 <= i < decimal(n).len() implies is_digit(
            #[trigger] decimal(n)[i],
            10,
        ) by {
            if i < decimal(n).len() - 1 {
                assert(decimal(n)[i] == decimal(n / 10)[i]);
            }
        }
    }
}

/// A number in hex is made of digits that stand for it.
pub proof fn hex_digits(n: nat)
    ensures
        hex(n).len() > 0,
        all_digits(hex(n), 16),
        digits_value(hex(n), 16) == n,
    decreases n,
{
    digit_char_value((n % 16) as int);
    if n < 16 {
        digit_char_value(n as int);
        assert(hex(n).drop_last() =~= Seq::empty());
        assert(hex(n).last() == digit_char(n as int));
        assert(digits_value(hex(n), 16) == digits_value(hex(n).drop_last(), 16) * 16 + digit_value(
            hex(n).last(),
        ));
    } else {
        hex_digits(n / 16);
        assert(hex(n).drop_last() =~= hex(n / 16));
        assert forall|i: int| 0 <= i < hex(n).len() implies is_digit(#[trigger] hex(n)[i], 16) by {
            if i < hex(n).len() - 1 {
                assert(hex(n)[i] == hex(n / 16)[i]);
            }
        }
    }
}

/// Zeros in front do not change a number.
pub proof fn zeros_in_front(s: Seq<char>, width: nat, radix: int)
    requires
        radix > 0,
        all_digits(s, radix),
    ensures
        all_digits(filled(s, width, '0'), radix),
        digits_value(filled(s, width, '0'), radix) == digits_value(s, radix),
        filled(s, width, '0').len() >= s.len(),
        filled(s, width, '0').len() >= width,
    decreases s.len() + width,
{
    let t = filled(s, width, '0');
    if s.len() < width {
        if s.len() > 0 {
            let front = filled(s.drop_last(), (width - 1) as nat, '0');
            assert forall|i: int| 0 <= i < s.drop_last().len() implies is_digit(
                #[trigger] s.drop_last()[i],
                radix,
            ) by {
                assert(s.drop_last()[i] == s[i]);
            }
            zeros_in_front(s.drop_last(), (width - 1) as nat, radix);
            assert(t.drop_last() =~= front);
            assert(t.last() == s.last());
            assert(is_digit(s[s.len() - 1], radix));
        } else {
            let front = filled(s, (width - 1) as nat, '0');
            zeros_in_front(s, (width - 1) as nat, radix);
            assert(t.drop_last() =~= front);
            assert(t.last() == '0');
        }
        assert(t =~= t.drop_last().push(t.last()));
        assert forall|i: int| 0 <= i < t.len() implies is_digit(#[trigger] t[i], radix) by {
            if i < t.len() - 1 {
                assert(t[i] == t.drop_last()[i]);
            }
        }
    }
}

/// A number shown in decimal is read back as it was.
pub proof fn decimal_reads_back(n: u32)
    ensures
        argument_value(decimal(n as nat)) == Ok::<u32, ErrorKind>(n),
{
    let s = decimal(n as nat);
    decimal_digits(n as nat);
    assert(is_digit(s[0], 10));
    assert(is_digit(s[s.len() - 1], 10));
    trimmed_text(s);
    reveal_strlit("0x");
    reveal_strlit("0X");
    if has_hex_prefix(s) {
        assert(s.take(2)[1] == s[1]);
        assert(is_digit(s[1], 10));
        assert(false);
    }
    assert(without_plus(s) == s);
}

/// An address shown in hex is read back as it was.
pub proof fn address_reads_back(n: u32)
    ensures
        argument_value(address(n)) == Ok::<u32, ErrorKind>(n),
{
    let body = filled(hex(n as nat), 8, '0');
    let s = address(n);
    hex_digits(n as nat);
    zeros_in_front(hex(n as nat), 8, 16);
    reveal_strlit("0x");
    assert(s[0] == '0');
    assert(s.last() == body.last());
    assert(is_digit(body[body.len() - 1], 16));
    trimmed_text(s);
    assert(s.take(2) =~= "0x"@);
    assert(s.skip(2) =~= body);
}

/// An address takes ten columns.
pub proof fn address_width(n: u32)
    ensures
        address(n).len() == 10,
{
    reveal_strlit("0x");
    assert(hex(n as nat).len() <= 8) by {
        reveal_with_fuel(hex, 8);
    }
}

/// Two hex digits of a byte are read back as that byte.
pub proof fn byte_reads_back(b: u8)
    ensures
        filled(hex(b as nat), 2, '0').len() == 2,
        byte_at(filled(hex(b as nat), 2, '0'), 0) == Some(b as int),
        all_digits(filled(hex(b as nat), 2, '0'), 16),
{
    let s = filled(hex(b as nat), 2, '0');
    hex_digits(b as nat);
    zeros_in_front(hex(b as nat), 2, 16);
    reveal_with_fuel(hex, 3);
    assert(is_digit(s[0], 16));
    assert(is_digit(s[1], 16));
    reveal_with_fuel(digits_value, 3);
    assert(s.drop_last().drop_last() =~= Seq::empty());
}

/// Only zero is shown with a zero in front.
pub proof fn decimal_has_no_leading_zero(n: nat)
    ensures
        n > 0 ==> decimal(n)[0] != '0',
        n == 0 ==> decimal(n) == seq!['0'],
    decreases n,
{
    if n >= 10 {
        decimal_has_no_leading_zero(n / 10);
        decimal_digits(n / 10);
    }
}

/// A number shown as a hex literal is `0x` and digits that stand for it, as many
/// as are asked for at least.
pub proof fn hex_literal_stands_for(n: nat, width: nat)
    ensures
        begins(hex_literal(n, width), "0x"@),
        all_digits(hex_literal(n, width).skip(2), 16),
        digits_value(hex_literal(n, width).skip(2), 16) == n,
        hex_literal(n, width).len() >= 2 + width,
        hex_literal(n, width).len() >= 3,
        width > 0 && hex(n).len() <= width ==> hex_literal(n, width).len() == 2 + width,
{
    reveal_strlit("0x");
    let body = filled(hex(n), width, '0');
    hex_digits(n);
    zeros_in_front(hex(n), width, 16);
    assert(hex_literal(n, width).take(2) =~= "0x"@);
    assert(hex_literal(n, width).skip(2) =~= body);
}

/// Large and small hex digits are worth the same; no other character is worth
/// anything.
pub proof fn digits_of_either_case(c: char)
    ensures
        digit_value(c) == digit_value(lower_char(c)),
        digit_value(c) == -1 || 0 <= digit_value(c) < 16,
        digit_value(c) >= 0 <==> ('0' <= c && c <= '9') || ('a' <= c && c <= 'f') || ('A' <= c
            && c <= 'F'),
        digit_value(c) >= 0 ==> digit_char(digit_value(c)) == lower_char(c),
{
}

/// One more digit multiplies the number by the base and adds the digit.
pub proof fn digits_are_positional(s: Seq<char>, c: char, radix: int)
    ensures
        digits_value(s.push(c), radix) == digits_value(s, radix) * radix + digit_value(c),
        digits_value(Seq::empty(), radix) == 0,
{
    assert(s.push(c).drop_last() =~= s);
}

/// A number is read exactly where there is a digit, nothing but digits (behind
/// one plus sign or none), and the number is not too large. It is then the one
/// that the digits stand for.
pub proof fn number_reads_all_digits(digits: Seq<char>, radix: int, max: int)
    requires
        digits.len() == 0 || digits[0] != '+',
    ensures
        ({
            let fits = digits.len() > 0 && (forall|i: int|
                0 <= i < digits.len() ==> is_digit(#[trigger] digits[i], radix)) && digits_value(
                digits,
                radix,
            ) <= max;
            let expected = if fits {
                Some(digits_value(digits, radix))
            } else {
                None
            };
            &&& number(digits, radix, max) == expected
            &&& number(seq!['+'] + digits, radix, max) == expected
        }),
{
    assert((seq!['+'] + digits).drop_first() =~= digits);
}

/// White space around an argument makes no difference.
pub proof fn padding_does_not_matter(left: Seq<char>, s: Seq<char>, right: Seq<char>)
    requires
        forall|i: int| 0 <= i < left.len() ==> crate::text::is_space(#[trigger] left[i]),
        forall|i: int| 0 <= i < right.len() ==> crate::text::is_space(#[trigger] right[i]),
        s.len() > 0 ==> !crate::text::is_space(s[0]) && !crate::text::is_space(s.last()),
    ensures
        argument_value(left + s + right) == argument_value(s),
        spells_bytes(trimmed(left + s + right)) == spells_bytes(trimmed(s)),
        spelled_bytes(trimmed(left + s + right)) == spelled_bytes(trimmed(s)),
{
    crate::text::trimmed_takes_padding_off(left, s, right);
    let none = Seq::<char>::empty();
    crate::text::trimmed_takes_padding_off(none, s, none);
    assert(none + s + none =~= s);
}

/// Hex digits of either case behind `0x` or `0X` are read as the number that
/// they stand for, as long as it has at most 32 bits.
pub proof fn hex_argument_is_read(digits: Seq<char>, large_x: bool)
    requires
        digits.len() > 0,
        all_digits(digits, 16),
    ensures
        ({
            let prefix = if large_x {
                "0X"@
            } else {
                "0x"@
            };
            argument_value(prefix + digits) == if digits_value(digits, 16) <= u32::MAX {
                Ok::<u32, ErrorKind>(digits_value(digits, 16) as u32)
            } else {
                Err(ErrorKind::InvalidHexDigits(ArgumentKey::Cli))
            }
        }),
{
    reveal_strlit("0x");
    reveal_strlit("0X");
    let prefix = if large_x {
        "0X"@
    } else {
        "0x"@
    };
    let s = prefix + digits;
    assert(is_digit(digits[0], 16));
    assert(is_digit(digits[digits.len() - 1], 16));
    assert(s.last() == digits.last());
    trimmed_text(s);
    assert(s.take(2) =~= prefix);
    assert(s.skip(2) =~= digits);
    assert(without_plus(digits) == digits);
}

/// Decimal digits are read as the number that they stand for, as long as it has
/// at most 32 bits.
pub proof fn decimal_argument_is_read(digits: Seq<char>)
    requires
        digits.len() > 0,
        all_digits(digits, 10),
    ensures
        argument_value(digits) == if digits_value(digits, 10) <= u32::MAX {
            Ok::<u32, ErrorKind>(digits_value(digits, 10) as u32)
        } else {
            Err(ErrorKind::InvalidDecimalU32(ArgumentKey::Cli))
        },
{
    reveal_strlit("0x");
    reveal_strlit("0X");
    assert(is_digit(digits[0], 10));
    assert(is_digit(digits[digits.len() - 1], 10));
    trimmed_text(digits);
    if has_hex_prefix(digits) {
        assert(digits.take(2)[1] == digits[1]);
        assert(is_digit(digits[1], 10));
        assert(false);
    }
    assert(without_plus(digits) == digits);
}

/// Bytes are spelled by pairs of hex digits, the first of them worth sixteen
/// times as much; an odd number of characters, or one that is no hex digit,
/// spells nothing.
pub proof fn bytes_are_spelled_by_pairs(s: Seq<char>)
    ensures
        spells_bytes(s) <==> s.len() % 2 == 0 && all_digits(s, 16),
        spelled_bytes(s).len() == s.len() / 2,
        spells_bytes(s) ==> forall|i: int|
            0 <= i < s.len() / 2 ==> #[trigger] spelled_bytes(s)[i] == 16 * digit_value(s[2 * i])
                + digit_value(s[2 * i + 1]),
{
    if s.len() % 2 == 0 {
        if all_digits(s, 16) {
            assert forall|i: int| 0 <= i < s.len() / 2 implies (#[trigger] byte_at(s, i)) is Some by {
                assert(is_digit(s[2 * i], 16));
                assert(is_digit(s[2 * i + 1], 16));
            }
        }
        if spells_bytes(s) {
            assert forall|i: int| 0 <= i < s.len() implies is_digit(#[trigger] s[i], 16) by {
                assert(byte_at(s, i / 2) is Some);
            }
            assert forall|i: int| 0 <= i < s.len() / 2 implies #[trigger] spelled_bytes(s)[i]
                == 16 * digit_value(s[2 * i]) + digit_value(s[2 * i + 1]) by {
                assert(byte_at(s, i) is Some);
            }
        }
    }
}

/// The words for the kinds of a data breakpoint, in any case of their letters;
/// no other word is one.
pub proof fn words_for_break_kinds(word: Seq<char>)
    ensures
        break_kind(word) == Some(DataBreakKind::Read) <==> lowered(word) == "read"@,
        break_kind(word) == Some(DataBreakKind::Write) <==> lowered(word) == "write"@,
        break_kind(word) == Some(DataBreakKind::ReadWrite) <==> lowered(word) == "readwrite"@
            || lowered(word) == "rw"@,
        break_kind(word) == Some(DataBreakKind::Execute) <==> lowered(word) == "execute"@
            || lowered(word) == "exec"@,
{
    reveal_strlit("read");
    reveal_strlit("write");
    reveal_strlit("readwrite");
    reveal_strlit("rw");
    reveal_strlit("execute");
    reveal_strlit("exec");
    let w = lowered(word);
    if w.len() == 4 {
        assert("read"@[0] != "exec"@[0]);
    }
}

/// Neither numbers nor addresses hold a tab.
pub proof fn numbers_hold_no_tab(n: nat, width: nat)
    ensures
        !decimal(n).contains('\t'),
        !hex_literal(n, width).contains('\t'),
{
    decimal_digits(n);
    assert forall|i: int| 0 <= i < decimal(n).len() implies decimal(n)[i] != '\t' by {
        assert(is_digit(decimal(n)[i], 10));
    }
    hex_literal_stands_for(n, width);
    let s = hex_literal(n, width);
    reveal_strlit("0x");
    assert forall|i: int| 0 <= i < s.len() implies s[i] != '\t' by {
        if i < 2 {
            assert(s[i] == s.take(2)[i]);
        } else {
            assert(s[i] == s.skip(2)[i - 2]);
            assert(is_digit(s.skip(2)[i - 2], 16));
        }
    }
}

/// A number given as it would be shown, in decimal or as an address, is read as
/// that number.
pub open spec fn spells_number(s: Seq<char>, n: u32) -> bool {
    s == decimal(n as nat) || s == address(n)
}

/// What is shown as a number is read as the same number again.
pub proof fn shown_numbers_read_back(s: Seq<char>, n: u32)
    requires
        spells_number(s, n),
    ensures
        argument_value(s) == Ok::<u32, ErrorKind>(n),
{
    decimal_reads_back(n);
    address_reads_back(n);
}

/// Nothing but numbers is read as one: an argument that is read is, white space
/// around it aside, made of digits that stand for the number. They are decimal
/// ones, or hex ones behind `0x` or `0X`, with a plus sign right in front of them
/// or without.
pub proof fn only_numbers_are_read(s: Seq<char>) -> (digits: Seq<char>)
    requires
        argument_value(s) is Ok,
    ensures
        ({
            let t = trimmed(s);
            let n = argument_value(s)->Ok_0;
            let plus = seq!['+'];
            ||| (t == digits || t == plus + digits) && digits.len() > 0 && all_digits(digits, 10)
                && digits_value(digits, 10) == n
            ||| (t == "0x"@ + digits || t == "0X"@ + digits || t == "0x"@ + plus + digits || t
                == "0X"@ + plus + digits) && digits.len() > 0 && all_digits(digits, 16)
                && digits_value(digits, 16) == n
        }),
{
    reveal_strlit("0x");
    reveal_strlit("0X");
    let t = trimmed(s);
    let plus = seq!['+'];
    let hexed = has_hex_prefix(t);
    let body = if hexed {
        t.skip(2)
    } else {
        t
    };
    let digits = without_plus(body);
    if digits.len() < body.len() {
        assert(body =~= plus + digits);
    }
    if hexed {
        assert(t =~= t.take(2) + body);
        if digits.len() < body.len() {
            assert(t =~= t.take(2) + plus + digits);
        }
    }
    let radix = if hexed {
        16int
    } else {
        10int
    };
    digits_value_not_negative(digits, radix);
    digits
}

/// What is read as no number fails by its prefix: as hex where it begins with
/// `0x` or `0X`, else as decimal.
pub proof fn refused_numbers_fail_by_prefix(s: Seq<char>)
    requires
        argument_value(s) is Err,
    ensures
        begins(trimmed(s), "0x"@) || begins(trimmed(s), "0X"@) ==> argument_value(s) == Err::<
            u32,
            ErrorKind,
        >(ErrorKind::InvalidHexDigits(ArgumentKey::Cli)),
        !begins(trimmed(s), "0x"@) && !begins(trimmed(s), "0X"@) ==> argument_value(s) == Err::<
            u32,
            ErrorKind,
        >(ErrorKind::InvalidDecimalU32(ArgumentKey::Cli)),
{
}

/// Only zero is shown in hex with a zero in front, where no width is asked for.
pub proof fn hex_has_no_leading_zero(n: nat)
    ensures
        n > 0 ==> hex(n)[0] != '0',
        n == 0 ==> hex(n) == seq!['0'],
    decreases n,
{
    if n >= 16 {
        hex_has_no_leading_zero(n / 16);
        hex_digits(n / 16);
    }
}

} // verus!
