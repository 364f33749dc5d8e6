//! Text as sequences of characters: numbers, padding, trimming and searching.

use vstd::prelude::*;

verus! {

/// `String::push`: appends one character.
pub assume_specification[ String::push ](s: &mut String, c: char)
    ensures
        final(s)@ == old(s)@.push(c),
;

/// The characters of a string, in order.
pub fn chars_of(s: &str) -> (r: Vec<char>)
    ensures
        r@ == s@,
{
    let mut out: Vec<char> = Vec::new();
    for c in it: s.chars()
        invariant
            out@ == it.seq().take(it.index()),
            it.seq() == s@,
    {
        out.push(c);
    }
    out
}

/// The string made of the given characters.
pub fn string_of(v: &[char]) -> (r: String)
    ensures
        r@ == v@,
{
    let mut out = String::new();
    for i in 0..v.len()
        invariant
            out@ == v@.take(i as int),
    {
        out.push(v[i]);
        assert(v@.take(i as int).push(v@[i as int]) =~= v@.take(i + 1));
    }
    assert(v@.take(v@.len() as int) =~= v@);
    out
}

/// The digit of value `d` in bases up to sixteen, in lower case.
pub open spec fn digit_char(d: int) -> char {
    if d < 10 {
        ('0' as int + d) as char
    } else {
        ('a' as int + (d - 10)) as char
    }
}

pub fn digit_of(d: u8) -> (c: char)
    requires
        d < 16,
    ensures
        c == digit_char(d as int),
{
    if d < 10 {
        (48 + d) as char
    } else {
        (97 + (d - 10)) as char
    }
}

/// `n` in base ten, without leading zeros.
pub open spec fn decimal(n: nat) -> Seq<char>
    decreases n,
{
    if n < 10 {
        seq![digit_char(n as int)]
    } else {
        decimal(n / 10).push(digit_char((n % 10) as int))
    }
}

/// `n` in base sixteen, lower case, without leading zeros.
pub open spec fn hex(n: nat) -> Seq<char>
    decreases n,
{
    if n < 16 {
        seq![digit_char(n as int)]
    } else {
        hex(n / 16).push(digit_char((n % 16) as int))
    }
}

/// `s` preceded by as many copies of `fill` as it takes to reach `width`.
pub open spec fn filled(s: Seq<char>, width: nat, fill: char) -> Seq<char> {
    if s.len() >= width {
        s
    } else {
        Seq::new((width - s.len()) as nat, |i: int| fill) + s
    }
}

/// `{n}`.
pub fn decimal_text(n: u64) -> (r: String)
    ensures
        r@ == decimal(n as nat),
    decreases n,
{
    if n < 10 {
        let mut out = String::new();
        out.push(digit_of(n as u8));
        assert(out@ =~= seq![digit_char(n as int)]);
        out
    } else {
        let mut out = decimal_text(n / 10);
        out.push(digit_of((n % 10) as u8));
        out
    }
}

/// `{n}`, for numbers beyond 64 bits too.
pub fn decimal_wide_text(n: u128) -> (r: String)
    ensures
        r@ == decimal(n as nat),
    decreases n,
{
    if n < 10 {
        decimal_text(n as u64)
    } else {
        let mut out = decimal_wide_text(n / 10);
        out.push(digit_of((n % 10) as u8));
        out
    }
}

/// `{n:x}`.
pub fn hex_text(n: u64) -> (r: String)
    ensures
        r@ == hex(n as nat),
    decreases n,
{
    if n < 16 {
        let mut out = String::new();
        out.push(digit_of(n as u8));
        assert(out@ =~= seq![digit_char(n as int)]);
        out
    } else {
        let mut out = hex_text(n / 16);
        out.push(digit_of((n % 16) as u8));
        out
    }
}

/// `s` right-aligned in `width` characters, the gap taken up by `fill`.
pub fn fill_left(s: &str, width: usize, fill: char) -> (r: String)
    ensures
        r@ == filled(s@, width as nat, fill),
{
    let len: usize = s.unicode_len();
    let mut out = String::new();
    if len < width {
        let gap: usize = width - len;
        for i in 0..gap
            invariant
                out@ == Seq::new(i as nat, |k: int| fill),
        {
            out.push(fill);
            assert(out@ =~= Seq::new((i + 1) as nat, |k: int| fill));
        }
    }
    out.append(s);
    assert(out@ =~= filled(s@, width as nat, fill));
    out
}

/// `n` as `0x` and at least `width` lower-case hex digits.
pub open spec fn hex_literal(n: nat, width: nat) -> Seq<char> {
    "0x"@ + filled(hex(n), width, '0')
}

/// `0x` and the hex digits of `n`, zero-filled to `width` digits.
pub fn hex_literal_text(n: u64, width: usize) -> (r: String)
    ensures
        r@ == hex_literal(n as nat, width as nat),
{
    let digits = hex_text(n);
    let body = fill_left(digits.as_str(), width, '0');
    let mut out = "0x".to_owned();
    out.append(body.as_str());
    out
}

/// A 32-bit address: `0x` and eight hex digits.
pub open spec fn address(n: u32) -> Seq<char> {
    hex_literal(n as nat, 8)
}

/// `{n:#010x}`.
pub fn address_text(n: u32) -> (r: String)
    ensures
        r@ == address(n),
{
    hex_literal_text(n as u64, 8)
}

/// Whether the two strings hold the same characters.
pub fn same_text(a: &str, b: &str) -> (r: bool)
    ensures
        r == (a@ == b@),
{
    a.to_owned() == b.to_owned()
}

/// ASCII upper-case letters lowered, everything else kept.
pub open spec fn lower_char(c: char) -> char {
    if 'A' <= c && c <= 'Z' {
        (c as int + 32) as char
    } else {
        c
    }
}

/// `s` with its ASCII letters in lower case.
pub open spec fn lowered(s: Seq<char>) -> Seq<char> {
    Seq::new(s.len(), |i: int| lower_char(s[i]))
}

pub fn lower_of(c: char) -> (r: char)
    ensures
        r == lower_char(c),
{
    if 'A' <= c && c <= 'Z' {
        ((c as u8) + 32) as char
    } else {
        c
    }
}

/// The characters of `s` with ASCII letters in lower case.
pub fn lower_chars(s: &str) -> (r: Vec<char>)
    ensures
        r@ == lowered(s@),
{
    let v = chars_of(s);
    let mut out: Vec<char> = Vec::new();
    for i in 0..v.len()
        invariant
            v@ == s@,
            out@ == lowered(s@).take(i as int),
    {
        out.push(lower_of(v[i]));
        assert(out@ =~= lowered(s@).take(i + 1));
    }
    assert(out@ =~= lowered(s@));
    out
}

/// `s` with its ASCII letters in lower case.
pub fn lower_text(s: &str) -> (r: String)
    ensures
        r@ == lowered(s@),
{
    let v = lower_chars(s);
    string_of(v.as_slice())
}

/// Whether two strings agree when ASCII case is ignored.
pub fn same_ignoring_case(a: &str, b: &str) -> (r: bool)
    ensures
        r == (lowered(a@) == lowered(b@)),
{
    let x = lower_text(a);
    let y = lower_text(b);
    x == y
}

/// The characters with the Unicode `White_Space` property.
pub open spec fn is_space(c: char) -> bool {
    let n = c as int;
    ||| 9 <= n <= 13
    ||| n == 32
    ||| n == 0x85
    ||| n == 0xA0
    ||| n == 0x1680
    ||| 0x2000 <= n <= 0x200A
    ||| n == 0x2028
    ||| n == 0x2029
    ||| n == 0x202F
    ||| n == 0x205F
    ||| n == 0x3000
}

pub fn is_white(c: char) -> (r: bool)
    ensures
        r == is_space(c),
{
    let n: u32 = c as u32;
    (9 <= n && n <= 13) || n == 32 || n == 0x85 || n == 0xA0 || n == 0x1680 || (0x2000 <= n && n
        <= 0x200A) || n == 0x2028 || n == 0x2029 || n == 0x202F || n == 0x205F || n == 0x3000
}

/// `s` without its leading white space.
pub open spec fn trim_start(s: Seq<char>) -> Seq<char>
    decreases s.len(),
{
    if s.len() > 0 && is_space(s[0]) {
        trim_start(s.drop_first())
    } else {
        s
    }
}

/// `s` without the trailing characters for which `drop` holds.
pub open spec fn trim_end(s: Seq<char>, drop: spec_fn(char) -> bool) -> Seq<char>
    decreases s.len(),
{
    if s.len() > 0 && drop(s.last()) {
        trim_end(s.drop_last(), drop)
    } else {
        s
    }
}

/// `s` without white space at either end.
pub open spec fn trimmed(s: Seq<char>) -> Seq<char> {
    trim_end(trim_start(s), |c: char| is_space(c))
}

/// `s` without the carriage returns and line feeds at its end.
pub open spec fn without_line_end(s: Seq<char>) -> Seq<char> {
    trim_end(s, |c: char| c == '\r' || c == '\n')
}

/// `s` without the backslashes at its end.
pub open spec fn without_backslashes(s: Seq<char>) -> Seq<char> {
    trim_end(s, |c: char| c == '\\')
}

/// The characters of `s` without white space at either end.
pub fn trim_chars(s: &str) -> (r: Vec<char>)
    ensures
        r@ == trimmed(s@),
{
    let v = chars_of(s);
    let mut from: usize = 0;
    assert(v@.skip(0) =~= s@);
    while from < v.len() && is_white(v[from])
        invariant
            v@ == s@,
            from <= v.len(),
            trim_start(v@.skip(from as int)) == trim_start(s@),
        decreases v.len() - from,
    {
        assert(v@.skip(from as int).drop_first() =~= v@.skip(from + 1));
        from += 1;
    }
    let ghost drop = |c: char| is_space(c);
    assert(trim_start(s@) == v@.skip(from as int));
    let mut to: usize = v.len();
    assert(v@.subrange(from as int, to as int) =~= v@.skip(from as int));
    while to > from && is_white(v[to - 1])
        invariant
            v@ == s@,
            from <= to <= v.len(),
            drop == (|c: char| is_space(c)),
            trim_end(v@.subrange(from as int, to as int), drop) == trim_end(trim_start(s@), drop),
        decreases to,
    {
        assert(v@.subrange(from as int, to as int).drop_last() =~= v@.subrange(
            from as int,
            to - 1,
        ));
        to -= 1;
    }
    copy_range(&v, from, to)
}

/// The characters of `v` from `from` up to `to`.
pub fn copy_range(v: &Vec<char>, from: usize, to: usize) -> (r: Vec<char>)
    requires
        from <= to <= v@.len(),
    ensures
        r@ == v@.subrange(from as int, to as int),
{
    let mut out: Vec<char> = Vec::new();
    for i in from..to
        invariant
            to <= v@.len(),
            from <= to,
            out@ == v@.subrange(from as int, i as int),
    {
        out.push(v[i]);
        assert(out@ =~= v@.subrange(from as int, i + 1));
    }
    out
}

/// The string held by `v` between `from` and `to`.
pub fn range_text(v: &Vec<char>, from: usize, to: usize) -> (r: String)
    requires
        from <= to <= v@.len(),
    ensures
        r@ == v@.subrange(from as int, to as int),
{
    let part = copy_range(v, from, to);
    string_of(part.as_slice())
}

/// A received line without its line terminator.
pub fn strip_line_end(s: &str) -> (r: String)
    ensures
        r@ == without_line_end(s@),
{
    let v = chars_of(s);
    let ghost drop = |c: char| c == '\r' || c == '\n';
    let mut to: usize = v.len();
    assert(v@.take(to as int) =~= s@);
    while to > 0 && (v[to - 1] == '\r' || v[to - 1] == '\n')
        invariant
            v@ == s@,
            to <= v.len(),
            drop == (|c: char| c == '\r' || c == '\n'),
            trim_end(v@.take(to as int), drop) == trim_end(s@, drop),
        decreases to,
    {
        assert(v@.take(to as int).drop_last() =~= v@.take(to - 1));
        to -= 1;
    }
    assert(v@.take(to as int) =~= v@.subrange(0, to as int));
    range_text(&v, 0, to)
}

/// A remote directory without the backslashes at its end.
pub fn strip_backslashes(s: &str) -> (r: String)
    ensures
        r@ == without_backslashes(s@),
{
    let v = chars_of(s);
    let ghost drop = |c: char| c == '\\';
    let mut to: usize = v.len();
    assert(v@.take(to as int) =~= s@);
    while to > 0 && v[to - 1] == '\\'
        invariant
            v@ == s@,
            to <= v.len(),
            drop == (|c: char| c == '\\'),
            trim_end(v@.take(to as int), drop) == trim_end(s@, drop),
        decreases to,
    {
        assert(v@.take(to as int).drop_last() =~= v@.take(to - 1));
        to -= 1;
    }
    assert(v@.take(to as int) =~= v@.subrange(0, to as int));
    range_text(&v, 0, to)
}

/// The place of the first `c` in `s`, or the length of `s` where there is none.
pub open spec fn first_index(s: Seq<char>, c: char) -> int
    decreases s.len(),
{
    if s.len() == 0 || s[0] == c {
        0
    } else {
        1 + first_index(s.drop_first(), c)
    }
}

/// The place of the last `c` in `s`, or -1 where there is none.
pub open spec fn last_index(s: Seq<char>, c: char) -> int
    decreases s.len(),
{
    if s.len() == 0 {
        -1
    } else if s.last() == c {
        s.len() - 1
    } else {
        last_index(s.drop_last(), c)
    }
}

/// `first_index` is the least place that holds the character.
pub proof fn first_index_least(s: Seq<char>, c: char)
    ensures
        0 <= first_index(s, c) <= s.len(),
        first_index(s, c) < s.len() ==> s[first_index(s, c)] == c,
        forall|i: int| 0 <= i < first_index(s, c) ==> s[i] != c,
    decreases s.len(),
{
    if s.len() > 0 && s[0] != c {
        first_index_least(s.drop_first(), c);
        assert forall|i: int| 0 <= i < first_index(s, c) implies s[i] != c by {
            if i > 0 {
                assert(s[i] == s.drop_first()[i - 1]);
            }
        }
    }
}

/// `last_index` is the greatest place that holds the character.
pub proof fn last_index_greatest(s: Seq<char>, c: char)
    ensures
        -1 <= last_index(s, c) < s.len(),
        last_index(s, c) >= 0 ==> s[last_index(s, c)] == c,
        forall|i: int| last_index(s, c) < i < s.len() ==> s[i] != c,
    decreases s.len(),
{
    if s.len() > 0 && s.last() != c {
        last_index_greatest(s.drop_last(), c);
        assert forall|i: int| last_index(s, c) < i < s.len() implies s[i] != c by {
            if i < s.len() - 1 {
                assert(s[i] == s.drop_last()[i]);
            }
        }
    }
}

/// A place that holds `c`, with none before it that does, is the first.
pub proof fn first_index_is(s: Seq<char>, c: char, at: int)
    requires
        0 <= at <= s.len(),
        at < s.len() ==> s[at] == c,
        forall|i: int| 0 <= i < at ==> s[i] != c,
    ensures
        first_index(s, c) == at,
{
    first_index_least(s, c);
    let f = first_index(s, c);
    if f < at {
        assert(s[f] != c);
    }
    if at < f {
        assert(s[at] != c);
    }
}

/// A place that holds `c`, with none after it that does, is the last.
pub proof fn last_index_is(s: Seq<char>, c: char, at: int)
    requires
        -1 <= at < s.len(),
        at >= 0 ==> s[at] == c,
        forall|i: int| at < i < s.len() ==> s[i] != c,
    ensures
        last_index(s, c) == at,
{
    last_index_greatest(s, c);
    let l = last_index(s, c);
    if l > at {
        assert(s[l] != c);
    }
    if at > l {
        assert(s[at] != c);
    }
}

/// The place of the first `c` in `v`, or its length where there is none.
pub fn find_first(v: &Vec<char>, c: char) -> (r: usize)
    ensures
        r == first_index(v@, c),
        r <= v@.len(),
{
    let mut i: usize = 0;
    while i < v.len() && v[i] != c
        invariant
            i <= v@.len(),
            forall|k: int| 0 <= k < i ==> v@[k] != c,
        decreases v.len() - i,
    {
        i += 1;
    }
    proof {
        first_index_is(v@, c, i as int);
    }
    i
}

/// The place of the last `c` in `v`, if there is one.
pub fn find_last(v: &Vec<char>, c: char) -> (r: Option<usize>)
    ensures
        r matches Some(i) ==> i == last_index(v@, c) && i < v@.len(),
        r is None ==> last_index(v@, c) == -1,
{
    let mut i: usize = v.len();
    while i > 0 && v[i - 1] != c
        invariant
            i <= v@.len(),
            forall|k: int| i <= k < v@.len() ==> v@[k] != c,
        decreases i,
    {
        i -= 1;
    }
    proof {
        last_index_is(v@, c, i - 1);
    }
    if i == 0 {
        None
    } else {
        Some(i - 1)
    }
}

/// `s` begins with `head`.
pub open spec fn begins(s: Seq<char>, head: Seq<char>) -> bool {
    head.len() <= s.len() && s.take(head.len() as int) == head
}

/// `s` ends with `tail`.
pub open spec fn ends(s: Seq<char>, tail: Seq<char>) -> bool {
    tail.len() <= s.len() && s.skip(s.len() - tail.len()) == tail
}

/// Whether `v` begins with `head`.
pub fn starts_with(v: &Vec<char>, head: &Vec<char>) -> (r: bool)
    ensures
        r == begins(v@, head@),
{
    if head.len() > v.len() {
        return false;
    }
    let mut i: usize = 0;
    while i < head.len() && v[i] == head[i]
        invariant
            i <= head@.len() <= v@.len(),
            forall|k: int| 0 <= k < i ==> v@[k] == head@[k],
        decreases head.len() - i,
    {
        i += 1;
    }
    proof {
        if i == head@.len() {
            assert(v@.take(head@.len() as int) =~= head@);
        } else {
            assert(v@.take(head@.len() as int)[i as int] != head@[i as int]);
        }
    }
    i == head.len()
}

/// Whether `v` ends with `tail`.
pub fn ends_with(v: &Vec<char>, tail: &Vec<char>) -> (r: bool)
    ensures
        r == ends(v@, tail@),
{
    if tail.len() > v.len() {
        return false;
    }
    let base: usize = v.len() - tail.len();
    let mut i: usize = 0;
    while i < tail.len() && v[base + i] == tail[i]
        invariant
            i <= tail@.len() <= v@.len(),
            base + tail@.len() == v.len(),
            forall|k: int| 0 <= k < i ==> v@[base + k] == tail@[k],
        decreases tail.len() - i,
    {
        i += 1;
    }
    proof {
        if i == tail@.len() {
            assert(v@.skip(base as int) =~= tail@);
        } else {
            assert(v@.skip(base as int)[i as int] != tail@[i as int]);
        }
    }
    i == tail.len()
}

/// Whether the string ends with `c`.
pub fn ends_with_char(s: &str, c: char) -> (r: bool)
    ensures
        r == (s@.len() > 0 && s@.last() == c),
{
    let n: usize = s.unicode_len();
    n > 0 && s.get_char(n - 1) == c
}

/// What `{:?}` makes of a string: in double quotes, with special characters
/// escaped.
pub uninterp spec fn quoted(s: Seq<char>) -> Seq<char>;

/// `core::fmt::Debug` of `str`, through `format!`. The escapes follow tables of
/// the standard library, so the result is only named: it depends on the
/// characters alone.
#[verifier::external_body]
pub(crate) fn quote(s: &str) -> (r: String)
    ensures
        r@ == quoted(s@),
{
    format!("{:?}", s)
}

/// The text of an optional string.
pub open spec fn opt_text(o: Option<String>) -> Option<Seq<char>> {
    match o {
        Some(s) => Some(s@),
        None => None,
    }
}

/// The texts of a list of strings.
pub open spec fn texts(v: Seq<String>) -> Seq<Seq<char>> {
    Seq::new(v.len(), |i: int| v[i]@)
}

/// `true` or `false`.
pub open spec fn bool_text(b: bool) -> Seq<char> {
    if b {
        "true"@
    } else {
        "false"@
    }
}

pub fn bool_name(b: bool) -> (r: &'static str)
    ensures
        r@ == bool_text(b),
{
    if b {
        "true"
    } else {
        "false"
    }
}

/// Nothing for one, `s` for any other count.
pub open spec fn plural(n: nat) -> Seq<char> {
    if n == 1 {
        ""@
    } else {
        "s"@
    }
}

pub fn plural_suffix(n: u64) -> (r: &'static str)
    ensures
        r@ == plural(n as nat),
{
    if n == 1 {
        ""
    } else {
        "s"
    }
}

/// A filled text is as wide as asked, or as the text where that is wider. It ends
/// with the text, and in front of it stands nothing but the filling.
pub proof fn filled_is_right_aligned(s: Seq<char>, width: nat, fill: char)
    ensures
        ({
            let t = filled(s, width, fill);
            let gap = t.len() - s.len();
            &&& t.len() == if s.len() < width {
                width
            } else {
                s.len()
            }
            &&& t.skip(gap) == s
            &&& forall|i: int| 0 <= i < gap ==> #[trigger] t[i] == fill
        }),
{
    let t = filled(s, width, fill);
    assert(t.skip(t.len() - s.len()) =~= s);
}

/// Two characters agree when case is ignored exactly where they are the same or
/// the large and the small form of one ASCII letter.
pub proof fn case_of_letters_is_ignored(a: char, b: char)
    ensures
        lower_char(a) == lower_char(b) <==> {
            ||| a == b
            ||| 'A' <= a && a <= 'Z' && b as int == a as int + 32
            ||| 'A' <= b && b <= 'Z' && a as int == b as int + 32
        },
        lower_char(a) == a <==> !('A' <= a && a <= 'Z'),
{
}

/// Lowering goes character by character and leaves no large letter behind.
pub proof fn lowered_has_no_large_letters(s: Seq<char>)
    ensures
        lowered(s).len() == s.len(),
        lowered(lowered(s)) == lowered(s),
        forall|i: int|
            0 <= i < s.len() ==> {
                let c = #[trigger] lowered(s)[i];
                &&& !('A' <= c && c <= 'Z')
                &&& c == s[i] || ('A' <= s[i] && s[i] <= 'Z' && c as int == s[i] as int + 32)
            },
{
    assert(lowered(lowered(s)) =~= lowered(s));
}

/// The white space that is trimmed: tab, line feed, the characters up to
/// carriage return, space, next line, and the spaces and separators of Unicode.
pub proof fn white_space(c: char)
    ensures
        is_space(c) <==> {
            ||| '\t' <= c && c <= '\r'
            ||| c == ' '
            ||| c == '\u{85}'
            ||| c == '\u{a0}'
            ||| c == '\u{1680}'
            ||| '\u{2000}' <= c && c <= '\u{200a}'
            ||| c == '\u{2028}'
            ||| c == '\u{2029}'
            ||| c == '\u{202f}'
            ||| c == '\u{205f}'
            ||| c == '\u{3000}'
        },
{
}

/// What is trimmed off the end is dropped altogether, and nothing else is: the
/// rest is the front of the text, and does not end in what is dropped.
pub proof fn trim_end_keeps_front(s: Seq<char>, drop: spec_fn(char) -> bool)
    ensures
        ({
            let t = trim_end(s, drop);
            &&& t.len() <= s.len()
            &&& t == s.take(t.len() as int)
            &&& t.len() > 0 ==> !drop(t.last())
            &&& forall|i: int| t.len() <= i < s.len() ==> drop(#[trigger] s[i])
        }),
    decreases s.len(),
{
    let t = trim_end(s, drop);
    if s.len() > 0 && drop(s.last()) {
        let front = s.drop_last();
        trim_end_keeps_front(front, drop);
        assert(front.take(t.len() as int) =~= s.take(t.len() as int));
        assert forall|i: int| t.len() <= i < s.len() implies drop(#[trigger] s[i]) by {
            if i < front.len() {
                assert(front[i] == s[i]);
            }
        }
    } else {
        assert(s.take(s.len() as int) =~= s);
    }
}

/// A line is shown without the carriage returns and line feeds at its end, and
/// otherwise as it came.
pub proof fn line_end_is_dropped(line: Seq<char>)
    ensures
        ({
            let t = without_line_end(line);
            &&& t.len() <= line.len()
            &&& t == line.take(t.len() as int)
            &&& t.len() > 0 ==> t.last() != '\r' && t.last() != '\n'
            &&& forall|i: int|
                t.len() <= i < line.len() ==> #[trigger] line[i] == '\r' || line[i] == '\n'
        }),
{
    trim_end_keeps_front(line, |c: char| c == '\r' || c == '\n');
}

/// A root's name is its path without the backslashes at the end.
pub proof fn backslashes_are_dropped(dir: Seq<char>)
    ensures
        ({
            let t = without_backslashes(dir);
            &&& t.len() <= dir.len()
            &&& t == dir.take(t.len() as int)
            &&& t.len() > 0 ==> t.last() != '\\'
            &&& forall|i: int| t.len() <= i < dir.len() ==> #[trigger] dir[i] == '\\'
        }),
{
    trim_end_keeps_front(dir, |c: char| c == '\\');
}

proof fn trim_start_of_padded(left: Seq<char>, s: Seq<char>)
    requires
        forall|i: int| 0 <= i < left.len() ==> is_space(#[trigger] left[i]),
        s.len() == 0 || !is_space(s[0]),
    ensures
        trim_start(left + s) == s,
    decreases left.len(),
{
    if left.len() == 0 {
        assert(left + s =~= s);
    } else {
        assert((left + s)[0] == left[0]);
        let rest = left.drop_first();
        assert forall|i: int| 0 <= i < rest.len() implies is_space(#[trigger] rest[i]) by {
            assert(rest[i] == left[i + 1]);
        }
        trim_start_of_padded(rest, s);
        assert((left + s).drop_first() =~= rest + s);
    }
}

proof fn trim_end_of_padded(s: Seq<char>, right: Seq<char>)
    requires
        forall|i: int| 0 <= i < right.len() ==> is_space(#[trigger] right[i]),
        s.len() == 0 || !is_space(s.last()),
    ensures
        trim_end(s + right, |c: char| is_space(c)) == s,
    decreases right.len(),
{
    if right.len() == 0 {
        assert(s + right =~= s);
    } else {
        let rest = right.drop_last();
        assert((s + right).last() == right[right.len() - 1]);
        assert forall|i: int| 0 <= i < rest.len() implies is_space(#[trigger] rest[i]) by {
            assert(rest[i] == right[i]);
        }
        trim_end_of_padded(s, rest);
        assert((s + right).drop_last() =~= s + rest);
    }
}

/// However much white space is put around a text, trimming gives it back.
pub proof fn trimmed_takes_padding_off(left: Seq<char>, s: Seq<char>, right: Seq<char>)
    requires
        forall|i: int| 0 <= i < left.len() ==> is_space(#[trigger] left[i]),
        forall|i: int| 0 <= i < right.len() ==> is_space(#[trigger] right[i]),
        s.len() > 0 ==> !is_space(s[0]) && !is_space(s.last()),
    ensures
        trimmed(left + s + right) == s,
{
    if s.len() == 0 {
        let all = left + s + right;
        assert forall|i: int| 0 <= i < all.len() implies is_space(#[trigger] all[i]) by {
            if i < left.len() {
                assert(all[i] == left[i]);
            } else {
                assert(all[i] == right[i - left.len()]);
            }
        }
        assert(all + s =~= all);
        trim_start_of_padded(all, s);
    } else {
        assert(left + s + right =~= left + (s + right));
        assert((s + right)[0] == s[0]);
        trim_start_of_padded(left, s + right);
        trim_end_of_padded(s, right);
    }
}

/// One thing is one, and none or many are many.
pub proof fn plural_but_for_one(n: nat)
    ensures
        n == 1 ==> plural(n) == ""@,
        n != 1 ==> plural(n) == "s"@,
{
}

} // verus!
