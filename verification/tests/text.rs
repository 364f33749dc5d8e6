use xeedee_cli::text::{
    address_text, bool_name, chars_of, decimal_text, decimal_wide_text, ends_with_char, fill_left,
    find_first, find_last, hex_literal_text, hex_text, is_white, lower_text, plural_suffix,
    same_ignoring_case, same_text, string_of, strip_backslashes, strip_line_end, trim_chars,
};

fn samples() -> Vec<u64> {
    let mut out: Vec<u64> = (0..300).collect();
    for shift in 0..64 {
        let p = 1u64 << shift;
        out.push(p - 1);
        out.push(p);
        out.push(p.wrapping_add(1));
    }
    out.push(u64::MAX);
    out
}

#[test]
fn numbers_match_the_formatter() {
    for n in samples() {
        assert_eq!(decimal_text(n), format!("{n}"));
        assert_eq!(decimal_wide_text(n as u128), format!("{n}"));
        assert_eq!(hex_text(n), format!("{n:x}"));
        assert_eq!(hex_literal_text(n, 16), format!("{n:#018x}"));
        assert_eq!(hex_literal_text(n, 0), format!("{n:#x}"));
        let w = n as u32;
        assert_eq!(address_text(w), format!("{w:#010x}"));
    }
    assert_eq!(decimal_wide_text(u128::MAX), format!("{}", u128::MAX));
}

#[test]
fn fills_on_the_left() {
    assert_eq!(fill_left("7", 6, ' '), format!("{:>6}", 7));
    assert_eq!(fill_left("1234567", 6, ' '), "1234567");
    assert_eq!(fill_left("7", 5, '0'), "00007");
}

#[test]
fn white_space_is_that_of_char() {
    let mut c = '\0';
    loop {
        assert_eq!(is_white(c), c.is_whitespace(), "{:?}", c);
        if c as u32 > 0x3100 {
            break;
        }
        c = char::from_u32(c as u32 + 1).unwrap();
    }
    assert!(!is_white('\u{feff}'));
}

#[test]
fn trims_like_str() {
    for s in ["", "  ", " a b ", "\t\u{2003}x\u{3000}\n", "plain"] {
        assert_eq!(string_of(&trim_chars(s)), s.trim());
    }
}

#[test]
fn strips_line_ends_and_backslashes() {
    assert_eq!(strip_line_end("abc\r\n"), "abc");
    assert_eq!(strip_line_end("\r\n\n\r"), "");
    assert_eq!(strip_line_end("a\nb"), "a\nb");
    assert_eq!(strip_backslashes("E:\\\\"), "E:");
    assert_eq!(strip_backslashes("E:\\x"), "E:\\x");
}

#[test]
fn finds_first_and_last() {
    let v = chars_of("a.b.c");
    assert_eq!(find_first(&v, '.'), 1);
    assert_eq!(find_last(&v, '.'), Some(3));
    assert_eq!(find_first(&v, 'x'), 5);
    assert_eq!(find_last(&v, 'x'), None);
}

#[test]
fn compares_and_lowers() {
    assert!(same_text("ab", "ab"));
    assert!(!same_text("ab", "aB"));
    assert!(same_ignoring_case("FlAsH", "flash"));
    assert!(!same_ignoring_case("flash2", "flash"));
    assert_eq!(lower_text("ABÇz"), "ABÇz".to_ascii_lowercase());
    assert!(ends_with_char("x\\", '\\'));
    assert!(!ends_with_char("", '\\'));
}

#[test]
fn small_words() {
    assert_eq!(plural_suffix(0), "s");
    assert_eq!(plural_suffix(1), "");
    assert_eq!(plural_suffix(2), "s");
    assert_eq!(bool_name(true), format!("{}", true));
    assert_eq!(bool_name(false), format!("{}", false));
}
