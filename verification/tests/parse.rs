use xeedee_cli::error::{ArgumentKey, ErrorKind};
use xeedee_cli::hexdump::hex_dump;
use xeedee_cli::parse::{
    decode_hex, parse_bare, parse_break_kind, parse_hinted, parse_number, parse_thread_id,
    parse_u32, DataBreakKind,
};
use xeedee_cli::text::{address_text, chars_of, decimal_text};

fn with_std(input: &str) -> Result<u32, ErrorKind> {
    let trimmed = input.trim();
    if let Some(hex) = trimmed
        .strip_prefix("0x")
        .or_else(|| trimmed.strip_prefix("0X"))
    {
        u32::from_str_radix(hex, 16).map_err(|_| ErrorKind::InvalidHexDigits(ArgumentKey::Cli))
    } else {
        trimmed
            .parse::<u32>()
            .map_err(|_| ErrorKind::InvalidDecimalU32(ArgumentKey::Cli))
    }
}

#[test]
fn numbers_parse_like_std() {
    for s in [
        "", " ", "0", "7", "+7", "-7", "4294967295", "4294967296", "99999999999999999999", "0x",
        "0x0", "0XfF", "0xFFFFFFFF", "0x100000000", "0x+1", "0x-1", " 12 ", "1 2", "ff", "0xg",
        "00000000000000000001", "0x00000000000000000001", "+", "++1", "x", "0x0x1", "٣", "1_0",
    ] {
        assert_eq!(parse_u32(s), with_std(s), "{s:?}");
    }
}

#[test]
fn numbers_may_begin_with_a_plus_sign() {
    assert_eq!(parse_u32("0x+5"), Ok(5));
    assert_eq!(parse_u32("+1"), Ok(1));
    assert_eq!(parse_u32("0x+"), Err(ErrorKind::InvalidHexDigits(ArgumentKey::Cli)));
    assert_eq!(parse_u32("+"), Err(ErrorKind::InvalidDecimalU32(ArgumentKey::Cli)));
}

#[test]
fn numbers_read_back() {
    for n in [0u32, 1, 9, 10, 255, 0x8123_abcd, u32::MAX] {
        assert_eq!(parse_u32(&decimal_text(n as u64)), Ok(n));
        assert_eq!(parse_u32(&address_text(n)), Ok(n));
    }
}

#[test]
fn bounded_numbers() {
    assert_eq!(parse_number(&chars_of("255"), 10, 255), Some(255));
    assert_eq!(parse_number(&chars_of("256"), 10, 255), None);
    assert_eq!(parse_number(&chars_of("Ff"), 16, 255), Some(255));
    assert_eq!(parse_number(&chars_of(""), 10, 255), None);
    assert_eq!(parse_number(&chars_of("+1"), 10, 255), Some(1));
    assert_eq!(parse_number(&chars_of("+"), 10, 255), None);
}

#[test]
fn hints_ride_on_failures() {
    assert_eq!(parse_hinted("0x10", "--address").unwrap(), 16);
    let f = parse_hinted("zz", "--address").unwrap_err();
    assert_eq!(f.kind, ErrorKind::InvalidDecimalU32(ArgumentKey::Cli));
    assert_eq!(f.note.as_deref(), Some("--address"));
    let g = parse_bare("0xzz").unwrap_err();
    assert_eq!(g.kind, ErrorKind::InvalidHexDigits(ArgumentKey::Cli));
    assert_eq!(g.note, None);
}

#[test]
fn thread_ids() {
    assert_eq!(parse_thread_id("0xF8001234").unwrap(), 0xF800_1234);
    let f = parse_thread_id("main \"x\"").unwrap_err();
    assert_eq!(f.kind, ErrorKind::InvalidDecimalU32(ArgumentKey::Cli));
    assert_eq!(f.note, Some(format!("invalid thread id {:?}", "main \"x\"")));
}

#[test]
fn hex_bytes() {
    assert_eq!(decode_hex(" DEADbeef "), Ok(vec![0xde, 0xad, 0xbe, 0xef]));
    assert_eq!(decode_hex(""), Ok(vec![]));
    let bad = Err(ErrorKind::InvalidHexDigits(ArgumentKey::HexBytes));
    assert_eq!(decode_hex("abc"), bad);
    assert_eq!(decode_hex("zz"), bad);
    assert_eq!(decode_hex("é"), bad);
    assert_eq!(decode_hex("aéa"), bad);
    assert_eq!(decode_hex("+1"), bad);
    assert_eq!(decode_hex("+F"), bad);
    assert_eq!(decode_hex("0a+F"), bad);
    assert_eq!(decode_hex("F+"), bad);
}

#[test]
fn hex_bytes_read_back() {
    let all: Vec<u8> = (0..=255).collect();
    assert_eq!(decode_hex(&hex_dump(&all)), Ok(all));
}

#[test]
fn break_kinds() {
    for (word, kind) in [
        ("read", DataBreakKind::Read),
        ("Write", DataBreakKind::Write),
        ("READWRITE", DataBreakKind::ReadWrite),
        ("rw", DataBreakKind::ReadWrite),
        ("execute", DataBreakKind::Execute),
        ("exec", DataBreakKind::Execute),
    ] {
        assert_eq!(parse_break_kind(word).unwrap(), kind);
    }
    let f = parse_break_kind("reads").unwrap_err();
    assert_eq!(f.kind, ErrorKind::EmptyFilename);
    assert_eq!(
        f.note.as_deref(),
        Some("kind must be one of read/write/readwrite/execute")
    );
}
