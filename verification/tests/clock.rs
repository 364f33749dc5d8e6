use xeedee_cli::clock::{local_time, time_at};
use xeedee_cli::ui::{OutputFormat, UiCtx};

const UNIX_EPOCH_TICKS: u64 = 116_444_736_000_000_000;

#[test]
fn renders_at_an_offset() {
    assert_eq!(time_at(UNIX_EPOCH_TICKS, 0), "1970-01-01 00:00:00");
    assert_eq!(time_at(UNIX_EPOCH_TICKS, 3600), "1970-01-01 01:00:00");
    assert_eq!(time_at(UNIX_EPOCH_TICKS, -1), "1969-12-31 23:59:59");
    assert_eq!(time_at(0, 0), "1601-01-01 00:00:00");
    assert_eq!(
        time_at(UNIX_EPOCH_TICKS + 1_776_700_930 * 10_000_000 + 9_999_999, 0),
        "2026-04-20 16:02:10"
    );
}

#[test]
fn falls_back_to_hex() {
    let last = (253_402_207_200u64 + 11_644_473_600) * 10_000_000 + 9_999_999;
    assert_ne!(time_at(last, 0), format!("{last:#018x}"));
    assert_eq!(time_at(last + 1, 0), format!("{:#018x}", last + 1));
    assert_eq!(local_time(last + 1), format!("{:#018x}", last + 1));
    assert_eq!(local_time(u64::MAX), "0xffffffffffffffff");
}

#[test]
fn local_time_is_that_of_the_system_zone() {
    for ticks in [0u64, UNIX_EPOCH_TICKS, 133_900_000_000_000_000] {
        let second = (ticks / 10_000_000) as i64 - 11_644_473_600;
        let nanosecond = (ticks % 10_000_000) as i32 * 100;
        let expected = jiff::Timestamp::new(second, nanosecond)
            .unwrap()
            .to_zoned(jiff::tz::TimeZone::system())
            .strftime("%Y-%m-%d %H:%M:%S")
            .to_string();
        assert_eq!(local_time(ticks), expected);
        let ui = UiCtx { format: OutputFormat::Pretty, no_progress: true, raw_bytes: false };
        assert_eq!(ui.fmt_time(ticks), expected);
    }
}
