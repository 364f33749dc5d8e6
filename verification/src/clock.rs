//! Console timestamps in local time.

use vstd::prelude::*;

use crate::text::{hex_literal, hex_literal_text};

verus! {

/// `jiff::Error`, handed through without being looked into.
#[verifier::external_type_specification]
#[verifier::external_body]
pub struct ExJiffError(jiff::Error);

/// The seconds since the Unix epoch, and the nanoseconds within the second,
/// that `jiff` can represent as a timestamp.
pub open spec fn jiff_range(second: int, nanosecond: int) -> bool {
    &&& -377705023201 <= second <= 253402207200
    &&& -999999999 <= nanosecond <= 999999999
    &&& second == -377705023201 ==> nanosecond >= 0
}

/// The offsets from UTC, in seconds, that `jiff` can represent.
pub open spec fn offset_range(offset: int) -> bool {
    -93599 <= offset <= 93599
}

/// What `jiff::Zoned::strftime` displays for the instant in a zone with the
/// fixed offset.
pub uninterp spec fn clock_text(
    second: i64,
    nanosecond: i32,
    offset: i32,
    format: Seq<char>,
) -> Seq<char>;

/// `jiff::Timestamp::new`, then `jiff::tz::TimeZone::to_offset` in the
/// machine's own time zone. The timestamp exists exactly within `jiff`'s range;
/// which offset the machine's zone has then is left open, beyond the range that
/// `jiff` gives every offset.
#[verifier::external_body]
fn system_offset(second: i64, nanosecond: i32) -> (r: Result<i32, jiff::Error>)
    ensures
        r is Ok <==> jiff_range(second as int, nanosecond as int),
        r matches Ok(offset) ==> offset_range(offset as int),
{
    let instant = jiff::Timestamp::new(second, nanosecond)?;
    Ok(jiff::tz::TimeZone::system().to_offset(instant).seconds())
}

/// `jiff::Zoned::strftime` of the instant in a zone of fixed offset, displayed.
/// The text depends on nothing but the arguments. Displaying is lenient about
/// directives that `jiff` cannot use; the claim is made for the one format in
/// use here.
#[verifier::external_body]
fn clock_at(second: i64, nanosecond: i32, offset: i32, format: &str) -> (r: String)
    requires
        jiff_range(second as int, nanosecond as int),
        offset_range(offset as int),
        format@ == "%Y-%m-%d %H:%M:%S"@,
    ensures
        r@ == clock_text(second, nanosecond, offset, format@),
{
    let instant = jiff::Timestamp::new(second, nanosecond).unwrap();
    let zone = jiff::tz::TimeZone::fixed(jiff::tz::Offset::from_seconds(offset).unwrap());
    instant.to_zoned(zone).strftime(format).to_string()
}

/// The Unix second of a FILETIME: ticks of 100 ns since the start of 1601.
pub open spec fn unix_second(ticks: u64) -> int {
    ticks as int / 10000000 - 11644473600
}

/// The nanoseconds of a FILETIME within its second.
pub open spec fn subsecond(ticks: u64) -> int {
    (ticks as int % 10000000) * 100
}

/// Whether a FILETIME lies within the range of local-time rendering.
pub open spec fn renders_locally(ticks: u64) -> bool {
    jiff_range(unix_second(ticks), subsecond(ticks))
}

/// A FILETIME as date and time at an offset from UTC, or as the raw ticks in
/// hex where it is out of range.
pub open spec fn time_text(ticks: u64, offset: i32) -> Seq<char> {
    if renders_locally(ticks) {
        clock_text(
            unix_second(ticks) as i64,
            subsecond(ticks) as i32,
            offset,
            "%Y-%m-%d %H:%M:%S"@,
        )
    } else {
        hex_literal(ticks as nat, 16)
    }
}

fn unix_second_of(ticks: u64) -> (r: i64)
    ensures
        r == unix_second(ticks),
        -11644473600 <= r <= 2000000000000,
{
    (ticks / 10000000) as i64 - 11644473600
}

fn subsecond_of(ticks: u64) -> (r: i32)
    ensures
        r == subsecond(ticks),
        0 <= r <= 999999999,
{
    ((ticks % 10000000) * 100) as i32
}

/// Renders a FILETIME at a given offset from UTC.
pub fn time_at(ticks: u64, offset: i32) -> (r: String)
    requires
        offset_range(offset as int),
    ensures
        r@ == time_text(ticks, offset),
{
    let second: i64 = unix_second_of(ticks);
    let nanosecond: i32 = subsecond_of(ticks);
    if second <= 253402207200 {
        clock_at(second, nanosecond, offset, "%Y-%m-%d %H:%M:%S")
    } else {
        hex_literal_text(ticks, 16)
    }
}

/// Renders a FILETIME in the machine's local time.
pub fn local_time(ticks: u64) -> (r: String)
    ensures
        exists|offset: i32| offset_range(offset as int) && r@ == #[trigger] time_text(ticks, offset),
        !renders_locally(ticks) ==> r@ == hex_literal(ticks as nat, 16),
{
    let second: i64 = unix_second_of(ticks);
    let nanosecond: i32 = subsecond_of(ticks);
    match system_offset(second, nanosecond) {
        Ok(offset) => time_at(ticks, offset),
        Err(_) => {
            let r = hex_literal_text(ticks, 16);
            assert(offset_range(0) && r@ == time_text(ticks, 0));
            r
        },
    }
}

/// A FILETIME stands for the instant that lies a hundred nanoseconds for each
/// tick after the start of 1601, which was 11644473600 seconds before the Unix
/// epoch. The nanoseconds within the second are never negative.
pub proof fn filetime_counts_from_1601(ticks: u64)
    ensures
        (unix_second(ticks) + 11644473600) * 1000000000 + subsecond(ticks) == ticks * 100,
        0 <= subsecond(ticks) < 1000000000,
{
}

/// One second is ten million ticks.
pub proof fn ten_million_ticks_are_a_second(ticks: u64, seconds: nat)
    requires
        ticks + 10000000 * seconds <= u64::MAX,
    ensures
        unix_second((ticks + 10000000 * seconds) as u64) == unix_second(ticks) + seconds,
        subsecond((ticks + 10000000 * seconds) as u64) == subsecond(ticks),
{
}

/// A FILETIME is shown as date and time exactly up to the second 22:00:00 UTC on
/// 30 December 9999, and as its own digits in hex beyond it.
pub proof fn times_are_shown_up_to_9999(ticks: u64, offset: i32)
    ensures
        renders_locally(ticks) <==> ticks < (253402207200 + 11644473600 + 1) * 10000000,
        renders_locally(ticks) ==> time_text(ticks, offset) == clock_text(
            unix_second(ticks) as i64,
            subsecond(ticks) as i32,
            offset,
            "%Y-%m-%d %H:%M:%S"@,
        ),
        !renders_locally(ticks) ==> time_text(ticks, offset) == hex_literal(ticks as nat, 16),
{
}

} // verus!
