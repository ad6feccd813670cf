//! Instants as microseconds (stored times) or nanoseconds (the clock) since
//! the Unix epoch, and the calls into `chrono` that read the clock, format
//! instants and parse local times.
use vstd::prelude::*;

verus! {

/// The instants a `chrono::DateTime<Utc>` can hold: from
/// -262143-01-01T00:00:00Z to +262142-12-31T23:59:59.999999Z, in
/// microseconds since the Unix epoch.
pub open spec fn in_chrono_range(us: i64) -> bool {
    -8334601315200000000 <= us <= 8210266876799999999
}

/// The instants of chrono's range in nanoseconds since the Unix epoch.
pub open spec fn in_chrono_range_ns(ns: int) -> bool {
    -8334601315200000000 * 1000 <= ns <= 8210266876799999999 * 1000 + 999
}

/// The microseconds since the epoch of a chrono instant given as whole
/// seconds and the nanoseconds past them (`timestamp_micros`); a leap
/// second carries 1e9 or more nanoseconds.
pub open spec fn micros_of(t: (i64, u32)) -> int {
    t.0 * 1_000_000 + t.1 / 1000
}

/// The strftime patterns this library formats instants with.
pub open spec fn supported_pattern(pattern: Seq<char>) -> bool {
    pattern == "%Y/%m/%d %H:%M"@ || pattern == "%Y-%m-%dT%H:%M"@
}

/// What `chrono` prints for the instant `us` seen at the fixed UTC offset
/// `offset_secs` with the strftime `pattern`.
pub uninterp spec fn local_time_text(us: i64, offset_secs: i32, pattern: Seq<char>) -> Seq<char>;

/// What `chrono` gives for the local date-time text `raw`, read with
/// `pattern` at the fixed UTC offset `offset_secs`: the instant as
/// `(timestamp(), timestamp_subsec_nanos())`, or `None` where the text does
/// not parse or names no instant. Pairs order as chrono orders instants.
pub uninterp spec fn local_text_instant(raw: Seq<char>, pattern: Seq<char>, offset_secs: i32) -> Option<(i64, u32)>;

/// The current instant, `chrono::Utc::now()`, in nanoseconds since the
/// epoch (`timestamp()` seconds and `timestamp_subsec_nanos()`). What is
/// stated is that it lies in chrono's range; the value depends on the clock.
#[verifier::external_body]
pub(crate) fn now_nanos() -> (t: i128)
    ensures
        in_chrono_range_ns(t as int),
{
    let now = chrono::Utc::now();
    (now.timestamp() as i128) * 1_000_000_000 + (now.timestamp_subsec_nanos() as i128)
}

/// `DateTime::from_timestamp_micros(us)` seen at `FixedOffset::east_opt(offset_secs)`
/// and formatted with `format(pattern)`. Both constructors succeed on the
/// inputs that `requires` admits; the text itself is named, not stated.
#[verifier::external_body]
pub(crate) fn format_local_time(us: i64, offset_secs: i32, pattern: &str) -> (s: String)
    requires
        in_chrono_range(us),
        -86400 < offset_secs < 86400,
        supported_pattern(pattern@),
    ensures
        s@ == local_time_text(us, offset_secs, pattern@),
{
    let utc = chrono::DateTime::from_timestamp_micros(us).unwrap();
    let offset = chrono::FixedOffset::east_opt(offset_secs).unwrap();
    utc.with_timezone(&offset).format(pattern).to_string()
}

/// `NaiveDateTime::parse_from_str(raw, pattern)` placed at
/// `FixedOffset::east_opt(offset_secs)` by `from_local_datetime(..).single()`,
/// as `(timestamp(), timestamp_subsec_nanos())`. The result is named. At an
/// offset east of UTC, an instant it gives lies in chrono's range in
/// microseconds: `from_local_datetime` refuses instants before the range,
/// and the latest local time, a leap second ending the last day, moves back
/// by the offset. (At offset 0 that leap second reaches one microsecond past
/// the range, so nothing is stated there.)
#[verifier::external_body]
pub(crate) fn parse_local_time(raw: &str, pattern: &str, offset_secs: i32) -> (r: Option<(i64, u32)>)
    ensures
        r == local_text_instant(raw@, pattern@, offset_secs),
        offset_secs > 0 ==> (r matches Some(t) ==> -8334601315200000000 <= micros_of(t) <= 8210266876799999999),
{
    let naive = chrono::NaiveDateTime::parse_from_str(raw, pattern).ok()?;
    let offset = chrono::FixedOffset::east_opt(offset_secs)?;
    let local = chrono::TimeZone::from_local_datetime(&offset, &naive).single()?;
    Some((local.timestamp(), local.timestamp_subsec_nanos()))
}

} // verus!
