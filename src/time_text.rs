//! Timestamps: reading the stored text, and writing a Unix time as text.
use vstd::prelude::*;

verus! {

/// The Unix time that chrono reads from a stored timestamp with an explicit
/// offset (`%F %T%#z`, such as `2025-02-19 06:46:54+00`).
pub uninterp spec fn zoned_timestamp(ts: Seq<char>) -> Option<i64>;

/// The Unix time that chrono reads from a stored timestamp without offset
/// (`%F %T`), taken in the fixed offset `offset` (seconds east of UTC).
pub uninterp spec fn naive_timestamp(ts: Seq<char>, offset: int) -> Option<i64>;

/// The text `%F %T%z` that chrono writes for a Unix time, where chrono can
/// represent that time.
pub uninterp spec fn utc_text(ts: int) -> Option<Seq<char>>;

/// The Unix time and the offset (in seconds) that the time crate reads from a
/// stored timestamp in the form `[year]-[month]-[day] [hour]:[minute]:[second][offset_hour]`.
pub uninterp spec fn offset_time(ts: Seq<char>) -> Option<(i64, i32)>;

/// An offset from UTC in seconds that chrono accepts as a fixed offset.
pub open spec fn valid_offset(offset: int) -> bool {
    -86_400 < offset < 86_400
}

/// Relies on chrono's `DateTime::<FixedOffset>::parse_from_str` with the
/// format `%F %T%#z`, and on `DateTime::timestamp` for its Unix time.
#[verifier::external_body]
pub(crate) fn parse_zoned(ts: &str) -> (r: Option<i64>)
    ensures
        r == zoned_timestamp(ts@),
{
    chrono::DateTime::<chrono::FixedOffset>::parse_from_str(ts, "%F %T%#z").ok().map(|dt| dt.timestamp())
}

/// Relies on chrono's `NaiveDateTime::parse_from_str` with the format
/// `%F %T`, placed in the fixed offset by `and_local_timezone`; a local time
/// that does not map to a single instant gives `None`.
#[verifier::external_body]
pub(crate) fn parse_naive(ts: &str, offset: i32) -> (r: Option<i64>)
    requires
        valid_offset(offset as int),
    ensures
        r == naive_timestamp(ts@, offset as int),
{
    let tz = chrono::FixedOffset::east_opt(offset).unwrap();
    chrono::NaiveDateTime::parse_from_str(ts, "%F %T").ok().and_then(
        |n| n.and_local_timezone(tz).single().map(|dt| dt.timestamp()),
    )
}

/// Relies on chrono's `DateTime::from_timestamp` (which gives `None` outside
/// chrono's range) and on its `format` with `%F %T%z`.
#[verifier::external_body]
pub(crate) fn format_utc(ts: i64) -> (r: Option<String>)
    ensures
        match r {
            Some(s) => utc_text(ts as int) == Some(s@),
            None => utc_text(ts as int) is None,
        },
{
    chrono::DateTime::from_timestamp(ts, 0).map(|dt| dt.format("%F %T%z").to_string())
}

/// Relies on the time crate's `format_description::parse_borrowed` for the
/// stored timestamp form, and on `OffsetDateTime::parse`, `unix_timestamp`
/// and `UtcOffset::whole_seconds`.
#[verifier::external_body]
pub(crate) fn parse_offset_time(ts: &str) -> (r: Option<(i64, i32)>)
    ensures
        r == offset_time(ts@),
{
    let format = time::format_description::parse_borrowed::<1>(
        "[year]-[month]-[day] [hour]:[minute]:[second][offset_hour]",
    ).ok()?;
    time::OffsetDateTime::parse(ts, &format).ok().map(
        |dt| (dt.unix_timestamp(), dt.offset().whole_seconds()),
    )
}

/// The Unix time of a stored timestamp: read with its own offset where it has
/// one, else taken in the fixed offset `offset`.
pub open spec fn stamp_of(ts: Seq<char>, offset: int) -> Option<i64> {
    match zoned_timestamp(ts) {
        Some(t) => Some(t),
        None => naive_timestamp(ts, offset),
    }
}

/// Reads a stored timestamp as a Unix time: with its own offset where it
/// has one, else in the fixed offset `offset` (seconds east of UTC).
pub fn read_timestamp(ts: &str, offset: i32) -> (r: Option<i64>)
    requires
        valid_offset(offset as int),
    ensures
        r == stamp_of(ts@, offset as int),
{
    match parse_zoned(ts) {
        Some(t) => Some(t),
        None => parse_naive(ts, offset),
    }
}

} // verus!
