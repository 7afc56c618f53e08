//! Points in time, as seconds since the start of 1970 (UTC).
use chrono::SecondsFormat;
use vstd::prelude::*;

verus! {

/// The first second that can be written as a date: the start of the year -262143.
pub const EARLIEST: i64 = -8334601228800;

/// The last second that can be written as a date: the end of the year 262142.
pub const LATEST: i64 = 8210266876799;

/// The second lies in the range of dates.
pub open spec fn is_date(seconds: int) -> bool {
    EARLIEST <= seconds <= LATEST
}

/// A point in time.
#[derive(Debug, Clone, Copy, PartialEq, Eq, Structural)]
pub struct Instant {
    pub seconds: i64,
    pub nanos: u32,
}

/// The RFC 3339 text of a point in time, with `Z` for the time zone.
pub uninterp spec fn rfc3339_text(seconds: i64, nanos: u32) -> Seq<char>;

/// The RFC 3339 text of a whole second, or the empty text where the second lies
/// beyond the range of dates.
pub open spec fn second_text(seconds: i64) -> Seq<char> {
    if is_date(seconds as int) {
        rfc3339_text(seconds, 0)
    } else {
        Seq::empty()
    }
}

/// Calls `chrono::Utc::now`. The system clock decides the result; it is never
/// before 1970, lies in the range of dates and is not within a leap second. With
/// a system clock set before 1970 the call panics.
#[verifier::external_body]
pub(crate) fn now() -> (t: Instant)
    ensures
        0 <= t.seconds <= LATEST,
        t.nanos < 1_000_000_000,
{
    let t = chrono::Utc::now();
    Instant { seconds: t.timestamp(), nanos: t.timestamp_subsec_nanos() }
}

/// Calls `chrono::DateTime::from_timestamp` and `to_rfc3339_opts`, the latter
/// with as many decimals as the nanoseconds need and with `Z` for UTC. There is a
/// text exactly for the seconds in the range of dates, and it is named.
#[verifier::external_body]
pub(crate) fn rfc3339(seconds: i64, nanos: u32) -> (text: Option<String>)
    requires
        nanos < 1_000_000_000,
    ensures
        text is Some == is_date(seconds as int),
        text matches Some(t) ==> t@ == rfc3339_text(seconds, nanos),
{
    chrono::DateTime::from_timestamp(seconds, nanos)
        .map(|t| t.to_rfc3339_opts(SecondsFormat::AutoSi, true))
}

/// The text of a whole second.
pub fn write_second(seconds: i64) -> (text: String)
    ensures
        text@ == second_text(seconds),
{
    match rfc3339(seconds, 0) {
        Some(text) => text,
        None => {
            let text: String = String::new();
            assert(text@ =~= Seq::<char>::empty());
            text
        },
    }
}

} // verus!
