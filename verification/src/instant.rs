//! Instants on the UTC time line, and the calendar work behind them.

use vstd::prelude::*;

verus! {

/// An instant: whole seconds since 1970-01-01T00:00:00Z and the nanoseconds
/// since the last whole second.
#[derive(Clone, Copy, Debug, PartialEq, Eq)]
pub struct Timestamp {
    pub secs: i64,
    pub nanos: u32,
}

/// The instant that an RFC 3339 date-and-time text denotes; `None` where the
/// text is no such date and time.
pub uninterp spec fn rfc3339_instant(text: Seq<char>) -> Option<Timestamp>;

/// The instant that lies `secs` seconds after the epoch; `None` where the
/// calendar cannot represent it.
pub uninterp spec fn instant_from_epoch(secs: i64) -> Option<Timestamp>;

/// Calls `chrono::DateTime::parse_from_rfc3339` and reads the result with
/// `timestamp` and `timestamp_subsec_nanos`, which count in UTC whatever the
/// offset of the text. The result is `None` where parsing fails, and
/// otherwise the instant that `rfc3339_instant` names for this text.
#[verifier::external_body]
pub(crate) fn read_rfc3339(text: &str) -> (r: Option<Timestamp>)
    ensures
        r == rfc3339_instant(text@),
{
    chrono::DateTime::parse_from_rfc3339(text).ok().map(
        |d| Timestamp { secs: d.timestamp(), nanos: d.timestamp_subsec_nanos() },
    )
}

/// Calls `chrono::DateTime::from_timestamp` with no nanoseconds. The result
/// is what `instant_from_epoch` names; where there is one, it reads back as
/// the same seconds, as chrono documents of `timestamp`.
#[verifier::external_body]
pub(crate) fn read_epoch_seconds(secs: i64) -> (r: Option<Timestamp>)
    ensures
        r == instant_from_epoch(secs),
        r matches Some(t) ==> t.secs == secs && t.nanos == 0,
{
    chrono::DateTime::from_timestamp(secs, 0).map(
        |d| Timestamp { secs: d.timestamp(), nanos: d.timestamp_subsec_nanos() },
    )
}

/// Calls `chrono::Utc::now`. Nothing is claimed of the instant that comes
/// back: it is the reading of the system clock, which chrono expects not to
/// stand before 1970.
#[verifier::external_body]
pub(crate) fn current_instant() -> Timestamp {
    let u = chrono::Utc::now();
    Timestamp { secs: u.timestamp(), nanos: u.timestamp_subsec_nanos() }
}

/// The first instant at hand: the one read from a date-and-time text, else
/// the one counted from the epoch, else the fallback.
pub open spec fn first_instant(
    from_text: Option<Timestamp>,
    from_epoch: Option<Timestamp>,
    fallback: Timestamp,
) -> Timestamp {
    match from_text {
        Some(t) => t,
        None => match from_epoch {
            Some(t) => t,
            None => fallback,
        },
    }
}

/// Picks the instant of a record from what its two sources gave.
pub fn choose_instant(
    from_text: Option<Timestamp>,
    from_epoch: Option<Timestamp>,
    fallback: Timestamp,
) -> (r: Timestamp)
    ensures
        r == first_instant(from_text, from_epoch, fallback),
{
    match from_text {
        Some(t) => t,
        None => match from_epoch {
            Some(t) => t,
            None => fallback,
        },
    }
}

} // verus!
