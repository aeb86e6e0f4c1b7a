//! Instants read from RFC 3339 text, and whether a hike's end has passed.
use chrono::DateTime;
use vstd::prelude::*;

verus! {

/// An instant: whole seconds since the Unix epoch, and nanoseconds past that
/// second.
#[derive(Debug, Clone, Copy, PartialEq, Eq)]
pub struct Timestamp {
    pub secs: i64,
    pub nanos: u32,
}

/// Whether the instant `(secs, nanos)` comes strictly before `now`.
pub open spec fn instant_before(at: (i64, u32), now: Timestamp) -> bool {
    at.0 < now.secs || (at.0 == now.secs && at.1 < now.nanos)
}

/// The instant chrono's RFC 3339 parser reads from `text`, as (seconds since
/// the Unix epoch, nanoseconds past that second), or `None` where it rejects
/// the text.
pub uninterp spec fn rfc3339_instant(text: Seq<char>) -> Option<(i64, u32)>;

/// Calls `chrono::DateTime::parse_from_rfc3339` and converts the parsed value
/// to its UTC seconds and sub-second nanoseconds (`timestamp`,
/// `timestamp_subsec_nanos`). Claims only that the result is the named
/// function of the text; the parse itself is chrono's.
#[verifier::external_body]
fn parse_rfc3339(text: &str) -> (at: Option<(i64, u32)>)
    ensures
        at == rfc3339_instant(text@),
{
    match DateTime::parse_from_rfc3339(text) {
        Ok(d) => Some((d.timestamp(), d.timestamp_subsec_nanos())),
        Err(_) => None,
    }
}

/// Whether a record whose `end` reads as `end` is stale at `now`: its end
/// has passed, or it could not be read at all.
pub open spec fn stale_at(end: Option<(i64, u32)>, now: Timestamp) -> bool {
    match end {
        Some(at) => instant_before(at, now),
        None => true,
    }
}

/// Staleness of an already parsed `end` at `now`.
pub fn is_stale_at(end: Option<(i64, u32)>, now: Timestamp) -> (stale: bool)
    ensures
        stale == stale_at(end, now),
{
    match end {
        Some((secs, nanos)) => secs < now.secs || (secs == now.secs && nanos < now.nanos),
        None => true,
    }
}

/// Whether a record's `end` has already passed at `now`. An unparseable
/// `end` counts as stale: something is wrong with it either way.
pub fn is_stale(end: &str, now: Timestamp) -> (stale: bool)
    ensures
        stale == stale_at(rfc3339_instant(end@), now),
{
    is_stale_at(parse_rfc3339(end), now)
}

} // verus!
