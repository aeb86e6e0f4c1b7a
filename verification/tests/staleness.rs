use chrono::{DateTime, Utc};
use hike_club_admin::time::{is_stale, is_stale_at, Timestamp};

fn at(when: &str) -> Timestamp {
    let d = DateTime::parse_from_rfc3339(when).unwrap().with_timezone(&Utc);
    Timestamp { secs: d.timestamp(), nanos: d.timestamp_subsec_nanos() }
}

#[test]
fn staleness_turns_over_exactly_at_end() {
    let now = at("2026-09-26T11:00:00-05:00");
    assert!(!is_stale("2026-09-26T11:00:00-05:00", now), "end == now");
    assert!(!is_stale("2026-09-26T11:00:01-05:00", now));
    assert!(is_stale("2026-09-26T10:59:59-05:00", now));
}

#[test]
fn an_unparseable_end_counts_as_stale() {
    let d = Utc::now();
    let now = Timestamp { secs: d.timestamp(), nanos: d.timestamp_subsec_nanos() };
    assert!(is_stale("whenever", now));
}

/// Offsets differ but the instants are what count.
#[test]
fn staleness_compares_instants_not_text() {
    let now = at("2026-09-26T16:00:00Z");
    assert!(!is_stale("2026-09-26T11:00:00-05:00", now));
    assert!(is_stale("2026-09-26T10:59:59.999-05:00", now));
    assert!(!is_stale("2026-09-26T16:00:00.000000001Z", now));
}

#[test]
fn staleness_of_parsed_instants() {
    let now = Timestamp { secs: 100, nanos: 5 };
    assert!(is_stale_at(Some((99, 999)), now));
    assert!(is_stale_at(Some((100, 4)), now));
    assert!(!is_stale_at(Some((100, 5)), now));
    assert!(!is_stale_at(Some((101, 0)), now));
    assert!(is_stale_at(None, now));
}
