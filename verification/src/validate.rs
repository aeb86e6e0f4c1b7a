//! The trust boundary. Every request body is validated here before anything
//! is stored: slug shape, membership in the location mapping, trail lists,
//! location lists and trail map uploads.
use vstd::prelude::*;

use crate::models::{
    location_views, map_key, texts, HikeLocation, HikeRecord, HikeRequest,
};
use crate::text::{
    blank, char_count, same_text, chars_of, concat3, eq_ignore_ascii_case, is_blank, range_eq_ignore_ascii_case,
    trim, trim_range, trimmed,
};

verus! {

/// Longest slug accepted, in bytes.
pub const MAX_SLUG_LEN: usize = 64;

/// Most trails a hike may list.
pub const MAX_TRAILS: usize = 20;

/// Longest trail name or location display name, in characters.
pub const MAX_NAME_LEN: usize = 100;

/// Most entries the location mapping may hold.
pub const MAX_LOCATIONS: usize = 200;

/// Largest trail map accepted, in bytes (5 MB).
pub const MAX_MAP_BYTES: usize = 5 * 1024 * 1024;

/// A rejected request: the status to answer with and the message to send.
#[derive(Debug, Clone, PartialEq, Eq)]
pub struct Invalid {
    pub status: u16,
    pub message: String,
}

impl View for Invalid {
    type V = (u16, Seq<char>);

    open spec fn view(&self) -> (u16, Seq<char>) {
        (self.status, self.message@)
    }
}

/// A check's result as plain values: `Ok`, or the rejection's status and
/// message.
pub open spec fn verdict_of(r: Result<(), Invalid>) -> Result<(), (u16, Seq<char>)> {
    match r {
        Ok(_) => Ok(()),
        Err(e) => Err(e@),
    }
}

/// A 400 rejection.
pub open spec fn bad(message: Seq<char>) -> Result<(), (u16, Seq<char>)> {
    Err((400u16, message))
}

fn bad_request(message: String) -> (i: Invalid)
    ensures
        i@ == (400u16, message@),
{
    Invalid { status: 400, message }
}

// ---------------------------------------------------------------- slugs
/// A character a slug may hold: `a`-`z`, `0`-`9` or `-`.
pub open spec fn is_slug_char(c: char) -> bool {
    ('a' <= c && c <= 'z') || ('0' <= c && c <= '9') || c == '-'
}

/// Whether `s` starts or ends with `-`, or holds `--`.
pub open spec fn has_hyphen_fault(s: Seq<char>) -> bool {
    ||| s.len() > 0 && s[0] == '-'
    ||| s.len() > 0 && s.last() == '-'
    ||| exists|i: int| 0 <= i < s.len() - 1 && #[trigger] s[i] == '-' && s[i + 1] == '-'
}

/// Whether every character of `s` is a slug character.
pub open spec fn all_slug_chars(s: Seq<char>) -> bool {
    forall|i: int| 0 <= i < s.len() ==> is_slug_char(#[trigger] s[i])
}

/// The length of `s` in UTF-8 bytes, which is what `str::len` counts.
pub open spec fn byte_len(s: Seq<char>) -> nat {
    vstd::utf8::encode_utf8(s).len()
}

/// What `validate_slug` decides for `s`; the checks run in this order.
pub open spec fn slug_verdict(s: Seq<char>) -> Result<(), (u16, Seq<char>)> {
    if s.len() == 0 {
        bad("slug must not be empty"@)
    } else if byte_len(s) > MAX_SLUG_LEN {
        bad("slug must be at most 64 characters"@)
    } else if has_hyphen_fault(s) {
        bad("slug must not start, end, or double up on '-'"@)
    } else if !all_slug_chars(s) {
        bad("slug must contain only lowercase letters, digits and '-'"@)
    } else {
        Ok(())
    }
}

/// Enforces `^[a-z0-9]+(-[a-z0-9]+)*$` and a length of at most
/// [`MAX_SLUG_LEN`] bytes: lowercase alphanumerics and single interior
/// hyphens. This keeps a slug from escaping its prefix when it is
/// interpolated into an R2 key.
pub fn validate_slug(slug: &str) -> (r: Result<(), Invalid>)
    ensures
        verdict_of(r) == slug_verdict(slug@),
{
    if slug.is_empty() {
        return Err(bad_request(String::from_str("slug must not be empty")));
    }
    if slug.as_bytes().len() > MAX_SLUG_LEN {
        return Err(bad_request(String::from_str("slug must be at most 64 characters")));
    }
    let chars = chars_of(slug);
    let n = chars.len();
    let mut fault = chars[0] == '-' || chars[n - 1] == '-';
    let mut i: usize = 0;
    while i + 1 < n && !fault
        invariant
            chars@ == slug@,
            n == chars.len(),
            n > 0,
            0 <= i < n,
            fault == (chars@[0] == '-' || chars@[n - 1] == '-' || exists|k: int|
                0 <= k < i && #[trigger] chars@[k] == '-' && chars@[k + 1] == '-'),
        decreases n - i,
    {
        if chars[i] == '-' && chars[i + 1] == '-' {
            fault = true;
        }
        i = i + 1;
    }
    if fault {
        assert(has_hyphen_fault(slug@));
        return Err(bad_request(String::from_str("slug must not start, end, or double up on '-'")));
    }
    assert(!has_hyphen_fault(slug@));
    let mut j: usize = 0;
    while j < n
        invariant
            chars@ == slug@,
            n == chars.len(),
            0 <= j <= n,
            slug@.len() > 0,
            byte_len(slug@) <= MAX_SLUG_LEN,
            !has_hyphen_fault(slug@),
            forall|k: int| 0 <= k < j ==> is_slug_char(#[trigger] chars@[k]),
        decreases n - j,
    {
        let c = chars[j];
        if !(('a' <= c && c <= 'z') || ('0' <= c && c <= '9') || c == '-') {
            assert(!is_slug_char(chars@[j as int]));
            return Err(
                bad_request(
                    String::from_str("slug must contain only lowercase letters, digits and '-'"),
                ),
            );
        }
        j = j + 1;
    }
    Ok(())
}

/// Whether some entry of `locations` has `slug` as its short name.
pub open spec fn is_known(slug: Seq<char>, locations: Seq<(Seq<char>, Seq<char>)>) -> bool {
    exists|i: int| 0 <= i < locations.len() && (#[trigger] locations[i]).0 == slug
}

/// What `validate_known_slug` decides.
pub open spec fn known_slug_verdict(
    slug: Seq<char>,
    locations: Seq<(Seq<char>, Seq<char>)>,
) -> Result<(), (u16, Seq<char>)> {
    match slug_verdict(slug) {
        Err(e) => Err(e),
        Ok(_) => if is_known(slug, locations) {
            Ok(())
        } else {
            bad("unknown location '"@ + slug + "' — add it under Locations first"@)
        },
    }
}

/// A well-formed slug that is also a known location. Writes are confined to
/// locations that exist, so the mapping doubles as the allowlist of keys
/// this worker may create.
pub fn validate_known_slug(slug: &str, locations: &[HikeLocation]) -> (r: Result<(), Invalid>)
    ensures
        verdict_of(r) == known_slug_verdict(slug@, location_views(locations@)),
{
    if let Err(e) = validate_slug(slug) {
        return Err(e);
    }
    let ghost ls = location_views(locations@);
    let mut i: usize = 0;
    while i < locations.len()
        invariant
            ls == location_views(locations@),
            0 <= i <= locations.len(),
            slug_verdict(slug@) is Ok,
            forall|k: int| 0 <= k < i ==> (#[trigger] ls[k]).0 != slug@,
        decreases locations.len() - i,
    {
        if same_text(locations[i].short_name.as_str(), slug) {
            assert(ls[i as int].0 == slug@);
            return Ok(());
        }
        i = i + 1;
    }
    Err(bad_request(concat3("unknown location '", slug, "' — add it under Locations first")))
}

// ---------------------------------------------------------------- records
/// How the meeting coordinates fared against their ranges. The comparison is
/// made on the floats, outside this library; the verdict is handed in.
#[derive(Debug, Clone, Copy, PartialEq, Eq)]
pub enum CoordinateCheck {
    InRange,
    LatitudeOutOfRange,
    LongitudeOutOfRange,
}

/// What the meeting-point check decides for `c`.
pub open spec fn meeting_verdict(c: CoordinateCheck) -> Result<(), (u16, Seq<char>)> {
    match c {
        CoordinateCheck::InRange => Ok(()),
        CoordinateCheck::LatitudeOutOfRange => bad("meeting.lat must be between -90 and 90"@),
        CoordinateCheck::LongitudeOutOfRange => bad("meeting.lon must be between -180 and 180"@),
    }
}

/// The rejection the meeting-point check gives for `c`.
pub fn validate_meeting(c: CoordinateCheck) -> (r: Result<(), Invalid>)
    ensures
        verdict_of(r) == meeting_verdict(c),
{
    match c {
        CoordinateCheck::InRange => Ok(()),
        CoordinateCheck::LatitudeOutOfRange => Err(
            bad_request(String::from_str("meeting.lat must be between -90 and 90")),
        ),
        CoordinateCheck::LongitudeOutOfRange => Err(
            bad_request(String::from_str("meeting.lon must be between -180 and 180")),
        ),
    }
}

/// What is wrong with one trail name, if anything.
pub open spec fn trail_problem(t: Seq<char>) -> Option<Seq<char>> {
    if is_blank(t) {
        Some("trail names must not be blank"@)
    } else if t.len() > MAX_NAME_LEN {
        Some("trail names must be at most 100 characters"@)
    } else {
        None
    }
}

/// The problem of the first faulty trail at or after index `i`.
pub open spec fn trail_problem_from(ts: Seq<Seq<char>>, i: int) -> Option<Seq<char>>
    decreases ts.len() - i,
{
    if i < 0 || i >= ts.len() {
        None
    } else {
        match trail_problem(ts[i]) {
            Some(m) => Some(m),
            None => trail_problem_from(ts, i + 1),
        }
    }
}

/// What the trail-list check decides for `ts`.
pub open spec fn trails_verdict(ts: Seq<Seq<char>>) -> Result<(), (u16, Seq<char>)> {
    if ts.len() == 0 {
        bad("at least one trail is required"@)
    } else if ts.len() > MAX_TRAILS {
        bad("at most 20 trails are allowed"@)
    } else {
        match trail_problem_from(ts, 0) {
            Some(m) => bad(m),
            None => Ok(()),
        }
    }
}

/// Between one and [`MAX_TRAILS`] trails, each non-blank and at most
/// [`MAX_NAME_LEN`] characters.
pub fn validate_trails(trails: &[String]) -> (r: Result<(), Invalid>)
    ensures
        verdict_of(r) == trails_verdict(texts(trails@)),
{
    let ghost ts = texts(trails@);
    assert(ts.len() == trails@.len());
    if trails.len() == 0 {
        return Err(bad_request(String::from_str("at least one trail is required")));
    }
    if trails.len() > MAX_TRAILS {
        return Err(bad_request(String::from_str("at most 20 trails are allowed")));
    }
    let mut i: usize = 0;
    while i < trails.len()
        invariant
            ts == texts(trails@),
            0 < trails.len() <= MAX_TRAILS,
            ts.len() == trails@.len(),
            0 <= i <= trails.len(),
            trail_problem_from(ts, 0) == trail_problem_from(ts, i as int),
        decreases trails.len() - i,
    {
        let t = trails[i].as_str();
        assert(ts[i as int] == t@);
        if blank(t) {
            return Err(bad_request(String::from_str("trail names must not be blank")));
        }
        if char_count(t) > MAX_NAME_LEN {
            return Err(bad_request(String::from_str("trail names must be at most 100 characters")));
        }
        i = i + 1;
    }
    Ok(())
}

/// What `build_record` decides: the known-slug check, then the meeting
/// point, then the trails.
pub open spec fn record_verdict(
    slug: Seq<char>,
    meeting: CoordinateCheck,
    trails: Seq<Seq<char>>,
    locations: Seq<(Seq<char>, Seq<char>)>,
) -> Result<(), (u16, Seq<char>)> {
    match known_slug_verdict(slug, locations) {
        Err(e) => Err(e),
        Ok(_) => match meeting_verdict(meeting) {
            Err(e) => Err(e),
            Ok(_) => trails_verdict(trails),
        },
    }
}

/// The trail names as stored: each one trimmed.
pub open spec fn stored_trails(trails: Seq<Seq<char>>) -> Seq<Seq<char>> {
    trails.map_values(|t: Seq<char>| trimmed(t))
}

/// Validates a `PUT /api/hikes/{slug}` body and builds the record to store.
/// `id` and `map_key` come from the path slug, never from the body.
/// `meeting_check` is the outcome of the range check on the body's
/// coordinates.
pub fn build_record(
    slug: &str,
    request: &HikeRequest,
    meeting_check: CoordinateCheck,
    locations: &[HikeLocation],
) -> (r: Result<HikeRecord, Invalid>)
    ensures
        match r {
            Ok(record) => {
                &&& record_verdict(
                    slug@,
                    meeting_check,
                    texts(request.trails@),
                    location_views(locations@),
                ) == Ok::<(), (u16, Seq<char>)>(())
                &&& record.id@ == slug@
                &&& record.meeting == request.meeting
                &&& texts(record.trails@) == stored_trails(texts(request.trails@))
                &&& record.map_key@ == map_key(slug@)
            },
            Err(e) => record_verdict(
                slug@,
                meeting_check,
                texts(request.trails@),
                location_views(locations@),
            ) == Err::<(), (u16, Seq<char>)>(e@),
        },
{
    validate_known_slug(slug, locations)?;
    validate_meeting(meeting_check)?;
    validate_trails(request.trails.as_slice())?;
    let ghost ts = texts(request.trails@);
    assert(ts.len() == request.trails@.len());
    let mut trails: Vec<String> = Vec::new();
    let mut i: usize = 0;
    while i < request.trails.len()
        invariant
            ts == texts(request.trails@),
            ts.len() == request.trails@.len(),
            0 <= i <= request.trails.len(),
            texts(trails@) == stored_trails(ts).take(i as int),
        decreases request.trails.len() - i,
    {
        let t = trim(request.trails[i].as_str());
        let ghost before = trails@;
        trails.push(t);
        proof {
            assert(ts[i as int] == request.trails@[i as int]@);
            assert(trails@ == before.push(t));
            assert(stored_trails(ts).len() == ts.len());
            assert(stored_trails(ts).take(i as int).len() == i);
            assert(texts(before).len() == before.len());
            assert(before.len() == i);
            assert(texts(trails@).len() == trails@.len());
            assert(texts(trails@).len() == i + 1);
            assert(texts(trails@)[i as int] == t@);
            assert(stored_trails(ts)[i as int] == trimmed(ts[i as int]));
            assert forall|k: int| 0 <= k < i + 1 implies #[trigger] texts(trails@)[k] == stored_trails(
                ts,
            ).take(i + 1)[k] by {
                if k < i {
                    assert(texts(before)[k] == stored_trails(ts).take(i as int)[k]);
                    assert(texts(trails@)[k] == trails@[k]@);
                    assert(texts(before)[k] == before[k]@);
                }
            }
            assert(texts(trails@) =~= stored_trails(ts).take(i + 1));
        }
        i = i + 1;
    }
    assert(stored_trails(ts).take(i as int) =~= stored_trails(ts));
    Ok(
        HikeRecord {
            id: String::from_str(slug),
            meeting: request.meeting,
            trails,
            map_key: HikeRecord::map_key_for(slug),
        },
    )
}

// ---------------------------------------------------------------- locations
/// What is wrong with one location entry, if anything.
pub open spec fn location_problem(l: (Seq<char>, Seq<char>)) -> Option<(u16, Seq<char>)> {
    match slug_verdict(l.0) {
        Err(e) => Some(e),
        Ok(_) => if is_blank(l.1) {
            Some((400u16, "location '"@ + l.0 + "' needs a display name"@))
        } else if l.1.len() > MAX_NAME_LEN {
            Some((400u16, "display names must be at most 100 characters"@))
        } else {
            None
        },
    }
}

/// The problem of the first faulty entry at or after index `i`.
pub open spec fn location_problem_from(ls: Seq<(Seq<char>, Seq<char>)>, i: int) -> Option<
    (u16, Seq<char>),
>
    decreases ls.len() - i,
{
    if i < 0 || i >= ls.len() {
        None
    } else {
        match location_problem(ls[i]) {
            Some(e) => Some(e),
            None => location_problem_from(ls, i + 1),
        }
    }
}

/// Whether entry `i` repeats the short name of an earlier entry.
pub open spec fn repeats_earlier(ls: Seq<(Seq<char>, Seq<char>)>, i: int) -> bool {
    exists|j: int| 0 <= j < i && (#[trigger] ls[j]).0 == ls[i].0
}

/// The short name of the first entry at or after `i` that repeats an earlier
/// one.
pub open spec fn duplicate_from(ls: Seq<(Seq<char>, Seq<char>)>, i: int) -> Option<Seq<char>>
    decreases ls.len() - i,
{
    if i < 0 || i >= ls.len() {
        None
    } else if repeats_earlier(ls, i) {
        Some(ls[i].0)
    } else {
        duplicate_from(ls, i + 1)
    }
}

/// What `validate_locations` decides: the size cap, then each entry in
/// order, then uniqueness of short names.
pub open spec fn locations_verdict(ls: Seq<(Seq<char>, Seq<char>)>) -> Result<
    (),
    (u16, Seq<char>),
> {
    if ls.len() > MAX_LOCATIONS {
        bad("at most 200 locations are allowed"@)
    } else {
        match location_problem_from(ls, 0) {
            Some(e) => Err(e),
            None => match duplicate_from(ls, 0) {
                Some(name) => bad("duplicate location '"@ + name + "'"@),
                None => Ok(()),
            },
        }
    }
}

/// Validates a replacement location mapping. An empty list is allowed: it
/// means nothing is selectable yet.
pub fn validate_locations(locations: &[HikeLocation]) -> (r: Result<(), Invalid>)
    ensures
        verdict_of(r) == locations_verdict(location_views(locations@)),
{
    let ghost ls = location_views(locations@);
    assert(ls.len() == locations@.len());
    if locations.len() > MAX_LOCATIONS {
        return Err(bad_request(String::from_str("at most 200 locations are allowed")));
    }
    let mut i: usize = 0;
    while i < locations.len()
        invariant
            ls == location_views(locations@),
            ls.len() == locations@.len(),
            locations.len() <= MAX_LOCATIONS,
            0 <= i <= locations.len(),
            location_problem_from(ls, 0) == location_problem_from(ls, i as int),
        decreases locations.len() - i,
    {
        let location = &locations[i];
        assert(ls[i as int] == location@);
        validate_slug(location.short_name.as_str())?;
        if blank(location.full_name.as_str()) {
            return Err(
                bad_request(
                    concat3("location '", location.short_name.as_str(), "' needs a display name"),
                ),
            );
        }
        if char_count(location.full_name.as_str()) > MAX_NAME_LEN {
            return Err(
                bad_request(String::from_str("display names must be at most 100 characters")),
            );
        }
        i = i + 1;
    }
    let mut i: usize = 0;
    while i < locations.len()
        invariant
            ls == location_views(locations@),
            ls.len() == locations@.len(),
            locations.len() <= MAX_LOCATIONS,
            location_problem_from(ls, 0) is None,
            0 <= i <= locations.len(),
            duplicate_from(ls, 0) == duplicate_from(ls, i as int),
        decreases locations.len() - i,
    {
        let mut j: usize = 0;
        while j < i
            invariant
                ls == location_views(locations@),
                ls.len() == locations@.len(),
                locations.len() <= MAX_LOCATIONS,
                location_problem_from(ls, 0) is None,
                duplicate_from(ls, 0) == duplicate_from(ls, i as int),
                0 <= j <= i < locations.len(),
                forall|k: int| 0 <= k < j ==> (#[trigger] ls[k]).0 != ls[i as int].0,
            decreases i - j,
        {
            if locations[j].short_name == locations[i].short_name {
                assert(ls[j as int].0 == ls[i as int].0);
                assert(repeats_earlier(ls, i as int));
                return Err(
                    bad_request(concat3("duplicate location '", locations[i].short_name.as_str(), "'")),
                );
            }
            j = j + 1;
        }
        assert(!repeats_earlier(ls, i as int));
        i = i + 1;
    }
    Ok(())
}

// ---------------------------------------------------------------- trail maps
/// The part of `s` before the first `c`, or all of `s` when it holds none.
pub open spec fn before_char(s: Seq<char>, c: char) -> Seq<char>
    decreases s.len(),
{
    if s.len() == 0 {
        s
    } else if s[0] == c {
        Seq::empty()
    } else {
        seq![s[0]] + before_char(s.drop_first(), c)
    }
}

/// Whether a declared content type names PNG: its part before any `;`,
/// trimmed, equals `image/png` up to ASCII case. No declared type is not PNG.
pub open spec fn is_png_type(content_type: Option<Seq<char>>) -> bool {
    match content_type {
        None => false,
        Some(t) => eq_ignore_ascii_case(trimmed(before_char(t, ';')), "image/png"@),
    }
}

/// What `validate_map_upload` decides for an upload of `len` bytes.
pub open spec fn map_upload_verdict(content_type: Option<Seq<char>>, len: nat) -> Result<
    (),
    (u16, Seq<char>),
> {
    if !is_png_type(content_type) {
        Err((415u16, "trail maps must be image/png"@))
    } else if len == 0 {
        bad("trail map is empty"@)
    } else if len > MAX_MAP_BYTES {
        Err((413u16, "trail map must be at most 5 MB"@))
    } else {
        Ok(())
    }
}

proof fn lemma_before_char_at(s: Seq<char>, c: char, i: int)
    requires
        0 <= i <= s.len(),
        forall|k: int| 0 <= k < i ==> #[trigger] s[k] != c,
        i == s.len() || s[i] == c,
    ensures
        before_char(s, c) == s.take(i),
    decreases i,
{
    if i == 0 {
        if s.len() == 0 {
            assert(s.take(0) =~= s);
        } else {
            assert(s.take(0) =~= Seq::<char>::empty());
        }
    } else {
        let t = s.drop_first();
        assert(s[0] != c);
        assert forall|k: int| 0 <= k < i - 1 implies #[trigger] t[k] != c by {
            assert(t[k] == s[k + 1]);
        }
        lemma_before_char_at(t, c, i - 1);
        assert(seq![s[0]] + t.take(i - 1) =~= s.take(i));
    }
}

/// Whether a declared content type names PNG.
fn content_type_is_png(content_type: &str) -> (b: bool)
    ensures
        b == is_png_type(Some(content_type@)),
{
    let chars = chars_of(content_type);
    let mut k: usize = 0;
    while k < chars.len() && chars[k] != ';'
        invariant
            chars@ == content_type@,
            0 <= k <= chars.len(),
            forall|m: int| 0 <= m < k ==> #[trigger] chars@[m] != ';',
        decreases chars.len() - k,
    {
        k = k + 1;
    }
    proof {
        lemma_before_char_at(chars@, ';', k as int);
        assert(chars@.take(k as int) =~= chars@.subrange(0, k as int));
    }
    let (a, b) = trim_range(&chars, 0, k);
    let png = chars_of("image/png");
    range_eq_ignore_ascii_case(&chars, a, b, &png)
}

/// Validates a trail map upload: 415 for the wrong type, 400 for an empty
/// body, 413 for more than [`MAX_MAP_BYTES`]. Parameters after a `;` in the
/// content type are ignored, as is ASCII case.
pub fn validate_map_upload(content_type: Option<&str>, len: usize) -> (r: Result<(), Invalid>)
    ensures
        verdict_of(r) == map_upload_verdict(
            match content_type {
                Some(t) => Some(t@),
                None => None,
            },
            len as nat,
        ),
{
    let is_png = match content_type {
        Some(t) => content_type_is_png(t),
        None => false,
    };
    if !is_png {
        return Err(
            Invalid { status: 415, message: String::from_str("trail maps must be image/png") },
        );
    }
    if len == 0 {
        return Err(bad_request(String::from_str("trail map is empty")));
    }
    if len > MAX_MAP_BYTES {
        return Err(Invalid { status: 413, message: String::from_str("trail map must be at most 5 MB") });
    }
    Ok(())
}

} // verus!
