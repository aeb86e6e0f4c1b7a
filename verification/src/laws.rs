//! Properties the library promises as a whole: what the slug rules accept,
//! how the derived keys relate to each other, and what an accepted location
//! list looks like.
use vstd::prelude::*;

use crate::handlers::{is_put, Action};
use crate::listing::{is_orphan, is_orphan_report, lists_map, lists_record, summary_of, lemma_record_key_is_not_map_key, map_slug_of, no_slash, record_slug_of};
use crate::models::{map_key, record_key, HikeRecord, LOCATIONS_KEY};
use crate::text::{is_blank, is_space, trim_end, trim_start, trimmed};
use crate::validate::{
    all_slug_chars, byte_len, duplicate_from, has_hyphen_fault, is_known, is_slug_char,
    known_slug_verdict, location_problem, location_problem_from, locations_verdict,
    repeats_earlier, slug_verdict, stored_trails, trail_problem, trail_problem_from, trails_verdict,
    MAX_LOCATIONS, MAX_NAME_LEN, MAX_SLUG_LEN, MAX_TRAILS,
};

verus! {

// ---------------------------------------------------------------- the pattern
/// A lowercase letter or a digit.
pub open spec fn is_alnum(c: char) -> bool {
    is_slug_char(c) && c != '-'
}

/// Whether `s` matches `[a-z0-9]+(-[a-z0-9]+)*`: an alphanumeric, then what
/// may follow one.
pub open spec fn in_slug_pattern(s: Seq<char>) -> bool
    decreases s.len(), 1int,
{
    s.len() > 0 && is_alnum(s[0]) && after_alnum(s.drop_first())
}

/// What may follow an alphanumeric in the pattern: nothing, another
/// alphanumeric and what may follow it, or `-` and a fresh match.
pub open spec fn after_alnum(t: Seq<char>) -> bool
    decreases t.len(), 0int,
{
    if t.len() == 0 {
        true
    } else {
        (is_alnum(t[0]) && after_alnum(t.drop_first())) || (t[0] == '-' && in_slug_pattern(
            t.drop_first(),
        ))
    }
}

/// Whether `s` holds `--`.
pub open spec fn has_double_hyphen(s: Seq<char>) -> bool {
    exists|i: int| 0 <= i < s.len() - 1 && #[trigger] s[i] == '-' && s[i + 1] == '-'
}

/// Slug characters only, not ending in `-`, no `--`.
pub open spec fn clean(t: Seq<char>) -> bool {
    &&& all_slug_chars(t)
    &&& t.len() > 0 ==> t.last() != '-'
    &&& !has_double_hyphen(t)
}

proof fn lemma_clean_cons(s: Seq<char>)
    requires
        s.len() > 0,
    ensures
        clean(s) == {
            &&& is_slug_char(s[0])
            &&& clean(s.drop_first())
            &&& s.len() == 1 ==> s[0] != '-'
            &&& s.len() > 1 ==> !(s[0] == '-' && s[1] == '-')
        },
{
    let t = s.drop_first();
    assert forall|i: int| 0 <= i < t.len() implies #[trigger] t[i] == s[i + 1] by {}
    if clean(s) {
        assert forall|i: int| 0 <= i < t.len() implies is_slug_char(#[trigger] t[i]) by {
            assert(is_slug_char(s[i + 1]));
        }
        if t.len() > 0 {
            assert(t.last() == s.last());
        }
        if has_double_hyphen(t) {
            let i = choose|i: int| 0 <= i < t.len() - 1 && #[trigger] t[i] == '-' && t[i + 1] == '-';
            assert(s[i + 1] == '-' && s[i + 2] == '-');
        }
    }
    if is_slug_char(s[0]) && clean(t) && (s.len() == 1 ==> s[0] != '-') && (s.len() > 1 ==> !(s[0]
        == '-' && s[1] == '-')) {
        assert forall|i: int| 0 <= i < s.len() implies is_slug_char(#[trigger] s[i]) by {
            if i > 0 {
                assert(s[i] == t[i - 1]);
            }
        }
        if s.len() > 1 {
            assert(s.last() == t.last());
        }
        if has_double_hyphen(s) {
            let i = choose|i: int| 0 <= i < s.len() - 1 && #[trigger] s[i] == '-' && s[i + 1] == '-';
            if i > 0 {
                assert(t[i - 1] == '-' && t[i] == '-');
            }
        }
    }
}

proof fn lemma_pattern_is_clean(s: Seq<char>)
    ensures
        in_slug_pattern(s) == (s.len() > 0 && s[0] != '-' && clean(s)),
        after_alnum(s) == clean(s),
    decreases s.len(),
{
    if s.len() > 0 {
        let t = s.drop_first();
        lemma_pattern_is_clean(t);
        lemma_clean_cons(s);
        if t.len() > 0 {
            assert(t[0] == s[1]);
        }
    }
}

/// The slug rules are the pattern `^[a-z0-9]+(-[a-z0-9]+)*$` with a length
/// of at most [`MAX_SLUG_LEN`] bytes: a slug is accepted exactly when it
/// matches.
pub proof fn slug_rules_are_the_pattern(s: Seq<char>)
    ensures
        (slug_verdict(s) is Ok) == (in_slug_pattern(s) && byte_len(s) <= MAX_SLUG_LEN),
{
    lemma_pattern_is_clean(s);
    if s.len() > 0 {
        if all_slug_chars(s) && !has_hyphen_fault(s) {
            assert(!has_double_hyphen(s));
        }
        if s[0] != '-' && clean(s) {
            assert(!has_hyphen_fault(s));
        }
    }
}

/// An accepted slug cannot escape its key prefix: it holds no `/`, no `.`,
/// no space, no capital and nothing outside ASCII, and its byte length is
/// its character count.
pub proof fn accepted_slug_is_plain(s: Seq<char>)
    requires
        slug_verdict(s) is Ok,
    ensures
        forall|i: int|
            0 <= i < s.len() ==> {
                &&& #[trigger] s[i] != '/'
                &&& s[i] != '.'
                &&& s[i] != ' '
                &&& !('A' <= s[i] && s[i] <= 'Z')
                &&& s[i] <= '\u{7f}'
            },
        byte_len(s) == s.len(),
{
    assert forall|i: int| 0 <= i < s.len() implies {
        &&& #[trigger] s[i] != '/'
        &&& s[i] != '.'
        &&& s[i] != ' '
        &&& !('A' <= s[i] && s[i] <= 'Z')
        &&& s[i] <= '\u{7f}'
    } by {
        assert(is_slug_char(s[i]));
    }
    assert(vstd::utf8::is_ascii_chars(s));
    vstd::utf8::is_ascii_chars_encode_utf8(s);
}

// ---------------------------------------------------------------- keys
/// The key of `slug`'s record is `hikes/{slug}.json`, and reading it back
/// gives `slug`; likewise for the map key. Neither is read as the other
/// kind.
pub proof fn derived_keys_read_back(slug: Seq<char>)
    requires
        slug.len() > 0,
        no_slash(slug),
    ensures
        record_slug_of(record_key(slug)) == Some(slug),
        map_slug_of(map_key(slug)) == Some(slug),
        map_slug_of(record_key(slug)) is None,
        record_slug_of(map_key(slug)) is None,
{
    reveal_strlit("hikes/");
    reveal_strlit(".json");
    reveal_strlit("/map.png");
    let r = record_key(slug);
    let m = map_key(slug);
    assert(r.take(6) =~= "hikes/"@);
    assert(r.skip(r.len() - 5) =~= ".json"@);
    assert(r.subrange(6, r.len() - 5) =~= slug);
    assert(m.take(6) =~= "hikes/"@);
    assert(m.skip(m.len() - 8) =~= "/map.png"@);
    assert(m.subrange(6, m.len() - 8) =~= slug);
    lemma_record_key_is_not_map_key(r);
    lemma_record_key_is_not_map_key(m);
}

/// No record key of an accepted slug is a map key, of any slug: the two
/// share the `hikes/` prefix and must not be mistaken for each other.
pub proof fn record_key_is_never_a_map_key(a: Seq<char>, b: Seq<char>)
    requires
        slug_verdict(a) is Ok,
    ensures
        record_key(a) != map_key(b),
{
    reveal_strlit("hikes/");
    reveal_strlit(".json");
    reveal_strlit("/map.png");
    accepted_slug_is_plain(a);
    let r = record_key(a);
    let m = map_key(b);
    if r == m {
        assert(r.len() == 11 + a.len());
        assert(m.len() == 14 + b.len());
        let k: int = 6 + b.len() as int;
        assert(m[k] == '/');
        assert(r[k] == a[b.len() as int]);
    }
}

/// Distinct slugs have distinct record keys and distinct map keys, so one
/// location's writes never land on another's objects.
pub proof fn derived_keys_are_injective(a: Seq<char>, b: Seq<char>)
    requires
        a != b,
    ensures
        record_key(a) != record_key(b),
        map_key(a) != map_key(b),
{
    if record_key(a) == record_key(b) {
        assert(record_key(a).subrange(
            "hikes/"@.len() as int,
            record_key(a).len() - ".json"@.len(),
        ) =~= a);
        assert(record_key(b).subrange(
            "hikes/"@.len() as int,
            record_key(b).len() - ".json"@.len(),
        ) =~= b);
    }
    if map_key(a) == map_key(b) {
        assert(map_key(a).subrange(
            "hikes/"@.len() as int,
            map_key(a).len() - "/map.png"@.len(),
        ) =~= a);
        assert(map_key(b).subrange(
            "hikes/"@.len() as int,
            map_key(b).len() - "/map.png"@.len(),
        ) =~= b);
    }
}

/// The location mapping's key is neither a record key nor a map key, so
/// replacing the mapping never touches a hike's objects: removing a
/// location orphans them rather than deleting them.
pub proof fn locations_key_is_no_hike_key(s: Seq<char>)
    ensures
        record_key(s) != LOCATIONS_KEY@,
        map_key(s) != LOCATIONS_KEY@,
{
    reveal_strlit("hikes/");
    reveal_strlit("resources/hike-locations.json");
    assert(record_key(s)[0] == 'h');
    assert(map_key(s)[0] == 'h');
    assert(LOCATIONS_KEY@[0] == 'r');
}

// ---------------------------------------------------------------- locations
/// A slug accepted for writing is well-formed and names a location.
pub proof fn known_slug_is_valid_and_listed(slug: Seq<char>, locations: Seq<(Seq<char>, Seq<char>)>)
    requires
        known_slug_verdict(slug, locations) is Ok,
    ensures
        slug_verdict(slug) is Ok,
        is_known(slug, locations),
{
}

/// Adding a location is what makes it schedulable: once a well-formed slug
/// is in the mapping, writes for it pass the known-location check.
pub proof fn adding_a_location_makes_it_writable(
    locations: Seq<(Seq<char>, Seq<char>)>,
    slug: Seq<char>,
    full_name: Seq<char>,
)
    requires
        slug_verdict(slug) is Ok,
    ensures
        known_slug_verdict(slug, locations.push((slug, full_name))) is Ok,
{
    let ls = locations.push((slug, full_name));
    assert(ls[locations.len() as int].0 == slug);
}

/// Whether a location entry is acceptable on its own.
pub open spec fn entry_ok(l: (Seq<char>, Seq<char>)) -> bool {
    &&& slug_verdict(l.0) is Ok
    &&& !is_blank(l.1)
    &&& l.1.len() <= MAX_NAME_LEN
}

proof fn lemma_problem_from_none(ls: Seq<(Seq<char>, Seq<char>)>, i: int)
    requires
        0 <= i <= ls.len(),
    ensures
        (location_problem_from(ls, i) is None) == (forall|k: int|
            i <= k < ls.len() ==> entry_ok(#[trigger] ls[k])),
    decreases ls.len() - i,
{
    if i < ls.len() {
        lemma_problem_from_none(ls, i + 1);
        assert((location_problem(ls[i]) is None) == entry_ok(ls[i]));
        if forall|k: int| i <= k < ls.len() ==> entry_ok(#[trigger] ls[k]) {
            assert(entry_ok(ls[i]));
        }
    }
}

proof fn lemma_duplicate_from_none(ls: Seq<(Seq<char>, Seq<char>)>, i: int)
    requires
        0 <= i <= ls.len(),
    ensures
        (duplicate_from(ls, i) is None) == (forall|k: int|
            i <= k < ls.len() ==> !repeats_earlier(ls, k)),
    decreases ls.len() - i,
{
    if i < ls.len() {
        lemma_duplicate_from_none(ls, i + 1);
    }
}

/// An accepted location list holds at most [`MAX_LOCATIONS`] entries, each a
/// well-formed slug with a non-blank display name of at most
/// [`MAX_NAME_LEN`] characters, and no short name twice; and every such
/// list is accepted, the empty one included.
pub proof fn accepted_location_lists(ls: Seq<(Seq<char>, Seq<char>)>)
    ensures
        (locations_verdict(ls) is Ok) == {
            &&& ls.len() <= MAX_LOCATIONS
            &&& forall|k: int| 0 <= k < ls.len() ==> entry_ok(#[trigger] ls[k])
            &&& forall|j: int, k: int| 0 <= j < k < ls.len() ==> (#[trigger] ls[j]).0 != (
            #[trigger] ls[k]).0
        },
{
    lemma_problem_from_none(ls, 0);
    lemma_duplicate_from_none(ls, 0);
    if forall|k: int| 0 <= k < ls.len() ==> !repeats_earlier(ls, k) {
        assert forall|j: int, k: int| 0 <= j < k < ls.len() implies (#[trigger] ls[j]).0 != (
        #[trigger] ls[k]).0 by {
            if ls[j].0 == ls[k].0 {
                assert(repeats_earlier(ls, k));
            }
        }
    }
    if forall|j: int, k: int| 0 <= j < k < ls.len() ==> (#[trigger] ls[j]).0 != (
    #[trigger] ls[k]).0 {
        assert forall|k: int| 0 <= k < ls.len() implies !repeats_earlier(ls, k) by {
            if repeats_earlier(ls, k) {
                let j = choose|j: int| 0 <= j < k && (#[trigger] ls[j]).0 == ls[k].0;
                assert(ls[j].0 != ls[k].0);
            }
        }
    }
}

// ---------------------------------------------------------------- trails
proof fn lemma_trim_start_shape(s: Seq<char>)
    ensures
        trim_start(s).len() <= s.len(),
        trim_start(s) == s.skip(s.len() - trim_start(s).len()),
        trim_start(s).len() > 0 ==> !is_space(trim_start(s)[0]),
    decreases s.len(),
{
    if s.len() > 0 && is_space(s[0]) {
        lemma_trim_start_shape(s.drop_first());
        assert(s.drop_first().skip(s.drop_first().len() - trim_start(s).len()) =~= s.skip(
            s.len() - trim_start(s).len(),
        ));
    } else {
        assert(s.skip(0) =~= s);
    }
}

proof fn lemma_trim_end_shape(s: Seq<char>)
    ensures
        trim_end(s).len() <= s.len(),
        trim_end(s) == s.take(trim_end(s).len() as int),
        trim_end(s).len() > 0 ==> !is_space(trim_end(s).last()),
    decreases s.len(),
{
    if s.len() > 0 && is_space(s.last()) {
        lemma_trim_end_shape(s.drop_last());
        assert(s.drop_last().take(trim_end(s).len() as int) =~= s.take(trim_end(s).len() as int));
    } else {
        assert(s.take(s.len() as int) =~= s);
    }
}

/// What trimming leaves has no whitespace at either end and is no longer
/// than what it was cut from.
pub proof fn trimmed_has_no_outer_space(s: Seq<char>)
    ensures
        trimmed(s).len() <= s.len(),
        trimmed(s).len() > 0 ==> !is_space(trimmed(s)[0]) && !is_space(trimmed(s).last()),
{
    lemma_trim_start_shape(s);
    let a = trim_start(s);
    lemma_trim_end_shape(a);
    if trimmed(s).len() > 0 {
        assert(trimmed(s)[0] == a[0]);
    }
}

proof fn lemma_trim_start_cuts_space(s: Seq<char>)
    ensures
        forall|k: int| 0 <= k < s.len() - trim_start(s).len() ==> is_space(#[trigger] s[k]),
    decreases s.len(),
{
    if s.len() > 0 && is_space(s[0]) {
        lemma_trim_start_cuts_space(s.drop_first());
        assert forall|k: int| 0 <= k < s.len() - trim_start(s).len() implies is_space(
            #[trigger] s[k],
        ) by {
            if k > 0 {
                assert(s[k] == s.drop_first()[k - 1]);
            }
        }
    }
}

proof fn lemma_trim_end_cuts_space(s: Seq<char>)
    ensures
        forall|k: int| trim_end(s).len() <= k < s.len() ==> is_space(#[trigger] s[k]),
    decreases s.len(),
{
    lemma_trim_end_shape(s);
    if s.len() > 0 && is_space(s.last()) {
        lemma_trim_end_cuts_space(s.drop_last());
        assert forall|k: int| trim_end(s).len() <= k < s.len() implies is_space(#[trigger] s[k]) by {
            if k < s.len() - 1 {
                assert(s[k] == s.drop_last()[k]);
            }
        }
    }
}

/// Whitespace is exactly Unicode's White_Space property: the code points
/// U+0009 to U+000D, U+0020, U+0085, U+00A0, U+1680, U+2000 to U+200A,
/// U+2028, U+2029, U+202F, U+205F and U+3000, and no other character. No
/// letter, digit or punctuation mark is whitespace.
pub proof fn whitespace_is_unicode_white_space(c: char)
    ensures
        is_space(c) <==> {
            let u = c as u32;
            ||| u == 0x09 || u == 0x0a || u == 0x0b || u == 0x0c || u == 0x0d
            ||| u == 0x20 || u == 0x85 || u == 0xa0 || u == 0x1680
            ||| u == 0x2000 || u == 0x2001 || u == 0x2002 || u == 0x2003 || u == 0x2004
            ||| u == 0x2005 || u == 0x2006 || u == 0x2007 || u == 0x2008 || u == 0x2009
            ||| u == 0x200a || u == 0x2028 || u == 0x2029 || u == 0x202f || u == 0x205f
            ||| u == 0x3000
        },
        0x21 <= (c as u32) <= 0x7e ==> !is_space(c),
{
}

/// Trimming keeps the text between its outer whitespace: what is left is a
/// contiguous part of `s`, everything cut before or after it is whitespace,
/// and what is left neither starts nor ends with whitespace.
pub proof fn trimming_cuts_only_outer_whitespace(s: Seq<char>)
    ensures
        exists|a: int, b: int|
            {
                &&& 0 <= a <= b <= s.len()
                &&& trimmed(s) == s.subrange(a, b)
                &&& forall|k: int| 0 <= k < a ==> is_space(#[trigger] s[k])
                &&& forall|k: int| b <= k < s.len() ==> is_space(#[trigger] s[k])
                &&& a < b ==> !is_space(s[a]) && !is_space(s[b - 1])
            },
{
    lemma_trim_start_shape(s);
    lemma_trim_start_cuts_space(s);
    let t = trim_start(s);
    lemma_trim_end_shape(t);
    lemma_trim_end_cuts_space(t);
    let a = s.len() - t.len();
    let b = a + trim_end(t).len();
    assert(trimmed(s) =~= s.subrange(a, b));
    assert forall|k: int| b <= k < s.len() implies is_space(#[trigger] s[k]) by {
        assert(s[k] == t[k - a]);
    }
    if a < b {
        assert(s[a] == t[0]);
        assert(s[b - 1] == trim_end(t).last());
    }
}

/// Text whose first and last characters are visible ASCII (U+0021 to
/// U+007E: letters, digits and punctuation) is stored exactly as given:
/// trimming leaves it whole.
pub proof fn trimming_keeps_text_with_visible_ends(s: Seq<char>)
    requires
        s.len() > 0,
        0x21 <= (s[0] as u32) <= 0x7e,
        0x21 <= (s.last() as u32) <= 0x7e,
    ensures
        trimmed(s) == s,
{
    assert(!is_space(s[0]));
    assert(trim_start(s) == s);
    assert(!is_space(s.last()));
    assert(trim_end(s) == s);
}

/// Text holding a character that is not whitespace is not blank.
proof fn lemma_not_blank(t: Seq<char>, j: int)
    requires
        0 <= j < t.len(),
        !is_space(t[j]),
    ensures
        !is_blank(t),
{
    lemma_trim_start_shape(t);
    lemma_trim_start_cuts_space(t);
    let u = trim_start(t);
    if u.len() == 0 {
        assert(is_space(t[j]));
    } else {
        lemma_trim_end_cuts_space(u);
        if trim_end(u).len() == 0 {
            assert(is_space(u[0]));
        }
    }
}

proof fn lemma_trail_problem_from_ok(ts: Seq<Seq<char>>, i: int)
    requires
        0 <= i <= ts.len(),
        forall|k: int| 0 <= k < ts.len() ==> trail_problem(#[trigger] ts[k]) is None,
    ensures
        trail_problem_from(ts, i) is None,
    decreases ts.len() - i,
{
    if i < ts.len() {
        assert(trail_problem(ts[i]) is None);
        lemma_trail_problem_from_ok(ts, i + 1);
    }
}

/// Whether `t` holds a character that is not whitespace.
pub open spec fn holds_non_space(t: Seq<char>) -> bool {
    exists|j: int| 0 <= j < t.len() && !is_space(#[trigger] t[j])
}

/// Every trail list of one to [`MAX_TRAILS`] names is accepted when each
/// name holds a character that is not whitespace and is at most
/// [`MAX_NAME_LEN`] characters long: the length limit is on each name, not
/// on the names together.
pub proof fn well_formed_trail_lists_are_accepted(ts: Seq<Seq<char>>)
    requires
        1 <= ts.len() <= MAX_TRAILS,
        forall|k: int| 0 <= k < ts.len() ==> (#[trigger] ts[k]).len() <= MAX_NAME_LEN,
        forall|k: int| 0 <= k < ts.len() ==> holds_non_space(#[trigger] ts[k]),
    ensures
        trails_verdict(ts) is Ok,
{
    assert forall|k: int| 0 <= k < ts.len() implies trail_problem(#[trigger] ts[k]) is None by {
        assert(ts[k].len() <= MAX_NAME_LEN);
        assert(holds_non_space(ts[k]));
        let j = choose|j: int| 0 <= j < ts[k].len() && !is_space(#[trigger] ts[k][j]);
        lemma_not_blank(ts[k], j);
    }
    lemma_trail_problem_from_ok(ts, 0);
}

proof fn lemma_trail_problem_from_none(ts: Seq<Seq<char>>, i: int)
    requires
        0 <= i <= ts.len(),
        trail_problem_from(ts, i) is None,
    ensures
        forall|k: int| i <= k < ts.len() ==> trail_problem(#[trigger] ts[k]) is None,
    decreases ts.len() - i,
{
    if i < ts.len() {
        lemma_trail_problem_from_none(ts, i + 1);
    }
}

/// An accepted trail list holds between one and [`MAX_TRAILS`] names, and
/// each name as stored is non-empty, at most [`MAX_NAME_LEN`] characters, and
/// free of whitespace at either end.
pub proof fn accepted_trails_are_stored_clean(ts: Seq<Seq<char>>)
    requires
        trails_verdict(ts) is Ok,
    ensures
        1 <= stored_trails(ts).len() <= MAX_TRAILS,
        forall|i: int|
            0 <= i < stored_trails(ts).len() ==> {
                let t = #[trigger] stored_trails(ts)[i];
                &&& 0 < t.len() <= MAX_NAME_LEN
                &&& !is_space(t[0])
                &&& !is_space(t.last())
            },
{
    lemma_trail_problem_from_none(ts, 0);
    assert forall|i: int| 0 <= i < stored_trails(ts).len() implies {
        let t = #[trigger] stored_trails(ts)[i];
        &&& 0 < t.len() <= MAX_NAME_LEN
        &&& !is_space(t[0])
        &&& !is_space(t.last())
    } by {
        assert(trail_problem(ts[i]) is None);
        trimmed_has_no_outer_space(ts[i]);
    }
}

// ---------------------------------------------------------------- the bucket

/// The bucket, as stored bytes and content type under each key, after the
/// runtime performs `a`: a put stores, a delete removes, anything else
/// leaves it as it was.
pub open spec fn bucket_after(
    bucket: Map<Seq<char>, (Seq<u8>, Seq<char>)>,
    a: Action,
) -> Map<Seq<char>, (Seq<u8>, Seq<char>)> {
    match a {
        Action::Put { key, body, content_type } => bucket.insert(key@, (body@, content_type@)),
        Action::Delete { key } => bucket.remove(key@),
        _ => bucket,
    }
}

/// Rescheduling overwrites in place. Scheduling writes the encoded record
/// under the slug's record key and nowhere else, so a second schedule for
/// the same slug leaves the bucket exactly as that second schedule alone
/// would: the record key holds the second record, and no key is added
/// beyond the record key itself.
pub proof fn rescheduling_overwrites_in_place(
    bucket: Map<Seq<char>, (Seq<u8>, Seq<char>)>,
    slug: Seq<char>,
    first: Action,
    first_bytes: Seq<u8>,
    second: Action,
    second_bytes: Seq<u8>,
)
    requires
        is_put(first, record_key(slug), first_bytes, "application/json"@),
        is_put(second, record_key(slug), second_bytes, "application/json"@),
    ensures
        bucket_after(bucket_after(bucket, first), second) == bucket_after(bucket, second),
        bucket_after(bucket_after(bucket, first), second).dom() == bucket.dom().insert(
            record_key(slug),
        ),
        bucket_after(bucket_after(bucket, first), second)[record_key(slug)] == (
            second_bytes,
            "application/json"@,
        ),
        forall|k: Seq<char>|
            k != record_key(slug) && #[trigger] bucket.contains_key(k) ==> bucket_after(
                bucket_after(bucket, first),
                second,
            )[k] == bucket[k],
{
    assert(bucket_after(bucket_after(bucket, first), second) =~= bucket_after(bucket, second));
    assert(bucket_after(bucket, second).dom() =~= bucket.dom().insert(record_key(slug)));
}

// ---------------------------------------------------------------- membership

/// Every location of the mapping is writable, wherever it stands in the
/// list: a well-formed slug that some entry names passes the known-location
/// check.
pub proof fn every_listed_location_is_writable(
    slug: Seq<char>,
    locations: Seq<(Seq<char>, Seq<char>)>,
    i: int,
)
    requires
        0 <= i < locations.len(),
        locations[i].0 == slug,
        slug_verdict(slug) is Ok,
    ensures
        known_slug_verdict(slug, locations) is Ok,
{
    assert(is_known(slug, locations));
}

/// A well-formed slug that no entry of the mapping names is refused with
/// 400, naming the slug.
pub proof fn unlisted_slugs_are_refused(slug: Seq<char>, locations: Seq<(Seq<char>, Seq<char>)>)
    requires
        slug_verdict(slug) is Ok,
        forall|i: int| 0 <= i < locations.len() ==> (#[trigger] locations[i]).0 != slug,
    ensures
        known_slug_verdict(slug, locations) == Err::<(), (u16, Seq<char>)>(
            (400u16, "unknown location '"@ + slug + "' — add it under Locations first"@),
        ),
{
}

/// No location of the mapping, at any position in it, is reported as
/// orphaned.
pub proof fn listed_locations_are_never_orphans(
    rows: Seq<(Seq<char>, bool, bool)>,
    keys: Seq<Seq<char>>,
    locations: Seq<(Seq<char>, Seq<char>)>,
)
    requires
        is_orphan_report(rows, keys, locations),
    ensures
        forall|k: int, i: int|
            0 <= k < rows.len() && 0 <= i < locations.len() ==> (#[trigger] rows[k]).0 != (
            #[trigger] locations[i]).0,
{
    assert forall|k: int, i: int|
        0 <= k < rows.len() && 0 <= i < locations.len() implies (#[trigger] rows[k]).0 != (
        #[trigger] locations[i]).0 by {
        assert(!is_known(rows[k].0, locations));
    }
}

/// A slug with a stored record or map that no entry of the mapping names is
/// reported as orphaned.
pub proof fn unlisted_slugs_with_objects_are_orphans(
    rows: Seq<(Seq<char>, bool, bool)>,
    keys: Seq<Seq<char>>,
    locations: Seq<(Seq<char>, Seq<char>)>,
    slug: Seq<char>,
)
    requires
        is_orphan_report(rows, keys, locations),
        lists_record(keys, slug) || lists_map(keys, slug),
        forall|i: int| 0 <= i < locations.len() ==> (#[trigger] locations[i]).0 != slug,
    ensures
        exists|k: int| 0 <= k < rows.len() && (#[trigger] rows[k]).0 == slug,
{
    assert(!is_known(slug, locations));
    assert(is_orphan(keys, locations, slug));
}

// ---------------------------------------------------------------- summaries

/// A summary row shows its location's names and map flag, is scheduled
/// exactly when a record was found, and then carries that record's first
/// trail (none when it lists none); without a record it carries no trail.
pub proof fn summary_rows_carry_the_first_trail(
    location: (Seq<char>, Seq<char>),
    has_map: bool,
    record: HikeRecord,
)
    ensures
        summary_of(location, has_map, Some(record)) == (
            location.0,
            location.1,
            true,
            has_map,
            if record.trails@.len() > 0 {
                Some(record.trails@[0]@)
            } else {
                None
            },
        ),
        summary_of(location, has_map, None) == (location.0, location.1, false, has_map, None::<Seq<char>>),
{
}

} // verus!
