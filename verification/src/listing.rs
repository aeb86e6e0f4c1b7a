//! What a listing of `hikes/` says about each slug: which keys name a record
//! or a map, the summary row of a known location, and the slugs whose
//! objects no location claims.
use vstd::prelude::*;

use crate::models::{location_views, texts, HikeLocation, HikeRecord, HikeSummary, OrphanedObject};
use crate::text::{chars_of, seq_lt, str_lt, same_text};
use crate::validate::is_known;

verus! {

/// Whether `s` holds no `/`.
pub open spec fn no_slash(s: Seq<char>) -> bool {
    forall|i: int| 0 <= i < s.len() ==> #[trigger] s[i] != '/'
}

/// The slug whose hike record `key` is, if it is one: `key` is
/// `hikes/{s}.json` for a non-empty `s` without `/`.
pub open spec fn record_slug_of(key: Seq<char>) -> Option<Seq<char>> {
    let lo = "hikes/"@.len() as int;
    let hi = key.len() - ".json"@.len();
    if lo < hi && key.take(lo) == "hikes/"@ && key.skip(hi) == ".json"@ && no_slash(
        key.subrange(lo, hi),
    ) {
        Some(key.subrange(lo, hi))
    } else {
        None
    }
}

/// The slug whose trail map `key` is, if it is one: `key` is
/// `hikes/{s}/map.png` for a non-empty `s` without `/`.
pub open spec fn map_slug_of(key: Seq<char>) -> Option<Seq<char>> {
    let lo = "hikes/"@.len() as int;
    let hi = key.len() - "/map.png"@.len();
    if lo < hi && key.take(lo) == "hikes/"@ && key.skip(hi) == "/map.png"@ && no_slash(
        key.subrange(lo, hi),
    ) {
        Some(key.subrange(lo, hi))
    } else {
        None
    }
}

/// Whether some key of `keys` is `slug`'s record.
pub open spec fn lists_record(keys: Seq<Seq<char>>, slug: Seq<char>) -> bool {
    exists|i: int| 0 <= i < keys.len() && record_slug_of(#[trigger] keys[i]) == Some(slug)
}

/// Whether some key of `keys` is `slug`'s trail map.
pub open spec fn lists_map(keys: Seq<Seq<char>>, slug: Seq<char>) -> bool {
    exists|i: int| 0 <= i < keys.len() && map_slug_of(#[trigger] keys[i]) == Some(slug)
}

/// Whether `slug` has a stored record or map but no entry in `locations`.
pub open spec fn is_orphan(
    keys: Seq<Seq<char>>,
    locations: Seq<(Seq<char>, Seq<char>)>,
    slug: Seq<char>,
) -> bool {
    &&& lists_record(keys, slug) || lists_map(keys, slug)
    &&& !is_known(slug, locations)
}

/// The abstract content of an orphan row: (slug, has record, has map).
impl View for OrphanedObject {
    type V = (Seq<char>, bool, bool);

    open spec fn view(&self) -> (Seq<char>, bool, bool) {
        (self.slug@, self.has_record, self.has_map)
    }
}

/// The abstract content of a list of orphan rows.
pub open spec fn orphan_views(v: Seq<OrphanedObject>) -> Seq<(Seq<char>, bool, bool)> {
    v.map_values(|o: OrphanedObject| o@)
}

/// Whether `rows` is the orphan report for `keys` and `locations`: one row
/// per orphaned slug, in strictly increasing slug order, each flagging which
/// of its objects are present.
pub open spec fn is_orphan_report(
    rows: Seq<(Seq<char>, bool, bool)>,
    keys: Seq<Seq<char>>,
    locations: Seq<(Seq<char>, Seq<char>)>,
) -> bool {
    &&& forall|i: int, j: int| 0 <= i < j < rows.len() ==> seq_lt(#[trigger] rows[i].0, #[trigger] rows[j].0)
    &&& forall|i: int|
        0 <= i < rows.len() ==> {
            &&& is_orphan(keys, locations, #[trigger] rows[i].0)
            &&& rows[i].1 == lists_record(keys, rows[i].0)
            &&& rows[i].2 == lists_map(keys, rows[i].0)
        }
    &&& forall|s: Seq<char>|
        is_orphan(keys, locations, s) ==> exists|i: int| 0 <= i < rows.len() && (#[trigger] rows[i]).0 == s
}

// ---------------------------------------------------------------- order facts
pub proof fn lemma_seq_lt_irreflexive(a: Seq<char>)
    ensures
        !seq_lt(a, a),
    decreases a.len(),
{
    if a.len() > 0 {
        lemma_seq_lt_irreflexive(a.drop_first());
    }
}

pub proof fn lemma_seq_lt_transitive(a: Seq<char>, b: Seq<char>, c: Seq<char>)
    requires
        seq_lt(a, b),
        seq_lt(b, c),
    ensures
        seq_lt(a, c),
    decreases a.len(),
{
    if a.len() > 0 && b.len() > 0 && c.len() > 0 {
        if (a[0] as u32) == (b[0] as u32) && (b[0] as u32) == (c[0] as u32) {
            lemma_seq_lt_transitive(a.drop_first(), b.drop_first(), c.drop_first());
        }
    }
}

pub proof fn lemma_seq_lt_total(a: Seq<char>, b: Seq<char>)
    requires
        a != b,
    ensures
        seq_lt(a, b) || seq_lt(b, a),
    decreases a.len(),
{
    if a.len() > 0 && b.len() > 0 {
        if (a[0] as u32) == (b[0] as u32) {
            vstd::utf8::char_u32_cast(a[0], a[0] as u32);
            vstd::utf8::char_u32_cast(b[0], b[0] as u32);
            assert(a[0] == b[0]);
            if a.drop_first() == b.drop_first() {
                assert(a =~= seq![a[0]] + a.drop_first());
                assert(b =~= seq![b[0]] + b.drop_first());
            }
            lemma_seq_lt_total(a.drop_first(), b.drop_first());
        }
    } else if a.len() == 0 && b.len() == 0 {
        assert(a =~= b);
    }
}

pub proof fn lemma_seq_lt_asymmetric(a: Seq<char>, b: Seq<char>)
    requires
        seq_lt(a, b),
    ensures
        !seq_lt(b, a),
{
    if seq_lt(b, a) {
        lemma_seq_lt_transitive(a, b, a);
        lemma_seq_lt_irreflexive(a);
    }
}

// ---------------------------------------------------------------- key parsing
/// Whether the characters `chars[lo..lo + p.len()]` are `p`.
fn has_at(chars: &Vec<char>, lo: usize, p: &Vec<char>) -> (r: bool)
    requires
        lo + p.len() <= chars.len(),
    ensures
        r == (chars@.subrange(lo as int, lo + p.len()) == p@),
{
    let mut i: usize = 0;
    while i < p.len()
        invariant
            lo + p.len() <= chars.len(),
            0 <= i <= p.len(),
            forall|k: int| 0 <= k < i ==> chars@[lo + k] == #[trigger] p@[k],
        decreases p.len() - i,
    {
        if chars[lo + i] != p[i] {
            assert(chars@.subrange(lo as int, lo + p.len())[i as int] != p@[i as int]);
            return false;
        }
        i = i + 1;
    }
    assert(chars@.subrange(lo as int, lo + p.len()) =~= p@);
    true
}

/// The slug between `hikes/` and `suffix` in `chars`, if `chars` has that
/// shape and the slug is non-empty and free of `/`.
fn slug_between(chars: &Vec<char>, prefix: &Vec<char>, suffix: &Vec<char>) -> (r: Option<
    (usize, usize),
>)
    ensures
        match r {
            Some((lo, hi)) => {
                &&& lo == prefix.len()
                &&& hi == chars.len() - suffix.len()
                &&& lo < hi <= chars.len()
                &&& chars@.take(lo as int) == prefix@
                &&& chars@.skip(hi as int) == suffix@
                &&& no_slash(chars@.subrange(lo as int, hi as int))
            },
            None => !{
                let lo = prefix@.len() as int;
                let hi = chars@.len() - suffix@.len();
                &&& lo < hi
                &&& chars@.take(lo) == prefix@
                &&& chars@.skip(hi) == suffix@
                &&& no_slash(chars@.subrange(lo, hi))
            },
        },
{
    if chars.len() < suffix.len() || chars.len() - suffix.len() <= prefix.len() {
        return None;
    }
    let lo = prefix.len();
    let hi = chars.len() - suffix.len();
    let starts = has_at(chars, 0, prefix);
    let ends = has_at(chars, hi, suffix);
    assert(chars@.subrange(0, lo as int) =~= chars@.take(lo as int));
    assert(chars@.subrange(hi as int, hi + suffix.len()) =~= chars@.skip(hi as int));
    if !starts || !ends {
        return None;
    }
    let mut i = lo;
    while i < hi
        invariant
            lo <= i <= hi <= chars.len(),
            lo == prefix.len(),
            hi == chars.len() - suffix.len(),
            forall|k: int| lo <= k < i ==> #[trigger] chars@[k] != '/',
        decreases hi - i,
    {
        if chars[i] == '/' {
            assert(chars@.subrange(lo as int, hi as int)[i - lo] == '/');
            return None;
        }
        i = i + 1;
    }
    assert forall|k: int| 0 <= k < hi - lo implies #[trigger] chars@.subrange(
        lo as int,
        hi as int,
    )[k] != '/' by {
        assert(chars@.subrange(lo as int, hi as int)[k] == chars@[lo + k]);
    }
    Some((lo, hi))
}

/// No key is both a record key and a map key: one ends in `n`, the other in
/// `g`.
pub proof fn lemma_record_key_is_not_map_key(key: Seq<char>)
    ensures
        record_slug_of(key) is None || map_slug_of(key) is None,
{
    reveal_strlit(".json");
    reveal_strlit("/map.png");
    reveal_strlit("hikes/");
    if record_slug_of(key) is Some && map_slug_of(key) is Some {
        let j = key.skip(key.len() - 5);
        let m = key.skip(key.len() - 8);
        assert(j[4] == key[key.len() - 1]);
        assert(m[7] == key[key.len() - 1]);
        assert(j[4] == 'n');
        assert(m[7] == 'g');
    }
}

/// What a listed key is: the record or the map of some slug, or neither.
pub enum KeyKind {
    RecordOf(String),
    MapOf(String),
    Other,
}

/// Classifies `key` as a record key, a map key, or neither.
pub fn classify_key(key: &str) -> (k: KeyKind)
    ensures
        match k {
            KeyKind::RecordOf(s) => record_slug_of(key@) == Some(s@) && map_slug_of(key@) is None,
            KeyKind::MapOf(s) => map_slug_of(key@) == Some(s@) && record_slug_of(key@) is None,
            KeyKind::Other => record_slug_of(key@) is None && map_slug_of(key@) is None,
        },
{
    proof {
        lemma_record_key_is_not_map_key(key@);
    }
    let chars = chars_of(key);
    let prefix = chars_of("hikes/");
    let json = chars_of(".json");
    let png = chars_of("/map.png");
    match slug_between(&chars, &prefix, &json) {
        Some((lo, hi)) => {
            return KeyKind::RecordOf(key.substring_char(lo, hi).to_owned());
        },
        None => {},
    }
    match slug_between(&chars, &prefix, &png) {
        Some((lo, hi)) => KeyKind::MapOf(key.substring_char(lo, hi).to_owned()),
        None => KeyKind::Other,
    }
}

// ---------------------------------------------------------------- orphans
/// The slugs that have stored objects under `hikes/` (as `keys` lists them)
/// but no entry in `locations`, sorted, each with a flag for a record and for
/// a map.
pub fn find_orphans(keys: &Vec<String>, locations: &[HikeLocation]) -> (rows: Vec<OrphanedObject>)
    ensures
        is_orphan_report(orphan_views(rows@), texts(keys@), location_views(locations@)),
{
    let ghost ks = texts(keys@);
    let ghost ls = location_views(locations@);
    let mut rows: Vec<OrphanedObject> = Vec::new();
    let mut i: usize = 0;
    assert(ks.len() == keys.len());
    while i < keys.len()
        invariant
            ks == texts(keys@),
            ks.len() == keys.len(),
            ls == location_views(locations@),
            0 <= i <= keys.len(),
            is_orphan_report(orphan_views(rows@), ks.take(i as int), ls),
        decreases keys.len() - i,
    {
        let kind = classify_key(keys[i].as_str());
        let ghost before = orphan_views(rows@);
        assert(ks[i as int] == keys@[i as int]@);
        let (slug, is_record) = match kind {
            KeyKind::RecordOf(s) => (Some(s), true),
            KeyKind::MapOf(s) => (Some(s), false),
            KeyKind::Other => (None, false),
        };
        match slug {
            None => {
                proof {
                    lemma_report_extend_other(before, ks, ls, i as int);
                }
            },
            Some(s) => {
                if known_slug(s.as_str(), locations) {
                    proof {
                        lemma_report_extend_known(before, ks, ls, i as int, s@);
                    }
                } else {
                    insert_orphan(&mut rows, s, is_record, Ghost(ks), Ghost(ls), Ghost(i as int));
                }
            },
        }
        i = i + 1;
    }
    assert(ks.take(keys.len() as int) =~= ks);
    rows
}

/// Whether `slug` names an entry of `locations`.
fn known_slug(slug: &str, locations: &[HikeLocation]) -> (r: bool)
    ensures
        r == is_known(slug@, location_views(locations@)),
{
    let ghost ls = location_views(locations@);
    let mut i: usize = 0;
    while i < locations.len()
        invariant
            ls == location_views(locations@),
            0 <= i <= locations.len(),
            forall|k: int| 0 <= k < i ==> (#[trigger] ls[k]).0 != slug@,
        decreases locations.len() - i,
    {
        if same_text(locations[i].short_name.as_str(), slug) {
            assert(ls[i as int].0 == slug@);
            return true;
        }
        i = i + 1;
    }
    false
}

proof fn lemma_report_extend_other(
    rows: Seq<(Seq<char>, bool, bool)>,
    ks: Seq<Seq<char>>,
    ls: Seq<(Seq<char>, Seq<char>)>,
    i: int,
)
    requires
        0 <= i < ks.len(),
        record_slug_of(ks[i]) is None,
        map_slug_of(ks[i]) is None,
        is_orphan_report(rows, ks.take(i), ls),
    ensures
        is_orphan_report(rows, ks.take(i + 1), ls),
{
    lemma_listing_extend(ks, i);
    lemma_report_unchanged(rows, ks, ls, i, Seq::empty());
}

proof fn lemma_report_extend_known(
    rows: Seq<(Seq<char>, bool, bool)>,
    ks: Seq<Seq<char>>,
    ls: Seq<(Seq<char>, Seq<char>)>,
    i: int,
    s: Seq<char>,
)
    requires
        0 <= i < ks.len(),
        record_slug_of(ks[i]) is Some ==> record_slug_of(ks[i]) == Some(s),
        map_slug_of(ks[i]) is Some ==> map_slug_of(ks[i]) == Some(s),
        is_known(s, ls),
        is_orphan_report(rows, ks.take(i), ls),
    ensures
        is_orphan_report(rows, ks.take(i + 1), ls),
{
    lemma_listing_extend(ks, i);
    lemma_report_unchanged(rows, ks, ls, i, s);
}

/// A key that names nothing, or names a known location, leaves the report
/// as it was.
proof fn lemma_report_unchanged(
    rows: Seq<(Seq<char>, bool, bool)>,
    ks: Seq<Seq<char>>,
    ls: Seq<(Seq<char>, Seq<char>)>,
    i: int,
    s: Seq<char>,
)
    requires
        0 <= i < ks.len(),
        record_slug_of(ks[i]) is Some ==> record_slug_of(ks[i]) == Some(s) && is_known(s, ls),
        map_slug_of(ks[i]) is Some ==> map_slug_of(ks[i]) == Some(s) && is_known(s, ls),
        is_orphan_report(rows, ks.take(i), ls),
        forall|t: Seq<char>|
            lists_record(ks.take(i + 1), t) == (lists_record(ks.take(i), t) || record_slug_of(ks[i])
                == Some(t)),
        forall|t: Seq<char>|
            lists_map(ks.take(i + 1), t) == (lists_map(ks.take(i), t) || map_slug_of(ks[i]) == Some(
                t,
            )),
    ensures
        is_orphan_report(rows, ks.take(i + 1), ls),
{
    let a = ks.take(i);
    let b = ks.take(i + 1);
    assert forall|t: Seq<char>| !is_known(t, ls) implies lists_record(b, t) == lists_record(a, t)
        && lists_map(b, t) == lists_map(a, t) by {
        if record_slug_of(ks[i]) == Some(t) {
            assert(t == s);
        }
        if map_slug_of(ks[i]) == Some(t) {
            assert(t == s);
        }
    }
    assert forall|x: int| 0 <= x < rows.len() implies {
        &&& is_orphan(b, ls, #[trigger] rows[x].0)
        &&& rows[x].1 == lists_record(b, rows[x].0)
        &&& rows[x].2 == lists_map(b, rows[x].0)
    } by {
        assert(is_orphan(a, ls, rows[x].0));
    }
    assert forall|t: Seq<char>| is_orphan(b, ls, t) implies exists|x: int|
        0 <= x < rows.len() && (#[trigger] rows[x]).0 == t by {
        assert(is_orphan(a, ls, t));
    }
}

/// How the listing predicates change when one more key is taken.
proof fn lemma_listing_extend(ks: Seq<Seq<char>>, i: int)
    requires
        0 <= i < ks.len(),
    ensures
        forall|s: Seq<char>|
            lists_record(ks.take(i + 1), s) == (lists_record(ks.take(i), s) || record_slug_of(ks[i])
                == Some(s)),
        forall|s: Seq<char>|
            lists_map(ks.take(i + 1), s) == (lists_map(ks.take(i), s) || map_slug_of(ks[i]) == Some(
                s,
            )),
{
    let a = ks.take(i);
    let b = ks.take(i + 1);
    assert forall|s: Seq<char>|
        lists_record(b, s) == (lists_record(a, s) || record_slug_of(ks[i]) == Some(s)) by {
        if lists_record(b, s) {
            let j = choose|j: int| 0 <= j < b.len() && record_slug_of(#[trigger] b[j]) == Some(s);
            if j < i {
                assert(a[j] == b[j]);
            }
        }
        if lists_record(a, s) {
            let j = choose|j: int| 0 <= j < a.len() && record_slug_of(#[trigger] a[j]) == Some(s);
            assert(a[j] == b[j]);
        }
        if record_slug_of(ks[i]) == Some(s) {
            assert(b[i] == ks[i]);
        }
    }
    assert forall|s: Seq<char>|
        lists_map(b, s) == (lists_map(a, s) || map_slug_of(ks[i]) == Some(s)) by {
        if lists_map(b, s) {
            let j = choose|j: int| 0 <= j < b.len() && map_slug_of(#[trigger] b[j]) == Some(s);
            if j < i {
                assert(a[j] == b[j]);
            }
        }
        if lists_map(a, s) {
            let j = choose|j: int| 0 <= j < a.len() && map_slug_of(#[trigger] a[j]) == Some(s);
            assert(a[j] == b[j]);
        }
        if map_slug_of(ks[i]) == Some(s) {
            assert(b[i] == ks[i]);
        }
    }
}

/// Records in `rows` that `slug` has a record (or a map, when `is_record` is
/// false), inserting its row at its place in slug order if it has none.
fn insert_orphan(
    rows: &mut Vec<OrphanedObject>,
    slug: String,
    is_record: bool,
    Ghost(ks): Ghost<Seq<Seq<char>>>,
    Ghost(ls): Ghost<Seq<(Seq<char>, Seq<char>)>>,
    Ghost(i): Ghost<int>,
)
    requires
        0 <= i < ks.len(),
        is_record ==> record_slug_of(ks[i]) == Some(slug@) && map_slug_of(ks[i]) is None,
        !is_record ==> map_slug_of(ks[i]) == Some(slug@) && record_slug_of(ks[i]) is None,
        !is_known(slug@, ls),
        is_orphan_report(orphan_views(old(rows)@), ks.take(i), ls),
    ensures
        is_orphan_report(orphan_views(final(rows)@), ks.take(i + 1), ls),
{
    proof {
        lemma_listing_extend(ks, i);
    }
    let ghost old_rows = orphan_views(rows@);
    let ghost s = slug@;
    // The first row whose slug does not sort before `slug`.
    let mut p: usize = 0;
    while p < rows.len() && str_lt(rows[p].slug.as_str(), slug.as_str())
        invariant
            old_rows == orphan_views(rows@),
            old_rows.len() == rows@.len(),
            s == slug@,
            0 <= p <= rows.len(),
            forall|k: int| 0 <= k < p ==> seq_lt(#[trigger] old_rows[k].0, s),
        decreases rows.len() - p,
    {
        assert(old_rows[p as int] == rows@[p as int]@);
        p = p + 1;
    }
    assert(old_rows.len() == rows@.len());
    if p < rows.len() && same_text(rows[p].slug.as_str(), slug.as_str()) {
        assert(old_rows[p as int] == rows@[p as int]@);
        let row = OrphanedObject {
            slug: slug,
            has_record: rows[p].has_record || is_record,
            has_map: rows[p].has_map || !is_record,
        };
        rows.set(p, row);
        proof {
            assert(orphan_views(rows@) =~= old_rows.update(
                p as int,
                (s, old_rows[p as int].1 || is_record, old_rows[p as int].2 || !is_record),
            ));
            lemma_update_report(old_rows, orphan_views(rows@), ks, ls, i, p as int, s, is_record);
        }
    } else {
        proof {
            if p < old_rows.len() {
                assert(old_rows[p as int] == rows@[p as int]@);
                assert(!seq_lt(old_rows[p as int].0, s));
                lemma_seq_lt_total(old_rows[p as int].0, s);
            }
        }
        let row = OrphanedObject { slug: slug, has_record: is_record, has_map: !is_record };
        rows.insert(p, row);
        proof {
            assert(orphan_views(rows@) =~= old_rows.insert(p as int, (s, is_record, !is_record)));
            lemma_insert_report(old_rows, orphan_views(rows@), ks, ls, i, p as int, s, is_record);
        }
    }
}

proof fn lemma_update_report(
    old_rows: Seq<(Seq<char>, bool, bool)>,
    rows: Seq<(Seq<char>, bool, bool)>,
    ks: Seq<Seq<char>>,
    ls: Seq<(Seq<char>, Seq<char>)>,
    i: int,
    p: int,
    s: Seq<char>,
    is_record: bool,
)
    requires
        0 <= i < ks.len(),
        0 <= p < old_rows.len(),
        old_rows[p].0 == s,
        rows == old_rows.update(p, (s, old_rows[p].1 || is_record, old_rows[p].2 || !is_record)),
        is_record ==> record_slug_of(ks[i]) == Some(s) && map_slug_of(ks[i]) is None,
        !is_record ==> map_slug_of(ks[i]) == Some(s) && record_slug_of(ks[i]) is None,
        is_orphan_report(old_rows, ks.take(i), ls),
        forall|t: Seq<char>|
            lists_record(ks.take(i + 1), t) == (lists_record(ks.take(i), t) || record_slug_of(ks[i])
                == Some(t)),
        forall|t: Seq<char>|
            lists_map(ks.take(i + 1), t) == (lists_map(ks.take(i), t) || map_slug_of(ks[i]) == Some(
                t,
            )),
    ensures
        is_orphan_report(rows, ks.take(i + 1), ls),
{
    let a = ks.take(i);
    let b = ks.take(i + 1);
    assert forall|x: int, y: int| 0 <= x < y < rows.len() implies seq_lt(
        #[trigger] rows[x].0,
        #[trigger] rows[y].0,
    ) by {
        assert(rows[x].0 == old_rows[x].0);
        assert(rows[y].0 == old_rows[y].0);
    }
    assert forall|x: int| 0 <= x < rows.len() implies {
        &&& is_orphan(b, ls, #[trigger] rows[x].0)
        &&& rows[x].1 == lists_record(b, rows[x].0)
        &&& rows[x].2 == lists_map(b, rows[x].0)
    } by {
        assert(is_orphan(a, ls, old_rows[x].0));
        if x != p {
            assert(rows[x] == old_rows[x]);
            if record_slug_of(ks[i]) == Some(rows[x].0) || map_slug_of(ks[i]) == Some(rows[x].0) {
                assert(rows[x].0 == s);
                lemma_seq_lt_irreflexive(s);
                if x < p {
                    assert(seq_lt(old_rows[x].0, old_rows[p].0));
                } else {
                    assert(seq_lt(old_rows[p].0, old_rows[x].0));
                }
            }
        }
    }
    assert forall|t: Seq<char>| is_orphan(b, ls, t) implies exists|x: int|
        0 <= x < rows.len() && (#[trigger] rows[x]).0 == t by {
        if t == s {
            assert(rows[p].0 == t);
        } else {
            assert(is_orphan(a, ls, t));
            let x = choose|x: int| 0 <= x < old_rows.len() && (#[trigger] old_rows[x]).0 == t;
            assert(rows[x].0 == t);
        }
    }
}

proof fn lemma_insert_report(
    old_rows: Seq<(Seq<char>, bool, bool)>,
    rows: Seq<(Seq<char>, bool, bool)>,
    ks: Seq<Seq<char>>,
    ls: Seq<(Seq<char>, Seq<char>)>,
    i: int,
    p: int,
    s: Seq<char>,
    is_record: bool,
)
    requires
        0 <= i < ks.len(),
        0 <= p <= old_rows.len(),
        forall|k: int| 0 <= k < p ==> seq_lt(#[trigger] old_rows[k].0, s),
        p < old_rows.len() ==> seq_lt(s, old_rows[p].0),
        rows == old_rows.insert(p, (s, is_record, !is_record)),
        is_record ==> record_slug_of(ks[i]) == Some(s) && map_slug_of(ks[i]) is None,
        !is_record ==> map_slug_of(ks[i]) == Some(s) && record_slug_of(ks[i]) is None,
        !is_known(s, ls),
        is_orphan_report(old_rows, ks.take(i), ls),
        forall|t: Seq<char>|
            lists_record(ks.take(i + 1), t) == (lists_record(ks.take(i), t) || record_slug_of(ks[i])
                == Some(t)),
        forall|t: Seq<char>|
            lists_map(ks.take(i + 1), t) == (lists_map(ks.take(i), t) || map_slug_of(ks[i]) == Some(
                t,
            )),
    ensures
        is_orphan_report(rows, ks.take(i + 1), ls),
{
    let a = ks.take(i);
    let b = ks.take(i + 1);
    // `s` had no row before: every row before `p` sorts below it, every row
    // from `p` on sorts above it.
    assert forall|x: int| 0 <= x < old_rows.len() implies #[trigger] old_rows[x].0 != s by {
        if x < p {
            lemma_seq_lt_irreflexive(s);
        } else {
            if x > p {
                lemma_seq_lt_transitive(s, old_rows[p].0, old_rows[x].0);
            }
            lemma_seq_lt_irreflexive(s);
        }
    }
    assert(!lists_record(a, s) && !lists_map(a, s)) by {
        if lists_record(a, s) || lists_map(a, s) {
            assert(is_orphan(a, ls, s));
            let x = choose|x: int| 0 <= x < old_rows.len() && (#[trigger] old_rows[x]).0 == s;
        }
    }
    assert forall|x: int, y: int| 0 <= x < y < rows.len() implies seq_lt(
        #[trigger] rows[x].0,
        #[trigger] rows[y].0,
    ) by {
        if y < p {
            assert(rows[x] == old_rows[x] && rows[y] == old_rows[y]);
        } else if y == p {
            assert(rows[x] == old_rows[x]);
        } else if x < p {
            assert(rows[x] == old_rows[x] && rows[y] == old_rows[y - 1]);
            lemma_seq_lt_transitive(old_rows[x].0, s, old_rows[p].0);
            if y - 1 > p {
                lemma_seq_lt_transitive(old_rows[x].0, old_rows[p].0, old_rows[y - 1].0);
            }
        } else if x == p {
            assert(rows[y] == old_rows[y - 1]);
            if y - 1 > p {
                lemma_seq_lt_transitive(s, old_rows[p].0, old_rows[y - 1].0);
            }
        } else {
            assert(rows[x] == old_rows[x - 1] && rows[y] == old_rows[y - 1]);
        }
    }
    assert forall|x: int| 0 <= x < rows.len() implies {
        &&& is_orphan(b, ls, #[trigger] rows[x].0)
        &&& rows[x].1 == lists_record(b, rows[x].0)
        &&& rows[x].2 == lists_map(b, rows[x].0)
    } by {
        if x == p {
            assert(rows[x] == (s, is_record, !is_record));
        } else {
            let y = if x < p {
                x
            } else {
                x - 1
            };
            assert(rows[x] == old_rows[y]);
            assert(old_rows[y].0 != s);
            assert(is_orphan(a, ls, old_rows[y].0));
        }
    }
    assert forall|t: Seq<char>| is_orphan(b, ls, t) implies exists|x: int|
        0 <= x < rows.len() && (#[trigger] rows[x]).0 == t by {
        if t == s {
            assert(rows[p].0 == t);
        } else {
            assert(is_orphan(a, ls, t));
            let x = choose|x: int| 0 <= x < old_rows.len() && (#[trigger] old_rows[x]).0 == t;
            if x < p {
                assert(rows[x].0 == t);
            } else {
                assert(rows[x + 1].0 == t);
            }
        }
    }
}

// ---------------------------------------------------------------- summaries
/// The abstract content of a summary row:
/// (short name, full name, scheduled, has map, first trail).
impl View for HikeSummary {
    type V = (Seq<char>, Seq<char>, bool, bool, Option<Seq<char>>);

    open spec fn view(&self) -> (Seq<char>, Seq<char>, bool, bool, Option<Seq<char>>) {
        (
            self.short_name@,
            self.full_name@,
            self.scheduled,
            self.has_map,
            match self.trail {
                Some(t) => Some(t@),
                None => None,
            },
        )
    }
}

/// The first trail of a record, if it lists any.
pub open spec fn first_trail(record: HikeRecord) -> Option<Seq<char>> {
    if record.trails@.len() > 0 {
        Some(record.trails@[0]@)
    } else {
        None
    }
}

/// The summary row of a location, given whether its map is listed and the
/// record found for it.
pub open spec fn summary_of(
    location: (Seq<char>, Seq<char>),
    has_map: bool,
    record: Option<HikeRecord>,
) -> (Seq<char>, Seq<char>, bool, bool, Option<Seq<char>>) {
    (
        location.0,
        location.1,
        record is Some,
        has_map,
        match record {
            Some(r) => first_trail(r),
            None => None,
        },
    )
}

/// The row for `location`: scheduled exactly when a record was found, with
/// that record's first trail.
pub fn summary_row(location: &HikeLocation, has_map: bool, record: Option<&HikeRecord>) -> (row:
    HikeSummary)
    ensures
        row@ == summary_of(
            location@,
            has_map,
            match record {
                Some(r) => Some(*r),
                None => None,
            },
        ),
{
    let trail = match record {
        Some(r) => if r.trails.len() > 0 {
            Some(r.trails[0].clone())
        } else {
            None
        },
        None => None,
    };
    HikeSummary {
        short_name: location.short_name.clone(),
        full_name: location.full_name.clone(),
        scheduled: record.is_some(),
        has_map,
        trail,
    }
}

/// Whether `keys` lists `key`.
pub fn lists_key(keys: &Vec<String>, key: &String) -> (r: bool)
    ensures
        r == texts(keys@).contains(key@),
{
    let ghost ks = texts(keys@);
    assert(ks.len() == keys.len());
    let mut i: usize = 0;
    while i < keys.len()
        invariant
            ks == texts(keys@),
            ks.len() == keys.len(),
            0 <= i <= keys.len(),
            forall|k: int| 0 <= k < i ==> #[trigger] ks[k] != key@,
        decreases keys.len() - i,
    {
        if keys[i] == *key {
            assert(ks[i as int] == key@);
            return true;
        }
        assert(ks[i as int] == keys@[i as int]@);
        i = i + 1;
    }
    false
}

} // verus!
