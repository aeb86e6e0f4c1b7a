use hike_club_admin::listing::{classify_key, find_orphans, lists_key, summary_row, KeyKind};
use hike_club_admin::models::{HikeLocation, HikeRecord, MeetingCoords};
use hike_club_admin::text::{str_lt, trim};

fn loc(short: &str, full: &str) -> HikeLocation {
    HikeLocation { short_name: short.to_string(), full_name: full.to_string() }
}

fn keys(ks: &[&str]) -> Vec<String> {
    ks.iter().map(|k| k.to_string()).collect()
}

#[test]
fn keys_are_read_back_as_their_kind() {
    match classify_key("hikes/cantigny-park.json") {
        KeyKind::RecordOf(s) => assert_eq!(s, "cantigny-park"),
        _ => panic!("a record key"),
    }
    match classify_key("hikes/cantigny-park/map.png") {
        KeyKind::MapOf(s) => assert_eq!(s, "cantigny-park"),
        _ => panic!("a map key"),
    }
    for other in ["hikes/.json", "hikes//map.png", "hikes/a/b.json", "resources/hike-locations.json", "hikes/a.png", "hikes/"] {
        assert!(matches!(classify_key(other), KeyKind::Other), "{other}");
    }
}

#[test]
fn orphans_are_unclaimed_slugs_sorted_with_flags() {
    let listed = keys(&[
        "hikes/zeta.json",
        "hikes/cantigny-park.json",
        "hikes/alpha/map.png",
        "hikes/zeta/map.png",
        "hikes/alpha-b.json",
        "hikes/cantigny-park/map.png",
        "hikes/notes.txt",
    ]);
    let rows = find_orphans(&listed, &[loc("cantigny-park", "Cantigny")]);
    let got: Vec<(String, bool, bool)> =
        rows.into_iter().map(|o| (o.slug, o.has_record, o.has_map)).collect();
    assert_eq!(
        got,
        vec![
            ("alpha".to_string(), false, true),
            ("alpha-b".to_string(), true, false),
            ("zeta".to_string(), true, true),
        ]
    );
}

#[test]
fn no_orphans_when_every_slug_is_claimed() {
    let listed = keys(&["hikes/a.json", "hikes/a/map.png", "hikes/b/map.png"]);
    assert!(find_orphans(&listed, &[loc("a", "A"), loc("b", "B")]).is_empty());
    assert!(find_orphans(&vec![], &[]).is_empty());
}

#[test]
fn summary_rows_carry_the_first_trail() {
    let record = HikeRecord {
        id: "a".to_string(),
        meeting: MeetingCoords { lat_bits: 0, lon_bits: 0 },
        trails: vec!["Purple".to_string(), "Green".to_string()],
        map_key: "hikes/a/map.png".to_string(),
    };
    let row = summary_row(&loc("a", "A"), true, Some(&record));
    assert!(row.scheduled && row.has_map);
    assert_eq!(row.trail.as_deref(), Some("Purple"));
    assert_eq!(row.full_name, "A");
    let row = summary_row(&loc("a", "A"), false, None);
    assert!(!row.scheduled && !row.has_map);
    assert_eq!(row.trail, None);
}

#[test]
fn listed_keys_are_found_exactly() {
    let listed = keys(&["hikes/a.json", "hikes/ab/map.png"]);
    assert!(lists_key(&listed, &"hikes/a.json".to_string()));
    assert!(!lists_key(&listed, &"hikes/a/map.png".to_string()));
}

#[test]
fn text_helpers() {
    assert_eq!(trim("\t a b \u{2028}"), "a b");
    assert_eq!(trim("   "), "");
    assert!(str_lt("a", "a-b"));
    assert!(str_lt("a-b", "a0"));
    assert!(!str_lt("b", "a"));
    assert!(!str_lt("a", "a"));
    assert!(str_lt("", "a"));
}

#[test]
fn derived_keys_do_not_collide() {
    let slugs = ["a", "a-b", "ab", "map"];
    let mut all: Vec<String> = Vec::new();
    for s in slugs {
        all.push(HikeRecord::key(s));
        all.push(HikeRecord::map_key_for(s));
    }
    let mut sorted = all.clone();
    sorted.sort();
    sorted.dedup();
    assert_eq!(sorted.len(), all.len());
    assert!(all.iter().all(|k| k.starts_with("hikes/")));
}
