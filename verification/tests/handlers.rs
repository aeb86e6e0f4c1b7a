//! The handlers driven end to end against an in-memory bucket, with a small
//! JSON codec standing in for the runtime's.
use std::collections::BTreeMap;

use hike_club_admin::handlers::hikes::{DeleteHike, GetHike, PutHike};
use hike_club_admin::handlers::listings::ListHikes;
use hike_club_admin::handlers::locations::{GetLocations, ListOrphans, PutLocations};
use hike_club_admin::handlers::maps::{DeleteMap, GetMap, PutMap};
use hike_club_admin::handlers::paging::{KeyListing, PageStep};
use hike_club_admin::handlers::{Action, Event, Reply};
use hike_club_admin::models::{
    HikeLocation, HikeRecord, HikeRequest, HikeSummary, MeetingCoords, OrphanedObject,
    LOCATIONS_KEY,
};
use hike_club_admin::outcome::Outcome;
use hike_club_admin::validate::{CoordinateCheck, MAX_MAP_BYTES};
use serde_json::Value;

#[derive(Default)]
struct Bucket {
    objects: BTreeMap<String, (Vec<u8>, String)>,
    failing: bool,
    /// Keys per listed page; 0 stands for R2's 1000.
    page_size: usize,
    /// Pages handed out so far.
    pages_listed: usize,
}

impl Bucket {
    fn seeded() -> Bucket {
        let mut b = Bucket::default();
        b.objects.insert(
            LOCATIONS_KEY.to_string(),
            (LOCATIONS.as_bytes().to_vec(), "application/json".to_string()),
        );
        b
    }
    fn failing() -> Bucket {
        Bucket { failing: true, ..Bucket::default() }
    }
    fn keys(&self) -> Vec<String> {
        self.objects.keys().cloned().collect()
    }
    /// One page of the keys under `prefix`, from the position `cursor`
    /// names, and the cursor of the next page while keys remain.
    fn page(&mut self, prefix: &str, cursor: Option<String>) -> (Vec<String>, Option<String>) {
        let size = if self.page_size == 0 { 1000 } else { self.page_size };
        let all: Vec<String> = self.keys().into_iter().filter(|k| k.starts_with(prefix)).collect();
        let from: usize = cursor.map(|c| c.parse().unwrap()).unwrap_or(0);
        let to = (from + size).min(all.len());
        self.pages_listed += 1;
        let next = if to < all.len() { Some(to.to_string()) } else { None };
        (all[from..to].to_vec(), next)
    }
    fn paged(mut self, size: usize) -> Bucket {
        self.page_size = size;
        self
    }
    fn with(mut self, key: &str, body: &str) -> Bucket {
        self.objects
            .insert(key.to_string(), (body.as_bytes().to_vec(), "application/json".to_string()));
        self
    }
}

const LOCATIONS: &str = r#"[
    {"short_name":"cantigny-park","full_name":"Cantigny"},
    {"short_name":"danada-equestrian-center","full_name":"Danada"}
]"#;

const REQUEST: &str = r#"{
    "meeting":{"lat":41.855026,"lon":-88.152169},
    "trails":["Purple"]
}"#;

const PNG: &[u8] = b"\x89PNG\r\n\x1a\nfake-but-png-enough";

fn text(v: &Value) -> Result<String, String> {
    v.as_str().map(|s| s.to_string()).ok_or_else(|| "expected a string".to_string())
}

fn decode_locations(bytes: &[u8]) -> Result<Vec<HikeLocation>, String> {
    let v: Value = serde_json::from_slice(bytes).map_err(|e| e.to_string())?;
    let items = v.as_array().ok_or("expected an array")?;
    items
        .iter()
        .map(|i| {
            Ok(HikeLocation { short_name: text(&i["short_name"])?, full_name: text(&i["full_name"])? })
        })
        .collect()
}

fn encode_locations(ls: &[HikeLocation]) -> Vec<u8> {
    let items: Vec<Value> = ls
        .iter()
        .map(|l| {
            let mut m = serde_json::Map::new();
            m.insert("short_name".to_string(), Value::String(l.short_name.clone()));
            m.insert("full_name".to_string(), Value::String(l.full_name.clone()));
            Value::Object(m)
        })
        .collect();
    serde_json::to_vec(&Value::Array(items)).unwrap()
}

fn trails_of(v: &Value) -> Result<Vec<String>, String> {
    v.as_array().ok_or("expected trails")?.iter().map(text).collect()
}

fn meeting_of(v: &Value) -> Result<(f64, f64), String> {
    let lat = v["lat"].as_f64().ok_or("expected lat")?;
    let lon = v["lon"].as_f64().ok_or("expected lon")?;
    Ok((lat, lon))
}

fn decode_request(bytes: &[u8]) -> Result<(HikeRequest, CoordinateCheck), String> {
    let v: Value = serde_json::from_slice(bytes).map_err(|e| e.to_string())?;
    let obj = v.as_object().ok_or("expected an object")?;
    for k in obj.keys() {
        if k != "meeting" && k != "trails" {
            return Err(format!("unknown field `{k}`"));
        }
    }
    let (lat, lon) = meeting_of(&v["meeting"])?;
    let check = if !lat.is_finite() || !(-90.0..=90.0).contains(&lat) {
        CoordinateCheck::LatitudeOutOfRange
    } else if !lon.is_finite() || !(-180.0..=180.0).contains(&lon) {
        CoordinateCheck::LongitudeOutOfRange
    } else {
        CoordinateCheck::InRange
    };
    let request = HikeRequest {
        meeting: MeetingCoords { lat_bits: lat.to_bits(), lon_bits: lon.to_bits() },
        trails: trails_of(&v["trails"])?,
    };
    Ok((request, check))
}

fn encode_record(r: &HikeRecord) -> Vec<u8> {
    let mut meeting = serde_json::Map::new();
    meeting.insert("lat".to_string(), Value::from(f64::from_bits(r.meeting.lat_bits)));
    meeting.insert("lon".to_string(), Value::from(f64::from_bits(r.meeting.lon_bits)));
    let mut m = serde_json::Map::new();
    m.insert("id".to_string(), Value::String(r.id.clone()));
    m.insert("meeting".to_string(), Value::Object(meeting));
    m.insert(
        "trails".to_string(),
        Value::Array(r.trails.iter().map(|t| Value::String(t.clone())).collect()),
    );
    m.insert("mapKey".to_string(), Value::String(r.map_key.clone()));
    serde_json::to_vec(&Value::Object(m)).unwrap()
}

fn decode_record(bytes: &[u8]) -> Result<HikeRecord, String> {
    let v: Value = serde_json::from_slice(bytes).map_err(|e| e.to_string())?;
    let (lat, lon) = meeting_of(&v["meeting"])?;
    Ok(HikeRecord {
        id: text(&v["id"])?,
        meeting: MeetingCoords { lat_bits: lat.to_bits(), lon_bits: lon.to_bits() },
        trails: trails_of(&v["trails"])?,
        map_key: text(&v["mapKey"])?,
    })
}

/// Performs `action` against `bucket` and the codec.
fn perform(bucket: &mut Bucket, action: Action) -> Result<Event, Reply> {
    Ok(match action {
        Action::Get { key } => Event::Fetched(if bucket.failing {
            Err("r2 unavailable".to_string())
        } else {
            Ok(bucket.objects.get(&key).map(|(b, _)| b.clone()))
        }),
        Action::Put { key, body, content_type } => Event::Stored(if bucket.failing {
            Err("r2 unavailable".to_string())
        } else {
            bucket.objects.insert(key, (body, content_type.to_string()));
            Ok(())
        }),
        Action::Delete { key } => Event::Stored(if bucket.failing {
            Err("r2 unavailable".to_string())
        } else {
            bucket.objects.remove(&key);
            Ok(())
        }),
        Action::ListPage { prefix, cursor } => Event::Listed(if bucket.failing {
            Err("r2 unavailable".to_string())
        } else {
            Ok(bucket.page(&prefix, cursor))
        }),
        Action::DecodeLocations { bytes } => Event::LocationsDecoded(decode_locations(&bytes)),
        Action::DecodeRecord { bytes } => Event::RecordDecoded(decode_record(&bytes)),
        Action::DecodeRequest { bytes } => Event::RequestDecoded(decode_request(&bytes)),
        Action::EncodeRecord { record } => Event::Encoded(Ok(encode_record(&record))),
        Action::EncodeLocations { locations } => Event::Encoded(Ok(encode_locations(&locations))),
        Action::Reply { reply } => return Err(reply),
    })
}

trait Machine: Sized {
    fn step(self, event: Event) -> (Self, Action);
}

impl Machine for GetHike {
    fn step(self, event: Event) -> (Self, Action) {
        self.next(event)
    }
}

impl Machine for PutHike {
    fn step(self, event: Event) -> (Self, Action) {
        self.next(event)
    }
}

impl Machine for DeleteHike {
    fn step(self, event: Event) -> (Self, Action) {
        self.next(event)
    }
}

impl Machine for GetMap {
    fn step(self, event: Event) -> (Self, Action) {
        self.next(event)
    }
}

impl Machine for PutMap {
    fn step(self, event: Event) -> (Self, Action) {
        self.next(event)
    }
}

impl Machine for DeleteMap {
    fn step(self, event: Event) -> (Self, Action) {
        self.next(event)
    }
}

impl Machine for GetLocations {
    fn step(self, event: Event) -> (Self, Action) {
        self.next(event)
    }
}

impl Machine for PutLocations {
    fn step(self, event: Event) -> (Self, Action) {
        self.next(event)
    }
}

impl Machine for ListHikes {
    fn step(self, event: Event) -> (Self, Action) {
        self.next(event)
    }
}

impl Machine for ListOrphans {
    fn step(self, event: Event) -> (Self, Action) {
        self.next(event)
    }
}


fn run<M: Machine>(bucket: &mut Bucket, start: (M, Action)) -> Reply {
    let (mut m, mut action) = start;
    loop {
        match perform(bucket, action) {
            Err(reply) => return reply,
            Ok(event) => {
                let (next, a) = m.step(event);
                m = next;
                action = a;
            }
        }
    }
}

fn outcome(reply: Reply) -> Outcome {
    match reply {
        Reply::Plain(o) => o,
        _ => panic!("expected a plain outcome"),
    }
}

fn status(reply: Reply) -> u16 {
    match reply {
        Reply::Plain(o) => o.status,
        _ => 200,
    }
}

fn error_text(reply: Reply) -> String {
    let o = outcome(reply);
    assert_eq!(o.content_type, "application/json");
    let v: Value = serde_json::from_slice(&o.body).unwrap();
    v["error"].as_str().unwrap().to_string()
}

fn record(reply: Reply) -> HikeRecord {
    match reply {
        Reply::Record(r) => r,
        _ => panic!("expected a record"),
    }
}

fn summaries(reply: Reply) -> Vec<HikeSummary> {
    match reply {
        Reply::Summaries(s) => s,
        _ => panic!("expected summaries"),
    }
}

fn orphans(reply: Reply) -> Vec<OrphanedObject> {
    match reply {
        Reply::Orphans(o) => o,
        _ => panic!("expected orphans"),
    }
}

fn locations(reply: Reply) -> Vec<HikeLocation> {
    match reply {
        Reply::Locations(l) => l,
        _ => panic!("expected locations"),
    }
}

fn put_hike(b: &mut Bucket, slug: &str, body: &str) -> Reply {
    run(b, PutHike::start(slug, body.as_bytes().to_vec()))
}

fn get_hike(b: &mut Bucket, slug: &str) -> Reply {
    run(b, GetHike::start(slug))
}

fn put_map(b: &mut Bucket, slug: &str, ct: Option<&str>, body: &[u8]) -> Reply {
    run(b, PutMap::start(slug, ct.map(|c| c.to_string()), body.to_vec()))
}

fn get_map(b: &mut Bucket, slug: &str) -> Reply {
    run(b, GetMap::start(slug))
}

fn list(b: &mut Bucket) -> Vec<HikeSummary> {
    summaries(run(b, ListHikes::start()))
}

#[test]
fn put_then_get_round_trips_a_hike() {
    let mut b = Bucket::seeded();
    let put = record(put_hike(&mut b, "cantigny-park", REQUEST));
    assert_eq!(put.id, "cantigny-park");
    let got = record(get_hike(&mut b, "cantigny-park"));
    assert_eq!(got.id, "cantigny-park");
    assert_eq!(got.trails, vec!["Purple".to_string()]);
    assert_eq!(f64::from_bits(got.meeting.lat_bits), 41.855026);
}

#[test]
fn put_writes_the_record_to_the_key_the_public_api_reads() {
    let mut b = Bucket::seeded();
    put_hike(&mut b, "cantigny-park", REQUEST);
    let (bytes, ct) = b.objects.get("hikes/cantigny-park.json").unwrap().clone();
    let stored: Value = serde_json::from_slice(&bytes).unwrap();
    assert_eq!(stored["mapKey"], "hikes/cantigny-park/map.png");
    assert_eq!(ct, "application/json");
}

#[test]
fn rescheduling_overwrites_in_place() {
    let mut b = Bucket::seeded();
    put_hike(&mut b, "cantigny-park", REQUEST);
    let later = REQUEST.replace("Purple", "Green");
    put_hike(&mut b, "cantigny-park", &later);
    assert_eq!(b.keys(), vec!["hikes/cantigny-park.json".to_string(), LOCATIONS_KEY.to_string()]);
    let got = record(get_hike(&mut b, "cantigny-park"));
    assert_eq!(got.trails, vec!["Green".to_string()]);
}

#[test]
fn put_rejects_an_unknown_location() {
    let mut b = Bucket::seeded();
    let reply = put_hike(&mut b, "somewhere-else", REQUEST);
    assert!(error_text(reply).contains("unknown location"));
}

/// A slug that could escape its key prefix must never reach the store.
#[test]
fn put_rejects_a_path_traversing_slug_without_writing() {
    let mut b = Bucket::seeded();
    assert_eq!(status(put_hike(&mut b, "../secrets", REQUEST)), 400);
    assert_eq!(b.keys(), vec![LOCATIONS_KEY.to_string()]);
}

#[test]
fn put_rejects_malformed_json() {
    let mut b = Bucket::seeded();
    let reply = put_hike(&mut b, "cantigny-park", "not json");
    assert!(error_text(reply).starts_with("invalid hike JSON: "));
}

#[test]
fn put_rejects_an_invalid_body() {
    let mut b = Bucket::seeded();
    let bad = REQUEST.replace("\"Purple\"", "");
    assert_eq!(status(put_hike(&mut b, "cantigny-park", &bad)), 400);
    let smuggled = REQUEST.replace("\"trails\"", "\"mapKey\":\"x\",\"trails\"");
    assert_eq!(status(put_hike(&mut b, "cantigny-park", &smuggled)), 400);
    let far = REQUEST.replace("41.855026", "91.0");
    assert_eq!(error_text(put_hike(&mut b, "cantigny-park", &far)), "meeting.lat must be between -90 and 90");
    assert_eq!(b.keys(), vec![LOCATIONS_KEY.to_string()]);
}

#[test]
fn get_is_404_for_an_unscheduled_location() {
    let mut b = Bucket::seeded();
    let reply = get_hike(&mut b, "danada-equestrian-center");
    assert_eq!(error_text(reply), "no hike scheduled for 'danada-equestrian-center'");
}

#[test]
fn get_rejects_an_invalid_slug() {
    let mut b = Bucket::seeded();
    assert_eq!(status(get_hike(&mut b, "Not A Slug")), 400);
}

#[test]
fn delete_removes_the_record_and_is_idempotent() {
    let mut b = Bucket::seeded();
    put_hike(&mut b, "cantigny-park", REQUEST);
    let o = outcome(run(&mut b, DeleteHike::start("cantigny-park")));
    assert_eq!(o.status, 204);
    assert!(o.body.is_empty());
    assert_eq!(status(get_hike(&mut b, "cantigny-park")), 404);
    assert_eq!(status(run(&mut b, DeleteHike::start("cantigny-park"))), 204);
}

#[test]
fn delete_rejects_an_invalid_slug() {
    let mut b = Bucket::seeded();
    assert_eq!(status(run(&mut b, DeleteHike::start("../secrets"))), 400);
}

#[test]
fn storage_failures_surface_as_502() {
    let mut b = Bucket::failing();
    assert_eq!(error_text(get_hike(&mut b, "cantigny-park")), "storage error: r2 unavailable");
    assert_eq!(status(put_hike(&mut b, "cantigny-park", REQUEST)), 502);
    assert_eq!(status(run(&mut b, DeleteHike::start("cantigny-park"))), 502);
}

#[test]
fn corrupt_stored_json_is_502_not_a_panic() {
    let mut b = Bucket::seeded().with("hikes/cantigny-park.json", "{oops");
    let text = error_text(get_hike(&mut b, "cantigny-park"));
    assert!(text.starts_with("stored record is not valid JSON: "));
    let mut b = Bucket::seeded().with(LOCATIONS_KEY, "{oops");
    let text = error_text(put_hike(&mut b, "cantigny-park", REQUEST));
    assert!(text.starts_with("stored locations are not valid JSON: "));
}

#[test]
fn a_missing_locations_object_reads_as_empty() {
    let mut b = Bucket::default();
    assert_eq!(status(put_hike(&mut b, "cantigny-park", REQUEST)), 400);
    assert!(b.keys().is_empty());
}

#[test]
fn put_then_get_round_trips_a_map() {
    let mut b = Bucket::seeded();
    assert_eq!(status(put_map(&mut b, "cantigny-park", Some("image/png"), PNG)), 204);
    let got = outcome(get_map(&mut b, "cantigny-park"));
    assert_eq!(got.status, 200);
    assert_eq!(got.content_type, "image/png");
    assert_eq!(got.body, PNG);
}

#[test]
fn put_writes_the_shared_map_key() {
    let mut b = Bucket::seeded();
    put_map(&mut b, "cantigny-park", Some("image/png"), PNG);
    assert_eq!(b.objects["hikes/cantigny-park/map.png"].1, "image/png");
}

#[test]
fn map_and_record_are_independent() {
    let mut b = Bucket::seeded();
    put_hike(&mut b, "cantigny-park", REQUEST);
    put_map(&mut b, "cantigny-park", Some("image/png"), PNG);
    run(&mut b, DeleteHike::start("cantigny-park"));
    assert_eq!(status(get_map(&mut b, "cantigny-park")), 200);
    put_map(&mut b, "cantigny-park", Some("image/png"), b"new");
    assert_eq!(outcome(get_map(&mut b, "cantigny-park")).body, b"new");
    put_hike(&mut b, "cantigny-park", REQUEST);
    assert_eq!(status(run(&mut b, DeleteMap::start("cantigny-park"))), 204);
    assert_eq!(status(get_map(&mut b, "cantigny-park")), 404);
    assert_eq!(status(get_hike(&mut b, "cantigny-park")), 200);
}

#[test]
fn get_map_is_404_when_none_is_uploaded() {
    let mut b = Bucket::seeded();
    assert_eq!(error_text(get_map(&mut b, "cantigny-park")), "no trail map for 'cantigny-park'");
}

#[test]
fn map_endpoints_reject_invalid_slugs() {
    let mut b = Bucket::seeded();
    assert_eq!(status(get_map(&mut b, "../secrets")), 400);
    assert_eq!(status(put_map(&mut b, "../secrets", Some("image/png"), PNG)), 400);
    assert_eq!(status(run(&mut b, DeleteMap::start("../secrets"))), 400);
    assert_eq!(b.keys(), vec![LOCATIONS_KEY.to_string()]);
}

#[test]
fn put_map_rejects_an_unknown_location() {
    let mut b = Bucket::seeded();
    assert_eq!(status(put_map(&mut b, "somewhere-else", Some("image/png"), PNG)), 400);
}

#[test]
fn put_map_rejects_the_wrong_type_and_oversized_bodies() {
    let mut b = Bucket::seeded();
    assert_eq!(status(put_map(&mut b, "cantigny-park", Some("image/jpeg"), PNG)), 415);
    assert_eq!(status(put_map(&mut b, "cantigny-park", None, PNG)), 415);
    let huge = vec![0u8; MAX_MAP_BYTES + 1];
    assert_eq!(status(put_map(&mut b, "cantigny-park", Some("image/png"), &huge)), 413);
    assert_eq!(status(put_map(&mut b, "cantigny-park", Some("image/png"), b"")), 400);
    assert_eq!(b.keys(), vec![LOCATIONS_KEY.to_string()]);
}

#[test]
fn map_storage_failures_surface_as_502() {
    let mut b = Bucket::failing();
    assert_eq!(status(get_map(&mut b, "cantigny-park")), 502);
    assert_eq!(status(put_map(&mut b, "cantigny-park", Some("image/png"), PNG)), 502);
    assert_eq!(status(run(&mut b, DeleteMap::start("cantigny-park"))), 502);
}

/// A map whose location was removed can still be cleared.
#[test]
fn a_stranded_map_can_be_deleted() {
    let mut b = Bucket::default().with("hikes/gone/map.png", "x");
    assert_eq!(status(run(&mut b, DeleteMap::start("gone"))), 204);
    assert!(b.keys().is_empty());
}

#[test]
fn get_locations_returns_the_stored_mapping() {
    let mut b = Bucket::seeded();
    let ls = locations(run(&mut b, GetLocations::start()));
    assert_eq!(ls.len(), 2);
    assert_eq!(ls[0].short_name, "cantigny-park");
}

#[test]
fn get_locations_is_empty_before_anything_is_written() {
    let mut b = Bucket::default();
    assert!(locations(run(&mut b, GetLocations::start())).is_empty());
}

#[test]
fn adding_a_location_makes_it_schedulable() {
    let mut b = Bucket::seeded();
    assert_eq!(status(put_hike(&mut b, "oakhurst", REQUEST)), 400);
    let added = r#"[{"short_name":"oakhurst","full_name":"Oakhurst"}]"#;
    let ls = locations(run(&mut b, PutLocations::start(added.as_bytes().to_vec())));
    assert_eq!(ls[0].full_name, "Oakhurst");
    assert_eq!(status(put_hike(&mut b, "oakhurst", REQUEST)), 200);
}

#[test]
fn put_locations_rejects_invalid_lists() {
    let mut b = Bucket::seeded();
    let reply = run(&mut b, PutLocations::start(b"not json".to_vec()));
    assert!(error_text(reply).starts_with("invalid locations JSON: "));
    let dupes = r#"[{"short_name":"a","full_name":"A"},{"short_name":"a","full_name":"B"}]"#;
    assert_eq!(
        error_text(run(&mut b, PutLocations::start(dupes.as_bytes().to_vec()))),
        "duplicate location 'a'"
    );
    let bad_slug = r#"[{"short_name":"Not A Slug","full_name":"X"}]"#;
    assert_eq!(status(run(&mut b, PutLocations::start(bad_slug.as_bytes().to_vec()))), 400);
    assert_eq!(b.objects[LOCATIONS_KEY].0, LOCATIONS.as_bytes());
}

#[test]
fn removing_a_location_leaves_its_objects_alone() {
    let mut b = Bucket::seeded();
    put_hike(&mut b, "cantigny-park", REQUEST);
    run(&mut b, PutLocations::start(b"[]".to_vec()));
    assert!(list(&mut b).is_empty());
    assert!(b.objects.contains_key("hikes/cantigny-park.json"));
    let rows = orphans(run(&mut b, ListOrphans::start()));
    assert_eq!(rows.len(), 1);
    assert_eq!(rows[0].slug, "cantigny-park");
    assert!(rows[0].has_record && !rows[0].has_map);
    run(&mut b, PutLocations::start(LOCATIONS.as_bytes().to_vec()));
    assert_eq!(status(get_hike(&mut b, "cantigny-park")), 200);
    assert!(orphans(run(&mut b, ListOrphans::start())).is_empty());
}

#[test]
fn list_reports_a_row_per_location_scheduled_or_not() {
    let mut b = Bucket::seeded();
    put_hike(&mut b, "cantigny-park", REQUEST);
    let rows = list(&mut b);
    assert_eq!(rows.len(), 2);
    assert_eq!(rows[0].short_name, "cantigny-park");
    assert!(rows[0].scheduled);
    assert_eq!(rows[1].short_name, "danada-equestrian-center");
    assert!(!rows[1].scheduled);
}

#[test]
fn list_carries_the_first_trail_for_the_blaze() {
    let mut b = Bucket::seeded();
    let two = REQUEST.replace(r#"["Purple"]"#, r#"["Purple","Green"]"#);
    put_hike(&mut b, "cantigny-park", &two);
    let rows = list(&mut b);
    assert_eq!(rows[0].trail.as_deref(), Some("Purple"));
    assert_eq!(rows[1].trail, None);
}

#[test]
fn list_reports_whether_a_map_is_uploaded() {
    let mut b = Bucket::seeded();
    assert!(!list(&mut b)[0].has_map);
    put_map(&mut b, "cantigny-park", Some("image/png"), PNG);
    assert!(list(&mut b)[0].has_map);
}

#[test]
fn a_map_alone_does_not_count_as_a_scheduled_hike() {
    let mut b = Bucket::seeded();
    put_map(&mut b, "cantigny-park", Some("image/png"), PNG);
    let rows = list(&mut b);
    assert!(!rows[0].scheduled);
    assert!(rows[0].has_map);
}

#[test]
fn location_and_list_storage_failures_surface_as_502() {
    let mut b = Bucket::failing();
    assert_eq!(status(run(&mut b, GetLocations::start())), 502);
    assert_eq!(status(run(&mut b, PutLocations::start(b"[]".to_vec()))), 502);
    assert_eq!(status(run(&mut b, ListHikes::start())), 502);
    assert_eq!(status(run(&mut b, ListOrphans::start())), 502);
}

#[test]
fn corrupt_stored_locations_are_502() {
    let mut b = Bucket::default().with(LOCATIONS_KEY, "{oops");
    assert_eq!(status(run(&mut b, GetLocations::start())), 502);
    assert_eq!(status(run(&mut b, ListHikes::start())), 502);
    assert_eq!(status(run(&mut b, ListOrphans::start())), 502);
}

#[test]
fn a_corrupt_record_fails_the_list_rather_than_lying_about_it() {
    let mut b = Bucket::seeded().with("hikes/cantigny-park.json", "{oops");
    assert_eq!(status(run(&mut b, ListHikes::start())), 502);
}

/// The first step of each write reads the mapping, and an error body is
/// exactly the JSON serde would write for `{"error": ...}`.
#[test]
fn error_bodies_are_json_objects_with_one_error_field() {
    let o = Outcome::error(418, "a \"quoted\" \\ line\nbreak".to_string());
    assert_eq!(o.status, 418);
    assert_eq!(o.body, br#"{"error":"a \"quoted\" \\ line\nbreak"}"#.to_vec());
    let o = hike_club_admin::outcome::upstream("boom".to_string());
    assert_eq!(o.body, br#"{"error":"storage error: boom"}"#.to_vec());
}

/// Every escape form serde_json uses: the two backslashed characters, the
/// five short control escapes, a `\u00XX` control, and non-ASCII text copied
/// as its UTF-8 bytes.
#[test]
fn error_messages_are_escaped_as_json_strings() {
    let o = Outcome::error(400, "\"\\\u{8}\t\n\u{c}\r\u{1}\u{1f}é→".to_string());
    let mut expected: Vec<u8> = br#"{"error":""#.to_vec();
    expected.extend_from_slice(br#"\"\\\b\t\n\f\r\u0001\u001f"#);
    expected.extend_from_slice("é→".as_bytes());
    expected.extend_from_slice(br#""}"#);
    assert_eq!(o.body, expected);
}

/// The listing follows the cursor page after page, keeps the keys in the
/// order they came, and ends when a page carries no cursor.
#[test]
fn key_listing_follows_the_cursor_until_it_runs_out() {
    let (listing, step) = KeyListing::start("hikes/");
    assert!(matches!(&step, PageStep::Fetch { prefix, cursor: None } if prefix == "hikes/"));
    let page = |ks: &[&str], c: Option<&str>| {
        Ok((ks.iter().map(|k| k.to_string()).collect::<Vec<_>>(), c.map(|c| c.to_string())))
    };
    let (listing, step) = listing.next(page(&["hikes/a.json", "hikes/a/map.png"], Some("c1")));
    assert!(matches!(&step, PageStep::Fetch { prefix, cursor: Some(c) } if prefix == "hikes/" && c == "c1"));
    let (listing, step) = listing.next(page(&[], Some("c2")));
    assert!(matches!(&step, PageStep::Fetch { cursor: Some(c), .. } if c == "c2"));
    let (_, step) = listing.next(page(&["hikes/b.json"], None));
    match step {
        PageStep::Done(all) => assert_eq!(all, vec!["hikes/a.json", "hikes/a/map.png", "hikes/b.json"]),
        _ => panic!("expected the gathered keys"),
    }
}

/// A storage error on any page ends the listing with that error.
#[test]
fn key_listing_stops_at_a_failed_page() {
    let (listing, _) = KeyListing::start("hikes/");
    let (listing, _) = listing.next(Ok((vec!["hikes/a.json".to_string()], Some("c1".to_string()))));
    let (_, step) = listing.next(Err("r2 unavailable".to_string()));
    assert!(matches!(step, PageStep::Failed(m) if m == "r2 unavailable"));
}

/// With one key per page, the admin list and the orphan report still see
/// every key: nothing past the first page is lost.
#[test]
fn listings_see_keys_past_the_first_page() {
    let mut b = Bucket::seeded().paged(1);
    put_map(&mut b, "danada-equestrian-center", Some("image/png"), PNG);
    put_hike(&mut b, "danada-equestrian-center", REQUEST);
    b.objects.insert("hikes/gone-park.json".to_string(), (b"{}".to_vec(), "application/json".to_string()));
    b.pages_listed = 0;
    let rows = list(&mut b);
    assert_eq!(b.pages_listed, 3);
    assert!(!rows[0].scheduled);
    assert!(rows[1].scheduled && rows[1].has_map);
    assert_eq!(rows[1].trail.as_deref(), Some("Purple"));
    let rows = orphans(run(&mut b, ListOrphans::start()));
    assert_eq!(rows.len(), 1);
    assert_eq!(rows[0].slug, "gone-park");
}
