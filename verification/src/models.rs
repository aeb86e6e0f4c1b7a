//! The stored and exchanged shapes: hike records, location entries, summary
//! rows, orphan rows, error bodies, and the R2 keys objects live under.
use vstd::prelude::*;

use crate::text::concat3;

verus! {

/// Meeting-point coordinates, held as the IEEE-754 bit patterns of the two
/// `f64` values (latitude, longitude). They pass through the library
/// unchanged; their range check is made on the floats by the caller.
#[derive(Debug, Clone, Copy, PartialEq, Eq)]
pub struct MeetingCoords {
    pub lat_bits: u64,
    pub lon_bits: u64,
}

/// The object stored at `hikes/{slug}.json`: the bytes the public API reads.
#[derive(Debug)]
pub struct HikeRecord {
    pub id: String,
    pub meeting: MeetingCoords,
    pub trails: Vec<String>,
    pub map_key: String,
}

/// The body of `PUT /api/hikes/{slug}`. It has no `id` and no `mapKey`: both
/// are derived from the path slug when the record is built.
#[derive(Debug)]
pub struct HikeRequest {
    pub meeting: MeetingCoords,
    pub trails: Vec<String>,
}

/// One entry of the location mapping stored at [`LOCATIONS_KEY`].
#[derive(Debug, Clone)]
pub struct HikeLocation {
    pub short_name: String,
    pub full_name: String,
}

/// R2 key of the location mapping; the public API reads this same key.
pub const LOCATIONS_KEY: &'static str = "resources/hike-locations.json";

/// The prefix under which every hike record and trail map is stored.
pub const HIKES_PREFIX: &'static str = "hikes/";

/// One row of the admin list: a location, plus its hike if one is scheduled.
#[derive(Debug, Clone)]
pub struct HikeSummary {
    pub short_name: String,
    pub full_name: String,
    pub scheduled: bool,
    pub has_map: bool,
    /// The record's first trail, which names the row's blaze colour.
    pub trail: Option<String>,
}

/// A slug with stored objects but no entry in the location mapping.
#[derive(Debug, Clone)]
pub struct OrphanedObject {
    pub slug: String,
    pub has_record: bool,
    pub has_map: bool,
}

/// The body of every non-2xx response.
#[derive(Debug, Clone)]
pub struct ErrorBody {
    pub error: String,
}

/// The abstract content of a location entry: (short name, full name).
impl View for HikeLocation {
    type V = (Seq<char>, Seq<char>);

    open spec fn view(&self) -> (Seq<char>, Seq<char>) {
        (self.short_name@, self.full_name@)
    }
}

/// The abstract content of a record: (id, meeting point, trail names, map key).
impl View for HikeRecord {
    type V = (Seq<char>, MeetingCoords, Seq<Seq<char>>, Seq<char>);

    open spec fn view(&self) -> (Seq<char>, MeetingCoords, Seq<Seq<char>>, Seq<char>) {
        (self.id@, self.meeting, texts(self.trails@), self.map_key@)
    }
}

/// The texts of a list of strings.
pub open spec fn texts(v: Seq<String>) -> Seq<Seq<char>> {
    v.map_values(|s: String| s@)
}

/// The abstract content of a location list.
pub open spec fn location_views(v: Seq<HikeLocation>) -> Seq<(Seq<char>, Seq<char>)> {
    v.map_values(|l: HikeLocation| l@)
}

/// The key of `slug`'s hike record: `hikes/{slug}.json`.
pub open spec fn record_key(slug: Seq<char>) -> Seq<char> {
    "hikes/"@ + slug + ".json"@
}

/// The key of `slug`'s trail map: `hikes/{slug}/map.png`.
pub open spec fn map_key(slug: Seq<char>) -> Seq<char> {
    "hikes/"@ + slug + "/map.png"@
}

impl HikeRecord {
    /// The R2 key a record for `slug` is stored under.
    pub fn key(slug: &str) -> (k: String)
        ensures
            k@ == record_key(slug@),
    {
        concat3("hikes/", slug, ".json")
    }

    /// The R2 key of `slug`'s trail map. The server always derives this; it
    /// is never taken from a request body.
    pub fn map_key_for(slug: &str) -> (k: String)
        ensures
            k@ == map_key(slug@),
    {
        concat3("hikes/", slug, "/map.png")
    }
}

/// A copy of `v`.
pub fn copy_strings(v: &Vec<String>) -> (out: Vec<String>)
    ensures
        texts(out@) == texts(v@),
{
    let mut out: Vec<String> = Vec::new();
    let mut i: usize = 0;
    while i < v.len()
        invariant
            0 <= i <= v.len(),
            out@.len() == i,
            forall|k: int| 0 <= k < i ==> (#[trigger] out@[k])@ == v@[k]@,
        decreases v.len() - i,
    {
        out.push(v[i].clone());
        i = i + 1;
    }
    assert(texts(out@) =~= texts(v@));
    out
}

/// A copy of the location list `v`.
pub fn copy_locations(v: &Vec<HikeLocation>) -> (out: Vec<HikeLocation>)
    ensures
        location_views(out@) == location_views(v@),
{
    let mut out: Vec<HikeLocation> = Vec::new();
    let mut i: usize = 0;
    while i < v.len()
        invariant
            0 <= i <= v.len(),
            out@.len() == i,
            forall|k: int| 0 <= k < i ==> (#[trigger] out@[k])@ == v@[k]@,
        decreases v.len() - i,
    {
        let l = HikeLocation {
            short_name: v[i].short_name.clone(),
            full_name: v[i].full_name.clone(),
        };
        out.push(l);
        i = i + 1;
    }
    assert(location_views(out@) =~= location_views(v@));
    out
}

impl HikeRecord {
    /// A copy of this record.
    pub fn duplicate(&self) -> (r: HikeRecord)
        ensures
            r@ == self@,
    {
        HikeRecord {
            id: self.id.clone(),
            meeting: self.meeting,
            trails: copy_strings(&self.trails),
            map_key: self.map_key.clone(),
        }
    }
}

impl ErrorBody {
    /// The error body carrying `message`.
    pub fn new(message: String) -> (b: Self)
        ensures
            b.error@ == message@,
    {
        ErrorBody { error: message }
    }
}

} // verus!
