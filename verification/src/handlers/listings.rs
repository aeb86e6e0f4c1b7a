//! `GET /api/hikes`: one summary row per known location. A single listing
//! of `hikes/` answers "scheduled?" and "has a map?" for every location, and
//! only the records that exist are fetched.
use vstd::prelude::*;

use super::{
    answers,
    corrupt_locations_message, corrupt_record_message, is_get, is_list_page, on_locations_decoded,
    on_locations_fetched, on_page_step, plain, replies_error, Action, Event, LocationsFetch,
    PageOutcome, Reply,
};
use super::paging::KeyListing;
use crate::listing::{lists_key, summary_of, summary_row};
use crate::models::{
    location_views, map_key, record_key, texts, HikeLocation, HikeRecord, HikeSummary,
    HIKES_PREFIX, LOCATIONS_KEY,
};
use crate::outcome::{storage_message, upstream, Outcome};
use crate::text::concat2;

verus! {

/// Whether a summary row agrees with its location and the listed keys: the
/// location's names, a map flag that says whether the map key is listed,
/// and a hike reported only where the record key is listed.
pub open spec fn row_consistent(
    row: (Seq<char>, Seq<char>, bool, bool, Option<Seq<char>>),
    location: (Seq<char>, Seq<char>),
    keys: Seq<Seq<char>>,
) -> bool {
    &&& row.0 == location.0
    &&& row.1 == location.1
    &&& row.3 == keys.contains(map_key(location.0))
    &&& row.2 ==> keys.contains(record_key(location.0))
    &&& row.4 is Some ==> row.2
}

/// Whether `row` is the row of a location whose record key is not listed:
/// the empty summary, with the map flag read from the listed keys.
pub open spec fn unscheduled_row(
    row: (Seq<char>, Seq<char>, bool, bool, Option<Seq<char>>),
    location: (Seq<char>, Seq<char>),
    keys: Seq<Seq<char>>,
) -> bool {
    &&& !keys.contains(record_key(location.0))
    &&& row == summary_of(location, keys.contains(map_key(location.0)), None)
}

/// Whether `rows` is a complete listing for `locations`: one consistent row
/// per location, in the mapping's order.
pub open spec fn is_hike_listing(
    rows: Seq<HikeSummary>,
    locations: Seq<HikeLocation>,
    keys: Seq<Seq<char>>,
) -> bool {
    &&& rows.len() == locations.len()
    &&& forall|k: int| 0 <= k < rows.len() ==> row_consistent(#[trigger] rows[k]@, locations[k]@, keys)
}

/// Where `GET /api/hikes` stands. `FetchingRecord` and `DecodingRecord` work
/// on the location at index `rows.len()`.
pub enum ListHikesPhase {
    FetchingLocations,
    DecodingLocations,
    Listing,
    FetchingRecord,
    DecodingRecord,
    Done,
}

/// `GET /api/hikes`.
pub struct ListHikes {
    pub locations: Vec<HikeLocation>,
    pub keys: Vec<String>,
    pub rows: Vec<HikeSummary>,
    /// Whether the current location's map is listed.
    pub has_map: bool,
    /// The listing of `hikes/`, page by page.
    pub pages: KeyListing,
    pub phase: ListHikesPhase,
}

/// The rows a step leaves: those replied with, or those still held.
pub open spec fn rows_after(r: (ListHikes, Action)) -> Seq<HikeSummary> {
    match r.1 {
        Action::Reply { reply: Reply::Summaries(v) } => v@,
        _ => r.0.rows@,
    }
}

impl ListHikes {
    /// The rows so far are consistent, and while a record is being read its
    /// location has a listed record key.
    pub open spec fn wf(&self) -> bool {
        &&& self.rows@.len() <= self.locations@.len()
        &&& forall|k: int|
            0 <= k < self.rows@.len() ==> row_consistent(
                #[trigger] self.rows@[k]@,
                self.locations@[k]@,
                texts(self.keys@),
            )
        &&& (self.phase is FetchingRecord || self.phase is DecodingRecord) ==> {
            &&& self.rows@.len() < self.locations@.len()
            &&& self.has_map == texts(self.keys@).contains(
                map_key(self.current()@.0),
            )
            &&& texts(self.keys@).contains(record_key(self.current()@.0))
        }
        &&& (self.phase is FetchingLocations || self.phase is DecodingLocations || self.phase is Listing) ==> self.rows@.len() == 0
        &&& self.phase is Listing ==> self.pages.prefix@ == "hikes/"@
    }

    /// The location being worked on.
    pub open spec fn current(&self) -> HikeLocation {
        self.locations@[self.rows@.len() as int]
    }

    /// The events this handler can take next.
    pub open spec fn accepts(&self, e: Event) -> bool {
        match self.phase {
            ListHikesPhase::FetchingLocations => e is Fetched,
            ListHikesPhase::DecodingLocations => e is LocationsDecoded,
            ListHikesPhase::Listing => e is Listed,
            ListHikesPhase::FetchingRecord => e is Fetched,
            ListHikesPhase::DecodingRecord => e is RecordDecoded,
            ListHikesPhase::Done => false,
        }
    }

    /// What a step that went on from rows `before`, for `locations` and the
    /// listed `keys`, ends in:
    /// the earlier rows kept, and either a fetch of the next listed record
    /// or the complete listing as the answer.
    pub open spec fn continues(
        locations: Seq<HikeLocation>,
        keys: Seq<Seq<char>>,
        before: Seq<HikeSummary>,
        r: (ListHikes, Action),
    ) -> bool {
        &&& r.0.wf()
        &&& location_views(r.0.locations@) == location_views(locations)
        &&& texts(r.0.keys@) == keys
        &&& rows_after(r).len() >= before.len()
        &&& forall|k: int| 0 <= k < before.len() ==> (#[trigger] rows_after(r)[k])@ == before[k]@
        &&& forall|k: int|
            before.len() <= k < rows_after(r).len() ==> unscheduled_row(
                (#[trigger] rows_after(r)[k])@,
                locations[k]@,
                keys,
            )
        &&& match r.1 {
            Action::Reply { reply: Reply::Summaries(v) } => {
                &&& is_hike_listing(v@, locations, keys)
                &&& r.0.phase is Done
            },
            _ => {
                &&& r.0.phase is FetchingRecord
                &&& is_get(r.1, record_key(r.0.current()@.0))
            },
        }
    }

    /// Whether every answer to `a` is an event this handler can take.
    pub open spec fn awaits(&self, a: Action) -> bool {
        forall|e: Event| answers(a, e) ==> self.accepts(e)
    }

    /// Whether the step `r` starts listing `hikes/`, with no row yet.
    pub open spec fn starts_listing(r: (ListHikes, Action)) -> bool {
        &&& is_list_page(r.1, "hikes/"@, None)
        &&& r.0.pages.keys@.len() == 0
        &&& r.0.rows@.len() == 0
        &&& r.0.phase is Listing
    }

    /// The first page of `hikes/`, for `locations`.
    fn list(locations: Vec<HikeLocation>) -> (r: (ListHikes, Action))
        ensures
            Self::starts_listing(r),
            r.0.wf(),
            r.0.locations@ == locations@,
    {
        let (pages, step) = KeyListing::start(HIKES_PREFIX);
        let keys: Vec<String> = Vec::new();
        let rows: Vec<HikeSummary> = Vec::new();
        match on_page_step(step) {
            PageOutcome::Fetch(a) => (
                ListHikes { locations, keys, rows, has_map: false, pages, phase: ListHikesPhase::Listing },
                a,
            ),
            _ => {
                assert(false);
                (
                    ListHikes { locations, keys, rows, has_map: false, pages, phase: ListHikesPhase::Done },
                    plain(Outcome::no_content()),
                )
            },
        }
    }

    pub fn start() -> (r: (ListHikes, Action))
        ensures
            r.1 is Reply || r.0.awaits(r.1),
            r.0.wf(),
            is_get(r.1, LOCATIONS_KEY@),
            r.0.phase is FetchingLocations,
    {
        (
            ListHikes {
                locations: Vec::new(),
                keys: Vec::new(),
                rows: Vec::new(),
                has_map: false,
                pages: KeyListing { prefix: String::new(), keys: Vec::new() },
                phase: ListHikesPhase::FetchingLocations,
            },
            Action::Get { key: String::from_str(LOCATIONS_KEY) },
        )
    }

    /// Adds rows for locations without a listed record until one needs its
    /// record fetched, or answers with the rows once every location has one.
    fn advance(self) -> (r: (ListHikes, Action))
        requires
            self.wf(),
            !(self.phase is FetchingRecord || self.phase is DecodingRecord),
        ensures
            Self::continues(self.locations@, texts(self.keys@), self.rows@, r),
    {
        let ListHikes { locations, keys, mut rows, has_map, pages, phase } = self;
        let ghost ks = texts(keys@);
        let ghost before = rows@;
        while rows.len() < locations.len()
            invariant
                ks == texts(keys@),
                locations@ == self.locations@,
                keys@ == self.keys@,
                before == self.rows@,
                rows@.len() <= locations@.len(),
                rows@.len() >= before.len(),
                forall|k: int| 0 <= k < before.len() ==> (#[trigger] rows@[k])@ == before[k]@,
                forall|k: int|
                    before.len() <= k < rows@.len() ==> unscheduled_row(
                        (#[trigger] rows@[k])@,
                        locations@[k]@,
                        ks,
                    ),
                forall|k: int|
                    0 <= k < rows@.len() ==> row_consistent(
                        #[trigger] rows@[k]@,
                        locations@[k]@,
                        ks,
                    ),
            decreases locations.len() - rows.len(),
        {
            let location = &locations[rows.len()];
            let has_map = lists_key(&keys, &HikeRecord::map_key_for(location.short_name.as_str()));
            let record_key = HikeRecord::key(location.short_name.as_str());
            assert(location@ == locations@[rows@.len() as int]@);
            if lists_key(&keys, &record_key) {
                let ghost st = ListHikes { locations, keys, rows, has_map, pages, phase: ListHikesPhase::FetchingRecord };
                assert(st.current()@.0 == location@.0);
                assert(st.wf());
                return (
                    ListHikes { locations, keys, rows, has_map, pages, phase: ListHikesPhase::FetchingRecord },
                    Action::Get { key: record_key },
                );
            }
            let row = summary_row(location, has_map, None);
            rows.push(row);
        }
        (
            ListHikes { locations, keys, rows: Vec::new(), has_map, pages, phase: ListHikesPhase::Done },
            Action::Reply { reply: Reply::Summaries(rows) },
        )
    }

    /// Adds the current location's row, with the record found for it, and
    /// goes on.
    fn add_current(self, record: Option<HikeRecord>) -> (r: (ListHikes, Action))
        requires
            self.wf(),
            self.phase is FetchingRecord || self.phase is DecodingRecord,
        ensures
            Self::continues(
                            self.locations@,
                            texts(self.keys@),
                            self.rows@.push(rows_after(r)[self.rows@.len() as int]),
                            r,
                        ),
            rows_after(r)[self.rows@.len() as int]@ == summary_of(
                self.current()@,
                self.has_map,
                record,
            ),
    {
        let ListHikes { locations, keys, mut rows, has_map, pages, phase } = self;
        let row = match &record {
            Some(rec) => summary_row(&locations[rows.len()], has_map, Some(rec)),
            None => summary_row(&locations[rows.len()], has_map, None),
        };
        rows.push(row);
        // The phase is settled by `advance`.
        let next = ListHikes { locations, keys, rows, has_map, pages, phase: ListHikesPhase::Done };
        next.advance()
    }

    pub fn next(self, event: Event) -> (r: (ListHikes, Action))
        requires
            self.wf(),
            self.accepts(event),
        ensures
            r.1 is Reply || r.0.awaits(r.1),
            r.0.wf(),
            match self.phase {
                ListHikesPhase::FetchingLocations => match event {
                    Event::Fetched(Err(m)) => replies_error(r.1, 502, storage_message(m@))
                        && r.0.phase is Done,
                    Event::Fetched(Ok(None)) => {
                        &&& Self::starts_listing(r)
                        &&& r.0.locations@.len() == 0
                    },
                    Event::Fetched(Ok(Some(b))) => {
                        &&& r.1 matches Action::DecodeLocations { bytes } && bytes@ == b@
                        &&& r.0.phase is DecodingLocations
                    },
                    _ => false,
                },
                ListHikesPhase::DecodingLocations => match event {
                    Event::LocationsDecoded(Err(m)) => replies_error(
                        r.1,
                        502,
                        corrupt_locations_message(m@),
                    ) && r.0.phase is Done,
                    Event::LocationsDecoded(Ok(ls)) => {
                        &&& Self::starts_listing(r)
                        &&& location_views(r.0.locations@) == location_views(ls@)
                    },
                    _ => false,
                },
                ListHikesPhase::Listing => match event {
                    Event::Listed(Err(m)) => replies_error(r.1, 502, storage_message(m@))
                        && r.0.phase is Done,
                    Event::Listed(Ok((ks, Some(c)))) => {
                        &&& is_list_page(r.1, "hikes/"@, Some(c@))
                        &&& texts(r.0.pages.keys@) == texts(self.pages.keys@) + texts(ks@)
                        &&& r.0.locations@ == self.locations@
                        &&& r.0.phase is Listing
                    },
                    Event::Listed(Ok((ks, None))) => {
                        &&& Self::continues(
                            self.locations@,
                            texts(self.pages.keys@) + texts(ks@),
                            Seq::empty(),
                            r,
                        )
                    },
                    _ => false,
                },
                ListHikesPhase::FetchingRecord => match event {
                    Event::Fetched(Err(m)) => replies_error(r.1, 502, storage_message(m@))
                        && r.0.phase is Done,
                    Event::Fetched(Ok(None)) => {
                        &&& Self::continues(
                            self.locations@,
                            texts(self.keys@),
                            self.rows@.push(rows_after(r)[self.rows@.len() as int]),
                            r,
                        )
                        &&& rows_after(r)[self.rows@.len() as int]@ == summary_of(
                            self.current()@,
                            self.has_map,
                            None,
                        )
                    },
                    Event::Fetched(Ok(Some(b))) => {
                        &&& r.1 matches Action::DecodeRecord { bytes } && bytes@ == b@
                        &&& r.0.phase is DecodingRecord
                    },
                    _ => false,
                },
                ListHikesPhase::DecodingRecord => match event {
                    Event::RecordDecoded(Err(m)) => replies_error(
                        r.1,
                        502,
                        corrupt_record_message(m@),
                    ) && r.0.phase is Done,
                    Event::RecordDecoded(Ok(record)) => {
                        &&& Self::continues(
                            self.locations@,
                            texts(self.keys@),
                            self.rows@.push(rows_after(r)[self.rows@.len() as int]),
                            r,
                        )
                        &&& rows_after(r)[self.rows@.len() as int]@ == summary_of(
                            self.current()@,
                            self.has_map,
                            Some(record),
                        )
                    },
                    _ => false,
                },
                ListHikesPhase::Done => false,
            },
    {
        match self.phase {
            ListHikesPhase::FetchingLocations => {
                let ListHikes { locations, keys, rows, has_map, pages, phase } = self;
                match event {
                    Event::Fetched(fetched) => match on_locations_fetched(fetched) {
                        LocationsFetch::Failed(o) => (
                            ListHikes { locations, keys, rows, has_map, pages, phase: ListHikesPhase::Done },
                            plain(o),
                        ),
                        LocationsFetch::Ready(ls) => Self::list(ls),
                        LocationsFetch::Decode(bytes) => (
                            ListHikes {
                                locations,
                                keys,
                                rows,
                                has_map,
                                pages,
                                phase: ListHikesPhase::DecodingLocations,
                            },
                            Action::DecodeLocations { bytes },
                        ),
                    },
                    _ => {
                        assert(false);
                        (ListHikes { locations, keys, rows, has_map, pages, phase: ListHikesPhase::Done }, plain(Outcome::no_content()))
                    },
                }
            },
            ListHikesPhase::DecodingLocations => {
                let ListHikes { locations, keys, rows, has_map, pages, phase } = self;
                match event {
                    Event::LocationsDecoded(decoded) => match on_locations_decoded(decoded) {
                        Err(o) => (
                            ListHikes { locations, keys, rows, has_map, pages, phase: ListHikesPhase::Done },
                            plain(o),
                        ),
                        Ok(ls) => Self::list(ls),
                    },
                    _ => {
                        assert(false);
                        (ListHikes { locations, keys, rows, has_map, pages, phase: ListHikesPhase::Done }, plain(Outcome::no_content()))
                    },
                }
            },
            ListHikesPhase::Listing => {
                let ListHikes { locations, keys, rows, has_map, pages, phase } = self;
                match event {
                    Event::Listed(page) => {
                        let (pages, step) = pages.next(page);
                        match on_page_step(step) {
                            PageOutcome::Fetch(a) => (
                                ListHikes { locations, keys, rows, has_map, pages, phase: ListHikesPhase::Listing },
                                a,
                            ),
                            PageOutcome::Keys(all) => {
                                let next = ListHikes {
                                    locations,
                                    keys: all,
                                    rows,
                                    has_map,
                                    pages,
                                    phase: ListHikesPhase::Listing,
                                };
                                next.advance()
                            },
                            PageOutcome::Failed(o) => (
                                ListHikes { locations, keys, rows, has_map, pages, phase: ListHikesPhase::Done },
                                plain(o),
                            ),
                        }
                    },
                    _ => {
                        assert(false);
                        (ListHikes { locations, keys, rows, has_map, pages, phase: ListHikesPhase::Done }, plain(Outcome::no_content()))
                    },
                }
            },
            ListHikesPhase::FetchingRecord => {
                match event {
                    Event::Fetched(Err(m)) => {
                        let ListHikes { locations, keys, rows, has_map, pages, phase } = self;
                        (
                            ListHikes { locations, keys, rows, has_map, pages, phase: ListHikesPhase::Done },
                            plain(upstream(m)),
                        )
                    },
                    Event::Fetched(Ok(None)) => self.add_current(None),
                    Event::Fetched(Ok(Some(bytes))) => {
                        let ListHikes { locations, keys, rows, has_map, pages, phase } = self;
                        (
                            ListHikes { locations, keys, rows, has_map, pages, phase: ListHikesPhase::DecodingRecord },
                            Action::DecodeRecord { bytes },
                        )
                    },
                    _ => {
                        assert(false);
                        let ListHikes { locations, keys, rows, has_map, pages, phase } = self;
                        (ListHikes { locations, keys, rows, has_map, pages, phase: ListHikesPhase::Done }, plain(Outcome::no_content()))
                    },
                }
            },
            ListHikesPhase::DecodingRecord => {
                match event {
                    Event::RecordDecoded(Err(m)) => {
                        let ListHikes { locations, keys, rows, has_map, pages, phase } = self;
                        (
                            ListHikes { locations, keys, rows, has_map, pages, phase: ListHikesPhase::Done },
                            plain(Outcome::error(502, concat2("stored record is not valid JSON: ", m.as_str()))),
                        )
                    },
                    Event::RecordDecoded(Ok(record)) => self.add_current(Some(record)),
                    _ => {
                        assert(false);
                        let ListHikes { locations, keys, rows, has_map, pages, phase } = self;
                        (ListHikes { locations, keys, rows, has_map, pages, phase: ListHikesPhase::Done }, plain(Outcome::no_content()))
                    },
                }
            },
            ListHikesPhase::Done => {
                assert(false);
                let ListHikes { locations, keys, rows, has_map, pages, phase } = self;
                (ListHikes { locations, keys, rows, has_map, pages, phase: ListHikesPhase::Done }, plain(Outcome::no_content()))
            },
        }
    }
}

} // verus!
