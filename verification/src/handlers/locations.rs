//! `GET` and `PUT /api/locations`, the location mapping that doubles as the
//! allowlist of writable slugs, and `GET /api/orphans`, the slugs whose
//! objects no location claims.
use vstd::prelude::*;

use super::{
    answers,
    corrupt_locations_message, is_get, is_list_page, is_put, on_locations_decoded,
    on_locations_fetched, on_page_step, plain, replies_error, Action, Event, LocationsFetch,
    PageOutcome, Reply,
};
use super::paging::KeyListing;
use crate::listing::{find_orphans, is_orphan_report, orphan_views};
use crate::models::{copy_locations, location_views, texts, HikeLocation, HIKES_PREFIX, LOCATIONS_KEY};
use crate::outcome::{storage_message, upstream, Outcome};
use crate::text::concat2;
use crate::validate::{locations_verdict, validate_locations};

verus! {

/// Whether `a` answers 200 with the location list `ls`.
pub open spec fn replies_locations(a: Action, ls: Seq<(Seq<char>, Seq<char>)>) -> bool {
    match a {
        Action::Reply { reply: Reply::Locations(v) } => location_views(v@) == ls,
        _ => false,
    }
}

// ---------------------------------------------------------------- GET
/// Where `GET /api/locations` stands.
pub enum GetLocationsPhase {
    Fetching,
    Decoding,
    Done,
}

/// `GET /api/locations`: the stored mapping, empty while the object is
/// absent.
pub struct GetLocations {
    pub phase: GetLocationsPhase,
}

impl GetLocations {
    /// The events this handler can take next.
    pub open spec fn accepts(&self, e: Event) -> bool {
        match self.phase {
            GetLocationsPhase::Fetching => e is Fetched,
            GetLocationsPhase::Decoding => e is LocationsDecoded,
            GetLocationsPhase::Done => false,
        }
    }

    /// Whether every answer to `a` is an event this handler can take.
    pub open spec fn awaits(&self, a: Action) -> bool {
        forall|e: Event| answers(a, e) ==> self.accepts(e)
    }

    pub fn start() -> (r: (GetLocations, Action))
        ensures
            r.1 is Reply || r.0.awaits(r.1),
            is_get(r.1, LOCATIONS_KEY@),
            r.0.phase is Fetching,
    {
        (
            GetLocations { phase: GetLocationsPhase::Fetching },
            Action::Get { key: String::from_str(LOCATIONS_KEY) },
        )
    }

    pub fn next(self, event: Event) -> (r: (GetLocations, Action))
        requires
            self.accepts(event),
        ensures
            r.1 is Reply || r.0.awaits(r.1),
            match event {
                Event::Fetched(Err(m)) => replies_error(r.1, 502, storage_message(m@))
                    && r.0.phase is Done,
                Event::Fetched(Ok(None)) => replies_locations(r.1, Seq::empty()) && r.0.phase is Done,
                Event::Fetched(Ok(Some(b))) => {
                    &&& r.1 matches Action::DecodeLocations { bytes } && bytes@ == b@
                    &&& r.0.phase is Decoding
                },
                Event::LocationsDecoded(Err(m)) => replies_error(
                    r.1,
                    502,
                    corrupt_locations_message(m@),
                ) && r.0.phase is Done,
                Event::LocationsDecoded(Ok(ls)) => replies_locations(r.1, location_views(ls@))
                    && r.0.phase is Done,
                _ => false,
            },
    {
        match event {
            Event::Fetched(fetched) => match on_locations_fetched(fetched) {
                LocationsFetch::Failed(o) => (GetLocations { phase: GetLocationsPhase::Done }, plain(o)),
                LocationsFetch::Ready(ls) => {
                    assert(location_views(ls@) =~= Seq::empty());
                    (
                        GetLocations { phase: GetLocationsPhase::Done },
                        Action::Reply { reply: Reply::Locations(ls) },
                    )
                },
                LocationsFetch::Decode(bytes) => (
                    GetLocations { phase: GetLocationsPhase::Decoding },
                    Action::DecodeLocations { bytes },
                ),
            },
            Event::LocationsDecoded(decoded) => match on_locations_decoded(decoded) {
                Err(o) => (GetLocations { phase: GetLocationsPhase::Done }, plain(o)),
                Ok(ls) => (
                    GetLocations { phase: GetLocationsPhase::Done },
                    Action::Reply { reply: Reply::Locations(ls) },
                ),
            },
            _ => {
                assert(false);
                (GetLocations { phase: GetLocationsPhase::Done }, plain(Outcome::no_content()))
            },
        }
    }
}

// ---------------------------------------------------------------- PUT
/// Where `PUT /api/locations` stands. `Encoding` and `Storing` hold the
/// validated list being written.
pub enum PutLocationsPhase {
    Decoding,
    Encoding(Vec<HikeLocation>),
    Storing(Vec<HikeLocation>),
    Done,
}

/// `PUT /api/locations`: replaces the whole mapping. Removing a location
/// leaves its record and map behind.
pub struct PutLocations {
    pub phase: PutLocationsPhase,
}

impl PutLocations {
    /// A list is only ever held for writing once it has passed validation.
    pub open spec fn wf(&self) -> bool {
        match self.phase {
            PutLocationsPhase::Encoding(ls) => locations_verdict(location_views(ls@)) is Ok,
            PutLocationsPhase::Storing(ls) => locations_verdict(location_views(ls@)) is Ok,
            _ => true,
        }
    }

    /// The events this handler can take next.
    pub open spec fn accepts(&self, e: Event) -> bool {
        match self.phase {
            PutLocationsPhase::Decoding => e is LocationsDecoded,
            PutLocationsPhase::Encoding(_) => e is Encoded,
            PutLocationsPhase::Storing(_) => e is Stored,
            PutLocationsPhase::Done => false,
        }
    }

    /// Whether every answer to `a` is an event this handler can take.
    pub open spec fn awaits(&self, a: Action) -> bool {
        forall|e: Event| answers(a, e) ==> self.accepts(e)
    }

    /// The first step decodes the body.
    pub fn start(body: Vec<u8>) -> (r: (PutLocations, Action))
        ensures
            r.1 is Reply || r.0.awaits(r.1),
            r.0.wf(),
            r.0.phase is Decoding,
            r.1 matches Action::DecodeLocations { bytes } && bytes@ == body@,
    {
        (PutLocations { phase: PutLocationsPhase::Decoding }, Action::DecodeLocations { bytes: body })
    }

    /// A list with one bad entry is refused whole, and nothing is written.
    pub fn next(self, event: Event) -> (r: (PutLocations, Action))
        requires
            self.wf(),
            self.accepts(event),
        ensures
            r.1 is Reply || r.0.awaits(r.1),
            r.0.wf(),
            match event {
                Event::LocationsDecoded(Err(m)) => replies_error(
                    r.1,
                    400,
                    "invalid locations JSON: "@ + m@,
                ) && r.0.phase is Done,
                Event::LocationsDecoded(Ok(ls)) => match locations_verdict(location_views(ls@)) {
                    Err(e) => replies_error(r.1, e.0, e.1) && r.0.phase is Done,
                    Ok(_) => {
                        &&& r.1 matches Action::EncodeLocations { locations } && location_views(
                            locations@,
                        ) == location_views(ls@)
                        &&& r.0.phase matches PutLocationsPhase::Encoding(kept) && location_views(
                            kept@,
                        ) == location_views(ls@)
                    },
                },
                Event::Encoded(Err(m)) => replies_error(
                    r.1,
                    500,
                    "could not encode locations: "@ + m@,
                ) && r.0.phase is Done,
                Event::Encoded(Ok(bytes)) => {
                    &&& is_put(r.1, LOCATIONS_KEY@, bytes@, "application/json"@)
                    &&& self.phase matches PutLocationsPhase::Encoding(ls) && r.0.phase matches PutLocationsPhase::Storing(
                        kept,
                    ) && location_views(kept@) == location_views(ls@)
                },
                Event::Stored(Ok(_)) => {
                    &&& self.phase matches PutLocationsPhase::Storing(ls) && replies_locations(
                        r.1,
                        location_views(ls@),
                    )
                    &&& r.0.phase is Done
                },
                Event::Stored(Err(m)) => replies_error(r.1, 502, storage_message(m@))
                    && r.0.phase is Done,
                _ => false,
            },
    {
        let PutLocations { phase } = self;
        match event {
            Event::LocationsDecoded(Err(m)) => (
                PutLocations { phase: PutLocationsPhase::Done },
                plain(Outcome::error(400, concat2("invalid locations JSON: ", m.as_str()))),
            ),
            Event::LocationsDecoded(Ok(ls)) => match validate_locations(ls.as_slice()) {
                Err(invalid) => (
                    PutLocations { phase: PutLocationsPhase::Done },
                    plain(Outcome::from_invalid(invalid)),
                ),
                Ok(()) => {
                    let copy = copy_locations(&ls);
                    (
                        PutLocations { phase: PutLocationsPhase::Encoding(ls) },
                        Action::EncodeLocations { locations: copy },
                    )
                },
            },
            Event::Encoded(Err(m)) => (
                PutLocations { phase: PutLocationsPhase::Done },
                plain(Outcome::error(500, concat2("could not encode locations: ", m.as_str()))),
            ),
            Event::Encoded(Ok(bytes)) => match phase {
                PutLocationsPhase::Encoding(ls) => (
                    PutLocations { phase: PutLocationsPhase::Storing(ls) },
                    Action::Put {
                        key: String::from_str(LOCATIONS_KEY),
                        body: bytes,
                        content_type: "application/json",
                    },
                ),
                _ => {
                    assert(false);
                    (PutLocations { phase: PutLocationsPhase::Done }, plain(Outcome::no_content()))
                },
            },
            Event::Stored(Ok(())) => match phase {
                PutLocationsPhase::Storing(ls) => (
                    PutLocations { phase: PutLocationsPhase::Done },
                    Action::Reply { reply: Reply::Locations(ls) },
                ),
                _ => {
                    assert(false);
                    (PutLocations { phase: PutLocationsPhase::Done }, plain(Outcome::no_content()))
                },
            },
            Event::Stored(Err(m)) => (
                PutLocations { phase: PutLocationsPhase::Done },
                plain(upstream(m)),
            ),
            _ => {
                assert(false);
                (PutLocations { phase: PutLocationsPhase::Done }, plain(Outcome::no_content()))
            },
        }
    }
}

// ---------------------------------------------------------------- orphans
/// Whether `a` answers 200 with the orphan report for `keys` and
/// `locations`.
pub open spec fn replies_orphans(
    a: Action,
    keys: Seq<Seq<char>>,
    locations: Seq<(Seq<char>, Seq<char>)>,
) -> bool {
    match a {
        Action::Reply { reply: Reply::Orphans(rows) } => is_orphan_report(
            orphan_views(rows@),
            keys,
            locations,
        ),
        _ => false,
    }
}

/// Where `GET /api/orphans` stands.
pub enum ListOrphansPhase {
    FetchingLocations,
    DecodingLocations,
    Listing,
    Done,
}

/// `GET /api/orphans`: every slug under `hikes/` with a record or a map but
/// no entry in the mapping, sorted, with a flag for each object present.
pub struct ListOrphans {
    pub locations: Vec<HikeLocation>,
    /// The listing of `hikes/`, page by page.
    pub pages: KeyListing,
    pub phase: ListOrphansPhase,
}

impl ListOrphans {
    /// While listing, the pages are those of `hikes/`.
    pub open spec fn wf(&self) -> bool {
        self.phase is Listing ==> self.pages.prefix@ == "hikes/"@
    }

    /// The events this handler can take next.
    pub open spec fn accepts(&self, e: Event) -> bool {
        match self.phase {
            ListOrphansPhase::FetchingLocations => e is Fetched,
            ListOrphansPhase::DecodingLocations => e is LocationsDecoded,
            ListOrphansPhase::Listing => e is Listed,
            ListOrphansPhase::Done => false,
        }
    }

    /// Whether every answer to `a` is an event this handler can take.
    pub open spec fn awaits(&self, a: Action) -> bool {
        forall|e: Event| answers(a, e) ==> self.accepts(e)
    }

    /// Whether the step `r` starts listing `hikes/` for `locations`.
    pub open spec fn starts_listing(r: (ListOrphans, Action)) -> bool {
        &&& is_list_page(r.1, "hikes/"@, None)
        &&& r.0.pages.keys@.len() == 0
        &&& r.0.phase is Listing
    }

    pub fn start() -> (r: (ListOrphans, Action))
        ensures
            r.1 is Reply || r.0.awaits(r.1),
            r.0.wf(),
            is_get(r.1, LOCATIONS_KEY@),
            r.0.phase is FetchingLocations,
    {
        (
            ListOrphans {
                locations: Vec::new(),
                pages: KeyListing { prefix: String::new(), keys: Vec::new() },
                phase: ListOrphansPhase::FetchingLocations,
            },
            Action::Get { key: String::from_str(LOCATIONS_KEY) },
        )
    }

    /// The first page of `hikes/`, for `locations`.
    fn list(locations: Vec<HikeLocation>) -> (r: (ListOrphans, Action))
        ensures
            Self::starts_listing(r),
            r.0.wf(),
            r.0.locations@ == locations@,
    {
        let (pages, step) = KeyListing::start(HIKES_PREFIX);
        match on_page_step(step) {
            PageOutcome::Fetch(a) => (ListOrphans { locations, pages, phase: ListOrphansPhase::Listing }, a),
            _ => {
                assert(false);
                (ListOrphans { locations, pages, phase: ListOrphansPhase::Done }, plain(Outcome::no_content()))
            },
        }
    }

    pub fn next(self, event: Event) -> (r: (ListOrphans, Action))
        requires
            self.wf(),
            self.accepts(event),
        ensures
            r.1 is Reply || r.0.awaits(r.1),
            r.0.wf(),
            match event {
                Event::Fetched(Err(m)) => replies_error(r.1, 502, storage_message(m@))
                    && r.0.phase is Done,
                Event::Fetched(Ok(None)) => {
                    &&& Self::starts_listing(r)
                    &&& r.0.locations@.len() == 0
                },
                Event::Fetched(Ok(Some(b))) => {
                    &&& r.1 matches Action::DecodeLocations { bytes } && bytes@ == b@
                    &&& r.0.phase is DecodingLocations
                },
                Event::LocationsDecoded(Err(m)) => replies_error(
                    r.1,
                    502,
                    corrupt_locations_message(m@),
                ) && r.0.phase is Done,
                Event::LocationsDecoded(Ok(ls)) => {
                    &&& Self::starts_listing(r)
                    &&& location_views(r.0.locations@) == location_views(ls@)
                },
                Event::Listed(Err(m)) => replies_error(r.1, 502, storage_message(m@))
                    && r.0.phase is Done,
                Event::Listed(Ok((ks, Some(c)))) => {
                    &&& is_list_page(r.1, "hikes/"@, Some(c@))
                    &&& texts(r.0.pages.keys@) == texts(self.pages.keys@) + texts(ks@)
                    &&& location_views(r.0.locations@) == location_views(self.locations@)
                    &&& r.0.phase is Listing
                },
                Event::Listed(Ok((ks, None))) => replies_orphans(
                    r.1,
                    texts(self.pages.keys@) + texts(ks@),
                    location_views(self.locations@),
                ) && r.0.phase is Done,
                _ => false,
            },
    {
        let ListOrphans { locations, pages, phase } = self;
        match event {
            Event::Fetched(fetched) => match on_locations_fetched(fetched) {
                LocationsFetch::Failed(o) => (
                    ListOrphans { locations, pages, phase: ListOrphansPhase::Done },
                    plain(o),
                ),
                LocationsFetch::Ready(ls) => Self::list(ls),
                LocationsFetch::Decode(bytes) => (
                    ListOrphans { locations, pages, phase: ListOrphansPhase::DecodingLocations },
                    Action::DecodeLocations { bytes },
                ),
            },
            Event::LocationsDecoded(decoded) => match on_locations_decoded(decoded) {
                Err(o) => (ListOrphans { locations, pages, phase: ListOrphansPhase::Done }, plain(o)),
                Ok(ls) => Self::list(ls),
            },
            Event::Listed(page) => {
                let (pages, step) = pages.next(page);
                match on_page_step(step) {
                    PageOutcome::Fetch(a) => (
                        ListOrphans { locations, pages, phase: ListOrphansPhase::Listing },
                        a,
                    ),
                    PageOutcome::Keys(keys) => {
                        let rows = find_orphans(&keys, locations.as_slice());
                        (
                            ListOrphans { locations, pages, phase: ListOrphansPhase::Done },
                            Action::Reply { reply: Reply::Orphans(rows) },
                        )
                    },
                    PageOutcome::Failed(o) => (
                        ListOrphans { locations, pages, phase: ListOrphansPhase::Done },
                        plain(o),
                    ),
                }
            },
            _ => {
                assert(false);
                (ListOrphans { locations, pages, phase: ListOrphansPhase::Done }, plain(Outcome::no_content()))
            },
        }
    }
}

} // verus!
