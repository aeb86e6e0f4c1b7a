//! `GET`, `PUT` and `DELETE /api/hikes/{slug}`: custody of the one record per
//! location at `hikes/{slug}.json`.
use vstd::prelude::*;

use super::{
    answers,
    corrupt_record_message, is_delete, is_get, is_put, on_locations_decoded, on_locations_fetched,
    plain, replies_error, writes, Action, Event, LocationsFetch, Reply,
};
use crate::models::{location_views, map_key, record_key, texts, HikeLocation, HikeRecord, LOCATIONS_KEY, MeetingCoords};
use crate::outcome::{storage_message, upstream, Outcome};
use crate::text::concat2;
use crate::validate::{
    build_record, known_slug_verdict, record_verdict, slug_verdict, stored_trails, validate_slug,
};

verus! {

/// Whether `a` answers 204 with an empty body: the no-content outcome.
pub open spec fn replies_no_content(a: Action) -> bool {
    match a {
        Action::Reply { reply: Reply::Plain(o) } => {
            &&& o.status == 204
            &&& o.content_type@ == "application/json"@
            &&& o.body@.len() == 0
        },
        _ => false,
    }
}

/// The record stored for `slug`: its id and map key derived from the slug,
/// the request's meeting point, and the request's trails trimmed.
pub open spec fn built_record(slug: Seq<char>, meeting: MeetingCoords, trails: Seq<Seq<char>>) -> (
    Seq<char>,
    MeetingCoords,
    Seq<Seq<char>>,
    Seq<char>,
) {
    (slug, meeting, stored_trails(trails), map_key(slug))
}

// ---------------------------------------------------------------- GET
/// Where `GET /api/hikes/{slug}` stands.
pub enum GetHikePhase {
    Fetching,
    Decoding,
    Done,
}

/// `GET /api/hikes/{slug}`: the stored record, 404 when there is none.
pub struct GetHike {
    pub slug: String,
    pub phase: GetHikePhase,
}

impl GetHike {
    /// The events this handler can take next.
    pub open spec fn accepts(&self, e: Event) -> bool {
        match self.phase {
            GetHikePhase::Fetching => e is Fetched,
            GetHikePhase::Decoding => e is RecordDecoded,
            GetHikePhase::Done => false,
        }
    }

    /// Whether every answer to `a` is an event this handler can take.
    pub open spec fn awaits(&self, a: Action) -> bool {
        forall|e: Event| answers(a, e) ==> self.accepts(e)
    }

    /// Reads check the slug's shape only: an unknown location is answered
    /// 404 rather than 400.
    pub fn start(slug: &str) -> (r: (GetHike, Action))
        ensures
            r.1 is Reply || r.0.awaits(r.1),
            r.0.slug@ == slug@,
            match slug_verdict(slug@) {
                Err(e) => replies_error(r.1, e.0, e.1) && r.0.phase is Done,
                Ok(_) => is_get(r.1, record_key(slug@)) && r.0.phase is Fetching,
            },
    {
        match validate_slug(slug) {
            Err(invalid) => (
                GetHike { slug: String::from_str(slug), phase: GetHikePhase::Done },
                plain(Outcome::from_invalid(invalid)),
            ),
            Ok(()) => (
                GetHike { slug: String::from_str(slug), phase: GetHikePhase::Fetching },
                Action::Get { key: HikeRecord::key(slug) },
            ),
        }
    }

    pub fn next(self, event: Event) -> (r: (GetHike, Action))
        requires
            self.accepts(event),
        ensures
            r.1 is Reply || r.0.awaits(r.1),
            r.0.slug == self.slug,
            match event {
                Event::Fetched(Err(m)) => replies_error(r.1, 502, storage_message(m@))
                    && r.0.phase is Done,
                Event::Fetched(Ok(None)) => replies_error(
                    r.1,
                    404,
                    "no hike scheduled for '"@ + self.slug@ + "'"@,
                ) && r.0.phase is Done,
                Event::Fetched(Ok(Some(b))) => r.1 matches Action::DecodeRecord { bytes }
                    && bytes@ == b@ && r.0.phase is Decoding,
                Event::RecordDecoded(Err(m)) => replies_error(r.1, 502, corrupt_record_message(m@))
                    && r.0.phase is Done,
                Event::RecordDecoded(Ok(record)) => r.1 == (Action::Reply {
                    reply: Reply::Record(record),
                }) && r.0.phase is Done,
                _ => false,
            },
    {
        let GetHike { slug, phase } = self;
        match event {
            Event::Fetched(Err(m)) => (GetHike { slug, phase: GetHikePhase::Done }, plain(upstream(m))),
            Event::Fetched(Ok(None)) => {
                let message = crate::text::concat3("no hike scheduled for '", slug.as_str(), "'");
                (GetHike { slug, phase: GetHikePhase::Done }, plain(Outcome::error(404, message)))
            },
            Event::Fetched(Ok(Some(bytes))) => (
                GetHike { slug, phase: GetHikePhase::Decoding },
                Action::DecodeRecord { bytes },
            ),
            Event::RecordDecoded(Err(m)) => (
                GetHike { slug, phase: GetHikePhase::Done },
                plain(
                    Outcome::error(502, concat2("stored record is not valid JSON: ", m.as_str())),
                ),
            ),
            Event::RecordDecoded(Ok(record)) => (
                GetHike { slug, phase: GetHikePhase::Done },
                Action::Reply { reply: Reply::Record(record) },
            ),
            _ => {
                assert(false);
                (GetHike { slug, phase: GetHikePhase::Done }, plain(Outcome::no_content()))
            },
        }
    }
}

// ---------------------------------------------------------------- PUT
/// Where `PUT /api/hikes/{slug}` stands. `Encoding` and `Storing` hold the
/// record being written.
pub enum PutHikePhase {
    FetchingLocations,
    DecodingLocations,
    DecodingRequest,
    Encoding(HikeRecord),
    Storing(HikeRecord),
    Done,
}

/// `PUT /api/hikes/{slug}`: read the location mapping, decode and validate
/// the body, build the record, and store it at `hikes/{slug}.json`.
pub struct PutHike {
    pub slug: String,
    pub body: Vec<u8>,
    pub locations: Vec<HikeLocation>,
    pub phase: PutHikePhase,
}

impl PutHike {
    /// A record is only ever held for writing once the slug has passed the
    /// known-location check and the record's id and map key derive from it.
    pub open spec fn wf(&self) -> bool {
        match self.phase {
            PutHikePhase::Encoding(rec) => self.holds_valid(rec),
            PutHikePhase::Storing(rec) => self.holds_valid(rec),
            _ => true,
        }
    }

    pub open spec fn holds_valid(&self, rec: HikeRecord) -> bool {
        &&& known_slug_verdict(self.slug@, location_views(self.locations@)) is Ok
        &&& rec@.0 == self.slug@
        &&& rec@.3 == map_key(self.slug@)
    }

    /// The events this handler can take next.
    pub open spec fn accepts(&self, e: Event) -> bool {
        match self.phase {
            PutHikePhase::FetchingLocations => e is Fetched,
            PutHikePhase::DecodingLocations => e is LocationsDecoded,
            PutHikePhase::DecodingRequest => e is RequestDecoded,
            PutHikePhase::Encoding(_) => e is Encoded,
            PutHikePhase::Storing(_) => e is Stored,
            PutHikePhase::Done => false,
        }
    }

    /// Whether every answer to `a` is an event this handler can take.
    pub open spec fn awaits(&self, a: Action) -> bool {
        forall|e: Event| answers(a, e) ==> self.accepts(e)
    }

    /// The first step reads the location mapping, which is the allowlist of
    /// slugs that may be written.
    pub fn start(slug: &str, body: Vec<u8>) -> (r: (PutHike, Action))
        ensures
            r.1 is Reply || r.0.awaits(r.1),
            r.0.wf(),
            r.0.slug@ == slug@,
            r.0.body@ == body@,
            r.0.phase is FetchingLocations,
            is_get(r.1, LOCATIONS_KEY@),
    {
        (
            PutHike {
                slug: String::from_str(slug),
                body,
                locations: Vec::new(),
                phase: PutHikePhase::FetchingLocations,
            },
            Action::Get { key: String::from_str(LOCATIONS_KEY) },
        )
    }

    pub fn next(self, event: Event) -> (r: (PutHike, Action))
        requires
            self.wf(),
            self.accepts(event),
        ensures
            r.1 is Reply || r.0.awaits(r.1),
            r.0.wf(),
            r.0.slug == self.slug,
            writes(r.1) ==> (r.1 matches Action::Put { key, content_type, .. } && key@ == record_key(
                self.slug@,
            ) && content_type@ == "application/json"@),
            match event {
                Event::Fetched(Err(m)) => {
                    &&& replies_error(r.1, 502, storage_message(m@))
                    &&& r.0.phase is Done
                },
                Event::Fetched(Ok(None)) => {
                    &&& r.1 matches Action::DecodeRequest { bytes } && bytes@ == self.body@
                    &&& r.0.locations@.len() == 0
                    &&& r.0.phase is DecodingRequest
                },
                Event::Fetched(Ok(Some(b))) => {
                    &&& r.1 matches Action::DecodeLocations { bytes } && bytes@ == b@
                    &&& r.0.body@ == self.body@
                    &&& r.0.phase is DecodingLocations
                },
                Event::LocationsDecoded(Err(m)) => {
                    &&& replies_error(r.1, 502, super::corrupt_locations_message(m@))
                    &&& r.0.phase is Done
                },
                Event::LocationsDecoded(Ok(ls)) => {
                    &&& r.1 matches Action::DecodeRequest { bytes } && bytes@ == self.body@
                    &&& location_views(r.0.locations@) == location_views(ls@)
                    &&& r.0.phase is DecodingRequest
                },
                Event::RequestDecoded(Err(m)) => {
                    &&& replies_error(r.1, 400, "invalid hike JSON: "@ + m@)
                    &&& r.0.phase is Done
                },
                Event::RequestDecoded(Ok((request, check))) => match record_verdict(
                    self.slug@,
                    check,
                    texts(request.trails@),
                    location_views(self.locations@),
                ) {
                    Err(e) => {
                        &&& replies_error(r.1, e.0, e.1)
                        &&& r.0.phase is Done
                    },
                    Ok(_) => {
                        &&& r.1 matches Action::EncodeRecord { record } && record@ == built_record(
                            self.slug@,
                            request.meeting,
                            texts(request.trails@),
                        )
                        &&& r.0.phase matches PutHikePhase::Encoding(kept) && kept@ == built_record(
                            self.slug@,
                            request.meeting,
                            texts(request.trails@),
                        )
                    },
                },
                Event::Encoded(Err(m)) => {
                    &&& replies_error(r.1, 500, "could not encode record: "@ + m@)
                    &&& r.0.phase is Done
                },
                Event::Encoded(Ok(bytes)) => {
                    &&& is_put(r.1, record_key(self.slug@), bytes@, "application/json"@)
                    &&& known_slug_verdict(self.slug@, location_views(self.locations@)) is Ok
                    &&& self.phase matches PutHikePhase::Encoding(rec) && r.0.phase matches PutHikePhase::Storing(
                        kept,
                    ) && kept@ == rec@
                },
                Event::Stored(Ok(_)) => {
                    &&& self.phase matches PutHikePhase::Storing(rec) && r.1 == (Action::Reply {
                        reply: Reply::Record(rec),
                    })
                    &&& r.0.phase is Done
                },
                Event::Stored(Err(m)) => {
                    &&& replies_error(r.1, 502, storage_message(m@))
                    &&& r.0.phase is Done
                },
                _ => false,
            },
    {
        let PutHike { slug, body, locations, phase } = self;
        match event {
            Event::Fetched(fetched) => match on_locations_fetched(fetched) {
                LocationsFetch::Failed(o) => (
                    PutHike { slug, body, locations, phase: PutHikePhase::Done },
                    plain(o),
                ),
                LocationsFetch::Ready(ls) => (
                    PutHike {
                        slug,
                        body: Vec::new(),
                        locations: ls,
                        phase: PutHikePhase::DecodingRequest,
                    },
                    Action::DecodeRequest { bytes: body },
                ),
                LocationsFetch::Decode(bytes) => (
                    PutHike { slug, body, locations, phase: PutHikePhase::DecodingLocations },
                    Action::DecodeLocations { bytes },
                ),
            },
            Event::LocationsDecoded(decoded) => match on_locations_decoded(decoded) {
                Err(o) => (PutHike { slug, body, locations, phase: PutHikePhase::Done }, plain(o)),
                Ok(ls) => (
                    PutHike {
                        slug,
                        body: Vec::new(),
                        locations: ls,
                        phase: PutHikePhase::DecodingRequest,
                    },
                    Action::DecodeRequest { bytes: body },
                ),
            },
            Event::RequestDecoded(Err(m)) => (
                PutHike { slug, body, locations, phase: PutHikePhase::Done },
                plain(Outcome::error(400, concat2("invalid hike JSON: ", m.as_str()))),
            ),
            Event::RequestDecoded(Ok((request, check))) => {
                match build_record(slug.as_str(), &request, check, locations.as_slice()) {
                    Err(invalid) => (
                        PutHike { slug, body, locations, phase: PutHikePhase::Done },
                        plain(Outcome::from_invalid(invalid)),
                    ),
                    Ok(record) => {
                        let copy = record.duplicate();
                        (
                            PutHike { slug, body, locations, phase: PutHikePhase::Encoding(record) },
                            Action::EncodeRecord { record: copy },
                        )
                    },
                }
            },
            Event::Encoded(Err(m)) => (
                PutHike { slug, body, locations, phase: PutHikePhase::Done },
                plain(Outcome::error(500, concat2("could not encode record: ", m.as_str()))),
            ),
            Event::Encoded(Ok(bytes)) => match phase {
                PutHikePhase::Encoding(record) => {
                    let key = HikeRecord::key(slug.as_str());
                    (
                        PutHike { slug, body, locations, phase: PutHikePhase::Storing(record) },
                        Action::Put { key, body: bytes, content_type: "application/json" },
                    )
                },
                _ => {
                    assert(false);
                    (PutHike { slug, body, locations, phase: PutHikePhase::Done }, plain(Outcome::no_content()))
                },
            },
            Event::Stored(Ok(())) => match phase {
                PutHikePhase::Storing(record) => (
                    PutHike { slug, body, locations, phase: PutHikePhase::Done },
                    Action::Reply { reply: Reply::Record(record) },
                ),
                _ => {
                    assert(false);
                    (PutHike { slug, body, locations, phase: PutHikePhase::Done }, plain(Outcome::no_content()))
                },
            },
            Event::Stored(Err(m)) => (
                PutHike { slug, body, locations, phase: PutHikePhase::Done },
                plain(upstream(m)),
            ),
            _ => {
                assert(false);
                (PutHike { slug, body, locations, phase: PutHikePhase::Done }, plain(Outcome::no_content()))
            },
        }
    }
}

// ---------------------------------------------------------------- DELETE
/// Where `DELETE /api/hikes/{slug}` stands.
pub enum DeleteHikePhase {
    Deleting,
    Done,
}

/// `DELETE /api/hikes/{slug}`: removes the record only; the trail map stays
/// so rescheduling the location needs no re-upload.
pub struct DeleteHike {
    pub slug: String,
    pub phase: DeleteHikePhase,
}

impl DeleteHike {
    /// The events this handler can take next.
    pub open spec fn accepts(&self, e: Event) -> bool {
        match self.phase {
            DeleteHikePhase::Deleting => e is Stored,
            DeleteHikePhase::Done => false,
        }
    }

    /// Whether every answer to `a` is an event this handler can take.
    pub open spec fn awaits(&self, a: Action) -> bool {
        forall|e: Event| answers(a, e) ==> self.accepts(e)
    }

    /// Deleting checks the slug's shape only.
    pub fn start(slug: &str) -> (r: (DeleteHike, Action))
        ensures
            r.1 is Reply || r.0.awaits(r.1),
            r.0.slug@ == slug@,
            match slug_verdict(slug@) {
                Err(e) => replies_error(r.1, e.0, e.1) && r.0.phase is Done,
                Ok(_) => is_delete(r.1, record_key(slug@)) && r.0.phase is Deleting,
            },
    {
        match validate_slug(slug) {
            Err(invalid) => (
                DeleteHike { slug: String::from_str(slug), phase: DeleteHikePhase::Done },
                plain(Outcome::from_invalid(invalid)),
            ),
            Ok(()) => (
                DeleteHike { slug: String::from_str(slug), phase: DeleteHikePhase::Deleting },
                Action::Delete { key: HikeRecord::key(slug) },
            ),
        }
    }

    /// Deleting a key that is absent succeeds, so a repeated delete is safe.
    pub fn next(self, event: Event) -> (r: (DeleteHike, Action))
        requires
            self.accepts(event),
        ensures
            r.1 is Reply || r.0.awaits(r.1),
            r.0.slug == self.slug,
            r.0.phase is Done,
            match event {
                Event::Stored(Ok(_)) => replies_no_content(r.1),
                Event::Stored(Err(m)) => replies_error(r.1, 502, storage_message(m@)),
                _ => false,
            },
    {
        let DeleteHike { slug, phase } = self;
        match event {
            Event::Stored(Ok(())) => (
                DeleteHike { slug, phase: DeleteHikePhase::Done },
                plain(Outcome::no_content()),
            ),
            Event::Stored(Err(m)) => (
                DeleteHike { slug, phase: DeleteHikePhase::Done },
                plain(upstream(m)),
            ),
            _ => {
                assert(false);
                (DeleteHike { slug, phase: DeleteHikePhase::Done }, plain(Outcome::no_content()))
            },
        }
    }
}

} // verus!
