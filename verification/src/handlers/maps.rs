//! `GET`, `PUT` and `DELETE /api/map/{slug}`: custody of the one trail map
//! per location at `hikes/{slug}/map.png`, independent of the hike record.
use vstd::prelude::*;

use super::hikes::replies_no_content;
use super::{
    answers,
    corrupt_locations_message, is_delete, is_get, is_put, on_locations_decoded,
    on_locations_fetched, plain, replies_error, Action, Event, LocationsFetch, Reply,
};
use crate::models::{location_views, map_key, HikeLocation, HikeRecord, LOCATIONS_KEY};
use crate::outcome::{storage_message, upstream, Outcome};
use crate::text::concat3;
use crate::validate::{
    known_slug_verdict, map_upload_verdict, slug_verdict, validate_known_slug,
    validate_map_upload, validate_slug,
};

verus! {

/// Whether `a` answers 200 with `body` as `image/png`.
pub open spec fn replies_png(a: Action, body: Seq<u8>) -> bool {
    match a {
        Action::Reply { reply: Reply::Plain(o) } => {
            &&& o.status == 200
            &&& o.content_type@ == "image/png"@
            &&& o.body@ == body
        },
        _ => false,
    }
}

/// The text of an optional string.
pub open spec fn opt_text(o: Option<String>) -> Option<Seq<char>> {
    match o {
        Some(s) => Some(s@),
        None => None,
    }
}

/// What a map upload is answered before anything is written: the slug must
/// name a known location, then the upload must be a PNG of acceptable size.
pub open spec fn map_write_verdict(
    slug: Seq<char>,
    content_type: Option<Seq<char>>,
    len: nat,
    locations: Seq<(Seq<char>, Seq<char>)>,
) -> Result<(), (u16, Seq<char>)> {
    match known_slug_verdict(slug, locations) {
        Err(e) => Err(e),
        Ok(_) => map_upload_verdict(content_type, len),
    }
}

// ---------------------------------------------------------------- GET
/// Where `GET /api/map/{slug}` stands.
pub enum GetMapPhase {
    Fetching,
    Done,
}

/// `GET /api/map/{slug}`: the stored bytes unaltered, 404 when there is no
/// map.
pub struct GetMap {
    pub slug: String,
    pub phase: GetMapPhase,
}

impl GetMap {
    /// The events this handler can take next.
    pub open spec fn accepts(&self, e: Event) -> bool {
        match self.phase {
            GetMapPhase::Fetching => e is Fetched,
            GetMapPhase::Done => false,
        }
    }

    /// Whether every answer to `a` is an event this handler can take.
    pub open spec fn awaits(&self, a: Action) -> bool {
        forall|e: Event| answers(a, e) ==> self.accepts(e)
    }

    pub fn start(slug: &str) -> (r: (GetMap, Action))
        ensures
            r.1 is Reply || r.0.awaits(r.1),
            r.0.slug@ == slug@,
            match slug_verdict(slug@) {
                Err(e) => replies_error(r.1, e.0, e.1) && r.0.phase is Done,
                Ok(_) => is_get(r.1, map_key(slug@)) && r.0.phase is Fetching,
            },
    {
        match validate_slug(slug) {
            Err(invalid) => (
                GetMap { slug: String::from_str(slug), phase: GetMapPhase::Done },
                plain(Outcome::from_invalid(invalid)),
            ),
            Ok(()) => (
                GetMap { slug: String::from_str(slug), phase: GetMapPhase::Fetching },
                Action::Get { key: HikeRecord::map_key_for(slug) },
            ),
        }
    }

    pub fn next(self, event: Event) -> (r: (GetMap, Action))
        requires
            self.accepts(event),
        ensures
            r.1 is Reply || r.0.awaits(r.1),
            r.0.slug == self.slug,
            r.0.phase is Done,
            match event {
                Event::Fetched(Ok(Some(b))) => replies_png(r.1, b@),
                Event::Fetched(Ok(None)) => replies_error(
                    r.1,
                    404,
                    "no trail map for '"@ + self.slug@ + "'"@,
                ),
                Event::Fetched(Err(m)) => replies_error(r.1, 502, storage_message(m@)),
                _ => false,
            },
    {
        let GetMap { slug, phase } = self;
        match event {
            Event::Fetched(Ok(Some(bytes))) => (
                GetMap { slug, phase: GetMapPhase::Done },
                plain(Outcome::png(bytes)),
            ),
            Event::Fetched(Ok(None)) => {
                let message = concat3("no trail map for '", slug.as_str(), "'");
                (GetMap { slug, phase: GetMapPhase::Done }, plain(Outcome::error(404, message)))
            },
            Event::Fetched(Err(m)) => (GetMap { slug, phase: GetMapPhase::Done }, plain(upstream(m))),
            _ => {
                assert(false);
                (GetMap { slug, phase: GetMapPhase::Done }, plain(Outcome::no_content()))
            },
        }
    }
}

// ---------------------------------------------------------------- PUT
/// Where `PUT /api/map/{slug}` stands.
pub enum PutMapPhase {
    FetchingLocations,
    DecodingLocations,
    Storing,
    Done,
}

/// `PUT /api/map/{slug}`: read the location mapping, check the slug and the
/// upload, and store the bytes at `hikes/{slug}/map.png` as `image/png`.
pub struct PutMap {
    pub slug: String,
    pub content_type: Option<String>,
    pub body: Vec<u8>,
    pub phase: PutMapPhase,
}

impl PutMap {
    /// The events this handler can take next.
    pub open spec fn accepts(&self, e: Event) -> bool {
        match self.phase {
            PutMapPhase::FetchingLocations => e is Fetched,
            PutMapPhase::DecodingLocations => e is LocationsDecoded,
            PutMapPhase::Storing => e is Stored,
            PutMapPhase::Done => false,
        }
    }

    /// How the handler proceeds once the mapping `locations` is known.
    pub open spec fn decides(&self, locations: Seq<(Seq<char>, Seq<char>)>, r: (PutMap, Action)) -> bool {
        match map_write_verdict(self.slug@, opt_text(self.content_type), self.body@.len(), locations) {
            Err(e) => replies_error(r.1, e.0, e.1) && r.0.phase is Done,
            Ok(_) => is_put(r.1, map_key(self.slug@), self.body@, "image/png"@) && r.0.phase is Storing,
        }
    }

    /// Whether every answer to `a` is an event this handler can take.
    pub open spec fn awaits(&self, a: Action) -> bool {
        forall|e: Event| answers(a, e) ==> self.accepts(e)
    }

    /// The first step reads the location mapping, the allowlist of slugs
    /// that may be written.
    pub fn start(slug: &str, content_type: Option<String>, body: Vec<u8>) -> (r: (PutMap, Action))
        ensures
            r.1 is Reply || r.0.awaits(r.1),
            r.0.slug@ == slug@,
            opt_text(r.0.content_type) == opt_text(content_type),
            r.0.body@ == body@,
            r.0.phase is FetchingLocations,
            is_get(r.1, LOCATIONS_KEY@),
    {
        (
            PutMap {
                slug: String::from_str(slug),
                content_type,
                body,
                phase: PutMapPhase::FetchingLocations,
            },
            Action::Get { key: String::from_str(LOCATIONS_KEY) },
        )
    }

    /// Checks against the known `locations` and writes the map, or answers
    /// with the rejection.
    fn decide(self, locations: Vec<HikeLocation>) -> (r: (PutMap, Action))
        ensures
            r.0.slug == self.slug,
            self.decides(location_views(locations@), r),
    {
        let PutMap { slug, content_type, body, phase } = self;
        if let Err(invalid) = validate_known_slug(slug.as_str(), locations.as_slice()) {
            return (
                PutMap { slug, content_type, body, phase: PutMapPhase::Done },
                plain(Outcome::from_invalid(invalid)),
            );
        }
        let checked = match &content_type {
            Some(c) => validate_map_upload(Some(c.as_str()), body.len()),
            None => validate_map_upload(None, body.len()),
        };
        if let Err(invalid) = checked {
            return (
                PutMap { slug, content_type, body, phase: PutMapPhase::Done },
                plain(Outcome::from_invalid(invalid)),
            );
        }
        let key = HikeRecord::map_key_for(slug.as_str());
        (
            PutMap { slug, content_type, body: Vec::new(), phase: PutMapPhase::Storing },
            Action::Put { key, body, content_type: "image/png" },
        )
    }

    pub fn next(self, event: Event) -> (r: (PutMap, Action))
        requires
            self.accepts(event),
        ensures
            r.1 is Reply || r.0.awaits(r.1),
            r.0.slug == self.slug,
            match event {
                Event::Fetched(Err(m)) => {
                    &&& replies_error(r.1, 502, storage_message(m@))
                    &&& r.0.phase is Done
                },
                Event::Fetched(Ok(None)) => self.decides(Seq::empty(), r),
                Event::Fetched(Ok(Some(b))) => {
                    &&& r.1 matches Action::DecodeLocations { bytes } && bytes@ == b@
                    &&& r.0.body@ == self.body@
                    &&& opt_text(r.0.content_type) == opt_text(self.content_type)
                    &&& r.0.phase is DecodingLocations
                },
                Event::LocationsDecoded(Err(m)) => {
                    &&& replies_error(r.1, 502, corrupt_locations_message(m@))
                    &&& r.0.phase is Done
                },
                Event::LocationsDecoded(Ok(ls)) => self.decides(location_views(ls@), r),
                Event::Stored(Ok(_)) => replies_no_content(r.1) && r.0.phase is Done,
                Event::Stored(Err(m)) => {
                    &&& replies_error(r.1, 502, storage_message(m@))
                    &&& r.0.phase is Done
                },
                _ => false,
            },
    {
        match event {
            Event::Fetched(fetched) => match on_locations_fetched(fetched) {
                LocationsFetch::Failed(o) => {
                    let PutMap { slug, content_type, body, phase } = self;
                    (PutMap { slug, content_type, body, phase: PutMapPhase::Done }, plain(o))
                },
                LocationsFetch::Ready(ls) => {
                    assert(location_views(ls@) =~= Seq::empty());
                    self.decide(ls)
                },
                LocationsFetch::Decode(bytes) => {
                    let PutMap { slug, content_type, body, phase } = self;
                    (
                        PutMap { slug, content_type, body, phase: PutMapPhase::DecodingLocations },
                        Action::DecodeLocations { bytes },
                    )
                },
            },
            Event::LocationsDecoded(decoded) => match on_locations_decoded(decoded) {
                Err(o) => {
                    let PutMap { slug, content_type, body, phase } = self;
                    (PutMap { slug, content_type, body, phase: PutMapPhase::Done }, plain(o))
                },
                Ok(ls) => self.decide(ls),
            },
            Event::Stored(stored) => {
                let PutMap { slug, content_type, body, phase } = self;
                let reply = match stored {
                    Ok(()) => Outcome::no_content(),
                    Err(m) => upstream(m),
                };
                (PutMap { slug, content_type, body, phase: PutMapPhase::Done }, plain(reply))
            },
            _ => {
                assert(false);
                let PutMap { slug, content_type, body, phase } = self;
                (PutMap { slug, content_type, body, phase: PutMapPhase::Done }, plain(Outcome::no_content()))
            },
        }
    }
}

// ---------------------------------------------------------------- DELETE
/// Where `DELETE /api/map/{slug}` stands.
pub enum DeleteMapPhase {
    Deleting,
    Done,
}

/// `DELETE /api/map/{slug}`: removes only the map; the record stays. The
/// slug need not name a known location, so a map stranded by a removed
/// location can still be cleared.
pub struct DeleteMap {
    pub slug: String,
    pub phase: DeleteMapPhase,
}

impl DeleteMap {
    /// The events this handler can take next.
    pub open spec fn accepts(&self, e: Event) -> bool {
        match self.phase {
            DeleteMapPhase::Deleting => e is Stored,
            DeleteMapPhase::Done => false,
        }
    }

    /// Whether every answer to `a` is an event this handler can take.
    pub open spec fn awaits(&self, a: Action) -> bool {
        forall|e: Event| answers(a, e) ==> self.accepts(e)
    }

    pub fn start(slug: &str) -> (r: (DeleteMap, Action))
        ensures
            r.1 is Reply || r.0.awaits(r.1),
            r.0.slug@ == slug@,
            match slug_verdict(slug@) {
                Err(e) => replies_error(r.1, e.0, e.1) && r.0.phase is Done,
                Ok(_) => is_delete(r.1, map_key(slug@)) && r.0.phase is Deleting,
            },
    {
        match validate_slug(slug) {
            Err(invalid) => (
                DeleteMap { slug: String::from_str(slug), phase: DeleteMapPhase::Done },
                plain(Outcome::from_invalid(invalid)),
            ),
            Ok(()) => (
                DeleteMap { slug: String::from_str(slug), phase: DeleteMapPhase::Deleting },
                Action::Delete { key: HikeRecord::map_key_for(slug) },
            ),
        }
    }

    /// Deleting an absent map succeeds, so a repeated delete is safe.
    pub fn next(self, event: Event) -> (r: (DeleteMap, Action))
        requires
            self.accepts(event),
        ensures
            r.1 is Reply || r.0.awaits(r.1),
            r.0.slug == self.slug,
            r.0.phase is Done,
            match event {
                Event::Stored(Ok(_)) => replies_no_content(r.1),
                Event::Stored(Err(m)) => replies_error(r.1, 502, storage_message(m@)),
                _ => false,
            },
    {
        let DeleteMap { slug, phase } = self;
        match event {
            Event::Stored(Ok(())) => (
                DeleteMap { slug, phase: DeleteMapPhase::Done },
                plain(Outcome::no_content()),
            ),
            Event::Stored(Err(m)) => (
                DeleteMap { slug, phase: DeleteMapPhase::Done },
                plain(upstream(m)),
            ),
            _ => {
                assert(false);
                (DeleteMap { slug, phase: DeleteMapPhase::Done }, plain(Outcome::no_content()))
            },
        }
    }
}

} // verus!
