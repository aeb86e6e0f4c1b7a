//! The HTTP handlers, each as a state machine. A handler alternates storage
//! round trips and JSON coding, which the runtime performs, with decisions,
//! which are made here: the runtime starts a handler, performs each
//! [`Action`] it asks for, and hands back the matching [`Event`] until the
//! handler answers with [`Action::Reply`].
pub mod hikes;
pub mod listings;
pub mod locations;
pub mod maps;
pub mod paging;

use vstd::prelude::*;

use crate::models::{texts, HikeLocation, HikeRecord, HikeRequest, HikeSummary, OrphanedObject};
use crate::outcome::{is_error, Outcome};
use crate::text::concat2;
use crate::validate::CoordinateCheck;
use paging::{cursor_text, PageStep};

verus! {

/// What a handler answers with. Everything but `Plain` is a 200 whose JSON
/// body the runtime encodes from the value.
pub enum Reply {
    Plain(Outcome),
    Record(HikeRecord),
    Locations(Vec<HikeLocation>),
    Summaries(Vec<HikeSummary>),
    Orphans(Vec<OrphanedObject>),
}

/// What a handler asks the runtime to do next.
pub enum Action {
    /// Fetch the object at `key`; answer with [`Event::Fetched`].
    Get { key: String },
    /// Store `body` at `key` with `content_type`; answer with
    /// [`Event::Stored`].
    Put { key: String, body: Vec<u8>, content_type: &'static str },
    /// Remove the object at `key`; answer with [`Event::Stored`].
    Delete { key: String },
    /// List one page of the keys under `prefix`, starting at `cursor` (the
    /// first page has none); answer with [`Event::Listed`].
    ListPage { prefix: String, cursor: Option<String> },
    /// Parse `bytes` as a JSON location list; answer with
    /// [`Event::LocationsDecoded`].
    DecodeLocations { bytes: Vec<u8> },
    /// Parse `bytes` as a stored hike record; answer with
    /// [`Event::RecordDecoded`].
    DecodeRecord { bytes: Vec<u8> },
    /// Parse `bytes` as a hike request and range-check its meeting point;
    /// answer with [`Event::RequestDecoded`].
    DecodeRequest { bytes: Vec<u8> },
    /// Encode `record` as JSON; answer with [`Event::Encoded`].
    EncodeRecord { record: HikeRecord },
    /// Encode `locations` as JSON; answer with [`Event::Encoded`].
    EncodeLocations { locations: Vec<HikeLocation> },
    /// Answer the request; the handler is finished.
    Reply { reply: Reply },
}

/// What the runtime hands back after performing an [`Action`]. Errors are
/// carried as their display text.
pub enum Event {
    Fetched(Result<Option<Vec<u8>>, String>),
    Stored(Result<(), String>),
    /// A page of keys, and the cursor of the next page while there is one.
    Listed(Result<(Vec<String>, Option<String>), String>),
    LocationsDecoded(Result<Vec<HikeLocation>, String>),
    RecordDecoded(Result<HikeRecord, String>),
    RequestDecoded(Result<(HikeRequest, CoordinateCheck), String>),
    Encoded(Result<Vec<u8>, String>),
}

/// Whether `a` answers with the JSON error `status`/`message`.
pub open spec fn replies_error(a: Action, status: u16, message: Seq<char>) -> bool {
    match a {
        Action::Reply { reply: Reply::Plain(o) } => is_error(o, status, message),
        _ => false,
    }
}

/// Whether `a` fetches `key`.
pub open spec fn is_get(a: Action, key: Seq<char>) -> bool {
    match a {
        Action::Get { key: k } => k@ == key,
        _ => false,
    }
}

/// Whether `a` stores `body` at `key` with `content_type`.
pub open spec fn is_put(a: Action, key: Seq<char>, body: Seq<u8>, content_type: Seq<char>) -> bool {
    match a {
        Action::Put { key: k, body: b, content_type: c } => k@ == key && b@ == body && c@
            == content_type,
        _ => false,
    }
}

/// Whether `a` removes `key`.
pub open spec fn is_delete(a: Action, key: Seq<char>) -> bool {
    match a {
        Action::Delete { key: k } => k@ == key,
        _ => false,
    }
}

/// Whether `a` lists the page of `prefix` at `cursor`.
pub open spec fn is_list_page(a: Action, prefix: Seq<char>, cursor: Option<Seq<char>>) -> bool {
    match a {
        Action::ListPage { prefix: p, cursor: c } => p@ == prefix && cursor_text(c) == cursor,
        _ => false,
    }
}

/// Whether `a` changes the bucket.
pub open spec fn writes(a: Action) -> bool {
    a is Put || a is Delete
}

/// The message for a stored location mapping that does not parse.
pub open spec fn corrupt_locations_message(error: Seq<char>) -> Seq<char> {
    "stored locations are not valid JSON: "@ + error
}

/// The message for a stored hike record that does not parse.
pub open spec fn corrupt_record_message(error: Seq<char>) -> Seq<char> {
    "stored record is not valid JSON: "@ + error
}

/// The event kind that answers each kind of action.
pub open spec fn answers(a: Action, e: Event) -> bool {
    match a {
        Action::Get { .. } => e is Fetched,
        Action::Put { .. } => e is Stored,
        Action::Delete { .. } => e is Stored,
        Action::ListPage { .. } => e is Listed,
        Action::DecodeLocations { .. } => e is LocationsDecoded,
        Action::DecodeRecord { .. } => e is RecordDecoded,
        Action::DecodeRequest { .. } => e is RequestDecoded,
        Action::EncodeRecord { .. } => e is Encoded,
        Action::EncodeLocations { .. } => e is Encoded,
        Action::Reply { .. } => false,
    }
}

/// What a handler reading the location mapping does with the fetched
/// object: decode it, use the empty list (the object is absent), or fail.
pub enum LocationsFetch {
    Decode(Vec<u8>),
    Ready(Vec<HikeLocation>),
    Failed(Outcome),
}

/// A missing mapping is an empty one: the bucket starts without the object.
/// A storage failure is a 502.
pub fn on_locations_fetched(fetched: Result<Option<Vec<u8>>, String>) -> (r: LocationsFetch)
    ensures
        match fetched {
            Err(m) => r matches LocationsFetch::Failed(o) && is_error(o, 502, crate::outcome::storage_message(m@)),
            Ok(None) => r matches LocationsFetch::Ready(ls) && ls@.len() == 0,
            Ok(Some(b)) => r matches LocationsFetch::Decode(d) && d@ == b@,
        },
{
    match fetched {
        Err(m) => LocationsFetch::Failed(crate::outcome::upstream(m)),
        Ok(None) => LocationsFetch::Ready(Vec::new()),
        Ok(Some(b)) => LocationsFetch::Decode(b),
    }
}

/// A stored mapping that does not parse is a 502: the stored object is at
/// fault, not the request.
pub fn on_locations_decoded(decoded: Result<Vec<HikeLocation>, String>) -> (r: Result<
    Vec<HikeLocation>,
    Outcome,
>)
    ensures
        match decoded {
            Err(m) => r matches Err(o) && is_error(o, 502, corrupt_locations_message(m@)),
            Ok(ls) => r == Ok::<Vec<HikeLocation>, Outcome>(ls),
        },
{
    match decoded {
        Err(m) => Err(Outcome::error(502, concat2("stored locations are not valid JSON: ", m.as_str()))),
        Ok(ls) => Ok(ls),
    }
}

/// What a listing machine does with a paging step: ask for the next page,
/// go on with every key gathered, or answer a storage failure with 502.
pub enum PageOutcome {
    Fetch(Action),
    Keys(Vec<String>),
    Failed(Outcome),
}

/// Turns a paging step into what the handler does next.
pub fn on_page_step(step: PageStep) -> (r: PageOutcome)
    ensures
        match step {
            PageStep::Fetch { prefix, cursor } => r matches PageOutcome::Fetch(a) && is_list_page(
                a,
                prefix@,
                cursor_text(cursor),
            ),
            PageStep::Done(all) => r matches PageOutcome::Keys(ks) && texts(ks@) == texts(all@),
            PageStep::Failed(m) => r matches PageOutcome::Failed(o) && is_error(
                o,
                502,
                crate::outcome::storage_message(m@),
            ),
        },
{
    match step {
        PageStep::Fetch { prefix, cursor } => PageOutcome::Fetch(Action::ListPage { prefix, cursor }),
        PageStep::Done(all) => PageOutcome::Keys(all),
        PageStep::Failed(m) => PageOutcome::Failed(crate::outcome::upstream(m)),
    }
}

/// Answer with `o`.
pub fn plain(o: Outcome) -> (a: Action)
    ensures
        a == (Action::Reply { reply: Reply::Plain(o) }),
{
    Action::Reply { reply: Reply::Plain(o) }
}

} // verus!
