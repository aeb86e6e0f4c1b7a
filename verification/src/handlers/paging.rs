//! Listing every key under a prefix, one page at a time. The bucket answers
//! a listing in pages, each with a cursor for the next page while there is
//! one; the listing follows the cursor until it runs out and gathers the keys
//! of every page, in the order they came.
use vstd::prelude::*;

use crate::models::texts;

verus! {

/// What the listing does next: fetch a page of keys under `prefix` starting
/// at `cursor` (the first page has none), finish with every key gathered,
/// or fail with the storage error's text.
pub enum PageStep {
    Fetch { prefix: String, cursor: Option<String> },
    Done(Vec<String>),
    Failed(String),
}

/// A listing under way: its prefix and the keys of the pages fetched so far.
pub struct KeyListing {
    pub prefix: String,
    pub keys: Vec<String>,
}

/// The text of an optional string.
pub open spec fn cursor_text(c: Option<String>) -> Option<Seq<char>> {
    match c {
        Some(s) => Some(s@),
        None => None,
    }
}

/// Whether `step` fetches the page of `prefix` at `cursor`.
pub open spec fn fetches(step: PageStep, prefix: Seq<char>, cursor: Option<Seq<char>>) -> bool {
    match step {
        PageStep::Fetch { prefix: p, cursor: c } => p@ == prefix && cursor_text(c) == cursor,
        _ => false,
    }
}

/// `keys` with the page `page` added after them.
fn gather(keys: Vec<String>, page: Vec<String>) -> (all: Vec<String>)
    ensures
        texts(all@) == texts(keys@) + texts(page@),
{
    let mut all = keys;
    let ghost before = all@;
    let mut i: usize = 0;
    while i < page.len()
        invariant
            0 <= i <= page.len(),
            all@.len() == before.len() + i,
            forall|k: int| 0 <= k < before.len() ==> (#[trigger] all@[k])@ == before[k]@,
            forall|k: int| 0 <= k < i ==> (#[trigger] all@[before.len() + k])@ == page@[k]@,
        decreases page.len() - i,
    {
        all.push(page[i].clone());
        i = i + 1;
    }
    assert(texts(all@) =~= texts(before) + texts(page@)) by {
        assert forall|k: int| 0 <= k < all@.len() implies texts(all@)[k] == (texts(before) + texts(
            page@,
        ))[k] by {
            if k >= before.len() {
                assert(all@[before.len() + (k - before.len())] == all@[k]);
            }
        }
    }
    all
}

impl KeyListing {
    /// The first page: under `prefix`, with no cursor.
    pub fn start(prefix: &str) -> (r: (KeyListing, PageStep))
        ensures
            r.0.prefix@ == prefix@,
            r.0.keys@.len() == 0,
            fetches(r.1, prefix@, None),
    {
        (
            KeyListing { prefix: String::from_str(prefix), keys: Vec::new() },
            PageStep::Fetch { prefix: String::from_str(prefix), cursor: None },
        )
    }

    /// Takes a page: its keys are added after those gathered so far; a
    /// cursor asks for the next page, its absence ends the listing, and a
    /// storage error ends it with that error.
    pub fn next(self, page: Result<(Vec<String>, Option<String>), String>) -> (r: (
        KeyListing,
        PageStep,
    ))
        ensures
            r.0.prefix@ == self.prefix@,
            match page {
                Ok((ks, Some(c))) => {
                    &&& texts(r.0.keys@) == texts(self.keys@) + texts(ks@)
                    &&& fetches(r.1, self.prefix@, Some(c@))
                },
                Ok((ks, None)) => r.1 matches PageStep::Done(all) && texts(all@) == texts(
                    self.keys@,
                ) + texts(ks@),
                Err(m) => r.1 matches PageStep::Failed(m2) && m2@ == m@,
            },
    {
        let KeyListing { prefix, keys } = self;
        match page {
            Ok((ks, Some(c))) => {
                let all = gather(keys, ks);
                let p = prefix.clone();
                (KeyListing { prefix, keys: all }, PageStep::Fetch { prefix: p, cursor: Some(c) })
            },
            Ok((ks, None)) => {
                let all = gather(keys, ks);
                (KeyListing { prefix, keys: Vec::new() }, PageStep::Done(all))
            },
            Err(m) => (KeyListing { prefix, keys }, PageStep::Failed(m)),
        }
    }
}

} // verus!
