# hike-club-admin

The verified core of the hike club's admin worker: the trust boundary every
write to the R2 bucket passes through, and the decisions of each HTTP
handler, proved with Verus.

- `src/validate.rs` — slug rules, the known-location check, trail lists,
  location lists, trail map uploads, and building the stored record.
- `src/models.rs` — the stored shapes and the keys objects live under.
- `src/handlers/` — each handler as a state machine: the runtime performs the
  storage round trips and JSON coding it asks for, and feeds back the results;
  `paging.rs` follows the bucket's listing cursor page by page.
- `src/listing.rs` — summary rows and the report of orphaned objects.
- `src/laws.rs` — properties of the library as a whole.
- `src/outcome.rs`, `src/json.rs`, `src/time.rs`, `src/text.rs` — answers,
  JSON strings, RFC 3339 instants, and character helpers.
- `app/` — the Cloudflare Worker around it: routing, the R2 binding, serde
  types, and the loop that runs a handler.
