# stunbeacon

A small signalling service: clients publish their latest public `IP:Port`
per channel, and other clients read it back as plain text or as a gost 3.x
node. 

- `src/` is the verified library (Verus): the channel map and its invariant,
  bearer-token authorisation over raw header bytes, whitespace trimming, the
  gost node rules, the update/undo protocol around the data file write, and
  the laws that relate these operations (`src/laws.rs`).
- `app/` is the HTTP server (axum, tokio): routing, JSON and query decoding
  (serde), and reading and writing the data file.
- `tests/` exercises the library.
