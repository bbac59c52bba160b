# aborganizer

Logic of an audiobook organizer, written in Verus: what its HTTP handlers,
pipeline stages, command-line client and audit tool decide and compute is
stated in contracts and proved.

- `src/` is the library. Each module holds the types of one topic, what is
  said of them as spec functions, the executable functions with their
  contracts, and the laws that relate them (`law_*`).
- `tests/` runs the library on concrete values.
- `app/` is ordinary Rust around it: the client, the daemon with its database
  and routes, audio decoding and the files of the audit report.

Outside crates are called from `src/` in few places: argon2 for pairing codes,
base64 for fingerprints, serde_json for stored scopes, journal texts and the
syntax of exports. Each call stands in a small function whose contract says
what is relied on.
