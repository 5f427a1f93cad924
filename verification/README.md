# netease_music_api

A verified core for a Netease music download service and a tag-embedding
tool, written in Verus.

- `src/` is the library. Every function has a contract, and Verus proves
  each one. It covers:
  - the resumable ranged download: the chunk grid, the sidecar manifest of
    filled byte ranges, the write-then-record order, and the retry and
    refresh state machine;
  - the eapi request encryption and catalog payloads;
  - the caches and registries (cover cache, in-flight `.part` files, rate
    limiter table, task table), each over a `dashmap::DashMap`;
  - disk-space eviction, lyric merging, file-name and archive-name rules,
    tokens, statistics and runtime configuration;
  - the scan and embed decisions of the tag tool.
- Calls into outside crates (hashing, base64, AES, bcrypt, url, rand, uuid,
  dashmap, governor, encoding_rs, `std::path`) each go through a small
  `#[verifier::external_body]` function. Its contract names what the call
  returns.
- `app/` is the unverified shell. It holds the command-line tool, file and
  network I/O, async loops, serde and lofty. It calls the library for every
  decision.
- `tests/` runs the library against concrete values, with the real outside
  crates linked.
