# cache_ro

A key/value cache with time-to-live entries and an optional file-backed copy of each
entry.

- `src/` is the verified library (Verus):
  - `table.rs`: the in-memory table of entries (a `dashmap::DashMap` behind specified
    wrappers) and the scan for expired keys;
  - `cache.rs`: `CacheConfig`, `Cache`, the shared `Registry` (run state, current
    instance, table) and the cache operations, each with a clock-free `*_at` form;
  - `clock.rs`: the system clock and `Duration` conversions;
  - `naming.rs`: the file name of a key (SHA-256 digest prefix);
  - `codec.rs`, `pairs.rs`: the bincode file format as a list of entries, and the list
    operations that keep each key once;
  - `persist.rs`: loading a cache file and planning a file update;
  - `laws.rs`: properties of the cache stated as proof functions.
- `app/` is the process-wide cache around it: global state, file I/O, the background
  cleanup thread and the serde encoding of caller values.
- `tests/` exercises the library.
