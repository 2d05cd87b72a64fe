# restful_cache

A cache for the responses of a REST API. A response is fresh for a time to live
and answers the requests for its key; after that the next request has it fetched
again. Stale responses are dropped in the background, less and less often while
there is nothing to drop.

The library under `src/` decides, counts and stores, and is verified with Verus:

- `restful_cache.rs`: the cache. `get` answers a request or asks for a fetch,
  `settle` says what to do with what was fetched, `set` stores it, `evict` drops
  what is stale. Each operation that reads the clock has a form that takes the
  readings as arguments (`get_at`, `set_at`, `evict_at`, `stats_at`).
- `state.rs`: what a cache holds, and what each operation makes of it.
- `laws.rs`, `history.rs`: what holds across operations.
- `eviction.rs`: how long to wait between sweeps.
- `key.rs`, `key_map.rs`: keys, and a map hashed by their digests.
- `time.rs`, `clock.rs`: spans, points in time, and the system clock, which keeps
  in mind, for the proofs, what it has shown. The two
  calls to the system clock are the only code that is trusted.

`app/` runs the cache on tokio, with the fetch function of its user.

A key type implements `CacheKey`. Strings, some integers and pairs do already.

A time to live must leave room to look twice as long back; `can_look_back` tells.
