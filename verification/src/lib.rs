//! A cache of responses that a REST API gave.
//!
//! A response is fresh for a time to live and answers the requests for its key; after that it is
//! fetched again. [`RESTfulCache`] decides, counts and stores; whoever runs it fetches over the
//! network. [`EvictionSchedule`] says when to drop what has gone stale.
//!
//! What each operation does is stated over [`state::CacheState`]; [`laws`] and [`history`] state
//! what holds across operations. [`cache_laws`], [`map_laws`] and [`time_laws`] state what the calls
//! themselves come to, in numbers, and how they relate.

pub mod cache_laws;
pub mod clock;
pub mod eviction;
pub mod history;
pub mod key;
pub mod key_map;
pub mod laws;
pub mod map_laws;
pub mod restful_cache;
pub mod state;
pub mod time;
pub mod time_laws;

pub use crate::clock::Clock;
pub use crate::eviction::{EvictionSchedule, Sweep};
pub use crate::key::CacheKey;
pub use crate::key_map::KeyMap;
pub use crate::restful_cache::{Lookup, RESTfulCache, Settled};
pub use crate::time::{Duration, Instant};
