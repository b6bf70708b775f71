//! A time-bounded memoization cache for substring-search queries, with
//! stampede protection: concurrent identical misses collapse into a single
//! upstream fetch through a double-checked refresh protocol.
//!
//! The crate holds the decision logic of the service: key normalization,
//! the cache store with its freshness rule, and the refresh protocol steps.
//! The surrounding process (HTTP transport, the record store connection,
//! and the actual locks) drives these functions from outside.

pub mod cache;
pub mod laws;
pub mod query;

pub use cache::CacheEntry;
pub use cache::CacheStore;
pub use cache::TTL_MILLIS;
pub use query::RefreshPlan;
pub use query::UpstreamFetchFailure;
pub use query::build_pattern;
pub use query::finish_refresh;
pub use query::normalize_query;
pub use query::plan_refresh;
