//! Memoization of pure functions.
//!
//! The crate holds the decisions of a memoizing source transformation
//! (which functions it accepts, how it names the cache, how it lays out
//! the cache key) and the per-context cache store that the rewritten
//! functions consult, together with the laws that a memoized function
//! obeys.
pub mod laws;
pub mod store;
pub mod transform;
