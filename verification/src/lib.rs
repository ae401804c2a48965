//! A member resolution cache for native interop with a managed,
//! garbage-collected runtime.
//!
//! Native code repeatedly resolves methods and fields of managed
//! classes through the host runtime's lookup API. This crate caches
//! those resolutions: a pool of independently leased, fixed-capacity
//! least-recently-used slots maps (owning class identity, member name,
//! types token) triples to the opaque native handles the host returned.
//! A cached entry answers only while its weakly-referenced owning class
//! is still the same live object; a stale entry is a miss, never an
//! error, and the least recently used entry leaves when a slot is full.

pub mod pool;
pub mod resolver;
pub mod runtime;
pub mod signature;
pub mod slot;
