//! Price aggregation for a virtual marketplace.
//!
//! Raw upstream data (auction listings, an order book, a shop price list) is
//! folded into per-category price records, kept in a cache that always holds
//! the last good record of each category. A sliding-window limiter guards the
//! read path and a usage tracker counts what was served.
//!
//! Nothing here performs I/O: callers fetch, lock and sleep, and hand this
//! library plain values. The one thing that the library reads for itself is
//! the clock, and every function that does so has a twin that takes the time
//! as an argument.

pub mod election;
pub mod fetch;
pub mod framing;
pub mod identity;
pub mod limiter;
pub mod nbt;
pub mod price;
pub mod pricing;
pub mod table;
pub mod text;
pub mod tracking;
pub mod util;
