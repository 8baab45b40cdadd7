//! Core logic for a real-time transit proximity query: merging a paired
//! vehicle-position / trip-update feed into per-train records, inferring the
//! stop a train is heading to, computing a bounded human-readable ETA,
//! classifying travel direction, and filtering a stop catalog by distance.

pub mod ext;
pub mod helpers;
pub mod query;
pub mod types;
