//! Clustering pipeline over song records.
//!
//! Each record carries five audio attributes and a decade label. The
//! pipeline projects the attributes onto a feature vector, truncates it to a
//! target dimension, assigns a cluster id from the truncated sum, and
//! aggregates per-cluster sums, counts and averages.
//!
//! Attribute values are exact fixed-point numbers: an `i64` counting
//! hundredths of a unit, which matches the two-decimal output format.

pub mod record;
pub mod stages;
pub mod aggregate;
pub mod pipeline;
pub mod laws;
