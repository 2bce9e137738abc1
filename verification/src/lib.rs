//! Host introspection library.
//!
//! The library shapes point-in-time readings of a machine's state (CPU,
//! memory, disks, network interfaces, thermal sensors, users, load average
//! and processes) into one structured JSON document. The readings themselves
//! come from the embedding program as plain values; everything here is the
//! shaping logic: which categories to include, how each record is keyed, and
//! how partial failures degrade to `null` entries instead of aborting.

pub mod aggregate;
pub mod category;
pub mod json;
pub mod normalize;
pub mod records;
pub mod sampler;
