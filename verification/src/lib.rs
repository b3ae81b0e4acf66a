//! A structure-of-arrays (SoA) vector for a plain record type.
//!
//! A record with several named fields is stored as one growable buffer per
//! field, all buffers sharing a single logical length.  From the outside the
//! container behaves as one homogeneous collection of records: construction,
//! capacity management, random access through aggregated per-field views,
//! insertion and removal anywhere, append/split, bulk extension, truncation,
//! filtered retention and iteration, with every operation keeping the buffers
//! in lockstep.

pub mod iter;
pub mod laws;
pub mod particle;
pub mod slices;
pub mod soa;
