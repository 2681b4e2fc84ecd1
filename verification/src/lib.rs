//! Archiving and retrieval of blockchain history segments.
//!
//! The history of a chain is cut into fixed-size segments of
//! [`segments::RECORDS_PER_SEGMENT`] records.  [`builder::SegmentBuilder`]
//! expands each segment into [`segments::PIECES_PER_SEGMENT`] erasure-coded,
//! commitment-bearing pieces; [`reconstructor::SegmentReconstructor`] turns
//! any sufficiently large subset of those pieces back into the original
//! bytes, bit for bit; and [`acquisition`] drives the retrieval of such a
//! subset over an unreliable network, in shrinking batches with backoff.

pub mod acquisition;
pub mod builder;
pub mod bytes;
pub mod commands;
pub mod commitments;
pub mod erasure;
pub mod objects;
pub mod pieces;
pub mod reconstructor;
pub mod segments;
