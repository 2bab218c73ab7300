//! Quality-control validation and filtering of paired-end FASTQ records.
//!
//! The library parses FASTQ data into [`block::Block`] records, runs a fixed,
//! severity-filtered set of validators over pairs of records drawn in lockstep
//! from two mate sources, and aggregates the failures into a bounded,
//! deterministically ordered error report. It also filters one source against
//! a set of record names, and decodes gzip-compressed sources.

pub mod block;
pub mod fastq;
pub mod filter;
pub mod gzip;
pub mod paired;
pub mod registry;
pub mod runner;
pub mod single;
pub mod validators;
