//! Verified core of a source-tree indexing pipeline.
//!
//! The library discovers files by pattern, splits each file into
//! overlapping line-ranged sections, and assembles a knowledge index
//! that maps every section back to an exact line range of the source.
//! Embedding vectors come from an external provider; the library holds
//! them as opaque bit patterns and verifies everything around them:
//! sectioning, line lookup, discovery, error classification, and the
//! all-or-nothing assembly of the final document.

pub mod config;
pub mod discovery;
pub mod embedding;
pub mod index;
pub mod lines;
pub mod section;
pub mod source_file;

use vstd::prelude::*;

verus! {

/// The configuration format version this library reads and writes.
pub const CONFIG_VERSION: u32 = 1;

} // verus!
