//! The write-ahead log: records framed as lines in segment files that are
//! rolled by size, sealed by a rename, and replayed in the order of their
//! names.

pub mod frame;
pub mod order;
pub mod segment;
pub mod record;
pub mod recovery;
pub mod writer;
pub mod reader;
pub mod disk;
pub mod laws;
