//! Archive extraction as a verified pipeline.
//!
//! The library decodes a gzip-compressed tar stream held in memory,
//! applies component stripping, sub-path filtering and a traversal
//! check to each entry's declared path, and returns the resulting
//! write plan.  The shell around it reads the archive bytes (from a
//! named file or standard input) and materializes the planned writes
//! under the output root.

pub mod decode;
pub mod entry;
pub mod error;
pub mod format;
pub mod fstree;
pub mod paths;
pub mod plan;
pub mod transform;
