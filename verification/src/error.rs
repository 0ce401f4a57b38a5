use vstd::prelude::*;

verus! {

/// The failures that the extraction logic itself can report.
///
/// I/O failures (a missing archive file, a directory that cannot be
/// created, a write that fails) belong to the unverified shell around
/// this library; they never arise inside it.
#[derive(Clone, Copy, PartialEq, Eq, Structural, Debug)]
pub enum ExtractError {
    /// The byte stream is not a well-formed archive: a bad header, a
    /// truncated stream, or a failed checksum.
    CorruptArchive,
    /// The target's file name carries no extension that names a
    /// supported container format.
    UnrecognizedFormat,
}

} // verus!
