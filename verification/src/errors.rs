//! The error kinds the pipeline surfaces.

use vstd::prelude::*;

verus! {

/// A fatal failure of one pipeline invocation. Every kind aborts the whole
/// run: no partial archive is ever handed out.
#[derive(Clone, Copy, Debug, PartialEq, Eq, Structural)]
pub enum PipelineError {
    /// The input file name holds no `.` separator, so no output names can be
    /// derived from it.
    MissingExtensionError,
    /// The input bytes are not a well-formed SMF stream, or a derived
    /// document could not be re-serialized.
    FormatError,
    /// Writing an entry into the in-memory archive failed, or two entries
    /// collided on one name.
    ArchiveError,
}

} // verus!
