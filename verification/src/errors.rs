//! The error taxonomy of the ingest core.

use vstd::prelude::*;

verus! {

/// Everything that can go wrong while one run directory is processed.
///
/// A value of this type is the single result of a failed directory; the
/// first fatal error short-circuits the remaining work for that directory.
#[derive(Clone, Copy, PartialEq, Eq, Structural, Debug)]
pub enum IngestError {
    /// No layout-detection rule matched; the directory is skipped.
    LayoutUnknown,
    /// The layout is recognized but its manifests cannot be interpreted.
    LayoutUnsupported,
    /// `RunInfo.xml` is absent.
    ManifestMissing,
    /// A manifest exists but a required value is absent or malformed.
    ManifestParse,
    /// The `<Date>` value matches neither accepted format.
    DateUnparseable,
    /// The RTA version string has no leading integer.
    RtaVersionUnparseable,
    /// A CBCL header violates the version or bit-count assumptions.
    BadCbcl,
    /// An open, read or seek failed, or a file is shorter than its own header promises.
    IoError,
    /// The files of one stack disagree on the cluster count.
    StackLengthMismatch,
    /// The REST service answered with an unexpected status code.
    HttpError(u16),
    /// The project UUID is missing; fatal for the entire run.
    ConfigError,
}

impl IngestError {
    /// A short human-readable name for the error, for log and exit messages.
    pub fn describe(&self) -> (r: String)
        ensures
            r@.len() > 0,
    {
        let s: &str = match self {
            IngestError::LayoutUnknown => "could not guess folder layout",
            IngestError::LayoutUnsupported => "folder layout is not supported",
            IngestError::ManifestMissing => "RunInfo.xml is missing",
            IngestError::ManifestParse => "problem interpreting manifest XML",
            IngestError::DateUnparseable => "could not parse date",
            IngestError::RtaVersionUnparseable => "could not parse RTA version",
            IngestError::BadCbcl => "unsupported CBCL header",
            IngestError::IoError => "problem reading file",
            IngestError::StackLengthMismatch => "files of one stack disagree on cluster count",
            IngestError::HttpError(_) => "unexpected answer from REST service",
            IngestError::ConfigError => "the project UUID must be given",
        };
        proof {
            reveal_strlit("could not guess folder layout");
            reveal_strlit("folder layout is not supported");
            reveal_strlit("RunInfo.xml is missing");
            reveal_strlit("problem interpreting manifest XML");
            reveal_strlit("could not parse date");
            reveal_strlit("could not parse RTA version");
            reveal_strlit("unsupported CBCL header");
            reveal_strlit("problem reading file");
            reveal_strlit("files of one stack disagree on cluster count");
            reveal_strlit("unexpected answer from REST service");
            reveal_strlit("the project UUID must be given");
        }
        s.to_owned()
    }
}

} // verus!
