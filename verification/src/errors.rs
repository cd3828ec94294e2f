//! The error taxonomy of the pipeline.

use vstd::prelude::*;

verus! {

/// Everything that the verified core can report as a failure.
#[derive(Debug, Clone, Copy, PartialEq, Eq, Structural)]
pub enum TridError {
    /// The input directory path does not exist.
    PathDoesNotExist,
    /// The input directory path exists but is not a directory.
    PathNotDirectory,
    /// The classification tool reported that its definitions database
    /// is missing.
    DatabaseNotFound,
    /// A raw segment contained no block matching either grammar.
    UnparseableSegment,
    /// The input directory path holds syntax the external tool cannot
    /// take: `./`, `../` or a space.
    UnsupportedPathSyntax,
    /// The output file path names no supported report format.
    UnsupportedOutputFormat,
}

impl TridError {
    /// A human-readable description of the failure.
    pub fn message(&self) -> (r: &'static str)
        ensures
            r@.len() > 0,
    {
        let m: &'static str = match self {
            TridError::PathDoesNotExist => "Path does not exist",
            TridError::PathNotDirectory => "Path is not a directory",
            TridError::DatabaseNotFound => "Trid definitions database not found, please update the database",
            TridError::UnparseableSegment => "Failed to parse trid output",
            TridError::UnsupportedPathSyntax => "TrID does not support paths with './', '../', or spaces",
            TridError::UnsupportedOutputFormat => "Only .csv, .json, or .xml output files are supported at the moment",
        };
        proof {
            reveal_strlit("Path does not exist");
            reveal_strlit("Path is not a directory");
            reveal_strlit("Trid definitions database not found, please update the database");
            reveal_strlit("Failed to parse trid output");
            reveal_strlit("TrID does not support paths with './', '../', or spaces");
            reveal_strlit("Only .csv, .json, or .xml output files are supported at the moment");
        }
        m
    }
}

} // verus!
