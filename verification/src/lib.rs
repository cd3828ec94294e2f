//! Verified core of a file-type identification pipeline.
//!
//! The pipeline drives an external signature-matching tool over batches of
//! file paths and interprets its free-form textual report.  This crate holds
//! the verified interpretation logic: splitting one batch's combined output
//! into per-file segments, parsing each segment's ranked candidate guesses
//! with a primary and a fallback grammar, and aggregating per-path results
//! while tolerating partial failures.  Running the external tool itself, the
//! command line, directory traversal and result serialization are left to an
//! unverified front end.

pub mod batch;
pub mod checks;
pub mod demux;
pub mod errors;
pub mod guess;
pub mod scan;
