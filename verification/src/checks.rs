//! Verified decision parts of the pipeline's edge checks.  The front end
//! queries the file system, the command line and the external tool, and
//! hands the observed plain values to these functions, which decide.

use vstd::prelude::*;

use crate::errors::TridError;
use crate::scan::find_from;
use crate::scan::match_at;
use crate::scan::spec_find;
use crate::scan::spec_matches_at;

verus! {

/// Decides whether an observed input path is usable: it must exist and
/// be a directory.
pub fn validate_path(exists: bool, is_dir: bool) -> (r: Result<(), TridError>)
    ensures
        r is Ok <==> exists && is_dir,
        r == Err::<(), TridError>(TridError::PathDoesNotExist) <==> !exists,
        r == Err::<(), TridError>(TridError::PathNotDirectory) <==> exists && !is_dir,
{
    if !exists {
        Err(TridError::PathDoesNotExist)
    } else if !is_dir {
        Err(TridError::PathNotDirectory)
    } else {
        Ok(())
    }
}

/// Whether the tool's bare invocation output reports a missing
/// definitions database.
pub open spec fn spec_reports_missing_database(stdout: Seq<char>) -> bool {
    spec_find(stdout, "database not found!"@, 0) is Some
}

/// Decides from the tool's bare invocation output whether its
/// definitions database is present.
pub fn check_trid_database(stdout: &str) -> (r: Result<(), TridError>)
    ensures
        r is Ok <==> !spec_reports_missing_database(stdout@),
        r is Err ==> r == Err::<(), TridError>(TridError::DatabaseNotFound),
{
    match find_from(stdout, "database not found!", 0) {
        Some(_) => Err(TridError::DatabaseNotFound),
        None => Ok(()),
    }
}

/// Decides whether a file of `size` bytes passes the optional minimum
/// and maximum size bounds.
pub fn size_within_bounds(size: u64, min: Option<u64>, max: Option<u64>) -> (r: bool)
    ensures
        r == ((match min {
            Some(lo) => size >= lo,
            None => true,
        }) && (match max {
            Some(hi) => size <= hi,
            None => true,
        })),
{
    let lo_ok = match min {
        Some(lo) => size >= lo,
        None => true,
    };
    let hi_ok = match max {
        Some(hi) => size <= hi,
        None => true,
    };
    lo_ok && hi_ok
}

/// Whether a path contains a piece of syntax the external tool cannot
/// take: a `./` (which also covers `../`) or a space.
pub open spec fn spec_unsupported_path_syntax(path: Seq<char>) -> bool {
    spec_find(path, "./"@, 0) is Some || spec_find(path, " "@, 0) is Some
}

/// Decides whether an input directory argument is acceptable to the
/// external tool: it must not contain `./`, `../` or spaces.
pub fn validate_trid_path(path: &str) -> (r: Result<(), TridError>)
    ensures
        r is Ok <==> !spec_unsupported_path_syntax(path@),
        r is Err ==> r == Err::<(), TridError>(TridError::UnsupportedPathSyntax),
{
    if find_from(path, "./", 0).is_some() {
        return Err(TridError::UnsupportedPathSyntax);
    }
    if find_from(path, " ", 0).is_some() {
        return Err(TridError::UnsupportedPathSyntax);
    }
    Ok(())
}

/// Whether `s` ends with `suffix`.
pub open spec fn spec_ends_with(s: Seq<char>, suffix: Seq<char>) -> bool {
    spec_matches_at(s, suffix, s.len() - suffix.len())
}

/// Whether an output path names one of the supported report formats.
pub open spec fn spec_supported_output_path(path: Seq<char>) -> bool {
    spec_ends_with(path, ".csv"@) || spec_ends_with(path, ".json"@) || spec_ends_with(
        path,
        ".xml"@,
    ) || spec_ends_with(path, ".html"@)
}

/// Whether `s` ends with the literal `suffix`.
fn ends_with_lit(s: &str, suffix: &str) -> (r: bool)
    ensures
        r == spec_ends_with(s@, suffix@),
{
    let n = s.unicode_len();
    let m = suffix.unicode_len();
    if m > n {
        return false;
    }
    match_at(s, suffix, n - m)
}

/// Decides whether an output file argument names a supported report
/// format: `.csv`, `.json`, `.xml` or `.html`.
pub fn validate_output_path(path: &str) -> (r: Result<(), TridError>)
    ensures
        r is Ok <==> spec_supported_output_path(path@),
        r is Err ==> r == Err::<(), TridError>(TridError::UnsupportedOutputFormat),
{
    if ends_with_lit(path, ".csv") || ends_with_lit(path, ".json") || ends_with_lit(path, ".xml")
        || ends_with_lit(path, ".html") {
        Ok(())
    } else {
        Err(TridError::UnsupportedOutputFormat)
    }
}

} // verus!
