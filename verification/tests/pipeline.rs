use trid_scan::batch::aggregate_results;
use trid_scan::batch::make_batches;
use trid_scan::batch::process_batch;
use trid_scan::checks::check_trid_database;
use trid_scan::checks::size_within_bounds;
use trid_scan::checks::validate_output_path;
use trid_scan::checks::validate_path;
use trid_scan::checks::validate_trid_path;
use trid_scan::demux::demux_segments;
use trid_scan::errors::TridError;

const HDR: &str = "TrID - File Identifier v2.24 - (C) 2003-16 By M.Pontello";

fn paths(names: &[&str]) -> Vec<String> {
    names.iter().map(|n| n.to_string()).collect()
}

#[test]
fn demux_one_segment_per_header() {
    let stdout = format!("{HDR}\nline a1\nline a2\n{HDR}\nline b1\n{HDR}\nline c1\nline c2\n");
    let segs = demux_segments(&stdout);
    assert_eq!(segs.len(), 3);
    assert_eq!(segs[0], "line a1\nline a2\n");
    assert_eq!(segs[1], "line b1\n");
    assert_eq!(segs[2], "line c1\nline c2\n");
}

#[test]
fn demux_without_headers_is_one_segment() {
    let segs = demux_segments("just some output\nsecond line\n");
    assert_eq!(segs.len(), 1);
    assert_eq!(segs[0], "just some output\nsecond line\n");
}

#[test]
fn demux_of_empty_output_has_no_segments() {
    let segs = demux_segments("");
    assert_eq!(segs.len(), 0);
}

#[test]
fn demux_keeps_empty_bodies() {
    let stdout = format!("{HDR}\n{HDR}\nonly second has a body\n");
    let segs = demux_segments(&stdout);
    assert_eq!(segs.len(), 2);
    assert_eq!(segs[0], "");
    assert_eq!(segs[1], "only second has a body\n");
}

#[test]
fn batch_results_pair_segments_with_paths_in_order() {
    let stdout = format!(
        "{HDR}\n85.5% (.zip) ZIP archive (Mime type : application/zip\nRelated URL: http://example.com\nDefinition : zip-format)\n{HDR}\n42.0% (.bin) Generic binary data\n"
    );
    let results = process_batch(&paths(&["first.file", "second.file"]), &stdout);
    assert_eq!(results.len(), 2);
    assert_eq!(results[0].path, "first.file");
    assert_eq!(results[0].guesses.len(), 1);
    assert_eq!(results[0].guesses[0].extension, ".zip");
    assert_eq!(results[1].path, "second.file");
    assert_eq!(results[1].guesses.len(), 1);
    assert_eq!(results[1].guesses[0].extension, ".bin");
}

#[test]
fn trailing_paths_without_segments_get_no_result() {
    let stdout = format!("{HDR}\n42.0% (.bin) Generic binary data\n{HDR}\n33.3% (.txt) Plain text\n");
    let results = process_batch(&paths(&["a", "b", "c"]), &stdout);
    assert_eq!(results.len(), 2);
    assert_eq!(results[0].path, "a");
    assert_eq!(results[1].path, "b");
}

#[test]
fn unidentified_file_still_gets_a_result() {
    let stdout = format!("{HDR}\nUnknown!\n{HDR}\n42.0% (.bin) Generic binary data\n");
    let results = process_batch(&paths(&["a", "b"]), &stdout);
    assert_eq!(results.len(), 2);
    assert_eq!(results[0].path, "a");
    assert_eq!(results[0].guesses.len(), 0);
    assert_eq!(results[1].guesses.len(), 1);
}

#[test]
fn batches_partition_the_path_list_in_order() {
    let all: Vec<String> = (0..25).map(|i| format!("file{i}")).collect();
    let batches = make_batches(&all, 10);
    assert_eq!(batches.len(), 3);
    assert_eq!(batches[0].len(), 10);
    assert_eq!(batches[1].len(), 10);
    assert_eq!(batches[2].len(), 5);
    let flat: Vec<String> = batches.into_iter().flatten().collect();
    assert_eq!(flat, all);
}

#[test]
fn empty_path_list_yields_no_batches() {
    let batches = make_batches(&Vec::new(), 10);
    assert_eq!(batches.len(), 0);
    let results = aggregate_results(&Vec::new(), &Vec::new());
    assert_eq!(results.len(), 0);
}

#[test]
fn failed_batch_contributes_nothing_but_others_do() {
    let batches = vec![
        paths(&["a1", "a2"]),
        paths(&["b1"]),
        paths(&["c1"]),
    ];
    let good_a = format!("{HDR}\n42.0% (.bin) Generic binary data\n{HDR}\n33.3% (.txt) Plain text\n");
    let good_c = format!("{HDR}\n50.5% (.one) First guess\n");
    let outputs = vec![Some(good_a), None, Some(good_c)];
    let results = aggregate_results(&batches, &outputs);
    assert_eq!(results.len(), 3);
    assert_eq!(results[0].path, "a1");
    assert_eq!(results[1].path, "a2");
    assert_eq!(results[2].path, "c1");
    assert!(results.iter().all(|r| r.path != "b1"));
}

#[test]
fn path_validation_decides_from_observations() {
    assert_eq!(validate_path(false, false).unwrap_err(), TridError::PathDoesNotExist);
    assert_eq!(validate_path(true, false).unwrap_err(), TridError::PathNotDirectory);
    assert!(validate_path(true, true).is_ok());
}

#[test]
fn database_check_reads_the_tool_banner() {
    let bad = "TrID/32 - File Identifier v2.24\ndefinitions database not found!\n";
    assert_eq!(check_trid_database(bad).unwrap_err(), TridError::DatabaseNotFound);
    let good = "TrID/32 - File Identifier v2.24\nUsage: trid [files]\n";
    assert!(check_trid_database(good).is_ok());
}

#[test]
fn size_bounds_respect_optional_limits() {
    assert!(size_within_bounds(500, None, None));
    assert!(size_within_bounds(500, Some(500), None));
    assert!(!size_within_bounds(499, Some(500), None));
    assert!(size_within_bounds(500, None, Some(500)));
    assert!(!size_within_bounds(501, None, Some(500)));
    assert!(size_within_bounds(500, Some(100), Some(1000)));
    assert!(!size_within_bounds(50, Some(100), Some(1000)));
}

#[test]
fn tool_path_syntax_is_checked() {
    assert_eq!(validate_trid_path("./data").unwrap_err(), TridError::UnsupportedPathSyntax);
    assert_eq!(validate_trid_path("../data").unwrap_err(), TridError::UnsupportedPathSyntax);
    assert_eq!(validate_trid_path("my data").unwrap_err(), TridError::UnsupportedPathSyntax);
    assert!(validate_trid_path("samples/archive").is_ok());
}

#[test]
fn output_format_is_checked_by_suffix() {
    assert!(validate_output_path("out.csv").is_ok());
    assert!(validate_output_path("out.json").is_ok());
    assert!(validate_output_path("out.xml").is_ok());
    assert!(validate_output_path("out.html").is_ok());
    assert_eq!(
        validate_output_path("out.txt").unwrap_err(),
        TridError::UnsupportedOutputFormat
    );
}

#[test]
fn lines_before_the_first_header_belong_to_no_segment() {
    let stdout = format!("preamble noise\n{HDR}\nbody line\n");
    let segs = demux_segments(&stdout);
    assert_eq!(segs.len(), 1);
    assert_eq!(segs[0], "body line\n");
}

#[test]
fn batch_size_one_is_single_path_mode() {
    let all = paths(&["a", "b"]);
    let batches = make_batches(&all, 1);
    assert_eq!(batches.len(), 2);
    assert_eq!(batches[0], paths(&["a"]));
    assert_eq!(batches[1], paths(&["b"]));
}
