use trid_scan::errors::TridError;
use trid_scan::guess::parse_trid_output;

#[test]
fn primary_grammar_scenario() {
    let segment = "85.5% (.zip) ZIP archive (Mime type : application/zip\nRelated URL: http://example.com\nDefinition : zip-format)";
    let guesses = parse_trid_output(segment).unwrap();
    assert_eq!(guesses.len(), 1);
    let g = &guesses[0];
    assert_eq!(g.percentage, "85.5%");
    assert_eq!(g.extension, ".zip");
    assert_eq!(g.name, "ZIP archive");
    assert_eq!(g.mime_type, "application/zip");
    assert_eq!(g.url, "http://example.com");
    assert_eq!(g.definition, "zip-format");
}

#[test]
fn fallback_grammar_scenario() {
    let segment = "42.0% (.bin) Generic binary data";
    let guesses = parse_trid_output(segment).unwrap();
    assert_eq!(guesses.len(), 1);
    let g = &guesses[0];
    assert_eq!(g.percentage, "42.0%");
    assert_eq!(g.extension, ".bin");
    assert_eq!(g.name, "Generic binary data");
    assert_eq!(g.mime_type, "");
    assert_eq!(g.url, "");
    assert_eq!(g.definition, "");
}

#[test]
fn realistic_verbose_block() {
    let segment = " 61.4% (.ZIP) ZIP compressed archive (4000/1)\n  Mime type  : application/zip\n  Related URL: http://www.example.com/zip\n  Definition : ZIP.trid.xml\n";
    let guesses = parse_trid_output(segment).unwrap();
    assert_eq!(guesses.len(), 1);
    let g = &guesses[0];
    assert_eq!(g.percentage, "61.4%");
    assert_eq!(g.extension, ".ZIP");
    assert_eq!(g.name, "ZIP compressed archive");
    assert_eq!(g.mime_type, "application/zip");
    assert_eq!(g.url, "http://www.example.com/zip");
    assert_eq!(g.definition, "ZIP.trid.xml");
}

#[test]
fn noise_blocks_do_not_disturb_siblings() {
    let segment = "Collecting data from file...\n\n90.0% (.a) Alpha data\n\nWarning: something odd\n\n10.0% (.b) Beta data";
    let guesses = parse_trid_output(segment).unwrap();
    assert_eq!(guesses.len(), 2);
    assert_eq!(guesses[0].percentage, "90.0%");
    assert_eq!(guesses[0].name, "Alpha data");
    assert_eq!(guesses[1].percentage, "10.0%");
    assert_eq!(guesses[1].name, "Beta data");
}

#[test]
fn guess_order_follows_appearance() {
    let segment = "50.5% (.one) First guess\n\n30.2% (.two) Second guess\n\n19.3% (.three) Third guess";
    let guesses = parse_trid_output(segment).unwrap();
    assert_eq!(guesses.len(), 3);
    assert_eq!(guesses[0].extension, ".one");
    assert_eq!(guesses[1].extension, ".two");
    assert_eq!(guesses[2].extension, ".three");
}

#[test]
fn unparseable_segment_is_an_error() {
    let segment = "Nothing that looks like a guess here.";
    let r = parse_trid_output(segment);
    assert_eq!(r.unwrap_err(), TridError::UnparseableSegment);
}

#[test]
fn empty_segment_is_an_error() {
    let r = parse_trid_output("");
    assert_eq!(r.unwrap_err(), TridError::UnparseableSegment);
}

#[test]
fn reparsing_a_segment_is_idempotent() {
    let segment = "85.5% (.zip) ZIP archive (Mime type : application/zip\nRelated URL: http://example.com\nDefinition : zip-format)\n\n42.0% (.bin) Generic binary data";
    let first = parse_trid_output(segment).unwrap();
    let second = parse_trid_output(segment).unwrap();
    assert_eq!(first, second);
}

#[test]
fn primary_falls_back_when_details_are_incomplete() {
    let segment = "77.7% (.dat) Data file (Mime type : application/octet-stream)";
    let guesses = parse_trid_output(segment).unwrap();
    assert_eq!(guesses.len(), 1);
    let g = &guesses[0];
    assert_eq!(g.percentage, "77.7%");
    assert_eq!(g.extension, ".dat");
    assert_eq!(g.name, "Data file (Mime type : application/octet-stream)");
    assert_eq!(g.mime_type, "");
    assert_eq!(g.url, "");
    assert_eq!(g.definition, "");
}

#[test]
fn error_messages_match_the_reported_text() {
    assert_eq!(
        TridError::UnparseableSegment.message(),
        "Failed to parse trid output"
    );
    assert_eq!(
        TridError::DatabaseNotFound.message(),
        "Trid definitions database not found, please update the database"
    );
}
