//! The batch demultiplexer: splits the combined standard output of one
//! batch invocation into an ordered sequence of per-file raw segments.
//!
//! A line beginning with the report header literal starts a new segment;
//! every following line up to the next header or the end of the output
//! belongs to that segment.  The header line itself is a boundary marker
//! and is not part of the segment body.  Re-association with input paths
//! is positional, by submission order, and is left to the scheduler.  When
//! no header occurs at all, the whole output is one segment (single-path
//! invocation mode); when the output is empty there are no segments.

use vstd::prelude::*;

use crate::scan::CharClass;
use crate::scan::match_at;
use crate::scan::run_end;
use crate::scan::spec_matches_at;
use crate::scan::spec_run_len;

verus! {

/// The literal that opens each per-file report header line.
pub open spec fn spec_header_lit() -> Seq<char> {
    "TrID - File Identifier v"@
}

/// Whether a line is a per-file report header.
pub open spec fn spec_is_header(line: Seq<char>) -> bool {
    spec_matches_at(line, spec_header_lit(), 0)
}

/// The lines of `s` from position `from` on, split on line breaks; a
/// trailing empty piece after a final line break is not a line.
pub open spec fn spec_lines_from(s: Seq<char>, from: int) -> Seq<Seq<char>>
    decreases s.len() - from when from <= s.len()
{
    if !(0 <= from && from < s.len()) {
        Seq::empty()
    } else {
        let e = from + spec_run_len(s, from, CharClass::Line);
        if e < s.len() {
            seq![s.subrange(from, e)] + spec_lines_from(s, e + 1)
        } else {
            seq![s.subrange(from, s.len() as int)]
        }
    }
}

/// The lines of a whole text.
pub open spec fn spec_lines(s: Seq<char>) -> Seq<Seq<char>> {
    spec_lines_from(s, 0)
}

/// Number of consecutive non-header lines in `ls` starting at `from`.
pub open spec fn spec_body_len(ls: Seq<Seq<char>>, from: int) -> nat
    decreases ls.len() - from when from <= ls.len()
{
    if 0 <= from && from < ls.len() && !spec_is_header(ls[from]) {
        1 + spec_body_len(ls, from + 1)
    } else {
        0
    }
}

/// A body run stays inside `ls`, consists of non-header lines, and is
/// ended by the end of `ls` or by a header line.
pub proof fn lemma_body_len(ls: Seq<Seq<char>>, from: int)
    requires
        0 <= from <= ls.len(),
    ensures
        from + spec_body_len(ls, from) <= ls.len(),
        forall|i: int| from <= i < from + spec_body_len(ls, from) ==> !spec_is_header(ls[i]),
        from + spec_body_len(ls, from) == ls.len() || spec_is_header(
            ls[from + spec_body_len(ls, from)],
        ),
    decreases ls.len() - from,
{
    if from < ls.len() && !spec_is_header(ls[from]) {
        lemma_body_len(ls, from + 1);
    }
}

/// The lines `ls` joined back into one text, each line followed by a
/// line break.
pub open spec fn spec_join_nl(ls: Seq<Seq<char>>) -> Seq<char>
    decreases ls.len(),
{
    if ls.len() == 0 {
        Seq::empty()
    } else {
        spec_join_nl(ls.drop_last()) + ls.last() + seq!['\n']
    }
}

/// The segments that start at the header line at index `from` of `ls`:
/// one segment per header, holding the joined body lines up to the next
/// header.
pub open spec fn spec_segments_from(ls: Seq<Seq<char>>, from: int) -> Seq<Seq<char>>
    decreases ls.len() - from when 0 <= from <= ls.len()
{
    if !(0 <= from && from < ls.len()) {
        Seq::empty()
    } else {
        let k = spec_body_len(ls, from + 1);
        if from + 1 + k < ls.len() {
            seq![spec_join_nl(ls.subrange(from + 1, from + 1 + k))] + spec_segments_from(
                ls,
                from + 1 + k,
            )
        } else {
            seq![spec_join_nl(ls.subrange(from + 1, ls.len() as int))]
        }
    }
}

/// The raw segments of one batch invocation's combined standard output.
///
/// With at least one header line, each header yields one segment, in
/// order of appearance; lines before the first header belong to no
/// segment.  With no header, a non-empty output is one single segment
/// and an empty output has none.
pub open spec fn spec_demux(s: Seq<char>) -> Seq<Seq<char>> {
    let ls = spec_lines(s);
    let k = spec_body_len(ls, 0);
    if k == ls.len() {
        if ls.len() == 0 {
            Seq::empty()
        } else {
            seq![spec_join_nl(ls)]
        }
    } else {
        spec_segments_from(ls, k as int)
    }
}

/// Number of header lines in `ls` at index `from` or later.
pub open spec fn spec_count_headers(ls: Seq<Seq<char>>, from: int) -> nat
    decreases ls.len() - from when from <= ls.len()
{
    if !(0 <= from && from < ls.len()) {
        0
    } else if spec_is_header(ls[from]) {
        1 + spec_count_headers(ls, from + 1)
    } else {
        spec_count_headers(ls, from + 1)
    }
}

/// Skipping a run of non-header lines does not change the header count.
proof fn lemma_count_skip_body(ls: Seq<Seq<char>>, from: int)
    requires
        0 <= from <= ls.len(),
    ensures
        spec_count_headers(ls, from + spec_body_len(ls, from)) == spec_count_headers(ls, from),
    decreases ls.len() - from,
{
    if from < ls.len() && !spec_is_header(ls[from]) {
        lemma_count_skip_body(ls, from + 1);
    }
}

/// Starting at a header line, the demultiplexer yields exactly one
/// segment per header line.
proof fn lemma_segments_count(ls: Seq<Seq<char>>, from: int)
    requires
        0 <= from <= ls.len(),
        from == ls.len() || spec_is_header(ls[from]),
    ensures
        spec_segments_from(ls, from).len() == spec_count_headers(ls, from),
    decreases ls.len() - from,
{
    if from < ls.len() {
        let k = spec_body_len(ls, from + 1);
        lemma_body_len(ls, from + 1);
        lemma_count_skip_body(ls, from + 1);
        lemma_segments_count(ls, from + 1 + k);
        if !(from + 1 + k < ls.len()) {
            assert(spec_count_headers(ls, from + 1 + k) == 0);
        }
    }
}

/// The ascending indices of the header lines of `ls` at or after `from`.
pub open spec fn spec_header_positions(ls: Seq<Seq<char>>, from: int) -> Seq<int>
    decreases ls.len() - from when from <= ls.len()
{
    if !(0 <= from && from < ls.len()) {
        Seq::empty()
    } else if spec_is_header(ls[from]) {
        seq![from] + spec_header_positions(ls, from + 1)
    } else {
        spec_header_positions(ls, from + 1)
    }
}

/// The text that belongs to the `i`-th of the headers at positions `hp`:
/// the lines after that header up to the next header (or the end),
/// joined back with their line breaks.
pub open spec fn spec_header_window(ls: Seq<Seq<char>>, hp: Seq<int>, i: int) -> Seq<char> {
    spec_join_nl(
        ls.subrange(
            hp[i] + 1,
            if i + 1 < hp.len() {
                hp[i + 1]
            } else {
                ls.len() as int
            },
        ),
    )
}

/// Skipping a run of non-header lines does not change the header
/// positions.
proof fn lemma_positions_skip_body(ls: Seq<Seq<char>>, from: int)
    requires
        0 <= from <= ls.len(),
    ensures
        spec_header_positions(ls, from + spec_body_len(ls, from)) == spec_header_positions(
            ls,
            from,
        ),
    decreases ls.len() - from,
{
    if from < ls.len() && !spec_is_header(ls[from]) {
        lemma_positions_skip_body(ls, from + 1);
    }
}

/// Starting at a header line, segment `i` is exactly the window of the
/// `i`-th header: the joined lines between it and the next header.
proof fn lemma_segments_content(ls: Seq<Seq<char>>, from: int)
    requires
        0 <= from <= ls.len(),
        from == ls.len() || spec_is_header(ls[from]),
    ensures
        spec_segments_from(ls, from).len() == spec_header_positions(ls, from).len(),
        forall|i: int| 0 <= i < spec_header_positions(ls, from).len()
            ==> #[trigger] spec_segments_from(ls, from)[i] == spec_header_window(
                ls,
                spec_header_positions(ls, from),
                i,
            ),
    decreases ls.len() - from,
{
    if from < ls.len() {
        let k = spec_body_len(ls, from + 1);
        lemma_body_len(ls, from + 1);
        lemma_positions_skip_body(ls, from + 1);
        lemma_segments_content(ls, from + 1 + k);
        let segs = spec_segments_from(ls, from);
        let rest = spec_segments_from(ls, from + 1 + k);
        let hp = spec_header_positions(ls, from);
        let hpr = spec_header_positions(ls, from + 1 + k);
        assert(hp =~= seq![from] + hpr);
        if from + 1 + k < ls.len() {
            assert(hpr[0] == from + 1 + k);
            assert(segs[0] == spec_header_window(ls, hp, 0));
            assert forall|i: int| 1 <= i < hp.len() implies #[trigger] segs[i]
                == spec_header_window(ls, hp, i) by {
                assert(rest[i - 1] == spec_header_window(ls, hpr, i - 1));
                assert(hp[i] == hpr[i - 1]);
                if i + 1 < hp.len() {
                    assert(hp[i + 1] == hpr[i]);
                }
            }
        } else {
            assert(hpr =~= Seq::<int>::empty());
            assert(ls.subrange(from + 1, from + 1 + k) == ls.subrange(from + 1, ls.len() as int));
            assert(segs[0] == spec_header_window(ls, hp, 0));
        }
    }
}

/// A batch output showing at least one report header demultiplexes into
/// exactly one segment per header line, in their order of appearance:
/// the count of segments equals the count of header lines.
pub proof fn lemma_demux_segments_per_header(s: Seq<char>)
    requires
        spec_count_headers(spec_lines(s), 0) > 0,
    ensures
        spec_demux(s).len() == spec_count_headers(spec_lines(s), 0),
{
    let ls = spec_lines(s);
    let k = spec_body_len(ls, 0);
    lemma_body_len(ls, 0);
    lemma_count_skip_body(ls, 0);
    if k == ls.len() {
        assert(spec_count_headers(ls, k as int) == 0);
        assert(false);
    } else {
        lemma_segments_count(ls, k as int);
    }
}

/// Submission order: with at least one header present, segment `i` of
/// the demultiplexed output is exactly the joined body lines between the
/// `i`-th header line and the next header (or the end of the output).
pub proof fn lemma_demux_submission_order(s: Seq<char>)
    requires
        spec_count_headers(spec_lines(s), 0) > 0,
    ensures
        spec_demux(s).len() == spec_header_positions(spec_lines(s), 0).len(),
        forall|i: int| 0 <= i < spec_header_positions(spec_lines(s), 0).len()
            ==> #[trigger] spec_demux(s)[i] == spec_header_window(
                spec_lines(s),
                spec_header_positions(spec_lines(s), 0),
                i,
            ),
{
    let ls = spec_lines(s);
    let k = spec_body_len(ls, 0);
    lemma_body_len(ls, 0);
    lemma_count_skip_body(ls, 0);
    lemma_positions_skip_body(ls, 0);
    if k == ls.len() {
        assert(spec_count_headers(ls, k as int) == 0);
        assert(false);
    } else {
        lemma_segments_content(ls, k as int);
    }
}

// ---------------------------------------------------------------------------
// The executable demultiplexer.
// ---------------------------------------------------------------------------

/// Whether a line is a per-file report header.
fn is_header(line: &str) -> (b: bool)
    ensures
        b == spec_is_header(line@),
{
    let lit = "TrID - File Identifier v";
    let n = line.unicode_len();
    let m = lit.unicode_len();
    if m > n {
        return false;
    }
    match_at(line, lit, 0)
}

/// Splits `s` from position `from` on into its lines.
fn split_lines_from(s: &str, from: usize) -> (r: Vec<String>)
    requires
        from <= s@.len(),
    ensures
        r@.map_values(|x: String| x@) == spec_lines_from(s@, from as int),
    decreases s@.len() - from,
{
    let n = s.unicode_len();
    if from == n {
        let v: Vec<String> = Vec::new();
        proof {
            assert(v@.map_values(|x: String| x@) =~= spec_lines_from(s@, from as int));
        }
        return v;
    }
    let e = run_end(s, from, CharClass::Line);
    let piece = s.substring_char(from, e).to_owned();
    if e < n {
        let mut rest = split_lines_from(s, e + 1);
        let ghost rest0 = rest@;
        rest.insert(0, piece);
        proof {
            assert(rest@.map_values(|x: String| x@) =~= seq![s@.subrange(from as int, e as int)]
                + rest0.map_values(|x: String| x@));
        }
        rest
    } else {
        let mut v: Vec<String> = Vec::new();
        v.push(piece);
        proof {
            assert(v@.map_values(|x: String| x@) =~= seq![s@.subrange(from as int, n as int)]);
        }
        v
    }
}

/// Number of consecutive non-header lines starting at index `from`.
fn body_len(lines: &Vec<String>, from: usize) -> (r: usize)
    requires
        from <= lines@.len(),
    ensures
        r == spec_body_len(lines@.map_values(|x: String| x@), from as int),
        from + r <= lines@.len(),
    decreases lines@.len() - from,
{
    if from == lines.len() {
        return 0;
    }
    if is_header(&lines[from]) {
        return 0;
    }
    let k = body_len(lines, from + 1);
    k + 1
}

/// Joins `lines[a..b)` into one segment body, each line followed by a
/// line break.
fn join_nl(lines: &Vec<String>, a: usize, b: usize) -> (r: String)
    requires
        a <= b <= lines@.len(),
    ensures
        r@ == spec_join_nl(lines@.map_values(|x: String| x@).subrange(a as int, b as int)),
{
    let ghost ls = lines@.map_values(|x: String| x@);
    let mut r = String::new();
    let mut i = a;
    while i < b
        invariant
            a <= i <= b <= lines@.len(),
            ls == lines@.map_values(|x: String| x@),
            r@ == spec_join_nl(ls.subrange(a as int, i as int)),
        decreases b - i,
    {
        r.append(lines[i].as_str());
        r.append("\n");
        proof {
            reveal_strlit("\n");
            assert(ls.subrange(a as int, i + 1).drop_last() =~= ls.subrange(a as int, i as int));
            assert(ls.subrange(a as int, i + 1).last() == ls[i as int]);
            assert("\n"@ =~= seq!['\n']);
        }
        i = i + 1;
    }
    proof {
        assert(ls.subrange(a as int, b as int) == ls.subrange(a as int, i as int));
    }
    r
}

/// The segments that start at the header line at index `from`.
fn segments_from(lines: &Vec<String>, from: usize) -> (r: Vec<String>)
    requires
        from <= lines@.len(),
    ensures
        r@.map_values(|x: String| x@) == spec_segments_from(
            lines@.map_values(|x: String| x@),
            from as int,
        ),
    decreases lines@.len() - from,
{
    let ghost ls = lines@.map_values(|x: String| x@);
    if from == lines.len() {
        let v: Vec<String> = Vec::new();
        proof {
            assert(v@.map_values(|x: String| x@) =~= spec_segments_from(ls, from as int));
        }
        return v;
    }
    let k = body_len(lines, from + 1);
    let seg = join_nl(lines, from + 1, from + 1 + k);
    if from + 1 + k < lines.len() {
        let mut rest = segments_from(lines, from + 1 + k);
        let ghost rest0 = rest@;
        rest.insert(0, seg);
        proof {
            assert(rest@.map_values(|x: String| x@) =~= seq![
                spec_join_nl(ls.subrange(from + 1, from + 1 + k)),
            ] + rest0.map_values(|x: String| x@));
        }
        rest
    } else {
        let mut v: Vec<String> = Vec::new();
        v.push(seg);
        proof {
            assert(ls.subrange(from + 1, from + 1 + k) == ls.subrange(from + 1, ls.len() as int));
            assert(v@.map_values(|x: String| x@) =~= seq![
                spec_join_nl(ls.subrange(from + 1, ls.len() as int)),
            ]);
        }
        v
    }
}

/// Splits the combined standard output of one batch invocation into its
/// raw segments, one per report header, in order of appearance; with no
/// header, a non-empty output is one single segment.
pub fn demux_segments(stdout: &str) -> (r: Vec<String>)
    ensures
        r@.map_values(|x: String| x@) == spec_demux(stdout@),
{
    let lines = split_lines_from(stdout, 0);
    let ghost ls = lines@.map_values(|x: String| x@);
    let k = body_len(&lines, 0);
    if k == lines.len() {
        if lines.len() == 0 {
            let v: Vec<String> = Vec::new();
            proof {
                assert(v@.map_values(|x: String| x@) =~= spec_demux(stdout@));
            }
            v
        } else {
            let seg = join_nl(&lines, 0, lines.len());
            let mut v: Vec<String> = Vec::new();
            v.push(seg);
            proof {
                assert(ls.subrange(0, ls.len() as int) =~= ls);
                assert(v@.map_values(|x: String| x@) =~= seq![spec_join_nl(ls)]);
            }
            v
        }
    } else {
        segments_from(&lines, k)
    }
}

} // verus!
