//! The guess parser: turns one raw report segment into the ordered sequence
//! of candidate guesses it describes.
//!
//! A segment is split on blank-line boundaries into blocks.  Each block is
//! tried against the primary grammar (a one-line summary followed by labeled
//! `Mime type`, `Related URL` and `Definition` detail lines) and, failing
//! that, against the fallback grammar (the summary alone).  Blocks matching
//! neither grammar are noise and are dropped.  The grammars are defined by
//! the specification functions below; the executable parser is proved to
//! compute exactly what they describe.

use vstd::prelude::*;

use crate::errors::TridError;
use crate::scan::CharClass;
use crate::scan::find_from;
use crate::scan::in_class;
use crate::scan::run_end;
use crate::scan::spec_find;
use crate::scan::spec_in_class;
use crate::scan::spec_run_len;

verus! {

/// One ranked hypothesis about a file's type, as reported by the
/// classification tool.  `percentage`, `extension` and `name` are always
/// present; the remaining three fields are jointly present (primary
/// grammar) or jointly empty (fallback grammar).
#[derive(Debug, Clone, PartialEq)]
pub struct Extension {
    /// Confidence as its original percentage text, e.g. `85.5%`.
    pub percentage: String,
    /// Human-readable type description.
    pub name: String,
    /// Extension token, e.g. `.zip`.
    pub extension: String,
    /// Mime type; empty when the report omits the field.
    pub mime_type: String,
    /// Reference URL; empty when the report omits the field.
    pub url: String,
    /// Definition identifier; empty when the report omits the field.
    pub definition: String,
}

/// The mathematical value of one candidate guess.
pub struct GuessView {
    pub percentage: Seq<char>,
    pub name: Seq<char>,
    pub extension: Seq<char>,
    pub mime_type: Seq<char>,
    pub url: Seq<char>,
    pub definition: Seq<char>,
}

impl View for Extension {
    type V = GuessView;

    open spec fn view(&self) -> GuessView {
        GuessView {
            percentage: self.percentage@,
            name: self.name@,
            extension: self.extension@,
            mime_type: self.mime_type@,
            url: self.url@,
            definition: self.definition@,
        }
    }
}

/// The views of a vector of guesses.
pub open spec fn guess_views(v: Seq<Extension>) -> Seq<GuessView> {
    v.map_values(|e: Extension| e@)
}

// ---------------------------------------------------------------------------
// The summary, shared by both grammars: `<confidence>% (<extension>) `.
// ---------------------------------------------------------------------------

/// The first position at or after `from` holding a `%` that ends a
/// confidence token (it must follow a digit or a dot).
pub open spec fn spec_pct_pos(b: Seq<char>, from: int) -> Option<int>
    decreases b.len() - from when from <= b.len()
{
    if !(0 <= from && from < b.len()) {
        None
    } else if b[from] == '%' && from >= 1 && spec_in_class(CharClass::Confidence, b[from - 1]) {
        Some(from)
    } else {
        spec_pct_pos(b, from + 1)
    }
}

/// Start of the maximal confidence-character run ending right before
/// position `i`.
pub open spec fn spec_conf_start(b: Seq<char>, i: int) -> int
    decreases i when 0 <= i
{
    if i >= 1 && 0 <= i - 1 < b.len() && spec_in_class(CharClass::Confidence, b[i - 1]) {
        spec_conf_start(b, i - 1)
    } else {
        i
    }
}

/// What the summary of a block captures: the confidence text (with its
/// trailing `%`), the extension token, and the position right after the
/// space that follows `)`.
pub struct SummaryView {
    pub rest: int,
    pub confidence: Seq<char>,
    pub extension: Seq<char>,
}

/// Parses the leading summary `<confidence>% (<extension>) ` of a block.
pub open spec fn spec_summary(b: Seq<char>) -> Option<SummaryView> {
    match spec_pct_pos(b, 0) {
        None => None,
        Some(p) => {
            if p + 2 < b.len() && b[p + 1] == ' ' && b[p + 2] == '(' {
                let e0 = p + 3;
                let e1 = e0 + spec_run_len(b, e0, CharClass::Extension);
                if e0 < e1 && e1 + 1 < b.len() && b[e1] == ')' && b[e1 + 1] == ' ' {
                    Some(
                        SummaryView {
                            rest: e1 + 2,
                            confidence: b.subrange(spec_conf_start(b, p), p + 1),
                            extension: b.subrange(e0, e1),
                        },
                    )
                } else {
                    None
                }
            } else {
                None
            }
        },
    }
}

// ---------------------------------------------------------------------------
// Labeled detail fields of the primary grammar.
// ---------------------------------------------------------------------------

/// Skips spaces at `p`, then captures a non-empty run of class `cls`;
/// yields the end position and the captured text.
pub open spec fn spec_field_after(b: Seq<char>, p: int, cls: CharClass) -> Option<(int, Seq<char>)> {
    if !(0 <= p && p <= b.len()) {
        None
    } else {
        let v0 = p + spec_run_len(b, p, CharClass::Space);
        let v1 = v0 + spec_run_len(b, v0, cls);
        if v0 < v1 {
            Some((v1, b.subrange(v0, v1)))
        } else {
            None
        }
    }
}

/// Finds `label` at or after `from`, expects optional spaces and a colon,
/// then captures a field of class `cls` after it.
pub open spec fn spec_labeled_field(
    b: Seq<char>,
    label: Seq<char>,
    from: int,
    cls: CharClass,
) -> Option<(int, Seq<char>)> {
    match spec_find(b, label, from) {
        None => None,
        Some(i) => {
            let q = i + label.len();
            let c = q + spec_run_len(b, q, CharClass::Space);
            if c < b.len() && b[c] == ':' {
                spec_field_after(b, c + 1, cls)
            } else {
                None
            }
        },
    }
}

/// Finds the URL label at or after `from` and captures the rest of that
/// line after optional spaces.
pub open spec fn spec_url_field(b: Seq<char>, from: int) -> Option<(int, Seq<char>)> {
    match spec_find(b, "Related URL:"@, from) {
        None => None,
        Some(i) => spec_field_after(b, i + "Related URL:"@.len(), CharClass::Line),
    }
}

// ---------------------------------------------------------------------------
// The two grammars.
// ---------------------------------------------------------------------------

/// The primary grammar: summary, type name up to ` (`, then the three
/// labeled detail fields in order.  All six captures are non-empty.
pub open spec fn spec_primary(b: Seq<char>) -> Option<GuessView> {
    match spec_summary(b) {
        None => None,
        Some(sm) => {
            let n1 = sm.rest + spec_run_len(b, sm.rest, CharClass::Name);
            if sm.rest + 2 <= n1 && n1 < b.len() && b[n1] == '(' && b[n1 - 1] == ' ' {
                match spec_labeled_field(b, "Mime type"@, n1 + 1, CharClass::Mime) {
                    None => None,
                    Some((me, mime)) => match spec_url_field(b, me) {
                        None => None,
                        Some((ue, url)) => match spec_labeled_field(
                            b,
                            "Definition"@,
                            ue,
                            CharClass::Definition,
                        ) {
                            None => None,
                            Some((de, definition)) => Some(
                                GuessView {
                                    percentage: sm.confidence,
                                    name: b.subrange(sm.rest, n1 - 1),
                                    extension: sm.extension,
                                    mime_type: mime,
                                    url: url,
                                    definition: definition,
                                },
                            ),
                        },
                    },
                }
            } else {
                None
            }
        },
    }
}

/// The fallback grammar: the summary alone, with the rest of the summary
/// line as the type name and the three detail fields empty.
pub open spec fn spec_fallback(b: Seq<char>) -> Option<GuessView> {
    match spec_summary(b) {
        None => None,
        Some(sm) => {
            let n1 = sm.rest + spec_run_len(b, sm.rest, CharClass::Line);
            if sm.rest < n1 {
                Some(
                    GuessView {
                        percentage: sm.confidence,
                        name: b.subrange(sm.rest, n1),
                        extension: sm.extension,
                        mime_type: Seq::empty(),
                        url: Seq::empty(),
                        definition: Seq::empty(),
                    },
                )
            } else {
                None
            }
        },
    }
}

/// What one block contributes: a guess by the primary grammar if it
/// matches, else by the fallback grammar if that matches, else nothing.
pub open spec fn spec_parse_block(b: Seq<char>) -> Option<GuessView> {
    if spec_primary(b) is Some {
        spec_primary(b)
    } else {
        spec_fallback(b)
    }
}

// ---------------------------------------------------------------------------
// Splitting a segment into blocks on blank-line boundaries.
// ---------------------------------------------------------------------------

/// Number of characters from `from` until the next blank-line boundary
/// (two consecutive line breaks) or the end of `s`.
pub open spec fn spec_block_len(s: Seq<char>, from: int) -> nat
    decreases s.len() - from when from <= s.len()
{
    if !(0 <= from && from < s.len()) {
        0
    } else if from + 2 <= s.len() && s[from] == '\n' && s[from + 1] == '\n' {
        0
    } else {
        1 + spec_block_len(s, from + 1)
    }
}

/// The blocks of `s` from position `from` on: the pieces obtained by
/// splitting on blank-line boundaries, in order.
pub open spec fn spec_blocks_from(s: Seq<char>, from: int) -> Seq<Seq<char>>
    decreases s.len() - from when 0 <= from <= s.len()
{
    if !(0 <= from && from <= s.len()) {
        Seq::empty()
    } else {
        let e = from + spec_block_len(s, from);
        if e + 2 <= s.len() {
            seq![s.subrange(from, e)] + spec_blocks_from(s, e + 2)
        } else {
            seq![s.subrange(from, e)]
        }
    }
}

/// What a list of blocks yields: each matching block's guess, in block
/// order; non-matching blocks contribute nothing.
pub open spec fn spec_parse_blocks(bs: Seq<Seq<char>>) -> Seq<GuessView>
    decreases bs.len(),
{
    if bs.len() == 0 {
        Seq::empty()
    } else {
        spec_parse_blocks(bs.drop_last()) + match spec_parse_block(bs.last()) {
            Some(g) => seq![g],
            None => Seq::empty(),
        }
    }
}

/// The ordered guesses of one raw segment.
pub open spec fn spec_guesses(segment: Seq<char>) -> Seq<GuessView> {
    spec_parse_blocks(spec_blocks_from(segment, 0))
}

// ---------------------------------------------------------------------------
// The executable parser.
// ---------------------------------------------------------------------------

struct Summary {
    rest: usize,
    confidence: String,
    extension: String,
}

/// The first position at or after `from` of a `%` ending a confidence
/// token.
fn pct_pos(b: &str, from: usize) -> (r: Option<usize>)
    requires
        from <= b@.len(),
    ensures
        match r {
            Some(i) => spec_pct_pos(b@, from as int) == Some(i as int) && from <= i < b@.len(),
            None => spec_pct_pos(b@, from as int) is None,
        },
{
    let n = b.unicode_len();
    let mut i = from;
    loop
        invariant
            from <= i <= n,
            n == b@.len(),
            spec_pct_pos(b@, from as int) == spec_pct_pos(b@, i as int),
        ensures
            i <= n,
            n == b@.len(),
            spec_pct_pos(b@, from as int) == spec_pct_pos(b@, i as int),
            i < n ==> b@[i as int] == '%' && i >= 1 && spec_in_class(
                CharClass::Confidence,
                b@[i - 1],
            ),
        decreases n - i,
    {
        if i == n {
            break;
        }
        let c = b.get_char(i);
        if c == '%' && i >= 1 {
            if in_class(CharClass::Confidence, b.get_char(i - 1)) {
                break;
            }
        }
        i = i + 1;
    }
    if i < n {
        Some(i)
    } else {
        None
    }
}

/// Start of the confidence run that ends right before position `p`.
fn conf_start(b: &str, p: usize) -> (r: usize)
    requires
        p < b@.len(),
    ensures
        r == spec_conf_start(b@, p as int),
        r <= p,
{
    let mut j = p;
    loop
        invariant
            j <= p,
            p < b@.len(),
            spec_conf_start(b@, p as int) == spec_conf_start(b@, j as int),
        ensures
            j == spec_conf_start(b@, p as int),
            j <= p,
        decreases j,
    {
        if j == 0 {
            break;
        }
        if !in_class(CharClass::Confidence, b.get_char(j - 1)) {
            break;
        }
        j = j - 1;
    }
    j
}

/// Parses the leading summary of a block.
fn parse_summary(b: &str) -> (r: Option<Summary>)
    ensures
        match r {
            Some(sm) => sm.rest <= b@.len() && spec_summary(b@) == Some(
                (SummaryView {
                    rest: sm.rest as int,
                    confidence: sm.confidence@,
                    extension: sm.extension@,
                }),
            ),
            None => spec_summary(b@) is None,
        },
{
    let n = b.unicode_len();
    let p = match pct_pos(b, 0) {
        None => {
            return None;
        },
        Some(p) => p,
    };
    if n - p < 3 {
        return None;
    }
    if b.get_char(p + 1) != ' ' || b.get_char(p + 2) != '(' {
        return None;
    }
    let e0 = p + 3;
    let e1 = run_end(b, e0, CharClass::Extension);
    if !(e0 < e1) {
        return None;
    }
    if n - e1 < 2 {
        return None;
    }
    if b.get_char(e1) != ')' || b.get_char(e1 + 1) != ' ' {
        return None;
    }
    let cs = conf_start(b, p);
    let confidence = b.substring_char(cs, p + 1).to_owned();
    let extension = b.substring_char(e0, e1).to_owned();
    Some(Summary { rest: e1 + 2, confidence, extension })
}

/// Skips spaces at `p` and captures a non-empty run of class `cls`.
fn field_after(b: &str, p: usize, cls: CharClass) -> (r: Option<(usize, String)>)
    requires
        p <= b@.len(),
    ensures
        match r {
            Some(t) => spec_field_after(b@, p as int, cls) == Some((t.0 as int, t.1@)) && t.0
                <= b@.len(),
            None => spec_field_after(b@, p as int, cls) is None,
        },
{
    let v0 = run_end(b, p, CharClass::Space);
    let v1 = run_end(b, v0, cls);
    if v0 < v1 {
        let text = b.substring_char(v0, v1).to_owned();
        Some((v1, text))
    } else {
        None
    }
}

/// Finds `label`, expects optional spaces and a colon, and captures the
/// field of class `cls` after it.
fn labeled_field(b: &str, label: &str, from: usize, cls: CharClass) -> (r: Option<(usize, String)>)
    requires
        from <= b@.len(),
    ensures
        match r {
            Some(t) => spec_labeled_field(b@, label@, from as int, cls) == Some((
                t.0 as int,
                t.1@,
            )) && t.0 <= b@.len(),
            None => spec_labeled_field(b@, label@, from as int, cls) is None,
        },
{
    let n = b.unicode_len();
    match find_from(b, label, from) {
        None => None,
        Some(i) => {
            let q = i + label.unicode_len();
            let c = run_end(b, q, CharClass::Space);
            if c < n {
                if b.get_char(c) == ':' {
                    field_after(b, c + 1, cls)
                } else {
                    None
                }
            } else {
                None
            }
        },
    }
}

/// Finds the URL label and captures the rest of that line.
fn url_field(b: &str, from: usize) -> (r: Option<(usize, String)>)
    requires
        from <= b@.len(),
    ensures
        match r {
            Some(t) => spec_url_field(b@, from as int) == Some((t.0 as int, t.1@)) && t.0
                <= b@.len(),
            None => spec_url_field(b@, from as int) is None,
        },
{
    let n = b.unicode_len();
    let label = "Related URL:";
    match find_from(b, label, from) {
        None => None,
        Some(i) => {
            let q = i + label.unicode_len();
            field_after(b, q, CharClass::Line)
        },
    }
}

/// Tries the primary grammar on a block whose summary was parsed.
fn parse_primary(b: &str, sm: &Summary) -> (r: Option<Extension>)
    requires
        sm.rest <= b@.len(),
        spec_summary(b@) == Some(
            (SummaryView {
                rest: sm.rest as int,
                confidence: sm.confidence@,
                extension: sm.extension@,
            }),
        ),
    ensures
        match r {
            Some(e) => spec_primary(b@) == Some(e@),
            None => spec_primary(b@) is None,
        },
{
    let n = b.unicode_len();
    let n1 = run_end(b, sm.rest, CharClass::Name);
    if !(n1 - sm.rest >= 2 && n1 < n) {
        return None;
    }
    if b.get_char(n1) != '(' || b.get_char(n1 - 1) != ' ' {
        return None;
    }
    let (me, mime_type) = match labeled_field(b, "Mime type", n1 + 1, CharClass::Mime) {
        None => {
            return None;
        },
        Some(t) => t,
    };
    let (ue, url) = match url_field(b, me) {
        None => {
            return None;
        },
        Some(t) => t,
    };
    let (_de, definition) = match labeled_field(b, "Definition", ue, CharClass::Definition) {
        None => {
            return None;
        },
        Some(t) => t,
    };
    let name = b.substring_char(sm.rest, n1 - 1).to_owned();
    Some(
        Extension {
            percentage: sm.confidence.clone(),
            name,
            extension: sm.extension.clone(),
            mime_type,
            url,
            definition,
        },
    )
}

/// Tries the fallback grammar on a block whose summary was parsed.
fn parse_fallback(b: &str, sm: &Summary) -> (r: Option<Extension>)
    requires
        sm.rest <= b@.len(),
        spec_summary(b@) == Some(
            (SummaryView {
                rest: sm.rest as int,
                confidence: sm.confidence@,
                extension: sm.extension@,
            }),
        ),
    ensures
        match r {
            Some(e) => spec_fallback(b@) == Some(e@),
            None => spec_fallback(b@) is None,
        },
{
    let n1 = run_end(b, sm.rest, CharClass::Line);
    if sm.rest < n1 {
        let name = b.substring_char(sm.rest, n1).to_owned();
        let e = Extension {
            percentage: sm.confidence.clone(),
            name,
            extension: sm.extension.clone(),
            mime_type: String::new(),
            url: String::new(),
            definition: String::new(),
        };
        Some(e)
    } else {
        None
    }
}

/// Parses one block: the primary grammar first, then the fallback.
pub fn parse_block(b: &str) -> (r: Option<Extension>)
    ensures
        match r {
            Some(e) => spec_parse_block(b@) == Some(e@),
            None => spec_parse_block(b@) is None,
        },
{
    let sm = match parse_summary(b) {
        None => {
            return None;
        },
        Some(sm) => sm,
    };
    if let Some(e) = parse_primary(b, &sm) {
        return Some(e);
    }
    parse_fallback(b, &sm)
}

/// The position right after the current block.
fn block_end(s: &str, from: usize) -> (r: usize)
    requires
        from <= s@.len(),
    ensures
        r == from + spec_block_len(s@, from as int),
        from <= r <= s@.len(),
        r < s@.len() ==> r + 2 <= s@.len() && s@[r as int] == '\n' && s@[r + 1] == '\n',
    decreases s@.len() - from,
{
    let n = s.unicode_len();
    let mut i = from;
    loop
        invariant
            from <= i <= n,
            n == s@.len(),
            spec_block_len(s@, from as int) == i - from + spec_block_len(s@, i as int),
        ensures
            i == from + spec_block_len(s@, from as int),
            from <= i <= n,
            n == s@.len(),
            i < n ==> i + 2 <= n && s@[i as int] == '\n' && s@[i + 1] == '\n',
        decreases n - i,
    {
        if i == n {
            break;
        }
        if n - i >= 2 {
            if s.get_char(i) == '\n' && s.get_char(i + 1) == '\n' {
                break;
            }
        } else {
            proof {
                assert(!(i + 2 <= s@.len()));
            }
        }
        i = i + 1;
    }
    i
}

/// Splits `s` from position `from` on into its blocks.
fn split_blocks_from(s: &str, from: usize) -> (r: Vec<String>)
    requires
        from <= s@.len(),
    ensures
        r@.map_values(|x: String| x@) == spec_blocks_from(s@, from as int),
    decreases s@.len() - from,
{
    let e = block_end(s, from);
    let piece = s.substring_char(from, e).to_owned();
    let n = s.unicode_len();
    if n - e >= 2 {
        let mut rest = split_blocks_from(s, e + 2);
        let ghost rest0 = rest@;
        rest.insert(0, piece);
        proof {
            assert(rest@.map_values(|x: String| x@) =~= seq![s@.subrange(from as int, e as int)]
                + rest0.map_values(|x: String| x@));
        }
        rest
    } else {
        let mut v: Vec<String> = Vec::new();
        v.push(piece);
        proof {
            assert(v@.map_values(|x: String| x@) =~= seq![s@.subrange(from as int, e as int)]);
        }
        v
    }
}

/// Parses one raw segment into its ordered candidate guesses.
///
/// Returns the guesses of every block that matches a grammar, in their
/// order of appearance, or an error when no block matches at all.
pub fn parse_trid_output(content: &str) -> (r: Result<Vec<Extension>, TridError>)
    ensures
        match r {
            Ok(v) => guess_views(v@) == spec_guesses(content@) && spec_guesses(content@).len()
                > 0,
            Err(e) => e == TridError::UnparseableSegment && spec_guesses(content@).len() == 0,
        },
{
    let blocks = split_blocks_from(content, 0);
    let ghost bv = blocks@.map_values(|x: String| x@);
    let mut guesses: Vec<Extension> = Vec::new();
    let mut idx: usize = 0;
    while idx < blocks.len()
        invariant
            idx <= blocks@.len(),
            bv == blocks@.map_values(|x: String| x@),
            bv == spec_blocks_from(content@, 0),
            guess_views(guesses@) == spec_parse_blocks(bv.subrange(0, idx as int)),
        decreases blocks@.len() - idx,
    {
        let ghost guesses0 = guesses@;
        match parse_block(&blocks[idx]) {
            Some(e) => {
                guesses.push(e);
            },
            None => {},
        }
        proof {
            assert(bv.subrange(0, idx + 1).drop_last() =~= bv.subrange(0, idx as int));
            assert(bv.subrange(0, idx + 1).last() == bv[idx as int]);
            assert(guess_views(guesses@) =~= spec_parse_blocks(bv.subrange(0, idx + 1)));
        }
        idx = idx + 1;
    }
    proof {
        assert(bv.subrange(0, bv.len() as int) =~= bv);
    }
    if guesses.len() == 0 {
        Err(TridError::UnparseableSegment)
    } else {
        Ok(guesses)
    }
}

// ---------------------------------------------------------------------------
// Laws of the grammars.
// ---------------------------------------------------------------------------

/// A found confidence-token position is a `%` inside `b` that follows a
/// confidence character.
proof fn lemma_pct_pos(b: Seq<char>, from: int)
    requires
        0 <= from <= b.len(),
    ensures
        spec_pct_pos(b, from) matches Some(p) ==> from <= p < b.len() && p >= 1 && b[p] == '%'
            && spec_in_class(CharClass::Confidence, b[p - 1]),
    decreases b.len() - from,
{
    if from < b.len() && !(b[from] == '%' && from >= 1 && spec_in_class(
        CharClass::Confidence,
        b[from - 1],
    )) {
        lemma_pct_pos(b, from + 1);
    }
}

/// The start of a confidence run lies at or before its end.
proof fn lemma_conf_start(b: Seq<char>, i: int)
    requires
        0 <= i,
    ensures
        0 <= spec_conf_start(b, i) <= i,
    decreases i,
{
    if i >= 1 && 0 <= i - 1 < b.len() && spec_in_class(CharClass::Confidence, b[i - 1]) {
        lemma_conf_start(b, i - 1);
    }
}

/// A captured field is non-empty and ends inside `b`.
proof fn lemma_field_after(b: Seq<char>, p: int, cls: CharClass)
    requires
        0 <= p <= b.len(),
    ensures
        spec_field_after(b, p, cls) matches Some(t) ==> t.1.len() > 0 && 0 <= t.0 <= b.len(),
{
    crate::scan::lemma_run_len(b, p, CharClass::Space);
    let v0 = p + spec_run_len(b, p, CharClass::Space);
    crate::scan::lemma_run_len(b, v0, cls);
}

/// A captured labeled field is non-empty and ends inside `b`.
proof fn lemma_labeled_field(b: Seq<char>, label: Seq<char>, from: int, cls: CharClass)
    requires
        0 <= from <= b.len(),
    ensures
        spec_labeled_field(b, label, from, cls) matches Some(t) ==> t.1.len() > 0 && 0 <= t.0
            <= b.len(),
{
    crate::scan::lemma_find_bounds(b, label, from);
    if let Some(i) = spec_find(b, label, from) {
        let q = i + label.len();
        crate::scan::lemma_run_len(b, q, CharClass::Space);
        let c = q + spec_run_len(b, q, CharClass::Space);
        if c < b.len() && b[c] == ':' {
            lemma_field_after(b, c + 1, cls);
        }
    }
}

/// A captured URL field is non-empty and ends inside `b`.
proof fn lemma_url_field(b: Seq<char>, from: int)
    requires
        0 <= from <= b.len(),
    ensures
        spec_url_field(b, from) matches Some(t) ==> t.1.len() > 0 && 0 <= t.0 <= b.len(),
{
    crate::scan::lemma_find_bounds(b, "Related URL:"@, from);
    if let Some(i) = spec_find(b, "Related URL:"@, from) {
        lemma_field_after(b, i + "Related URL:"@.len(), CharClass::Line);
    }
}

/// A parsed summary has a non-empty confidence and extension, and its
/// `rest` position lies inside the block.
proof fn lemma_summary_fields(b: Seq<char>)
    ensures
        spec_summary(b) matches Some(sm) ==> sm.confidence.len() > 0 && sm.extension.len() > 0
            && 0 <= sm.rest <= b.len(),
{
    lemma_pct_pos(b, 0);
    if let Some(p) = spec_pct_pos(b, 0) {
        lemma_conf_start(b, p);
    }
}

/// A block matching the primary grammar yields a guess whose six fields
/// are all non-empty: each equals its captured group, and every group of
/// the primary grammar captures at least one character.
pub proof fn lemma_primary_guess_fields(b: Seq<char>)
    ensures
        spec_primary(b) matches Some(g) ==> g.percentage.len() > 0 && g.extension.len() > 0
            && g.name.len() > 0 && g.mime_type.len() > 0 && g.url.len() > 0
            && g.definition.len() > 0,
{
    lemma_summary_fields(b);
    if let Some(sm) = spec_summary(b) {
        let n1 = sm.rest + spec_run_len(b, sm.rest, CharClass::Name);
        crate::scan::lemma_run_len(b, sm.rest, CharClass::Name);
        if sm.rest + 2 <= n1 && n1 < b.len() && b[n1] == '(' && b[n1 - 1] == ' ' {
            lemma_labeled_field(b, "Mime type"@, n1 + 1, CharClass::Mime);
            if let Some((me, _mime)) = spec_labeled_field(b, "Mime type"@, n1 + 1, CharClass::Mime) {
                lemma_url_field(b, me);
                if let Some((ue, _url)) = spec_url_field(b, me) {
                    lemma_labeled_field(b, "Definition"@, ue, CharClass::Definition);
                }
            }
        }
    }
}

/// A block matching only the fallback grammar yields a guess whose
/// mandatory fields are non-empty and whose mime type, URL and
/// definition are all empty.
pub proof fn lemma_fallback_guess_fields(b: Seq<char>)
    requires
        spec_primary(b) is None,
    ensures
        spec_parse_block(b) matches Some(g) ==> g.percentage.len() > 0 && g.extension.len() > 0
            && g.name.len() > 0 && g.mime_type.len() == 0 && g.url.len() == 0
            && g.definition.len() == 0,
{
    lemma_summary_fields(b);
    if let Some(sm) = spec_summary(b) {
        crate::scan::lemma_run_len(b, sm.rest, CharClass::Line);
    }
}

/// The joint-presence invariant of a parsed guess: the three mandatory
/// fields are non-empty, and the three detail fields are either all
/// non-empty (primary grammar) or all empty (fallback grammar).
pub proof fn lemma_guess_joint_details(b: Seq<char>)
    ensures
        spec_parse_block(b) matches Some(g) ==> g.percentage.len() > 0 && g.extension.len() > 0
            && g.name.len() > 0 && ((g.mime_type.len() > 0 && g.url.len() > 0
            && g.definition.len() > 0) || (g.mime_type.len() == 0 && g.url.len() == 0
            && g.definition.len() == 0)),
{
    if spec_primary(b) is Some {
        lemma_primary_guess_fields(b);
    } else {
        lemma_fallback_guess_fields(b);
    }
}

/// A block matching neither grammar contributes no guess and leaves the
/// guesses of its sibling blocks untouched: parsing a block list equals
/// parsing the list with the noise block removed.
pub proof fn lemma_noise_block_dropped(bs: Seq<Seq<char>>, i: int)
    requires
        0 <= i < bs.len(),
        spec_parse_block(bs[i]) is None,
    ensures
        spec_parse_blocks(bs) == spec_parse_blocks(bs.remove(i)),
    decreases bs.len(),
{
    if i == bs.len() - 1 {
        assert(bs.remove(i) =~= bs.drop_last());
        assert(spec_parse_blocks(bs) =~= spec_parse_blocks(bs.drop_last()));
    } else {
        assert(bs.drop_last()[i] == bs[i]);
        lemma_noise_block_dropped(bs.drop_last(), i);
        assert(bs.remove(i).drop_last() =~= bs.drop_last().remove(i));
        assert(bs.remove(i).last() == bs.last());
        assert(spec_parse_blocks(bs) =~= spec_parse_blocks(bs.remove(i)));
    }
}

/// Parsing is a function of the segment text alone: any two parses of
/// the same raw segment yield identical ordered guess sequences.
pub proof fn lemma_parse_idempotent(
    segment: Seq<char>,
    first: Seq<GuessView>,
    second: Seq<GuessView>,
)
    requires
        first == spec_guesses(segment),
        second == spec_guesses(segment),
    ensures
        first == second,
{
}

} // verus!
