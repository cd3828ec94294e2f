//! Text-scanning primitives shared by the report grammars and the batch
//! demultiplexer: character classes, maximal runs, and substring search,
//! each with a specification-level model.

use vstd::prelude::*;

verus! {

/// The character classes that the report grammars capture runs of.
#[derive(Clone, Copy, PartialEq, Eq, Structural)]
pub enum CharClass {
    /// Digits and dots, the body of a confidence percentage.
    Confidence,
    /// Letters, `/` and `.`, an extension token.
    Extension,
    /// Letters, spaces and `/`, a human-readable type name.
    Name,
    /// Letters, `/` and `-`, a mime type.
    Mime,
    /// Letters, `.` and `-`, a definition identifier.
    Definition,
    /// The single space character.
    Space,
    /// Anything but a line break.
    Line,
}

pub open spec fn spec_is_digit(c: char) -> bool {
    48 <= c as u32 && c as u32 <= 57
}

pub open spec fn spec_is_alpha(c: char) -> bool {
    (65 <= c as u32 && c as u32 <= 90) || (97 <= c as u32 && c as u32 <= 122)
}

/// Whether `c` belongs to the class `cls`.
pub open spec fn spec_in_class(cls: CharClass, c: char) -> bool {
    match cls {
        CharClass::Confidence => spec_is_digit(c) || c == '.',
        CharClass::Extension => spec_is_alpha(c) || c == '/' || c == '.',
        CharClass::Name => spec_is_alpha(c) || c == ' ' || c == '/',
        CharClass::Mime => spec_is_alpha(c) || c == '/' || c == '-',
        CharClass::Definition => spec_is_alpha(c) || c == '.' || c == '-',
        CharClass::Space => c == ' ',
        CharClass::Line => c != '\n',
    }
}

/// Length of the maximal run of characters of class `cls` in `s` starting
/// at position `from`.
pub open spec fn spec_run_len(s: Seq<char>, from: int, cls: CharClass) -> nat
    decreases s.len() - from when from <= s.len()
{
    if 0 <= from && from < s.len() && spec_in_class(cls, s[from]) {
        1 + spec_run_len(s, from + 1, cls)
    } else {
        0
    }
}

/// The maximal run starting at `from` stays inside `s`, consists of
/// characters of the class, and is ended by the end of `s` or by a
/// character outside the class.
pub proof fn lemma_run_len(s: Seq<char>, from: int, cls: CharClass)
    requires
        0 <= from <= s.len(),
    ensures
        from + spec_run_len(s, from, cls) <= s.len(),
        forall|i: int| from <= i < from + spec_run_len(s, from, cls) ==> spec_in_class(cls, s[i]),
        from + spec_run_len(s, from, cls) == s.len()
            || !spec_in_class(cls, s[from + spec_run_len(s, from, cls)]),
    decreases s.len() - from,
{
    if from < s.len() && spec_in_class(cls, s[from]) {
        lemma_run_len(s, from + 1, cls);
    }
}

/// Whether `pat` occurs in `s` starting exactly at position `i`.
pub open spec fn spec_matches_at(s: Seq<char>, pat: Seq<char>, i: int) -> bool {
    0 <= i && i + pat.len() <= s.len() && s.subrange(i, i + pat.len() as int) == pat
}

/// The first position at or after `from` where `pat` occurs in `s`.
pub open spec fn spec_find(s: Seq<char>, pat: Seq<char>, from: int) -> Option<int>
    decreases s.len() + 1 - from when from <= s.len() + 1
{
    if from < 0 || from + pat.len() > s.len() {
        None
    } else if spec_matches_at(s, pat, from) {
        Some(from)
    } else {
        spec_find(s, pat, from + 1)
    }
}

/// A successful find lies between `from` and the end of `s`, leaving room
/// for the pattern.
pub proof fn lemma_find_bounds(s: Seq<char>, pat: Seq<char>, from: int)
    requires
        0 <= from <= s.len() + 1,
    ensures
        spec_find(s, pat, from) matches Some(i)
            ==> from <= i && 0 <= i && i + pat.len() <= s.len(),
    decreases s.len() + 1 - from,
{
    if !(from < 0 || from + pat.len() > s.len()) && !spec_matches_at(s, pat, from) {
        lemma_find_bounds(s, pat, from + 1);
    }
}

/// Whether the character `c` belongs to the class `cls`.
pub fn in_class(cls: CharClass, c: char) -> (b: bool)
    ensures
        b == spec_in_class(cls, c),
{
    let u = c as u32;
    match cls {
        CharClass::Confidence => (48 <= u && u <= 57) || c == '.',
        CharClass::Extension => is_alpha_u32(u) || c == '/' || c == '.',
        CharClass::Name => is_alpha_u32(u) || c == ' ' || c == '/',
        CharClass::Mime => is_alpha_u32(u) || c == '/' || c == '-',
        CharClass::Definition => is_alpha_u32(u) || c == '.' || c == '-',
        CharClass::Space => c == ' ',
        CharClass::Line => c != '\n',
    }
}

fn is_alpha_u32(u: u32) -> (b: bool)
    ensures
        b == ((65 <= u && u <= 90) || (97 <= u && u <= 122)),
{
    (65 <= u && u <= 90) || (97 <= u && u <= 122)
}

/// The position right after the maximal run of class `cls` starting at
/// `from` in `s`.
pub fn run_end(s: &str, from: usize, cls: CharClass) -> (r: usize)
    requires
        from <= s@.len(),
    ensures
        r == from + spec_run_len(s@, from as int, cls),
        from <= r <= s@.len(),
{
    let n = s.unicode_len();
    let mut i = from;
    loop
        invariant
            from <= i <= n,
            n == s@.len(),
            spec_run_len(s@, from as int, cls)
                == i - from + spec_run_len(s@, i as int, cls),
        ensures
            i == from + spec_run_len(s@, from as int, cls),
            from <= i <= s@.len(),
        decreases n - i,
    {
        if i == n {
            break;
        }
        let c = s.get_char(i);
        if !in_class(cls, c) {
            break;
        }
        i = i + 1;
    }
    i
}

/// Whether `pat` occurs in `s` starting exactly at position `i`.
pub fn match_at(s: &str, pat: &str, i: usize) -> (b: bool)
    requires
        i + pat@.len() <= s@.len(),
    ensures
        b == spec_matches_at(s@, pat@, i as int),
{
    let n = s.unicode_len();
    let m = pat.unicode_len();
    let mut j: usize = 0;
    loop
        invariant
            0 <= j <= m,
            n == s@.len(),
            m == pat@.len(),
            i + m <= s@.len(),
            forall|k: int| 0 <= k < j ==> s@[i + k] == pat@[k],
        ensures
            j <= m,
            j == m ==> forall|k: int| 0 <= k < m ==> s@[i + k] == pat@[k],
            j < m ==> s@[i + j] != pat@[j as int],
        decreases m - j,
    {
        if j == m {
            break;
        }
        if s.get_char(i + j) != pat.get_char(j) {
            break;
        }
        j = j + 1;
    }
    if j == m {
        proof {
            assert(s@.subrange(i as int, i + pat@.len() as int) =~= pat@);
        }
        true
    } else {
        proof {
            assert(s@.subrange(i as int, i + pat@.len() as int)[j as int] == s@[i + j]);
        }
        false
    }
}

/// The first position at or after `from` where `pat` occurs in `s`.
pub fn find_from(s: &str, pat: &str, from: usize) -> (r: Option<usize>)
    requires
        from <= s@.len(),
    ensures
        match r {
            Some(i) => spec_find(s@, pat@, from as int) == Some(i as int)
                && from <= i && i + pat@.len() <= s@.len(),
            None => spec_find(s@, pat@, from as int) is None,
        },
{
    let n = s.unicode_len();
    let m = pat.unicode_len();
    if m > n {
        return None;
    }
    let mut i = from;
    loop
        invariant
            from <= i,
            n == s@.len(),
            m == pat@.len(),
            m <= n,
            i <= n + 1,
            spec_find(s@, pat@, from as int) == spec_find(s@, pat@, i as int),
        ensures
            spec_find(s@, pat@, from as int) == spec_find(s@, pat@, i as int),
            i <= n - m ==> spec_matches_at(s@, pat@, i as int),
            i > n - m ==> spec_find(s@, pat@, i as int) is None,
        decreases n + 1 - i,
    {
        if i > n - m {
            break;
        }
        if match_at(s, pat, i) {
            break;
        }
        proof {
            if pat@.len() == 0 {
                assert(s@.subrange(i as int, i as int) =~= pat@);
            }
        }
        i = i + 1;
    }
    if i <= n - m {
        Some(i)
    } else {
        None
    }
}

} // verus!
