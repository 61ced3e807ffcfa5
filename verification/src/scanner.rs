//! Locates import/require specifier literals inside source text.
//!
//! Three syntactic forms are recognized: `require(<quote>S<quote>)` and
//! `import(<quote>S<quote>)` (the call forms), and `from <quote>S<quote>`
//! (the declarative form). Matching is whitespace-tolerant around quotes and
//! parentheses, treats single and double quotes identically, and never spans
//! a newline inside the specifier itself. Scanning is deterministic: the
//! leftmost match wins and scanning resumes immediately after each match.

use vstd::prelude::*;
use vstd::string::StrSliceExecFns;
use vstd::string::StringExecFns;

verus! {

/// Which family of syntactic forms a scan looks for.
#[derive(Clone, Copy, Debug, PartialEq, Eq, Structural)]
pub enum MatchForm {
    /// The call forms `require(...)` and `import(...)`.
    Calls,
    /// The declarative form `from '...'`.
    Froms,
}

/// Recognized whitespace characters (the ASCII whitespace class).
pub open spec fn is_space(c: char) -> bool {
    c == ' ' || c == '\t' || c == '\n' || c == '\r' || c == '\u{000B}' || c == '\u{000C}'
}

/// Word characters; a keyword must not be preceded by one.
pub open spec fn is_word_char(c: char) -> bool {
    ('a' <= c && c <= 'z') || ('A' <= c && c <= 'Z') || ('0' <= c && c <= '9') || c == '_'
}

/// Both quote styles are treated identically.
pub open spec fn is_quote_char(c: char) -> bool {
    c == '\'' || c == '"'
}

/// The first index at or after `i` holding a non-whitespace character, or the
/// text length if none remains.
pub open spec fn spec_ws_end(text: Seq<char>, i: int) -> int
    decreases text.len() - i,
{
    if i < 0 || i >= text.len() {
        text.len() as int
    } else if !is_space(text[i]) {
        i
    } else {
        spec_ws_end(text, i + 1)
    }
}

pub proof fn lemma_ws_end_bounds(text: Seq<char>, i: int)
    requires
        0 <= i <= text.len(),
    ensures
        i <= spec_ws_end(text, i) <= text.len(),
    decreases text.len() - i,
{
    if i < text.len() && is_space(text[i]) {
        lemma_ws_end_bounds(text, i + 1);
    }
}

/// `require` begins at index `i`.
pub open spec fn require_at(text: Seq<char>, i: int) -> bool {
    &&& i + 7 <= text.len()
    &&& text[i] == 'r'
    &&& text[i + 1] == 'e'
    &&& text[i + 2] == 'q'
    &&& text[i + 3] == 'u'
    &&& text[i + 4] == 'i'
    &&& text[i + 5] == 'r'
    &&& text[i + 6] == 'e'
}

/// `import` begins at index `i`.
pub open spec fn import_at(text: Seq<char>, i: int) -> bool {
    &&& i + 6 <= text.len()
    &&& text[i] == 'i'
    &&& text[i + 1] == 'm'
    &&& text[i + 2] == 'p'
    &&& text[i + 3] == 'o'
    &&& text[i + 4] == 'r'
    &&& text[i + 5] == 't'
}

/// `from` begins at index `i`.
pub open spec fn from_at(text: Seq<char>, i: int) -> bool {
    &&& i + 4 <= text.len()
    &&& text[i] == 'f'
    &&& text[i + 1] == 'r'
    &&& text[i + 2] == 'o'
    &&& text[i + 3] == 'm'
}

/// A keyword may start at `i` only if `i` is at the start of the text or the
/// previous character is not a word character.
pub open spec fn word_boundary(text: Seq<char>, i: int) -> bool {
    i == 0 || (0 < i <= text.len() && !is_word_char(text[i - 1]))
}

/// The position of a closing parenthesis reached from `j` by skipping
/// whitespace, if the first non-whitespace character there is `)`.
pub open spec fn close_paren_after(text: Seq<char>, j: int) -> Option<int> {
    let c = spec_ws_end(text, j);
    if c < text.len() && text[c] == ')' {
        Some(c)
    } else {
        None
    }
}

/// The position of the closing quote of a call-form specifier, scanning from
/// `j`: the first quote that is followed (over whitespace) by `)`. The scan
/// fails on a newline, which a specifier literal cannot contain.
pub open spec fn spec_call_end(text: Seq<char>, j: int) -> Option<int>
    decreases text.len() - j,
{
    if j < 0 || j >= text.len() {
        None
    } else if text[j] == '\n' {
        None
    } else if is_quote_char(text[j]) && close_paren_after(text, j + 1) is Some {
        Some(j)
    } else {
        spec_call_end(text, j + 1)
    }
}

/// The position of the closing quote of a declarative-form specifier: the
/// first quote at or after `j`, with no intervening newline.
pub open spec fn spec_from_end(text: Seq<char>, j: int) -> Option<int>
    decreases text.len() - j,
{
    if j < 0 || j >= text.len() {
        None
    } else if text[j] == '\n' {
        None
    } else if is_quote_char(text[j]) {
        Some(j)
    } else {
        spec_from_end(text, j + 1)
    }
}

/// A match found in source text: the specifier literal occupies
/// `[spec_start, spec_end)` and the whole matched region ends at `end`.
pub ghost struct SpecMatch {
    /// First character of the specifier literal.
    pub spec_start: int,
    /// One past the last character of the specifier literal.
    pub spec_end: int,
    /// One past the last character of the whole match.
    pub end: int,
}

/// A call-form match (`require(...)` or `import(...)`) starting exactly at
/// `i`, if there is one.
pub open spec fn spec_call_match_at(text: Seq<char>, i: int) -> Option<SpecMatch> {
    if !word_boundary(text, i) {
        None
    } else {
        let kwlen: int = if require_at(text, i) {
            7
        } else if import_at(text, i) {
            6
        } else {
            0
        };
        if kwlen == 0 {
            None
        } else {
            let a = spec_ws_end(text, i + kwlen);
            if a < text.len() && text[a] == '(' {
                let b = spec_ws_end(text, a + 1);
                if b < text.len() && is_quote_char(text[b]) {
                    let sp = b + 1;
                    if sp < text.len() && text[sp] != '\n' {
                        match spec_call_end(text, sp + 1) {
                            Some(e) => match close_paren_after(text, e + 1) {
                                Some(c) => Some(
                                    SpecMatch { spec_start: sp, spec_end: e, end: c + 1 },
                                ),
                                None => None,
                            },
                            None => None,
                        }
                    } else {
                        None
                    }
                } else {
                    None
                }
            } else {
                None
            }
        }
    }
}

/// A declarative-form match (`from '...'`) starting exactly at `i`.
pub open spec fn spec_from_match_at(text: Seq<char>, i: int) -> Option<SpecMatch> {
    if !word_boundary(text, i) || !from_at(text, i) {
        None
    } else {
        let a = spec_ws_end(text, i + 4);
        if a < text.len() && is_quote_char(text[a]) {
            let sp = a + 1;
            if sp < text.len() && text[sp] != '\n' {
                match spec_from_end(text, sp + 1) {
                    Some(e) => Some(SpecMatch { spec_start: sp, spec_end: e, end: e + 1 }),
                    None => None,
                }
            } else {
                None
            }
        } else {
            None
        }
    }
}

/// A match of the requested form starting exactly at `i`.
pub open spec fn spec_match_at(form: MatchForm, text: Seq<char>, i: int) -> Option<SpecMatch> {
    match form {
        MatchForm::Calls => spec_call_match_at(text, i),
        MatchForm::Froms => spec_from_match_at(text, i),
    }
}

pub proof fn lemma_call_end_bounds(text: Seq<char>, j: int)
    requires
        0 <= j,
    ensures
        spec_call_end(text, j) matches Some(e) ==> j <= e < text.len() && is_quote_char(text[e]),
    decreases text.len() - j,
{
    if j < text.len() && text[j] != '\n' && !(is_quote_char(text[j]) && close_paren_after(
        text,
        j + 1,
    ) is Some) {
        lemma_call_end_bounds(text, j + 1);
    }
}

pub proof fn lemma_from_end_bounds(text: Seq<char>, j: int)
    requires
        0 <= j,
    ensures
        spec_from_end(text, j) matches Some(e) ==> j <= e < text.len() && is_quote_char(text[e]),
    decreases text.len() - j,
{
    if j < text.len() && text[j] != '\n' && !is_quote_char(text[j]) {
        lemma_from_end_bounds(text, j + 1);
    }
}

/// Every match lies within the text and strictly advances the scan position.
pub proof fn lemma_match_at_bounds(form: MatchForm, text: Seq<char>, i: int)
    requires
        0 <= i,
    ensures
        spec_match_at(form, text, i) matches Some(m) ==> i < m.spec_start < m.spec_end < m.end
            <= text.len(),
{
    if spec_match_at(form, text, i) is Some {
        match form {
            MatchForm::Calls => {
                let kwlen: int = if require_at(text, i) {
                    7
                } else {
                    6
                };
                lemma_ws_end_bounds(text, i + kwlen);
                let a = spec_ws_end(text, i + kwlen);
                lemma_ws_end_bounds(text, a + 1);
                let b = spec_ws_end(text, a + 1);
                let sp = b + 1;
                lemma_call_end_bounds(text, sp + 1);
                let e = spec_call_end(text, sp + 1)->Some_0;
                lemma_ws_end_bounds(text, e + 1);
            },
            MatchForm::Froms => {
                lemma_ws_end_bounds(text, i + 4);
                let a = spec_ws_end(text, i + 4);
                let sp = a + 1;
                lemma_from_end_bounds(text, sp + 1);
            },
        }
    }
}

/// All matches of the requested form, scanning left to right from `i`;
/// scanning resumes immediately after each match, so matches never overlap.
pub open spec fn spec_matches(form: MatchForm, text: Seq<char>, i: int) -> Seq<SpecMatch>
    decreases text.len() - i,
    via spec_matches_decreases
{
    if i < 0 || i >= text.len() {
        Seq::<SpecMatch>::empty()
    } else {
        match spec_match_at(form, text, i) {
            Some(m) => seq![m] + spec_matches(form, text, m.end),
            None => spec_matches(form, text, i + 1),
        }
    }
}

#[via_fn]
proof fn spec_matches_decreases(form: MatchForm, text: Seq<char>, i: int) {
    if 0 <= i < text.len() {
        lemma_match_at_bounds(form, text, i);
    }
}

/// The specifier literals of a sequence of matches, in order.
pub open spec fn spec_specifiers(text: Seq<char>, ms: Seq<SpecMatch>) -> Seq<Seq<char>> {
    ms.map_values(|m: SpecMatch| text.subrange(m.spec_start, m.spec_end))
}

/// First non-whitespace position at or after `i`.
fn ws_end(text: &str, i: usize) -> (r: usize)
    requires
        i <= text@.len(),
    ensures
        r == spec_ws_end(text@, i as int),
        i <= r <= text@.len(),
{
    let n = text.unicode_len();
    let mut j = i;
    while j < n
        invariant
            i <= j <= n,
            n == text@.len(),
            spec_ws_end(text@, i as int) == spec_ws_end(text@, j as int),
        decreases n - j,
    {
        let c = text.get_char(j);
        if !(c == ' ' || c == '\t' || c == '\n' || c == '\r' || c == '\u{000B}' || c
            == '\u{000C}') {
            return j;
        }
        j += 1;
    }
    j
}

fn is_quote(c: char) -> (r: bool)
    ensures
        r == is_quote_char(c),
{
    c == '\'' || c == '"'
}

/// Position of `)` after whitespace from `j`, if the next non-whitespace
/// character is `)`.
fn close_paren(text: &str, j: usize) -> (r: Option<usize>)
    requires
        j <= text@.len(),
    ensures
        match r {
            Some(c) => close_paren_after(text@, j as int) == Some(c as int),
            None => close_paren_after(text@, j as int) is None,
        },
{
    let n = text.unicode_len();
    let c = ws_end(text, j);
    if c < n && text.get_char(c) == ')' {
        Some(c)
    } else {
        None
    }
}

fn call_end(text: &str, j: usize) -> (r: Option<usize>)
    requires
        j <= text@.len(),
    ensures
        match r {
            Some(e) => spec_call_end(text@, j as int) == Some(e as int) && e < text@.len(),
            None => spec_call_end(text@, j as int) is None,
        },
{
    let n = text.unicode_len();
    let mut k = j;
    while k < n
        invariant
            j <= k <= n,
            n == text@.len(),
            spec_call_end(text@, j as int) == spec_call_end(text@, k as int),
        decreases n - k,
    {
        let c = text.get_char(k);
        if c == '\n' {
            return None;
        }
        if is_quote(c) {
            if let Some(_p) = close_paren(text, k + 1) {
                return Some(k);
            }
        }
        k += 1;
    }
    None
}

fn from_end(text: &str, j: usize) -> (r: Option<usize>)
    requires
        j <= text@.len(),
    ensures
        match r {
            Some(e) => spec_from_end(text@, j as int) == Some(e as int) && e < text@.len(),
            None => spec_from_end(text@, j as int) is None,
        },
{
    let n = text.unicode_len();
    let mut k = j;
    while k < n
        invariant
            j <= k <= n,
            n == text@.len(),
            spec_from_end(text@, j as int) == spec_from_end(text@, k as int),
        decreases n - k,
    {
        let c = text.get_char(k);
        if c == '\n' {
            return None;
        }
        if is_quote(c) {
            return Some(k);
        }
        k += 1;
    }
    None
}

/// Whether `require` or `import` starts at `i`; returns the keyword length.
fn keyword_len(text: &str, i: usize) -> (r: usize)
    requires
        i <= text@.len(),
    ensures
        require_at(text@, i as int) ==> r == 7,
        !require_at(text@, i as int) && import_at(text@, i as int) ==> r == 6,
        !require_at(text@, i as int) && !import_at(text@, i as int) ==> r == 0,
        i + r <= text@.len(),
{
    let n = text.unicode_len();
    if n - i >= 7 && text.get_char(i) == 'r' && text.get_char(i + 1) == 'e' && text.get_char(i + 2)
        == 'q' && text.get_char(i + 3) == 'u' && text.get_char(i + 4) == 'i' && text.get_char(
        i + 5,
    ) == 'r' && text.get_char(i + 6) == 'e' {
        7
    } else if n - i >= 6 && text.get_char(i) == 'i' && text.get_char(i + 1) == 'm' && text.get_char(
        i + 2,
    ) == 'p' && text.get_char(i + 3) == 'o' && text.get_char(i + 4) == 'r' && text.get_char(i + 5)
        == 't' {
        6
    } else {
        0
    }
}

/// Whether `from` starts at `i`.
fn from_kw_at(text: &str, i: usize) -> (r: bool)
    requires
        i <= text@.len(),
    ensures
        r == from_at(text@, i as int),
{
    let n = text.unicode_len();
    n - i >= 4 && text.get_char(i) == 'f' && text.get_char(i + 1) == 'r' && text.get_char(i + 2)
        == 'o' && text.get_char(i + 3) == 'm'
}

fn word_boundary_at(text: &str, i: usize) -> (r: bool)
    requires
        i <= text@.len(),
    ensures
        r == word_boundary(text@, i as int),
{
    if i == 0 {
        true
    } else {
        let c = text.get_char(i - 1);
        !(('a' <= c && c <= 'z') || ('A' <= c && c <= 'Z') || ('0' <= c && c <= '9') || c == '_')
    }
}

/// A match of the requested form starting exactly at `i`, as
/// (specifier start, specifier end, match end).
pub fn match_at(form: MatchForm, text: &str, i: usize) -> (r: Option<(usize, usize, usize)>)
    requires
        i <= text@.len(),
    ensures
        match r {
            Some(t) => spec_match_at(form, text@, i as int) == Some(
                SpecMatch { spec_start: t.0 as int, spec_end: t.1 as int, end: t.2 as int },
            ),
            None => spec_match_at(form, text@, i as int) is None,
        },
{
    let n = text.unicode_len();
    if !word_boundary_at(text, i) {
        return None;
    }
    match form {
        MatchForm::Calls => {
            let kwlen = keyword_len(text, i);
            if kwlen == 0 {
                return None;
            }
            let a = ws_end(text, i + kwlen);
            if !(a < n && text.get_char(a) == '(') {
                return None;
            }
            let b = ws_end(text, a + 1);
            if !(b < n && is_quote(text.get_char(b))) {
                return None;
            }
            let sp = b + 1;
            if !(sp < n && text.get_char(sp) != '\n') {
                return None;
            }
            match call_end(text, sp + 1) {
                Some(e) => match close_paren(text, e + 1) {
                    Some(c) => Some((sp, e, c + 1)),
                    None => None,
                },
                None => None,
            }
        },
        MatchForm::Froms => {
            if !from_kw_at(text, i) {
                return None;
            }
            let a = ws_end(text, i + 4);
            if !(a < n && is_quote(text.get_char(a))) {
                return None;
            }
            let sp = a + 1;
            if !(sp < n && text.get_char(sp) != '\n') {
                return None;
            }
            match from_end(text, sp + 1) {
                Some(e) => Some((sp, e, e + 1)),
                None => None,
            }
        },
    }
}

/// Extracts every specifier literal of the requested form from `text`,
/// scanning from `i`, in order of appearance.
pub fn scan_from(form: MatchForm, text: &str, i: usize) -> (r: Vec<String>)
    requires
        i <= text@.len(),
    ensures
        r.deep_view() == spec_specifiers(text@, spec_matches(form, text@, i as int)),
    decreases text@.len() - i,
{
    let n = text.unicode_len();
    if i >= n {
        let r: Vec<String> = Vec::new();
        proof {
            assert(r.deep_view() =~= spec_specifiers(
                text@,
                spec_matches(form, text@, i as int),
            ));
        }
        return r;
    }
    match match_at(form, text, i) {
        Some((sp, e, end)) => {
            proof {
                lemma_match_at_bounds(form, text@, i as int);
            }
            let lit = String::from_str(text.substring_char(sp, e));
            let mut rest = scan_from(form, text, end);
            let ghost tail_vec = rest@;
            let ghost tail_dv = rest.deep_view();
            rest.insert(0, lit);
            proof {
                let ms = spec_matches(form, text@, i as int);
                let tail_ms = spec_matches(form, text@, end as int);
                assert(ms =~= seq![
                    SpecMatch { spec_start: sp as int, spec_end: e as int, end: end as int },
                ] + tail_ms);
                assert(rest@ =~= seq![lit] + tail_vec);
                assert(tail_dv == spec_specifiers(text@, tail_ms));
                assert(tail_dv.len() == tail_vec.len());
                assert(forall|j: int| 0 <= j < tail_vec.len() ==> tail_dv[j] == tail_vec[j]@);
                assert(rest.deep_view().len() == ms.len());
                assert forall|j: int| 0 <= j < ms.len() implies rest.deep_view()[j]
                    == spec_specifiers(text@, ms)[j] by {
                    if j == 0 {
                        assert(rest@[0] == lit);
                        assert(rest.deep_view()[0] == lit@);
                    } else {
                        assert(rest@[j] == tail_vec[j - 1]);
                        assert(rest.deep_view()[j] == tail_vec[j - 1]@);
                        assert(tail_vec[j - 1]@ == tail_dv[j - 1]);
                        assert(tail_dv[j - 1] == spec_specifiers(text@, tail_ms)[j - 1]);
                        assert(ms[j] == tail_ms[j - 1]);
                    }
                }
                assert(rest.deep_view() =~= spec_specifiers(text@, ms));
            }
            rest
        },
        None => scan_from(form, text, i + 1),
    }
}

/// Extracts every specifier literal of the requested form from `text`.
pub fn scan(form: MatchForm, text: &str) -> (r: Vec<String>)
    ensures
        r.deep_view() == spec_specifiers(text@, spec_matches(form, text@, 0)),
{
    scan_from(form, text, 0)
}

} // verus!
