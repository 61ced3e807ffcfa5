//! Rewrites specifier literals inside compiled output files.
//!
//! Every scanned specifier is replaced by the value an injected formatter
//! computes for it; all text outside the matched specifier literals is kept
//! byte-identical. The call forms are rewritten for every output format; the
//! declarative `from` form only for formats that may contain it.

use vstd::prelude::*;
use vstd::string::StrSliceExecFns;
use vstd::string::StringExecFns;

use crate::paths::str_eq;
use crate::scanner::MatchForm;
use crate::scanner::SpecMatch;
use crate::scanner::lemma_match_at_bounds;
use crate::scanner::match_at;
use crate::scanner::scan;
use crate::scanner::spec_match_at;
use crate::scanner::spec_matches;
use crate::scanner::spec_specifiers;

verus! {

/// The text from position `i` on, with each match's specifier literal
/// replaced by the corresponding element of `rs` and everything else kept.
pub open spec fn spec_splice(
    text: Seq<char>,
    i: int,
    ms: Seq<SpecMatch>,
    rs: Seq<Seq<char>>,
) -> Seq<char>
    decreases ms.len(),
{
    if ms.len() == 0 {
        text.skip(i)
    } else {
        text.subrange(i, ms[0].spec_start) + rs[0] + text.subrange(ms[0].spec_end, ms[0].end)
            + spec_splice(text, ms[0].end, ms.drop_first(), rs.drop_first())
    }
}

/// The first match found at or after `j` starts at or after `j` and lies
/// within the text.
pub proof fn lemma_matches_start(form: MatchForm, text: Seq<char>, j: int)
    requires
        0 <= j,
    ensures
        spec_matches(form, text, j).len() > 0 ==> {
            let m = spec_matches(form, text, j)[0];
            j <= m.spec_start && m.spec_start < m.spec_end && m.spec_end < m.end && m.end
                <= text.len()
        },
    decreases text.len() - j,
{
    if 0 <= j < text.len() {
        lemma_match_at_bounds(form, text, j);
        if spec_match_at(form, text, j) is None {
            lemma_matches_start(form, text, j + 1);
        }
    }
}

/// Splicing from `i` keeps the character at `i` when no match starts before
/// `i + 1`.
pub proof fn lemma_splice_char_step(text: Seq<char>, i: int, ms: Seq<SpecMatch>, rs: Seq<Seq<char>>)
    requires
        0 <= i < text.len(),
        ms.len() > 0 ==> i + 1 <= ms[0].spec_start <= text.len(),
    ensures
        spec_splice(text, i, ms, rs) == text.subrange(i, i + 1) + spec_splice(text, i + 1, ms, rs),
{
    if ms.len() == 0 {
        assert(text.skip(i) =~= text.subrange(i, i + 1) + text.skip(i + 1));
    } else {
        assert(text.subrange(i, ms[0].spec_start) =~= text.subrange(i, i + 1) + text.subrange(
            i + 1,
            ms[0].spec_start,
        ));
        assert(spec_splice(text, i, ms, rs) =~= text.subrange(i, i + 1) + spec_splice(
            text,
            i + 1,
            ms,
            rs,
        ));
    }
}

/// Replacing every specifier literal by itself reproduces the text: the
/// rewrite machinery touches nothing outside the matched literals.
pub proof fn lemma_splice_of_literals(form: MatchForm, text: Seq<char>, i: int)
    requires
        0 <= i <= text.len(),
    ensures
        spec_splice(
            text,
            i,
            spec_matches(form, text, i),
            spec_specifiers(text, spec_matches(form, text, i)),
        ) == text.skip(i),
    decreases text.len() - i,
{
    let ms = spec_matches(form, text, i);
    let rs = spec_specifiers(text, ms);
    if i == text.len() {
        assert(ms.len() == 0);
        assert(text.skip(i) =~= Seq::<char>::empty());
    } else {
        match spec_match_at(form, text, i) {
            Some(m) => {
                lemma_match_at_bounds(form, text, i);
                let tail = spec_matches(form, text, m.end);
                assert(ms =~= seq![m] + tail);
                lemma_splice_of_literals(form, text, m.end);
                assert(ms.drop_first() =~= tail);
                assert(rs.drop_first() =~= spec_specifiers(text, tail));
                assert(rs[0] == text.subrange(m.spec_start, m.spec_end));
                assert(spec_splice(text, i, ms, rs) =~= text.skip(i));
            },
            None => {
                assert(ms == spec_matches(form, text, i + 1));
                lemma_splice_of_literals(form, text, i + 1);
                lemma_matches_start(form, text, i + 1);
                lemma_splice_char_step(text, i, ms, rs);
                assert(text.subrange(i, i + 1) + text.skip(i + 1) =~= text.skip(i));
            },
        }
    }
}

fn substitute_from(form: MatchForm, text: &str, i: usize, repl: &[String], k: usize) -> (r: String)
    requires
        i <= text@.len(),
        k <= repl.deep_view().len(),
        repl.deep_view().len() - k == spec_matches(form, text@, i as int).len(),
    ensures
        r@ == spec_splice(
            text@,
            i as int,
            spec_matches(form, text@, i as int),
            repl.deep_view().skip(k as int),
        ),
    decreases text@.len() - i,
{
    let n = text.unicode_len();
    let ghost ms = spec_matches(form, text@, i as int);
    let ghost rs = repl.deep_view().skip(k as int);
    if i >= n {
        let r = String::new();
        proof {
            assert(r@ =~= spec_splice(text@, i as int, ms, rs));
        }
        return r;
    }
    match match_at(form, text, i) {
        Some((sp, e, end)) => {
            proof {
                lemma_match_at_bounds(form, text@, i as int);
            }
            let mut out = String::from_str(text.substring_char(i, sp));
            out.append(repl[k].as_str());
            out.append(text.substring_char(e, end));
            let rest = substitute_from(form, text, end, repl, k + 1);
            let r = out.concat(rest.as_str());
            proof {
                let m = SpecMatch { spec_start: sp as int, spec_end: e as int, end: end as int };
                let tail = spec_matches(form, text@, end as int);
                assert(ms =~= seq![m] + tail);
                assert(ms.drop_first() =~= tail);
                assert(rs.drop_first() =~= repl.deep_view().skip(k as int + 1));
                assert(rs[0] == repl.deep_view()[k as int]);
                assert(repl.deep_view()[k as int] == repl@[k as int]@);
                assert(r@ =~= spec_splice(text@, i as int, ms, rs));
            }
            r
        },
        None => {
            let ch = text.substring_char(i, i + 1);
            let rest = substitute_from(form, text, i + 1, repl, k);
            let r = String::from_str(ch).concat(rest.as_str());
            proof {
                assert(ms == spec_matches(form, text@, i as int + 1));
                lemma_matches_start(form, text@, i as int + 1);
                lemma_splice_char_step(text@, i as int, ms, rs);
            }
            r
        },
    }
}

/// Replaces the specifier literal of each match of `form` in `text` with the
/// corresponding replacement, leaving all other text unchanged.
pub fn substitute(form: MatchForm, text: &str, repl: &Vec<String>) -> (r: String)
    requires
        repl.deep_view().len() == spec_matches(form, text@, 0).len(),
    ensures
        r@ == spec_splice(text@, 0, spec_matches(form, text@, 0), repl.deep_view()),
{
    let sl = repl.as_slice();
    proof {
        assert(sl.deep_view() =~= repl.deep_view());
        assert(sl.deep_view().skip(0) =~= repl.deep_view());
    }
    substitute_from(form, text, 0, sl, 0)
}

/// Applies the formatter to every scanned specifier, pairing it with the
/// requesting file's path.
fn apply_formatter<F: Fn(String, String) -> String>(
    fmt: &F,
    file_path: &str,
    specs: &Vec<String>,
) -> (r: (Vec<String>, Ghost<String>))
    requires
        forall|args: (String, String)| #[trigger] call_requires(*fmt, args),
    ensures
        r.0@.len() == specs@.len(),
        r.1@@ == file_path@,
        forall|j: int| #![trigger r.0@[j]]
            0 <= j < specs@.len() ==> call_ensures(*fmt, (r.1@, specs@[j]), r.0@[j]),
{
    let p0 = String::from_str(file_path);
    let mut r: Vec<String> = Vec::new();
    let mut i: usize = 0;
    while i < specs.len()
        invariant
            i <= specs@.len(),
            r@.len() == i,
            p0@ == file_path@,
            forall|args: (String, String)| #[trigger] call_requires(*fmt, args),
            forall|j: int| #![trigger r@[j]]
                0 <= j < i ==> call_ensures(*fmt, (p0, specs@[j]), r@[j]),
        decreases specs@.len() - i,
    {
        let p = p0.clone();
        let s = specs[i].clone();
        let out = (*fmt)(p, s);
        r.push(out);
        i += 1;
    }
    (r, Ghost(p0))
}

/// The relation between a file's text and its rewritten form: there is one
/// formatter output per match of `form`, each computed from the requesting
/// file's path and the matched specifier literal, and the output text is the
/// input with exactly those literals replaced.
pub open spec fn formatted_witness<F: Fn(String, String) -> String>(
    f: F,
    path: Seq<char>,
    text: Seq<char>,
    form: MatchForm,
    p: String,
    ss: Seq<String>,
    rs: Seq<String>,
    out: Seq<char>,
) -> bool {
    let ms = spec_matches(form, text, 0);
    &&& rs.len() == ms.len()
    &&& ss.len() == ms.len()
    &&& p@ == path
    &&& forall|j: int| #![trigger rs[j]]
        0 <= j < rs.len() ==> ss[j]@ == spec_specifiers(text, ms)[j] && call_ensures(
            f,
            (p, ss[j]),
            rs[j],
        )
    &&& out == spec_splice(text, 0, ms, rs.map_values(|x: String| x@))
}

pub open spec fn formatted_with<F: Fn(String, String) -> String>(
    f: F,
    path: Seq<char>,
    text: Seq<char>,
    form: MatchForm,
    out: Seq<char>,
) -> bool {
    exists|p: String, ss: Seq<String>, rs: Seq<String>| #[trigger] formatted_witness(
        f,
        path,
        text,
        form,
        p,
        ss,
        rs,
        out,
    )
}

/// Rewrites every `require(...)` and `import(...)` specifier in
/// `file_content` with the formatter's output for it.
pub fn update_requires_and_imports<F: Fn(String, String) -> String>(
    fmt: &F,
    file_path: &str,
    file_content: &str,
) -> (r: String)
    requires
        forall|args: (String, String)| #[trigger] call_requires(*fmt, args),
    ensures
        formatted_with(*fmt, file_path@, file_content@, MatchForm::Calls, r@),
{
    rewrite_pass(fmt, file_path, file_content, MatchForm::Calls)
}

/// Rewrites every `from '...'` specifier in `file_content` with the
/// formatter's output for it.
pub fn update_froms<F: Fn(String, String) -> String>(
    fmt: &F,
    file_path: &str,
    file_content: &str,
) -> (r: String)
    requires
        forall|args: (String, String)| #[trigger] call_requires(*fmt, args),
    ensures
        formatted_with(*fmt, file_path@, file_content@, MatchForm::Froms, r@),
{
    rewrite_pass(fmt, file_path, file_content, MatchForm::Froms)
}

fn rewrite_pass<F: Fn(String, String) -> String>(
    fmt: &F,
    file_path: &str,
    file_content: &str,
    form: MatchForm,
) -> (r: String)
    requires
        forall|args: (String, String)| #[trigger] call_requires(*fmt, args),
    ensures
        formatted_with(*fmt, file_path@, file_content@, form, r@),
{
    let specs = scan(form, file_content);
    let (repls, wp) = apply_formatter(fmt, file_path, &specs);
    proof {
        assert(specs.deep_view().len() == specs@.len());
        assert(repls.deep_view().len() == repls@.len());
        assert(spec_specifiers(file_content@, spec_matches(form, file_content@, 0)).len()
            == spec_matches(form, file_content@, 0).len());
    }
    let r = substitute(form, file_content, &repls);
    proof {
        let ms = spec_matches(form, file_content@, 0);
        let rs = repls@;
        assert(rs.map_values(|x: String| x@) =~= repls.deep_view());
        assert forall|j: int| #![trigger rs[j]] 0 <= j < rs.len() implies specs@[j]@
            == spec_specifiers(file_content@, ms)[j] && call_ensures(
            *fmt,
            (wp@, specs@[j]),
            rs[j],
        ) by {
            assert(repls@[j] == rs[j]);
            assert(specs@[j]@ == specs.deep_view()[j]);
        }
        assert(formatted_witness(*fmt, file_path@, file_content@, form, wp@, specs@, rs, r@));
    }
    r
}

/// Rewrites the call-form specifiers of a CommonJS output file; the
/// declarative `from` form is not scanned for this format. Returns the new
/// content only when it differs from the input.
pub fn update_cjs<F: Fn(String, String) -> String>(
    specifiers_reformatter: &F,
    file_path: &str,
    file_content: &str,
) -> (r: Option<String>)
    requires
        forall|args: (String, String)| #[trigger] call_requires(*specifiers_reformatter, args),
    ensures
        match r {
            Some(s) => formatted_with(
                *specifiers_reformatter,
                file_path@,
                file_content@,
                MatchForm::Calls,
                s@,
            ) && s@ != file_content@,
            None => formatted_with(
                *specifiers_reformatter,
                file_path@,
                file_content@,
                MatchForm::Calls,
                file_content@,
            ),
        },
{
    let new_content = update_requires_and_imports(specifiers_reformatter, file_path, file_content);
    if !str_eq(new_content.as_str(), file_content) {
        Some(new_content)
    } else {
        None
    }
}

/// The two-pass rewrite relation for formats that carry the declarative
/// `from` form: a call-form pass over the input, then a `from` pass over its
/// result.
pub open spec fn formatted_two_pass<F: Fn(String, String) -> String>(
    f: F,
    path: Seq<char>,
    text: Seq<char>,
    out: Seq<char>,
) -> bool {
    exists|mid: Seq<char>|
        #[trigger] formatted_with(f, path, text, MatchForm::Calls, mid) && formatted_with(
            f,
            path,
            mid,
            MatchForm::Froms,
            out,
        )
}

/// Rewrites the call-form and `from`-form specifiers of an ES-module output
/// file. Returns the new content only when it differs from the input.
pub fn update_esm<F: Fn(String, String) -> String>(
    specifiers_reformatter: &F,
    file_path: &str,
    file_content: &str,
) -> (r: Option<String>)
    requires
        forall|args: (String, String)| #[trigger] call_requires(*specifiers_reformatter, args),
    ensures
        match r {
            Some(s) => formatted_two_pass(
                *specifiers_reformatter,
                file_path@,
                file_content@,
                s@,
            ) && s@ != file_content@,
            None => formatted_two_pass(
                *specifiers_reformatter,
                file_path@,
                file_content@,
                file_content@,
            ),
        },
{
    update_two_pass(specifiers_reformatter, file_path, file_content)
}

/// Rewrites the call-form and `from`-form specifiers of a type-declaration
/// output file. Returns the new content only when it differs from the input.
pub fn update_dts<F: Fn(String, String) -> String>(
    specifiers_reformatter: &F,
    file_path: &str,
    file_content: &str,
) -> (r: Option<String>)
    requires
        forall|args: (String, String)| #[trigger] call_requires(*specifiers_reformatter, args),
    ensures
        match r {
            Some(s) => formatted_two_pass(
                *specifiers_reformatter,
                file_path@,
                file_content@,
                s@,
            ) && s@ != file_content@,
            None => formatted_two_pass(
                *specifiers_reformatter,
                file_path@,
                file_content@,
                file_content@,
            ),
        },
{
    update_two_pass(specifiers_reformatter, file_path, file_content)
}

fn update_two_pass<F: Fn(String, String) -> String>(
    fmt: &F,
    file_path: &str,
    file_content: &str,
) -> (r: Option<String>)
    requires
        forall|args: (String, String)| #[trigger] call_requires(*fmt, args),
    ensures
        match r {
            Some(s) => formatted_two_pass(*fmt, file_path@, file_content@, s@) && s@
                != file_content@,
            None => formatted_two_pass(*fmt, file_path@, file_content@, file_content@),
        },
{
    let mid = update_requires_and_imports(fmt, file_path, file_content);
    let new_content = update_froms(fmt, file_path, mid.as_str());
    if !str_eq(new_content.as_str(), file_content) {
        Some(new_content)
    } else {
        None
    }
}

/// A formatter that returns every specifier unchanged leaves the whole text
/// unchanged: a rewrite pass only ever touches the matched specifier
/// literals, so rewriting an already-correct file is a fixed point.
pub proof fn lemma_identity_formatter_fixed_point<F: Fn(String, String) -> String>(
    f: F,
    path: Seq<char>,
    text: Seq<char>,
    form: MatchForm,
    out: Seq<char>,
)
    requires
        formatted_with(f, path, text, form, out),
        forall|p: String, s: String, r: String| #[trigger] call_ensures(f, (p, s), r) ==> r@ == s@,
    ensures
        out == text,
{
    let (p, ss, rs) = choose|p: String, ss: Seq<String>, rs: Seq<String>|
        #[trigger] formatted_witness(f, path, text, form, p, ss, rs, out);
    let ms = spec_matches(form, text, 0);
    let lits = spec_specifiers(text, ms);
    assert(rs.map_values(|x: String| x@) =~= lits) by {
        assert forall|j: int| 0 <= j < rs.len() implies rs.map_values(|x: String| x@)[j]
            == lits[j] by {
            let rj = rs[j];
            assert(ss[j]@ == lits[j] && call_ensures(f, (p, ss[j]), rj));
            assert(rj@ == ss[j]@);
        }
    }
    lemma_splice_of_literals(form, text, 0);
    assert(text.skip(0) =~= text);
}

/// A text without any match of `form` is returned unchanged by a rewrite
/// pass: rewriting never alters text outside matched specifier literals.
pub proof fn lemma_rewrite_no_matches<F: Fn(String, String) -> String>(
    f: F,
    path: Seq<char>,
    text: Seq<char>,
    form: MatchForm,
    out: Seq<char>,
)
    requires
        formatted_with(f, path, text, form, out),
        spec_matches(form, text, 0).len() == 0,
    ensures
        out == text,
{
    let (p, ss, rs) = choose|p: String, ss: Seq<String>, rs: Seq<String>|
        #[trigger] formatted_witness(f, path, text, form, p, ss, rs, out);
    assert(spec_splice(text, 0, spec_matches(form, text, 0), rs.map_values(|x: String| x@)) =~= text.skip(
        0,
    ));
    assert(out =~= text);
}

} // verus!
