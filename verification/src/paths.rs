//! String and path utilities: splitting on `/`, joining segments,
//! normalizing `.` and `..` segments, and prefix containment of paths.

use vstd::prelude::*;
use vstd::string::StrSliceExecFns;
use vstd::string::StringExecFns;

verus! {

/// The index of the first `/` in `s` at or after `from`, or `s.len()` if none.
pub open spec fn spec_slash_after(s: Seq<char>, from: int) -> int
    decreases s.len() - from,
{
    if from >= s.len() || from < 0 {
        s.len() as int
    } else if s[from] == '/' {
        from
    } else {
        spec_slash_after(s, from + 1)
    }
}

pub proof fn lemma_slash_after_bounds(s: Seq<char>, from: int)
    requires
        0 <= from <= s.len(),
    ensures
        from <= spec_slash_after(s, from) <= s.len(),
        spec_slash_after(s, from) < s.len() ==> s[spec_slash_after(s, from)] == '/',
        forall|k: int| from <= k < spec_slash_after(s, from) ==> s[k] != '/',
    decreases s.len() - from,
{
    if from < s.len() && s[from] != '/' {
        lemma_slash_after_bounds(s, from + 1);
    }
}

/// The index of the first `/` in `specifier` at or after `from`, or the
/// length if there is none.
pub fn find_slash(specifier: &str, from: usize) -> (r: usize)
    requires
        from <= specifier@.len(),
    ensures
        r == spec_slash_after(specifier@, from as int),
        from <= r <= specifier@.len(),
{
    let n = specifier.unicode_len();
    let mut i = from;
    while i < n
        invariant
            from <= i <= n,
            n == specifier@.len(),
            spec_slash_after(specifier@, from as int) == spec_slash_after(specifier@, i as int),
            forall|k: int| from <= k < i ==> specifier@[k] != '/',
        decreases n - i,
    {
        if specifier.get_char(i) == '/' {
            return i;
        }
        i += 1;
    }
    i
}

/// Equality of two string slices, decided character by character.
pub fn str_eq(a: &str, b: &str) -> (r: bool)
    ensures
        r == (a@ == b@),
{
    let na = a.unicode_len();
    let nb = b.unicode_len();
    if na != nb {
        return false;
    }
    let mut i: usize = 0;
    while i < na
        invariant
            0 <= i <= na,
            na == a@.len(),
            na == b@.len(),
            forall|k: int| 0 <= k < i ==> a@[k] == b@[k],
        decreases na - i,
    {
        if a.get_char(i) != b.get_char(i) {
            return false;
        }
        i += 1;
    }
    proof {
        assert(a@ =~= b@);
    }
    true
}

/// Path `p` lies strictly inside directory `d`: it extends `d` past a `/`.
pub open spec fn spec_is_inside(p: Seq<char>, d: Seq<char>) -> bool {
    p.len() > d.len() + 1 && p.take(d.len() as int) == d && p[d.len() as int] == '/'
}

/// Whether `p` is a proper descendant path of directory `d`.
pub fn is_inside(p: &str, d: &str) -> (r: bool)
    ensures
        r == spec_is_inside(p@, d@),
{
    let np = p.unicode_len();
    let nd = d.unicode_len();
    if np == 0 || np - 1 <= nd {
        return false;
    }
    if p.get_char(nd) != '/' {
        return false;
    }
    let prefix = p.substring_char(0, nd);
    str_eq(prefix, d)
}

/// The segments of `s`, split on `/`; a string with no `/` is one segment.
pub open spec fn spec_split(s: Seq<char>) -> Seq<Seq<char>>
    decreases s.len(),
    via spec_split_decreases
{
    let f = spec_slash_after(s, 0);
    if f == s.len() {
        seq![s]
    } else {
        seq![s.take(f)] + spec_split(s.skip(f + 1))
    }
}

#[via_fn]
proof fn spec_split_decreases(s: Seq<char>) {
    lemma_slash_after_bounds(s, 0);
}

/// Splits `s` on `/`.
pub fn split_path(s: &str) -> (r: Vec<String>)
    ensures
        r.deep_view() == spec_split(s@),
        r.len() >= 1,
    decreases s@.len(),
{
    let n = s.unicode_len();
    let f = find_slash(s, 0);
    proof {
        lemma_slash_after_bounds(s@, 0);
    }
    if f == n {
        let mut r: Vec<String> = Vec::new();
        r.push(String::from_str(s));
        proof {
            assert(r.deep_view() =~= spec_split(s@));
        }
        r
    } else {
        let head = String::from_str(s.substring_char(0, f));
        let tail = s.substring_char(f + 1, n);
        let mut rest = split_path(tail);
        rest.insert(0, head);
        proof {
            assert(rest.deep_view() =~= spec_split(s@));
        }
        rest
    }
}

/// The segments joined with `/` between them.
pub open spec fn spec_join(parts: Seq<Seq<char>>) -> Seq<char>
    decreases parts.len(),
{
    if parts.len() == 0 {
        Seq::<char>::empty()
    } else if parts.len() == 1 {
        parts[0]
    } else {
        parts[0] + seq!['/'] + spec_join(parts.drop_first())
    }
}

/// Joins segments with `/` between them.
pub fn join_segments(parts: &[String]) -> (r: String)
    ensures
        r@ == spec_join(parts.deep_view()),
{
    let r = join_segments_from(parts, 0);
    proof {
        assert(parts.deep_view().skip(0) =~= parts.deep_view());
    }
    r
}

fn join_segments_from(parts: &[String], i: usize) -> (r: String)
    requires
        i <= parts@.len(),
    ensures
        r@ == spec_join(parts.deep_view().skip(i as int)),
    decreases parts@.len() - i,
{
    let n = parts.len();
    if i == n {
        proof {
            assert(parts.deep_view().skip(i as int) =~= Seq::<Seq<char>>::empty());
        }
        String::new()
    } else if i + 1 == n {
        proof {
            assert(parts.deep_view().skip(i as int) =~= seq![parts.deep_view()[i as int]]);
        }
        parts[i].clone()
    } else {
        let rest = join_segments_from(parts, i + 1);
        let mut out = parts[i].clone();
        out.append("/");
        let out2 = out.concat(rest.as_str());
        proof {
            assert(parts.deep_view().skip(i as int).drop_first() =~= parts.deep_view().skip(
                i as int + 1,
            ));
            assert(parts.deep_view().skip(i as int)[0] == parts.deep_view()[i as int]);
            reveal_strlit("/");
            assert(out2@ =~= spec_join(parts.deep_view().skip(i as int)));
        }
        out2
    }
}

/// Folds `segs` into `acc`: empty and `.` segments are dropped, `..` removes
/// the last accumulated segment, anything else is appended.
pub open spec fn spec_norm(acc: Seq<Seq<char>>, segs: Seq<Seq<char>>) -> Seq<Seq<char>>
    decreases segs.len(),
{
    if segs.len() == 0 {
        acc
    } else {
        let h = segs[0];
        if h.len() == 0 || h == seq!['.'] {
            spec_norm(acc, segs.drop_first())
        } else if h == seq!['.', '.'] {
            spec_norm(acc.take((if acc.len() > 0 {
                acc.len() - 1
            } else {
                0
            }) as int), segs.drop_first())
        } else {
            spec_norm(acc.push(h), segs.drop_first())
        }
    }
}

fn is_dot(s: &String) -> (r: bool)
    ensures
        r == (s@ == seq!['.']),
{
    if s.as_str().unicode_len() == 1 && s.as_str().get_char(0) == '.' {
        proof {
            assert(s@ =~= seq!['.']);
        }
        true
    } else {
        proof {
            assert(s@ == seq!['.'] ==> s@.len() == 1 && s@[0] == '.');
        }
        false
    }
}

fn is_dot_dot(s: &String) -> (r: bool)
    ensures
        r == (s@ == seq!['.', '.']),
{
    if s.as_str().unicode_len() == 2 && s.as_str().get_char(0) == '.' && s.as_str().get_char(1)
        == '.' {
        proof {
            assert(s@ =~= seq!['.', '.']);
        }
        true
    } else {
        proof {
            assert(s@ == seq!['.', '.'] ==> s@.len() == 2 && s@[0] == '.' && s@[1] == '.');
        }
        false
    }
}

fn normalize_into(acc: Vec<String>, segs: &[String], i: usize) -> (r: Vec<String>)
    requires
        i <= segs@.len(),
    ensures
        r.deep_view() == spec_norm(acc.deep_view(), segs.deep_view().skip(i as int)),
    decreases segs@.len() - i,
{
    if i == segs.len() {
        proof {
            assert(segs.deep_view().skip(i as int) =~= Seq::<Seq<char>>::empty());
        }
        acc
    } else {
        let h = &segs[i];
        proof {
            assert(segs.deep_view().skip(i as int)[0] == segs.deep_view()[i as int]);
            assert(segs.deep_view().skip(i as int).drop_first() =~= segs.deep_view().skip(
                i as int + 1,
            ));
        }
        if h.as_str().unicode_len() == 0 || is_dot(h) {
            normalize_into(acc, segs, i + 1)
        } else if is_dot_dot(h) {
            let ghost acc0 = acc.deep_view();
            let mut acc2 = acc;
            if acc2.len() > 0 {
                acc2.pop();
                proof {
                    assert(acc2.deep_view() =~= acc0.take(acc0.len() - 1));
                }
            } else {
                proof {
                    assert(acc2.deep_view() =~= acc0.take(0));
                }
            }
            normalize_into(acc2, segs, i + 1)
        } else {
            let ghost acc0 = acc.deep_view();
            let mut acc2 = acc;
            acc2.push(h.clone());
            proof {
                assert(acc2.deep_view() =~= acc0.push(h@));
            }
            normalize_into(acc2, segs, i + 1)
        }
    }
}

/// The directory `dir` joined with the relative path `rel`, with empty, `.`
/// and `..` segments of both resolved away; an absolute `dir` keeps its
/// leading `/`.
pub open spec fn spec_resolve_dots(dir: Seq<char>, rel: Seq<char>) -> Seq<char> {
    let joined = spec_join(
        spec_norm(spec_norm(Seq::<Seq<char>>::empty(), spec_split(dir)), spec_split(rel)),
    );
    if dir.len() > 0 && dir[0] == '/' {
        seq!['/'] + joined
    } else {
        joined
    }
}

/// Joins directory `dir` with relative path `rel`, folding away `.` and `..`
/// segments.
pub fn resolve_dots(dir: &str, rel: &str) -> (r: String)
    ensures
        r@ == spec_resolve_dots(dir@, rel@),
{
    let dsegs = split_path(dir);
    let empty: Vec<String> = Vec::new();
    proof {
        assert(empty.deep_view() =~= Seq::<Seq<char>>::empty());
    }
    let dslice = dsegs.as_slice();
    proof {
        assert(dslice.deep_view().skip(0) =~= dsegs.deep_view());
    }
    let base = normalize_into(empty, dslice, 0);
    let rsegs = split_path(rel);
    let rslice = rsegs.as_slice();
    proof {
        assert(rslice.deep_view().skip(0) =~= rsegs.deep_view());
    }
    let all = normalize_into(base, rslice, 0);
    let aslice = all.as_slice();
    proof {
        assert(aslice.deep_view() =~= all.deep_view());
    }
    let joined = join_segments(aslice);
    if dir.unicode_len() > 0 && dir.get_char(0) == '/' {
        let r = String::from_str("/").concat(joined.as_str());
        proof {
            reveal_strlit("/");
            assert(r@ =~= spec_resolve_dots(dir@, rel@));
        }
        r
    } else {
        joined
    }
}

/// The path `s` up to (excluding) its final `/` segment separator.
pub open spec fn spec_dirname(s: Seq<char>) -> Seq<char> {
    spec_join(spec_split(s).drop_last())
}

/// The directory portion of a path: everything before the last `/`.
pub fn dirname(s: &str) -> (r: String)
    ensures
        r@ == spec_dirname(s@),
{
    let mut segs = split_path(s);
    segs.pop();
    proof {
        assert(segs.deep_view() =~= spec_split(s@).drop_last());
    }
    let sl = segs.as_slice();
    proof {
        assert(sl.deep_view() =~= segs.deep_view());
    }
    join_segments(sl)
}

} // verus!
