//! The dependency-closure walk: starting from a package's entry points,
//! follows resolved relative imports through the compiled output to discover
//! every bare specifier reachable at runtime.
//!
//! The walk keeps a visited set keyed by absolute path, so a file reachable
//! by more than one relative-import path, or part of an import cycle, is
//! scanned at most once and the walk always terminates. A relative import
//! that resolves outside the output-directory boundary is recorded but never
//! traversed: the walk stays confined to the compiled output.

use vstd::prelude::*;
use vstd::seq_lib::seq_to_set_is_finite;
use vstd::set_lib::lemma_len_subset;

use crate::classifier::SpecifierKind;
use crate::classifier::classify;
use crate::classifier::root_of;
use crate::classifier::spec_is_relative;
use crate::classifier::spec_root_of;
use crate::fs_model::FileSystem;
use crate::fs_model::spec_is_file;
use crate::fs_model::spec_lookup;
use crate::package_json_reader::PackageJson;
use crate::package_json_reader::contains_str;
use crate::package_json_reader::push_unique;
use crate::package_json_reader::seq_contains_str;
use crate::paths::is_inside;
use crate::paths::spec_is_inside;
use crate::resolver::ManifestTable;
use crate::resolver::ModuleResolver;
use crate::resolver::ResolutionOutcome;
use crate::resolver::spec_resolve;
use crate::scanner::MatchForm;
use crate::scanner::scan;
use crate::scanner::spec_matches;
use crate::scanner::spec_specifiers;

verus! {

/// The four disjoint sets a walk accumulates: bare ("absolute") specifier
/// roots split by resolution outcome, and relative specifiers split the same
/// way. Each set is deduplicated; insertion order carries no meaning.
pub struct SpecifierClosure {
    /// Roots of bare specifiers that resolved.
    pub resolved_absolute_specifiers: Vec<String>,
    /// Roots of bare specifiers that did not resolve.
    pub unresolved_absolute_specifiers: Vec<String>,
    /// Relative specifiers that resolved but were not traversed further.
    pub resolved_relative_specifiers: Vec<String>,
    /// Relative specifiers that did not resolve.
    pub unresolved_relative_specifiers: Vec<String>,
}

/// No two elements of the list have the same text: it represents a set.
pub open spec fn views_no_dup(v: Seq<String>) -> bool {
    forall|i: int, j: int| 0 <= i < j < v.len() ==> v[i]@ != v[j]@
}

/// All four accumulated sets are deduplicated.
pub open spec fn closure_wf(c: SpecifierClosure) -> bool {
    &&& views_no_dup(c.resolved_absolute_specifiers@)
    &&& views_no_dup(c.unresolved_absolute_specifiers@)
    &&& views_no_dup(c.resolved_relative_specifiers@)
    &&& views_no_dup(c.unresolved_relative_specifiers@)
}

/// Every element of each of the first closure's sets is in the second's.
pub open spec fn closure_extends(a: SpecifierClosure, b: SpecifierClosure) -> bool {
    &&& forall|x: Seq<char>|
        #![trigger seq_contains_str(a.resolved_absolute_specifiers@, x)]
        seq_contains_str(a.resolved_absolute_specifiers@, x) ==> seq_contains_str(
            b.resolved_absolute_specifiers@,
            x,
        )
    &&& forall|x: Seq<char>|
        #![trigger seq_contains_str(a.unresolved_absolute_specifiers@, x)]
        seq_contains_str(a.unresolved_absolute_specifiers@, x) ==> seq_contains_str(
            b.unresolved_absolute_specifiers@,
            x,
        )
    &&& forall|x: Seq<char>|
        #![trigger seq_contains_str(a.resolved_relative_specifiers@, x)]
        seq_contains_str(a.resolved_relative_specifiers@, x) ==> seq_contains_str(
            b.resolved_relative_specifiers@,
            x,
        )
    &&& forall|x: Seq<char>|
        #![trigger seq_contains_str(a.unresolved_relative_specifiers@, x)]
        seq_contains_str(a.unresolved_relative_specifiers@, x) ==> seq_contains_str(
            b.unresolved_relative_specifiers@,
            x,
        )
}

/// Every specifier literal one file's content yields: the call forms, then
/// the declarative `from` form.
pub open spec fn spec_file_specifiers(text: Seq<char>) -> Seq<Seq<char>> {
    spec_specifiers(text, spec_matches(MatchForm::Calls, text, 0)) + spec_specifiers(
        text,
        spec_matches(MatchForm::Froms, text, 0),
    )
}

/// Whether scanning the file at `f` in the snapshot yields the specifier
/// `s`; a file the snapshot does not hold yields nothing.
pub open spec fn spec_scanned_specifier(fs: FileSystem, f: Seq<char>, s: Seq<char>) -> bool {
    match spec_lookup(fs.files@, f) {
        Some(c) => spec_file_specifiers(c).contains(s),
        None => false,
    }
}

/// How one specifier scanned from file `f` must be reflected in the walk's
/// state: a bare specifier's root is in the bare set of its resolution
/// outcome; an unresolved relative specifier is in the unresolved-relative
/// set; a resolved relative target outside the boundary puts the specifier
/// in the resolved-relative set; one inside the boundary is pending or
/// already visited.
pub open spec fn spec_specifier_recorded(
    fs: FileSystem,
    table: Seq<(String, PackageJson)>,
    f: Seq<char>,
    s: Seq<char>,
    out: Seq<char>,
    cl: SpecifierClosure,
    pending: Seq<String>,
    visited: Seq<String>,
) -> bool {
    if !spec_is_relative(s) {
        if spec_resolve(fs, table, f, s, false) is Some {
            seq_contains_str(cl.resolved_absolute_specifiers@, spec_root_of(s))
        } else {
            seq_contains_str(cl.unresolved_absolute_specifiers@, spec_root_of(s))
        }
    } else {
        match spec_resolve(fs, table, f, s, false) {
            Some(p) => {
                if spec_is_inside(p, out) {
                    seq_contains_str(pending, p) || seq_contains_str(visited, p)
                } else {
                    seq_contains_str(cl.resolved_relative_specifiers@, s)
                }
            },
            None => seq_contains_str(cl.unresolved_relative_specifiers@, s),
        }
    }
}

/// `x` is the root of a bare specifier scanned from a visited file whose
/// resolution outcome matches `resolved`.
pub open spec fn spec_bare_scanned(
    fs: FileSystem,
    table: Seq<(String, PackageJson)>,
    visited: Seq<String>,
    resolved: bool,
    x: Seq<char>,
) -> bool {
    exists|f: Seq<char>, s: Seq<char>|
        seq_contains_str(visited, f) && #[trigger] spec_scanned_specifier(fs, f, s)
            && !spec_is_relative(s) && ((spec_resolve(fs, table, f, s, false) is Some) == resolved)
            && x == spec_root_of(s)
}

/// `s` is a relative specifier scanned from a visited file whose resolution
/// outcome matches `resolved`.
pub open spec fn spec_relative_scanned(
    fs: FileSystem,
    table: Seq<(String, PackageJson)>,
    visited: Seq<String>,
    resolved: bool,
    s: Seq<char>,
) -> bool {
    exists|f: Seq<char>|
        seq_contains_str(visited, f) && #[trigger] spec_scanned_specifier(fs, f, s)
            && spec_is_relative(s) && ((spec_resolve(fs, table, f, s, false) is Some) == resolved)
}

/// `p` is the resolved target of a relative specifier scanned from one of
/// the visited files.
pub open spec fn spec_scan_target(
    fs: FileSystem,
    table: Seq<(String, PackageJson)>,
    visited: Seq<String>,
    p: Seq<char>,
) -> bool {
    exists|f: Seq<char>, s: Seq<char>|
        seq_contains_str(visited, f) && #[trigger] spec_scanned_specifier(fs, f, s)
            && spec_is_relative(s) && spec_resolve(fs, table, f, s, false) == Some(p)
}

/// `x` arises from one of the listed specifiers as a bare root with the
/// given resolution outcome.
pub open spec fn spec_bare_in_list(
    fs: FileSystem,
    table: Seq<(String, PackageJson)>,
    f: Seq<char>,
    specs: Seq<String>,
    resolved: bool,
    x: Seq<char>,
) -> bool {
    exists|j: int|
        0 <= j < specs.len() && !spec_is_relative((#[trigger] specs[j])@) && ((spec_resolve(
            fs,
            table,
            f,
            specs[j]@,
            false,
        ) is Some) == resolved) && x == spec_root_of(specs[j]@)
}

/// `x` is one of the listed specifiers, relative, with the given resolution
/// outcome.
pub open spec fn spec_rel_in_list(
    fs: FileSystem,
    table: Seq<(String, PackageJson)>,
    f: Seq<char>,
    specs: Seq<String>,
    resolved: bool,
    x: Seq<char>,
) -> bool {
    exists|j: int|
        0 <= j < specs.len() && (#[trigger] specs[j])@ == x && spec_is_relative(x) && ((
        spec_resolve(fs, table, f, x, false) is Some) == resolved)
}

/// What `walk` guarantees: the sets are deduplicated; the visited list has
/// no repeats, stays within the entry points and the output boundary, and
/// covers every entry point; every specifier scanned from a visited file is
/// recorded (with nothing left pending, so a resolved relative target inside
/// the boundary is itself visited); and each set holds only what some
/// visited file's scan justifies.
pub open spec fn spec_walk_post(
    fs: FileSystem,
    table: Seq<(String, PackageJson)>,
    entry_points: Seq<String>,
    out: Seq<char>,
    cl: SpecifierClosure,
    visited: Seq<String>,
) -> bool {
    &&& closure_wf(cl)
    &&& views_no_dup(visited)
    &&& forall|k: int|
        0 <= k < visited.len() ==> seq_contains_str(entry_points, (#[trigger] visited[k])@)
            || spec_is_inside(visited[k]@, out)
    &&& forall|k: int|
        0 <= k < visited.len() ==> seq_contains_str(entry_points, (#[trigger] visited[k])@)
            || spec_scan_target(fs, table, visited, visited[k]@)
    &&& forall|x: Seq<char>|
        #![trigger seq_contains_str(visited, x)]
        seq_contains_str(entry_points, x) ==> seq_contains_str(visited, x)
    &&& forall|f: Seq<char>, s: Seq<char>|
        seq_contains_str(visited, f) && #[trigger] spec_scanned_specifier(fs, f, s)
            ==> spec_specifier_recorded(fs, table, f, s, out, cl, Seq::<String>::empty(), visited)
    &&& forall|x: Seq<char>|
        #![trigger seq_contains_str(cl.resolved_absolute_specifiers@, x)]
        seq_contains_str(cl.resolved_absolute_specifiers@, x) ==> spec_bare_scanned(
            fs,
            table,
            visited,
            true,
            x,
        )
    &&& forall|x: Seq<char>|
        #![trigger seq_contains_str(cl.unresolved_absolute_specifiers@, x)]
        seq_contains_str(cl.unresolved_absolute_specifiers@, x) ==> spec_bare_scanned(
            fs,
            table,
            visited,
            false,
            x,
        )
    &&& forall|x: Seq<char>|
        #![trigger seq_contains_str(cl.resolved_relative_specifiers@, x)]
        seq_contains_str(cl.resolved_relative_specifiers@, x) ==> spec_relative_scanned(
            fs,
            table,
            visited,
            true,
            x,
        )
    &&& forall|x: Seq<char>|
        #![trigger seq_contains_str(cl.unresolved_relative_specifiers@, x)]
        seq_contains_str(cl.unresolved_relative_specifiers@, x) ==> spec_relative_scanned(
            fs,
            table,
            visited,
            false,
            x,
        )
}

/// The paths a walk may ever visit: the entry points and the paths of the
/// snapshot's files.
pub open spec fn all_path_views(fs: FileSystem, entries: Seq<String>) -> Set<Seq<char>> {
    entries.map_values(|s: String| s@).to_set().union(
        fs.files@.map_values(|e: (String, String)| e.0@).to_set(),
    )
}

/// A path of a file of the snapshot is one of the walkable paths.
proof fn lemma_file_in_path_views(fs: FileSystem, entries: Seq<String>, path: Seq<char>)
    requires
        spec_is_file(fs, path),
    ensures
        all_path_views(fs, entries).contains(path),
{
    lemma_lookup_index(fs.files@, path);
    let k = choose|k: int| 0 <= k < fs.files@.len() && fs.files@[k].0@ == path;
    let fviews = fs.files@.map_values(|e: (String, String)| e.0@);
    assert(fviews[k] == path);
    assert(fviews.contains(path));
}

proof fn lemma_lookup_index(files: Seq<(String, String)>, path: Seq<char>)
    requires
        spec_lookup(files, path) is Some,
    ensures
        exists|k: int| 0 <= k < files.len() && (#[trigger] files[k]).0@ == path,
    decreases files.len(),
{
    if files.len() > 0 {
        if files[0].0@ == path {
            assert(files[0].0@ == path);
        } else {
            lemma_lookup_index(files.drop_first(), path);
            let k = choose|k: int|
                0 <= k < files.drop_first().len() && (#[trigger] files.drop_first()[k]).0@ == path;
            assert(files[k + 1].0@ == path);
        }
    }
}

/// A resolved specifier names a file of the snapshot: every branch of the
/// probing order only returns paths that exist.
pub proof fn lemma_resolved_is_file(
    fs: FileSystem,
    table: Seq<(String, PackageJson)>,
    requesting_file: Seq<char>,
    specifier: Seq<char>,
    is_type_context: bool,
    p: Seq<char>,
)
    requires
        spec_resolve(fs, table, requesting_file, specifier, is_type_context) == Some(p),
    ensures
        spec_is_file(fs, p),
{
}

/// A recorded specifier stays recorded when the sets only grow and the
/// pending list is only appended to.
proof fn lemma_recorded_grow(
    fs: FileSystem,
    table: Seq<(String, PackageJson)>,
    f: Seq<char>,
    s: Seq<char>,
    out: Seq<char>,
    cl1: SpecifierClosure,
    cl2: SpecifierClosure,
    w1: Seq<String>,
    w2: Seq<String>,
    vis: Seq<String>,
)
    requires
        spec_specifier_recorded(fs, table, f, s, out, cl1, w1, vis),
        closure_extends(cl1, cl2),
        w1.len() <= w2.len(),
        forall|k: int| 0 <= k < w1.len() ==> w2[k] == w1[k],
    ensures
        spec_specifier_recorded(fs, table, f, s, out, cl2, w2, vis),
{
    if spec_is_relative(s) {
        match spec_resolve(fs, table, f, s, false) {
            Some(p) => {
                if spec_is_inside(p, out) {
                    if seq_contains_str(w1, p) {
                        let k = choose|k: int|
                            0 <= k < w1.len() && (#[trigger] w1[k])@ == p;
                        assert(w2[k]@ == p);
                        assert(seq_contains_str(w2, p));
                    }
                }
            },
            None => {},
        }
    }
}

/// A recorded specifier stays recorded when the pending list loses its last
/// element, provided that element's path is among the visited ones, and the
/// visited list is only appended to.
proof fn lemma_recorded_pop(
    fs: FileSystem,
    table: Seq<(String, PackageJson)>,
    f: Seq<char>,
    s: Seq<char>,
    out: Seq<char>,
    cl: SpecifierClosure,
    w_old: Seq<String>,
    vis_old: Seq<String>,
    vis_new: Seq<String>,
)
    requires
        spec_specifier_recorded(fs, table, f, s, out, cl, w_old, vis_old),
        w_old.len() > 0,
        seq_contains_str(vis_new, w_old.last()@),
        vis_old.len() <= vis_new.len(),
        forall|k: int| 0 <= k < vis_old.len() ==> vis_new[k] == vis_old[k],
    ensures
        spec_specifier_recorded(fs, table, f, s, out, cl, w_old.drop_last(), vis_new),
{
    if spec_is_relative(s) {
        match spec_resolve(fs, table, f, s, false) {
            Some(p) => {
                if spec_is_inside(p, out) {
                    if seq_contains_str(w_old, p) {
                        let k = choose|k: int|
                            0 <= k < w_old.len() && (#[trigger] w_old[k])@ == p;
                        if k < w_old.len() - 1 {
                            assert(w_old.drop_last()[k]@ == p);
                            assert(seq_contains_str(w_old.drop_last(), p));
                        } else {
                            assert(w_old.last()@ == p);
                        }
                    } else {
                        let k = choose|k: int|
                            0 <= k < vis_old.len() && (#[trigger] vis_old[k])@ == p;
                        assert(vis_new[k]@ == p);
                        assert(seq_contains_str(vis_new, p));
                    }
                }
            },
            None => {},
        }
    }
}

/// What is scanned from a visited file stays scanned when the visited list
/// is only appended to.
proof fn lemma_scanned_sets_grow(
    fs: FileSystem,
    table: Seq<(String, PackageJson)>,
    vis_old: Seq<String>,
    vis_new: Seq<String>,
)
    requires
        vis_old.len() <= vis_new.len(),
        forall|k: int| 0 <= k < vis_old.len() ==> vis_new[k] == vis_old[k],
    ensures
        forall|resolved: bool, x: Seq<char>|
            #![trigger spec_bare_scanned(fs, table, vis_old, resolved, x)]
            spec_bare_scanned(fs, table, vis_old, resolved, x) ==> spec_bare_scanned(
                fs,
                table,
                vis_new,
                resolved,
                x,
            ),
        forall|resolved: bool, x: Seq<char>|
            #![trigger spec_relative_scanned(fs, table, vis_old, resolved, x)]
            spec_relative_scanned(fs, table, vis_old, resolved, x) ==> spec_relative_scanned(
                fs,
                table,
                vis_new,
                resolved,
                x,
            ),
        forall|p: Seq<char>|
            #![trigger spec_scan_target(fs, table, vis_old, p)]
            spec_scan_target(fs, table, vis_old, p) ==> spec_scan_target(fs, table, vis_new, p),
{
    assert forall|resolved: bool, x: Seq<char>|
        spec_bare_scanned(fs, table, vis_old, resolved, x) implies spec_bare_scanned(
        fs,
        table,
        vis_new,
        resolved,
        x,
    ) by {
        let (f, s) = choose|f: Seq<char>, s: Seq<char>|
            seq_contains_str(vis_old, f) && #[trigger] spec_scanned_specifier(fs, f, s)
                && !spec_is_relative(s) && ((spec_resolve(fs, table, f, s, false) is Some)
                == resolved) && x == spec_root_of(s);
        let k = choose|k: int| 0 <= k < vis_old.len() && (#[trigger] vis_old[k])@ == f;
        assert(vis_new[k]@ == f);
        assert(seq_contains_str(vis_new, f));
    }
    assert forall|resolved: bool, x: Seq<char>|
        spec_relative_scanned(fs, table, vis_old, resolved, x) implies spec_relative_scanned(
        fs,
        table,
        vis_new,
        resolved,
        x,
    ) by {
        let f = choose|f: Seq<char>|
            seq_contains_str(vis_old, f) && #[trigger] spec_scanned_specifier(fs, f, x)
                && spec_is_relative(x) && ((spec_resolve(fs, table, f, x, false) is Some)
                == resolved);
        let k = choose|k: int| 0 <= k < vis_old.len() && (#[trigger] vis_old[k])@ == f;
        assert(vis_new[k]@ == f);
        assert(seq_contains_str(vis_new, f));
    }
    assert forall|p: Seq<char>|
        spec_scan_target(fs, table, vis_old, p) implies spec_scan_target(fs, table, vis_new, p) by {
        let (f, s) = choose|f: Seq<char>, s: Seq<char>|
            seq_contains_str(vis_old, f) && #[trigger] spec_scanned_specifier(fs, f, s)
                && spec_is_relative(s) && spec_resolve(fs, table, f, s, false) == Some(p);
        let k = choose|k: int| 0 <= k < vis_old.len() && (#[trigger] vis_old[k])@ == f;
        assert(vis_new[k]@ == f);
        assert(seq_contains_str(vis_new, f));
    }
}

/// Processes the specifiers scanned from one file: classifies and resolves
/// each, accumulates it in the proper set, and queues resolved relative
/// targets that lie inside the output boundary and are not yet visited.
#[verifier::loop_isolation(false)]
fn process_specifiers(
    resolver: &ModuleResolver,
    fs: &FileSystem,
    manifests: &ManifestTable,
    requesting_file: &str,
    specs: &Vec<String>,
    output_dir: &str,
    closure: &mut SpecifierClosure,
    worklist: &mut Vec<String>,
    visited: &Vec<String>,
)
    requires
        closure_wf(*old(closure)),
        seq_contains_str(visited@, requesting_file@),
        forall|j: int|
            0 <= j < specs@.len() ==> spec_scanned_specifier(
                *fs,
                requesting_file@,
                (#[trigger] specs@[j])@,
            ),
    ensures
        closure_wf(*final(closure)),
        closure_extends(*old(closure), *final(closure)),
        final(worklist)@.len() >= old(worklist)@.len(),
        forall|k: int|
            0 <= k < old(worklist)@.len() ==> final(worklist)@[k] == old(worklist)@[k],
        forall|k: int|
            old(worklist)@.len() <= k < final(worklist)@.len() ==> spec_is_file(
                *fs,
                (#[trigger] final(worklist)@[k])@,
            ) && spec_is_inside(final(worklist)@[k]@, output_dir@) && spec_scan_target(
                *fs,
                manifests.entries@,
                visited@,
                final(worklist)@[k]@,
            ),
        forall|j: int|
            0 <= j < specs@.len() ==> spec_specifier_recorded(
                *fs,
                manifests.entries@,
                requesting_file@,
                (#[trigger] specs@[j])@,
                output_dir@,
                *final(closure),
                final(worklist)@,
                visited@,
            ),
        forall|x: Seq<char>|
            #![trigger seq_contains_str(final(closure).resolved_absolute_specifiers@, x)]
            seq_contains_str(final(closure).resolved_absolute_specifiers@, x)
                ==> seq_contains_str(old(closure).resolved_absolute_specifiers@, x)
                || spec_bare_in_list(*fs, manifests.entries@, requesting_file@, specs@, true, x),
        forall|x: Seq<char>|
            #![trigger seq_contains_str(final(closure).unresolved_absolute_specifiers@, x)]
            seq_contains_str(final(closure).unresolved_absolute_specifiers@, x)
                ==> seq_contains_str(old(closure).unresolved_absolute_specifiers@, x)
                || spec_bare_in_list(*fs, manifests.entries@, requesting_file@, specs@, false, x),
        forall|x: Seq<char>|
            #![trigger seq_contains_str(final(closure).resolved_relative_specifiers@, x)]
            seq_contains_str(final(closure).resolved_relative_specifiers@, x)
                ==> seq_contains_str(old(closure).resolved_relative_specifiers@, x)
                || spec_rel_in_list(*fs, manifests.entries@, requesting_file@, specs@, true, x),
        forall|x: Seq<char>|
            #![trigger seq_contains_str(final(closure).unresolved_relative_specifiers@, x)]
            seq_contains_str(final(closure).unresolved_relative_specifiers@, x)
                ==> seq_contains_str(old(closure).unresolved_relative_specifiers@, x)
                || spec_rel_in_list(*fs, manifests.entries@, requesting_file@, specs@, false, x),
{
    let n = specs.len();
    let mut i: usize = 0;
    while i < n
        invariant
            0 <= i <= n,
            n == specs@.len(),
            closure_wf(*closure),
            closure_extends(*old(closure), *closure),
            worklist@.len() >= old(worklist)@.len(),
            forall|k: int|
                0 <= k < old(worklist)@.len() ==> worklist@[k] == old(worklist)@[k],
            forall|k: int|
                old(worklist)@.len() <= k < worklist@.len() ==> spec_is_file(
                    *fs,
                    (#[trigger] worklist@[k])@,
                ) && spec_is_inside(worklist@[k]@, output_dir@) && spec_scan_target(
                    *fs,
                    manifests.entries@,
                    visited@,
                    worklist@[k]@,
                ),
            forall|j: int|
                0 <= j < i ==> spec_specifier_recorded(
                    *fs,
                    manifests.entries@,
                    requesting_file@,
                    (#[trigger] specs@[j])@,
                    output_dir@,
                    *closure,
                    worklist@,
                    visited@,
                ),
            forall|x: Seq<char>|
                #![trigger seq_contains_str(closure.resolved_absolute_specifiers@, x)]
                seq_contains_str(closure.resolved_absolute_specifiers@, x) ==> seq_contains_str(
                    old(closure).resolved_absolute_specifiers@,
                    x,
                ) || spec_bare_in_list(*fs, manifests.entries@, requesting_file@, specs@, true, x),
            forall|x: Seq<char>|
                #![trigger seq_contains_str(closure.unresolved_absolute_specifiers@, x)]
                seq_contains_str(closure.unresolved_absolute_specifiers@, x) ==> seq_contains_str(
                    old(closure).unresolved_absolute_specifiers@,
                    x,
                ) || spec_bare_in_list(*fs, manifests.entries@, requesting_file@, specs@, false, x),
            forall|x: Seq<char>|
                #![trigger seq_contains_str(closure.resolved_relative_specifiers@, x)]
                seq_contains_str(closure.resolved_relative_specifiers@, x) ==> seq_contains_str(
                    old(closure).resolved_relative_specifiers@,
                    x,
                ) || spec_rel_in_list(*fs, manifests.entries@, requesting_file@, specs@, true, x),
            forall|x: Seq<char>|
                #![trigger seq_contains_str(closure.unresolved_relative_specifiers@, x)]
                seq_contains_str(closure.unresolved_relative_specifiers@, x) ==> seq_contains_str(
                    old(closure).unresolved_relative_specifiers@,
                    x,
                ) || spec_rel_in_list(*fs, manifests.entries@, requesting_file@, specs@, false, x),
        decreases n - i,
    {
        let ghost cl_prev = *closure;
        let ghost w_prev = worklist@;
        let s = &specs[i];
        let outcome = resolver.resolve(fs, manifests, requesting_file, s.as_str(), false);
        match classify(s.as_str()) {
            SpecifierKind::Bare => {
                let root = root_of(s.as_str());
                let ghost rv = root@;
                match outcome {
                    ResolutionOutcome::Resolved(_) => {
                        push_unique(&mut closure.resolved_absolute_specifiers, root);
                        proof {
                            assert(seq_contains_str(
                                closure.resolved_absolute_specifiers@,
                                spec_root_of(specs@[i as int]@),
                            ));
                        }
                    },
                    ResolutionOutcome::Unresolved(_) => {
                        push_unique(&mut closure.unresolved_absolute_specifiers, root);
                        proof {
                            assert(seq_contains_str(
                                closure.unresolved_absolute_specifiers@,
                                spec_root_of(specs@[i as int]@),
                            ));
                        }
                    },
                }
            },
            SpecifierKind::Relative => {
                match outcome {
                    ResolutionOutcome::Resolved(p) => {
                        proof {
                            lemma_resolved_is_file(
                                *fs,
                                manifests.entries@,
                                requesting_file@,
                                s@,
                                false,
                                p@,
                            );
                        }
                        let inside = is_inside(p.as_str(), output_dir);
                        let seen = contains_str(visited, p.as_str());
                        if inside && !seen {
                            let ghost pv = p@;
                            worklist.push(p);
                            proof {
                                assert(worklist@[worklist@.len() - 1]@ == pv);
                                assert(seq_contains_str(worklist@, pv));
                                assert(spec_scanned_specifier(
                                    *fs,
                                    requesting_file@,
                                    specs@[i as int]@,
                                ));
                                assert(spec_scan_target(
                                    *fs,
                                    manifests.entries@,
                                    visited@,
                                    pv,
                                ));
                            }
                        } else {
                            push_unique(&mut closure.resolved_relative_specifiers, s.clone());
                            proof {
                                assert(seq_contains_str(
                                    closure.resolved_relative_specifiers@,
                                    specs@[i as int]@,
                                ));
                            }
                        }
                    },
                    ResolutionOutcome::Unresolved(_) => {
                        push_unique(&mut closure.unresolved_relative_specifiers, s.clone());
                        proof {
                            assert(seq_contains_str(
                                closure.unresolved_relative_specifiers@,
                                specs@[i as int]@,
                            ));
                        }
                    },
                }
            },
        }
        proof {
            assert(closure_extends(cl_prev, *closure));
            assert(closure_extends(*old(closure), *closure));
            assert forall|j: int| 0 <= j < i + 1 implies spec_specifier_recorded(
                *fs,
                manifests.entries@,
                requesting_file@,
                (#[trigger] specs@[j])@,
                output_dir@,
                *closure,
                worklist@,
                visited@,
            ) by {
                if j < i {
                    lemma_recorded_grow(
                        *fs,
                        manifests.entries@,
                        requesting_file@,
                        specs@[j]@,
                        output_dir@,
                        cl_prev,
                        *closure,
                        w_prev,
                        worklist@,
                        visited@,
                    );
                }
            }
        }
        i += 1;
    }
}

/// Walks the dependency closure from the entry points. Returns the four
/// accumulated specifier sets together with the list of files visited; the
/// relation between them is [`spec_walk_post`]: the visited list never
/// repeats a path and covers every entry point and every resolved relative
/// target inside the output boundary, files outside the boundary are never
/// traversed, and the four sets hold exactly what the visited files' scans
/// put in them.
pub fn walk(
    resolver: &ModuleResolver,
    fs: &FileSystem,
    manifests: &ManifestTable,
    entry_points: &Vec<String>,
    output_dir: &str,
) -> (r: (SpecifierClosure, Vec<String>))
    ensures
        spec_walk_post(*fs, manifests.entries@, entry_points@, output_dir@, r.0, r.1@),
{
    let ghost all_views = all_path_views(*fs, entry_points@);
    let ghost table = manifests.entries@;
    proof {
        seq_to_set_is_finite(entry_points@.map_values(|s: String| s@));
        seq_to_set_is_finite(fs.files@.map_values(|e: (String, String)| e.0@));
        assert(all_views.finite());
    }
    let mut closure = SpecifierClosure {
        resolved_absolute_specifiers: Vec::new(),
        unresolved_absolute_specifiers: Vec::new(),
        resolved_relative_specifiers: Vec::new(),
        unresolved_relative_specifiers: Vec::new(),
    };
    let mut worklist: Vec<String> = Vec::new();
    let mut i: usize = 0;
    while i < entry_points.len()
        invariant
            0 <= i <= entry_points@.len(),
            worklist@.len() == i,
            forall|k: int| 0 <= k < i ==> worklist@[k] == entry_points@[k],
        decreases entry_points@.len() - i,
    {
        worklist.push(entry_points[i].clone());
        i += 1;
    }
    proof {
        let ev = entry_points@.map_values(|s: String| s@);
        assert forall|k: int| 0 <= k < worklist@.len() implies all_views.contains(
            (#[trigger] worklist@[k])@,
        ) && seq_contains_str(entry_points@, worklist@[k]@) by {
            assert(ev[k] == (#[trigger] entry_points@[k])@);
            assert(ev.contains(entry_points@[k]@));
            assert(ev.to_set().contains(entry_points@[k]@));
            assert(seq_contains_str(entry_points@, entry_points@[k]@));
        }
        assert forall|x: Seq<char>|
            #![trigger seq_contains_str(entry_points@, x)]
            seq_contains_str(entry_points@, x) implies seq_contains_str(worklist@, x) by {
            let k = choose|k: int|
                0 <= k < entry_points@.len() && (#[trigger] entry_points@[k])@ == x;
            assert(worklist@[k]@ == x);
        }
    }
    let mut visited: Vec<String> = Vec::new();
    while worklist.len() > 0
        invariant
            closure_wf(closure),
            views_no_dup(visited@),
            visited@.len() <= all_views.len(),
            all_views.finite(),
            all_views == all_path_views(*fs, entry_points@),
            table == manifests.entries@,
            forall|k: int|
                0 <= k < visited@.len() ==> all_views.contains((#[trigger] visited@[k])@),
            forall|k: int|
                0 <= k < worklist@.len() ==> all_views.contains((#[trigger] worklist@[k])@),
            forall|k: int|
                0 <= k < visited@.len() ==> seq_contains_str(
                    entry_points@,
                    (#[trigger] visited@[k])@,
                ) || spec_is_inside(visited@[k]@, output_dir@),
            forall|k: int|
                0 <= k < worklist@.len() ==> seq_contains_str(
                    entry_points@,
                    (#[trigger] worklist@[k])@,
                ) || spec_is_inside(worklist@[k]@, output_dir@),
            forall|k: int|
                0 <= k < visited@.len() ==> seq_contains_str(
                    entry_points@,
                    (#[trigger] visited@[k])@,
                ) || spec_scan_target(*fs, table, visited@, visited@[k]@),
            forall|k: int|
                0 <= k < worklist@.len() ==> seq_contains_str(
                    entry_points@,
                    (#[trigger] worklist@[k])@,
                ) || spec_scan_target(*fs, table, visited@, worklist@[k]@),
            forall|x: Seq<char>|
                #![trigger seq_contains_str(entry_points@, x)]
                seq_contains_str(entry_points@, x) ==> seq_contains_str(worklist@, x)
                    || seq_contains_str(visited@, x),
            forall|f: Seq<char>, s: Seq<char>|
                seq_contains_str(visited@, f) && #[trigger] spec_scanned_specifier(*fs, f, s)
                    ==> spec_specifier_recorded(
                    *fs,
                    table,
                    f,
                    s,
                    output_dir@,
                    closure,
                    worklist@,
                    visited@,
                ),
            forall|x: Seq<char>|
                #![trigger seq_contains_str(closure.resolved_absolute_specifiers@, x)]
                seq_contains_str(closure.resolved_absolute_specifiers@, x) ==> spec_bare_scanned(
                    *fs,
                    table,
                    visited@,
                    true,
                    x,
                ),
            forall|x: Seq<char>|
                #![trigger seq_contains_str(closure.unresolved_absolute_specifiers@, x)]
                seq_contains_str(closure.unresolved_absolute_specifiers@, x) ==> spec_bare_scanned(
                    *fs,
                    table,
                    visited@,
                    false,
                    x,
                ),
            forall|x: Seq<char>|
                #![trigger seq_contains_str(closure.resolved_relative_specifiers@, x)]
                seq_contains_str(closure.resolved_relative_specifiers@, x)
                    ==> spec_relative_scanned(*fs, table, visited@, true, x),
            forall|x: Seq<char>|
                #![trigger seq_contains_str(closure.unresolved_relative_specifiers@, x)]
                seq_contains_str(closure.unresolved_relative_specifiers@, x)
                    ==> spec_relative_scanned(*fs, table, visited@, false, x),
        decreases all_views.len() - visited@.len(), worklist@.len(),
    {
        let ghost old_worklist = worklist@;
        let ghost old_visited = visited@;
        let ghost old_closure = closure;
        let w = match worklist.pop() {
            Some(w) => w,
            None => {
                proof {
                    assert(false);
                }
                String::new()
            },
        };
        proof {
            assert(old_worklist[old_worklist.len() - 1] == w);
            assert(worklist@ =~= old_worklist.drop_last());
        }
        let already = contains_str(&visited, w.as_str());
        if !already {
            let ghost pre_push = visited@;
            visited.push(w.clone());
            proof {
                assert(visited@ =~= pre_push.push(w));
                let vv = visited@.map_values(|s: String| s@);
                assert(vv.no_duplicates()) by {
                    assert forall|a: int, b: int| 0 <= a < b < vv.len() implies vv[a] != vv[b] by {
                        if b < pre_push.len() {
                        } else {
                            assert(visited@[b]@ == w@);
                            assert(!seq_contains_str(pre_push, w@));
                            assert(visited@[a] == pre_push[a]);
                        }
                    }
                }
                vv.unique_seq_to_set();
                assert(vv.to_set().subset_of(all_views)) by {
                    assert forall|x: Seq<char>| vv.to_set().contains(x) implies all_views.contains(
                        x,
                    ) by {
                        let k = choose|k: int| 0 <= k < vv.len() && vv[k] == x;
                        assert(visited@[k]@ == x);
                    }
                }
                lemma_len_subset(vv.to_set(), all_views);
                assert(visited@.len() == vv.len());
                assert(visited@.len() <= all_views.len());
                assert(visited@[visited@.len() - 1]@ == w@);
                assert(seq_contains_str(visited@, w@));
            }
            let ghost vis_now = visited@;
            let ghost w_popped = worklist@;
            proof {
                // carry the recorded facts across the pop and the new visit
                assert forall|f: Seq<char>, s: Seq<char>|
                    seq_contains_str(old_visited, f) && #[trigger] spec_scanned_specifier(
                        *fs,
                        f,
                        s,
                    ) implies spec_specifier_recorded(
                    *fs,
                    table,
                    f,
                    s,
                    output_dir@,
                    closure,
                    worklist@,
                    visited@,
                ) by {
                    lemma_recorded_pop(
                        *fs,
                        table,
                        f,
                        s,
                        output_dir@,
                        closure,
                        old_worklist,
                        old_visited,
                        visited@,
                    );
                }
                lemma_scanned_sets_grow(*fs, table, old_visited, visited@);
                // the newly visited file is justified: it was on the worklist
                assert forall|k: int| 0 <= k < visited@.len() implies seq_contains_str(
                    entry_points@,
                    (#[trigger] visited@[k])@,
                ) || spec_scan_target(*fs, table, visited@, visited@[k]@) by {
                    if k < old_visited.len() {
                        assert(visited@[k] == old_visited[k]);
                    } else {
                        assert(visited@[k] == w);
                        assert(old_worklist[old_worklist.len() - 1] == w);
                    }
                }
            }
            match fs.read_file(w.as_str()) {
                Some(content) => {
                    let ghost cl0 = closure;
                    let ghost w0 = worklist@;
                    let call_specs = scan(MatchForm::Calls, content.as_str());
                    let from_specs = scan(MatchForm::Froms, content.as_str());
                    let ghost cv = content@;
                    let ghost a = spec_specifiers(cv, spec_matches(MatchForm::Calls, cv, 0));
                    let ghost b = spec_specifiers(cv, spec_matches(MatchForm::Froms, cv, 0));
                    proof {
                        assert(call_specs.deep_view() == a);
                        assert(from_specs.deep_view() == b);
                        assert(spec_lookup(fs.files@, w@) == Some(cv));
                        assert forall|j: int| 0 <= j < call_specs@.len() implies
                            spec_scanned_specifier(*fs, w@, (#[trigger] call_specs@[j])@) by {
                            assert(call_specs.deep_view()[j] == call_specs@[j]@);
                            assert((a + b)[j] == a[j]);
                            assert(spec_file_specifiers(cv).contains(call_specs@[j]@));
                        }
                        assert forall|j: int| 0 <= j < from_specs@.len() implies
                            spec_scanned_specifier(*fs, w@, (#[trigger] from_specs@[j])@) by {
                            assert(from_specs.deep_view()[j] == from_specs@[j]@);
                            assert((a + b)[a.len() + j] == b[j]);
                            assert(spec_file_specifiers(cv).contains(from_specs@[j]@));
                        }
                    }
                    process_specifiers(
                        resolver,
                        fs,
                        manifests,
                        w.as_str(),
                        &call_specs,
                        output_dir,
                        &mut closure,
                        &mut worklist,
                        &visited,
                    );
                    let ghost cl1 = closure;
                    let ghost w1 = worklist@;
                    process_specifiers(
                        resolver,
                        fs,
                        manifests,
                        w.as_str(),
                        &from_specs,
                        output_dir,
                        &mut closure,
                        &mut worklist,
                        &visited,
                    );
                    proof {
                        // the file just visited: everything its scan yields is recorded
                        assert forall|s: Seq<char>| #[trigger] spec_scanned_specifier(
                            *fs,
                            w@,
                            s,
                        ) implies spec_specifier_recorded(
                            *fs,
                            table,
                            w@,
                            s,
                            output_dir@,
                            closure,
                            worklist@,
                            visited@,
                        ) by {
                            assert(spec_file_specifiers(cv).contains(s));
                            let j = choose|j: int|
                                0 <= j < (a + b).len() && (a + b)[j] == s;
                            if j < a.len() {
                                assert(call_specs.deep_view()[j] == s);
                                assert(call_specs@[j]@ == s);
                                assert(spec_specifier_recorded(
                                    *fs,
                                    table,
                                    w@,
                                    s,
                                    output_dir@,
                                    cl1,
                                    w1,
                                    visited@,
                                ));
                                lemma_recorded_grow(
                                    *fs,
                                    table,
                                    w@,
                                    s,
                                    output_dir@,
                                    cl1,
                                    closure,
                                    w1,
                                    worklist@,
                                    visited@,
                                );
                            } else {
                                assert((a + b)[j] == b[j - a.len()]);
                                assert(from_specs.deep_view()[j - a.len()] == s);
                                assert(from_specs@[j - a.len()]@ == s);
                            }
                        }
                        // the previously visited files: carry their records across the growth
                        assert forall|f: Seq<char>, s: Seq<char>|
                            seq_contains_str(vis_now, f) && #[trigger] spec_scanned_specifier(
                                *fs,
                                f,
                                s,
                            ) && f != w@ implies spec_specifier_recorded(
                            *fs,
                            table,
                            f,
                            s,
                            output_dir@,
                            closure,
                            worklist@,
                            visited@,
                        ) by {
                            assert(spec_specifier_recorded(
                                *fs,
                                table,
                                f,
                                s,
                                output_dir@,
                                cl0,
                                w0,
                                visited@,
                            ));
                            lemma_recorded_grow(
                                *fs,
                                table,
                                f,
                                s,
                                output_dir@,
                                cl0,
                                cl1,
                                w0,
                                w1,
                                visited@,
                            );
                            lemma_recorded_grow(
                                *fs,
                                table,
                                f,
                                s,
                                output_dir@,
                                cl1,
                                closure,
                                w1,
                                worklist@,
                                visited@,
                            );
                        }
                        // combined completeness over the new visited list
                        assert forall|f: Seq<char>, s: Seq<char>|
                            seq_contains_str(visited@, f) && #[trigger] spec_scanned_specifier(
                                *fs,
                                f,
                                s,
                            ) implies spec_specifier_recorded(
                            *fs,
                            table,
                            f,
                            s,
                            output_dir@,
                            closure,
                            worklist@,
                            visited@,
                        ) by {
                            if f == w@ {
                            } else {
                            }
                        }
                        // soundness: each set's elements trace to a visited file's scan
                        assert forall|x: Seq<char>| #[trigger] seq_contains_str(
                            closure.resolved_absolute_specifiers@,
                            x,
                        ) implies spec_bare_scanned(*fs, table, visited@, true, x) by {
                            if !seq_contains_str(cl0.resolved_absolute_specifiers@, x) {
                                if spec_bare_in_list(*fs, table, w@, call_specs@, true, x)
                                    || spec_bare_in_list(*fs, table, w@, from_specs@, true, x) {
                                    lemma_bare_witness(
                                        *fs,
                                        table,
                                        w@,
                                        cv,
                                        call_specs@,
                                        from_specs@,
                                        visited@,
                                        true,
                                        x,
                                    );
                                }
                            }
                        }
                        assert forall|x: Seq<char>| #[trigger] seq_contains_str(
                            closure.unresolved_absolute_specifiers@,
                            x,
                        ) implies spec_bare_scanned(*fs, table, visited@, false, x) by {
                            if !seq_contains_str(cl0.unresolved_absolute_specifiers@, x) {
                                if spec_bare_in_list(*fs, table, w@, call_specs@, false, x)
                                    || spec_bare_in_list(*fs, table, w@, from_specs@, false, x) {
                                    lemma_bare_witness(
                                        *fs,
                                        table,
                                        w@,
                                        cv,
                                        call_specs@,
                                        from_specs@,
                                        visited@,
                                        false,
                                        x,
                                    );
                                }
                            }
                        }
                        assert forall|x: Seq<char>| #[trigger] seq_contains_str(
                            closure.resolved_relative_specifiers@,
                            x,
                        ) implies spec_relative_scanned(*fs, table, visited@, true, x) by {
                            if !seq_contains_str(cl0.resolved_relative_specifiers@, x) {
                                if spec_rel_in_list(*fs, table, w@, call_specs@, true, x)
                                    || spec_rel_in_list(*fs, table, w@, from_specs@, true, x) {
                                    lemma_rel_witness(
                                        *fs,
                                        table,
                                        w@,
                                        cv,
                                        call_specs@,
                                        from_specs@,
                                        visited@,
                                        true,
                                        x,
                                    );
                                }
                            }
                        }
                        assert forall|x: Seq<char>| #[trigger] seq_contains_str(
                            closure.unresolved_relative_specifiers@,
                            x,
                        ) implies spec_relative_scanned(*fs, table, visited@, false, x) by {
                            if !seq_contains_str(cl0.unresolved_relative_specifiers@, x) {
                                if spec_rel_in_list(*fs, table, w@, call_specs@, false, x)
                                    || spec_rel_in_list(*fs, table, w@, from_specs@, false, x) {
                                    lemma_rel_witness(
                                        *fs,
                                        table,
                                        w@,
                                        cv,
                                        call_specs@,
                                        from_specs@,
                                        visited@,
                                        false,
                                        x,
                                    );
                                }
                            }
                        }
                    }
                },
                None => (),
            }
            proof {
                assert forall|k: int|
                    0 <= k < worklist@.len() implies all_views.contains(
                    (#[trigger] worklist@[k])@,
                ) by {
                    if k < old_worklist.len() - 1 {
                        assert(worklist@[k] == old_worklist[k]);
                    } else {
                        lemma_file_in_path_views(*fs, entry_points@, worklist@[k]@);
                    }
                }
                assert forall|k: int| 0 <= k < worklist@.len() implies seq_contains_str(
                    entry_points@,
                    (#[trigger] worklist@[k])@,
                ) || spec_scan_target(*fs, table, visited@, worklist@[k]@) by {
                    if k < old_worklist.len() - 1 {
                        assert(worklist@[k] == old_worklist[k]);
                        assert(seq_contains_str(entry_points@, old_worklist[k]@)
                            || spec_scan_target(*fs, table, old_visited, old_worklist[k]@));
                    }
                }
            }
        } else {
            proof {
                assert forall|f: Seq<char>, s: Seq<char>|
                    seq_contains_str(visited@, f) && #[trigger] spec_scanned_specifier(
                        *fs,
                        f,
                        s,
                    ) implies spec_specifier_recorded(
                    *fs,
                    table,
                    f,
                    s,
                    output_dir@,
                    closure,
                    worklist@,
                    visited@,
                ) by {
                    lemma_recorded_pop(
                        *fs,
                        table,
                        f,
                        s,
                        output_dir@,
                        closure,
                        old_worklist,
                        old_visited,
                        visited@,
                    );
                }
                assert forall|k: int| 0 <= k < worklist@.len() implies seq_contains_str(
                    entry_points@,
                    (#[trigger] worklist@[k])@,
                ) || spec_scan_target(*fs, table, visited@, worklist@[k]@) by {
                    assert(worklist@[k] == old_worklist[k]);
                    assert(seq_contains_str(entry_points@, old_worklist[k]@) || spec_scan_target(
                        *fs,
                        table,
                        old_visited,
                        old_worklist[k]@,
                    ));
                }
            }
        }
        proof {
            assert forall|x: Seq<char>|
                #![trigger seq_contains_str(entry_points@, x)]
                seq_contains_str(entry_points@, x) implies seq_contains_str(worklist@, x)
                || seq_contains_str(visited@, x) by {
                if seq_contains_str(old_worklist, x) {
                    let k = choose|k: int|
                        0 <= k < old_worklist.len() && (#[trigger] old_worklist[k])@ == x;
                    if k < old_worklist.len() - 1 {
                        assert(worklist@[k]@ == x);
                        assert(seq_contains_str(worklist@, x));
                    } else {
                        if already {
                            assert(seq_contains_str(old_visited, x));
                            let k2 = choose|k2: int|
                                0 <= k2 < old_visited.len() && (#[trigger] old_visited[k2])@ == x;
                            assert(visited@[k2]@ == x);
                            assert(seq_contains_str(visited@, x));
                        } else {
                            assert(seq_contains_str(visited@, x)) by {
                                let kk = old_visited.len() as int;
                                assert(visited@[kk]@ == w@);
                            }
                        }
                    }
                } else {
                    assert(seq_contains_str(old_visited, x));
                    let k2 = choose|k2: int|
                        0 <= k2 < old_visited.len() && (#[trigger] old_visited[k2])@ == x;
                    assert(visited@[k2]@ == x);
                    assert(seq_contains_str(visited@, x));
                }
            }
        }
    }
    proof {
        assert forall|x: Seq<char>|
            #![trigger seq_contains_str(visited@, x)]
            seq_contains_str(entry_points@, x) implies seq_contains_str(visited@, x) by {
            assert(!seq_contains_str(worklist@, x) || seq_contains_str(visited@, x));
            if seq_contains_str(worklist@, x) {
                let k = choose|k: int|
                    0 <= k < worklist@.len() && (#[trigger] worklist@[k])@ == x;
                assert(false);
            }
        }
        assert(worklist@ =~= Seq::<String>::empty());
        assert(spec_walk_post(
            *fs,
            manifests.entries@,
            entry_points@,
            output_dir@,
            closure,
            visited@,
        ));
    }
    (closure, visited)
}

/// A specifier drawn from one of a visited file's two scan lists witnesses
/// the bare-root membership predicate.
proof fn lemma_bare_witness(
    fs: FileSystem,
    table: Seq<(String, PackageJson)>,
    f: Seq<char>,
    content: Seq<char>,
    calls: Seq<String>,
    froms: Seq<String>,
    visited: Seq<String>,
    resolved: bool,
    x: Seq<char>,
)
    requires
        spec_lookup(fs.files@, f) == Some(content),
        calls.map_values(|t: String| t@) =~= spec_specifiers(
            content,
            spec_matches(MatchForm::Calls, content, 0),
        ),
        froms.map_values(|t: String| t@) =~= spec_specifiers(
            content,
            spec_matches(MatchForm::Froms, content, 0),
        ),
        seq_contains_str(visited, f),
        spec_bare_in_list(fs, table, f, calls, resolved, x) || spec_bare_in_list(
            fs,
            table,
            f,
            froms,
            resolved,
            x,
        ),
    ensures
        spec_bare_scanned(fs, table, visited, resolved, x),
{
    let a = spec_specifiers(content, spec_matches(MatchForm::Calls, content, 0));
    let b = spec_specifiers(content, spec_matches(MatchForm::Froms, content, 0));
    if spec_bare_in_list(fs, table, f, calls, resolved, x) {
        let j = choose|j: int|
            0 <= j < calls.len() && !spec_is_relative((#[trigger] calls[j])@) && ((spec_resolve(
                fs,
                table,
                f,
                calls[j]@,
                false,
            ) is Some) == resolved) && x == spec_root_of(calls[j]@);
        assert(calls.map_values(|t: String| t@)[j] == calls[j]@);
        assert((a + b)[j] == calls[j]@);
        assert(spec_file_specifiers(content).contains(calls[j]@));
        assert(spec_scanned_specifier(fs, f, calls[j]@));
    } else {
        let j = choose|j: int|
            0 <= j < froms.len() && !spec_is_relative((#[trigger] froms[j])@) && ((spec_resolve(
                fs,
                table,
                f,
                froms[j]@,
                false,
            ) is Some) == resolved) && x == spec_root_of(froms[j]@);
        assert(froms.map_values(|t: String| t@)[j] == froms[j]@);
        assert((a + b)[a.len() + j] == froms[j]@);
        assert(spec_file_specifiers(content).contains(froms[j]@));
        assert(spec_scanned_specifier(fs, f, froms[j]@));
    }
}

/// A relative specifier drawn from one of a visited file's two scan lists
/// witnesses the relative membership predicate.
proof fn lemma_rel_witness(
    fs: FileSystem,
    table: Seq<(String, PackageJson)>,
    f: Seq<char>,
    content: Seq<char>,
    calls: Seq<String>,
    froms: Seq<String>,
    visited: Seq<String>,
    resolved: bool,
    x: Seq<char>,
)
    requires
        spec_lookup(fs.files@, f) == Some(content),
        calls.map_values(|t: String| t@) =~= spec_specifiers(
            content,
            spec_matches(MatchForm::Calls, content, 0),
        ),
        froms.map_values(|t: String| t@) =~= spec_specifiers(
            content,
            spec_matches(MatchForm::Froms, content, 0),
        ),
        seq_contains_str(visited, f),
        spec_rel_in_list(fs, table, f, calls, resolved, x) || spec_rel_in_list(
            fs,
            table,
            f,
            froms,
            resolved,
            x,
        ),
    ensures
        spec_relative_scanned(fs, table, visited, resolved, x),
{
    let a = spec_specifiers(content, spec_matches(MatchForm::Calls, content, 0));
    let b = spec_specifiers(content, spec_matches(MatchForm::Froms, content, 0));
    if spec_rel_in_list(fs, table, f, calls, resolved, x) {
        let j = choose|j: int|
            0 <= j < calls.len() && (#[trigger] calls[j])@ == x && spec_is_relative(x) && ((
            spec_resolve(fs, table, f, x, false) is Some) == resolved);
        assert(calls.map_values(|t: String| t@)[j] == calls[j]@);
        assert((a + b)[j] == x);
        assert(spec_file_specifiers(content).contains(x));
        assert(spec_scanned_specifier(fs, f, x));
    } else {
        let j = choose|j: int|
            0 <= j < froms.len() && (#[trigger] froms[j])@ == x && spec_is_relative(x) && ((
            spec_resolve(fs, table, f, x, false) is Some) == resolved);
        assert(froms.map_values(|t: String| t@)[j] == froms[j]@);
        assert((a + b)[a.len() + j] == x);
        assert(spec_file_specifiers(content).contains(x));
        assert(spec_scanned_specifier(fs, f, x));
    }
}

} // verus!
