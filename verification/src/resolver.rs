//! Reproduces package-manager module resolution over a filesystem snapshot.
//!
//! A relative specifier is resolved against the requesting file's directory
//! by probing, in order, the literal path, the literal path with each
//! recognized extension appended, and the path's index file under the same
//! extension rule. A bare specifier is resolved by ascending parent
//! directories looking for an installed package under `node_modules`,
//! reading that package's manifest, choosing an entry by priority
//! (exact `exports` match for the specifier's subpath, then `main`, then
//! `module`, then `types` in a type context, else a conventional `index`
//! file), and probing the chosen entry like a relative path.

use vstd::prelude::*;
use vstd::string::StrSliceExecFns;
use vstd::string::StringExecFns;

use crate::classifier::SpecifierKind;
use crate::classifier::classify;
use crate::classifier::root_of;
use crate::classifier::spec_is_relative;
use crate::classifier::spec_root_of;
use crate::fs_model::FileSystem;
use crate::fs_model::spec_is_dir;
use crate::fs_model::spec_is_file;
use crate::package_json_reader::PackageJson;
use crate::package_json_reader::assoc_lookup;
use crate::package_json_reader::spec_assoc;
use crate::paths::dirname;
use crate::paths::join_segments;
use crate::paths::resolve_dots;
use crate::paths::spec_dirname;
use crate::paths::spec_join;
use crate::paths::spec_resolve_dots;
use crate::paths::spec_split;
use crate::paths::split_path;
use crate::paths::str_eq;
use crate::value_objects::AbsoluteOutputDir;
use crate::value_objects::AbsolutePackageDir;
use crate::value_objects::AbsoluteSourceDir;
use crate::value_objects::spec_is_absolute;

verus! {

/// The outcome of resolving one specifier: the absolute path of the resolved
/// module, or a failure with an opaque reason.
pub enum ResolutionOutcome {
    /// Resolution succeeded; carries the resolved absolute path.
    Resolved(String),
    /// Resolution failed; carries the reason.
    Unresolved(String),
}

/// The outcome reduced to its mathematical content: whether it succeeded,
/// and the path or reason text.
pub open spec fn outcome_view(r: ResolutionOutcome) -> (bool, Seq<char>) {
    match r {
        ResolutionOutcome::Resolved(p) => (true, p@),
        ResolutionOutcome::Unresolved(why) => (false, why@),
    }
}

/// The manifests of every installed package in the snapshot, keyed by the
/// directory holding the `package.json` each was parsed from.
pub struct ManifestTable {
    /// Directory paths paired with the manifest parsed from that directory.
    pub entries: Vec<(String, PackageJson)>,
}

/// The manifest recorded for `dir`, if any; the first entry wins.
pub open spec fn spec_manifest_for(
    entries: Seq<(String, PackageJson)>,
    dir: Seq<char>,
) -> Option<PackageJson>
    decreases entries.len(),
{
    if entries.len() == 0 {
        None
    } else if entries[0].0@ == dir {
        Some(entries[0].1)
    } else {
        spec_manifest_for(entries.drop_first(), dir)
    }
}

impl ManifestTable {
    /// The manifest recorded for `dir`, if any.
    pub fn manifest_for<'a>(&'a self, dir: &str) -> (r: Option<&'a PackageJson>)
        ensures
            match r {
                Some(m) => spec_manifest_for(self.entries@, dir@) == Some(*m),
                None => spec_manifest_for(self.entries@, dir@) is None,
            },
    {
        let n = self.entries.len();
        let mut i: usize = 0;
        proof {
            assert(self.entries@.skip(0) =~= self.entries@);
        }
        while i < n
            invariant
                0 <= i <= n,
                n == self.entries@.len(),
                spec_manifest_for(self.entries@, dir@) == spec_manifest_for(
                    self.entries@.skip(i as int),
                    dir@,
                ),
            decreases n - i,
        {
            proof {
                assert(self.entries@.skip(i as int)[0] == self.entries@[i as int]);
                assert(self.entries@.skip(i as int).drop_first() =~= self.entries@.skip(
                    i as int + 1,
                ));
            }
            if str_eq(self.entries[i].0.as_str(), dir) {
                return Some(&self.entries[i].1);
            }
            i += 1;
        }
        proof {
            assert(self.entries@.skip(n as int) =~= Seq::<(String, PackageJson)>::empty());
        }
        None
    }
}

/// The first of the recognized source-file extensions that, appended to
/// `base`, names a file of the snapshot.
pub open spec fn spec_probe_ext(fs: FileSystem, base: Seq<char>) -> Option<Seq<char>> {
    if spec_is_file(fs, base + ".js"@) {
        Some(base + ".js"@)
    } else if spec_is_file(fs, base + ".mjs"@) {
        Some(base + ".mjs"@)
    } else if spec_is_file(fs, base + ".cjs"@) {
        Some(base + ".cjs"@)
    } else if spec_is_file(fs, base + ".json"@) {
        Some(base + ".json"@)
    } else if spec_is_file(fs, base + ".d.ts"@) {
        Some(base + ".d.ts"@)
    } else {
        None
    }
}

/// Filesystem probing for a module path: the literal path first, then the
/// path with each recognized extension, then the directory's `index` file
/// under the same extension rule.
pub open spec fn spec_probe_module(fs: FileSystem, base: Seq<char>) -> Option<Seq<char>> {
    if spec_is_file(fs, base) {
        Some(base)
    } else if spec_probe_ext(fs, base) is Some {
        spec_probe_ext(fs, base)
    } else {
        spec_probe_ext(fs, base + "/index"@)
    }
}

fn probe_ext(fs: &FileSystem, base: &str) -> (r: Option<String>)
    ensures
        match r {
            Some(p) => spec_probe_ext(*fs, base@) == Some(p@),
            None => spec_probe_ext(*fs, base@) is None,
        },
{
    let c1 = String::from_str(base).concat(".js");
    if fs.is_file(c1.as_str()) {
        return Some(c1);
    }
    let c2 = String::from_str(base).concat(".mjs");
    if fs.is_file(c2.as_str()) {
        return Some(c2);
    }
    let c3 = String::from_str(base).concat(".cjs");
    if fs.is_file(c3.as_str()) {
        return Some(c3);
    }
    let c4 = String::from_str(base).concat(".json");
    if fs.is_file(c4.as_str()) {
        return Some(c4);
    }
    let c5 = String::from_str(base).concat(".d.ts");
    if fs.is_file(c5.as_str()) {
        return Some(c5);
    }
    None
}

fn probe_module(fs: &FileSystem, base: &str) -> (r: Option<String>)
    ensures
        match r {
            Some(p) => spec_probe_module(*fs, base@) == Some(p@),
            None => spec_probe_module(*fs, base@) is None,
        },
{
    if fs.is_file(base) {
        return Some(String::from_str(base));
    }
    match probe_ext(fs, base) {
        Some(p) => Some(p),
        None => {
            let idx = String::from_str(base).concat("/index");
            probe_ext(fs, idx.as_str())
        },
    }
}

/// Resolution of a relative specifier: probe it against the directory of the
/// requesting file.
pub open spec fn spec_resolve_relative(
    fs: FileSystem,
    requesting_file: Seq<char>,
    specifier: Seq<char>,
) -> Option<Seq<char>> {
    spec_probe_module(fs, spec_resolve_dots(spec_dirname(requesting_file), specifier))
}

/// The subpath of a bare specifier: what follows its root, or empty.
pub open spec fn spec_subpath(specifier: Seq<char>) -> Seq<char> {
    let root = spec_root_of(specifier);
    if specifier.len() > root.len() {
        specifier.skip(root.len() as int + 1)
    } else {
        Seq::<char>::empty()
    }
}

/// The installed-package directory for `root`, found by ascending the parent
/// directories given as `segs` (the requesting directory's segments) and
/// looking for `node_modules/<root>`.
pub open spec fn spec_find_pkg_dir(
    fs: FileSystem,
    segs: Seq<Seq<char>>,
    root: Seq<char>,
) -> Option<Seq<char>>
    decreases segs.len(),
{
    if segs.len() == 0 {
        None
    } else {
        let cand = spec_join(segs) + "/node_modules/"@ + root;
        if spec_is_dir(fs, cand) {
            Some(cand)
        } else {
            spec_find_pkg_dir(fs, segs.drop_last(), root)
        }
    }
}

/// The entry path a package's manifest names for a subpath, by priority:
/// an exact `exports` match for the subpath's key (`.` for the bare root),
/// else the subpath itself when there is one, else `main`, else `module`,
/// else `types` in a type context, else the conventional `index` file.
/// `m` is `None` when the package has no readable manifest.
pub open spec fn spec_entry_rel(
    m: Option<PackageJson>,
    subpath: Seq<char>,
    is_type_context: bool,
) -> Seq<char> {
    let key = if subpath.len() == 0 {
        "."@
    } else {
        "./"@ + subpath
    };
    match m {
        Some(pj) => {
            match spec_assoc(pj.exports@, key) {
                Some(target) => target,
                None => {
                    if subpath.len() > 0 {
                        subpath
                    } else {
                        match pj.main {
                            Some(v) => v@,
                            None => match pj.module {
                                Some(v) => v@,
                                None => {
                                    if is_type_context && pj.types is Some {
                                        match pj.types {
                                            Some(v) => v@,
                                            None => "index"@,
                                        }
                                    } else {
                                        "index"@
                                    }
                                },
                            },
                        }
                    }
                },
            }
        },
        None => {
            if subpath.len() > 0 {
                subpath
            } else {
                "index"@
            }
        },
    }
}

/// Resolution of a bare specifier: locate the installed package for its
/// root, choose an entry from that package's manifest, and probe it.
pub open spec fn spec_resolve_bare(
    fs: FileSystem,
    table: Seq<(String, PackageJson)>,
    requesting_file: Seq<char>,
    specifier: Seq<char>,
    is_type_context: bool,
) -> Option<Seq<char>> {
    let root = spec_root_of(specifier);
    match spec_find_pkg_dir(fs, spec_split(spec_dirname(requesting_file)), root) {
        None => None,
        Some(pkg_dir) => {
            let rel = spec_entry_rel(
                spec_manifest_for(table, pkg_dir),
                spec_subpath(specifier),
                is_type_context,
            );
            spec_probe_module(fs, spec_resolve_dots(pkg_dir, rel))
        },
    }
}

/// Resolution of any specifier: relative specifiers probe the requesting
/// directory, bare specifiers go through the installed-package lookup.
pub open spec fn spec_resolve(
    fs: FileSystem,
    table: Seq<(String, PackageJson)>,
    requesting_file: Seq<char>,
    specifier: Seq<char>,
    is_type_context: bool,
) -> Option<Seq<char>> {
    if spec_is_relative(specifier) {
        spec_resolve_relative(fs, requesting_file, specifier)
    } else {
        spec_resolve_bare(fs, table, requesting_file, specifier, is_type_context)
    }
}

/// The reason reported when resolution fails: a relative specifier was not
/// found; a bare one either had no installed package or no matching entry.
pub open spec fn spec_resolve_reason(
    fs: FileSystem,
    table: Seq<(String, PackageJson)>,
    requesting_file: Seq<char>,
    specifier: Seq<char>,
) -> Seq<char> {
    if spec_is_relative(specifier) {
        "not found"@
    } else if spec_find_pkg_dir(
        fs,
        spec_split(spec_dirname(requesting_file)),
        spec_root_of(specifier),
    ) is None {
        "package not found"@
    } else {
        "entry not found"@
    }
}

/// Resolves module specifiers for one run; holds the validated directories
/// the run was configured with.
pub struct ModuleResolver {
    /// The package root directory.
    pub absolute_package_dir: String,
    /// The source directory, inside the package directory.
    pub absolute_source_dir: String,
    /// The compiled-output directory, inside the package directory.
    pub absolute_output_dir: String,
}

impl ModuleResolver {
    /// The configured directories are absolute and nested as required.
    pub open spec fn wf(&self) -> bool {
        &&& spec_is_absolute(self.absolute_package_dir@)
        &&& crate::paths::spec_is_inside(self.absolute_source_dir@, self.absolute_package_dir@)
        &&& crate::paths::spec_is_inside(self.absolute_output_dir@, self.absolute_package_dir@)
    }

    /// Builds a resolver for directories already validated to be nested.
    pub fn new(
        absolute_package_dir: &AbsolutePackageDir,
        absolute_source_dir: &AbsoluteSourceDir,
        absolute_output_dir: &AbsoluteOutputDir,
    ) -> (r: ModuleResolver)
        requires
            absolute_package_dir.wf(),
            crate::paths::spec_is_inside(
                absolute_source_dir.spec_value(),
                absolute_package_dir.spec_value(),
            ),
            crate::paths::spec_is_inside(
                absolute_output_dir.spec_value(),
                absolute_package_dir.spec_value(),
            ),
        ensures
            r.wf(),
            r.absolute_package_dir@ == absolute_package_dir.spec_value(),
            r.absolute_source_dir@ == absolute_source_dir.spec_value(),
            r.absolute_output_dir@ == absolute_output_dir.spec_value(),
    {
        ModuleResolver {
            absolute_package_dir: absolute_package_dir.value().clone(),
            absolute_source_dir: absolute_source_dir.value().clone(),
            absolute_output_dir: absolute_output_dir.value().clone(),
        }
    }

    /// Resolves `specifier` as requested from `requesting_file` against the
    /// snapshot and the installed manifests. Resolution is a function of its
    /// arguments: the same inputs always give the same outcome.
    pub fn resolve(
        &self,
        fs: &FileSystem,
        manifests: &ManifestTable,
        requesting_file: &str,
        specifier: &str,
        is_type_context: bool,
    ) -> (r: ResolutionOutcome)
        ensures
            match r {
                ResolutionOutcome::Resolved(p) => spec_resolve(
                    *fs,
                    manifests.entries@,
                    requesting_file@,
                    specifier@,
                    is_type_context,
                ) == Some(p@),
                ResolutionOutcome::Unresolved(why) => spec_resolve(
                    *fs,
                    manifests.entries@,
                    requesting_file@,
                    specifier@,
                    is_type_context,
                ) is None && why@ == spec_resolve_reason(
                    *fs,
                    manifests.entries@,
                    requesting_file@,
                    specifier@,
                ),
            },
    {
        match classify(specifier) {
            SpecifierKind::Relative => {
                let dir = dirname(requesting_file);
                let base = resolve_dots(dir.as_str(), specifier);
                match probe_module(fs, base.as_str()) {
                    Some(p) => ResolutionOutcome::Resolved(p),
                    None => ResolutionOutcome::Unresolved(String::from_str("not found")),
                }
            },
            SpecifierKind::Bare => {
                let root = root_of(specifier);
                let dir = dirname(requesting_file);
                let mut segs = split_path(dir.as_str());
                let ghost segs0 = segs.deep_view();
                let mut found: Option<String> = None;
                loop
                    invariant_except_break
                        found is None,
                        spec_find_pkg_dir(*fs, segs0, root@) == spec_find_pkg_dir(
                            *fs,
                            segs.deep_view(),
                            root@,
                        ),
                    ensures
                        match found {
                            Some(d) => spec_find_pkg_dir(*fs, segs0, root@) == Some(d@),
                            None => spec_find_pkg_dir(*fs, segs0, root@) is None,
                        },
                    decreases segs.len(),
                {
                    if segs.len() == 0 {
                        proof {
                            assert(segs.deep_view() =~= Seq::<Seq<char>>::empty());
                        }
                        break ;
                    }
                    let ghost before = segs.deep_view();
                    let sl = segs.as_slice();
                    proof {
                        assert(sl.deep_view() =~= before);
                    }
                    let joined = join_segments(sl);
                    let cand = joined.concat("/node_modules/").concat(root.as_str());
                    proof {
                        assert(cand@ == spec_join(before) + "/node_modules/"@ + root@);
                        assert(before.len() > 0);
                    }
                    if fs.is_dir(cand.as_str()) {
                        proof {
                            assert(spec_find_pkg_dir(*fs, before, root@) == Some(cand@));
                        }
                        found = Some(cand);
                        break ;
                    }
                    proof {
                        assert(spec_find_pkg_dir(*fs, before, root@) == spec_find_pkg_dir(
                            *fs,
                            before.drop_last(),
                            root@,
                        ));
                    }
                    segs.pop();
                    proof {
                        assert(segs.deep_view() =~= before.drop_last());
                    }
                }
                match found {
                    None => ResolutionOutcome::Unresolved(
                        String::from_str("package not found"),
                    ),
                    Some(pkg_dir) => {
                        let subpath = subpath_of(specifier, &root);
                        let entry_rel = entry_rel_for(
                            manifests,
                            pkg_dir.as_str(),
                            subpath.as_str(),
                            is_type_context,
                        );
                        let target = resolve_dots(pkg_dir.as_str(), entry_rel.as_str());
                        match probe_module(fs, target.as_str()) {
                            Some(p) => ResolutionOutcome::Resolved(p),
                            None => ResolutionOutcome::Unresolved(
                                String::from_str("entry not found"),
                            ),
                        }
                    },
                }
            },
        }
    }
}

/// The part of a bare specifier after its root.
fn subpath_of(specifier: &str, root: &String) -> (r: String)
    requires
        root@ == spec_root_of(specifier@),
    ensures
        r@ == spec_subpath(specifier@),
{
    let n = specifier.unicode_len();
    let rl = root.as_str().unicode_len();
    if n > rl {
        String::from_str(specifier.substring_char(rl + 1, n))
    } else {
        proof {
            assert(spec_subpath(specifier@) =~= Seq::<char>::empty());
        }
        String::new()
    }
}

/// The entry path chosen from the installed package's manifest.
fn entry_rel_for(
    manifests: &ManifestTable,
    pkg_dir: &str,
    subpath: &str,
    is_type_context: bool,
) -> (r: String)
    ensures
        r@ == spec_entry_rel(
            spec_manifest_for(manifests.entries@, pkg_dir@),
            subpath@,
            is_type_context,
        ),
{
    let key: String;
    if subpath.unicode_len() == 0 {
        key = String::from_str(".");
    } else {
        key = String::from_str("./").concat(subpath);
    }
    match manifests.manifest_for(pkg_dir) {
        Some(pj) => {
            match assoc_lookup(&pj.exports, key.as_str()) {
                Some(target) => target,
                None => {
                    if subpath.unicode_len() > 0 {
                        String::from_str(subpath)
                    } else {
                        match &pj.main {
                            Some(v) => v.clone(),
                            None => match &pj.module {
                                Some(v) => v.clone(),
                                None => {
                                    if is_type_context {
                                        match &pj.types {
                                            Some(v) => v.clone(),
                                            None => String::from_str("index"),
                                        }
                                    } else {
                                        String::from_str("index")
                                    }
                                },
                            },
                        }
                    }
                },
            }
        },
        None => {
            if subpath.unicode_len() > 0 {
                String::from_str(subpath)
            } else {
                String::from_str("index")
            }
        },
    }
}

/// A path that names an installed manifest: it ends in `/package.json`.
pub open spec fn spec_is_manifest_path(p: Seq<char>) -> bool {
    p.len() >= 13 && p.skip(p.len() - 13) == "/package.json"@
}

/// The directory and content of every `package.json` in the snapshot, in
/// file order, starting from index `i`.
pub open spec fn spec_manifest_sources_from(files: Seq<(String, String)>, i: int) -> Seq<
    (Seq<char>, Seq<char>),
>
    decreases files.len() - i,
{
    if i < 0 || i >= files.len() {
        Seq::<(Seq<char>, Seq<char>)>::empty()
    } else if spec_is_manifest_path(files[i].0@) {
        seq![(files[i].0@.take(files[i].0@.len() - 13), files[i].1@)]
            + spec_manifest_sources_from(files, i + 1)
    } else {
        spec_manifest_sources_from(files, i + 1)
    }
}

/// The table holds one entry per `package.json` of the snapshot, in file
/// order: the entry's key is the manifest's directory and its manifest
/// matches the parse of that file's content.
pub open spec fn spec_table_matches(entries: Seq<(String, PackageJson)>, fs: FileSystem) -> bool {
    let srcs = spec_manifest_sources_from(fs.files@, 0);
    &&& entries.len() == srcs.len()
    &&& forall|k: int|
        0 <= k < entries.len() ==> (#[trigger] entries[k]).0@ == srcs[k].0
            && crate::package_json_reader::spec_manifest_matches(entries[k].1, srcs[k].1)
}

fn is_manifest_path(p: &str) -> (r: bool)
    ensures
        r == spec_is_manifest_path(p@),
{
    let n = p.unicode_len();
    if n < 13 {
        return false;
    }
    let tail = p.substring_char(n - 13, n);
    proof {
        assert(tail@ =~= p@.skip(p@.len() - 13));
    }
    str_eq(tail, "/package.json")
}

fn build_manifest_entries(fs: &FileSystem, i: usize) -> (r: Vec<(String, PackageJson)>)
    requires
        i <= fs.files@.len(),
    ensures
        r@.len() == spec_manifest_sources_from(fs.files@, i as int).len(),
        forall|k: int|
            0 <= k < r@.len() ==> {
                let src = spec_manifest_sources_from(fs.files@, i as int)[k];
                (#[trigger] r@[k]).0@ == src.0
                    && crate::package_json_reader::spec_manifest_matches(r@[k].1, src.1)
            },
    decreases fs.files@.len() - i,
{
    if i == fs.files.len() {
        return Vec::new();
    }
    let path = &fs.files[i].0;
    if is_manifest_path(path.as_str()) {
        let n = path.as_str().unicode_len();
        let dir = String::from_str(path.as_str().substring_char(0, n - 13));
        proof {
            assert(dir@ =~= path@.take(path@.len() - 13));
        }
        let pj = crate::package_json_reader::get_package_json_object(fs.files[i].1.as_str());
        let mut rest = build_manifest_entries(fs, i + 1);
        rest.insert(0, (dir, pj));
        proof {
            let ds = spec_manifest_sources_from(fs.files@, i as int);
            let tail = spec_manifest_sources_from(fs.files@, i as int + 1);
            assert(ds =~= seq![
                (
                    fs.files@[i as int].0@.take(fs.files@[i as int].0@.len() - 13),
                    fs.files@[i as int].1@,
                ),
            ] + tail);
        }
        rest
    } else {
        build_manifest_entries(fs, i + 1)
    }
}

/// Parses the manifest of every installed package in the snapshot: one table
/// entry per `package.json` file, keyed by its directory, in file order.
pub fn build_manifest_table(fs: &FileSystem) -> (r: ManifestTable)
    ensures
        spec_table_matches(r.entries@, *fs),
{
    ManifestTable { entries: build_manifest_entries(fs, 0) }
}

/// Resolving the same requesting file and specifier twice yields the same
/// outcome: any two outcomes that satisfy the resolver's contract for equal
/// inputs are equal.
pub proof fn lemma_resolution_idempotent(
    fs: FileSystem,
    table: Seq<(String, PackageJson)>,
    requesting_file: Seq<char>,
    specifier: Seq<char>,
    is_type_context: bool,
    r1: ResolutionOutcome,
    r2: ResolutionOutcome,
)
    requires
        ({
            let o = spec_resolve(fs, table, requesting_file, specifier, is_type_context);
            match r1 {
                ResolutionOutcome::Resolved(p) => o == Some(p@),
                ResolutionOutcome::Unresolved(why) => o is None && why@ == spec_resolve_reason(
                    fs,
                    table,
                    requesting_file,
                    specifier,
                ),
            }
        }),
        ({
            let o = spec_resolve(fs, table, requesting_file, specifier, is_type_context);
            match r2 {
                ResolutionOutcome::Resolved(p) => o == Some(p@),
                ResolutionOutcome::Unresolved(why) => o is None && why@ == spec_resolve_reason(
                    fs,
                    table,
                    requesting_file,
                    specifier,
                ),
            }
        }),
    ensures
        outcome_view(r1) == outcome_view(r2),
{
}

/// Extension probing wins over the directory-index fallback: when the
/// literal path is not a file but the path with `.js` appended is, probing
/// resolves to the `.js` file, whatever index files the directory holds.
pub proof fn lemma_extension_before_index(fs: FileSystem, base: Seq<char>)
    requires
        !spec_is_file(fs, base),
        spec_is_file(fs, base + ".js"@),
    ensures
        spec_probe_module(fs, base) == Some(base + ".js"@),
{
}

} // verus!
