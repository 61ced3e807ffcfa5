//! The verification run: checks the configured directories, reads and
//! parses the manifest, walks the dependency closure from the manifest's
//! entry points, reconciles the discovered bare specifiers with the declared
//! dependencies, and reports the findings.
//!
//! The run itself performs no I/O: it works on a filesystem snapshot and
//! reports what should be written back instead of writing it.

use vstd::prelude::*;
use vstd::string::StringExecFns;

use crate::fs_model::FileSystem;
use crate::json_editor::ChangeSet;
use crate::package_json_reader::PackageJson;
use crate::package_json_reader::get_package_json_entry_points;
use crate::package_json_reader::get_package_json_object;
use crate::package_json_reader::get_package_json_string;
use crate::package_json_reader::seq_contains_str;
use crate::package_json_reader::spec_is_entry_point;
use crate::package_json_reader::spec_manifest_matches;
use crate::package_json_reader::spec_manifest_text;
use crate::paths::resolve_dots;
use crate::paths::spec_resolve_dots;
use crate::paths::str_eq;
use crate::resolver::ModuleResolver;
use crate::resolver::build_manifest_table;
use crate::resolver::spec_table_matches;
use crate::runtime_dependencies_assurer;
use crate::runtime_dependencies_assurer::spec_missing_dependency_description;
use crate::runtime_dependencies_assurer::spec_missing_from;
use crate::runtime_dependencies_assurer::spec_unresolved_import_description;
use crate::value_objects::AbsoluteOutputDir;
use crate::value_objects::AbsolutePackageDir;
use crate::value_objects::AbsoluteSourceDir;
use crate::value_objects::spec_is_absolute;
use crate::walker::SpecifierClosure;
use crate::walker::spec_walk_post;
use crate::walker::walk;

verus! {

/// The missing-dependency findings a closure yields for a manifest.
pub open spec fn spec_missing_from_all(closure: SpecifierClosure, pj: PackageJson) -> Seq<
    Seq<char>,
> {
    spec_missing_from(closure.resolved_absolute_specifiers@, 0, pj)
}

/// The finding descriptions a closure yields for a manifest: one line per
/// resolved bare root missing from `dependencies`, then one per unresolved
/// bare root.
pub open spec fn spec_finding_descriptions(closure: SpecifierClosure, pj: PackageJson) -> Seq<
    Seq<char>,
> {
    spec_missing_from_all(closure, pj).map_values(
        |x: Seq<char>| spec_missing_dependency_description(x),
    ) + closure.unresolved_absolute_specifiers@.map_values(
        |x: String| spec_unresolved_import_description(x@),
    )
}

/// One choice of values a run can pass through — the parsed manifest, the
/// installed-manifest table, the entry points and their files, and the
/// walk's result — each tied to the snapshot by its own characterization,
/// together with what the report must then say: success exactly when the
/// findings are empty, else the failure message joins the finding
/// descriptions line by line.
pub open spec fn spec_run_witness(
    fs: FileSystem,
    package_dir: Seq<char>,
    output_dir: Seq<char>,
    pj: PackageJson,
    eps: Seq<String>,
    entry_files: Seq<String>,
    cl: SpecifierClosure,
    visited: Seq<String>,
    table: Seq<(String, PackageJson)>,
    r: RunReport,
) -> bool {
    &&& spec_manifest_matches(pj, spec_manifest_text(fs.files@, package_dir + "/package.json"@))
    &&& spec_table_matches(table, fs)
    &&& (forall|x: Seq<char>|
        #![trigger seq_contains_str(eps, x)]
        seq_contains_str(eps, x) <==> spec_is_entry_point(pj, x))
    &&& entry_files.len() == eps.len()
    &&& (forall|k: int|
        0 <= k < entry_files.len() ==> (#[trigger] entry_files[k])@ == spec_resolve_dots(
            package_dir,
            eps[k]@,
        ))
    &&& spec_walk_post(fs, table, entry_files, output_dir, cl, visited)
    &&& ({
        let descs = spec_finding_descriptions(cl, pj);
        &&& (descs.len() == 0 ==> r.outcome is Ok)
        &&& (descs.len() > 0 ==> (r.outcome matches Err(m) && m@ == spec_join_lines(descs)))
    })
}

/// The run's outcome is decided by the findings of a dependency-closure walk
/// over the snapshot, driven by the manifest at the package root.
pub open spec fn spec_run_findings_decide(
    fs: FileSystem,
    package_dir: Seq<char>,
    output_dir: Seq<char>,
    r: RunReport,
) -> bool {
    exists|pj: PackageJson, eps: Seq<String>, entry_files: Seq<String>, cl: SpecifierClosure, visited: Seq<String>, table: Seq<(String, PackageJson)>|
        #[trigger] spec_run_witness(
            fs,
            package_dir,
            output_dir,
            pj,
            eps,
            entry_files,
            cl,
            visited,
            table,
            r,
        )
}

/// The lines joined with a newline between them.
pub open spec fn spec_join_lines(parts: Seq<Seq<char>>) -> Seq<char>
    decreases parts.len(),
{
    if parts.len() == 0 {
        Seq::<char>::empty()
    } else if parts.len() == 1 {
        parts[0]
    } else {
        parts[0] + seq!['\n'] + spec_join_lines(parts.drop_first())
    }
}

fn join_descriptions(change_sets: &[ChangeSet], i: usize) -> (r: String)
    requires
        i <= change_sets@.len(),
    ensures
        r@ == spec_join_lines(
            change_sets@.map_values(|c: ChangeSet| c.description@).skip(i as int),
        ),
    decreases change_sets@.len() - i,
{
    let n = change_sets.len();
    let ghost descs = change_sets@.map_values(|c: ChangeSet| c.description@);
    if i == n {
        proof {
            assert(descs.skip(i as int) =~= Seq::<Seq<char>>::empty());
        }
        String::new()
    } else if i + 1 == n {
        proof {
            assert(descs.skip(i as int) =~= seq![descs[i as int]]);
        }
        change_sets[i].description.clone()
    } else {
        let rest = join_descriptions(change_sets, i + 1);
        let mut out = change_sets[i].description.clone();
        out.append("\n");
        let out2 = out.concat(rest.as_str());
        proof {
            assert(descs.skip(i as int).drop_first() =~= descs.skip(i as int + 1));
            assert(descs.skip(i as int)[0] == descs[i as int]);
            reveal_strlit("\n");
            assert(out2@ =~= spec_join_lines(descs.skip(i as int)));
        }
        out2
    }
}

/// One line per finding: the change sets' descriptions joined by newlines.
pub fn changesets_to_err_string(change_sets: Vec<ChangeSet>) -> (r: String)
    ensures
        r@ == spec_join_lines(change_sets@.map_values(|c: ChangeSet| c.description@)),
{
    let sl = change_sets.as_slice();
    proof {
        assert(sl@ =~= change_sets@);
        assert(sl@.map_values(|c: ChangeSet| c.description@).skip(0) =~= change_sets@.map_values(
            |c: ChangeSet| c.description@,
        ));
    }
    join_descriptions(sl, 0)
}

/// The value following the first occurrence of `flag` among the arguments.
pub open spec fn spec_flag_value(args: Seq<String>, flag: Seq<char>) -> Option<Seq<char>>
    decreases args.len(),
{
    if args.len() == 0 {
        None
    } else if args[0]@ == flag {
        if args.len() >= 2 {
            Some(args[1]@)
        } else {
            None
        }
    } else {
        spec_flag_value(args.drop_first(), flag)
    }
}

/// The argument following the first occurrence of `flag`, if any.
pub fn flag_value(args: &[String], flag: &str) -> (r: Option<String>)
    ensures
        match r {
            Some(v) => spec_flag_value(args@, flag@) == Some(v@),
            None => spec_flag_value(args@, flag@) is None,
        },
{
    let n = args.len();
    let mut i: usize = 0;
    proof {
        assert(args@.skip(0) =~= args@);
    }
    while i < n
        invariant
            0 <= i <= n,
            n == args@.len(),
            spec_flag_value(args@, flag@) == spec_flag_value(args@.skip(i as int), flag@),
        decreases n - i,
    {
        proof {
            assert(args@.skip(i as int)[0] == args@[i as int]);
            assert(args@.skip(i as int).drop_first() =~= args@.skip(i as int + 1));
            if i + 1 < n {
                assert(args@.skip(i as int)[1] == args@[i as int + 1]);
            }
        }
        if str_eq(args[i].as_str(), flag) {
            if i + 1 < n {
                return Some(args[i + 1].clone());
            } else {
                return None;
            }
        }
        i += 1;
    }
    proof {
        assert(args@.skip(n as int) =~= Seq::<String>::empty());
    }
    None
}

/// Whether the arguments name the three directories the run needs, each with
/// an absolute path.
pub open spec fn spec_params_ok(args: Seq<String>) -> bool {
    &&& spec_flag_value(args, "--package-dir"@) matches Some(p)
        && crate::value_objects::spec_is_absolute(p)
    &&& spec_flag_value(args, "--source-dir"@) matches Some(p)
        && crate::value_objects::spec_is_absolute(p)
    &&& spec_flag_value(args, "--output-dir"@) matches Some(p)
        && crate::value_objects::spec_is_absolute(p)
}

/// The configuration error the arguments cause: the first missing flag, in
/// the order the parameters are read, else the first non-absolute value.
pub open spec fn spec_params_error(args: Seq<String>) -> Seq<char> {
    if spec_flag_value(args, "--package-dir"@) is None {
        "Missing required parameter --package-dir"@
    } else if spec_flag_value(args, "--source-dir"@) is None {
        "Missing required parameter --source-dir"@
    } else if spec_flag_value(args, "--output-dir"@) is None {
        "Missing required parameter --output-dir"@
    } else if !spec_is_absolute(spec_flag_value(args, "--package-dir"@)->Some_0) {
        "Package directory must be an absolute path"@
    } else if !spec_is_absolute(spec_flag_value(args, "--source-dir"@)->Some_0) {
        "Source directory must be an absolute path"@
    } else {
        "Output directory must be an absolute path"@
    }
}

/// Extracts the run's parameters from the arguments: the three directories,
/// each given after its flag as an absolute path, and whether updating the
/// manifest was permitted.
pub fn get_params(args: &[String]) -> (r: Result<
    (AbsolutePackageDir, AbsoluteSourceDir, AbsoluteOutputDir, bool),
    String,
>)
    ensures
        match r {
            Ok(t) => {
                &&& spec_params_ok(args@)
                &&& t.0.wf()
                &&& spec_flag_value(args@, "--package-dir"@) == Some(t.0.spec_value())
                &&& spec_flag_value(args@, "--source-dir"@) == Some(t.1.spec_value())
                &&& spec_flag_value(args@, "--output-dir"@) == Some(t.2.spec_value())
                &&& t.3 == exists|k: int|
                    0 <= k < args@.len() && (#[trigger] args@[k])@
                        == "--can-update-package-json"@
            },
            Err(m) => !spec_params_ok(args@) && m@ == spec_params_error(args@),
        },
{
    let package_value = match flag_value(args, "--package-dir") {
        Some(v) => v,
        None => {
            return Err(String::from_str("Missing required parameter --package-dir"));
        },
    };
    let source_value = match flag_value(args, "--source-dir") {
        Some(v) => v,
        None => {
            return Err(String::from_str("Missing required parameter --source-dir"));
        },
    };
    let output_value = match flag_value(args, "--output-dir") {
        Some(v) => v,
        None => {
            return Err(String::from_str("Missing required parameter --output-dir"));
        },
    };
    let absolute_package_dir = match AbsolutePackageDir::new(package_value) {
        Ok(d) => d,
        Err(e) => {
            return Err(e);
        },
    };
    let absolute_source_dir = match AbsoluteSourceDir::new(source_value) {
        Ok(d) => d,
        Err(e) => {
            return Err(e);
        },
    };
    let absolute_output_dir = match AbsoluteOutputDir::new(output_value) {
        Ok(d) => d,
        Err(e) => {
            return Err(e);
        },
    };
    let can_update_package_json = get_can_update_package_json(args);
    Ok((absolute_package_dir, absolute_source_dir, absolute_output_dir, can_update_package_json))
}

/// Runs the verification with parameters taken from command-line style
/// arguments, over a filesystem snapshot. Arguments that do not name the
/// three directories as absolute paths abort the run with the configuration
/// error and no write-back is owed; on good parameters the run behaves as
/// [`run_by_params`] for the named directories, so when both nested-directory
/// checks pass the outcome is decided by the walk's findings.
pub fn run_by_args(fs: &FileSystem, args: &[String]) -> (r: RunReport)
    ensures
        !spec_params_ok(args@) ==> r.package_json_write is None && (r.outcome matches Err(m)
            && m@ == spec_params_error(args@)),
        ({
            let pkg = spec_flag_value(args@, "--package-dir"@)->Some_0;
            let src = spec_flag_value(args@, "--source-dir"@)->Some_0;
            let out = spec_flag_value(args@, "--output-dir"@)->Some_0;
            spec_params_ok(args@) && crate::paths::spec_is_inside(src, pkg)
                && crate::paths::spec_is_inside(out, pkg) ==> spec_run_findings_decide(
                *fs,
                pkg,
                out,
                r,
            )
        }),
{
    match get_params(args) {
        Ok((absolute_package_dir, absolute_source_dir, absolute_output_dir,
            can_update_package_json)) => run_by_params(
            fs,
            &absolute_package_dir,
            &absolute_source_dir,
            &absolute_output_dir,
            can_update_package_json,
        ),
        Err(message) => RunReport { outcome: Err(message), package_json_write: None },
    }
}

/// Whether the caller granted permission to update the manifest file:
/// the update flag occurs among the arguments.
pub fn get_can_update_package_json(args: &[String]) -> (r: bool)
    ensures
        r == exists|k: int|
            0 <= k < args@.len() && (#[trigger] args@[k])@ == "--can-update-package-json"@,
{
    let n = args.len();
    let mut i: usize = 0;
    while i < n
        invariant
            0 <= i <= n,
            n == args@.len(),
            forall|k: int| 0 <= k < i ==> (#[trigger] args@[k])@ != "--can-update-package-json"@,
        decreases n - i,
    {
        if str_eq(args[i].as_str(), "--can-update-package-json") {
            return true;
        }
        i += 1;
    }
    false
}

/// Builds the module resolver for validated directories. Callers must have
/// established that the source and output directories lie inside the package
/// directory.
pub fn get_module_resolver(
    absolute_package_dir: &AbsolutePackageDir,
    absolute_source_dir: &AbsoluteSourceDir,
    absolute_output_dir: &AbsoluteOutputDir,
) -> (r: ModuleResolver)
    requires
        absolute_package_dir.wf(),
        crate::paths::spec_is_inside(
            absolute_source_dir.spec_value(),
            absolute_package_dir.spec_value(),
        ),
        crate::paths::spec_is_inside(
            absolute_output_dir.spec_value(),
            absolute_package_dir.spec_value(),
        ),
    ensures
        r.wf(),
        r.absolute_package_dir@ == absolute_package_dir.spec_value(),
        r.absolute_source_dir@ == absolute_source_dir.spec_value(),
        r.absolute_output_dir@ == absolute_output_dir.spec_value(),
{
    ModuleResolver::new(absolute_package_dir, absolute_source_dir, absolute_output_dir)
}

/// Splits change sets into automatic ones (with edits) and manual ones
/// (advisory only), keeping their order.
pub fn partition_change_sets(change_sets: Vec<ChangeSet>) -> (r: (Vec<ChangeSet>, Vec<ChangeSet>))
    ensures
        r.0@.len() + r.1@.len() == change_sets@.len(),
        forall|k: int| 0 <= k < r.0@.len() ==> (#[trigger] r.0@[k]).changes@.len() > 0,
        forall|k: int| 0 <= k < r.1@.len() ==> (#[trigger] r.1@[k]).changes@.len() == 0,
        (forall|k: int| 0 <= k < change_sets@.len() ==> (#[trigger] change_sets@[k]).changes@.len()
            == 0) ==> r.0@.len() == 0 && r.1@ == change_sets@,
{
    let ghost orig = change_sets@;
    let mut automatic: Vec<ChangeSet> = Vec::new();
    let mut manual: Vec<ChangeSet> = Vec::new();
    let mut rest = change_sets;
    proof {
        assert(rest@ =~= orig.skip(0));
    }
    while rest.len() > 0
        invariant
            automatic@.len() + manual@.len() + rest@.len() == orig.len(),
            rest@ =~= orig.skip((automatic@.len() + manual@.len()) as int),
            forall|k: int| 0 <= k < automatic@.len() ==> (#[trigger] automatic@[k]).changes@.len()
                > 0,
            forall|k: int| 0 <= k < manual@.len() ==> (#[trigger] manual@[k]).changes@.len() == 0,
            (forall|k: int| 0 <= k < orig.len() ==> (#[trigger] orig[k]).changes@.len() == 0) ==> (
            automatic@.len() == 0 && manual@ =~= orig.take(manual@.len() as int)),
        decreases rest@.len(),
    {
        let ghost done = (automatic@.len() + manual@.len()) as int;
        let ghost pre_rest = rest@;
        let cs = rest.remove(0);
        proof {
            assert(cs == orig[done]);
            assert(rest@ =~= orig.skip(done + 1));
        }
        if cs.changes.len() > 0 {
            automatic.push(cs);
        } else {
            let ghost pre_manual = manual@;
            manual.push(cs);
            proof {
                if forall|k: int| 0 <= k < orig.len() ==> (#[trigger] orig[k]).changes@.len()
                    == 0 {
                    assert(pre_manual =~= orig.take(pre_manual.len() as int));
                    assert(manual@ =~= orig.take(manual@.len() as int));
                }
            }
        }
    }
    proof {
        assert(rest@.len() == 0);
        if forall|k: int| 0 <= k < orig.len() ==> (#[trigger] orig[k]).changes@.len() == 0 {
            assert(automatic@.len() == 0);
            assert(manual@.len() == orig.len());
            assert(manual@ =~= orig.take(manual@.len() as int));
            assert(orig.take(orig.len() as int) =~= orig);
        }
    }
    (automatic, manual)
}

/// What a run decided: its exit outcome, and the manifest text to persist
/// when the caller granted update permission and findings were produced.
pub struct RunReport {
    /// Success, or a failure message with one line per remaining finding.
    pub outcome: Result<(), String>,
    /// The manifest text to write back, when a write-back is owed.
    pub package_json_write: Option<String>,
}

/// Runs the verification over a filesystem snapshot.
///
/// The source and output directories must lie inside the package directory,
/// else the run aborts with a configuration error before any resolution
/// work. Otherwise the manifest is read and parsed, the closure is walked
/// from its entry points, and the dependency findings decide the outcome:
/// no findings is success; findings without update permission fail at once;
/// with update permission the manifest text is owed a write-back, automatic
/// change sets are applied (the dependency findings are all advisory, so the
/// text is unchanged), and the remaining manual findings fail the run.
pub fn run_by_params(
    fs: &FileSystem,
    absolute_package_dir: &AbsolutePackageDir,
    absolute_source_dir: &AbsoluteSourceDir,
    absolute_output_dir: &AbsoluteOutputDir,
    can_update_package_json: bool,
) -> (r: RunReport)
    requires
        absolute_package_dir.wf(),
    ensures
        ({
            let src_ok = crate::paths::spec_is_inside(
                absolute_source_dir.spec_value(),
                absolute_package_dir.spec_value(),
            );
            let out_ok = crate::paths::spec_is_inside(
                absolute_output_dir.spec_value(),
                absolute_package_dir.spec_value(),
            );
            &&& (!src_ok ==> r.package_json_write is None && (r.outcome matches Err(m)
                && m@ == "Source directory must be inside the package directory"@))
            &&& (src_ok && !out_ok ==> r.package_json_write is None && (r.outcome matches Err(m)
                && m@ == "Output directory must be inside the package directory"@))
            &&& (src_ok && out_ok ==> (r.package_json_write is Some <==> (can_update_package_json
                && r.outcome is Err)))
            &&& (src_ok && out_ok ==> match r.package_json_write {
                Some(c) => {
                    let path = absolute_package_dir.spec_value() + "/package.json"@;
                    match crate::fs_model::spec_lookup(fs.files@, path) {
                        Some(text) => c@ == text,
                        None => c@.len() == 0,
                    }
                },
                None => true,
            })
            &&& (src_ok && out_ok ==> spec_run_findings_decide(
                *fs,
                absolute_package_dir.spec_value(),
                absolute_output_dir.spec_value(),
                r,
            ))
        }),
{
    if !absolute_source_dir.is_package_dir_child(absolute_package_dir) {
        return RunReport {
            outcome: Err(
                String::from_str("Source directory must be inside the package directory"),
            ),
            package_json_write: None,
        };
    }
    if !absolute_output_dir.is_package_dir_child(absolute_package_dir) {
        return RunReport {
            outcome: Err(
                String::from_str("Output directory must be inside the package directory"),
            ),
            package_json_write: None,
        };
    }
    let package_json_content = get_package_json_string(fs, absolute_package_dir);
    let package_json = get_package_json_object(package_json_content.as_str());

    let module_resolver = get_module_resolver(
        absolute_package_dir,
        absolute_source_dir,
        absolute_output_dir,
    );
    let manifests = build_manifest_table(fs);

    let entry_points = get_package_json_entry_points(&package_json);
    let mut entry_files: Vec<String> = Vec::new();
    let mut i: usize = 0;
    while i < entry_points.len()
        invariant
            0 <= i <= entry_points@.len(),
            entry_files@.len() == i,
            forall|k: int|
                0 <= k < i ==> (#[trigger] entry_files@[k])@ == spec_resolve_dots(
                    absolute_package_dir.spec_value(),
                    entry_points@[k]@,
                ),
        decreases entry_points@.len() - i,
    {
        entry_files.push(
            resolve_dots(absolute_package_dir.value().as_str(), entry_points[i].as_str()),
        );
        i += 1;
    }
    let (closure, visited_files) = walk(
        &module_resolver,
        fs,
        &manifests,
        &entry_files,
        absolute_output_dir.value().as_str(),
    );

    let mut change_sets: Vec<ChangeSet> = Vec::new();
    let ghost pre = change_sets@;
    runtime_dependencies_assurer::run(
        &closure.resolved_absolute_specifiers,
        &closure.unresolved_absolute_specifiers,
        &package_json,
        &mut change_sets,
    );
    proof {
        let missing = spec_missing_from_all(closure, package_json);
        let descs = spec_finding_descriptions(closure, package_json);
        assert(change_sets@.len() == descs.len());
        assert forall|k: int| 0 <= k < change_sets@.len() implies (#[trigger] change_sets@[
            k]).changes@.len() == 0 && change_sets@[k].description@ == descs[k] by {
            if k < missing.len() {
                assert(change_sets@[pre.len() + k].changes@.len() == 0);
                assert(change_sets@[pre.len() + k].description@
                    == spec_missing_dependency_description(missing[k]));
            } else {
                let j = k - missing.len();
                assert(change_sets@[pre.len() + missing.len() + j].changes@.len() == 0);
                assert(change_sets@[pre.len() + missing.len() + j].description@
                    == spec_unresolved_import_description(
                    closure.unresolved_absolute_specifiers@[j]@,
                ));
            }
        }
        assert(change_sets@.map_values(|c: ChangeSet| c.description@) =~= descs);
        assert(package_json_content@ == spec_manifest_text(
            fs.files@,
            absolute_package_dir.spec_value() + "/package.json"@,
        ));
    }
    let ghost pkg_v = absolute_package_dir.spec_value();
    let ghost out_v = absolute_output_dir.spec_value();
    let ghost descs = spec_finding_descriptions(closure, package_json);

    if change_sets.len() == 0 {
        let report = RunReport { outcome: Ok(()), package_json_write: None };
        proof {
            assert(spec_run_witness(
                *fs,
                pkg_v,
                out_v,
                package_json,
                entry_points@,
                entry_files@,
                closure,
                visited_files@,
                manifests.entries@,
                report,
            ));
        }
        return report;
    }
    if !can_update_package_json {
        let ghost cs = change_sets@;
        let message = changesets_to_err_string(change_sets);
        let report = RunReport { outcome: Err(message), package_json_write: None };
        proof {
            assert(spec_run_witness(
                *fs,
                pkg_v,
                out_v,
                package_json,
                entry_points@,
                entry_files@,
                closure,
                visited_files@,
                manifests.entries@,
                report,
            ));
        }
        return report;
    }
    let ghost all = change_sets@;
    let (automatic, manual) = partition_change_sets(change_sets);
    proof {
        assert(forall|k: int| 0 <= k < all.len() ==> (#[trigger] all[k]).changes@.len() == 0);
        assert(automatic@.len() == 0);
        assert(manual@ == all);
    }
    // The dependency findings are all advisory, so there are no automatic
    // edits to apply and the persisted manifest text is unchanged.
    let write_back = Some(package_json_content);
    if manual.len() == 0 {
        return RunReport { outcome: Ok(()), package_json_write: write_back };
    }
    let message = changesets_to_err_string(manual);
    let report = RunReport { outcome: Err(message), package_json_write: write_back };
    proof {
        assert(manual@.map_values(|c: ChangeSet| c.description@) =~= descs);
        assert(spec_run_witness(
            *fs,
            pkg_v,
            out_v,
            package_json,
            entry_points@,
            entry_files@,
            closure,
            visited_files@,
            manifests.entries@,
            report,
        ));
    }
    report
}

} // verus!
